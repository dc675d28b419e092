//! The action selected for use.

use vstd::prelude::*;

use crate::Entity;

verus! {

/// The action selected for use, if any.
#[derive(Debug, Clone, Copy, PartialEq, Eq, Structural)]
pub struct SelectedAction(pub Option<Entity>);

/// Selects the first registered action, if there is one; otherwise the
/// selection stays as it is.
pub fn select_first_action(selected: &mut SelectedAction, actions: &Vec<Entity>)
    ensures
        actions@.len() > 0 ==> *final(selected) == SelectedAction(Some(actions@[0])),
        actions@.len() == 0 ==> *final(selected) == *old(selected),
{
    if actions.len() > 0 {
        selected.0 = Some(actions[0]);
    }
}

} // verus!
