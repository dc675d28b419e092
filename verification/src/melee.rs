//! Melee abilities.

use vstd::prelude::*;

verus! {

/// Marks a melee effect.
#[derive(Debug, Clone, Copy, PartialEq, Eq, Structural)]
pub struct MeleeEffect;

} // verus!
