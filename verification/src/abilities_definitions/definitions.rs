//! Entries of the ability registry.

use vstd::prelude::*;

verus! {

/// An ability registered under a name.
pub struct AbilityEntry {
    pub register_name: String,
}

/// Marks an ability that serves as a template.
#[derive(Debug, Clone, Copy, PartialEq, Eq, Structural)]
pub struct TemplateAbility;

impl AbilityEntry {
    pub fn new(name: &'static str) -> (e: Self)
        ensures
            e.register_name@ == name@,
    {
        let register_name = name.to_string();
        proof {
            vstd::string::to_string_from_display_ensures_for_str(name, register_name);
        }
        Self { register_name }
    }
}

} // verus!
