//! Ability templates, the status effects abilities apply, and the typestate
//! markers of the ability template builder.

use vstd::prelude::*;

pub mod abilities_templates;
pub mod effects;

verus! {

/// A stage of building an ability template.
pub trait AbilityBuilderState {}

/// The builder has no commands to spawn with yet.
pub struct CommandsMissing;
impl AbilityBuilderState for CommandsMissing {}

/// The builder has commands to spawn with.
pub struct CommandsPassed;
impl AbilityBuilderState for CommandsPassed {}

/// Marks a projectile ability.
pub struct Projectile;

} // verus!
