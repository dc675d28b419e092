//! The kinds of base ability a card can carry.

use vstd::prelude::*;

verus! {

/// The base ability that a card template is built on.
#[derive(Debug, Clone, Copy, PartialEq, Eq, Hash, Structural)]
pub enum AbilityKind {
    Projectile,
    Melee,
}

} // verus!

verus! {

/// Who an ability cast is invoked by.
#[derive(Debug, Clone, Copy, PartialEq, Eq, Structural)]
pub enum CastInvokedBy {
    CurrentlyPlaying,
    Specific(crate::Entity),
}

/// Who cast an action: the playing entity and the caster.
#[derive(Debug, Clone, Copy, PartialEq, Eq, Structural)]
pub struct ActionCastData {
    pub source_playing_entity: crate::Entity,
    pub source_caster_entity: crate::Entity,
}

impl ActionCastData {
    pub fn new(source_playing_entity: crate::Entity, source_caster_entity: crate::Entity) -> (d: Self)
        ensures
            d.source_playing_entity == source_playing_entity,
            d.source_caster_entity == source_caster_entity,
    {
        Self { source_playing_entity, source_caster_entity }
    }
}

/// Marks a projectile ability.
pub struct Projectile;

/// The name the projectile ability is registered under.
pub const PROJECTILE_ABILITY: &'static str = "projectile_ability";

/// A request to cast the ability of a card at a target.
#[derive(Debug, Clone, Copy, PartialEq, Eq, Structural)]
pub struct AbilityCastRequested {
    pub card_entity: crate::Entity,
    pub invoked_by: CastInvokedBy,
    pub target: crate::Entity,
}

impl AbilityCastRequested {
    pub fn new(card_entity: crate::Entity, invoked_by: CastInvokedBy, target: crate::Entity) -> (r: Self)
        ensures
            r.card_entity == card_entity,
            r.invoked_by == invoked_by,
            r.target == target,
    {
        Self { card_entity, invoked_by, target }
    }
}

/// Marks an ability that is set up.
#[derive(Debug, Clone, Copy, PartialEq, Eq, Structural)]
pub struct AbilityInitialized;

/// An effect that invokes a template ability for a source.
#[derive(Debug, Clone, Copy, PartialEq, Eq, Structural)]
pub struct InvokingTriggerEffect {
    pub template_entity: crate::Entity,
    pub source: crate::Entity,
}

impl InvokingTriggerEffect {
    pub fn new(template_entity: crate::Entity, source: crate::Entity) -> (e: Self)
        ensures
            e.template_entity == template_entity,
            e.source == source,
    {
        Self { template_entity, source }
    }
}

/// The template an ability was made from.
#[derive(Debug, Clone, Copy, PartialEq, Eq, Structural)]
pub struct AbilityTemplate(pub crate::Entity);

} // verus!
