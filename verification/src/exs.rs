//! Experimental status effects: poison, healing, and effects triggered by
//! hits.

use vstd::prelude::*;

use crate::Entity;

verus! {

/// Marks a poison status.
#[derive(Debug, Clone, Copy, PartialEq, Eq, Structural)]
pub struct Poison;

/// Marks a healing status.
#[derive(Debug, Clone, Copy, PartialEq, Eq, Structural)]
pub struct Healing;

/// Marks an effect that ticks when its holder is hit.
#[derive(Debug, Clone, Copy, PartialEq, Eq, Structural)]
pub struct TickOnHit;

/// An entity was hit.
#[derive(Debug, Clone, Copy, PartialEq, Eq, Structural)]
pub struct Hit {
    pub entity: Entity,
}

/// The health of a character.
#[derive(Debug, Clone, Copy, PartialEq, Eq, Structural)]
pub struct Health(pub i32);

/// A poison tick takes 10 health.
pub fn poison_tick(health: &mut Health)
    requires
        old(health).0 >= i32::MIN + 10,
    ensures
        final(health).0 == old(health).0 - 10,
{
    health.0 = health.0 - 10;
}

/// A healing tick gives 10 health.
pub fn heal_tick(health: &mut Health)
    requires
        old(health).0 <= i32::MAX - 10,
    ensures
        final(health).0 == old(health).0 + 10,
{
    health.0 = health.0 + 10;
}

} // verus!
