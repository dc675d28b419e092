//! Status effects that abilities apply to the players they hit.

use vstd::prelude::*;

use crate::Entity;

verus! {

/// The kind of a lasting status effect.
#[derive(Debug, Clone, Copy, PartialEq, Eq, PartialOrd, Ord, Structural)]
pub enum StatusKind {
    Poison,
    Burn,
}

impl StatusKind {
    /// The name under which the status keeps its strength.
    pub fn key(&self) -> (k: &'static str)
        ensures
            k@ == (match *self {
                StatusKind::Poison => "Poison"@,
                StatusKind::Burn => "Burn"@,
            }),
    {
        match self {
            StatusKind::Poison => "Poison",
            StatusKind::Burn => "Burn",
        }
    }
}

/// Applies a status of a kind and strength to the players it hits.
#[derive(Debug, Clone, Copy, PartialEq, Eq, Structural)]
pub struct StatusEffectApplier {
    pub effect_kind: StatusKind,
    pub amount: u32,
}

impl StatusEffectApplier {
    pub fn new(effect_kind: StatusKind, amount: u32) -> (a: Self)
        ensures
            a.effect_kind == effect_kind,
            a.amount == amount,
    {
        Self { effect_kind, amount }
    }
}

/// How an attribute is changed by an effect.
#[derive(Debug, Clone, Copy, PartialEq, Eq, Structural)]
pub enum ChangeOp {
    Add,
    Sub,
}

/// A change of an attribute of the hit player's deck, by the value of an
/// expression over the attributes of the roles taking part.
pub struct AttributeChange {
    pub attribute: String,
    pub op: ChangeOp,
    pub expression: String,
}

/// An effect applied once.
pub enum OneShotEffect {
    Mod(AttributeChange),
    Instant(AttributeChange),
}

/// What a hit does: change attributes once, or leave a lasting status.
pub enum EffectMod {
    OneShot(OneShotEffect),
    SpawnTickable(StatusEffectApplier),
}

/// A lasting status on a player: its strength, its key, and who applied it.
#[derive(Debug, Clone, Copy)]
pub struct EffectHandler {
    pub amount: u32,
    pub effect_key: &'static str,
    pub status_applied_by: Option<Entity>,
}

impl EffectHandler {
    /// The status left on a player by an applier, applied by `source`.
    pub fn applied_by(amount: u32, source: Entity, kind: StatusKind) -> (h: Self)
        ensures
            h.amount == amount,
            h.effect_key@ == (match kind {
                StatusKind::Poison => "Poison"@,
                StatusKind::Burn => "Burn"@,
            }),
            h.status_applied_by == Some(source),
    {
        Self { amount, effect_key: kind.key(), status_applied_by: Some(source) }
    }

    /// The roles that a tick of the status is evaluated with: the applicator
    /// first when there is one, then the status itself.
    pub fn tick_roles(&self, effect_entity: Entity) -> (roles: Vec<(&'static str, Entity)>)
        ensures
            roles@.len() == (if self.status_applied_by is Some { 2int } else { 1int }),
            roles@.last().0@ == "Effect"@,
            roles@.last().1 == effect_entity,
            self.status_applied_by matches Some(e) ==> roles@[0].0@ == "Applicator"@ && roles@[0].1 == e,
    {
        proof {
            reveal_strlit("Effect");
            reveal_strlit("Applicator");
        }
        match self.status_applied_by {
            Some(e) => vec![("Applicator", e), ("Effect", effect_entity)],
            None => vec![("Effect", effect_entity)],
        }
    }
}

/// The effect an action spawns: the root of the action and the entity cast.
#[derive(Debug, Clone, Copy, PartialEq, Eq, Structural)]
pub struct SpawnEffect {
    pub action_root: Entity,
    pub casted: Entity,
}

impl SpawnEffect {
    pub fn new(action_root: Entity, casted: Entity) -> (s: Self)
        ensures
            s.action_root == action_root,
            s.casted == casted,
    {
        Self { action_root, casted }
    }
}

/// A status effect ticks.
#[derive(Debug, Clone, Copy, PartialEq, Eq, Structural)]
pub struct Tick {
    pub status: Entity,
}

} // verus!
