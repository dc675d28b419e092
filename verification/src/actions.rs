//! Actions a playing entity casts: their costs, their damage, the effects
//! they carry and the reactions those effects trigger.

use vstd::prelude::*;

use crate::Entity;

verus! {

/// The target is confused.
pub struct Confusion;

/// How far an action reaches.
#[derive(Debug, Clone, Copy, PartialEq, Eq, Default, Structural)]
pub struct Range(pub i32);

/// A kind of damage.
pub trait DamageKind {}

/// Physical damage.
#[derive(Debug, Clone, Copy, PartialEq, Eq, Default, Structural)]
pub struct Physical;

/// Ranged physical damage.
#[derive(Debug, Clone, Copy, PartialEq, Eq, Default, Structural)]
pub struct Ranged(pub i32);

/// Melee physical damage.
#[derive(Debug, Clone, Copy, PartialEq, Eq, Default, Structural)]
pub struct Melee(pub i32);

/// Piercing physical damage.
#[derive(Debug, Clone, Copy, PartialEq, Eq, Default, Structural)]
pub struct Piercing(pub i32);

/// Fire damage.
#[derive(Debug, Clone, Copy, PartialEq, Eq, Default, Structural)]
pub struct Fire(pub i32);

/// Electric damage.
#[derive(Debug, Clone, Copy, PartialEq, Eq, Default, Structural)]
pub struct Electric(pub i32);

/// Water damage.
#[derive(Debug, Clone, Copy, PartialEq, Eq, Default, Structural)]
pub struct Water(pub i32);

impl DamageKind for Physical {}
impl DamageKind for Ranged {}
impl DamageKind for Melee {}
impl DamageKind for Piercing {}
impl DamageKind for Fire {}
impl DamageKind for Electric {}
impl DamageKind for Water {}

/// Damage dealt.
#[derive(Debug, Clone, Copy, PartialEq, Eq, Structural)]
pub struct Damage(pub i32);

/// The movement points an action costs.
#[derive(Debug, Clone, Copy, PartialEq, Eq, Structural)]
pub struct MovementPoints(pub i32);

/// The action points an action costs.
#[derive(Debug, Clone, Copy, PartialEq, Eq, Default, Structural)]
pub struct ActionPoints(pub i32);

/// An effect an action carries to its target.
#[derive(Debug, Clone, Copy, PartialEq, Eq, Structural)]
pub enum ActionEffect {
    Split,
    Infuse,
}

/// The effects an action carries.
pub struct ActionEffects(pub Vec<ActionEffect>);

impl ActionEffects {
    /// No effects.
    pub fn default() -> (e: Self)
        ensures
            e.0@.len() == 0,
    {
        Self(Vec::new())
    }
}

/// The entities an action targets.
pub struct ActionTargets(pub Vec<Entity>);

/// Marks an action that was used.
#[derive(Debug, Clone, Copy, PartialEq, Eq, Structural)]
pub struct UsedAction;

/// The main target of an action.
#[derive(Debug, Clone, Copy, PartialEq, Eq, Structural)]
pub struct MainTarget(pub Entity);

/// Marks an action.
#[derive(Debug, Clone, Copy, PartialEq, Eq, Structural)]
pub struct Action;

/// An action was cast.
#[derive(Debug, Clone, Copy, PartialEq, Eq, Structural)]
pub struct ActionCast {
    pub entity: Entity,
}

/// An effect of an action reached an entity.
#[derive(Debug, Clone, Copy, PartialEq, Eq, Structural)]
pub struct ActionEffectReceived {
    pub entity: Entity,
    pub key: ActionEffect,
}

/// A stage of building an action.
pub trait ActionBuilderState {}

/// Building has not started.
pub struct ActionCreationStart;
impl ActionBuilderState for ActionCreationStart {}

/// The action exists.
pub struct ActionCreated;
impl ActionBuilderState for ActionCreated {}

/// The action has a name.
pub struct ActionNameDefined;
impl ActionBuilderState for ActionNameDefined {}

/// The action has a range.
pub struct ActionRangeDefined;
impl ActionBuilderState for ActionRangeDefined {}

/// The action has a cost in action points.
pub struct ActionPointsDefined;
impl ActionBuilderState for ActionPointsDefined {}

/// The action deals damage.
pub struct ActionDamageDefined;
impl ActionBuilderState for ActionDamageDefined {}

/// The parts of an action given so far.
pub struct ActionParts {
    pub name: Option<&'static str>,
    pub range: Option<Range>,
    pub movement_points: Option<MovementPoints>,
    pub action_points: Option<ActionPoints>,
    pub melee: Option<Melee>,
    pub ranged: Option<Ranged>,
    pub effects: Option<Vec<ActionEffect>>,
}

/// Builds an action in order: name, range, costs, then damage; the state
/// `S` tells which parts are given.
pub struct ActionBuilder<S: ActionBuilderState> {
    pub _state: core::marker::PhantomData<S>,
    pub entity: Entity,
    pub parts: ActionParts,
}

impl<S: ActionBuilderState> ActionBuilder<S> {
    /// The entity the action is built on.
    pub fn get_entity(self) -> (e: Entity)
        ensures
            e == self.entity,
    {
        self.entity
    }

    /// Gives the action its effects.
    pub fn with_effects(self, effects: Vec<ActionEffect>) -> (b: Self)
        ensures
            b.entity == self.entity,
            b.parts.effects matches Some(v) && v@ == effects@,
            b.parts.name == self.parts.name,
            b.parts.range == self.parts.range,
            b.parts.movement_points == self.parts.movement_points,
            b.parts.action_points == self.parts.action_points,
            b.parts.melee == self.parts.melee,
            b.parts.ranged == self.parts.ranged,
    {
        let mut s = self;
        s.parts.effects = Some(effects);
        s
    }

    /// The same parts, at another stage.
    fn advance<T: ActionBuilderState>(self) -> (b: ActionBuilder<T>)
        ensures
            b.entity == self.entity,
            b.parts == self.parts,
    {
        ActionBuilder { _state: core::marker::PhantomData, entity: self.entity, parts: self.parts }
    }
}

impl ActionBuilder<ActionCreationStart> {
    /// Starts an action on `entity`, with no parts.
    pub fn empty(entity: Entity) -> (b: ActionBuilder<ActionCreated>)
        ensures
            b.entity == entity,
            b.parts.name.is_none(),
            b.parts.range.is_none(),
            b.parts.movement_points.is_none(),
            b.parts.action_points.is_none(),
            b.parts.melee.is_none(),
            b.parts.ranged.is_none(),
            b.parts.effects.is_none(),
    {
        ActionBuilder {
            _state: core::marker::PhantomData,
            entity,
            parts: ActionParts {
                name: None,
                range: None,
                movement_points: None,
                action_points: None,
                melee: None,
                ranged: None,
                effects: None,
            },
        }
    }
}

impl ActionBuilder<ActionCreated> {
    pub fn with_name(self, name: &'static str) -> (b: ActionBuilder<ActionNameDefined>)
        ensures
            b.entity == self.entity,
            b.parts.name == Some(name),
            b.parts.range == self.parts.range,
            b.parts.movement_points == self.parts.movement_points,
            b.parts.action_points == self.parts.action_points,
            b.parts.melee == self.parts.melee,
            b.parts.ranged == self.parts.ranged,
            b.parts.effects == self.parts.effects,
    {
        let mut s = self;
        s.parts.name = Some(name);
        s.advance()
    }
}

impl ActionBuilder<ActionNameDefined> {
    pub fn with_range(self, range: i32) -> (b: ActionBuilder<ActionRangeDefined>)
        ensures
            b.entity == self.entity,
            b.parts.range == Some(Range(range)),
            b.parts.name == self.parts.name,
            b.parts.movement_points == self.parts.movement_points,
            b.parts.action_points == self.parts.action_points,
            b.parts.melee == self.parts.melee,
            b.parts.ranged == self.parts.ranged,
            b.parts.effects == self.parts.effects,
    {
        let mut s = self;
        s.parts.range = Some(Range(range));
        s.advance()
    }
}

impl ActionBuilder<ActionRangeDefined> {
    pub fn with_mp_cost(self, movement_points: i32) -> (b: Self)
        ensures
            b.entity == self.entity,
            b.parts.movement_points == Some(MovementPoints(movement_points)),
            b.parts.name == self.parts.name,
            b.parts.range == self.parts.range,
            b.parts.action_points == self.parts.action_points,
            b.parts.melee == self.parts.melee,
            b.parts.ranged == self.parts.ranged,
            b.parts.effects == self.parts.effects,
    {
        let mut s = self;
        s.parts.movement_points = Some(MovementPoints(movement_points));
        s
    }

    pub fn with_ap_cost(self, action_points: i32) -> (b: ActionBuilder<ActionPointsDefined>)
        ensures
            b.entity == self.entity,
            b.parts.action_points == Some(ActionPoints(action_points)),
            b.parts.name == self.parts.name,
            b.parts.range == self.parts.range,
            b.parts.movement_points == self.parts.movement_points,
            b.parts.melee == self.parts.melee,
            b.parts.ranged == self.parts.ranged,
            b.parts.effects == self.parts.effects,
    {
        let mut s = self;
        s.parts.action_points = Some(ActionPoints(action_points));
        s.advance()
    }
}

impl ActionBuilder<ActionPointsDefined> {
    pub fn with_melee_damage(self, damage: i32) -> (b: ActionBuilder<ActionDamageDefined>)
        ensures
            b.entity == self.entity,
            b.parts.melee == Some(Melee(damage)),
            b.parts.name == self.parts.name,
            b.parts.range == self.parts.range,
            b.parts.movement_points == self.parts.movement_points,
            b.parts.action_points == self.parts.action_points,
            b.parts.ranged == self.parts.ranged,
            b.parts.effects == self.parts.effects,
    {
        let mut s = self;
        s.parts.melee = Some(Melee(damage));
        s.advance()
    }

    pub fn with_ranged_damage(self, damage: i32) -> (b: ActionBuilder<ActionDamageDefined>)
        ensures
            b.entity == self.entity,
            b.parts.ranged == Some(Ranged(damage)),
            b.parts.name == self.parts.name,
            b.parts.range == self.parts.range,
            b.parts.movement_points == self.parts.movement_points,
            b.parts.action_points == self.parts.action_points,
            b.parts.melee == self.parts.melee,
            b.parts.effects == self.parts.effects,
    {
        let mut s = self;
        s.parts.ranged = Some(Ranged(damage));
        s.advance()
    }
}

/// The effects a cast action delivers: each of its effects, in order, to its
/// main target.
pub fn cast_effects(effects: &ActionEffects, main_target: &MainTarget) -> (v: Vec<ActionEffectReceived>)
    ensures
        v@.len() == effects.0@.len(),
        forall|i: int| 0 <= i < v@.len() ==> #[trigger] v@[i] == (ActionEffectReceived { entity: main_target.0, key: effects.0@[i] }),
{
    let mut v: Vec<ActionEffectReceived> = Vec::new();
    let mut i: usize = 0;
    while i < effects.0.len()
        invariant
            0 <= i <= effects.0@.len(),
            v@.len() == i,
            forall|k: int| 0 <= k < i ==> #[trigger] v@[k] == (ActionEffectReceived { entity: main_target.0, key: effects.0@[k] }),
        decreases effects.0@.len() - i,
    {
        v.push(ActionEffectReceived { entity: main_target.0, key: effects.0[i] });
        i = i + 1;
    }
    v
}

/// Whether a reaction applies to an effect that reached an entity: it must
/// be triggered by the effect, then every predicate must hold of the entity.
/// The first refusal that applies is returned.
pub fn reaction_outcome(trigger_on: &Vec<ActionEffect>, effect_key: ActionEffect, predicates_hold: bool) -> (r: Result<(), &'static str>)
    ensures
        !trigger_on@.contains(effect_key) ==> (r matches Err(m) && m@ == "trigger on doesn't conntain effect key"@),
        trigger_on@.contains(effect_key) && !predicates_hold ==> (r matches Err(m) && m@ == "predicates were not all validated"@),
        trigger_on@.contains(effect_key) && predicates_hold ==> r is Ok,
{
    proof {
        reveal_strlit("trigger on doesn't conntain effect key");
        reveal_strlit("predicates were not all validated");
    }
    let mut found = false;
    let mut i: usize = 0;
    while i < trigger_on.len()
        invariant
            0 <= i <= trigger_on@.len(),
            found == exists|j: int| 0 <= j < i && trigger_on@[j] == effect_key,
        decreases trigger_on@.len() - i,
    {
        if trigger_on[i] == effect_key {
            found = true;
        }
        i = i + 1;
    }
    if !found {
        return Err("trigger on doesn't conntain effect key");
    }
    if !predicates_hold {
        return Err("predicates were not all validated");
    }
    Ok(())
}

} // verus!
