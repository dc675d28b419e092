//! Card blueprints: what a card is built from, which creatures' pools it
//! fits, and how its name is picked.

use vstd::prelude::*;

use crate::abilities::effects::{AttributeChange, EffectMod, OneShotEffect, StatusEffectApplier};
use crate::deck::card_builders::{CardPool, CardPoolStatus, RarityCond};
use crate::rng::random_index_in;
use crate::Entity;

verus! {

/// How the name of a generated card is picked.
pub enum NamePicker {
    Fixed(&'static str),
    OneOf(Vec<&'static str>),
}

impl NamePicker {
    /// The name picked when the random index drawn is `idx`.
    pub fn pick_with_index(&self, idx: usize) -> (name: &'static str)
        requires
            self matches NamePicker::OneOf(items) ==> idx < items@.len(),
        ensures
            name == (match self {
                NamePicker::Fixed(val) => *val,
                NamePicker::OneOf(items) => items@[idx as int],
            }),
    {
        match self {
            NamePicker::Fixed(val) => *val,
            NamePicker::OneOf(items) => items[idx],
        }
    }

    /// Picks a name: the fixed one, or one of the names uniformly.
    pub fn pick(&mut self, rng: &mut bevy_prng::WyRand) -> (name: &'static str)
        requires
            *old(self) matches NamePicker::OneOf(items) ==> items@.len() > 0,
        ensures
            match *old(self) {
                NamePicker::Fixed(val) => name == val,
                NamePicker::OneOf(items) => items@.contains(name),
            },
            *final(self) == *old(self),
            *old(self) is Fixed ==> *final(rng) == *old(rng),
    {
        match self {
            NamePicker::Fixed(val) => *val,
            NamePicker::OneOf(items) => {
                let idx = random_index_in(rng, 0, items.len());
                let name = items[idx];
                assert(items@[idx as int] == name);
                name
            },
        }
    }
}

/// What a card's ability is constructed from.
#[derive(Debug, Clone, Copy, PartialEq, Eq, Structural)]
pub enum AbilityConstructor {
    Projectile,
    Melee,
    BundleAsEntity(Entity),
}

impl AbilityConstructor {
    /// The constructor as a leaf of an ability tree.
    pub fn into_node(self) -> (n: AbilityNode)
        ensures
            n == AbilityNode::End(self),
    {
        AbilityNode::End(self)
    }
}

/// A modifier of a card's ability.
#[derive(Debug, Clone, Copy, PartialEq, Eq, Structural)]
pub enum AbilityMod {
    Ripple(u32),
}

/// A tree of ability constructors.
pub enum AbilityNode {
    End(AbilityConstructor),
    Nested(Vec<AbilityNode>),
}

impl AbilityNode {
    /// The nodes one level down: a leaf stands for itself.
    pub fn into_nodes(self) -> (v: Vec<AbilityNode>)
        ensures
            match self {
                AbilityNode::End(c) => v@ == seq![AbilityNode::End(c)],
                AbilityNode::Nested(nodes) => v@ == nodes@,
            },
    {
        match self {
            AbilityNode::End(c) => {
                let v = vec![AbilityNode::End(c)];
                assert(v@ =~= seq![AbilityNode::End(c)]);
                v
            },
            AbilityNode::Nested(nodes) => nodes,
        }
    }
}

/// How a card's ability is invoked: once, or rippling a number of times.
#[derive(Debug, Clone, Copy, PartialEq, Eq, Structural)]
pub enum InvokingHandlerKind {
    Single,
    Ripple(u32),
}

/// Whether a blueprint's pools admit one expected `(pool, status)` entry: a
/// required pool must be among the blueprint's required pools; an accepted
/// pool always is; a forbidden pool must not be forbidden by the blueprint.
pub open spec fn admits_entry(matches_pools: Seq<(CardPool, CardPoolStatus)>, exp: (CardPool, CardPoolStatus)) -> bool {
    match exp.1 {
        CardPoolStatus::Required => exists|i: int|
            0 <= i < matches_pools.len() && #[trigger] matches_pools[i] == (exp.0, CardPoolStatus::Required),
        CardPoolStatus::Accepted => true,
        CardPoolStatus::Forbidden => forall|i: int|
            0 <= i < matches_pools.len() && (#[trigger] matches_pools[i]).0 == exp.0 ==> matches_pools[i].1 != CardPoolStatus::Forbidden,
    }
}

/// Whether a blueprint's pools admit every expected entry.
pub open spec fn admits_all(matches_pools: Seq<(CardPool, CardPoolStatus)>, pools: Seq<(CardPool, CardPoolStatus)>) -> bool {
    forall|k: int| 0 <= k < pools.len() ==> admits_entry(matches_pools, #[trigger] pools[k])
}

/// The blueprint of a card.
pub struct CardBlueprint {
    pub invoking_handler_kind: InvokingHandlerKind,
    pub nodes: AbilityNode,
    pub base_entity: Option<Entity>,
    pub name_picker: NamePicker,
    pub matches_pools: Vec<(CardPool, CardPoolStatus)>,
    pub matches_rarity: Option<RarityCond>,
}

impl CardBlueprint {
    /// A blueprint with no pools, no rarity condition and a placeholder name.
    pub fn new(nodes: AbilityNode, invoking_handler_kind: InvokingHandlerKind) -> (b: Self)
        ensures
            b.invoking_handler_kind == invoking_handler_kind,
            b.nodes == nodes,
            b.base_entity.is_none(),
            b.name_picker matches NamePicker::Fixed(n) && n@ == "Missing name picker"@,
            b.matches_pools@.len() == 0,
            b.matches_rarity.is_none(),
    {
        proof {
            reveal_strlit("Missing name picker");
        }
        Self {
            invoking_handler_kind,
            nodes,
            base_entity: None,
            name_picker: NamePicker::Fixed("Missing name picker"),
            matches_pools: Vec::new(),
            matches_rarity: None,
        }
    }

    pub fn set_name_picker(&mut self, picker: NamePicker)
        ensures
            final(self).name_picker == picker,
            final(self).invoking_handler_kind == old(self).invoking_handler_kind,
            final(self).nodes == old(self).nodes,
            final(self).base_entity == old(self).base_entity,
            final(self).matches_pools@ == old(self).matches_pools@,
            final(self).matches_rarity == old(self).matches_rarity,
    {
        self.name_picker = picker;
    }

    /// Adds a pool the blueprint's cards belong to.
    pub fn add_required_pool(self, pool: CardPool) -> (b: Self)
        ensures
            b.matches_pools@ == self.matches_pools@.push((pool, CardPoolStatus::Required)),
            b.invoking_handler_kind == self.invoking_handler_kind,
            b.nodes == self.nodes,
            b.base_entity == self.base_entity,
            b.name_picker == self.name_picker,
            b.matches_rarity == self.matches_rarity,
    {
        let mut s = self;
        s.matches_pools.push((pool, CardPoolStatus::Required));
        s
    }

    /// Adds a pool the blueprint's cards fit in.
    pub fn add_accepted_pool(self, pool: CardPool) -> (b: Self)
        ensures
            b.matches_pools@ == self.matches_pools@.push((pool, CardPoolStatus::Accepted)),
            b.invoking_handler_kind == self.invoking_handler_kind,
            b.nodes == self.nodes,
            b.base_entity == self.base_entity,
            b.name_picker == self.name_picker,
            b.matches_rarity == self.matches_rarity,
    {
        let mut s = self;
        s.matches_pools.push((pool, CardPoolStatus::Accepted));
        s
    }

    /// Adds a pool the blueprint's cards must stay out of.
    pub fn add_forbidden_pool(self, pool: CardPool) -> (b: Self)
        ensures
            b.matches_pools@ == self.matches_pools@.push((pool, CardPoolStatus::Forbidden)),
            b.invoking_handler_kind == self.invoking_handler_kind,
            b.nodes == self.nodes,
            b.base_entity == self.base_entity,
            b.name_picker == self.name_picker,
            b.matches_rarity == self.matches_rarity,
    {
        let mut s = self;
        s.matches_pools.push((pool, CardPoolStatus::Forbidden));
        s
    }

    /// Sets the rarity condition of the blueprint's cards.
    pub fn add_rarity_condition(self, cond: RarityCond) -> (b: Self)
        ensures
            b.matches_rarity == Some(cond),
            b.matches_pools@ == self.matches_pools@,
            b.invoking_handler_kind == self.invoking_handler_kind,
            b.nodes == self.nodes,
            b.base_entity == self.base_entity,
            b.name_picker == self.name_picker,
    {
        let mut s = self;
        s.matches_rarity = Some(cond);
        s
    }

    /// Whether the blueprint fits the pools a creature draws from.
    pub fn does_match(&self, pools: &Vec<(CardPool, CardPoolStatus)>) -> (b: bool)
        ensures
            b == admits_all(self.matches_pools@, pools@),
    {
        let mut k: usize = 0;
        while k < pools.len()
            invariant
                0 <= k <= pools@.len(),
                forall|q: int| 0 <= q < k ==> admits_entry(self.matches_pools@, #[trigger] pools@[q]),
            decreases pools@.len() - k,
        {
            let (exp_pool, exp_status) = pools[k];
            let ok = match exp_status {
                CardPoolStatus::Required => {
                    let mut found = false;
                    let mut i: usize = 0;
                    while i < self.matches_pools.len()
                        invariant
                            0 <= i <= self.matches_pools@.len(),
                            found == exists|j: int| 0 <= j < i && #[trigger] self.matches_pools@[j] == (exp_pool, CardPoolStatus::Required),
                        decreases self.matches_pools@.len() - i,
                    {
                        let (p, s) = self.matches_pools[i];
                        if p == exp_pool && s == CardPoolStatus::Required {
                            found = true;
                            assert(self.matches_pools@[i as int] == (exp_pool, CardPoolStatus::Required));
                        }
                        i = i + 1;
                    }
                    found
                },
                CardPoolStatus::Accepted => true,
                CardPoolStatus::Forbidden => {
                    let mut all_ok = true;
                    let mut i: usize = 0;
                    while i < self.matches_pools.len()
                        invariant
                            0 <= i <= self.matches_pools@.len(),
                            all_ok == forall|j: int| 0 <= j < i && (#[trigger] self.matches_pools@[j]).0 == exp_pool ==> self.matches_pools@[j].1 != CardPoolStatus::Forbidden,
                        decreases self.matches_pools@.len() - i,
                    {
                        let (p, s) = self.matches_pools[i];
                        if p == exp_pool && s == CardPoolStatus::Forbidden {
                            all_ok = false;
                        }
                        i = i + 1;
                    }
                    all_ok
                },
            };
            if !ok {
                assert(!admits_entry(self.matches_pools@, pools@[k as int]));
                return false;
            }
            k = k + 1;
        }
        true
    }
}

/// A single expectation on a pool is met as follows: a required pool only by
/// a blueprint that requires that very pool (listing it as accepted or
/// forbidden is not enough); an accepted pool by every blueprint; a forbidden
/// pool only by a blueprint that does not forbid it.
pub proof fn law_single_expectation(matches_pools: Seq<(CardPool, CardPoolStatus)>, p: CardPool)
    ensures
        admits_all(matches_pools, seq![(p, CardPoolStatus::Required)]) <==> matches_pools.contains((p, CardPoolStatus::Required)),
        admits_all(matches_pools, seq![(p, CardPoolStatus::Accepted)]),
        admits_all(matches_pools, seq![(p, CardPoolStatus::Forbidden)]) <==> !matches_pools.contains((p, CardPoolStatus::Forbidden)),
{
    let req = seq![(p, CardPoolStatus::Required)];
    let acc = seq![(p, CardPoolStatus::Accepted)];
    let forb = seq![(p, CardPoolStatus::Forbidden)];
    assert(req[0] == (p, CardPoolStatus::Required));
    assert(acc[0] == (p, CardPoolStatus::Accepted));
    assert(forb[0] == (p, CardPoolStatus::Forbidden));
    if matches_pools.contains((p, CardPoolStatus::Required)) {
        let i = choose|i: int| 0 <= i < matches_pools.len() && matches_pools[i] == (p, CardPoolStatus::Required);
        assert(admits_entry(matches_pools, req[0]));
    }
    if admits_all(matches_pools, req) {
        assert(admits_entry(matches_pools, req[0]));
        let i = choose|i: int| 0 <= i < matches_pools.len() && #[trigger] matches_pools[i] == (p, CardPoolStatus::Required);
        assert(matches_pools[i] == (p, CardPoolStatus::Required));
    }
    if matches_pools.contains((p, CardPoolStatus::Forbidden)) {
        let i = choose|i: int| 0 <= i < matches_pools.len() && matches_pools[i] == (p, CardPoolStatus::Forbidden);
        assert(matches_pools[i].0 == p);
        assert(!admits_entry(matches_pools, forb[0]));
    } else {
        assert forall|i: int| 0 <= i < matches_pools.len() && (#[trigger] matches_pools[i]).0 == p
            implies matches_pools[i].1 != CardPoolStatus::Forbidden by {
            if matches_pools[i].1 == CardPoolStatus::Forbidden {
                assert(matches_pools[i] == (p, CardPoolStatus::Forbidden));
            }
        }
        assert(admits_entry(matches_pools, forb[0]));
    }
}

/// A blueprint fits a list of expectations exactly when it fits each part
/// of the list; in particular, expectations that only accept pools are met
/// by every blueprint, and an empty list is met by every blueprint.
pub proof fn law_match_by_parts(
    matches_pools: Seq<(CardPool, CardPoolStatus)>,
    a: Seq<(CardPool, CardPoolStatus)>,
    b: Seq<(CardPool, CardPoolStatus)>,
)
    ensures
        admits_all(matches_pools, a + b) == (admits_all(matches_pools, a) && admits_all(matches_pools, b)),
        (forall|k: int| 0 <= k < a.len() ==> (#[trigger] a[k]).1 == CardPoolStatus::Accepted) ==> admits_all(matches_pools, a),
        admits_all(matches_pools, Seq::empty()),
{
    if admits_all(matches_pools, a) && admits_all(matches_pools, b) {
        assert forall|k: int| 0 <= k < (a + b).len() implies admits_entry(matches_pools, #[trigger] (a + b)[k]) by {
            if k < a.len() {
                assert((a + b)[k] == a[k]);
            } else {
                assert((a + b)[k] == b[k - a.len()]);
            }
        }
    }
    if admits_all(matches_pools, a + b) {
        assert forall|k: int| 0 <= k < a.len() implies admits_entry(matches_pools, #[trigger] a[k]) by {
            assert((a + b)[k] == a[k]);
        }
        assert forall|k: int| 0 <= k < b.len() implies admits_entry(matches_pools, #[trigger] b[k]) by {
            assert((a + b)[k + a.len()] == b[k]);
        }
    }
}

/// An entity was hit by a player, with the effect the hit carries.
pub struct GotHit {
    pub entity: Entity,
    pub attacking_player: Entity,
    pub effect: EffectMod,
}

impl GotHit {
    pub fn new(entity: Entity, attacking_player: Entity, effect: EffectMod) -> (g: Self)
        ensures
            g.entity == entity,
            g.attacking_player == attacking_player,
            g.effect == effect,
    {
        Self { entity, attacking_player, effect }
    }
}

/// A reaction that observes hits and applies an effect.
pub struct ObservesReaction {
    pub effect: EffectMod,
}

/// A one-shot effect evaluated at once.
pub fn one_shot_instant(effect: AttributeChange) -> (m: EffectMod)
    ensures
        m == EffectMod::OneShot(OneShotEffect::Instant(effect)),
{
    EffectMod::OneShot(OneShotEffect::Instant(effect))
}

/// A one-shot effect applied as a modifier.
pub fn one_shot_mod(effect: AttributeChange) -> (m: EffectMod)
    ensures
        m == EffectMod::OneShot(OneShotEffect::Mod(effect)),
{
    EffectMod::OneShot(OneShotEffect::Mod(effect))
}

/// An effect that leaves a lasting status.
pub fn status_effect_applier(effect_applier: StatusEffectApplier) -> (m: EffectMod)
    ensures
        m == EffectMod::SpawnTickable(effect_applier),
{
    EffectMod::SpawnTickable(effect_applier)
}

} // verus!
