//! The kinds of creature and what each kind draws its cards and stats from.

use vstd::prelude::*;

use crate::deck::card_builders::{CardPool, CardPoolStatus, PoolSupplier};
use crate::rng::random_i32_in;
use crate::stats::players::{MeleeRange, RangedRange, Speed, Strength};

verus! {

/// The kind of a creature.
#[derive(Debug, Clone, Copy, PartialEq, Eq, Structural)]
pub enum CreatureKind {
    TestMelee,
    TestRanged,
}

impl CreatureKind {
    /// The pools a creature of this kind draws its cards from.
    pub open spec fn pools(self) -> Seq<(CardPool, CardPoolStatus)> {
        match self {
            CreatureKind::TestMelee => seq![(CardPool::Melee, CardPoolStatus::Required)],
            CreatureKind::TestRanged => seq![(CardPool::Ranged, CardPoolStatus::Required)],
        }
    }
}

impl PoolSupplier for CreatureKind {
    fn get_pools(&self) -> (v: Vec<(CardPool, CardPoolStatus)>)
        ensures
            v@ == self.pools(),
    {
        let v = match self {
            CreatureKind::TestMelee => vec![(CardPool::Melee, CardPoolStatus::Required)],
            CreatureKind::TestRanged => vec![(CardPool::Ranged, CardPoolStatus::Required)],
        };
        assert(v@ =~= self.pools());
        v
    }
}

/// A filter on the cards a creature may hold.
#[derive(Debug, Clone, Copy, PartialEq, Eq, Structural)]
pub enum CardFilter {
    RequiredPool(CardPool),
    BannedPool(CardPool),
}

impl CreatureKind {
    /// The card filters of the kind: each kind requires its own pool.
    pub fn get_card_filters(&self) -> (v: Vec<CardFilter>)
        ensures
            v@ == (match *self {
                CreatureKind::TestMelee => seq![CardFilter::RequiredPool(CardPool::Melee)],
                CreatureKind::TestRanged => seq![CardFilter::RequiredPool(CardPool::Ranged)],
            }),
    {
        let v = match self {
            CreatureKind::TestMelee => vec![CardFilter::RequiredPool(CardPool::Melee)],
            CreatureKind::TestRanged => vec![CardFilter::RequiredPool(CardPool::Ranged)],
        };
        proof {
            match *self {
                CreatureKind::TestMelee => assert(v@ =~= seq![CardFilter::RequiredPool(CardPool::Melee)]),
                CreatureKind::TestRanged => assert(v@ =~= seq![CardFilter::RequiredPool(CardPool::Ranged)]),
            }
        }
        v
    }

    /// Whether the stats are ones a creature of this kind can be generated
    /// with: melee creatures have speed 1, strength 2 or 3, melee range 1 and
    /// ranged range 2; ranged creatures have speed 3 or 4, strength 1, melee
    /// range 1 and ranged range 4.
    pub open spec fn stats_in_spread(self, s: (Speed, Strength, MeleeRange, RangedRange)) -> bool {
        match self {
            CreatureKind::TestMelee => {
                &&& 1 <= s.0.current < 2
                &&& 2 <= s.1.current < 4
                &&& s.2.current == 1
                &&& s.3.current == 2
            },
            CreatureKind::TestRanged => {
                &&& 3 <= s.0.current < 5
                &&& 1 <= s.1.current < 2
                &&& s.2.current == 1
                &&& s.3.current == 4
            },
        }
    }

    /// Rolls the stats of a new creature of this kind: speed first, then
    /// strength, each uniformly in its range.
    pub fn get_stats_spread(&self, rng: &mut bevy_prng::WyRand) -> (s: (Speed, Strength, MeleeRange, RangedRange))
        ensures
            self.stats_in_spread(s),
    {
        match self {
            CreatureKind::TestMelee => (
                Speed::new(random_i32_in(rng, 1, 2)),
                Strength::new(random_i32_in(rng, 2, 4)),
                MeleeRange::new(1),
                RangedRange::new(2),
            ),
            CreatureKind::TestRanged => (
                Speed::new(random_i32_in(rng, 3, 5)),
                Strength::new(random_i32_in(rng, 1, 2)),
                MeleeRange::new(1),
                RangedRange::new(4),
            ),
        }
    }
}

/// A creature, by its kind.
#[derive(Debug, Clone, Copy, PartialEq, Eq, Structural)]
pub struct Creature {
    pub kind: CreatureKind,
}

impl Creature {
    pub fn new(kind: CreatureKind) -> (c: Self)
        ensures
            c.kind == kind,
    {
        Self { kind }
    }
}

} // verus!
