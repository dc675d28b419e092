//! Card pools, rarity tiers and the rules that pick a rarity for a new card.

use vstd::prelude::*;

use crate::abilities::abilities_templates::AbilityKind;
use crate::rng::random_index_in;

verus! {

/// A pool of cards that a creature may draw its abilities from.
#[derive(Debug, Clone, Copy, PartialEq, Eq, Structural)]
pub enum CardPool {
    Heat,
    Cold,
    Ice,
    Melee,
    Ranged,
}

/// How a pool is treated when cards are matched against it.
#[derive(Debug, Clone, Copy, PartialEq, Eq, Structural)]
pub enum CardPoolStatus {
    Required,
    Accepted,
    Forbidden,
}

/// Anything that tells which card pools it draws from.
pub trait PoolSupplier {
    fn get_pools(&self) -> Vec<(CardPool, CardPoolStatus)>;
}

/// The rarity of a card, from most to least common.
#[derive(Debug, Clone, Copy, PartialEq, Eq, PartialOrd, Ord, Hash, Structural)]
pub enum RarityTier {
    Common,
    Uncommon,
    Rare,
    Legendary,
    Secret,
}

/// Every rarity tier, in rarity order.
pub open spec fn all_rarities() -> Seq<RarityTier> {
    seq![
        RarityTier::Common,
        RarityTier::Uncommon,
        RarityTier::Rare,
        RarityTier::Legendary,
        RarityTier::Secret,
    ]
}

impl RarityTier {
    /// The position of the tier in the rarity order (`Common` is 0).
    pub open spec fn rank(self) -> int {
        match self {
            RarityTier::Common => 0,
            RarityTier::Uncommon => 1,
            RarityTier::Rare => 2,
            RarityTier::Legendary => 3,
            RarityTier::Secret => 4,
        }
    }

    /// The rank of the tier, computed.
    pub fn rank_of(&self) -> (r: usize)
        ensures
            r == self.rank(),
    {
        match self {
            RarityTier::Common => 0,
            RarityTier::Uncommon => 1,
            RarityTier::Rare => 2,
            RarityTier::Legendary => 3,
            RarityTier::Secret => 4,
        }
    }

    /// Every rarity tier, in rarity order.
    pub fn rarities_vec() -> (v: Vec<RarityTier>)
        ensures
            v@ == all_rarities(),
    {
        let v = vec![
            RarityTier::Common,
            RarityTier::Uncommon,
            RarityTier::Rare,
            RarityTier::Legendary,
            RarityTier::Secret,
        ];
        assert(v@ =~= all_rarities());
        v
    }
}

/// The tier at a position of the rarity list has that position as its rank.
pub proof fn lemma_position_rank(i: int)
    requires
        0 <= i < 5,
    ensures
        all_rarities()[i].rank() == i,
{
}

/// A half-open range of rarity tiers, `start` included and `end` excluded.
#[derive(Debug, Clone, Copy, PartialEq, Eq, Structural)]
pub struct RarityRange {
    pub start: RarityTier,
    pub end: RarityTier,
}

/// A condition on the rarity of a card.
#[derive(Debug, Clone, Copy, PartialEq, Eq, Structural)]
pub enum RarityCond {
    EqOrHigher(RarityTier),
    EqOrBelow(RarityTier),
    InRange(RarityRange),
    EqTo(RarityTier),
}

impl RarityCond {
    /// Whether a tier meets the condition.
    pub open spec fn admits(self, t: RarityTier) -> bool {
        match self {
            RarityCond::EqOrHigher(min) => t.rank() >= min.rank(),
            RarityCond::EqOrBelow(max) => t.rank() <= max.rank(),
            RarityCond::InRange(r) => r.start.rank() <= t.rank() < r.end.rank(),
            RarityCond::EqTo(exact) => t == exact,
        }
    }

    /// The ranks `lo..hi` of the tiers that a random pick chooses among.
    pub open spec fn candidate_bounds(self) -> (int, int) {
        match self {
            RarityCond::EqOrHigher(min) => (min.rank(), 5),
            RarityCond::EqOrBelow(max) => (0, max.rank() + 1),
            RarityCond::InRange(r) => (r.start.rank(), if r.end.rank() < r.start.rank() {
                r.start.rank()
            } else {
                r.end.rank()
            }),
            RarityCond::EqTo(exact) => (exact.rank(), exact.rank() + 1),
        }
    }

    /// The tiers that meet the condition, in rarity order.
    pub open spec fn candidates(self) -> Seq<RarityTier> {
        all_rarities().subrange(self.candidate_bounds().0, self.candidate_bounds().1)
    }

    /// Tests a single tier against the condition.
    pub fn admits_tier(&self, t: &RarityTier) -> (b: bool)
        ensures
            b == self.admits(*t),
    {
        let r = t.rank_of();
        match self {
            RarityCond::EqOrHigher(min) => r >= min.rank_of(),
            RarityCond::EqOrBelow(max) => r <= max.rank_of(),
            RarityCond::InRange(range) => range.start.rank_of() <= r && r < range.end.rank_of(),
            RarityCond::EqTo(exact) => r == exact.rank_of(),
        }
    }

    /// The tiers that meet the condition, in rarity order.
    pub fn candidate_tiers(&self) -> (v: Vec<RarityTier>)
        ensures
            v@ == self.candidates(),
    {
        let rarities = RarityTier::rarities_vec();
        let mut v: Vec<RarityTier> = Vec::new();
        let ghost lo = self.candidate_bounds().0;
        let ghost hi = self.candidate_bounds().1;
        let mut i: usize = 0;
        while i < rarities.len()
            invariant
                rarities@ == all_rarities(),
                0 <= i <= 5,
                lo == self.candidate_bounds().0,
                hi == self.candidate_bounds().1,
                0 <= lo <= hi <= 5,
                v@ == all_rarities().subrange(lo, if i < lo { lo } else if i > hi { hi } else { i as int }),
            decreases 5 - i,
        {
            let t = rarities[i];
            proof {
                lemma_position_rank(i as int);
                assert(self.admits(t) <==> lo <= i < hi);
                assert(all_rarities().subrange(lo, if i + 1 < lo { lo } else if i + 1 > hi { hi } else { i + 1 }) =~= if lo <= i < hi {
                    all_rarities().subrange(lo, i as int).push(t)
                } else {
                    all_rarities().subrange(lo, if i < lo { lo } else if i > hi { hi } else { i as int })
                });
            }
            if self.admits_tier(&t) {
                v.push(t);
            }
            i = i + 1;
        }
        v
    }
}

/// How the rarity of a new card is decided.
#[derive(Debug, Clone, Copy, PartialEq, Eq, Structural)]
pub enum RarityPicker {
    Random(RarityCond),
    Static(RarityTier),
}

impl RarityPicker {
    /// Whether a pick of this picker draws a random index among the
    /// candidate tiers.
    pub open spec fn draws(self) -> bool {
        match self {
            RarityPicker::Random(RarityCond::EqOrHigher(_)) => true,
            RarityPicker::Random(RarityCond::EqOrBelow(_)) => true,
            RarityPicker::Random(RarityCond::InRange(_)) => true,
            _ => false,
        }
    }

    /// The number of tiers that a random pick chooses among.
    pub open spec fn choices(self) -> nat {
        match self {
            RarityPicker::Random(cond) => cond.candidates().len(),
            RarityPicker::Static(_) => 1,
        }
    }

    /// The tier picked when the random index drawn is `idx`.
    pub open spec fn picked(self, idx: int) -> RarityTier {
        match self {
            RarityPicker::Random(RarityCond::EqTo(t)) => t,
            RarityPicker::Random(cond) => cond.candidates()[idx],
            RarityPicker::Static(t) => t,
        }
    }

    /// The tier picked when the random index drawn is `idx`; the index is
    /// only read by pickers that draw.
    pub fn pick_with_index(&self, idx: usize) -> (t: RarityTier)
        requires
            self.draws() ==> idx < self.choices(),
        ensures
            t == self.picked(idx as int),
    {
        match self {
            RarityPicker::Random(cond) => match cond {
                RarityCond::EqTo(t) => *t,
                _ => {
                    let valid = cond.candidate_tiers();
                    valid[idx]
                },
            },
            RarityPicker::Static(t) => *t,
        }
    }

    /// Picks a tier, drawing an index from `rng` when the picker is random
    /// over several tiers.
    pub fn pick(&self, rng: &mut bevy_prng::WyRand) -> (t: RarityTier)
        requires
            self.draws() ==> self.choices() > 0,
        ensures
            exists|idx: int| 0 <= idx < self.choices() && #[trigger] self.picked(idx) == t,
            match *self {
                RarityPicker::Random(cond) => cond.admits(t),
                RarityPicker::Static(tier) => t == tier,
            },
            !self.draws() ==> *final(rng) == *old(rng),
    {
        if let RarityPicker::Random(cond) = self {
            if let RarityCond::EqTo(t) = cond {
                assert(self.picked(0) == *t);
                return *t;
            }
            let n = cond.candidate_tiers().len();
            let idx = random_index_in(rng, 0, n);
            let t = self.pick_with_index(idx);
            assert(self.picked(idx as int) == t);
            proof {
                law_pick_meets_condition(*self, idx as int);
            }
            t
        } else {
            let t = self.pick_with_index(0);
            assert(self.picked(0) == t);
            proof {
                law_pick_meets_condition(*self, 0);
            }
            t
        }
    }
}

/// A rarity pick always meets the picker's condition.
pub proof fn law_pick_meets_condition(picker: RarityPicker, idx: int)
    requires
        0 <= idx < picker.choices(),
    ensures
        match picker {
            RarityPicker::Random(cond) => cond.admits(picker.picked(idx)),
            RarityPicker::Static(t) => picker.picked(idx) == t,
        },
{
    match picker {
        RarityPicker::Random(cond) => {
            let (lo, hi) = cond.candidate_bounds();
            if let RarityCond::EqTo(_) = cond {
            } else {
                lemma_position_rank(lo + idx);
            }
        },
        RarityPicker::Static(_) => {},
    }
}

/// A card builder that always builds the same ability.
pub struct StaticCardBuilder {
    pub ability_kind: AbilityKind,
}

impl StaticCardBuilder {
    pub fn new(ability_kind: AbilityKind) -> (b: Self)
        ensures
            b.ability_kind == ability_kind,
    {
        Self { ability_kind }
    }
}

/// A card builder that draws abilities from the pools a creature accepts.
pub struct RandomPoolCardBuilder {
    pub pools: Vec<(CardPool, CardPoolStatus)>,
    pub rarity: RarityCond,
}

impl RandomPoolCardBuilder {
    pub fn new(accepted_pools: Vec<(CardPool, CardPoolStatus)>, rarity: RarityCond) -> (b: Self)
        ensures
            b.pools@ == accepted_pools@,
            b.rarity == rarity,
    {
        Self { pools: accepted_pools, rarity }
    }
}

} // verus!
