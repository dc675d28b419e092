//! The board as seen by abilities: how many targets an ability takes, which
//! cards a gatherer reaches, and how positions are offset.

use vstd::prelude::*;

use crate::abilities::abilities_templates::ActionCastData;
use crate::board::PosInDeck;
use crate::rng::{next_u64, random_index_in};
use crate::Entity;

verus! {

/// What an ability hit.
#[derive(Debug, Clone, Copy, PartialEq, Eq, Structural)]
pub enum HitTargetKind {
    Playing,
    Cell,
}

impl HitTargetKind {
    /// Whether the hit landed on a playing entity.
    pub fn is_player(&self) -> (b: bool)
        ensures
            b == (*self == HitTargetKind::Playing),
    {
        match self {
            HitTargetKind::Playing => true,
            _ => false,
        }
    }
}

/// A number of targets: all of them, a fixed count, or a random count.
#[derive(Debug, Clone, Copy, PartialEq, Eq, Structural)]
pub enum NumberType {
    All,
    Fixed(usize),
    Random { min: usize, max: usize },
}

impl NumberType {
    /// The count when the random sample drawn is `sample`: a fixed count is
    /// itself; a random count with `min >= max` is `min`; otherwise it is
    /// `min` plus the sample modulo the size of `min..=max`.
    pub open spec fn count_from_sample(self, sample: u64) -> int {
        match self {
            NumberType::All => 0,
            NumberType::Fixed(n) => n as int,
            NumberType::Random { min, max } => if min >= max {
                min as int
            } else {
                min + ((sample as usize) as int) % (max - min + 1)
            },
        }
    }

    /// Whether resolving the count can be done without failing: `All` has
    /// no count, and a random range spanning every `usize` has no size.
    pub open spec fn resolvable(self) -> bool {
        match self {
            NumberType::All => false,
            NumberType::Fixed(_) => true,
            NumberType::Random { min, max } => min >= max || max - min < usize::MAX,
        }
    }

    /// The count for a given random sample.
    pub fn resolve_count_with(&self, sample: u64) -> (n: usize)
        requires
            self.resolvable(),
        ensures
            n == self.count_from_sample(sample),
    {
        match self {
            NumberType::All => 0,
            NumberType::Fixed(n) => *n,
            NumberType::Random { min, max } => {
                if *min >= *max {
                    return *min;
                }
                let range = *max - *min + 1;
                let r = (sample as usize) % range;
                *min + r
            },
        }
    }

    /// Resolves to a concrete count, drawing a sample for a random count.
    pub fn resolve_count(&self, rng: bevy_prng::WyRand) -> (n: usize)
        requires
            self.resolvable(),
        ensures
            exists|sample: u64| n == #[trigger] self.count_from_sample(sample),
            *self matches NumberType::Random { min, max } ==> min <= n <= (if min >= max { min } else { max }),
    {
        let mut rng = rng;
        let sample = match self {
            NumberType::Random { min, max } => if *min >= *max {
                0
            } else {
                next_u64(&mut rng)
            },
            _ => 0,
        };
        let n = self.resolve_count_with(sample);
        assert(n == self.count_from_sample(sample));
        n
    }

    /// Resolves to a concrete count, or `None` for no limit.
    pub fn resolve_limit(&self, rng: bevy_prng::WyRand) -> (r: Option<usize>)
        requires
            *self != NumberType::All ==> self.resolvable(),
        ensures
            *self == NumberType::All ==> r.is_none(),
            *self != NumberType::All ==> (r matches Some(n) && exists|sample: u64| n == #[trigger] self.count_from_sample(sample)),
    {
        match self {
            NumberType::All => None,
            _ => Some(self.resolve_count(rng)),
        }
    }
}

/// A player was hit by an ability cast.
#[derive(Debug, Clone, Copy, PartialEq, Eq, Structural)]
pub struct HitReceived {
    pub hit_player: Entity,
    pub ability_entity: Entity,
    pub cast_data: ActionCastData,
}

impl HitReceived {
    pub fn new(hit_player: Entity, ability_entity: Entity, cast_data: ActionCastData) -> (h: Self)
        ensures
            h.hit_player == hit_player,
            h.ability_entity == ability_entity,
            h.cast_data == cast_data,
    {
        Self { hit_player, ability_entity, cast_data }
    }
}

/// Which entities a gathering collects.
#[derive(Debug, Clone, Copy, PartialEq, Eq, Structural)]
pub enum EntityGatheringFilter {
    All,
    Playing,
    Cells,
}

/// How cards are picked out of piles.
#[derive(Debug, Clone, Copy, PartialEq, Eq, Structural)]
pub enum GatherMode {
    RandomPick,
    FromStart,
    FromEnd,
}

/// Which piles a gathering looks in.
#[derive(Debug, Clone, Copy, PartialEq, Eq, Structural)]
pub enum PileType {
    Hand,
    Draw,
    Both,
}

/// Whose piles a gathering looks in.
#[derive(Debug, Clone, Copy, PartialEq, Eq, Structural)]
pub enum PlayerType {
    Player,
    Enemy,
    Both,
}

/// Which cards around an origin an ability gathers.
#[derive(Debug, Clone, Copy, PartialEq, Eq, Structural)]
pub enum BoardGatherer {
    Around(u32),
    OnRight(u32),
    OnLeft(u32),
    Piles { piles: PileType, players: PlayerType, amount: u32, mode: GatherMode },
}

/// How many of the gathered targets an ability keeps.
#[derive(Debug, Clone, Copy, PartialEq, Eq, Structural)]
pub struct BoardFilter {
    pub count: NumberType,
}

impl BoardFilter {
    pub fn new(count: NumberType) -> (f: Self)
        ensures
            f.count == count,
    {
        Self { count }
    }

    /// The filter that keeps every target.
    pub fn default() -> (f: Self)
        ensures
            f.count == NumberType::All,
    {
        Self { count: NumberType::All }
    }
}

/// A card reached by a gathering: the card, where it lies, how far it lies
/// from the origin, and the reach of the gatherer.
#[derive(Debug, Clone, Copy, PartialEq, Eq, Structural)]
pub struct GatheredCard {
    pub card: Entity,
    pub pos: PosInDeck,
    pub origin_distance: u32,
    pub radius: u32,
}

/// The board of cards that abilities act on.
#[derive(Debug, Clone, Copy, PartialEq, Eq, Default, Structural)]
pub struct DeckBackend;

impl BoardGatherer {
    /// The index range `start..end` that a side or around gathering covers
    /// from an origin at `index`: both ends start `amount` below the
    /// origin; gathering on the right starts the range at the origin, and
    /// gathering on the left ends it there.
    pub open spec fn index_range(self, index: u32) -> (int, int) {
        match self {
            BoardGatherer::Around(amount) => (index - amount, index - amount),
            BoardGatherer::OnRight(amount) => (index as int, index - amount),
            BoardGatherer::OnLeft(amount) => (index - amount, index as int),
            BoardGatherer::Piles { .. } => (0, 0),
        }
    }

    /// The reach of a side or around gathering.
    pub open spec fn reach(self) -> u32 {
        match self {
            BoardGatherer::Around(amount) => amount,
            BoardGatherer::OnRight(amount) => amount,
            BoardGatherer::OnLeft(amount) => amount,
            BoardGatherer::Piles { amount, .. } => amount,
        }
    }
}

/// Whether a card is one a gathering from `origin` reaches: not the excluded
/// entity, in the origin's pile, with an index in the gatherer's range.
pub open spec fn reaches(gatherer: BoardGatherer, origin: PosInDeck, exclude: Entity, c: (Entity, PosInDeck)) -> bool {
    &&& c.0 != exclude
    &&& c.1.deck == origin.deck
    &&& gatherer.index_range(origin.index).0 <= c.1.index < gatherer.index_range(origin.index).1
}

impl DeckBackend {
    /// Moves a position up its pile by the offset's index.
    pub fn apply_offset(pos: PosInDeck, offset: &PosInDeck) -> (p: PosInDeck)
        requires
            pos.index + offset.index <= u32::MAX,
        ensures
            p.index == pos.index + offset.index,
            p.deck == pos.deck,
    {
        let mut new = pos;
        new.index = new.index + offset.index;
        new
    }

    /// The card a side or around gathering reaches: the first of `cards`
    /// (in the order given) that is not `exclude`, lies in the origin's pile
    /// and has an index in the gatherer's range.
    pub fn gather(cards: &Vec<(Entity, PosInDeck)>, origin: PosInDeck, gatherer: &BoardGatherer, exclude: Entity) -> (r: Option<GatheredCard>)
        requires
            !(gatherer matches BoardGatherer::Piles { .. }),
            gatherer.reach() <= origin.index,
        ensures
            match r {
                None => forall|k: int| 0 <= k < cards@.len() ==> !reaches(*gatherer, origin, exclude, #[trigger] cards@[k]),
                Some(g) => exists|k: int| {
                    &&& 0 <= k < cards@.len()
                    &&& #[trigger] cards@[k] == (g.card, g.pos)
                    &&& reaches(*gatherer, origin, exclude, cards@[k])
                    &&& forall|q: int| 0 <= q < k ==> !reaches(*gatherer, origin, exclude, #[trigger] cards@[q])
                    &&& g.origin_distance == (if origin.index >= g.pos.index { origin.index - g.pos.index } else { g.pos.index - origin.index })
                    &&& g.radius == gatherer.reach()
                },
            },
    {
        let amount = match gatherer {
            BoardGatherer::Around(a) => *a,
            BoardGatherer::OnRight(a) => *a,
            BoardGatherer::OnLeft(a) => *a,
            BoardGatherer::Piles { amount, .. } => *amount,
        };
        assert(amount == gatherer.reach());
        let mut start = origin.index - amount;
        let mut end = origin.index - amount;
        match gatherer {
            BoardGatherer::OnRight(_) => start = origin.index,
            BoardGatherer::OnLeft(_) => end = origin.index,
            _ => {},
        }
        assert(gatherer.index_range(origin.index) == (start as int, end as int));
        let mut k: usize = 0;
        while k < cards.len()
            invariant
                0 <= k <= cards@.len(),
                gatherer.index_range(origin.index) == (start as int, end as int),
                amount == gatherer.reach(),
                forall|q: int| 0 <= q < k ==> !reaches(*gatherer, origin, exclude, #[trigger] cards@[q]),
            decreases cards@.len() - k,
        {
            let (e, pos) = cards[k];
            if e != exclude && pos.deck == origin.deck && start <= pos.index && pos.index < end {
                let dist = if origin.index >= pos.index { origin.index - pos.index } else { pos.index - origin.index };
                let g = GatheredCard { card: e, pos, origin_distance: dist, radius: amount };
                proof {
                    let kk = k as int;
                    assert(cards@[kk] == (g.card, g.pos));
                    assert(reaches(*gatherer, origin, exclude, cards@[kk]));
                    assert(g.radius == gatherer.reach());
                }
                return Some(g);
            }
            k = k + 1;
        }
        None
    }

    /// Keeps the first targets, as many as the filter's count; a random
    /// count is drawn uniformly from `min..max`.
    pub fn apply_filter<T>(targets: Vec<T>, filter: &BoardFilter, rng: &mut bevy_prng::WyRand) -> (r: Vec<T>)
        requires
            filter.count matches NumberType::Random { min, max } ==> min < max,
        ensures
            match filter.count {
                NumberType::All => r@ == targets@,
                NumberType::Fixed(n) => r@ == keep_first(targets@, n as int),
                NumberType::Random { min, max } => exists|n: int| min <= n < max && r@ == #[trigger] keep_first(targets@, n),
            },
    {
        let resolved_count: usize = match filter.count {
            NumberType::All => usize::MAX,
            NumberType::Fixed(n) => n,
            NumberType::Random { min, max } => random_index_in(rng, min, max),
        };
        let mut kept = targets;
        let ghost orig = kept@;
        kept.truncate(resolved_count);
        proof {
            if resolved_count as int >= orig.len() {
                assert(orig.take(orig.len() as int) =~= orig);
            }
            if let NumberType::Random { min, max } = filter.count {
                let n = resolved_count as int;
                assert(min <= n < max && kept@ == keep_first(orig, n));
            }
        }
        kept
    }
}

/// The first `n` items, or all of them when there are fewer.
pub open spec fn keep_first<T>(s: Seq<T>, n: int) -> Seq<T> {
    s.take(if n < s.len() { n } else { s.len() as int })
}

/// Keeping targets under a filter never adds any: what is kept is a prefix
/// of the targets given, of the count asked for or all of them.
pub proof fn law_filter_keeps_a_prefix<T>(targets: Seq<T>, n: int)
    requires
        n >= 0,
    ensures
        keep_first(targets, n).len() == (if n < targets.len() { n } else { targets.len() as int }),
        keep_first(targets, n).is_prefix_of(targets),
{
}

} // verus!
