//! Cards laid out in piles: positions in a deck, battle ticks, and the
//! magnetic effect that pulls neighbouring cards toward its card.

use vstd::prelude::*;

use crate::Entity;

verus! {

// ---------------------------------------------------------------------------
// Piles of cards and the two ordered operations the game performs on them
// ---------------------------------------------------------------------------

/// The first position at or after `start` that holds `e`, if any.
pub open spec fn first_pos_from(s: Seq<Entity>, e: Entity, start: int) -> Option<int>
    decreases s.len() - start,
{
    if start < 0 || start >= s.len() {
        None
    } else if s[start] == e {
        Some(start)
    } else {
        first_pos_from(s, e, start + 1)
    }
}

/// The last position before `end` that holds `e`, if any.
pub open spec fn last_pos_before(s: Seq<Entity>, e: Entity, end: int) -> Option<int>
    decreases end,
{
    if end <= 0 || end > s.len() {
        None
    } else if s[end - 1] == e {
        Some(end - 1)
    } else {
        last_pos_before(s, e, end - 1)
    }
}

/// The pile after the entity `e` is moved to `index`, an index within the
/// pile: the entity is taken out of its first position and put back at
/// `index`; a pile without `e` is left as it is.
pub open spec fn place_spec(s: Seq<Entity>, e: Entity, index: int) -> Seq<Entity>
    recommends
        s.contains(e) ==> 0 <= index < s.len(),
{
    match first_pos_from(s, e, 0) {
        None => s,
        Some(p) => s.remove(p).insert(index, e),
    }
}

/// Whether every move of a card of the pile asks for an index within it.
pub open spec fn moves_fit(s: Seq<Entity>, moves: Seq<(Entity, u32)>) -> bool {
    forall|j: int| 0 <= j < moves.len() && s.contains(#[trigger] moves[j].0) ==> moves[j].1 < s.len()
}

/// What is left of a pile after its front card is taken: the last card takes
/// the place of the first one.
pub open spec fn pop_front_spec(s: Seq<Entity>) -> Seq<Entity> {
    if s.len() == 0 {
        s
    } else {
        s.update(0, s.last()).drop_last()
    }
}

/// A found position is a position of the entity, and no earlier position
/// from `start` on holds it.
pub proof fn lemma_first_pos_from(s: Seq<Entity>, e: Entity, start: int)
    ensures
        match first_pos_from(s, e, start) {
            Some(p) => 0 <= start <= p < s.len() && s[p] == e && forall|q: int|
                start <= q < p ==> s[q] != e,
            None => forall|q: int| 0 <= start <= q < s.len() ==> s[q] != e,
        },
    decreases s.len() - start,
{
    if start < 0 || start >= s.len() {
    } else if s[start] == e {
    } else {
        lemma_first_pos_from(s, e, start + 1);
    }
}

/// A found position is the last position of the entity before `end`.
pub proof fn lemma_last_pos_before(s: Seq<Entity>, e: Entity, end: int)
    ensures
        match last_pos_before(s, e, end) {
            Some(p) => 0 <= p < end <= s.len() && s[p] == e && forall|q: int|
                p < q < end ==> s[q] != e,
            None => 0 <= end <= s.len() ==> forall|q: int| 0 <= q < end ==> s[q] != e,
        },
    decreases end,
{
    if end <= 0 || end > s.len() {
    } else if s[end - 1] == e {
    } else {
        lemma_last_pos_before(s, e, end - 1);
    }
}

/// The cards of a pile, in pile order.
#[derive(Debug)]
pub struct PileWithCards(pub Vec<Entity>);

impl PileWithCards {
    /// An empty pile.
    pub fn init() -> (p: Self)
        ensures
            p.0@.len() == 0,
    {
        Self(Vec::new())
    }

    /// The position of the first occurrence of `e` in the pile.
    pub fn first_position(&self, e: Entity) -> (r: Option<usize>)
        ensures
            r == (match first_pos_from(self.0@, e, 0) {
                Some(p) => Some(p as usize),
                None => None::<usize>,
            }),
    {
        let mut i: usize = 0;
        while i < self.0.len()
            invariant
                0 <= i <= self.0@.len(),
                first_pos_from(self.0@, e, 0) == first_pos_from(self.0@, e, i as int),
            decreases self.0@.len() - i,
        {
            if self.0[i] == e {
                return Some(i);
            }
            i = i + 1;
        }
        None
    }

    /// The position of the last occurrence of `e` in the pile.
    pub fn last_position(&self, e: Entity) -> (r: Option<usize>)
        ensures
            r == (match last_pos_before(self.0@, e, self.0@.len() as int) {
                Some(p) => Some(p as usize),
                None => None::<usize>,
            }),
    {
        let mut i: usize = self.0.len();
        while i > 0
            invariant
                0 <= i <= self.0@.len(),
                last_pos_before(self.0@, e, self.0@.len() as int) == last_pos_before(
                    self.0@,
                    e,
                    i as int,
                ),
            decreases i,
        {
            if self.0[i - 1] == e {
                return Some(i - 1);
            }
            i = i - 1;
        }
        None
    }

    /// Moves the card `e` to `index`, which must lie within the pile when the
    /// card is in it; does nothing when `e` is not in the pile.
    pub fn place(&mut self, e: Entity, index: usize)
        requires
            old(self).0@.contains(e) ==> index < old(self).0@.len(),
        ensures
            final(self).0@ == place_spec(old(self).0@, e, index as int),
    {
        proof {
            lemma_first_pos_from(self.0@, e, 0);
            assert(self.0@.len() == self.0.len());
        }
        if let Some(current) = self.first_position(e) {
            self.0.remove(current);
            self.0.insert(index, e);
        }
    }

    /// Takes the front card out of the pile, the last card taking its place.
    pub fn pop_front(&mut self) -> (r: Option<Entity>)
        ensures
            old(self).0@.len() == 0 ==> r.is_none() && final(self).0@ == old(self).0@,
            old(self).0@.len() > 0 ==> r == Some(old(self).0@[0]),
            final(self).0@ == pop_front_spec(old(self).0@),
    {
        if self.0.len() == 0 {
            None
        } else {
            Some(self.0.swap_remove(0))
        }
    }
}

/// Taking the front card of a pile leaves one card fewer: the last card
/// now stands first, and every other card keeps its place.
pub proof fn law_pop_front_swaps_in_last(s: Seq<Entity>)
    requires
        s.len() > 0,
    ensures
        pop_front_spec(s).len() == s.len() - 1,
        s.len() > 1 ==> pop_front_spec(s)[0] == s[s.len() - 1],
        forall|i: int| 1 <= i < s.len() - 1 ==> #[trigger] pop_front_spec(s)[i] == s[i],
{
}

/// Moving a card within a pile neither adds nor loses cards, and a card of
/// the pile ends up at the index asked for.
pub proof fn lemma_place_permutes(s: Seq<Entity>, e: Entity, index: int)
    requires
        s.contains(e) ==> 0 <= index < s.len(),
    ensures
        place_spec(s, e, index).to_multiset() == s.to_multiset(),
        place_spec(s, e, index).len() == s.len(),
        s.contains(e) ==> place_spec(s, e, index)[index] == e,
{
    lemma_first_pos_from(s, e, 0);
    broadcast use vstd::seq_lib::group_to_multiset_ensures;
    broadcast use vstd::multiset::group_multiset_axioms;
    match first_pos_from(s, e, 0) {
        None => {},
        Some(p) => {
            let rest = s.remove(p);
            assert(s.to_multiset().count(e) > 0) by {
                assert(s.contains(e));
            }
            assert(rest.insert(index, e).to_multiset() =~= s.to_multiset());
        },
    }
}

// ---------------------------------------------------------------------------
// Positions and ticks
// ---------------------------------------------------------------------------

/// Which pile of a player a card lies in.
#[derive(Debug, Clone, Copy, PartialEq, Eq, Structural)]
pub enum DeckKind {
    Draw,
    Hand,
}

/// Where a card lies: its index in its pile and which pile.
#[derive(Debug, Clone, Copy, PartialEq, Eq, Structural)]
pub struct PosInDeck {
    pub index: u32,
    pub deck: DeckKind,
}

impl PosInDeck {
    pub fn new(index: u32, deck: DeckKind) -> (p: Self)
        ensures
            p.index == index,
            p.deck == deck,
    {
        Self { index, deck }
    }

    /// Whether the card lies in a hand.
    pub fn is_in_hand(&self) -> (b: bool)
        ensures
            b == (self.deck == DeckKind::Hand),
    {
        match self.deck {
            DeckKind::Draw => false,
            DeckKind::Hand => true,
        }
    }
}

/// A moment of a battle: the turn, and the step within the turn.
#[derive(Debug, Clone, Copy, PartialEq, Eq, Hash, Structural)]
pub struct BattleTick {
    pub turn: u32,
    pub subtick: u32,
}

impl BattleTick {
    /// The turn and the step, as a pair.
    pub fn joined_tick(&self) -> (r: (u32, u32))
        ensures
            r == (self.turn, self.subtick),
    {
        (self.turn, self.subtick)
    }

    /// The first step of the first turn.
    pub fn initial() -> (t: Self)
        ensures
            t.turn == 0,
            t.subtick == 0,
    {
        Self { turn: 0, subtick: 0 }
    }

    /// Moves on to the first step of the next turn.
    pub fn increment_next_turn(&mut self)
        requires
            old(self).turn < u32::MAX,
        ensures
            final(self).turn == old(self).turn + 1,
            final(self).subtick == 0,
    {
        self.subtick = 0;
        self.turn = self.turn + 1;
    }

    /// The tick that stands for "no tick": both counters at their maximum.
    pub fn null() -> (t: Self)
        ensures
            t.turn == u32::MAX,
            t.subtick == u32::MAX,
    {
        Self { turn: u32::MAX, subtick: u32::MAX }
    }
}

/// Whether a battle runs, and at which tick.
#[derive(Debug, Clone, Copy, PartialEq, Eq, Structural)]
pub enum BattleData {
    NoBattle,
    InCombat { battle_tick: BattleTick },
}

impl BattleData {
    /// Advances the running battle by one step; no battle, no change.
    pub fn update_subtick(&mut self)
        requires
            match *old(self) {
                BattleData::InCombat { battle_tick } => battle_tick.subtick < u32::MAX,
                BattleData::NoBattle => true,
            },
        ensures
            *final(self) == match *old(self) {
                BattleData::NoBattle => BattleData::NoBattle,
                BattleData::InCombat { battle_tick } => BattleData::InCombat {
                    battle_tick: BattleTick {
                        turn: battle_tick.turn,
                        subtick: (battle_tick.subtick + 1) as u32,
                    },
                },
            },
    {
        match self {
            BattleData::NoBattle => {},
            BattleData::InCombat { battle_tick } => {
                battle_tick.subtick = battle_tick.subtick + 1;
            },
        }
    }

    /// Moves the running battle to the first step of its next turn; no
    /// battle, no change.
    pub fn increment_battle_turn(&mut self)
        requires
            match *old(self) {
                BattleData::InCombat { battle_tick } => battle_tick.turn < u32::MAX,
                BattleData::NoBattle => true,
            },
        ensures
            *final(self) == match *old(self) {
                BattleData::NoBattle => BattleData::NoBattle,
                BattleData::InCombat { battle_tick } => BattleData::InCombat {
                    battle_tick: BattleTick { turn: (battle_tick.turn + 1) as u32, subtick: 0 },
                },
            },
    {
        match self {
            BattleData::NoBattle => {},
            BattleData::InCombat { battle_tick } => {
                battle_tick.increment_next_turn();
            },
        }
    }
}

// ---------------------------------------------------------------------------
// Sorting cards by their index
// ---------------------------------------------------------------------------

/// `t` with `x` inserted after every card whose index is not greater than
/// the index of `x`.
pub open spec fn insert_by_index(t: Seq<(Entity, PosInDeck)>, x: (Entity, PosInDeck)) -> Seq<
    (Entity, PosInDeck),
>
    decreases t.len(),
{
    if t.len() == 0 || t.last().1.index <= x.1.index {
        t.push(x)
    } else {
        insert_by_index(t.drop_last(), x).push(t.last())
    }
}

/// The cards sorted by index, cards of equal index keeping their order.
pub open spec fn sort_by_index(s: Seq<(Entity, PosInDeck)>) -> Seq<(Entity, PosInDeck)>
    decreases s.len(),
{
    if s.len() == 0 {
        s
    } else {
        insert_by_index(sort_by_index(s.drop_last()), s.last())
    }
}

/// Sorts the cards by index; cards of equal index keep their order.
pub fn sort_cards_by_index(cards: &mut Vec<(Entity, PosInDeck)>)
    ensures
        final(cards)@ == sort_by_index(old(cards)@),
{
    let ghost orig = cards@;
    let n = cards.len();
    let mut i: usize = 0;
    while i < n
        invariant
            n == cards@.len(),
            n == orig.len(),
            0 <= i <= n,
            cards@.subrange(0, i as int) == sort_by_index(orig.subrange(0, i as int)),
            cards@.subrange(i as int, n as int) == orig.subrange(i as int, n as int),
        decreases n - i,
    {
        let ghost t = cards@.subrange(0, i as int);
        let ghost x = orig[i as int];
        assert(cards@[i as int] == x) by {
            assert(cards@.subrange(i as int, n as int)[0] == orig.subrange(i as int, n as int)[0]);
        }
        proof {
            assert(cards@.subrange(i + 1, n as int) =~= cards@.subrange(i as int, n as int).subrange(1, n - i));
            assert(orig.subrange(i + 1, n as int) =~= orig.subrange(i as int, n as int).subrange(1, n - i));
            assert(t.subrange(0, i as int) =~= t);
            assert(insert_by_index(t, x) + t.subrange(i as int, i as int) =~= insert_by_index(t, x));
            assert(cards@.subrange(i + 1, i + 1) =~= t.subrange(i as int, i as int));
        }
        let mut j: usize = i;
        while j > 0 && cards[j - 1].1.index > cards[j].1.index
            invariant
                n == cards@.len(),
                0 <= j <= i < n,
                cards@[j as int] == x,
                t.len() == i,
                cards@.subrange(0, j as int) == t.subrange(0, j as int),
                cards@.subrange(j + 1, i + 1) == t.subrange(j as int, i as int),
                cards@.subrange(i + 1, n as int) == orig.subrange(i + 1, n as int),
                insert_by_index(t, x) == insert_by_index(t.subrange(0, j as int), x) + t.subrange(
                    j as int,
                    i as int,
                ),
            decreases j,
        {
            let a = cards[j - 1];
            let b = cards[j];
            let ghost before = cards@;
            proof {
                assert(a == t[j - 1]) by {
                    assert(cards@.subrange(0, j as int)[j - 1] == t.subrange(0, j as int)[j - 1]);
                }
                let tj = t.subrange(0, j as int);
                assert(tj.drop_last() =~= t.subrange(0, j - 1));
                assert(insert_by_index(tj, x) == insert_by_index(t.subrange(0, j - 1), x).push(a));
                assert(insert_by_index(t.subrange(0, j - 1), x).push(a) + t.subrange(j as int, i as int)
                    =~= insert_by_index(t.subrange(0, j - 1), x) + t.subrange(j - 1, i as int));
            }
            cards.set(j - 1, b);
            cards.set(j, a);
            proof {
                assert(cards@.subrange(0, j - 1) =~= t.subrange(0, j - 1)) by {
                    assert(cards@.subrange(0, j - 1) =~= before.subrange(0, j as int).subrange(0, j - 1));
                }
                assert(cards@.subrange(i + 1, n as int) =~= before.subrange(i + 1, n as int));
                assert(cards@.subrange(j as int, i + 1) =~= t.subrange(j - 1, i as int)) by {
                    assert(before.subrange(j + 1, i + 1) == t.subrange(j as int, i as int));
                    assert(cards@.subrange(j as int, i + 1) =~= seq![a] + before.subrange(j + 1, i + 1));
                    assert(t.subrange(j - 1, i as int) =~= seq![t[j - 1]] + t.subrange(j as int, i as int));
                }
                assert(cards@.subrange(i + 1, n as int) =~= orig.subrange(i + 1, n as int));
            }
            j = j - 1;
        }
        proof {
            let tj = t.subrange(0, j as int);
            if j > 0 {
                assert(cards@[j - 1] == t[j - 1]) by {
                    assert(cards@.subrange(0, j as int)[j - 1] == t.subrange(0, j as int)[j - 1]);
                }
                assert(tj.last() == t[j - 1]);
            }
            assert(insert_by_index(tj, x) == tj.push(x));
            assert(cards@.subrange(0, i + 1) =~= tj.push(x) + t.subrange(j as int, i as int)) by {
                assert(cards@.subrange(0, i + 1) =~= cards@.subrange(0, j as int) + seq![x]
                    + cards@.subrange(j + 1, i + 1));
            }
            assert(orig.subrange(0, i + 1).drop_last() =~= orig.subrange(0, i as int));
            assert(orig.subrange(0, i + 1).last() == x);
            assert(cards@.subrange(i + 1, n as int) == orig.subrange(i + 1, n as int));
        }
        i = i + 1;
    }
    assert(cards@ =~= cards@.subrange(0, n as int));
    assert(orig =~= orig.subrange(0, n as int));
}

// ---------------------------------------------------------------------------
// The magnetic effect
// ---------------------------------------------------------------------------

/// The side of a card that an effect reaches.
#[derive(Debug, Clone, Copy, PartialEq, Eq, Structural)]
pub enum CardDir {
    Right,
    Left,
    Around,
}

/// The first position at or after `start` of a card with the given index.
pub open spec fn first_card_at_from(s: Seq<(Entity, PosInDeck)>, key: u32, start: int) -> Option<int>
    decreases s.len() - start,
{
    if start < 0 || start >= s.len() {
        None
    } else if s[start].1.index == key {
        Some(start)
    } else {
        first_card_at_from(s, key, start + 1)
    }
}

/// The position of the first card with the given index.
pub fn first_card_at(cards: &Vec<(Entity, PosInDeck)>, key: u32) -> (r: Option<usize>)
    ensures
        r == (match first_card_at_from(cards@, key, 0) {
            Some(p) => Some(p as usize),
            None => None::<usize>,
        }),
{
    let mut i: usize = 0;
    while i < cards.len()
        invariant
            0 <= i <= cards@.len(),
            first_card_at_from(cards@, key, 0) == first_card_at_from(cards@, key, i as int),
        decreases cards@.len() - i,
    {
        if cards[i].1.index == key {
            return Some(i);
        }
        i = i + 1;
    }
    None
}

/// A found position holds a card of the index, and lies in the sequence.
pub proof fn lemma_first_card_at_from(s: Seq<(Entity, PosInDeck)>, key: u32, start: int)
    ensures
        first_card_at_from(s, key, start) matches Some(p) ==> 0 <= start <= p < s.len()
            && s[p].1.index == key,
    decreases s.len() - start,
{
    if start < 0 || start >= s.len() {
    } else if s[start].1.index == key {
    } else {
        lemma_first_card_at_from(s, key, start + 1);
    }
}

/// The index of the last occurrence of `e` in the pile, as a `u32`
/// (0 when the entity is not in the pile).
pub open spec fn pile_index(coll: Seq<Entity>, e: Entity) -> u32 {
    match last_pos_before(coll, e, coll.len() as int) {
        Some(p) => #[verifier::truncate] ((p as usize) as u32),
        None => 0,
    }
}

/// The pile after each `(entity, index)` move is performed in turn.
pub open spec fn apply_places(s: Seq<Entity>, moves: Seq<(Entity, u32)>) -> Seq<Entity>
    decreases moves.len(),
{
    if moves.len() == 0 {
        s
    } else {
        apply_places(place_spec(s, moves[0].0, moves[0].1 as int), moves.drop_first())
    }
}

/// A magnetic effect: the card carrying it pulls up to `strength` of its
/// neighbours on the given side toward it.
#[derive(Debug, Clone, Copy, PartialEq, Eq, Structural)]
pub struct Magnetic {
    pub direction: CardDir,
    pub strength: u32,
}

impl Magnetic {
    pub fn new(direction: CardDir, strength: u32) -> (m: Self)
        ensures
            m.direction == direction,
            m.strength == strength,
    {
        Self { direction, strength }
    }

    /// How many cards right of position `cp` (of `len` cards) are pulled.
    pub open spec fn right_count(self, len: int, cp: int) -> int {
        if len - 1 - cp < self.strength { len - 1 - cp } else { self.strength as int }
    }

    /// How many cards left of position `cp` are pulled.
    pub open spec fn left_count(self, cp: int) -> int {
        if cp < self.strength { cp } else { self.strength as int }
    }

    /// The moves of the cards right of `cp` when the pull is one-sided: each
    /// is moved `right_count` places down, not below 0.
    pub open spec fn right_moves(self, sorted: Seq<(Entity, PosInDeck)>, cp: int) -> Seq<(Entity, u32)> {
        let rc = self.right_count(sorted.len() as int, cp);
        Seq::new(rc as nat, |j: int| (sorted[cp + 1 + j].0, sorted[cp + 1 + j].1.index.saturating_sub(rc as u32)))
    }

    /// The moves of the cards left of `cp` when the pull is one-sided: each
    /// is moved `left_count` places up.
    pub open spec fn left_moves(self, sorted: Seq<(Entity, PosInDeck)>, cp: int) -> Seq<(Entity, u32)> {
        let lc = self.left_count(cp);
        Seq::new(lc as nat, |j: int| (sorted[cp - lc + j].0, (sorted[cp - lc + j].1.index + lc) as u32))
    }

    /// The moves when the pull reaches both sides: the cards right of `cp`
    /// are moved `right_count` places down from their place in the pile
    /// (wrapping around below 0), then the cards left of it `left_count`
    /// places down, not below 0.
    pub open spec fn around_moves(self, sorted: Seq<(Entity, PosInDeck)>, cp: int, coll: Seq<Entity>) -> Seq<(Entity, u32)> {
        let rc = self.right_count(sorted.len() as int, cp);
        let lc = self.left_count(cp);
        Seq::new(rc as nat, |j: int| (sorted[cp + 1 + j].0, pile_index(coll, sorted[cp + 1 + j].0).wrapping_sub(rc as u32)))
        + Seq::new(lc as nat, |j: int| (sorted[cp - lc + j].0, pile_index(coll, sorted[cp - lc + j].0).saturating_sub(lc as u32)))
    }

    /// The moves the effect performs, the source card lying at `cp` of the
    /// sorted cards.
    pub open spec fn moves(self, sorted: Seq<(Entity, PosInDeck)>, cp: int, coll: Seq<Entity>) -> Seq<(Entity, u32)> {
        match self.direction {
            CardDir::Right => self.right_moves(sorted, cp),
            CardDir::Left => self.left_moves(sorted, cp),
            CardDir::Around => self.around_moves(sorted, cp, coll),
        }
    }

    /// What the effect needs of its inputs: a one-sided pull to the left
    /// keeps every moved index within `u32`, a pull around finds every moved
    /// card in the pile, and every move of a card of the pile asks for an
    /// index within the pile.
    pub open spec fn applicable(self, source: PosInDeck, cards: Seq<(Entity, PosInDeck)>, coll: Seq<Entity>) -> bool {
        cards.len() >= 2 ==> match first_card_at_from(sort_by_index(cards), source.index, 0) {
            None => true,
            Some(cp) => self.applicable_at(sort_by_index(cards), cp, coll),
        }
    }

    /// The pile after the effect of the card at `source`.
    pub open spec fn result_pile(self, source: PosInDeck, cards: Seq<(Entity, PosInDeck)>, coll: Seq<Entity>) -> Seq<Entity> {
        if cards.len() < 2 {
            coll
        } else {
            let sorted = sort_by_index(cards);
            match first_card_at_from(sorted, source.index, 0) {
                None => coll,
                Some(cp) => apply_places(coll, self.moves(sorted, cp, coll)),
            }
        }
    }

    /// The moves of the effect, computed from the sorted cards.
    fn build_moves(&self, sorted: &Vec<(Entity, PosInDeck)>, cp: usize, collection: &PileWithCards) -> (v: Vec<(Entity, u32)>)
        requires
            cp < sorted@.len() <= u32::MAX,
            self.moves_computable(sorted@, cp as int, collection.0@),
        ensures
            v@ == self.moves(sorted@, cp as int, collection.0@),
    {
        let len = sorted.len() as u32;
        let curr_pos = cp as u32;
        let right_count = if len - 1 - curr_pos < self.strength { len - 1 - curr_pos } else { self.strength };
        let left_count = if curr_pos < self.strength { curr_pos } else { self.strength };
        let ghost rc = right_count as int;
        let ghost lc = left_count as int;
        assert(rc == self.right_count(sorted@.len() as int, cp as int));
        assert(lc == self.left_count(cp as int));
        let mut v: Vec<(Entity, u32)> = Vec::new();
        let ghost coll = collection.0@;
        match self.direction {
            CardDir::Right | CardDir::Around => {
                let mut k: usize = 0;
                while k < right_count as usize
                    invariant
                        cp < sorted@.len() <= u32::MAX,
                        rc == right_count,
                        rc == self.right_count(sorted@.len() as int, cp as int),
                        0 <= k <= rc,
                        coll == collection.0@,
                        self.direction != CardDir::Left,
                        self.moves_computable(sorted@, cp as int, coll),
                        v@ == (match self.direction {
                            CardDir::Right => self.right_moves(sorted@, cp as int).take(k as int),
                            _ => self.around_moves(sorted@, cp as int, coll).take(k as int),
                        }),
                    decreases rc - k,
                {
                    let (e, pos) = sorted[cp + 1 + k];
                    let ghost before = v@;
                    match self.direction {
                        CardDir::Right => {
                            v.push((e, pos.index.saturating_sub(right_count)));
                            assert(v@ =~= self.right_moves(sorted@, cp as int).take(k + 1));
                        },
                        _ => {
                            assert(last_pos_before(coll, sorted@[cp + 1 + k].0, coll.len() as int) is Some);
                            proof {
                                lemma_last_pos_before(coll, e, coll.len() as int);
                            }
                            let at = match collection.last_position(e) {
                                Some(p) => #[verifier::truncate] (p as u32),
                                None => 0,
                            };
                            proof {
                                let am = self.around_moves(sorted@, cp as int, coll);
                                assert(at == pile_index(coll, e));
                                assert(am[k as int] == (e, at.wrapping_sub(right_count)));
                            }
                            v.push((e, at.wrapping_sub(right_count)));
                            assert(v@ =~= self.around_moves(sorted@, cp as int, coll).take(k + 1));
                        },
                    }
                    k = k + 1;
                }
                assert(self.right_moves(sorted@, cp as int).take(rc) =~= self.right_moves(sorted@, cp as int));
                if let CardDir::Right = self.direction {
                    return v;
                }
            },
            CardDir::Left => {},
        }
        let ghost start_len = v@.len();
        let mut k: usize = 0;
        while k < left_count as usize
            invariant
                cp < sorted@.len() <= u32::MAX,
                lc == left_count,
                lc == self.left_count(cp as int),
                0 <= k <= lc,
                coll == collection.0@,
                self.direction != CardDir::Right,
                self.moves_computable(sorted@, cp as int, coll),
                v@ == (match self.direction {
                    CardDir::Left => self.left_moves(sorted@, cp as int).take(k as int),
                    _ => self.around_moves(sorted@, cp as int, coll).take(self.right_count(sorted@.len() as int, cp as int) + k),
                }),
            decreases lc - k,
        {
            let (e, pos) = sorted[cp - left_count as usize + k];
            match self.direction {
                CardDir::Left => {
                    assert(sorted@[cp - lc + k].1.index + lc <= u32::MAX);
                    v.push((e, pos.index + left_count));
                    assert(v@ =~= self.left_moves(sorted@, cp as int).take(k + 1));
                },
                _ => {
                    assert(last_pos_before(coll, sorted@[cp - lc + k].0, coll.len() as int) is Some);
                    proof {
                        lemma_last_pos_before(coll, e, coll.len() as int);
                    }
                    let at = match collection.last_position(e) {
                        Some(p) => #[verifier::truncate] (p as u32),
                        None => 0,
                    };
                    proof {
                        let am = self.around_moves(sorted@, cp as int, coll);
                        assert(at == pile_index(coll, e));
                        assert(am[self.right_count(sorted@.len() as int, cp as int) + k] == (e, at.saturating_sub(left_count)));
                    }
                    v.push((e, at.saturating_sub(left_count)));
                    assert(v@ =~= self.around_moves(sorted@, cp as int, coll).take(self.right_count(sorted@.len() as int, cp as int) + k + 1));
                },
            }
            k = k + 1;
        }
        assert(self.left_moves(sorted@, cp as int).take(lc) =~= self.left_moves(sorted@, cp as int));
        assert(self.around_moves(sorted@, cp as int, coll).take(self.right_count(sorted@.len() as int, cp as int) + lc) =~= self.around_moves(sorted@, cp as int, coll));
        v
    }

    /// Whether the moves can be computed: a one-sided pull to the left keeps
    /// every moved index within `u32`, and a pull around finds every moved
    /// card in the pile.
    pub open spec fn moves_computable(self, sorted: Seq<(Entity, PosInDeck)>, cp: int, coll: Seq<Entity>) -> bool {
        let rc = self.right_count(sorted.len() as int, cp);
        let lc = self.left_count(cp);
        match self.direction {
            CardDir::Right => true,
            CardDir::Left => forall|k: int| cp - lc <= k < cp ==> #[trigger] sorted[k].1.index + lc <= u32::MAX,
            CardDir::Around => {
                &&& forall|k: int| cp + 1 <= k < cp + 1 + rc ==> last_pos_before(coll, #[trigger] sorted[k].0, coll.len() as int) is Some
                &&& forall|k: int| cp - lc <= k < cp ==> last_pos_before(coll, #[trigger] sorted[k].0, coll.len() as int) is Some
            },
        }
    }

    /// `applicable`, for the sorted cards and the source position found.
    pub open spec fn applicable_at(self, sorted: Seq<(Entity, PosInDeck)>, cp: int, coll: Seq<Entity>) -> bool {
        &&& self.moves_computable(sorted, cp, coll)
        &&& moves_fit(coll, self.moves(sorted, cp, coll))
    }

    /// Applies the effect of the card at `source`: sorts `cards` (the cards
    /// of the pile with their positions) by index, then pulls the source
    /// card's neighbours toward it in `collection`. Fewer than two cards, or
    /// no card at the source's index, leave the pile as it is.
    pub fn apply_effect(&self, source: &PosInDeck, cards: &mut Vec<(Entity, PosInDeck)>, collection: &mut PileWithCards)
        requires
            old(cards)@.len() <= u32::MAX,
            self.applicable(*source, old(cards)@, old(collection).0@),
        ensures
            final(cards)@ == (if old(cards)@.len() < 2 { old(cards)@ } else { sort_by_index(old(cards)@) }),
            final(collection).0@ == self.result_pile(*source, old(cards)@, old(collection).0@),
    {
        if cards.len() < 2 {
            return;
        }
        let ghost orig_cards = cards@;
        let ghost orig_coll = collection.0@;
        sort_cards_by_index(cards);
        proof {
            lemma_sort_len(orig_cards);
            lemma_first_card_at_from(cards@, source.index, 0);
        }
        let cp = match first_card_at(cards, source.index) {
            None => {
                return;
            },
            Some(p) => p,
        };
        let modified = self.build_moves(cards, cp, collection);
        let ghost moves = modified@;
        assert(moves.skip(0) =~= moves);
        let mut i: usize = 0;
        while i < modified.len()
            invariant
                moves == modified@,
                0 <= i <= moves.len(),
                moves_fit(orig_coll, moves),
                collection.0@.to_multiset() == orig_coll.to_multiset(),
                collection.0@.len() == orig_coll.len(),
                apply_places(orig_coll, moves) == apply_places(collection.0@, moves.skip(i as int)),
            decreases moves.len() - i,
        {
            let (e, new_i) = modified[i];
            let ghost before = collection.0@;
            proof {
                broadcast use vstd::seq_lib::to_multiset_contains;
                assert(moves.skip(i as int)[0] == moves[i as int]);
                assert(moves.skip(i as int).drop_first() =~= moves.skip(i + 1));
                assert(moves[i as int].0 == e);
                assert(before.to_multiset().count(e) == orig_coll.to_multiset().count(e));
                assert(before.contains(e) <==> orig_coll.contains(e));
                assert(before.contains(e) ==> new_i < before.len());
                lemma_place_permutes(before, e, new_i as int);
            }
            collection.place(e, new_i as usize);
            i = i + 1;
        }
        assert(moves.skip(moves.len() as int) =~= Seq::<(Entity, u32)>::empty());
        assert(moves.skip(0) =~= moves);
    }

    /// Whether `apply_effect` may be called with these inputs, that is,
    /// whether `applicable` holds of them.
    pub fn can_apply(&self, source: &PosInDeck, cards: &Vec<(Entity, PosInDeck)>, collection: &PileWithCards) -> (b: bool)
        requires
            cards@.len() <= u32::MAX,
        ensures
            b == self.applicable(*source, cards@, collection.0@),
    {
        if cards.len() < 2 {
            return true;
        }
        let mut sorted: Vec<(Entity, PosInDeck)> = Vec::new();
        let mut c: usize = 0;
        while c < cards.len()
            invariant
                0 <= c <= cards@.len(),
                sorted@ == cards@.subrange(0, c as int),
            decreases cards@.len() - c,
        {
            sorted.push(cards[c]);
            c = c + 1;
            assert(sorted@ =~= cards@.subrange(0, c as int));
        }
        assert(sorted@ =~= cards@);
        sort_cards_by_index(&mut sorted);
        proof {
            lemma_sort_len(cards@);
            lemma_first_card_at_from(sorted@, source.index, 0);
        }
        let cp = match first_card_at(&sorted, source.index) {
            None => {
                return true;
            },
            Some(p) => p,
        };
        let ghost coll = collection.0@;
        let len = sorted.len() as u32;
        let curr_pos = cp as u32;
        let right_count = if len - 1 - curr_pos < self.strength { len - 1 - curr_pos } else { self.strength };
        let left_count = if curr_pos < self.strength { curr_pos } else { self.strength };
        let ghost rc = right_count as int;
        let ghost lc = left_count as int;
        assert(rc == self.right_count(sorted@.len() as int, cp as int));
        assert(lc == self.left_count(cp as int));
        let ghost sl = sorted@;
        assert(cp + 1 + rc <= sl.len());
        let r_end: usize = cp + 1 + right_count as usize;
        let l_start: usize = cp - left_count as usize;
        let mut right_ok = true;
        let mut left_ok = true;
        match self.direction {
            CardDir::Right => {},
            CardDir::Left => {
                let mut k: usize = l_start;
                while k < cp
                    invariant
                        sl == sorted@,
                        lc == left_count,
                        l_start == cp - lc,
                        cp < sl.len(),
                        l_start <= k <= cp,
                        left_ok == forall|q: int| cp - lc <= q < k ==> #[trigger] sl[q].1.index + lc <= u32::MAX,
                    decreases cp - k,
                {
                    if sorted[k].1.index > u32::MAX - left_count {
                        left_ok = false;
                    }
                    k = k + 1;
                }
            },
            CardDir::Around => {
                let mut k: usize = cp + 1;
                while k < r_end
                    invariant
                        sl == sorted@,
                        coll == collection.0@,
                        r_end == cp + 1 + rc,
                        r_end <= sl.len(),
                        cp + 1 <= k <= r_end,
                        right_ok == forall|q: int| cp + 1 <= q < k ==> last_pos_before(coll, #[trigger] sl[q].0, coll.len() as int) is Some,
                    decreases r_end - k,
                {
                    let found = collection.last_position(sorted[k].0);
                    if found.is_none() {
                        right_ok = false;
                    }
                    k = k + 1;
                }
                let mut k: usize = l_start;
                while k < cp
                    invariant
                        sl == sorted@,
                        coll == collection.0@,
                        l_start == cp - lc,
                        cp < sl.len(),
                        l_start <= k <= cp,
                        left_ok == forall|q: int| cp - lc <= q < k ==> last_pos_before(coll, #[trigger] sl[q].0, coll.len() as int) is Some,
                    decreases cp - k,
                {
                    let found = collection.last_position(sorted[k].0);
                    if found.is_none() {
                        left_ok = false;
                    }
                    k = k + 1;
                }
            },
        }
        if !right_ok || !left_ok {
            return false;
        }
        let moves = self.build_moves(&sorted, cp, collection);
        let n = collection.0.len();
        let mut j: usize = 0;
        while j < moves.len()
            invariant
                0 <= j <= moves@.len(),
                coll == collection.0@,
                n == coll.len(),
                cards@.len() >= 2,
                sorted@ == sort_by_index(cards@),
                first_card_at_from(sorted@, source.index, 0) == Some(cp as int),
                moves@ == self.moves(sorted@, cp as int, coll),
                self.moves_computable(sorted@, cp as int, coll),
                forall|q: int| 0 <= q < j && coll.contains(#[trigger] moves@[q].0) ==> moves@[q].1 < coll.len(),
            decreases moves@.len() - j,
        {
            let (e, at) = moves[j];
            proof {
                lemma_first_pos_from(coll, e, 0);
                assert(moves@[j as int].0 == e);
            }
            if collection.first_position(e).is_some() && at as usize >= n {
                assert(coll.contains(e)) by {
                    let p = first_pos_from(coll, e, 0)->0;
                    assert(coll[p] == e);
                }
                return false;
            }
            proof {
                if coll.contains(e) {
                    let w = choose|w: int| 0 <= w < coll.len() && coll[w] == e;
                    assert(coll[w] == e);
                }
            }
            j = j + 1;
        }
        true
    }
}

/// A one-sided pull to the left pulls the cards just left of the source, as
/// many as the strength allows and as there are, and moves each of them up
/// by the number of cards pulled: the first card pulled lands at the
/// source's own slot when the cards are consecutively indexed.
pub proof fn law_left_pull_shifts_by_count(m: Magnetic, sorted: Seq<(Entity, PosInDeck)>, cp: int, coll: Seq<Entity>)
    requires
        m.direction == CardDir::Left,
        0 <= cp < sorted.len(),
        m.moves_computable(sorted, cp, coll),
    ensures
        ({
            let mv = m.moves(sorted, cp, coll);
            &&& mv.len() <= m.strength
            &&& mv.len() <= cp
            &&& (mv.len() == m.strength || mv.len() == cp)
            &&& forall|j: int| 0 <= j < mv.len() ==> (#[trigger] mv[j]).0 == sorted[cp - mv.len() + j].0
                && mv[j].1 == sorted[cp - mv.len() + j].1.index + mv.len()
        }),
{
    let mv = m.moves(sorted, cp, coll);
    let lc = m.left_count(cp);
    assert(mv.len() == lc);
    assert forall|j: int| 0 <= j < mv.len() implies (#[trigger] mv[j]).0 == sorted[cp - mv.len() + j].0
        && mv[j].1 == sorted[cp - mv.len() + j].1.index + mv.len() by {
        assert(sorted[cp - lc + j].1.index + lc <= u32::MAX);
    }
}

/// A one-sided pull to the right pulls the cards just right of the source,
/// as many as the strength allows and as there are, and moves each of them
/// down by the number of cards pulled, not below 0.
pub proof fn law_right_pull_shifts_by_count(m: Magnetic, sorted: Seq<(Entity, PosInDeck)>, cp: int, coll: Seq<Entity>)
    requires
        m.direction == CardDir::Right,
        0 <= cp < sorted.len(),
    ensures
        ({
            let mv = m.moves(sorted, cp, coll);
            &&& mv.len() <= m.strength
            &&& cp + mv.len() < sorted.len()
            &&& (mv.len() == m.strength || cp + mv.len() == sorted.len() - 1)
            &&& forall|j: int| 0 <= j < mv.len() ==> (#[trigger] mv[j]).0 == sorted[cp + 1 + j].0
                && mv[j].1 == (if sorted[cp + 1 + j].1.index >= mv.len() { sorted[cp + 1 + j].1.index - mv.len() } else { 0 })
        }),
{
}

/// A pull around, on a pile whose places fit in `u32`, moves the cards just
/// right of the source, then those just left of it, as many on each side as
/// the strength allows and as there are: each right card down by the number
/// of right cards from its last place in the pile (wrapping below 0), and
/// each left card down by the number of left cards from its last place in
/// the pile, not below 0.
pub proof fn law_around_pull_targets(m: Magnetic, sorted: Seq<(Entity, PosInDeck)>, cp: int, coll: Seq<Entity>)
    requires
        m.direction == CardDir::Around,
        0 <= cp < sorted.len(),
        coll.len() <= u32::MAX,
        m.moves_computable(sorted, cp, coll),
    ensures
        ({
            let mv = m.moves(sorted, cp, coll);
            let rc = m.right_count(sorted.len() as int, cp);
            let lc = m.left_count(cp);
            &&& rc <= m.strength && cp + rc < sorted.len() && (rc == m.strength || cp + rc == sorted.len() - 1)
            &&& lc <= m.strength && lc <= cp && (lc == m.strength || lc == cp)
            &&& mv.len() == rc + lc
            &&& forall|j: int| 0 <= j < rc ==> ((#[trigger] mv[j]).0 == sorted[cp + 1 + j].0
                && (last_pos_before(coll, mv[j].0, coll.len() as int) matches Some(p)
                && mv[j].1 as int == (if p >= rc { p - rc } else { p - rc + 0x1_0000_0000 })))
            &&& forall|j: int| rc <= j < rc + lc ==> ((#[trigger] mv[j]).0 == sorted[cp - lc + (j - rc)].0
                && (last_pos_before(coll, mv[j].0, coll.len() as int) matches Some(p)
                && mv[j].1 as int == (if p >= lc { p - lc } else { 0 })))
        }),
{
    let rc = m.right_count(sorted.len() as int, cp);
    let lc = m.left_count(cp);
    let mv = m.moves(sorted, cp, coll);
    assert forall|j: int| 0 <= j < rc implies ((#[trigger] mv[j]).0 == sorted[cp + 1 + j].0
        && (last_pos_before(coll, mv[j].0, coll.len() as int) matches Some(p)
        && mv[j].1 as int == (if p >= rc { p - rc } else { p - rc + 0x1_0000_0000 }))) by {
        let k = cp + 1 + j;
        lemma_last_pos_before(coll, sorted[k].0, coll.len() as int);
        let p = last_pos_before(coll, sorted[k].0, coll.len() as int)->0;
        let pi = pile_index(coll, sorted[k].0);
        assert(pi == p);
        let r = rc as u32;
        assert(pi.wrapping_sub(r) as int == (if pi >= r { pi - r } else { pi - r + 0x1_0000_0000 })) by (bit_vector);
    }
    assert forall|j: int| rc <= j < rc + lc implies ((#[trigger] mv[j]).0 == sorted[cp - lc + (j - rc)].0
        && (last_pos_before(coll, mv[j].0, coll.len() as int) matches Some(p)
        && mv[j].1 as int == (if p >= lc { p - lc } else { 0 }))) by {
        let k = cp - lc + (j - rc);
        lemma_last_pos_before(coll, sorted[k].0, coll.len() as int);
        let p = last_pos_before(coll, sorted[k].0, coll.len() as int)->0;
        assert(pile_index(coll, sorted[k].0) == p);
    }
}

/// Inserting into sorted cards, and sorting, keep the number of cards.
pub proof fn lemma_insert_len(t: Seq<(Entity, PosInDeck)>, x: (Entity, PosInDeck))
    ensures
        insert_by_index(t, x).len() == t.len() + 1,
    decreases t.len(),
{
    if t.len() == 0 || t.last().1.index <= x.1.index {
    } else {
        lemma_insert_len(t.drop_last(), x);
    }
}

/// Sorting keeps the number of cards.
pub proof fn lemma_sort_len(s: Seq<(Entity, PosInDeck)>)
    ensures
        sort_by_index(s).len() == s.len(),
    decreases s.len(),
{
    if s.len() > 0 {
        lemma_sort_len(s.drop_last());
        lemma_insert_len(sort_by_index(s.drop_last()), s.last());
    }
}

/// Whether the cards are in non-decreasing order of index.
pub open spec fn sorted_by_index(s: Seq<(Entity, PosInDeck)>) -> bool {
    forall|i: int, j: int| 0 <= i < j < s.len() ==> s[i].1.index <= s[j].1.index
}

/// Inserting into sorted cards keeps them sorted, under any bound that
/// holds of all of them.
pub proof fn lemma_insert_sorted(t: Seq<(Entity, PosInDeck)>, x: (Entity, PosInDeck), bound: u32)
    requires
        sorted_by_index(t),
        forall|i: int| 0 <= i < t.len() ==> t[i].1.index <= bound,
        x.1.index <= bound,
    ensures
        sorted_by_index(insert_by_index(t, x)),
        forall|i: int| 0 <= i < insert_by_index(t, x).len() ==> insert_by_index(t, x)[i].1.index <= bound,
    decreases t.len(),
{
    lemma_insert_len(t, x);
    if t.len() == 0 || t.last().1.index <= x.1.index {
        assert forall|i: int| 0 <= i < t.len() implies t[i].1.index <= x.1.index by {
            if i < t.len() - 1 {
                assert(t[i].1.index <= t[t.len() - 1].1.index);
            }
        }
    } else {
        let t2 = t.drop_last();
        lemma_insert_sorted(t2, x, t.last().1.index);
        lemma_insert_len(t2, x);
    }
}

/// Inserting adds exactly the inserted card.
pub proof fn lemma_insert_multiset(t: Seq<(Entity, PosInDeck)>, x: (Entity, PosInDeck))
    ensures
        insert_by_index(t, x).to_multiset() == t.to_multiset().insert(x),
    decreases t.len(),
{
    broadcast use vstd::seq_lib::group_to_multiset_ensures;
    broadcast use vstd::multiset::group_multiset_axioms;
    if t.len() == 0 || t.last().1.index <= x.1.index {
    } else {
        let t2 = t.drop_last();
        lemma_insert_multiset(t2, x);
        assert(t =~= t2.push(t.last()));
        assert(insert_by_index(t, x).to_multiset() =~= t.to_multiset().insert(x));
    }
}

/// Sorting by index yields the same cards, in non-decreasing order of
/// index.
pub proof fn lemma_sort_by_index(s: Seq<(Entity, PosInDeck)>)
    ensures
        sorted_by_index(sort_by_index(s)),
        sort_by_index(s).to_multiset() == s.to_multiset(),
        sort_by_index(s).len() == s.len(),
    decreases s.len(),
{
    broadcast use vstd::seq_lib::group_to_multiset_ensures;
    lemma_sort_len(s);
    if s.len() > 0 {
        let rest = s.drop_last();
        lemma_sort_by_index(rest);
        lemma_insert_sorted(sort_by_index(rest), s.last(), u32::MAX);
        lemma_insert_multiset(sort_by_index(rest), s.last());
        assert(s =~= rest.push(s.last()));
    }
}

/// Performing moves one after the other neither adds nor loses cards.
pub proof fn lemma_apply_places_permutes(s: Seq<Entity>, moves: Seq<(Entity, u32)>)
    requires
        moves_fit(s, moves),
    ensures
        apply_places(s, moves).to_multiset() == s.to_multiset(),
        apply_places(s, moves).len() == s.len(),
    decreases moves.len(),
{
    if moves.len() > 0 {
        broadcast use vstd::seq_lib::to_multiset_contains;
        let next = place_spec(s, moves[0].0, moves[0].1 as int);
        assert(s.contains(moves[0].0) ==> moves[0].1 < s.len());
        lemma_place_permutes(s, moves[0].0, moves[0].1 as int);
        let rest = moves.drop_first();
        assert forall|j: int| 0 <= j < rest.len() && next.contains(#[trigger] rest[j].0) implies rest[j].1 < next.len() by {
            assert(rest[j] == moves[j + 1]);
            assert(next.to_multiset().count(rest[j].0) == s.to_multiset().count(rest[j].0));
            assert(next.contains(rest[j].0) ==> s.contains(rest[j].0));
        }
        lemma_apply_places_permutes(next, rest);
    }
}

/// The magnetic effect only reorders its pile: the cards after it are the
/// cards before it, each as often.
pub proof fn law_magnetic_keeps_pile_cards(m: Magnetic, source: PosInDeck, cards: Seq<(Entity, PosInDeck)>, coll: Seq<Entity>)
    requires
        m.applicable(source, cards, coll),
    ensures
        m.result_pile(source, cards, coll).to_multiset() == coll.to_multiset(),
        m.result_pile(source, cards, coll).len() == coll.len(),
{
    if cards.len() >= 2 {
        let sorted = sort_by_index(cards);
        if let Some(cp) = first_card_at_from(sorted, source.index, 0) {
            lemma_apply_places_permutes(coll, m.moves(sorted, cp, coll));
        }
    }
}

/// After the magnetic effect the cards it was given are sorted by index and
/// are the same cards.
pub proof fn law_magnetic_sorts_cards(cards: Seq<(Entity, PosInDeck)>)
    requires
        cards.len() >= 2,
    ensures
        sorted_by_index(sort_by_index(cards)),
        sort_by_index(cards).to_multiset() == cards.to_multiset(),
{
    lemma_sort_by_index(cards);
}

// ---------------------------------------------------------------------------
// Card markers, events and casting
// ---------------------------------------------------------------------------

/// Marks a card shown on screen.
#[derive(Debug, Clone, Copy, PartialEq, Eq, Structural)]
pub struct UiCardMarker;

/// Marks the draw pile of a player.
#[derive(Debug, Clone, Copy, PartialEq, Eq, Structural)]
pub struct DrawPile;

/// Marks the hand of a player.
#[derive(Debug, Clone, Copy, PartialEq, Eq, Structural)]
pub struct HandPile;

/// The pile a card lies in.
#[derive(Debug, Clone, Copy, PartialEq, Eq, Structural)]
pub struct CardInPile(pub Entity);

/// Marks a card of the player.
#[derive(Debug, Clone, Copy, PartialEq, Eq, Structural)]
pub struct PlayerCard;

/// Marks a card of the enemy.
#[derive(Debug, Clone, Copy, PartialEq, Eq, Structural)]
pub struct EnemyCard;

/// A card in a hand.
#[derive(Debug, Clone, Copy, PartialEq, Eq, Structural)]
pub struct InHand;

/// A card being drawn.
#[derive(Debug, Clone, Copy, PartialEq, Eq, Structural)]
pub struct BeingDrawn;

/// A card in a draw pile.
#[derive(Debug, Clone, Copy, PartialEq, Eq, Structural)]
pub struct InDrawPile;

/// A card in a discard pile.
#[derive(Debug, Clone, Copy, PartialEq, Eq, Structural)]
pub struct InDiscard;

/// A card waiting to be played as drawn.
#[derive(Debug, Clone, Copy, PartialEq, Eq, Structural)]
pub struct PendingDraw;

/// A card is cast.
#[derive(Debug, Clone, Copy, PartialEq, Eq, Structural)]
pub struct CardCast {
    pub card: Entity,
}

/// A card is to be drawn.
#[derive(Debug, Clone, Copy, PartialEq, Eq, Structural)]
pub struct DrawCard {
    pub card: Entity,
}

impl DrawCard {
    pub fn new(card: Entity) -> (d: Self)
        ensures
            d.card == card,
    {
        Self { card }
    }
}

/// A card was drawn, by the player or the enemy.
#[derive(Debug, Clone, Copy, PartialEq, Eq, Structural)]
pub struct CardDrawn {
    pub card: Entity,
    pub is_player: bool,
}

/// How many cards an effect targets.
#[derive(Debug, Clone, Copy, PartialEq, Eq, Structural)]
pub enum TargetingAmount {
    Single,
    Fixed(i32),
    All,
}

/// How a card chooses the cards it affects.
#[derive(Debug, Clone, Copy, PartialEq, Eq, Structural)]
pub enum CardTargeting {
    ByDir(CardDir, TargetingAmount),
}

impl CardTargeting {
    /// A single card, on either side.
    pub fn default() -> (t: Self)
        ensures
            t == CardTargeting::ByDir(CardDir::Around, TargetingAmount::Single),
    {
        CardTargeting::ByDir(CardDir::Around, TargetingAmount::Single)
    }
}

/// The magnetic status a card gets, pulling `strength` cards on the given
/// side.
pub fn magnetic_effect(direction: CardDir, strength: u32) -> (m: Magnetic)
    ensures
        m == (Magnetic { direction, strength }),
{
    Magnetic::new(direction, strength)
}

/// The status the burn effect gives a card: as written, the same magnetic
/// status as `magnetic_effect`.
pub fn burn_effect(direction: CardDir, strength: u32) -> (m: Magnetic)
    ensures
        m == (Magnetic { direction, strength }),
{
    Magnetic::new(direction, strength)
}

/// The battle step counter of a card.
#[derive(Debug, Clone, Copy, PartialEq, Eq, Structural)]
pub struct BattleSubTick(pub i32);

/// How many steps a card needs before it is cast.
#[derive(Debug, Clone, Copy, PartialEq, Eq, Default, Structural)]
pub struct CastTicksRequirement {
    pub value: u32,
}

impl CastTicksRequirement {
    pub fn new(ticks: u32) -> (c: Self)
        ensures
            c.value == ticks,
    {
        Self { value: ticks }
    }

    /// Counts one more step.
    pub fn tick(&mut self, _curr_tick: &BattleTick)
        requires
            old(self).value < u32::MAX,
        ensures
            final(self).value == old(self).value + 1,
    {
        self.value = self.value + 1;
    }
}

/// How many steps passed since a card was last cast, and when that count
/// last changed.
#[derive(Debug, Clone, Copy, PartialEq, Eq, Structural)]
pub struct TicksSinceCast {
    pub value: u32,
    pub last_change_tick: BattleTick,
}

impl TicksSinceCast {
    /// No steps, counted from the first step.
    pub fn default() -> (t: Self)
        ensures
            t.value == 0,
            t.last_change_tick == (BattleTick { turn: 0, subtick: 0 }),
    {
        Self { value: 0, last_change_tick: BattleTick::initial() }
    }
}

/// The casting data a new card starts with: its requirement, and no steps
/// since a cast.
pub fn cast_data(cast_ticks_requirement: u32) -> (d: (CastTicksRequirement, TicksSinceCast))
    ensures
        d.0.value == cast_ticks_requirement,
        d.1.value == 0,
        d.1.last_change_tick == (BattleTick { turn: 0, subtick: 0 }),
{
    (CastTicksRequirement::new(cast_ticks_requirement), TicksSinceCast::default())
}

// ---------------------------------------------------------------------------
// Keeping card positions up to date
// ---------------------------------------------------------------------------

/// What becomes of a card's recorded position when its pile is looked at.
#[derive(Debug, Clone, Copy, PartialEq, Eq, Structural)]
pub struct CardIndexUpdate {
    /// The position to record, if it changes.
    pub record: Option<PosInDeck>,
    /// Whether the card, just drawn into a hand, now waits to be played as
    /// drawn.
    pub mark_pending_draw: bool,
}

/// The position of the card at `i` of a pile: that index, in the hand or the
/// draw pile.
pub open spec fn pile_slot(i: usize, is_hand: bool) -> PosInDeck {
    PosInDeck {
        index: i as u32,
        deck: if is_hand { DeckKind::Hand } else { DeckKind::Draw },
    }
}

/// The update of the card at `i` of a pile: a card with no recorded
/// position gets one; a card whose position is unchanged is left alone; a
/// card whose position changed gets the new one, and, if it lies in a hand
/// and was just drawn, is marked as waiting to be played as drawn.
pub open spec fn index_update(before: Option<PosInDeck>, i: usize, is_hand: bool, just_drawn: bool) -> CardIndexUpdate {
    match before {
        None => CardIndexUpdate { record: Some(pile_slot(i, is_hand)), mark_pending_draw: false },
        Some(b) => if b == pile_slot(i, is_hand) {
            CardIndexUpdate { record: None, mark_pending_draw: false }
        } else {
            CardIndexUpdate { record: Some(pile_slot(i, is_hand)), mark_pending_draw: is_hand && just_drawn }
        },
    }
}

/// Decides the update of the card at `i` of a pile, as `index_update` says.
pub fn card_index_update(before: Option<PosInDeck>, i: usize, is_hand: bool, just_drawn: bool) -> (u: CardIndexUpdate)
    ensures
        u == index_update(before, i, is_hand, just_drawn),
{
    let card_kind = if is_hand { DeckKind::Hand } else { DeckKind::Draw };
    let after = PosInDeck::new(#[verifier::truncate] (i as u32), card_kind);
    match before {
        None => CardIndexUpdate { record: Some(after), mark_pending_draw: false },
        Some(b) => {
            if b.index == after.index && b.deck == after.deck {
                CardIndexUpdate { record: None, mark_pending_draw: false }
            } else {
                CardIndexUpdate { record: Some(after), mark_pending_draw: is_hand && just_drawn }
            }
        },
    }
}

/// What is recorded of a card at `i` of a pile: nothing exactly when its
/// recorded position already has that index in that kind of pile; otherwise
/// that index and pile kind. A card is marked as waiting to be played as
/// drawn exactly when it had a position, gets a new one, lies in a hand and
/// was just drawn. In particular a card that moved to another kind of pile
/// always gets its new position.
pub proof fn law_index_update_records_changes(before: Option<PosInDeck>, i: usize, is_hand: bool, just_drawn: bool)
    ensures
        ({
            let u = index_update(before, i, is_hand, just_drawn);
            let kind = if is_hand { DeckKind::Hand } else { DeckKind::Draw };
            let idx = #[verifier::truncate] (i as u32);
            &&& u.record is None <==> (before matches Some(b) && b.index == idx && b.deck == kind)
            &&& u.record is Some ==> u.record == Some(PosInDeck { index: idx, deck: kind })
            &&& u.mark_pending_draw <==> (before is Some && u.record is Some && is_hand && just_drawn)
            &&& (before matches Some(b) && b.deck != kind) ==> u.record == Some(PosInDeck { index: idx, deck: kind })
        }),
{
}

/// Positions settle: once the position of a card is recorded, looking at
/// the same pile again, with the card at the same place, records nothing and
/// marks nothing.
pub proof fn law_index_update_settles(before: Option<PosInDeck>, i: usize, is_hand: bool, just_drawn: bool, again: bool)
    ensures
        index_update(before, i, is_hand, just_drawn).record matches Some(p) ==> index_update(Some(p), i, is_hand, again)
            == (CardIndexUpdate { record: None, mark_pending_draw: false }),
        index_update(before, i, is_hand, just_drawn).record is None ==> index_update(before, i, is_hand, again)
            == (CardIndexUpdate { record: None, mark_pending_draw: false }),
{
}

// ---------------------------------------------------------------------------
// Animating the turns of a battle on the client
// ---------------------------------------------------------------------------

/// The smallest step recorded for the turn, if any.
pub open spec fn min_subtick(s: Seq<BattleTick>, turn: u32) -> Option<u32>
    decreases s.len(),
{
    if s.len() == 0 {
        None
    } else {
        let r = min_subtick(s.drop_last(), turn);
        if s.last().turn != turn {
            r
        } else {
            match r {
                None => Some(s.last().subtick),
                Some(m) => Some(if s.last().subtick < m { s.last().subtick } else { m }),
            }
        }
    }
}

/// The largest step recorded for the turn, if any.
pub open spec fn max_subtick(s: Seq<BattleTick>, turn: u32) -> Option<u32>
    decreases s.len(),
{
    if s.len() == 0 {
        None
    } else {
        let r = max_subtick(s.drop_last(), turn);
        if s.last().turn != turn {
            r
        } else {
            match r {
                None => Some(s.last().subtick),
                Some(m) => Some(if s.last().subtick > m { s.last().subtick } else { m }),
            }
        }
    }
}

/// The first step of a turn that a card's recorded changes show: its
/// smallest step in the turn, or 999 when it has none.
pub open spec fn card_first_step(s: Seq<BattleTick>, turn: u32) -> u32 {
    match min_subtick(s, turn) {
        Some(m) => m,
        None => 999,
    }
}

/// The last step of a turn that a card's recorded changes show: its largest
/// step in the turn, or 0 when it has none.
pub open spec fn card_last_step(s: Seq<BattleTick>, turn: u32) -> u32 {
    match max_subtick(s, turn) {
        Some(m) => m,
        None => 0,
    }
}

/// The smallest first step over the cards.
pub open spec fn first_step_all(h: Seq<Seq<BattleTick>>, turn: u32) -> u32
    decreases h.len(),
{
    if h.len() <= 1 {
        card_first_step(h[0], turn)
    } else {
        let r = first_step_all(h.drop_last(), turn);
        let c = card_first_step(h.last(), turn);
        if c < r { c } else { r }
    }
}

/// The largest last step over the cards.
pub open spec fn last_step_all(h: Seq<Seq<BattleTick>>, turn: u32) -> u32
    decreases h.len(),
{
    if h.len() <= 1 {
        card_last_step(h[0], turn)
    } else {
        let r = last_step_all(h.drop_last(), turn);
        let c = card_last_step(h.last(), turn);
        if c > r { c } else { r }
    }
}

/// The smallest and the largest step of a turn to animate, over the ticks
/// at which each card recorded changes.
fn card_step_bounds(ticks: &Vec<BattleTick>, turn: u32) -> (r: (u32, u32))
    ensures
        r == (card_first_step(ticks@, turn), card_last_step(ticks@, turn)),
{
    let mut lo: Option<u32> = None;
    let mut hi: Option<u32> = None;
    let mut i: usize = 0;
    while i < ticks.len()
        invariant
            0 <= i <= ticks@.len(),
            lo == min_subtick(ticks@.take(i as int), turn),
            hi == max_subtick(ticks@.take(i as int), turn),
        decreases ticks@.len() - i,
    {
        let t = ticks[i];
        proof {
            assert(ticks@.take(i + 1).drop_last() =~= ticks@.take(i as int));
            assert(ticks@.take(i + 1).last() == t);
        }
        if t.turn == turn {
            lo = match lo {
                None => Some(t.subtick),
                Some(m) => Some(if t.subtick < m { t.subtick } else { m }),
            };
            hi = match hi {
                None => Some(t.subtick),
                Some(m) => Some(if t.subtick > m { t.subtick } else { m }),
            };
        }
        i = i + 1;
    }
    assert(ticks@.take(ticks@.len() as int) =~= ticks@);
    let first = match lo {
        Some(m) => m,
        None => 999,
    };
    let last = match hi {
        Some(m) => m,
        None => 0,
    };
    (first, last)
}

/// The range of steps of a turn to animate: from the smallest first step of
/// any card to the largest last step of any card.
pub fn action_tick_bounds(histories: &Vec<Vec<BattleTick>>, turn: u32) -> (r: (u32, u32))
    requires
        histories@.len() > 0,
    ensures
        r == (
            first_step_all(histories@.map_values(|v: Vec<BattleTick>| v@), turn),
            last_step_all(histories@.map_values(|v: Vec<BattleTick>| v@), turn),
        ),
{
    let ghost h = histories@.map_values(|v: Vec<BattleTick>| v@);
    let (mut lo, mut hi) = card_step_bounds(&histories[0], turn);
    proof {
        assert(h.take(1).len() == 1);
        assert(h.take(1)[0] == histories@[0]@);
    }
    let mut i: usize = 1;
    while i < histories.len()
        invariant
            1 <= i <= histories@.len(),
            h == histories@.map_values(|v: Vec<BattleTick>| v@),
            lo == first_step_all(h.take(i as int), turn),
            hi == last_step_all(h.take(i as int), turn),
        decreases histories@.len() - i,
    {
        let (c_lo, c_hi) = card_step_bounds(&histories[i], turn);
        proof {
            assert(h.take(i + 1).drop_last() =~= h.take(i as int));
            assert(h.take(i + 1).last() == histories@[i as int]@);
        }
        if c_lo < lo {
            lo = c_lo;
        }
        if c_hi > hi {
            hi = c_hi;
        }
        i = i + 1;
    }
    assert(h.take(histories@.len() as int) =~= h);
    (lo, hi)
}

/// A move of a card to animate in a turn: the slot of the turn's animation
/// it plays in, where it starts (`None`: where the card is shown now) and
/// where it ends.
#[derive(Debug, Clone, Copy, PartialEq, Eq, Structural)]
pub struct AnimStep {
    pub slot: u32,
    pub from: Option<PosInDeck>,
    pub to: PosInDeck,
}

/// The positions a card took at step `tick` of a turn: those of the last
/// non-empty record for that step, if any.
pub open spec fn changes_at(h: Seq<(u32, Vec<PosInDeck>)>, tick: u32) -> Option<Seq<PosInDeck>>
    decreases h.len(),
{
    if h.len() == 0 {
        None
    } else if h.last().0 == tick && h.last().1@.len() > 0 {
        Some(h.last().1@)
    } else {
        changes_at(h.drop_last(), tick)
    }
}

/// The moves of the first `i` positions taken in one step: each position in
/// a hand is reached from the position before it in the step, the first one
/// from `prev`.
pub open spec fn group_steps(c: Seq<PosInDeck>, prev: Option<PosInDeck>, slot: u32, i: nat) -> Seq<AnimStep>
    decreases i,
{
    if i == 0 {
        Seq::empty()
    } else {
        let rest = group_steps(c, prev, slot, (i - 1) as nat);
        let k = i - 1;
        if c[k].deck == DeckKind::Hand {
            rest.push(AnimStep { slot, from: if k == 0 { prev } else { Some(c[k - 1]) }, to: c[k] })
        } else {
            rest
        }
    }
}

/// The last position taken in the first `n` steps from `min`, if any.
pub open spec fn last_seen(h: Seq<(u32, Vec<PosInDeck>)>, min: u32, n: nat) -> Option<PosInDeck>
    decreases n,
{
    if n == 0 {
        None
    } else {
        match changes_at(h, (min + n - 1) as u32) {
            Some(c) => Some(c.last()),
            None => last_seen(h, min, (n - 1) as nat),
        }
    }
}

/// The moves to animate over the first `n` steps from `min`, step by step;
/// the first move of a step starts where the previous step left the card.
pub open spec fn steps_upto(h: Seq<(u32, Vec<PosInDeck>)>, min: u32, n: nat) -> Seq<AnimStep>
    decreases n,
{
    if n == 0 {
        Seq::empty()
    } else {
        match changes_at(h, (min + n - 1) as u32) {
            Some(c) => steps_upto(h, min, (n - 1) as nat) + group_steps(c, last_seen(h, min, (n - 1) as nat), (n - 1) as u32, c.len()),
            None => steps_upto(h, min, (n - 1) as nat),
        }
    }
}

/// Positions found for a step are never empty.
pub proof fn lemma_changes_at_nonempty(h: Seq<(u32, Vec<PosInDeck>)>, tick: u32)
    ensures
        changes_at(h, tick) matches Some(c) ==> c.len() > 0,
    decreases h.len(),
{
    if h.len() > 0 {
        lemma_changes_at_nonempty(h.drop_last(), tick);
    }
}

/// The first move of a step whose first position lies in a hand starts from
/// `prev`.
pub proof fn lemma_group_steps_first(c: Seq<PosInDeck>, prev: Option<PosInDeck>, slot: u32, i: nat)
    requires
        1 <= i <= c.len(),
        c[0].deck == DeckKind::Hand,
    ensures
        group_steps(c, prev, slot, i).len() >= 1,
        group_steps(c, prev, slot, i)[0] == (AnimStep { slot, from: prev, to: c[0] }),
    decreases i,
{
    let rest = group_steps(c, prev, slot, (i - 1) as nat);
    if i > 1 {
        lemma_group_steps_first(c, prev, slot, (i - 1) as nat);
    } else {
        assert(rest.len() == 0);
        assert(group_steps(c, prev, slot, i) == rest.push(AnimStep { slot, from: prev, to: c[0] }));
    }
}

/// The moves over more steps extend the moves over fewer.
pub proof fn lemma_steps_prefix(h: Seq<(u32, Vec<PosInDeck>)>, min: u32, n: nat, total: nat)
    requires
        n <= total,
    ensures
        steps_upto(h, min, n).len() <= steps_upto(h, min, total).len(),
        steps_upto(h, min, total).take(steps_upto(h, min, n).len() as int) == steps_upto(h, min, n),
    decreases total,
{
    if n < total {
        lemma_steps_prefix(h, min, n, (total - 1) as nat);
        let a = steps_upto(h, min, n);
        let b = steps_upto(h, min, (total - 1) as nat);
        let t = steps_upto(h, min, total);
        assert(t.take(b.len() as int) =~= b);
        assert(t.take(a.len() as int) =~= b.take(a.len() as int));
    } else {
        assert(steps_upto(h, min, total).take(steps_upto(h, min, total).len() as int) =~= steps_upto(h, min, total));
    }
}

/// After the steps `k + 1 .. n` recorded nothing, the last position seen is
/// the last one of step `k`.
pub proof fn lemma_last_seen_after(h: Seq<(u32, Vec<PosInDeck>)>, min: u32, k: nat, n: nat, c: Seq<PosInDeck>)
    requires
        k < n,
        changes_at(h, (min + k) as u32) == Some(c),
        forall|j: int| k < j < n ==> changes_at(h, #[trigger] ((min + j) as u32)) is None,
    ensures
        last_seen(h, min, n) == Some(c.last()),
    decreases n,
{
    if n > k + 1 {
        assert(changes_at(h, (min + (n - 1)) as u32) is None);
        lemma_last_seen_after(h, min, k, (n - 1) as nat, c);
    }
}

/// Before any step recorded positions, nothing has been seen.
pub proof fn lemma_last_seen_none(h: Seq<(u32, Vec<PosInDeck>)>, min: u32, n: nat)
    requires
        forall|j: int| 0 <= j < n ==> changes_at(h, #[trigger] ((min + j) as u32)) is None,
    ensures
        last_seen(h, min, n) is None,
    decreases n,
{
    if n > 0 {
        assert(changes_at(h, (min + (n - 1)) as u32) is None);
        lemma_last_seen_none(h, min, (n - 1) as nat);
    }
}

/// The first move of step `n` of a turn's moves, when the step recorded
/// positions and the first lies in a hand: it has slot `n`, goes to that
/// position and starts from `last_seen`.
proof fn lemma_first_move_of_step(h: Seq<(u32, Vec<PosInDeck>)>, min: u32, total: nat, n: nat, c: Seq<PosInDeck>)
    requires
        n < total,
        changes_at(h, (min + n) as u32) == Some(c),
        c[0].deck == DeckKind::Hand,
    ensures
        steps_upto(h, min, n).len() < steps_upto(h, min, total).len(),
        steps_upto(h, min, total)[steps_upto(h, min, n).len() as int]
            == (AnimStep { slot: n as u32, from: last_seen(h, min, n), to: c[0] }),
{
    lemma_changes_at_nonempty(h, (min + n) as u32);
    let prev = last_seen(h, min, n);
    let a = steps_upto(h, min, n);
    assert(changes_at(h, (min + (n + 1) - 1) as u32) == Some(c));
    assert(steps_upto(h, min, n + 1) == a + group_steps(c, prev, n as u32, c.len()));
    lemma_group_steps_first(c, prev, n as u32, c.len());
    lemma_steps_prefix(h, min, n + 1, total);
    let t = steps_upto(h, min, total);
    let a1 = steps_upto(h, min, n + 1);
    assert(a1[a.len() as int] == (AnimStep { slot: n as u32, from: prev, to: c[0] }));
    assert(t.take(a1.len() as int)[a.len() as int] == a1[a.len() as int]);
}

/// Moves follow on from one step to the next: in a turn's moves, the first
/// move of step `n` (when its first position lies in a hand) starts from the
/// last position of the latest earlier step `k` that recorded positions, and
/// goes to the first position of step `n`, in slot `n`.
pub proof fn law_anim_steps_follow_on(
    h: Seq<(u32, Vec<PosInDeck>)>,
    min: u32,
    total: nat,
    k: nat,
    n: nat,
    prev: Seq<PosInDeck>,
    c: Seq<PosInDeck>,
)
    requires
        k < n < total,
        changes_at(h, (min + k) as u32) == Some(prev),
        forall|j: int| k < j < n ==> changes_at(h, #[trigger] ((min + j) as u32)) is None,
        changes_at(h, (min + n) as u32) == Some(c),
        c[0].deck == DeckKind::Hand,
    ensures
        steps_upto(h, min, n).len() < steps_upto(h, min, total).len(),
        steps_upto(h, min, total)[steps_upto(h, min, n).len() as int]
            == (AnimStep { slot: n as u32, from: Some(prev.last()), to: c[0] }),
{
    lemma_first_move_of_step(h, min, total, n, c);
    lemma_last_seen_after(h, min, k, n, prev);
}

/// When no earlier step of the turn recorded positions, the first move of
/// step `n` (its first position lying in a hand) starts from where the card
/// is shown.
pub proof fn law_anim_first_move_starts_in_place(h: Seq<(u32, Vec<PosInDeck>)>, min: u32, total: nat, n: nat, c: Seq<PosInDeck>)
    requires
        n < total,
        forall|j: int| 0 <= j < n ==> changes_at(h, #[trigger] ((min + j) as u32)) is None,
        changes_at(h, (min + n) as u32) == Some(c),
        c[0].deck == DeckKind::Hand,
    ensures
        steps_upto(h, min, n).len() < steps_upto(h, min, total).len(),
        steps_upto(h, min, total)[steps_upto(h, min, n).len() as int]
            == (AnimStep { slot: n as u32, from: None, to: c[0] }),
{
    lemma_first_move_of_step(h, min, total, n, c);
    lemma_last_seen_none(h, min, n);
}

/// The positions recorded for a step, found from the end of the records.
fn find_changes_at(h: &Vec<(u32, Vec<PosInDeck>)>, tick: u32) -> (r: Option<&Vec<PosInDeck>>)
    ensures
        match r {
            Some(v) => changes_at(h@, tick) == Some(v@),
            None => changes_at(h@, tick) is None,
        },
{
    let mut i: usize = h.len();
    assert(h@.take(i as int) =~= h@);
    while i > 0
        invariant
            0 <= i <= h@.len(),
            changes_at(h@, tick) == changes_at(h@.take(i as int), tick),
        decreases i,
    {
        proof {
            assert(h@.take(i as int).drop_last() =~= h@.take(i - 1));
            assert(h@.take(i as int).last() == h@[i - 1]);
        }
        if h[i - 1].0 == tick && h[i - 1].1.len() > 0 {
            return Some(&h[i - 1].1);
        }
        i = i - 1;
    }
    None
}

/// The moves a card makes in one turn's animation, from the positions it
/// recorded at each step of the turn (`changes`, as step and positions):
/// for each step from `min` to `max` that has positions, in order, each
/// position in a hand is reached from the position before it, the first one
/// of a step from the last position of the step before (or from where the
/// card is shown, at the first such step). The slot of a move is its step
/// less `min`.
pub fn card_anim_steps(changes: &Vec<(u32, Vec<PosInDeck>)>, min: u32, max: u32) -> (r: Vec<AnimStep>)
    ensures
        r@ == (if min <= max { steps_upto(changes@, min, (max - min + 1) as nat) } else { Seq::empty() }),
{
    let mut r: Vec<AnimStep> = Vec::new();
    if min > max {
        return r;
    }
    let count: u64 = (max - min) as u64 + 1;
    let mut prev: Option<PosInDeck> = None;
    let mut n: u64 = 0;
    while n < count
        invariant
            min <= max,
            count == max - min + 1,
            0 <= n <= count,
            r@ == steps_upto(changes@, min, n as nat),
            prev == last_seen(changes@, min, n as nat),
        decreases count - n,
    {
        let tick: u32 = min + n as u32;
        assert(tick == (min + (n + 1) - 1) as u32);
        match find_changes_at(changes, tick) {
            None => {},
            Some(c) => {
                proof {
                    lemma_changes_at_nonempty(changes@, tick);
                }
                let ghost base = r@;
                let mut k: usize = 0;
                while k < c.len()
                    invariant
                        0 <= k <= c@.len(),
                        c@.len() > 0,
                        n < count,
                        r@ == base + group_steps(c@, prev, n as u32, k as nat),
                    decreases c@.len() - k,
                {
                    let to = c[k];
                    if to.is_in_hand() {
                        let from = if k == 0 { prev } else { Some(c[k - 1]) };
                        r.push(AnimStep { slot: n as u32, from, to });
                    }
                    k = k + 1;
                    proof {
                        assert(r@ =~= base + group_steps(c@, prev, n as u32, k as nat));
                    }
                }
                prev = Some(c[c.len() - 1]);
            },
        }
        n = n + 1;
    }
    r
}

/// A request to animate a turn.
#[derive(Debug, Clone, Copy, PartialEq, Eq, Structural)]
pub struct AnimateTick(pub u32);

/// A request to animate the next turn.
#[derive(Debug, Clone, Copy, PartialEq, Eq, Structural)]
pub struct ReqNextTurnAnim {
    pub turn: u32,
}

/// Marks an animation of a turn.
#[derive(Debug, Clone, Copy, PartialEq, Eq, Structural)]
pub struct TurnAnimator {
    pub turn: u32,
}

impl TurnAnimator {
    pub fn from_turn_tick(turn: u32) -> (a: Self)
        ensures
            a.turn == turn,
    {
        Self { turn }
    }
}

/// Where the client stands in animating the battle's turns.
#[derive(Debug, Clone, Copy, PartialEq, Eq, Structural)]
pub struct ClientBattleAnimState {
    pub started: bool,
    pub next_animated_tick: u32,
}

impl ClientBattleAnimState {
    /// Not started, the first turn next.
    pub fn default() -> (s: Self)
        ensures
            !s.started,
            s.next_animated_tick == 0,
    {
        Self { started: false, next_animated_tick: 0 }
    }

    /// The turn being animated: none before the animation starts, else the
    /// turn before the next one (0 at the start).
    pub fn get_current_animating_turn_tick(&self) -> (r: Option<u32>)
        ensures
            r == (if !self.started { None } else { Some(self.next_animated_tick.saturating_sub(1)) }),
    {
        if !self.started {
            return None;
        }
        Some(self.next_animated_tick.saturating_sub(1))
    }

    /// Starts animating once the server confirmed a tick and some card
    /// recorded a change; then the first turn is to be requested. Returns
    /// whether the animation started now.
    pub fn begin_if_ready(&mut self, confirmed_tick: bool, any_changes: bool) -> (started_now: bool)
        ensures
            started_now == (!old(self).started && confirmed_tick && any_changes),
            final(self).started == (old(self).started || started_now),
            final(self).next_animated_tick == old(self).next_animated_tick,
    {
        if self.started || !confirmed_tick || !any_changes {
            return false;
        }
        self.started = true;
        true
    }

    /// Whether a request for the next turn's animation is answered: by a
    /// connected client that has started animating.
    pub open spec fn animates(self, client_state: crate::game_flow::turns::ClientState) -> bool {
        client_state == crate::game_flow::turns::ClientState::Connected && self.started
    }

    /// The state after a request for the next turn's animation: a client
    /// that answers moves on to the turn after; otherwise nothing changes.
    pub open spec fn after_request(self, client_state: crate::game_flow::turns::ClientState) -> ClientBattleAnimState {
        if self.animates(client_state) {
            ClientBattleAnimState { started: self.started, next_animated_tick: (self.next_animated_tick + 1) as u32 }
        } else {
            self
        }
    }

    /// On a request for the next turn's animation: a connected client that
    /// has started animates its next turn, and moves on to the one after.
    pub fn start_next_turn_anim(&mut self, client_state: crate::game_flow::turns::ClientState) -> (r: Option<AnimateTick>)
        requires
            old(self).next_animated_tick < u32::MAX,
        ensures
            r == (if old(self).animates(client_state) { Some(AnimateTick(old(self).next_animated_tick)) } else { None }),
            *final(self) == old(self).after_request(client_state),
    {
        match client_state {
            crate::game_flow::turns::ClientState::Connected => {},
            _ => {
                return None;
            },
        }
        if !self.started {
            return None;
        }
        let tick = AnimateTick(self.next_animated_tick);
        self.next_animated_tick = self.next_animated_tick + 1;
        Some(tick)
    }

    /// The request made when an animation of `turn` completes: the next
    /// turn, if no other animation of that turn is pending and the next turn
    /// to animate is the one after it.
    pub open spec fn completion_request(self, turn: u32, turn_has_pending_animators: bool) -> Option<ReqNextTurnAnim> {
        if turn_has_pending_animators || self.next_animated_tick != turn + 1 {
            None
        } else {
            Some(ReqNextTurnAnim { turn: (turn + 1) as u32 })
        }
    }

    /// When an animation of `turn` completes: if no other animation of that
    /// turn is pending and the next turn to animate is the one after it, the
    /// next turn is requested.
    pub fn next_turn_request(&self, turn: u32, turn_has_pending_animators: bool) -> (r: Option<ReqNextTurnAnim>)
        requires
            turn < u32::MAX,
        ensures
            r == self.completion_request(turn, turn_has_pending_animators),
    {
        let next_expected_turn = turn + 1;
        if turn_has_pending_animators || self.next_animated_tick != next_expected_turn {
            return None;
        }
        Some(ReqNextTurnAnim { turn: next_expected_turn })
    }
}

/// Turns are animated one after the other: when a client animates a turn,
/// completing that turn with no other animation pending requests the turn
/// after it, and a client that does not animate requests nothing new.
pub proof fn law_completed_turn_requests_next(s: ClientBattleAnimState, client_state: crate::game_flow::turns::ClientState)
    requires
        s.next_animated_tick < u32::MAX,
    ensures
        s.animates(client_state) ==> s.after_request(client_state).completion_request(s.next_animated_tick, false)
            == Some(ReqNextTurnAnim { turn: (s.next_animated_tick + 1) as u32 }),
        s.animates(client_state) ==> s.after_request(client_state).completion_request(s.next_animated_tick, true) is None,
        !s.animates(client_state) ==> s.after_request(client_state) == s,
{
}

/// A step of a delay counted in frames: while frames are left the delay
/// waits one more frame, then it completes.
#[derive(Debug, Clone, Copy, PartialEq, Eq, Structural)]
pub enum DelayStep {
    Waiting { ticks_left: i32 },
    Completed,
}

/// Advances a delay that waits for the next frame.
pub fn next_tick_delay_step(ticks_left: i32) -> (s: DelayStep)
    ensures
        s == (if ticks_left >= 1 { DelayStep::Waiting { ticks_left: 0 } } else { DelayStep::Completed }),
{
    if ticks_left >= 1 {
        DelayStep::Waiting { ticks_left: 0 }
    } else {
        DelayStep::Completed
    }
}

} // verus!
