//! Battle states, the phases of a turn and drawing cards from a pile.

use vstd::prelude::*;

use crate::board::{magnetic_effect, pop_front_spec, CardDir, Magnetic, PileWithCards};
use crate::creatures::definitions::CreatureKind;
use crate::Entity;
use std::collections::HashMap;
use vstd::std_specs::hash::spec_hash_map_iter;
use vstd::std_specs::iter::IteratorSpec;

verus! {

/// Whether the game server runs (the two states of the network server).
#[derive(Debug, Clone, Copy, PartialEq, Eq, Structural)]
pub enum ServerState {
    Stopped,
    Running,
}

/// Whether this game is connected to a server as a client.
#[derive(Debug, Clone, Copy, PartialEq, Eq, Structural)]
pub enum ClientState {
    Disconnected,
    Connecting,
    Connected,
}

/// The state of a battle as a whole.
#[derive(Debug, Clone, Copy, PartialEq, Eq, Hash, Structural)]
pub enum BattleGlobalState {
    OutOfCombat,
    Init,
    AwaitingClient,
    Running,
    Ended,
}

/// The phase of a battle turn.
#[derive(Debug, Clone, Copy, PartialEq, Eq, Hash, Structural)]
pub enum BattleTurnsState {
    Draw,
    Tick,
    ApplyEffects,
    IncrementTurnId,
}

impl BattleTurnsState {
    /// The phase after this one: draw, tick, apply effects, increment the
    /// turn, and draw again.
    pub open spec fn next(self) -> BattleTurnsState {
        match self {
            BattleTurnsState::Draw => BattleTurnsState::Tick,
            BattleTurnsState::Tick => BattleTurnsState::ApplyEffects,
            BattleTurnsState::ApplyEffects => BattleTurnsState::IncrementTurnId,
            BattleTurnsState::IncrementTurnId => BattleTurnsState::Draw,
        }
    }

    pub fn get_next_state(&self) -> (s: BattleTurnsState)
        ensures
            s == self.next(),
    {
        match self {
            BattleTurnsState::Draw => BattleTurnsState::Tick,
            BattleTurnsState::Tick => BattleTurnsState::ApplyEffects,
            BattleTurnsState::ApplyEffects => BattleTurnsState::IncrementTurnId,
            BattleTurnsState::IncrementTurnId => BattleTurnsState::Draw,
        }
    }
}

/// The turn phases form one cycle of four: every phase differs from the
/// next, and four steps lead back to the start.
pub proof fn law_turn_phases_cycle(s: BattleTurnsState)
    ensures
        s.next() != s,
        s.next().next() != s,
        s.next().next().next() != s,
        s.next().next().next().next() == s,
{
}

/// Whether a battle runs on a running server.
pub open spec fn battle_running(serv: ServerState, battle: BattleGlobalState) -> bool {
    serv == ServerState::Running && battle == BattleGlobalState::Running
}

/// Whether the server is running a battle.
pub fn inside_battle(serv_state: &ServerState, battle_global_state: &BattleGlobalState) -> (b: bool)
    ensures
        b == battle_running(*serv_state, *battle_global_state),
{
    match serv_state {
        ServerState::Stopped => false,
        ServerState::Running => match battle_global_state {
            BattleGlobalState::Running => true,
            _ => false,
        },
    }
}

/// Whether the running battle is in its draw phase.
pub fn in_turn_draw(serv_state: &ServerState, battle_global_state: &BattleGlobalState, turn_state: &BattleTurnsState) -> (b: bool)
    ensures
        b == (battle_running(*serv_state, *battle_global_state) && *turn_state == BattleTurnsState::Draw),
{
    inside_battle(serv_state, battle_global_state) && match turn_state {
        BattleTurnsState::Draw => true,
        _ => false,
    }
}

/// Whether the running battle is in its tick phase.
pub fn in_turn_tick(serv_state: &ServerState, battle_global_state: &BattleGlobalState, turn_state: &BattleTurnsState) -> (b: bool)
    ensures
        b == (battle_running(*serv_state, *battle_global_state) && *turn_state == BattleTurnsState::Tick),
{
    inside_battle(serv_state, battle_global_state) && match turn_state {
        BattleTurnsState::Tick => true,
        _ => false,
    }
}

/// Whether the running battle is applying its pending effects.
pub fn in_turn_apply_effects(serv_state: &ServerState, battle_global_state: &BattleGlobalState, turn_state: &BattleTurnsState) -> (b: bool)
    ensures
        b == (battle_running(*serv_state, *battle_global_state) && *turn_state == BattleTurnsState::ApplyEffects),
{
    inside_battle(serv_state, battle_global_state) && match turn_state {
        BattleTurnsState::ApplyEffects => true,
        _ => false,
    }
}

/// Whether the running battle is moving on to its next turn.
pub fn in_turn_increment(serv_state: &ServerState, battle_global_state: &BattleGlobalState, turn_state: &BattleTurnsState) -> (b: bool)
    ensures
        b == (battle_running(*serv_state, *battle_global_state) && *turn_state == BattleTurnsState::IncrementTurnId),
{
    inside_battle(serv_state, battle_global_state) && match turn_state {
        BattleTurnsState::IncrementTurnId => true,
        _ => false,
    }
}

/// Whether the step counter of the running battle advances: in every phase
/// but the one that moves to the next turn.
pub fn should_update_subtick(serv_state: &ServerState, battle_global_state: &BattleGlobalState, turn_state: &BattleTurnsState) -> (b: bool)
    ensures
        b == (battle_running(*serv_state, *battle_global_state) && *turn_state != BattleTurnsState::IncrementTurnId),
{
    inside_battle(serv_state, battle_global_state) && match turn_state {
        BattleTurnsState::IncrementTurnId => false,
        _ => true,
    }
}

/// Which phase runs: outside a running battle none; inside one, exactly the
/// current phase. The step counter advances exactly when the running phase
/// is not the turn increment.
pub proof fn law_one_phase_runs(serv: ServerState, battle: BattleGlobalState, turn: BattleTurnsState)
    ensures
        !battle_running(serv, battle) ==> !(
            (turn == BattleTurnsState::Draw || turn == BattleTurnsState::Tick
                || turn == BattleTurnsState::ApplyEffects || turn == BattleTurnsState::IncrementTurnId)
            && battle_running(serv, battle)),
        battle_running(serv, battle) ==> (
            (turn == BattleTurnsState::Draw) as int + (turn == BattleTurnsState::Tick) as int
            + (turn == BattleTurnsState::ApplyEffects) as int
            + (turn == BattleTurnsState::IncrementTurnId) as int == 1),
{
}

/// Every entity plays once a round: in a combat started from an order of
/// distinct entities, as many choices of the next entity, each followed by
/// that entity ending its turn, choose every entity exactly once, each when
/// it had not played yet, with the turn not over before each choice; after
/// them no entity is left to play turn 0, so the next choice ends the turn,
/// and every entity of the order is still in the combat.
pub proof fn law_round_robin(order: Seq<Entity>, picks: Seq<Entity>)
    requires
        order.no_duplicates(),
        picks.len() == order.len(),
        rounds_follow_picks(combat_start(order), 0, picks),
    ensures
        picks.no_duplicates(),
        picks.to_set() == order.to_set(),
        forall|i: int| 0 <= i < picks.len() ==> has_unplayed(after_turns(combat_start(order), #[trigger] picks.take(i)), 0),
        forall|i: int| 0 <= i < picks.len() ==> after_turns(combat_start(order), #[trigger] picks.take(i))[picks[i]] == 0,
        !has_unplayed(after_turns(combat_start(order), picks), 0),
        after_turns(combat_start(order), picks).dom() == order.to_set(),
{
    broadcast use vstd::seq_lib::seq_to_set_is_finite;
    lemma_rounds(order, picks, picks.len() as int);
    assert(picks.take(picks.len() as int) =~= picks);
    let m = after_turns(combat_start(order), picks);
    assert forall|x: Entity| picks.to_set().contains(x) implies order.to_set().contains(x) by {}
    picks.unique_seq_to_set();
    order.unique_seq_to_set();
    vstd::set_lib::lemma_subset_equality(picks.to_set(), order.to_set());
    if has_unplayed(m, 0) {
        let x = choose|x: Entity| #[trigger] m.contains_key(x) && m[x] == 0;
        assert(picks.to_set().contains(x));
    }
    assert(m.dom() =~= order.to_set());
}

/// The turns after the first `k` choices of a round: the entities chosen so
/// far, all distinct and of the order, have played turn 0 and the others not;
/// and each choice found an entity not yet played.
pub proof fn lemma_rounds(order: Seq<Entity>, picks: Seq<Entity>, k: int)
    requires
        order.no_duplicates(),
        picks.len() == order.len(),
        rounds_follow_picks(combat_start(order), 0, picks),
        0 <= k <= picks.len(),
    ensures
        after_turns(combat_start(order), picks.take(k)) == Map::new(
            |e: Entity| order.contains(e),
            |e: Entity| if picks.take(k).contains(e) { 1u16 } else { 0u16 },
        ),
        picks.take(k).no_duplicates(),
        forall|e: Entity| picks.take(k).contains(e) ==> order.contains(e),
        forall|i: int| 0 <= i < k ==> has_unplayed(after_turns(combat_start(order), #[trigger] picks.take(i)), 0),
        forall|i: int| 0 <= i < k ==> after_turns(combat_start(order), #[trigger] picks.take(i))[picks[i]] == 0,
    decreases k,
{
    broadcast use vstd::seq_lib::seq_to_set_is_finite;
    let start = combat_start(order);
    if k == 0 {
        assert(picks.take(0) =~= Seq::<Entity>::empty());
        assert(after_turns(start, picks.take(0)) =~= Map::new(
            |e: Entity| order.contains(e),
            |e: Entity| if picks.take(0).contains(e) { 1u16 } else { 0u16 },
        ));
    } else {
        lemma_rounds(order, picks, k - 1);
        let t = picks.take(k - 1);
        let m = after_turns(start, t);
        let x = picks[k - 1];
        assert(has_unplayed(m, 0)) by {
            if !has_unplayed(m, 0) {
                assert forall|e: Entity| order.to_set().contains(e) implies t.to_set().contains(e) by {
                    if !t.contains(e) {
                        assert(m.contains_key(e) && m[e] == 0);
                    }
                }
                vstd::set_lib::lemma_len_subset(order.to_set(), t.to_set());
                order.unique_seq_to_set();
                t.unique_seq_to_set();
            }
        }
        assert(may_play_next(after_turns(start, picks.take(k - 1)), 0, picks[k - 1]));
        assert(m[x] == 0);
        assert(!t.contains(x));
        assert(order.contains(x));
        let tk = picks.take(k);
        assert(tk =~= t.push(x));
        assert(tk.drop_last() =~= t);
        assert(after_turns(start, tk) == after_turn(m, x));
        assert forall|e: Entity| tk.contains(e) <==> (t.contains(e) || e == x) by {
            if tk.contains(e) {
                let j = choose|j: int| 0 <= j < tk.len() && tk[j] == e;
                if j < t.len() {
                    assert(t[j] == e);
                }
            }
            if t.contains(e) {
                let j = choose|j: int| 0 <= j < t.len() && t[j] == e;
                assert(tk[j] == e);
            }
            if e == x {
                assert(tk[k - 1] == e);
            }
        }
        assert(after_turns(start, tk) =~= Map::new(
            |e: Entity| order.contains(e),
            |e: Entity| if tk.contains(e) { 1u16 } else { 0u16 },
        ));
        assert(tk.no_duplicates()) by {
            assert forall|a: int, b: int| 0 <= a < tk.len() && 0 <= b < tk.len() && a != b implies tk[a] != tk[b] by {
                if a < k - 1 && b < k - 1 {
                    assert(t[a] == tk[a] && t[b] == tk[b]);
                } else if a == k - 1 {
                    assert(t[b] == tk[b]);
                } else {
                    assert(t[a] == tk[a]);
                }
            }
        }
    }
}

/// What entering combat sets up: the statuses of the cards dealt to the
/// player and to the enemy, and the state the battle moves to.
pub struct CombatSetup {
    pub player_cards: Vec<Magnetic>,
    pub enemy_cards: Vec<Magnetic>,
    pub next_state: BattleGlobalState,
}

/// The status of every card dealt when a combat starts: a magnetic pull of
/// one card on both sides.
pub open spec fn starting_card() -> Magnetic {
    Magnetic { direction: CardDir::Around, strength: 1 }
}

/// `n` cards with the starting status.
fn starting_cards(n: usize) -> (v: Vec<Magnetic>)
    ensures
        v@ == Seq::new(n as nat, |i: int| starting_card()),
{
    let mut v: Vec<Magnetic> = Vec::new();
    let mut i: usize = 0;
    while i < n
        invariant
            0 <= i <= n,
            v@ == Seq::new(i as nat, |k: int| starting_card()),
        decreases n - i,
    {
        v.push(magnetic_effect(CardDir::Around, 1));
        i = i + 1;
        assert(v@ =~= Seq::new(i as nat, |k: int| starting_card()));
    }
    v
}

/// What entering combat does: nothing while a battle awaits its client or
/// runs; otherwise the player is dealt five cards and the enemy four, all
/// with the starting status, and the battle then awaits the client.
pub fn combat_init_setup(state: BattleGlobalState) -> (r: Option<CombatSetup>)
    ensures
        r is None <==> (state == BattleGlobalState::AwaitingClient || state == BattleGlobalState::Running),
        r matches Some(s) ==> {
            &&& s.player_cards@ == Seq::new(5, |i: int| starting_card())
            &&& s.enemy_cards@ == Seq::new(4, |i: int| starting_card())
            &&& s.next_state == BattleGlobalState::AwaitingClient
        },
{
    match state {
        BattleGlobalState::AwaitingClient => None,
        BattleGlobalState::Running => None,
        _ => Some(CombatSetup {
            player_cards: starting_cards(5),
            enemy_cards: starting_cards(4),
            next_state: BattleGlobalState::AwaitingClient,
        }),
    }
}

/// Whether a client answers the server's readiness check: only a connected
/// one does.
pub fn should_confirm_battle_ready(state: ClientState) -> (b: bool)
    ensures
        b == (state == ClientState::Connected),
{
    match state {
        ClientState::Connected => true,
        _ => false,
    }
}

/// What a run of battles has reached so far.
#[derive(Debug, Clone, Copy, PartialEq, Eq, Structural)]
pub struct RunData {
    pub current_day: i32,
    pub current_hour: i32,
    pub wins: i32,
    pub loses: i32,
}

impl RunData {
    /// A fresh run: day 0, hour 0, no wins and no losses.
    pub fn init() -> (r: Self)
        ensures
            r.current_day == 0,
            r.current_hour == 0,
            r.wins == 0,
            r.loses == 0,
    {
        Self { current_day: 0, current_hour: 0, wins: 0, loses: 0 }
    }
}

/// The side a playing entity is on.
#[derive(Debug, Clone, Copy, PartialEq, Eq, Structural)]
pub enum PlayingTeam {
    Ally,
    Enemy,
    Environment,
}

impl PlayingTeam {
    /// The number of the team's membership tag: 0 for allies, 1 for enemies,
    /// 2 for the environment.
    pub fn member_id(&self) -> (id: u32)
        ensures
            id == (match *self {
                PlayingTeam::Ally => 0u32,
                PlayingTeam::Enemy => 1u32,
                PlayingTeam::Environment => 2u32,
            }),
    {
        match self {
            PlayingTeam::Ally => 0,
            PlayingTeam::Enemy => 1,
            PlayingTeam::Environment => 2,
        }
    }
}

/// Membership of a playing entity in the team numbered `ID`.
pub struct MemberOf<const ID: u32>;

/// A request to generate a new playing creature of a kind, on a team.
#[derive(Debug, Clone, Copy, PartialEq, Eq, Structural)]
pub struct RequestPlayingGeneration {
    pub kind: CreatureKind,
    pub team: PlayingTeam,
}

impl RequestPlayingGeneration {
    pub fn ally_from_kind(kind: CreatureKind) -> (r: Self)
        ensures
            r.kind == kind,
            r.team == PlayingTeam::Ally,
    {
        Self { kind, team: PlayingTeam::Ally }
    }

    pub fn enemy_from_kind(kind: CreatureKind) -> (r: Self)
        ensures
            r.kind == kind,
            r.team == PlayingTeam::Enemy,
    {
        Self { kind, team: PlayingTeam::Enemy }
    }
}

/// The cards to draw into a hand.
#[derive(Debug, Clone, Copy, PartialEq, Eq, Structural)]
pub enum DrawAmount {
    Fixed(i32),
    FillHand,
}

/// The number of cards a hand may hold before drawing stops.
pub const MAX_HAND_SIZE: usize = 5;

impl DrawAmount {
    /// The most cards a draw of this amount takes: a fixed amount (none when
    /// negative), or a full hand.
    pub open spec fn max_draws(self) -> int {
        match self {
            DrawAmount::Fixed(n) => if n < 0 { 0 } else { n as int },
            DrawAmount::FillHand => MAX_HAND_SIZE as int,
        }
    }
}

/// Takes up to `k` cards from the front of a pile one by one: the cards
/// taken, in order, and what is left of the pile.
pub open spec fn take_front(s: Seq<Entity>, k: int) -> (Seq<Entity>, Seq<Entity>)
    decreases k,
{
    if k <= 0 || s.len() == 0 {
        (Seq::empty(), s)
    } else {
        let rest = take_front(pop_front_spec(s), k - 1);
        (seq![s[0]] + rest.0, rest.1)
    }
}

/// A request to draw cards from a draw pile into a hand.
#[derive(Debug, Clone, Copy, PartialEq, Eq, Structural)]
pub struct DrawFromPile {
    pub hand_pile: Entity,
    pub draw_pile: Entity,
    pub draw_amount: DrawAmount,
}

impl DrawFromPile {
    pub fn new(hand_pile: Entity, draw_pile: Entity, draw_amount: DrawAmount) -> (r: Self)
        ensures
            r.hand_pile == hand_pile,
            r.draw_pile == draw_pile,
            r.draw_amount == draw_amount,
    {
        Self { hand_pile, draw_pile, draw_amount }
    }
}

/// Draws cards from `draw_pile` into `hand_pile`. A hand of `MAX_HAND_SIZE`
/// cards or more draws nothing; otherwise cards are taken from the front of
/// the draw pile, up to the amount and while cards remain, and put at the
/// end of the hand, in the order drawn. Returns the cards drawn.
pub fn draw_from_pile(draw_pile: &mut PileWithCards, hand_pile: &mut PileWithCards, draw_amount: &DrawAmount) -> (drawn: Vec<Entity>)
    ensures
        old(hand_pile).0@.len() >= MAX_HAND_SIZE ==> {
            &&& drawn@.len() == 0
            &&& final(draw_pile).0@ == old(draw_pile).0@
            &&& final(hand_pile).0@ == old(hand_pile).0@
        },
        old(hand_pile).0@.len() < MAX_HAND_SIZE ==> {
            &&& drawn@ == take_front(old(draw_pile).0@, draw_amount.max_draws()).0
            &&& final(draw_pile).0@ == take_front(old(draw_pile).0@, draw_amount.max_draws()).1
            &&& final(hand_pile).0@ == old(hand_pile).0@ + drawn@
        },
{
    let mut drawn: Vec<Entity> = Vec::new();
    if hand_pile.0.len() >= MAX_HAND_SIZE {
        return drawn;
    }
    let max_draw_amount: i32 = match draw_amount {
        DrawAmount::Fixed(amount) => *amount,
        DrawAmount::FillHand => MAX_HAND_SIZE as i32,
    };
    let ghost orig_draw = draw_pile.0@;
    let ghost orig_hand = hand_pile.0@;
    let ghost total = take_front(orig_draw, draw_amount.max_draws());
    let mut i: i32 = 0;
    assert(drawn@ + take_front(draw_pile.0@, max_draw_amount - i).0 =~= total.0);
    while i < max_draw_amount
        invariant
            0 <= i,
            i <= max_draw_amount || max_draw_amount < 0,
            draw_amount.max_draws() == (if max_draw_amount < 0 { 0 } else { max_draw_amount as int }),
            total == take_front(orig_draw, draw_amount.max_draws()),
            total.0 == drawn@ + take_front(draw_pile.0@, max_draw_amount - i).0,
            total.1 == take_front(draw_pile.0@, max_draw_amount - i).1,
            hand_pile.0@ == orig_hand + drawn@,
        ensures
            draw_pile.0@.len() == 0 || i >= max_draw_amount,
            total.0 == drawn@ + take_front(draw_pile.0@, max_draw_amount - i).0,
            total.1 == take_front(draw_pile.0@, max_draw_amount - i).1,
            hand_pile.0@ == orig_hand + drawn@,
        decreases max_draw_amount - i,
    {
        let ghost before = draw_pile.0@;
        let card = match draw_pile.pop_front() {
            None => {
                break;
            },
            Some(card) => card,
        };
        proof {
            let rest = take_front(pop_front_spec(before), max_draw_amount - i - 1);
            assert(take_front(before, max_draw_amount - i) == (seq![card] + rest.0, rest.1));
            assert(drawn@.push(card) + rest.0 =~= drawn@ + (seq![card] + rest.0));
        }
        drawn.push(card);
        hand_pile.0.push(card);
        proof {
            assert(hand_pile.0@ =~= orig_hand + drawn@);
        }
        i = i + 1;
    }
    proof {
        if max_draw_amount < 0 {
            assert(take_front(draw_pile.0@, max_draw_amount - i) == (Seq::<Entity>::empty(), draw_pile.0@));
        }
        assert(drawn@ + Seq::<Entity>::empty() =~= drawn@);
    }
    drawn
}

/// Taking the front card out of a pile leaves the other cards.
pub proof fn lemma_pop_front_multiset(s: Seq<Entity>)
    requires
        s.len() > 0,
    ensures
        s.to_multiset() == pop_front_spec(s).to_multiset().insert(s[0]),
{
    broadcast use vstd::seq_lib::group_to_multiset_ensures;
    broadcast use vstd::multiset::group_multiset_axioms;
    let p = pop_front_spec(s);
    let u = s.update(0, s.last());
    assert(u =~= p.push(s.last()));
    assert(s.to_multiset().count(s[0]) > 0) by {
        assert(s.contains(s[0]));
    }
    assert(u.to_multiset() == s.to_multiset().insert(s.last()).remove(s[0]));
    assert(p.push(s.last()).to_multiset() == p.to_multiset().insert(s.last()));
    assert forall|x: Entity| s.to_multiset().count(x) == p.to_multiset().insert(s[0]).count(x) by {
        assert(u.to_multiset().count(x) == p.to_multiset().insert(s.last()).count(x));
    }
    assert(s.to_multiset() =~= p.to_multiset().insert(s[0]));
}

/// Taking cards from the front of a pile neither adds nor loses cards: the
/// cards taken and the cards left are the cards of the pile, and as many
/// are taken as were asked for, while cards remained.
pub proof fn law_drawing_keeps_cards(s: Seq<Entity>, k: int)
    ensures
        (take_front(s, k).0 + take_front(s, k).1).to_multiset() == s.to_multiset(),
        take_front(s, k).0.len() == (if k <= 0 { 0 } else if k < s.len() { k } else { s.len() as int }),
    decreases k,
{
    broadcast use vstd::seq_lib::group_to_multiset_ensures;
    broadcast use vstd::multiset::group_multiset_axioms;
    if k <= 0 || s.len() == 0 {
        assert(Seq::<Entity>::empty() + s =~= s);
    } else {
        let p = pop_front_spec(s);
        law_drawing_keeps_cards(p, k - 1);
        lemma_pop_front_multiset(s);
        let rest = take_front(p, k - 1);
        assert(seq![s[0]] + rest.0 + rest.1 =~= seq![s[0]] + (rest.0 + rest.1));
        vstd::seq_lib::lemma_multiset_commutative(seq![s[0]], rest.0 + rest.1);
        assert(seq![s[0]].to_multiset() =~= vstd::multiset::Multiset::<Entity>::empty().insert(s[0])) by {
            assert(seq![s[0]] =~= Seq::<Entity>::empty().push(s[0]));
        }
        assert((seq![s[0]] + rest.0 + rest.1).to_multiset() =~= s.to_multiset());
    }
}

/// A battle was triggered.
#[derive(Debug, Clone, Copy, PartialEq, Eq, Structural)]
pub struct BattleTriggered;

/// Marks the board of the player.
#[derive(Debug, Clone, Copy, PartialEq, Eq, Structural)]
pub struct PlayerBoardMarker;

/// Marks the board of the enemy.
#[derive(Debug, Clone, Copy, PartialEq, Eq, Structural)]
pub struct EnemyBoardMarker;

/// Asks a client whether it is ready for the battle.
#[derive(Debug, Clone, Copy, PartialEq, Eq, Structural)]
pub struct CheckClientBattleReady;

/// A client's answer that it is ready for the battle.
#[derive(Debug, Clone, Copy, PartialEq, Eq, Structural)]
pub struct ConfirmBattleReady;

/// Marks a card drawn this turn.
#[derive(Debug, Clone, Copy, PartialEq, Eq, Structural)]
pub struct JustDrawn;

/// The developer text shown on screen.
pub struct DevText(pub String);

/// Marks the text that shows the developer text.
#[derive(Debug, Clone, Copy, PartialEq, Eq, Structural)]
pub struct DevTextTarget;

/// The turns of a new combat: each entity of the order is to play turn 0.
pub open spec fn combat_start(order: Seq<Entity>) -> Map<Entity, u16> {
    Map::new(|e: Entity| order.contains(e), |e: Entity| 0u16)
}

/// The turns after `e` has played: its next turn is one later; an entity
/// not in the combat changes nothing.
pub open spec fn after_turn(m: Map<Entity, u16>, e: Entity) -> Map<Entity, u16> {
    if m.contains_key(e) {
        m.insert(e, (m[e] + 1) as u16)
    } else {
        m
    }
}

/// The turns after each entity of `played` has played, in order.
pub open spec fn after_turns(m: Map<Entity, u16>, played: Seq<Entity>) -> Map<Entity, u16>
    decreases played.len(),
{
    if played.len() == 0 {
        m
    } else {
        after_turn(after_turns(m, played.drop_last()), played.last())
    }
}

/// Whether some entity has not played the turn `current` yet.
pub open spec fn has_unplayed(m: Map<Entity, u16>, current: u16) -> bool {
    exists|x: Entity| #[trigger] m.contains_key(x) && m[x] == current
}

/// Whether `x` may be chosen to play next: an entity of the combat, and
/// one that has not played `current` if there is such an entity.
pub open spec fn may_play_next(m: Map<Entity, u16>, current: u16, x: Entity) -> bool {
    &&& m.contains_key(x)
    &&& has_unplayed(m, current) ==> m[x] == current
}

/// Whether each entity of `picks` may be chosen to play next, each after
/// the ones before it have played.
pub open spec fn rounds_follow_picks(m: Map<Entity, u16>, current: u16, picks: Seq<Entity>) -> bool {
    forall|i: int| 0 <= i < picks.len() ==> may_play_next(after_turns(m, #[trigger] picks.take(i)), current, picks[i])
}

/// Who has played which turn of a combat: for each playing entity, the next
/// turn it is to play.
pub struct _CombatData {
    pub current_turn: u16,
    pub entities_next_turn: HashMap<Entity, u16>,
    pub turn_ended: bool,
}

impl _CombatData {
    /// A new combat at turn 0, each entity of the order to play turn 0.
    pub fn init_new_combat(entities_in_order: &Vec<Entity>) -> (d: Self)
        ensures
            d.current_turn == 0,
            !d.turn_ended,
            d.entities_next_turn@ == combat_start(entities_in_order@),
    {
        broadcast use vstd::std_specs::hash::group_hash_axioms;
        let mut m: HashMap<Entity, u16> = HashMap::new();
        let mut i: usize = 0;
        while i < entities_in_order.len()
            invariant
                0 <= i <= entities_in_order@.len(),
                m@ == Map::new(|e: Entity| entities_in_order@.take(i as int).contains(e), |e: Entity| 0u16),
            decreases entities_in_order@.len() - i,
        {
            let e = entities_in_order[i];
            m.insert(e, 0);
            proof {
                let pre = entities_in_order@.take(i as int);
                let post = entities_in_order@.take(i + 1);
                assert(post =~= pre.push(e));
                assert forall|x: Entity| post.contains(x) <==> (pre.contains(x) || x == e) by {
                    if post.contains(x) {
                        let j = choose|j: int| 0 <= j < post.len() && post[j] == x;
                        if j < pre.len() {
                            assert(pre[j] == x);
                        }
                    }
                    if pre.contains(x) {
                        let j = choose|j: int| 0 <= j < pre.len() && pre[j] == x;
                        assert(post[j] == x);
                    }
                    if x == e {
                        assert(post[i as int] == x);
                    }
                }
                assert(m@ =~= Map::new(|x: Entity| post.contains(x), |x: Entity| 0u16));
            }
            i = i + 1;
        }
        assert(entities_in_order@.take(entities_in_order@.len() as int) =~= entities_in_order@);
        Self { current_turn: 0, entities_next_turn: m, turn_ended: false }
    }

    /// The entity has played its turn: its next turn is one later. An entity
    /// not in the combat is ignored.
    pub fn end_entity_turn(&mut self, entity: Entity)
        requires
            old(self).entities_next_turn@.contains_key(entity) ==> old(self).entities_next_turn@[entity] < u16::MAX,
        ensures
            final(self).current_turn == old(self).current_turn,
            final(self).turn_ended == old(self).turn_ended,
            final(self).entities_next_turn@ == after_turn(old(self).entities_next_turn@, entity),
    {
        broadcast use vstd::std_specs::hash::group_hash_axioms;
        let next = match self.entities_next_turn.get(&entity) {
            Some(turn) => Some(*turn + 1),
            None => None,
        };
        if let Some(n) = next {
            self.entities_next_turn.insert(entity, n);
        }
    }

    /// The entity to play next: one that has not played the current turn.
    /// When every entity has played it, the turn is marked as ended and any
    /// entity of the combat is returned. Which of several such entities is
    /// returned follows the order in which the map is walked.
    pub fn get_next_playing_entity(&mut self) -> (e: Entity)
        requires
            old(self).entities_next_turn@.dom().len() > 0,
        ensures
            final(self).current_turn == old(self).current_turn,
            final(self).entities_next_turn@ == old(self).entities_next_turn@,
            may_play_next(old(self).entities_next_turn@, old(self).current_turn, e),
            has_unplayed(old(self).entities_next_turn@, old(self).current_turn) ==> final(self).turn_ended == old(self).turn_ended,
            !has_unplayed(old(self).entities_next_turn@, old(self).current_turn) ==> final(self).turn_ended,
    {
        broadcast use vstd::std_specs::hash::group_hash_axioms;
        let current_turn = self.current_turn;
        let ghost m = self.entities_next_turn@;
        let mut found: Option<Entity> = None;
        let mut any: Option<Entity> = None;
        for entry in it: self.entities_next_turn.iter()
            invariant
                m == self.entities_next_turn@,
                current_turn == self.current_turn,
                it.seq() == spec_hash_map_iter(&self.entities_next_turn).remaining(),
                found matches Some(x) ==> m.contains_key(x) && m[x] == current_turn,
                found is None ==> forall|j: int| 0 <= j < it.index() ==> *(#[trigger] it.seq()[j]).1 != current_turn,
                any matches Some(x) ==> m.contains_key(x),
                it.index() > 0 ==> any is Some,
        {
            let (k, v) = entry;
            proof {
                assert(m.contains_key(*it.seq()[it.index() as int].0));
            }
            if any.is_none() {
                any = Some(*k);
            }
            if found.is_none() && *v == current_turn {
                found = Some(*k);
            }
        }
        match found {
            Some(x) => x,
            None => {
                proof {
                    let v = spec_hash_map_iter(&self.entities_next_turn).remaining();
                    assert forall|x: Entity| #[trigger] m.contains_key(x) implies m[x] != current_turn by {
                        assert(v.contains((&x, &m[x])));
                        let j = choose|j: int| 0 <= j < v.len() && v[j] == (&x, &m[x]);
                        assert(*v[j].1 != current_turn);
                    }
                    let k0 = m.dom().choose();
                    assert(m.contains_key(k0));
                    assert(v.contains((&k0, &m[k0])));
                }
                self.turn_ended = true;
                match any {
                    Some(x) => x,
                    None => {
                        proof {
                            assert(false);
                        }
                        0
                    },
                }
            }
        }
    }

    /// Whether every entity had played the current turn when last asked.
    pub fn turn_just_ended(&self) -> (b: bool)
        ensures
            b == self.turn_ended,
    {
        self.turn_ended
    }

    /// Moves on to the next turn.
    pub fn start_next_turn(&mut self)
        requires
            old(self).current_turn < u16::MAX,
        ensures
            final(self).current_turn == old(self).current_turn + 1,
            final(self).entities_next_turn@ == old(self).entities_next_turn@,
            final(self).turn_ended == old(self).turn_ended,
    {
        self.current_turn = self.current_turn + 1;
    }
}

/// A request to start a combat.
#[derive(Debug, Clone, Copy, PartialEq, Eq, Structural)]
pub struct CombatInit;

/// Combat was entered.
#[derive(Debug, Clone, Copy, PartialEq, Eq, Structural)]
pub struct EnteredCombat;

/// Marks an entity that takes part in battles.
#[derive(Debug, Clone, Copy, PartialEq, Eq, Default, Structural)]
pub struct PlayingEntity;

/// The place of a playing entity in the turn order.
#[derive(Debug, Clone, Copy, PartialEq, Eq, Default, Structural)]
pub struct TurnOrder(pub i32);

/// The deck that a player currently plays with.
#[derive(Debug, Clone, Copy, PartialEq, Eq, Structural)]
pub struct CurrentDeckReference(pub Entity);

/// The entity whose turn it is.
#[derive(Debug, Clone, Copy, PartialEq, Eq, Structural)]
pub struct CurrentPlayingEntity(pub Entity);

} // verus!
