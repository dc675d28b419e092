use drill::board::{CardDir, Magnetic, PileWithCards};
use drill::creatures::definitions::CreatureKind;
use drill::game_flow::turns::{
    combat_init_setup, draw_from_pile, in_turn_apply_effects, should_confirm_battle_ready, ClientState, in_turn_draw, in_turn_increment, in_turn_tick,
    inside_battle, should_update_subtick, BattleGlobalState, BattleTurnsState, DrawAmount,
    DrawFromPile, PlayingTeam, RequestPlayingGeneration, RunData, ServerState, _CombatData,
    MAX_HAND_SIZE,
};

#[test]
fn turn_phases_cycle_through_four_steps() {
    let mut s = BattleTurnsState::Draw;
    let mut seen = vec![s];
    for _ in 0..4 {
        s = s.get_next_state();
        seen.push(s);
    }
    assert_eq!(
        seen,
        vec![
            BattleTurnsState::Draw,
            BattleTurnsState::Tick,
            BattleTurnsState::ApplyEffects,
            BattleTurnsState::IncrementTurnId,
            BattleTurnsState::Draw,
        ]
    );
}

#[test]
fn phases_run_only_inside_a_running_battle() {
    let run = ServerState::Running;
    let live = BattleGlobalState::Running;
    assert!(inside_battle(&run, &live));
    assert!(!inside_battle(&ServerState::Stopped, &live));
    assert!(!inside_battle(&run, &BattleGlobalState::AwaitingClient));
    assert!(in_turn_draw(&run, &live, &BattleTurnsState::Draw));
    assert!(!in_turn_draw(&run, &live, &BattleTurnsState::Tick));
    assert!(in_turn_tick(&run, &live, &BattleTurnsState::Tick));
    assert!(in_turn_apply_effects(&run, &live, &BattleTurnsState::ApplyEffects));
    assert!(in_turn_increment(&run, &live, &BattleTurnsState::IncrementTurnId));
    assert!(!in_turn_increment(&ServerState::Stopped, &live, &BattleTurnsState::IncrementTurnId));
}

#[test]
fn the_step_counter_advances_except_when_the_turn_moves_on() {
    let run = ServerState::Running;
    let live = BattleGlobalState::Running;
    assert!(should_update_subtick(&run, &live, &BattleTurnsState::Draw));
    assert!(should_update_subtick(&run, &live, &BattleTurnsState::ApplyEffects));
    assert!(!should_update_subtick(&run, &live, &BattleTurnsState::IncrementTurnId));
    assert!(!should_update_subtick(&run, &BattleGlobalState::Ended, &BattleTurnsState::Draw));
}

#[test]
fn a_fresh_run() {
    let r = RunData::init();
    assert_eq!((r.current_day, r.current_hour, r.wins, r.loses), (0, 0, 0, 0));
}

#[test]
fn team_membership_numbers() {
    assert_eq!(PlayingTeam::Ally.member_id(), 0);
    assert_eq!(PlayingTeam::Enemy.member_id(), 1);
    assert_eq!(PlayingTeam::Environment.member_id(), 2);
    let r = RequestPlayingGeneration::enemy_from_kind(CreatureKind::TestRanged);
    assert_eq!(r.team, PlayingTeam::Enemy);
    assert_eq!(RequestPlayingGeneration::ally_from_kind(CreatureKind::TestMelee).team, PlayingTeam::Ally);
}

#[test]
fn drawing_a_fixed_amount_takes_from_the_front() {
    let mut draw = PileWithCards(vec![1, 2, 3, 4, 5, 6]);
    let mut hand = PileWithCards(vec![]);
    let drawn = draw_from_pile(&mut draw, &mut hand, &DrawAmount::Fixed(2));
    assert_eq!(drawn, vec![1, 6]);
    assert_eq!(hand.0, vec![1, 6]);
    assert_eq!(draw.0, vec![5, 2, 3, 4]);
}

#[test]
fn filling_the_hand_draws_up_to_the_hand_size() {
    let mut draw = PileWithCards((1..=8).collect());
    let mut hand = PileWithCards(vec![20, 21]);
    let drawn = draw_from_pile(&mut draw, &mut hand, &DrawAmount::FillHand);
    assert_eq!(drawn.len(), MAX_HAND_SIZE);
    assert_eq!(drawn, vec![1, 8, 7, 6, 5]);
    assert_eq!(hand.0, vec![20, 21, 1, 8, 7, 6, 5]);
    assert_eq!(draw.0, vec![4, 2, 3]);
}

#[test]
fn drawing_stops_when_the_pile_is_empty() {
    let mut draw = PileWithCards(vec![7, 8]);
    let mut hand = PileWithCards(vec![]);
    let drawn = draw_from_pile(&mut draw, &mut hand, &DrawAmount::Fixed(4));
    assert_eq!(drawn, vec![7, 8]);
    assert!(draw.0.is_empty());
}

#[test]
fn a_full_hand_draws_nothing() {
    let mut draw = PileWithCards(vec![7, 8]);
    let mut hand = PileWithCards(vec![1, 2, 3, 4, 5]);
    let drawn = draw_from_pile(&mut draw, &mut hand, &DrawAmount::Fixed(1));
    assert!(drawn.is_empty());
    assert_eq!(draw.0, vec![7, 8]);
    assert_eq!(hand.0, vec![1, 2, 3, 4, 5]);
}

#[test]
fn a_negative_amount_draws_nothing() {
    let mut draw = PileWithCards(vec![7, 8]);
    let mut hand = PileWithCards(vec![]);
    let drawn = draw_from_pile(&mut draw, &mut hand, &DrawAmount::Fixed(-3));
    assert!(drawn.is_empty());
    assert_eq!(draw.0, vec![7, 8]);
    assert!(hand.0.is_empty());
    let req = DrawFromPile::new(1, 2, DrawAmount::FillHand);
    assert_eq!((req.hand_pile, req.draw_pile), (1, 2));
}

#[test]
fn combat_turns_go_round_every_entity() {
    let mut c = _CombatData::init_new_combat(&vec![3, 5]);
    assert_eq!(c.current_turn, 0);
    assert_eq!(c.entities_next_turn.len(), 2);
    assert!(!c.turn_just_ended());

    let first = c.get_next_playing_entity();
    assert!(first == 3 || first == 5);
    assert!(!c.turn_just_ended());
    c.end_entity_turn(first);
    assert_eq!(c.entities_next_turn[&first], 1);

    let second = c.get_next_playing_entity();
    assert_ne!(second, first);
    c.end_entity_turn(second);
    c.end_entity_turn(42);
    assert_eq!(c.entities_next_turn.len(), 2);

    let any = c.get_next_playing_entity();
    assert!(any == 3 || any == 5);
    assert!(c.turn_just_ended());
    c.start_next_turn();
    assert_eq!(c.current_turn, 1);
}

#[test]
fn entering_combat_deals_the_starting_cards() {
    let setup = combat_init_setup(BattleGlobalState::Init).unwrap();
    let start = Magnetic { direction: CardDir::Around, strength: 1 };
    assert_eq!(setup.player_cards, vec![start; 5]);
    assert_eq!(setup.enemy_cards, vec![start; 4]);
    assert_eq!(setup.next_state, BattleGlobalState::AwaitingClient);
    assert!(combat_init_setup(BattleGlobalState::OutOfCombat).is_some());
    assert!(combat_init_setup(BattleGlobalState::Ended).is_some());
    assert!(combat_init_setup(BattleGlobalState::AwaitingClient).is_none());
    assert!(combat_init_setup(BattleGlobalState::Running).is_none());
}

#[test]
fn only_a_connected_client_confirms_readiness() {
    assert!(should_confirm_battle_ready(ClientState::Connected));
    assert!(!should_confirm_battle_ready(ClientState::Connecting));
    assert!(!should_confirm_battle_ready(ClientState::Disconnected));
}
