use drill::board::{
    action_tick_bounds, card_anim_steps, next_tick_delay_step, AnimStep, AnimateTick, DeckKind, PosInDeck, BattleTick, ClientBattleAnimState,
    DelayStep, ReqNextTurnAnim, TurnAnimator,
};
use drill::game_flow::turns::ClientState;

fn tick(turn: u32, subtick: u32) -> BattleTick {
    BattleTick { turn, subtick }
}

#[test]
fn tick_bounds_over_every_card_of_a_turn() {
    let histories = vec![
        vec![tick(1, 3), tick(1, 5), tick(2, 0)],
        vec![tick(0, 9)],
        vec![tick(1, 2)],
    ];
    assert_eq!(action_tick_bounds(&histories, 1), (2, 5));
    assert_eq!(action_tick_bounds(&histories, 0), (9, 9));
    assert_eq!(action_tick_bounds(&histories, 2), (0, 0));
}

#[test]
fn tick_bounds_of_a_turn_without_changes() {
    let histories = vec![vec![tick(1, 3)], vec![]];
    assert_eq!(action_tick_bounds(&histories, 7), (999, 0));
}

#[test]
fn animation_state_before_and_after_start() {
    let mut s = ClientBattleAnimState::default();
    assert_eq!(s.get_current_animating_turn_tick(), None);
    assert!(!s.begin_if_ready(true, false));
    assert!(!s.begin_if_ready(false, true));
    assert!(s.begin_if_ready(true, true));
    assert!(!s.begin_if_ready(true, true));
    assert!(s.started);
    assert_eq!(s.get_current_animating_turn_tick(), Some(0));
}

#[test]
fn animating_the_next_turn_needs_a_connected_started_client() {
    let mut s = ClientBattleAnimState::default();
    assert_eq!(s.start_next_turn_anim(ClientState::Connected), None);
    s.started = true;
    assert_eq!(s.start_next_turn_anim(ClientState::Connecting), None);
    assert_eq!(s.next_animated_tick, 0);
    assert_eq!(s.start_next_turn_anim(ClientState::Connected), Some(AnimateTick(0)));
    assert_eq!(s.start_next_turn_anim(ClientState::Connected), Some(AnimateTick(1)));
    assert_eq!(s.next_animated_tick, 2);
    assert_eq!(s.get_current_animating_turn_tick(), Some(1));
}

#[test]
fn next_turn_is_requested_once_a_turn_is_done() {
    let s = ClientBattleAnimState { started: true, next_animated_tick: 4 };
    assert_eq!(s.next_turn_request(3, false), Some(ReqNextTurnAnim { turn: 4 }));
    assert_eq!(s.next_turn_request(3, true), None);
    assert_eq!(s.next_turn_request(2, false), None);
    assert_eq!(TurnAnimator::from_turn_tick(3).turn, 3);
}

#[test]
fn a_frame_delay_waits_once() {
    assert_eq!(next_tick_delay_step(1), DelayStep::Waiting { ticks_left: 0 });
    assert_eq!(next_tick_delay_step(5), DelayStep::Waiting { ticks_left: 0 });
    assert_eq!(next_tick_delay_step(0), DelayStep::Completed);
    assert_eq!(next_tick_delay_step(-2), DelayStep::Completed);
}

#[test]
fn an_animated_turn_leads_to_the_next_request() {
    let mut s = ClientBattleAnimState { started: true, next_animated_tick: 3 };
    let started = s.start_next_turn_anim(ClientState::Connected);
    assert_eq!(started, Some(AnimateTick(3)));
    assert_eq!(s.next_turn_request(3, false), Some(ReqNextTurnAnim { turn: 4 }));
    assert_eq!(s.next_turn_request(3, true), None);
    let mut idle = ClientBattleAnimState { started: true, next_animated_tick: 3 };
    assert_eq!(idle.start_next_turn_anim(ClientState::Disconnected), None);
    assert_eq!(idle, ClientBattleAnimState { started: true, next_animated_tick: 3 });
}

fn at(i: u32, deck: DeckKind) -> PosInDeck {
    PosInDeck::new(i, deck)
}

#[test]
fn animation_steps_follow_the_recorded_positions() {
    let changes = vec![
        (2, vec![at(1, DeckKind::Hand), at(2, DeckKind::Hand)]),
        (0, vec![at(3, DeckKind::Draw)]),
        (3, vec![]),
    ];
    assert_eq!(
        card_anim_steps(&changes, 0, 3),
        vec![
            AnimStep { slot: 2, from: Some(at(3, DeckKind::Draw)), to: at(1, DeckKind::Hand) },
            AnimStep { slot: 2, from: Some(at(1, DeckKind::Hand)), to: at(2, DeckKind::Hand) },
        ]
    );
    assert_eq!(
        card_anim_steps(&changes, 1, 2),
        vec![
            AnimStep { slot: 1, from: None, to: at(1, DeckKind::Hand) },
            AnimStep { slot: 1, from: Some(at(1, DeckKind::Hand)), to: at(2, DeckKind::Hand) },
        ]
    );
    assert!(card_anim_steps(&changes, 999, 0).is_empty());
}

#[test]
fn the_last_record_of_a_step_counts() {
    let changes = vec![(1, vec![at(0, DeckKind::Hand)]), (1, vec![at(4, DeckKind::Hand)])];
    assert_eq!(
        card_anim_steps(&changes, 1, 1),
        vec![AnimStep { slot: 0, from: None, to: at(4, DeckKind::Hand) }]
    );
}
