use drill::board::{
    burn_effect, cast_data, card_index_update, first_card_at, magnetic_effect,
    sort_cards_by_index, BattleData, BattleTick, CardDir, CardIndexUpdate, CardTargeting,
    CastTicksRequirement, DeckKind, Magnetic, PileWithCards, PosInDeck, TargetingAmount,
    TicksSinceCast,
};

fn hand(i: u32) -> PosInDeck {
    PosInDeck::new(i, DeckKind::Hand)
}

fn pile(v: &[u64]) -> PileWithCards {
    PileWithCards(v.to_vec())
}

fn cards_in_order(v: &[u64]) -> Vec<(u64, PosInDeck)> {
    v.iter().enumerate().map(|(i, e)| (*e, hand(i as u32))).collect()
}

#[test]
fn empty_pile_has_no_cards() {
    assert!(PileWithCards::init().0.is_empty());
}

#[test]
fn first_and_last_position_of_a_card() {
    let p = pile(&[4, 7, 4, 9]);
    assert_eq!(p.first_position(4), Some(0));
    assert_eq!(p.last_position(4), Some(2));
    assert_eq!(p.first_position(9), Some(3));
    assert_eq!(p.last_position(9), Some(3));
    assert_eq!(p.first_position(5), None);
    assert_eq!(p.last_position(5), None);
}

#[test]
fn place_moves_a_card_down_the_pile() {
    let mut p = pile(&[1, 2, 3, 4]);
    p.place(4, 1);
    assert_eq!(p.0, vec![1, 4, 2, 3]);
}

#[test]
fn place_moves_a_card_up_the_pile() {
    let mut p = pile(&[1, 2, 3, 4]);
    p.place(1, 3);
    assert_eq!(p.0, vec![2, 3, 4, 1]);
}

#[test]
fn place_moves_only_the_first_occurrence() {
    let mut p = pile(&[5, 6, 5]);
    p.place(5, 1);
    assert_eq!(p.0, vec![6, 5, 5]);
}

#[test]
fn place_of_a_missing_card_changes_nothing() {
    let mut p = pile(&[1, 2, 3]);
    p.place(8, 0);
    assert_eq!(p.0, vec![1, 2, 3]);
}

#[test]
fn pop_front_puts_the_last_card_first() {
    let mut p = pile(&[1, 2, 3, 4]);
    assert_eq!(p.pop_front(), Some(1));
    assert_eq!(p.0, vec![4, 2, 3]);
    assert_eq!(p.pop_front(), Some(4));
    assert_eq!(p.0, vec![3, 2]);
}

#[test]
fn pop_front_of_an_empty_pile() {
    let mut p = PileWithCards::init();
    assert_eq!(p.pop_front(), None);
    assert!(p.0.is_empty());
}

#[test]
fn position_in_hand_or_draw_pile() {
    assert!(hand(3).is_in_hand());
    assert!(!PosInDeck::new(3, DeckKind::Draw).is_in_hand());
    assert_eq!(hand(3).index, 3);
}

#[test]
fn battle_ticks_count_turns_and_steps() {
    let mut t = BattleTick::initial();
    assert_eq!(t.joined_tick(), (0, 0));
    t.subtick = 4;
    t.increment_next_turn();
    assert_eq!(t.joined_tick(), (1, 0));
    assert_eq!(BattleTick::null().joined_tick(), (u32::MAX, u32::MAX));
}

#[test]
fn battle_data_advances_only_a_running_battle() {
    let mut running = BattleData::InCombat { battle_tick: BattleTick { turn: 2, subtick: 5 } };
    running.update_subtick();
    assert_eq!(running, BattleData::InCombat { battle_tick: BattleTick { turn: 2, subtick: 6 } });
    running.increment_battle_turn();
    assert_eq!(running, BattleData::InCombat { battle_tick: BattleTick { turn: 3, subtick: 0 } });
    let mut idle = BattleData::NoBattle;
    idle.update_subtick();
    idle.increment_battle_turn();
    assert_eq!(idle, BattleData::NoBattle);
}

#[test]
fn sorting_by_index_keeps_equal_indexes_in_order() {
    let mut cards = vec![(30, hand(2)), (10, hand(0)), (21, hand(1)), (20, hand(1)), (11, hand(0))];
    sort_cards_by_index(&mut cards);
    let order: Vec<u64> = cards.iter().map(|c| c.0).collect();
    assert_eq!(order, vec![10, 11, 21, 20, 30]);
}

#[test]
fn first_card_at_an_index() {
    let cards = vec![(10, hand(0)), (11, hand(2)), (12, hand(2))];
    assert_eq!(first_card_at(&cards, 2), Some(1));
    assert_eq!(first_card_at(&cards, 1), None);
}

#[test]
fn magnetic_pull_from_the_right() {
    let m = Magnetic::new(CardDir::Right, 2);
    let mut cards = cards_in_order(&[10, 11, 12, 13, 14]);
    let mut coll = pile(&[10, 11, 12, 13, 14]);
    m.apply_effect(&hand(1), &mut cards, &mut coll);
    assert_eq!(coll.0, vec![12, 13, 10, 11, 14]);
}

#[test]
fn magnetic_pull_from_the_left() {
    let m = Magnetic::new(CardDir::Left, 1);
    let mut cards = cards_in_order(&[10, 11, 12, 13, 14]);
    let mut coll = pile(&[10, 11, 12, 13, 14]);
    m.apply_effect(&hand(3), &mut cards, &mut coll);
    assert_eq!(coll.0, vec![10, 11, 13, 12, 14]);
}

#[test]
fn magnetic_pull_from_both_sides() {
    let m = Magnetic::new(CardDir::Around, 1);
    let mut cards = cards_in_order(&[10, 11, 12, 13, 14]);
    let mut coll = pile(&[10, 11, 12, 13, 14]);
    m.apply_effect(&hand(2), &mut cards, &mut coll);
    assert_eq!(coll.0, vec![11, 10, 13, 12, 14]);
}

#[test]
fn magnetic_pull_keeps_the_cards_of_the_pile() {
    let m = Magnetic::new(CardDir::Right, 3);
    let mut cards = cards_in_order(&[1, 2, 3, 4, 5, 6]);
    let mut coll = pile(&[1, 2, 3, 4, 5, 6]);
    m.apply_effect(&hand(0), &mut cards, &mut coll);
    let mut sorted = coll.0.clone();
    sorted.sort();
    assert_eq!(sorted, vec![1, 2, 3, 4, 5, 6]);
    assert_eq!(coll.0, vec![4, 3, 2, 1, 5, 6]);
}

#[test]
fn magnetic_effect_sorts_the_cards_it_is_given() {
    let m = Magnetic::new(CardDir::Right, 1);
    let mut cards = vec![(12, hand(2)), (10, hand(0)), (11, hand(1))];
    let mut coll = pile(&[10, 11, 12]);
    m.apply_effect(&hand(2), &mut cards, &mut coll);
    assert_eq!(cards, vec![(10, hand(0)), (11, hand(1)), (12, hand(2))]);
    assert_eq!(coll.0, vec![10, 11, 12]);
}

#[test]
fn magnetic_effect_needs_two_cards_and_a_source() {
    let m = Magnetic::new(CardDir::Around, 3);
    let mut one = vec![(10, hand(0))];
    let mut coll = pile(&[10]);
    m.apply_effect(&hand(0), &mut one, &mut coll);
    assert_eq!(coll.0, vec![10]);

    let mut cards = vec![(11, hand(1)), (10, hand(0))];
    let mut coll = pile(&[10, 11]);
    m.apply_effect(&hand(5), &mut cards, &mut coll);
    assert_eq!(cards, vec![(10, hand(0)), (11, hand(1))]);
    assert_eq!(coll.0, vec![10, 11]);
}

#[test]
fn magnetic_and_burn_statuses() {
    assert_eq!(magnetic_effect(CardDir::Left, 2), Magnetic { direction: CardDir::Left, strength: 2 });
    assert_eq!(burn_effect(CardDir::Right, 1), Magnetic { direction: CardDir::Right, strength: 1 });
    assert_eq!(
        CardTargeting::default(),
        CardTargeting::ByDir(CardDir::Around, TargetingAmount::Single)
    );
}

#[test]
fn casting_data_of_a_new_card() {
    let (req, since) = cast_data(4);
    assert_eq!(req.value, 4);
    assert_eq!(since.value, 0);
    assert_eq!(since.last_change_tick, BattleTick::initial());
    let mut r = CastTicksRequirement::new(1);
    r.tick(&BattleTick::initial());
    assert_eq!(r.value, 2);
    assert_eq!(TicksSinceCast::default().value, 0);
}

#[test]
fn card_index_update_records_new_positions() {
    assert_eq!(
        card_index_update(None, 3, true, true),
        CardIndexUpdate { record: Some(hand(3)), mark_pending_draw: false }
    );
    assert_eq!(
        card_index_update(Some(hand(3)), 3, true, true),
        CardIndexUpdate { record: None, mark_pending_draw: false }
    );
    assert_eq!(
        card_index_update(Some(PosInDeck::new(3, DeckKind::Draw)), 0, true, true),
        CardIndexUpdate { record: Some(hand(0)), mark_pending_draw: true }
    );
    assert_eq!(
        card_index_update(Some(hand(1)), 0, true, false),
        CardIndexUpdate { record: Some(hand(0)), mark_pending_draw: false }
    );
    assert_eq!(
        card_index_update(Some(hand(1)), 2, false, true),
        CardIndexUpdate { record: Some(PosInDeck::new(2, DeckKind::Draw)), mark_pending_draw: false }
    );
}

#[test]
fn checking_whether_a_magnetic_pull_applies() {
    let around = Magnetic::new(CardDir::Around, 1);
    let cards = cards_in_order(&[10, 11, 12]);
    assert!(around.can_apply(&hand(1), &cards, &pile(&[10, 11, 12])));
    assert!(!around.can_apply(&hand(1), &cards, &pile(&[10, 11])));
    let swapped = pile(&[11, 10]);
    assert!(!around.can_apply(&hand(0), &cards_in_order(&[10, 11]), &swapped));
    assert!(around.can_apply(&hand(7), &cards, &pile(&[])));

    let left = Magnetic::new(CardDir::Left, 2);
    let high = vec![(1, hand(u32::MAX - 2)), (2, hand(u32::MAX - 1)), (3, hand(u32::MAX))];
    assert!(!left.can_apply(&hand(u32::MAX), &high, &pile(&[])));
    let right = Magnetic::new(CardDir::Right, 2);
    assert!(right.can_apply(&hand(0), &cards, &pile(&[10, 11, 12])));
    assert!(Magnetic::new(CardDir::Left, 1).can_apply(&hand(1), &cards_in_order(&[10, 11]), &pile(&[10, 11])));
    let far = vec![(10, hand(3)), (11, hand(4))];
    assert!(!Magnetic::new(CardDir::Left, 1).can_apply(&hand(4), &far, &pile(&[10, 11])));
}

#[test]
fn recorded_positions_settle() {
    let first = card_index_update(Some(PosInDeck::new(4, DeckKind::Draw)), 2, true, true);
    assert_eq!(first, CardIndexUpdate { record: Some(hand(2)), mark_pending_draw: true });
    let again = card_index_update(first.record, 2, true, true);
    assert_eq!(again, CardIndexUpdate { record: None, mark_pending_draw: false });
}
