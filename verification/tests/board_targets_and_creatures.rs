use drill::board::{DeckKind, PosInDeck};
use drill::creatures::definitions::{CardFilter, Creature, CreatureKind};
use drill::creatures::generation::CreatureGenerationRequested;
use drill::deck::card_builders::{CardPool, CardPoolStatus, PoolSupplier};
use drill::grid_abilities_backend::{
    BoardFilter, BoardGatherer, DeckBackend, HitTargetKind, NumberType,
};
use drill::network::{received_battle_tick, should_initialize_ticking};
use drill::board::{BattleData, BattleTick};
use drill::states::{sort_by_speed_desc, turn_order, Speed, TurnOrder};
use drill::ui::{CardUiTextContent, TextSection};
use rand::SeedableRng;

fn rng(seed: u64) -> bevy_prng::WyRand {
    bevy_prng::WyRand::seed_from_u64(seed)
}

fn hand(i: u32) -> PosInDeck {
    PosInDeck::new(i, DeckKind::Hand)
}

#[test]
fn hits_on_players() {
    assert!(HitTargetKind::Playing.is_player());
    assert!(!HitTargetKind::Cell.is_player());
}

#[test]
fn counts_from_a_sample() {
    assert_eq!(NumberType::Fixed(3).resolve_count_with(99), 3);
    assert_eq!(NumberType::Random { min: 2, max: 5 }.resolve_count_with(10), 4);
    assert_eq!(NumberType::Random { min: 2, max: 5 }.resolve_count_with(3), 5);
    assert_eq!(NumberType::Random { min: 5, max: 5 }.resolve_count_with(8), 5);
    assert_eq!(NumberType::Random { min: 7, max: 3 }.resolve_count_with(8), 7);
}

#[test]
fn random_counts_stay_in_their_range() {
    for seed in 0..50 {
        let n = NumberType::Random { min: 2, max: 4 }.resolve_count(rng(seed));
        assert!((2..=4).contains(&n));
    }
    assert_eq!(NumberType::Fixed(6).resolve_count(rng(1)), 6);
}

#[test]
fn limits_of_a_count() {
    assert_eq!(NumberType::All.resolve_limit(rng(2)), None);
    assert_eq!(NumberType::Fixed(3).resolve_limit(rng(2)), Some(3));
    let r = NumberType::Random { min: 1, max: 2 }.resolve_limit(rng(2)).unwrap();
    assert!(r == 1 || r == 2);
}

#[test]
fn offsets_move_a_position_up_its_pile() {
    let p = DeckBackend::apply_offset(hand(2), &PosInDeck::new(3, DeckKind::Draw));
    assert_eq!(p, hand(5));
}

#[test]
fn gathering_on_the_left_finds_the_first_card_in_range() {
    let cards = vec![
        (1, hand(3)),
        (2, hand(5)),
        (3, PosInDeck::new(4, DeckKind::Draw)),
        (4, hand(4)),
    ];
    let g = DeckBackend::gather(&cards, hand(6), &BoardGatherer::OnLeft(3), 1).unwrap();
    assert_eq!((g.card, g.pos, g.origin_distance, g.radius), (2, hand(5), 1, 3));
    let g = DeckBackend::gather(&cards, hand(6), &BoardGatherer::OnLeft(3), 2).unwrap();
    assert_eq!((g.card, g.origin_distance), (1, 3));
    let g = DeckBackend::gather(&cards[2..].to_vec(), hand(6), &BoardGatherer::OnLeft(3), 2).unwrap();
    assert_eq!((g.card, g.origin_distance), (4, 2));
}

#[test]
fn gathering_on_the_right_or_around_covers_no_index() {
    let cards = vec![(1, hand(3)), (2, hand(5)), (3, hand(7))];
    assert!(DeckBackend::gather(&cards, hand(6), &BoardGatherer::OnRight(2), 0).is_none());
    assert!(DeckBackend::gather(&cards, hand(6), &BoardGatherer::Around(2), 0).is_none());
}

#[test]
fn filters_keep_the_first_targets() {
    let mut r = rng(4);
    let targets = vec![1, 2, 3, 4];
    assert_eq!(DeckBackend::apply_filter(targets.clone(), &BoardFilter::default(), &mut r), targets);
    assert_eq!(DeckBackend::apply_filter(targets.clone(), &BoardFilter::new(NumberType::Fixed(2)), &mut r), vec![1, 2]);
    assert_eq!(DeckBackend::apply_filter(targets.clone(), &BoardFilter::new(NumberType::Fixed(9)), &mut r), targets);
    for _ in 0..20 {
        let kept = DeckBackend::apply_filter(
            targets.clone(),
            &BoardFilter::new(NumberType::Random { min: 1, max: 3 }),
            &mut r,
        );
        assert!(kept == vec![1] || kept == vec![1, 2]);
    }
}

#[test]
fn fastest_first_turn_order() {
    let entities = vec![(1, Speed(3)), (2, Speed(5)), (3, Speed(3)), (4, Speed(1))];
    assert_eq!(
        turn_order(&entities),
        vec![(2, TurnOrder(0)), (1, TurnOrder(1)), (3, TurnOrder(2)), (4, TurnOrder(3))]
    );
    let mut v = entities.clone();
    sort_by_speed_desc(&mut v);
    assert_eq!(v, vec![(2, Speed(5)), (1, Speed(3)), (3, Speed(3)), (4, Speed(1))]);
    assert!(turn_order(&vec![]).is_empty());
}

#[test]
fn creature_kinds_and_their_pools() {
    assert_eq!(CreatureKind::TestMelee.get_pools(), vec![(CardPool::Melee, CardPoolStatus::Required)]);
    assert_eq!(CreatureKind::TestRanged.get_pools(), vec![(CardPool::Ranged, CardPoolStatus::Required)]);
    assert_eq!(CreatureKind::TestRanged.get_card_filters(), vec![CardFilter::RequiredPool(CardPool::Ranged)]);
    assert_eq!(Creature::new(CreatureKind::TestMelee).kind, CreatureKind::TestMelee);
    let req = CreatureGenerationRequested::new(3, CreatureKind::TestRanged);
    assert_eq!((req.entity, req.kind), (3, CreatureKind::TestRanged));
}

#[test]
fn generated_stats_stay_in_the_spread() {
    let mut r = rng(9);
    for _ in 0..30 {
        let (speed, strength, melee, ranged) = CreatureKind::TestMelee.get_stats_spread(&mut r);
        assert_eq!(speed.current, 1);
        assert!((2..4).contains(&strength.current));
        assert_eq!((melee.current, ranged.current), (1, 2));
        let (speed, strength, melee, ranged) = CreatureKind::TestRanged.get_stats_spread(&mut r);
        assert!((3..5).contains(&speed.current));
        assert_eq!(strength.current, 1);
        assert_eq!((melee.current, ranged.current), (1, 4));
    }
}

#[test]
fn ticking_starts_once_per_battle() {
    let live = BattleData::InCombat { battle_tick: BattleTick { turn: 1, subtick: 2 } };
    assert!(should_initialize_ticking(&live, false));
    assert!(!should_initialize_ticking(&live, true));
    assert!(!should_initialize_ticking(&BattleData::NoBattle, false));
    assert_eq!(received_battle_tick(&live), Some(BattleTick { turn: 1, subtick: 2 }));
    assert_eq!(received_battle_tick(&BattleData::NoBattle), None);
}

#[test]
fn card_text_is_copied_section_by_section() {
    let content = CardUiTextContent {
        sections: vec![
            TextSection::Title("Fireball".to_string()),
            TextSection::Description("Burns".to_string()),
        ],
    };
    let copies = content.copies_sections();
    assert_eq!(copies.len(), 2);
    assert_eq!(copies[0].text(), "Fireball");
    assert!(matches!(copies[1], TextSection::Description(_)));
    assert_eq!(copies[1].copy_section().text(), "Burns");
}

#[test]
fn rolled_values_vary_with_the_generator() {
    let mut counts = [0usize; 3];
    for seed in 0..60 {
        let n = NumberType::Random { min: 2, max: 4 }.resolve_count(rng(seed));
        counts[n - 2] += 1;
    }
    assert!(counts.iter().all(|c| *c > 0));

    let mut r = rng(21);
    let mut speeds = Vec::new();
    let mut strengths = Vec::new();
    for _ in 0..60 {
        speeds.push(CreatureKind::TestRanged.get_stats_spread(&mut r).0.current);
        strengths.push(CreatureKind::TestMelee.get_stats_spread(&mut r).1.current);
    }
    assert!(speeds.contains(&3) && speeds.contains(&4));
    assert!(strengths.contains(&2) && strengths.contains(&3));
}
