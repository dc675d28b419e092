use drill::abilities::abilities_templates::AbilityKind;
use drill::abilities::effects::{AttributeChange, ChangeOp, EffectMod, OneShotEffect, StatusEffectApplier, StatusKind};
use drill::deck::card_blueprints::{
    one_shot_instant, status_effect_applier, AbilityConstructor, AbilityNode, CardBlueprint,
    InvokingHandlerKind, NamePicker,
};
use drill::deck::card_builders::{
    CardPool, CardPoolStatus, RandomPoolCardBuilder, RarityCond, RarityPicker, RarityRange,
    RarityTier, StaticCardBuilder,
};
use drill::deck::deck_and_cards::{CardPile, DrawHand, HandDrawData};
use drill::deck_and_cards::test_template_card_names;
use rand::SeedableRng;

fn rng(seed: u64) -> bevy_prng::WyRand {
    bevy_prng::WyRand::seed_from_u64(seed)
}

#[test]
fn rarity_ranks_follow_the_rarity_order() {
    let ranks: Vec<usize> = RarityTier::rarities_vec().iter().map(|t| t.rank_of()).collect();
    assert_eq!(ranks, vec![0, 1, 2, 3, 4]);
}

#[test]
fn rarity_conditions_admit_tiers() {
    assert!(RarityCond::EqOrBelow(RarityTier::Rare).admits_tier(&RarityTier::Common));
    assert!(!RarityCond::EqOrBelow(RarityTier::Rare).admits_tier(&RarityTier::Legendary));
    assert!(RarityCond::EqOrHigher(RarityTier::Rare).admits_tier(&RarityTier::Secret));
    assert!(!RarityCond::EqOrHigher(RarityTier::Rare).admits_tier(&RarityTier::Uncommon));
    let range = RarityCond::InRange(RarityRange { start: RarityTier::Uncommon, end: RarityTier::Legendary });
    assert!(range.admits_tier(&RarityTier::Rare));
    assert!(!range.admits_tier(&RarityTier::Legendary));
    assert!(RarityCond::EqTo(RarityTier::Common).admits_tier(&RarityTier::Common));
}

#[test]
fn candidate_tiers_of_each_condition() {
    assert_eq!(
        RarityCond::EqOrBelow(RarityTier::Uncommon).candidate_tiers(),
        vec![RarityTier::Common, RarityTier::Uncommon]
    );
    assert_eq!(
        RarityCond::EqOrHigher(RarityTier::Legendary).candidate_tiers(),
        vec![RarityTier::Legendary, RarityTier::Secret]
    );
    assert_eq!(
        RarityCond::InRange(RarityRange { start: RarityTier::Uncommon, end: RarityTier::Legendary })
            .candidate_tiers(),
        vec![RarityTier::Uncommon, RarityTier::Rare]
    );
    assert!(RarityCond::InRange(RarityRange { start: RarityTier::Rare, end: RarityTier::Common })
        .candidate_tiers()
        .is_empty());
}

#[test]
fn a_pick_with_a_given_index() {
    let p = RarityPicker::Random(RarityCond::EqOrHigher(RarityTier::Rare));
    assert_eq!(p.pick_with_index(0), RarityTier::Rare);
    assert_eq!(p.pick_with_index(2), RarityTier::Secret);
    assert_eq!(RarityPicker::Static(RarityTier::Uncommon).pick_with_index(0), RarityTier::Uncommon);
    assert_eq!(RarityPicker::Random(RarityCond::EqTo(RarityTier::Secret)).pick_with_index(0), RarityTier::Secret);
}

#[test]
fn random_picks_meet_their_condition() {
    let mut r = rng(11);
    let cond = RarityCond::EqOrBelow(RarityTier::Rare);
    let picker = RarityPicker::Random(cond);
    let mut seen = Vec::new();
    for _ in 0..200 {
        let t = picker.pick(&mut r);
        assert!(cond.admits_tier(&t));
        if !seen.contains(&t) {
            seen.push(t);
        }
    }
    assert_eq!(seen.len(), 3);
}

#[test]
fn static_and_exact_picks() {
    let mut r = rng(3);
    assert_eq!(RarityPicker::Static(RarityTier::Legendary).pick(&mut r), RarityTier::Legendary);
    assert_eq!(RarityPicker::Random(RarityCond::EqTo(RarityTier::Common)).pick(&mut r), RarityTier::Common);
}

#[test]
fn names_are_picked_from_the_list() {
    let mut r = rng(5);
    let mut fixed = NamePicker::Fixed("Spark");
    assert_eq!(fixed.pick(&mut r), "Spark");
    let mut one_of = NamePicker::OneOf(vec!["a", "b", "c"]);
    for _ in 0..50 {
        let n = one_of.pick(&mut r);
        assert!(["a", "b", "c"].contains(&n));
    }
    assert_eq!(NamePicker::OneOf(vec!["x", "y"]).pick_with_index(1), "y");
}

#[test]
fn a_new_blueprint_and_its_pools() {
    let b = CardBlueprint::new(AbilityConstructor::Melee.into_node(), InvokingHandlerKind::Single);
    assert!(b.matches_pools.is_empty());
    assert!(b.matches_rarity.is_none());
    assert!(b.base_entity.is_none());
    match &b.name_picker {
        NamePicker::Fixed(n) => assert_eq!(*n, "Missing name picker"),
        NamePicker::OneOf(_) => panic!("a new blueprint has a fixed name"),
    }
    let b = b
        .add_required_pool(CardPool::Melee)
        .add_accepted_pool(CardPool::Heat)
        .add_forbidden_pool(CardPool::Ice)
        .add_rarity_condition(RarityCond::EqTo(RarityTier::Rare));
    assert_eq!(
        b.matches_pools,
        vec![
            (CardPool::Melee, CardPoolStatus::Required),
            (CardPool::Heat, CardPoolStatus::Accepted),
            (CardPool::Ice, CardPoolStatus::Forbidden),
        ]
    );
    assert_eq!(b.matches_rarity, Some(RarityCond::EqTo(RarityTier::Rare)));
}

#[test]
fn blueprints_match_creature_pools() {
    let b = CardBlueprint::new(AbilityConstructor::Projectile.into_node(), InvokingHandlerKind::Ripple(2))
        .add_required_pool(CardPool::Ranged)
        .add_forbidden_pool(CardPool::Melee);
    assert!(b.does_match(&vec![(CardPool::Ranged, CardPoolStatus::Required)]));
    assert!(!b.does_match(&vec![(CardPool::Heat, CardPoolStatus::Required)]));
    assert!(b.does_match(&vec![(CardPool::Cold, CardPoolStatus::Accepted)]));
    assert!(!b.does_match(&vec![(CardPool::Melee, CardPoolStatus::Forbidden)]));
    assert!(b.does_match(&vec![(CardPool::Ice, CardPoolStatus::Forbidden)]));
    assert!(b.does_match(&vec![]));
    assert!(!b.does_match(&vec![
        (CardPool::Ranged, CardPoolStatus::Required),
        (CardPool::Melee, CardPoolStatus::Forbidden),
    ]));
}

#[test]
fn setting_the_name_picker() {
    let mut b = CardBlueprint::new(AbilityConstructor::Melee.into_node(), InvokingHandlerKind::Single);
    b.set_name_picker(NamePicker::Fixed("Strike"));
    match b.name_picker {
        NamePicker::Fixed(n) => assert_eq!(n, "Strike"),
        NamePicker::OneOf(_) => panic!("the picker was set to a fixed name"),
    }
}

#[test]
fn ability_trees_one_level_down() {
    match AbilityConstructor::Melee.into_node() {
        AbilityNode::End(c) => assert_eq!(c, AbilityConstructor::Melee),
        AbilityNode::Nested(_) => panic!("a constructor is a leaf"),
    }
    assert_eq!(AbilityConstructor::Projectile.into_node().into_nodes().len(), 1);
    let nested = AbilityNode::Nested(vec![
        AbilityConstructor::Melee.into_node(),
        AbilityConstructor::BundleAsEntity(4).into_node(),
    ]);
    assert_eq!(nested.into_nodes().len(), 2);
}

#[test]
fn effect_modifiers() {
    let change = AttributeChange { attribute: "Life".to_string(), op: ChangeOp::Sub, expression: "2".to_string() };
    match one_shot_instant(change) {
        EffectMod::OneShot(OneShotEffect::Instant(c)) => assert_eq!(c.attribute, "Life"),
        _ => panic!("an instant one-shot effect"),
    }
    match status_effect_applier(StatusEffectApplier::new(StatusKind::Burn, 3)) {
        EffectMod::SpawnTickable(a) => assert_eq!((a.effect_kind, a.amount), (StatusKind::Burn, 3)),
        _ => panic!("a lasting status"),
    }
}

#[test]
fn card_builders_keep_what_they_are_given() {
    let b = RandomPoolCardBuilder::new(vec![(CardPool::Heat, CardPoolStatus::Accepted)], RarityCond::EqOrBelow(RarityTier::Common));
    assert_eq!(b.pools, vec![(CardPool::Heat, CardPoolStatus::Accepted)]);
    assert_eq!(b.rarity, RarityCond::EqOrBelow(RarityTier::Common));
    assert_eq!(StaticCardBuilder::new(AbilityKind::Projectile).ability_kind, AbilityKind::Projectile);
}

#[test]
fn hands_and_piles() {
    assert_eq!(HandDrawData::default().cards_per_turn, 5);
    assert_eq!(HandDrawData::from_cards_per_turn(3).cards_per_turn, 3);
    assert_eq!(DrawHand::from_deck_entity(9).entity, 9);
    assert!(CardPile::default().cards.is_empty());
}

#[test]
fn template_card_names() {
    assert_eq!(
        test_template_card_names(),
        vec!["Une carte", "Une autre", "toto", "tata", "tutu", "jean", "jeannot", "poissoj", "souris"]
    );
}

#[test]
fn picking_leaves_the_pickers_as_they_were() {
    let mut r = rng(8);
    let mut one_of = NamePicker::OneOf(vec!["a", "b"]);
    one_of.pick(&mut r);
    match one_of {
        NamePicker::OneOf(items) => assert_eq!(items, vec!["a", "b"]),
        NamePicker::Fixed(_) => panic!("the picker keeps its names"),
    }
    let mut fixed = NamePicker::Fixed("Spark");
    fixed.pick(&mut r);
    assert!(matches!(fixed, NamePicker::Fixed("Spark")));
}
