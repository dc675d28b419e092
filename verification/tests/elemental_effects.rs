use drill::effects::{
    count_kinds, default_reactions, resolve_effects, EffectComponent, EffectSet,
    EffectsEquivalence, Reaction,
};

fn none() -> EffectSet {
    EffectSet { humid: false, heat: false, cold: false, iced: false, burning: None, steam: false }
}

#[test]
fn kinds_are_listed_in_a_fixed_order() {
    let s = EffectSet { steam: true, humid: true, burning: Some(4), ..none() };
    assert_eq!(
        s.kind_list(),
        vec![EffectComponent::Humid, EffectComponent::Burning, EffectComponent::Steam]
    );
    assert!(none().kind_list().is_empty());
}

#[test]
fn inserting_and_removing_kinds() {
    let mut s = none();
    s.insert(EffectComponent::Burning);
    assert_eq!(s.burning, Some(1));
    s.insert(EffectComponent::Cold);
    s.remove(EffectComponent::Burning);
    assert_eq!(s, EffectSet { cold: true, ..none() });
}

#[test]
fn kinds_are_counted() {
    let v = vec![EffectComponent::Heat, EffectComponent::Heat, EffectComponent::Steam];
    assert_eq!(count_kinds(&v), (0, 2, 0, 0, 0, 1));
}

#[test]
fn a_reaction_matches_its_inputs_in_any_order() {
    let r = Reaction::new_empty().with_inputs(vec![EffectComponent::Humid, EffectComponent::Heat]);
    assert!(r.matches_kinds(&vec![EffectComponent::Heat, EffectComponent::Humid]));
    assert!(!r.matches_kinds(&vec![EffectComponent::Heat]));
    assert!(!r.matches_kinds(&vec![EffectComponent::Heat, EffectComponent::Humid, EffectComponent::Cold]));
    assert!(!r.matches_kinds(&vec![EffectComponent::Heat, EffectComponent::Heat]));
}

#[test]
fn heat_and_humidity_make_steam() {
    let mut s = EffectSet { humid: true, heat: true, ..none() };
    resolve_effects(&mut s, &default_reactions());
    assert_eq!(s, EffectSet { heat: true, steam: true, ..none() });
}

#[test]
fn cold_and_humidity_make_ice() {
    let mut s = EffectSet { humid: true, cold: true, ..none() };
    resolve_effects(&mut s, &default_reactions());
    assert_eq!(s, EffectSet { cold: true, iced: true, ..none() });
}

#[test]
fn heat_melts_ice() {
    let mut s = EffectSet { heat: true, iced: true, ..none() };
    resolve_effects(&mut s, &default_reactions());
    assert_eq!(s, EffectSet { humid: true, ..none() });
}

#[test]
fn no_reaction_leaves_the_effects_alone() {
    let start = EffectSet { humid: true, heat: true, cold: true, ..none() };
    let mut s = start;
    resolve_effects(&mut s, &default_reactions());
    assert_eq!(s, start);
    let burning = EffectSet { burning: Some(3), ..none() };
    let mut b = burning;
    resolve_effects(&mut b, &default_reactions());
    assert_eq!(b, burning);
}

#[test]
fn the_game_has_three_reactions() {
    let r = default_reactions();
    assert_eq!(r.len(), 3);
    assert_eq!(r[2].removes, vec![EffectComponent::Heat, EffectComponent::Iced]);
    assert_eq!(r[2].spawns, vec![EffectComponent::Humid]);
}

#[test]
fn combined_effects_add_the_equivalent_kinds() {
    assert_eq!(
        EffectsEquivalence::game_equivalences().get_combined_effects(EffectComponent::Steam),
        vec![EffectComponent::Steam, EffectComponent::Heat, EffectComponent::Humid]
    );
    assert_eq!(
        EffectsEquivalence::game_equivalences().get_combined_effects(EffectComponent::Burning),
        vec![EffectComponent::Burning, EffectComponent::Heat]
    );
    assert_eq!(
        EffectsEquivalence::game_equivalences().get_combined_effects(EffectComponent::Cold),
        vec![EffectComponent::Cold]
    );
}

#[test]
fn the_last_entry_for_a_kind_counts() {
    let e = EffectsEquivalence(vec![
        (EffectComponent::Cold, vec![EffectComponent::Iced]),
        (EffectComponent::Cold, vec![EffectComponent::Humid]),
    ]);
    assert_eq!(
        e.get_combined_effects(EffectComponent::Cold),
        vec![EffectComponent::Cold, EffectComponent::Humid]
    );
}
