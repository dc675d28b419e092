use drill::abilities::abilities_templates::{
    AbilityCastRequested, ActionCastData, CastInvokedBy, InvokingTriggerEffect, PROJECTILE_ABILITY,
};
use drill::abilities::effects::{EffectHandler, EffectMod, SpawnEffect, StatusEffectApplier, StatusKind};
use drill::deck::card_blueprints::GotHit;
use drill::grid_abilities_backend::HitReceived;
use drill::movement::{MoveRequest, PreviewPathRequest};
use drill::abilities_definitions::definitions::AbilityEntry;
use drill::actions::{
    cast_effects, reaction_outcome, ActionBuilder, ActionCreationStart, ActionEffect, ActionEffectReceived, ActionEffects, MainTarget,
    ActionPoints, Melee, MovementPoints, Range,
};
use drill::combat::{select_first_action, SelectedAction};
use drill::exs::{heal_tick, poison_tick, Health};
use drill::game_flow::event_reactions::{applicable_reactions, spiky_cell_damage, ApplyDamage, Reactions};

#[test]
fn building_an_action_step_by_step() {
    let b = ActionBuilder::<ActionCreationStart>::empty(7)
        .with_name("Slash")
        .with_range(1)
        .with_mp_cost(2)
        .with_ap_cost(3)
        .with_melee_damage(4)
        .with_effects(vec![ActionEffect::Split]);
    assert_eq!(b.parts.name, Some("Slash"));
    assert_eq!(b.parts.range, Some(Range(1)));
    assert_eq!(b.parts.movement_points, Some(MovementPoints(2)));
    assert_eq!(b.parts.action_points, Some(ActionPoints(3)));
    assert_eq!(b.parts.melee, Some(Melee(4)));
    assert_eq!(b.parts.ranged, None);
    assert_eq!(b.parts.effects, Some(vec![ActionEffect::Split]));
    assert_eq!(b.get_entity(), 7);
}

#[test]
fn a_ranged_action() {
    let b = ActionBuilder::<ActionCreationStart>::empty(1)
        .with_name("Shot")
        .with_range(5)
        .with_ap_cost(2)
        .with_ranged_damage(6);
    assert_eq!(b.parts.ranged.map(|r| r.0), Some(6));
    assert_eq!(b.parts.melee, None);
    assert_eq!(b.parts.movement_points, None);
}

#[test]
fn reactions_need_their_trigger_and_predicates() {
    let triggers = vec![ActionEffect::Split];
    assert_eq!(reaction_outcome(&triggers, ActionEffect::Split, true), Ok(()));
    assert_eq!(
        reaction_outcome(&triggers, ActionEffect::Infuse, true),
        Err("trigger on doesn't conntain effect key")
    );
    assert_eq!(
        reaction_outcome(&triggers, ActionEffect::Split, false),
        Err("predicates were not all validated")
    );
    assert_eq!(
        reaction_outcome(&vec![], ActionEffect::Split, true),
        Err("trigger on doesn't conntain effect key")
    );
}

#[test]
fn no_action_effects_by_default() {
    assert!(ActionEffects::default().0.is_empty());
}

#[test]
fn the_first_action_is_selected() {
    let mut s = SelectedAction(None);
    select_first_action(&mut s, &vec![]);
    assert_eq!(s, SelectedAction(None));
    select_first_action(&mut s, &vec![4, 5]);
    assert_eq!(s, SelectedAction(Some(4)));
}

#[test]
fn status_keys_and_handlers() {
    assert_eq!(StatusKind::Poison.key(), "Poison");
    assert_eq!(StatusKind::Burn.key(), "Burn");
    let a = StatusEffectApplier::new(StatusKind::Poison, 2);
    let h = EffectHandler::applied_by(a.amount, 30, a.effect_kind);
    assert_eq!((h.amount, h.effect_key, h.status_applied_by), (2, "Poison", Some(30)));
    assert_eq!(h.tick_roles(31), vec![("Applicator", 30), ("Effect", 31)]);
    let lone = EffectHandler { amount: 1, effect_key: "Burn", status_applied_by: None };
    assert_eq!(lone.tick_roles(8), vec![("Effect", 8)]);
}

#[test]
fn cast_requests_keep_their_parts() {
    let r = AbilityCastRequested::new(3, CastInvokedBy::Specific(9), 4);
    assert_eq!((r.card_entity, r.invoked_by, r.target), (3, CastInvokedBy::Specific(9), 4));
    let d = ActionCastData::new(1, 2);
    assert_eq!((d.source_playing_entity, d.source_caster_entity), (1, 2));
    let t = InvokingTriggerEffect::new(5, 6);
    assert_eq!((t.template_entity, t.source), (5, 6));
    assert_eq!(PROJECTILE_ABILITY, "projectile_ability");
    assert_eq!(AbilityEntry::new(PROJECTILE_ABILITY).register_name, "projectile_ability");
}

#[test]
fn poison_and_healing_ticks() {
    let mut h = Health(30);
    poison_tick(&mut h);
    assert_eq!(h, Health(20));
    heal_tick(&mut h);
    heal_tick(&mut h);
    assert_eq!(h, Health(40));
}

#[test]
fn reacting_cells_keep_their_order() {
    let reactions = Reactions(vec![1, 2, 3, 4]);
    assert_eq!(applicable_reactions(&reactions, &vec![4, 2, 9]), vec![2, 4]);
    assert!(applicable_reactions(&reactions, &vec![]).is_empty());
    assert_eq!(spiky_cell_damage(), ApplyDamage(2));
}

#[test]
fn hit_and_movement_events_keep_their_parts() {
    let h = HitReceived::new(1, 2, ActionCastData::new(3, 4));
    assert_eq!((h.hit_player, h.ability_entity, h.cast_data), (1, 2, ActionCastData::new(3, 4)));
    let g = GotHit::new(5, 6, EffectMod::SpawnTickable(StatusEffectApplier::new(StatusKind::Burn, 2)));
    assert_eq!((g.entity, g.attacking_player), (5, 6));
    assert!(matches!(g.effect, EffectMod::SpawnTickable(a) if a.amount == 2));
    let s = SpawnEffect::new(7, 8);
    assert_eq!((s.action_root, s.casted), (7, 8));
    let m = MoveRequest::new(9, 10);
    assert_eq!((m.entity, m.destination_cell), (9, 10));
    let p = PreviewPathRequest::new(11, 12);
    assert_eq!((p.entity, p.destination_cell), (11, 12));
}

#[test]
fn a_cast_delivers_each_effect_to_the_main_target() {
    let effects = ActionEffects(vec![ActionEffect::Split, ActionEffect::Infuse]);
    assert_eq!(
        cast_effects(&effects, &MainTarget(7)),
        vec![
            ActionEffectReceived { entity: 7, key: ActionEffect::Split },
            ActionEffectReceived { entity: 7, key: ActionEffect::Infuse },
        ]
    );
    assert!(cast_effects(&ActionEffects::default(), &MainTarget(7)).is_empty());
}
