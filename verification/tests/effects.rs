use steel_recipes::behavior::{init_behaviors, MobEffectIds};
use steel_recipes::consume_effect::{
    ClearAllEffectsBehavior, ConsumeEffectBehaviorLock, ConsumeEffectBehaviorRegistry,
    ConsumeEffectKind, RemoveEffectsBehavior, TeleportRandomlyBehavior, TeleportStep, CLEAR_ALL_EFFECTS,
    PLAY_SOUND, TELEPORT_ATTEMPTS,
};
use steel_recipes::mob_effect::{
    AbsorptionBehavior, BadOmenBehavior, DamageKind, EffectAction, HealOrHarmBehavior, HungerBehavior,
    MobEffectBehaviorLock, MobEffectBehaviorRegistry, MobEffectKind, PoisonBehavior, RaidOmenBehavior, RegenerationBehavior, WindChargedBehavior, WitherBehavior,
};

#[test]
fn poison_interval_halves_per_amplifier_level() {
    let poison = PoisonBehavior;
    assert!(poison.should_apply_effect_tick_this_tick(25, 0));
    assert!(!poison.should_apply_effect_tick_this_tick(24, 0));
    assert!(poison.should_apply_effect_tick_this_tick(12, 1));
    assert!(!poison.should_apply_effect_tick_this_tick(13, 1));
    assert!(poison.should_apply_effect_tick_this_tick(7, 5));
    assert!(poison.should_apply_effect_tick_this_tick(25, 32));
    assert!(!poison.should_apply_effect_tick_this_tick(12, 32));
    assert!(poison.should_apply_effect_tick_this_tick(-50, 0));
    assert_eq!(poison.apply_effect_tick(true), (EffectAction::Hurt { kind: DamageKind::Magic, amount: 1 }, true));
    assert_eq!(poison.apply_effect_tick(false), (EffectAction::Nothing, true));
}

#[test]
fn wither_and_regeneration_intervals() {
    assert!(WitherBehavior.should_apply_effect_tick_this_tick(40, 0));
    assert!(WitherBehavior.should_apply_effect_tick_this_tick(20, 1));
    assert!(!WitherBehavior.should_apply_effect_tick_this_tick(30, 1));
    assert_eq!(WitherBehavior.apply_effect_tick(), (EffectAction::Hurt { kind: DamageKind::Wither, amount: 1 }, true));
    assert!(RegenerationBehavior.should_apply_effect_tick_this_tick(50, 0));
    assert!(RegenerationBehavior.should_apply_effect_tick_this_tick(25, 1));
    assert!(!RegenerationBehavior.should_apply_effect_tick_this_tick(49, 0));
    assert_eq!(RegenerationBehavior.apply_effect_tick(true), (EffectAction::Heal { amount: 1 }, true));
    assert_eq!(RegenerationBehavior.apply_effect_tick(false), (EffectAction::Nothing, true));
}

#[test]
fn instant_health_and_damage_amounts() {
    let health = HealOrHarmBehavior { is_harm: false };
    let damage = HealOrHarmBehavior { is_harm: true };
    assert_eq!(health.apply_effect_tick(false, 0).0, EffectAction::Heal { amount: 4 });
    assert_eq!(health.apply_effect_tick(false, 1).0, EffectAction::Heal { amount: 8 });
    assert_eq!(health.apply_effect_tick(false, 29).0, EffectAction::Heal { amount: 0 });
    assert_eq!(health.apply_effect_tick(true, 0).0, EffectAction::Hurt { kind: DamageKind::Magic, amount: 6 });
    assert_eq!(damage.apply_effect_tick(false, 2).0, EffectAction::Hurt { kind: DamageKind::Magic, amount: 24 });
    assert_eq!(damage.apply_effect_tick(true, 0).0, EffectAction::Heal { amount: 4 });
    assert_eq!(
        damage.apply_instantaneous(false, 0, true),
        EffectAction::Hurt { kind: DamageKind::IndirectMagic, amount: 6 }
    );
    assert_eq!(health.apply_instantaneous(false, 29, false), EffectAction::Heal { amount: 4i32.wrapping_shl(29) });
    assert!(health.should_apply_effect_tick_this_tick(1, 0));
    assert!(!health.should_apply_effect_tick_this_tick(0, 0));
}

#[test]
fn simple_effects() {
    assert!(AbsorptionBehavior.should_apply_effect_tick_this_tick(3, 0));
    assert_eq!(AbsorptionBehavior.apply_effect_tick(false), (EffectAction::Nothing, false));
    assert_eq!(AbsorptionBehavior.on_effect_started(1), EffectAction::RaiseAbsorption { amount: 8 });
    assert_eq!(BadOmenBehavior.apply_effect_tick(), (EffectAction::Nothing, true));
    assert!(RaidOmenBehavior.should_apply_effect_tick_this_tick(1, 0));
    assert!(!RaidOmenBehavior.should_apply_effect_tick_this_tick(2, 0));
    assert!(!WindChargedBehavior.should_apply_effect_tick_this_tick(1, 0));
    assert_eq!(HungerBehavior.apply_effect_tick(true, 2), (EffectAction::Exhaust { levels: 3 }, true));
    assert_eq!(HungerBehavior.apply_effect_tick(false, 2), (EffectAction::Nothing, true));
}

fn ids() -> MobEffectIds {
    MobEffectIds {
        instant_health: 5,
        instant_damage: 6,
        saturation: 22,
        wither: 19,
        poison: 18,
        regeneration: 9,
        hunger: 16,
        absorption: 21,
        bad_omen: 30,
        raid_omen: 34,
        oozing: 37,
        weaving: 36,
        wind_charged: 35,
        infested: 38,
    }
}

#[test]
fn behavior_registries_are_initialised_once() {
    let mut consume = ConsumeEffectBehaviorLock::new();
    let mut mob = MobEffectBehaviorLock::new();
    init_behaviors(&mut consume, &mut mob, 6, 39, ids());
    let registry = consume.get();
    assert_eq!(registry.get_behavior(PLAY_SOUND), ConsumeEffectKind::PlaySound);
    assert_eq!(registry.get_behavior(CLEAR_ALL_EFFECTS), ConsumeEffectKind::ClearAllEffects);
    assert_eq!(registry.get_behavior(5), ConsumeEffectKind::Noop);
    assert_eq!(mob.get().get_behavior(6), MobEffectKind::HealOrHarm { is_harm: true });
    assert_eq!(mob.get().get_behavior(18), MobEffectKind::Poison);
    assert_eq!(mob.get().get_behavior(0), MobEffectKind::Default);

    let mut custom = ConsumeEffectBehaviorRegistry::new(6);
    custom.set_behavior(5, ConsumeEffectKind::PlaySound);
    let mut other = ConsumeEffectBehaviorLock(Some(custom));
    let mut custom_mob = MobEffectBehaviorRegistry::new(39);
    custom_mob.set_behavior(0, MobEffectKind::Wither);
    let mut other_mob = MobEffectBehaviorLock(Some(custom_mob));
    init_behaviors(&mut other, &mut other_mob, 6, 39, ids());
    assert_eq!(other.get().get_behavior(5), ConsumeEffectKind::PlaySound);
    assert_eq!(other.get().get_behavior(PLAY_SOUND), ConsumeEffectKind::Noop);
    assert_eq!(other_mob.get().get_behavior(0), MobEffectKind::Wither);
    assert_eq!(other_mob.get().get_behavior(18), MobEffectKind::Default);
}

#[test]
fn effects_to_remove() {
    assert_eq!(ClearAllEffectsBehavior.effects_to_remove(&[3, 1, 4]), vec![3, 1, 4]);
    assert_eq!(RemoveEffectsBehavior.effects_to_remove(&[4, 9], &[3, 4, 1, 9]), vec![4, 9]);
    assert!(RemoveEffectsBehavior.effects_to_remove(&[], &[3]).is_empty());
}

#[test]
fn teleport_gives_up_after_sixteen_attempts() {
    let teleport = TeleportRandomlyBehavior;
    assert_eq!(teleport.after_attempt(1, false), TeleportStep::TryAgain);
    assert_eq!(teleport.after_attempt(3, true), TeleportStep::Landed);
    assert_eq!(teleport.after_attempt(TELEPORT_ATTEMPTS, false), TeleportStep::GiveUp);
}

#[test]
fn behavior_registries_answer_the_latest_behavior_set() {
    let mut consume = ConsumeEffectBehaviorRegistry::new(4);
    consume.set_behavior(1, ConsumeEffectKind::PlaySound);
    consume.set_behavior(2, ConsumeEffectKind::ApplyEffects);
    consume.set_behavior(1, ConsumeEffectKind::TeleportRandomly);
    assert_eq!(consume.get_behavior(1), ConsumeEffectKind::TeleportRandomly);
    assert_eq!(consume.get_behavior(2), ConsumeEffectKind::ApplyEffects);
    assert_eq!(consume.get_behavior(0), ConsumeEffectKind::Noop);

    let mut mob = MobEffectBehaviorRegistry::new(3);
    mob.set_behavior(0, MobEffectKind::Poison);
    mob.set_behavior(0, MobEffectKind::Wither);
    assert_eq!(mob.get_behavior(0), MobEffectKind::Wither);
    assert_eq!(mob.get_behavior(2), MobEffectKind::Default);
}
