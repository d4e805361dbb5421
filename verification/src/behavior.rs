//! Setting up the behavior registries once the main registry is frozen.

use vstd::prelude::*;

use crate::consume_effect::{
    ConsumeEffectBehaviorLock, ConsumeEffectBehaviorRegistry, ConsumeEffectKind, APPLY_EFFECTS, CLEAR_ALL_EFFECTS,
    PLAY_SOUND, REMOVE_EFFECTS, TELEPORT_RANDOMLY, VANILLA_CONSUME_EFFECT_TYPES,
};
use crate::mob_effect::{MobEffectBehaviorLock, MobEffectBehaviorRegistry, MobEffectKind};

verus! {

/// The registry ids of the mob effects that have behaviors of their own.
#[derive(Clone, Copy, Debug)]
pub struct MobEffectIds {
    pub instant_health: usize,
    pub instant_damage: usize,
    pub saturation: usize,
    pub wither: usize,
    pub poison: usize,
    pub regeneration: usize,
    pub hunger: usize,
    pub absorption: usize,
    pub bad_omen: usize,
    pub raid_omen: usize,
    pub oozing: usize,
    pub weaving: usize,
    pub wind_charged: usize,
    pub infested: usize,
}

impl MobEffectIds {
    /// Every id names one of `count` registered mob effects.
    pub open spec fn all_below(self, count: nat) -> bool {
        &&& self.instant_health < count
        &&& self.instant_damage < count
        &&& self.saturation < count
        &&& self.wither < count
        &&& self.poison < count
        &&& self.regeneration < count
        &&& self.hunger < count
        &&& self.absorption < count
        &&& self.bad_omen < count
        &&& self.raid_omen < count
        &&& self.oozing < count
        &&& self.weaving < count
        &&& self.wind_charged < count
        &&& self.infested < count
    }
}

/// The behaviors the base game assigns to the consume-effect types: one per
/// built-in type, nothing for the others.
pub open spec fn vanilla_consume_behaviors(count: nat) -> Seq<ConsumeEffectKind> {
    Seq::new(count, |i: int| ConsumeEffectKind::Noop)
        .update(APPLY_EFFECTS as int, ConsumeEffectKind::ApplyEffects)
        .update(REMOVE_EFFECTS as int, ConsumeEffectKind::RemoveEffects)
        .update(CLEAR_ALL_EFFECTS as int, ConsumeEffectKind::ClearAllEffects)
        .update(PLAY_SOUND as int, ConsumeEffectKind::PlaySound)
        .update(TELEPORT_RANDOMLY as int, ConsumeEffectKind::TeleportRandomly)
}

/// The behaviors the base game assigns to the mob effects, assigned in
/// this order; every other effect keeps the base behavior.
pub open spec fn vanilla_mob_behaviors(count: nat, ids: MobEffectIds) -> Seq<MobEffectKind> {
    Seq::new(count, |i: int| MobEffectKind::Default)
        .update(ids.instant_health as int, MobEffectKind::HealOrHarm { is_harm: false })
        .update(ids.instant_damage as int, MobEffectKind::HealOrHarm { is_harm: true })
        .update(ids.saturation as int, MobEffectKind::Saturation)
        .update(ids.wither as int, MobEffectKind::Wither)
        .update(ids.poison as int, MobEffectKind::Poison)
        .update(ids.regeneration as int, MobEffectKind::Regeneration)
        .update(ids.hunger as int, MobEffectKind::Hunger)
        .update(ids.absorption as int, MobEffectKind::Absorption)
        .update(ids.bad_omen as int, MobEffectKind::BadOmen)
        .update(ids.raid_omen as int, MobEffectKind::RaidOmen)
        .update(ids.oozing as int, MobEffectKind::Oozing)
        .update(ids.weaving as int, MobEffectKind::Weaving)
        .update(ids.wind_charged as int, MobEffectKind::WindCharged)
        .update(ids.infested as int, MobEffectKind::Infested)
}

/// Sets the consume-effect and mob-effect behaviors, each registry unless
/// it was set before: a repeated call changes nothing.
pub fn init_behaviors(
    consume_effects: &mut ConsumeEffectBehaviorLock,
    mob_effects: &mut MobEffectBehaviorLock,
    consume_effect_count: usize,
    mob_effect_count: usize,
    ids: MobEffectIds,
)
    requires
        consume_effect_count >= VANILLA_CONSUME_EFFECT_TYPES,
        ids.all_below(mob_effect_count as nat),
    ensures
        old(consume_effects).0 is Some ==> *final(consume_effects) == *old(consume_effects),
        old(consume_effects).0 is None ==> (final(consume_effects).0 matches Some(r)
            && r.view() == vanilla_consume_behaviors(consume_effect_count as nat)),
        old(mob_effects).0 is Some ==> *final(mob_effects) == *old(mob_effects),
        old(mob_effects).0 is None ==> (final(mob_effects).0 matches Some(r)
            && r.view() == vanilla_mob_behaviors(mob_effect_count as nat, ids)),
{
    if consume_effects.0.is_none() {
        let mut registry = ConsumeEffectBehaviorRegistry::new(consume_effect_count);
        registry.set_behavior(APPLY_EFFECTS, ConsumeEffectKind::ApplyEffects);
        registry.set_behavior(REMOVE_EFFECTS, ConsumeEffectKind::RemoveEffects);
        registry.set_behavior(CLEAR_ALL_EFFECTS, ConsumeEffectKind::ClearAllEffects);
        registry.set_behavior(PLAY_SOUND, ConsumeEffectKind::PlaySound);
        registry.set_behavior(TELEPORT_RANDOMLY, ConsumeEffectKind::TeleportRandomly);
        consume_effects.0 = Some(registry);
    }
    if mob_effects.0.is_none() {
        let mut registry = MobEffectBehaviorRegistry::new(mob_effect_count);
        registry.set_behavior(ids.instant_health, MobEffectKind::HealOrHarm { is_harm: false });
        registry.set_behavior(ids.instant_damage, MobEffectKind::HealOrHarm { is_harm: true });
        registry.set_behavior(ids.saturation, MobEffectKind::Saturation);
        registry.set_behavior(ids.wither, MobEffectKind::Wither);
        registry.set_behavior(ids.poison, MobEffectKind::Poison);
        registry.set_behavior(ids.regeneration, MobEffectKind::Regeneration);
        registry.set_behavior(ids.hunger, MobEffectKind::Hunger);
        registry.set_behavior(ids.absorption, MobEffectKind::Absorption);
        registry.set_behavior(ids.bad_omen, MobEffectKind::BadOmen);
        registry.set_behavior(ids.raid_omen, MobEffectKind::RaidOmen);
        registry.set_behavior(ids.oozing, MobEffectKind::Oozing);
        registry.set_behavior(ids.weaving, MobEffectKind::Weaving);
        registry.set_behavior(ids.wind_charged, MobEffectKind::WindCharged);
        registry.set_behavior(ids.infested, MobEffectKind::Infested);
        mob_effects.0 = Some(registry);
    }
}

} // verus!
