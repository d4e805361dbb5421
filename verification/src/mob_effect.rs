//! Mob-effect behaviors: when an effect acts on its target, and what it does.
//!
//! What an effect does to its target comes back as an [`EffectAction`];
//! reading the target's health and absorption, and scaling by floating-point
//! factors, is left to the caller, which hands in the comparisons that the
//! effects depend on.

use vstd::prelude::*;

verus! {

/// Ticks between two poison hits at amplifier 0.
pub const POISON_DAMAGE_INTERVAL: i32 = 25;
/// Ticks between two wither hits at amplifier 0.
pub const WITHER_DAMAGE_INTERVAL: i32 = 40;
/// Ticks between two regeneration heals at amplifier 0.
pub const REGENERATION_HEAL_INTERVAL: i32 = 50;
/// Instant Health heal at amplifier 0, doubled for each amplifier level.
pub const BASE_HEAL_AMOUNT: i32 = 4;
/// Instant Damage damage at amplifier 0, doubled for each amplifier level.
pub const BASE_HARM_AMOUNT: i32 = 6;
/// Absorption points granted per amplifier level.
pub const ABSORPTION_PER_LEVEL: i64 = 4;

/// The source of damage an effect deals.
#[derive(Clone, Copy, PartialEq, Eq, Structural, Debug)]
pub enum DamageKind {
    Magic,
    IndirectMagic,
    Wither,
}

/// What an effect does to its target.
#[derive(Clone, Copy, PartialEq, Eq, Structural, Debug)]
pub enum EffectAction {
    /// Nothing.
    Nothing,
    /// Heals by `amount` health points.
    Heal { amount: i32 },
    /// Hurts by `amount` health points.
    Hurt { kind: DamageKind, amount: i32 },
    /// Causes food exhaustion of `levels` times the per-level exhaustion.
    Exhaust { levels: i32 },
    /// Raises the absorption amount to at least `amount`.
    RaiseAbsorption { amount: i64 },
}

/// The shift amount that `wrapping_shl` and `wrapping_shr` use for `amplifier`.
pub open spec fn shift_of(amplifier: i32) -> u32 {
    ((amplifier as u32) % 32) as u32
}

/// The ticks between two applications: `base` halved once per amplifier level.
pub open spec fn interval_of(base: i32, amplifier: i32) -> i32 {
    base >> shift_of(amplifier)
}

/// An interval-driven effect acts on ticks that are multiples of its
/// interval, and on every tick once the interval has shrunk to zero.
pub open spec fn acts_on_interval(base: i32, tick_count: i32, amplifier: i32) -> bool {
    interval_of(base, amplifier) <= 0 || tick_count % interval_of(base, amplifier) == 0
}

fn wrapping_shift(amplifier: i32) -> (r: u32)
    ensures
        r == shift_of(amplifier),
        r < 32,
{
    (amplifier as u32) % 32
}

fn acts_on_interval_exec(base: i32, tick_count: i32, amplifier: i32) -> (r: bool)
    requires
        base >= 0,
    ensures
        r == acts_on_interval(base, tick_count, amplifier),
{
    let interval = base >> wrapping_shift(amplifier);
    if interval <= 0 {
        true
    } else {
        let t = tick_count as i64;
        let magnitude: i64 = if t < 0 { -t } else { t };
        let r = magnitude % (interval as i64) == 0;
        proof {
            lemma_divisible_up_to_sign(tick_count as int, interval as int);
        }
        r
    }
}

/// A number is a multiple of `d` exactly when its magnitude is.
proof fn lemma_divisible_up_to_sign(t: int, d: int)
    requires
        d > 0,
    ensures
        (t % d == 0) == ((if t < 0 { -t } else { t }) % d == 0),
{
    if t < 0 {
        if t % d == 0 {
            let q = t / d;
            assert(t == d * q) by (nonlinear_arith) requires d > 0, t % d == 0, q == t / d;
            assert(-t == d * (-q)) by (nonlinear_arith) requires t == d * q;
            vstd::arithmetic::div_mod::lemma_mod_multiples_basic(-q, d);
            assert((-q) * d == d * (-q)) by (nonlinear_arith);
        }
        if (-t) % d == 0 {
            let q = (-t) / d;
            assert(-t == d * q) by (nonlinear_arith) requires d > 0, (-t) % d == 0, q == (-t) / d;
            vstd::arithmetic::div_mod::lemma_mod_multiples_basic(-q, d);
            assert((-q) * d == t) by (nonlinear_arith) requires -t == d * q;
        }
    }
}

/// Absorption: holds while absorption points remain.
pub struct AbsorptionBehavior;

impl AbsorptionBehavior {
    pub fn should_apply_effect_tick_this_tick(&self, tick_count: i32, amplifier: i32) -> (r: bool)
        ensures
            r,
    {
        true
    }

    /// Stays active while the target has absorption points left.
    pub fn apply_effect_tick(&self, has_absorption: bool) -> (r: (EffectAction, bool))
        ensures
            r == (EffectAction::Nothing, has_absorption),
    {
        (EffectAction::Nothing, has_absorption)
    }

    /// Grants `4 * (1 + amplifier)` absorption points, never lowering a
    /// higher amount.
    pub fn on_effect_started(&self, amplifier: i32) -> (r: EffectAction)
        requires
            amplifier < i32::MAX,
        ensures
            r == (EffectAction::RaiseAbsorption { amount: (ABSORPTION_PER_LEVEL * (1 + amplifier)) as i64 }),
    {
        EffectAction::RaiseAbsorption { amount: ABSORPTION_PER_LEVEL * (1 + amplifier as i64) }
    }
}

/// Bad Omen: acts every tick and stays active.
pub struct BadOmenBehavior;

impl BadOmenBehavior {
    pub fn should_apply_effect_tick_this_tick(&self, tick_count: i32, amplifier: i32) -> (r: bool)
        ensures
            r,
    {
        true
    }

    pub fn apply_effect_tick(&self) -> (r: (EffectAction, bool))
        ensures
            r == (EffectAction::Nothing, true),
    {
        (EffectAction::Nothing, true)
    }
}

/// The heal of Instant Health at `amplifier` on one tick: `4 << amplifier`,
/// never below zero.
pub open spec fn heal_amount(amplifier: i32) -> i32 {
    let v = BASE_HEAL_AMOUNT << shift_of(amplifier);
    if v < 0 { 0 } else { v }
}

/// The damage of Instant Damage at `amplifier`: `6 << amplifier`.
pub open spec fn harm_amount(amplifier: i32) -> i32 {
    BASE_HARM_AMOUNT << shift_of(amplifier)
}

/// Instant Health (`is_harm` false) or Instant Damage (`is_harm` true);
/// targets that invert healing and harming get the other one.
pub struct HealOrHarmBehavior {
    pub is_harm: bool,
}

impl HealOrHarmBehavior {
    /// This effect acts all at once.
    pub fn is_instantaneous(&self) -> (r: bool)
        ensures
            r,
    {
        true
    }

    /// Acts from the first tick on.
    pub fn should_apply_effect_tick_this_tick(&self, tick_count: i32, amplifier: i32) -> (r: bool)
        ensures
            r == (tick_count >= 1),
    {
        self.is_instantaneous() && tick_count >= 1
    }

    /// Heals `heal_amount(amplifier)` when the effect heals the target,
    /// else hurts it by `harm_amount(amplifier)` as magic damage.
    pub fn apply_effect_tick(&self, inverted_heal_and_harm: bool, amplifier: i32) -> (r: (EffectAction, bool))
        ensures
            r.1,
            self.is_harm == inverted_heal_and_harm ==> r.0 == (EffectAction::Heal { amount: heal_amount(amplifier) }),
            self.is_harm != inverted_heal_and_harm ==> r.0 == (EffectAction::Hurt { kind: DamageKind::Magic, amount: harm_amount(amplifier) }),
    {
        let shift = wrapping_shift(amplifier);
        if self.is_harm == inverted_heal_and_harm {
            let v = BASE_HEAL_AMOUNT << shift;
            let amount = if v < 0 { 0 } else { v };
            (EffectAction::Heal { amount }, true)
        } else {
            (EffectAction::Hurt { kind: DamageKind::Magic, amount: BASE_HARM_AMOUNT << shift }, true)
        }
    }

    /// The instant effect of drinking it, before scaling by the potion's
    /// strength: `4 << amplifier` healed (not clamped) when it heals the
    /// target, else `6 << amplifier` damage, indirect magic when a direct
    /// entity caused it.
    pub fn apply_instantaneous(&self, inverted_heal_and_harm: bool, amplifier: i32, has_direct_entity: bool) -> (r: EffectAction)
        ensures
            self.is_harm == inverted_heal_and_harm ==> r == (EffectAction::Heal { amount: BASE_HEAL_AMOUNT << shift_of(amplifier) }),
            self.is_harm != inverted_heal_and_harm ==> r == (EffectAction::Hurt {
                kind: if has_direct_entity { DamageKind::IndirectMagic } else { DamageKind::Magic },
                amount: harm_amount(amplifier),
            }),
    {
        let shift = wrapping_shift(amplifier);
        if self.is_harm == inverted_heal_and_harm {
            EffectAction::Heal { amount: BASE_HEAL_AMOUNT << shift }
        } else {
            let kind = if has_direct_entity { DamageKind::IndirectMagic } else { DamageKind::Magic };
            EffectAction::Hurt { kind, amount: BASE_HARM_AMOUNT << shift }
        }
    }
}

/// Hunger: players get hungrier every tick.
pub struct HungerBehavior;

impl HungerBehavior {
    pub fn should_apply_effect_tick_this_tick(&self, tick_count: i32, amplifier: i32) -> (r: bool)
        ensures
            r,
    {
        true
    }

    /// A player is exhausted by `amplifier + 1` levels; other targets are untouched.
    pub fn apply_effect_tick(&self, is_player: bool, amplifier: i32) -> (r: (EffectAction, bool))
        requires
            amplifier < i32::MAX,
        ensures
            r.1,
            is_player ==> r.0 == (EffectAction::Exhaust { levels: (amplifier + 1) as i32 }),
            !is_player ==> r.0 == EffectAction::Nothing,
    {
        if is_player {
            (EffectAction::Exhaust { levels: amplifier + 1 }, true)
        } else {
            (EffectAction::Nothing, true)
        }
    }
}

/// Poison: one point of magic damage per interval, never below one health.
pub struct PoisonBehavior;

impl PoisonBehavior {
    pub fn should_apply_effect_tick_this_tick(&self, tick_count: i32, amplifier: i32) -> (r: bool)
        ensures
            r == acts_on_interval(POISON_DAMAGE_INTERVAL, tick_count, amplifier),
    {
        acts_on_interval_exec(POISON_DAMAGE_INTERVAL, tick_count, amplifier)
    }

    /// Hurts by one point while the target has more than one health point.
    pub fn apply_effect_tick(&self, health_above_one: bool) -> (r: (EffectAction, bool))
        ensures
            r.1,
            health_above_one ==> r.0 == (EffectAction::Hurt { kind: DamageKind::Magic, amount: 1 }),
            !health_above_one ==> r.0 == EffectAction::Nothing,
    {
        if health_above_one {
            (EffectAction::Hurt { kind: DamageKind::Magic, amount: 1 }, true)
        } else {
            (EffectAction::Nothing, true)
        }
    }
}

/// Raid Omen: acts once, on the first tick.
pub struct RaidOmenBehavior;

impl RaidOmenBehavior {
    pub fn should_apply_effect_tick_this_tick(&self, tick_count: i32, amplifier: i32) -> (r: bool)
        ensures
            r == (tick_count == 1),
    {
        tick_count == 1
    }

    pub fn apply_effect_tick(&self) -> (r: (EffectAction, bool))
        ensures
            r == (EffectAction::Nothing, true),
    {
        (EffectAction::Nothing, true)
    }
}

/// Regeneration: one health point per interval while below maximum health.
pub struct RegenerationBehavior;

impl RegenerationBehavior {
    pub fn should_apply_effect_tick_this_tick(&self, tick_count: i32, amplifier: i32) -> (r: bool)
        ensures
            r == acts_on_interval(REGENERATION_HEAL_INTERVAL, tick_count, amplifier),
    {
        acts_on_interval_exec(REGENERATION_HEAL_INTERVAL, tick_count, amplifier)
    }

    pub fn apply_effect_tick(&self, below_max_health: bool) -> (r: (EffectAction, bool))
        ensures
            r.1,
            below_max_health ==> r.0 == (EffectAction::Heal { amount: 1 }),
            !below_max_health ==> r.0 == EffectAction::Nothing,
    {
        if below_max_health {
            (EffectAction::Heal { amount: 1 }, true)
        } else {
            (EffectAction::Nothing, true)
        }
    }
}

/// Wind Charged: keeps the defaults of an effect that is not instantaneous.
pub struct WindChargedBehavior;

impl WindChargedBehavior {
    /// Never acts on a tick.
    pub fn should_apply_effect_tick_this_tick(&self, tick_count: i32, amplifier: i32) -> (r: bool)
        ensures
            !r,
    {
        false
    }

    pub fn apply_effect_tick(&self) -> (r: (EffectAction, bool))
        ensures
            r == (EffectAction::Nothing, true),
    {
        (EffectAction::Nothing, true)
    }
}

/// Wither: one point of wither damage per interval.
pub struct WitherBehavior;

impl WitherBehavior {
    pub fn should_apply_effect_tick_this_tick(&self, tick_count: i32, amplifier: i32) -> (r: bool)
        ensures
            r == acts_on_interval(WITHER_DAMAGE_INTERVAL, tick_count, amplifier),
    {
        acts_on_interval_exec(WITHER_DAMAGE_INTERVAL, tick_count, amplifier)
    }

    pub fn apply_effect_tick(&self) -> (r: (EffectAction, bool))
        ensures
            r == (EffectAction::Hurt { kind: DamageKind::Wither, amount: 1 }, true),
    {
        (EffectAction::Hurt { kind: DamageKind::Wither, amount: 1 }, true)
    }
}

/// The behavior assigned to a mob effect.
#[derive(Clone, Copy, PartialEq, Eq, Structural, Debug)]
pub enum MobEffectKind {
    /// The base behavior of an effect with none of its own.
    Default,
    HealOrHarm { is_harm: bool },
    Saturation,
    Wither,
    Poison,
    Regeneration,
    Hunger,
    Absorption,
    BadOmen,
    RaidOmen,
    Oozing,
    Weaving,
    WindCharged,
    Infested,
}

/// The behavior assigned to each mob effect, by registry id.
pub struct MobEffectBehaviorRegistry {
    behaviors: Vec<MobEffectKind>,
}

impl MobEffectBehaviorRegistry {
    /// The behaviors, indexed by mob effect id.
    pub closed spec fn view(&self) -> Seq<MobEffectKind> {
        self.behaviors@
    }

    /// A registry for `count` mob effects, each with the base behavior.
    pub fn new(count: usize) -> (r: MobEffectBehaviorRegistry)
        ensures
            r.view() == Seq::new(count as nat, |i: int| MobEffectKind::Default),
    {
        let mut behaviors: Vec<MobEffectKind> = Vec::new();
        let mut i: usize = 0;
        while i < count
            invariant
                i <= count,
                behaviors@ == Seq::new(i as nat, |k: int| MobEffectKind::Default),
            decreases count - i,
        {
            behaviors.push(MobEffectKind::Default);
            i += 1;
            assert(behaviors@ =~= Seq::new(i as nat, |k: int| MobEffectKind::Default));
        }
        MobEffectBehaviorRegistry { behaviors }
    }

    /// Assigns `behavior` to the mob effect with id `effect`.
    pub fn set_behavior(&mut self, effect: usize, behavior: MobEffectKind)
        requires
            effect < old(self).view().len(),
        ensures
            final(self).view() == old(self).view().update(effect as int, behavior),
    {
        self.behaviors.set(effect, behavior);
    }

    /// The behavior of the mob effect with id `effect`.
    pub fn get_behavior(&self, effect: usize) -> (r: MobEffectKind)
        requires
            effect < self.view().len(),
        ensures
            r == self.view()[effect as int],
    {
        self.behaviors[effect]
    }
}

/// A registry made by `new(count)` and then given `set_behavior(id, b)` for
/// each `(id, b)` of `sets`, in order, gives for every id below `count` the
/// behavior most recently set for it, or the base behavior when none was.
pub proof fn lemma_mob_behavior_is_latest_set(count: nat, sets: Seq<(int, MobEffectKind)>, id: int)
    requires
        forall|k: int| 0 <= k < sets.len() ==> 0 <= (#[trigger] sets[k]).0 < count,
        0 <= id < count,
    ensures
        crate::util::apply_updates(Seq::new(count, |i: int| MobEffectKind::Default), sets)[id]
            == crate::util::latest_update(sets, id, MobEffectKind::Default),
{
    crate::util::lemma_latest_update(count, MobEffectKind::Default, sets, id);
}

/// The mob-effect behavior registry, set once.
pub struct MobEffectBehaviorLock(pub Option<MobEffectBehaviorRegistry>);

impl MobEffectBehaviorLock {
    /// A lock not yet set.
    pub fn new() -> (r: MobEffectBehaviorLock)
        ensures
            r.0 is None,
    {
        MobEffectBehaviorLock(None)
    }

    /// The registry; it must have been set.
    pub fn get(&self) -> (r: &MobEffectBehaviorRegistry)
        requires
            self.0 is Some,
        ensures
            self.0 == Some(*r),
    {
        match &self.0 {
            Some(registry) => registry,
            None => vstd::pervasive::unreached(),
        }
    }
}

} // verus!
