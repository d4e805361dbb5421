//! Consume-effect behaviors (what eating or drinking an item does) and the
//! registry that assigns one to each consume-effect type.

use vstd::prelude::*;

use crate::block_pos::BlockPos;

verus! {

/// A mob effect, by its registry id.
pub type MobEffectId = u32;

/// Registry id of the `apply_effects` consume-effect type.
pub const APPLY_EFFECTS: usize = 0;
/// Registry id of the `remove_effects` consume-effect type.
pub const REMOVE_EFFECTS: usize = 1;
/// Registry id of the `clear_all_effects` consume-effect type.
pub const CLEAR_ALL_EFFECTS: usize = 2;
/// Registry id of the `teleport_randomly` consume-effect type.
pub const TELEPORT_RANDOMLY: usize = 3;
/// Registry id of the `play_sound` consume-effect type.
pub const PLAY_SOUND: usize = 4;
/// Number of consume-effect types registered by the base game.
pub const VANILLA_CONSUME_EFFECT_TYPES: usize = 5;

/// The behavior assigned to a consume-effect type.
#[derive(Clone, Copy, PartialEq, Eq, Structural, Debug)]
pub enum ConsumeEffectKind {
    /// Does nothing: the default for a type without a behavior.
    Noop,
    ApplyEffects,
    RemoveEffects,
    ClearAllEffects,
    PlaySound,
    TeleportRandomly,
}

/// Removes every active effect.
pub struct ClearAllEffectsBehavior;

impl ClearAllEffectsBehavior {
    /// The effects to remove: all of the active ones, in order.
    pub fn effects_to_remove(&self, active: &[MobEffectId]) -> (r: Vec<MobEffectId>)
        ensures
            r@ == active@,
    {
        let mut r: Vec<MobEffectId> = Vec::new();
        let mut i: usize = 0;
        while i < active.len()
            invariant
                i <= active@.len(),
                r@ == active@.take(i as int),
            decreases active@.len() - i,
        {
            r.push(active[i]);
            i += 1;
            assert(r@ =~= active@.take(i as int));
        }
        assert(active@.take(active@.len() as int) =~= active@);
        r
    }
}

/// The active effects, in order, that are listed in `listed`.
pub open spec fn listed_effects(active: Seq<MobEffectId>, listed: Seq<MobEffectId>) -> Seq<MobEffectId>
    decreases active.len(),
{
    if active.len() == 0 {
        active
    } else {
        let rest = listed_effects(active.drop_last(), listed);
        if listed.contains(active.last()) {
            rest.push(active.last())
        } else {
            rest
        }
    }
}

/// Removes the active effects that the consumed item lists.
pub struct RemoveEffectsBehavior;

impl RemoveEffectsBehavior {
    /// The effects to remove: the active ones that `listed` contains, in order.
    pub fn effects_to_remove(&self, listed: &[MobEffectId], active: &[MobEffectId]) -> (r: Vec<MobEffectId>)
        ensures
            r@ == listed_effects(active@, listed@),
    {
        let mut r: Vec<MobEffectId> = Vec::new();
        let mut i: usize = 0;
        while i < active.len()
            invariant
                i <= active@.len(),
                r@ == listed_effects(active@.take(i as int), listed@),
            decreases active@.len() - i,
        {
            proof {
                assert(active@.take(i + 1).drop_last() =~= active@.take(i as int));
            }
            if contains_effect(listed, active[i]) {
                r.push(active[i]);
            }
            i += 1;
        }
        assert(active@.take(active@.len() as int) =~= active@);
        r
    }
}

fn contains_effect(listed: &[MobEffectId], effect: MobEffectId) -> (r: bool)
    ensures
        r == listed@.contains(effect),
{
    let mut i: usize = 0;
    while i < listed.len()
        invariant
            i <= listed@.len(),
            forall|k: int| 0 <= k < i ==> listed@[k] != effect,
        decreases listed@.len() - i,
    {
        if listed[i] == effect {
            return true;
        }
        i += 1;
    }
    false
}

/// Plays the consumed item's sound at the centre of the consumer's block.
pub struct PlaySoundBehavior;

impl PlaySoundBehavior {
    /// The block at whose centre the sound plays: the consumer's own.
    pub fn sound_block(&self, user_block: BlockPos) -> (r: BlockPos)
        ensures
            r == user_block,
    {
        user_block
    }
}

/// Random nearby positions tried before giving up.
pub const TELEPORT_ATTEMPTS: u32 = 16;

/// What the teleport does after an attempt.
#[derive(Clone, Copy, PartialEq, Eq, Structural, Debug)]
pub enum TeleportStep {
    /// Try another random position.
    TryAgain,
    /// The consumer landed: signal the teleport, play its sound and reset
    /// the fall distance.
    Landed,
    /// Every attempt failed; the consumer stays where it was.
    GiveUp,
}

/// Teleports the consumer to a random nearby position.
pub struct TeleportRandomlyBehavior;

impl TeleportRandomlyBehavior {
    /// After `attempts` attempts (this one included), of which the last
    /// `landed` or not: stop at the first landing, and after sixteen.
    pub fn after_attempt(&self, attempts: u32, landed: bool) -> (r: TeleportStep)
        requires
            1 <= attempts <= TELEPORT_ATTEMPTS,
        ensures
            landed ==> r == TeleportStep::Landed,
            !landed && attempts < TELEPORT_ATTEMPTS ==> r == TeleportStep::TryAgain,
            !landed && attempts == TELEPORT_ATTEMPTS ==> r == TeleportStep::GiveUp,
    {
        if landed {
            TeleportStep::Landed
        } else if attempts < TELEPORT_ATTEMPTS {
            TeleportStep::TryAgain
        } else {
            TeleportStep::GiveUp
        }
    }
}

/// The behavior assigned to each consume-effect type, by registry id.
pub struct ConsumeEffectBehaviorRegistry {
    behaviors: Vec<ConsumeEffectKind>,
}

impl ConsumeEffectBehaviorRegistry {
    /// The behaviors, indexed by consume-effect type id.
    pub closed spec fn view(&self) -> Seq<ConsumeEffectKind> {
        self.behaviors@
    }

    /// A registry for `count` consume-effect types, each doing nothing.
    pub fn new(count: usize) -> (r: ConsumeEffectBehaviorRegistry)
        ensures
            r.view() == Seq::new(count as nat, |i: int| ConsumeEffectKind::Noop),
    {
        let mut behaviors: Vec<ConsumeEffectKind> = Vec::new();
        let mut i: usize = 0;
        while i < count
            invariant
                i <= count,
                behaviors@ == Seq::new(i as nat, |k: int| ConsumeEffectKind::Noop),
            decreases count - i,
        {
            behaviors.push(ConsumeEffectKind::Noop);
            i += 1;
            assert(behaviors@ =~= Seq::new(i as nat, |k: int| ConsumeEffectKind::Noop));
        }
        ConsumeEffectBehaviorRegistry { behaviors }
    }

    /// Assigns `behavior` to the type with id `effect_type`.
    pub fn set_behavior(&mut self, effect_type: usize, behavior: ConsumeEffectKind)
        requires
            effect_type < old(self).view().len(),
        ensures
            final(self).view() == old(self).view().update(effect_type as int, behavior),
    {
        self.behaviors.set(effect_type, behavior);
    }

    /// The behavior of the type with id `effect_type`.
    pub fn get_behavior(&self, effect_type: usize) -> (r: ConsumeEffectKind)
        requires
            effect_type < self.view().len(),
        ensures
            r == self.view()[effect_type as int],
    {
        self.behaviors[effect_type]
    }
}

/// A registry made by `new(count)` and then given `set_behavior(id, b)` for
/// each `(id, b)` of `sets`, in order, gives for every id below `count` the
/// behavior most recently set for it, or the no-op when none was.
pub proof fn lemma_consume_behavior_is_latest_set(count: nat, sets: Seq<(int, ConsumeEffectKind)>, id: int)
    requires
        forall|k: int| 0 <= k < sets.len() ==> 0 <= (#[trigger] sets[k]).0 < count,
        0 <= id < count,
    ensures
        crate::util::apply_updates(Seq::new(count, |i: int| ConsumeEffectKind::Noop), sets)[id]
            == crate::util::latest_update(sets, id, ConsumeEffectKind::Noop),
{
    crate::util::lemma_latest_update(count, ConsumeEffectKind::Noop, sets, id);
}

/// The consume-effect behavior registry, set once.
pub struct ConsumeEffectBehaviorLock(pub Option<ConsumeEffectBehaviorRegistry>);

impl ConsumeEffectBehaviorLock {
    /// A lock not yet set.
    pub fn new() -> (r: ConsumeEffectBehaviorLock)
        ensures
            r.0 is None,
    {
        ConsumeEffectBehaviorLock(None)
    }

    /// The registry; it must have been set.
    pub fn get(&self) -> (r: &ConsumeEffectBehaviorRegistry)
        requires
            self.0 is Some,
        ensures
            self.0 == Some(*r),
    {
        match &self.0 {
            Some(registry) => registry,
            None => vstd::pervasive::unreached(),
        }
    }
}

} // verus!
