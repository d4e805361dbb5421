//! Furnace, blast-furnace and smoker blocks: placement, which block entity
//! and menu belong to each, and when using one opens its menu.

use vstd::prelude::*;

use crate::furnace::{Direction, FurnaceKind};
use crate::identifier::Identifier;
use crate::recipe::vanilla::vanilla_key;

verus! {

/// A block, by its registry id.
pub type BlockId = u32;

/// The face opposite to `d`.
pub open spec fn opposite(d: Direction) -> Direction {
    match d {
        Direction::Down => Direction::Up,
        Direction::Up => Direction::Down,
        Direction::North => Direction::South,
        Direction::South => Direction::North,
        Direction::West => Direction::East,
        Direction::East => Direction::West,
    }
}

/// The facing of a placed furnace-like block: towards the player, opposite
/// to the horizontal direction the player looks in.
pub fn placement_facing(horizontal_direction: Direction) -> (r: Direction)
    ensures
        r == opposite(horizontal_direction),
{
    match horizontal_direction {
        Direction::Down => Direction::Up,
        Direction::Up => Direction::Down,
        Direction::North => Direction::South,
        Direction::South => Direction::North,
        Direction::West => Direction::East,
        Direction::East => Direction::West,
    }
}

/// The path of the block-entity type that belongs to each kind.
pub open spec fn block_entity_path(kind: FurnaceKind) -> Seq<char> {
    match kind {
        FurnaceKind::Furnace => "furnace"@,
        FurnaceKind::BlastFurnace => "blast_furnace"@,
        FurnaceKind::Smoker => "smoker"@,
    }
}

/// The block-entity type that belongs to each kind.
pub fn block_entity_type(kind: FurnaceKind) -> (r: Identifier)
    ensures
        r.namespace@ == "minecraft"@,
        r.path@ == block_entity_path(kind),
{
    match kind {
        FurnaceKind::Furnace => Identifier::vanilla("furnace"),
        FurnaceKind::BlastFurnace => Identifier::vanilla("blast_furnace"),
        FurnaceKind::Smoker => Identifier::vanilla("smoker"),
    }
}

/// The translation key of the menu title of each kind.
pub fn title_key(kind: FurnaceKind) -> (r: &'static str)
    ensures
        r@ == match kind {
            FurnaceKind::Furnace => "container.furnace"@,
            FurnaceKind::BlastFurnace => "container.blast_furnace"@,
            FurnaceKind::Smoker => "container.smoker"@,
        },
{
    match kind {
        FurnaceKind::Furnace => "container.furnace",
        FurnaceKind::BlastFurnace => "container.blast_furnace",
        FurnaceKind::Smoker => "container.smoker",
    }
}

/// The path of the statistic awarded for opening each kind.
pub fn interaction_stat(kind: FurnaceKind) -> (r: Identifier)
    ensures
        r.namespace@ == "minecraft"@,
        r.path@ == match kind {
            FurnaceKind::Furnace => "interact_with_furnace"@,
            FurnaceKind::BlastFurnace => "interact_with_blast_furnace"@,
            FurnaceKind::Smoker => "interact_with_smoker"@,
        },
{
    match kind {
        FurnaceKind::Furnace => Identifier::vanilla("interact_with_furnace"),
        FurnaceKind::BlastFurnace => Identifier::vanilla("interact_with_blast_furnace"),
        FurnaceKind::Smoker => Identifier::vanilla("interact_with_smoker"),
    }
}

/// Using the block without an item opens its menu (and awards its statistic)
/// exactly when a block entity of the block's own type stands there and is a
/// container; the interaction succeeds either way.
pub fn opens_menu(kind: FurnaceKind, entity_type: Option<&Identifier>, is_container: bool) -> (r: bool)
    ensures
        r == (entity_type matches Some(t) && t@ == vanilla_key(block_entity_path(kind)) && is_container),
{
    match entity_type {
        None => false,
        Some(t) => {
            let expected = block_entity_type(kind);
            t.same_key(&expected) && is_container
        },
    }
}

/// The standard furnace block.
pub struct FurnaceBlock {
    pub block: BlockId,
}

/// The blast-furnace block.
pub struct BlastFurnaceBlock {
    pub block: BlockId,
}

/// The smoker block.
pub struct SmokerBlock {
    pub block: BlockId,
}

impl FurnaceBlock {
    /// This behavior for its registered block.
    pub fn new(block: BlockId) -> (r: FurnaceBlock)
        ensures
            r.block == block,
    {
        FurnaceBlock { block }
    }

    pub fn kind(&self) -> (r: FurnaceKind)
        ensures
            r == FurnaceKind::Furnace,
    {
        FurnaceKind::Furnace
    }

    /// The block reports a comparator signal.
    pub fn has_analog_output_signal(&self) -> (r: bool)
        ensures
            r,
    {
        true
    }
}

impl BlastFurnaceBlock {
    /// This behavior for its registered block.
    pub fn new(block: BlockId) -> (r: BlastFurnaceBlock)
        ensures
            r.block == block,
    {
        BlastFurnaceBlock { block }
    }

    pub fn kind(&self) -> (r: FurnaceKind)
        ensures
            r == FurnaceKind::BlastFurnace,
    {
        FurnaceKind::BlastFurnace
    }

    /// The block reports a comparator signal.
    pub fn has_analog_output_signal(&self) -> (r: bool)
        ensures
            r,
    {
        true
    }
}

impl SmokerBlock {
    /// This behavior for its registered block.
    pub fn new(block: BlockId) -> (r: SmokerBlock)
        ensures
            r.block == block,
    {
        SmokerBlock { block }
    }

    pub fn kind(&self) -> (r: FurnaceKind)
        ensures
            r == FurnaceKind::Smoker,
    {
        FurnaceKind::Smoker
    }

    /// The block reports a comparator signal.
    pub fn has_analog_output_signal(&self) -> (r: bool)
        ensures
            r,
    {
        true
    }
}

} // verus!
