//! Item identifiers used by the crafting, smelting and fuel rules, and dye colors.

use vstd::prelude::*;

verus! {

/// Registry id of an item.
pub type ItemId = u32;

pub const AIR: ItemId = 0;
pub const BUCKET: ItemId = 1;
pub const WATER_BUCKET: ItemId = 2;
pub const LAVA_BUCKET: ItemId = 3;
pub const MILK_BUCKET: ItemId = 4;
pub const WET_SPONGE: ItemId = 5;
pub const SPONGE: ItemId = 6;
pub const GLASS_BOTTLE: ItemId = 7;
pub const HONEY_BOTTLE: ItemId = 8;
pub const POTION: ItemId = 9;
pub const IRON_ORE: ItemId = 10;
pub const RAW_IRON: ItemId = 11;
pub const IRON_INGOT: ItemId = 12;
pub const BEEF: ItemId = 13;
pub const COOKED_BEEF: ItemId = 14;
pub const FURNACE: ItemId = 15;
pub const RED_DYE: ItemId = 16;
pub const BLUE_DYE: ItemId = 17;
pub const PURPLE_DYE: ItemId = 18;
pub const PAPER: ItemId = 19;
pub const GUNPOWDER: ItemId = 20;
pub const FIREWORK_STAR: ItemId = 21;
pub const FIREWORK_ROCKET: ItemId = 22;
pub const IRON_PICKAXE: ItemId = 23;
pub const WRITTEN_BOOK: ItemId = 24;
pub const WRITABLE_BOOK: ItemId = 25;
pub const SHIELD: ItemId = 26;
pub const FILLED_MAP: ItemId = 27;
pub const COAL: ItemId = 28;
pub const CHARCOAL: ItemId = 29;
pub const COAL_BLOCK: ItemId = 30;
pub const BLAZE_ROD: ItemId = 31;
pub const STICK: ItemId = 32;
pub const BOWL: ItemId = 33;
pub const OAK_LOG: ItemId = 34;
pub const CRIMSON_STEM: ItemId = 35;
pub const WARPED_STEM: ItemId = 36;
pub const BAMBOO_BLOCK: ItemId = 37;
pub const OAK_PLANKS: ItemId = 38;
pub const CRIMSON_PLANKS: ItemId = 39;
pub const WARPED_PLANKS: ItemId = 40;
pub const BAMBOO_MOSAIC: ItemId = 41;
pub const OAK_STAIRS: ItemId = 42;
pub const CRIMSON_STAIRS: ItemId = 43;
pub const BAMBOO_MOSAIC_STAIRS: ItemId = 44;
pub const OAK_SLAB: ItemId = 45;
pub const CRIMSON_SLAB: ItemId = 46;
pub const BAMBOO_MOSAIC_SLAB: ItemId = 47;
pub const OAK_TRAPDOOR: ItemId = 48;
pub const OAK_PRESSURE_PLATE: ItemId = 49;
pub const OAK_SHELF: ItemId = 50;
pub const OAK_FENCE: ItemId = 51;
pub const CRIMSON_FENCE: ItemId = 52;
pub const OAK_FENCE_GATE: ItemId = 53;
pub const NOTE_BLOCK: ItemId = 54;
pub const BOOKSHELF: ItemId = 55;
pub const CHISELED_BOOKSHELF: ItemId = 56;
pub const LECTERN: ItemId = 57;
pub const JUKEBOX: ItemId = 58;
pub const CHEST: ItemId = 59;
pub const TRAPPED_CHEST: ItemId = 60;
pub const CRAFTING_TABLE: ItemId = 61;
pub const DAYLIGHT_DETECTOR: ItemId = 62;
pub const BOW: ItemId = 63;
pub const FISHING_ROD: ItemId = 64;
pub const LADDER: ItemId = 65;
pub const OAK_SIGN: ItemId = 66;
pub const OAK_HANGING_SIGN: ItemId = 67;
pub const WOODEN_SHOVEL: ItemId = 68;
pub const WOODEN_SWORD: ItemId = 69;
pub const WOODEN_SPEAR: ItemId = 70;
pub const WOODEN_HOE: ItemId = 71;
pub const WOODEN_AXE: ItemId = 72;
pub const WOODEN_PICKAXE: ItemId = 73;
pub const OAK_DOOR: ItemId = 74;
pub const OAK_BOAT: ItemId = 75;
pub const WHITE_WOOL: ItemId = 76;
pub const OAK_BUTTON: ItemId = 77;
pub const OAK_SAPLING: ItemId = 78;
pub const WHITE_CARPET: ItemId = 79;
pub const DRIED_KELP_BLOCK: ItemId = 80;
pub const CROSSBOW: ItemId = 81;
pub const BAMBOO: ItemId = 82;
pub const DEAD_BUSH: ItemId = 83;
pub const SHORT_DRY_GRASS: ItemId = 84;
pub const TALL_DRY_GRASS: ItemId = 85;
pub const SCAFFOLDING: ItemId = 86;
pub const LOOM: ItemId = 87;
pub const BARREL: ItemId = 88;
pub const CARTOGRAPHY_TABLE: ItemId = 89;
pub const FLETCHING_TABLE: ItemId = 90;
pub const SMITHING_TABLE: ItemId = 91;
pub const COMPOSTER: ItemId = 92;
pub const AZALEA: ItemId = 93;
pub const FLOWERING_AZALEA: ItemId = 94;
pub const MANGROVE_ROOTS: ItemId = 95;
pub const LEAF_LITTER: ItemId = 96;
pub const WHITE_BANNER: ItemId = 97;
pub const ORANGE_BANNER: ItemId = 98;
pub const MAGENTA_BANNER: ItemId = 99;
pub const LIGHT_BLUE_BANNER: ItemId = 100;
pub const YELLOW_BANNER: ItemId = 101;
pub const LIME_BANNER: ItemId = 102;
pub const PINK_BANNER: ItemId = 103;
pub const GRAY_BANNER: ItemId = 104;
pub const LIGHT_GRAY_BANNER: ItemId = 105;
pub const CYAN_BANNER: ItemId = 106;
pub const PURPLE_BANNER: ItemId = 107;
pub const BLUE_BANNER: ItemId = 108;
pub const BROWN_BANNER: ItemId = 109;
pub const GREEN_BANNER: ItemId = 110;
pub const RED_BANNER: ItemId = 111;
pub const BLACK_BANNER: ItemId = 112;
pub const STONE: ItemId = 113;
pub const COBBLESTONE: ItemId = 114;
pub const NETHERITE_INGOT: ItemId = 115;
pub const DIAMOND_SWORD: ItemId = 116;
pub const NETHERITE_SWORD: ItemId = 117;
pub const NETHERITE_UPGRADE_SMITHING_TEMPLATE: ItemId = 118;
pub const BRICK: ItemId = 119;
pub const DECORATED_POT: ItemId = 120;
pub const ARROW: ItemId = 121;
pub const TIPPED_ARROW: ItemId = 122;
pub const LINGERING_POTION: ItemId = 123;

/// Number of item ids; every id above is below it.
pub const ITEM_COUNT: usize = 124;

/// The item that stays in a crafting grid slot (or a furnace fuel slot) once
/// one item of `item` has been used up.
pub open spec fn spec_crafting_remainder(item: ItemId) -> ItemId {
    if item == WATER_BUCKET || item == LAVA_BUCKET || item == MILK_BUCKET {
        BUCKET
    } else if item == HONEY_BOTTLE || item == POTION {
        GLASS_BOTTLE
    } else {
        AIR
    }
}

pub fn crafting_remainder_item(item: ItemId) -> (r: ItemId)
    ensures
        r == spec_crafting_remainder(item),
{
    if item == WATER_BUCKET || item == LAVA_BUCKET || item == MILK_BUCKET {
        BUCKET
    } else if item == HONEY_BOTTLE || item == POTION {
        GLASS_BOTTLE
    } else {
        AIR
    }
}

/// Items whose stacks hold a single item: filled buckets, potions, tools,
/// weapons, boats, decorated pots and unsigned books.
pub open spec fn spec_stacks_to_one(item: ItemId) -> bool {
    item == WATER_BUCKET || item == LAVA_BUCKET || item == MILK_BUCKET || item == POTION
        || item == LINGERING_POTION || item == WRITABLE_BOOK || item == OAK_BOAT
        || item == DECORATED_POT || spec_default_max_damage(item) is Some
}

/// Items whose stacks hold at most sixteen: empty buckets, honey bottles,
/// signs, signed books and banners.
pub open spec fn spec_stacks_to_sixteen(item: ItemId) -> bool {
    item == BUCKET || item == HONEY_BOTTLE || item == OAK_SIGN || item == OAK_HANGING_SIGN
        || item == WRITTEN_BOOK || (WHITE_BANNER <= item && item <= BLACK_BANNER)
}

/// The number of items a stack of `item` holds at most, before any stack changes it.
pub open spec fn spec_default_max_stack_size(item: ItemId) -> i32 {
    if spec_stacks_to_one(item) {
        1
    } else if spec_stacks_to_sixteen(item) {
        16
    } else {
        64
    }
}

/// The durability an item is made with; `None` for items that take no damage.
pub open spec fn spec_default_max_damage(item: ItemId) -> Option<i32> {
    if item == IRON_PICKAXE {
        Some(250)
    } else if item == SHIELD {
        Some(336)
    } else if item == BOW {
        Some(384)
    } else if item == CROSSBOW {
        Some(465)
    } else if item == FISHING_ROD {
        Some(64)
    } else if item == DIAMOND_SWORD {
        Some(1561)
    } else if item == NETHERITE_SWORD {
        Some(2031)
    } else if item == WOODEN_SHOVEL || item == WOODEN_SWORD || item == WOODEN_SPEAR
        || item == WOODEN_HOE || item == WOODEN_AXE || item == WOODEN_PICKAXE {
        Some(59)
    } else {
        None
    }
}

/// The dye color a dye item carries; `None` for every other item.
pub open spec fn spec_default_dye(item: ItemId) -> Option<DyeColor> {
    if item == RED_DYE {
        Some(DyeColor::Red)
    } else if item == BLUE_DYE {
        Some(DyeColor::Blue)
    } else if item == PURPLE_DYE {
        Some(DyeColor::Purple)
    } else {
        None
    }
}

pub fn default_max_damage(item: ItemId) -> (r: Option<i32>)
    ensures
        r == spec_default_max_damage(item),
{
    if item == IRON_PICKAXE {
        Some(250)
    } else if item == SHIELD {
        Some(336)
    } else if item == BOW {
        Some(384)
    } else if item == CROSSBOW {
        Some(465)
    } else if item == FISHING_ROD {
        Some(64)
    } else if item == DIAMOND_SWORD {
        Some(1561)
    } else if item == NETHERITE_SWORD {
        Some(2031)
    } else if item == WOODEN_SHOVEL || item == WOODEN_SWORD || item == WOODEN_SPEAR
        || item == WOODEN_HOE || item == WOODEN_AXE || item == WOODEN_PICKAXE {
        Some(59)
    } else {
        None
    }
}

pub fn default_max_stack_size(item: ItemId) -> (r: i32)
    ensures
        r == spec_default_max_stack_size(item),
{
    let damageable = default_max_damage(item).is_some();
    if item == WATER_BUCKET || item == LAVA_BUCKET || item == MILK_BUCKET || item == POTION
        || item == LINGERING_POTION || item == WRITABLE_BOOK || item == OAK_BOAT
        || item == DECORATED_POT || damageable {
        1
    } else if item == BUCKET || item == HONEY_BOTTLE || item == OAK_SIGN || item == OAK_HANGING_SIGN
        || item == WRITTEN_BOOK || (WHITE_BANNER <= item && item <= BLACK_BANNER) {
        16
    } else {
        64
    }
}

pub fn default_dye(item: ItemId) -> (r: Option<DyeColor>)
    ensures
        r == spec_default_dye(item),
{
    if item == RED_DYE {
        Some(DyeColor::Red)
    } else if item == BLUE_DYE {
        Some(DyeColor::Blue)
    } else if item == PURPLE_DYE {
        Some(DyeColor::Purple)
    } else {
        None
    }
}

/// The sixteen dye colors.
#[derive(Debug, Clone, Copy, PartialEq, Eq, Structural)]
pub enum DyeColor {
    White,
    Orange,
    Magenta,
    LightBlue,
    Yellow,
    Lime,
    Pink,
    Gray,
    LightGray,
    Cyan,
    Purple,
    Blue,
    Brown,
    Green,
    Red,
    Black,
}

/// The color of a banner item; white for anything that is not a colored banner.
pub open spec fn spec_banner_color(item: ItemId) -> DyeColor {
    if item == ORANGE_BANNER {
        DyeColor::Orange
    } else if item == MAGENTA_BANNER {
        DyeColor::Magenta
    } else if item == LIGHT_BLUE_BANNER {
        DyeColor::LightBlue
    } else if item == YELLOW_BANNER {
        DyeColor::Yellow
    } else if item == LIME_BANNER {
        DyeColor::Lime
    } else if item == PINK_BANNER {
        DyeColor::Pink
    } else if item == GRAY_BANNER {
        DyeColor::Gray
    } else if item == LIGHT_GRAY_BANNER {
        DyeColor::LightGray
    } else if item == CYAN_BANNER {
        DyeColor::Cyan
    } else if item == PURPLE_BANNER {
        DyeColor::Purple
    } else if item == BLUE_BANNER {
        DyeColor::Blue
    } else if item == BROWN_BANNER {
        DyeColor::Brown
    } else if item == GREEN_BANNER {
        DyeColor::Green
    } else if item == RED_BANNER {
        DyeColor::Red
    } else if item == BLACK_BANNER {
        DyeColor::Black
    } else {
        DyeColor::White
    }
}

/// The RGB color a dye contributes when it colors leather or other dyeable items.
pub open spec fn spec_texture_diffuse_color(color: DyeColor) -> i32 {
    match color {
        DyeColor::White => 0xF9FFFE,
        DyeColor::Orange => 0xF9801D,
        DyeColor::Magenta => 0xC74EBD,
        DyeColor::LightBlue => 0x3AB3DA,
        DyeColor::Yellow => 0xFED83D,
        DyeColor::Lime => 0x80C71F,
        DyeColor::Pink => 0xF38BAA,
        DyeColor::Gray => 0x474F52,
        DyeColor::LightGray => 0x9D9D97,
        DyeColor::Cyan => 0x169C9C,
        DyeColor::Purple => 0x8932B8,
        DyeColor::Blue => 0x3C44AA,
        DyeColor::Brown => 0x835432,
        DyeColor::Green => 0x5E7C16,
        DyeColor::Red => 0xB02E26,
        DyeColor::Black => 0x1D1D21,
    }
}

/// The RGB color a dye gives a firework explosion.
pub open spec fn spec_firework_color(color: DyeColor) -> i32 {
    match color {
        DyeColor::White => 0xF0F0F0,
        DyeColor::Orange => 0xEB8844,
        DyeColor::Magenta => 0xC354CD,
        DyeColor::LightBlue => 0x6689D3,
        DyeColor::Yellow => 0xDECF2A,
        DyeColor::Lime => 0x41CD34,
        DyeColor::Pink => 0xD88198,
        DyeColor::Gray => 0x434343,
        DyeColor::LightGray => 0xABABAB,
        DyeColor::Cyan => 0x287697,
        DyeColor::Purple => 0x7B2FBE,
        DyeColor::Blue => 0x253192,
        DyeColor::Brown => 0x51301A,
        DyeColor::Green => 0x3B511A,
        DyeColor::Red => 0xB3312C,
        DyeColor::Black => 0x1E1B1B,
    }
}

impl DyeColor {
    pub fn texture_diffuse_color(self) -> (r: i32)
        ensures
            r == spec_texture_diffuse_color(self),
            0 <= r <= 0xFFFFFF,
    {
        match self {
            DyeColor::White => 0xF9FFFE,
            DyeColor::Orange => 0xF9801D,
            DyeColor::Magenta => 0xC74EBD,
            DyeColor::LightBlue => 0x3AB3DA,
            DyeColor::Yellow => 0xFED83D,
            DyeColor::Lime => 0x80C71F,
            DyeColor::Pink => 0xF38BAA,
            DyeColor::Gray => 0x474F52,
            DyeColor::LightGray => 0x9D9D97,
            DyeColor::Cyan => 0x169C9C,
            DyeColor::Purple => 0x8932B8,
            DyeColor::Blue => 0x3C44AA,
            DyeColor::Brown => 0x835432,
            DyeColor::Green => 0x5E7C16,
            DyeColor::Red => 0xB02E26,
            DyeColor::Black => 0x1D1D21,
        }
    }

    pub fn firework_color(self) -> (r: i32)
        ensures
            r == spec_firework_color(self),
    {
        match self {
            DyeColor::White => 0xF0F0F0,
            DyeColor::Orange => 0xEB8844,
            DyeColor::Magenta => 0xC354CD,
            DyeColor::LightBlue => 0x6689D3,
            DyeColor::Yellow => 0xDECF2A,
            DyeColor::Lime => 0x41CD34,
            DyeColor::Pink => 0xD88198,
            DyeColor::Gray => 0x434343,
            DyeColor::LightGray => 0xABABAB,
            DyeColor::Cyan => 0x287697,
            DyeColor::Purple => 0x7B2FBE,
            DyeColor::Blue => 0x253192,
            DyeColor::Brown => 0x51301A,
            DyeColor::Green => 0x3B511A,
            DyeColor::Red => 0xB3312C,
            DyeColor::Black => 0x1E1B1B,
        }
    }
}

} // verus!
