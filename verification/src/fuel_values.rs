//! Furnace fuel durations, indexed by item id.

use vstd::prelude::*;

use crate::items::{
    AZALEA, BAMBOO, BAMBOO_BLOCK, BAMBOO_MOSAIC, BAMBOO_MOSAIC_SLAB, BAMBOO_MOSAIC_STAIRS, BARREL, BLACK_BANNER, BLAZE_ROD, BLUE_BANNER, BOOKSHELF, BOW, BOWL, BROWN_BANNER, CARTOGRAPHY_TABLE, CHARCOAL, CHEST, CHISELED_BOOKSHELF, COAL, COAL_BLOCK, COMPOSTER, CRAFTING_TABLE, CRIMSON_FENCE, CRIMSON_PLANKS, CRIMSON_SLAB, CRIMSON_STAIRS, CRIMSON_STEM, CROSSBOW, CYAN_BANNER, DAYLIGHT_DETECTOR, DEAD_BUSH, DRIED_KELP_BLOCK, FISHING_ROD, FLETCHING_TABLE, FLOWERING_AZALEA, GRAY_BANNER, GREEN_BANNER, ITEM_COUNT, ItemId, JUKEBOX, LADDER, LAVA_BUCKET, LEAF_LITTER, LECTERN, LIGHT_BLUE_BANNER, LIGHT_GRAY_BANNER, LIME_BANNER, LOOM, MAGENTA_BANNER, MANGROVE_ROOTS, NOTE_BLOCK, OAK_BOAT, OAK_BUTTON, OAK_DOOR, OAK_FENCE, OAK_FENCE_GATE, OAK_HANGING_SIGN, OAK_LOG, OAK_PLANKS, OAK_PRESSURE_PLATE, OAK_SAPLING, OAK_SHELF, OAK_SIGN, OAK_SLAB, OAK_STAIRS, OAK_TRAPDOOR, ORANGE_BANNER, PINK_BANNER, PURPLE_BANNER, RED_BANNER, SCAFFOLDING, SHORT_DRY_GRASS, SMITHING_TABLE, STICK, TALL_DRY_GRASS, TRAPPED_CHEST, WARPED_PLANKS, WARPED_STEM, WHITE_BANNER, WHITE_CARPET, WHITE_WOOL, WOODEN_AXE, WOODEN_HOE, WOODEN_PICKAXE, WOODEN_SHOVEL, WOODEN_SPEAR, WOODEN_SWORD, YELLOW_BANNER,
};

verus! {

/// Fuel durations indexed by item id.
#[derive(Debug)]
pub struct FuelValues {
    burn_durations: Vec<i32>,
}

/// Mutable construction phase for [`FuelValues`].
#[derive(Debug)]
pub struct FuelValuesBuilder {
    burn_durations: Vec<i32>,
}

impl FuelValues {
    /// The burn duration of each item id, zero for items that are not fuel.
    pub closed spec fn durations(&self) -> Seq<i32> {
        self.burn_durations@
    }

    pub open spec fn spec_burn_duration(&self, item: ItemId) -> i32 {
        if (item as int) < self.durations().len() {
            self.durations()[item as int]
        } else {
            0
        }
    }

    /// A builder with every item of the item table at zero.
    pub fn builder() -> (r: FuelValuesBuilder)
        ensures
            r.durations().len() == ITEM_COUNT,
            forall|i: int| 0 <= i < ITEM_COUNT ==> #[trigger] r.durations()[i] == 0,
    {
        let mut burn_durations: Vec<i32> = Vec::new();
        let mut i: usize = 0;
        while i < ITEM_COUNT
            invariant
                i <= ITEM_COUNT,
                burn_durations@.len() == i,
                forall|j: int| 0 <= j < i ==> #[trigger] burn_durations@[j] == 0,
            decreases ITEM_COUNT - i,
        {
            burn_durations.push(0);
            i += 1;
        }
        FuelValuesBuilder { burn_durations }
    }

    /// Whether `item` burns in a furnace.
    pub fn is_fuel(&self, item: ItemId) -> (r: bool)
        ensures
            r == (self.spec_burn_duration(item) > 0),
    {
        self.burn_duration(item) > 0
    }

    /// The item's burn duration in game ticks, zero when it is not fuel.
    pub fn burn_duration(&self, item: ItemId) -> (r: i32)
        ensures
            r == self.spec_burn_duration(item),
    {
        let index = item as usize;
        if index < self.burn_durations.len() {
            self.burn_durations[index]
        } else {
            0
        }
    }
}

impl FuelValuesBuilder {
    pub closed spec fn durations(&self) -> Seq<i32> {
        self.burn_durations@
    }

    /// Assigns one item a burn duration.
    pub fn add(self, item: ItemId, burn_duration: i32) -> (r: FuelValuesBuilder)
        requires
            burn_duration >= 0,
            (item as int) < self.durations().len(),
        ensures
            r.durations() == self.durations().update(item as int, burn_duration),
    {
        let mut this = self;
        this.put(item, burn_duration);
        this
    }

    /// Assigns every item of a tag a burn duration.
    pub fn add_tag(self, tag: &[ItemId], burn_duration: i32) -> (r: FuelValuesBuilder)
        requires
            burn_duration >= 0,
            forall|k: int| 0 <= k < tag@.len() ==> (#[trigger] tag@[k] as int) < self.durations().len(),
        ensures
            r.durations().len() == self.durations().len(),
            forall|i: ItemId| (i as int) < r.durations().len() ==> #[trigger] r.durations()[i as int] == if tag@.contains(i) {
                burn_duration
            } else {
                self.durations()[i as int]
            },
    {
        let mut this = self;
        let mut k: usize = 0;
        while k < tag.len()
            invariant
                k <= tag@.len(),
                burn_duration >= 0,
                forall|k: int| 0 <= k < tag@.len() ==> (#[trigger] tag@[k] as int) < self.durations().len(),
                this.durations().len() == self.durations().len(),
                forall|i: ItemId| (i as int) < this.durations().len() ==> #[trigger] this.durations()[i as int] == if tag@.take(k as int).contains(i) {
                    burn_duration
                } else {
                    self.durations()[i as int]
                },
            decreases tag@.len() - k,
        {
            let ghost prev = this.durations();
            proof {
                assert forall|i: ItemId| (i as int) < prev.len() implies #[trigger] prev[i as int] == if tag@.take(k as int).contains(i) {
                    burn_duration
                } else {
                    self.durations()[i as int]
                } by {
                    assert(prev[i as int] == this.durations()[i as int]);
                }
            }
            this.put(tag[k], burn_duration);
            proof {
                assert forall|i: ItemId| (i as int) < this.durations().len() implies #[trigger] this.durations()[i as int] == if tag@.take(k + 1).contains(i) {
                    burn_duration
                } else {
                    self.durations()[i as int]
                } by {
                    assert(tag@.take(k + 1) =~= tag@.take(k as int).push(tag@[k as int]));
                    assert(prev[i as int] == if tag@.take(k as int).contains(i) {
                        burn_duration
                    } else {
                        self.durations()[i as int]
                    });
                    if tag@.take(k as int).contains(i) {
                        let j = choose|j: int| 0 <= j < k && tag@.take(k as int)[j] == i;
                        assert(tag@.take(k + 1)[j] == i);
                    }
                    if i != tag@[k as int] && tag@.take(k + 1).contains(i) {
                        let t1 = tag@.take(k + 1);
                        let j = choose|j: int| 0 <= j < t1.len() && t1[j] == i;
                        assert(j < k);
                        assert(tag@.take(k as int)[j] == i);
                    }
                    if i == tag@[k as int] {
                        assert(tag@.take(k + 1)[k as int] == i);
                    }
                }
            }
            k += 1;
        }
        proof {
            assert(tag@.take(tag@.len() as int) =~= tag@);
        }
        this
    }

    /// Takes every item of a tag out of the table.
    pub fn remove_tag(self, tag: &[ItemId]) -> (r: FuelValuesBuilder)
        requires
            forall|k: int| 0 <= k < tag@.len() ==> (#[trigger] tag@[k] as int) < self.durations().len(),
        ensures
            r.durations().len() == self.durations().len(),
            forall|i: ItemId| (i as int) < r.durations().len() ==> #[trigger] r.durations()[i as int] == if tag@.contains(i) {
                0
            } else {
                self.durations()[i as int]
            },
    {
        self.add_tag(tag, 0)
    }

    /// Finishes the immutable table.
    pub fn build(self) -> (r: FuelValues)
        ensures
            r.durations() == self.durations(),
    {
        FuelValues { burn_durations: self.burn_durations }
    }

    fn put(&mut self, item: ItemId, burn_duration: i32)
        requires
            burn_duration >= 0,
            (item as int) < old(self).durations().len(),
        ensures
            final(self).durations() == old(self).durations().update(item as int, burn_duration),
    {
        self.burn_durations.set(item as usize, burn_duration);
    }
}

/// Ticks of burning in the vanilla unit of fuel values.
pub const BASE_BURN_DURATION: i32 = 200;

/// The banner items.
pub fn banner_items() -> (r: Vec<ItemId>)
    ensures
        forall|k: int| 0 <= k < r@.len() ==> (#[trigger] r@[k] as int) < ITEM_COUNT,
        forall|i: ItemId| r@.contains(i) <==> is_banner(i),
{
    let r = vec![
        WHITE_BANNER, ORANGE_BANNER, MAGENTA_BANNER, LIGHT_BLUE_BANNER, YELLOW_BANNER,
        LIME_BANNER, PINK_BANNER, GRAY_BANNER, LIGHT_GRAY_BANNER, CYAN_BANNER, PURPLE_BANNER,
        BLUE_BANNER, BROWN_BANNER, GREEN_BANNER, RED_BANNER, BLACK_BANNER,
    ];
    proof {
        assert forall|i: ItemId| is_banner(i) implies r@.contains(i) by {
            let k = (i - WHITE_BANNER) as int;
            assert(r@[k] == i);
        }
    }
    r
}

pub open spec fn is_banner(i: ItemId) -> bool {
    WHITE_BANNER <= i <= BLACK_BANNER
}

/// Wood that does not burn: the crimson and warped wood items.
pub open spec fn is_non_flammable_wood(i: ItemId) -> bool {
    i == CRIMSON_STEM || i == WARPED_STEM || i == CRIMSON_PLANKS || i == WARPED_PLANKS
        || i == CRIMSON_STAIRS || i == CRIMSON_SLAB || i == CRIMSON_FENCE
}

/// The vanilla burn duration of each modelled item, in ticks.
pub open spec fn spec_vanilla_burn_duration(i: ItemId) -> i32 {
    if i == LAVA_BUCKET {
        20000
    } else if i == COAL_BLOCK {
        16000
    } else if i == BLAZE_ROD {
        2400
    } else if i == COAL || i == CHARCOAL {
        1600
    } else if is_non_flammable_wood(i) {
        0
    } else if i == OAK_LOG || i == BAMBOO_BLOCK || i == OAK_PLANKS || i == BAMBOO_MOSAIC
        || i == OAK_STAIRS || i == BAMBOO_MOSAIC_STAIRS || i == OAK_TRAPDOOR
        || i == OAK_PRESSURE_PLATE || i == OAK_SHELF || i == OAK_FENCE || i == OAK_FENCE_GATE
        || i == NOTE_BLOCK || i == BOOKSHELF || i == CHISELED_BOOKSHELF || i == LECTERN
        || i == JUKEBOX || i == CHEST || i == TRAPPED_CHEST || i == CRAFTING_TABLE
        || i == DAYLIGHT_DETECTOR || is_banner(i) || i == BOW || i == FISHING_ROD
        || i == LADDER || i == CROSSBOW || i == LOOM || i == BARREL || i == CARTOGRAPHY_TABLE
        || i == FLETCHING_TABLE || i == SMITHING_TABLE || i == COMPOSTER
        || i == MANGROVE_ROOTS {
        300
    } else if i == OAK_SLAB || i == BAMBOO_MOSAIC_SLAB {
        150
    } else if i == OAK_SIGN || i == WOODEN_SHOVEL || i == WOODEN_SWORD || i == WOODEN_SPEAR
        || i == WOODEN_HOE || i == WOODEN_AXE || i == WOODEN_PICKAXE || i == OAK_DOOR {
        200
    } else if i == OAK_HANGING_SIGN {
        800
    } else if i == OAK_BOAT {
        1200
    } else if i == WHITE_WOOL || i == OAK_BUTTON || i == STICK || i == OAK_SAPLING
        || i == BOWL || i == DEAD_BUSH || i == SHORT_DRY_GRASS || i == TALL_DRY_GRASS
        || i == AZALEA || i == FLOWERING_AZALEA || i == LEAF_LITTER {
        100
    } else if i == WHITE_CARPET {
        67
    } else if i == DRIED_KELP_BLOCK {
        4001
    } else if i == BAMBOO || i == SCAFFOLDING {
        50
    } else {
        0
    }
}

/// Wood of the wooden fuel tags (logs, bamboo blocks, planks, bamboo mosaic,
/// wooden stairs, trapdoors, pressure plates, shelves, fences, fence gates)
/// and banners burn for one and a half base units, 300 ticks; wooden slabs
/// for half of that; crimson and warped wood, which is in those tags too,
/// does not burn at all.
pub proof fn lemma_wood_burns_by_tag(i: ItemId)
    ensures
        i == OAK_LOG || i == BAMBOO_BLOCK || i == OAK_PLANKS || i == BAMBOO_MOSAIC || i == OAK_STAIRS
            || i == BAMBOO_MOSAIC_STAIRS || i == OAK_TRAPDOOR || i == OAK_PRESSURE_PLATE
            || i == OAK_SHELF || i == OAK_FENCE || i == OAK_FENCE_GATE || (WHITE_BANNER <= i
            && i <= BLACK_BANNER) ==> spec_vanilla_burn_duration(i) == 300,
        i == OAK_SLAB || i == BAMBOO_MOSAIC_SLAB ==> spec_vanilla_burn_duration(i) == 150,
        i == CRIMSON_STEM || i == WARPED_STEM || i == CRIMSON_PLANKS || i == WARPED_PLANKS
            || i == CRIMSON_STAIRS || i == CRIMSON_SLAB || i == CRIMSON_FENCE
            ==> spec_vanilla_burn_duration(i) == 0,
        spec_vanilla_burn_duration(i) >= 0,
{
}

/// The vanilla fuel table.
#[verifier::rlimit(100)]
pub fn vanilla_fuel_values() -> (r: FuelValues)
    ensures
        r.durations().len() == ITEM_COUNT,
        forall|i: ItemId| (i as int) < ITEM_COUNT ==> #[trigger] r.spec_burn_duration(i) == spec_vanilla_burn_duration(i),
{
    let base = BASE_BURN_DURATION;
    let b = FuelValues::builder()
        .add(LAVA_BUCKET, base * 100)
        .add(COAL_BLOCK, base * 8 * 10)
        .add(BLAZE_ROD, base * 12)
        .add(COAL, base * 8)
        .add(CHARCOAL, base * 8)
        .add_tag(&[OAK_LOG, CRIMSON_STEM, WARPED_STEM], base * 3 / 2)
        .add_tag(&[BAMBOO_BLOCK], base * 3 / 2)
        .add_tag(&[OAK_PLANKS, CRIMSON_PLANKS, WARPED_PLANKS], base * 3 / 2)
        .add(BAMBOO_MOSAIC, base * 3 / 2)
        .add_tag(&[OAK_STAIRS, CRIMSON_STAIRS], base * 3 / 2)
        .add(BAMBOO_MOSAIC_STAIRS, base * 3 / 2)
        .add_tag(&[OAK_SLAB, CRIMSON_SLAB], base * 3 / 4)
        .add(BAMBOO_MOSAIC_SLAB, base * 3 / 4)
        .add_tag(&[OAK_TRAPDOOR], base * 3 / 2)
        .add_tag(&[OAK_PRESSURE_PLATE], base * 3 / 2)
        .add_tag(&[OAK_SHELF], base * 3 / 2)
        .add_tag(&[OAK_FENCE, CRIMSON_FENCE], base * 3 / 2)
        .add_tag(&[OAK_FENCE_GATE], base * 3 / 2)
        .add(NOTE_BLOCK, base * 3 / 2)
        .add(BOOKSHELF, base * 3 / 2)
        .add(CHISELED_BOOKSHELF, base * 3 / 2)
        .add(LECTERN, base * 3 / 2)
        .add(JUKEBOX, base * 3 / 2)
        .add(CHEST, base * 3 / 2)
        .add(TRAPPED_CHEST, base * 3 / 2)
        .add(CRAFTING_TABLE, base * 3 / 2)
        .add(DAYLIGHT_DETECTOR, base * 3 / 2);
    let banners = banner_items();
    let b = b.add_tag(banners.as_slice(), base * 3 / 2)
        .add(BOW, base * 3 / 2)
        .add(FISHING_ROD, base * 3 / 2)
        .add(LADDER, base * 3 / 2)
        .add_tag(&[OAK_SIGN], base)
        .add_tag(&[OAK_HANGING_SIGN], base * 4)
        .add(WOODEN_SHOVEL, base)
        .add(WOODEN_SWORD, base)
        .add(WOODEN_SPEAR, base)
        .add(WOODEN_HOE, base)
        .add(WOODEN_AXE, base)
        .add(WOODEN_PICKAXE, base)
        .add_tag(&[OAK_DOOR], base)
        .add_tag(&[OAK_BOAT], base * 6)
        .add_tag(&[WHITE_WOOL], base / 2)
        .add_tag(&[OAK_BUTTON], base / 2)
        .add(STICK, base / 2)
        .add_tag(&[OAK_SAPLING], base / 2)
        .add(BOWL, base / 2)
        .add_tag(&[WHITE_CARPET], 1 + base / 3)
        .add(DRIED_KELP_BLOCK, 1 + base * 20)
        .add(CROSSBOW, base * 3 / 2)
        .add(BAMBOO, base / 4)
        .add(DEAD_BUSH, base / 2)
        .add(SHORT_DRY_GRASS, base / 2)
        .add(TALL_DRY_GRASS, base / 2)
        .add(SCAFFOLDING, base / 4)
        .add(LOOM, base * 3 / 2)
        .add(BARREL, base * 3 / 2)
        .add(CARTOGRAPHY_TABLE, base * 3 / 2)
        .add(FLETCHING_TABLE, base * 3 / 2)
        .add(SMITHING_TABLE, base * 3 / 2)
        .add(COMPOSTER, base * 3 / 2)
        .add(AZALEA, base / 2)
        .add(FLOWERING_AZALEA, base / 2)
        .add(MANGROVE_ROOTS, base * 3 / 2)
        .add(LEAF_LITTER, base / 2)
        .remove_tag(&[CRIMSON_STEM, WARPED_STEM, CRIMSON_PLANKS, WARPED_PLANKS, CRIMSON_STAIRS, CRIMSON_SLAB, CRIMSON_FENCE]);
    let r = b.build();
    r
}

} // verus!
