//! Building recipe data from the fields of extracted recipe definitions:
//! which serializer an identifier names, the recipe-book categories, the
//! grid of a shaped pattern, and the placement each recipe family uses.

use vstd::prelude::*;

use crate::ingredient::{duplicate_ingredients, ingredients_view, Ingredient, IngredientModel};
use crate::item_stack::ItemStackTemplate;
use crate::recipe::crafting::{DyeRecipe, ImbueRecipe, ShapedRecipe, TransmuteRecipe};
use crate::recipe::properties::{
    optional_placement, required_placement, CookingBookCategory, CraftingBookCategory,
    PlacementInfo, RecipeProperties,
};
use crate::recipe::single_item::{CookingRecipe, StonecuttingRecipe};
use crate::recipe::smithing::{SmithingTransformRecipe, SmithingTrimRecipe};
use crate::recipe::types::RecipeType;
use crate::recipe::vanilla::{blasting, campfire_cooking, crafting, smelting, smithing, smoking, stonecutting};
use crate::util::{chars_of, str_eq};

verus! {

/// The crafting serializers, by the path of their identifier.
#[derive(Clone, Copy, PartialEq, Eq, Structural, Debug)]
pub enum CraftingSerializer {
    Shaped,
    Shapeless,
    Transmute,
    Dye,
    DecoratedPot,
    Imbue,
    BannerDuplicate,
    BookCloning,
    FireworkRocket,
    FireworkStar,
    FireworkStarFade,
    MapExtending,
    RepairItem,
    ShieldDecoration,
}

/// The cooking serializers.
#[derive(Clone, Copy, PartialEq, Eq, Structural, Debug)]
pub enum CookingSerializer {
    Smelting,
    Blasting,
    Smoking,
    CampfireCooking,
}

/// The smithing serializers.
#[derive(Clone, Copy, PartialEq, Eq, Structural, Debug)]
pub enum SmithingSerializer {
    Transform,
    Trim,
}

/// The recipe family a serializer identifier names.
#[derive(Clone, Copy, PartialEq, Eq, Structural, Debug)]
pub enum RecipeSerializer {
    Crafting(CraftingSerializer),
    Cooking(CookingSerializer),
    Stonecutting,
    Smithing(SmithingSerializer),
}

/// The crafting serializer with identifier path `p`.
pub open spec fn crafting_serializer_of(p: Seq<char>) -> Option<CraftingSerializer> {
    if p == "crafting_shaped"@ {
        Some(CraftingSerializer::Shaped)
    } else if p == "crafting_shapeless"@ {
        Some(CraftingSerializer::Shapeless)
    } else if p == "crafting_transmute"@ {
        Some(CraftingSerializer::Transmute)
    } else if p == "crafting_dye"@ {
        Some(CraftingSerializer::Dye)
    } else if p == "crafting_decorated_pot"@ {
        Some(CraftingSerializer::DecoratedPot)
    } else if p == "crafting_imbue"@ {
        Some(CraftingSerializer::Imbue)
    } else if p == "crafting_special_bannerduplicate"@ {
        Some(CraftingSerializer::BannerDuplicate)
    } else if p == "crafting_special_bookcloning"@ {
        Some(CraftingSerializer::BookCloning)
    } else if p == "crafting_special_firework_rocket"@ {
        Some(CraftingSerializer::FireworkRocket)
    } else if p == "crafting_special_firework_star"@ {
        Some(CraftingSerializer::FireworkStar)
    } else if p == "crafting_special_firework_star_fade"@ {
        Some(CraftingSerializer::FireworkStarFade)
    } else if p == "crafting_special_mapextending"@ {
        Some(CraftingSerializer::MapExtending)
    } else if p == "crafting_special_repairitem"@ {
        Some(CraftingSerializer::RepairItem)
    } else if p == "crafting_special_shielddecoration"@ {
        Some(CraftingSerializer::ShieldDecoration)
    } else {
        None
    }
}

/// The crafting serializer with identifier path `path`.
pub fn crafting_serializer(path: &str) -> (r: Option<CraftingSerializer>)
    ensures
        r == crafting_serializer_of(path@),
{
    if str_eq(path, "crafting_shaped") {
        Some(CraftingSerializer::Shaped)
    } else if str_eq(path, "crafting_shapeless") {
        Some(CraftingSerializer::Shapeless)
    } else if str_eq(path, "crafting_transmute") {
        Some(CraftingSerializer::Transmute)
    } else if str_eq(path, "crafting_dye") {
        Some(CraftingSerializer::Dye)
    } else if str_eq(path, "crafting_decorated_pot") {
        Some(CraftingSerializer::DecoratedPot)
    } else if str_eq(path, "crafting_imbue") {
        Some(CraftingSerializer::Imbue)
    } else if str_eq(path, "crafting_special_bannerduplicate") {
        Some(CraftingSerializer::BannerDuplicate)
    } else if str_eq(path, "crafting_special_bookcloning") {
        Some(CraftingSerializer::BookCloning)
    } else if str_eq(path, "crafting_special_firework_rocket") {
        Some(CraftingSerializer::FireworkRocket)
    } else if str_eq(path, "crafting_special_firework_star") {
        Some(CraftingSerializer::FireworkStar)
    } else if str_eq(path, "crafting_special_firework_star_fade") {
        Some(CraftingSerializer::FireworkStarFade)
    } else if str_eq(path, "crafting_special_mapextending") {
        Some(CraftingSerializer::MapExtending)
    } else if str_eq(path, "crafting_special_repairitem") {
        Some(CraftingSerializer::RepairItem)
    } else if str_eq(path, "crafting_special_shielddecoration") {
        Some(CraftingSerializer::ShieldDecoration)
    } else {
        None
    }
}

/// The cooking serializer with identifier path `p`.
pub open spec fn cooking_serializer_of(p: Seq<char>) -> Option<CookingSerializer> {
    if p == "smelting"@ {
        Some(CookingSerializer::Smelting)
    } else if p == "blasting"@ {
        Some(CookingSerializer::Blasting)
    } else if p == "smoking"@ {
        Some(CookingSerializer::Smoking)
    } else if p == "campfire_cooking"@ {
        Some(CookingSerializer::CampfireCooking)
    } else {
        None
    }
}

/// The smithing serializer with identifier path `p`.
pub open spec fn smithing_serializer_of(p: Seq<char>) -> Option<SmithingSerializer> {
    if p == "smithing_transform"@ {
        Some(SmithingSerializer::Transform)
    } else if p == "smithing_trim"@ {
        Some(SmithingSerializer::Trim)
    } else {
        None
    }
}

/// The serializer with identifier path `p`: crafting first, then cooking,
/// stonecutting and smithing.
pub open spec fn serializer_of_path(p: Seq<char>) -> Option<RecipeSerializer> {
    if crafting_serializer_of(p) is Some {
        Some(RecipeSerializer::Crafting(crafting_serializer_of(p)->0))
    } else if cooking_serializer_of(p) is Some {
        Some(RecipeSerializer::Cooking(cooking_serializer_of(p)->0))
    } else if p == "stonecutting"@ {
        Some(RecipeSerializer::Stonecutting)
    } else if smithing_serializer_of(p) is Some {
        Some(RecipeSerializer::Smithing(smithing_serializer_of(p)->0))
    } else {
        None
    }
}

/// The namespace every built-in serializer identifier carries.
pub open spec fn vanilla_prefix() -> Seq<char> {
    "minecraft:"@
}

/// The serializer named by a full identifier: `minecraft:` and a known path.
pub open spec fn serializer_of(identifier: Seq<char>) -> Option<RecipeSerializer> {
    if identifier.len() >= vanilla_prefix().len() && identifier.take(vanilla_prefix().len() as int) == vanilla_prefix() {
        serializer_of_path(identifier.skip(vanilla_prefix().len() as int))
    } else {
        None
    }
}

impl CookingSerializer {
    pub fn from_path(path: &str) -> (r: Option<CookingSerializer>)
        ensures
            r == cooking_serializer_of(path@),
    {
        if str_eq(path, "smelting") {
            Some(CookingSerializer::Smelting)
        } else if str_eq(path, "blasting") {
            Some(CookingSerializer::Blasting)
        } else if str_eq(path, "smoking") {
            Some(CookingSerializer::Smoking)
        } else if str_eq(path, "campfire_cooking") {
            Some(CookingSerializer::CampfireCooking)
        } else {
            None
        }
    }

    /// The cooking time of a recipe that names none: 200 ticks for smelting,
    /// 100 for the others.
    pub open spec fn spec_default_cooking_time(self) -> i32 {
        match self {
            CookingSerializer::Smelting => 200,
            _ => 100,
        }
    }

    pub fn default_cooking_time(self) -> (r: i32)
        ensures
            r == self.spec_default_cooking_time(),
    {
        match self {
            CookingSerializer::Smelting => 200,
            _ => 100,
        }
    }

    /// The path of the recipe type this serializer's recipes belong to.
    pub open spec fn recipe_type_path(self) -> Seq<char> {
        match self {
            CookingSerializer::Smelting => "smelting"@,
            CookingSerializer::Blasting => "blasting"@,
            CookingSerializer::Smoking => "smoking"@,
            CookingSerializer::CampfireCooking => "campfire_cooking"@,
        }
    }

    pub fn recipe_type(self) -> (r: RecipeType)
        ensures
            r.entry.key.namespace@ == "minecraft"@,
            r.entry.key.path@ == self.recipe_type_path(),
    {
        match self {
            CookingSerializer::Smelting => smelting(),
            CookingSerializer::Blasting => blasting(),
            CookingSerializer::Smoking => smoking(),
            CookingSerializer::CampfireCooking => campfire_cooking(),
        }
    }
}

fn smithing_serializer(path: &str) -> (r: Option<SmithingSerializer>)
    ensures
        r == smithing_serializer_of(path@),
{
    if str_eq(path, "smithing_transform") {
        Some(SmithingSerializer::Transform)
    } else if str_eq(path, "smithing_trim") {
        Some(SmithingSerializer::Trim)
    } else {
        None
    }
}

impl RecipeSerializer {
    /// The serializer a recipe definition's `type` names, if it is a known
    /// `minecraft:` serializer.
    pub fn from_identifier(identifier: &str) -> (r: Option<RecipeSerializer>)
        ensures
            r == serializer_of(identifier@),
    {
        proof {
            reveal_strlit("minecraft:");
        }
        let n = identifier.unicode_len();
        if n < 10 {
            return None;
        }
        let head = identifier.substring_char(0, 10);
        if !str_eq(head, "minecraft:") {
            assert(identifier@.take(10) =~= head@);
            return None;
        }
        assert(identifier@.take(10) =~= head@);
        let path = identifier.substring_char(10, n);
        assert(path@ =~= identifier@.skip(10));
        if let Some(c) = crafting_serializer(path) {
            return Some(RecipeSerializer::Crafting(c));
        }
        if let Some(c) = CookingSerializer::from_path(path) {
            return Some(RecipeSerializer::Cooking(c));
        }
        if str_eq(path, "stonecutting") {
            return Some(RecipeSerializer::Stonecutting);
        }
        match smithing_serializer(path) {
            Some(s) => Some(RecipeSerializer::Smithing(s)),
            None => None,
        }
    }

    /// The path of the operational recipe type of this serializer's recipes.
    pub open spec fn recipe_type_path(self) -> Seq<char> {
        match self {
            RecipeSerializer::Crafting(_) => "crafting"@,
            RecipeSerializer::Cooking(c) => c.recipe_type_path(),
            RecipeSerializer::Stonecutting => "stonecutting"@,
            RecipeSerializer::Smithing(_) => "smithing"@,
        }
    }

    pub fn recipe_type(self) -> (r: RecipeType)
        ensures
            r.entry.key.namespace@ == "minecraft"@,
            r.entry.key.path@ == self.recipe_type_path(),
    {
        match self {
            RecipeSerializer::Crafting(_) => crafting(),
            RecipeSerializer::Cooking(c) => c.recipe_type(),
            RecipeSerializer::Stonecutting => stonecutting(),
            RecipeSerializer::Smithing(_) => smithing(),
        }
    }
}

/// The crafting book category a definition names; `misc` when it names none.
pub open spec fn crafting_category_of(name: Option<Seq<char>>) -> Option<CraftingBookCategory> {
    match name {
        None => Some(CraftingBookCategory::Misc),
        Some(n) => if n == "building"@ {
            Some(CraftingBookCategory::Building)
        } else if n == "redstone"@ {
            Some(CraftingBookCategory::Redstone)
        } else if n == "equipment"@ {
            Some(CraftingBookCategory::Equipment)
        } else if n == "misc"@ {
            Some(CraftingBookCategory::Misc)
        } else {
            None
        },
    }
}

/// The crafting book category of a definition; `None` for an unknown name.
pub fn crafting_category(name: Option<&str>) -> (r: Option<CraftingBookCategory>)
    ensures
        r == crafting_category_of(match name { Some(n) => Some(n@), None => None }),
{
    match name {
        None => Some(CraftingBookCategory::Misc),
        Some(n) => if str_eq(n, "building") {
            Some(CraftingBookCategory::Building)
        } else if str_eq(n, "redstone") {
            Some(CraftingBookCategory::Redstone)
        } else if str_eq(n, "equipment") {
            Some(CraftingBookCategory::Equipment)
        } else if str_eq(n, "misc") {
            Some(CraftingBookCategory::Misc)
        } else {
            None
        },
    }
}

/// The cooking book category a definition names; `misc` when it names none.
pub open spec fn cooking_category_of(name: Option<Seq<char>>) -> Option<CookingBookCategory> {
    match name {
        None => Some(CookingBookCategory::Misc),
        Some(n) => if n == "food"@ {
            Some(CookingBookCategory::Food)
        } else if n == "blocks"@ {
            Some(CookingBookCategory::Blocks)
        } else if n == "misc"@ {
            Some(CookingBookCategory::Misc)
        } else {
            None
        },
    }
}

/// The cooking book category of a definition; `None` for an unknown name.
pub fn cooking_category(name: Option<&str>) -> (r: Option<CookingBookCategory>)
    ensures
        r == cooking_category_of(match name { Some(n) => Some(n@), None => None }),
{
    match name {
        None => Some(CookingBookCategory::Misc),
        Some(n) => if str_eq(n, "food") {
            Some(CookingBookCategory::Food)
        } else if str_eq(n, "blocks") {
            Some(CookingBookCategory::Blocks)
        } else if str_eq(n, "misc") {
            Some(CookingBookCategory::Misc)
        } else {
            None
        },
    }
}

/// The widest row of a pattern.
pub open spec fn pattern_width(rows: Seq<Seq<char>>) -> nat
    decreases rows.len(),
{
    if rows.len() == 0 {
        0
    } else {
        let w = pattern_width(rows.drop_last());
        if rows.last().len() > w { rows.last().len() } else { w }
    }
}

/// The character at column `x` of row `y`; rows shorter than the pattern
/// are padded with spaces.
pub open spec fn pattern_char(rows: Seq<Seq<char>>, x: int, y: int) -> char {
    if x < rows[y].len() { rows[y][x] } else { ' ' }
}

/// The ingredient the first key entry for `c` maps to.
pub open spec fn key_lookup(key: Seq<(char, IngredientModel)>, c: char) -> Option<IngredientModel>
    decreases key.len(),
{
    if key.len() == 0 {
        None
    } else if key[0].0 == c {
        Some(key[0].1)
    } else {
        key_lookup(key.drop_first(), c)
    }
}

/// The ingredient of a pattern cell: empty for a space, else what the key
/// maps its character to (`None` when the key lacks it).
pub open spec fn pattern_cell(rows: Seq<Seq<char>>, key: Seq<(char, IngredientModel)>, x: int, y: int) -> Option<IngredientModel> {
    let c = pattern_char(rows, x, y);
    if c == ' ' {
        Some(IngredientModel::Empty)
    } else {
        key_lookup(key, c)
    }
}

pub open spec fn rows_view(rows: Seq<&str>) -> Seq<Seq<char>> {
    rows.map_values(|r: &str| r@)
}

pub open spec fn key_view(key: Seq<(char, Ingredient)>) -> Seq<(char, IngredientModel)> {
    key.map_values(|e: (char, Ingredient)| (e.0, e.1@))
}

/// Cell `(x2, y2)` comes before `(x, y)` in row-major order.
pub open spec fn cell_before(x2: int, y2: int, x: int, y: int) -> bool {
    y2 < y || (y2 == y && x2 < x)
}

/// `cells` is the row-major grid of the pattern: as wide as its widest row,
/// as high as its number of rows, each cell the pattern's ingredient there.
pub open spec fn pattern_laid_out(rv: Seq<Seq<char>>, kv: Seq<(char, IngredientModel)>, width: int, height: int, cells: Seq<Ingredient>) -> bool {
    &&& width == pattern_width(rv)
    &&& height == rv.len()
    &&& cells.len() == width * height
    &&& forall|x: int, y: int| 0 <= x < width && 0 <= y < height ==> pattern_cell(rv, kv, x, y) == Some(#[trigger] cells[y * width + x]@)
}

/// `c` is the character of the first cell, in row-major order, whose
/// character the key lacks.
pub open spec fn first_missing_key(rv: Seq<Seq<char>>, kv: Seq<(char, IngredientModel)>, c: char) -> bool {
    exists|x: int, y: int| {
        &&& 0 <= x < pattern_width(rv) && 0 <= y < rv.len()
        &&& #[trigger] pattern_cell(rv, kv, x, y) is None
        &&& pattern_char(rv, x, y) == c
        &&& forall|x2: int, y2: int| 0 <= x2 < pattern_width(rv) && 0 <= y2 < rv.len() && cell_before(x2, y2, x, y) ==> #[trigger] pattern_cell(rv, kv, x2, y2) is Some
    }
}

fn lookup_key(key: &[(char, Ingredient)], c: char) -> (r: Option<Ingredient>)
    ensures
        match key_lookup(key_view(key@), c) {
            Some(i) => r matches Some(g) && g@ == i,
            None => r is None,
        },
{
    let mut i: usize = 0;
    assert(key_view(key@).skip(0) =~= key_view(key@));
    while i < key.len()
        invariant
            i <= key@.len(),
            key_lookup(key_view(key@).skip(i as int), c) == key_lookup(key_view(key@), c),
        decreases key@.len() - i,
    {
        proof {
            assert(key_view(key@).skip(i as int).drop_first() =~= key_view(key@).skip(i + 1));
            assert(key_view(key@).skip(i as int)[0] == (key@[i as int].0, key@[i as int].1@));
        }
        if key[i].0 == c {
            return Some(key[i].1.duplicate());
        }
        i += 1;
    }
    None
}

fn widest_row(rows: &Vec<Vec<char>>) -> (r: usize)
    ensures
        r == pattern_width(rows@.map_values(|v: Vec<char>| v@)),
{
    let ghost rv = rows@.map_values(|v: Vec<char>| v@);
    let mut w: usize = 0;
    let mut i: usize = 0;
    while i < rows.len()
        invariant
            i <= rows@.len(),
            rv == rows@.map_values(|v: Vec<char>| v@),
            w == pattern_width(rv.take(i as int)),
        decreases rows@.len() - i,
    {
        proof {
            assert(rv.take(i + 1).drop_last() =~= rv.take(i as int));
        }
        if rows[i].len() > w {
            w = rows[i].len();
        }
        i += 1;
    }
    assert(rv.take(rows@.len() as int) =~= rv);
    w
}

/// The pattern grid of a shaped recipe: `width` is the widest row, `height`
/// the number of rows, and cell `(x, y)` of the row-major grid is empty for
/// a space (or past the end of a short row), else the key's ingredient for
/// its character. Fails with the first character, in row-major order, that
/// the key lacks.
pub fn shaped_pattern(rows: &[&str], key: &[(char, Ingredient)]) -> (r: Result<(usize, usize, Vec<Ingredient>), char>)
    requires
        pattern_width(rows_view(rows@)) * rows@.len() <= usize::MAX,
    ensures
        match r {
            Ok((width, height, cells)) => pattern_laid_out(rows_view(rows@), key_view(key@), width as int, height as int, cells@),
            Err(c) => first_missing_key(rows_view(rows@), key_view(key@), c),
        },
{
    let ghost rv = rows_view(rows@);
    let ghost kv = key_view(key@);
    let mut grid: Vec<Vec<char>> = Vec::new();
    let mut i: usize = 0;
    while i < rows.len()
        invariant
            i <= rows@.len(),
            rv == rows_view(rows@),
            grid@.len() == i,
            forall|k: int| 0 <= k < i ==> #[trigger] grid@[k]@ == rv[k],
        decreases rows@.len() - i,
    {
        grid.push(chars_of(rows[i]));
        i += 1;
    }
    assert(grid@.map_values(|v: Vec<char>| v@) =~= rv);
    let width = widest_row(&grid);
    let height = rows.len();
    let ghost w = width as int;
    let mut cells: Vec<Ingredient> = Vec::new();
    let mut y: usize = 0;
    while y < height
        invariant
            height == rows@.len(),
            w == width,
            w == pattern_width(rv) as int,
            w * height <= usize::MAX,
            y <= height,
            grid@.len() == height,
            forall|k: int| 0 <= k < height ==> #[trigger] grid@[k]@ == rv[k],
            kv == key_view(key@),
            rv == rows_view(rows@),
            cells@.len() == y * w,
            forall|x2: int, y2: int| 0 <= x2 < w && 0 <= y2 < y ==> pattern_cell(rv, kv, x2, y2) == Some(#[trigger] cells@[y2 * w + x2]@),
        decreases height - y,
    {
        let mut x: usize = 0;
        while x < width
            invariant
                height == rows@.len(),
                w == width,
                w == pattern_width(rv) as int,
                w * height <= usize::MAX,
                y < height,
                grid@.len() == height,
                forall|k: int| 0 <= k < height ==> #[trigger] grid@[k]@ == rv[k],
                kv == key_view(key@),
                rv == rows_view(rows@),
                x <= width,
                cells@.len() == y * w + x,
                forall|x2: int, y2: int| 0 <= x2 < w && 0 <= y2 < y ==> pattern_cell(rv, kv, x2, y2) == Some(#[trigger] cells@[y2 * w + x2]@),
                forall|x2: int| 0 <= x2 < x ==> pattern_cell(rv, kv, x2, y as int) == Some(#[trigger] cells@[y * w + x2]@),
            decreases width - x,
        {
            let row = &grid[y];
            assert(row@ == rv[y as int]);
            let c = if x < row.len() { row[x] } else { ' ' };
            assert(c == pattern_char(rv, x as int, y as int));
            if c == ' ' {
                cells.push(Ingredient::Empty);
            } else {
                match lookup_key(key, c) {
                    Some(ingredient) => cells.push(ingredient),
                    None => {
                        proof {
                            assert forall|x2: int, y2: int| 0 <= x2 < w && 0 <= y2 < height && cell_before(x2, y2, x as int, y as int)
                                implies #[trigger] pattern_cell(rv, kv, x2, y2) is Some by {
                                if y2 < y {
                                    assert(pattern_cell(rv, kv, x2, y2) == Some(cells@[y2 * w + x2]@));
                                } else {
                                    assert(pattern_cell(rv, kv, x2, y as int) == Some(cells@[y * w + x2]@));
                                }
                            }
                            assert(pattern_cell(rv, kv, x as int, y as int) is None);
                            assert(rv.len() == height);
                            assert(pattern_char(rv, x as int, y as int) == c);
                            assert(first_missing_key(rv, kv, c));
                        }
                        return Err(c);
                    },
                }
            }
            proof {
                let len = y * w + x;
                assert(cells@[len]@ == pattern_cell(rv, kv, x as int, y as int)->0);
                assert forall|x2: int, y2: int| 0 <= x2 < w && 0 <= y2 < y implies pattern_cell(rv, kv, x2, y2) == Some(#[trigger] cells@[y2 * w + x2]@) by {
                    assert(y2 * w + x2 < len) by (nonlinear_arith) requires 0 <= x2 < w, 0 <= y2 < y, len == y * w + x, x >= 0;
                }
                assert forall|x2: int| 0 <= x2 < x + 1 implies pattern_cell(rv, kv, x2, y as int) == Some(#[trigger] cells@[y * w + x2]@) by {}
            }
            x += 1;
        }
        proof {
            assert((y + 1) * w == y * w + w) by (nonlinear_arith);
        }
        y += 1;
    }
    proof {
        assert(height * w == w * height) by (nonlinear_arith);
        assert(pattern_laid_out(rv, kv, width as int, height as int, cells@));
    }
    Ok((width, height, cells))
}

/// A shaped recipe built from its pattern rows and key, as
/// [`shaped_pattern`] lays them out.
pub fn shaped_from_pattern(properties: RecipeProperties, rows: &[&str], key: &[(char, Ingredient)], result: ItemStackTemplate) -> (r: Result<ShapedRecipe, char>)
    requires
        pattern_width(rows_view(rows@)) * rows@.len() <= usize::MAX,
    ensures
        match r {
            Ok(recipe) => {
                &&& pattern_laid_out(rows_view(rows@), key_view(key@), recipe.width as int, recipe.height as int, recipe.pattern@)
                &&& recipe.result@ == result@
                &&& recipe.properties.special == properties.special
                &&& properties.placement is None ==> (recipe.properties.placement matches Some(p) && p@ == optional_placement(recipe.pattern_view()))
            },
            Err(c) => first_missing_key(rows_view(rows@), key_view(key@), c),
        },
{
    match shaped_pattern(rows, key) {
        Ok((width, height, cells)) => {
            let ghost cv = cells@;
            let recipe = ShapedRecipe::new(properties, width, height, cells, result);
            proof {
                let rv = rows_view(rows@);
                let kv = key_view(key@);
                let w = width as int;
                assert(recipe.pattern_view() == ingredients_view(cv));
                assert(ingredients_view(recipe.pattern@) == ingredients_view(cv));
                assert(recipe.pattern@.len() == cv.len());
                assert forall|x: int, y: int| 0 <= x < w && 0 <= y < height implies pattern_cell(rv, kv, x, y) == Some(#[trigger] recipe.pattern@[y * w + x]@) by {
                    assert(0 <= y * w + x < w * height) by (nonlinear_arith) requires 0 <= x < w, 0 <= y < height;
                    assert(ingredients_view(recipe.pattern@)[y * w + x] == recipe.pattern@[y * w + x]@);
                    assert(ingredients_view(cv)[y * w + x] == cv[y * w + x]@);
                    assert(pattern_cell(rv, kv, x, y) == Some(cv[y * w + x]@));
                }
            }
            Ok(recipe)
        },
        Err(c) => Err(c),
    }
}

/// A transmute recipe; its placement is the input followed by the largest
/// allowed number of material slots, all required.
pub fn transmute_recipe(
    properties: RecipeProperties,
    input: Ingredient,
    material: Ingredient,
    min_material_count: usize,
    max_material_count: usize,
    result: ItemStackTemplate,
    add_material_count_to_result: bool,
) -> (r: TransmuteRecipe)
    requires
        max_material_count < usize::MAX,
    ensures
        r.input@ == input@,
        r.material@ == material@,
        r.min_material_count == min_material_count,
        r.max_material_count == max_material_count,
        r.result@ == result@,
        r.add_material_count_to_result == add_material_count_to_result,
        r.properties.special == properties.special,
        r.properties.placement matches Some(p) && p@ == required_placement(
            seq![input@] + Seq::new(max_material_count as nat, |k: int| material@)),
{
    let mut placement: Vec<Ingredient> = Vec::new();
    placement.push(input.duplicate());
    let mut k: usize = 0;
    while k < max_material_count
        invariant
            k <= max_material_count,
            ingredients_view(placement@) == seq![input@] + Seq::new(k as nat, |j: int| material@),
        decreases max_material_count - k,
    {
        let ghost prev = placement@;
        placement.push(material.duplicate());
        assert(ingredients_view(placement@) =~= ingredients_view(prev).push(material@));
        k += 1;
        assert(ingredients_view(prev).push(material@) =~= seq![input@] + Seq::new(k as nat, |j: int| material@));
    }
    let mut properties = properties;
    properties.placement = Some(PlacementInfo::from_ingredients(placement.as_slice()));
    TransmuteRecipe {
        properties,
        input,
        material,
        min_material_count,
        max_material_count,
        result,
        add_material_count_to_result,
    }
}

/// A dye recipe; its placement is the target and the dye, both required.
pub fn dye_recipe(properties: RecipeProperties, target: Ingredient, dye: Ingredient, result: ItemStackTemplate) -> (r: DyeRecipe)
    ensures
        r.target@ == target@,
        r.dye@ == dye@,
        r.result@ == result@,
        r.properties.special == properties.special,
        r.properties.placement matches Some(p) && p@ == required_placement(seq![target@, dye@]),
{
    let placement = vec![target.duplicate(), dye.duplicate()];
    assert(ingredients_view(placement@) =~= seq![target@, dye@]);
    let mut properties = properties;
    properties.placement = Some(PlacementInfo::from_ingredients(placement.as_slice()));
    DyeRecipe { properties, target, dye, result }
}

/// An imbue recipe; its placement is a three-by-three ring of material
/// around the source, all required.
pub fn imbue_recipe(properties: RecipeProperties, source: Ingredient, material: Ingredient, result: ItemStackTemplate) -> (r: ImbueRecipe)
    ensures
        r.source@ == source@,
        r.material@ == material@,
        r.result@ == result@,
        r.properties.special == properties.special,
        r.properties.placement matches Some(p) && p@ == required_placement(
            seq![material@, material@, material@, material@, source@, material@, material@, material@, material@]),
{
    let placement = vec![
        material.duplicate(), material.duplicate(), material.duplicate(), material.duplicate(),
        source.duplicate(),
        material.duplicate(), material.duplicate(), material.duplicate(), material.duplicate(),
    ];
    assert(ingredients_view(placement@) =~= seq![material@, material@, material@, material@, source@, material@, material@, material@, material@]);
    let mut properties = properties;
    properties.placement = Some(PlacementInfo::from_ingredients(placement.as_slice()));
    ImbueRecipe { properties, source, material, result }
}

/// A cooking recipe; its placement is the single ingredient, and a missing
/// cooking time is the serializer's default.
pub fn cooking_recipe(
    serializer: CookingSerializer,
    properties: RecipeProperties,
    ingredient: Ingredient,
    result: ItemStackTemplate,
    experience_bits: u32,
    cooking_time: Option<i32>,
) -> (r: CookingRecipe)
    ensures
        r.ingredient@ == ingredient@,
        r.result@ == result@,
        r.experience_bits == experience_bits,
        r.cooking_time == match cooking_time {
            Some(t) => t,
            None => serializer.spec_default_cooking_time(),
        },
        r.properties.special == properties.special,
        r.properties.placement matches Some(p) && p@ == required_placement(seq![ingredient@]),
{
    let time = match cooking_time {
        Some(t) => t,
        None => serializer.default_cooking_time(),
    };
    let mut properties = properties;
    properties.placement = Some(PlacementInfo::from_ingredient(ingredient.duplicate()));
    CookingRecipe { properties, ingredient, result, experience_bits, cooking_time: time }
}

/// A stonecutting recipe; its placement is the single ingredient.
pub fn stonecutting_recipe(properties: RecipeProperties, ingredient: Ingredient, result: ItemStackTemplate) -> (r: StonecuttingRecipe)
    ensures
        r.ingredient@ == ingredient@,
        r.result@ == result@,
        r.properties.special == properties.special,
        r.properties.placement matches Some(p) && p@ == required_placement(seq![ingredient@]),
{
    let mut properties = properties;
    properties.placement = Some(PlacementInfo::from_ingredient(ingredient.duplicate()));
    StonecuttingRecipe { properties, ingredient, result }
}

/// The model of an optional ingredient slot: empty when absent.
pub open spec fn or_empty(i: Option<Ingredient>) -> IngredientModel {
    match i {
        Some(g) => g@,
        None => IngredientModel::Empty,
    }
}

fn duplicate_or_empty(i: &Option<Ingredient>) -> (r: Ingredient)
    ensures
        r@ == or_empty(*i),
{
    match i {
        Some(g) => g.duplicate(),
        None => Ingredient::Empty,
    }
}

/// A smithing transform recipe; its placement is template, base and
/// addition, an absent one being an empty slot.
pub fn smithing_transform_recipe(
    properties: RecipeProperties,
    template: Option<Ingredient>,
    base: Ingredient,
    addition: Option<Ingredient>,
    result: ItemStackTemplate,
) -> (r: SmithingTransformRecipe)
    ensures
        r.base@ == base@,
        or_empty(r.template) == or_empty(template),
        r.template is Some == template is Some,
        or_empty(r.addition) == or_empty(addition),
        r.addition is Some == addition is Some,
        r.result@ == result@,
        r.properties.special == properties.special,
        r.properties.placement matches Some(p) && p@ == optional_placement(
            seq![or_empty(template), base@, or_empty(addition)]),
{
    let placement = vec![duplicate_or_empty(&template), base.duplicate(), duplicate_or_empty(&addition)];
    assert(ingredients_view(placement@) =~= seq![or_empty(template), base@, or_empty(addition)]);
    let mut properties = properties;
    properties.placement = Some(PlacementInfo::from_optional_ingredients(placement.as_slice()));
    SmithingTransformRecipe { properties, template, base, addition, result }
}

/// A smithing trim recipe; its placement is template, base and addition,
/// all required.
pub fn smithing_trim_recipe(
    properties: RecipeProperties,
    template: Ingredient,
    base: Ingredient,
    addition: Ingredient,
    pattern: u32,
) -> (r: SmithingTrimRecipe)
    ensures
        r.template@ == template@,
        r.base@ == base@,
        r.addition@ == addition@,
        r.pattern == pattern,
        r.properties.special == properties.special,
        r.properties.placement matches Some(p) && p@ == required_placement(seq![template@, base@, addition@]),
{
    let placement = vec![template.duplicate(), base.duplicate(), addition.duplicate()];
    assert(ingredients_view(placement@) =~= seq![template@, base@, addition@]);
    let mut properties = properties;
    properties.placement = Some(PlacementInfo::from_ingredients(placement.as_slice()));
    SmithingTrimRecipe { properties, template, base, addition, pattern }
}

} // verus!
