//! Crafting recipe data and the immutable crafting-grid snapshot they match against.

use vstd::prelude::*;

use crate::components::FireworkExplosionShape;
use crate::ingredient::{ingredients_view, Ingredient, IngredientModel};
use crate::item_stack::{ItemStack, ItemStackModel, ItemStackTemplate};
use crate::recipe::properties::{optional_placement, required_placement, PlacementInfo, RecipeProperties};
use crate::util::count;

verus! {

pub open spec fn stacks_view(s: Seq<ItemStack>) -> Seq<ItemStackModel> {
    s.map_values(|x: ItemStack| x@)
}

pub open spec fn is_occupied(s: ItemStackModel) -> bool {
    !s.is_empty()
}

/// Number of non-empty stacks.
pub open spec fn occupied_count(s: Seq<ItemStackModel>) -> nat {
    count(s, |x: ItemStackModel| is_occupied(x))
}

/// Saved-map facts needed by the map-extending matcher.
#[derive(Debug, Clone, Copy, PartialEq, Eq, Structural)]
pub struct MapRecipeData {
    pub exploration_map: bool,
    pub scale: u8,
}

/// Positioned, immutable crafting-grid snapshot.
#[derive(Debug)]
pub struct CraftingInput {
    pub width: usize,
    pub height: usize,
    pub items: Vec<ItemStack>,
    pub ingredient_count: usize,
    pub map_data: Vec<Option<MapRecipeData>>,
}

impl CraftingInput {
    pub open spec fn stacks(&self) -> Seq<ItemStackModel> {
        stacks_view(self.items@)
    }

    /// The grid holds `width * height` stacks and its cached facts agree with them.
    pub open spec fn wf(&self) -> bool {
        &&& self.items@.len() == self.width * self.height
        &&& self.ingredient_count == occupied_count(self.stacks())
        &&& self.map_data@.len() == self.items@.len()
    }

    pub open spec fn spec_map_data(&self) -> Seq<Option<MapRecipeData>> {
        self.map_data@
    }

    pub open spec fn stack_at(&self, x: int, y: int) -> ItemStackModel {
        self.stacks()[y * self.width + x]
    }
}

} // verus!

verus! {

/// Row-major position of cell `(x, y)` in a grid `w` cells wide.
pub open spec fn idx(w: int, x: int, y: int) -> int {
    y * w + x
}

/// A cell inside a `w` by `h` grid has a row-major position inside the grid.
pub proof fn lemma_idx_bound(w: int, h: int, x: int, y: int)
    requires
        0 <= x < w,
        0 <= y < h,
    ensures
        0 <= idx(w, x, y) < w * h,
        0 <= y * w,
        y * w + w <= w * h,
{
    assert(0 <= y * w) by (nonlinear_arith)
        requires
            0 <= y,
            0 <= w,
    ;
    assert(y * w + w <= w * h) by (nonlinear_arith)
        requires
            y < h,
            0 <= w,
    ;
}

/// The cell below is one row width further on.
pub proof fn lemma_idx_next_row(w: int, x: int, y: int)
    ensures
        idx(w, x, y + 1) == idx(w, x, y) + w,
{
    assert((y + 1) * w == y * w + w) by (nonlinear_arith);
}

/// Whether `(x, y)` holds a non-empty stack in the `w`-wide grid `s`.
pub open spec fn occupied_at(s: Seq<ItemStackModel>, w: int, x: int, y: int) -> bool {
    is_occupied(s[idx(w, x, y)])
}

/// The smallest rectangle `left..=right` by `top..=bottom` that holds every
/// non-empty stack of the `w` by `h` grid `s`, with each edge touching one.
pub open spec fn is_bounding_box(
    s: Seq<ItemStackModel>,
    w: int,
    h: int,
    left: int,
    right: int,
    top: int,
    bottom: int,
) -> bool {
    &&& 0 <= left <= right < w
    &&& 0 <= top <= bottom < h
    &&& forall|x: int, y: int|
        0 <= x < w && 0 <= y < h && #[trigger] occupied_at(s, w, x, y) ==> left <= x <= right
            && top <= y <= bottom
    &&& exists|y: int| 0 <= y < h && occupied_at(s, w, left, y)
    &&& exists|y: int| 0 <= y < h && occupied_at(s, w, right, y)
    &&& exists|x: int| 0 <= x < w && occupied_at(s, w, x, top)
    &&& exists|x: int| 0 <= x < w && occupied_at(s, w, x, bottom)
}

pub open spec fn grid_has_occupied(s: Seq<ItemStackModel>, w: int, h: int) -> bool {
    exists|x: int, y: int| 0 <= x < w && 0 <= y < h && #[trigger] occupied_at(s, w, x, y)
}

impl CraftingInput {
    /// An empty zero-by-zero grid.
    pub fn empty() -> (r: CraftingInput)
        ensures
            r.wf(),
            r.width == 0,
            r.height == 0,
            r.items@.len() == 0,
    {
        let r = CraftingInput {
            width: 0,
            height: 0,
            items: Vec::new(),
            ingredient_count: 0,
            map_data: Vec::new(),
        };
        assert(r.stacks() =~= Seq::<ItemStackModel>::empty());
        r
    }

    /// A snapshot of a `width` by `height` grid with no map data attached.
    pub fn new(width: usize, height: usize, items: Vec<ItemStack>) -> (r: CraftingInput)
        requires
            items@.len() == width * height,
        ensures
            r.wf(),
            r.width == width,
            r.height == height,
            r.stacks() == stacks_view(items@),
            forall|k: int| 0 <= k < r.map_data@.len() ==> r.map_data@[k] is None,
    {
        let ghost s = stacks_view(items@);
        let mut n: usize = 0;
        let mut map_data: Vec<Option<MapRecipeData>> = Vec::new();
        let mut i: usize = 0;
        while i < items.len()
            invariant
                i <= items.len(),
                s == stacks_view(items@),
                n == occupied_count(s.take(i as int)),
                n <= i,
                map_data@.len() == i,
                forall|k: int| 0 <= k < i ==> map_data@[k] is None,
            decreases items.len() - i,
        {
            proof {
                crate::util::lemma_count_step(s, |x: ItemStackModel| is_occupied(x), i as int);
            }
            if !items[i].is_empty() {
                n += 1;
            }
            map_data.push(None);
            i += 1;
        }
        proof {
            crate::util::lemma_take_full(s);
        }
        CraftingInput { width, height, items, ingredient_count: n, map_data }
    }

    /// The same snapshot with map data attached to `slot` (ignored when out of range).
    pub fn with_map_data(self, slot: usize, data: MapRecipeData) -> (r: CraftingInput)
        ensures
            r.width == self.width,
            r.height == self.height,
            r.stacks() == self.stacks(),
            r.ingredient_count == self.ingredient_count,
            r.map_data@ == if slot < self.map_data@.len() {
                self.map_data@.update(slot as int, Some(data))
            } else {
                self.map_data@
            },
    {
        let mut this = self;
        if slot < this.map_data.len() {
            this.map_data.set(slot, Some(data));
        }
        this
    }

    /// The map data attached to `slot`, if any.
    pub fn map_data(&self, slot: usize) -> (r: Option<MapRecipeData>)
        ensures
            r == if slot < self.map_data@.len() {
                self.map_data@[slot as int]
            } else {
                None
            },
    {
        if slot < self.map_data.len() {
            self.map_data[slot]
        } else {
            None
        }
    }

    /// The stack at column `x`, row `y`.
    pub fn get(&self, x: usize, y: usize) -> (r: &ItemStack)
        requires
            self.wf(),
            x < self.width,
            y < self.height,
        ensures
            r@ == self.stack_at(x as int, y as int),
    {
        proof {
            lemma_idx_bound(self.width as int, self.height as int, x as int, y as int);
        }
        let total = self.items.len();
        &self.items[y * self.width + x]
    }

    /// Number of non-empty stacks.
    pub fn ingredient_count(&self) -> (r: usize)
        ensures
            r == self.ingredient_count,
    {
        self.ingredient_count
    }

    /// The grid cropped to the smallest rectangle that holds every non-empty
    /// stack, with that rectangle's offset in the original grid.
    pub fn positioned(width: usize, height: usize, items: Vec<ItemStack>) -> (r:
        PositionedCraftingInput)
        requires
            width == 0 || height == 0 || items@.len() == width * height,
        ensures
            is_positioned(width as int, height as int, stacks_view(items@), r),
    {
        let ghost s = stacks_view(items@);
        let total = items.len();
        if width == 0 || height == 0 {
            return PositionedCraftingInput::empty();
        }
        let mut left: usize = width;
        let mut right: usize = 0;
        let mut top: usize = height;
        let mut bottom: usize = 0;
        let mut found = false;
        let mut y: usize = 0;
        while y < height
            invariant
                0 < width,
                0 < height,
                y <= height,
                items@.len() == width * height,
                width * height <= usize::MAX,
                s == stacks_view(items@),
                found ==> bottom < y,
                found == exists|x: int, yy: int|
                    0 <= x < width && 0 <= yy < y && #[trigger] occupied_at(s, width as int, x, yy),
                found ==> left <= right < width && top <= bottom < height,
                !found ==> left == width && top == height && right == 0 && bottom == 0,
                forall|x: int, yy: int|
                    0 <= x < width && 0 <= yy < y && #[trigger] occupied_at(s, width as int, x, yy)
                        ==> left <= x <= right && top <= yy <= bottom,
                found ==> exists|yy: int| 0 <= yy < y && occupied_at(s, width as int, left as int, yy),
                found ==> exists|yy: int|
                    0 <= yy < y && occupied_at(s, width as int, right as int, yy),
                found ==> exists|x: int| 0 <= x < width && occupied_at(s, width as int, x, top as int),
                found ==> exists|x: int|
                    0 <= x < width && occupied_at(s, width as int, x, bottom as int),
            decreases height - y,
        {
            let mut x: usize = 0;
            while x < width
                invariant
                    0 < width,
                    0 < height,
                    y < height,
                    x <= width,
                    items@.len() == width * height,
                    width * height <= usize::MAX,
                    s == stacks_view(items@),
                    found == exists|xx: int, yy: int|
                        0 <= xx < width && (0 <= yy < y || (yy == y && xx < x))
                            && #[trigger] occupied_at(s, width as int, xx, yy),
                    found ==> left <= right < width && top <= bottom <= y,
                    !found ==> left == width && top == height && right == 0 && bottom == 0,
                    forall|xx: int, yy: int|
                        0 <= xx < width && (0 <= yy < y || (yy == y && xx < x))
                            && #[trigger] occupied_at(s, width as int, xx, yy) ==> left <= xx
                            <= right && top <= yy <= bottom,
                    found ==> exists|yy: int|
                        0 <= yy <= y && occupied_at(s, width as int, left as int, yy),
                    found ==> exists|yy: int|
                        0 <= yy <= y && occupied_at(s, width as int, right as int, yy),
                    found ==> exists|xx: int|
                        0 <= xx < width && occupied_at(s, width as int, xx, top as int),
                    found ==> exists|xx: int|
                        0 <= xx < width && occupied_at(s, width as int, xx, bottom as int),
                decreases width - x,
            {
                proof {
                    lemma_idx_bound(width as int, height as int, x as int, y as int);
                }
                if !items[y * width + x].is_empty() {
                    assert(occupied_at(s, width as int, x as int, y as int));
                    if !found || x < left {
                        left = x;
                    }
                    if !found || x > right {
                        right = x;
                    }
                    if !found || y < top {
                        top = y;
                    }
                    if !found || y > bottom {
                        bottom = y;
                    }
                    found = true;
                }
                x += 1;
            }
            y += 1;
        }
        if !found {
            return PositionedCraftingInput::empty();
        }
        let new_width = right - left + 1;
        let new_height = bottom - top + 1;
        proof {
            assert(new_width <= width);
            assert(new_height <= height);
            assert(new_width * new_height <= width * height) by (nonlinear_arith)
                requires
                    new_width <= width,
                    new_height <= height,
            ;
        }
        let mut positioned: Vec<ItemStack> = Vec::new();
        let mut yy: usize = 0;
        while yy < new_height
            invariant
                0 < new_width <= width,
                0 < new_height <= height,
                new_width * new_height <= width * height,
                left + new_width <= width,
                top + new_height <= height,
                yy <= new_height,
                items@.len() == width * height,
                width * height <= usize::MAX,
                s == stacks_view(items@),
                positioned@.len() == yy * new_width,
                forall|x: int, y2: int|
                    0 <= x < new_width && 0 <= y2 < yy ==> #[trigger] stacks_view(
                        positioned@,
                    )[idx(new_width as int, x, y2)] == s[idx(
                        width as int,
                        x + left,
                        y2 + top,
                    )],
            decreases new_height - yy,
        {
            let mut xx: usize = 0;
            while xx < new_width
                invariant
                    0 < new_width <= width,
                    0 < new_height <= height,
                    left + new_width <= width,
                    top + new_height <= height,
                    yy < new_height,
                    xx <= new_width,
                    items@.len() == width * height,
                    width * height <= usize::MAX,
                    s == stacks_view(items@),
                    positioned@.len() == yy * new_width + xx,
                    forall|x: int, y2: int|
                        0 <= x < new_width && (0 <= y2 < yy || (y2 == yy && x < xx))
                            ==> #[trigger] stacks_view(positioned@)[idx(new_width as int, x, y2)]
                            == s[idx(width as int, x + left, y2 + top)],
                decreases new_width - xx,
            {
                proof {
                    lemma_idx_bound(width as int, height as int, (xx + left) as int, (yy + top) as int);
                }
                let ghost before = positioned@;
                positioned.push(items[(xx + left) + (yy + top) * width].duplicate());
                proof {
                    assert forall|x: int, y2: int|
                        0 <= x < new_width && (0 <= y2 < yy || (y2 == yy && x < xx + 1))
                            implies #[trigger] stacks_view(positioned@)[idx(new_width as int, x, y2)]
                            == s[idx(width as int, x + left, y2 + top)] by {
                        lemma_idx_bound(new_width as int, yy as int + 1, x, y2);
                        if y2 < yy {
                            lemma_idx_bound(new_width as int, yy as int, x, y2);
                            assert(new_width * yy == yy * new_width) by (nonlinear_arith);
                            assert(stacks_view(positioned@)[idx(new_width as int, x, y2)]
                                == stacks_view(before)[idx(new_width as int, x, y2)]);
                        } else if x < xx {
                            assert(stacks_view(positioned@)[idx(new_width as int, x, y2)]
                                == stacks_view(before)[idx(new_width as int, x, y2)]);
                        }
                    }
                }
                xx += 1;
            }
            proof {
                lemma_idx_next_row(new_width as int, 0, yy as int);
            }
            yy += 1;
        }
        proof {
            assert(new_height * new_width == new_width * new_height) by (nonlinear_arith);
        }
        PositionedCraftingInput {
            input: Self::new(new_width, new_height, positioned),
            left,
            top,
        }
    }
}

/// `p` is the `w` by `h` grid `s` cropped to the smallest rectangle holding
/// all its non-empty stacks (an empty zero-by-zero grid when there are none),
/// with the rectangle's offset. The cropped grid carries no map data.
pub open spec fn is_positioned(w: int, h: int, s: Seq<ItemStackModel>, p: PositionedCraftingInput) -> bool {
    &&& p.input.wf()
    &&& forall|k: int| 0 <= k < p.input.map_data@.len() ==> p.input.map_data@[k] is None
    &&& !(w > 0 && h > 0 && grid_has_occupied(s, w, h)) ==> p.input.width == 0 && p.input.height == 0
        && p.left == 0 && p.top == 0
    &&& w > 0 && h > 0 && grid_has_occupied(s, w, h) ==> {
        &&& is_bounding_box(
            s,
            w,
            h,
            p.left as int,
            p.left + p.input.width - 1,
            p.top as int,
            p.top + p.input.height - 1,
        )
        &&& forall|x: int, y: int|
            0 <= x < p.input.width && 0 <= y < p.input.height ==> #[trigger] p.input.stacks()[idx(
                p.input.width as int,
                x,
                y,
            )] == s[idx(w, x + p.left, y + p.top)]
    }
}

/// Row `y` of the `w`-wide grid `s` holds a non-empty stack.
pub open spec fn row_occupied(s: Seq<ItemStackModel>, w: int, y: int) -> bool {
    exists|x: int| 0 <= x < w && #[trigger] occupied_at(s, w, x, y)
}

/// Column `x` of the `w`-wide, `h`-high grid `s` holds a non-empty stack.
pub open spec fn column_occupied(s: Seq<ItemStackModel>, w: int, h: int, x: int) -> bool {
    exists|y: int| 0 <= y < h && #[trigger] occupied_at(s, w, x, y)
}

/// The cropped grid of a grid holding some non-empty stack lies inside the
/// original grid, and its first and last row and its first and last column
/// each hold a non-empty stack, so no smaller rectangle holds them all.
pub proof fn lemma_positioned_edges(w: int, h: int, s: Seq<ItemStackModel>, p: PositionedCraftingInput)
    requires
        w > 0,
        h > 0,
        s.len() == w * h,
        grid_has_occupied(s, w, h),
        is_positioned(w, h, s, p),
    ensures
        p.input.width > 0,
        p.input.height > 0,
        p.left + p.input.width <= w,
        p.top + p.input.height <= h,
        row_occupied(p.input.stacks(), p.input.width as int, 0),
        row_occupied(p.input.stacks(), p.input.width as int, p.input.height - 1),
        column_occupied(p.input.stacks(), p.input.width as int, p.input.height as int, 0),
        column_occupied(p.input.stacks(), p.input.width as int, p.input.height as int, p.input.width - 1),
{
    let pw = p.input.width as int;
    let ph = p.input.height as int;
    let left = p.left as int;
    let top = p.top as int;
    let t = p.input.stacks();
    let x0 = choose|x: int| 0 <= x < w && occupied_at(s, w, x, top);
    assert(left <= x0 < left + pw);
    assert(t[idx(pw, x0 - left, 0)] == s[idx(w, x0 - left + left, 0 + top)]);
    let bottom = top + ph - 1;
    let right = left + pw - 1;
    let x1 = choose|x: int| 0 <= x < w && occupied_at(s, w, x, bottom);
    assert(left <= x1 < left + pw);
    assert(t[idx(pw, x1 - left, ph - 1)] == s[idx(w, x1 - left + left, ph - 1 + top)]);
    let y0 = choose|y: int| 0 <= y < h && occupied_at(s, w, left, y);
    assert(top <= y0 < top + ph);
    assert(t[idx(pw, 0, y0 - top)] == s[idx(w, 0 + left, y0 - top + top)]);
    let y1 = choose|y: int| 0 <= y < h && occupied_at(s, w, right, y);
    assert(top <= y1 < top + ph);
    assert(t[idx(pw, pw - 1, y1 - top)] == s[idx(w, pw - 1 + left, y1 - top + top)]);
    assert(occupied_at(t, pw, x0 - left, 0));
    assert(occupied_at(t, pw, x1 - left, ph - 1));
    assert(occupied_at(t, pw, 0, y0 - top));
    assert(occupied_at(t, pw, pw - 1, y1 - top));
}

/// Positioned input plus its offset in the original crafting grid.
#[derive(Debug)]
pub struct PositionedCraftingInput {
    pub input: CraftingInput,
    pub left: usize,
    pub top: usize,
}

impl PositionedCraftingInput {
    /// An empty positioned input at offset zero.
    pub fn empty() -> (r: PositionedCraftingInput)
        ensures
            r.input.wf(),
            r.input.width == 0,
            r.input.height == 0,
            r.left == 0,
            r.top == 0,
    {
        PositionedCraftingInput { input: CraftingInput::empty(), left: 0, top: 0 }
    }

    /// The slot of the original grid that position `(x, y)` of the cropped grid came from.
    pub fn to_grid_slot(&self, x: usize, y: usize, grid_width: usize) -> (r: usize)
        requires
            y + self.top <= usize::MAX,
            (x + self.left) + (y + self.top) * grid_width <= usize::MAX,
        ensures
            r == (x + self.left) + (y + self.top) * grid_width,
    {
        proof {
            assert(0 <= (y + self.top) * grid_width) by (nonlinear_arith)
                requires
                    0 <= y + self.top,
                    0 <= grid_width,
            ;
        }
        (x + self.left) + (y + self.top) * grid_width
    }
}

} // verus!

verus! {

/// Whether every row of the `w`-wide pattern reads the same left to right as right to left.
pub open spec fn spec_symmetric(w: int, p: Seq<IngredientModel>) -> bool {
    w == 0 || forall|x: int, y: int|
        0 <= y < (p.len() as int) / w && 0 <= x < w / 2 ==> #[trigger] p[idx(w, x, y)] == p[idx(
            w,
            w - 1 - x,
            y,
        )]
}

/// A shaped recipe pattern.
#[derive(Debug)]
pub struct ShapedRecipe {
    pub properties: RecipeProperties,
    pub width: usize,
    pub height: usize,
    pub pattern: Vec<Ingredient>,
    pub result: ItemStackTemplate,
    /// Whether the pattern is horizontally symmetric.
    pub symmetrical: bool,
}

impl ShapedRecipe {
    pub open spec fn pattern_view(&self) -> Seq<IngredientModel> {
        ingredients_view(self.pattern@)
    }

    /// The pattern fills the `width` by `height` rectangle.
    pub open spec fn wf(&self) -> bool {
        self.pattern@.len() == self.width * self.height
    }

    /// A shaped recipe; its placement is computed from the pattern unless `properties` has one.
    pub fn new(
        properties: RecipeProperties,
        width: usize,
        height: usize,
        pattern: Vec<Ingredient>,
        result: ItemStackTemplate,
    ) -> (r: ShapedRecipe)
        ensures
            r.width == width,
            r.height == height,
            r.pattern_view() == ingredients_view(pattern@),
            r.result@ == result@,
            r.symmetrical == spec_symmetric(width as int, ingredients_view(pattern@)),
            r.properties.special == properties.special,
            r.properties.recipe_book == properties.recipe_book,
            properties.placement is None ==> (r.properties.placement matches Some(p) && p@
                == optional_placement(ingredients_view(pattern@))),
            properties.placement is Some ==> r.properties.placement == properties.placement,
    {
        let symmetrical = Self::compute_symmetrical(width, &pattern);
        let mut properties = properties;
        if properties.placement.is_none() {
            properties.placement = Some(PlacementInfo::from_optional_ingredients(pattern.as_slice()));
        }
        ShapedRecipe { properties, width, height, pattern, result, symmetrical }
    }

    /// The same recipe with its placement replaced.
    pub fn with_placement(self, placement: PlacementInfo) -> (r: ShapedRecipe)
        ensures
            r.properties.placement == Some(placement),
            r.properties.special == self.properties.special,
            r.properties.recipe_book == self.properties.recipe_book,
            r.width == self.width,
            r.height == self.height,
            r.pattern == self.pattern,
            r.result == self.result,
            r.symmetrical == self.symmetrical,
    {
        let mut this = self;
        this.properties.placement = Some(placement);
        this
    }

    fn compute_symmetrical(width: usize, pattern: &Vec<Ingredient>) -> (r: bool)
        ensures
            r == spec_symmetric(width as int, ingredients_view(pattern@)),
    {
        let ghost p = ingredients_view(pattern@);
        if width == 0 {
            return true;
        }
        let total = pattern.len();
        let height = total / width;
        proof {
            vstd::arithmetic::div_mod::lemma_fundamental_div_mod(pattern@.len() as int, width as int);
            assert(0 <= pattern@.len() as int % width as int);
            assert(height * width <= pattern@.len()) by (nonlinear_arith)
                requires
                    pattern@.len() as int == width * (pattern@.len() as int / width as int)
                        + pattern@.len() as int % width as int,
                    0 <= pattern@.len() as int % width as int,
                    height == pattern@.len() as int / width as int,
            ;
        }
        let mut y: usize = 0;
        while y < height
            invariant
                0 < width,
                height == (pattern@.len() as int) / (width as int),
                height * width <= pattern@.len(),
                total == pattern@.len(),
                y <= height,
                p == ingredients_view(pattern@),
                forall|x: int, yy: int|
                    0 <= yy < y && 0 <= x < width / 2 ==> #[trigger] p[idx(width as int, x, yy)]
                        == p[idx(width as int, width - 1 - x, yy)],
            decreases height - y,
        {
            let mut x: usize = 0;
            while x < width / 2
                invariant
                    0 < width,
                    height == (pattern@.len() as int) / (width as int),
                    height * width <= pattern@.len(),
                    total == pattern@.len(),
                    y < height,
                    x <= width / 2,
                    p == ingredients_view(pattern@),
                    forall|xx: int, yy: int|
                        0 <= xx < width / 2 && (0 <= yy < y || (yy == y && xx < x))
                            ==> #[trigger] p[idx(width as int, xx, yy)] == p[idx(
                            width as int,
                            width - 1 - xx,
                            yy,
                        )],
                decreases width / 2 - x,
            {
                proof {
                    lemma_idx_bound(width as int, height as int, x as int, y as int);
                    lemma_idx_bound(width as int, height as int, width - 1 - x, y as int);
                    assert(width * height == height * width) by (nonlinear_arith);
                }
                if !pattern[y * width + x].eq_ingredient(&pattern[y * width + (width - 1 - x)]) {
                    assert(p[idx(width as int, x as int, y as int)] != p[idx(
                        width as int,
                        width - 1 - x,
                        y as int,
                    )]);
                    return false;
                }
                x += 1;
            }
            y += 1;
        }
        true
    }

    /// Whether the pattern fits a `width` by `height` grid.
    pub fn fits_in(&self, width: usize, height: usize) -> (r: bool)
        ensures
            r == (self.width <= width && self.height <= height),
    {
        self.width <= width && self.height <= height
    }
}

/// A shapeless collection of ingredients.
#[derive(Debug)]
pub struct ShapelessRecipe {
    pub properties: RecipeProperties,
    pub ingredients: Vec<Ingredient>,
    pub result: ItemStackTemplate,
}

impl ShapelessRecipe {
    pub open spec fn ingredients_view(&self) -> Seq<IngredientModel> {
        ingredients_view(self.ingredients@)
    }

    /// A shapeless recipe; its placement is computed from the ingredients unless `properties` has one.
    pub fn new(properties: RecipeProperties, ingredients: Vec<Ingredient>, result: ItemStackTemplate) -> (r:
        ShapelessRecipe)
        ensures
            r.ingredients_view() == ingredients_view(ingredients@),
            r.result@ == result@,
            r.properties.special == properties.special,
            r.properties.recipe_book == properties.recipe_book,
            properties.placement is None ==> (r.properties.placement matches Some(p) && p@
                == required_placement(ingredients_view(ingredients@))),
            properties.placement is Some ==> r.properties.placement == properties.placement,
    {
        let mut properties = properties;
        if properties.placement.is_none() {
            properties.placement = Some(PlacementInfo::from_ingredients(ingredients.as_slice()));
        }
        ShapelessRecipe { properties, ingredients, result }
    }

    /// The same recipe with its placement replaced.
    pub fn with_placement(self, placement: PlacementInfo) -> (r: ShapelessRecipe)
        ensures
            r.properties.placement == Some(placement),
            r.properties.special == self.properties.special,
            r.properties.recipe_book == self.properties.recipe_book,
            r.ingredients == self.ingredients,
            r.result == self.result,
    {
        let mut this = self;
        this.properties.placement = Some(placement);
        this
    }

    /// Whether the ingredients fit a `width` by `height` grid.
    pub fn fits_in(&self, width: usize, height: usize) -> (r: bool)
        requires
            width * height <= usize::MAX,
        ensures
            r == (self.ingredients@.len() <= width * height),
    {
        self.ingredients.len() <= width * height
    }
}

#[derive(Debug)]
pub struct TransmuteRecipe {
    pub properties: RecipeProperties,
    pub input: Ingredient,
    pub material: Ingredient,
    pub min_material_count: usize,
    pub max_material_count: usize,
    pub result: ItemStackTemplate,
    pub add_material_count_to_result: bool,
}

#[derive(Debug)]
pub struct DyeRecipe {
    pub properties: RecipeProperties,
    pub target: Ingredient,
    pub dye: Ingredient,
    pub result: ItemStackTemplate,
}

#[derive(Debug)]
pub struct DecoratedPotRecipe {
    pub properties: RecipeProperties,
    pub back: Ingredient,
    pub left: Ingredient,
    pub right: Ingredient,
    pub front: Ingredient,
    pub result: ItemStackTemplate,
}

#[derive(Debug)]
pub struct ImbueRecipe {
    pub properties: RecipeProperties,
    pub source: Ingredient,
    pub material: Ingredient,
    pub result: ItemStackTemplate,
}

#[derive(Debug)]
pub struct BannerDuplicateRecipe {
    pub properties: RecipeProperties,
    pub banner: Ingredient,
    pub result: ItemStackTemplate,
}

#[derive(Debug)]
pub struct BookCloningRecipe {
    pub properties: RecipeProperties,
    pub source: Ingredient,
    pub material: Ingredient,
    pub min_generation: i32,
    pub max_generation: i32,
    pub result: ItemStackTemplate,
}

#[derive(Debug)]
pub struct FireworkRocketRecipe {
    pub properties: RecipeProperties,
    pub shell: Ingredient,
    pub fuel: Ingredient,
    pub star: Ingredient,
    pub result: ItemStackTemplate,
}

#[derive(Debug)]
pub struct FireworkStarRecipe {
    pub properties: RecipeProperties,
    pub shapes: Vec<(FireworkExplosionShape, Ingredient)>,
    pub trail: Ingredient,
    pub twinkle: Ingredient,
    pub fuel: Ingredient,
    pub dye: Ingredient,
    pub result: ItemStackTemplate,
}

#[derive(Debug)]
pub struct FireworkStarFadeRecipe {
    pub properties: RecipeProperties,
    pub target: Ingredient,
    pub dye: Ingredient,
    pub result: ItemStackTemplate,
}

#[derive(Debug)]
pub struct MapExtendingRecipe {
    pub properties: RecipeProperties,
    pub map: Ingredient,
    pub material: Ingredient,
    pub result: ItemStackTemplate,
}

#[derive(Debug)]
pub struct RepairItemRecipe {
    pub properties: RecipeProperties,
}

#[derive(Debug)]
pub struct ShieldDecorationRecipe {
    pub properties: RecipeProperties,
    pub banner: Ingredient,
    pub target: Ingredient,
    pub result: ItemStackTemplate,
}

/// Every crafting recipe kind whose operational type is crafting.
#[derive(Debug)]
pub enum CraftingRecipe {
    Shaped(ShapedRecipe),
    Shapeless(ShapelessRecipe),
    Transmute(TransmuteRecipe),
    Dye(DyeRecipe),
    DecoratedPot(DecoratedPotRecipe),
    Imbue(ImbueRecipe),
    BannerDuplicate(BannerDuplicateRecipe),
    BookCloning(BookCloningRecipe),
    FireworkRocket(FireworkRocketRecipe),
    FireworkStar(FireworkStarRecipe),
    FireworkStarFade(FireworkStarFadeRecipe),
    MapExtending(MapExtendingRecipe),
    RepairItem(RepairItemRecipe),
    ShieldDecoration(ShieldDecorationRecipe),
}

impl CraftingRecipe {
    pub open spec fn spec_properties(&self) -> &RecipeProperties {
        match self {
            CraftingRecipe::Shaped(r) => &r.properties,
            CraftingRecipe::Shapeless(r) => &r.properties,
            CraftingRecipe::Transmute(r) => &r.properties,
            CraftingRecipe::Dye(r) => &r.properties,
            CraftingRecipe::DecoratedPot(r) => &r.properties,
            CraftingRecipe::Imbue(r) => &r.properties,
            CraftingRecipe::BannerDuplicate(r) => &r.properties,
            CraftingRecipe::BookCloning(r) => &r.properties,
            CraftingRecipe::FireworkRocket(r) => &r.properties,
            CraftingRecipe::FireworkStar(r) => &r.properties,
            CraftingRecipe::FireworkStarFade(r) => &r.properties,
            CraftingRecipe::MapExtending(r) => &r.properties,
            CraftingRecipe::RepairItem(r) => &r.properties,
            CraftingRecipe::ShieldDecoration(r) => &r.properties,
        }
    }

    pub open spec fn spec_result(&self) -> Option<&ItemStackTemplate> {
        match self {
            CraftingRecipe::Shaped(r) => Some(&r.result),
            CraftingRecipe::Shapeless(r) => Some(&r.result),
            CraftingRecipe::Transmute(r) => Some(&r.result),
            CraftingRecipe::Dye(r) => Some(&r.result),
            CraftingRecipe::DecoratedPot(r) => Some(&r.result),
            CraftingRecipe::Imbue(r) => Some(&r.result),
            CraftingRecipe::BannerDuplicate(r) => Some(&r.result),
            CraftingRecipe::BookCloning(r) => Some(&r.result),
            CraftingRecipe::FireworkRocket(r) => Some(&r.result),
            CraftingRecipe::FireworkStar(r) => Some(&r.result),
            CraftingRecipe::FireworkStarFade(r) => Some(&r.result),
            CraftingRecipe::MapExtending(r) => Some(&r.result),
            CraftingRecipe::RepairItem(_) => None,
            CraftingRecipe::ShieldDecoration(r) => Some(&r.result),
        }
    }

    /// The recipe's metadata.
    pub fn properties(&self) -> (r: &RecipeProperties)
        ensures
            r == self.spec_properties(),
    {
        match self {
            CraftingRecipe::Shaped(r) => &r.properties,
            CraftingRecipe::Shapeless(r) => &r.properties,
            CraftingRecipe::Transmute(r) => &r.properties,
            CraftingRecipe::Dye(r) => &r.properties,
            CraftingRecipe::DecoratedPot(r) => &r.properties,
            CraftingRecipe::Imbue(r) => &r.properties,
            CraftingRecipe::BannerDuplicate(r) => &r.properties,
            CraftingRecipe::BookCloning(r) => &r.properties,
            CraftingRecipe::FireworkRocket(r) => &r.properties,
            CraftingRecipe::FireworkStar(r) => &r.properties,
            CraftingRecipe::FireworkStarFade(r) => &r.properties,
            CraftingRecipe::MapExtending(r) => &r.properties,
            CraftingRecipe::RepairItem(r) => &r.properties,
            CraftingRecipe::ShieldDecoration(r) => &r.properties,
        }
    }

    /// The recipe's fixed result template; repair recipes have none.
    pub fn result(&self) -> (r: Option<&ItemStackTemplate>)
        ensures
            r == self.spec_result(),
    {
        match self {
            CraftingRecipe::Shaped(r) => Some(&r.result),
            CraftingRecipe::Shapeless(r) => Some(&r.result),
            CraftingRecipe::Transmute(r) => Some(&r.result),
            CraftingRecipe::Dye(r) => Some(&r.result),
            CraftingRecipe::DecoratedPot(r) => Some(&r.result),
            CraftingRecipe::Imbue(r) => Some(&r.result),
            CraftingRecipe::BannerDuplicate(r) => Some(&r.result),
            CraftingRecipe::BookCloning(r) => Some(&r.result),
            CraftingRecipe::FireworkRocket(r) => Some(&r.result),
            CraftingRecipe::FireworkStar(r) => Some(&r.result),
            CraftingRecipe::FireworkStarFade(r) => Some(&r.result),
            CraftingRecipe::MapExtending(r) => Some(&r.result),
            CraftingRecipe::RepairItem(_) => None,
            CraftingRecipe::ShieldDecoration(r) => Some(&r.result),
        }
    }
}

} // verus!
