//! Item stacks, their component maps, and result templates.

use vstd::prelude::*;

use crate::components::{
    copy_vec, enchantments_eq, layers_eq, BannerLayer, Enchantment, FireworkExplosion,
    FireworkExplosionModel, Fireworks, FireworksModel, MapPostProcessing, PotDecorations,
    WrittenBookContent,
};
use crate::items::{
    default_dye, default_max_damage, default_max_stack_size, spec_default_dye,
    spec_default_max_damage, spec_default_max_stack_size, DyeColor, ItemId, AIR,
};

verus! {

/// The components of an item stack that the crafting and smelting rules read or write.
#[derive(Debug)]
pub struct DataComponents {
    pub dye: Option<DyeColor>,
    pub dyed_color: Option<i32>,
    pub banner_patterns: Option<Vec<BannerLayer>>,
    pub base_color: Option<DyeColor>,
    pub written_book_content: Option<WrittenBookContent>,
    pub max_damage: Option<i32>,
    pub damage: Option<i32>,
    pub enchantments: Option<Vec<Enchantment>>,
    pub potion_contents: Option<u32>,
    pub pot_decorations: Option<PotDecorations>,
    pub firework_explosion: Option<FireworkExplosion>,
    pub fireworks: Option<Fireworks>,
    pub map_post_processing: Option<MapPostProcessing>,
    pub max_stack_size: Option<i32>,
}

pub struct DataComponentsModel {
    pub dye: Option<DyeColor>,
    pub dyed_color: Option<i32>,
    pub banner_patterns: Option<Seq<BannerLayer>>,
    pub base_color: Option<DyeColor>,
    pub written_book_content: Option<WrittenBookContent>,
    pub max_damage: Option<i32>,
    pub damage: Option<i32>,
    pub enchantments: Option<Seq<Enchantment>>,
    pub potion_contents: Option<u32>,
    pub pot_decorations: Option<PotDecorations>,
    pub firework_explosion: Option<FireworkExplosionModel>,
    pub fireworks: Option<FireworksModel>,
    pub map_post_processing: Option<MapPostProcessing>,
    pub max_stack_size: Option<i32>,
}

pub open spec fn opt_seq<T>(o: Option<Vec<T>>) -> Option<Seq<T>> {
    match o {
        Some(v) => Some(v@),
        None => None,
    }
}

pub open spec fn opt_view<T: View>(o: Option<T>) -> Option<T::V> {
    match o {
        Some(v) => Some(v@),
        None => None,
    }
}

impl View for DataComponents {
    type V = DataComponentsModel;

    open spec fn view(&self) -> DataComponentsModel {
        DataComponentsModel {
            dye: self.dye,
            dyed_color: self.dyed_color,
            banner_patterns: opt_seq(self.banner_patterns),
            base_color: self.base_color,
            written_book_content: self.written_book_content,
            max_damage: self.max_damage,
            damage: self.damage,
            enchantments: opt_seq(self.enchantments),
            potion_contents: self.potion_contents,
            pot_decorations: self.pot_decorations,
            firework_explosion: opt_view(self.firework_explosion),
            fireworks: opt_view(self.fireworks),
            map_post_processing: self.map_post_processing,
            max_stack_size: self.max_stack_size,
        }
    }
}

pub open spec fn empty_components() -> DataComponentsModel {
    DataComponentsModel {
        dye: None,
        dyed_color: None,
        banner_patterns: None,
        base_color: None,
        written_book_content: None,
        max_damage: None,
        damage: None,
        enchantments: None,
        potion_contents: None,
        pot_decorations: None,
        firework_explosion: None,
        fireworks: None,
        map_post_processing: None,
        max_stack_size: None,
    }
}

/// The components every stack of `item` has before anything is set on it:
/// its stack limit, its dye color for a dye, and its durability with no damage
/// taken for an item that can be damaged.
pub open spec fn default_components(item: ItemId) -> DataComponentsModel {
    DataComponentsModel {
        dye: spec_default_dye(item),
        max_damage: spec_default_max_damage(item),
        damage: if spec_default_max_damage(item) is Some {
            Some(0i32)
        } else {
            None
        },
        max_stack_size: Some(spec_default_max_stack_size(item)),
        ..empty_components()
    }
}

pub open spec fn pick<T>(patch: Option<T>, base: Option<T>) -> Option<T> {
    if patch is Some {
        patch
    } else {
        base
    }
}

/// The components of `base` with every component present in `patch` taking its value from `patch`.
pub open spec fn overlay(base: DataComponentsModel, patch: DataComponentsModel) -> DataComponentsModel {
    DataComponentsModel {
        dye: pick(patch.dye, base.dye),
        dyed_color: pick(patch.dyed_color, base.dyed_color),
        banner_patterns: pick(patch.banner_patterns, base.banner_patterns),
        base_color: pick(patch.base_color, base.base_color),
        written_book_content: pick(patch.written_book_content, base.written_book_content),
        max_damage: pick(patch.max_damage, base.max_damage),
        damage: pick(patch.damage, base.damage),
        enchantments: pick(patch.enchantments, base.enchantments),
        potion_contents: pick(patch.potion_contents, base.potion_contents),
        pot_decorations: pick(patch.pot_decorations, base.pot_decorations),
        firework_explosion: pick(patch.firework_explosion, base.firework_explosion),
        fireworks: pick(patch.fireworks, base.fireworks),
        map_post_processing: pick(patch.map_post_processing, base.map_post_processing),
        max_stack_size: pick(patch.max_stack_size, base.max_stack_size),
    }
}

fn copy_opt_vec<T: Copy>(o: &Option<Vec<T>>) -> (r: Option<Vec<T>>)
    ensures
        opt_seq(r) == opt_seq(*o),
{
    match o {
        Some(v) => Some(copy_vec(v)),
        None => None,
    }
}

fn copy_opt_explosion(o: &Option<FireworkExplosion>) -> (r: Option<FireworkExplosion>)
    ensures
        opt_view(r) == opt_view(*o),
{
    match o {
        Some(v) => Some(v.duplicate()),
        None => None,
    }
}

fn copy_opt_fireworks(o: &Option<Fireworks>) -> (r: Option<Fireworks>)
    ensures
        opt_view(r) == opt_view(*o),
{
    match o {
        Some(v) => Some(v.duplicate()),
        None => None,
    }
}

fn opt_layers_eq(a: &Option<Vec<BannerLayer>>, b: &Option<Vec<BannerLayer>>) -> (r: bool)
    ensures
        r == (opt_seq(*a) == opt_seq(*b)),
{
    match (a, b) {
        (Some(x), Some(y)) => layers_eq(x, y),
        (None, None) => true,
        _ => false,
    }
}

fn opt_enchantments_eq(a: &Option<Vec<Enchantment>>, b: &Option<Vec<Enchantment>>) -> (r: bool)
    ensures
        r == (opt_seq(*a) == opt_seq(*b)),
{
    match (a, b) {
        (Some(x), Some(y)) => enchantments_eq(x, y),
        (None, None) => true,
        _ => false,
    }
}

fn opt_explosion_eq(a: &Option<FireworkExplosion>, b: &Option<FireworkExplosion>) -> (r: bool)
    ensures
        r == (opt_view(*a) == opt_view(*b)),
{
    match (a, b) {
        (Some(x), Some(y)) => x.same_as(y),
        (None, None) => true,
        _ => false,
    }
}

fn opt_fireworks_eq(a: &Option<Fireworks>, b: &Option<Fireworks>) -> (r: bool)
    ensures
        r == (opt_view(*a) == opt_view(*b)),
{
    match (a, b) {
        (Some(x), Some(y)) => x.same_as(y),
        (None, None) => true,
        _ => false,
    }
}

impl DataComponents {
    pub fn empty() -> (r: DataComponents)
        ensures
            r@ == empty_components(),
    {
        DataComponents {
            dye: None,
            dyed_color: None,
            banner_patterns: None,
            base_color: None,
            written_book_content: None,
            max_damage: None,
            damage: None,
            enchantments: None,
            potion_contents: None,
            pot_decorations: None,
            firework_explosion: None,
            fireworks: None,
            map_post_processing: None,
            max_stack_size: None,
        }
    }

    /// The default components of `item`.
    pub fn defaults(item: ItemId) -> (r: DataComponents)
        ensures
            r@ == default_components(item),
    {
        let max_damage = default_max_damage(item);
        DataComponents {
            dye: default_dye(item),
            dyed_color: None,
            banner_patterns: None,
            base_color: None,
            written_book_content: None,
            max_damage,
            damage: if max_damage.is_some() {
                Some(0)
            } else {
                None
            },
            enchantments: None,
            potion_contents: None,
            pot_decorations: None,
            firework_explosion: None,
            fireworks: None,
            map_post_processing: None,
            max_stack_size: Some(default_max_stack_size(item)),
        }
    }

    pub fn duplicate(&self) -> (r: DataComponents)
        ensures
            r@ == self@,
    {
        DataComponents {
            dye: self.dye,
            dyed_color: self.dyed_color,
            banner_patterns: copy_opt_vec(&self.banner_patterns),
            base_color: self.base_color,
            written_book_content: self.written_book_content,
            max_damage: self.max_damage,
            damage: self.damage,
            enchantments: copy_opt_vec(&self.enchantments),
            potion_contents: self.potion_contents,
            pot_decorations: self.pot_decorations,
            firework_explosion: copy_opt_explosion(&self.firework_explosion),
            fireworks: copy_opt_fireworks(&self.fireworks),
            map_post_processing: self.map_post_processing,
            max_stack_size: self.max_stack_size,
        }
    }

    pub fn same_as(&self, other: &DataComponents) -> (r: bool)
        ensures
            r == (self@ == other@),
    {
        self.dye == other.dye && self.dyed_color == other.dyed_color && opt_layers_eq(
            &self.banner_patterns,
            &other.banner_patterns,
        ) && self.base_color == other.base_color && self.written_book_content
            == other.written_book_content && self.max_damage == other.max_damage && self.damage
            == other.damage && opt_enchantments_eq(&self.enchantments, &other.enchantments)
            && self.potion_contents == other.potion_contents && self.pot_decorations
            == other.pot_decorations && opt_explosion_eq(
            &self.firework_explosion,
            &other.firework_explosion,
        ) && opt_fireworks_eq(&self.fireworks, &other.fireworks) && self.map_post_processing
            == other.map_post_processing && self.max_stack_size == other.max_stack_size
    }

    /// These components with every component present in `patch` replaced by its value there.
    pub fn overlaid(&self, patch: &DataComponents) -> (r: DataComponents)
        ensures
            r@ == overlay(self@, patch@),
    {
        DataComponents {
            dye: if patch.dye.is_some() { patch.dye } else { self.dye },
            dyed_color: if patch.dyed_color.is_some() { patch.dyed_color } else { self.dyed_color },
            banner_patterns: if patch.banner_patterns.is_some() {
                copy_opt_vec(&patch.banner_patterns)
            } else {
                copy_opt_vec(&self.banner_patterns)
            },
            base_color: if patch.base_color.is_some() { patch.base_color } else { self.base_color },
            written_book_content: if patch.written_book_content.is_some() {
                patch.written_book_content
            } else {
                self.written_book_content
            },
            max_damage: if patch.max_damage.is_some() { patch.max_damage } else { self.max_damage },
            damage: if patch.damage.is_some() { patch.damage } else { self.damage },
            enchantments: if patch.enchantments.is_some() {
                copy_opt_vec(&patch.enchantments)
            } else {
                copy_opt_vec(&self.enchantments)
            },
            potion_contents: if patch.potion_contents.is_some() {
                patch.potion_contents
            } else {
                self.potion_contents
            },
            pot_decorations: if patch.pot_decorations.is_some() {
                patch.pot_decorations
            } else {
                self.pot_decorations
            },
            firework_explosion: if patch.firework_explosion.is_some() {
                copy_opt_explosion(&patch.firework_explosion)
            } else {
                copy_opt_explosion(&self.firework_explosion)
            },
            fireworks: if patch.fireworks.is_some() {
                copy_opt_fireworks(&patch.fireworks)
            } else {
                copy_opt_fireworks(&self.fireworks)
            },
            map_post_processing: if patch.map_post_processing.is_some() {
                patch.map_post_processing
            } else {
                self.map_post_processing
            },
            max_stack_size: if patch.max_stack_size.is_some() {
                patch.max_stack_size
            } else {
                self.max_stack_size
            },
        }
    }
}

/// The default number of items a stack holds at most.
pub const DEFAULT_MAX_STACK_SIZE: i32 = 64;

/// An item, a count, and the components set on this stack on top of the
/// item's default components (`default_components`).
#[derive(Debug)]
pub struct ItemStack {
    pub item: ItemId,
    pub count: i32,
    pub components: DataComponents,
}

/// A stack as a value: its item, its count, and the components set on it on
/// top of the item's defaults (`full_components` gives all of them).
pub struct ItemStackModel {
    pub item: ItemId,
    pub count: i32,
    pub components: DataComponentsModel,
}

impl View for ItemStack {
    type V = ItemStackModel;

    open spec fn view(&self) -> ItemStackModel {
        ItemStackModel { item: self.item, count: self.count, components: self.components@ }
    }
}

impl ItemStackModel {
    /// A stack is empty when it holds air or no items.
    pub open spec fn is_empty(self) -> bool {
        self.item == AIR || self.count <= 0
    }

    /// The stack's item; air for an empty stack.
    pub open spec fn item(self) -> ItemId {
        if self.is_empty() {
            AIR
        } else {
            self.item
        }
    }

    /// Every component of the stack: the item's defaults, overridden by what
    /// was set on the stack.
    pub open spec fn full_components(self) -> DataComponentsModel {
        overlay(default_components(self.item), self.components)
    }

    pub open spec fn max_stack_size(self) -> i32 {
        match self.full_components().max_stack_size {
            Some(n) => n,
            None => DEFAULT_MAX_STACK_SIZE,
        }
    }

    pub open spec fn max_damage(self) -> i32 {
        match self.full_components().max_damage {
            Some(n) => n,
            None => 0,
        }
    }

    /// The dye color the stack carries, if any.
    pub open spec fn dye(self) -> Option<DyeColor> {
        self.full_components().dye
    }

    pub open spec fn has_max_damage(self) -> bool {
        self.full_components().max_damage is Some
    }

    pub open spec fn has_damage(self) -> bool {
        self.full_components().damage is Some
    }

    /// The damage value, clamped to `0..=max_damage`.
    pub open spec fn damage_value(self) -> i32 {
        let d = match self.full_components().damage {
            Some(n) => n,
            None => 0,
        };
        if d < 0 {
            0
        } else if d > self.max_damage() {
            if self.max_damage() < 0 {
                0
            } else {
                self.max_damage()
            }
        } else {
            d
        }
    }
}

/// Same item (air for empty stacks), and either both empty or equal
/// components, the item's defaults included.
pub open spec fn spec_same_item_same_components(a: ItemStackModel, b: ItemStackModel) -> bool {
    a.item() == b.item() && ((a.is_empty() && b.is_empty()) || a.full_components()
        == b.full_components())
}

pub open spec fn empty_stack_model() -> ItemStackModel {
    ItemStackModel { item: AIR, count: 0, components: empty_components() }
}

pub open spec fn new_stack_model(item: ItemId, count: i32) -> ItemStackModel {
    ItemStackModel { item, count, components: empty_components() }
}

impl ItemStack {
    pub fn empty() -> (r: ItemStack)
        ensures
            r@ == empty_stack_model(),
            r@.is_empty(),
    {
        ItemStack { item: AIR, count: 0, components: DataComponents::empty() }
    }

    /// One item, carrying exactly its item's default components.
    pub fn new(item: ItemId) -> (r: ItemStack)
        ensures
            r@ == new_stack_model(item, 1),
            r@.full_components() == default_components(item),
    {
        ItemStack { item, count: 1, components: DataComponents::empty() }
    }

    /// `count` items, carrying exactly their item's default components.
    pub fn with_count(item: ItemId, count: i32) -> (r: ItemStack)
        ensures
            r@ == new_stack_model(item, count),
            r@.full_components() == default_components(item),
    {
        ItemStack { item, count, components: DataComponents::empty() }
    }

    pub fn is_empty(&self) -> (r: bool)
        ensures
            r == self@.is_empty(),
    {
        self.item == AIR || self.count <= 0
    }

    pub fn item(&self) -> (r: ItemId)
        ensures
            r == self@.item(),
    {
        if self.is_empty() {
            AIR
        } else {
            self.item
        }
    }

    pub fn count(&self) -> (r: i32)
        ensures
            r == self.count,
    {
        self.count
    }

    /// Whether this stack holds `item` (an empty stack holds air).
    pub fn is(&self, item: ItemId) -> (r: bool)
        ensures
            r == (self@.item() == item),
    {
        self.item() == item
    }

    pub fn duplicate(&self) -> (r: ItemStack)
        ensures
            r@ == self@,
    {
        ItemStack { item: self.item, count: self.count, components: self.components.duplicate() }
    }

    /// A copy of this stack holding `count` items.
    pub fn copy_with_count(&self, count: i32) -> (r: ItemStack)
        ensures
            r@ == (ItemStackModel { count, ..self@ }),
    {
        ItemStack { item: self.item, count, components: self.components.duplicate() }
    }

    pub fn set_count(&mut self, count: i32)
        ensures
            final(self)@ == (ItemStackModel { count, ..old(self)@ }),
    {
        self.count = count;
    }

    pub fn shrink(&mut self, amount: i32)
        requires
            i32::MIN <= old(self).count - amount <= i32::MAX,
        ensures
            final(self)@ == (ItemStackModel { count: (old(self).count - amount) as i32, ..old(self)@ }),
    {
        self.count = self.count - amount;
    }

    pub fn grow(&mut self, amount: i32)
        requires
            i32::MIN <= old(self).count + amount <= i32::MAX,
        ensures
            final(self)@ == (ItemStackModel { count: (old(self).count + amount) as i32, ..old(self)@ }),
    {
        self.count = self.count + amount;
    }

    pub fn get_max_stack_size(&self) -> (r: i32)
        ensures
            r == self@.max_stack_size(),
    {
        match self.components.max_stack_size {
            Some(n) => n,
            None => default_max_stack_size(self.item),
        }
    }

    pub fn get_max_damage(&self) -> (r: i32)
        ensures
            r == self@.max_damage(),
    {
        match self.components.max_damage {
            Some(n) => n,
            None => match default_max_damage(self.item) {
                Some(n) => n,
                None => 0,
            },
        }
    }

    /// The dye color the stack carries, if any.
    pub fn get_dye(&self) -> (r: Option<DyeColor>)
        ensures
            r == self@.dye(),
    {
        match self.components.dye {
            Some(c) => Some(c),
            None => default_dye(self.item),
        }
    }

    pub fn has_max_damage(&self) -> (r: bool)
        ensures
            r == self@.has_max_damage(),
    {
        self.components.max_damage.is_some() || default_max_damage(self.item).is_some()
    }

    pub fn has_damage(&self) -> (r: bool)
        ensures
            r == self@.has_damage(),
    {
        self.components.damage.is_some() || default_max_damage(self.item).is_some()
    }

    pub fn get_damage_value(&self) -> (r: i32)
        ensures
            r == self@.damage_value(),
    {
        let d = match self.components.damage {
            Some(n) => n,
            None => 0,
        };
        let max = self.get_max_damage();
        if d < 0 {
            0
        } else if d > max {
            if max < 0 {
                0
            } else {
                max
            }
        } else {
            d
        }
    }

    /// Every component of the stack: the item's defaults, overridden by what
    /// was set on the stack.
    pub fn full_components(&self) -> (r: DataComponents)
        ensures
            r@ == self@.full_components(),
    {
        DataComponents::defaults(self.item).overlaid(&self.components)
    }

    /// Whether both stacks hold the same item with the same components
    /// (two empty stacks always do).
    pub fn is_same_item_same_components(a: &ItemStack, b: &ItemStack) -> (r: bool)
        ensures
            r == spec_same_item_same_components(a@, b@),
    {
        a.item() == b.item() && ((a.is_empty() && b.is_empty()) || a.full_components().same_as(
            &b.full_components(),
        ))
    }
}

/// A recipe result: an item, a count and components to put on the created stack.
#[derive(Debug)]
pub struct ItemStackTemplate {
    pub item: ItemId,
    pub count: i32,
    pub components: DataComponents,
}

pub struct ItemStackTemplateModel {
    pub item: ItemId,
    pub count: i32,
    pub components: DataComponentsModel,
}

impl View for ItemStackTemplate {
    type V = ItemStackTemplateModel;

    open spec fn view(&self) -> ItemStackTemplateModel {
        ItemStackTemplateModel { item: self.item, count: self.count, components: self.components@ }
    }
}

impl ItemStackTemplateModel {
    pub open spec fn create(self) -> ItemStackModel {
        ItemStackModel { item: self.item, count: self.count, components: self.components }
    }

    pub open spec fn apply(self, count: i32, patch: DataComponentsModel) -> ItemStackModel {
        ItemStackModel { item: self.item, count, components: overlay(self.components, patch) }
    }
}

impl ItemStackTemplate {
    /// A template for one `item` that sets no components beyond the item's defaults.
    pub fn new(item: ItemId) -> (r: ItemStackTemplate)
        ensures
            r@ == (ItemStackTemplateModel { item, count: 1, components: empty_components() }),
    {
        ItemStackTemplate { item, count: 1, components: DataComponents::empty() }
    }

    pub fn with_count(item: ItemId, count: i32) -> (r: ItemStackTemplate)
        ensures
            r@ == (ItemStackTemplateModel { item, count, components: empty_components() }),
    {
        ItemStackTemplate { item, count, components: DataComponents::empty() }
    }

    pub fn count(&self) -> (r: i32)
        ensures
            r == self.count,
    {
        self.count
    }

    /// The stack this template describes: its item and count, with the
    /// template's components set on top of the item's defaults.
    pub fn create(&self) -> (r: ItemStack)
        ensures
            r@ == self@.create(),
    {
        ItemStack { item: self.item, count: self.count, components: self.components.duplicate() }
    }

    /// `count` items of the template's item, with the template's components
    /// overlaid by `patch` set on top of the item's defaults.
    pub fn apply(&self, count: i32, patch: &DataComponents) -> (r: ItemStack)
        ensures
            r@ == self@.apply(count, patch@),
    {
        ItemStack { item: self.item, count, components: self.components.overlaid(patch) }
    }
}

} // verus!
