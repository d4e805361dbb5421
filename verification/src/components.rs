//! Data components carried by item stacks, as plain values with mathematical models.

use vstd::prelude::*;

use crate::items::{DyeColor, ItemId};

verus! {

/// Shape of a firework explosion.
#[derive(Debug, Clone, Copy, PartialEq, Eq, Structural)]
pub enum FireworkExplosionShape {
    SmallBall,
    LargeBall,
    Star,
    Creeper,
    Burst,
}

/// One banner pattern layer.
#[derive(Debug, Clone, Copy, PartialEq, Eq, Structural)]
pub struct BannerLayer {
    pub pattern: u32,
    pub color: DyeColor,
}

/// Post-processing requested for a map item.
#[derive(Debug, Clone, Copy, PartialEq, Eq, Structural)]
pub enum MapPostProcessing {
    Lock,
    Scale,
}

/// The part of a written book's content that crafting reads and changes.
#[derive(Debug, Clone, Copy, PartialEq, Eq, Structural)]
pub struct WrittenBookContent {
    pub generation: i32,
}

impl WrittenBookContent {
    /// The content of a copy: one generation further from the original.
    pub fn craft_copy(self) -> (r: WrittenBookContent)
        requires
            self.generation < i32::MAX,
        ensures
            r.generation == self.generation + 1,
    {
        WrittenBookContent { generation: self.generation + 1 }
    }
}

/// Sherds or bricks on the four faces of a decorated pot.
#[derive(Debug, Clone, Copy, PartialEq, Eq, Structural)]
pub struct PotDecorations {
    pub back: ItemId,
    pub left: ItemId,
    pub right: ItemId,
    pub front: ItemId,
}

/// One enchantment and its level.
#[derive(Debug, Clone, Copy, PartialEq, Eq, Structural)]
pub struct Enchantment {
    pub id: u32,
    pub level: i32,
}

/// Enchantment ids that belong to the curse tag.
pub const BINDING_CURSE: u32 = 10;
pub const VANISHING_CURSE: u32 = 37;

pub open spec fn spec_is_curse(id: u32) -> bool {
    id == BINDING_CURSE || id == VANISHING_CURSE
}

pub fn is_curse(id: u32) -> (r: bool)
    ensures
        r == spec_is_curse(id),
{
    id == BINDING_CURSE || id == VANISHING_CURSE
}

/// A firework explosion.
#[derive(Debug)]
pub struct FireworkExplosion {
    pub shape: FireworkExplosionShape,
    pub colors: Vec<i32>,
    pub fade_colors: Vec<i32>,
    pub has_trail: bool,
    pub has_twinkle: bool,
}

pub struct FireworkExplosionModel {
    pub shape: FireworkExplosionShape,
    pub colors: Seq<i32>,
    pub fade_colors: Seq<i32>,
    pub has_trail: bool,
    pub has_twinkle: bool,
}

impl View for FireworkExplosion {
    type V = FireworkExplosionModel;

    open spec fn view(&self) -> FireworkExplosionModel {
        FireworkExplosionModel {
            shape: self.shape,
            colors: self.colors@,
            fade_colors: self.fade_colors@,
            has_trail: self.has_trail,
            has_twinkle: self.has_twinkle,
        }
    }
}

/// The explosion a firework star has when it has none recorded.
pub open spec fn default_explosion_model() -> FireworkExplosionModel {
    FireworkExplosionModel {
        shape: FireworkExplosionShape::SmallBall,
        colors: Seq::empty(),
        fade_colors: Seq::empty(),
        has_trail: false,
        has_twinkle: false,
    }
}

/// A copy of a vector of plain values.
pub fn copy_vec<T: Copy>(v: &Vec<T>) -> (r: Vec<T>)
    ensures
        r@ == v@,
{
    let mut r: Vec<T> = Vec::new();
    let mut i: usize = 0;
    while i < v.len()
        invariant
            i <= v.len(),
            r@ == v@.subrange(0, i as int),
        decreases v.len() - i,
    {
        r.push(v[i]);
        i += 1;
        assert(r@ =~= v@.subrange(0, i as int));
    }
    assert(v@.subrange(0, v.len() as int) =~= v@);
    r
}

pub fn i32_vec_eq(a: &Vec<i32>, b: &Vec<i32>) -> (r: bool)
    ensures
        r == (a@ == b@),
{
    if a.len() != b.len() {
        return false;
    }
    let mut i: usize = 0;
    while i < a.len()
        invariant
            i <= a.len(),
            a.len() == b.len(),
            forall|j: int| 0 <= j < i ==> a@[j] == b@[j],
        decreases a.len() - i,
    {
        if a[i] != b[i] {
            return false;
        }
        i += 1;
    }
    assert(a@ =~= b@);
    true
}

pub fn layers_eq(a: &Vec<BannerLayer>, b: &Vec<BannerLayer>) -> (r: bool)
    ensures
        r == (a@ == b@),
{
    if a.len() != b.len() {
        return false;
    }
    let mut i: usize = 0;
    while i < a.len()
        invariant
            i <= a.len(),
            a.len() == b.len(),
            forall|j: int| 0 <= j < i ==> a@[j] == b@[j],
        decreases a.len() - i,
    {
        if a[i] != b[i] {
            return false;
        }
        i += 1;
    }
    assert(a@ =~= b@);
    true
}

pub fn enchantments_eq(a: &Vec<Enchantment>, b: &Vec<Enchantment>) -> (r: bool)
    ensures
        r == (a@ == b@),
{
    if a.len() != b.len() {
        return false;
    }
    let mut i: usize = 0;
    while i < a.len()
        invariant
            i <= a.len(),
            a.len() == b.len(),
            forall|j: int| 0 <= j < i ==> a@[j] == b@[j],
        decreases a.len() - i,
    {
        if a[i] != b[i] {
            return false;
        }
        i += 1;
    }
    assert(a@ =~= b@);
    true
}

impl FireworkExplosion {
    /// An explosion with the given shape, colors and effects and no fade colors.
    pub fn new(
        shape: FireworkExplosionShape,
        colors: Vec<i32>,
        fade_colors: Vec<i32>,
        has_trail: bool,
        has_twinkle: bool,
    ) -> (r: FireworkExplosion)
        ensures
            r@ == (FireworkExplosionModel {
                shape,
                colors: colors@,
                fade_colors: fade_colors@,
                has_trail,
                has_twinkle,
            }),
    {
        FireworkExplosion { shape, colors, fade_colors, has_trail, has_twinkle }
    }

    pub fn default_explosion() -> (r: FireworkExplosion)
        ensures
            r@ == default_explosion_model(),
    {
        let r = FireworkExplosion {
            shape: FireworkExplosionShape::SmallBall,
            colors: Vec::new(),
            fade_colors: Vec::new(),
            has_trail: false,
            has_twinkle: false,
        };
        assert(r@.colors =~= Seq::<i32>::empty());
        r
    }

    pub fn duplicate(&self) -> (r: FireworkExplosion)
        ensures
            r@ == self@,
    {
        FireworkExplosion {
            shape: self.shape,
            colors: copy_vec(&self.colors),
            fade_colors: copy_vec(&self.fade_colors),
            has_trail: self.has_trail,
            has_twinkle: self.has_twinkle,
        }
    }

    /// The same explosion with its fade colors replaced.
    pub fn with_fade_colors(self, fade_colors: Vec<i32>) -> (r: FireworkExplosion)
        ensures
            r@ == (FireworkExplosionModel { fade_colors: fade_colors@, ..self@ }),
    {
        FireworkExplosion { fade_colors, ..self }
    }

    pub fn same_as(&self, other: &FireworkExplosion) -> (r: bool)
        ensures
            r == (self@ == other@),
    {
        self.shape == other.shape && self.has_trail == other.has_trail && self.has_twinkle
            == other.has_twinkle && i32_vec_eq(&self.colors, &other.colors) && i32_vec_eq(
            &self.fade_colors,
            &other.fade_colors,
        )
    }
}

pub open spec fn explosions_view(s: Seq<FireworkExplosion>) -> Seq<FireworkExplosionModel> {
    s.map_values(|e: FireworkExplosion| e@)
}

/// The most explosions one firework rocket may carry.
pub const MAX_FIREWORK_EXPLOSIONS: usize = 256;

/// The longest flight duration a firework rocket may carry.
pub const MAX_FLIGHT_DURATION: i32 = 255;

/// A firework rocket's flight duration and explosions.
#[derive(Debug)]
pub struct Fireworks {
    pub flight_duration: i32,
    pub explosions: Vec<FireworkExplosion>,
}

pub struct FireworksModel {
    pub flight_duration: i32,
    pub explosions: Seq<FireworkExplosionModel>,
}

impl View for Fireworks {
    type V = FireworksModel;

    open spec fn view(&self) -> FireworksModel {
        FireworksModel {
            flight_duration: self.flight_duration,
            explosions: explosions_view(self.explosions@),
        }
    }
}

pub fn duplicate_explosions(v: &Vec<FireworkExplosion>) -> (r: Vec<FireworkExplosion>)
    ensures
        explosions_view(r@) == explosions_view(v@),
{
    let mut r: Vec<FireworkExplosion> = Vec::new();
    let mut i: usize = 0;
    while i < v.len()
        invariant
            i <= v.len(),
            r.len() == i,
            forall|j: int| 0 <= j < i ==> r@[j]@ == v@[j]@,
        decreases v.len() - i,
    {
        let e = v[i].duplicate();
        r.push(e);
        i += 1;
    }
    assert(explosions_view(r@) =~= explosions_view(v@));
    r
}

pub fn explosions_eq(a: &Vec<FireworkExplosion>, b: &Vec<FireworkExplosion>) -> (r: bool)
    ensures
        r == (explosions_view(a@) == explosions_view(b@)),
{
    if a.len() != b.len() {
        assert(explosions_view(a@).len() != explosions_view(b@).len());
        return false;
    }
    let mut i: usize = 0;
    while i < a.len()
        invariant
            i <= a.len(),
            a.len() == b.len(),
            forall|j: int| 0 <= j < i ==> a@[j]@ == b@[j]@,
        decreases a.len() - i,
    {
        if !a[i].same_as(&b[i]) {
            assert(explosions_view(a@)[i as int] != explosions_view(b@)[i as int]);
            return false;
        }
        i += 1;
    }
    assert(explosions_view(a@) =~= explosions_view(b@));
    true
}

impl Fireworks {
    /// Fireworks with the given flight duration and explosions; `Err(())` when the
    /// duration is outside `0..=255` or there are more than 256 explosions.
    pub fn new(flight_duration: i32, explosions: Vec<FireworkExplosion>) -> (r: Result<
        Fireworks,
        (),
    >)
        ensures
            (0 <= flight_duration <= MAX_FLIGHT_DURATION && explosions.len()
                <= MAX_FIREWORK_EXPLOSIONS) <==> r is Ok,
            r matches Ok(f) ==> f@ == (FireworksModel {
                flight_duration,
                explosions: explosions_view(explosions@),
            }),
    {
        if flight_duration < 0 || flight_duration > MAX_FLIGHT_DURATION || explosions.len()
            > MAX_FIREWORK_EXPLOSIONS {
            Err(())
        } else {
            Ok(Fireworks { flight_duration, explosions })
        }
    }

    pub fn duplicate(&self) -> (r: Fireworks)
        ensures
            r@ == self@,
    {
        Fireworks {
            flight_duration: self.flight_duration,
            explosions: duplicate_explosions(&self.explosions),
        }
    }

    pub fn same_as(&self, other: &Fireworks) -> (r: bool)
        ensures
            r == (self@ == other@),
    {
        self.flight_duration == other.flight_duration && explosions_eq(
            &self.explosions,
            &other.explosions,
        )
    }
}

} // verus!
