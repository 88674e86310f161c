//! Rendering support: textures, the frame buffer that stands in for the
//! pixel sink, the fixed texture set, and the back-to-front entity sort
//! that painter's-algorithm sprite drawing depends on.

use vstd::prelude::*;
use crate::fp::FP_ONE;
use crate::grid::{Entity, Rgba, MAX_DIM};

verus! {

/// The largest texture or frame side length the engine accepts.
pub const MAX_SURFACE_DIM: u32 = 4096;

/// An immutable RGBA image: row-major pixels.
pub struct Texture {
    pub width: u32,
    pub height: u32,
    pub pixels: Vec<Rgba>,
}

impl Texture {
    /// Well-formedness: positive dimensions within the engine limit and a
    /// full row-major pixel array.
    pub open spec fn wf(self) -> bool {
        &&& 1 <= self.width <= MAX_SURFACE_DIM
        &&& 1 <= self.height <= MAX_SURFACE_DIM
        &&& self.pixels@.len() == self.width * self.height
    }

    /// The pixel at (x, y).
    pub open spec fn pixel_at(self, x: int, y: int) -> Rgba {
        self.pixels@[y * self.width + x]
    }

    /// Builds a texture from decoded image data.
    pub fn new(width: u32, height: u32, pixels: Vec<Rgba>) -> (r: Texture)
        ensures
            r.width == width,
            r.height == height,
            r.pixels == pixels,
    {
        Texture { width, height, pixels }
    }

    /// Reads one texel.
    pub fn get_pixel(&self, x: u32, y: u32) -> (r: Rgba)
        requires
            self.wf(),
            x < self.width,
            y < self.height,
        ensures
            r == self.pixel_at(x as int, y as int),
    {
        proof {
            assert((y as int) * (self.width as int) + (x as int) < (self.width as int) * (
            self.height as int) && (y as int) * (self.width as int) + (x as int)
                < 0x1000000) by (nonlinear_arith)
                requires
                    0 <= x,
                    (x as int) < self.width as int,
                    0 <= y,
                    (y as int) < self.height as int,
                    self.width <= 4096,
                    self.height <= 4096,
            ;
        }
        let idx: usize = (y as usize) * (self.width as usize) + (x as usize);
        self.pixels[idx]
    }
}

/// One rendered frame: the engine's sole draw output. Out-of-canvas
/// coordinates are refused by contract, never produced.
pub struct Frame {
    pub width: u32,
    pub height: u32,
    pub pixels: Vec<Rgba>,
}

impl Frame {
    /// Well-formedness: positive dimensions within the engine limit and a
    /// full row-major pixel array.
    pub open spec fn wf(self) -> bool {
        &&& 1 <= self.width <= MAX_SURFACE_DIM
        &&& 1 <= self.height <= MAX_SURFACE_DIM
        &&& self.pixels@.len() == self.width * self.height
    }

    /// The pixel at (x, y).
    pub open spec fn pixel_at(self, x: int, y: int) -> Rgba {
        self.pixels@[y * self.width + x]
    }

    /// A frame cleared to opaque black.
    pub fn new(width: u32, height: u32) -> (r: Frame)
        requires
            1 <= width <= MAX_SURFACE_DIM,
            1 <= height <= MAX_SURFACE_DIM,
        ensures
            r.wf(),
            r.width == width,
            r.height == height,
            forall|i: int|
                0 <= i < r.pixels@.len() ==> #[trigger] r.pixels@[i] == (Rgba {
                    r: 0,
                    g: 0,
                    b: 0,
                    a: 255,
                }),
    {
        proof {
            assert((width as int) * (height as int) <= 0x1000000) by (nonlinear_arith)
                requires
                    1 <= width as int <= 4096,
                    1 <= height as int <= 4096,
            ;
        }
        let total: usize = (width as usize) * (height as usize);
        let mut pixels: Vec<Rgba> = Vec::new();
        let mut k: usize = 0;
        while k < total
            invariant
                k <= total,
                pixels@.len() == k,
                forall|i: int|
                    0 <= i < k ==> #[trigger] pixels@[i] == (Rgba { r: 0, g: 0, b: 0, a: 255 }),
            decreases total - k,
        {
            pixels.push(Rgba { r: 0, g: 0, b: 0, a: 255 });
            k = k + 1;
        }
        Frame { width, height, pixels }
    }

    /// Writes one pixel; the coordinates must be on the canvas.
    pub fn set_pixel(&mut self, x: u32, y: u32, c: Rgba)
        requires
            old(self).wf(),
            x < old(self).width,
            y < old(self).height,
        ensures
            final(self).wf(),
            final(self).width == old(self).width,
            final(self).height == old(self).height,
            final(self).pixels@ == old(self).pixels@.update(
                (y as int) * old(self).width + (x as int),
                c,
            ),
    {
        proof {
            assert((y as int) * (self.width as int) + (x as int) < (self.width as int) * (
            self.height as int) && (y as int) * (self.width as int) + (x as int)
                < 0x1000000) by (nonlinear_arith)
                requires
                    0 <= x,
                    (x as int) < self.width as int,
                    0 <= y,
                    (y as int) < self.height as int,
                    self.width <= 4096,
                    self.height <= 4096,
            ;
        }
        let idx: usize = (y as usize) * (self.width as usize) + (x as usize);
        self.pixels[idx] = c;
    }

    /// Reads one pixel.
    pub fn get_pixel(&self, x: u32, y: u32) -> (r: Rgba)
        requires
            self.wf(),
            x < self.width,
            y < self.height,
        ensures
            r == self.pixel_at(x as int, y as int),
    {
        proof {
            assert((y as int) * (self.width as int) + (x as int) < (self.width as int) * (
            self.height as int) && (y as int) * (self.width as int) + (x as int)
                < 0x1000000) by (nonlinear_arith)
                requires
                    0 <= x,
                    (x as int) < self.width as int,
                    0 <= y,
                    (y as int) < self.height as int,
                    self.width <= 4096,
                    self.height <= 4096,
            ;
        }
        let idx: usize = (y as usize) * (self.width as usize) + (x as usize);
        self.pixels[idx]
    }
}

/// The engine's five textures, one per texture identifier.
pub struct TextureSet {
    pub wall: Texture,
    pub ceiling: Texture,
    pub floor: Texture,
    pub schindler: Texture,
    pub treasure: Texture,
}

impl TextureSet {
    /// Well-formedness of every texture.
    pub open spec fn wf(self) -> bool {
        self.wall.wf() && self.ceiling.wf() && self.floor.wf() && self.schindler.wf()
            && self.treasure.wf()
    }

    /// The texture registered under an identifier.
    pub open spec fn texture_of(self, id: u32) -> Texture {
        if id == 0 {
            self.wall
        } else if id == 1 {
            self.ceiling
        } else if id == 2 {
            self.floor
        } else if id == 3 {
            self.schindler
        } else {
            self.treasure
        }
    }

    /// Builds the set.
    pub fn new(wall: Texture, ceiling: Texture, floor: Texture, schindler: Texture, treasure:
        Texture) -> (r: TextureSet)
        ensures
            r.wall == wall,
            r.ceiling == ceiling,
            r.floor == floor,
            r.schindler == schindler,
            r.treasure == treasure,
    {
        TextureSet { wall, ceiling, floor, schindler, treasure }
    }
}

/// Squared fixed-point distance from an entity to the camera.
pub open spec fn ent_dist_sq(e: Entity, ox: int, oy: int) -> int {
    (e.x - ox) * (e.x - ox) + (e.y - oy) * (e.y - oy)
}

/// Coarse position bound under which distance keys cannot overflow.
pub open spec fn ent_pos_bounded(e: Entity) -> bool {
    &&& -FP_ONE <= e.x <= (MAX_DIM + 1) * FP_ONE
    &&& -FP_ONE <= e.y <= (MAX_DIM + 1) * FP_ONE
}

/// The sort key: squared distance from the camera.
fn dist_key(e: &Entity, ox: i64, oy: i64) -> (r: i64)
    requires
        ent_pos_bounded(*e),
        0 <= ox <= MAX_DIM * FP_ONE,
        0 <= oy <= MAX_DIM * FP_ONE,
    ensures
        r == ent_dist_sq(*e, ox as int, oy as int),
{
    let dx: i64 = e.x - ox;
    let dy: i64 = e.y - oy;
    proof {
        assert(0 <= dx * dx <= 0x40000000000000 && 0 <= dy * dy <= 0x40000000000000)
            by (nonlinear_arith)
            requires
                -0x8000000 <= dx <= 0x8000000,
                -0x8000000 <= dy <= 0x8000000,
        ;
    }
    dx * dx + dy * dy
}

/// The index of the first entity, in collection order, farthest from the
/// camera: the first maximum of the squared-distance key.
pub open spec fn first_max_idx(s: Seq<Entity>, ox: int, oy: int) -> int
    decreases s.len(),
{
    if s.len() <= 1 {
        0
    } else {
        let m = first_max_idx(s.drop_last(), ox, oy);
        if ent_dist_sq(s[s.len() - 1], ox, oy) > ent_dist_sq(s[m], ox, oy) {
            s.len() - 1
        } else {
            m
        }
    }
}

/// The first maximum is in range and no entity is farther.
pub proof fn lemma_first_max_is_max(s: Seq<Entity>, ox: int, oy: int)
    requires
        s.len() >= 1,
    ensures
        0 <= first_max_idx(s, ox, oy) < s.len(),
        forall|j: int|
            0 <= j < s.len() ==> ent_dist_sq(s[first_max_idx(s, ox, oy)], ox, oy) >= ent_dist_sq(
                #[trigger] s[j],
                ox,
                oy,
            ),
    decreases s.len(),
{
    if s.len() > 1 {
        lemma_first_max_is_max(s.drop_last(), ox, oy);
        let m = first_max_idx(s.drop_last(), ox, oy);
        assert(s.drop_last()[m] == s[m]);
        assert forall|j: int|
            0 <= j < s.len() implies ent_dist_sq(s[first_max_idx(s, ox, oy)], ox, oy)
            >= ent_dist_sq(#[trigger] s[j], ox, oy) by {
            if j < s.len() - 1 {
                assert(s.drop_last()[j] == s[j]);
            }
        }
    }
}

/// The entity collection in back-to-front order: repeatedly the first
/// farthest entity, then the rest. This is the stable descending sort by
/// squared camera distance: ties keep their collection order.
pub open spec fn sorted_spec(s: Seq<Entity>, ox: int, oy: int) -> Seq<Entity>
    decreases s.len(),
{
    if s.len() == 0 {
        Seq::empty()
    } else {
        let m = first_max_idx(s, ox, oy);
        if 0 <= m < s.len() {
            seq![s[m]] + sorted_spec(s.remove(m), ox, oy)
        } else {
            s
        }
    }
}

/// Sorts the entities back to front: descending squared distance from the
/// camera at (ox, oy), ties keeping their collection order. The result is
/// exactly `sorted_spec` of the input: the same entities, reordered.
pub fn sort_back_to_front(v: &mut Vec<Entity>, ox: i64, oy: i64)
    requires
        forall|k: int| 0 <= k < old(v)@.len() ==> ent_pos_bounded(#[trigger] old(v)@[k]),
        0 <= ox <= MAX_DIM * FP_ONE,
        0 <= oy <= MAX_DIM * FP_ONE,
    ensures
        final(v)@ == sorted_spec(old(v)@, ox as int, oy as int),
        final(v)@.to_multiset() == old(v)@.to_multiset(),
        final(v)@.len() == old(v)@.len(),
        forall|k: int| 0 <= k < final(v)@.len() ==> ent_pos_bounded(#[trigger] final(v)@[k]),
        forall|a: int, b: int|
            0 <= a < b < final(v)@.len() ==> ent_dist_sq(#[trigger] final(v)@[a], ox as int, oy as int)
                >= ent_dist_sq(#[trigger] final(v)@[b], ox as int, oy as int),
{
    broadcast use vstd::seq_lib::group_to_multiset_ensures;
    broadcast use vstd::multiset::group_multiset_axioms;
    broadcast use vstd::multiset::group_multiset_properties;

    let ghost orig = v@;
    let mut out: Vec<Entity> = Vec::new();
    proof {
        assert(out@ + sorted_spec(v@, ox as int, oy as int) =~= sorted_spec(
            orig,
            ox as int,
            oy as int,
        ));
        assert(out@.to_multiset().add(v@.to_multiset()) =~= orig.to_multiset());
    }
    while v.len() > 0
        invariant
            0 <= ox <= MAX_DIM * FP_ONE,
            0 <= oy <= MAX_DIM * FP_ONE,
            out@ + sorted_spec(v@, ox as int, oy as int) == sorted_spec(
                orig,
                ox as int,
                oy as int,
            ),
            out@.to_multiset().add(v@.to_multiset()) == orig.to_multiset(),
            out@.len() + v@.len() == orig.len(),
            forall|k: int| 0 <= k < out@.len() ==> ent_pos_bounded(#[trigger] out@[k]),
            forall|k: int| 0 <= k < v@.len() ==> ent_pos_bounded(#[trigger] v@[k]),
            forall|a: int, b: int|
                0 <= a < b < out@.len() ==> ent_dist_sq(#[trigger] out@[a], ox as int, oy as int)
                    >= ent_dist_sq(#[trigger] out@[b], ox as int, oy as int),
            forall|a: int, j: int|
                0 <= a < out@.len() && 0 <= j < v@.len() ==> ent_dist_sq(
                    #[trigger] out@[a],
                    ox as int,
                    oy as int,
                ) >= ent_dist_sq(#[trigger] v@[j], ox as int, oy as int),
        decreases v@.len(),
    {
        let mut mi: usize = 0;
        let mut k: usize = 1;
        proof {
            assert(v@.take(1).drop_last() =~= v@.take(0));
            assert(first_max_idx(v@.take(1), ox as int, oy as int) == 0);
        }
        while k < v.len()
            invariant
                0 <= ox <= MAX_DIM * FP_ONE,
                0 <= oy <= MAX_DIM * FP_ONE,
                forall|j: int| 0 <= j < v@.len() ==> ent_pos_bounded(#[trigger] v@[j]),
                1 <= k <= v@.len(),
                mi < k,
                mi == first_max_idx(v@.take(k as int), ox as int, oy as int),
            decreases v@.len() - k,
        {
            proof {
                assert(v@.take(k + 1).drop_last() =~= v@.take(k as int));
                assert(v@.take(k + 1)[k as int] == v@[k as int]);
                assert(v@.take(k + 1)[mi as int] == v@[mi as int]);
            }
            let a = v[k];
            let b = v[mi];
            if dist_key(&a, ox, oy) > dist_key(&b, ox, oy) {
                mi = k;
            }
            k = k + 1;
        }
        proof {
            assert(v@.take(v@.len() as int) =~= v@);
            lemma_first_max_is_max(v@, ox as int, oy as int);
        }
        let e = v[mi];
        let ghost out_before = out@;
        out.push(e);
        let ghost v_before = v@;
        v.remove(mi);
        proof {
            let oxi = ox as int;
            let oyi = oy as int;
            assert(sorted_spec(v_before, oxi, oyi) =~= seq![e] + sorted_spec(v@, oxi, oyi));
            assert(out@ + sorted_spec(v@, oxi, oyi) =~= sorted_spec(orig, oxi, oyi));
            assert(v@ =~= v_before.remove(mi as int));
            vstd::seq_lib::to_multiset_remove::<Entity>(v_before, mi as int);
            vstd::seq_lib::to_multiset_contains::<Entity>(v_before, e);
            assert(v_before.contains(e)) by {
                assert(v_before[mi as int] == e);
            }
            assert(v_before.to_multiset().count(e) > 0);
            assert(v_before.to_multiset() =~= v@.to_multiset().insert(e));
            assert(out@ =~= out_before.push(e));
            out_before.to_multiset_ensures();
            assert(out@.to_multiset() =~= out_before.to_multiset().insert(e));
            assert(out@.to_multiset().add(v@.to_multiset()) =~= orig.to_multiset());
        }
    }
    proof {
        assert(out@ + sorted_spec(v@, ox as int, oy as int) =~= out@);
        assert(out@.to_multiset().add(v@.to_multiset()) =~= out@.to_multiset());
    }
    *v = out;
}


/// A row-major index of an in-range surface coordinate is in range.
pub proof fn lemma_frame_index(w: int, h: int, x: int, y: int)
    by (nonlinear_arith)
    requires
        0 <= x < w,
        0 <= y < h,
        w <= 4096,
        h <= 4096,
    ensures
        0 <= y * w + x < w * h,
        y * w + x < 0x1000000,
{
}

/// Distinct in-range surface coordinates have distinct row-major indices.
pub proof fn lemma_frame_index_injective(w: int, x1: int, y1: int, x2: int, y2: int)
    by (nonlinear_arith)
    requires
        0 <= x1 < w,
        0 <= x2 < w,
        y1 * w + x1 == y2 * w + x2,
    ensures
        x1 == x2,
        y1 == y2,
{
}


/// A free-standing billboard sprite: a fixed-point position and the
/// texture it is drawn with.
#[derive(Clone, Copy, Debug, PartialEq, Eq, Structural)]
pub struct Sprite {
    pub x: i64,
    pub y: i64,
    pub texture_id: u32,
}

impl Sprite {
    /// Builds a sprite.
    pub fn new(x: i64, y: i64, texture_id: u32) -> (r: Sprite)
        ensures
            r.x == x,
            r.y == y,
            r.texture_id == texture_id,
    {
        Sprite { x, y, texture_id }
    }
}

} // verus!
