//! The scene renderer: one ray per screen column fills walls, floor and
//! ceiling by inverse perspective mapping into the frame while recording
//! a per-column depth buffer; entities are then sorted back to front and
//! billboarded over it, depth-tested per column and skipped where fully
//! transparent. Every drawn pixel is pinned by `rendered_frame_spec`: the
//! frame is a function of the map, the textures and the player pose.

use vstd::prelude::*;
use crate::fp::{
    atan2_spec, calculate_lighting, cos_spec, fp_atan2, fp_cos, fp_sin, fp_sqrt, fdiv,
    lighting_spec, mul_div_fp, rdiv, rdiv_spec, sdiv, sin_spec, sqrt_floor, tdiv, wrap_angle,
    wrap_spec, FP_ONE, FP_HALF, QUARTER_PI_FP,
};
use crate::game::Game;
use crate::grid::{ent_wf, Entity, Rgba};
use crate::raycast::{raycast_spec, RaycastHit};
use crate::render::{
    lemma_frame_index, lemma_frame_index_injective, sort_back_to_front, sorted_spec, Frame,
    Texture, TextureSet,
};

verus! {

/// The light radius: five tiles, fixed point.
pub const LIGHT_RADIUS_FP: i64 = 327680;

/// The color of an untouched frame pixel: opaque black.
pub open spec fn black_pixel() -> Rgba {
    Rgba { r: 0, g: 0, b: 0, a: 255 }
}

/// One shaded color channel: the channel scaled by a light level in
/// [0, FP_ONE].
pub open spec fn shade_channel_spec(ch: int, lighting: int) -> int {
    ch * lighting / (FP_ONE as int)
}

/// Scales one color channel by a light level.
fn shade_channel(ch: u8, lighting: i64) -> (r: u8)
    requires
        0 <= lighting <= FP_ONE,
    ensures
        r == shade_channel_spec(ch as int, lighting as int),
{
    proof {
        assert(0 <= (ch as int) * (lighting as int) <= 255 * 65536) by (nonlinear_arith)
            requires
                0 <= ch as int <= 255,
                0 <= lighting as int <= 65536,
        ;
    }
    let v: i64 = (ch as i64) * lighting;
    proof {
        vstd::arithmetic::div_mod::lemma_div_is_ordered(v as int, (255 * 65536) as int, 65536);
        vstd::arithmetic::div_mod::lemma_div_pos_is_pos(v as int, 65536);
    }
    ((v as u64) / 65536) as u8
}

/// A color under the light level, the red, green and blue channels first
/// halved for walls struck on a horizontal grid edge; alpha is kept.
pub open spec fn shade_spec(c: Rgba, lighting: int, halve: bool) -> Rgba {
    let base_r: int = if halve {
        c.r as int / 2
    } else {
        c.r as int
    };
    let base_g: int = if halve {
        c.g as int / 2
    } else {
        c.g as int
    };
    let base_b: int = if halve {
        c.b as int / 2
    } else {
        c.b as int
    };
    Rgba {
        r: shade_channel_spec(base_r, lighting) as u8,
        g: shade_channel_spec(base_g, lighting) as u8,
        b: shade_channel_spec(base_b, lighting) as u8,
        a: c.a,
    }
}

/// Applies lighting (and the optional horizontal-edge halving) to a
/// color.
fn shade(c: Rgba, lighting: i64, halve: bool) -> (r: Rgba)
    requires
        0 <= lighting <= FP_ONE,
    ensures
        r == shade_spec(c, lighting as int, halve),
{
    let base = if halve {
        Rgba { r: c.r / 2, g: c.g / 2, b: c.b / 2, a: c.a }
    } else {
        c
    };
    Rgba {
        r: shade_channel(base.r, lighting),
        g: shade_channel(base.g, lighting),
        b: shade_channel(base.b, lighting),
        a: c.a,
    }
}

/// A texel index chosen by rounding a position ratio across a texture
/// dimension.
pub open spec fn tex_round_spec(num: int, den: int, size: int) -> int {
    (num * (size - 1) + den / 2) / den
}

/// Rounds `num / den` of the way across `size` texels; always in range.
fn tex_round(num: i64, den: i64, size: u32) -> (r: u32)
    requires
        0 <= num < den,
        den <= 0x10000000,
        1 <= size <= 4096,
    ensures
        r == tex_round_spec(num as int, den as int, size as int),
        r < size,
{
    proof {
        assert(0 <= num * (size - 1) && num * (size - 1) + den / 2 < den * size && num * (size
            - 1) <= 0x10000000000) by (nonlinear_arith)
            requires
                0 <= num < den,
                den <= 0x10000000,
                1 <= size as int <= 4096,
        ;
        vstd::arithmetic::div_mod::lemma_multiply_divide_lt(
            num as int * (size as int - 1) + den as int / 2,
            den as int,
            size as int,
        );
        vstd::arithmetic::div_mod::lemma_div_pos_is_pos(
            num as int * (size as int - 1) + den as int / 2,
            den as int,
        );
    }
    (((num as u64) * ((size - 1) as u64) + (den as u64) / 2) / (den as u64)) as u32
}

/// A texel index chosen by flooring a position ratio across a texture
/// dimension.
pub open spec fn tex_floor_spec(num: int, den: int, size: int) -> int {
    num * (size - 1) / den
}

/// Floors `num / den` of the way across `size` texels; always in range.
fn tex_floor(num: i64, den: i64, size: u32) -> (r: u32)
    requires
        0 <= num < den,
        den <= 0x10000000,
        1 <= size <= 4096,
    ensures
        r == tex_floor_spec(num as int, den as int, size as int),
        r < size,
{
    proof {
        assert(0 <= num * (size - 1) && num * (size - 1) < den * size && num * (size - 1)
            <= 0x10000000000) by (nonlinear_arith)
            requires
                0 <= num < den,
                den <= 0x10000000,
                1 <= size as int <= 4096,
        ;
        vstd::arithmetic::div_mod::lemma_multiply_divide_lt(
            num as int * (size as int - 1),
            den as int,
            size as int,
        );
        vstd::arithmetic::div_mod::lemma_div_pos_is_pos(
            num as int * (size as int - 1),
            den as int,
        );
    }
    (((num as u64) * ((size - 1) as u64)) / (den as u64)) as u32
}

/// The fractional part of a fixed-point coordinate, in [0, FP_ONE).
fn frac_fp(v: i64) -> (r: i64)
    requires
        -0x1000000000000000 <= v <= 0x1000000000000000,
    ensures
        r == v as int % (FP_ONE as int),
        0 <= r < FP_ONE,
{
    match v.checked_rem_euclid(FP_ONE) {
        Some(m) => m,
        None => {
            proof {
                assert(false);
            }
            0
        },
    }
}

/// The focal distance in fixed-point pixels: half the projection width
/// over the tangent of half the 90-degree field of view, clamped
/// defensively into a sane range.
#[verifier::opaque]
pub open spec fn projection_distance_spec(g: Game) -> int {
    let sin_q = sin_spec(QUARTER_PI_FP as int);
    let cos_q = cos_spec(QUARTER_PI_FP as int);
    let tan_half = if cos_q > 0 && sin_q > 0 {
        tdiv(sin_q * FP_ONE, cos_q)
    } else {
        FP_ONE as int
    };
    let tan_clamped = if tan_half < 1 {
        1
    } else if tan_half > 0x100000000 {
        0x100000000
    } else {
        tan_half
    };
    let pd_raw = tdiv((g.projection_width as int / 2) * FP_ONE * FP_ONE, tan_clamped);
    if pd_raw < 1 {
        1
    } else if pd_raw > 0x10000000 {
        0x10000000
    } else {
        pd_raw
    }
}

/// The angle of screen column x's ray: the player rotation plus the
/// column's deviation from the view axis.
#[verifier::opaque]
pub open spec fn ray_angle_spec(g: Game, x: int) -> int {
    let rsx = x - g.projection_width as int / 2;
    wrap_spec(g.player_rotation + atan2_spec(rsx * FP_ONE, projection_distance_spec(g)))
}

/// The ray cast of screen column x.
#[verifier::opaque]
pub open spec fn col_hit_spec(g: Game, x: int) -> RaycastHit {
    raycast_spec(g.map, g.player_x as int, g.player_y as int, ray_angle_spec(g, x))
}

/// Column x's perpendicular-corrected wall distance, and the column's
/// depth-buffer entry: zero when the ray struck nothing or the correction
/// came out nonpositive.
#[verifier::opaque]
pub open spec fn col_dist_spec(g: Game, x: int) -> int {
    let hit = col_hit_spec(g, x);
    if hit.distance == 0 {
        0
    } else {
        let ld = sqrt_floor(hit.distance as int);
        let cos_beta = cos_spec(wrap_spec(g.player_rotation - ray_angle_spec(g, x)));
        let icd = tdiv(ld * cos_beta, FP_ONE as int);
        if icd <= 0 {
            0
        } else {
            icd
        }
    }
}

/// The per-column depth buffer.
pub open spec fn depth_seq(g: Game) -> Seq<i64> {
    Seq::new(g.projection_width as nat, |x: int| col_dist_spec(g, x) as i64)
}

/// A wall-strip pixel: the wall texel selected by the hit's fractional
/// edge coordinate and the row's position in the strip, edge-shaded and
/// lit by the corrected distance.
pub open spec fn wall_pixel_spec(g: Game, x: int, y: int) -> Rgba {
    let hit = col_hit_spec(g, x);
    let icd = col_dist_spec(g, x);
    let wall = g.textures.wall;
    let frac = if hit.tile_side == 0 {
        (hit.y - hit.tile_y * FP_ONE) % (FP_ONE as int)
    } else {
        (hit.x - hit.tile_x * FP_ONE) % (FP_ONE as int)
    };
    let wtx = tex_round_spec(frac, FP_ONE as int, wall.width as int);
    let lh = rdiv_spec(projection_distance_spec(g), icd);
    let start = g.projection_height as int / 2 - lh / 2;
    let ty = tex_floor_spec(y - start, lh, wall.height as int);
    let wl = lighting_spec(icd, LIGHT_RADIUS_FP as int);
    shade_spec(wall.pixel_at(wtx, ty), wl, hit.tile_side != 0)
}

/// A floor pixel: the floor texel under the inverse-perspective hit
/// point, lit by the row's straight distance; black where the row sits on
/// the horizon or the ray is degenerate.
pub open spec fn floor_pixel_spec(g: Game, x: int, y: int) -> Rgba {
    let pd = projection_distance_spec(g);
    let ray_angle = ray_angle_spec(g, x);
    let cos_beta = cos_spec(wrap_spec(g.player_rotation - ray_angle));
    let frow = y - g.projection_height as int / 2;
    if frow <= 0 || cos_beta <= 0 {
        black_pixel()
    } else {
        let fs = tdiv(pd, 2 * frow);
        let fa = tdiv(fs * FP_ONE, cos_beta);
        let hx = g.player_x + tdiv(fa * cos_spec(ray_angle), FP_ONE as int);
        let hy = g.player_y + tdiv(fa * sin_spec(ray_angle), FP_ONE as int);
        let tex = g.textures.floor;
        let tx = tex_floor_spec(hx % (FP_ONE as int), FP_ONE as int, tex.width as int);
        let ty = tex_floor_spec(hy % (FP_ONE as int), FP_ONE as int, tex.height as int);
        shade_spec(tex.pixel_at(tx, ty), lighting_spec(fs, LIGHT_RADIUS_FP as int), false)
    }
}

/// A ceiling pixel: symmetric to the floor with the ray direction
/// subtracted and the lighting taken from the absolute straight distance.
pub open spec fn ceiling_pixel_spec(g: Game, x: int, y: int) -> Rgba {
    let pd = projection_distance_spec(g);
    let ray_angle = ray_angle_spec(g, x);
    let cos_beta = cos_spec(wrap_spec(g.player_rotation - ray_angle));
    let crow = y - g.projection_height as int / 2;
    if crow >= 0 || cos_beta <= 0 {
        black_pixel()
    } else {
        let cs = tdiv(pd, 2 * crow);
        let ca = tdiv(cs * FP_ONE, cos_beta);
        let hx = g.player_x - tdiv(ca * cos_spec(ray_angle), FP_ONE as int);
        let hy = g.player_y - tdiv(ca * sin_spec(ray_angle), FP_ONE as int);
        let tex = g.textures.ceiling;
        let tx = tex_floor_spec(hx % (FP_ONE as int), FP_ONE as int, tex.width as int);
        let ty = tex_floor_spec(hy % (FP_ONE as int), FP_ONE as int, tex.height as int);
        let cl = lighting_spec(vstd::math::abs(cs) as int, LIGHT_RADIUS_FP as int);
        shade_spec(tex.pixel_at(tx, ty), cl, false)
    }
}

/// The column pass's pixel at (x, y): a wall-strip, floor or ceiling
/// pixel by the row's position against the strip, black for a column
/// whose ray struck nothing.
pub open spec fn column_pixel_spec(g: Game, x: int, y: int) -> Rgba {
    let icd = col_dist_spec(g, x);
    if icd == 0 {
        black_pixel()
    } else {
        let lh = rdiv_spec(projection_distance_spec(g), icd);
        let start = g.projection_height as int / 2 - lh / 2;
        let end = start + lh;
        if start <= y < end {
            wall_pixel_spec(g, x, y)
        } else if y >= end {
            floor_pixel_spec(g, x, y)
        } else {
            ceiling_pixel_spec(g, x, y)
        }
    }
}

/// The whole column pass, row-major.
pub open spec fn columns_seq(g: Game) -> Seq<Rgba> {
    Seq::new(
        (g.projection_width * g.projection_height) as nat,
        |i: int|
            column_pixel_spec(
                g,
                i % (g.projection_width as int),
                i / (g.projection_width as int),
            ),
    )
}

/// One sprite column's texels applied to the frame from screen row `col`
/// on: on-canvas texels with nonzero alpha are shaded and written, all
/// others skipped.
pub open spec fn sprite_cols_from(
    f: Seq<Rgba>,
    tex: Texture,
    lighting: int,
    size: int,
    start_x: int,
    start_y: int,
    end_y: int,
    row: int,
    col: int,
    pw: int,
    ph: int,
) -> Seq<Rgba>
    decreases end_y - col,
{
    if col >= end_y {
        f
    } else {
        let f2 = if 0 <= col < ph {
            let c = tex.pixel_at(
                tex_round_spec(row - start_x, size, tex.width as int),
                tex_round_spec(col - start_y, size, tex.height as int),
            );
            if c.a == 0 {
                f
            } else {
                f.update(col * pw + row, shade_spec(c, lighting, false))
            }
        } else {
            f
        };
        sprite_cols_from(f2, tex, lighting, size, start_x, start_y, end_y, row, col + 1, pw, ph)
    }
}

/// One sprite's screen columns applied to the frame from `row` on: a
/// column is drawn only when it is on canvas, the sprite lies within the
/// camera's angular window, and the sprite is at most as far as the
/// column's depth entry.
pub open spec fn sprite_rows_from(
    f: Seq<Rgba>,
    tex: Texture,
    depth: Seq<i64>,
    lighting: int,
    sdist: int,
    gamma: int,
    size: int,
    start_x: int,
    end_x: int,
    start_y: int,
    end_y: int,
    row: int,
    pw: int,
    ph: int,
) -> Seq<Rgba>
    decreases end_x - row,
{
    if row >= end_x {
        f
    } else {
        let visible = 0 <= row < pw && !((gamma < wrap_spec(-QUARTER_PI_FP) && gamma > wrap_spec(
            QUARTER_PI_FP as int,
        )) || (depth[row] as int) < sdist);
        let f2 = if visible {
            sprite_cols_from(f, tex, lighting, size, start_x, start_y, end_y, row, start_y, pw, ph)
        } else {
            f
        };
        sprite_rows_from(
            f2,
            tex,
            depth,
            lighting,
            sdist,
            gamma,
            size,
            start_x,
            end_x,
            start_y,
            end_y,
            row + 1,
            pw,
            ph,
        )
    }
}

/// One billboarded entity applied to the frame: its angle to the camera
/// places it on screen, its corrected distance scales it, and its pixels
/// go through the angular-window, depth, canvas and alpha gates. An
/// entity at or behind the camera plane, one edge-on to it, or one
/// rounding to no pixels leaves the frame unchanged.
pub open spec fn draw_sprite_spec(
    f: Seq<Rgba>,
    ts: TextureSet,
    depth: Seq<i64>,
    e: Entity,
    ox: int,
    oy: int,
    rot: int,
    pd: int,
    pw: int,
    ph: int,
) -> Seq<Rgba> {
    let dx = e.x + FP_HALF - ox;
    let dy = e.y + FP_HALF - oy;
    let theta = atan2_spec(dy, dx);
    let gamma = wrap_spec(theta - rot);
    let ld = sqrt_floor(dx * dx + dy * dy);
    let sdist = tdiv(ld * cos_spec(wrap_spec(rot - theta)), FP_ONE as int);
    if sdist <= 0 {
        f
    } else {
        let lighting = lighting_spec(sdist, LIGHT_RADIUS_FP as int);
        let cos_g = cos_spec(gamma);
        if cos_g == 0 {
            f
        } else {
            let tan_g = tdiv(sin_spec(gamma) * FP_ONE, cos_g);
            let offset = tdiv(tan_g * pd, FP_ONE as int);
            let sx = pw / 2 + (offset + FP_HALF) / (FP_ONE as int);
            let size = rdiv_spec(pd, sdist);
            if size == 0 {
                f
            } else {
                sprite_rows_from(
                    f,
                    ts.texture_of(e.texture_id),
                    depth,
                    lighting,
                    sdist,
                    gamma,
                    size,
                    sx - size / 2,
                    sx + size / 2,
                    ph / 2 - size / 2,
                    ph / 2 + size / 2,
                    sx - size / 2,
                    pw,
                    ph,
                )
            }
        }
    }
}

/// The sprites from index `k` on applied back to front over the frame.
pub open spec fn sprites_from(
    f: Seq<Rgba>,
    ts: TextureSet,
    depth: Seq<i64>,
    ents: Seq<Entity>,
    k: int,
    ox: int,
    oy: int,
    rot: int,
    pd: int,
    pw: int,
    ph: int,
) -> Seq<Rgba>
    decreases ents.len() - k,
{
    if k < 0 || k >= ents.len() {
        f
    } else {
        sprites_from(
            draw_sprite_spec(f, ts, depth, ents[k], ox, oy, rot, pd, pw, ph),
            ts,
            depth,
            ents,
            k + 1,
            ox,
            oy,
            rot,
            pd,
            pw,
            ph,
        )
    }
}

/// The rendered frame: the column pass for walls, floor and ceiling, then
/// every entity billboarded back to front over it. A deterministic
/// function of the map, the textures and the player pose.
pub open spec fn rendered_frame_spec(g: Game) -> Seq<Rgba> {
    sprites_from(
        columns_seq(g),
        g.textures,
        depth_seq(g),
        sorted_spec(g.map.entities@, g.player_x as int, g.player_y as int),
        0,
        g.player_x as int,
        g.player_y as int,
        g.player_rotation as int,
        projection_distance_spec(g),
        g.projection_width as int,
        g.projection_height as int,
    )
}

/// The texture registered under an identifier.
fn texture_for(ts: &TextureSet, id: u32) -> (r: &Texture)
    ensures
        *r == ts.texture_of(id),
{
    if id == 0 {
        &ts.wall
    } else if id == 1 {
        &ts.ceiling
    } else if id == 2 {
        &ts.floor
    } else if id == 3 {
        &ts.schindler
    } else {
        &ts.treasure
    }
}

impl Game {
    /// The column pass: per screen column a cast ray fills the wall strip
    /// (textured, edge-shaded and lit), the rows below it the floor and
    /// the rows above it the ceiling by inverse perspective mapping, and
    /// the column's corrected distance becomes its depth entry. Every
    /// pixel equals `column_pixel_spec`; a missed column stays black.
    #[verifier::rlimit(100)]
    fn render_columns(&self, frame: &mut Frame) -> (depth: Vec<i64>)
        requires
            self.wf(),
            old(frame).wf(),
            old(frame).width == self.projection_width,
            old(frame).height == self.projection_height,
            forall|i: int|
                0 <= i < old(frame).pixels@.len() ==> #[trigger] old(frame).pixels@[i]
                    == black_pixel(),
        ensures
            final(frame).wf(),
            final(frame).width == self.projection_width,
            final(frame).height == self.projection_height,
            depth@ == depth_seq(*self),
            forall|cx: int, cy: int|
                0 <= cx < self.projection_width && 0 <= cy < self.projection_height
                    ==> #[trigger] final(frame).pixel_at(cx, cy) == column_pixel_spec(
                    *self,
                    cx,
                    cy,
                ),
    {
        let ghost g = *self;
        let projection_width: u32 = self.projection_width;
        let projection_height: u32 = self.projection_height;
        let ghost pwi = projection_width as int;
        let ghost phi = projection_height as int;
        let origin_x: i64 = self.player_x;
        let origin_y: i64 = self.player_y;
        let rotation: i64 = self.player_rotation;

        let sin_q: i64 = fp_sin(QUARTER_PI_FP);
        let cos_q: i64 = fp_cos(QUARTER_PI_FP);
        let tan_half_fov: i64 = if cos_q > 0 && sin_q > 0 {
            sdiv(sin_q * FP_ONE, cos_q)
        } else {
            FP_ONE
        };
        let tan_clamped: i64 = if tan_half_fov < 1 {
            1
        } else if tan_half_fov > 0x100000000 {
            0x100000000
        } else {
            tan_half_fov
        };
        let half_width_fp: i64 = ((projection_width / 2) as i64) * FP_ONE;
        let pd_raw: i64 = sdiv(half_width_fp * FP_ONE, tan_clamped);
        let projection_distance: i64 = if pd_raw < 1 {
            1
        } else if pd_raw > 0x10000000 {
            0x10000000
        } else {
            pd_raw
        };
        proof {
            reveal(projection_distance_spec);
            assert(projection_distance == projection_distance_spec(g));
            assert forall|cx: int, cy: int|
                0 <= cx < projection_width && 0 <= cy < projection_height
                implies #[trigger] frame.pixels@[cy * pwi + cx] == black_pixel() by {
                lemma_frame_index(pwi, phi, cx, cy);
            }
        }

        let mut depth_buffer: Vec<i64> = Vec::new();

        let mut x: u32 = 0;
        while x < projection_width
            invariant
                *self == g,
                g.wf(),
                projection_width == g.projection_width,
                projection_height == g.projection_height,
                origin_x == g.player_x,
                origin_y == g.player_y,
                rotation == g.player_rotation,
                1 <= projection_distance <= 0x10000000,
                projection_distance == projection_distance_spec(g),
                frame.wf(),
                frame.width == projection_width,
                frame.height == projection_height,
                x <= projection_width,
                depth_buffer@.len() == x,
                pwi == projection_width as int,
                phi == projection_height as int,
                forall|c: int| 0 <= c < x ==> #[trigger] depth_buffer@[c] == col_dist_spec(g, c),
                forall|cx: int, cy: int|
                    0 <= cx < x && 0 <= cy < projection_height ==> #[trigger] frame.pixels@[cy
                        * pwi + cx] == column_pixel_spec(g, cx, cy),
                forall|cx: int, cy: int|
                    x <= cx < projection_width && 0 <= cy < projection_height
                        ==> #[trigger] frame.pixels@[cy * pwi + cx] == black_pixel(),
            decreases projection_width - x,
        {
            let ray_screen_x: i64 = (x as i64) - ((projection_width / 2) as i64);
            let deviation: i64 = fp_atan2(ray_screen_x * FP_ONE, projection_distance);
            let ray_angle: i64 = wrap_angle(rotation + deviation);
            proof {
                reveal(projection_distance_spec);
                reveal(ray_angle_spec);
                assert(ray_angle == ray_angle_spec(g, x as int));
            }

            let intersection = self.raycast(origin_x, origin_y, ray_angle);
            proof {
                reveal(col_hit_spec);
                assert(intersection == col_hit_spec(g, x as int));
            }
            if intersection.distance == 0 {
                // Degenerate ray: nothing was struck; the column stays
                // black behind an empty depth entry.
                depth_buffer.push(0);
                proof {
                    reveal(col_dist_spec);
                    assert(col_dist_spec(g, x as int) == 0);
                    assert forall|cy: int| 0 <= cy < projection_height implies column_pixel_spec(
                        g,
                        x as int,
                        cy,
                    ) == black_pixel() by {}
                }
                x = x + 1;
                continue ;
            }

            let line_distance: i64 = fp_sqrt(intersection.distance) as i64;
            let beta: i64 = wrap_angle(rotation - ray_angle);
            let cos_beta: i64 = fp_cos(beta);
            let intersection_distance: i64 = mul_div_fp(line_distance, cos_beta);
            if intersection_distance <= 0 {
                depth_buffer.push(0);
                proof {
                    reveal(col_dist_spec);
                    assert(col_dist_spec(g, x as int) == 0);
                    assert forall|cy: int| 0 <= cy < projection_height implies column_pixel_spec(
                        g,
                        x as int,
                        cy,
                    ) == black_pixel() by {}
                }
                x = x + 1;
                continue ;
            }
            depth_buffer.push(intersection_distance);
            proof {
                reveal(col_dist_spec);
                assert(intersection_distance == col_dist_spec(g, x as int));
            }

            let wall_texture_w: u32 = self.textures.wall.width;
            let wall_texture_h: u32 = self.textures.wall.height;

            // The texel column: the fractional part of the hit coordinate
            // along the struck edge.
            let wall_frac: i64 = if intersection.tile_side == 0 {
                frac_fp(intersection.y - (intersection.tile_y as i64) * FP_ONE)
            } else {
                frac_fp(intersection.x - (intersection.tile_x as i64) * FP_ONE)
            };
            let wall_texture_x: u32 = tex_round(wall_frac, FP_ONE, wall_texture_w);

            // The wall strip's vertical extent, centered on the horizon.
            let line_height: i64 = rdiv(projection_distance, intersection_distance);
            let line_screen_start: i64 = ((projection_height / 2) as i64) - line_height / 2;
            let line_screen_end: i64 = line_screen_start + line_height;

            let wall_lighting: i64 = self.calculate_lighting(intersection_distance,
            LIGHT_RADIUS_FP);

            let cos_ray: i64 = fp_cos(ray_angle);
            let sin_ray: i64 = fp_sin(ray_angle);

            let mut y: u32 = 0;
            while y < projection_height
                invariant
                    *self == g,
                    g.wf(),
                    projection_width == g.projection_width,
                    projection_height == g.projection_height,
                    origin_x == g.player_x,
                    origin_y == g.player_y,
                    rotation == g.player_rotation,
                    1 <= projection_distance <= 0x10000000,
                    projection_distance == projection_distance_spec(g),
                    frame.wf(),
                    frame.width == projection_width,
                    frame.height == projection_height,
                    x < projection_width,
                    y <= projection_height,
                    ray_angle == ray_angle_spec(g, x as int),
                    intersection == col_hit_spec(g, x as int),
                    intersection.distance > 0,
                    0 < intersection_distance <= 0x100000000000,
                    intersection_distance == col_dist_spec(g, x as int),
                    beta == wrap_spec(rotation - ray_angle),
                    cos_beta == cos_spec(beta as int),
                    -65536 <= cos_beta <= 65536,
                    cos_ray == cos_spec(ray_angle as int),
                    sin_ray == sin_spec(ray_angle as int),
                    -65536 <= cos_ray <= 65536,
                    -65536 <= sin_ray <= 65536,
                    0 <= wall_lighting <= FP_ONE,
                    wall_lighting == lighting_spec(
                        intersection_distance as int,
                        LIGHT_RADIUS_FP as int,
                    ),
                    wall_texture_w == g.textures.wall.width,
                    wall_texture_h == g.textures.wall.height,
                    wall_texture_x < wall_texture_w,
                    wall_texture_x == tex_round_spec(
                        wall_frac as int,
                        FP_ONE as int,
                        wall_texture_w as int,
                    ),
                    wall_frac as int == (if intersection.tile_side == 0 {
                        (intersection.y - intersection.tile_y * FP_ONE) % (FP_ONE as int)
                    } else {
                        (intersection.x - intersection.tile_x * FP_ONE) % (FP_ONE as int)
                    }),
                    0 <= line_height <= 0x10000000,
                    line_height == rdiv_spec(
                        projection_distance as int,
                        intersection_distance as int,
                    ),
                    line_screen_start == ((projection_height / 2) as int) - line_height / 2,
                    line_screen_end == line_screen_start + line_height,
                    pwi == projection_width as int,
                    phi == projection_height as int,
                    forall|cy: int|
                        0 <= cy < y ==> #[trigger] frame.pixels@[cy * pwi + x as int]
                            == column_pixel_spec(g, x as int, cy),
                    forall|cy: int|
                        y <= cy < projection_height ==> #[trigger] frame.pixels@[cy * pwi
                            + x as int] == black_pixel(),
                    forall|cx: int, cy: int|
                        0 <= cx < x && 0 <= cy < projection_height ==> #[trigger] frame.pixels@[cy
                            * pwi + cx] == column_pixel_spec(g, cx, cy),
                    forall|cx: int, cy: int|
                        x < cx < projection_width && 0 <= cy < projection_height
                            ==> #[trigger] frame.pixels@[cy * pwi + cx] == black_pixel(),
                decreases projection_height - y,
            {
                let yi: i64 = y as i64;
                let ghost fprev = frame.pixels@;

                // Wall strip.
                if yi >= line_screen_start && yi < line_screen_end {
                    let line_y: i64 = yi - line_screen_start;
                    let texture_y: u32 = tex_floor(line_y, line_height, wall_texture_h);
                    let color = self.textures.wall.get_pixel(wall_texture_x, texture_y);
                    let lit = shade(color, wall_lighting, intersection.tile_side != 0);
                    proof {
                        assert(lit == column_pixel_spec(g, x as int, y as int));
                    }
                    frame.set_pixel(x, y, lit);
                    proof {
                        lemma_column_write(
                            g,
                            fprev,
                            frame.pixels@,
                            x as int,
                            y as int,
                            projection_width as int,
                            projection_height as int,
                            lit,
                        );
                    }
                    y = y + 1;
                    continue ;
                }

                // Floor: rows below the strip.
                if yi >= line_screen_end {
                    let floor_row: i64 = yi - ((projection_height / 2) as i64);
                    if floor_row <= 0 || cos_beta <= 0 {
                        proof {
                            assert(column_pixel_spec(g, x as int, y as int) == black_pixel());
                        }
                        y = y + 1;
                        continue ;
                    }
                    let floor_straight: i64 = sdiv(projection_distance, 2 * floor_row);
                    let floor_actual: i64 = sdiv(floor_straight * FP_ONE, cos_beta);
                    let hit_x: i64 = origin_x + mul_div_fp(floor_actual, cos_ray);
                    let hit_y: i64 = origin_y + mul_div_fp(floor_actual, sin_ray);
                    let fx: i64 = frac_fp(hit_x);
                    let fy: i64 = frac_fp(hit_y);
                    let tex = &self.textures.floor;
                    let texture_x: u32 = tex_floor(fx, FP_ONE, tex.width);
                    let texture_y: u32 = tex_floor(fy, FP_ONE, tex.height);
                    let floor_lighting: i64 = self.calculate_lighting(floor_straight,
                    LIGHT_RADIUS_FP);
                    let color = self.textures.floor.get_pixel(texture_x, texture_y);
                    let lit = shade(color, floor_lighting, false);
                    proof {
                        assert(lit == floor_pixel_spec(g, x as int, y as int));
                        assert(lit == column_pixel_spec(g, x as int, y as int));
                    }
                    frame.set_pixel(x, y, lit);
                    proof {
                        lemma_column_write(
                            g,
                            fprev,
                            frame.pixels@,
                            x as int,
                            y as int,
                            projection_width as int,
                            projection_height as int,
                            lit,
                        );
                    }
                    y = y + 1;
                    continue ;
                }

                // Ceiling: rows above the strip.
                let ceiling_row: i64 = yi - ((projection_height / 2) as i64);
                if ceiling_row >= 0 || cos_beta <= 0 {
                    proof {
                        assert(column_pixel_spec(g, x as int, y as int) == black_pixel());
                    }
                    y = y + 1;
                    continue ;
                }
                let ceiling_straight: i64 = sdiv(projection_distance, 2 * ceiling_row);
                let ceiling_actual: i64 = sdiv(ceiling_straight * FP_ONE, cos_beta);
                let hit_x: i64 = origin_x - mul_div_fp(ceiling_actual, cos_ray);
                let hit_y: i64 = origin_y - mul_div_fp(ceiling_actual, sin_ray);
                let fx: i64 = frac_fp(hit_x);
                let fy: i64 = frac_fp(hit_y);
                let tex = &self.textures.ceiling;
                let texture_x: u32 = tex_floor(fx, FP_ONE, tex.width);
                let texture_y: u32 = tex_floor(fy, FP_ONE, tex.height);
                let ceiling_abs: i64 = if ceiling_straight < 0 {
                    -ceiling_straight
                } else {
                    ceiling_straight
                };
                let ceiling_lighting: i64 = self.calculate_lighting(ceiling_abs, LIGHT_RADIUS_FP);
                let color = self.textures.ceiling.get_pixel(texture_x, texture_y);
                let lit = shade(color, ceiling_lighting, false);
                proof {
                    assert(lit == ceiling_pixel_spec(g, x as int, y as int));
                    assert(lit == column_pixel_spec(g, x as int, y as int));
                }
                frame.set_pixel(x, y, lit);
                proof {
                    lemma_column_write(
                        g,
                        fprev,
                        frame.pixels@,
                        x as int,
                        y as int,
                        projection_width as int,
                        projection_height as int,
                        lit,
                    );
                }
                y = y + 1;
            }
            x = x + 1;
        }
        proof {
            assert(depth_buffer@ =~= depth_seq(g));
            assert forall|cx: int, cy: int|
                0 <= cx < projection_width && 0 <= cy < projection_height
                implies #[trigger] frame.pixel_at(cx, cy) == column_pixel_spec(g, cx, cy) by {
                assert(frame.pixels@[cy * pwi + cx] == column_pixel_spec(g, cx, cy));
            }
        }
        depth_buffer
    }
}

/// After one on-canvas write, the written pixel holds the new color and
/// every other pixel is untouched.
proof fn lemma_column_write(
    g: Game,
    fprev: Seq<Rgba>,
    fcur: Seq<Rgba>,
    x: int,
    y: int,
    pw: int,
    ph: int,
    c: Rgba,
)
    requires
        0 <= x < pw,
        0 <= y < ph,
        pw <= 4096,
        ph <= 4096,
        fprev.len() == pw * ph,
        fcur == fprev.update(y * pw + x, c),
    ensures
        fcur.len() == fprev.len(),
        forall|cx: int, cy: int|
            0 <= cx < pw && 0 <= cy < ph && !(cx == x && cy == y) ==> #[trigger] fcur[cy * pw + cx]
                == fprev[cy * pw + cx],
        fcur[y * pw + x] == c,
{
    lemma_frame_index(pw, ph, x, y);
    assert forall|cx: int, cy: int|
        0 <= cx < pw && 0 <= cy < ph && !(cx == x && cy == y) implies #[trigger] fcur[cy * pw + cx]
        == fprev[cy * pw + cx] by {
        lemma_frame_index(pw, ph, cx, cy);
        if cy * pw + cx == y * pw + x {
            lemma_frame_index_injective(pw, cx, cy, x, y);
        }
    }
}


/// Draws one billboarded entity over the frame, exactly as
/// `draw_sprite_spec` describes.
#[verifier::rlimit(100)]
fn draw_one_sprite(
    ts: &TextureSet,
    depth_buffer: &Vec<i64>,
    frame: &mut Frame,
    sprite: Entity,
    origin_x: i64,
    origin_y: i64,
    rotation: i64,
    projection_distance: i64,
    projection_width: u32,
    projection_height: u32,
)
    requires
        ts.wf(),
        old(frame).wf(),
        old(frame).width == projection_width,
        old(frame).height == projection_height,
        depth_buffer@.len() == projection_width,
        crate::render::ent_pos_bounded(sprite),
        0 <= origin_x <= crate::grid::MAX_DIM * FP_ONE,
        0 <= origin_y <= crate::grid::MAX_DIM * FP_ONE,
        0 <= rotation < crate::fp::TWO_PI_FP,
        1 <= projection_distance <= 0x10000000,
    ensures
        final(frame).wf(),
        final(frame).width == projection_width,
        final(frame).height == projection_height,
        final(frame).pixels@ == draw_sprite_spec(
            old(frame).pixels@,
            *ts,
            depth_buffer@,
            sprite,
            origin_x as int,
            origin_y as int,
            rotation as int,
            projection_distance as int,
            projection_width as int,
            projection_height as int,
        ),
{
    let ghost f0 = frame.pixels@;
    let ghost pwi = projection_width as int;
    let ghost phi = projection_height as int;

    let camera_min_angle: i64 = wrap_angle(0 - QUARTER_PI_FP);
    let camera_max_angle: i64 = wrap_angle(QUARTER_PI_FP);

    let distance_x: i64 = (sprite.x + FP_HALF) - origin_x;
    let distance_y: i64 = (sprite.y + FP_HALF) - origin_y;

    let theta: i64 = fp_atan2(distance_y, distance_x);
    let gamma: i64 = wrap_angle(theta - rotation);

    let d2: u64 = {
        proof {
            assert(0 <= distance_x * distance_x <= 0x40000000000000 && 0 <= distance_y
                * distance_y <= 0x40000000000000) by (nonlinear_arith)
                requires
                    -0x8000000 <= distance_x <= 0x8000000,
                    -0x8000000 <= distance_y <= 0x8000000,
            ;
        }
        (distance_x * distance_x + distance_y * distance_y) as u64
    };
    let line_dist: i64 = fp_sqrt(d2) as i64;
    let cos_off: i64 = fp_cos(wrap_angle(rotation - theta));
    let sprite_distance: i64 = mul_div_fp(line_dist, cos_off);
    if sprite_distance <= 0 {
        // The sprite is at or behind the camera plane.
        return ;
    }
    let lighting: i64 = calculate_lighting(sprite_distance, LIGHT_RADIUS_FP);

    // Horizontal screen placement from the relative angle.
    let sin_g: i64 = fp_sin(gamma);
    let cos_g: i64 = fp_cos(gamma);
    if cos_g == 0 {
        return ;
    }
    let tan_g: i64 = sdiv(sin_g * FP_ONE, cos_g);
    proof {
        assert(-0x1000000000000000 <= tan_g * projection_distance <= 0x1000000000000000)
            by (nonlinear_arith)
            requires
                -0x100000000 <= tan_g <= 0x100000000,
                1 <= projection_distance <= 0x10000000,
        ;
    }
    let sprite_pixel_offset: i64 = sdiv(tan_g * projection_distance, FP_ONE);
    proof {
        vstd::arithmetic::div_mod::lemma_div_is_ordered(
            vstd::math::abs((tan_g * projection_distance) as int) as int,
            0x1000000000000000int,
            65536,
        );
        vstd::arithmetic::div_mod::lemma_fundamental_div_mod(
            sprite_pixel_offset as int + FP_HALF as int,
            65536,
        );
    }
    let off_px: i64 = fdiv(sprite_pixel_offset + FP_HALF, FP_ONE);
    proof {
        assert(-0x1000000000 <= off_px <= 0x1000000000);
    }
    let sprite_screen_x: i64 = ((projection_width / 2) as i64) + off_px;

    let sprite_size: i64 = rdiv(projection_distance, sprite_distance);
    if sprite_size == 0 {
        return ;
    }

    let sprite_screen_start_x: i64 = sprite_screen_x - sprite_size / 2;
    let sprite_screen_end_x: i64 = sprite_screen_x + sprite_size / 2;
    let sprite_screen_start_y: i64 = ((projection_height / 2) as i64) - sprite_size / 2;
    let sprite_screen_end_y: i64 = ((projection_height / 2) as i64) + sprite_size / 2;

    let tex: &Texture = texture_for(ts, sprite.texture_id);
    let tex_w: u32 = tex.width;
    let tex_h: u32 = tex.height;
    let ghost sdi = sprite_distance as int;
    let ghost gi = gamma as int;
    let ghost li = lighting as int;
    let ghost szi = sprite_size as int;
    let ghost sxi = sprite_screen_start_x as int;
    let ghost exi = sprite_screen_end_x as int;
    let ghost syi = sprite_screen_start_y as int;
    let ghost eyi = sprite_screen_end_y as int;

    proof {
        assert(draw_sprite_spec(
            f0,
            *ts,
            depth_buffer@,
            sprite,
            origin_x as int,
            origin_y as int,
            rotation as int,
            projection_distance as int,
            pwi,
            phi,
        ) == sprite_rows_from(
            f0,
            ts.texture_of(sprite.texture_id),
            depth_buffer@,
            li,
            sdi,
            gi,
            szi,
            sxi,
            exi,
            syi,
            eyi,
            sxi,
            pwi,
            phi,
        ));
    }

    let mut row: i64 = sprite_screen_start_x;
    while row < sprite_screen_end_x
        invariant
            ts.wf(),
            frame.wf(),
            frame.width == projection_width,
            frame.height == projection_height,
            depth_buffer@.len() == projection_width,
            pwi == projection_width as int,
            phi == projection_height as int,
            camera_min_angle == wrap_spec(-QUARTER_PI_FP as int),
            camera_max_angle == wrap_spec(QUARTER_PI_FP as int),
            -0x10000000000 <= sprite_screen_start_x <= 0x10000000000,
            -0x10000000000 <= sprite_screen_end_x <= 0x10000000000,
            -0x10000000000 <= sprite_screen_start_y <= 0x10000000000,
            -0x10000000000 <= sprite_screen_end_y <= 0x10000000000,
            0 < sprite_size <= 0x10000000,
            sprite_screen_end_x - sprite_screen_start_x <= sprite_size,
            sprite_screen_end_y - sprite_screen_start_y <= sprite_size,
            sprite_screen_start_x <= row,
            0 <= lighting <= FP_ONE,
            0 < sprite_distance,
            *tex == ts.texture_of(sprite.texture_id),
            tex_w == tex.width,
            tex_h == tex.height,
            1 <= tex_w <= 4096,
            1 <= tex_h <= 4096,
            li == lighting as int,
            sdi == sprite_distance as int,
            gi == gamma as int,
            szi == sprite_size as int,
            sxi == sprite_screen_start_x as int,
            exi == sprite_screen_end_x as int,
            syi == sprite_screen_start_y as int,
            eyi == sprite_screen_end_y as int,
            sprite_rows_from(
                frame.pixels@,
                ts.texture_of(sprite.texture_id),
                depth_buffer@,
                li,
                sdi,
                gi,
                szi,
                sxi,
                exi,
                syi,
                eyi,
                row as int,
                pwi,
                phi,
            ) == sprite_rows_from(
                f0,
                ts.texture_of(sprite.texture_id),
                depth_buffer@,
                li,
                sdi,
                gi,
                szi,
                sxi,
                exi,
                syi,
                eyi,
                sxi,
                pwi,
                phi,
            ),
        decreases sprite_screen_end_x - row,
    {
        if row < 0 || row >= projection_width as i64 {
            row = row + 1;
            continue ;
        }

        // Visibility: the sprite must be within the camera's angular
        // window and nearer than the column's recorded depth.
        if (gamma < camera_min_angle && gamma > camera_max_angle) || depth_buffer[row as usize]
            < sprite_distance {
            row = row + 1;
            continue ;
        }

        let ghost f_row = frame.pixels@;
        let mut col: i64 = sprite_screen_start_y;
        while col < sprite_screen_end_y
            invariant
                ts.wf(),
                frame.wf(),
                frame.width == projection_width,
                frame.height == projection_height,
                pwi == projection_width as int,
                phi == projection_height as int,
                -0x10000000000 <= sprite_screen_start_x <= 0x10000000000,
                -0x10000000000 <= sprite_screen_start_y <= 0x10000000000,
                -0x10000000000 <= sprite_screen_end_y <= 0x10000000000,
                row < sprite_screen_end_x,
                sprite_screen_end_x - sprite_screen_start_x <= sprite_size,
                sprite_screen_end_y - sprite_screen_start_y <= sprite_size,
                0 < sprite_size <= 0x10000000,
                sprite_screen_start_x <= row < projection_width,
                0 <= row,
                sprite_screen_start_y <= col,
                0 <= lighting <= FP_ONE,
                *tex == ts.texture_of(sprite.texture_id),
                tex_w == tex.width,
                tex_h == tex.height,
                1 <= tex_w <= 4096,
                1 <= tex_h <= 4096,
                li == lighting as int,
                szi == sprite_size as int,
                sxi == sprite_screen_start_x as int,
                syi == sprite_screen_start_y as int,
                eyi == sprite_screen_end_y as int,
                sprite_cols_from(
                    frame.pixels@,
                    ts.texture_of(sprite.texture_id),
                    li,
                    szi,
                    sxi,
                    syi,
                    eyi,
                    row as int,
                    col as int,
                    pwi,
                    phi,
                ) == sprite_cols_from(
                    f_row,
                    ts.texture_of(sprite.texture_id),
                    li,
                    szi,
                    sxi,
                    syi,
                    eyi,
                    row as int,
                    syi,
                    pwi,
                    phi,
                ),
            decreases sprite_screen_end_y - col,
        {
            if col < 0 || col >= projection_height as i64 {
                col = col + 1;
                continue ;
            }

            let sprite_row: i64 = row - sprite_screen_start_x;
            let sprite_col: i64 = col - sprite_screen_start_y;

            let texture_x: u32 = tex_round(sprite_row, sprite_size, tex_w);
            let texture_y: u32 = tex_round(sprite_col, sprite_size, tex_h);

            let color = tex.get_pixel(texture_x, texture_y);
            if color.a == 0 {
                col = col + 1;
                continue ;
            }
            let lit = shade(color, lighting, false);
            frame.set_pixel(row as u32, col as u32, lit);
            col = col + 1;
        }
        proof {
            assert(frame.pixels@ == sprite_cols_from(
                f_row,
                ts.texture_of(sprite.texture_id),
                li,
                szi,
                sxi,
                syi,
                eyi,
                row as int,
                syi,
                pwi,
                phi,
            ));
        }
        row = row + 1;
    }
}


impl Game {
    /// Renders one full frame: the column pass fills walls, floor and
    /// ceiling and records the depth buffer, the entities are sorted back
    /// to front (exactly `sorted_spec`), and each is billboarded over the
    /// frame through the angular-window, depth, canvas and alpha gates.
    /// The returned pixels equal `rendered_frame_spec` of the pre-call
    /// state: a deterministic, byte-exact function of the map, the
    /// textures and the player pose. Every pixel lands on the canvas; the
    /// map's tiles, the player and the textures are untouched.
    #[verifier::rlimit(80)]
    pub fn render_world(&mut self) -> (frame: Frame)
        requires
            old(self).wf(),
        ensures
            final(self).wf(),
            frame.wf(),
            frame.width == old(self).projection_width,
            frame.height == old(self).projection_height,
            frame.pixels@ == rendered_frame_spec(*old(self)),
            final(self).map.width == old(self).map.width,
            final(self).map.height == old(self).map.height,
            final(self).map.tiles == old(self).map.tiles,
            final(self).textures == old(self).textures,
            final(self).projection_width == old(self).projection_width,
            final(self).projection_height == old(self).projection_height,
            final(self).player_x == old(self).player_x,
            final(self).player_y == old(self).player_y,
            final(self).player_rotation == old(self).player_rotation,
            final(self).map.entities@ == sorted_spec(
                old(self).map.entities@,
                old(self).player_x as int,
                old(self).player_y as int,
            ),
            final(self).map.entities@.to_multiset() == old(self).map.entities@.to_multiset(),
            final(self).map.entities@.len() == old(self).map.entities@.len(),
            forall|a: int, b: int|
                0 <= a < b < final(self).map.entities@.len() ==> crate::render::ent_dist_sq(
                    #[trigger] final(self).map.entities@[a],
                    old(self).player_x as int,
                    old(self).player_y as int,
                ) >= crate::render::ent_dist_sq(
                    #[trigger] final(self).map.entities@[b],
                    old(self).player_x as int,
                    old(self).player_y as int,
                ),
    {
        let ghost g0 = *self;
        let projection_width: u32 = self.projection_width;
        let projection_height: u32 = self.projection_height;
        let origin_x: i64 = self.player_x;
        let origin_y: i64 = self.player_y;
        let rotation: i64 = self.player_rotation;

        let sin_q: i64 = fp_sin(QUARTER_PI_FP);
        let cos_q: i64 = fp_cos(QUARTER_PI_FP);
        let tan_half_fov: i64 = if cos_q > 0 && sin_q > 0 {
            sdiv(sin_q * FP_ONE, cos_q)
        } else {
            FP_ONE
        };
        let tan_clamped: i64 = if tan_half_fov < 1 {
            1
        } else if tan_half_fov > 0x100000000 {
            0x100000000
        } else {
            tan_half_fov
        };
        let half_width_fp: i64 = ((projection_width / 2) as i64) * FP_ONE;
        let pd_raw: i64 = sdiv(half_width_fp * FP_ONE, tan_clamped);
        let projection_distance: i64 = if pd_raw < 1 {
            1
        } else if pd_raw > 0x10000000 {
            0x10000000
        } else {
            pd_raw
        };
        proof {
            reveal(projection_distance_spec);
            assert(projection_distance == projection_distance_spec(g0));
        }

        let mut frame = Frame::new(projection_width, projection_height);
        let depth_buffer: Vec<i64> = self.render_columns(&mut frame);

        proof {
            assert(frame.pixels@ =~= columns_seq(g0)) by {
                assert(frame.pixels@.len() == columns_seq(g0).len());
                assert forall|i: int|
                    0 <= i < frame.pixels@.len() implies frame.pixels@[i] == columns_seq(g0)[i] by {
                    let pw = projection_width as int;
                    let ph = projection_height as int;
                    vstd::arithmetic::div_mod::lemma_fundamental_div_mod(i, pw);
                    vstd::arithmetic::div_mod::lemma_multiply_divide_lt(i, pw, ph);
                    vstd::arithmetic::div_mod::lemma_div_pos_is_pos(i, pw);
                    let cx = i % pw;
                    let cy = i / pw;
                    vstd::arithmetic::mul::lemma_mul_is_commutative(pw, cy);
                    assert(i == cy * pw + cx);
                    assert(frame.pixel_at(cx, cy) == column_pixel_spec(g0, cx, cy));
                    assert(frame.pixel_at(cx, cy) == frame.pixels@[cy * pw + cx]);
                }
            }
        }

        // Sort the entities back to front for painter's-algorithm
        // blending.
        let ghost ents0 = self.map.entities@;
        sort_back_to_front(&mut self.map.entities, origin_x, origin_y);
        proof {
            broadcast use vstd::seq_lib::group_to_multiset_ensures;

            assert forall|k: int| 0 <= k < self.map.entities@.len() implies ent_wf(
                #[trigger] self.map.entities@[k],
                self.map.width as int,
                self.map.height as int,
            ) by {
                let e = self.map.entities@[k];
                assert(self.map.entities@.contains(e));
                assert(ents0.to_multiset().count(e) > 0);
                assert(ents0.contains(e));
                let j = choose|j: int| 0 <= j < ents0.len() && ents0[j] == e;
                assert(ent_wf(ents0[j], g0.map.width as int, g0.map.height as int));
            }
            assert forall|cx: int, cy: int|
                0 <= cx < self.map.width && 0 <= cy < self.map.height implies (
            #[trigger] self.map.tile_at(cx, cy) matches Some(t) ==> t.x == cx && t.y == cy) by {
                assert(self.map.tile_at(cx, cy) == g0.map.tile_at(cx, cy));
            }
        }

        // Billboard the sprites back to front over the column pass.
        let ghost target = rendered_frame_spec(g0);
        proof {
            assert(target == sprites_from(
                frame.pixels@,
                g0.textures,
                depth_buffer@,
                self.map.entities@,
                0,
                origin_x as int,
                origin_y as int,
                rotation as int,
                projection_distance as int,
                projection_width as int,
                projection_height as int,
            ));
        }
        let mut s: usize = 0;
        while s < self.map.entities.len()
            invariant
                self.wf(),
                self.map.width == g0.map.width,
                self.map.height == g0.map.height,
                self.map.tiles == g0.map.tiles,
                self.textures == g0.textures,
                self.projection_width == g0.projection_width,
                self.projection_height == g0.projection_height,
                self.player_x == g0.player_x,
                self.player_y == g0.player_y,
                self.player_rotation == g0.player_rotation,
                self.map.entities@ == sorted_spec(ents0, origin_x as int, origin_y as int),
                forall|k: int|
                    0 <= k < self.map.entities@.len() ==> crate::render::ent_pos_bounded(
                        #[trigger] self.map.entities@[k],
                    ),
                origin_x == g0.player_x,
                origin_y == g0.player_y,
                rotation == g0.player_rotation,
                0 <= origin_x <= crate::grid::MAX_DIM * FP_ONE,
                0 <= origin_y <= crate::grid::MAX_DIM * FP_ONE,
                0 <= rotation < crate::fp::TWO_PI_FP,
                1 <= projection_distance <= 0x10000000,
                projection_width == g0.projection_width,
                projection_height == g0.projection_height,
                frame.wf(),
                frame.width == projection_width,
                frame.height == projection_height,
                depth_buffer@.len() == projection_width,
                s <= self.map.entities@.len(),
                target == sprites_from(
                    frame.pixels@,
                    g0.textures,
                    depth_buffer@,
                    self.map.entities@,
                    s as int,
                    origin_x as int,
                    origin_y as int,
                    rotation as int,
                    projection_distance as int,
                    projection_width as int,
                    projection_height as int,
                ),
            decreases self.map.entities@.len() - s,
        {
            let sprite = self.map.entities[s];
            draw_one_sprite(
                &self.textures,
                &depth_buffer,
                &mut frame,
                sprite,
                origin_x,
                origin_y,
                rotation,
                projection_distance,
                projection_width,
                projection_height,
            );
            s = s + 1;
        }

        frame
    }
}

} // verus!
