//! Grid DDA ray casting: two sweeps step the ray across successive
//! vertical and horizontal grid lines; each stops at the first occupied
//! cell or on leaving the map, and the nearer of the two hits wins (ties
//! keep the vertical-line hit). A ray that strikes nothing yields the
//! zero sentinel hit.

use vstd::prelude::*;
use crate::fp::{
    ceil_mult_spec, ceil_mult, cos_spec, floor_mult_spec, floor_mult, fp_cos, fp_sin, sdiv,
    sin_spec, tdiv, wrap_angle, wrap_spec, FP_ONE, PI_FP, TWO_PI_FP,
};
use crate::grid::{GridMap, Tile};

verus! {

/// The most boundary crossings one sweep may examine before it gives up:
/// enough to cross the largest map twice over.
pub const SWEEP_FUEL: u32 = 2052;

/// The result of one ray cast: the exact hit point, the struck cell, the
/// struck edge kind (0 = vertical grid line, 1 = horizontal grid line)
/// and the squared fixed-point distance from the ray origin. A distance
/// of zero is the sentinel for a ray that struck nothing.
pub struct RaycastHit {
    pub x: i64,
    pub y: i64,
    pub tile_x: u32,
    pub tile_y: u32,
    pub tile_side: u8,
    pub distance: u64,
}

/// Squared distance between two fixed-point points.
pub open spec fn dist_sq(ox: int, oy: int, hx: int, hy: int) -> int {
    (hx - ox) * (hx - ox) + (hy - oy) * (hy - oy)
}

/// Whether a sweep position is still over the map.
pub open spec fn in_sweep_bounds(m: GridMap, rpx: int, rpy: int) -> bool {
    0 <= rpx < m.width * FP_ONE && 0 <= rpy < m.height * FP_ONE
}

/// One DDA sweep from (rpx, rpy) stepping by (dx, dy): at each position
/// still over the map it examines the cell displaced by (offx, offy) and
/// stops at the first occupied one; it yields `None` on leaving the map
/// or when the fuel runs out.
pub open spec fn sweep(
    m: GridMap,
    rpx: int,
    rpy: int,
    dx: int,
    dy: int,
    offx: int,
    offy: int,
    fuel: nat,
) -> Option<(int, int, Tile)>
    decreases fuel,
{
    if fuel == 0 {
        None
    } else if !in_sweep_bounds(m, rpx, rpy) {
        None
    } else {
        let tx = tdiv(rpx + offx, FP_ONE as int);
        let ty = tdiv(rpy + offy, FP_ONE as int);
        match m.tile_at(tx, ty) {
            Some(t) => Some((rpx, rpy, t)),
            None => sweep(m, rpx + dx, rpy + dy, dx, dy, offx, offy, (fuel - 1) as nat),
        }
    }
}

/// A sweep hit names an occupied in-bounds cell, and its hit point lies
/// over the map.
pub proof fn lemma_sweep_hit(
    m: GridMap,
    rpx: int,
    rpy: int,
    dx: int,
    dy: int,
    offx: int,
    offy: int,
    fuel: nat,
)
    requires
        m.wf(),
        sweep(m, rpx, rpy, dx, dy, offx, offy, fuel) is Some,
    ensures
        ({
            let (hx, hy, t) = sweep(m, rpx, rpy, dx, dy, offx, offy, fuel)->Some_0;
            &&& m.tile_at(t.x as int, t.y as int) == Some(t)
            &&& t.x < m.width
            &&& t.y < m.height
            &&& 0 <= hx < m.width * FP_ONE
            &&& 0 <= hy < m.height * FP_ONE
        }),
    decreases fuel,
{
    if fuel > 0 && in_sweep_bounds(m, rpx, rpy) {
        let tx = tdiv(rpx + offx, FP_ONE as int);
        let ty = tdiv(rpy + offy, FP_ONE as int);
        match m.tile_at(tx, ty) {
            Some(t) => {
                assert(0 <= tx < m.width && 0 <= ty < m.height);
            },
            None => {
                lemma_sweep_hit(m, rpx + dx, rpy + dy, dx, dy, offx, offy, (fuel - 1) as nat);
            },
        }
    }
}

/// Whether a normalized angle points toward increasing x.
pub open spec fn ray_right(a: int) -> bool {
    4 * a > 3 * TWO_PI_FP || 4 * a < TWO_PI_FP
}

/// Whether a normalized angle points toward decreasing y.
pub open spec fn ray_up(a: int) -> bool {
    a > PI_FP
}

/// The vertical-grid-line sweep of a ray from (ox, oy) at normalized
/// angle `a`; skipped for rays parallel to the y axis.
pub open spec fn vertical_hit(m: GridMap, ox: int, oy: int, a: int) -> Option<(int, int, Tile)> {
    let sin = sin_spec(a);
    let cos = cos_spec(a);
    if cos == 0 {
        None
    } else {
        let right = ray_right(a);
        let slope = tdiv(sin * FP_ONE, cos);
        let rpx0 = if right {
            ceil_mult_spec(ox)
        } else {
            floor_mult_spec(ox)
        };
        let rpy0 = oy + tdiv((rpx0 - ox) * slope, FP_ONE as int);
        let dx = if right {
            FP_ONE as int
        } else {
            -FP_ONE as int
        };
        let dy = if right {
            slope
        } else {
            -slope
        };
        let offx = if right {
            0
        } else {
            -FP_ONE as int
        };
        sweep(m, rpx0, rpy0, dx, dy, offx, 0, SWEEP_FUEL as nat)
    }
}

/// The horizontal-grid-line sweep of a ray from (ox, oy) at normalized
/// angle `a`; skipped for rays parallel to the x axis.
pub open spec fn horizontal_hit(m: GridMap, ox: int, oy: int, a: int) -> Option<(int, int, Tile)> {
    let sin = sin_spec(a);
    let cos = cos_spec(a);
    if sin == 0 {
        None
    } else {
        let up = ray_up(a);
        let slope = tdiv(cos * FP_ONE, sin);
        let rpy0 = if up {
            floor_mult_spec(oy)
        } else {
            ceil_mult_spec(oy)
        };
        let rpx0 = ox + tdiv((rpy0 - oy) * slope, FP_ONE as int);
        let dy = if up {
            -FP_ONE as int
        } else {
            FP_ONE as int
        };
        let dx = if up {
            -slope
        } else {
            slope
        };
        let offy = if up {
            -FP_ONE as int
        } else {
            0
        };
        sweep(m, rpx0, rpy0, dx, dy, 0, offy, SWEEP_FUEL as nat)
    }
}

/// The hit record built from one sweep result.
pub open spec fn hit_struct(ox: int, oy: int, h: (int, int, Tile), side: u8) -> RaycastHit {
    RaycastHit {
        x: h.0 as i64,
        y: h.1 as i64,
        tile_x: h.2.x,
        tile_y: h.2.y,
        tile_side: side,
        distance: dist_sq(ox, oy, h.0, h.1) as u64,
    }
}

/// The zero sentinel hit for a ray that struck nothing.
pub open spec fn miss_struct() -> RaycastHit {
    RaycastHit { x: 0, y: 0, tile_x: 0, tile_y: 0, tile_side: 0, distance: 0 }
}

/// What `raycast` returns: the nearer of the two sweep hits, ties kept
/// by the vertical sweep; only a degenerate (zero-distance) vertical hit
/// yields to the horizontal result. The zero sentinel stands for a ray
/// that struck nothing.
pub open spec fn raycast_spec(m: GridMap, ox: int, oy: int, angle: int) -> RaycastHit {
    let a = wrap_spec(angle);
    match (vertical_hit(m, ox, oy, a), horizontal_hit(m, ox, oy, a)) {
        (None, None) => miss_struct(),
        (Some(v), None) => hit_struct(ox, oy, v, 0),
        (None, Some(h)) => hit_struct(ox, oy, h, 1),
        (Some(v), Some(h)) => {
            if dist_sq(ox, oy, v.0, v.1) == 0 || dist_sq(ox, oy, h.0, h.1) < dist_sq(
                ox,
                oy,
                v.0,
                v.1,
            ) {
                hit_struct(ox, oy, h, 1)
            } else {
                hit_struct(ox, oy, v, 0)
            }
        },
    }
}

/// The view of an executable sweep result as the spec-level triple.
pub open spec fn sweep_view(r: Option<(i64, i64, Tile)>) -> Option<(int, int, Tile)> {
    match r {
        Some(h) => Some((h.0 as int, h.1 as int, h.2)),
        None => None,
    }
}


/// Squared distance between two nearby fixed-point points, as a u64.
fn dist_sq_exec(ox: i64, oy: i64, hx: i64, hy: i64) -> (r: u64)
    requires
        -0x4000000 <= ox <= 0x4000000,
        -0x4000000 <= oy <= 0x4000000,
        -0x4000000 <= hx <= 0x4000000,
        -0x4000000 <= hy <= 0x4000000,
    ensures
        r == dist_sq(ox as int, oy as int, hx as int, hy as int),
        r <= 0x80000000000000,
{
    let ddx: i64 = hx - ox;
    let ddy: i64 = hy - oy;
    proof {
        assert(0 <= ddx * ddx <= 0x40000000000000 && 0 <= ddy * ddy <= 0x40000000000000)
            by (nonlinear_arith)
            requires
                -0x8000000 <= ddx <= 0x8000000,
                -0x8000000 <= ddy <= 0x8000000,
        ;
    }
    (ddx * ddx + ddy * ddy) as u64
}

/// Runs one DDA sweep; mirrors `sweep` exactly.
fn run_sweep(m: &GridMap, rpx0: i64, rpy0: i64, dx: i64, dy: i64, offx: i64, offy: i64) -> (r:
    Option<(i64, i64, Tile)>)
    requires
        m.wf(),
        -0x400000000 <= rpx0 <= 0x400000000,
        -0x400000000 <= rpy0 <= 0x400000000,
        -0x200000000 <= dx <= 0x200000000,
        -0x200000000 <= dy <= 0x200000000,
        offx == 0 || offx == -FP_ONE,
        offy == 0 || offy == -FP_ONE,
    ensures
        sweep_view(r) == sweep(
            *m,
            rpx0 as int,
            rpy0 as int,
            dx as int,
            dy as int,
            offx as int,
            offy as int,
            SWEEP_FUEL as nat,
        ),
{
    let w_fp: i64 = (m.width as i64) * FP_ONE;
    let h_fp: i64 = (m.height as i64) * FP_ONE;
    let mut rpx: i64 = rpx0;
    let mut rpy: i64 = rpy0;
    let mut fuel: u32 = SWEEP_FUEL;
    while fuel > 0
        invariant
            m.wf(),
            w_fp == m.width * FP_ONE,
            h_fp == m.height * FP_ONE,
            -0x200000000 <= dx <= 0x200000000,
            -0x200000000 <= dy <= 0x200000000,
            offx == 0 || offx == -FP_ONE,
            offy == 0 || offy == -FP_ONE,
            -0x800000000 <= rpx <= 0x800000000,
            -0x800000000 <= rpy <= 0x800000000,
            fuel <= SWEEP_FUEL,
            sweep(
                *m,
                rpx0 as int,
                rpy0 as int,
                dx as int,
                dy as int,
                offx as int,
                offy as int,
                SWEEP_FUEL as nat,
            ) == sweep(
                *m,
                rpx as int,
                rpy as int,
                dx as int,
                dy as int,
                offx as int,
                offy as int,
                fuel as nat,
            ),
        decreases fuel,
    {
        if !(rpx >= 0 && rpx < w_fp && rpy >= 0 && rpy < h_fp) {
            return None;
        }
        let tx: i64 = sdiv(rpx + offx, FP_ONE);
        let ty: i64 = sdiv(rpy + offy, FP_ONE);
        match m.get_tile(tx as i32, ty as i32) {
            Some(t) => {
                return Some((rpx, rpy, t));
            },
            None => {},
        }
        rpx = rpx + dx;
        rpy = rpy + dy;
        fuel = fuel - 1;
    }
    None
}

/// Casts one ray from (origin_x, origin_y) at `angle` against the map's
/// tiles. A positive returned distance names an occupied in-bounds cell
/// and equals the squared distance from the origin to the returned hit
/// point; a zero distance is the sentinel for a miss.
pub fn raycast(m: &GridMap, origin_x: i64, origin_y: i64, angle: i64) -> (r: RaycastHit)
    requires
        m.wf(),
        0 <= origin_x <= m.width * FP_ONE,
        0 <= origin_y <= m.height * FP_ONE,
    ensures
        r == raycast_spec(*m, origin_x as int, origin_y as int, angle as int),
        r.distance > 0 ==> m.tile_at(r.tile_x as int, r.tile_y as int) is Some,
        r.tile_x < m.width,
        r.tile_y < m.height,
        r.distance > 0 ==> r.distance == dist_sq(
            origin_x as int,
            origin_y as int,
            r.x as int,
            r.y as int,
        ),
        r.distance > 0 ==> 0 <= r.x < m.width * FP_ONE && 0 <= r.y < m.height * FP_ONE,
        r.tile_side == 0 || r.tile_side == 1,
        r.distance <= 0x80000000000000,
{
    let a: i64 = wrap_angle(angle);
    let sin: i64 = fp_sin(a);
    let cos: i64 = fp_cos(a);
    let is_right: bool = 4 * a > 3 * TWO_PI_FP || 4 * a < TWO_PI_FP;
    let is_up: bool = a > PI_FP;

    let vres: Option<(i64, i64, Tile)> = if cos != 0 {
        let slope: i64 = sdiv(sin * FP_ONE, cos);
        let rpx0: i64 = if is_right {
            ceil_mult(origin_x)
        } else {
            floor_mult(origin_x)
        };
        proof {
            assert(-0x1000000000000 <= (rpx0 - origin_x) * slope <= 0x1000000000000)
                by (nonlinear_arith)
                requires
                    -65536 <= rpx0 - origin_x <= 65536,
                    -0x100000000 <= slope <= 0x100000000,
            ;
        }
        let step_back: i64 = sdiv((rpx0 - origin_x) * slope, FP_ONE);
        proof {
            vstd::arithmetic::div_mod::lemma_div_is_ordered(
                vstd::math::abs(((rpx0 - origin_x) * slope) as int) as int,
                0x1000000000000,
                65536,
            );
            assert(-0x100000000 <= step_back <= 0x100000000);
        }
        let rpy0: i64 = origin_y + step_back;
        let dx: i64 = if is_right {
            FP_ONE
        } else {
            -FP_ONE
        };
        let dy: i64 = if is_right {
            slope
        } else {
            -slope
        };
        let offx: i64 = if is_right {
            0
        } else {
            -FP_ONE
        };
        run_sweep(m, rpx0, rpy0, dx, dy, offx, 0)
    } else {
        None
    };
    proof {
        assert(sweep_view(vres) == vertical_hit(
            *m,
            origin_x as int,
            origin_y as int,
            a as int,
        ));
    }

    let hres: Option<(i64, i64, Tile)> = if sin != 0 {
        let slope: i64 = sdiv(cos * FP_ONE, sin);
        let rpy0: i64 = if is_up {
            floor_mult(origin_y)
        } else {
            ceil_mult(origin_y)
        };
        proof {
            assert(-0x1000000000000 <= (rpy0 - origin_y) * slope <= 0x1000000000000)
                by (nonlinear_arith)
                requires
                    -65536 <= rpy0 - origin_y <= 65536,
                    -0x100000000 <= slope <= 0x100000000,
            ;
        }
        let step_back: i64 = sdiv((rpy0 - origin_y) * slope, FP_ONE);
        proof {
            vstd::arithmetic::div_mod::lemma_div_is_ordered(
                vstd::math::abs(((rpy0 - origin_y) * slope) as int) as int,
                0x1000000000000,
                65536,
            );
            assert(-0x100000000 <= step_back <= 0x100000000);
        }
        let rpx0: i64 = origin_x + step_back;
        let dy: i64 = if is_up {
            -FP_ONE
        } else {
            FP_ONE
        };
        let dx: i64 = if is_up {
            -slope
        } else {
            slope
        };
        let offy: i64 = if is_up {
            -FP_ONE
        } else {
            0
        };
        run_sweep(m, rpx0, rpy0, dx, dy, 0, offy)
    } else {
        None
    };
    proof {
        assert(sweep_view(hres) == horizontal_hit(
            *m,
            origin_x as int,
            origin_y as int,
            a as int,
        ));
        if vres is Some {
            let sin_s = sin_spec(a as int);
            let cos_s = cos_spec(a as int);
            let right = ray_right(a as int);
            let slope = tdiv(sin_s * FP_ONE, cos_s);
            let rpx0 = if right {
                ceil_mult_spec(origin_x as int)
            } else {
                floor_mult_spec(origin_x as int)
            };
            lemma_sweep_hit(
                *m,
                rpx0,
                origin_y + tdiv((rpx0 - origin_x) * slope, FP_ONE as int),
                if right {
                    FP_ONE as int
                } else {
                    -FP_ONE as int
                },
                if right {
                    slope
                } else {
                    -slope
                },
                if right {
                    0
                } else {
                    -FP_ONE as int
                },
                0,
                SWEEP_FUEL as nat,
            );
        }
        if hres is Some {
            let sin_s = sin_spec(a as int);
            let cos_s = cos_spec(a as int);
            let up = ray_up(a as int);
            let slope = tdiv(cos_s * FP_ONE, sin_s);
            let rpy0 = if up {
                floor_mult_spec(origin_y as int)
            } else {
                ceil_mult_spec(origin_y as int)
            };
            lemma_sweep_hit(
                *m,
                origin_x + tdiv((rpy0 - origin_y) * slope, FP_ONE as int),
                rpy0,
                if up {
                    -slope
                } else {
                    slope
                },
                if up {
                    -FP_ONE as int
                } else {
                    FP_ONE as int
                },
                0,
                if up {
                    -FP_ONE as int
                } else {
                    0
                },
                SWEEP_FUEL as nat,
            );
        }
    }

    let dv: u64 = match vres {
        Some(h) => dist_sq_exec(origin_x, origin_y, h.0, h.1),
        None => 0,
    };
    match (vres, hres) {
        (None, None) => RaycastHit { x: 0, y: 0, tile_x: 0, tile_y: 0, tile_side: 0, distance: 0 },
        (Some(v), None) => {
            RaycastHit {
                x: v.0,
                y: v.1,
                tile_x: v.2.x,
                tile_y: v.2.y,
                tile_side: 0,
                distance: dv,
            }
        },
        (None, Some(h)) => {
            RaycastHit {
                x: h.0,
                y: h.1,
                tile_x: h.2.x,
                tile_y: h.2.y,
                tile_side: 1,
                distance: dist_sq_exec(origin_x, origin_y, h.0, h.1),
            }
        },
        (Some(v), Some(h)) => {
            let dh: u64 = dist_sq_exec(origin_x, origin_y, h.0, h.1);
            if dv == 0 || dh < dv {
                RaycastHit {
                    x: h.0,
                    y: h.1,
                    tile_x: h.2.x,
                    tile_y: h.2.y,
                    tile_side: 1,
                    distance: dh,
                }
            } else {
                RaycastHit {
                    x: v.0,
                    y: v.1,
                    tile_x: v.2.x,
                    tile_y: v.2.y,
                    tile_side: 0,
                    distance: dv,
                }
            }
        },
    }
}


/// Law: a sweep hit is the first hit. The hit point lies some whole
/// number of steps along the sweep, and at every earlier step the ray was
/// still over the map and its examined cell was passable.
pub proof fn lemma_sweep_first_hit(
    m: GridMap,
    rpx: int,
    rpy: int,
    dx: int,
    dy: int,
    offx: int,
    offy: int,
    fuel: nat,
)
    requires
        m.wf(),
        sweep(m, rpx, rpy, dx, dy, offx, offy, fuel) is Some,
    ensures
        exists|k: nat|
            {
                let h = sweep(m, rpx, rpy, dx, dy, offx, offy, fuel)->Some_0;
                &&& k < fuel
                &&& h.0 == rpx + #[trigger] (k * dx)
                &&& h.1 == rpy + k * dy
                &&& (forall|j: nat|
                    j < k ==> in_sweep_bounds(m, rpx + #[trigger] (j * dx), rpy + j * dy)
                        && m.tile_at(
                        tdiv(rpx + j * dx + offx, FP_ONE as int),
                        tdiv(rpy + j * dy + offy, FP_ONE as int),
                    ) is None)
            },
    decreases fuel,
{
    let h = sweep(m, rpx, rpy, dx, dy, offx, offy, fuel)->Some_0;
    let tx = tdiv(rpx + offx, FP_ONE as int);
    let ty = tdiv(rpy + offy, FP_ONE as int);
    if m.tile_at(tx, ty) is Some {
        let k: nat = 0;
        assert(k * dx == 0 && k * dy == 0) by (nonlinear_arith)
            requires
                k == 0,
        ;
        assert(h.0 == rpx + k * dx && h.1 == rpy + k * dy);
    } else {
        lemma_sweep_first_hit(m, rpx + dx, rpy + dy, dx, dy, offx, offy, (fuel - 1) as nat);
        let k1 = choose|k1: nat|
            {
                &&& k1 < (fuel - 1) as nat
                &&& h.0 == (rpx + dx) + #[trigger] (k1 * dx)
                &&& h.1 == (rpy + dy) + k1 * dy
                &&& (forall|j: nat|
                    j < k1 ==> in_sweep_bounds(m, (rpx + dx) + #[trigger] (j * dx), (rpy + dy) + j
                        * dy) && m.tile_at(
                        tdiv((rpx + dx) + j * dx + offx, FP_ONE as int),
                        tdiv((rpy + dy) + j * dy + offy, FP_ONE as int),
                    ) is None)
            };
        let k: nat = k1 + 1;
        assert(k * dx == k1 * dx + dx && k * dy == k1 * dy + dy) by (nonlinear_arith)
            requires
                k == k1 + 1,
        ;
        assert forall|j: nat|
            j < k implies in_sweep_bounds(m, rpx + #[trigger] (j * dx), rpy + j * dy)
            && m.tile_at(
            tdiv(rpx + j * dx + offx, FP_ONE as int),
            tdiv(rpy + j * dy + offy, FP_ONE as int),
        ) is None by {
            if j == 0 {
                assert(j * dx == 0 && j * dy == 0) by (nonlinear_arith)
                    requires
                        j == 0,
                ;
            } else {
                let j1 = (j - 1) as nat;
                assert(j1 < k1);
                assert(in_sweep_bounds(m, (rpx + dx) + j1 * dx, (rpy + dy) + j1 * dy)
                    && m.tile_at(
                    tdiv((rpx + dx) + j1 * dx + offx, FP_ONE as int),
                    tdiv((rpy + dy) + j1 * dy + offy, FP_ONE as int),
                ) is None);
                assert(j * dx == j1 * dx + dx && j * dy == j1 * dy + dy) by (nonlinear_arith)
                    requires
                        j == j1 + 1,
                ;
            }
        }
        assert(h.0 == rpx + k * dx && h.1 == rpy + k * dy);
    }
}

} // verus!
