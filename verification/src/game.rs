//! The engine state: the map, the textures, the player pose and the held
//! input flags, with the per-tick player update (rotation, velocity,
//! axis-separated wall collision), entity replanning, entity motion,
//! pickup, and the fixed-interval timers that gate rendering and
//! replanning.

use vstd::prelude::*;
use crate::fp::{
    calculate_lighting, cos_spec, fp_cos, fp_sin, fdiv, lighting_spec, sdiv, sin_spec, tdiv,
    wrap_angle, wrap_spec, FP_ONE, HALF_PI_FP, TWO_PI_FP,
};
use crate::grid::{overlaps, remove_id, is_treasure_spec, GridMap, Position};
use crate::raycast::{dist_sq, raycast, raycast_spec, RaycastHit};
use crate::render::{Texture, TextureSet};

verus! {

/// The player's turn rate: about 150 degrees per second, in fixed-point
/// radians per second.
pub const ROT_SPEED_FP: i64 = 171573;

/// The player's linear speed: 3.5 tiles per second, fixed point.
pub const MOVE_SPEED_FP: i64 = 229376;

/// The render cadence: one frame per 1/60 second, in fixed-point seconds.
pub const RENDER_INTERVAL_FP: i64 = 1092;

/// The replanning cadence: one pathfinding pass per half second, in
/// fixed-point seconds.
pub const PATHFIND_INTERVAL_FP: i64 = 32768;

/// The whole engine state.
pub struct Game {
    pub map: GridMap,
    pub textures: TextureSet,
    pub projection_width: u32,
    pub projection_height: u32,
    pub player_x: i64,
    pub player_y: i64,
    pub player_rotation: i64,
    pub input_left: bool,
    pub input_right: bool,
    pub input_up: bool,
    pub input_down: bool,
    pub input_strafe_left: bool,
    pub input_strafe_right: bool,
}

impl Game {
    /// Well-formedness: a well-formed map and textures, a projection
    /// within the frame limit, the player over the map and a normalized
    /// rotation.
    pub open spec fn wf(self) -> bool {
        &&& self.map.wf()
        &&& self.textures.wf()
        &&& 1 <= self.projection_width <= 4096
        &&& 1 <= self.projection_height <= 4096
        &&& 0 <= self.player_x < self.map.width * FP_ONE
        &&& 0 <= self.player_y < self.map.height * FP_ONE
        &&& 0 <= self.player_rotation < TWO_PI_FP
    }

    /// Builds the engine around a loaded map and texture set; the player
    /// starts at (3.5, 3.5) facing along the positive x axis.
    pub fn new(map: GridMap, textures: TextureSet, projection_width: u32, projection_height: u32)
        -> (r: Game)
        requires
            map.wf(),
            textures.wf(),
            map.width >= 4,
            map.height >= 4,
            1 <= projection_width <= 4096,
            1 <= projection_height <= 4096,
        ensures
            r.wf(),
            r.map == map,
            r.textures == textures,
            r.projection_width == projection_width,
            r.projection_height == projection_height,
            r.player_x == 3 * FP_ONE + FP_ONE / 2,
            r.player_y == 3 * FP_ONE + FP_ONE / 2,
            r.player_rotation == 0,
            !r.input_left && !r.input_right && !r.input_up && !r.input_down
                && !r.input_strafe_left && !r.input_strafe_right,
    {
        Game {
            map,
            textures,
            projection_width,
            projection_height,
            player_x: 3 * FP_ONE + FP_ONE / 2,
            player_y: 3 * FP_ONE + FP_ONE / 2,
            player_rotation: 0,
            input_left: false,
            input_right: false,
            input_up: false,
            input_down: false,
            input_strafe_left: false,
            input_strafe_right: false,
        }
    }

    /// Normalizes an angle into [0, TWO_PI_FP).
    pub fn wrap_angle(&self, angle: i64) -> (r: i64)
        ensures
            r == wrap_spec(angle as int),
            0 <= r < TWO_PI_FP,
    {
        wrap_angle(angle)
    }

    /// Light intensity for a point at `distance` under a light of radius
    /// `radius`.
    pub fn calculate_lighting(&self, distance: i64, light_radius: i64) -> (r: i64)
        requires
            0 <= distance,
            0 < light_radius <= 0x10000000000,
        ensures
            r == lighting_spec(distance as int, light_radius as int),
            0 <= r <= FP_ONE,
    {
        calculate_lighting(distance, light_radius)
    }

    /// The texture registered under an identifier; identifiers above the
    /// known range fall back to the treasure texture.
    pub fn get_texture(&self, id: u32) -> (r: &Texture)
        ensures
            *r == self.textures.texture_of(id),
    {
        if id == 0 {
            &self.textures.wall
        } else if id == 1 {
            &self.textures.ceiling
        } else if id == 2 {
            &self.textures.floor
        } else if id == 3 {
            &self.textures.schindler
        } else {
            &self.textures.treasure
        }
    }

    /// Casts one ray against the map.
    pub fn raycast(&self, origin_x: i64, origin_y: i64, angle: i64) -> (r: RaycastHit)
        requires
            self.wf(),
            0 <= origin_x <= self.map.width * FP_ONE,
            0 <= origin_y <= self.map.height * FP_ONE,
        ensures
            r == raycast_spec(self.map, origin_x as int, origin_y as int, angle as int),
            r.distance > 0 ==> self.map.tile_at(r.tile_x as int, r.tile_y as int) is Some,
            r.tile_x < self.map.width,
            r.tile_y < self.map.height,
            r.distance > 0 ==> r.distance == dist_sq(
                origin_x as int,
                origin_y as int,
                r.x as int,
                r.y as int,
            ),
            r.distance > 0 ==> 0 <= r.x < self.map.width * FP_ONE && 0 <= r.y < self.map.height
                * FP_ONE,
            r.tile_side == 0 || r.tile_side == 1,
            r.distance <= 0x80000000000000,
    {
        raycast(&self.map, origin_x, origin_y, angle)
    }

    /// The grid cell under the player.
    pub fn player_cell(&self) -> (r: Position)
        requires
            self.wf(),
        ensures
            r.x == self.player_x as int / FP_ONE as int,
            r.y == self.player_y as int / FP_ONE as int,
            0 <= r.x < self.map.width,
            0 <= r.y < self.map.height,
    {
        proof {
            vstd::arithmetic::div_mod::lemma_fundamental_div_mod(self.player_x as int, 65536);
            vstd::arithmetic::div_mod::lemma_fundamental_div_mod(self.player_y as int, 65536);
        }
        let cx = fdiv(self.player_x, FP_ONE);
        let cy = fdiv(self.player_y, FP_ONE);
        Position::new(cx as i32, cy as i32)
    }

    /// Replans every pursuing entity toward the player's current cell.
    pub fn replan(&mut self)
        requires
            old(self).wf(),
        ensures
            final(self).wf(),
            final(self).map.width == old(self).map.width,
            final(self).map.height == old(self).map.height,
            final(self).map.tiles == old(self).map.tiles,
            final(self).textures == old(self).textures,
            final(self).player_x == old(self).player_x,
            final(self).player_y == old(self).player_y,
            final(self).player_rotation == old(self).player_rotation,
            final(self).map.entities@.len() == old(self).map.entities@.len(),
            forall|i: int|
                0 <= i < final(self).map.entities@.len()
                    && !old(self).map.entities@[i].follow_player ==> final(self).map.entities@[i]
                    == old(self).map.entities@[i],
            forall|i: int|
                0 <= i < final(self).map.entities@.len()
                    && old(self).map.entities@[i].follow_player ==> crate::path::retargeted(
                    old(self).map,
                    old(self).map.entities@[i],
                    #[trigger] final(self).map.entities@[i],
                    Position {
                        x: (old(self).player_x as int / FP_ONE as int) as i32,
                        y: (old(self).player_y as int / FP_ONE as int) as i32,
                    },
                ),
    {
        let goal = self.player_cell();
        self.map.pathfind(goal);
    }

    /// Advances every pursuing entity one motion tick.
    pub fn advance_entities(&mut self, delta_time: i64)
        requires
            old(self).wf(),
            0 <= delta_time <= FP_ONE,
        ensures
            final(self).wf(),
            final(self).map.width == old(self).map.width,
            final(self).map.height == old(self).map.height,
            final(self).map.tiles == old(self).map.tiles,
            final(self).textures == old(self).textures,
            final(self).player_x == old(self).player_x,
            final(self).player_y == old(self).player_y,
            final(self).player_rotation == old(self).player_rotation,
            final(self).map.entities@.len() == old(self).map.entities@.len(),
            forall|i: int|
                0 <= i < final(self).map.entities@.len()
                    && !old(self).map.entities@[i].follow_player ==> final(self).map.entities@[i]
                    == old(self).map.entities@[i],
            forall|i: int|
                0 <= i < final(self).map.entities@.len()
                    && old(self).map.entities@[i].follow_player ==> #[trigger] final(self).map.entities@[i]
                    == crate::motion::moved_entity(
                    old(self).map.entities@[i],
                    delta_time as int,
                ),
    {
        self.map.entity_movement(delta_time);
    }

    /// Removes the first entity overlapping the player, when that entity
    /// is a treasure. A pursuing (non-treasure) entity is never removed,
    /// and all other entities are untouched.
    pub fn pickup(&mut self)
        requires
            old(self).wf(),
        ensures
            final(self).wf(),
            final(self).map.width == old(self).map.width,
            final(self).map.height == old(self).map.height,
            final(self).map.tiles == old(self).map.tiles,
            final(self).textures == old(self).textures,
            final(self).player_x == old(self).player_x,
            final(self).player_y == old(self).player_y,
            final(self).player_rotation == old(self).player_rotation,
            (forall|i: int|
                0 <= i < old(self).map.entities@.len() ==> !overlaps(
                    #[trigger] old(self).map.entities@[i],
                    old(self).player_x as int,
                    old(self).player_y as int,
                )) ==> final(self).map.entities == old(self).map.entities,
            forall|i: int|
                (0 <= i < old(self).map.entities@.len() && overlaps(
                    #[trigger] old(self).map.entities@[i],
                    old(self).player_x as int,
                    old(self).player_y as int,
                ) && (forall|j: int|
                    0 <= j < i ==> !overlaps(
                        #[trigger] old(self).map.entities@[j],
                        old(self).player_x as int,
                        old(self).player_y as int,
                    ))) ==> final(self).map.entities@ == (
                if is_treasure_spec(old(self).map.entities@, old(self).map.entities@[i].id) {
                    remove_id(old(self).map.entities@, old(self).map.entities@[i].id)
                } else {
                    old(self).map.entities@
                }),
    {
        let ghost g0 = *self;
        let hit = self.map.get_overlap_ent(self.player_x, self.player_y);
        match hit {
            Some(ent_id) => {
                if self.map.is_treasure(ent_id) {
                    self.map.delete_ent(ent_id);
                }
                proof {
                    let px = g0.player_x as int;
                    let py = g0.player_y as int;
                    let w = choose|w: int|
                        0 <= w < g0.map.entities@.len() && overlaps(
                            #[trigger] g0.map.entities@[w],
                            px,
                            py,
                        ) && ent_id == g0.map.entities@[w].id && (forall|j: int|
                            0 <= j < w ==> !overlaps(#[trigger] g0.map.entities@[j], px, py));
                    assert forall|i: int|
                        (0 <= i < g0.map.entities@.len() && overlaps(
                            #[trigger] g0.map.entities@[i],
                            px,
                            py,
                        ) && (forall|j: int|
                            0 <= j < i ==> !overlaps(#[trigger] g0.map.entities@[j], px, py)))
                        implies g0.map.entities@[i].id == ent_id by {
                        if i < w {
                            assert(!overlaps(g0.map.entities@[i], px, py));
                        }
                        if w < i {
                            assert(!overlaps(g0.map.entities@[w], px, py));
                        }
                    }
                }
            },
            None => {},
        }
    }

    /// One per-tick player update: rotation from the turn flags, velocity
    /// from the movement flags at the fixed linear speed (opposing and
    /// combined flags sum, so diagonal motion is faster), and the
    /// candidate position applied per axis against the grid so that the
    /// player slides along walls. A blocked axis keeps its old value; the
    /// y check uses the already-updated x.
    pub fn update_player(&mut self, delta_time: i64)
        requires
            old(self).wf(),
            0 <= delta_time <= FP_ONE,
        ensures
            final(self).wf(),
            final(self).map == old(self).map,
            final(self).textures == old(self).textures,
            final(self).projection_width == old(self).projection_width,
            final(self).projection_height == old(self).projection_height,
            final(self).player_rotation == rot_after(
                old(self).player_rotation as int,
                old(self).input_left,
                old(self).input_right,
                delta_time as int,
            ),
            final(self).player_x == px_after(
                old(self).map,
                old(self).player_x as int,
                old(self).player_y as int,
                velocity_x_spec(
                    old(self).player_rotation as int,
                    old(self).input_up,
                    old(self).input_down,
                    old(self).input_strafe_left,
                    old(self).input_strafe_right,
                ),
                velocity_y_spec(
                    old(self).player_rotation as int,
                    old(self).input_up,
                    old(self).input_down,
                    old(self).input_strafe_left,
                    old(self).input_strafe_right,
                ),
                delta_time as int,
            ),
            final(self).player_y == py_after(
                old(self).map,
                final(self).player_x as int,
                old(self).player_y as int,
                velocity_x_spec(
                    old(self).player_rotation as int,
                    old(self).input_up,
                    old(self).input_down,
                    old(self).input_strafe_left,
                    old(self).input_strafe_right,
                ),
                velocity_y_spec(
                    old(self).player_rotation as int,
                    old(self).input_up,
                    old(self).input_down,
                    old(self).input_strafe_left,
                    old(self).input_strafe_right,
                ),
                delta_time as int,
            ),
    {
        let c = fp_cos(self.player_rotation);
        let s = fp_sin(self.player_rotation);
        let rot_strafe = wrap_angle(self.player_rotation + HALF_PI_FP);
        let cs = fp_cos(rot_strafe);
        let ss = fp_sin(rot_strafe);

        let mut velocity_x: i64 = 0;
        let mut velocity_y: i64 = 0;
        if self.input_up {
            velocity_x = velocity_x + vel_term(c);
            velocity_y = velocity_y + vel_term(s);
        }
        if self.input_down {
            velocity_x = velocity_x - vel_term(c);
            velocity_y = velocity_y - vel_term(s);
        }
        if self.input_strafe_left {
            velocity_x = velocity_x - vel_term(cs);
            velocity_y = velocity_y - vel_term(ss);
        }
        if self.input_strafe_right {
            velocity_x = velocity_x + vel_term(cs);
            velocity_y = velocity_y + vel_term(ss);
        }
        proof {
            assert(velocity_x == velocity_x_spec(
                self.player_rotation as int,
                self.input_up,
                self.input_down,
                self.input_strafe_left,
                self.input_strafe_right,
            ));
            assert(velocity_y == velocity_y_spec(
                self.player_rotation as int,
                self.input_up,
                self.input_down,
                self.input_strafe_left,
                self.input_strafe_right,
            ));
        }

        let dstep: i64 = sdiv(ROT_SPEED_FP * delta_time, FP_ONE);
        if self.input_left {
            self.player_rotation = wrap_angle(self.player_rotation - dstep);
        }
        if self.input_right {
            self.player_rotation = wrap_angle(self.player_rotation + dstep);
        }

        if velocity_x != 0 || velocity_y != 0 {
            proof {
                assert(-0x1000000000000 <= velocity_x * delta_time <= 0x1000000000000
                    && -0x1000000000000 <= velocity_y * delta_time <= 0x1000000000000)
                    by (nonlinear_arith)
                    requires
                        -0x100000 <= velocity_x <= 0x100000,
                        -0x100000 <= velocity_y <= 0x100000,
                        0 <= delta_time <= 65536,
                ;
            }
            let step_x: i64 = sdiv(velocity_x * delta_time, FP_ONE);
            proof {
                vstd::arithmetic::div_mod::lemma_div_is_ordered(
                    vstd::math::abs((velocity_x * delta_time) as int) as int,
                    0x1000000000000int,
                    65536,
                );
            }
            let new_position_x: i64 = self.player_x + step_x;
            let cell_x: i64 = fdiv(new_position_x, FP_ONE);
            let cell_y0: i64 = fdiv(self.player_y, FP_ONE);
            proof {
                vstd::arithmetic::div_mod::lemma_fundamental_div_mod(new_position_x as int, 65536);
                vstd::arithmetic::div_mod::lemma_fundamental_div_mod(self.player_y as int, 65536);
            }
            if !self.map.is_blocked(cell_x as i32, cell_y0 as i32) {
                self.player_x = new_position_x;
            }

            let step_y: i64 = sdiv(velocity_y * delta_time, FP_ONE);
            proof {
                vstd::arithmetic::div_mod::lemma_div_is_ordered(
                    vstd::math::abs((velocity_y * delta_time) as int) as int,
                    0x1000000000000int,
                    65536,
                );
            }
            let new_position_y: i64 = self.player_y + step_y;
            let cell_x1: i64 = fdiv(self.player_x, FP_ONE);
            let cell_y: i64 = fdiv(new_position_y, FP_ONE);
            proof {
                vstd::arithmetic::div_mod::lemma_fundamental_div_mod(new_position_y as int, 65536);
                vstd::arithmetic::div_mod::lemma_fundamental_div_mod(self.player_x as int, 65536);
            }
            if !self.map.is_blocked(cell_x1 as i32, cell_y as i32) {
                self.player_y = new_position_y;
            }
        }
    }
}


/// One velocity contribution: a trigonometric factor times the move
/// speed, rescaled to fixed point.
fn vel_term(trig: i64) -> (r: i64)
    requires
        -FP_ONE <= trig <= FP_ONE,
    ensures
        r == tdiv(trig * MOVE_SPEED_FP as int, FP_ONE as int),
        -MOVE_SPEED_FP <= r <= MOVE_SPEED_FP,
{
    let r = sdiv(trig * MOVE_SPEED_FP, FP_ONE);
    proof {
        vstd::arithmetic::div_mod::lemma_div_is_ordered(
            vstd::math::abs(trig as int * MOVE_SPEED_FP as int) as int,
            0x380000000int,
            65536,
        );
        assert(vstd::math::abs(trig as int * MOVE_SPEED_FP as int) <= 0x380000000)
            by (nonlinear_arith)
            requires
                -65536 <= trig as int <= 65536,
        ;
    }
    r
}

/// The rotation step for one tick.
pub open spec fn rot_step(dt: int) -> int {
    tdiv(ROT_SPEED_FP * dt, FP_ONE as int)
}

/// The player rotation after one tick: the left flag subtracts one step,
/// then the right flag adds one, each rewrapped.
pub open spec fn rot_after(rot: int, left: bool, right: bool, dt: int) -> int {
    let r1 = if left {
        wrap_spec(rot - rot_step(dt))
    } else {
        rot
    };
    if right {
        wrap_spec(r1 + rot_step(dt))
    } else {
        r1
    }
}

/// The x velocity that the held movement flags produce: forward and back
/// along the view direction, strafing along the view direction turned a
/// quarter turn, all at the fixed linear speed, summed linearly.
pub open spec fn velocity_x_spec(rot: int, up: bool, down: bool, sl: bool, sr: bool) -> int {
    let c = tdiv(cos_spec(rot) * MOVE_SPEED_FP, FP_ONE as int);
    let cst = tdiv(cos_spec(wrap_spec(rot + HALF_PI_FP)) * MOVE_SPEED_FP, FP_ONE as int);
    (if up {
        c
    } else {
        0
    }) - (if down {
        c
    } else {
        0
    }) - (if sl {
        cst
    } else {
        0
    }) + (if sr {
        cst
    } else {
        0
    })
}

/// The y velocity that the held movement flags produce.
pub open spec fn velocity_y_spec(rot: int, up: bool, down: bool, sl: bool, sr: bool) -> int {
    let s = tdiv(sin_spec(rot) * MOVE_SPEED_FP, FP_ONE as int);
    let sst = tdiv(sin_spec(wrap_spec(rot + HALF_PI_FP)) * MOVE_SPEED_FP, FP_ONE as int);
    (if up {
        s
    } else {
        0
    }) - (if down {
        s
    } else {
        0
    }) - (if sl {
        sst
    } else {
        0
    }) + (if sr {
        sst
    } else {
        0
    })
}

/// The player's x position after one tick: the candidate moves by the
/// velocity scaled by the tick length and is kept only when its grid cell
/// (floored, at the old y) is passable. A zero velocity vector skips the
/// whole movement step.
pub open spec fn px_after(m: GridMap, px: int, py: int, vx: int, vy: int, dt: int) -> int {
    if vx == 0 && vy == 0 {
        px
    } else {
        let nx = px + tdiv(vx * dt, FP_ONE as int);
        if !m.blocked_spec(nx / (FP_ONE as int), py / (FP_ONE as int)) {
            nx
        } else {
            px
        }
    }
}

/// The player's y position after one tick, checked at the already-updated
/// x position.
pub open spec fn py_after(m: GridMap, px_new: int, py: int, vx: int, vy: int, dt: int) -> int {
    if vx == 0 && vy == 0 {
        py
    } else {
        let ny = py + tdiv(vy * dt, FP_ONE as int);
        if !m.blocked_spec(px_new / (FP_ONE as int), ny / (FP_ONE as int)) {
            ny
        } else {
            py
        }
    }
}

/// The two fixed-interval accumulators that gate rendering and
/// replanning. On each trigger the accumulator is decremented by its
/// interval, not reset, so no time drifts away.
pub struct Timers {
    pub render_acc: i64,
    pub pathfind_acc: i64,
}

impl Timers {
    /// Accumulators start empty.
    pub fn new() -> (r: Timers)
        ensures
            r.render_acc == 0,
            r.pathfind_acc == 0,
    {
        Timers { render_acc: 0, pathfind_acc: 0 }
    }

    /// Adds one tick's elapsed time and reports which subsystems are due;
    /// a due accumulator keeps its overshoot.
    pub fn advance(&mut self, delta_time: i64) -> (r: (bool, bool))
        requires
            0 <= delta_time <= FP_ONE,
            0 <= old(self).render_acc <= 0x100000000,
            0 <= old(self).pathfind_acc <= 0x100000000,
        ensures
            r.0 == (old(self).render_acc + delta_time >= RENDER_INTERVAL_FP),
            r.1 == (old(self).pathfind_acc + delta_time >= PATHFIND_INTERVAL_FP),
            final(self).render_acc == old(self).render_acc + delta_time - (if r.0 {
                RENDER_INTERVAL_FP as int
            } else {
                0
            }),
            final(self).pathfind_acc == old(self).pathfind_acc + delta_time - (if r.1 {
                PATHFIND_INTERVAL_FP as int
            } else {
                0
            }),
    {
        self.render_acc = self.render_acc + delta_time;
        self.pathfind_acc = self.pathfind_acc + delta_time;
        let render_due = self.render_acc >= RENDER_INTERVAL_FP;
        let pathfind_due = self.pathfind_acc >= PATHFIND_INTERVAL_FP;
        if render_due {
            self.render_acc = self.render_acc - RENDER_INTERVAL_FP;
        }
        if pathfind_due {
            self.pathfind_acc = self.pathfind_acc - PATHFIND_INTERVAL_FP;
        }
        (render_due, pathfind_due)
    }
}

} // verus!
