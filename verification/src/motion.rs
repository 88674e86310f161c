//! Waypoint-following motion: each pursuing entity advances toward its
//! current waypoint at a fixed speed of one tile per second, each axis
//! independently, and snaps to the waypoint once within a small epsilon.

use vstd::prelude::*;
use crate::fp::FP_ONE;
use crate::grid::{ent_wf, Entity, GridMap};

verus! {

/// The snap epsilon: 0.05 tile in fixed-point units. An axis within this
/// distance of the waypoint after a move is set exactly onto it.
pub const SNAP_EPS_FP: i64 = 3277;

/// One axis of one motion tick: move `pos` toward `target` by `speed`,
/// then snap onto `target` when the result lies within the epsilon.
/// Because the axes never coordinate, diagonal motion is faster than
/// axis-aligned motion.
pub open spec fn axis_step(pos: int, target: int, speed: int) -> int {
    let moved = if pos > target {
        pos - speed
    } else if pos < target {
        pos + speed
    } else {
        pos
    };
    if vstd::math::abs(target - moved) <= SNAP_EPS_FP {
        target
    } else {
        moved
    }
}

/// An axis already at its waypoint never moves again, whatever the speed.
pub proof fn lemma_axis_step_at_target(target: int, speed: int)
    ensures
        axis_step(target, target, speed) == target,
{
}

/// Law: when one tick's step is no larger than the snap epsilon, each
/// tick brings an axis at least `speed` closer to the waypoint (or onto
/// it), and never leaves it farther away. Repeated ticks therefore reach
/// the waypoint exactly and stay there: no overshoot oscillation. With a
/// larger step the engine may overshoot, as the snap window can be
/// jumped over.
pub proof fn lemma_axis_step_converges(pos: int, target: int, speed: int)
    requires
        0 < speed <= SNAP_EPS_FP,
    ensures
        vstd::math::abs(axis_step(pos, target, speed) - target) <= vstd::math::max(
            vstd::math::abs(pos - target) - speed,
            0,
        ),
{
}

/// How one motion tick changes a pursuing entity: both axes stepped
/// toward the waypoint, everything else kept.
pub open spec fn moved_entity(e: Entity, speed: int) -> Entity {
    Entity {
        x: axis_step(e.x as int, e.destination.x * FP_ONE, speed) as i64,
        y: axis_step(e.y as int, e.destination.y * FP_ONE, speed) as i64,
        ..e
    }
}

impl GridMap {
    /// Advances every pursuing entity one tick toward its waypoint at a
    /// fixed speed of one tile per second; non-pursuing entities never
    /// move. `delta_time` is the tick length in fixed-point seconds.
    pub fn entity_movement(&mut self, delta_time: i64)
        requires
            old(self).wf(),
            0 <= delta_time <= FP_ONE,
        ensures
            final(self).width == old(self).width,
            final(self).height == old(self).height,
            final(self).tiles == old(self).tiles,
            final(self).wf(),
            final(self).entities@.len() == old(self).entities@.len(),
            forall|i: int|
                0 <= i < final(self).entities@.len() && !old(self).entities@[i].follow_player
                    ==> final(self).entities@[i] == old(self).entities@[i],
            forall|i: int|
                0 <= i < final(self).entities@.len() && old(self).entities@[i].follow_player
                    ==> #[trigger] final(self).entities@[i] == moved_entity(
                    old(self).entities@[i],
                    delta_time as int,
                ),
    {
        let ghost m0 = *self;
        let ent_speed: i64 = delta_time;
        let mut i: usize = 0;
        while i < self.entities.len()
            invariant
                m0.wf(),
                0 <= ent_speed <= FP_ONE,
                self.width == m0.width,
                self.height == m0.height,
                self.tiles == m0.tiles,
                i <= self.entities@.len(),
                self.entities@.len() == m0.entities@.len(),
                forall|j: int| i <= j < m0.entities@.len() ==> self.entities@[j] == m0.entities@[j],
                forall|j: int|
                    0 <= j < i && !m0.entities@[j].follow_player ==> self.entities@[j]
                        == m0.entities@[j],
                forall|j: int|
                    0 <= j < i && m0.entities@[j].follow_player ==> #[trigger] self.entities@[j]
                        == moved_entity(m0.entities@[j], ent_speed as int),
                forall|j: int|
                    0 <= j < self.entities@.len() ==> ent_wf(
                        #[trigger] self.entities@[j],
                        m0.width as int,
                        m0.height as int,
                    ),
            decreases self.entities@.len() - i,
        {
            let ent = self.entities[i];
            if ent.follow_player {
                proof {
                    assert(ent_wf(m0.entities@[i as int], m0.width as int, m0.height as int));
                }
                let mut updated = ent;

                let target_x: i64 = (ent.destination.x as i64) * FP_ONE;
                let mut nx: i64 = ent.x;
                if nx > target_x {
                    nx = nx - ent_speed;
                } else if nx < target_x {
                    nx = nx + ent_speed;
                }
                let dxa: i64 = if target_x - nx < 0 {
                    -(target_x - nx)
                } else {
                    target_x - nx
                };
                if dxa <= SNAP_EPS_FP {
                    nx = target_x;
                }
                updated.x = nx;

                let target_y: i64 = (ent.destination.y as i64) * FP_ONE;
                let mut ny: i64 = ent.y;
                if ny > target_y {
                    ny = ny - ent_speed;
                } else if ny < target_y {
                    ny = ny + ent_speed;
                }
                let dya: i64 = if target_y - ny < 0 {
                    -(target_y - ny)
                } else {
                    target_y - ny
                };
                if dya <= SNAP_EPS_FP {
                    ny = target_y;
                }
                updated.y = ny;

                proof {
                    assert(updated == moved_entity(m0.entities@[i as int], ent_speed as int));
                    assert(ent_wf(updated, m0.width as int, m0.height as int));
                }
                self.entities[i] = updated;
            }
            i = i + 1;
        }
        proof {
            assert forall|x: int, y: int| 0 <= x < self.width && 0 <= y < self.height implies (
            #[trigger] self.tile_at(x, y) matches Some(t) ==> t.x == x && t.y == y) by {
                assert(self.tile_at(x, y) == m0.tile_at(x, y));
            }
        }
    }
}


/// The position of an axis after `n` motion ticks toward a fixed
/// waypoint.
pub open spec fn axis_iter(pos: int, target: int, speed: int, n: nat) -> int
    decreases n,
{
    if n == 0 {
        pos
    } else {
        axis_step(axis_iter(pos, target, speed, (n - 1) as nat), target, speed)
    }
}

/// Iterating from the start is iterating from the first step.
proof fn lemma_axis_iter_shift(pos: int, target: int, speed: int, n: nat)
    ensures
        axis_iter(pos, target, speed, n + 1) == axis_iter(
            axis_step(pos, target, speed),
            target,
            speed,
            n,
        ),
    decreases n,
{
    let stepped = axis_step(pos, target, speed);
    if n == 0 {
        assert(axis_iter(pos, target, speed, 1) == axis_step(
            axis_iter(pos, target, speed, 0),
            target,
            speed,
        ));
    } else {
        lemma_axis_iter_shift(pos, target, speed, (n - 1) as nat);
        assert(axis_iter(pos, target, speed, n + 1) == axis_step(
            axis_iter(pos, target, speed, n),
            target,
            speed,
        ));
        assert(axis_iter(stepped, target, speed, n) == axis_step(
            axis_iter(stepped, target, speed, (n - 1) as nat),
            target,
            speed,
        ));
    }
}

/// Law: at a per-tick step no larger than the snap epsilon, an axis
/// reaches its waypoint exactly after finitely many motion ticks, and
/// every tick from then on keeps it there: the motion snaps and stops,
/// with no overshoot oscillation.
pub proof fn lemma_axis_motion_reaches(pos: int, target: int, speed: int)
    requires
        0 < speed <= SNAP_EPS_FP,
    ensures
        exists|n: nat| axis_iter(pos, target, speed, n) == target,
        forall|n: nat|
            axis_iter(pos, target, speed, n) == target ==> #[trigger] axis_iter(
                pos,
                target,
                speed,
                n + 1,
            ) == target,
    decreases vstd::math::abs(pos - target),
{
    assert forall|n: nat|
        axis_iter(pos, target, speed, n) == target implies #[trigger] axis_iter(
        pos,
        target,
        speed,
        n + 1,
    ) == target by {
        lemma_axis_step_at_target(target, speed);
    }
    if pos == target {
        assert(axis_iter(pos, target, speed, 0) == target);
    } else {
        let stepped = axis_step(pos, target, speed);
        lemma_axis_step_converges(pos, target, speed);
        lemma_axis_motion_reaches(stepped, target, speed);
        let m = choose|m: nat| axis_iter(stepped, target, speed, m) == target;
        lemma_axis_iter_shift(pos, target, speed, m);
        assert(axis_iter(pos, target, speed, m + 1) == target);
    }
}

} // verus!
