//! Grid pathfinding: A* route queries against the map, and the per-entity
//! replanning step that assigns each pursuing entity its next waypoint.

use vstd::prelude::*;
use crate::fp::FP_ONE;
use crate::grid::{ent_wf, Entity, GridMap, Position};

verus! {

/// One legal pathfinding step: `b` is an axis-adjacent cell of `a` and is
/// passable (in bounds and free of tiles).
pub open spec fn step_ok(m: GridMap, a: Position, b: Position) -> bool {
    &&& !m.blocked_spec(b.x as int, b.y as int)
    &&& ((b.x == a.x && (b.y == a.y - 1 || b.y == a.y + 1)) || (b.y == a.y && (b.x == a.x - 1
        || b.x == a.x + 1)))
}

/// A path from `start` to `goal`: it begins at `start`, ends at `goal`,
/// and every move is a legal step. The single-node path counts as a path
/// from a cell to itself, whatever that cell holds.
pub open spec fn valid_path(m: GridMap, p: Seq<Position>, start: Position, goal: Position) -> bool {
    &&& p.len() >= 1
    &&& p[0] == start
    &&& p[p.len() - 1] == goal
    &&& forall|i: int| 0 <= i < p.len() - 1 ==> step_ok(m, #[trigger] p[i], p[i + 1])
}

/// The grid cell containing a fixed-point coordinate, truncating toward
/// zero as the engine does when it reads an entity's cell.
pub open spec fn trunc_div_fp(v: int) -> int {
    if v >= 0 {
        v / (FP_ONE as int)
    } else {
        -((-v) / (FP_ONE as int))
    }
}

/// The grid cell an entity occupies for pathfinding purposes.
pub open spec fn start_cell(e: Entity) -> Position {
    Position { x: trunc_div_fp(e.x as int) as i32, y: trunc_div_fp(e.y as int) as i32 }
}

/// Relies on pathfinding::directed::astar::astar, driven by the map's
/// verified passable-neighbor expansion with unit step cost, the
/// Manhattan-distance heuristic (admissible for unit-cost axis steps) and
/// a goal-equality success test: it returns a shortest path from `start`
/// to `goal`, including both endpoints, with its total cost, or `None`
/// exactly when no path exists. Out-of-bounds cells never appear because
/// the neighbor expansion excludes them, so the search space is finite.
#[verifier::external_body]
fn astar_search(map: &GridMap, start: Position, goal: Position) -> (r: Option<
    (Vec<Position>, usize),
>)
    requires
        map.wf(),
        -0x10000000 < start.x < 0x10000000,
        -0x10000000 < start.y < 0x10000000,
        -0x10000000 < goal.x < 0x10000000,
        -0x10000000 < goal.y < 0x10000000,
    ensures
        match r {
            Some(pc) => valid_path(*map, pc.0@, start, goal) && pc.1 + 1 == pc.0@.len() && (forall|
                q: Seq<Position>,
            |
                valid_path(*map, q, start, goal) ==> pc.0@.len() <= q.len()),
            None => forall|q: Seq<Position>| !valid_path(*map, q, start, goal),
        },
{
    pathfinding::directed::astar::astar(
        &start,
        |p: &Position| map.get_neighbors(*p),
        |p: &Position| Position::distance(p, &goal),
        |p: &Position| *p == goal,
    )
}

/// No path can end at a blocked goal cell, except the trivial path of a
/// searcher already standing there: every step enters a passable cell.
pub proof fn lemma_path_to_blocked_goal(m: GridMap, q: Seq<Position>, start: Position, goal:
    Position)
    requires
        valid_path(m, q, start, goal),
        m.blocked_spec(goal.x as int, goal.y as int),
    ensures
        q.len() == 1,
        start == goal,
{
    if q.len() >= 2 {
        assert(step_ok(m, q[q.len() - 2], q[q.len() - 1]));
        assert(false);
    }
}

impl GridMap {
    /// A shortest path between two cells, including both endpoints, with
    /// its total cost (one per step); `None` exactly when no path exists.
    pub fn find_path(&self, start: Position, goal: Position) -> (r: Option<
        (Vec<Position>, usize),
    >)
        requires
            self.wf(),
            -0x10000000 < start.x < 0x10000000,
            -0x10000000 < start.y < 0x10000000,
            -0x10000000 < goal.x < 0x10000000,
            -0x10000000 < goal.y < 0x10000000,
        ensures
            match r {
                Some(pc) => valid_path(*self, pc.0@, start, goal) && pc.1 + 1 == pc.0@.len() && (
                forall|q: Seq<Position>|
                    valid_path(*self, q, start, goal) ==> pc.0@.len() <= q.len()),
                None => forall|q: Seq<Position>| !valid_path(*self, q, start, goal),
            },
    {
        astar_search(self, start, goal)
    }
}

/// How one replanning pass may change a pursuing entity: everything but
/// the waypoint is kept; the waypoint becomes the second node of some
/// shortest path to the goal when that path has more than two nodes, and
/// is kept otherwise (including when no path exists).
pub open spec fn retargeted(m: GridMap, e_old: Entity, e_new: Entity, goal: Position) -> bool {
    &&& e_new.x == e_old.x
    &&& e_new.y == e_old.y
    &&& e_new.id == e_old.id
    &&& e_new.texture_id == e_old.texture_id
    &&& e_new.follow_player == e_old.follow_player
    &&& e_new.is_deleted == e_old.is_deleted
    &&& if exists|q: Seq<Position>| valid_path(m, q, start_cell(e_old), goal) {
        exists|p: Seq<Position>|
            valid_path(m, p, start_cell(e_old), goal) && (forall|q: Seq<Position>|
                valid_path(m, q, start_cell(e_old), goal) ==> p.len() <= q.len()) && e_new.destination
                == (if p.len() > 2 {
                p[1]
            } else {
                e_old.destination
            })
    } else {
        e_new.destination == e_old.destination
    }
}

impl GridMap {
    /// Replans every pursuing entity toward `goal`: each gets the next
    /// step of a shortest path as its waypoint, or keeps its old waypoint
    /// when no useful path exists. When the goal cell itself is blocked
    /// no entity changes at all.
    pub fn pathfind(&mut self, goal: Position)
        requires
            old(self).wf(),
            -0x10000000 < goal.x < 0x10000000,
            -0x10000000 < goal.y < 0x10000000,
        ensures
            final(self).width == old(self).width,
            final(self).height == old(self).height,
            final(self).tiles == old(self).tiles,
            final(self).wf(),
            final(self).entities@.len() == old(self).entities@.len(),
            forall|i: int|
                0 <= i < final(self).entities@.len() && !old(self).entities@[i].follow_player
                    ==> final(self).entities@[i] == old(self).entities@[i],
            forall|i: int|
                0 <= i < final(self).entities@.len() && old(self).entities@[i].follow_player
                    ==> retargeted(
                    *old(self),
                    old(self).entities@[i],
                    #[trigger] final(self).entities@[i],
                    goal,
                ),
            old(self).blocked_spec(goal.x as int, goal.y as int) ==> final(self).entities@ == old(
                self,
            ).entities@,
    {
        let ghost m0 = *self;
        let mut routes: Vec<Option<Position>> = Vec::new();
        let mut i: usize = 0;
        while i < self.entities.len()
            invariant
                *self == m0,
                m0.wf(),
                -0x10000000 < goal.x < 0x10000000,
                -0x10000000 < goal.y < 0x10000000,
                i <= self.entities@.len(),
                routes@.len() == i,
                forall|j: int|
                    0 <= j < i && m0.entities@[j].follow_player ==> match #[trigger] routes@[j] {
                        Some(d) => retargeted(
                            m0,
                            m0.entities@[j],
                            Entity { destination: d, ..m0.entities@[j] },
                            goal,
                        ) && !m0.blocked_spec(goal.x as int, goal.y as int),
                        None => retargeted(m0, m0.entities@[j], m0.entities@[j], goal),
                    },
            decreases self.entities@.len() - i,
        {
            let ent = self.entities[i];
            if !ent.follow_player {
                routes.push(None);
            } else {
                let sx64 = match ent.x.checked_div(FP_ONE) {
                    Some(v) => v,
                    None => {
                        proof {
                            assert(false);
                        }
                        0
                    },
                };
                let sy64 = match ent.y.checked_div(FP_ONE) {
                    Some(v) => v,
                    None => {
                        proof {
                            assert(false);
                        }
                        0
                    },
                };
                let start = Position::new(sx64 as i32, sy64 as i32);
                proof {
                    assert(ent_wf(m0.entities@[i as int], m0.width as int, m0.height as int));
                    assert(start == start_cell(ent));
                }
                let result = astar_search(self, start, goal);
                match result {
                    Some(pc) => {
                        if pc.1 > 1 {
                            let next = pc.0[1];
                            proof {
                                if m0.blocked_spec(goal.x as int, goal.y as int) {
                                    lemma_path_to_blocked_goal(m0, pc.0@, start, goal);
                                }
                            }
                            routes.push(Some(next));
                        } else {
                            routes.push(None);
                        }
                    },
                    None => {
                        routes.push(None);
                    },
                }
            }
            i = i + 1;
        }

        let mut k: usize = 0;
        while k < self.entities.len()
            invariant
                self.width == m0.width,
                self.height == m0.height,
                self.tiles == m0.tiles,
                m0.wf(),
                -0x10000000 < goal.x < 0x10000000,
                -0x10000000 < goal.y < 0x10000000,
                self.entities@.len() == m0.entities@.len(),
                routes@.len() == m0.entities@.len(),
                k <= self.entities@.len(),
                forall|j: int|
                    0 <= j < m0.entities@.len() && m0.entities@[j].follow_player ==> match
                        #[trigger] routes@[j] {
                        Some(d) => retargeted(
                            m0,
                            m0.entities@[j],
                            Entity { destination: d, ..m0.entities@[j] },
                            goal,
                        ) && !m0.blocked_spec(goal.x as int, goal.y as int),
                        None => retargeted(m0, m0.entities@[j], m0.entities@[j], goal),
                    },
                forall|j: int| k <= j < m0.entities@.len() ==> self.entities@[j] == m0.entities@[j],
                forall|j: int|
                    0 <= j < k && !m0.entities@[j].follow_player ==> self.entities@[j]
                        == m0.entities@[j],
                forall|j: int|
                    0 <= j < k && m0.entities@[j].follow_player ==> retargeted(
                        m0,
                        m0.entities@[j],
                        #[trigger] self.entities@[j],
                        goal,
                    ),
                forall|j: int|
                    0 <= j < k && m0.blocked_spec(goal.x as int, goal.y as int)
                        ==> self.entities@[j] == m0.entities@[j],
                forall|j: int|
                    0 <= j < self.entities@.len() ==> ent_wf(
                        #[trigger] self.entities@[j],
                        m0.width as int,
                        m0.height as int,
                    ),
            decreases self.entities@.len() - k,
        {
            let ent = self.entities[k];
            if ent.follow_player {
                match routes[k] {
                    Some(d) => {
                        proof {
                            assert(ent_wf(m0.entities@[k as int], m0.width as int,
                            m0.height as int));
                        }
                        let mut updated = ent;
                        updated.destination = d;
                        proof {
                            let e_old = m0.entities@[k as int];
                            assert(updated == Entity { destination: d, ..e_old });
                            assert(retargeted(m0, e_old, updated, goal));
                            if exists|q: Seq<Position>|
                                valid_path(m0, q, start_cell(e_old), goal) {
                                let p = choose|p: Seq<Position>|
                                    valid_path(m0, p, start_cell(e_old), goal) && (forall|
                                        q: Seq<Position>,
                                    |
                                        valid_path(m0, q, start_cell(e_old), goal) ==> p.len()
                                            <= q.len()) && updated.destination == (if p.len() > 2 {
                                        p[1]
                                    } else {
                                        e_old.destination
                                    });
                                if p.len() > 2 {
                                    assert(step_ok(m0, p[0], p[1]));
                                }
                            }
                            assert(ent_wf(updated, m0.width as int, m0.height as int));
                        }
                        self.entities[k] = updated;
                    },
                    None => {},
                }
            }
            k = k + 1;
        }
        proof {
            if m0.blocked_spec(goal.x as int, goal.y as int) {
                assert(self.entities@ =~= m0.entities@);
            }
            assert forall|x: int, y: int| 0 <= x < self.width && 0 <= y < self.height implies (
            #[trigger] self.tile_at(x, y) matches Some(t) ==> t.x == x && t.y == y) by {
                assert(self.tile_at(x, y) == m0.tile_at(x, y));
            }
        }
    }
}

} // verus!
