//! The tile grid and its entities: occupancy queries, neighbor expansion
//! for pathfinding, entity overlap tests, pickup removal, and map loading
//! from a keyed-color pixel grid.

use vstd::prelude::*;
use crate::fp::{FP_ONE, FP_HALF, FP_QUARTER};

verus! {

/// Texture identifier for wall tiles.
pub const TEXTURE_WALL: u32 = 0;

/// Texture identifier for the ceiling.
pub const TEXTURE_CEILING: u32 = 1;

/// Texture identifier for the floor.
pub const TEXTURE_FLOOR: u32 = 2;

/// Texture identifier for pursuing entities.
pub const TEXTURE_SCHINDLER: u32 = 3;

/// Texture identifier for collectible treasure entities.
pub const TEXTURE_TREASURE: u32 = 4;

/// The largest map side length the engine accepts, in tiles.
pub const MAX_DIM: u32 = 1024;

/// One RGBA pixel, as decoded from an image or written to the frame.
#[derive(Clone, Copy, Debug, PartialEq, Eq, Structural)]
pub struct Rgba {
    pub r: u8,
    pub g: u8,
    pub b: u8,
    pub a: u8,
}

/// An integer grid coordinate.
#[derive(Clone, Copy, Debug, PartialEq, Eq, Structural, Hash, PartialOrd, Ord)]
pub struct Position {
    pub x: i32,
    pub y: i32,
}

impl Position {
    /// Builds a grid coordinate.
    pub fn new(x: i32, y: i32) -> (r: Position)
        ensures
            r.x == x,
            r.y == y,
    {
        Position { x, y }
    }

    /// Row-major index of this coordinate in a grid of the given width.
    pub fn to_index(&self, width: usize) -> (r: usize)
        requires
            0 <= self.x < width,
            0 <= self.y,
            self.y * width + self.x <= usize::MAX,
        ensures
            r == self.y * width + self.x,
    {
        (self.y as usize) * width + (self.x as usize)
    }

    /// Manhattan distance between two grid coordinates.
    pub fn distance(first: &Position, other: &Position) -> (r: usize)
        requires
            -0x10000000 < first.x < 0x10000000,
            -0x10000000 < first.y < 0x10000000,
            -0x10000000 < other.x < 0x10000000,
            -0x10000000 < other.y < 0x10000000,
        ensures
            r == vstd::math::abs(first.x - other.x) + vstd::math::abs(first.y - other.y),
    {
        let (x1, x2) = if first.x > other.x {
            (first.x, other.x)
        } else {
            (other.x, first.x)
        };
        let (y1, y2) = if first.y > other.y {
            (first.y, other.y)
        } else {
            (other.y, first.y)
        };
        ((x1 - x2) + (y1 - y2)) as usize
    }
}

/// A wall tile: its grid coordinates and texture identifier. Immutable
/// once placed.
#[derive(Clone, Copy, Debug, PartialEq, Eq, Structural)]
pub struct Tile {
    pub x: u32,
    pub y: u32,
    pub id: u32,
}

impl Tile {
    /// Builds a tile record.
    pub fn new(x: u32, y: u32, id: u32) -> (r: Tile)
        ensures
            r.x == x,
            r.y == y,
            r.id == id,
    {
        Tile { x, y, id }
    }
}

/// A moving or collectible entity. Positions are fixed-point tile units;
/// `destination` is the current short-horizon waypoint.
#[derive(Clone, Copy, Debug, PartialEq, Eq, Structural)]
pub struct Entity {
    pub x: i64,
    pub y: i64,
    pub destination: Position,
    pub texture_id: u32,
    pub follow_player: bool,
    pub id: u32,
    pub is_deleted: bool,
}

impl Entity {
    /// Builds an entity at a fixed-point position with waypoint (0, 0).
    pub fn new(id: u32, x: i64, y: i64, texture_id: u32, follow_player: bool) -> (r: Entity)
        ensures
            r == (Entity {
                id: id,
                x: x,
                y: y,
                texture_id: texture_id,
                destination: Position { x: 0, y: 0 },
                follow_player: follow_player,
                is_deleted: false,
            }),
    {
        Entity {
            id,
            x,
            y,
            texture_id,
            destination: Position { x: 0, y: 0 },
            follow_player,
            is_deleted: false,
        }
    }
}

/// A fixed-point 2D vector.
#[derive(Clone, Copy, Debug, PartialEq, Eq, Structural)]
pub struct Vector2 {
    pub x: i64,
    pub y: i64,
}

impl Vector2 {
    /// Builds a vector.
    pub fn new(x: i64, y: i64) -> (r: Vector2)
        ensures
            r.x == x,
            r.y == y,
    {
        Vector2 { x, y }
    }

    /// Manhattan-style distance: the sum of the absolute coordinate
    /// differences.
    pub fn distance(first: &Vector2, other: &Vector2) -> (r: i64)
        requires
            -0x1000000000000 < first.x < 0x1000000000000,
            -0x1000000000000 < first.y < 0x1000000000000,
            -0x1000000000000 < other.x < 0x1000000000000,
            -0x1000000000000 < other.y < 0x1000000000000,
        ensures
            r == vstd::math::abs(first.x - other.x) + vstd::math::abs(first.y - other.y),
    {
        let (x1, x2) = if first.x > other.x {
            (first.x, other.x)
        } else {
            (other.x, first.x)
        };
        let (y1, y2) = if first.y > other.y {
            (first.y, other.y)
        } else {
            (other.y, first.y)
        };
        (x1 - x2) + (y1 - y2)
    }
}

/// The static tile grid plus the mutable entity collection.
pub struct GridMap {
    pub width: u32,
    pub height: u32,
    pub tiles: Vec<Option<Tile>>,
    pub entities: Vec<Entity>,
}

/// Well-formedness of one entity relative to the owning map's dimensions:
/// its position stays near the map and its waypoint is an in-bounds cell.
pub open spec fn ent_wf(e: Entity, width: int, height: int) -> bool {
    &&& -FP_ONE <= e.x <= (MAX_DIM + 1) * FP_ONE
    &&& -FP_ONE <= e.y <= (MAX_DIM + 1) * FP_ONE
    &&& 0 <= e.destination.x < width
    &&& 0 <= e.destination.y < height
}

impl GridMap {
    /// The tile recorded at a grid cell: `None` when the cell is out of
    /// bounds or empty (passable).
    pub open spec fn tile_at(self, x: int, y: int) -> Option<Tile> {
        if 0 <= x < self.width && 0 <= y < self.height {
            self.tiles@[y * self.width + x]
        } else {
            None
        }
    }

    /// A cell blocks movement and pathing when it is out of bounds or
    /// holds a tile.
    pub open spec fn blocked_spec(self, x: int, y: int) -> bool {
        !(0 <= x < self.width && 0 <= y < self.height) || self.tiles@[y * self.width + x] is Some
    }

    /// Well-formedness: positive dimensions within the engine limit, a
    /// full row-major tile array whose records carry their own
    /// coordinates, and entities that satisfy `ent_wf`.
    pub open spec fn wf(self) -> bool {
        &&& 1 <= self.width <= MAX_DIM
        &&& 1 <= self.height <= MAX_DIM
        &&& self.tiles@.len() == self.width * self.height
        &&& forall|x: int, y: int|
            0 <= x < self.width && 0 <= y < self.height ==> (#[trigger] self.tile_at(x, y) matches
            Some(t) ==> t.x == x && t.y == y)
        &&& forall|i: int|
            0 <= i < self.entities@.len() ==> ent_wf(
                #[trigger] self.entities@[i],
                self.width as int,
                self.height as int,
            )
    }

    /// All entity identifiers are distinct.
    pub open spec fn ids_unique(self) -> bool {
        forall|i: int, j: int|
            0 <= i < j < self.entities@.len() ==> (#[trigger] self.entities@[i]).id != (
            #[trigger] self.entities@[j]).id
    }

    /// Builds a map from its parts.
    pub fn new(width: u32, height: u32, tiles: Vec<Option<Tile>>, entities: Vec<Entity>) -> (r:
        GridMap)
        ensures
            r.width == width,
            r.height == height,
            r.tiles == tiles,
            r.entities == entities,
    {
        GridMap { width, height, tiles, entities }
    }

    /// The tile at a cell, or `None` when the cell is out of bounds or
    /// empty.
    pub fn get_tile(&self, x: i32, y: i32) -> (r: Option<Tile>)
        requires
            self.wf(),
        ensures
            r == self.tile_at(x as int, y as int),
    {
        if x < 0 || x >= self.width as i32 || y < 0 || y >= self.height as i32 {
            None
        } else {
            proof {
                assert((y as int) * (self.width as int) + (x as int) < (self.width as int) * (
                self.height as int) && (y as int) * (self.width as int) + (x as int)
                    < 0x100000) by (nonlinear_arith)
                    requires
                        0 <= x,
                        (x as int) < self.width as int,
                        0 <= y,
                        (y as int) < self.height as int,
                        self.width <= 1024,
                        self.height <= 1024,
                ;
            }
            let idx: usize = (y as usize) * (self.width as usize) + (x as usize);
            self.tiles[idx]
        }
    }

    /// Whether a cell blocks movement: out of bounds or occupied.
    pub fn is_blocked(&self, x: i32, y: i32) -> (r: bool)
        requires
            self.wf(),
        ensures
            r == self.blocked_spec(x as int, y as int),
    {
        if x < 0 || x >= self.width as i32 || y < 0 || y >= self.height as i32 {
            true
        } else {
            proof {
                assert((y as int) * (self.width as int) + (x as int) < (self.width as int) * (
                self.height as int) && (y as int) * (self.width as int) + (x as int)
                    < 0x100000) by (nonlinear_arith)
                    requires
                        0 <= x,
                        (x as int) < self.width as int,
                        0 <= y,
                        (y as int) < self.height as int,
                        self.width <= 1024,
                        self.height <= 1024,
                ;
            }
            let idx: usize = (y as usize) * (self.width as usize) + (x as usize);
            self.tiles[idx].is_some()
        }
    }
}

/// The single neighbor candidate `q`, kept only when it is passable.
pub open spec fn neighbor_cell(m: GridMap, q: Position) -> Seq<(Position, usize)> {
    if !m.blocked_spec(q.x as int, q.y as int) {
        seq![(q, 1usize)]
    } else {
        Seq::empty()
    }
}

/// The passable axis-adjacent neighbors of `p`, in the fixed order up,
/// down, left, right, each with uniform step cost 1.
pub open spec fn neighbors_spec(m: GridMap, p: Position) -> Seq<(Position, usize)> {
    neighbor_cell(m, Position { x: p.x, y: (p.y - 1) as i32 }) + neighbor_cell(
        m,
        Position { x: p.x, y: (p.y + 1) as i32 },
    ) + neighbor_cell(m, Position { x: (p.x - 1) as i32, y: p.y }) + neighbor_cell(
        m,
        Position { x: (p.x + 1) as i32, y: p.y },
    )
}

impl GridMap {
    /// The passable axis-adjacent neighbors of `pos` with uniform cost 1,
    /// in the order up, down, left, right. Out-of-bounds cells are
    /// treated as blocked and never appear.
    pub fn get_neighbors(&self, pos: Position) -> (r: Vec<(Position, usize)>)
        requires
            self.wf(),
            -0x10000000 < pos.x < 0x10000000,
            -0x10000000 < pos.y < 0x10000000,
        ensures
            r@ == neighbors_spec(*self, pos),
    {
        let mut neighbors: Vec<(Position, usize)> = Vec::new();

        let up_pos = Position::new(pos.x, pos.y - 1);
        let down_pos = Position::new(pos.x, pos.y + 1);
        let left_pos = Position::new(pos.x - 1, pos.y);
        let right_pos = Position::new(pos.x + 1, pos.y);

        if !self.is_blocked(up_pos.x, up_pos.y) {
            neighbors.push((up_pos, 1));
        }
        if !self.is_blocked(down_pos.x, down_pos.y) {
            neighbors.push((down_pos, 1));
        }
        if !self.is_blocked(left_pos.x, left_pos.y) {
            neighbors.push((left_pos, 1));
        }
        if !self.is_blocked(right_pos.x, right_pos.y) {
            neighbors.push((right_pos, 1));
        }

        proof {
            assert(neighbors@ =~= neighbors_spec(*self, pos));
        }
        neighbors
    }
}


/// Whether the continuous point (x, y) lies within the pickup box of an
/// entity: a square of half-width one quarter tile around the entity's
/// cell center.
pub open spec fn overlaps(e: Entity, x: int, y: int) -> bool {
    &&& vstd::math::abs(x - (e.x + FP_HALF)) <= FP_QUARTER
    &&& vstd::math::abs(y - (e.y + FP_HALF)) <= FP_QUARTER
}

/// Whether the first entity carrying `ent_id`, scanning the collection in
/// order, is a treasure.
pub open spec fn is_treasure_spec(s: Seq<Entity>, ent_id: u32) -> bool
    decreases s.len(),
{
    if s.len() == 0 {
        false
    } else if s[0].id == ent_id {
        s[0].texture_id == TEXTURE_TREASURE
    } else {
        is_treasure_spec(s.skip(1), ent_id)
    }
}


/// The entity collection with every entity carrying `ent_id` removed;
/// all other entities keep their order.
pub open spec fn remove_id(s: Seq<Entity>, ent_id: u32) -> Seq<Entity> {
    s.filter(|e: Entity| e.id != ent_id)
}

impl GridMap {
    /// The identifier of the first entity, in collection order, whose
    /// pickup box contains the continuous point (x, y).
    pub fn get_overlap_ent(&self, x: i64, y: i64) -> (r: Option<u32>)
        requires
            self.wf(),
            -0x10000000000 <= x <= 0x10000000000,
            -0x10000000000 <= y <= 0x10000000000,
        ensures
            match r {
                Some(id) => exists|i: int|
                    0 <= i < self.entities@.len() && overlaps(#[trigger] self.entities@[i], x as int, y as int)
                        && id == self.entities@[i].id && (forall|j: int|
                        0 <= j < i ==> !overlaps(#[trigger] self.entities@[j], x as int, y as int)),
                None => forall|i: int|
                    0 <= i < self.entities@.len() ==> !overlaps(
                        #[trigger] self.entities@[i],
                        x as int,
                        y as int,
                    ),
            },
    {
        let mut i: usize = 0;
        while i < self.entities.len()
            invariant
                self.wf(),
                -0x10000000000 <= x <= 0x10000000000,
                -0x10000000000 <= y <= 0x10000000000,
                i <= self.entities@.len(),
                forall|j: int|
                    0 <= j < i ==> !overlaps(#[trigger] self.entities@[j], x as int, y as int),
            decreases self.entities@.len() - i,
        {
            let ent = self.entities[i];
            proof {
                assert(ent_wf(self.entities@[i as int], self.width as int, self.height as int));
            }
            let dx: i64 = x - (ent.x + FP_HALF);
            let dy: i64 = y - (ent.y + FP_HALF);
            let adx: i64 = if dx < 0 {
                -dx
            } else {
                dx
            };
            let ady: i64 = if dy < 0 {
                -dy
            } else {
                dy
            };
            if adx <= FP_QUARTER && ady <= FP_QUARTER {
                return Some(ent.id);
            }
            i = i + 1;
        }
        None
    }

    /// Removes every entity carrying `ent_id` (at most one when the
    /// identifiers are unique); all other entities keep their order.
    pub fn delete_ent(&mut self, ent_id: u32)
        ensures
            final(self).entities@ == remove_id(old(self).entities@, ent_id),
            final(self).width == old(self).width,
            final(self).height == old(self).height,
            final(self).tiles == old(self).tiles,
            old(self).wf() ==> final(self).wf(),
    {
        let ghost m0 = *self;
        let mut kept: Vec<Entity> = Vec::new();
        let mut i: usize = 0;
        while i < self.entities.len()
            invariant
                *self == m0,
                i <= self.entities@.len(),
                kept@ == remove_id(self.entities@.subrange(0, i as int), ent_id),
                m0.wf() ==> forall|k: int|
                    0 <= k < kept@.len() ==> ent_wf(
                        #[trigger] kept@[k],
                        self.width as int,
                        self.height as int,
                    ),
            decreases self.entities@.len() - i,
        {
            let ent = self.entities[i];
            proof {
                reveal(Seq::filter);
                let sub = self.entities@.subrange(0, i as int);
                let sub1 = self.entities@.subrange(0, i + 1);
                assert(sub1.drop_last() =~= sub);
                assert(sub1.last() == ent);
                if m0.wf() {
                    assert(ent_wf(self.entities@[i as int], self.width as int, self.height as int));
                }
            }
            if ent.id != ent_id {
                kept.push(ent);
            }
            i = i + 1;
        }
        proof {
            assert(self.entities@.subrange(0, self.entities@.len() as int) =~= self.entities@);
        }
        self.entities = kept;
        proof {
            if m0.wf() {
                assert forall|x: int, y: int| 0 <= x < self.width && 0 <= y < self.height implies (
                #[trigger] self.tile_at(x, y) matches Some(t) ==> t.x == x && t.y == y) by {
                    assert(self.tile_at(x, y) == m0.tile_at(x, y));
                }
            }
        }
    }

    /// Whether the first entity carrying `ent_id` is a treasure; false
    /// when no entity carries it.
    pub fn is_treasure(&self, ent_id: u32) -> (r: bool)
        ensures
            r == is_treasure_spec(self.entities@, ent_id),
    {
        let mut i: usize = 0;
        proof {
            assert(self.entities@.skip(0) =~= self.entities@);
        }
        while i < self.entities.len()
            invariant
                i <= self.entities@.len(),
                is_treasure_spec(self.entities@, ent_id) == is_treasure_spec(
                    self.entities@.skip(i as int),
                    ent_id,
                ),
            decreases self.entities@.len() - i,
        {
            let ent = self.entities[i];
            proof {
                assert(self.entities@.skip(i as int)[0] == ent);
                assert(self.entities@.skip(i as int).skip(1) =~= self.entities@.skip(i + 1));
            }
            if ent.id == ent_id {
                return ent.texture_id == TEXTURE_TREASURE;
            }
            i = i + 1;
        }
        proof {
            assert(self.entities@.skip(self.entities@.len() as int).len() == 0);
        }
        false
    }
}


/// A black pixel marks a wall tile.
pub open spec fn pixel_is_wall(c: Rgba) -> bool {
    c.r == 0 && c.g == 0 && c.b == 0 && c.a == 255
}

/// A red pixel marks a pursuing entity spawn.
pub open spec fn pixel_is_pursuer(c: Rgba) -> bool {
    c.r == 255 && c.g == 0 && c.b == 0 && c.a == 255
}

/// A green pixel marks a collectible entity spawn.
pub open spec fn pixel_is_collectible(c: Rgba) -> bool {
    c.r == 0 && c.g == 255 && c.b == 0 && c.a == 255
}

/// The entity that a spawn marker at cell (x, y) produces, given that `n`
/// entities were spawned before it.
pub open spec fn spawn_entity(n: int, x: int, y: int, texture_id: u32, follow: bool) -> Entity {
    Entity {
        id: n as u32,
        x: (x * FP_ONE) as i64,
        y: (y * FP_ONE) as i64,
        destination: Position { x: 0, y: 0 },
        texture_id: texture_id,
        follow_player: follow,
        is_deleted: false,
    }
}

/// The entities spawned by the first `s` cells of the column-major scan
/// of a width x height pixel grid (scan position s covers cell
/// (s / height, s % height)), with identifiers assigned in scan order.
pub open spec fn spawns_upto(pix: Seq<Rgba>, width: int, height: int, s: int) -> Seq<Entity>
    decreases s,
{
    if s <= 0 {
        Seq::empty()
    } else {
        let prev = spawns_upto(pix, width, height, s - 1);
        let x = (s - 1) / height;
        let y = (s - 1) % height;
        let c = pix[y * width + x];
        if pixel_is_pursuer(c) {
            prev.push(spawn_entity(prev.len() as int, x, y, TEXTURE_SCHINDLER, true))
        } else if pixel_is_collectible(c) {
            prev.push(spawn_entity(prev.len() as int, x, y, TEXTURE_TREASURE, false))
        } else {
            prev
        }
    }
}

/// All entities spawned by a keyed-color pixel grid.
pub open spec fn map_spawns(pix: Seq<Rgba>, width: int, height: int) -> Seq<Entity> {
    spawns_upto(pix, width, height, width * height)
}

/// The tile that a pixel grid places at cell (x, y): a wall exactly where
/// the pixel is black.
pub open spec fn tile_of_pixel(pix: Seq<Rgba>, width: int, x: int, y: int) -> Option<Tile> {
    if pixel_is_wall(pix[y * width + x]) {
        Some(Tile { x: x as u32, y: y as u32, id: TEXTURE_WALL })
    } else {
        None
    }
}


/// At most one entity spawns per scanned cell.
pub proof fn lemma_spawns_len(pix: Seq<Rgba>, width: int, height: int, s: int)
    ensures
        spawns_upto(pix, width, height, s).len() <= (if s >= 0 {
            s
        } else {
            0
        }),
    decreases s,
{
    if s > 0 {
        lemma_spawns_len(pix, width, height, s - 1);
    }
}

/// Distinct in-bounds cells have distinct row-major indices.
proof fn lemma_row_major_injective(w: int, x1: int, y1: int, x2: int, y2: int)
    by (nonlinear_arith)
    requires
        0 <= x1 < w,
        0 <= x2 < w,
        y1 * w + x1 == y2 * w + x2,
    ensures
        x1 == x2,
        y1 == y2,
{
}

impl GridMap {
    /// Builds a map from a keyed-color pixel grid: black pixels become
    /// wall tiles, red pixels spawn pursuing entities, green pixels spawn
    /// collectible entities, and every other color is empty floor.
    /// Entities are numbered in the column-major scan order.
    pub fn load(width: u32, height: u32, pixels: &Vec<Rgba>) -> (r: GridMap)
        requires
            1 <= width <= MAX_DIM,
            1 <= height <= MAX_DIM,
            pixels@.len() == width * height,
        ensures
            r.width == width,
            r.height == height,
            r.wf(),
            r.ids_unique(),
            forall|x: int, y: int|
                0 <= x < width && 0 <= y < height ==> #[trigger] r.tile_at(x, y) == tile_of_pixel(
                    pixels@,
                    width as int,
                    x,
                    y,
                ),
            r.entities@ == map_spawns(pixels@, width as int, height as int),
    {
        proof {
            assert((width as int) * (height as int) <= 0x100000) by (nonlinear_arith)
                requires
                    1 <= width as int <= 1024,
                    1 <= height as int <= 1024,
            ;
        }
        let total: usize = (width as usize) * (height as usize);
        let mut tiles: Vec<Option<Tile>> = Vec::new();
        let mut k: usize = 0;
        while k < total
            invariant
                k <= total,
                tiles@.len() == k,
                forall|j: int| 0 <= j < k ==> tiles@[j] is None,
            decreases total - k,
        {
            tiles.push(None);
            k = k + 1;
        }

        let mut entities: Vec<Entity> = Vec::new();
        let mut next_ent_id: u32 = 0;
        let ghost w = width as int;
        let ghost h = height as int;
        proof {
            assert forall|xx: int, yy: int| 0 <= xx < w && 0 <= yy < h implies #[trigger] tiles@[yy
                * w + xx] is None by {
                assert(0 <= yy * w + xx < w * h) by (nonlinear_arith)
                    requires
                        0 <= xx,
                        xx < w,
                        0 <= yy,
                        yy < h,
                ;
            }
        }

        let mut x: u32 = 0;
        while x < width
            invariant
                0 <= x <= width,
                1 <= width <= MAX_DIM,
                1 <= height <= MAX_DIM,
                pixels@.len() == width * height,
                w == width as int,
                h == height as int,
                tiles@.len() == width * height,
                entities@ == spawns_upto(pixels@, w, h, (x as int) * h),
                next_ent_id == entities@.len(),
                forall|k2: int| 0 <= k2 < entities@.len() ==> (#[trigger] entities@[k2]).id == k2,
                forall|k2: int|
                    0 <= k2 < entities@.len() ==> ent_wf(#[trigger] entities@[k2], w, h),
                forall|xx: int, yy: int|
                    0 <= xx < w && 0 <= yy < h && xx < x ==> #[trigger] tiles@[yy * w + xx]
                        == tile_of_pixel(
                        pixels@,
                        w,
                        xx,
                        yy,
                    ),
                forall|xx: int, yy: int|
                    0 <= xx < w && 0 <= yy < h && xx >= x ==> #[trigger] tiles@[yy * w + xx]
                        is None,
            decreases width - x,
        {
            let mut y: u32 = 0;
            while y < height
                invariant
                    0 <= x < width,
                    0 <= y <= height,
                    1 <= width <= MAX_DIM,
                    1 <= height <= MAX_DIM,
                    pixels@.len() == width * height,
                    w == width as int,
                    h == height as int,
                    tiles@.len() == width * height,
                    entities@ == spawns_upto(pixels@, w, h, (x as int) * h + (y as int)),
                    next_ent_id == entities@.len(),
                    forall|k2: int|
                        0 <= k2 < entities@.len() ==> (#[trigger] entities@[k2]).id == k2,
                    forall|k2: int|
                        0 <= k2 < entities@.len() ==> ent_wf(#[trigger] entities@[k2], w, h),
                    forall|xx: int, yy: int|
                        0 <= xx < w && 0 <= yy < h && (xx < x || (xx == x && yy < y))
                            ==> #[trigger] tiles@[yy * w + xx] == tile_of_pixel(pixels@, w, xx, yy),
                    forall|xx: int, yy: int|
                        0 <= xx < w && 0 <= yy < h && (xx > x || (xx == x && yy >= y))
                            ==> #[trigger] tiles@[yy * w + xx] is None,
                decreases height - y,
            {
                proof {
                    assert((y as int) * w + (x as int) < w * h && (x as int) * h + (y as int) < w
                        * h && (y as int) * w + (x as int) < 0x100000)
                        by (nonlinear_arith)
                        requires
                            0 <= x as int,
                            (x as int) < w,
                            0 <= y as int,
                            (y as int) < h,
                            1 <= w <= 1024,
                            1 <= h <= 1024,
                    ;
                    vstd::arithmetic::div_mod::lemma_fundamental_div_mod_converse(
                        (x as int) * h + (y as int),
                        h,
                        x as int,
                        y as int,
                    );
                    lemma_spawns_len(pixels@, w, h, (x as int) * h + (y as int));
                    assert((x as int) * h + (y as int) < 0x100000) by (nonlinear_arith)
                        requires
                            0 <= x as int,
                            (x as int) < w,
                            0 <= y as int,
                            (y as int) < h,
                            1 <= w <= 1024,
                            1 <= h <= 1024,
                    ;
                }
                let ghost tiles0 = tiles@;
                let index: usize = (y as usize) * (width as usize) + (x as usize);
                let color: Rgba = pixels[index];

                if color.r == 0 && color.g == 0 && color.b == 0 && color.a == 255 {
                    tiles[index] = Some(Tile::new(x, y, TEXTURE_WALL));
                } else if color.r == 255 && color.g == 0 && color.b == 0 && color.a == 255 {
                    entities.push(
                        Entity::new(next_ent_id, (x as i64) * FP_ONE, (y as i64) * FP_ONE,
                        TEXTURE_SCHINDLER, true),
                    );
                    next_ent_id = next_ent_id + 1;
                } else if color.r == 0 && color.g == 255 && color.b == 0 && color.a == 255 {
                    entities.push(
                        Entity::new(next_ent_id, (x as i64) * FP_ONE, (y as i64) * FP_ONE,
                        TEXTURE_TREASURE, false),
                    );
                    next_ent_id = next_ent_id + 1;
                }
                proof {
                    let xi = x as int;
                    let yi = y as int;
                    assert forall|xx: int, yy: int|
                        0 <= xx < w && 0 <= yy < h && !(xx == xi && yy == yi) implies #[trigger]
                    tiles@[yy * w + xx] == tiles0[yy * w + xx] by {
                        assert(0 <= yy * w + xx < w * h) by (nonlinear_arith)
                            requires
                                0 <= xx,
                                xx < w,
                                0 <= yy,
                                yy < h,
                        ;
                        if yy * w + xx == yi * w + xi {
                            lemma_row_major_injective(w, xx, yy, xi, yi);
                        }
                    }
                    assert(tiles@[yi * w + xi] == tile_of_pixel(pixels@, w, xi, yi));
                }
                y = y + 1;
            }
            proof {
                assert((x as int + 1) * h == (x as int) * h + h) by (nonlinear_arith);
            }
            x = x + 1;
        }

        let r = GridMap::new(width, height, tiles, entities);
        proof {
            assert(r.wf());
        }
        r
    }
}


/// An identifier that no entity carries removes nothing.
pub proof fn lemma_remove_id_absent(s: Seq<Entity>, ent_id: u32)
    requires
        forall|j: int| 0 <= j < s.len() ==> (#[trigger] s[j]).id != ent_id,
    ensures
        remove_id(s, ent_id) == s,
    decreases s.len(),
{
    reveal(Seq::filter);
    if s.len() > 0 {
        lemma_remove_id_absent(s.drop_last(), ent_id);
        assert(s[s.len() - 1].id != ent_id);
        assert(remove_id(s, ent_id) =~= s);
    } else {
        assert(remove_id(s, ent_id) =~= s);
    }
}

/// Law: when identifiers are unique, removing an entity's identifier
/// removes exactly that entity and leaves every other entity untouched,
/// in order.
pub proof fn lemma_remove_id_removes_exactly(s: Seq<Entity>, i: int)
    requires
        0 <= i < s.len(),
        forall|a: int, b: int| 0 <= a < b < s.len() ==> (#[trigger] s[a]).id != (#[trigger] s[b]).id,
    ensures
        remove_id(s, s[i].id) == s.remove(i),
    decreases s.len(),
{
    reveal(Seq::filter);
    let ent_id = s[i].id;
    if i == s.len() - 1 {
        assert forall|j: int| 0 <= j < s.drop_last().len() implies (#[trigger] s.drop_last()[j]).id
            != ent_id by {
            assert(s.drop_last()[j] == s[j]);
        }
        lemma_remove_id_absent(s.drop_last(), ent_id);
        assert(remove_id(s, ent_id) =~= s.remove(i));
    } else {
        assert(s.drop_last()[i] == s[i]);
        assert forall|a: int, b: int|
            0 <= a < b < s.drop_last().len() implies (#[trigger] s.drop_last()[a]).id != (
        #[trigger] s.drop_last()[b]).id by {
            assert(s.drop_last()[a] == s[a] && s.drop_last()[b] == s[b]);
        }
        lemma_remove_id_removes_exactly(s.drop_last(), i);
        assert(s[s.len() - 1].id != ent_id);
        assert(remove_id(s, ent_id) == remove_id(s.drop_last(), ent_id).push(s[s.len() - 1]));
        assert(remove_id(s, ent_id) =~= s.remove(i));
    }
}

} // verus!
