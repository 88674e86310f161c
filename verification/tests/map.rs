//! The grid map: loading from a keyed-color pixel grid, occupancy
//! queries, neighbor expansion, overlap lookup, pickup bookkeeping and
//! the small coordinate types.

use raycaster::fp::FP_ONE;
use raycaster::grid::{
    Entity, GridMap, Position, Rgba, Tile, Vector2, TEXTURE_SCHINDLER, TEXTURE_TREASURE,
    TEXTURE_WALL,
};

fn floor_px() -> Rgba {
    Rgba { r: 90, g: 90, b: 90, a: 255 }
}

fn wall_px() -> Rgba {
    Rgba { r: 0, g: 0, b: 0, a: 255 }
}

fn red_px() -> Rgba {
    Rgba { r: 255, g: 0, b: 0, a: 255 }
}

fn green_px() -> Rgba {
    Rgba { r: 0, g: 255, b: 0, a: 255 }
}

/// A width x height pixel grid of open floor with the given cells
/// replaced.
fn pixel_grid(width: u32, height: u32, marks: &[(u32, u32, Rgba)]) -> Vec<Rgba> {
    let mut pixels = vec![floor_px(); (width * height) as usize];
    for &(x, y, c) in marks {
        pixels[(y * width + x) as usize] = c;
    }
    pixels
}

#[test]
fn load_places_walls_and_spawns_in_scan_order() {
    // Red at (1, 2) and green at (2, 1): the column-major scan (x outer,
    // y inner) reaches (1, 2) first.
    let pixels = pixel_grid(
        4,
        4,
        &[(0, 0, wall_px()), (3, 2, wall_px()), (1, 2, red_px()), (2, 1, green_px())],
    );
    let map = GridMap::load(4, 4, &pixels);
    assert_eq!(map.width, 4);
    assert_eq!(map.height, 4);

    let t = map.get_tile(0, 0).expect("wall at (0,0)");
    assert_eq!((t.x, t.y, t.id), (0, 0, TEXTURE_WALL));
    let t = map.get_tile(3, 2).expect("wall at (3,2)");
    assert_eq!((t.x, t.y, t.id), (3, 2, TEXTURE_WALL));
    assert!(map.get_tile(1, 1).is_none());
    // Spawn markers leave their cells passable.
    assert!(map.get_tile(1, 2).is_none());
    assert!(map.get_tile(2, 1).is_none());

    assert_eq!(map.entities.len(), 2);
    let e0 = map.entities[0];
    assert_eq!(e0.id, 0);
    assert_eq!((e0.x, e0.y), (1 * FP_ONE, 2 * FP_ONE));
    assert_eq!(e0.texture_id, TEXTURE_SCHINDLER);
    assert!(e0.follow_player);
    let e1 = map.entities[1];
    assert_eq!(e1.id, 1);
    assert_eq!((e1.x, e1.y), (2 * FP_ONE, 1 * FP_ONE));
    assert_eq!(e1.texture_id, TEXTURE_TREASURE);
    assert!(!e1.follow_player);
}

#[test]
fn get_tile_is_none_out_of_bounds() {
    let pixels = pixel_grid(3, 3, &[(1, 1, wall_px())]);
    let map = GridMap::load(3, 3, &pixels);
    assert!(map.get_tile(-1, 0).is_none());
    assert!(map.get_tile(0, -1).is_none());
    assert!(map.get_tile(3, 0).is_none());
    assert!(map.get_tile(0, 3).is_none());
    assert!(map.get_tile(1, 1).is_some());
}

#[test]
fn neighbors_come_in_order_and_exclude_bounds_and_walls() {
    let pixels = pixel_grid(3, 3, &[(1, 2, wall_px())]);
    let map = GridMap::load(3, 3, &pixels);
    // Corner: up and left are out of bounds and stay excluded.
    let n = map.get_neighbors(Position::new(0, 0));
    assert_eq!(n, vec![(Position::new(0, 1), 1), (Position::new(1, 0), 1)]);
    // Center: the wall below (1, 2) is excluded; order is up, down,
    // left, right.
    let n = map.get_neighbors(Position::new(1, 1));
    assert_eq!(
        n,
        vec![(Position::new(1, 0), 1), (Position::new(0, 1), 1), (Position::new(2, 1), 1)]
    );
}

#[test]
fn overlap_returns_first_match_in_collection_order() {
    let pixels = pixel_grid(4, 4, &[(1, 1, red_px()), (1, 1, red_px())]);
    let mut map = GridMap::load(4, 4, &pixels);
    // Two entities on the same cell: stack a second one by hand.
    let mut extra = Entity::new(7, 1 * FP_ONE, 1 * FP_ONE, TEXTURE_TREASURE, false);
    extra.destination = Position::new(0, 0);
    map.entities.push(extra);
    // The pickup box sits around the cell center (1.5, 1.5).
    let hit = map.get_overlap_ent(FP_ONE + FP_ONE / 2, FP_ONE + FP_ONE / 2);
    assert_eq!(hit, Some(0));
    // A quarter tile away still overlaps; past it does not.
    let hit = map.get_overlap_ent(FP_ONE + FP_ONE / 2 + FP_ONE / 4, FP_ONE + FP_ONE / 2);
    assert_eq!(hit, Some(0));
    let hit = map.get_overlap_ent(FP_ONE + FP_ONE / 2 + FP_ONE / 4 + 1, FP_ONE + FP_ONE / 2);
    assert_eq!(hit, None);
}

#[test]
fn delete_ent_removes_exactly_that_id() {
    let pixels = pixel_grid(4, 4, &[(1, 1, red_px()), (2, 2, green_px())]);
    let mut map = GridMap::load(4, 4, &pixels);
    assert_eq!(map.entities.len(), 2);
    map.delete_ent(0);
    assert_eq!(map.entities.len(), 1);
    assert_eq!(map.entities[0].id, 1);
    // Deleting an absent id is a no-op.
    map.delete_ent(42);
    assert_eq!(map.entities.len(), 1);
}

#[test]
fn is_treasure_tells_collectibles_from_pursuers() {
    let pixels = pixel_grid(4, 4, &[(1, 1, red_px()), (2, 2, green_px())]);
    let map = GridMap::load(4, 4, &pixels);
    assert!(!map.is_treasure(0));
    assert!(map.is_treasure(1));
    assert!(!map.is_treasure(9));
}

#[test]
fn position_index_and_distance() {
    let p = Position::new(3, 2);
    assert_eq!(p.to_index(10), 23);
    assert_eq!(Position::distance(&Position::new(0, 0), &Position::new(3, 4)), 7);
    assert_eq!(Position::distance(&Position::new(3, 4), &Position::new(0, 0)), 7);
    assert_eq!(Position::distance(&Position::new(-2, 5), &Position::new(1, 1)), 7);
}

#[test]
fn vector2_distance_sums_axis_differences() {
    let a = Vector2::new(1000, 2000);
    let b = Vector2::new(-500, 500);
    assert_eq!(Vector2::distance(&a, &b), 3000);
    assert_eq!(Vector2::distance(&b, &a), 3000);
}

#[test]
fn tile_new_carries_its_fields() {
    let t = Tile::new(5, 6, TEXTURE_WALL);
    assert_eq!((t.x, t.y, t.id), (5, 6, TEXTURE_WALL));
}

#[test]
fn entity_new_starts_unremoved_with_zero_waypoint() {
    let e = Entity::new(3, 7 * FP_ONE, 8 * FP_ONE, TEXTURE_SCHINDLER, true);
    assert_eq!(e.id, 3);
    assert_eq!((e.x, e.y), (7 * FP_ONE, 8 * FP_ONE));
    assert_eq!(e.destination, Position::new(0, 0));
    assert!(e.follow_player);
    assert!(!e.is_deleted);
}

#[test]
fn sprite_new_carries_its_fields() {
    let sp = raycaster::render::Sprite::new(5 * FP_ONE, 6 * FP_ONE, TEXTURE_TREASURE);
    assert_eq!((sp.x, sp.y, sp.texture_id), (5 * FP_ONE, 6 * FP_ONE, TEXTURE_TREASURE));
}

#[test]
fn gridmap_new_takes_its_parts() {
    let tiles = vec![None, Some(Tile::new(1, 0, TEXTURE_WALL)), None, None];
    let map = GridMap::new(2, 2, tiles, Vec::new());
    assert_eq!(map.width, 2);
    assert_eq!(map.height, 2);
    assert!(map.tiles[1].is_some());
    assert!(map.entities.is_empty());
}
