//! The engine: ray casting, pathfinding and waypoints, entity motion,
//! player collision, pickup and the renderer.

use raycaster::fp::FP_ONE;
use raycaster::game::{Game, MOVE_SPEED_FP};
use raycaster::grid::{GridMap, Position, Rgba, TEXTURE_SCHINDLER, TEXTURE_TREASURE};
use raycaster::raycast::raycast;
use raycaster::render::{Texture, TextureSet};

fn floor_px() -> Rgba {
    Rgba { r: 90, g: 90, b: 90, a: 255 }
}

fn wall_px() -> Rgba {
    Rgba { r: 0, g: 0, b: 0, a: 255 }
}

fn red_px() -> Rgba {
    Rgba { r: 255, g: 0, b: 0, a: 255 }
}

fn green_px() -> Rgba {
    Rgba { r: 0, g: 255, b: 0, a: 255 }
}

/// A width x height pixel grid of open floor with the given cells
/// replaced.
fn pixel_grid(width: u32, height: u32, marks: &[(u32, u32, Rgba)]) -> Vec<Rgba> {
    let mut pixels = vec![floor_px(); (width * height) as usize];
    for &(x, y, c) in marks {
        pixels[(y * width + x) as usize] = c;
    }
    pixels
}

/// A width x height pixel grid with a wall border and the given interior
/// cells replaced.
fn bordered_grid(width: u32, height: u32, marks: &[(u32, u32, Rgba)]) -> Vec<Rgba> {
    let mut pixels = vec![floor_px(); (width * height) as usize];
    for x in 0..width {
        for y in 0..height {
            if x == 0 || y == 0 || x == width - 1 || y == height - 1 {
                pixels[(y * width + x) as usize] = wall_px();
            }
        }
    }
    for &(x, y, c) in marks {
        pixels[(y * width + x) as usize] = c;
    }
    pixels
}

fn one_pixel_texture(r: u8, g: u8, b: u8, a: u8) -> Texture {
    Texture::new(1, 1, vec![Rgba { r, g, b, a }])
}

fn test_textures() -> TextureSet {
    TextureSet::new(
        one_pixel_texture(200, 100, 50, 255),
        one_pixel_texture(10, 20, 30, 255),
        one_pixel_texture(40, 50, 60, 255),
        one_pixel_texture(255, 0, 255, 255),
        one_pixel_texture(0, 0, 255, 255),
    )
}

#[test]
fn ray_down_a_corridor_strikes_the_wall() {
    // A wall at grid cell (5, 3); the ray starts at (3.5, 3.5) facing
    // along the positive x axis.
    let pixels = pixel_grid(8, 8, &[(5, 3, wall_px())]);
    let map = GridMap::load(8, 8, &pixels);
    let hit = raycast(&map, 3 * FP_ONE + FP_ONE / 2, 3 * FP_ONE + FP_ONE / 2, 0);
    assert_eq!((hit.tile_x, hit.tile_y), (5, 3));
    assert!(hit.distance > 0);
    // The hit point is on the cell's left edge, 1.5 tiles away.
    assert_eq!(hit.x, 5 * FP_ONE);
    assert_eq!(hit.y, 3 * FP_ONE + FP_ONE / 2);
    assert_eq!(hit.tile_side, 0);
    assert_eq!(hit.distance, 9663676416);
}

#[test]
fn ray_that_strikes_nothing_is_the_zero_sentinel() {
    let pixels = pixel_grid(8, 8, &[]);
    let map = GridMap::load(8, 8, &pixels);
    let hit = raycast(&map, 3 * FP_ONE + FP_ONE / 2, 3 * FP_ONE + FP_ONE / 2, 0);
    assert_eq!(hit.distance, 0);
    assert_eq!((hit.tile_x, hit.tile_y), (0, 0));
}

#[test]
fn astar_crosses_an_open_grid_in_manhattan_length() {
    let pixels = pixel_grid(5, 5, &[(0, 0, red_px())]);
    let map = GridMap::load(5, 5, &pixels);
    let (path, cost) = map
        .find_path(Position::new(0, 0), Position::new(4, 4))
        .expect("open grid must have a path");
    assert_eq!(cost, 8);
    assert_eq!(path.len(), 9);
    assert_eq!(path[0], Position::new(0, 0));
    assert_eq!(path[8], Position::new(4, 4));
    for w in path.windows(2) {
        let dx = (w[0].x - w[1].x).abs();
        let dy = (w[0].y - w[1].y).abs();
        assert_eq!(dx + dy, 1);
    }
}

#[test]
fn pathfind_sets_the_waypoint_to_the_next_step() {
    let pixels = pixel_grid(5, 5, &[(0, 0, red_px())]);
    let mut map = GridMap::load(5, 5, &pixels);
    map.pathfind(Position::new(4, 4));
    let wp = map.entities[0].destination;
    // The first expansion from (0, 0) pushes down before right, and the
    // search keeps that ordering for the returned path's second node.
    assert_eq!(wp, Position::new(0, 1));
}

#[test]
fn pathfind_to_a_walled_goal_keeps_the_waypoint() {
    let pixels = pixel_grid(5, 5, &[(0, 0, red_px()), (4, 4, wall_px())]);
    let mut map = GridMap::load(5, 5, &pixels);
    assert!(map.find_path(Position::new(0, 0), Position::new(4, 4)).is_none());
    map.entities[0].destination = Position::new(2, 2);
    map.pathfind(Position::new(4, 4));
    assert_eq!(map.entities[0].destination, Position::new(2, 2));
}

#[test]
fn entity_motion_snaps_to_the_waypoint_and_stops() {
    let pixels = pixel_grid(6, 6, &[(2, 2, red_px())]);
    let mut map = GridMap::load(6, 6, &pixels);
    map.entities[0].destination = Position::new(3, 2);
    // A tick step below the snap epsilon converges exactly.
    let dt: i64 = 2621;
    for _ in 0..23 {
        map.entity_movement(dt);
    }
    assert_eq!(map.entities[0].x, 2 * FP_ONE + 23 * dt);
    map.entity_movement(dt);
    // The 24th tick lands within the epsilon and snaps exactly.
    assert_eq!(map.entities[0].x, 3 * FP_ONE);
    assert_eq!(map.entities[0].y, 2 * FP_ONE);
    for _ in 0..6 {
        map.entity_movement(dt);
    }
    assert_eq!(map.entities[0].x, 3 * FP_ONE);
}

#[test]
fn entity_motion_with_a_large_step_overshoots() {
    // A step far above the snap epsilon jumps over the snap window and
    // oscillates: the known large-tick characteristic.
    let pixels = pixel_grid(6, 6, &[(2, 2, red_px())]);
    let mut map = GridMap::load(6, 6, &pixels);
    map.entities[0].destination = Position::new(3, 2);
    map.entities[0].x = 3 * FP_ONE - 40000;
    let dt: i64 = 32768;
    map.entity_movement(dt);
    assert_eq!(map.entities[0].x, 3 * FP_ONE - 40000 + 32768);
    map.entity_movement(dt);
    assert_eq!(map.entities[0].x, 3 * FP_ONE - 40000 + 2 * 32768);
    map.entity_movement(dt);
    assert_eq!(map.entities[0].x, 3 * FP_ONE - 40000 + 32768);
}

#[test]
fn non_pursuing_entities_never_move() {
    let pixels = pixel_grid(6, 6, &[(2, 2, green_px())]);
    let mut map = GridMap::load(6, 6, &pixels);
    map.entities[0].destination = Position::new(4, 4);
    map.entity_movement(FP_ONE / 2);
    assert_eq!(map.entities[0].x, 2 * FP_ONE);
    assert_eq!(map.entities[0].y, 2 * FP_ONE);
}

#[test]
fn player_slides_along_a_wall() {
    // Moving diagonally into the wall at (5, 3): the x axis is blocked
    // and keeps its value, the y axis is free and advances.
    let pixels = bordered_grid(8, 8, &[(5, 3, wall_px())]);
    let map = GridMap::load(8, 8, &pixels);
    let mut game = Game::new(map, test_textures(), 2, 4);
    game.player_x = 4 * FP_ONE + FP_ONE / 2;
    game.player_y = 3 * FP_ONE + FP_ONE / 2;
    game.player_rotation = raycaster::fp::QUARTER_PI_FP;
    game.input_up = true;
    let dt: i64 = 32768;

    let vx = raycaster::fp::fp_cos(game.player_rotation) * MOVE_SPEED_FP / FP_ONE;
    let vy = raycaster::fp::fp_sin(game.player_rotation) * MOVE_SPEED_FP / FP_ONE;
    let step_x = vx * dt / FP_ONE;
    let step_y = vy * dt / FP_ONE;
    // The candidate x cell is the wall cell; the candidate y cell is
    // open.
    assert_eq!((game.player_x + step_x) / FP_ONE, 5);
    assert_eq!((game.player_y + step_y) / FP_ONE, 4);

    game.update_player(dt);
    assert_eq!(game.player_x, 4 * FP_ONE + FP_ONE / 2);
    assert_eq!(game.player_y, 3 * FP_ONE + FP_ONE / 2 + step_y);
}

#[test]
fn player_rotation_wraps() {
    let pixels = bordered_grid(8, 8, &[]);
    let map = GridMap::load(8, 8, &pixels);
    let mut game = Game::new(map, test_textures(), 2, 4);
    game.input_left = true;
    game.update_player(FP_ONE);
    // One full-speed second of turning left from zero wraps below a full
    // turn.
    assert_eq!(game.player_rotation, 411774 - 171573);
}

#[test]
fn pickup_removes_exactly_the_overlapped_treasure() {
    let pixels = bordered_grid(6, 6, &[(2, 2, green_px()), (3, 3, red_px())]);
    let map = GridMap::load(6, 6, &pixels);
    let mut game = Game::new(map, test_textures(), 2, 4);
    game.player_x = 2 * FP_ONE + FP_ONE / 2;
    game.player_y = 2 * FP_ONE + FP_ONE / 2;
    assert_eq!(game.map.entities.len(), 2);
    game.pickup();
    assert_eq!(game.map.entities.len(), 1);
    assert!(game.map.entities[0].follow_player);

    // Overlapping the pursuing entity never removes it.
    game.player_x = 3 * FP_ONE + FP_ONE / 2;
    game.player_y = 3 * FP_ONE + FP_ONE / 2;
    game.pickup();
    assert_eq!(game.map.entities.len(), 1);
}

#[test]
fn pickup_away_from_everything_changes_nothing() {
    let pixels = bordered_grid(6, 6, &[(2, 2, green_px())]);
    let map = GridMap::load(6, 6, &pixels);
    let mut game = Game::new(map, test_textures(), 2, 4);
    game.player_x = 4 * FP_ONE + FP_ONE / 2;
    game.player_y = 4 * FP_ONE + FP_ONE / 2;
    game.pickup();
    assert_eq!(game.map.entities.len(), 1);
}

#[test]
fn replan_targets_the_player_cell() {
    let pixels = bordered_grid(8, 8, &[(1, 1, red_px())]);
    let map = GridMap::load(8, 8, &pixels);
    let mut game = Game::new(map, test_textures(), 2, 4);
    // The player stands at (3.5, 3.5); the entity at (1, 1) should step
    // toward cell (3, 3).
    game.replan();
    let wp = game.map.entities[0].destination;
    let d = (wp.x - 1).abs() + (wp.y - 1).abs();
    assert_eq!(d, 1);
    assert!(wp == Position::new(2, 1) || wp == Position::new(1, 2));
}

#[test]
fn render_produces_the_golden_column_pair() {
    // A 6x6 all-wall-bordered map, a fixed pose and 1x1 textures give a
    // byte-exact 2x4 frame.
    let pixels = bordered_grid(6, 6, &[]);
    let map = GridMap::load(6, 6, &pixels);
    let mut game = Game::new(map, test_textures(), 2, 4);
    let frame = game.render_world();
    assert_eq!(frame.width, 2);
    assert_eq!(frame.height, 4);
    let got: Vec<(u8, u8, u8, u8)> = frame.pixels.iter().map(|p| (p.r, p.g, p.b, p.a)).collect();
    // Two ceiling rows, the wall strip, then the floor row, each lit by
    // the distance falloff; the columns differ by one texel of
    // perspective in the wall row.
    let expected: Vec<(u8, u8, u8, u8)> = vec![
        (9, 18, 28, 255),
        (9, 18, 28, 255),
        (8, 17, 26, 255),
        (8, 17, 26, 255),
        (140, 70, 35, 255),
        (139, 69, 34, 255),
        (35, 44, 53, 255),
        (35, 44, 53, 255),
    ];
    assert_eq!(got, expected);
}

#[test]
fn render_sorts_entities_back_to_front() {
    let pixels = bordered_grid(8, 8, &[(1, 1, red_px()), (5, 5, green_px())]);
    let map = GridMap::load(8, 8, &pixels);
    let mut game = Game::new(map, test_textures(), 2, 4);
    // The player at (3.5, 3.5) is farther from (1, 1) than from (5, 5),
    // so the pursuer at (1, 1) must come first after rendering.
    let frame = game.render_world();
    assert_eq!(frame.width, 2);
    assert_eq!(game.map.entities.len(), 2);
    assert_eq!(game.map.entities[0].texture_id, TEXTURE_SCHINDLER);
    assert_eq!(game.map.entities[1].texture_id, TEXTURE_TREASURE);
}

#[test]
fn opposing_movement_flags_cancel() {
    let pixels = bordered_grid(8, 8, &[]);
    let map = GridMap::load(8, 8, &pixels);
    let mut game = Game::new(map, test_textures(), 2, 4);
    game.input_up = true;
    game.input_down = true;
    game.update_player(FP_ONE / 4);
    assert_eq!(game.player_x, 3 * FP_ONE + FP_ONE / 2);
    assert_eq!(game.player_y, 3 * FP_ONE + FP_ONE / 2);
    assert_eq!(game.player_rotation, 0);
}

#[test]
fn pathfind_to_the_entity_own_cell_keeps_the_waypoint() {
    // The trivial single-node path has cost zero, below the update
    // threshold.
    let pixels = pixel_grid(5, 5, &[(2, 2, red_px())]);
    let mut map = GridMap::load(5, 5, &pixels);
    map.entities[0].destination = Position::new(1, 1);
    map.pathfind(Position::new(2, 2));
    assert_eq!(map.entities[0].destination, Position::new(1, 1));
}

#[test]
fn game_new_places_the_player() {
    let pixels = bordered_grid(8, 8, &[]);
    let map = GridMap::load(8, 8, &pixels);
    let game = Game::new(map, test_textures(), 640, 480);
    assert_eq!(game.player_x, 3 * FP_ONE + FP_ONE / 2);
    assert_eq!(game.player_y, 3 * FP_ONE + FP_ONE / 2);
    assert_eq!(game.player_rotation, 0);
    assert!(!game.input_left && !game.input_right && !game.input_up && !game.input_down);
    assert_eq!(game.projection_width, 640);
    assert_eq!(game.projection_height, 480);
}

#[test]
fn get_texture_selects_by_identifier() {
    let pixels = bordered_grid(8, 8, &[]);
    let map = GridMap::load(8, 8, &pixels);
    let game = Game::new(map, test_textures(), 2, 4);
    assert_eq!(game.get_texture(0).get_pixel(0, 0).r, 200);
    assert_eq!(game.get_texture(1).get_pixel(0, 0).r, 10);
    assert_eq!(game.get_texture(2).get_pixel(0, 0).r, 40);
    assert_eq!(game.get_texture(3).get_pixel(0, 0).r, 255);
    assert_eq!(game.get_texture(4).get_pixel(0, 0).b, 255);
}

#[test]
fn pathfinding_cell_truncates_toward_zero() {
    // The engine keeps two documented grid conversions: player collision
    // floors the continuous position, while an entity's pathfinding cell
    // truncates toward zero, as the motion overshoot can leave a
    // coordinate a hair below zero. An entity just left of x = 0 plans
    // from cell (0, 0), not (-1, 0).
    let pixels = pixel_grid(4, 4, &[(0, 0, red_px())]);
    let mut map = GridMap::load(4, 4, &pixels);
    map.entities[0].x = -1;
    map.pathfind(Position::new(2, 0));
    // From (0, 0) the goal is two steps away, so a waypoint is set; from
    // (-1, 0) the first step would already be the sole second node of a
    // three-node path.
    assert_eq!(map.entities[0].destination, Position::new(1, 0));
}
