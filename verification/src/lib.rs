//! A grid-based first-person raycasting engine: a tile map with entities,
//! DDA ray casting, perspective wall/floor/ceiling/sprite rendering into a
//! frame buffer, grid A* pursuit, waypoint motion, and axis-separated player
//! collision. All continuous quantities (positions, angles, distances,
//! light levels) are fixed-point integers with 16 fractional bits.

pub mod fp;
pub mod game;
pub mod grid;
pub mod motion;
pub mod path;
pub mod raycast;
pub mod render;
pub mod scene;
