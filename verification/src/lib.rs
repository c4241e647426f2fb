//! Simulation core of a territory-control board game on a 160x160 pixel
//! canvas: a procedural map generator that partitions the board into
//! contiguous terrain regions, builds a region-adjacency graph, and animates
//! an expanding occupation frontier.
//!
//! Coherent noise is consumed as pre-sampled integer grids in thousandths
//! (milli-units); the floating-point noise synthesis itself lives outside
//! this library.

pub mod bitset;
pub mod cell;
pub mod decree;
pub mod level;
pub mod map;
pub mod menu;
pub mod music;
pub mod noise;
pub mod pixmap;
pub mod render;
pub mod rng;
pub mod sprites;
pub mod terrain;
