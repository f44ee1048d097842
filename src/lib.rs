//! A tile-world simulation engine: levels decoded from colour-keyed images,
//! a sparse tilemap with collision queries, a fixed-point actor resolver and
//! the interactive-tile state machine (levers, bombs, exits).
pub mod utils;
pub mod geometry;
pub mod tile;
pub mod tilemap;
pub mod decode;
pub mod explosion;
pub mod player;
pub mod level;
pub mod game;
