//! Verified core of an animated screen-edge ring light: color codec,
//! animation encodings, the shared configuration store, the monitor
//! registry, per-display surface bookkeeping and the per-pixel compositor.

pub mod animation;
pub mod color;
pub mod config;
pub mod geometry;
pub mod protocol;
pub mod registry;
pub mod render;
pub mod store;
pub mod surfaces;
pub mod text;
pub mod theme;

pub use color::{color_to_hex, parse_hex_color};
