//! A bouncing-sprite screensaver core: sprites move diagonally inside a
//! viewport, reflect off its edges and take a fresh random tint on each bounce.
//!
//! Positions are kept in sub-pixels (`SUBPIXELS` per pixel) so that motion over
//! any whole number of milliseconds is exact integer arithmetic.

pub mod laws;
pub mod pool;
pub mod random;
pub mod settings;
pub mod sprite;

pub use pool::{effective_size, is_visible, Config, Simulation};
pub use random::{random_direction, random_offset, random_tint};
pub use settings::{unload, Settings, SettingsError};
pub use sprite::{axis_limit, Extent, Sign, Sprite, Tint, FRAME_MS, SUBPIXELS};
