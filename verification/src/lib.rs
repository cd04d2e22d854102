//! A simulated dot-matrix LCD screen.
//!
//! The library owns the verified core of the simulator: the dot grid with its
//! pixel geometry, the overflow-checked window sizing, and the diffing draw
//! routine that turns a bitmap into the minimal batch of rectangle fills
//! followed by a single present. Putting those rectangles on an actual window
//! is left to a thin rendering shell around the library.

pub mod bitmap;
pub mod color;
pub mod error;
pub mod geometry;
pub mod screen;

pub use bitmap::Bitmap;
pub use color::Color;
pub use error::LcdError;
pub use geometry::Rect;
pub use screen::DrawCmd;
pub use screen::LcdScreen;
