//! Errors arising from the construction and use of a simulated LCD screen.

use vstd::prelude::*;

verus! {

/// Errors that can arise from the creation and use of an
/// [`LcdScreen`](crate::screen::LcdScreen).
///
/// The window-geometry variants are a pure function of the construction
/// arguments and are raised before any rendering resource is touched; the
/// remaining variants wrap a message reported by the rendering layer.
#[derive(Debug)]
pub enum LcdError {
    /// The video subsystem could not be initialized. Wraps the message
    /// reported by the rendering layer.
    Video(String),
    /// The window for the screen could not be built. Wraps the message
    /// reported by the rendering layer.
    WindowBuild(String),
    /// The canvas for the screen could not be built. Wraps the message
    /// reported by the rendering layer.
    CanvasBuild(String),
    /// A dot's rectangle could not be filled. Wraps the message reported by
    /// the rendering layer.
    Fill(String),
    /// The screen is too wide to be displayed. The width of the window is the
    /// number of columns of dots multiplied by the pixel width of each dot,
    /// and must lie between 1 and `i32::MAX` pixels; to display the screen,
    /// reduce one of the two factors.
    WindowWidth {
        /// The total width in pixels of the undisplayed screen.
        width: u128,
        /// The number of columns of dots of the undisplayed screen.
        cols: usize,
        /// The pixel width of the dots of the undisplayed screen.
        dot_width: u32,
    },
    /// The screen is too high to be displayed. The height of the window is
    /// the number of rows of dots multiplied by the pixel height of each dot,
    /// and must lie between 1 and `i32::MAX` pixels; to display the screen,
    /// reduce one of the two factors.
    WindowHeight {
        /// The total height in pixels of the undisplayed screen.
        height: u128,
        /// The number of rows of dots of the undisplayed screen.
        rows: usize,
        /// The pixel height of the dots of the undisplayed screen.
        dot_height: u32,
    },
}

} // verus!
