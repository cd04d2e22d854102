//! Pixel-space rectangles and the placement of dots inside the window.

use vstd::prelude::*;

verus! {

/// An axis-aligned rectangle in pixel space.
///
/// The position is a signed 32-bit coordinate pair, as native rendering
/// geometry is typically limited to signed 32-bit pixel coordinates; the
/// extent is unsigned.
#[derive(Clone, Copy, PartialEq, Eq, Structural, Debug)]
pub struct Rect {
    /// The horizontal pixel coordinate of the left edge.
    pub x: i32,
    /// The vertical pixel coordinate of the top edge.
    pub y: i32,
    /// The width in pixels.
    pub w: u32,
    /// The height in pixels.
    pub h: u32,
}

/// In a row-major grid of `rows` x `cols` cells, the cell at (`r`, `c`) has
/// the flat index `r * cols + c`; that index lies inside the grid and recovers
/// `r` and `c` by division and remainder.
pub proof fn lemma_row_major_index(rows: int, cols: int, r: int, c: int)
    requires
        0 <= r < rows,
        0 <= c < cols,
    ensures
        0 <= r * cols + c < rows * cols,
        (r * cols + c) / cols == r,
        (r * cols + c) % cols == c,
{
    assert(0 <= r * cols + c < rows * cols) by (nonlinear_arith)
        requires
            0 <= r < rows,
            0 <= c < cols,
    ;
    vstd::arithmetic::div_mod::lemma_fundamental_div_mod_converse(r * cols + c, cols, r, c);
}

/// Holds when `rect` is exactly the rectangle of the dot at grid position
/// (`row`, `col`) for dots of size `dot_width` x `dot_height`: the dot sits at
/// pixel offset (`col * dot_width`, `row * dot_height`) and spans one dot.
pub open spec fn rect_is_for(rect: Rect, row: int, col: int, dot_width: u32, dot_height: u32) -> bool {
    &&& rect.x == col * dot_width
    &&& rect.y == row * dot_height
    &&& rect.w == dot_width
    &&& rect.h == dot_height
}

} // verus!
