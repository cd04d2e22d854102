//! The simulated LCD screen: a dot grid with overflow-checked sizing and a
//! diffing draw routine.
//!
//! The screen owns the grid and knows the window geometry, but does not talk
//! to a window itself. Construction validates the geometry and builds the
//! grid; drawing a bitmap updates the grid and returns the batch of drawing
//! commands — one rectangle fill per dot that changed state, followed by a
//! single present — for a rendering shell to execute on the actual window
//! surface.

use vstd::prelude::*;

use crate::bitmap::Bitmap;
use crate::color::Color;
use crate::error::LcdError;
use crate::geometry::{lemma_row_major_index, rect_is_for, Rect};

verus! {

/// One dot of the grid: its fixed screen rectangle and its current on/off
/// state. The rectangle never changes after construction; the state is
/// toggled by drawing bitmaps.
#[derive(Clone, Copy, PartialEq, Eq, Structural, Debug)]
pub struct LcdDot {
    /// The screen rectangle the dot is rendered into.
    pub rect: Rect,
    /// Whether the dot currently shows the on color.
    pub on: bool,
}

impl LcdDot {
    /// Builds the dot of column `x`, row `y` for dots of `width` x `height`
    /// pixels, in the off state.
    fn new(x: i32, y: i32, width: u32, height: u32) -> (dot: LcdDot)
        requires
            1 <= width <= i32::MAX as u32,
            1 <= height <= i32::MAX as u32,
            0 <= x,
            0 <= y,
            (x as int) * (width as int) <= i32::MAX as int,
            (y as int) * (height as int) <= i32::MAX as int,
        ensures
            rect_is_for(dot.rect, y as int, x as int, width, height),
            !dot.on,
    {
        LcdDot {
            rect: Rect { x: x * (width as i32), y: y * (height as i32), w: width, h: height },
            on: false,
        }
    }
}

/// One drawing command for the rendering shell around the library.
#[derive(Clone, Copy, PartialEq, Eq, Structural, Debug)]
pub enum DrawCmd {
    /// Fill the rectangle with the color.
    Fill {
        /// The rectangle to fill.
        rect: Rect,
        /// The fill color.
        color: Color,
    },
    /// Flush all fills issued so far to the visible window, as one atomic
    /// frame swap.
    Present,
}

/// The color a dot shows in the given state.
pub open spec fn fill_color(on: bool, on_color: Color, off_color: Color) -> Color {
    if on {
        on_color
    } else {
        off_color
    }
}

/// The fill commands produced by diffing the first `n` dots against the
/// first `n` cells of a bitmap, in row-major order: one fill per position
/// where the stored state and the bitmap disagree, painting that dot's
/// rectangle with the color of its new state.
pub open spec fn diff_cmds_prefix(
    dots: Seq<LcdDot>,
    bits: Seq<bool>,
    n: int,
    on_color: Color,
    off_color: Color,
) -> Seq<DrawCmd>
    decreases n,
{
    if n <= 0 {
        Seq::empty()
    } else {
        diff_cmds_prefix(dots, bits, n - 1, on_color, off_color)
            + (if dots[n - 1].on != bits[n - 1] {
                seq![DrawCmd::Fill { rect: dots[n - 1].rect, color: fill_color(bits[n - 1], on_color, off_color) }]
            } else {
                Seq::empty()
            })
    }
}

/// The fill commands produced by diffing a whole dot grid against a bitmap.
pub open spec fn diff_cmds(
    dots: Seq<LcdDot>,
    bits: Seq<bool>,
    on_color: Color,
    off_color: Color,
) -> Seq<DrawCmd> {
    diff_cmds_prefix(dots, bits, dots.len() as int, on_color, off_color)
}

/// Well-formedness of a dot grid: `rows` x `cols` dots in row-major order,
/// the dot at flat index `i` holding exactly the rectangle of grid position
/// (`i / cols`, `i % cols`).
pub open spec fn grid_wf(dots: Seq<LcdDot>, rows: int, cols: int, dot_width: u32, dot_height: u32) -> bool {
    &&& dots.len() == rows * cols
    &&& forall|i: int|
        0 <= i < dots.len() ==> rect_is_for((#[trigger] dots[i]).rect, i / cols, i % cols, dot_width, dot_height)
}

/// A simulated LCD dot-matrix screen.
///
/// The screen has a fixed shape of rows x columns dots, chosen at
/// construction time and validated against the signed 32-bit pixel
/// coordinate limit of native rendering geometry; the shape of every bitmap
/// drawn onto it must match, which is stated as a contract on the caller.
/// The screen stores the window title and the two colors, owns the dot grid
/// exclusively, and exposes drawing as a command batch for a rendering shell
/// to execute.
pub struct LcdScreen {
    rows: usize,
    cols: usize,
    dot_width: u32,
    dot_height: u32,
    on_color: Color,
    off_color: Color,
    title: String,
    dots: Vec<LcdDot>,
}

impl LcdScreen {
    /// The number of rows of dots.
    pub closed spec fn spec_rows(&self) -> usize {
        self.rows
    }

    /// The number of columns of dots.
    pub closed spec fn spec_cols(&self) -> usize {
        self.cols
    }

    /// The width of one dot in pixels.
    pub closed spec fn spec_dot_width(&self) -> u32 {
        self.dot_width
    }

    /// The height of one dot in pixels.
    pub closed spec fn spec_dot_height(&self) -> u32 {
        self.dot_height
    }

    /// The color of a dot that is on.
    pub closed spec fn spec_on_color(&self) -> Color {
        self.on_color
    }

    /// The color of a dot that is off.
    pub closed spec fn spec_off_color(&self) -> Color {
        self.off_color
    }

    /// The window title.
    pub closed spec fn spec_title(&self) -> Seq<char> {
        self.title@
    }

    /// The dot grid in row-major order.
    pub closed spec fn dots_seq(&self) -> Seq<LcdDot> {
        self.dots@
    }

    /// Well-formedness: the window is between 1 and `i32::MAX` pixels in each
    /// direction, and the grid tiles it dot by dot.
    pub open spec fn wf(&self) -> bool {
        &&& 1 <= (self.spec_cols() as int) * (self.spec_dot_width() as int) <= i32::MAX as int
        &&& 1 <= (self.spec_rows() as int) * (self.spec_dot_height() as int) <= i32::MAX as int
        &&& grid_wf(
            self.dots_seq(),
            self.spec_rows() as int,
            self.spec_cols() as int,
            self.spec_dot_width(),
            self.spec_dot_height(),
        )
    }

    /// Creates a simulated LCD screen of `rows` x `cols` dots, each
    /// `dot_width` x `dot_height` pixels, with all dots off.
    ///
    /// The window must measure between 1 and `i32::MAX` pixels in each
    /// direction; the width of the window is `cols * dot_width` and its
    /// height is `rows * dot_height`. A width out of range fails with
    /// [`LcdError::WindowWidth`], then a height out of range with
    /// [`LcdError::WindowHeight`], each citing the exact offending values;
    /// both are raised before any rendering resource would be touched. For
    /// every geometry within range, construction succeeds.
    ///
    /// The rendering shell around the library is expected to create the
    /// window (with the stored title, centered) and its canvas next, fill
    /// the canvas with `off_color` and present it once, so that the visible
    /// frame matches the all-off grid.
    pub fn new(
        rows: usize,
        cols: usize,
        title: &str,
        on_color: Color,
        off_color: Color,
        dot_width: u32,
        dot_height: u32,
    ) -> (result: Result<LcdScreen, LcdError>)
        ensures
            ({
                let width = (cols as int) * (dot_width as int);
                let height = (rows as int) * (dot_height as int);
                &&& (result is Ok <==> (1 <= width <= i32::MAX as int && 1 <= height <= i32::MAX as int))
                &&& !(1 <= width <= i32::MAX as int) ==> (result matches Err(e) && e == (LcdError::WindowWidth {
                    width: width as u128,
                    cols,
                    dot_width,
                }))
                &&& (1 <= width <= i32::MAX as int && !(1 <= height <= i32::MAX as int)) ==> (result matches Err(e)
                    && e == (LcdError::WindowHeight { height: height as u128, rows, dot_height }))
                &&& result matches Ok(screen) ==> {
                    &&& screen.wf()
                    &&& screen.spec_rows() == rows
                    &&& screen.spec_cols() == cols
                    &&& screen.spec_dot_width() == dot_width
                    &&& screen.spec_dot_height() == dot_height
                    &&& screen.spec_on_color() == on_color
                    &&& screen.spec_off_color() == off_color
                    &&& screen.spec_title() == title@
                    &&& forall|i: int| 0 <= i < screen.dots_seq().len() ==> !(#[trigger] screen.dots_seq()[i]).on
                }
            }),
    {
        proof {
            assert((cols as int) * (dot_width as int) < 0x1_0000_0000_0000_0000_0000_0000) by (nonlinear_arith)
                requires
                    0 <= (cols as int) && (cols as int) <= 0xffff_ffff_ffff_ffff,
                    0 <= (dot_width as int) && (dot_width as int) <= 0xffff_ffff,
            ;
            assert((rows as int) * (dot_height as int) < 0x1_0000_0000_0000_0000_0000_0000) by (nonlinear_arith)
                requires
                    0 <= (rows as int) && (rows as int) <= 0xffff_ffff_ffff_ffff,
                    0 <= (dot_height as int) && (dot_height as int) <= 0xffff_ffff,
            ;
        }
        let width = (cols as u128) * (dot_width as u128);
        let height = (rows as u128) * (dot_height as u128);
        if !(1 <= width && width <= i32::MAX as u128) {
            return Err(LcdError::WindowWidth { width, cols, dot_width });
        }
        if !(1 <= height && height <= i32::MAX as u128) {
            return Err(LcdError::WindowHeight { height, rows, dot_height });
        }
        proof {
            assert(1 <= dot_width && dot_width as int <= i32::MAX as int && cols as int <= i32::MAX as int
                && 1 <= cols) by (nonlinear_arith)
                requires
                    1 <= (cols as int) * (dot_width as int) <= i32::MAX as int,
                    0 <= cols as int,
                    0 <= dot_width as int,
            ;
            assert(1 <= dot_height && dot_height as int <= i32::MAX as int && rows as int <= i32::MAX as int
                && 1 <= rows) by (nonlinear_arith)
                requires
                    1 <= (rows as int) * (dot_height as int) <= i32::MAX as int,
                    0 <= rows as int,
                    0 <= dot_height as int,
            ;
        }
        let mut dots: Vec<LcdDot> = Vec::new();
        let mut r: usize = 0;
        while r < rows
            invariant
                r <= rows,
                1 <= (cols as int) * (dot_width as int) <= i32::MAX as int,
                1 <= (rows as int) * (dot_height as int) <= i32::MAX as int,
                1 <= dot_width,
                1 <= dot_height,
                dot_width <= i32::MAX as u32,
                dot_height <= i32::MAX as u32,
                cols <= i32::MAX as usize,
                rows <= i32::MAX as usize,
                dots@.len() == r * (cols as int),
                forall|i: int|
                    0 <= i < dots@.len() ==> rect_is_for(
                        (#[trigger] dots@[i]).rect,
                        i / (cols as int),
                        i % (cols as int),
                        dot_width,
                        dot_height,
                    ) && !dots@[i].on,
            decreases rows - r,
        {
            let mut c: usize = 0;
            while c < cols
                invariant
                    c <= cols,
                    r < rows,
                    1 <= (cols as int) * (dot_width as int) <= i32::MAX as int,
                    1 <= (rows as int) * (dot_height as int) <= i32::MAX as int,
                    1 <= dot_width,
                    1 <= dot_height,
                    dot_width <= i32::MAX as u32,
                    dot_height <= i32::MAX as u32,
                    cols <= i32::MAX as usize,
                    rows <= i32::MAX as usize,
                    dots@.len() == r * (cols as int) + c,
                    forall|i: int|
                        0 <= i < r * (cols as int) ==> rect_is_for(
                            (#[trigger] dots@[i]).rect,
                            i / (cols as int),
                            i % (cols as int),
                            dot_width,
                            dot_height,
                        ) && !dots@[i].on,
                    forall|i: int|
                        r * (cols as int) <= i < dots@.len() ==> rect_is_for(
                            (#[trigger] dots@[i]).rect,
                            r as int,
                            i - r * (cols as int),
                            dot_width,
                            dot_height,
                        ) && !dots@[i].on,
                decreases cols - c,
            {
                proof {
                    assert((c as int) * (dot_width as int) <= i32::MAX as int) by (nonlinear_arith)
                        requires
                            0 <= (c as int) && (c as int) < (cols as int),
                            1 <= dot_width as int,
                            (cols as int) * (dot_width as int) <= i32::MAX as int,
                    ;
                    assert((r as int) * (dot_height as int) <= i32::MAX as int) by (nonlinear_arith)
                        requires
                            0 <= (r as int) && (r as int) < (rows as int),
                            1 <= dot_height as int,
                            (rows as int) * (dot_height as int) <= i32::MAX as int,
                    ;
                }
                let dot = LcdDot::new(c as i32, r as i32, dot_width, dot_height);
                dots.push(dot);
                c += 1;
            }
            r += 1;
            proof {
                assert((r - 1) * (cols as int) + (cols as int) == r * (cols as int)) by (nonlinear_arith);
                assert forall|i: int| (r - 1) * (cols as int) <= i < r * (cols as int) implies rect_is_for(
                    (#[trigger] dots@[i]).rect,
                    i / (cols as int),
                    i % (cols as int),
                    dot_width,
                    dot_height,
                ) && !dots@[i].on by {
                    vstd::arithmetic::div_mod::lemma_fundamental_div_mod_converse(
                        i,
                        cols as int,
                        r - 1,
                        i - (r - 1) * (cols as int),
                    );
                }
            }
        }
        Ok(LcdScreen {
            rows,
            cols,
            dot_width,
            dot_height,
            on_color,
            off_color,
            title: title.to_owned(),
            dots,
        })
    }

    /// Draws a bitmap: brings every dot's stored state in line with the
    /// bitmap and returns the drawing commands that make the visible window
    /// match — one rectangle fill, in the new state's color, for exactly the
    /// dots whose state changed, in row-major order, followed by exactly one
    /// present whatever the number of fills, so that the rendering shell
    /// flushes the whole frame as one atomic swap.
    ///
    /// The bitmap's shape must equal the screen's; that is a contract on the
    /// caller, not a run-time check.
    pub fn draw_bitmap(&mut self, bm: &Bitmap) -> (cmds: Vec<DrawCmd>)
        requires
            old(self).wf(),
            bm.wf(),
            bm.rows == old(self).spec_rows(),
            bm.cols == old(self).spec_cols(),
        ensures
            final(self).wf(),
            final(self).spec_rows() == old(self).spec_rows(),
            final(self).spec_cols() == old(self).spec_cols(),
            final(self).spec_dot_width() == old(self).spec_dot_width(),
            final(self).spec_dot_height() == old(self).spec_dot_height(),
            final(self).spec_on_color() == old(self).spec_on_color(),
            final(self).spec_off_color() == old(self).spec_off_color(),
            final(self).spec_title() == old(self).spec_title(),
            final(self).dots_seq().len() == old(self).dots_seq().len(),
            forall|i: int|
                0 <= i < final(self).dots_seq().len() ==> (#[trigger] final(self).dots_seq()[i]).rect
                    == old(self).dots_seq()[i].rect && final(self).dots_seq()[i].on == bm.bits@[i],
            cmds@ == diff_cmds(
                old(self).dots_seq(),
                bm.bits@,
                old(self).spec_on_color(),
                old(self).spec_off_color(),
            ).push(DrawCmd::Present),
    {
        let n: usize = self.dots.len();
        let mut cmds: Vec<DrawCmd> = Vec::new();
        let mut new_dots: Vec<LcdDot> = Vec::new();
        let mut i: usize = 0;
        while i < n
            invariant
                i <= n,
                *self == *old(self),
                self.wf(),
                n == self.dots@.len(),
                bm.wf(),
                bm.rows == self.spec_rows(),
                bm.cols == self.spec_cols(),
                bm.bits@.len() == n,
                new_dots@.len() == i,
                forall|j: int|
                    0 <= j < i ==> (#[trigger] new_dots@[j]).rect == self.dots@[j].rect
                        && new_dots@[j].on == bm.bits@[j],
                cmds@ == diff_cmds_prefix(self.dots@, bm.bits@, i as int, self.on_color, self.off_color),
            decreases n - i,
        {
            let want = bm.bits[i];
            let dot = self.dots[i];
            if dot.on != want {
                cmds.push(
                    DrawCmd::Fill {
                        rect: dot.rect,
                        color: if want {
                            self.on_color
                        } else {
                            self.off_color
                        },
                    },
                );
            }
            new_dots.push(LcdDot { rect: dot.rect, on: want });
            i += 1;
        }
        self.dots = new_dots;
        cmds.push(DrawCmd::Present);
        cmds
    }

    /// The number of rows of dots.
    pub fn rows(&self) -> (n: usize)
        ensures
            n == self.spec_rows(),
    {
        self.rows
    }

    /// The number of columns of dots.
    pub fn cols(&self) -> (n: usize)
        ensures
            n == self.spec_cols(),
    {
        self.cols
    }

    /// The width of one dot in pixels.
    pub fn dot_width(&self) -> (w: u32)
        ensures
            w == self.spec_dot_width(),
    {
        self.dot_width
    }

    /// The height of one dot in pixels.
    pub fn dot_height(&self) -> (h: u32)
        ensures
            h == self.spec_dot_height(),
    {
        self.dot_height
    }

    /// The color of a dot that is on.
    pub fn on_color(&self) -> (c: Color)
        ensures
            c == self.spec_on_color(),
    {
        self.on_color
    }

    /// The color of a dot that is off.
    pub fn off_color(&self) -> (c: Color)
        ensures
            c == self.spec_off_color(),
    {
        self.off_color
    }

    /// The window title.
    pub fn title(&self) -> (t: &String)
        ensures
            t@ == self.spec_title(),
    {
        &self.title
    }

    /// The pixel size of the window the screen fills: columns times dot
    /// width across, rows times dot height down.
    pub fn window_size(&self) -> (size: (u32, u32))
        requires
            self.wf(),
        ensures
            size.0 == (self.spec_cols() as int) * (self.spec_dot_width() as int),
            size.1 == (self.spec_rows() as int) * (self.spec_dot_height() as int),
    {
        let width = (self.cols as u64) * (self.dot_width as u64);
        let height = (self.rows as u64) * (self.dot_height as u64);
        (width as u32, height as u32)
    }

    /// Whether the dot at (`r`, `c`) is currently on.
    pub fn dot_on(&self, r: usize, c: usize) -> (on: bool)
        requires
            self.wf(),
            r < self.spec_rows(),
            c < self.spec_cols(),
        ensures
            on == self.dots_seq()[r * self.spec_cols() + c].on,
    {
        proof {
            lemma_row_major_index(self.rows as int, self.cols as int, r as int, c as int);
        }
        // calling len bounds rows * cols by usize::MAX for the index arithmetic
        let _grid_len: usize = self.dots.len();
        self.dots[r * self.cols + c].on
    }

    /// The screen rectangle of the dot at (`r`, `c`): at pixel offset
    /// (`c * dot_width`, `r * dot_height`), one dot in size.
    pub fn dot_rect(&self, r: usize, c: usize) -> (rect: Rect)
        requires
            self.wf(),
            r < self.spec_rows(),
            c < self.spec_cols(),
        ensures
            rect_is_for(rect, r as int, c as int, self.spec_dot_width(), self.spec_dot_height()),
    {
        proof {
            lemma_row_major_index(self.rows as int, self.cols as int, r as int, c as int);
        }
        // calling len bounds rows * cols by usize::MAX for the index arithmetic
        let _grid_len: usize = self.dots.len();
        self.dots[r * self.cols + c].rect
    }
}

/// Diffing a prefix on which the stored states and the bitmap agree
/// everywhere produces no command.
proof fn lemma_diff_prefix_unchanged(
    dots: Seq<LcdDot>,
    bits: Seq<bool>,
    n: int,
    on_color: Color,
    off_color: Color,
)
    requires
        forall|j: int| 0 <= j < n ==> (#[trigger] dots[j]).on == bits[j],
    ensures
        diff_cmds_prefix(dots, bits, n, on_color, off_color) == Seq::<DrawCmd>::empty(),
    decreases n,
{
    if n > 0 {
        lemma_diff_prefix_unchanged(dots, bits, n - 1, on_color, off_color);
        assert(diff_cmds_prefix(dots, bits, n, on_color, off_color) =~= Seq::<DrawCmd>::empty());
    }
}

/// Diffing a prefix on which the stored states and the bitmap agree
/// everywhere but at index `k` produces no command while the prefix stays
/// within `k`, and exactly the one fill for dot `k` — its rectangle, in the
/// color of its new state — once the prefix passes `k`.
proof fn lemma_diff_prefix_single(
    dots: Seq<LcdDot>,
    bits: Seq<bool>,
    n: int,
    k: int,
    on_color: Color,
    off_color: Color,
)
    requires
        0 <= k,
        dots[k].on != bits[k],
        forall|j: int| 0 <= j < n && j != k ==> (#[trigger] dots[j]).on == bits[j],
    ensures
        n <= k ==> diff_cmds_prefix(dots, bits, n, on_color, off_color) == Seq::<DrawCmd>::empty(),
        n > k ==> diff_cmds_prefix(dots, bits, n, on_color, off_color) == seq![
            DrawCmd::Fill { rect: dots[k].rect, color: fill_color(bits[k], on_color, off_color) },
        ],
    decreases n,
{
    if n > 0 {
        lemma_diff_prefix_single(dots, bits, n - 1, k, on_color, off_color);
        if n <= k {
            assert(diff_cmds_prefix(dots, bits, n, on_color, off_color) =~= Seq::<DrawCmd>::empty());
        } else {
            assert(diff_cmds_prefix(dots, bits, n, on_color, off_color) =~= seq![
                DrawCmd::Fill { rect: dots[k].rect, color: fill_color(bits[k], on_color, off_color) },
            ]);
        }
    }
}

/// Law (idempotent redraw): drawing a bitmap that agrees with every dot's
/// current state issues no rectangle fill; the command batch of such a draw
/// is the single present, nothing more. Since `draw_bitmap` leaves every
/// dot's state equal to the bitmap it drew, drawing the same bitmap twice
/// issues zero fills on the second call — and still presents exactly once.
pub proof fn lemma_draw_same_bitmap_fills_nothing(screen: LcdScreen, bm: Bitmap)
    requires
        screen.wf(),
        bm.wf(),
        bm.rows == screen.spec_rows(),
        bm.cols == screen.spec_cols(),
        forall|i: int|
            0 <= i < screen.dots_seq().len() ==> (#[trigger] screen.dots_seq()[i]).on == bm.bits@[i],
    ensures
        diff_cmds(screen.dots_seq(), bm.bits@, screen.spec_on_color(), screen.spec_off_color())
            == Seq::<DrawCmd>::empty(),
        diff_cmds(screen.dots_seq(), bm.bits@, screen.spec_on_color(), screen.spec_off_color()).push(
            DrawCmd::Present,
        ) == seq![DrawCmd::Present],
{
    lemma_diff_prefix_unchanged(
        screen.dots_seq(),
        bm.bits@,
        screen.dots_seq().len() as int,
        screen.spec_on_color(),
        screen.spec_off_color(),
    );
    assert(Seq::<DrawCmd>::empty().push(DrawCmd::Present) =~= seq![DrawCmd::Present]);
}

/// Law (minimal redraw): when the bitmap disagrees with the stored state of
/// exactly one dot, at (`r`, `c`), the draw fills exactly that dot's
/// rectangle — with the off color if the dot turns off, the on color if it
/// turns on — and no other rectangle is touched.
pub proof fn lemma_single_change_single_fill(screen: LcdScreen, bm: Bitmap, r: int, c: int)
    requires
        screen.wf(),
        bm.wf(),
        bm.rows == screen.spec_rows(),
        bm.cols == screen.spec_cols(),
        0 <= r < screen.spec_rows(),
        0 <= c < screen.spec_cols(),
        screen.dots_seq()[r * screen.spec_cols() + c].on != bm.bits@[r * screen.spec_cols() + c],
        forall|i: int|
            0 <= i < screen.dots_seq().len() && i != r * screen.spec_cols() + c
                ==> (#[trigger] screen.dots_seq()[i]).on == bm.bits@[i],
    ensures
        diff_cmds(screen.dots_seq(), bm.bits@, screen.spec_on_color(), screen.spec_off_color())
            == seq![
            DrawCmd::Fill {
                rect: screen.dots_seq()[r * screen.spec_cols() + c].rect,
                color: fill_color(
                    bm.bits@[r * screen.spec_cols() + c],
                    screen.spec_on_color(),
                    screen.spec_off_color(),
                ),
            },
        ],
{
    lemma_row_major_index(screen.spec_rows() as int, screen.spec_cols() as int, r, c);
    lemma_diff_prefix_single(
        screen.dots_seq(),
        bm.bits@,
        screen.dots_seq().len() as int,
        r * screen.spec_cols() + c,
        screen.spec_on_color(),
        screen.spec_off_color(),
    );
}

/// Law (geometry round trip): on a well-formed screen, the dot at (`r`, `c`)
/// holds exactly the rectangle (`c * dot_width`, `r * dot_height`,
/// `dot_width`, `dot_height`), for every grid position.
pub proof fn lemma_dot_rect_round_trip(screen: LcdScreen, r: int, c: int)
    requires
        screen.wf(),
        0 <= r < screen.spec_rows(),
        0 <= c < screen.spec_cols(),
    ensures
        ({
            let rect = screen.dots_seq()[r * screen.spec_cols() + c].rect;
            &&& rect.x == c * screen.spec_dot_width()
            &&& rect.y == r * screen.spec_dot_height()
            &&& rect.w == screen.spec_dot_width()
            &&& rect.h == screen.spec_dot_height()
        }),
{
    lemma_row_major_index(screen.spec_rows() as int, screen.spec_cols() as int, r, c);
}

} // verus!
