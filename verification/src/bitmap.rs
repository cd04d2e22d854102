//! Bitmaps: the caller-supplied on/off matrix drawn onto a screen.

use vstd::prelude::*;
use vstd::pervasive::VecAdditionalExecFns;

use crate::geometry::lemma_row_major_index;

verus! {

/// A rectangular boolean matrix, stored row-major in a single flat buffer,
/// describing the desired on/off state of every dot of a screen for one
/// frame.
///
/// A bitmap is not owned by a screen; it is built by the caller and borrowed
/// for each draw call. Its shape must match the screen it is drawn onto; the
/// draw operation states that as a contract on the caller rather than
/// checking it at run time.
pub struct Bitmap {
    /// The number of rows.
    pub rows: usize,
    /// The number of columns.
    pub cols: usize,
    /// The cells in row-major order; the cell at (`r`, `c`) is at index
    /// `r * cols + c`.
    pub bits: Vec<bool>,
}

impl Bitmap {
    /// Well-formedness: the flat buffer holds exactly one cell per grid
    /// position.
    pub open spec fn wf(&self) -> bool {
        self.bits@.len() == (self.rows as int) * (self.cols as int)
    }

    /// The cell at row `r`, column `c`.
    pub open spec fn bit(&self, r: int, c: int) -> bool {
        self.bits@[r * (self.cols as int) + c]
    }

    /// Builds an all-off bitmap of the given shape.
    pub fn new(rows: usize, cols: usize) -> (bm: Bitmap)
        ensures
            bm.wf(),
            bm.rows == rows,
            bm.cols == cols,
            forall|r: int, c: int| 0 <= r < rows && 0 <= c < cols ==> !bm.bit(r, c),
    {
        let mut bits: Vec<bool> = Vec::new();
        let mut r: usize = 0;
        while r < rows
            invariant
                r <= rows,
                bits@.len() == r * (cols as int),
                forall|i: int| 0 <= i < bits@.len() ==> !bits@[i],
            decreases rows - r,
        {
            let mut c: usize = 0;
            while c < cols
                invariant
                    c <= cols,
                    bits@.len() == r * (cols as int) + c,
                    forall|i: int| 0 <= i < bits@.len() ==> !bits@[i],
                decreases cols - c,
            {
                bits.push(false);
                c += 1;
            }
            r += 1;
            proof {
                assert((r - 1) * (cols as int) + (cols as int) == r * (cols as int)) by (nonlinear_arith);
            }
        }
        let bm = Bitmap { rows, cols, bits };
        proof {
            assert forall|rr: int, cc: int| 0 <= rr < rows && 0 <= cc < cols implies !bm.bit(rr, cc) by {
                lemma_row_major_index(rows as int, cols as int, rr, cc);
            }
        }
        bm
    }

    /// Builds a bitmap from rows of cells. Returns the bitmap exactly when
    /// every row has the same length; returns `None` on ragged input.
    pub fn from_rows(data: &Vec<Vec<bool>>) -> (result: Option<Bitmap>)
        ensures
            result is Some <==> (forall|r: int| 0 <= r < data@.len() ==> #[trigger] data@[r]@.len() == data@[0]@.len()),
            result matches Some(bm) ==> {
                &&& bm.wf()
                &&& bm.rows == data@.len()
                &&& bm.cols == if data@.len() == 0 { 0int } else { data@[0]@.len() as int }
                &&& forall|r: int, c: int| 0 <= r < bm.rows && 0 <= c < bm.cols ==> bm.bit(r, c) == data@[r]@[c]
            },
    {
        let rows = data.len();
        let cols = if rows == 0 { 0 } else { data[0].len() };
        let mut bits: Vec<bool> = Vec::new();
        let mut r: usize = 0;
        while r < rows
            invariant
                r <= rows,
                rows == data@.len(),
                cols as int == if rows == 0 { 0int } else { data@[0]@.len() as int },
                bits@.len() == r * (cols as int),
                forall|i: int| 0 <= i < r ==> #[trigger] data@[i]@.len() == cols as int,
                forall|i: int| 0 <= i < bits@.len()
                    ==> #[trigger] bits@[i] == data@[i / (cols as int)]@[i % (cols as int)],
            decreases rows - r,
        {
            let row = &data[r];
            if row.len() != cols {
                return None;
            }
            let mut c: usize = 0;
            while c < cols
                invariant
                    c <= cols,
                    r < rows,
                    rows == data@.len(),
                    row@ == data@[r as int]@,
                    data@[r as int]@.len() == cols as int,
                    bits@.len() == r * (cols as int) + c,
                    forall|i: int| 0 <= i < r * (cols as int)
                        ==> #[trigger] bits@[i] == data@[i / (cols as int)]@[i % (cols as int)],
                    forall|i: int| r * (cols as int) <= i < bits@.len()
                        ==> #[trigger] bits@[i] == data@[r as int]@[i - r * (cols as int)],
                decreases cols - c,
            {
                bits.push(row[c]);
                c += 1;
            }
            r += 1;
            proof {
                assert((r - 1) * (cols as int) + (cols as int) == r * (cols as int)) by (nonlinear_arith);
                assert forall|i: int| (r - 1) * (cols as int) <= i < r * (cols as int)
                    implies #[trigger] bits@[i] == data@[i / (cols as int)]@[i % (cols as int)] by {
                    vstd::arithmetic::div_mod::lemma_fundamental_div_mod_converse(
                        i,
                        cols as int,
                        r - 1,
                        i - (r - 1) * (cols as int),
                    );
                }
            }
        }
        let bm = Bitmap { rows, cols, bits };
        proof {
            assert forall|rr: int, cc: int| 0 <= rr < rows && 0 <= cc < cols implies bm.bit(rr, cc) == data@[rr]@[cc] by {
                lemma_row_major_index(rows as int, cols as int, rr, cc);
            }
        }
        Some(bm)
    }

    /// Reads the cell at row `r`, column `c`.
    pub fn get(&self, r: usize, c: usize) -> (value: bool)
        requires
            self.wf(),
            r < self.rows,
            c < self.cols,
        ensures
            value == self.bit(r as int, c as int),
    {
        proof {
            lemma_row_major_index(self.rows as int, self.cols as int, r as int, c as int);
        }
        // calling len bounds rows * cols by usize::MAX for the index arithmetic
        let _buffer_len: usize = self.bits.len();
        self.bits[r * self.cols + c]
    }

    /// Writes the cell at row `r`, column `c`, leaving every other cell and
    /// the shape unchanged.
    pub fn set(&mut self, r: usize, c: usize, value: bool)
        requires
            old(self).wf(),
            r < old(self).rows,
            c < old(self).cols,
        ensures
            final(self).wf(),
            final(self).rows == old(self).rows,
            final(self).cols == old(self).cols,
            final(self).bit(r as int, c as int) == value,
            forall|rr: int, cc: int|
                0 <= rr < final(self).rows && 0 <= cc < final(self).cols && !(rr == r && cc == c)
                    ==> final(self).bit(rr, cc) == old(self).bit(rr, cc),
    {
        proof {
            lemma_row_major_index(self.rows as int, self.cols as int, r as int, c as int);
        }
        // calling len bounds rows * cols by usize::MAX for the index arithmetic
        let _buffer_len: usize = self.bits.len();
        self.bits.set(r * self.cols + c, value);
        proof {
            assert forall|rr: int, cc: int|
                0 <= rr < self.rows && 0 <= cc < self.cols && !(rr == r && cc == c)
                    implies self.bit(rr, cc) == old(self).bit(rr, cc) by {
                lemma_row_major_index(self.rows as int, self.cols as int, rr, cc);
                lemma_row_major_index(self.rows as int, self.cols as int, r as int, c as int);
            }
        }
    }
}

} // verus!
