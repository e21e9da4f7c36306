use vstd::prelude::*;

verus! {

/// Row `r`, column `c` sits at flat position `r * w + c` of a buffer `w` cells wide.
pub open spec fn flat_index(w: int, r: int, c: int) -> int {
    r * w + c
}

/// Inside a `w` by `h` grid, distinct cells have distinct flat positions, and
/// every flat position lies below `w * h`.
pub proof fn lemma_flat_index(w: int, h: int, r: int, c: int)
    requires
        0 <= r < h,
        0 <= c < w,
    ensures
        0 <= flat_index(w, r, c) < w * h,
        flat_index(w, r, c) + w - c <= w * h,
        forall|r2: int, c2: int|
            0 <= r2 < h && 0 <= c2 < w && (r2 != r || c2 != c) ==> #[trigger] flat_index(w, r2, c2)
                != flat_index(w, r, c),
{
    assert(r * w + w <= w * h) by (nonlinear_arith)
        requires
            0 <= r < h,
            0 <= c < w,
    ;
    assert forall|r2: int, c2: int|
        0 <= r2 < h && 0 <= c2 < w && (r2 != r || c2 != c) implies #[trigger] flat_index(w, r2, c2)
            != flat_index(w, r, c) by {
        if r2 == r {
        } else if r2 < r {
            assert(r2 * w + w <= r * w) by (nonlinear_arith)
                requires
                    r2 < r,
                    0 <= w,
            ;
        } else {
            assert(r * w + w <= r2 * w) by (nonlinear_arith)
                requires
                    r < r2,
                    0 <= w,
            ;
        }
    }
}

/// A grid of `w` by `h` cells, stored as one flat sequence in row-major order.
/// The dimensions are fixed when the canvas is made.
pub struct Canvas<T> {
    w: usize,
    h: usize,
    pixels: Vec<T>,
}

impl<T: Copy> Canvas<T> {
    /// Number of columns.
    pub closed spec fn width(&self) -> nat {
        self.w as nat
    }

    /// Number of rows.
    pub closed spec fn height(&self) -> nat {
        self.h as nat
    }

    /// All cells, row after row.
    pub closed spec fn cells(&self) -> Seq<T> {
        self.pixels@
    }

    /// The buffer holds exactly one cell per (row, column) pair, and their
    /// number fits in a `usize`.
    pub open spec fn wf(&self) -> bool {
        &&& self.cells().len() == self.width() * self.height()
        &&& self.width() * self.height() <= usize::MAX
    }

    pub open spec fn in_bounds(&self, r: int, c: int) -> bool {
        0 <= r < self.height() && 0 <= c < self.width()
    }

    /// The cell at row `r`, column `c`.
    pub open spec fn cell(&self, r: int, c: int) -> T {
        self.cells()[flat_index(self.width() as int, r, c)]
    }

    /// The `w` cells of row `r`, left to right.
    pub open spec fn row_cells(&self, r: int) -> Seq<T> {
        self.cells().subrange(
            flat_index(self.width() as int, r, 0),
            flat_index(self.width() as int, r, self.width() as int),
        )
    }

    /// A canvas of `w` columns and `h` rows with every cell set to `fill`.
    /// A zero dimension gives an empty canvas with no cell to index.
    pub fn new(w: usize, h: usize, fill: T) -> (canvas: Self)
        requires
            w * h <= usize::MAX,
        ensures
            canvas.wf(),
            canvas.width() == w,
            canvas.height() == h,
            forall|r: int, c: int| canvas.in_bounds(r, c) ==> #[trigger] canvas.cell(r, c) == fill,
            forall|i: int| 0 <= i < canvas.cells().len() ==> #[trigger] canvas.cells()[i] == fill,
    {
        let n: usize = w * h;
        let mut pixels: Vec<T> = Vec::with_capacity(n);
        let mut i: usize = 0;
        while i < n
            invariant
                i <= n,
                pixels@.len() == i,
                forall|j: int| 0 <= j < i ==> #[trigger] pixels@[j] == fill,
            decreases n - i,
        {
            pixels.push(fill);
            i = i + 1;
        }
        let canvas = Canvas { w, h, pixels };
        assert forall|r: int, c: int| canvas.in_bounds(r, c) implies #[trigger] canvas.cell(r, c)
            == fill by {
            lemma_flat_index(w as int, h as int, r, c);
        }
        canvas
    }

    /// Number of columns.
    pub fn w(&self) -> (r: usize)
        ensures
            r == self.width(),
    {
        self.w
    }

    /// Number of rows.
    pub fn h(&self) -> (r: usize)
        ensures
            r == self.height(),
    {
        self.h
    }

    /// The whole buffer, in row-major order.
    pub fn pixels(&self) -> (r: &Vec<T>)
        ensures
            r@ == self.cells(),
    {
        &self.pixels
    }

    /// The cells of row `r`, left to right.
    pub fn row(&self, r: usize) -> (out: &[T])
        requires
            self.wf(),
            r < self.height(),
        ensures
            out@ == self.row_cells(r as int),
            out@.len() == self.width(),
    {
        if self.w == 0 {
            return vstd::slice::slice_subrange(self.pixels.as_slice(), 0, 0);
        }
        proof {
            lemma_flat_index(self.w as int, self.h as int, r as int, 0);
        }
        let start: usize = r * self.w;
        vstd::slice::slice_subrange(self.pixels.as_slice(), start, start + self.w)
    }

    /// The cell at row `r`, column `c`.
    pub fn get(&self, r: usize, c: usize) -> (out: T)
        requires
            self.wf(),
            self.in_bounds(r as int, c as int),
        ensures
            out == self.cell(r as int, c as int),
    {
        proof {
            lemma_flat_index(self.w as int, self.h as int, r as int, c as int);
        }
        self.pixels[r * self.w + c]
    }

    /// Writes `value` into row `r`, column `c`; every other cell keeps its value.
    pub fn set(&mut self, r: usize, c: usize, value: T)
        requires
            old(self).wf(),
            old(self).in_bounds(r as int, c as int),
        ensures
            final(self).wf(),
            final(self).width() == old(self).width(),
            final(self).height() == old(self).height(),
            final(self).cells() == old(self).cells().update(
                flat_index(old(self).width() as int, r as int, c as int),
                value,
            ),
            final(self).cell(r as int, c as int) == value,
            forall|r2: int, c2: int|
                old(self).in_bounds(r2, c2) && (r2 != r || c2 != c) ==> #[trigger] final(self).cell(
                    r2,
                    c2,
                ) == old(self).cell(r2, c2),
    {
        proof {
            lemma_flat_index(self.w as int, self.h as int, r as int, c as int);
        }
        let i: usize = r * self.w + c;
        self.pixels.set(i, value);
        assert forall|r2: int, c2: int|
            old(self).in_bounds(r2, c2) && (r2 != r || c2 != c) implies #[trigger] self.cell(r2, c2)
            == old(self).cell(r2, c2) by {
            lemma_flat_index(self.w as int, self.h as int, r2, c2);
        }
    }
}

} // verus!
