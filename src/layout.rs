use vstd::prelude::*;

use crate::geometry::{Point, Size};

verus! {

/// Maps logical positions on the canvas to physical indices on the LED strip.
///
/// An implementation proves that its mapping is injective and that it maps
/// nothing outside its declared canvas.
pub trait Layout {
    /// The logical canvas.
    spec fn spec_size(&self) -> Size;

    /// The physical index of `p`, or `None` where `p` has no LED.
    spec fn spec_map(&self, p: Point) -> Option<nat>;

    /// Returns the physical index of `p`, or `None` where `p` has no LED.
    fn map(&self, p: Point) -> (r: Option<usize>)
        ensures
            r is Some <==> self.spec_map(p) is Some,
            r is Some ==> self.spec_map(p) == Some(r->0 as nat),
    ;

    /// Returns the logical canvas.
    fn size(&self) -> (s: Size)
        ensures
            s == self.spec_size(),
    ;

    /// Two distinct positions never share a physical index.
    proof fn lemma_map_injective(&self, p: Point, q: Point)
        requires
            p != q,
            self.spec_map(p) is Some,
        ensures
            self.spec_map(p) != self.spec_map(q),
    ;

    /// A position outside the canvas maps to no LED.
    proof fn lemma_map_outside_canvas(&self, p: Point)
        requires
            !self.spec_size().contains(p),
        ensures
            self.spec_map(p) is None,
    ;
}

/// The row that a position on row `y` lands on, counted in wiring order.
pub open spec fn wired_row(height: u32, invert_y: bool, y: int) -> int {
    if invert_y {
        height - 1 - y
    } else {
        y
    }
}

proof fn lemma_row_major_injective(w: int, r1: int, x1: int, r2: int, x2: int)
    requires
        0 <= x1 < w,
        0 <= x2 < w,
        0 <= r1,
        0 <= r2,
        r1 * w + x1 == r2 * w + x2,
    ensures
        r1 == r2 && x1 == x2,
{
    if r1 < r2 {
        assert(r1 * w + w <= r2 * w) by (nonlinear_arith)
            requires
                r1 < r2,
                0 <= w,
        ;
    } else if r2 < r1 {
        assert(r2 * w + w <= r1 * w) by (nonlinear_arith)
            requires
                r2 < r1,
                0 <= w,
        ;
    }
}

proof fn lemma_row_major_bound(w: int, h: int, r: int, x: int)
    requires
        0 <= x < w,
        0 <= r < h,
    ensures
        0 <= r * w + x < w * h,
{
    assert(r * w + x < w * h) by (nonlinear_arith)
        requires
            0 <= x < w,
            0 <= r < h,
    ;
    assert(0 <= r * w) by (nonlinear_arith)
        requires
            0 <= r,
            0 <= w,
    ;
}

/// A rectangular grid wired row by row, first row first (identity), or last
/// row first (inverted y).
#[derive(Clone, Copy, Debug, PartialEq, Eq)]
pub struct Rectangular {
    size: Size,
    invert_y: bool,
}

impl Rectangular {
    #[verifier::type_invariant]
    spec fn inv(self) -> bool {
        self.size.width as int * self.size.height as int <= usize::MAX
    }

    /// Whether the rows are wired last row first.
    pub closed spec fn inverts_y(self) -> bool {
        self.invert_y
    }

    /// A grid whose physical index of `(x, y)` is `y * width + x`.
    pub fn new(width: u32, height: u32) -> (r: Rectangular)
        requires
            width as int * height as int <= usize::MAX,
        ensures
            r.spec_size() == (Size { width, height }),
            !r.inverts_y(),
    {
        Rectangular { size: Size { width, height }, invert_y: false }
    }

    /// A grid whose physical index of `(x, y)` is `(height - 1 - y) * width + x`:
    /// the bottom logical row is the first physical segment.
    pub fn new_invert_y(width: u32, height: u32) -> (r: Rectangular)
        requires
            width as int * height as int <= usize::MAX,
        ensures
            r.spec_size() == (Size { width, height }),
            r.inverts_y(),
    {
        Rectangular { size: Size { width, height }, invert_y: true }
    }
}

impl Layout for Rectangular {
    closed spec fn spec_size(&self) -> Size {
        self.size
    }

    open spec fn spec_map(&self, p: Point) -> Option<nat> {
        let size = self.spec_size();
        if size.contains(p) {
            let row = wired_row(size.height, self.inverts_y(), p.y as int);
            Some((row * size.width + p.x) as nat)
        } else {
            None
        }
    }

    fn map(&self, p: Point) -> (r: Option<usize>) {
        proof {
            use_type_invariant(self);
        }
        if p.x < 0 || p.y < 0 || p.x as u32 >= self.size.width || p.y as u32 >= self.size.height {
            return None;
        }
        let w = self.size.width as usize;
        let y = p.y as u32;
        let row: u32 = if self.invert_y {
            self.size.height - 1 - y
        } else {
            y
        };
        proof {
            lemma_row_major_bound(w as int, self.size.height as int, row as int, p.x as int);
        }
        Some(row as usize * w + p.x as usize)
    }

    fn size(&self) -> (s: Size) {
        self.size
    }

    proof fn lemma_map_injective(&self, p: Point, q: Point) {
        if self.spec_map(q) is Some && self.spec_map(p) == self.spec_map(q) {
            let h = self.size.height;
            let w = self.size.width as int;
            let r1 = wired_row(h, self.invert_y, p.y as int);
            let r2 = wired_row(h, self.invert_y, q.y as int);
            lemma_row_major_injective(w, r1, p.x as int, r2, q.x as int);
        }
    }

    proof fn lemma_map_outside_canvas(&self, p: Point) {
    }
}

/// The physical index of the first LED of row `n`: the sum of the first `n`
/// row lengths.
pub open spec fn row_start(rows: Seq<u32>, n: int) -> int
    decreases n,
{
    if n <= 0 {
        0
    } else {
        row_start(rows, n - 1) + rows[n - 1]
    }
}

/// The longest of the first `n` row lengths (0 for no rows).
pub open spec fn widest(rows: Seq<u32>, n: int) -> u32
    decreases n,
{
    if n <= 0 {
        0
    } else if widest(rows, n - 1) < rows[n - 1] {
        rows[n - 1]
    } else {
        widest(rows, n - 1)
    }
}

proof fn lemma_row_start_monotone(rows: Seq<u32>, i: int, j: int)
    requires
        0 <= i <= j,
    ensures
        row_start(rows, i) <= row_start(rows, j),
    decreases j - i,
{
    if i < j {
        lemma_row_start_monotone(rows, i, j - 1);
    }
}

proof fn lemma_widest_bounds(rows: Seq<u32>, n: int, y: int)
    requires
        0 <= y < n,
    ensures
        rows[y] <= widest(rows, n),
    decreases n,
{
    if y < n - 1 {
        lemma_widest_bounds(rows, n - 1, y);
    }
}

/// A layout of rows of differing lengths, wired row after row, each row from
/// its left end. The canvas is as wide as the longest row.
#[derive(Debug)]
pub struct RowLayout {
    rows: Vec<u32>,
    starts: Vec<usize>,
    width: u32,
}

impl RowLayout {
    #[verifier::type_invariant]
    spec fn inv(self) -> bool {
        &&& self.rows@.len() <= u32::MAX
        &&& self.starts@.len() == self.rows@.len() + 1
        &&& forall|i: int|
            0 <= i <= self.rows@.len() ==> #[trigger] self.starts@[i] == row_start(self.rows@, i)
        &&& self.width == widest(self.rows@, self.rows@.len() as int)
    }

    /// The number of LEDs on each row, top row first.
    pub closed spec fn row_lengths(self) -> Seq<u32> {
        self.rows@
    }

    /// Builds the layout of the given row lengths. Returns `None` where the
    /// rows cannot be addressed: more rows than a `u32` counts, or more LEDs in
    /// all than a `usize` indexes.
    pub fn new(row_lengths: Vec<u32>) -> (r: Option<RowLayout>)
        ensures
            r is Some <==> (row_lengths@.len() <= u32::MAX && row_start(
                row_lengths@,
                row_lengths@.len() as int,
            ) <= usize::MAX),
            r is Some ==> r->0.row_lengths() == row_lengths@,
            r is Some ==> r->0.spec_size() == (Size {
                width: widest(row_lengths@, row_lengths@.len() as int),
                height: row_lengths@.len() as u32,
            }),
    {
        if row_lengths.len() > u32::MAX as usize {
            return None;
        }
        let mut starts: Vec<usize> = Vec::new();
        starts.push(0);
        let mut width: u32 = 0;
        let mut i: usize = 0;
        while i < row_lengths.len()
            invariant
                i <= row_lengths@.len() <= u32::MAX,
                starts@.len() == i + 1,
                forall|k: int| 0 <= k <= i ==> #[trigger] starts@[k] == row_start(row_lengths@, k),
                width == widest(row_lengths@, i as int),
            decreases row_lengths@.len() - i,
        {
            let last = starts[i];
            let len = row_lengths[i];
            match last.checked_add(len as usize) {
                Some(next) => {
                    starts.push(next);
                },
                None => {
                    proof {
                        lemma_row_start_monotone(
                            row_lengths@,
                            i as int + 1,
                            row_lengths@.len() as int,
                        );
                    }
                    return None;
                },
            }
            if width < len {
                width = len;
            }
            i = i + 1;
        }
        assert(starts@[i as int] == row_start(row_lengths@, i as int));
        Some(RowLayout { rows: row_lengths, starts, width })
    }
}

impl Layout for RowLayout {
    closed spec fn spec_size(&self) -> Size {
        Size { width: self.width, height: self.rows@.len() as u32 }
    }

    open spec fn spec_map(&self, p: Point) -> Option<nat> {
        let rows = self.row_lengths();
        if self.spec_size().contains(p) && p.x < rows[p.y as int] {
            Some((row_start(rows, p.y as int) + p.x) as nat)
        } else {
            None
        }
    }

    fn map(&self, p: Point) -> (r: Option<usize>) {
        proof {
            use_type_invariant(self);
        }
        if p.x < 0 || p.y < 0 {
            return None;
        }
        let y = p.y as usize;
        if y >= self.rows.len() {
            return None;
        }
        let x = p.x as u32;
        if x >= self.rows[y] {
            return None;
        }
        proof {
            lemma_widest_bounds(self.rows@, self.rows@.len() as int, y as int);
            assert(self.starts@[y as int + 1] == row_start(self.rows@, y as int + 1));
        }
        Some(self.starts[y] + x as usize)
    }

    fn size(&self) -> (s: Size) {
        proof {
            use_type_invariant(self);
        }
        Size { width: self.width, height: self.rows.len() as u32 }
    }

    proof fn lemma_map_injective(&self, p: Point, q: Point) {
        let rows = self.row_lengths();
        if self.spec_map(q) is Some && self.spec_map(p) == self.spec_map(q) {
            lemma_row_start_monotone(rows, 0, p.y as int);
            lemma_row_start_monotone(rows, 0, q.y as int);
            if p.y < q.y {
                assert(row_start(rows, p.y + 1) == row_start(rows, p.y as int) + rows[p.y as int]);
                lemma_row_start_monotone(rows, p.y as int + 1, q.y as int);
            } else if q.y < p.y {
                assert(row_start(rows, q.y + 1) == row_start(rows, q.y as int) + rows[q.y as int]);
                lemma_row_start_monotone(rows, q.y as int + 1, p.y as int);
            }
        }
    }

    proof fn lemma_map_outside_canvas(&self, p: Point) {
    }
}

} // verus!
