use vstd::prelude::*;

use crate::color::Rgb;

verus! {

/// The all-black content of `n` cells.
pub open spec fn black_cells(n: nat) -> Seq<Rgb> {
    Seq::new(n, |_i: int| Rgb { r: 0, g: 0, b: 0 })
}

/// One color per LED, in the strip's physical order. Its length is fixed when
/// it is made.
#[derive(Debug)]
pub struct PixelBuffer {
    cells: Vec<Rgb>,
}

impl View for PixelBuffer {
    type V = Seq<Rgb>;

    closed spec fn view(&self) -> Seq<Rgb> {
        self.cells@
    }
}

impl PixelBuffer {
    /// A buffer of `capacity` black cells.
    pub fn new(capacity: usize) -> (b: PixelBuffer)
        ensures
            b@ == black_cells(capacity as nat),
    {
        let mut cells: Vec<Rgb> = Vec::new();
        let mut i: usize = 0;
        while i < capacity
            invariant
                i <= capacity,
                cells@ == black_cells(i as nat),
            decreases capacity - i,
        {
            cells.push(Rgb::new(0, 0, 0));
            i = i + 1;
            assert(cells@ =~= black_cells(i as nat));
        }
        PixelBuffer { cells }
    }

    /// The number of cells.
    pub fn len(&self) -> (n: usize)
        ensures
            n == self@.len(),
    {
        self.cells.len()
    }

    /// The color of cell `index`, or `None` past the end.
    pub fn get(&self, index: usize) -> (c: Option<Rgb>)
        ensures
            index < self@.len() ==> c == Some(self@[index as int]),
            index >= self@.len() ==> c is None,
    {
        if index < self.cells.len() {
            Some(self.cells[index])
        } else {
            None
        }
    }

    /// Overwrites cell `index` with `color`.
    pub fn set(&mut self, index: usize, color: Rgb)
        requires
            index < old(self)@.len(),
        ensures
            final(self)@ == old(self)@.update(index as int, color),
    {
        self.cells.set(index, color);
    }

    /// The cells in physical order.
    pub fn as_slice(&self) -> (s: &[Rgb])
        ensures
            s@ == self@,
    {
        self.cells.as_slice()
    }
}

} // verus!
