use vstd::prelude::*;

use crate::buffer::{black_cells, PixelBuffer};
use crate::color::{Pixel, Rgb};
use crate::geometry::Size;
use crate::layout::Layout;
use crate::paint::{lemma_paint_len, paint, paint_pixel};

verus! {

/// What drives the LED strip: it sends an ordered sequence of colors over its
/// bus and reports whether that failed.
pub trait ColorTransport {
    /// Why a write failed.
    type Error;

    /// Sends `colors`, first to last, to the strip.
    fn write(&mut self, colors: &[Rgb]) -> Result<(), Self::Error>;
}

/// What a flush hands to the transport: every cell, in physical order, scaled
/// by `brightness / 255`.
pub open spec fn frame_of(cells: Seq<Rgb>, brightness: u8) -> Seq<Rgb> {
    Seq::new(cells.len(), |i: int| cells[i].scaled_spec(brightness))
}

/// A drawing surface over an LED strip of `N` LEDs, wired as `layout` says.
pub struct SmartLedMatrix<T, L, const N: usize> {
    writer: T,
    layout: L,
    content: PixelBuffer,
    brightness: u8,
    sent: Ghost<Seq<Seq<Rgb>>>,
}

impl<T, L, const N: usize> SmartLedMatrix<T, L, N> {
    /// The colors drawn so far, one per LED, in physical order.
    pub closed spec fn cells(&self) -> Seq<Rgb> {
        self.content@
    }

    /// The brightness that the next flush applies.
    pub closed spec fn spec_brightness(&self) -> u8 {
        self.brightness
    }

    /// The layout that positions are mapped through.
    pub closed spec fn spec_layout(&self) -> L {
        self.layout
    }

    /// Every frame handed to the transport so far, oldest first.
    pub closed spec fn transmitted(&self) -> Seq<Seq<Rgb>> {
        self.sent@
    }

    /// One cell per LED.
    pub open spec fn wf(&self) -> bool {
        self.cells().len() == N
    }

    pub fn set_brightness(&mut self, new_brightness: u8)
        ensures
            final(self).spec_brightness() == new_brightness,
            final(self).cells() == old(self).cells(),
            final(self).spec_layout() == old(self).spec_layout(),
            final(self).transmitted() == old(self).transmitted(),
    {
        self.brightness = new_brightness;
    }

    pub fn brightness(&self) -> (b: u8)
        ensures
            b == self.spec_brightness(),
    {
        self.brightness
    }

    /// The colors drawn so far, unscaled, in physical order.
    pub fn content(&self) -> (c: &[Rgb])
        ensures
            c@ == self.cells(),
    {
        self.content.as_slice()
    }
}

impl<T, L: Layout, const N: usize> SmartLedMatrix<T, L, N> {
    /// The logical canvas, as the layout reports it.
    pub fn size(&self) -> (s: Size)
        ensures
            s == self.spec_layout().spec_size(),
    {
        self.layout.size()
    }

    /// Draws one pixel: where its position maps to a cell, that cell takes its
    /// color; otherwise nothing changes.
    pub fn draw_pixel(&mut self, pixel: Pixel)
        ensures
            final(self).cells() == paint_pixel(old(self).spec_layout(), old(self).cells(), pixel),
            final(self).spec_brightness() == old(self).spec_brightness(),
            final(self).spec_layout() == old(self).spec_layout(),
            final(self).transmitted() == old(self).transmitted(),
    {
        if let Some(index) = self.layout.map(pixel.0) {
            if index < self.content.len() {
                self.content.set(index, pixel.1);
            }
        }
    }

    /// Draws `pixels` in order. Positions that map to no cell are skipped, and
    /// a later pixel overwrites an earlier one at the same position.
    pub fn draw_iter(&mut self, pixels: &[Pixel])
        ensures
            final(self).cells() == paint(old(self).spec_layout(), old(self).cells(), pixels@),
            final(self).cells().len() == old(self).cells().len(),
            final(self).spec_brightness() == old(self).spec_brightness(),
            final(self).spec_layout() == old(self).spec_layout(),
            final(self).transmitted() == old(self).transmitted(),
    {
        let mut k: usize = 0;
        while k < pixels.len()
            invariant
                k <= pixels@.len(),
                self.cells() == paint(old(self).spec_layout(), old(self).cells(), pixels@.take(k as int)),
                self.spec_brightness() == old(self).spec_brightness(),
                self.spec_layout() == old(self).spec_layout(),
                self.transmitted() == old(self).transmitted(),
            decreases pixels@.len() - k,
        {
            proof {
                let next = pixels@.take(k + 1);
                assert(next.drop_last() =~= pixels@.take(k as int));
                assert(next.last() == pixels@[k as int]);
            }
            self.draw_pixel(pixels[k]);
            k = k + 1;
        }
        proof {
            assert(pixels@.take(k as int) =~= pixels@);
            lemma_paint_len(old(self).spec_layout(), old(self).cells(), pixels@);
        }
    }
}

impl<T: ColorTransport, L: Layout, const N: usize> SmartLedMatrix<T, L, N> {
    /// A matrix of `N` black cells at full brightness. Nothing is sent.
    pub fn new(writer: T, layout: L) -> (m: Self)
        ensures
            m.cells() == black_cells(N as nat),
            m.wf(),
            m.spec_brightness() == 255,
            m.spec_layout() == layout,
            m.transmitted() == Seq::<Seq<Rgb>>::empty(),
    {
        SmartLedMatrix {
            writer,
            layout,
            content: PixelBuffer::new(N),
            brightness: 255,
            sent: Ghost(Seq::empty()),
        }
    }

    /// The colors that a flush sends now: every cell scaled by the brightness.
    pub fn frame(&self) -> (f: Vec<Rgb>)
        ensures
            f@ == frame_of(self.cells(), self.spec_brightness()),
    {
        let cells = self.content.as_slice();
        let mut out: Vec<Rgb> = Vec::new();
        let mut i: usize = 0;
        while i < cells.len()
            invariant
                i <= cells@.len(),
                cells@ == self.cells(),
                out@ =~= frame_of(cells@, self.spec_brightness()).take(i as int),
            decreases cells@.len() - i,
        {
            out.push(cells[i].scaled(self.brightness));
            i = i + 1;
        }
        proof {
            assert(out@ =~= frame_of(self.cells(), self.spec_brightness()));
        }
        out
    }

    /// Sends every cell, scaled by the brightness, to the transport and returns
    /// what the transport reported. The cells are kept either way, so a flush
    /// after a failed one sends the same colors again.
    pub fn flush(&mut self) -> (r: Result<(), T::Error>)
        ensures
            final(self).transmitted() == old(self).transmitted().push(
                frame_of(old(self).cells(), old(self).spec_brightness()),
            ),
            final(self).cells() == old(self).cells(),
            final(self).spec_brightness() == old(self).spec_brightness(),
            final(self).spec_layout() == old(self).spec_layout(),
    {
        let frame = self.frame();
        let r = self.writer.write(frame.as_slice());
        self.sent = Ghost(self.sent@.push(frame@));
        r
    }
}

} // verus!
