use vstd::prelude::*;

use crate::color::{Pixel, Rgb};
use crate::layout::Layout;

verus! {

/// The cells after drawing `px`: the cell that its position maps to takes its
/// color; a position with no LED, or one past the end of the cells, changes
/// nothing.
pub open spec fn paint_pixel<L: Layout>(layout: L, cells: Seq<Rgb>, px: Pixel) -> Seq<Rgb> {
    match layout.spec_map(px.0) {
        Some(i) => if i < cells.len() {
            cells.update(i as int, px.1)
        } else {
            cells
        },
        None => cells,
    }
}

/// The cells after drawing `pixels` in order.
pub open spec fn paint<L: Layout>(layout: L, cells: Seq<Rgb>, pixels: Seq<Pixel>) -> Seq<Rgb>
    decreases pixels.len(),
{
    if pixels.len() == 0 {
        cells
    } else {
        paint_pixel(layout, paint(layout, cells, pixels.drop_last()), pixels.last())
    }
}

/// Drawing never changes the number of cells.
pub proof fn lemma_paint_len<L: Layout>(layout: L, cells: Seq<Rgb>, pixels: Seq<Pixel>)
    ensures
        paint(layout, cells, pixels).len() == cells.len(),
    decreases pixels.len(),
{
    if pixels.len() > 0 {
        lemma_paint_len(layout, cells, pixels.drop_last());
    }
}

/// Drawing two streams one after the other is drawing their concatenation.
pub proof fn lemma_paint_concat<L: Layout>(
    layout: L,
    cells: Seq<Rgb>,
    first: Seq<Pixel>,
    second: Seq<Pixel>,
)
    ensures
        paint(layout, paint(layout, cells, first), second) == paint(layout, cells, first + second),
    decreases second.len(),
{
    if second.len() == 0 {
        assert(first + second =~= first);
    } else {
        lemma_paint_concat(layout, cells, first, second.drop_last());
        assert((first + second).drop_last() =~= first + second.drop_last());
        assert((first + second).last() == second.last());
    }
}

/// A cell that no drawn position maps to keeps its color.
pub proof fn lemma_paint_untouched<L: Layout>(
    layout: L,
    cells: Seq<Rgb>,
    pixels: Seq<Pixel>,
    i: int,
)
    requires
        0 <= i < cells.len(),
        forall|j: int|
            0 <= j < pixels.len() ==> layout.spec_map(#[trigger] pixels[j].0) != Some(i as nat),
    ensures
        paint(layout, cells, pixels)[i] == cells[i],
    decreases pixels.len(),
{
    if pixels.len() > 0 {
        let rest = pixels.drop_last();
        assert forall|j: int| 0 <= j < rest.len() implies layout.spec_map(#[trigger] rest[j].0)
            != Some(i as nat) by {
            assert(rest[j] == pixels[j]);
        }
        lemma_paint_untouched(layout, cells, rest, i);
        lemma_paint_len(layout, cells, rest);
        assert(layout.spec_map(pixels[pixels.len() - 1].0) != Some(i as nat));
    }
}

/// Drawing only positions outside the layout's canvas changes no cell.
pub proof fn lemma_paint_outside_canvas<L: Layout>(
    layout: L,
    cells: Seq<Rgb>,
    pixels: Seq<Pixel>,
)
    requires
        forall|j: int|
            0 <= j < pixels.len() ==> !layout.spec_size().contains(#[trigger] pixels[j].0),
    ensures
        paint(layout, cells, pixels) == cells,
{
    assert forall|j: int| 0 <= j < pixels.len() implies layout.spec_map(#[trigger] pixels[j].0)
        is None by {
        layout.lemma_map_outside_canvas(pixels[j].0);
    }
    lemma_paint_len(layout, cells, pixels);
    assert forall|i: int| 0 <= i < cells.len() implies #[trigger] paint(layout, cells, pixels)[i]
        == cells[i] by {
        lemma_paint_untouched(layout, cells, pixels, i);
    }
    assert(paint(layout, cells, pixels) =~= cells);
}

/// The last pixel drawn at a position decides the color of its cell: after
/// `pixels[k]`, later pixels at other positions leave that cell alone.
pub proof fn lemma_last_write_wins<L: Layout>(
    layout: L,
    cells: Seq<Rgb>,
    pixels: Seq<Pixel>,
    k: int,
)
    requires
        0 <= k < pixels.len(),
        layout.spec_map(pixels[k].0) is Some,
        layout.spec_map(pixels[k].0)->0 < cells.len(),
        forall|j: int| k < j < pixels.len() ==> #[trigger] pixels[j].0 != pixels[k].0,
    ensures
        paint(layout, cells, pixels)[layout.spec_map(pixels[k].0)->0 as int] == pixels[k].1,
{
    let i = layout.spec_map(pixels[k].0)->0;
    let head = pixels.take(k + 1);
    let tail = pixels.skip(k + 1);
    assert(head + tail =~= pixels);
    assert(head.drop_last() =~= pixels.take(k));
    lemma_paint_len(layout, cells, pixels.take(k));
    assert(paint(layout, cells, head)[i as int] == pixels[k].1);
    lemma_paint_len(layout, cells, head);
    assert forall|j: int| 0 <= j < tail.len() implies layout.spec_map(#[trigger] tail[j].0) != Some(
        i,
    ) by {
        assert(tail[j] == pixels[k + 1 + j]);
        layout.lemma_map_injective(pixels[k].0, tail[j].0);
    }
    lemma_paint_untouched(layout, paint(layout, cells, head), tail, i as int);
    lemma_paint_concat(layout, cells, head, tail);
}

/// Across two draws, the second one's last pixel at a position decides the
/// color of its cell, whatever the first draw put there.
pub proof fn lemma_later_draw_wins<L: Layout>(
    layout: L,
    cells: Seq<Rgb>,
    first: Seq<Pixel>,
    second: Seq<Pixel>,
    k: int,
)
    requires
        0 <= k < second.len(),
        layout.spec_map(second[k].0) is Some,
        layout.spec_map(second[k].0)->0 < cells.len(),
        forall|j: int| k < j < second.len() ==> #[trigger] second[j].0 != second[k].0,
    ensures
        paint(layout, paint(layout, cells, first), second)[layout.spec_map(second[k].0)->0 as int]
            == second[k].1,
{
    lemma_paint_len(layout, cells, first);
    lemma_last_write_wins(layout, paint(layout, cells, first), second, k);
}

} // verus!
