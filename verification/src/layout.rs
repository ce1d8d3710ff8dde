//! Content layout: the width of each item and the cursor at which it starts.
//!
//! The items of a run stand side by side. The run starts at the left edge of
//! the monitor, ends at its right edge, or is centered, as the alignment
//! says; a run that is wider than the monitor can only be aligned left.

use crate::bar::{Alignment, ContentItem, ContentItemView, ContentShape, ContentShapeView};
use crate::shape::{shape_width, shape_width_px};
use vstd::prelude::*;

verus! {

/// Width of an item in pixels: for text the advance width that was measured,
/// for a glyph the width of its cell.
pub open spec fn item_width(height: int, shape: ContentShapeView, measure: int) -> int {
    match shape {
        ContentShapeView::Text(_) => measure,
        ContentShapeView::Powerline(style, _, _) => shape_width(style, height),
    }
}

/// The widths of the items of a run. `measures[i]` is the advance width of
/// the text of item `i`; for a glyph it is not looked at.
pub open spec fn widths_of(height: int, items: Seq<ContentItemView>, measures: Seq<u32>) -> Seq<
    int,
> {
    Seq::new(items.len(), |i: int| item_width(height, items[i].shape, measures[i] as int))
}

/// Executable widths as mathematical integers.
pub open spec fn as_ints(widths: Seq<u32>) -> Seq<int> {
    Seq::new(widths.len(), |i: int| widths[i] as int)
}

/// Sum of the widths.
pub open spec fn sum(widths: Seq<int>) -> int
    decreases widths.len(),
{
    if widths.len() == 0 {
        0
    } else {
        sum(widths.drop_last()) + widths.last()
    }
}

/// The cursor at which a run of the given width starts.
pub open spec fn start_offset(alignment: Alignment, monitor_width: int, content_width: int) -> int {
    match alignment {
        Alignment::Left => 0,
        Alignment::Center => (monitor_width - content_width) / 2,
        Alignment::Right => monitor_width - content_width,
    }
}

/// The cursor at which item `i` starts: the start of the run and the widths
/// of the items in front of it.
pub open spec fn cursor_at(start: int, widths: Seq<int>, i: int) -> int {
    start + sum(widths.take(i))
}

/// A run of the given width can be laid out: it is no wider than the
/// monitor, or it is aligned left and its width fits `u32`.
pub open spec fn fits(alignment: Alignment, monitor_width: int, content_width: int) -> bool {
    match alignment {
        Alignment::Left => content_width <= u32::MAX,
        _ => content_width <= monitor_width,
    }
}

/// Widths are not negative.
pub open spec fn non_negative(widths: Seq<int>) -> bool {
    forall|i: int| 0 <= i < widths.len() ==> 0 <= #[trigger] widths[i]
}

/// Where a run starts: aligned left at 0; aligned right so that it ends at
/// the right edge of the monitor; centered within the space that it leaves.
pub proof fn lemma_alignment_bounds(alignment: Alignment, monitor_width: int, content_width: int)
    ensures
        alignment == Alignment::Left ==> start_offset(alignment, monitor_width, content_width)
            == 0,
        alignment == Alignment::Right ==> start_offset(alignment, monitor_width, content_width)
            + content_width == monitor_width,
        alignment == Alignment::Center && content_width <= monitor_width ==> 0 <= start_offset(
            alignment,
            monitor_width,
            content_width,
        ) <= monitor_width - content_width,
{
}

/// The sum of a prefix grows with the prefix, up to the sum of all widths.
pub proof fn lemma_sum_prefix(widths: Seq<int>, i: int)
    requires
        non_negative(widths),
        0 <= i <= widths.len(),
    ensures
        0 <= sum(widths.take(i)) <= sum(widths),
        i < widths.len() ==> sum(widths.take(i + 1)) == sum(widths.take(i)) + widths[i],
    decreases widths.len() - i,
{
    if i < widths.len() {
        assert(widths.take(i + 1).drop_last() =~= widths.take(i));
        lemma_sum_prefix(widths, i + 1);
        lemma_sum_start(widths, i);
    } else {
        assert(widths.take(i) =~= widths);
        lemma_sum_start(widths, i);
    }
}

proof fn lemma_sum_start(widths: Seq<int>, i: int)
    requires
        non_negative(widths),
        0 <= i <= widths.len(),
    ensures
        0 <= sum(widths.take(i)),
    decreases i,
{
    if i > 0 {
        assert(widths.take(i).drop_last() =~= widths.take(i - 1));
        lemma_sum_start(widths, i - 1);
    }
}

/// The cells of a run stand side by side, in order, between the start of the
/// run and its end: each starts where the one before it ends.
pub proof fn lemma_cells_adjacent(start: int, widths: Seq<int>, i: int)
    requires
        non_negative(widths),
        0 <= i < widths.len(),
    ensures
        cursor_at(start, widths, 0) == start,
        start <= cursor_at(start, widths, i),
        cursor_at(start, widths, i + 1) == cursor_at(start, widths, i) + widths[i],
        cursor_at(start, widths, i) + widths[i] <= start + sum(widths),
        cursor_at(start, widths, widths.len() as int) == start + sum(widths),
{
    lemma_sum_prefix(widths, i);
    lemma_sum_prefix(widths, i + 1);
    lemma_sum_prefix(widths, 0);
    assert(widths.take(widths.len() as int) =~= widths);
}

/// A run that fits its monitor stays on it: no cell starts left of the
/// monitor, and unless the run is aligned left no cell ends right of it.
pub proof fn lemma_cells_within_monitor(
    alignment: Alignment,
    monitor_width: int,
    widths: Seq<int>,
    i: int,
)
    requires
        non_negative(widths),
        0 <= monitor_width <= u32::MAX,
        fits(alignment, monitor_width, sum(widths)),
        0 <= i < widths.len(),
    ensures
        0 <= cursor_at(start_offset(alignment, monitor_width, sum(widths)), widths, i),
        alignment != Alignment::Left ==> cursor_at(
            start_offset(alignment, monitor_width, sum(widths)),
            widths,
            i,
        ) + widths[i] <= monitor_width,
        cursor_at(start_offset(alignment, monitor_width, sum(widths)), widths, i) + widths[i]
            <= u32::MAX,
{
    let start = start_offset(alignment, monitor_width, sum(widths));
    lemma_alignment_bounds(alignment, monitor_width, sum(widths));
    lemma_cells_adjacent(start, widths, i);
}

/// The cursor at which a run of the given width starts.
pub fn starting_cursor(alignment: Alignment, monitor_width: u32, content_width: u32) -> (start:
    u32)
    requires
        fits(alignment, monitor_width as int, content_width as int),
    ensures
        start == start_offset(alignment, monitor_width as int, content_width as int),
        alignment == Alignment::Left ==> start == 0,
        alignment == Alignment::Right ==> start + content_width == monitor_width,
        alignment == Alignment::Center ==> start <= monitor_width - content_width,
{
    match alignment {
        Alignment::Left => 0,
        Alignment::Center => (monitor_width - content_width) / 2,
        Alignment::Right => monitor_width - content_width,
    }
}

/// Width of an item in a bar of the given height; `measure` is the advance
/// width of its text.
pub fn cursor_offset(height: u32, item: &ContentItem, measure: u32) -> (width: u32)
    ensures
        width == item_width(height as int, item@.shape, measure as int),
{
    match &item.shape {
        ContentShape::Text(_) => measure,
        ContentShape::Powerline(style, _, _) => shape_width_px(*style, height),
    }
}

/// The widths of the items of a run and their sum; `None` if there is not
/// one measure for each item or the sum does not fit `u32`.
pub fn item_widths(height: u32, items: &[ContentItem], measures: &[u32]) -> (result: Option<
    (Vec<u32>, u32),
>)
    ensures
        result is Some <==> items.len() == measures.len() && sum(
            widths_of(height as int, crate::bar::items_view(items@), measures@),
        ) <= u32::MAX,
        result matches Some((widths, total)) ==> {
            &&& as_ints(widths@) == widths_of(
                height as int,
                crate::bar::items_view(items@),
                measures@,
            )
            &&& total == sum(widths_of(height as int, crate::bar::items_view(items@), measures@))
        },
{
    if items.len() != measures.len() {
        return None;
    }
    let ghost expected = widths_of(height as int, crate::bar::items_view(items@), measures@);
    let mut widths: Vec<u32> = Vec::new();
    let mut total: u32 = 0;
    let mut i: usize = 0;
    proof {
        assert(expected.take(0) =~= Seq::<int>::empty());
    }
    while i < items.len()
        invariant
            i <= items.len(),
            items.len() == measures.len(),
            expected == widths_of(height as int, crate::bar::items_view(items@), measures@),
            non_negative(expected),
            as_ints(widths@) == expected.take(i as int),
            total == sum(expected.take(i as int)),
        decreases items.len() - i,
    {
        let width: u32 = cursor_offset(height, &items[i], measures[i]);
        proof {
            lemma_sum_prefix(expected, i as int);
            lemma_sum_prefix(expected, i + 1);
            assert(expected[i as int] == width);
        }
        if width > u32::MAX - total {
            return None;
        }
        total = total + width;
        widths.push(width);
        i += 1;
        proof {
            assert(as_ints(widths@) =~= expected.take(i as int));
        }
    }
    proof {
        assert(expected.take(items.len() as int) =~= expected);
    }
    Some((widths, total))
}

} // verus!
