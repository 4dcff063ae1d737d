use vstd::prelude::*;

verus! {

/// A half-open range of item indices: `start` is shown first, `end` is the
/// first item that is not shown.
#[derive(Clone, Copy, Debug, PartialEq, Eq)]
pub struct VisibleRange {
    pub start: usize,
    pub end: usize,
}

impl VisibleRange {
    pub open spec fn is_empty(self) -> bool {
        self.start >= self.end
    }
}

/// The index `i` moved into `[0, total)`; zero when there is no item at all.
pub open spec fn clamp_index(i: int, total: int) -> int {
    if total <= 0 {
        0
    } else if i >= total {
        total - 1
    } else {
        i
    }
}

/// Rows taken by the items `from..to`.
pub open spec fn span(heights: Seq<usize>, from: int, to: int) -> int
    decreases to - from,
{
    if from >= to {
        0
    } else {
        span(heights, from, to - 1) + heights[to - 1]
    }
}

/// Rows taken by the items `from..=last`.
pub open spec fn reach(heights: Seq<usize>, from: int, last: int) -> int {
    span(heights, from, last + 1)
}

/// The offset reached by dropping leading items, one at a time from `offset`,
/// until the items up to and including `selected` fit into `rows`. It never
/// passes `selected`, even where that item alone is too high.
pub open spec fn scroll_to(heights: Seq<usize>, offset: int, selected: int, rows: int) -> int
    decreases selected - offset,
{
    if offset >= selected || reach(heights, offset, selected) <= rows {
        offset
    } else {
        scroll_to(heights, offset + 1, selected, rows)
    }
}

/// The first index at or after `end` at which the items from `start` on no
/// longer fit into `rows`, or the number of items when all of them fit.
pub open spec fn fit_end(heights: Seq<usize>, start: int, end: int, rows: int) -> int
    decreases heights.len() - end,
{
    if end < 0 || end >= heights.len() || span(heights, start, end + 1) > rows {
        end
    } else {
        fit_end(heights, start, end + 1, rows)
    }
}

/// The offset that a frame scrolls to.
///
/// Without rows or without items the offset stays as it is. Otherwise both
/// indices are first moved into range; a selection above the offset becomes
/// the offset, a selection below the last row pulls the offset down.
pub open spec fn window_offset(heights: Seq<usize>, offset: int, selected: int, rows: int) -> int {
    let total = heights.len() as int;
    if rows <= 0 || total == 0 {
        offset
    } else {
        let sel = clamp_index(selected, total);
        let off = clamp_index(offset, total);
        if sel < off {
            sel
        } else {
            scroll_to(heights, off, sel, rows)
        }
    }
}

/// The end of the visible range of a frame: items are shown whole, from the
/// new offset on, as long as they fit.
pub open spec fn window_end(heights: Seq<usize>, offset: int, selected: int, rows: int) -> int {
    let start = window_offset(heights, offset, selected, rows);
    if rows <= 0 || heights.len() == 0 {
        start
    } else {
        fit_end(heights, start, start, rows)
    }
}

/// Rows add up over adjacent ranges.
pub proof fn lemma_span_split(heights: Seq<usize>, a: int, b: int, c: int)
    requires
        a <= b <= c,
    ensures
        span(heights, a, c) == span(heights, a, b) + span(heights, b, c),
    decreases c - b,
{
    if b < c {
        lemma_span_split(heights, a, b, c - 1);
    }
}

/// A range never takes a negative number of rows, and a wider range takes at
/// least as many as a narrower one.
pub proof fn lemma_span_monotonic(heights: Seq<usize>, a: int, b: int, c: int, d: int)
    requires
        a <= b,
        c <= d,
    ensures
        0 <= span(heights, b, c) <= span(heights, a, d),
    decreases (d - a) + (if c >= b { c - b } else { 0 }),
{
    if b < c {
        lemma_span_monotonic(heights, b, b, c - 1, c - 1);
        if c < d {
            lemma_span_monotonic(heights, a, b, c, d - 1);
        } else if a < b {
            lemma_span_split(heights, a, b, c);
            lemma_span_nonnegative(heights, a, b);
        }
    } else {
        lemma_span_nonnegative(heights, a, d);
    }
}

/// A range never takes a negative number of rows.
pub proof fn lemma_span_nonnegative(heights: Seq<usize>, a: int, b: int)
    ensures
        0 <= span(heights, a, b),
    decreases b - a,
{
    if a < b {
        lemma_span_nonnegative(heights, a, b - 1);
    }
}

/// Where every offset before `target` leaves the selection below the last row
/// and `target` does not, scrolling stops at `target`.
pub proof fn lemma_scroll_to_is(heights: Seq<usize>, offset: int, target: int, selected: int, rows: int)
    requires
        offset <= target <= selected,
        forall|o: int| offset <= o < target ==> #[trigger] reach(heights, o, selected) > rows,
        target == selected || reach(heights, target, selected) <= rows,
    ensures
        scroll_to(heights, offset, selected, rows) == target,
    decreases target - offset,
{
    if offset < target {
        lemma_scroll_to_is(heights, offset + 1, target, selected, rows);
    }
}

/// What scrolling reaches: the least offset from which the selection fits, or
/// the selection itself.
pub proof fn lemma_scroll_to(heights: Seq<usize>, offset: int, selected: int, rows: int)
    requires
        offset <= selected,
    ensures
        offset <= scroll_to(heights, offset, selected, rows) <= selected,
        scroll_to(heights, offset, selected, rows) == selected || reach(
            heights,
            scroll_to(heights, offset, selected, rows),
            selected,
        ) <= rows,
        forall|o: int|
            offset <= o < scroll_to(heights, offset, selected, rows) ==> #[trigger] reach(
                heights,
                o,
                selected,
            ) > rows,
    decreases selected - offset,
{
    if !(offset >= selected || reach(heights, offset, selected) <= rows) {
        lemma_scroll_to(heights, offset + 1, selected, rows);
    }
}

/// What the end of the visible range is: everything before it fits, and the
/// item at it, if there is one, does not.
pub proof fn lemma_fit_end(heights: Seq<usize>, start: int, end: int, rows: int)
    requires
        0 <= start <= end <= heights.len(),
        span(heights, start, end) <= rows,
    ensures
        end <= fit_end(heights, start, end, rows) <= heights.len(),
        span(heights, start, fit_end(heights, start, end, rows)) <= rows,
        fit_end(heights, start, end, rows) == heights.len() || span(
            heights,
            start,
            fit_end(heights, start, end, rows) + 1,
        ) > rows,
    decreases heights.len() - end,
{
    if !(end >= heights.len() || span(heights, start, end + 1) > rows) {
        lemma_fit_end(heights, start, end + 1, rows);
    }
}

/// Moves an index into the range of valid item indices.
pub fn clamp(i: usize, total: usize) -> (r: usize)
    ensures
        r == clamp_index(i as int, total as int),
{
    if total == 0 {
        0
    } else if i >= total {
        total - 1
    } else {
        i
    }
}

/// Scrolls down from `offset` until the selection fits.
fn scroll(heights: &Vec<usize>, offset: usize, selected: usize, rows: usize) -> (r: usize)
    requires
        offset <= selected < heights@.len(),
    ensures
        r == scroll_to(heights@, offset as int, selected as int, rows as int),
{
    let ghost h = heights@;
    let ghost sel = selected as int;
    if heights[selected] > rows {
        proof {
            assert(span(h, sel, sel + 1) == h[sel]) by {
                assert(span(h, sel, sel) == 0);
            }
            assert forall|o: int| offset <= o < sel implies #[trigger] reach(h, o, sel) > rows by {
                lemma_span_monotonic(h, o, sel, sel + 1, sel + 1);
            }
            lemma_scroll_to_is(h, offset as int, sel, sel, rows as int);
        }
        return selected;
    }
    let mut o: usize = selected;
    let mut used: usize = heights[selected];
    while o > offset && heights[o - 1] <= rows - used
        invariant
            h == heights@,
            sel == selected as int,
            offset <= o <= selected < h.len(),
            used == span(h, o as int, sel + 1),
            used <= rows,
        decreases o,
    {
        proof {
            lemma_span_split(h, o as int - 1, o as int, sel + 1);
            assert(span(h, o as int - 1, o as int) == h[o as int - 1]) by {
                assert(span(h, o as int - 1, o as int - 1) == 0);
            }
        }
        used = used + heights[o - 1];
        o = o - 1;
    }
    proof {
        if o > offset {
            lemma_span_split(h, o as int - 1, o as int, sel + 1);
            assert(span(h, o as int - 1, o as int) == h[o as int - 1]) by {
                assert(span(h, o as int - 1, o as int - 1) == 0);
            }
            assert forall|p: int| offset <= p < o implies #[trigger] reach(h, p, sel) > rows by {
                lemma_span_monotonic(h, p, o as int - 1, sel + 1, sel + 1);
            }
        }
        lemma_scroll_to_is(h, offset as int, o as int, sel, rows as int);
    }
    o
}

/// Finds where the items shown from `start` on stop fitting.
fn fit(heights: &Vec<usize>, start: usize, rows: usize) -> (end: usize)
    requires
        start <= heights@.len(),
    ensures
        end == fit_end(heights@, start as int, start as int, rows as int),
        start <= end <= heights@.len(),
{
    let mut end: usize = start;
    let mut used: usize = 0;
    while end < heights.len() && heights[end] <= rows - used
        invariant
            start <= end <= heights@.len(),
            used == span(heights@, start as int, end as int),
            used <= rows,
            fit_end(heights@, start as int, start as int, rows as int) == fit_end(
                heights@,
                start as int,
                end as int,
                rows as int,
            ),
        decreases heights@.len() - end,
    {
        used = used + heights[end];
        end = end + 1;
    }
    end
}

/// Computes the window of a frame: the offset to scroll to and the range of
/// items that are shown.
///
/// `heights[i]` is the number of rows that item `i` takes. An index out of
/// range is not a fault: `selected` and `offset` are read as the nearest valid
/// index. With no rows or no items nothing is shown and the offset is handed
/// back as it came.
pub fn window(heights: &Vec<usize>, offset: usize, selected: usize, viewport_rows: usize) -> (r: (
    usize,
    VisibleRange,
))
    ensures
        r.0 == window_offset(heights@, offset as int, selected as int, viewport_rows as int),
        r.1.start == r.0,
        r.1.end == window_end(heights@, offset as int, selected as int, viewport_rows as int),
        r.1.start <= r.1.end,
        viewport_rows == 0 || heights@.len() == 0 ==> r.0 == offset && r.1.is_empty(),
        viewport_rows > 0 && heights@.len() > 0 ==> r.1.end <= heights@.len(),
{
    let total = heights.len();
    if viewport_rows == 0 || total == 0 {
        return (offset, VisibleRange { start: offset, end: offset });
    }
    let sel = clamp(selected, total);
    let off = clamp(offset, total);
    let start = if sel < off {
        sel
    } else {
        scroll(heights, off, sel, viewport_rows)
    };
    proof {
        if sel >= off {
            lemma_scroll_to(heights@, off as int, sel as int, viewport_rows as int);
        }
    }
    let end = fit(heights, start, viewport_rows);
    (start, VisibleRange { start, end })
}

/// Without rows or without items a frame shows nothing and leaves the offset
/// where it was.
pub proof fn law_window_of_nothing(heights: Seq<usize>, offset: int, selected: int, rows: int)
    requires
        rows <= 0 || heights.len() == 0,
    ensures
        window_offset(heights, offset, selected, rows) == offset,
        window_end(heights, offset, selected, rows) == offset,
{
}

/// A selection above the offset becomes the offset, whatever the heights.
pub proof fn law_window_scrolls_up(heights: Seq<usize>, offset: int, selected: int, rows: int)
    requires
        rows > 0,
        heights.len() > 0,
        clamp_index(selected, heights.len() as int) < clamp_index(offset, heights.len() as int),
    ensures
        window_offset(heights, offset, selected, rows) == clamp_index(
            selected,
            heights.len() as int,
        ),
{
}

/// With rows and items, the offset of a frame is the index of an item at or
/// above the selection, and the visible range ends within the items.
pub proof fn law_window_in_range(heights: Seq<usize>, offset: int, selected: int, rows: int)
    requires
        rows > 0,
        heights.len() > 0,
        0 <= offset,
        0 <= selected,
    ensures
        0 <= window_offset(heights, offset, selected, rows) <= clamp_index(
            selected,
            heights.len() as int,
        ) < heights.len(),
        window_offset(heights, offset, selected, rows) <= window_end(
            heights,
            offset,
            selected,
            rows,
        ) <= heights.len(),
{
    let total = heights.len() as int;
    let sel = clamp_index(selected, total);
    let off = clamp_index(offset, total);
    if sel >= off {
        lemma_scroll_to(heights, off, sel, rows);
    }
    let start = window_offset(heights, offset, selected, rows);
    lemma_fit_end(heights, start, start, rows);
}

/// The items shown fit into the rows, and the range cannot be extended: the
/// item behind it, if there is one, would not fit whole.
pub proof fn law_window_fills_rows(heights: Seq<usize>, offset: int, selected: int, rows: int)
    requires
        rows > 0,
        heights.len() > 0,
        0 <= offset,
        0 <= selected,
    ensures
        span(
            heights,
            window_offset(heights, offset, selected, rows),
            window_end(heights, offset, selected, rows),
        ) <= rows,
        window_end(heights, offset, selected, rows) == heights.len() || span(
            heights,
            window_offset(heights, offset, selected, rows),
            window_end(heights, offset, selected, rows) + 1,
        ) > rows,
{
    law_window_in_range(heights, offset, selected, rows);
    let start = window_offset(heights, offset, selected, rows);
    lemma_fit_end(heights, start, start, rows);
}

/// A selected item that fits into the rows at all is shown. Scrolling down
/// goes no further than that needs: from any earlier offset at or after the
/// old one the selection would lie below the last row.
pub proof fn law_window_shows_selection(heights: Seq<usize>, offset: int, selected: int, rows: int)
    requires
        rows > 0,
        heights.len() > 0,
        0 <= offset,
        0 <= selected,
    ensures
        heights[clamp_index(selected, heights.len() as int)] <= rows ==> window_offset(
            heights,
            offset,
            selected,
            rows,
        ) <= clamp_index(selected, heights.len() as int) < window_end(
            heights,
            offset,
            selected,
            rows,
        ),
        forall|o: int|
            clamp_index(offset, heights.len() as int) <= o < window_offset(
                heights,
                offset,
                selected,
                rows,
            ) ==> #[trigger] reach(heights, o, clamp_index(selected, heights.len() as int)) > rows,
{
    let total = heights.len() as int;
    let sel = clamp_index(selected, total);
    let off = clamp_index(offset, total);
    let start = window_offset(heights, offset, selected, rows);
    let end = window_end(heights, offset, selected, rows);
    law_window_in_range(heights, offset, selected, rows);
    law_window_fills_rows(heights, offset, selected, rows);
    assert(span(heights, sel, sel + 1) == heights[sel]) by {
        assert(span(heights, sel, sel) == 0);
    }
    if sel >= off {
        lemma_scroll_to(heights, off, sel, rows);
    }
    if heights[sel] <= rows && end <= sel {
        lemma_span_monotonic(heights, start, start, end + 1, sel + 1);
    }
}

/// A second frame with the same selection stays where the first one scrolled
/// to: the offset and the visible range of a frame are those of the frame
/// before it.
pub proof fn law_window_settles(heights: Seq<usize>, offset: int, selected: int, rows: int)
    requires
        0 <= offset,
        0 <= selected,
    ensures
        window_offset(heights, window_offset(heights, offset, selected, rows), selected, rows)
            == window_offset(heights, offset, selected, rows),
        window_end(heights, window_offset(heights, offset, selected, rows), selected, rows)
            == window_end(heights, offset, selected, rows),
{
    if rows > 0 && heights.len() > 0 {
        law_window_in_range(heights, offset, selected, rows);
        let total = heights.len() as int;
        let sel = clamp_index(selected, total);
        let off = clamp_index(offset, total);
        if sel >= off {
            lemma_scroll_to(heights, off, sel, rows);
        }
    }
}

} // verus!
