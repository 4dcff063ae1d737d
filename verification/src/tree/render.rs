use vstd::prelude::*;
use crate::tree::record::{views_of, FlattenedItem, ItemView};
use crate::tree::surface::{Buffer, Cell, Grid, Rect, Style};
use crate::tree::text::{
    chars_of, count_lines, find_line_end, lemma_line_start, line, line_count, line_start,
};
use crate::tree::viewport::{lemma_span_monotonic, lemma_span_split, span, VisibleRange};

verus! {

/// How the tree is drawn. Every option is spelled out by the caller.
#[derive(Clone, Debug, PartialEq, Eq)]
pub struct StyleConfig {
    /// Marks the first row of the selected item, at the row's left edge.
    pub indicator_glyph: String,
    /// Laid over every row of the selected item.
    pub highlight_style: Style,
    /// Laid over every row of every item.
    pub base_style: Style,
    /// Columns per nesting level.
    pub indent_unit: usize,
}

/// The number of rows that each item takes.
pub open spec fn heights_of(items: Seq<ItemView>) -> Seq<usize> {
    Seq::new(items.len(), |i: int| line_count(items[i].content) as usize)
}

/// The character in column `col` of a row, counted from the row's left edge.
///
/// The first columns are kept for the indicator glyph, which is written on a
/// marked row and left blank on any other. The indentation follows, then the
/// line of text, then blanks.
pub open spec fn row_symbol(
    glyph: Seq<char>,
    marked: bool,
    depth: int,
    text: Seq<char>,
    col: int,
) -> char {
    if col < glyph.len() {
        if marked {
            glyph[col]
        } else {
            ' '
        }
    } else if col - glyph.len() < depth {
        ' '
    } else if col - glyph.len() - depth < text.len() {
        text[col - glyph.len() - depth]
    } else {
        ' '
    }
}

/// The style of a cell of an item's row: the base style over what was there,
/// and the highlight style over that where the item is selected.
pub open spec fn row_style(before: Style, selected: bool, base: Style, highlight: Style) -> Style {
    if selected {
        before.patched(base).patched(highlight)
    } else {
        before.patched(base)
    }
}

/// The cell in column `col` of row `r` of an item.
pub open spec fn item_cell(
    before: Cell,
    item: ItemView,
    r: int,
    col: int,
    selected: bool,
    config: StyleConfig,
) -> Cell {
    Cell {
        symbol: row_symbol(
            config.indicator_glyph@,
            selected && r == 0,
            item.depth as int,
            line(item.content, r as nat),
            col,
        ),
        style: row_style(before.style, selected, config.base_style, config.highlight_style),
    }
}

/// The item that covers row `row`, counted from the top of item `start`, and
/// the number of that row within the item; nothing where the items
/// `start..end` end above the row.
pub open spec fn item_at_row(heights: Seq<usize>, start: int, end: int, row: int) -> Option<
    (int, int),
>
    decreases end - start,
{
    if start >= end || row < 0 {
        None
    } else if row < heights[start] {
        Some((start, row))
    } else {
        item_at_row(heights, start + 1, end, row - heights[start])
    }
}

/// The first item that is painted: the start of the range, or the number of
/// items where the range starts past them.
pub open spec fn first_painted(total: int, range: VisibleRange) -> int {
    if range.start <= total {
        range.start as int
    } else {
        total
    }
}

/// The end of the items that are painted: the end of the range, or the number
/// of items where the range reaches past them.
pub open spec fn end_painted(total: int, range: VisibleRange) -> int {
    if range.end <= total {
        range.end as int
    } else {
        total
    }
}

/// The cell in column `col` and row `row` of the drawing area, both counted
/// from its top left corner, after the items of `range` have been painted on
/// an area of `rows` rows.
///
/// An item that does not fit whole below the items before it is not painted
/// at all, and neither is what does not belong to any item.
pub open spec fn painted_cell(
    before: Cell,
    col: int,
    row: int,
    rows: int,
    items: Seq<ItemView>,
    range: VisibleRange,
    selected: int,
    config: StyleConfig,
) -> Cell {
    let heights = heights_of(items);
    let start = first_painted(items.len() as int, range);
    let end = end_painted(items.len() as int, range);
    match item_at_row(heights, start, end, row) {
        Some((i, r)) => if span(heights, start, i + 1) <= rows {
            item_cell(before, items[i], r, col, i == selected, config)
        } else {
            before
        },
        None => before,
    }
}

/// The cell at column `x` and row `y` of the screen after the items of `range`
/// have been painted on `area`: painted where `area` and the grid overlap, as
/// before elsewhere.
pub open spec fn cell_after(
    grid: Grid,
    x: int,
    y: int,
    area: Rect,
    items: Seq<ItemView>,
    range: VisibleRange,
    selected: int,
    config: StyleConfig,
) -> Cell {
    let clip = area.meet(grid.area);
    if clip.contains(x, y) {
        painted_cell(
            grid.at(x, y),
            x - clip.x,
            y - clip.y,
            clip.height as int,
            items,
            range,
            selected,
            config,
        )
    } else {
        grid.at(x, y)
    }
}

/// Which item covers a row: the one whose rows, stacked below those of the
/// items before it, hold that row.
pub proof fn lemma_item_at_row(heights: Seq<usize>, start: int, end: int, row: int)
    requires
        0 <= start <= end <= heights.len(),
    ensures
        match item_at_row(heights, start, end, row) {
            Some((i, r)) => start <= i < end && 0 <= r < heights[i] && row == span(
                heights,
                start,
                i,
            ) + r,
            None => row < 0 || row >= span(heights, start, end),
        },
    decreases end - start,
{
    if start < end && row >= 0 {
        if row >= heights[start] {
            lemma_item_at_row(heights, start + 1, end, row - heights[start]);
            lemma_span_split(heights, start, start + 1, end);
            assert(span(heights, start, start + 1) == heights[start]) by {
                assert(span(heights, start, start) == 0);
            }
            match item_at_row(heights, start + 1, end, row - heights[start]) {
                Some((i, r)) => {
                    lemma_span_split(heights, start, start + 1, i);
                },
                None => {},
            }
        }
    }
}

/// A row that lies in the rows of item `i` is covered by item `i`.
pub proof fn lemma_item_at_row_is(heights: Seq<usize>, start: int, end: int, i: int, r: int)
    requires
        0 <= start <= i < end <= heights.len(),
        0 <= r < heights[i],
    ensures
        item_at_row(heights, start, end, span(heights, start, i) + r) == Some((i, r)),
    decreases i - start,
{
    if start < i {
        lemma_span_split(heights, start, start + 1, i);
        assert(span(heights, start, start + 1) == heights[start]) by {
            assert(span(heights, start, start) == 0);
        }
        lemma_span_monotonic(heights, start + 1, start + 1, i, i);
        lemma_item_at_row_is(heights, start + 1, end, i, r);
    }
}

/// The character for one column of a row.
fn symbol_at(
    glyph: &Vec<char>,
    marked: bool,
    depth: u128,
    text: &Vec<char>,
    from: usize,
    to: usize,
    col: usize,
) -> (c: char)
    requires
        from <= to <= text@.len(),
    ensures
        c == row_symbol(
            glyph@,
            marked,
            depth as int,
            text@.subrange(from as int, to as int),
            col as int,
        ),
{
    let g = glyph.len();
    if col < g {
        if marked {
            glyph[col]
        } else {
            ' '
        }
    } else if ((col - g) as u128) < depth {
        ' '
    } else {
        let after = col - g - (depth as usize);
        if after < to - from {
            text[from + after]
        } else {
            ' '
        }
    }
}

/// Lays the styles of an item's row over a style.
fn style_over(before: Style, selected: bool, base: Style, highlight: Style) -> (s: Style)
    ensures
        s == row_style(before, selected, base, highlight),
{
    let based = before.patch(base);
    if selected {
        based.patch(highlight)
    } else {
        based
    }
}

/// Paints one row of one item across the whole width of `clip`.
fn paint_row(
    buf: &mut Buffer,
    clip: Rect,
    y: u16,
    glyph: &Vec<char>,
    marked: bool,
    depth: u128,
    text: &Vec<char>,
    from: usize,
    to: usize,
    selected: bool,
    base: Style,
    highlight: Style,
)
    requires
        old(buf).wf(),
        clip == clip.meet(old(buf)@.area),
        clip.y <= y < clip.bottom(),
        from <= to <= text@.len(),
    ensures
        final(buf).wf(),
        final(buf)@.area == old(buf)@.area,
        forall|x2: int, y2: int|
            old(buf)@.area.contains(x2, y2) ==> #[trigger] final(buf)@.at(x2, y2) == if y2 == y
                && clip.contains(x2, y2) {
                Cell {
                    symbol: row_symbol(
                        glyph@,
                        marked,
                        depth as int,
                        text@.subrange(from as int, to as int),
                        x2 - clip.x,
                    ),
                    style: row_style(old(buf)@.at(x2, y2).style, selected, base, highlight),
                }
            } else {
                old(buf)@.at(x2, y2)
            },
{
    let mut col: u16 = 0;
    while col < clip.width
        invariant
            buf.wf(),
            buf@.area == old(buf)@.area,
            clip == clip.meet(old(buf)@.area),
            clip.y <= y < clip.bottom(),
            from <= to <= text@.len(),
            col <= clip.width,
            forall|x2: int, y2: int|
                old(buf)@.area.contains(x2, y2) ==> #[trigger] buf@.at(x2, y2) == if y2 == y
                    && clip.contains(x2, y2) && x2 < clip.x + col {
                    Cell {
                        symbol: row_symbol(
                            glyph@,
                            marked,
                            depth as int,
                            text@.subrange(from as int, to as int),
                            x2 - clip.x,
                        ),
                        style: row_style(old(buf)@.at(x2, y2).style, selected, base, highlight),
                    }
                } else {
                    old(buf)@.at(x2, y2)
                },
        decreases clip.width - col,
    {
        let x: u16 = clip.x + col;
        let before = buf.get(x, y);
        let style = match before {
            Some(cell) => cell.style,
            None => Style::plain(),
        };
        let cell = Cell {
            symbol: symbol_at(glyph, marked, depth, text, from, to, col as usize),
            style: style_over(style, selected, base, highlight),
        };
        buf.put(x, y, cell);
        col = col + 1;
    }
}

/// Paints all rows of one item, the first of them in row `top` of `clip`.
fn paint_item<'a>(
    buf: &mut Buffer,
    clip: Rect,
    top: u16,
    item: &FlattenedItem<'a>,
    text: &Vec<char>,
    height: usize,
    glyph: &Vec<char>,
    selected: bool,
    config: &StyleConfig,
)
    requires
        old(buf).wf(),
        clip == clip.meet(old(buf)@.area),
        text@ == item.content@,
        height == line_count(text@),
        glyph@ == config.indicator_glyph@,
        top + height <= clip.height,
    ensures
        final(buf).wf(),
        final(buf)@.area == old(buf)@.area,
        forall|x2: int, y2: int|
            old(buf)@.area.contains(x2, y2) ==> #[trigger] final(buf)@.at(x2, y2) == if clip.contains(
                x2,
                y2,
            ) && top <= y2 - clip.y < top + height {
                item_cell(
                    old(buf)@.at(x2, y2),
                    item@,
                    y2 - clip.y - top,
                    x2 - clip.x,
                    selected,
                    *config,
                )
            } else {
                old(buf)@.at(x2, y2)
            },
{
    let mut r: usize = 0;
    let mut from: usize = 0;
    while r < height
        invariant
            buf.wf(),
            buf@.area == old(buf)@.area,
            clip == clip.meet(old(buf)@.area),
            text@ == item.content@,
            height == line_count(text@),
            glyph@ == config.indicator_glyph@,
            top + height <= clip.height,
            r <= height,
            r < height ==> from == line_start(text@, r as nat),
            forall|x2: int, y2: int|
                old(buf)@.area.contains(x2, y2) ==> #[trigger] buf@.at(x2, y2) == if clip.contains(
                    x2,
                    y2,
                ) && top <= y2 - clip.y < top + r {
                    item_cell(
                        old(buf)@.at(x2, y2),
                        item@,
                        y2 - clip.y - top,
                        x2 - clip.x,
                        selected,
                        *config,
                    )
                } else {
                    old(buf)@.at(x2, y2)
                },
        decreases height - r,
    {
        proof {
            lemma_line_start(text@, r as nat);
        }
        let to = find_line_end(text, from);
        let y: u16 = clip.y + top + r as u16;
        paint_row(
            buf,
            clip,
            y,
            glyph,
            selected && r == 0,
            item.depth,
            text,
            from,
            to,
            selected,
            config.base_style,
            config.highlight_style,
        );
        proof {
            if r + 1 < height {
                lemma_line_start(text@, (r + 1) as nat);
            }
        }
        from = if to < text.len() {
            to + 1
        } else {
            to
        };
        r = r + 1;
    }
}

/// Paints the items of `range` on the part of `area` that the buffer covers,
/// top to bottom, each on as many rows as its text has lines.
///
/// Nothing outside `area` is touched, and nothing in it that belongs to no
/// item. An item that does not fit whole into the rows that are left is not
/// painted, nor is any item after it; a range that reaches past the items is
/// read as ending with them. `selected` is the index of the highlighted item
/// among all `items`.
pub fn paint<'a>(
    items: &Vec<FlattenedItem<'a>>,
    range: VisibleRange,
    selected: usize,
    config: &StyleConfig,
    area: Rect,
    buf: &mut Buffer,
)
    ensures
        final(buf).wf(),
        final(buf)@.area == old(buf)@.area,
        forall|x: int, y: int|
            old(buf)@.area.contains(x, y) ==> #[trigger] final(buf)@.at(x, y) == cell_after(
                old(buf)@,
                x,
                y,
                area,
                views_of(items@),
                range,
                selected as int,
                *config,
            ),
{
    let clip = area.intersection(buf.area());
    let total = items.len();
    let start = if range.start <= total {
        range.start
    } else {
        total
    };
    let end = if range.end <= total {
        range.end
    } else {
        total
    };
    let ghost heights = heights_of(views_of(items@));
    if clip.is_empty() || start >= end {
        return ;
    }
    let glyph = chars_of(config.indicator_glyph.as_str());
    let mut i: usize = start;
    let mut top: u16 = 0;
    while i < end
        invariant
            buf.wf(),
            buf@.area == old(buf)@.area,
            clip == area.meet(old(buf)@.area),
            clip == clip.meet(old(buf)@.area),
            heights == heights_of(views_of(items@)),
            glyph@ == config.indicator_glyph@,
            start == first_painted(items@.len() as int, range),
            end == end_painted(items@.len() as int, range),
            start <= i <= end <= items@.len(),
            top == span(heights, start as int, i as int),
            top <= clip.height,
            forall|x: int, y: int|
                old(buf)@.area.contains(x, y) ==> #[trigger] buf@.at(x, y) == if clip.contains(x, y)
                    && y - clip.y < top {
                    cell_after(old(buf)@, x, y, area, views_of(items@), range, selected as int, *config)
                } else {
                    old(buf)@.at(x, y)
                },
        decreases end - i,
    {
        let item = &items[i];
        let text = chars_of(item.content);
        let height = count_lines(&text);
        if height > (clip.height - top) as usize {
            proof {
                assert forall|x: int, y: int| old(buf)@.area.contains(x, y) implies #[trigger] buf@.at(
                    x,
                    y,
                ) == cell_after(old(buf)@, x, y, area, views_of(items@), range, selected as int, *config) by {
                    if clip.contains(x, y) && y - clip.y >= top {
                        let row = y - clip.y;
                        lemma_item_at_row(heights, start as int, end as int, row);
                        match item_at_row(heights, start as int, end as int, row) {
                            Some((j, r)) => {
                                if j < i {
                                    lemma_span_monotonic(
                                        heights,
                                        start as int,
                                        start as int,
                                        j + 1,
                                        i as int,
                                    );
                                } else {
                                    lemma_span_monotonic(
                                        heights,
                                        start as int,
                                        start as int,
                                        i as int + 1,
                                        j + 1,
                                    );
                                }
                            },
                            None => {},
                        }
                    }
                }
            }
            return ;
        }
        paint_item(buf, clip, top, item, &text, height, &glyph, i == selected, config);
        proof {
            assert forall|x: int, y: int| old(buf)@.area.contains(x, y) implies #[trigger] buf@.at(
                x,
                y,
            ) == if clip.contains(x, y) && y - clip.y < top + height {
                cell_after(old(buf)@, x, y, area, views_of(items@), range, selected as int, *config)
            } else {
                old(buf)@.at(x, y)
            } by {
                if clip.contains(x, y) && top <= y - clip.y < top + height {
                    lemma_item_at_row_is(
                        heights,
                        start as int,
                        end as int,
                        i as int,
                        y - clip.y - top,
                    );
                }
            }
        }
        top = top + height as u16;
        i = i + 1;
    }
    proof {
        assert forall|x: int, y: int| old(buf)@.area.contains(x, y) implies #[trigger] buf@.at(
            x,
            y,
        ) == cell_after(old(buf)@, x, y, area, views_of(items@), range, selected as int, *config) by {
            if clip.contains(x, y) && y - clip.y >= top {
                lemma_item_at_row(heights, start as int, end as int, y - clip.y);
                match item_at_row(heights, start as int, end as int, y - clip.y) {
                    Some((j, r)) => {
                        lemma_span_monotonic(heights, start as int, start as int, j + 1, end as int);
                    },
                    None => {},
                }
            }
        }
    }
}

} // verus!
