use vstd::prelude::*;
use crate::tree::builder::{flatten, flattened, stack_after};
use crate::tree::record::{parents_of, views_of, FlattenedItem, ItemView, TaskRecord};
use crate::tree::render::{cell_after, heights_of, paint, StyleConfig};
use crate::tree::surface::{lemma_grid_equal, Buffer, Cell, Grid, Rect};
use crate::tree::text::height_of;
use crate::tree::viewport::{
    clamp, clamp_index, law_window_settles, window, window_end, window_offset, VisibleRange,
};

verus! {

/// Where the view stands: kept by the caller from one frame to the next.
#[derive(Clone, Copy, Debug, PartialEq, Eq, Structural)]
pub struct ViewportState {
    /// Index of the first item that may be shown.
    pub offset: usize,
    /// Index of the highlighted item.
    pub selected: usize,
}

/// What the user asked for, already decoded from the keys pressed.
#[derive(Clone, Copy, Debug, PartialEq, Eq, Structural)]
pub enum Command {
    Up,
    Down,
    Quit,
}

/// The range of items that a frame shows.
pub open spec fn frame_range(heights: Seq<usize>, state: ViewportState, rows: int) -> VisibleRange {
    VisibleRange {
        start: window_offset(heights, state.offset as int, state.selected as int, rows) as usize,
        end: window_end(heights, state.offset as int, state.selected as int, rows) as usize,
    }
}

/// The cell at column `x` and row `y` of the screen after a frame has been
/// rendered on `area`.
pub open spec fn rendered_cell(
    grid: Grid,
    x: int,
    y: int,
    area: Rect,
    items: Seq<ItemView>,
    state: ViewportState,
    config: StyleConfig,
) -> Cell {
    cell_after(
        grid,
        x,
        y,
        area,
        items,
        frame_range(heights_of(items), state, area.meet(grid.area).height as int),
        clamp_index(state.selected as int, items.len() as int),
        config,
    )
}

/// The offset that a frame rendered on `area` leaves in the state.
pub open spec fn rendered_offset(
    grid: Grid,
    area: Rect,
    items: Seq<ItemView>,
    state: ViewportState,
) -> int {
    window_offset(
        heights_of(items),
        state.offset as int,
        state.selected as int,
        area.meet(grid.area).height as int,
    )
}

/// `after` is what a frame rendered on `area` makes of `before`: the same
/// area, and every cell as the frame leaves it.
pub open spec fn is_rendered(
    before: Grid,
    after: Grid,
    area: Rect,
    items: Seq<ItemView>,
    state: ViewportState,
    config: StyleConfig,
) -> bool {
    &&& after.wf()
    &&& after.area == before.area
    &&& forall|x: int, y: int|
        before.area.contains(x, y) ==> #[trigger] after.at(x, y) == rendered_cell(
            before,
            x,
            y,
            area,
            items,
            state,
            config,
        )
}

/// The selection after a command, among `total` items: one up or one down
/// where there is an item to go to, and in any case within the items.
pub open spec fn selection_after(selected: int, command: Command, total: int) -> int {
    let at = clamp_index(selected, total);
    match command {
        Command::Up => if at > 0 {
            at - 1
        } else {
            at
        },
        Command::Down => if at + 1 < total {
            at + 1
        } else {
            at
        },
        Command::Quit => at,
    }
}

/// The offset after a command: within the items, and no lower on the screen
/// than the new selection.
pub open spec fn offset_after(offset: int, selected: int, command: Command, total: int) -> int {
    let at = clamp_index(offset, total);
    let to = selection_after(selected, command, total);
    if to < at {
        to
    } else {
        at
    }
}

/// Measures every item: the number of rows that its text takes.
pub fn heights<'a>(items: &Vec<FlattenedItem<'a>>) -> (h: Vec<usize>)
    ensures
        h@ == heights_of(views_of(items@)),
{
    let mut h: Vec<usize> = Vec::new();
    let mut i: usize = 0;
    while i < items.len()
        invariant
            i <= items@.len(),
            h@.len() == i,
            forall|j: int| 0 <= j < i ==> h@[j] == heights_of(views_of(items@))[j],
        decreases items@.len() - i,
    {
        h.push(height_of(items[i].content));
        i = i + 1;
    }
    h
}

/// Renders one frame of the tree: scrolls so that the selection is shown,
/// paints the items that fit on `area`, and leaves the new offset in `state`.
///
/// The selection itself is not changed; an index past the last item
/// highlights the last item.
pub fn render<'a>(
    items: &Vec<FlattenedItem<'a>>,
    config: &StyleConfig,
    state: &mut ViewportState,
    area: Rect,
    buf: &mut Buffer,
)
    ensures
        is_rendered(old(buf)@, final(buf)@, area, views_of(items@), *old(state), *config),
        final(state).selected == old(state).selected,
        final(state).offset == rendered_offset(old(buf)@, area, views_of(items@), *old(state)),
{
    let clip = area.intersection(buf.area());
    let measured = heights(items);
    let (offset, range) = window(&measured, state.offset, state.selected, clip.height as usize);
    let selected = clamp(state.selected, items.len());
    paint(items, range, selected, config, area, buf);
    state.offset = offset;
}

/// Draws the tree for the current records: flattens them along the caller's
/// ancestor stack, then renders the frame.
pub fn draw<'a>(
    area: Rect,
    buf: &mut Buffer,
    records: &'a Vec<TaskRecord>,
    stack: &mut Vec<i64>,
    state: &mut ViewportState,
    config: &StyleConfig,
)
    ensures
        is_rendered(
            old(buf)@,
            final(buf)@,
            area,
            flattened(old(stack)@, records@, config.indent_unit as nat),
            *old(state),
            *config,
        ),
        final(stack)@ == stack_after(old(stack)@, parents_of(records@)),
        final(state).selected == old(state).selected,
        final(state).offset == rendered_offset(
            old(buf)@,
            area,
            flattened(old(stack)@, records@, config.indent_unit as nat),
            *old(state),
        ),
{
    let items = flatten(records, stack, config.indent_unit);
    render(&items, config, state, area, buf);
}

/// Applies a command to the state of a view over `total_items` items, and
/// says whether the command asks to quit.
///
/// The selection moves by one where it can, and both indices end up within
/// the items; nothing is flattened or measured.
pub fn update(state: &mut ViewportState, command: Command, total_items: usize) -> (quit: bool)
    ensures
        quit == (command == Command::Quit),
        final(state).selected == selection_after(
            old(state).selected as int,
            command,
            total_items as int,
        ),
        final(state).offset == offset_after(
            old(state).offset as int,
            old(state).selected as int,
            command,
            total_items as int,
        ),
{
    let at = clamp(state.selected, total_items);
    let to = match command {
        Command::Up => if at > 0 {
            at - 1
        } else {
            at
        },
        Command::Down => if total_items > 0 && at < total_items - 1 {
            at + 1
        } else {
            at
        },
        Command::Quit => at,
    };
    let offset = clamp(state.offset, total_items);
    state.selected = to;
    state.offset = if to < offset {
        to
    } else {
        offset
    };
    match command {
        Command::Quit => true,
        _ => false,
    }
}

/// A frame is fixed by what it is drawn from: two renderings of one grid from
/// the same items, state and configuration are the same grid.
pub proof fn law_render_is_determined(
    before: Grid,
    one: Grid,
    other: Grid,
    area: Rect,
    items: Seq<ItemView>,
    state: ViewportState,
    config: StyleConfig,
)
    requires
        before.wf(),
        is_rendered(before, one, area, items, state, config),
        is_rendered(before, other, area, items, state, config),
    ensures
        one == other,
{
    lemma_grid_equal(one, other);
}

/// Rendering writes nowhere but on `area`.
pub proof fn law_render_is_confined(
    before: Grid,
    after: Grid,
    area: Rect,
    items: Seq<ItemView>,
    state: ViewportState,
    config: StyleConfig,
    x: int,
    y: int,
)
    requires
        before.wf(),
        is_rendered(before, after, area, items, state, config),
        before.area.contains(x, y),
        !area.contains(x, y),
    ensures
        after.at(x, y) == before.at(x, y),
{
}

/// Without a row to draw on, or without an item to draw, rendering changes
/// neither the grid nor the offset.
pub proof fn law_render_of_nothing(
    before: Grid,
    after: Grid,
    area: Rect,
    items: Seq<ItemView>,
    state: ViewportState,
    config: StyleConfig,
)
    requires
        before.wf(),
        is_rendered(before, after, area, items, state, config),
        area.meet(before.area).height == 0 || items.len() == 0,
    ensures
        after == before,
        rendered_offset(before, area, items, state) == state.offset,
{
    lemma_grid_equal(after, before);
}

/// Rendering a second time, from the state that the first rendering left and
/// with everything else unchanged, changes nothing: the grid stays as the
/// first rendering left it, and so does the offset.
pub proof fn law_render_twice(
    before: Grid,
    once: Grid,
    twice: Grid,
    area: Rect,
    items: Seq<ItemView>,
    state: ViewportState,
    next: ViewportState,
    config: StyleConfig,
)
    requires
        before.wf(),
        is_rendered(before, once, area, items, state, config),
        next.selected == state.selected,
        next.offset == rendered_offset(before, area, items, state),
        is_rendered(once, twice, area, items, next, config),
    ensures
        twice == once,
        rendered_offset(once, area, items, next) == next.offset,
{
    let heights = heights_of(items);
    let clip = area.meet(before.area);
    let rows = clip.height as int;
    law_window_settles(heights, state.offset as int, state.selected as int, rows);
    lemma_grid_equal(twice, once);
}

} // verus!
