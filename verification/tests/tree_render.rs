use kam::tree::record::{FlattenedItem, TaskRecord};
use kam::tree::render::{paint, StyleConfig};
use kam::tree::surface::{Buffer, Cell, Color, Rect, Style};
use kam::tree::view::{draw, heights, render, update, Command, ViewportState};
use kam::tree::viewport::VisibleRange;

fn render_config() -> StyleConfig {
    StyleConfig {
        indicator_glyph: ">>".to_string(),
        highlight_style: Style { fg: Some(Color::Black), bg: Some(Color::Yellow) },
        base_style: Style { fg: Some(Color::White), bg: None },
        indent_unit: 2,
    }
}

fn render_item(content: &str, depth: u128) -> FlattenedItem<'_> {
    FlattenedItem { content, id: 0, depth, complete: false }
}

fn render_row(buf: &Buffer, y: u16) -> String {
    let area = buf.area();
    (area.x..area.x + area.width).map(|x| buf.get(x, y).unwrap().symbol).collect()
}

fn render_style(buf: &Buffer, x: u16, y: u16) -> Style {
    buf.get(x, y).unwrap().style
}

fn render_filled(area: Rect, symbol: char) -> Buffer {
    let mut buf = Buffer::empty(area);
    let area = buf.area();
    for y in area.y..area.y + area.height {
        for x in area.x..area.x + area.width {
            buf.put(x, y, Cell { symbol, style: Style { fg: None, bg: Some(Color::Blue) } });
        }
    }
    buf
}

#[test]
fn paint_writes_glyph_indent_text_and_blanks() {
    let items = vec![render_item("alpha", 0), render_item("beta", 2), render_item("gamma", 4)];
    let mut buf = render_filled(Rect::new(0, 0, 12, 4), '#');
    let range = VisibleRange { start: 0, end: 3 };
    paint(&items, range, 1, &render_config(), Rect::new(0, 0, 12, 4), &mut buf);
    assert_eq!(render_row(&buf, 0), "  alpha     ");
    assert_eq!(render_row(&buf, 1), ">>  beta    ");
    assert_eq!(render_row(&buf, 2), "      gamma ");
    assert_eq!(render_row(&buf, 3), "############");
}

#[test]
fn paint_lays_base_and_highlight_over_the_old_style() {
    let items = vec![render_item("a", 0), render_item("b", 0)];
    let mut buf = render_filled(Rect::new(0, 0, 6, 3), '#');
    paint(&items, VisibleRange { start: 0, end: 2 }, 1, &render_config(), Rect::new(0, 0, 6, 3), &mut buf);
    for x in 0..6 {
        assert_eq!(render_style(&buf, x, 0), Style { fg: Some(Color::White), bg: Some(Color::Blue) });
        assert_eq!(render_style(&buf, x, 1), Style { fg: Some(Color::Black), bg: Some(Color::Yellow) });
        assert_eq!(render_style(&buf, x, 2), Style { fg: None, bg: Some(Color::Blue) });
    }
}

#[test]
fn paint_marks_only_the_first_row_of_a_selected_item_with_more_rows() {
    let items = vec![render_item("one\ntwo\nthree", 1), render_item("next", 0)];
    let mut buf = Buffer::empty(Rect::new(0, 0, 9, 5));
    paint(&items, VisibleRange { start: 0, end: 2 }, 0, &render_config(), Rect::new(0, 0, 9, 5), &mut buf);
    assert_eq!(render_row(&buf, 0), ">> one   ");
    assert_eq!(render_row(&buf, 1), "   two   ");
    assert_eq!(render_row(&buf, 2), "   three ");
    assert_eq!(render_row(&buf, 3), "  next   ");
    assert_eq!(render_row(&buf, 4), "         ");
    let highlight = Style { fg: Some(Color::Black), bg: Some(Color::Yellow) };
    for y in 0..3 {
        for x in 0..9 {
            assert_eq!(render_style(&buf, x, y), highlight);
        }
    }
    assert_eq!(render_style(&buf, 0, 3), Style { fg: Some(Color::White), bg: None });
    assert_eq!(render_style(&buf, 0, 4), Style::plain());
}

#[test]
fn paint_cuts_text_at_the_width_of_the_area() {
    let items = vec![render_item("a long task name", 2), render_item("x", 30)];
    let mut buf = Buffer::empty(Rect::new(0, 0, 8, 2));
    paint(&items, VisibleRange { start: 0, end: 2 }, 0, &render_config(), Rect::new(0, 0, 8, 2), &mut buf);
    assert_eq!(render_row(&buf, 0), ">>  a lo");
    assert_eq!(render_row(&buf, 1), "        ");
}

#[test]
fn paint_cuts_the_glyph_where_the_area_is_narrower() {
    let items = vec![render_item("abc", 0)];
    let mut buf = render_filled(Rect::new(0, 0, 3, 1), '#');
    paint(&items, VisibleRange { start: 0, end: 1 }, 0, &render_config(), Rect::new(0, 0, 1, 1), &mut buf);
    assert_eq!(render_row(&buf, 0), ">##");
}

#[test]
fn paint_is_confined_to_the_target_area() {
    let items = vec![render_item("alpha", 0), render_item("beta", 0)];
    let mut buf = render_filled(Rect::new(0, 0, 10, 5), '#');
    paint(&items, VisibleRange { start: 0, end: 2 }, 0, &render_config(), Rect::new(2, 1, 6, 3), &mut buf);
    assert_eq!(render_row(&buf, 0), "##########");
    assert_eq!(render_row(&buf, 1), "##>>alph##");
    assert_eq!(render_row(&buf, 2), "##  beta##");
    assert_eq!(render_row(&buf, 3), "##########");
    assert_eq!(render_row(&buf, 4), "##########");
    assert_eq!(render_style(&buf, 1, 1), Style { fg: None, bg: Some(Color::Blue) });
    assert_eq!(render_style(&buf, 8, 2), Style { fg: None, bg: Some(Color::Blue) });
}

#[test]
fn paint_on_an_area_that_sticks_out_of_the_buffer_paints_the_overlap() {
    let items = vec![render_item("alpha", 0), render_item("beta", 0), render_item("gamma", 0)];
    let mut buf = render_filled(Rect::new(5, 5, 6, 2), '#');
    paint(&items, VisibleRange { start: 0, end: 3 }, 2, &render_config(), Rect::new(7, 6, 50, 50), &mut buf);
    assert_eq!(render_row(&buf, 5), "######");
    assert_eq!(render_row(&buf, 6), "##  al");
}

#[test]
fn paint_skips_an_item_that_does_not_fit_whole_and_all_after_it() {
    let items = vec![render_item("a", 0), render_item("b\nc\nd", 0), render_item("e", 0)];
    let mut buf = render_filled(Rect::new(0, 0, 4, 3), '#');
    paint(&items, VisibleRange { start: 0, end: 3 }, 0, &render_config(), Rect::new(0, 0, 4, 3), &mut buf);
    assert_eq!(render_row(&buf, 0), ">>a ");
    assert_eq!(render_row(&buf, 1), "####");
    assert_eq!(render_row(&buf, 2), "####");
}

#[test]
fn paint_on_no_area_is_a_no_op() {
    let items = vec![render_item("a", 0)];
    let before = render_filled(Rect::new(0, 0, 4, 3), '#');
    for area in [Rect::new(0, 0, 0, 3), Rect::new(0, 0, 4, 0), Rect::new(9, 9, 4, 4)] {
        let mut buf = render_filled(Rect::new(0, 0, 4, 3), '#');
        paint(&items, VisibleRange { start: 0, end: 1 }, 0, &render_config(), area, &mut buf);
        assert_eq!(buf, before);
    }
}

#[test]
fn paint_reads_a_range_past_the_items_as_ending_with_them() {
    let items = vec![render_item("a", 0), render_item("b", 0)];
    let mut buf = render_filled(Rect::new(0, 0, 4, 3), '#');
    paint(&items, VisibleRange { start: 1, end: 40 }, 7, &render_config(), Rect::new(0, 0, 4, 3), &mut buf);
    assert_eq!(render_row(&buf, 0), "  b ");
    assert_eq!(render_row(&buf, 1), "####");
    let before = render_filled(Rect::new(0, 0, 4, 3), '#');
    let mut other = render_filled(Rect::new(0, 0, 4, 3), '#');
    paint(&items, VisibleRange { start: 5, end: 9 }, 0, &render_config(), Rect::new(0, 0, 4, 3), &mut other);
    assert_eq!(other, before);
    paint(&items, VisibleRange { start: 2, end: 1 }, 0, &render_config(), Rect::new(0, 0, 4, 3), &mut other);
    assert_eq!(other, before);
}

#[test]
fn heights_counts_the_lines_of_each_item() {
    let items = vec![render_item("a", 0), render_item("b\nc", 0), render_item("", 0), render_item("d\n", 0)];
    assert_eq!(heights(&items), vec![1, 2, 1, 1]);
}

#[test]
fn render_scrolls_to_the_selection_and_writes_the_offset_back() {
    let names: Vec<String> = (0..10).map(|i| format!("t{i}")).collect();
    let items: Vec<FlattenedItem> = names.iter().map(|n| render_item(n, 0)).collect();
    let mut buf = Buffer::empty(Rect::new(0, 0, 6, 3));
    let mut state = ViewportState { offset: 0, selected: 7 };
    render(&items, &render_config(), &mut state, Rect::new(0, 0, 6, 3), &mut buf);
    assert_eq!(state, ViewportState { offset: 5, selected: 7 });
    assert_eq!(render_row(&buf, 0), "  t5  ");
    assert_eq!(render_row(&buf, 1), "  t6  ");
    assert_eq!(render_row(&buf, 2), ">>t7  ");
}

#[test]
fn render_scrolls_up_when_the_selection_moves_above_the_offset() {
    let names: Vec<String> = (0..10).map(|i| format!("t{i}")).collect();
    let items: Vec<FlattenedItem> = names.iter().map(|n| render_item(n, 0)).collect();
    let mut buf = Buffer::empty(Rect::new(0, 0, 6, 3));
    let mut state = ViewportState { offset: 5, selected: 2 };
    render(&items, &render_config(), &mut state, Rect::new(0, 0, 6, 3), &mut buf);
    assert_eq!(state, ViewportState { offset: 2, selected: 2 });
    assert_eq!(render_row(&buf, 0), ">>t2  ");
    assert_eq!(render_row(&buf, 2), "  t4  ");
}

#[test]
fn render_twice_gives_the_same_buffer_and_state() {
    let names = ["one", "two\nlines", "three", "four\n4\n4", "five", "six"];
    for selected in 0..8usize {
        for offset in 0..8usize {
            let items: Vec<FlattenedItem> =
                names.iter().enumerate().map(|(i, n)| render_item(n, (i % 3) as u128)).collect();
            let mut buf = render_filled(Rect::new(0, 0, 9, 4), '#');
            let mut state = ViewportState { offset, selected };
            render(&items, &render_config(), &mut state, Rect::new(1, 0, 8, 4), &mut buf);
            let once = buf.clone();
            let after = state;
            render(&items, &render_config(), &mut state, Rect::new(1, 0, 8, 4), &mut buf);
            assert_eq!(buf, once);
            assert_eq!(state, after);
        }
    }
}

#[test]
fn render_without_items_or_rows_changes_nothing() {
    let before = render_filled(Rect::new(0, 0, 5, 3), '#');
    let none: Vec<FlattenedItem> = Vec::new();
    let mut buf = render_filled(Rect::new(0, 0, 5, 3), '#');
    let mut state = ViewportState { offset: 4, selected: 9 };
    render(&none, &render_config(), &mut state, Rect::new(0, 0, 5, 3), &mut buf);
    assert_eq!(buf, before);
    assert_eq!(state, ViewportState { offset: 4, selected: 9 });
    let items = vec![render_item("a", 0), render_item("b", 0)];
    render(&items, &render_config(), &mut state, Rect::new(0, 0, 5, 0), &mut buf);
    assert_eq!(buf, before);
    assert_eq!(state, ViewportState { offset: 4, selected: 9 });
}

#[test]
fn render_highlights_the_last_item_for_a_selection_past_the_end() {
    let items = vec![render_item("a", 0), render_item("b", 0)];
    let mut buf = Buffer::empty(Rect::new(0, 0, 4, 4));
    let mut state = ViewportState { offset: 0, selected: 50 };
    render(&items, &render_config(), &mut state, Rect::new(0, 0, 4, 4), &mut buf);
    assert_eq!(render_row(&buf, 0), "  a ");
    assert_eq!(render_row(&buf, 1), ">>b ");
    assert_eq!(state, ViewportState { offset: 0, selected: 50 });
}

#[test]
fn draw_flattens_then_renders() {
    let records = vec![
        TaskRecord { id: 1, name: "home".to_string(), complete: false, parent: None },
        TaskRecord { id: 2, name: "dishes".to_string(), complete: true, parent: Some(1) },
        TaskRecord { id: 3, name: "pans".to_string(), complete: false, parent: Some(2) },
        TaskRecord { id: 4, name: "work".to_string(), complete: false, parent: None },
    ];
    let mut stack = Vec::new();
    let mut state = ViewportState { offset: 0, selected: 2 };
    let mut buf = Buffer::empty(Rect::new(0, 0, 12, 5));
    draw(Rect::new(0, 0, 12, 5), &mut buf, &records, &mut stack, &mut state, &render_config());
    assert_eq!(render_row(&buf, 0), "  home      ");
    assert_eq!(render_row(&buf, 1), "    dishes  ");
    assert_eq!(render_row(&buf, 2), ">>    pans  ");
    assert_eq!(render_row(&buf, 3), "  work      ");
    assert_eq!(render_row(&buf, 4), "            ");
    assert!(stack.is_empty());
    assert_eq!(state, ViewportState { offset: 0, selected: 2 });
}

#[test]
fn draw_keeps_the_stack_for_the_next_frame() {
    let records = vec![
        TaskRecord { id: 2, name: "a".to_string(), complete: false, parent: Some(1) },
        TaskRecord { id: 3, name: "b".to_string(), complete: false, parent: Some(2) },
    ];
    let mut stack = Vec::new();
    let mut state = ViewportState { offset: 0, selected: 0 };
    let mut buf = Buffer::empty(Rect::new(0, 0, 8, 2));
    draw(Rect::new(0, 0, 8, 2), &mut buf, &records, &mut stack, &mut state, &render_config());
    assert_eq!(stack, vec![1, 2]);
    assert_eq!(render_row(&buf, 0), ">>  a   ");
    assert_eq!(render_row(&buf, 1), "      b ");
    let once = buf.clone();
    draw(Rect::new(0, 0, 8, 2), &mut buf, &records, &mut stack, &mut state, &render_config());
    assert_eq!(stack, vec![1, 2]);
    assert_eq!(buf, once);
}

#[test]
fn update_moves_the_selection_by_one() {
    let mut state = ViewportState { offset: 0, selected: 3 };
    assert!(!update(&mut state, Command::Up, 10));
    assert_eq!(state, ViewportState { offset: 0, selected: 2 });
    assert!(!update(&mut state, Command::Down, 10));
    assert!(!update(&mut state, Command::Down, 10));
    assert_eq!(state, ViewportState { offset: 0, selected: 4 });
}

#[test]
fn update_stops_at_the_first_and_the_last_item() {
    let mut state = ViewportState { offset: 0, selected: 0 };
    update(&mut state, Command::Up, 3);
    assert_eq!(state.selected, 0);
    state.selected = 2;
    update(&mut state, Command::Down, 3);
    assert_eq!(state.selected, 2);
}

#[test]
fn update_brings_indices_into_range_and_the_offset_up_to_the_selection() {
    let mut state = ViewportState { offset: 80, selected: 90 };
    update(&mut state, Command::Up, 5);
    assert_eq!(state, ViewportState { offset: 3, selected: 3 });
    let mut state = ViewportState { offset: 4, selected: 2 };
    update(&mut state, Command::Down, 5);
    assert_eq!(state, ViewportState { offset: 3, selected: 3 });
    let mut state = ViewportState { offset: 4, selected: 2 };
    update(&mut state, Command::Up, 0);
    assert_eq!(state, ViewportState { offset: 0, selected: 0 });
}

#[test]
fn update_quit_asks_to_quit_and_moves_nothing() {
    let mut state = ViewportState { offset: 1, selected: 2 };
    assert!(update(&mut state, Command::Quit, 5));
    assert_eq!(state, ViewportState { offset: 1, selected: 2 });
}

#[test]
fn paint_with_a_depth_wider_than_any_area_writes_blanks() {
    let items = vec![render_item("deep", u128::MAX)];
    let mut buf = render_filled(Rect::new(0, 0, 6, 1), '#');
    paint(&items, VisibleRange { start: 0, end: 1 }, 0, &render_config(), Rect::new(0, 0, 6, 1), &mut buf);
    assert_eq!(render_row(&buf, 0), ">>    ");
}
