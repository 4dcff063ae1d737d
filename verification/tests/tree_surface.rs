use kam::tree::surface::{Buffer, Cell, Color, Rect, Style};

#[test]
fn rect_new_cuts_off_at_the_last_column_and_row() {
    assert_eq!(Rect::new(1, 2, 3, 4), Rect { x: 1, y: 2, width: 3, height: 4 });
    assert_eq!(Rect::new(65530, 0, 10, 1), Rect { x: 65530, y: 0, width: 5, height: 1 });
    assert_eq!(Rect::new(0, 65535, 1, 7), Rect { x: 0, y: 65535, width: 1, height: 0 });
}

#[test]
fn rect_is_empty_without_width_or_height() {
    assert!(Rect::new(3, 3, 0, 5).is_empty());
    assert!(Rect::new(3, 3, 5, 0).is_empty());
    assert!(!Rect::new(3, 3, 1, 1).is_empty());
}

#[test]
fn rect_intersection_of_overlapping_rects() {
    let a = Rect::new(0, 0, 10, 10);
    let b = Rect::new(5, 7, 10, 10);
    assert_eq!(a.intersection(b), Rect { x: 5, y: 7, width: 5, height: 3 });
    assert_eq!(b.intersection(a), Rect { x: 5, y: 7, width: 5, height: 3 });
}

#[test]
fn rect_intersection_of_disjoint_rects_is_empty() {
    let a = Rect::new(0, 0, 4, 4);
    let b = Rect::new(4, 0, 4, 4);
    assert!(a.intersection(b).is_empty());
    let c = Rect::new(10, 10, 2, 2);
    assert!(a.intersection(c).is_empty());
}

#[test]
fn rect_intersection_with_unclipped_rect_does_not_overflow() {
    let a = Rect { x: 65535, y: 65535, width: 65535, height: 65535 };
    let b = Rect { x: 65000, y: 65000, width: 65535, height: 65535 };
    assert_eq!(a.intersection(b), Rect { x: 65535, y: 65535, width: 65000, height: 65000 });
}

#[test]
fn style_patch_keeps_what_the_patch_does_not_name() {
    let base = Style { fg: Some(Color::Red), bg: Some(Color::Black) };
    let over = Style { fg: Some(Color::Green), bg: None };
    assert_eq!(base.patch(over), Style { fg: Some(Color::Green), bg: Some(Color::Black) });
    assert_eq!(base.patch(Style::plain()), base);
    assert_eq!(Style::plain().patch(base), base);
    assert_eq!(base.patch(over).patch(over), base.patch(over));
}

#[test]
fn an_empty_buffer_is_blank_everywhere() {
    let buf = Buffer::empty(Rect::new(2, 3, 4, 2));
    assert_eq!(buf.area(), Rect::new(2, 3, 4, 2));
    for y in 3..5 {
        for x in 2..6 {
            assert_eq!(buf.get(x, y), Some(Cell { symbol: ' ', style: Style::plain() }));
        }
    }
    assert_eq!(buf.get(1, 3), None);
    assert_eq!(buf.get(6, 3), None);
    assert_eq!(buf.get(2, 2), None);
    assert_eq!(buf.get(2, 5), None);
}

#[test]
fn put_changes_one_cell() {
    let mut buf = Buffer::empty(Rect::new(1, 1, 3, 3));
    let cell = Cell { symbol: 'x', style: Style { fg: Some(Color::Blue), bg: None } };
    buf.put(2, 3, cell);
    for y in 1..4 {
        for x in 1..4 {
            let expected = if (x, y) == (2, 3) {
                cell
            } else {
                Cell { symbol: ' ', style: Style::plain() }
            };
            assert_eq!(buf.get(x, y), Some(expected));
        }
    }
}

#[test]
fn a_buffer_over_no_area_holds_nothing() {
    let buf = Buffer::empty(Rect::new(0, 0, 0, 9));
    assert_eq!(buf.get(0, 0), None);
}
