use editor_core::buffer::{Buffer, BufferId};
use editor_core::cursor::Cursor;
use editor_core::window::{column_widths, scroll, Area, Offset, Window, WindowId, Windows};
use editor_core::EditorError;
use ropey::Rope;

fn lines(n: usize) -> Rope {
    let mut s = String::new();
    for i in 0..n {
        if i > 0 {
            s.push('\n');
        }
        s.push_str("line");
    }
    Rope::from_str(&s)
}

#[test]
fn scroll_stays_while_the_caret_is_far_from_the_edges() {
    assert_eq!(scroll(0, 10, 40, 100, 12), 0);
    assert_eq!(scroll(5, 20, 40, 100, 12), 5);
}

#[test]
fn scroll_pushes_the_view_on_near_the_bottom() {
    // 40 cells shown, 12 kept free: the caret may sink to the 28th
    assert_eq!(scroll(0, 27, 40, 100, 12), 0);
    assert_eq!(scroll(0, 28, 40, 100, 12), 1);
    assert_eq!(scroll(0, 30, 40, 100, 12), 3);
}

#[test]
fn scroll_pulls_the_view_back_near_the_top() {
    assert_eq!(scroll(20, 25, 40, 100, 12), 13);
    assert_eq!(scroll(20, 5, 40, 100, 12), 0);
}

#[test]
fn scroll_is_held_once_the_end_is_shown() {
    // 50 lines, 40 shown from 10 on: the view ends where the text ends
    assert_eq!(scroll(10, 45, 40, 50, 12), 10);
    assert_eq!(scroll(10, 49, 40, 50, 12), 10);
    // one line more, and the view moves
    assert_eq!(scroll(10, 45, 40, 51, 12), 18);
}

#[test]
fn scroll_without_scrolloff() {
    assert_eq!(scroll(0, 8, 9, 50, 0), 0);
    assert_eq!(scroll(0, 9, 9, 50, 0), 1);
    assert_eq!(scroll(7, 3, 9, 50, 0), 3);
}

#[test]
fn scrolloff_that_exceeds_the_viewport() {
    // 50 lines, a window 10 high, 12 to be kept free: nothing can be kept
    // free, and the view is pushed past the caret
    for line in 0..50usize {
        assert_eq!(scroll(0, line, 9, 50, 12), line + 1);
    }
    // unless all of the text is shown
    for line in 0..9usize {
        assert_eq!(scroll(0, line, 9, 9, 12), 0);
    }
}

#[test]
fn the_caret_line_is_in_view_after_scrolling() {
    for offset in [0usize, 3, 17, 40] {
        for line in 0..60usize {
            let after = scroll(offset, line, 9, 60, 3);
            assert!(after <= line && line <= after + 9 - 1, "{} {}", offset, line);
        }
    }
}

#[test]
fn scroll_at_the_greatest_numbers() {
    // pushed past a caret at the greatest number, the offset stays that number
    assert_eq!(scroll(0, usize::MAX, 0, 5, 0), usize::MAX);
    assert_eq!(scroll(0, usize::MAX, 0, 0, 0), 0);
    assert_eq!(scroll(usize::MAX, usize::MAX, usize::MAX, usize::MAX, usize::MAX), 0);
}

#[test]
fn position_cursor_in_view_scrolls_both_axes() {
    let text = lines(50);
    let mut buf = Buffer::new(BufferId::new(0), text, None);
    let mut window = Window::new(WindowId(0), BufferId::new(0), Area::new(0, 0, 80, 10));
    // the caret on line 20
    buf.set_cursor(WindowId(0), Cursor::with_range(100, 101));
    assert_eq!(window.position_cursor_in_view(&buf, 3), Ok(()));
    assert_eq!(window.offset, Offset { vertical: 15, horizontal: 0 });
    // and back up
    buf.set_cursor(WindowId(0), Cursor::with_range(52, 53));
    assert_eq!(window.position_cursor_in_view(&buf, 3), Ok(()));
    assert_eq!(window.offset, Offset { vertical: 7, horizontal: 0 });
}

#[test]
fn position_cursor_in_view_scrolls_sideways() {
    let mut long = String::new();
    for _ in 0..30 {
        long.push_str("0123456789");
    }
    let mut buf = Buffer::new(BufferId::new(0), Rope::from_str(&long), None);
    let mut window = Window::new(WindowId(4), BufferId::new(0), Area::new(0, 0, 21, 10));
    buf.set_cursor(WindowId(4), Cursor::with_range(100, 101));
    assert_eq!(window.position_cursor_in_view(&buf, 5), Ok(()));
    // 20 columns shown, 5 kept free: the caret is the 15th
    assert_eq!(window.offset, Offset { vertical: 0, horizontal: 86 });
}

#[test]
fn position_cursor_in_view_needs_a_cursor() {
    let buf = Buffer::new(BufferId::new(0), lines(5), None);
    let mut window = Window::new(WindowId(2), BufferId::new(0), Area::new(0, 0, 80, 10));
    assert_eq!(window.position_cursor_in_view(&buf, 3), Err(EditorError::NoSuchView));
    assert_eq!(window.offset, Offset { vertical: 0, horizontal: 0 });
}

#[test]
fn a_new_window() {
    let window = Window::new(WindowId(3), BufferId::new(9), Area::new(1, 2, 30, 40));
    assert_eq!(window.id, WindowId(3));
    assert_eq!(window.buffer_id, BufferId::new(9));
    assert!(!window.focused);
    assert_eq!(window.offset, Offset::default());
    assert_eq!(window.area, Area { x: 1, y: 2, width: 30, height: 40 });
    assert_eq!(window.cursor.range, 0..1);
}

#[test]
fn set_area_changes_the_area_alone() {
    let mut window = Window::new(WindowId(3), BufferId::new(9), Area::new(1, 2, 30, 40));
    window.set_area(Area::new(5, 6, 7, 8));
    assert_eq!(window.area, Area::new(5, 6, 7, 8));
    assert_eq!(window.id, WindowId(3));
}

#[test]
fn visible_ranges() {
    let buf = Buffer::new(BufferId::new(0), lines(50), None);
    let mut window = Window::new(WindowId(0), BufferId::new(0), Area::new(0, 0, 80, 10));
    // lines are five bytes each, the last four
    assert_eq!(window.visible_byte_range(&buf), (0, 50));
    assert_eq!(window.visible_char_range(&buf), (0, 50));
    window.offset.vertical = 45;
    assert_eq!(window.visible_byte_range(&buf), (225, 249));
    assert_eq!(window.visible_char_range(&buf), (225, 249));
    window.offset.vertical = 70;
    assert_eq!(window.visible_byte_range(&buf), (245, 249));
    assert_eq!(window.visible_char_range(&buf), (249, 249));
}

#[test]
fn visible_bytes_of_text_with_wide_characters() {
    let buf = Buffer::new(BufferId::new(0), Rope::from_str("\u{4f60}\n\u{597d}\nab"), None);
    let mut window = Window::new(WindowId(0), BufferId::new(0), Area::new(0, 0, 80, 2));
    window.offset.vertical = 1;
    assert_eq!(window.visible_byte_range(&buf), (4, 10));
    assert_eq!(window.visible_char_range(&buf), (2, 6));
}

#[test]
fn windows_get_their_places_as_identities() {
    let mut windows = Windows::new(Area::new(0, 0, 80, 24));
    assert!(windows.is_empty());
    assert_eq!(windows.count(), 0);
    assert_eq!(windows.add(BufferId::new(7)), WindowId(0));
    assert_eq!(windows.add(BufferId::new(8)), WindowId(1));
    assert_eq!(windows.add(BufferId::new(7)), WindowId(2));
    assert!(!windows.is_empty());
    assert_eq!(windows.count(), 3);
    assert_eq!(windows.nodes[1].buffer_id, BufferId::new(8));
    assert_eq!(windows.get_by_buffer_id(BufferId::new(7)).unwrap().id, WindowId(0));
    assert_eq!(windows.get_by_buffer_id(BufferId::new(8)).unwrap().id, WindowId(1));
    assert!(windows.get_by_buffer_id(BufferId::new(9)).is_none());
}

#[test]
fn one_window_has_the_focus_at_most() {
    let mut windows = Windows::new(Area::new(0, 0, 80, 24));
    windows.add(BufferId::new(0));
    windows.add(BufferId::new(0));
    assert!(windows.get_focused().is_none());
    windows.focus(WindowId(0));
    assert_eq!(windows.get_focused().unwrap().id, WindowId(0));
    assert!(windows.nodes[0].focused && !windows.nodes[1].focused);
    windows.focus(WindowId(1));
    assert_eq!(windows.focused_node, Some(WindowId(1)));
    assert!(!windows.nodes[0].focused && windows.nodes[1].focused);
    // no such window: nothing changes
    windows.focus(WindowId(5));
    assert_eq!(windows.focused_node, Some(WindowId(1)));
    assert!(!windows.nodes[0].focused && windows.nodes[1].focused);
    windows.get_focused_mut().unwrap().offset.vertical = 9;
    assert_eq!(windows.nodes[1].offset.vertical, 9);
}

#[test]
fn open_adds_a_window_with_the_focus() {
    let mut windows = Windows::new(Area::new(0, 0, 80, 24));
    assert_eq!(windows.open(BufferId::new(3)), WindowId(0));
    assert_eq!(windows.open(BufferId::new(4)), WindowId(1));
    assert_eq!(windows.focused_node, Some(WindowId(1)));
    assert!(!windows.nodes[0].focused && windows.nodes[1].focused);
}

#[test]
fn windows_share_the_width_of_the_screen() {
    let mut windows = Windows::new(Area::new(0, 0, 80, 24));
    windows.add(BufferId::new(0));
    assert_eq!(windows.nodes[0].area, Area::new(0, 0, 80, 24));
    windows.add(BufferId::new(1));
    assert_eq!(windows.nodes[0].area, Area::new(0, 0, 40, 24));
    assert_eq!(windows.nodes[1].area, Area::new(40, 0, 40, 24));
    windows.add(BufferId::new(2));
    assert_eq!(windows.nodes[0].area, Area::new(0, 0, 27, 24));
    assert_eq!(windows.nodes[1].area, Area::new(27, 0, 27, 24));
    assert_eq!(windows.nodes[2].area, Area::new(54, 0, 26, 24));
}

#[test]
fn three_windows_on_ninety_columns() {
    let mut windows = Windows::new(Area::new(0, 0, 90, 24));
    windows.add(BufferId::new(0));
    windows.add(BufferId::new(0));
    windows.add(BufferId::new(1));
    assert_eq!(windows.nodes[0].area, Area::new(0, 0, 30, 24));
    assert_eq!(windows.nodes[1].area, Area::new(30, 0, 30, 24));
    assert_eq!(windows.nodes[2].area, Area::new(60, 0, 30, 24));
}

#[test]
fn windows_on_a_screen_that_does_not_start_at_the_corner() {
    let mut windows = Windows::new(Area::new(4, 3, 60, 20));
    windows.add(BufferId::new(0));
    windows.add(BufferId::new(1));
    assert_eq!(windows.nodes[0].area, Area::new(4, 3, 30, 20));
    assert_eq!(windows.nodes[1].area, Area::new(34, 3, 30, 20));
}

#[test]
fn reorder_without_windows_does_nothing() {
    let mut windows = Windows::new(Area::new(0, 0, 80, 24));
    windows.reorder_window_size();
    assert_eq!(windows.count(), 0);
}

#[test]
fn assign_areas_goes_as_far_as_both_go() {
    let mut windows = Windows::new(Area::new(0, 0, 80, 24));
    windows.add(BufferId::new(0));
    windows.add(BufferId::new(1));
    windows.assign_areas(&vec![Area::new(1, 1, 1, 1)]);
    assert_eq!(windows.nodes[0].area, Area::new(1, 1, 1, 1));
    assert_eq!(windows.nodes[1].area, Area::new(40, 0, 40, 24));
    windows.assign_areas(&vec![Area::new(2, 2, 2, 2), Area::new(3, 3, 3, 3), Area::new(4, 4, 4, 4)]);
    assert_eq!(windows.nodes[0].area, Area::new(2, 2, 2, 2));
    assert_eq!(windows.nodes[1].area, Area::new(3, 3, 3, 3));
}

#[test]
fn each_window_gets_an_equal_share_of_the_cells() {
    assert_eq!(column_widths(80, 0), Vec::<u16>::new());
    assert_eq!(column_widths(80, 1), vec![80]);
    assert_eq!(column_widths(80, 2), vec![40, 40]);
    assert_eq!(column_widths(80, 3), vec![27, 27, 26]);
    assert_eq!(column_widths(90, 3), vec![30, 30, 30]);
    assert_eq!(column_widths(80, 7), vec![12, 12, 12, 11, 11, 11, 11]);
    assert_eq!(column_widths(3, 5), vec![1, 1, 1, 0, 0]);
    assert_eq!(column_widths(0, 4), vec![0, 0, 0, 0]);
    assert_eq!(column_widths(u16::MAX, 1), vec![u16::MAX]);
    assert_eq!(column_widths(u16::MAX, 2), vec![32768, 32767]);
    let many = column_widths(250, 101);
    assert_eq!(many.iter().map(|w| *w as usize).sum::<usize>(), 250);
    assert_eq!(many[47], 3);
    assert_eq!(many[48], 2);
}
