use editor_core::buffer::BufferId;
use editor_core::window::{Area, Window, WindowId, Windows};

/// The tile of window `i` of `count` on a screen of `whole`: an equal share
/// of the cells, and one more for the first windows while cells are left.
fn tile(whole: Area, count: usize, i: usize) -> Area {
    let span = if whole.x as usize + whole.width as usize > u16::MAX as usize {
        u16::MAX as usize - whole.x as usize
    } else {
        whole.width as usize
    };
    let share = span / count;
    let left_over = span % count;
    let start = i * share + i.min(left_over);
    let width = if i < left_over { share + 1 } else { share };
    Area::new((whole.x as usize + start) as u16, whole.y, width as u16, whole.height)
}

fn screens() -> Vec<Area> {
    vec![
        Area::new(0, 0, 80, 24),
        Area::new(0, 0, 0, 0),
        Area::new(0, 0, 1, 1),
        Area::new(3, 7, 2, 5),
        Area::new(4, 3, 60, 20),
        Area::new(0, 0, 10, 1),
        Area::new(17, 2, 133, 40),
        Area::new(0, 0, 250, 9),
        Area::new(1, 1, 999, 50),
        Area::new(0, 0, u16::MAX, u16::MAX),
        Area::new(100, 0, u16::MAX - 100, 3),
        Area::new(60000, 10, 9000, 20),
        Area::new(u16::MAX, 0, 50, 2),
    ]
}

/// `count` windows on a screen of `whole`, laid out once.
fn tiled(whole: Area, count: usize) -> Windows {
    let mut windows = Windows::new(whole);
    for i in 0..count {
        windows.nodes.push(Window::new(WindowId(i), BufferId::new(0), whole));
    }
    windows.reorder_window_size();
    windows
}

fn assert_tiled(whole: Area, count: usize) {
    let windows = tiled(whole, count);
    assert_eq!(windows.count(), count);
    for i in 0..count {
        assert_eq!(
            windows.nodes[i].area,
            tile(whole, count, i),
            "window {} of {} on {:?}",
            i,
            count,
            whole
        );
    }
}

#[test]
fn a_few_windows_are_tiled_side_by_side() {
    for whole in screens() {
        for count in 1..=9usize {
            assert_tiled(whole, count);
        }
    }
}

#[test]
fn more_windows_are_tiled_side_by_side() {
    for whole in [Area::new(0, 0, 80, 24), Area::new(17, 2, 133, 40), Area::new(1, 1, 999, 50)] {
        for count in [10usize, 11, 12, 13, 14, 16, 17, 19, 20, 23, 25, 29, 33] {
            assert_tiled(whole, count);
        }
    }
}

#[test]
fn many_windows_are_tiled_side_by_side() {
    for count in [34usize, 49, 50, 51, 66] {
        assert_tiled(Area::new(3, 0, 1000, 10), count);
    }
}

#[test]
fn a_hundred_windows_share_the_cells() {
    assert_tiled(Area::new(0, 0, 250, 9), 100);
}

#[test]
fn more_windows_than_cells() {
    let whole = Area::new(7, 1, 5, 9);
    let windows = tiled(whole, 8);
    for (i, node) in windows.nodes.iter().enumerate() {
        let expected = if i < 5 {
            Area::new(7 + i as u16, 1, 1, 9)
        } else {
            Area::new(12, 1, 0, 9)
        };
        assert_eq!(node.area, expected);
    }
    assert_tiled(Area::new(0, 0, 250, 9), 101);
}

#[test]
fn each_added_window_tiles_the_screen_anew() {
    let whole = Area::new(4, 3, 61, 20);
    let mut windows = Windows::new(whole);
    for count in 1..=12usize {
        windows.add(BufferId::new(count));
        for i in 0..count {
            assert_eq!(windows.nodes[i].area, tile(whole, count, i));
        }
    }
}

#[test]
fn tiles_cover_the_screen_and_are_equally_wide_within_a_cell() {
    for whole in [Area::new(5, 1, 211, 30), Area::new(0, 0, 90, 24), Area::new(65000, 0, 9000, 2)] {
        let right = (whole.x as usize + whole.width as usize).min(u16::MAX as usize);
        let mut windows = Windows::new(whole);
        for count in 1..=24usize {
            windows.add(BufferId::new(0));
            let mut edge = whole.x as usize;
            let mut narrowest = u16::MAX;
            let mut widest = 0u16;
            for node in windows.nodes.iter() {
                assert_eq!(node.area.x as usize, edge);
                assert_eq!(node.area.y, whole.y);
                assert_eq!(node.area.height, whole.height);
                edge = node.area.x as usize + node.area.width as usize;
                narrowest = narrowest.min(node.area.width);
                widest = widest.max(node.area.width);
            }
            assert_eq!(edge, right, "{} windows on {:?}", count, whole);
            assert!(widest - narrowest <= 1, "{} windows", count);
        }
    }
}

#[test]
fn a_resized_screen_is_tiled_anew() {
    let mut windows = Windows::new(Area::new(0, 0, 80, 24));
    for _ in 0..3 {
        windows.add(BufferId::new(0));
    }
    windows.area = Area::new(2, 0, 100, 30);
    windows.reorder_window_size();
    assert_eq!(windows.nodes[0].area, Area::new(2, 0, 34, 30));
    assert_eq!(windows.nodes[1].area, Area::new(36, 0, 33, 30));
    assert_eq!(windows.nodes[2].area, Area::new(69, 0, 33, 30));
}
