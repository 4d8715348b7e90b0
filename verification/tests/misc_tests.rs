use editor_core::action::Action;
use editor_core::cli::Args;
use editor_core::editor::{Callback, Event, EventPropagation, Key, Position};
use editor_core::frame::{Cell, Frame};
use editor_core::mode::Mode;
use editor_core::prompt::CommandPrompt;
use editor_core::screen::{Direction, Screen, StatusBar};
use editor_core::status_message::Message;
use editor_core::syntax::{color_at, color_class, ColorClass, HighlightInfo};
use editor_core::window::Area;
use editor_core::{Rect, Vec2};

#[test]
fn vectors_and_rectangles() {
    let v = Vec2::new(3, 4);
    assert_eq!((v.width(), v.height()), (3, 4));
    assert_eq!(Vec2::zero(), Vec2 { x: 0, y: 0 });
    let r = Rect::new(1, 2, 11, 7);
    assert_eq!((r.min, r.max), (Vec2::new(1, 2), Vec2::new(11, 7)));
    assert_eq!((r.width(), r.height(), r.area()), (10, 5, 50));
    let c = Rect::from_corners(Vec2::new(0, 0), Vec2::new(2, 3));
    assert_eq!(c.area(), 6);
    assert_eq!(Rect::zero().area(), 0);
}

#[test]
fn a_cell_shows_a_space_until_it_is_set() {
    let mut cell = Cell::default();
    assert_eq!(cell.symbol(), " ");
    cell.set_cell("x");
    assert_eq!(cell.symbol(), "x");
}

#[test]
fn a_frame_has_a_cell_for_each_place() {
    let mut frame = Frame::new(Rect::new(0, 0, 4, 3));
    assert_eq!(frame.cells.len(), 12);
    assert_eq!(frame.cursor_position, Some((0, 0)));
    assert!(frame.cells.iter().all(|c| c.symbol() == " "));
    frame.set_cell(1, 2, "a");
    assert_eq!(frame.get_cell(1, 2).symbol(), "a");
    assert_eq!(frame.cells[9].symbol(), "a");
    assert_eq!(frame.get_cell(0, 0).symbol(), " ");
    // no such cell: nothing changes
    frame.set_cell(0, 3, "b");
    frame.set_cell(usize::MAX, usize::MAX, "c");
    assert_eq!(frame.cells.iter().filter(|c| c.symbol() != " ").count(), 1);
    frame.set_cursor_position(3, 1);
    assert_eq!(frame.cursor_position, Some((3, 1)));
}

#[test]
fn a_message_expires_after_its_duration() {
    let mut m = Message::new("saved".to_string());
    assert_eq!(m.text, "saved");
    assert_eq!(m.duration, 5000);
    assert_eq!(m.start_time, None);
    assert!(!m.has_expired(1_000_000));
    m.start(100);
    assert_eq!(m.start_time, Some(100));
    assert!(!m.has_expired(100));
    assert!(!m.has_expired(5100));
    assert!(m.has_expired(5101));
    assert!(!m.has_expired(50));
    let short = Message::with_duration("x".to_string(), 10);
    assert_eq!(short.duration, 10);
}

#[test]
fn modes_have_names() {
    assert_eq!(Mode::Normal.to_string(), "NORMAL");
    assert_eq!(Mode::Insert.to_string(), "INSERT");
    assert_eq!(Mode::Visual.to_string(), "VISUAL");
    assert_eq!(Mode::Search.to_string(), "SEARCH");
    assert_eq!(Mode::default(), Mode::Normal);
}

#[test]
fn captures_have_classes() {
    assert_eq!(color_class("keyword"), ColorClass::Keyword);
    assert_eq!(color_class("string"), ColorClass::String);
    assert_eq!(color_class("constructor"), ColorClass::Constructor);
    assert_eq!(color_class("function"), ColorClass::Function);
    assert_eq!(color_class("punctuation.bracket"), ColorClass::PunctuationBracket);
    assert_eq!(color_class("punctuation.delimiter"), ColorClass::PunctuationDelimiter);
    assert_eq!(color_class("property"), ColorClass::Property);
    assert_eq!(color_class("type"), ColorClass::Type);
    assert_eq!(color_class("comment"), ColorClass::Comment);
    assert_eq!(color_class("variable"), ColorClass::Other);
    assert_eq!(color_class("Keyword"), ColorClass::Other);
    assert_eq!(color_class(""), ColorClass::Other);
}

#[test]
fn the_first_range_gives_the_colour() {
    let colors = vec![
        HighlightInfo { range: 0..4, color: ColorClass::Keyword },
        HighlightInfo { range: 2..9, color: ColorClass::Type },
        HighlightInfo { range: 12..13, color: ColorClass::Comment },
    ];
    assert_eq!(color_at(&colors, 0), Some(ColorClass::Keyword));
    assert_eq!(color_at(&colors, 3), Some(ColorClass::Keyword));
    assert_eq!(color_at(&colors, 4), Some(ColorClass::Type));
    assert_eq!(color_at(&colors, 9), None);
    assert_eq!(color_at(&colors, 12), Some(ColorClass::Comment));
    assert_eq!(color_at(&colors, 13), None);
    assert_eq!(color_at(&Vec::new(), 0), None);
}

#[test]
fn the_prompt_takes_input() {
    let mut prompt = CommandPrompt::new();
    assert_eq!(prompt.input, "");
    assert_eq!(prompt.handle_key_events(&Key::Backspace), EventPropagation::Consume(None));
    assert_eq!(prompt.input, "");
    assert_eq!(prompt.handle_key_events(&Key::Char('w')), EventPropagation::Consume(None));
    assert_eq!(prompt.handle_key_events(&Key::Char('\u{e9}')), EventPropagation::Consume(None));
    assert_eq!(prompt.input, "w\u{e9}");
    // the caret lies behind the colon and the bytes of the input
    assert_eq!(prompt.cursor(Area::new(0, 0, 80, 24)), Some(Position { x: 4, y: 23 }));
    assert_eq!(prompt.handle_key_events(&Key::Other), EventPropagation::Consume(None));
    assert_eq!(prompt.handle_key_events(&Key::Backspace), EventPropagation::Consume(None));
    assert_eq!(prompt.input, "w");
    let close = EventPropagation::Consume(Some(Callback::ClosePrompt));
    assert_eq!(prompt.handle_key_events(&Key::Esc), close);
    assert_eq!(prompt.handle_key_events(&Key::Enter), close);
    assert_eq!(prompt.input, "w");
    assert_eq!(prompt.handle_events(&Event::Mouse), EventPropagation::Ignore(None));
    assert_eq!(prompt.handle_events(&Event::Key(Key::Char('q'))), EventPropagation::Consume(None));
    assert_eq!(prompt.input, "wq");
    assert_eq!(CommandPrompt::default().input, "");
}

#[test]
fn the_plain_screen() {
    let screen = Screen::new(80, 24);
    assert_eq!(screen.width, 80);
    assert_eq!(screen.height, 23);
    assert_eq!(screen.gutter_size, 4);
    assert_eq!(screen.status_bar, StatusBar { height: 1, width: 80 });
    let at = editor_core::screen::Position { x: 0, y: 0 };
    assert_eq!(screen.visible_part(100, &at), (0, 80));
    assert_eq!(screen.visible_part(30, &at), (0, 30));
    let scrolled = editor_core::screen::Position { x: 25, y: 0 };
    assert_eq!(screen.visible_part(100, &scrolled), (25, 75));
    assert_eq!(screen.visible_part(200, &scrolled), (25, 80));
    assert_eq!(screen.visible_part(25, &scrolled), (0, 0));
    assert_eq!(screen.visible_part(10, &scrolled), (0, 0));
    let caret = editor_core::screen::Position { x: 30, y: 7 };
    assert_eq!(screen.cursor_cell(&caret, &scrolled), Some((9, 7)));
    assert_eq!(screen.cursor_cell(&at, &scrolled), None);
    assert_eq!(Direction::Up, Direction::Up);
}

#[test]
fn the_gutter_counts_from_the_caret() {
    let caret = editor_core::screen::Position { x: 0, y: 7 };
    assert_eq!(Screen::gutter_number(7, &caret), 8);
    assert_eq!(Screen::gutter_number(4, &caret), 3);
    assert_eq!(Screen::gutter_number(10, &caret), 3);
    assert_eq!(Screen::gutter_number(0, &caret), 7);
}

#[test]
fn actions_and_arguments() {
    assert_eq!(Action::OpenFile("a.txt".to_string()), Action::OpenFile("a.txt".to_string()));
    assert_ne!(Action::Quit, Action::Resize(1, 2));
    assert_eq!(Action::Error("e".to_string()).clone(), Action::Error("e".to_string()));
    let args = Args { files: vec!["a".to_string(), "b".to_string()] };
    assert_eq!(args.files.len(), 2);
}

#[test]
fn the_status_bar_and_the_messages() {
    let screen = Screen::new(80, 24);
    assert_eq!(screen.status_gap(20, 10), 50);
    assert_eq!(screen.status_gap(70, 10), 0);
    assert_eq!(screen.status_gap(75, 10), 0);
    assert_eq!(screen.status_gap(0, 90), 0);
    assert_eq!(screen.message_cell(5, 0), Some((75, 22)));
    assert_eq!(screen.message_cell(5, 2), Some((75, 20)));
    assert_eq!(screen.message_cell(80, 22), Some((0, 0)));
    assert_eq!(screen.message_cell(81, 0), None);
    assert_eq!(screen.message_cell(5, 23), None);
}
