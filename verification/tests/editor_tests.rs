use editor_core::buffer::{BufferId, CursorAction};
use editor_core::components::{Component, Components};
use editor_core::editor::{
    binding, Binding, Callback, Editor, EditorView, Event, EventPropagation, Key, Position,
};
use editor_core::mode::Mode;
use editor_core::movements;
use editor_core::prompt::CommandPrompt;
use editor_core::window::{Area, WindowId};
use editor_core::EditorError;
use ropey::Rope;

fn editor_with(text: &str) -> Editor {
    let mut editor = Editor::new(Area::new(0, 0, 80, 24));
    editor.open(&"file.txt".to_string(), Some(Rope::from_str(text))).unwrap();
    editor
}

fn text_of(editor: &Editor) -> String {
    editor.buffers.buffers[0].content().to_string()
}

fn cursor_of(editor: &Editor, window: usize) -> std::ops::Range<usize> {
    editor.buffers.buffers[0].get_cursor(WindowId(window)).unwrap().range.clone()
}

#[test]
fn a_new_editor() {
    let editor = Editor::new(Area::new(0, 0, 80, 24));
    assert_eq!(editor.mode, Mode::Normal);
    assert!(!editor.should_quit());
    assert_eq!(editor.buffers.count(), 0);
    assert_eq!(editor.windows.count(), 0);
    assert_eq!(editor.cursor(), None);
}

#[test]
fn opening_a_file_adds_a_buffer_and_a_window() {
    let mut editor = Editor::new(Area::new(0, 0, 80, 24));
    let id = editor.open(&"a.txt".to_string(), Some(Rope::from_str("abc")));
    assert_eq!(id, Ok(BufferId::new(0)));
    assert_eq!(editor.buffers.count(), 1);
    assert_eq!(editor.windows.count(), 1);
    assert_eq!(editor.windows.focused_node, Some(WindowId(0)));
    assert_eq!(cursor_of(&editor, 0), 0..1);
    assert_eq!(editor.buffers.buffers[0].file_path(), Some(&"a.txt".to_string()));
    let other = editor.open(&"b.txt".to_string(), Some(Rope::from_str("xyz")));
    assert_eq!(other, Ok(BufferId::new(1)));
    assert_eq!(editor.buffers.count(), 2);
    assert_eq!(editor.windows.count(), 2);
    assert_eq!(editor.windows.focused_node, Some(WindowId(1)));
}

#[test]
fn opening_the_same_path_twice() {
    let mut editor = Editor::new(Area::new(0, 0, 80, 24));
    let first = editor.open(&"a.txt".to_string(), Some(Rope::from_str("Hello!\nWorld!")));
    let second = editor.open(&"a.txt".to_string(), None);
    assert_eq!(first, Ok(BufferId::new(0)));
    assert_eq!(second, Ok(BufferId::new(0)));
    // one buffer, two windows onto it
    assert_eq!(editor.buffers.count(), 1);
    assert_eq!(editor.windows.count(), 2);
    assert_eq!(editor.windows.nodes[0].buffer_id, BufferId::new(0));
    assert_eq!(editor.windows.nodes[1].buffer_id, BufferId::new(0));
    assert_eq!(editor.windows.focused_node, Some(WindowId(1)));
    assert_eq!(cursor_of(&editor, 0), 0..1);
    assert_eq!(cursor_of(&editor, 1), 0..1);
    // moving the caret of one window leaves that of the other
    let mut view = EditorView::new();
    view.handle_key_events(&Key::Char('l'), &mut editor).unwrap();
    view.handle_key_events(&Key::Char('j'), &mut editor).unwrap();
    assert_eq!(cursor_of(&editor, 1), 8..9);
    assert_eq!(cursor_of(&editor, 0), 0..1);
    editor.windows.focus(WindowId(0));
    view.handle_key_events(&Key::Char('$'), &mut editor).unwrap();
    assert_eq!(cursor_of(&editor, 0), 5..6);
    assert_eq!(cursor_of(&editor, 1), 8..9);
}

#[test]
fn what_is_read_of_an_open_file_is_not_used() {
    let mut editor = editor_with("first");
    let again = editor.open(&"file.txt".to_string(), Some(Rope::from_str("second")));
    assert_eq!(again, Ok(BufferId::new(0)));
    assert_eq!(editor.buffers.count(), 1);
    assert_eq!(text_of(&editor), "first");
}

#[test]
fn a_file_that_cannot_be_read_changes_nothing() {
    let mut editor = editor_with("abc");
    let r = editor.open(&"missing.txt".to_string(), None);
    assert_eq!(r, Err(EditorError::Unreadable));
    assert_eq!(editor.buffers.count(), 1);
    assert_eq!(editor.windows.count(), 1);
    assert_eq!(editor.windows.focused_node, Some(WindowId(0)));
}

#[test]
fn the_table_of_keys() {
    assert_eq!(binding(Mode::Normal, Key::Char('q')), Binding::Quit);
    assert_eq!(binding(Mode::Normal, Key::Char('h')), Binding::Cursor(CursorAction::Left(1)));
    assert_eq!(binding(Mode::Normal, Key::Char('j')), Binding::Cursor(CursorAction::Down(1)));
    assert_eq!(binding(Mode::Normal, Key::Char('k')), Binding::Cursor(CursorAction::Up(1)));
    assert_eq!(binding(Mode::Normal, Key::Char('l')), Binding::Cursor(CursorAction::Right(1)));
    assert_eq!(binding(Mode::Normal, Key::Char('0')), Binding::Cursor(CursorAction::StartOfLine));
    assert_eq!(binding(Mode::Normal, Key::Char('$')), Binding::Cursor(CursorAction::EndOfLine));
    assert_eq!(binding(Mode::Normal, Key::Char('i')), Binding::Enter(Mode::Insert));
    assert_eq!(binding(Mode::Normal, Key::Char(':')), Binding::OpenPrompt);
    assert_eq!(binding(Mode::Normal, Key::Char('x')), Binding::Nothing);
    assert_eq!(binding(Mode::Normal, Key::Enter), Binding::Nothing);
    assert_eq!(binding(Mode::Normal, Key::Esc), Binding::Nothing);
    assert_eq!(binding(Mode::Insert, Key::Char('q')), Binding::Cursor(CursorAction::InsertChar('q')));
    assert_eq!(binding(Mode::Insert, Key::Enter), Binding::Cursor(CursorAction::InsertNewLine));
    assert_eq!(binding(Mode::Insert, Key::Backspace), Binding::Cursor(CursorAction::DeleteChar));
    assert_eq!(binding(Mode::Insert, Key::Esc), Binding::Enter(Mode::Normal));
    assert_eq!(binding(Mode::Insert, Key::Other), Binding::Nothing);
    assert_eq!(binding(Mode::Visual, Key::Char('q')), Binding::Unsupported);
    assert_eq!(binding(Mode::Search, Key::Esc), Binding::Unsupported);
}

#[test]
fn keys_in_normal_mode_move_the_caret() {
    let mut editor = editor_with("Hello!\nWorld!");
    let mut view = EditorView::new();
    let consumed = Ok(EventPropagation::Consume(None));
    assert_eq!(view.handle_key_events(&Key::Char('l'), &mut editor), consumed);
    assert_eq!(cursor_of(&editor, 0), 1..2);
    assert_eq!(view.handle_key_events(&Key::Char('j'), &mut editor), consumed);
    assert_eq!(cursor_of(&editor, 0), 8..9);
    assert_eq!(view.handle_key_events(&Key::Char('h'), &mut editor), consumed);
    assert_eq!(cursor_of(&editor, 0), 7..8);
    assert_eq!(view.handle_key_events(&Key::Char('k'), &mut editor), consumed);
    assert_eq!(cursor_of(&editor, 0), 0..1);
    assert_eq!(view.handle_key_events(&Key::Char('$'), &mut editor), consumed);
    assert_eq!(cursor_of(&editor, 0), 5..6);
    assert_eq!(view.handle_key_events(&Key::Char('0'), &mut editor), consumed);
    assert_eq!(cursor_of(&editor, 0), 0..1);
    assert_eq!(view.handle_key_events(&Key::Char('z'), &mut editor), consumed);
    assert_eq!(cursor_of(&editor, 0), 0..1);
    assert_eq!(text_of(&editor), "Hello!\nWorld!");
    assert_eq!(editor.mode, Mode::Normal);
    assert!(!editor.should_quit());
}

#[test]
fn keys_in_insert_mode_edit_the_text() {
    let mut editor = editor_with("Hell!\nWorld!");
    let mut view = EditorView::new();
    view.handle_key_events(&Key::Char('i'), &mut editor).unwrap();
    assert_eq!(editor.mode, Mode::Insert);
    for _ in 0..4 {
        movements::move_right(&mut editor).unwrap();
    }
    view.handle_key_events(&Key::Char('o'), &mut editor).unwrap();
    assert_eq!(text_of(&editor), "Hello!\nWorld!");
    assert_eq!(cursor_of(&editor, 0), 5..6);
    view.handle_key_events(&Key::Enter, &mut editor).unwrap();
    assert_eq!(text_of(&editor), "Hello\n!\nWorld!");
    assert_eq!(cursor_of(&editor, 0), 6..7);
    view.handle_key_events(&Key::Backspace, &mut editor).unwrap();
    assert_eq!(text_of(&editor), "Hello!\nWorld!");
    assert_eq!(cursor_of(&editor, 0), 5..6);
    view.handle_key_events(&Key::Char('q'), &mut editor).unwrap();
    assert_eq!(text_of(&editor), "Helloq!\nWorld!");
    assert!(!editor.should_quit());
    view.handle_key_events(&Key::Esc, &mut editor).unwrap();
    assert_eq!(editor.mode, Mode::Normal);
}

#[test]
fn q_asks_to_quit() {
    let mut editor = editor_with("abc");
    let mut view = EditorView::new();
    assert_eq!(
        view.handle_key_events(&Key::Char('q'), &mut editor),
        Ok(EventPropagation::Consume(None))
    );
    assert!(editor.should_quit());
}

#[test]
fn the_colon_opens_the_prompt() {
    let mut editor = editor_with("abc");
    let mut view = EditorView::new();
    assert_eq!(
        view.handle_key_events(&Key::Char(':'), &mut editor),
        Ok(EventPropagation::Consume(Some(Callback::OpenPrompt)))
    );
    assert_eq!(editor.mode, Mode::Normal);
}

#[test]
fn modes_without_behaviour_refuse_every_key() {
    let mut editor = editor_with("abc");
    let mut view = EditorView::new();
    editor.mode = Mode::Visual;
    assert_eq!(
        view.handle_key_events(&Key::Char('l'), &mut editor),
        Err(EditorError::UnsupportedMode)
    );
    editor.mode = Mode::Search;
    assert_eq!(view.handle_key_events(&Key::Esc, &mut editor), Err(EditorError::UnsupportedMode));
    assert_eq!(editor.mode, Mode::Search);
    assert_eq!(cursor_of(&editor, 0), 0..1);
}

#[test]
fn without_a_focused_window_a_key_is_refused() {
    let mut editor = Editor::new(Area::new(0, 0, 80, 24));
    let mut view = EditorView::new();
    assert_eq!(
        view.handle_key_events(&Key::Char('l'), &mut editor),
        Err(EditorError::NoFocusedWindow)
    );
    // the mode changes all the same
    assert_eq!(
        view.handle_key_events(&Key::Char('i'), &mut editor),
        Err(EditorError::NoFocusedWindow)
    );
    assert_eq!(editor.mode, Mode::Insert);
    assert_eq!(movements::move_left(&mut editor), Err(EditorError::NoFocusedWindow));
}

#[test]
fn without_a_focused_window_the_prompt_opens_all_the_same() {
    let mut editor = Editor::new(Area::new(0, 0, 80, 24));
    let mut view = EditorView::new();
    assert_eq!(
        view.handle_key_events(&Key::Char(':'), &mut editor),
        Ok(EventPropagation::Consume(Some(Callback::OpenPrompt)))
    );
    let mut stack = Components::new(Area::new(0, 0, 80, 24));
    stack.push(Component::Editor(EditorView::new()));
    assert_eq!(stack.handle_events(&Event::Key(Key::Char(':')), &mut editor), Ok(true));
    assert_eq!(stack.components.len(), 2);
    assert!(matches!(&stack.components[1], Component::Prompt(p) if p.input.is_empty()));
    assert_eq!(stack.handle_events(&Event::Key(Key::Esc), &mut editor), Ok(true));
    assert_eq!(stack.components.len(), 1);
}

#[test]
fn a_window_onto_no_buffer() {
    let mut editor = Editor::new(Area::new(0, 0, 80, 24));
    editor.windows.open(BufferId::new(7));
    assert_eq!(movements::move_right(&mut editor), Err(EditorError::NoSuchBuffer));
    assert_eq!(editor.position_cursor_in_view(12), Err(EditorError::NoSuchBuffer));
    assert_eq!(editor.cursor(), None);
}

#[test]
fn a_window_without_a_cursor() {
    let mut editor = Editor::new(Area::new(0, 0, 80, 24));
    let id = editor.buffers.add(Rope::from_str("abc"), None);
    editor.windows.open(id);
    assert_eq!(movements::insert_char(&mut editor, 'x'), Err(EditorError::NoSuchView));
    assert_eq!(text_of(&editor), "abc");
    assert_eq!(editor.resolve_focus(), Err(EditorError::NoSuchView));
}

#[test]
fn the_movements() {
    let mut editor = editor_with("Hello!\nWorld!");
    assert_eq!(movements::move_right_nth(&mut editor, 3), Ok(()));
    assert_eq!(cursor_of(&editor, 0), 3..4);
    assert_eq!(movements::move_down(&mut editor), Ok(()));
    assert_eq!(cursor_of(&editor, 0), 10..11);
    assert_eq!(movements::move_left(&mut editor), Ok(()));
    assert_eq!(cursor_of(&editor, 0), 9..10);
    assert_eq!(movements::move_up(&mut editor), Ok(()));
    assert_eq!(cursor_of(&editor, 0), 2..3);
    assert_eq!(movements::goto_end_of_line(&mut editor), Ok(()));
    assert_eq!(cursor_of(&editor, 0), 5..6);
    assert_eq!(movements::goto_start_of_line(&mut editor), Ok(()));
    assert_eq!(cursor_of(&editor, 0), 0..1);
    assert_eq!(movements::insert_char(&mut editor, '#'), Ok(()));
    assert_eq!(movements::insert_new_line(&mut editor), Ok(()));
    assert_eq!(text_of(&editor), "#\nHello!\nWorld!");
    assert_eq!(cursor_of(&editor, 0), 2..3);
    assert_eq!(movements::delete_char(&mut editor), Ok(()));
    assert_eq!(text_of(&editor), "#Hello!\nWorld!");
    assert_eq!(editor.resolve_focus(), Ok((0, 0)));
}

#[test]
fn a_key_scrolls_the_focused_window() {
    let mut text = String::new();
    for _ in 0..99 {
        text.push_str("line\n");
    }
    let mut editor = editor_with(&text);
    let mut view = EditorView::new();
    for _ in 0..30 {
        view.handle_key_events(&Key::Char('j'), &mut editor).unwrap();
    }
    // 23 lines shown, 12 kept free: the caret is on the 11th shown
    assert_eq!(editor.windows.nodes[0].offset.vertical, 20);
    assert_eq!(editor.cursor(), Some(Position { x: 0, y: 10 }));
    for _ in 0..30 {
        view.handle_key_events(&Key::Char('k'), &mut editor).unwrap();
    }
    assert_eq!(editor.windows.nodes[0].offset.vertical, 0);
    assert_eq!(editor.cursor(), Some(Position { x: 0, y: 0 }));
}

#[test]
fn the_caret_cell_counts_from_the_corner_of_the_window() {
    let mut editor = Editor::new(Area::new(3, 2, 80, 24));
    editor.open(&"a.txt".to_string(), Some(Rope::from_str("Hello!\nWorld!"))).unwrap();
    movements::move_down(&mut editor).unwrap();
    movements::move_right_nth(&mut editor, 2).unwrap();
    assert_eq!(editor.cursor(), Some(Position { x: 5, y: 3 }));
    let view = EditorView::new();
    assert_eq!(view.cursor(&editor), Some(Position { x: 5, y: 3 }));
    // scrolled past the caret: no cell
    editor.windows.nodes[0].offset.vertical = 5;
    assert_eq!(editor.cursor(), None);
}

#[test]
fn events_that_are_no_keys_are_ignored() {
    let mut editor = editor_with("abc");
    let mut view = EditorView::new();
    assert_eq!(view.handle_events(&Event::Mouse, &mut editor), Ok(EventPropagation::Ignore(None)));
    assert_eq!(
        view.handle_events(&Event::Resize(10, 10), &mut editor),
        Ok(EventPropagation::Ignore(None))
    );
    assert_eq!(
        view.handle_events(&Event::Key(Key::Char('l')), &mut editor),
        Ok(EventPropagation::Consume(None))
    );
    assert_eq!(cursor_of(&editor, 0), 1..2);
}

#[test]
fn the_prompt_opens_takes_keys_and_closes() {
    let mut editor = editor_with("abc");
    let mut stack = Components::new(Area::new(0, 0, 80, 24));
    stack.push(Component::Editor(EditorView::new()));
    assert_eq!(stack.handle_events(&Event::Key(Key::Char(':')), &mut editor), Ok(true));
    assert_eq!(stack.components.len(), 2);
    assert!(matches!(&stack.components[1], Component::Prompt(p) if p.input.is_empty()));
    // the prompt owns the keys: q does not quit, l does not move
    assert_eq!(stack.handle_events(&Event::Key(Key::Char('q')), &mut editor), Ok(true));
    assert_eq!(stack.handle_events(&Event::Key(Key::Char('l')), &mut editor), Ok(true));
    assert!(!editor.should_quit());
    assert_eq!(cursor_of(&editor, 0), 0..1);
    assert!(matches!(&stack.components[1], Component::Prompt(p) if p.input == "ql"));
    assert_eq!(stack.cursor(&editor), Some(Position { x: 3, y: 23 }));
    assert_eq!(stack.handle_events(&Event::Key(Key::Backspace), &mut editor), Ok(true));
    assert!(matches!(&stack.components[1], Component::Prompt(p) if p.input == "q"));
    editor.mode = Mode::Insert;
    assert_eq!(stack.handle_events(&Event::Key(Key::Esc), &mut editor), Ok(true));
    assert_eq!(stack.components.len(), 1);
    assert_eq!(editor.mode, Mode::Normal);
    assert_eq!(stack.cursor(&editor), Some(Position { x: 0, y: 0 }));
    // now the editor has the keys again
    assert_eq!(stack.handle_events(&Event::Key(Key::Char('l')), &mut editor), Ok(true));
    assert_eq!(cursor_of(&editor, 0), 1..2);
}

#[test]
fn the_end_of_the_line_closes_the_prompt() {
    let mut editor = editor_with("abc");
    let mut stack = Components::new(Area::new(0, 0, 80, 24));
    stack.push(Component::Editor(EditorView::new()));
    stack.push(Component::Prompt(CommandPrompt::new()));
    assert_eq!(stack.handle_events(&Event::Key(Key::Enter), &mut editor), Ok(true));
    assert_eq!(stack.components.len(), 1);
}

#[test]
fn the_stack_hands_on_what_the_editor_refuses() {
    let mut editor = Editor::new(Area::new(0, 0, 80, 24));
    let mut stack = Components::new(Area::new(0, 0, 80, 24));
    assert_eq!(stack.handle_events(&Event::Key(Key::Char('l')), &mut editor), Ok(false));
    stack.push(Component::Editor(EditorView::new()));
    assert_eq!(
        stack.handle_events(&Event::Key(Key::Char('l')), &mut editor),
        Err(EditorError::NoFocusedWindow)
    );
    assert_eq!(stack.handle_events(&Event::Mouse, &mut editor), Ok(false));
    assert_eq!(stack.components.len(), 1);
    assert_eq!(stack.cursor(&editor), None);
}

#[test]
fn the_stack_keeps_its_area() {
    let mut stack = Components::new(Area::new(0, 0, 80, 24));
    assert_eq!(stack.area(), Area::new(0, 0, 80, 24));
    stack.resize(Area::new(0, 0, 100, 30));
    assert_eq!(stack.area(), Area::new(0, 0, 100, 30));
}
