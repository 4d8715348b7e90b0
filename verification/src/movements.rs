//! The movements and edits that keys are bound to, each taken at the cursor
//! of the focused window.

use crate::buffer::CursorAction;
use crate::editor::Editor;
use crate::EditorError;
use vstd::prelude::*;

verus! {

/// Moves the caret `count` grapheme clusters to the right.
pub fn move_right_nth(editor: &mut Editor, count: usize) -> (r: Result<(), EditorError>)
    ensures
        Editor::cursor_acted(*old(editor), *final(editor), CursorAction::Right(count), r),
{
    editor.handle_cursor_action(CursorAction::Right(count))
}

/// Moves the caret one grapheme cluster to the right.
pub fn move_right(editor: &mut Editor) -> (r: Result<(), EditorError>)
    ensures
        Editor::cursor_acted(*old(editor), *final(editor), CursorAction::Right(1), r),
{
    move_right_nth(editor, 1)
}

/// Moves the caret one line up.
pub fn move_up(editor: &mut Editor) -> (r: Result<(), EditorError>)
    ensures
        Editor::cursor_acted(*old(editor), *final(editor), CursorAction::Up(1), r),
{
    editor.handle_cursor_action(CursorAction::Up(1))
}

/// Moves the caret one line down.
pub fn move_down(editor: &mut Editor) -> (r: Result<(), EditorError>)
    ensures
        Editor::cursor_acted(*old(editor), *final(editor), CursorAction::Down(1), r),
{
    editor.handle_cursor_action(CursorAction::Down(1))
}

/// Moves the caret one grapheme cluster to the left.
pub fn move_left(editor: &mut Editor) -> (r: Result<(), EditorError>)
    ensures
        Editor::cursor_acted(*old(editor), *final(editor), CursorAction::Left(1), r),
{
    editor.handle_cursor_action(CursorAction::Left(1))
}

/// Inserts `ch` at the caret and moves past it.
pub fn insert_char(editor: &mut Editor, ch: char) -> (r: Result<(), EditorError>)
    ensures
        Editor::cursor_acted(*old(editor), *final(editor), CursorAction::InsertChar(ch), r),
{
    editor.handle_cursor_action(CursorAction::InsertChar(ch))
}

/// Inserts a line break at the caret and moves to the start of the new line.
pub fn insert_new_line(editor: &mut Editor) -> (r: Result<(), EditorError>)
    ensures
        Editor::cursor_acted(*old(editor), *final(editor), CursorAction::InsertNewLine, r),
{
    editor.handle_cursor_action(CursorAction::InsertNewLine)
}

/// Backspace: moves one grapheme cluster to the left and removes the one
/// character there.
pub fn delete_char(editor: &mut Editor) -> (r: Result<(), EditorError>)
    ensures
        Editor::cursor_acted(*old(editor), *final(editor), CursorAction::DeleteChar, r),
{
    editor.handle_cursor_action(CursorAction::DeleteChar)
}

/// Moves the caret to the start of its line.
pub fn goto_start_of_line(editor: &mut Editor) -> (r: Result<(), EditorError>)
    ensures
        Editor::cursor_acted(*old(editor), *final(editor), CursorAction::StartOfLine, r),
{
    editor.handle_cursor_action(CursorAction::StartOfLine)
}

/// Moves the caret to the last column of its line.
pub fn goto_end_of_line(editor: &mut Editor) -> (r: Result<(), EditorError>)
    ensures
        Editor::cursor_acted(*old(editor), *final(editor), CursorAction::EndOfLine, r),
{
    editor.handle_cursor_action(CursorAction::EndOfLine)
}

} // verus!
