//! The command prompt: a line of input that lies over the editor while a
//! command is typed.

use crate::editor::{Callback, Event, EventPropagation, Key, Position};
use crate::text::byte_len;
use crate::window::Area;
use vstd::prelude::*;

verus! {

/// `String::push`: `ch` is added at the end.
#[verifier::external_body]
fn string_push(s: &mut String, ch: char)
    ensures
        final(s)@ == old(s)@.push(ch),
{
    s.push(ch)
}

/// `String::pop`: the last character leaves, if there is one.
#[verifier::external_body]
fn string_pop(s: &mut String) -> (ch: Option<char>)
    ensures
        old(s)@.len() == 0 ==> ch == None::<char> && final(s)@ == old(s)@,
        old(s)@.len() > 0 ==> ch == Some(old(s)@.last()) && final(s)@ == old(s)@.drop_last(),
{
    s.pop()
}

/// The line of input of the command prompt.
pub struct CommandPrompt {
    pub input: String,
}

/// The input after `key` was typed at the prompt.
pub open spec fn prompt_input_after(input: Seq<char>, key: Key) -> Seq<char> {
    match key {
        Key::Char(c) => input.push(c),
        Key::Backspace => if input.len() > 0 {
            input.drop_last()
        } else {
            input
        },
        _ => input,
    }
}

/// What the components are told after `key` was typed at the prompt: the end
/// of the line and the escape key close it.
pub open spec fn prompt_propagation(key: Key) -> EventPropagation {
    match key {
        Key::Enter => EventPropagation::Consume(Some(Callback::ClosePrompt)),
        Key::Esc => EventPropagation::Consume(Some(Callback::ClosePrompt)),
        _ => EventPropagation::Consume(None),
    }
}

/// The cell of the screen on which the caret of a prompt with `input` lies:
/// on the last line of `area`, one past the colon and the bytes of the input.
pub open spec fn prompt_caret(input: Seq<char>, area: Area) -> Position {
    Position {
        x: if byte_len(input) as usize == usize::MAX {
            usize::MAX
        } else {
            (byte_len(input) as usize + 1) as usize
        },
        y: if area.height > 0 {
            (area.height - 1) as usize
        } else {
            0
        },
    }
}

impl CommandPrompt {
    /// A prompt without input.
    pub fn new() -> (p: CommandPrompt)
        ensures
            p.input@ == Seq::<char>::empty(),
    {
        CommandPrompt { input: String::new() }
    }

    /// Takes one key: a character joins the input, backspace takes the last
    /// one away, and the end of the line or the escape key closes the prompt.
    pub fn handle_key_events(&mut self, event: &Key) -> (r: EventPropagation)
        ensures
            final(self).input@ == prompt_input_after(old(self).input@, *event),
            !(*event is Char || *event is Backspace) ==> *final(self) == *old(self),
            r == prompt_propagation(*event),
    {
        match event {
            Key::Char(c) => {
                string_push(&mut self.input, *c);
            },
            Key::Backspace => {
                let _ = string_pop(&mut self.input);
            },
            Key::Enter => {
                return EventPropagation::Consume(Some(Callback::ClosePrompt));
            },
            Key::Esc => {
                return EventPropagation::Consume(Some(Callback::ClosePrompt));
            },
            Key::Other => {},
        }
        EventPropagation::Consume(None)
    }

    /// Handles an event of the terminal: a key as `handle_key_events` does;
    /// any other event is left to the components below.
    pub fn handle_events(&mut self, event: &Event) -> (r: EventPropagation)
        ensures
            match *event {
                Event::Key(key) => {
                    &&& final(self).input@ == prompt_input_after(old(self).input@, key)
                    &&& !(key is Char || key is Backspace) ==> *final(self) == *old(self)
                    &&& r == prompt_propagation(key)
                },
                _ => *final(self) == *old(self) && r == EventPropagation::Ignore(None),
            },
    {
        match event {
            Event::Key(key) => self.handle_key_events(key),
            _ => EventPropagation::Ignore(None),
        }
    }

    /// The cell of the screen on which the caret of the prompt lies.
    pub fn cursor(&self, area: Area) -> (p: Option<Position>)
        ensures
            p == Some(prompt_caret(self.input@, area)),
    {
        Some(
            Position {
                x: self.input.as_str().len().saturating_add(1),
                y: (area.height as usize).saturating_sub(1),
            },
        )
    }
}

impl Default for CommandPrompt {
    fn default() -> (p: CommandPrompt)
        ensures
            p.input@ == Seq::<char>::empty(),
    {
        CommandPrompt::new()
    }
}

} // verus!
