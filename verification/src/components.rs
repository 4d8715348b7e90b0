//! The stack of components: what lies on the screen, from the bottom up, and
//! takes the events, from the top down.

use crate::editor::{
    key_binding, keyed, propagation_of, Callback, Editor, EditorView, Event, EventPropagation,
    Key, Position,
};
use crate::mode::Mode;
use crate::prompt::{prompt_caret, prompt_input_after, prompt_propagation, CommandPrompt};
use crate::window::Area;
use crate::EditorError;
use vstd::prelude::*;

verus! {

/// A visual and interactive element of the user interface.
pub enum Component {
    /// The view of the editor.
    Editor(EditorView),
    /// The command prompt, which lies over the editor while it is open.
    Prompt(CommandPrompt),
}

/// The components on the screen, the topmost last.
pub struct Components {
    pub components: Vec<Component>,
    pub area: Area,
}

/// The callback that comes with an answer.
pub open spec fn callback_of(propagation: EventPropagation) -> Option<Callback> {
    match propagation {
        EventPropagation::Ignore(c) => c,
        EventPropagation::Consume(c) => c,
    }
}

/// The editor after the stack has done what `callback` asks: when the prompt
/// closes, the editor is back in normal mode.
pub open spec fn editor_after_callback(editor: Editor, callback: Option<Callback>) -> Editor {
    match callback {
        Some(Callback::ClosePrompt) => Editor { mode: Mode::Normal, ..editor },
        _ => editor,
    }
}

/// `after` is what `callback` makes of the stack `before`: an open prompt
/// comes on top without input, a closed one leaves from the top.
pub open spec fn stack_after_callback(
    before: Seq<Component>,
    after: Seq<Component>,
    callback: Option<Callback>,
) -> bool {
    match callback {
        Some(Callback::OpenPrompt) => {
            &&& after.len() == before.len() + 1
            &&& after.drop_last() == before
            &&& after.last() matches Component::Prompt(p) && p.input@ == Seq::<char>::empty()
        },
        Some(Callback::ClosePrompt) => if before.len() > 0 {
            after == before.drop_last()
        } else {
            after == before
        },
        None => after == before,
    }
}

/// `after` is the stack `before` with `key` typed at the prompt on top of it,
/// whose input was `input`.
pub open spec fn prompt_keyed(
    before: Seq<Component>,
    after: Seq<Component>,
    input: Seq<char>,
    key: Key,
) -> bool {
    &&& after.len() == before.len()
    &&& after.drop_last() == before.drop_last()
    &&& after.last() matches Component::Prompt(p) && p.input@ == prompt_input_after(input, key)
}

/// What an event makes of the stack and the editor, and what handling it
/// returns: whether the event was consumed, or why the editor refused it.
///
/// A key goes to the topmost component alone. The prompt takes it as input,
/// or closes, on the end of the line and on escape, and then the editor is
/// back in normal mode. The view of the editor hands the key to the editor,
/// and opens the prompt where the key asks for it; where the editor refuses
/// the key, the stack stays as it is. Any other event is consumed by no
/// component and changes nothing.
pub open spec fn dispatched(
    before: Components,
    before_editor: Editor,
    after: Components,
    after_editor: Editor,
    event: Event,
    r: Result<bool, EditorError>,
) -> bool {
    &&& after.area == before.area
    &&& match event {
        Event::Key(key) => if before.components@.len() == 0 {
            &&& r == Ok::<bool, EditorError>(false)
            &&& after.components@ == before.components@
            &&& after_editor == before_editor
        } else {
            match before.components@.last() {
                Component::Prompt(prompt) => {
                    let callback = callback_of(prompt_propagation(key));
                    &&& r == Ok::<bool, EditorError>(true)
                    &&& after_editor == editor_after_callback(before_editor, callback)
                    &&& if callback is Some {
                        after.components@ == before.components@.drop_last()
                    } else {
                        prompt_keyed(before.components@, after.components@, prompt.input@, key)
                    }
                },
                Component::Editor(_) => {
                    let answer = propagation_of(key_binding(before_editor.mode, key));
                    match r {
                        Ok(consumed) => {
                            &&& consumed
                            &&& keyed(before_editor, after_editor, key, Ok(answer))
                            &&& stack_after_callback(
                                before.components@,
                                after.components@,
                                callback_of(answer),
                            )
                        },
                        Err(e) => {
                            &&& keyed(before_editor, after_editor, key, Err(e))
                            &&& after.components@ == before.components@
                        },
                    }
                },
            }
        },
        _ => {
            &&& r == Ok::<bool, EditorError>(false)
            &&& after.components@ == before.components@
            &&& after_editor == before_editor
        },
    }
}

impl Components {
    /// An empty stack on a screen of `area`.
    pub fn new(area: Area) -> (c: Components)
        ensures
            c.components@.len() == 0,
            c.area == area,
    {
        Components { components: Vec::new(), area }
    }

    pub fn area(&self) -> (a: Area)
        ensures
            a == self.area,
    {
        self.area
    }

    pub fn resize(&mut self, area: Area)
        ensures
            final(self).area == area,
            final(self).components == old(self).components,
    {
        self.area = area;
    }

    /// Puts `component` on top.
    pub fn push(&mut self, component: Component)
        ensures
            final(self).area == old(self).area,
            final(self).components@ == old(self).components@.push(component),
    {
        self.components.push(component);
    }

    /// Does what a component asked for when it answered an event.
    pub fn run_callback(&mut self, callback: Callback, editor: &mut Editor)
        ensures
            final(self).area == old(self).area,
            stack_after_callback(old(self).components@, final(self).components@, Some(callback)),
            *final(editor) == editor_after_callback(*old(editor), Some(callback)),
    {
        match callback {
            Callback::OpenPrompt => {
                self.components.push(Component::Prompt(CommandPrompt::new()));
                proof {
                    assert(self.components@.drop_last() =~= old(self).components@);
                }
            },
            Callback::ClosePrompt => {
                editor.mode = Mode::Normal;
                let _ = self.components.pop();
                proof {
                    if old(self).components@.len() > 0 {
                        assert(self.components@ =~= old(self).components@.drop_last());
                    }
                }
            },
        }
    }

    /// Hands an event to the components, from the top down, until one
    /// consumes it, and then does what the components asked for. Returns
    /// whether the event was consumed, which calls for a redraw.
    pub fn handle_events(&mut self, event: &Event, editor: &mut Editor) -> (r: Result<
        bool,
        EditorError,
    >)
        ensures
            dispatched(*old(self), *old(editor), *final(self), *final(editor), *event, r),
    {
        let mut callbacks: Vec<Callback> = Vec::new();
        let mut stop_propagation = false;
        let mut i = self.components.len();
        while i > 0
            invariant_except_break
                !stop_propagation,
                callbacks@.len() == 0,
                *editor == *old(editor),
                self.components@ == old(self).components@,
                !(*event is Key) || i == self.components@.len(),
            invariant
                i <= self.components@.len(),
                self.area == old(self).area,
                self.components@.len() == old(self).components@.len(),
            ensures
                stop_propagation ==> {
                    &&& *event matches Event::Key(key)
                    &&& old(self).components@.len() > 0
                    &&& callbacks@.len() <= 1
                    &&& match old(self).components@.last() {
                        Component::Prompt(prompt) => {
                            let callback = callback_of(prompt_propagation(key));
                            &&& *editor == *old(editor)
                            &&& callback == callbacks_head(callbacks@)
                            &&& if callback is Some {
                                self.components@ == old(self).components@
                            } else {
                                prompt_keyed(
                                    old(self).components@,
                                    self.components@,
                                    prompt.input@,
                                    key,
                                )
                            }
                        },
                        Component::Editor(_) => {
                            let answer = propagation_of(key_binding(old(editor).mode, key));
                            &&& keyed(*old(editor), *editor, key, Ok(answer))
                            &&& self.components@ == old(self).components@
                            &&& callback_of(answer) == callbacks_head(callbacks@)
                        },
                    }
                },
                !stop_propagation ==> {
                    &&& callbacks@.len() == 0
                    &&& *editor == *old(editor)
                    &&& self.components@ == old(self).components@
                    &&& (*event is Key ==> self.components@.len() == 0)
                },
            decreases i,
        {
            i -= 1;
            let result = match &mut self.components[i] {
                Component::Editor(view) => match view.handle_events(event, editor) {
                    Ok(result) => result,
                    Err(e) => {
                        proof {
                            assert(self.components@ =~= old(self).components@);
                        }
                        return Err(e);
                    },
                },
                Component::Prompt(prompt) => prompt.handle_events(event),
            };
            proof {
                if !(*event is Key) {
                    assert(self.components@ =~= old(self).components@);
                } else {
                    assert(self.components@.drop_last() =~= old(self).components@.drop_last());
                    if old(self).components@.last() is Editor || callback_of(result) is Some {
                        assert(self.components@ =~= old(self).components@);
                    }
                }
            }
            match result {
                EventPropagation::Ignore(Some(callback)) => {
                    callbacks.push(callback);
                },
                EventPropagation::Consume(Some(callback)) => {
                    callbacks.push(callback);
                    stop_propagation = true;
                    break ;
                },
                EventPropagation::Ignore(None) => {},
                EventPropagation::Consume(None) => {
                    stop_propagation = true;
                    break ;
                },
            }
        }
        let ghost mid = *self;
        let ghost mid_editor = *editor;
        let mut k: usize = 0;
        while k < callbacks.len()
            invariant
                k <= callbacks@.len(),
                callbacks@.len() <= 1,
                self.area == old(self).area,
                k == 0 ==> *self == mid && *editor == mid_editor,
                k == 1 ==> stack_after_callback(
                    mid.components@,
                    self.components@,
                    Some(callbacks@[0]),
                ) && *editor == editor_after_callback(mid_editor, Some(callbacks@[0])),
            decreases callbacks@.len() - k,
        {
            self.run_callback(callbacks[k], editor);
            k += 1;
        }
        Ok(stop_propagation)
    }

    /// The cell of the screen on which the caret lies: that of the topmost
    /// component which has one.
    pub fn cursor(&self, editor: &Editor) -> (p: Option<Position>)
        ensures
            p == self.caret_from(editor, self.components@.len() as int),
    {
        let mut i = self.components.len();
        while i > 0
            invariant
                i <= self.components@.len(),
                self.caret_from(editor, self.components@.len() as int) == self.caret_from(
                    editor,
                    i as int,
                ),
            decreases i,
        {
            i -= 1;
            let found = match &self.components[i] {
                Component::Editor(view) => view.cursor(editor),
                Component::Prompt(prompt) => prompt.cursor(self.area),
            };
            if found.is_some() {
                return found;
            }
        }
        None
    }

    /// The caret of the topmost of the first `upto` components which has one.
    pub open spec fn caret_from(&self, editor: &Editor, upto: int) -> Option<Position>
        decreases upto,
    {
        if upto <= 0 {
            None
        } else {
            let own = match self.components@[upto - 1] {
                Component::Editor(_) => editor.caret_cell(),
                Component::Prompt(prompt) => Some(prompt_caret(prompt.input@, self.area)),
            };
            if own is Some {
                own
            } else {
                self.caret_from(editor, upto - 1)
            }
        }
    }
}

/// The first of the callbacks, if there is one.
pub open spec fn callbacks_head(callbacks: Seq<Callback>) -> Option<Callback> {
    if callbacks.len() > 0 {
        Some(callbacks[0])
    } else {
        None
    }
}

} // verus!
