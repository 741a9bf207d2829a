use vstd::prelude::*;

use crate::snippet::Snippet;
use crate::snippet::SnippetModel;
use crate::state::AppState;
use crate::state::FIELD_COUNT;
use crate::state::InputMode;
use crate::state::clamped_selection;
use crate::state::next_index;
use crate::state::prev_index;
use crate::text::pop_char;
use crate::text::push_char;

verus! {

/// A keyboard event, as the interaction state machine sees it.
#[derive(Clone, Copy, Debug)]
pub enum Key {
    Char(char),
    Enter,
    Tab,
    Backspace,
    Delete,
    Esc,
    Up,
    Down,
    Other,
}

/// What the caller must do after a transition, beyond the state change
/// itself.
#[derive(Clone, Copy, Debug, PartialEq, Eq, Structural)]
pub enum Effect {
    /// Nothing beyond the state change.
    Nothing,
    /// Persist the full snippet list.
    Persist,
    /// Copy the selected snippet's description to the system clipboard.
    CopyToClipboard,
    /// Leave the interaction loop.
    Quit,
}

/// The outcome of a clipboard copy attempt, reported back by the caller.
#[derive(Clone, Copy, Debug, PartialEq, Eq, Structural)]
pub enum CopyOutcome {
    /// No clipboard handle could be acquired, so no copy was attempted.
    ClipboardUnavailable,
    /// A copy was attempted and failed.
    CopyFailed,
    /// A copy was attempted and succeeded.
    Copied,
}

/// The mathematical value of the application state.
pub ghost struct StateModel {
    pub title_input: Seq<char>,
    pub description_input: Seq<char>,
    pub focused: u8,
    pub mode: InputMode,
    pub messages: Seq<SnippetModel>,
    pub selection: Option<usize>,
}

impl View for AppState {
    type V = StateModel;

    open spec fn view(&self) -> StateModel {
        StateModel {
            title_input: self.title_input@,
            description_input: self.description_input@,
            focused: self.focused_input_index,
            mode: self.input_mode,
            messages: self.messages.deep_view(),
            selection: self.selection,
        }
    }
}

/// The structural invariant on the model: the selection, when present, is a
/// valid index, and the focused field index is in range.
pub open spec fn wf_model(m: StateModel) -> bool {
    &&& (m.selection matches Some(i) ==> i < m.messages.len())
    &&& m.focused < FIELD_COUNT
}

/// One transition of the interaction state machine in browsing mode.
pub open spec fn step_browsing(m: StateModel, key: Key) -> (StateModel, Effect) {
    match key {
        Key::Char(c) => {
            if c == 'e' {
                (StateModel { mode: InputMode::Editing, focused: 0, ..m }, Effect::Nothing)
            } else if c == 'c' {
                match m.selection {
                    Some(_) => (m, Effect::CopyToClipboard),
                    None => (m, Effect::Nothing),
                }
            } else if c == 'q' {
                (m, Effect::Quit)
            } else if c == 'j' {
                (
                    StateModel { selection: next_index(m.selection, m.messages.len()), ..m },
                    Effect::Nothing,
                )
            } else if c == 'k' {
                (
                    StateModel { selection: prev_index(m.selection, m.messages.len()), ..m },
                    Effect::Nothing,
                )
            } else {
                (m, Effect::Nothing)
            }
        },
        Key::Down => (
            StateModel { selection: next_index(m.selection, m.messages.len()), ..m },
            Effect::Nothing,
        ),
        Key::Up => (
            StateModel { selection: prev_index(m.selection, m.messages.len()), ..m },
            Effect::Nothing,
        ),
        Key::Delete | Key::Backspace => {
            match m.selection {
                Some(i) => (
                    StateModel {
                        messages: m.messages.remove(i as int),
                        selection: clamped_selection(i as int, m.messages.len() - 1),
                        ..m
                    },
                    Effect::Persist,
                ),
                None => (m, Effect::Nothing),
            }
        },
        _ => (m, Effect::Nothing),
    }
}

/// One transition of the interaction state machine in editing mode, for a
/// key-press event.  Escape abandons the edit and returns to browsing with
/// the buffers kept, so a later edit resumes the draft.
pub open spec fn step_editing(m: StateModel, key: Key) -> (StateModel, Effect) {
    match key {
        Key::Tab => (
            StateModel { focused: (((m.focused + 1) as int % (FIELD_COUNT as int)) as u8), ..m },
            Effect::Nothing,
        ),
        Key::Enter => {
            if m.focused == FIELD_COUNT - 1 {
                (
                    StateModel {
                        messages: m.messages.push(
                            SnippetModel { title: m.title_input, description: m.description_input },
                        ),
                        title_input: Seq::empty(),
                        description_input: Seq::empty(),
                        mode: InputMode::Browsing,
                        ..m
                    },
                    Effect::Persist,
                )
            } else {
                (
                    StateModel {
                        focused: (((m.focused + 1) as int % (FIELD_COUNT as int)) as u8),
                        ..m
                    },
                    Effect::Nothing,
                )
            }
        },
        Key::Char(c) => {
            if m.focused == 0 {
                (StateModel { title_input: m.title_input.push(c), ..m }, Effect::Nothing)
            } else {
                (StateModel { description_input: m.description_input.push(c), ..m }, Effect::Nothing)
            }
        },
        Key::Backspace => {
            if m.focused == 0 {
                (
                    StateModel {
                        title_input: if m.title_input.len() > 0 {
                            m.title_input.drop_last()
                        } else {
                            m.title_input
                        },
                        ..m
                    },
                    Effect::Nothing,
                )
            } else {
                (
                    StateModel {
                        description_input: if m.description_input.len() > 0 {
                            m.description_input.drop_last()
                        } else {
                            m.description_input
                        },
                        ..m
                    },
                    Effect::Nothing,
                )
            }
        },
        Key::Esc => (StateModel { mode: InputMode::Browsing, ..m }, Effect::Nothing),
        _ => (m, Effect::Nothing),
    }
}

/// One transition of the interaction state machine: from a state and a
/// keyboard event to the next state and the required effect.  In editing
/// mode only key-press events are processed, so that a key release does not
/// repeat the action; browsing mode handles every event.
pub open spec fn step(m: StateModel, key: Key, is_press: bool) -> (StateModel, Effect) {
    match m.mode {
        InputMode::Browsing => step_browsing(m, key),
        InputMode::Editing => if is_press {
            step_editing(m, key)
        } else {
            (m, Effect::Nothing)
        },
    }
}

/// Whether the interaction loop ends after a `c` command, given how the
/// clipboard attempt went.  A copy that was attempted concludes the session
/// whether or not it succeeded; an unavailable clipboard is non-fatal and the
/// session goes on.
pub fn copy_concludes(outcome: CopyOutcome) -> (quit: bool)
    ensures
        quit == (outcome != CopyOutcome::ClipboardUnavailable),
{
    match outcome {
        CopyOutcome::ClipboardUnavailable => false,
        CopyOutcome::CopyFailed => true,
        CopyOutcome::Copied => true,
    }
}

impl AppState {
    /// Feeds one keyboard event to the interaction state machine, mutating
    /// the state as `step` describes and returning the effect the caller
    /// must perform.
    pub fn handle_key(&mut self, key: Key, is_press: bool) -> (eff: Effect)
        requires
            old(self).wf(),
        ensures
            final(self).wf(),
            (final(self)@, eff) == step(old(self)@, key, is_press),
    {
        match self.input_mode {
            InputMode::Browsing => self.handle_key_browsing(key),
            InputMode::Editing => {
                if is_press {
                    self.handle_key_editing(key)
                } else {
                    Effect::Nothing
                }
            },
        }
    }

    fn handle_key_browsing(&mut self, key: Key) -> (eff: Effect)
        requires
            old(self).wf(),
            old(self).input_mode == InputMode::Browsing,
        ensures
            final(self).wf(),
            (final(self)@, eff) == step_browsing(old(self)@, key),
    {
        match key {
            Key::Char(c) => {
                if c == 'e' {
                    self.focused_input_index = 0;
                    self.input_mode = InputMode::Editing;
                    Effect::Nothing
                } else if c == 'c' {
                    match self.selection {
                        Some(_) => Effect::CopyToClipboard,
                        None => Effect::Nothing,
                    }
                } else if c == 'q' {
                    Effect::Quit
                } else if c == 'j' {
                    self.next();
                    Effect::Nothing
                } else if c == 'k' {
                    self.previous();
                    Effect::Nothing
                } else {
                    Effect::Nothing
                }
            },
            Key::Down => {
                self.next();
                Effect::Nothing
            },
            Key::Up => {
                self.previous();
                Effect::Nothing
            },
            Key::Delete | Key::Backspace => {
                let ghost pre = *self;
                let deleted = self.delete_selected();
                proof {
                    if pre.selection is Some {
                        assert(self.messages.deep_view() =~= pre.messages.deep_view().remove(
                            pre.selection->0 as int,
                        ));
                    }
                }
                if deleted {
                    Effect::Persist
                } else {
                    Effect::Nothing
                }
            },
            _ => Effect::Nothing,
        }
    }

    fn handle_key_editing(&mut self, key: Key) -> (eff: Effect)
        requires
            old(self).wf(),
            old(self).input_mode == InputMode::Editing,
        ensures
            final(self).wf(),
            (final(self)@, eff) == step_editing(old(self)@, key),
    {
        match key {
            Key::Tab => {
                self.focused_input_index = (self.focused_input_index + 1) % FIELD_COUNT;
                Effect::Nothing
            },
            Key::Enter => {
                if self.focused_input_index == FIELD_COUNT - 1 {
                    let snippet = Snippet {
                        title: self.title_input.clone(),
                        description: self.description_input.clone(),
                    };
                    let ghost pre = *self;
                    self.messages.push(snippet);
                    proof {
                        assert(self.messages.deep_view() =~= pre.messages.deep_view().push(
                            SnippetModel {
                                title: pre.title_input@,
                                description: pre.description_input@,
                            },
                        ));
                    }
                    self.title_input = String::new();
                    self.description_input = String::new();
                    self.input_mode = InputMode::Browsing;
                    Effect::Persist
                } else {
                    self.focused_input_index = (self.focused_input_index + 1) % FIELD_COUNT;
                    Effect::Nothing
                }
            },
            Key::Char(c) => {
                if self.focused_input_index == 0 {
                    push_char(&mut self.title_input, c);
                } else {
                    push_char(&mut self.description_input, c);
                }
                Effect::Nothing
            },
            Key::Backspace => {
                if self.focused_input_index == 0 {
                    let _popped = pop_char(&mut self.title_input);
                } else {
                    let _popped = pop_char(&mut self.description_input);
                }
                Effect::Nothing
            },
            Key::Esc => {
                self.input_mode = InputMode::Browsing;
                Effect::Nothing
            },
            _ => Effect::Nothing,
        }
    }
}

/// Every transition preserves the structural invariant; in particular,
/// deleting the selected snippet never leaves the selection pointing past
/// the end of the shortened list.
pub proof fn lemma_step_preserves_wf(m: StateModel, key: Key, is_press: bool)
    requires
        wf_model(m),
    ensures
        wf_model(step(m, key, is_press).0),
{
}

/// Edit-commit invariant: committing an edit — enter while focus is on the
/// last field — appends exactly one snippet built from the two buffers,
/// clears both buffers, returns to browsing mode, and asks the caller to
/// persist the list.
pub proof fn lemma_edit_commit(m: StateModel)
    requires
        m.mode == InputMode::Editing,
        m.focused == FIELD_COUNT - 1,
    ensures
        ({
            let (m2, eff) = step(m, Key::Enter, true);
            &&& m2.messages == m.messages.push(
                SnippetModel { title: m.title_input, description: m.description_input },
            )
            &&& m2.title_input.len() == 0
            &&& m2.description_input.len() == 0
            &&& m2.mode == InputMode::Browsing
            &&& eff == Effect::Persist
        }),
{
}

/// Field cycling: from the title field, pressing tab `FIELD_COUNT` times
/// while editing returns focus to the title field.
pub proof fn lemma_field_cycling(m: StateModel)
    requires
        m.mode == InputMode::Editing,
        m.focused == 0,
    ensures
        ({
            let (m1, _e1) = step(m, Key::Tab, true);
            let (m2, _e2) = step(m1, Key::Tab, true);
            &&& m1.focused == 1
            &&& m2.focused == 0
            &&& m2.mode == InputMode::Editing
        }),
{
}

} // verus!
