use vstd::prelude::*;

use crate::snippet::Snippet;

verus! {

/// Number of input fields in editing mode: the title and the description.
pub const FIELD_COUNT: u8 = 2;

/// The two interaction modes: browsing the table of snippets, or composing a
/// new snippet in the input fields.
#[derive(Clone, Copy, Debug, PartialEq, Eq, Structural)]
pub enum InputMode {
    Browsing,
    Editing,
}

/// The in-memory state of the application: the snippet list, the interaction
/// mode, the transient input buffers, the focused field, and the table
/// selection cursor.
pub struct AppState {
    pub title_input: String,
    pub description_input: String,
    pub focused_input_index: u8,
    pub input_mode: InputMode,
    pub messages: Vec<Snippet>,
    pub selection: Option<usize>,
}

/// The selection after one advance step through a list of length `n`:
/// nothing moves on an empty list, an absent selection lands on index 0, and
/// the last index wraps around to 0.
pub open spec fn next_index(sel: Option<usize>, n: nat) -> Option<usize> {
    if n == 0 {
        sel
    } else {
        match sel {
            None => Some(0usize),
            Some(i) => if i + 1 < n {
                Some((i + 1) as usize)
            } else {
                Some(0usize)
            },
        }
    }
}

/// The selection after one retreat step through a list of length `n`:
/// nothing moves on an empty list, an absent selection lands on index 0, and
/// index 0 wraps around to the last index.
pub open spec fn prev_index(sel: Option<usize>, n: nat) -> Option<usize> {
    if n == 0 {
        sel
    } else {
        match sel {
            None => Some(0usize),
            Some(i) => if i == 0 {
                Some((n - 1) as usize)
            } else {
                Some((i - 1) as usize)
            },
        }
    }
}

/// The selection after removing the entry at index `i`: cleared when the list
/// became empty, otherwise clamped so that it stays in range.
pub open spec fn clamped_selection(i: int, new_len: int) -> Option<usize> {
    if new_len <= 0 {
        None
    } else if i < new_len {
        Some(i as usize)
    } else {
        Some((new_len - 1) as usize)
    }
}

/// The selection after `k` advance steps.
pub open spec fn advanced(sel: Option<usize>, n: nat, k: nat) -> Option<usize>
    decreases k,
{
    if k == 0 {
        sel
    } else {
        next_index(advanced(sel, n, (k - 1) as nat), n)
    }
}

/// The selection after `k` retreat steps.
pub open spec fn retreated(sel: Option<usize>, n: nat, k: nat) -> Option<usize>
    decreases k,
{
    if k == 0 {
        sel
    } else {
        prev_index(retreated(sel, n, (k - 1) as nat), n)
    }
}

proof fn lemma_advanced_position(i: nat, n: nat, k: nat)
    requires
        i < n,
        k <= n,
        n <= usize::MAX,
    ensures
        advanced(Some(i as usize), n, k) == Some(
            (if i + k < n {
                (i + k) as int
            } else {
                i + k - n
            }) as usize,
        ),
    decreases k,
{
    if k > 0 {
        lemma_advanced_position(i, n, (k - 1) as nat);
    }
}

proof fn lemma_retreated_position(i: nat, n: nat, k: nat)
    requires
        i < n,
        k <= n,
        n <= usize::MAX,
    ensures
        retreated(Some(i as usize), n, k) == Some(
            (if k <= i {
                i - k
            } else {
                (i + n - k) as int
            }) as usize,
        ),
    decreases k,
{
    if k > 0 {
        lemma_retreated_position(i, n, (k - 1) as nat);
    }
}

/// Selection wraparound: through a list of length `n >= 1`, advancing the
/// selection `n` times returns it to the starting index, and so does
/// retreating it `n` times.
pub proof fn lemma_selection_wraparound(i: nat, n: nat)
    requires
        1 <= n,
        i < n,
        n <= usize::MAX,
    ensures
        advanced(Some(i as usize), n, n) == Some(i as usize),
        retreated(Some(i as usize), n, n) == Some(i as usize),
{
    lemma_advanced_position(i, n, n);
    lemma_retreated_position(i, n, n);
}

impl AppState {
    /// The structural invariant: the selection, when present, is a valid
    /// index into the snippet list, and the focused field index is in range.
    pub open spec fn wf(self) -> bool {
        &&& (self.selection matches Some(i) ==> i < self.messages@.len())
        &&& self.focused_input_index < FIELD_COUNT
    }

    /// Advances the table selection one step, wrapping from the last entry to
    /// the first; a no-op on an empty list.
    pub fn next(&mut self)
        requires
            old(self).wf(),
        ensures
            final(self).wf(),
            final(self).selection == next_index(old(self).selection, old(self).messages@.len()),
            final(self).messages == old(self).messages,
            final(self).title_input == old(self).title_input,
            final(self).description_input == old(self).description_input,
            final(self).input_mode == old(self).input_mode,
            final(self).focused_input_index == old(self).focused_input_index,
    {
        if self.messages.len() == 0 {
            return ;
        }
        let i: usize = match self.selection {
            Some(i) => if i + 1 < self.messages.len() {
                i + 1
            } else {
                0
            },
            None => 0,
        };
        self.selection = Some(i);
    }

    /// Retreats the table selection one step, wrapping from the first entry
    /// to the last; a no-op on an empty list.
    pub fn previous(&mut self)
        requires
            old(self).wf(),
        ensures
            final(self).wf(),
            final(self).selection == prev_index(old(self).selection, old(self).messages@.len()),
            final(self).messages == old(self).messages,
            final(self).title_input == old(self).title_input,
            final(self).description_input == old(self).description_input,
            final(self).input_mode == old(self).input_mode,
            final(self).focused_input_index == old(self).focused_input_index,
    {
        if self.messages.len() == 0 {
            return ;
        }
        let i: usize = match self.selection {
            Some(i) => if i == 0 {
                self.messages.len() - 1
            } else {
                i - 1
            },
            None => 0,
        };
        self.selection = Some(i);
    }

    /// Removes the selected snippet, if any, and revalidates the selection so
    /// that it is never left pointing past the end of the shortened list.
    pub fn delete_selected(&mut self) -> (deleted: bool)
        requires
            old(self).wf(),
        ensures
            final(self).wf(),
            deleted == (old(self).selection matches Some(_)),
            old(self).selection matches Some(i) ==> {
                &&& final(self).messages@ == old(self).messages@.remove(i as int)
                &&& final(self).selection == clamped_selection(
                    i as int,
                    old(self).messages@.len() - 1,
                )
            },
            old(self).selection is None ==> final(self).messages == old(self).messages
                && final(self).selection == old(self).selection,
            final(self).title_input == old(self).title_input,
            final(self).description_input == old(self).description_input,
            final(self).input_mode == old(self).input_mode,
            final(self).focused_input_index == old(self).focused_input_index,
    {
        match self.selection {
            None => false,
            Some(i) => {
                self.messages.remove(i);
                let n = self.messages.len();
                if n == 0 {
                    self.selection = None;
                } else if i >= n {
                    self.selection = Some(n - 1);
                }
                true
            },
        }
    }
}

/// The snippet the selection points at, if any.
pub fn get_selected_snippet(app: &AppState) -> (r: Option<&Snippet>)
    requires
        app.wf(),
    ensures
        match app.selection {
            Some(i) => r matches Some(s) && s.deep_view() == app.messages.deep_view()[i as int],
            None => r is None,
        },
{
    match app.selection {
        None => None,
        Some(i) => Some(&self_index(app, i)),
    }
}

/// Delete revalidation: removing the selected entry never leaves the
/// selection pointing past the end of the shortened list.
pub proof fn lemma_delete_revalidation(i: int, old_len: int)
    requires
        0 <= i < old_len,
    ensures
        clamped_selection(i, old_len - 1) matches Some(j) ==> j < old_len - 1,
        old_len - 1 == 0 ==> clamped_selection(i, old_len - 1) is None,
{
}

fn self_index(app: &AppState, i: usize) -> (r: &Snippet)
    requires
        app.wf(),
        app.selection == Some(i),
    ensures
        r.deep_view() == app.messages.deep_view()[i as int],
{
    &app.messages[i]
}

impl Default for AppState {
    /// The initial state: empty list, empty buffers, browsing mode, focus on
    /// the title field, nothing selected.
    fn default() -> (s: AppState)
        ensures
            s.wf(),
            s.messages@.len() == 0,
            s.title_input@.len() == 0,
            s.description_input@.len() == 0,
            s.input_mode == InputMode::Browsing,
            s.focused_input_index == 0,
            s.selection is None,
    {
        AppState {
            title_input: String::new(),
            description_input: String::new(),
            focused_input_index: 0,
            input_mode: InputMode::Browsing,
            messages: Vec::new(),
            selection: None,
        }
    }
}

} // verus!
