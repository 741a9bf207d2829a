use sniprrr::codec::encode_snippets;
use sniprrr::machine::{copy_concludes, CopyOutcome, Effect, Key};
use sniprrr::snippet::Snippet;
use sniprrr::state::{AppState, InputMode, FIELD_COUNT};

fn snip(title: &str, description: &str) -> Snippet {
    Snippet { title: title.to_string(), description: description.to_string() }
}

fn state_with(messages: Vec<Snippet>, selection: Option<usize>) -> AppState {
    let mut state = AppState::default();
    state.messages = messages;
    state.selection = selection;
    state
}

fn type_text(state: &mut AppState, text: &str) {
    for c in text.chars() {
        assert_eq!(state.handle_key(Key::Char(c), true), Effect::Nothing);
    }
}

#[test]
fn compose_and_commit_one_snippet() {
    let mut state = AppState::default();
    assert_eq!(state.handle_key(Key::Char('e'), true), Effect::Nothing);
    assert_eq!(state.input_mode, InputMode::Editing);
    assert_eq!(state.focused_input_index, 0);
    type_text(&mut state, "Hi");
    assert_eq!(state.handle_key(Key::Tab, true), Effect::Nothing);
    assert_eq!(state.focused_input_index, 1);
    type_text(&mut state, "There");
    assert_eq!(state.handle_key(Key::Enter, true), Effect::Persist);
    assert_eq!(state.messages, vec![snip("Hi", "There")]);
    assert_eq!(state.input_mode, InputMode::Browsing);
    assert_eq!(state.title_input, "");
    assert_eq!(state.description_input, "");
    assert_eq!(
        encode_snippets(&state.messages),
        "[{\"title\":\"Hi\",\"description\":\"There\"}]"
    );
}

#[test]
fn enter_on_first_field_only_moves_focus() {
    let mut state = AppState::default();
    state.handle_key(Key::Char('e'), true);
    type_text(&mut state, "abc");
    assert_eq!(state.handle_key(Key::Enter, true), Effect::Nothing);
    assert_eq!(state.focused_input_index, 1);
    assert_eq!(state.input_mode, InputMode::Editing);
    assert!(state.messages.is_empty());
}

#[test]
fn tab_field_count_times_returns_to_first_field() {
    let mut state = AppState::default();
    state.handle_key(Key::Char('e'), true);
    assert_eq!(state.focused_input_index, 0);
    for _ in 0..FIELD_COUNT {
        assert_eq!(state.handle_key(Key::Tab, true), Effect::Nothing);
    }
    assert_eq!(state.focused_input_index, 0);
}

#[test]
fn editing_ignores_key_releases() {
    let mut state = AppState::default();
    state.handle_key(Key::Char('e'), true);
    assert_eq!(state.handle_key(Key::Char('x'), false), Effect::Nothing);
    assert_eq!(state.title_input, "");
    assert_eq!(state.handle_key(Key::Enter, false), Effect::Nothing);
    assert_eq!(state.focused_input_index, 0);
}

#[test]
fn backspace_edits_the_focused_buffer() {
    let mut state = AppState::default();
    state.handle_key(Key::Char('e'), true);
    type_text(&mut state, "ab");
    assert_eq!(state.handle_key(Key::Backspace, true), Effect::Nothing);
    assert_eq!(state.title_input, "a");
    assert_eq!(state.handle_key(Key::Backspace, true), Effect::Nothing);
    assert_eq!(state.handle_key(Key::Backspace, true), Effect::Nothing);
    assert_eq!(state.title_input, "");
    state.handle_key(Key::Tab, true);
    type_text(&mut state, "cd");
    state.handle_key(Key::Backspace, true);
    assert_eq!(state.description_input, "c");
    assert_eq!(state.title_input, "");
}

#[test]
fn escape_leaves_editing_but_keeps_buffers() {
    let mut state = AppState::default();
    state.handle_key(Key::Char('e'), true);
    type_text(&mut state, "draft");
    assert_eq!(state.handle_key(Key::Esc, true), Effect::Nothing);
    assert_eq!(state.input_mode, InputMode::Browsing);
    assert_eq!(state.title_input, "draft");
}

#[test]
fn browsing_keys_drive_the_selection() {
    let mut state = state_with(
        vec![snip("a", "1"), snip("b", "2"), snip("c", "3")],
        Some(2),
    );
    assert_eq!(state.handle_key(Key::Char('j'), true), Effect::Nothing);
    assert_eq!(state.selection, Some(0));
    assert_eq!(state.handle_key(Key::Char('k'), true), Effect::Nothing);
    assert_eq!(state.selection, Some(2));
    assert_eq!(state.handle_key(Key::Down, true), Effect::Nothing);
    assert_eq!(state.selection, Some(0));
    assert_eq!(state.handle_key(Key::Up, true), Effect::Nothing);
    assert_eq!(state.selection, Some(2));
}

#[test]
fn delete_key_removes_selected_and_persists() {
    let mut state = state_with(vec![snip("a", "1"), snip("b", "2")], Some(1));
    assert_eq!(state.handle_key(Key::Backspace, true), Effect::Persist);
    assert_eq!(state.messages, vec![snip("a", "1")]);
    assert_eq!(state.selection, Some(0));
    let mut unselected = state_with(vec![snip("a", "1")], None);
    assert_eq!(unselected.handle_key(Key::Delete, true), Effect::Nothing);
    assert_eq!(unselected.messages, vec![snip("a", "1")]);
}

#[test]
fn copy_is_requested_only_with_a_selection() {
    let mut state = state_with(vec![snip("a", "1")], Some(0));
    assert_eq!(state.handle_key(Key::Char('c'), true), Effect::CopyToClipboard);
    assert_eq!(state.messages, vec![snip("a", "1")]);
    let mut unselected = state_with(vec![snip("a", "1")], None);
    assert_eq!(unselected.handle_key(Key::Char('c'), true), Effect::Nothing);
}

#[test]
fn quit_key_requests_quit_without_changes() {
    let mut state = state_with(vec![snip("a", "1")], Some(0));
    assert_eq!(state.handle_key(Key::Char('q'), true), Effect::Quit);
    assert_eq!(state.messages, vec![snip("a", "1")]);
    assert_eq!(state.input_mode, InputMode::Browsing);
}

#[test]
fn unmapped_keys_do_nothing() {
    let mut state = state_with(vec![snip("a", "1")], Some(0));
    assert_eq!(state.handle_key(Key::Other, true), Effect::Nothing);
    assert_eq!(state.handle_key(Key::Char('z'), true), Effect::Nothing);
    assert_eq!(state.messages, vec![snip("a", "1")]);
    assert_eq!(state.selection, Some(0));
}

#[test]
fn copy_outcome_decides_whether_the_session_ends() {
    assert!(!copy_concludes(CopyOutcome::ClipboardUnavailable));
    assert!(copy_concludes(CopyOutcome::CopyFailed));
    assert!(copy_concludes(CopyOutcome::Copied));
}
