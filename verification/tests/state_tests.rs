use sniprrr::snippet::Snippet;
use sniprrr::state::{get_selected_snippet, AppState, InputMode};

fn snip(title: &str, description: &str) -> Snippet {
    Snippet { title: title.to_string(), description: description.to_string() }
}

fn state_with(messages: Vec<Snippet>, selection: Option<usize>) -> AppState {
    let mut state = AppState::default();
    state.messages = messages;
    state.selection = selection;
    state
}

#[test]
fn default_state_is_empty_and_browsing() {
    let state = AppState::default();
    assert!(state.messages.is_empty());
    assert_eq!(state.title_input, "");
    assert_eq!(state.description_input, "");
    assert_eq!(state.input_mode, InputMode::Browsing);
    assert_eq!(state.focused_input_index, 0);
    assert_eq!(state.selection, None);
}

#[test]
fn next_selects_first_entry_when_nothing_selected() {
    let mut state = state_with(vec![snip("a", "1"), snip("b", "2")], None);
    state.next();
    assert_eq!(state.selection, Some(0));
}

#[test]
fn next_wraps_from_last_to_first() {
    let mut state = state_with(
        vec![snip("a", "1"), snip("b", "2"), snip("c", "3")],
        Some(2),
    );
    state.next();
    assert_eq!(state.selection, Some(0));
}

#[test]
fn previous_wraps_from_first_to_last() {
    let mut state = state_with(
        vec![snip("a", "1"), snip("b", "2"), snip("c", "3")],
        Some(0),
    );
    state.previous();
    assert_eq!(state.selection, Some(2));
}

#[test]
fn navigation_is_a_noop_on_an_empty_list() {
    let mut state = state_with(Vec::new(), None);
    state.next();
    assert_eq!(state.selection, None);
    state.previous();
    assert_eq!(state.selection, None);
}

#[test]
fn advancing_list_length_times_returns_to_start() {
    for start in 0..3usize {
        let mut state = state_with(
            vec![snip("a", "1"), snip("b", "2"), snip("c", "3")],
            Some(start),
        );
        for _ in 0..3 {
            state.next();
        }
        assert_eq!(state.selection, Some(start));
    }
}

#[test]
fn retreating_list_length_times_returns_to_start() {
    for start in 0..3usize {
        let mut state = state_with(
            vec![snip("a", "1"), snip("b", "2"), snip("c", "3")],
            Some(start),
        );
        for _ in 0..3 {
            state.previous();
        }
        assert_eq!(state.selection, Some(start));
    }
}

#[test]
fn delete_keeps_selection_in_range() {
    let mut state = state_with(vec![snip("a", "1"), snip("b", "2")], Some(1));
    let deleted = state.delete_selected();
    assert!(deleted);
    assert_eq!(state.messages, vec![snip("a", "1")]);
    assert_eq!(state.selection, Some(0));
}

#[test]
fn delete_middle_entry_keeps_selection_index() {
    let mut state = state_with(
        vec![snip("a", "1"), snip("b", "2"), snip("c", "3")],
        Some(1),
    );
    assert!(state.delete_selected());
    assert_eq!(state.messages, vec![snip("a", "1"), snip("c", "3")]);
    assert_eq!(state.selection, Some(1));
}

#[test]
fn delete_last_remaining_entry_clears_selection() {
    let mut state = state_with(vec![snip("a", "1")], Some(0));
    assert!(state.delete_selected());
    assert!(state.messages.is_empty());
    assert_eq!(state.selection, None);
}

#[test]
fn delete_without_selection_changes_nothing() {
    let mut state = state_with(vec![snip("a", "1")], None);
    assert!(!state.delete_selected());
    assert_eq!(state.messages, vec![snip("a", "1")]);
    assert_eq!(state.selection, None);
}

#[test]
fn selected_snippet_follows_the_cursor() {
    let state = state_with(vec![snip("a", "1"), snip("b", "2")], Some(1));
    let selected = get_selected_snippet(&state).unwrap();
    assert_eq!(selected, &snip("b", "2"));
    let unselected = state_with(vec![snip("a", "1")], None);
    assert!(get_selected_snippet(&unselected).is_none());
}
