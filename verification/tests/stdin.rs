use rs_script::tui_editor::{normalize_newlines, History, KeyAction, TuiSelectionBg};

#[test]
fn test_stdin_history_new() {
    let history = History::new();
    assert!(history.entries.is_empty());
    assert!(history.current_index.is_none());
}

#[test]
fn test_stdin_history_get_current_empty() {
    let mut history = History::new();
    assert!(history.get_current().is_none());
}

#[test]
fn test_stdin_history_get_current() {
    let mut history = History::new();
    history.add_entry("first");
    history.add_entry("second");
    assert_eq!(history.get_current(), Some("{\nsecond\n}".to_string()));
}

#[test]
fn test_stdin_history_get_previous_empty() {
    let mut history = History::new();
    assert!(history.get_previous().is_none());
}

#[test]
fn test_stdin_history_get_previous() {
    let mut history = History::new();
    history.add_entry("first");
    history.add_entry("second");
    assert_eq!(history.get_previous(), Some("{\nsecond\n}".to_string()));
}

#[test]
fn test_stdin_history_get_next_empty() {
    let mut history = History::new();
    assert!(history.get_next().is_none());
}

#[test]
fn test_stdin_history_get_next() {
    let mut history = History::new();
    history.add_entry("first");
    history.add_entry("second");
    history.get_previous(); // Move to the previous entry
    assert_eq!(history.get_next(), Some("{\nfirst\n}".to_string()));
}

#[test]
fn test_stdin_normalize_newlines() {
    let input = "Hello\r\nWorld\r!";
    let expected_output = "Hello\nWorld\n!";
    assert_eq!(normalize_newlines(input), expected_output);
}

#[test]
fn newlines_at_the_edges_are_normalized() {
    assert_eq!(normalize_newlines(""), "");
    assert_eq!(normalize_newlines("\r"), "\n");
    assert_eq!(normalize_newlines("\n"), "\n");
    assert_eq!(normalize_newlines("\r\n"), "\n");
    assert_eq!(normalize_newlines("\r\r\n\n"), "\n\n\n");
    assert_eq!(normalize_newlines("a\n\rb"), "a\n\nb");
}

#[test]
fn going_back_past_the_oldest_entry_finds_nothing() {
    let mut history = History::new();
    history.add_entry("first");
    history.add_entry("second");
    assert_eq!(history.get_previous(), Some("{\nsecond\n}".to_string()));
    assert_eq!(history.get_previous(), Some("{\nfirst\n}".to_string()));
    assert_eq!(history.get_previous(), None);
    assert_eq!(history.current_index, Some(2));
    assert_eq!(history.get_current(), None);
    assert_eq!(history.get_next(), Some("{\nfirst\n}".to_string()));
    assert_eq!(history.get_next(), Some("{\nsecond\n}".to_string()));
    assert_eq!(history.get_next(), Some("{\nfirst\n}".to_string()));
    assert_eq!(history.current_index, Some(1));
    assert_eq!(history.entry(0), Some("{\nsecond\n}".to_string()));
    assert_eq!(history.entry(2), None);
}

#[test]
fn going_forward_from_no_place_finds_the_oldest_entry() {
    let mut history = History::new();
    history.add_entry("first");
    history.add_entry("second");
    history.add_entry("third");
    assert_eq!(history.get_next(), Some("{\nfirst\n}".to_string()));
    assert_eq!(history.current_index, Some(2));
}

#[test]
fn some_key_actions_end_the_editing() {
    assert!(KeyAction::AbandonChanges.ends_editing());
    assert!(KeyAction::Quit(false).ends_editing());
    assert!(KeyAction::Quit(true).ends_editing());
    assert!(KeyAction::SaveAndExit.ends_editing());
    assert!(!KeyAction::Continue.ends_editing());
    assert!(!KeyAction::Save.ends_editing());
    assert!(!KeyAction::ToggleHighlight.ends_editing());
    assert!(!KeyAction::TogglePopup.ends_editing());
}

#[test]
fn the_selection_colours_toggle() {
    assert_eq!(TuiSelectionBg::BlueYellow.toggled(), TuiSelectionBg::RedWhite);
    assert_eq!(TuiSelectionBg::RedWhite.toggled(), TuiSelectionBg::BlueYellow);
}
