use rs_script::repl::{
    disp_repl_banner, edit_command_description, event_description, format_edit_commands,
    choose_for_line, format_key_code, format_key_modifier, format_non_edit_events, match_command,
    parse_line, split_command, try_parse_line, EditCommand, EditCommandKind, KeyCode,
    KeyModifiers, LineChoice, ReplCommand, ReplPrompt,
};

#[test]
fn test_parse_line() {
    let input = r#"command "arg 1" arg2"#;
    let (command, args) = parse_line(input);
    println!("\r");
    assert_eq!(command, "command");
    assert_eq!(args, vec!["arg 1".to_string(), "arg2".to_string()]);
}

#[test]
fn test_disp_repl_banner() {
    let cmd_list = "command1, command2";
    let (heading, hints) = disp_repl_banner(cmd_list);
    assert_eq!(
        heading,
        r#"Enter a Rust expression (e.g., 2 + 3 or "Hi!"), or one of: command1, command2."#
    );
    assert_eq!(
        hints,
        "Expressions in matching braces, brackets or quotes may span multiple lines.\nUse ↑ ↓ to navigate history, →  to select current. Ctrl-U: clear. Ctrl-K: delete to end."
    );
}

#[test]
fn a_line_without_a_word_is_not_split() {
    assert_eq!(try_parse_line("   "), None);
    assert_eq!(try_parse_line(""), None);
    assert_eq!(
        try_parse_line(r#"command "arg 1" arg2"#),
        Some(("command".to_string(), vec!["arg 1".to_string(), "arg2".to_string()]))
    );
    let words = vec!["\"a b\"".to_string(), "c".to_string()];
    assert_eq!(split_command(&words), ("\"a b\"".to_string(), vec!["c".to_string()]));
}

#[test]
fn no_word_of_a_line_is_dropped_added_or_moved() {
    let (command, args) = parse_line(r#"  one "two  words"   three"four" "" 5 "#);
    assert_eq!(command, "one");
    assert_eq!(args, vec!["two  words", "threefour", "", "5"]);
}

#[test]
fn a_line_asks_for_nothing_a_command_or_an_evaluation() {
    let commands = ReplCommand::names();
    let choice = |line: &str| match choose_for_line(&commands, line) {
        LineChoice::Nothing => "nothing".to_string(),
        LineChoice::Command(c, args) => format!("{} {args:?}", c.name()),
        LineChoice::Evaluate => "evaluate".to_string(),
    };
    assert_eq!(choice(""), "nothing");
    assert_eq!(choice(" \t\n"), "nothing");
    assert_eq!(choice("quit"), "quit []");
    assert_eq!(choice("  q  "), "quit []");
    assert_eq!(choice("del now \"for good\""), "delete [\"now\", \"for good\"]");
    assert_eq!(choice("h"), "evaluate");
    assert_eq!(choice("2 + 3"), "evaluate");
    assert_eq!(choice("quitter"), "evaluate");
    // A name that begins the word's one match but is no command.
    let odd = vec!["quit".to_string(), "zap".to_string()];
    assert!(matches!(choose_for_line(&odd, "z"), LineChoice::Evaluate));
    assert!(matches!(choose_for_line(&odd, "q"), LineChoice::Command(ReplCommand::Quit, _)));
}

#[test]
fn a_lone_command_has_no_arguments() {
    let (command, args) = parse_line("quit");
    assert_eq!(command, "quit");
    assert!(args.is_empty());
}

#[test]
fn a_word_stands_for_the_one_command_it_begins() {
    let commands = ReplCommand::names();
    assert_eq!(match_command(&commands, "q"), Some("quit".to_string()));
    assert_eq!(match_command(&commands, "he"), Some("help".to_string()));
    assert_eq!(match_command(&commands, "history"), Some("history".to_string()));
    // `h` begins both `history` and `help`; `x` begins nothing.
    assert_eq!(match_command(&commands, "h"), None);
    assert_eq!(match_command(&commands, "x"), None);
    assert_eq!(match_command(&commands, "quitter"), None);
    // Every command begins with the empty word.
    assert_eq!(match_command(&commands, ""), None);
    assert_eq!(match_command(&vec!["only".to_string()], ""), Some("only".to_string()));
}

#[test]
fn command_names_are_read_back() {
    let all = [
        ReplCommand::Banner,
        ReplCommand::Edit,
        ReplCommand::Toml,
        ReplCommand::Run,
        ReplCommand::Delete,
        ReplCommand::List,
        ReplCommand::History,
        ReplCommand::Help,
        ReplCommand::Keys,
        ReplCommand::Quit,
    ];
    let names = ReplCommand::names();
    assert_eq!(names.len(), all.len());
    for (command, name) in all.iter().zip(names.iter()) {
        assert_eq!(command.name(), name);
        assert_eq!(ReplCommand::from_name(name), Some(*command));
    }
    assert_eq!(ReplCommand::from_name("Quit"), None);
    assert_eq!(ReplCommand::from_name(""), None);
}

#[test]
fn the_prompt_is_rendered() {
    let prompt = ReplPrompt("repl");
    assert_eq!(prompt.render_prompt_left(), "repl");
    assert_eq!(prompt.render_prompt_right(), "");
    assert_eq!(prompt.render_prompt_indicator(), "> ");
    assert_eq!(prompt.render_prompt_multiline_indicator(), "");
    assert_eq!(
        prompt.render_prompt_history_search_indicator(false, "fib"),
        "(reverse-search: fib) "
    );
    assert_eq!(
        prompt.render_prompt_history_search_indicator(true, "fib"),
        "(failing reverse-search: fib) "
    );
}

#[test]
fn modifiers_are_joined() {
    let held = |control, shift, alt| format_key_modifier(KeyModifiers { control, shift, alt });
    assert_eq!(held(false, false, false), "");
    assert_eq!(held(true, false, false), "CONTROL-");
    assert_eq!(held(false, true, false), "SHIFT-");
    assert_eq!(held(false, false, true), "ALT-");
    assert_eq!(held(true, false, true), "CONTROL+ALT-");
    assert_eq!(held(false, true, true), "SHIFT+ALT-");
    assert_eq!(held(true, true, true), "CONTROL+SHIFT+ALT-");
}

#[test]
fn keys_are_named() {
    assert_eq!(format_key_code(&KeyCode::Backspace), "Backspace");
    assert_eq!(format_key_code(&KeyCode::KeypadBegin), "KeypadBegin");
    assert_eq!(format_key_code(&KeyCode::F(1)), "F1");
    assert_eq!(format_key_code(&KeyCode::F(12)), "F12");
    assert_eq!(format_key_code(&KeyCode::F(0)), "F0");
    assert_eq!(format_key_code(&KeyCode::F(255)), "F255");
    assert_eq!(format_key_code(&KeyCode::Char('a')), "A");
    assert_eq!(format_key_code(&KeyCode::Char('z')), "Z");
    assert_eq!(format_key_code(&KeyCode::Char('Q')), "Q");
    assert_eq!(format_key_code(&KeyCode::Char('<')), "<");
    assert_eq!(format_key_code(&KeyCode::Char('é')), "É");
    assert_eq!(format_key_code(&KeyCode::Char('ß')), "SS");
    assert_eq!(format_key_code(&KeyCode::Media("Play".to_string())), "Media(Play)");
    assert_eq!(format_key_code(&KeyCode::Modifier("LeftShift".to_string())), "Modifier(LeftShift)");
}

#[test]
fn events_are_described() {
    assert_eq!(event_description("CtrlD"), Some("Handle EndOfLine event"));
    assert_eq!(event_description("OpenEditor"), Some("Open text editor"));
    assert_eq!(event_description("HistoryHintComplete"), Some("Complete history hint (default in full)"));
    assert_eq!(event_description("NoSuchEvent"), None);
    assert_eq!(format_non_edit_events("Enter", "Enter", 8), "Enter    Handle enter event");
    assert_eq!(format_non_edit_events("ClearScreen", "ClearScreen", 4), "ClearScreen Clears the screen and sets prompt to first line");
    assert_eq!(format_non_edit_events("Strange", "Strange", 9), "Strange   ");
}

#[test]
fn editing_commands_are_described() {
    assert_eq!(edit_command_description("MoveToStart"), Some("Move to the start of the buffer"));
    assert_eq!(edit_command_description("Paste"), Some("Paste content from local buffer at the current cursor position"));
    assert_eq!(edit_command_description("MoveToStart { select: false }"), None);

    let command = |written: &str, kind| EditCommand {
        written: written.to_string(),
        highlight: written.to_string(),
        kind,
    };
    let moving = command("MoveToStart { select: false }", EditCommandKind::Move { select: false });
    let selecting = command("MoveWordLeft { select: true }", EditCommandKind::Move { select: true });
    let plain = command("InsertNewline", EditCommandKind::Plain);
    let unlisted = command("InsertChar('a')", EditCommandKind::Plain);
    let until = command("MoveRightUntil { c: 'x', select: true }", EditCommandKind::MoveUntil { select: true });
    let position = command(
        "MoveToPosition { position: 12, select: false }",
        EditCommandKind::MoveToPosition { position: 12, select: false },
    );
    let other = command("Mystery", EditCommandKind::Other);

    assert_eq!(
        format_edit_commands(&vec![moving], 32),
        "MoveToStart { select: false }    Move to the start of the buffer, without selecting"
    );
    assert_eq!(
        format_edit_commands(&vec![selecting], 4),
        "MoveWordLeft { select: true } Move one word to the left. Select the text between the current cursor position and destination"
    );
    assert_eq!(
        format_edit_commands(&vec![plain, unlisted], 15),
        "InsertNewline   Insert the system specific new line character, InsertChar('a') "
    );
    assert_eq!(
        format_edit_commands(&vec![until], 0),
        "MoveRightUntil { c: 'x', select: true } MoveUntil right until char. Select the text between the current cursor position and destination"
    );
    assert_eq!(
        format_edit_commands(&vec![position], 0),
        "MoveToPosition { position: 12, select: false } Move to position 12 without selecting"
    );
    assert_eq!(format_edit_commands(&vec![other], 8), "Mystery   ");
    assert_eq!(format_edit_commands(&vec![], 8), "");
}
