//! What the line-based front end decides: how a line splits into a command
//! and its arguments, which command a word stands for, and how keys, events
//! and editing commands are described.

use vstd::prelude::*;
use crate::patterns::{capture_group, captured};
use crate::text::{
    append, append_padded, append_str, decimal, decimal_of, find, find_from, from_chars,
    has_prefix, padded, remove_char, same_text, slice, starts_with, strings, to_chars, trim,
    trimmed, uppercase, uppercase_of, without_char,
};

verus! {

/// What each event of the line editor does, by the event's name.
pub const EVENT_DESCRIPTIONS: [(&'static str, &'static str); 33] = [
    ("HistoryHintComplete", "Complete history hint (default in full)"),
    ("HistoryHintWordComplete", "Complete a single token/word of the history hint"),
    ("CtrlD", "Handle EndOfLine event"),
    ("CtrlC", "Handle SIGTERM key input"),
    ("ClearScreen", "Clears the screen and sets prompt to first line"),
    ("ClearScrollback", "Clears the screen and the scrollback buffer, sets the prompt back to the first line"),
    ("Enter", "Handle enter event"),
    ("Submit", "Handle unconditional submit event"),
    ("SubmitOrNewline", "Submit at the end of the *complete* text, otherwise newline"),
    ("Esc", "Esc event"),
    ("Mouse", "Mouse"),
    ("Resize(u16, u16)", "trigger terminal resize"),
    ("Edit(Vec<EditCommand>)", "Run these commands in the editor"),
    ("Repaint", "Trigger full repaint"),
    ("PreviousHistory", "Navigate to the previous historic buffer"),
    ("Up", "Move up to the previous line, if multiline, or up into the historic buffers"),
    ("Down", "Move down to the next line, if multiline, or down through the historic buffers"),
    ("Right", "Move right to the next column, completion entry, or complete hint"),
    ("Left", "Move left to the next column, or completion entry"),
    ("NextHistory", "Navigate to the next historic buffer"),
    ("SearchHistory", "Search the history for a string"),
    ("Multiple(Vec<ReedlineEvent>)", "Multiple chained (Vi)"),
    ("UntilFound(Vec<ReedlineEvent>)", "Test"),
    ("Menu(String)", "Trigger a menu event. It activates a menu with the event name"),
    ("MenuNext", "Next element in the menu"),
    ("MenuPrevious", "Previous element in the menu"),
    ("MenuUp", "Moves up in the menu"),
    ("MenuDown", "Moves down in the menu"),
    ("MenuLeft", "Moves left in the menu"),
    ("MenuRight", "Moves right in the menu"),
    ("MenuPageNext", "Move to the next history page"),
    ("MenuPagePrevious", "Move to the previous history page"),
    ("OpenEditor", "Open text editor"),
];

/// What each editing command of the line editor does, by the command's name.
pub const EDIT_COMMAND_DESCRIPTIONS: [(&'static str, &'static str); 59] = [
    ("MoveToStart", "Move to the start of the buffer"),
    ("MoveToLineStart", "Move to the start of the current line"),
    ("MoveToEnd", "Move to the end of the buffer"),
    ("MoveToLineEnd", "Move to the end of the current line"),
    ("MoveLeft", "Move one character to the left"),
    ("MoveRight", "Move one character to the right"),
    ("MoveWordLeft", "Move one word to the left"),
    ("MoveBigWordLeft", "Move one WORD to the left"),
    ("MoveWordRight", "Move one word to the right"),
    ("MoveWordRightStart", "Move one word to the right, stop at start of word"),
    ("MoveBigWordRightStart", "Move one WORD to the right, stop at start of WORD"),
    ("MoveWordRightEnd", "Move one word to the right, stop at end of word"),
    ("MoveBigWordRightEnd", "Move one WORD to the right, stop at end of WORD"),
    ("MoveToPosition", "Move to position"),
    ("InsertChar", "Insert a character at the current insertion point"),
    ("InsertString", "Insert a string at the current insertion point"),
    ("InsertNewline", "Insert the system specific new line character"),
    ("ReplaceChars", "Replace characters with string"),
    ("Backspace", "Backspace delete from the current insertion point"),
    ("Delete", "Delete in-place from the current insertion point"),
    ("CutChar", "Cut the grapheme right from the current insertion point"),
    ("BackspaceWord", "Backspace delete a word from the current insertion point"),
    ("DeleteWord", "Delete in-place a word from the current insertion point"),
    ("Clear", "Clear the current buffer"),
    ("ClearToLineEnd", "Clear to the end of the current line"),
    ("Complete", "Insert completion: entire completion if there is only one possibility, or else up to shared prefix."),
    ("CutCurrentLine", "Cut the current line"),
    ("CutFromStart", "Cut from the start of the buffer to the insertion point"),
    ("CutFromLineStart", "Cut from the start of the current line to the insertion point"),
    ("CutToEnd", "Cut from the insertion point to the end of the buffer"),
    ("CutToLineEnd", "Cut from the insertion point to the end of the current line"),
    ("CutWordLeft", "Cut the word left of the insertion point"),
    ("CutBigWordLeft", "Cut the WORD left of the insertion point"),
    ("CutWordRight", "Cut the word right of the insertion point"),
    ("CutBigWordRight", "Cut the WORD right of the insertion point"),
    ("CutWordRightToNext", "Cut the word right of the insertion point and any following space"),
    ("CutBigWordRightToNext", "Cut the WORD right of the insertion point and any following space"),
    ("PasteCutBufferBefore", "Paste the cut buffer in front of the insertion point (Emacs, vi P)"),
    ("PasteCutBufferAfter", "Paste the cut buffer in front of the insertion point (vi p)"),
    ("UppercaseWord", "Upper case the current word"),
    ("LowercaseWord", "Lower case the current word"),
    ("CapitalizeChar", "Capitalize the current character"),
    ("SwitchcaseChar", "Switch the case of the current character"),
    ("SwapWords", "Swap the current word with the word to the right"),
    ("SwapGraphemes", "Swap the current grapheme/character with the one to the right"),
    ("Undo", "Undo the previous edit command"),
    ("Redo", "Redo an edit command from the undo history"),
    ("CutRightUntil", "CutUntil right until char"),
    ("CutRightBefore", "CutUntil right before char"),
    ("MoveRightUntil", "MoveUntil right until char"),
    ("MoveRightBefore", "MoveUntil right before char"),
    ("CutLeftUntil", "CutUntil left until char"),
    ("CutLeftBefore", "CutUntil left before char"),
    ("MoveLeftUntil", "MoveUntil left until char"),
    ("MoveLeftBefore", "MoveUntil left before char"),
    ("SelectAll", "Select whole input buffer"),
    ("CutSelection", "Cut selection to local buffer"),
    ("CopySelection", "Copy selection to local buffer"),
    ("Paste", "Paste content from local buffer at the current cursor position"),
];

/// How many events are described.
pub const EVENT_COUNT: usize = 33;

/// How many editing commands are described.
pub const EDIT_COMMAND_COUNT: usize = 59;

/// A word of a command line: text between double quotes, or a run of
/// characters that are not blank.
pub const LINE_PATTERN: &'static str = r#"("[^"\n]+"|[\S]+)"#;

/// Each text without its double quotes.
pub open spec fn unquoted(words: Seq<Seq<char>>) -> Seq<Seq<char>> {
    Seq::new(words.len(), |i: int| without_char(words[i], '"'))
}

/// The command and the arguments that `words` stand for: the first word and
/// the others.
pub open spec fn command_and_arguments(words: Seq<Seq<char>>) -> (Seq<char>, Seq<Seq<char>>)
    recommends
        words.len() > 0,
{
    (words[0], words.skip(1))
}

/// The words of a command line, quotes removed.
pub open spec fn words_of(line: Seq<char>) -> Seq<Seq<char>> {
    unquoted(captured(LINE_PATTERN@, line, 0))
}

/// Each text without its double quotes.
pub fn strip_quotes(words: &Vec<String>) -> (out: Vec<String>)
    ensures
        strings(out@) == unquoted(strings(words@)),
{
    let mut out: Vec<String> = Vec::new();
    let mut i: usize = 0;
    while i < words.len()
        invariant
            i <= words.len(),
            strings(out@) == unquoted(strings(words@)).take(i as int),
        decreases words.len() - i,
    {
        let w = from_chars(&remove_char(&to_chars(words[i].as_str()), '"'));
        out.push(w);
        assert(strings(out@) == unquoted(strings(words@)).take(i as int).push(
            unquoted(strings(words@))[i as int],
        ));
        i += 1;
    }
    assert(unquoted(strings(words@)).take(words.len() as int) == unquoted(strings(words@)));
    out
}

/// The command and the arguments that `words` stand for.
pub fn split_command(words: &Vec<String>) -> (r: (String, Vec<String>))
    requires
        words.len() > 0,
    ensures
        (r.0@, strings(r.1@)) == command_and_arguments(strings(words@)),
{
    let mut args: Vec<String> = Vec::new();
    let mut i: usize = 1;
    assert(strings(args@) =~= strings(words@).subrange(1, 1));
    while i < words.len()
        invariant
            1 <= i <= words.len(),
            strings(args@) == strings(words@).subrange(1, i as int),
        decreases words.len() - i,
    {
        args.push(words[i].clone());
        assert(strings(args@) == strings(words@).subrange(1, i as int).push(words@[i as int]@));
        assert(strings(words@).subrange(1, i + 1) == strings(words@).subrange(1, i as int).push(
            words@[i as int]@,
        ));
        i += 1;
    }
    assert(strings(words@).skip(1) == strings(words@).subrange(1, words.len() as int));
    (words[0].clone(), args)
}

/// Splits a line into its command and the command's arguments. Text between
/// double quotes is one word, and loses the quotes. No word is dropped, added
/// or moved. The line must hold a word.
#[must_use]
pub fn parse_line(line: &str) -> (r: (String, Vec<String>))
    requires
        words_of(line@).len() > 0,
    ensures
        (r.0@, strings(r.1@)) == command_and_arguments(words_of(line@)),
{
    let found = capture_group(LINE_PATTERN, line, 0);
    assert(found.deep_view() =~= strings(found@));
    let words = strip_quotes(&found);
    split_command(&words)
}

/// Splits a line into its command and the command's arguments, where the
/// line holds a word; `None` exactly where it holds none.
pub fn try_parse_line(line: &str) -> (r: Option<(String, Vec<String>)>)
    ensures
        match r {
            Some(parts) => words_of(line@).len() > 0 && (parts.0@, strings(parts.1@))
                == command_and_arguments(words_of(line@)),
            None => words_of(line@).len() == 0,
        },
{
    let found = capture_group(LINE_PATTERN, line, 0);
    assert(found.deep_view() =~= strings(found@));
    if found.len() == 0 {
        None
    } else {
        Some(parse_line(line))
    }
}

/// The commands among `commands` that begin with `word`, in order.
pub open spec fn beginning_with(commands: Seq<Seq<char>>, word: Seq<char>) -> Seq<Seq<char>>
    decreases commands.len(),
{
    if commands.len() == 0 {
        Seq::empty()
    } else if starts_with(commands.last(), word) {
        beginning_with(commands.drop_last(), word).push(commands.last())
    } else {
        beginning_with(commands.drop_last(), word)
    }
}

/// The command that `word` stands for: the one command that begins with it.
/// A word with which no command begins, or more than one, stands for none.
pub open spec fn command_for(commands: Seq<Seq<char>>, word: Seq<char>) -> Option<Seq<char>> {
    let found = beginning_with(commands, word);
    if found.len() == 1 {
        Some(found[0])
    } else {
        None
    }
}

/// The command that `first_word` stands for.
pub fn match_command(commands: &Vec<String>, first_word: &str) -> (r: Option<String>)
    ensures
        r.deep_view() == command_for(strings(commands@), first_word@),
{
    let word = to_chars(first_word);
    let mut matches: usize = 0;
    let mut first: Option<String> = None;
    let mut i: usize = 0;
    while i < commands.len()
        invariant
            i <= commands.len(),
            word@ == first_word@,
            matches == beginning_with(strings(commands@).take(i as int), word@).len(),
            matches <= i,
            matches > 0 ==> first is Some && first->0@ == beginning_with(
                strings(commands@).take(i as int),
                word@,
            )[0],
        decreases commands.len() - i,
    {
        proof {
            let c = strings(commands@);
            assert(c.take(i + 1).drop_last() == c.take(i as int));
            assert(c.take(i + 1).last() == commands@[i as int]@);
        }
        let key = to_chars(commands[i].as_str());
        if has_prefix(&key, &word) {
            if matches == 0 {
                first = Some(commands[i].clone());
            }
            matches += 1;
        }
        i += 1;
    }
    assert(strings(commands@).take(commands.len() as int) == strings(commands@));
    if matches == 1 {
        first
    } else {
        None
    }
}

/// The commands of the front end.
#[derive(Debug, Clone, Copy, PartialEq, Eq, Structural)]
pub enum ReplCommand {
    /// Show the banner.
    Banner,
    /// Edit the expression.
    Edit,
    /// Edit the generated manifest.
    Toml,
    /// Build and run the expression.
    Run,
    /// Delete the temporary files.
    Delete,
    /// List the temporary files.
    List,
    /// Edit the history.
    History,
    /// Show help.
    Help,
    /// Show the key bindings.
    Keys,
    /// Leave.
    Quit,
}

/// The name by which a command is typed.
pub open spec fn command_name(c: ReplCommand) -> Seq<char> {
    match c {
        ReplCommand::Banner => "banner"@,
        ReplCommand::Edit => "edit"@,
        ReplCommand::Toml => "toml"@,
        ReplCommand::Run => "run"@,
        ReplCommand::Delete => "delete"@,
        ReplCommand::List => "list"@,
        ReplCommand::History => "history"@,
        ReplCommand::Help => "help"@,
        ReplCommand::Keys => "keys"@,
        ReplCommand::Quit => "quit"@,
    }
}

/// The command of the name `name`, if there is one.
pub open spec fn command_named(name: Seq<char>) -> Option<ReplCommand> {
    if name == "banner"@ {
        Some(ReplCommand::Banner)
    } else if name == "edit"@ {
        Some(ReplCommand::Edit)
    } else if name == "toml"@ {
        Some(ReplCommand::Toml)
    } else if name == "run"@ {
        Some(ReplCommand::Run)
    } else if name == "delete"@ {
        Some(ReplCommand::Delete)
    } else if name == "list"@ {
        Some(ReplCommand::List)
    } else if name == "history"@ {
        Some(ReplCommand::History)
    } else if name == "help"@ {
        Some(ReplCommand::Help)
    } else if name == "keys"@ {
        Some(ReplCommand::Keys)
    } else if name == "quit"@ {
        Some(ReplCommand::Quit)
    } else {
        None
    }
}

impl ReplCommand {
    /// The name by which this command is typed.
    pub fn name(&self) -> (n: &'static str)
        ensures
            n@ == command_name(*self),
    {
        match self {
            ReplCommand::Banner => "banner",
            ReplCommand::Edit => "edit",
            ReplCommand::Toml => "toml",
            ReplCommand::Run => "run",
            ReplCommand::Delete => "delete",
            ReplCommand::List => "list",
            ReplCommand::History => "history",
            ReplCommand::Help => "help",
            ReplCommand::Keys => "keys",
            ReplCommand::Quit => "quit",
        }
    }

    /// The command of the name `name`, if there is one.
    pub fn from_name(name: &str) -> (c: Option<ReplCommand>)
        ensures
            c == command_named(name@),
    {
        if same_text(name, "banner") {
            Some(ReplCommand::Banner)
        } else if same_text(name, "edit") {
            Some(ReplCommand::Edit)
        } else if same_text(name, "toml") {
            Some(ReplCommand::Toml)
        } else if same_text(name, "run") {
            Some(ReplCommand::Run)
        } else if same_text(name, "delete") {
            Some(ReplCommand::Delete)
        } else if same_text(name, "list") {
            Some(ReplCommand::List)
        } else if same_text(name, "history") {
            Some(ReplCommand::History)
        } else if same_text(name, "help") {
            Some(ReplCommand::Help)
        } else if same_text(name, "keys") {
            Some(ReplCommand::Keys)
        } else if same_text(name, "quit") {
            Some(ReplCommand::Quit)
        } else {
            None
        }
    }

    /// The names of all commands, in the order in which they are offered.
    pub fn names() -> (all: Vec<String>)
        ensures
            strings(all@) == seq![
                "banner"@,
                "edit"@,
                "toml"@,
                "run"@,
                "delete"@,
                "list"@,
                "history"@,
                "help"@,
                "keys"@,
                "quit"@,
            ],
    {
        let mut all: Vec<String> = Vec::new();
        all.push("banner".to_owned());
        all.push("edit".to_owned());
        all.push("toml".to_owned());
        all.push("run".to_owned());
        all.push("delete".to_owned());
        all.push("list".to_owned());
        all.push("history".to_owned());
        all.push("help".to_owned());
        all.push("keys".to_owned());
        all.push("quit".to_owned());
        assert(strings(all@) =~= seq![
            "banner"@,
            "edit"@,
            "toml"@,
            "run"@,
            "delete"@,
            "list"@,
            "history"@,
            "help"@,
            "keys"@,
            "quit"@,
        ]);
        all
    }
}

/// The two texts of the banner: the invitation, which lists the commands
/// `cmd_list`, and the hints below it.
pub open spec fn banner_of(cmd_list: Seq<char>) -> (Seq<char>, Seq<char>) {
    (
        "Enter a Rust expression (e.g., 2 + 3 or \"Hi!\"), or one of: "@ + cmd_list + "."@,
        "Expressions in matching braces, brackets or quotes may span multiple lines.\nUse ↑ ↓ to navigate history, →  to select current. Ctrl-U: clear. Ctrl-K: delete to end."@,
    )
}

/// The banner of the front end: the invitation and the hints.
pub fn disp_repl_banner(cmd_list: &str) -> (banner: (String, String))
    ensures
        (banner.0@, banner.1@) == banner_of(cmd_list@),
{
    let mut heading = to_chars("Enter a Rust expression (e.g., 2 + 3 or \"Hi!\"), or one of: ");
    append_str(&mut heading, cmd_list);
    append_str(&mut heading, ".");
    (
        from_chars(&heading),
        "Expressions in matching braces, brackets or quotes may span multiple lines.\nUse ↑ ↓ to navigate history, →  to select current. Ctrl-U: clear. Ctrl-K: delete to end.".to_owned(),
    )
}

/// The prompt of the front end: its text.
pub struct ReplPrompt(pub &'static str);

/// What stands between the prompt and the input.
pub const PROMPT_INDICATOR: &'static str = "> ";

/// What stands before each further line of an input of several lines.
pub const DEFAULT_MULTILINE_INDICATOR: &'static str = "";

/// The prompt of a search in the history for `term`; `failing` where nothing
/// is found.
pub open spec fn search_indicator(failing: bool, term: Seq<char>) -> Seq<char> {
    "("@ + (if failing {
        "failing "@
    } else {
        ""@
    }) + "reverse-search: "@ + term + ") "@
}

impl ReplPrompt {
    /// The left part of the prompt: its text.
    pub fn render_prompt_left(&self) -> (out: String)
        ensures
            out@ == self.0@,
    {
        self.0.to_owned()
    }

    /// The right part of the prompt: nothing.
    pub fn render_prompt_right(&self) -> (out: String)
        ensures
            out@.len() == 0,
    {
        String::new()
    }

    /// What stands between the prompt and the input.
    pub fn render_prompt_indicator(&self) -> (out: String)
        ensures
            out@ == PROMPT_INDICATOR@,
    {
        PROMPT_INDICATOR.to_owned()
    }

    /// What stands before each further line of an input of several lines.
    pub fn render_prompt_multiline_indicator(&self) -> (out: &'static str)
        ensures
            out@ == DEFAULT_MULTILINE_INDICATOR@,
    {
        DEFAULT_MULTILINE_INDICATOR
    }

    /// The prompt of a search in the history.
    pub fn render_prompt_history_search_indicator(&self, failing: bool, term: &str) -> (out:
        String)
        ensures
            out@ == search_indicator(failing, term@),
    {
        let mut out = to_chars("(");
        if failing {
            append_str(&mut out, "failing ");
        } else {
            append_str(&mut out, "");
        }
        append_str(&mut out, "reverse-search: ");
        append_str(&mut out, term);
        append_str(&mut out, ") ");
        from_chars(&out)
    }
}

/// The modifier keys held with a key.
#[derive(Debug, Clone, Copy, PartialEq, Eq, Structural)]
pub struct KeyModifiers {
    pub control: bool,
    pub shift: bool,
    pub alt: bool,
}

/// The names of the modifiers held, joined by `+` and closed by `-`; nothing
/// where none is held.
pub open spec fn modifier_text(m: KeyModifiers) -> Seq<char> {
    let c = if m.control {
        "CONTROL"@
    } else {
        ""@
    };
    let s = if m.shift {
        (if m.control {
            "+SHIFT"@
        } else {
            "SHIFT"@
        })
    } else {
        ""@
    };
    let a = if m.alt {
        (if m.control || m.shift {
            "+ALT"@
        } else {
            "ALT"@
        })
    } else {
        ""@
    };
    let end = if m.control || m.shift || m.alt {
        "-"@
    } else {
        ""@
    };
    c + s + a + end
}

/// How the modifiers held with a key are shown.
pub fn format_key_modifier(modifier: KeyModifiers) -> (out: String)
    ensures
        out@ == modifier_text(modifier),
{
    let mut out: Vec<char> = Vec::new();
    append_str(
        &mut out,
        if modifier.control {
            "CONTROL"
        } else {
            ""
        },
    );
    append_str(
        &mut out,
        if modifier.shift {
            if modifier.control {
                "+SHIFT"
            } else {
                "SHIFT"
            }
        } else {
            ""
        },
    );
    append_str(
        &mut out,
        if modifier.alt {
            if modifier.control || modifier.shift {
                "+ALT"
            } else {
                "ALT"
            }
        } else {
            ""
        },
    );
    append_str(
        &mut out,
        if modifier.control || modifier.shift || modifier.alt {
            "-"
        } else {
            ""
        },
    );
    assert(out@ =~= modifier_text(modifier));
    from_chars(&out)
}

/// A key. `Media` and `Modifier` hold the name of the media or modifier key.
pub enum KeyCode {
    Backspace,
    Enter,
    Left,
    Right,
    Up,
    Down,
    Home,
    End,
    PageUp,
    PageDown,
    Tab,
    BackTab,
    Delete,
    Insert,
    F(u8),
    Char(char),
    Null,
    Esc,
    CapsLock,
    ScrollLock,
    NumLock,
    PrintScreen,
    Pause,
    Menu,
    KeypadBegin,
    Media(String),
    Modifier(String),
}

/// How a key is shown: by its name; a function key by `F` and its number; a
/// character in upper case; a media or modifier key by its kind and, between
/// brackets, its name.
pub open spec fn key_text(key: KeyCode) -> Seq<char> {
    match key {
        KeyCode::Backspace => "Backspace"@,
        KeyCode::Enter => "Enter"@,
        KeyCode::Left => "Left"@,
        KeyCode::Right => "Right"@,
        KeyCode::Up => "Up"@,
        KeyCode::Down => "Down"@,
        KeyCode::Home => "Home"@,
        KeyCode::End => "End"@,
        KeyCode::PageUp => "PageUp"@,
        KeyCode::PageDown => "PageDown"@,
        KeyCode::Tab => "Tab"@,
        KeyCode::BackTab => "BackTab"@,
        KeyCode::Delete => "Delete"@,
        KeyCode::Insert => "Insert"@,
        KeyCode::F(n) => "F"@ + decimal_of(n as nat),
        KeyCode::Char(c) => uppercase_of(c),
        KeyCode::Null => "Null"@,
        KeyCode::Esc => "Esc"@,
        KeyCode::CapsLock => "CapsLock"@,
        KeyCode::ScrollLock => "ScrollLock"@,
        KeyCode::NumLock => "NumLock"@,
        KeyCode::PrintScreen => "PrintScreen"@,
        KeyCode::Pause => "Pause"@,
        KeyCode::Menu => "Menu"@,
        KeyCode::KeypadBegin => "KeypadBegin"@,
        KeyCode::Media(name) => "Media("@ + name@ + ")"@,
        KeyCode::Modifier(name) => "Modifier("@ + name@ + ")"@,
    }
}

/// How a key is shown.
pub fn format_key_code(key_code: &KeyCode) -> (out: String)
    ensures
        out@ == key_text(*key_code),
{
    match key_code {
        KeyCode::Backspace => "Backspace".to_owned(),
        KeyCode::Enter => "Enter".to_owned(),
        KeyCode::Left => "Left".to_owned(),
        KeyCode::Right => "Right".to_owned(),
        KeyCode::Up => "Up".to_owned(),
        KeyCode::Down => "Down".to_owned(),
        KeyCode::Home => "Home".to_owned(),
        KeyCode::End => "End".to_owned(),
        KeyCode::PageUp => "PageUp".to_owned(),
        KeyCode::PageDown => "PageDown".to_owned(),
        KeyCode::Tab => "Tab".to_owned(),
        KeyCode::BackTab => "BackTab".to_owned(),
        KeyCode::Delete => "Delete".to_owned(),
        KeyCode::Insert => "Insert".to_owned(),
        KeyCode::F(n) => {
            let mut out = to_chars("F");
            let digits = decimal(*n as u64);
            append(&mut out, &digits);
            from_chars(&out)
        },
        KeyCode::Char(c) => uppercase(*c),
        KeyCode::Null => "Null".to_owned(),
        KeyCode::Esc => "Esc".to_owned(),
        KeyCode::CapsLock => "CapsLock".to_owned(),
        KeyCode::ScrollLock => "ScrollLock".to_owned(),
        KeyCode::NumLock => "NumLock".to_owned(),
        KeyCode::PrintScreen => "PrintScreen".to_owned(),
        KeyCode::Pause => "Pause".to_owned(),
        KeyCode::Menu => "Menu".to_owned(),
        KeyCode::KeypadBegin => "KeypadBegin".to_owned(),
        KeyCode::Media(name) => {
            let mut out = to_chars("Media(");
            append_str(&mut out, name.as_str());
            append_str(&mut out, ")");
            from_chars(&out)
        },
        KeyCode::Modifier(name) => {
            let mut out = to_chars("Modifier(");
            append_str(&mut out, name.as_str());
            append_str(&mut out, ")");
            from_chars(&out)
        },
    }
}

/// The text that `table` holds for `name`: that of the first entry of that
/// name at or after position `from`.
pub open spec fn described(
    table: Seq<(&'static str, &'static str)>,
    name: Seq<char>,
    from: int,
) -> Option<Seq<char>>
    decreases table.len() - from,
{
    if from < 0 || from >= table.len() {
        None
    } else if table[from].0@ == name {
        Some(table[from].1@)
    } else {
        described(table, name, from + 1)
    }
}

/// The text that `table` holds for `name`, or nothing.
pub open spec fn description_or_empty(table: Seq<(&'static str, &'static str)>, name: Seq<char>)
    -> Seq<char> {
    match described(table, name, 0) {
        Some(t) => t,
        None => Seq::empty(),
    }
}

/// What the event named `name` does, if the event is known.
pub fn event_description(name: &str) -> (r: Option<&'static str>)
    ensures
        match r {
            Some(t) => described(EVENT_DESCRIPTIONS@, name@, 0) == Some(t@),
            None => described(EVENT_DESCRIPTIONS@, name@, 0) is None,
        },
{
    let mut i: usize = 0;
    while i < EVENT_COUNT
        invariant
            i <= EVENT_COUNT,
            EVENT_DESCRIPTIONS@.len() == EVENT_COUNT,
            described(EVENT_DESCRIPTIONS@, name@, 0) == described(
                EVENT_DESCRIPTIONS@,
                name@,
                i as int,
            ),
        decreases EVENT_COUNT - i,
    {
        if same_text(EVENT_DESCRIPTIONS[i].0, name) {
            return Some(EVENT_DESCRIPTIONS[i].1);
        }
        i += 1;
    }
    None
}

/// What the editing command named `name` does, if the command is known.
pub fn edit_command_description(name: &str) -> (r: Option<&'static str>)
    ensures
        match r {
            Some(t) => described(EDIT_COMMAND_DESCRIPTIONS@, name@, 0) == Some(t@),
            None => described(EDIT_COMMAND_DESCRIPTIONS@, name@, 0) is None,
        },
{
    let mut i: usize = 0;
    while i < EDIT_COMMAND_COUNT
        invariant
            i <= EDIT_COMMAND_COUNT,
            EDIT_COMMAND_DESCRIPTIONS@.len() == EDIT_COMMAND_COUNT,
            described(EDIT_COMMAND_DESCRIPTIONS@, name@, 0) == described(
                EDIT_COMMAND_DESCRIPTIONS@,
                name@,
                i as int,
            ),
        decreases EDIT_COMMAND_COUNT - i,
    {
        if same_text(EDIT_COMMAND_DESCRIPTIONS[i].0, name) {
            return Some(EDIT_COMMAND_DESCRIPTIONS[i].1);
        }
        i += 1;
    }
    None
}

/// The line that describes an event: the event as highlighted, filled with
/// blanks to the width `max_cmd_len`, a blank, and what the event does.
pub open spec fn event_line(highlight: Seq<char>, name: Seq<char>, max_cmd_len: nat) -> Seq<
    char,
> {
    padded(highlight, max_cmd_len) + " "@ + description_or_empty(EVENT_DESCRIPTIONS@, name)
}

/// Describes an event of the line editor other than an editing command.
/// `event_highlight` is the event's name as it is to be shown.
pub fn format_non_edit_events(event_highlight: &str, event_name: &str, max_cmd_len: usize) -> (out:
    String)
    ensures
        out@ == event_line(event_highlight@, event_name@, max_cmd_len as nat),
{
    let mut out: Vec<char> = Vec::new();
    append_padded(&mut out, &to_chars(event_highlight), max_cmd_len);
    append_str(&mut out, " ");
    match event_description(event_name) {
        Some(t) => append_str(&mut out, t),
        None => {},
    }
    assert(out@ =~= event_line(event_highlight@, event_name@, max_cmd_len as nat));
    from_chars(&out)
}

/// What kind of editing command a command is, with what its description
/// needs.
#[derive(Debug, Clone, Copy, PartialEq, Eq, Structural)]
pub enum EditCommandKind {
    /// A move that may select on its way.
    Move { select: bool },
    /// A command without anything to add.
    Plain,
    /// A move up to a character, which may select on its way.
    MoveUntil { select: bool },
    /// A move to a position, which may select on its way.
    MoveToPosition { position: usize, select: bool },
    /// A command that is not known.
    Other,
}

/// An editing command of the line editor, as far as describing it goes: the
/// command as it is written out, the same as it is to be shown, and its kind.
pub struct EditCommand {
    pub written: String,
    pub highlight: String,
    pub kind: EditCommandKind,
}

/// The name of a command that is written out as `written`: what stands before
/// the first blank.
pub open spec fn name_of(written: Seq<char>) -> Seq<char> {
    match find_from(written, " "@, 0) {
        Some(i) => written.take(i),
        None => written,
    }
}

/// Said of a move that selects.
pub const SELECTING: &'static str =
    "Select the text between the current cursor position and destination";

/// Said of a move that does not select.
pub const NOT_SELECTING: &'static str = "without selecting";

/// What is said of a move, by whether it selects.
pub open spec fn selection_text(select: bool) -> Seq<char> {
    if select {
        SELECTING@
    } else {
        NOT_SELECTING@
    }
}

/// The description of one editing command: the command as highlighted, filled
/// with blanks to the width `max_cmd_len`, then by kind what the command does
/// and whether it selects.
pub open spec fn edit_command_line(
    written: Seq<char>,
    highlight: Seq<char>,
    kind: EditCommandKind,
    max_cmd_len: nat,
) -> Seq<char> {
    let by_name = description_or_empty(EDIT_COMMAND_DESCRIPTIONS@, name_of(written));
    match kind {
        EditCommandKind::Move { select } => padded(highlight, max_cmd_len) + " "@ + by_name + (
        if select {
            ". "@ + SELECTING@
        } else {
            ", "@ + NOT_SELECTING@
        }),
        EditCommandKind::Plain => padded(highlight, max_cmd_len) + " "@ + description_or_empty(
            EDIT_COMMAND_DESCRIPTIONS@,
            written,
        ),
        EditCommandKind::MoveUntil { select } => padded(highlight, max_cmd_len) + " "@ + by_name
            + ". "@ + selection_text(select),
        EditCommandKind::MoveToPosition { position, select } => padded(highlight, max_cmd_len)
            + " "@ + by_name + " "@ + decimal_of(position as nat) + " "@ + selection_text(
            select,
        ),
        EditCommandKind::Other => padded(highlight, max_cmd_len + 2),
    }
}

/// The descriptions of `commands`, joined by `, `.
pub open spec fn edit_command_lines(commands: Seq<EditCommand>, max_cmd_len: nat) -> Seq<char>
    decreases commands.len(),
{
    if commands.len() == 0 {
        Seq::empty()
    } else {
        let c = commands.last();
        let line = edit_command_line(c.written@, c.highlight@, c.kind, max_cmd_len);
        if commands.len() == 1 {
            line
        } else {
            edit_command_lines(commands.drop_last(), max_cmd_len) + ", "@ + line
        }
    }
}

/// The name of a command that is written out as `written`.
pub fn command_name_of(written: &Vec<char>) -> (name: Vec<char>)
    ensures
        name@ == name_of(written@),
{
    let blank = to_chars(" ");
    match find(written, &blank, 0) {
        Some(i) => {
            assert(written@.take(i as int) == written@.subrange(0, i as int));
            slice(written, 0, i)
        },
        None => {
            assert(written@ == written@.subrange(0, written.len() as int));
            slice(written, 0, written.len())
        },
    }
}

/// Appends what the table of editing commands says of `name`.
fn append_edit_description(out: &mut Vec<char>, name: &Vec<char>)
    ensures
        final(out)@ == old(out)@ + description_or_empty(EDIT_COMMAND_DESCRIPTIONS@, name@),
{
    let name = from_chars(name);
    match edit_command_description(name.as_str()) {
        Some(t) => append_str(out, t),
        None => {
            assert(out@ =~= old(out)@ + Seq::<char>::empty());
        },
    }
}

/// The description of one editing command.
pub fn format_edit_command(command: &EditCommand, max_cmd_len: usize) -> (out: Vec<char>)
    requires
        max_cmd_len <= usize::MAX - 2,
    ensures
        out@ == edit_command_line(
            command.written@,
            command.highlight@,
            command.kind,
            max_cmd_len as nat,
        ),
{
    let written = to_chars(command.written.as_str());
    let highlight = to_chars(command.highlight.as_str());
    let mut out: Vec<char> = Vec::new();
    match command.kind {
        EditCommandKind::Move { select } => {
            append_padded(&mut out, &highlight, max_cmd_len);
            append_str(&mut out, " ");
            append_edit_description(&mut out, &command_name_of(&written));
            if select {
                append_str(&mut out, ". ");
                append_str(&mut out, SELECTING);
            } else {
                append_str(&mut out, ", ");
                append_str(&mut out, NOT_SELECTING);
            }
        },
        EditCommandKind::Plain => {
            append_padded(&mut out, &highlight, max_cmd_len);
            append_str(&mut out, " ");
            append_edit_description(&mut out, &written);
        },
        EditCommandKind::MoveUntil { select } => {
            append_padded(&mut out, &highlight, max_cmd_len);
            append_str(&mut out, " ");
            append_edit_description(&mut out, &command_name_of(&written));
            append_str(&mut out, ". ");
            append_str(
                &mut out,
                if select {
                    SELECTING
                } else {
                    NOT_SELECTING
                },
            );
        },
        EditCommandKind::MoveToPosition { position, select } => {
            append_padded(&mut out, &highlight, max_cmd_len);
            append_str(&mut out, " ");
            append_edit_description(&mut out, &command_name_of(&written));
            append_str(&mut out, " ");
            append(&mut out, &decimal(position as u64));
            append_str(&mut out, " ");
            append_str(
                &mut out,
                if select {
                    SELECTING
                } else {
                    NOT_SELECTING
                },
            );
        },
        EditCommandKind::Other => {
            append_padded(&mut out, &highlight, max_cmd_len + 2);
        },
    }
    assert(out@ =~= edit_command_line(
        command.written@,
        command.highlight@,
        command.kind,
        max_cmd_len as nat,
    ));
    out
}

/// Describes the editing commands that a key is bound to, each with what it
/// does, joined by `, `.
pub fn format_edit_commands(edit_cmds: &Vec<EditCommand>, max_cmd_len: usize) -> (out: String)
    requires
        max_cmd_len <= usize::MAX - 2,
    ensures
        out@ == edit_command_lines(edit_cmds@, max_cmd_len as nat),
{
    let mut out: Vec<char> = Vec::new();
    let mut i: usize = 0;
    while i < edit_cmds.len()
        invariant
            i <= edit_cmds.len(),
            max_cmd_len <= usize::MAX - 2,
            out@ == edit_command_lines(edit_cmds@.take(i as int), max_cmd_len as nat),
        decreases edit_cmds.len() - i,
    {
        proof {
            assert(edit_cmds@.take(i + 1).drop_last() == edit_cmds@.take(i as int));
            assert(edit_cmds@.take(i + 1).last() == edit_cmds@[i as int]);
        }
        let line = format_edit_command(&edit_cmds[i], max_cmd_len);
        if i > 0 {
            append_str(&mut out, ", ");
        } else {
            assert(out@ =~= Seq::<char>::empty());
        }
        append(&mut out, &line);
        assert(out@ =~= edit_command_lines(edit_cmds@.take(i + 1), max_cmd_len as nat));
        i += 1;
    }
    assert(edit_cmds@.take(edit_cmds.len() as int) == edit_cmds@);
    from_chars(&out)
}

/// A command's name is read back as the command, and only a command's name
/// is read as one.
pub proof fn lemma_command_names_round_trip(c: ReplCommand, name: Seq<char>)
    ensures
        command_named(command_name(c)) == Some(c),
        command_named(name) is Some ==> command_name(command_named(name)->0) == name,
{
    reveal_strlit("banner");
    reveal_strlit("edit");
    reveal_strlit("toml");
    reveal_strlit("run");
    reveal_strlit("delete");
    reveal_strlit("list");
    reveal_strlit("history");
    reveal_strlit("help");
    reveal_strlit("keys");
    reveal_strlit("quit");
    assert("banner"@[0] == 'b');
    assert("edit"@[0] == 'e');
    assert("toml"@[0] == 't');
    assert("run"@[0] == 'r');
    assert("delete"@[0] == 'd');
    assert("list"@[0] == 'l');
    assert("history"@[1] == 'i');
    assert("help"@[1] == 'e');
    assert("keys"@[0] == 'k');
    assert("quit"@[0] == 'q');
}

/// A prompt that counts how often its right part was rendered.
pub struct CustomPrompt(pub u32, pub &'static str);

/// What stands before each further line of an input of several lines, for
/// the counting prompt.
pub const CUSTOM_MULTILINE_INDICATOR: &'static str = " :::: ";

impl CustomPrompt {
    /// The left part of the prompt: its text.
    pub fn render_prompt_left(&self) -> (out: String)
        ensures
            out@ == self.1@,
    {
        self.1.to_owned()
    }

    /// The right part of the prompt: how to leave. The count goes up by one,
    /// and starts again at nought after the largest number.
    pub fn render_prompt_right(&mut self) -> (out: String)
        ensures
            out@ == "q: quit"@,
            final(self).1 == old(self).1,
            final(self).0 == (if old(self).0 == u32::MAX {
                0u32
            } else {
                (old(self).0 + 1) as u32
            }),
    {
        self.0 = if self.0 == u32::MAX {
            0
        } else {
            self.0 + 1
        };
        "q: quit".to_owned()
    }

    /// What stands between the prompt and the input.
    pub fn render_prompt_indicator(&self) -> (out: String)
        ensures
            out@ == PROMPT_INDICATOR@,
    {
        PROMPT_INDICATOR.to_owned()
    }

    /// What stands before each further line of an input of several lines.
    pub fn render_prompt_multiline_indicator(&self) -> (out: &'static str)
        ensures
            out@ == CUSTOM_MULTILINE_INDICATOR@,
    {
        CUSTOM_MULTILINE_INDICATOR
    }

    /// The prompt of a search in the history.
    pub fn render_prompt_history_search_indicator(&self, failing: bool, term: &str) -> (out:
        String)
        ensures
            out@ == search_indicator(failing, term@),
    {
        ReplPrompt(self.1).render_prompt_history_search_indicator(failing, term)
    }
}

/// The line that shows a key binding: the key, filled with blanks to the
/// width `max_key_len`, four blanks, and what the key does.
pub open spec fn binding_line(key_desc: Seq<char>, cmd_desc: Seq<char>, max_key_len: nat) -> Seq<
    char,
> {
    padded(key_desc, max_key_len) + "    "@ + cmd_desc
}

/// The line that shows a key binding.
pub fn key_binding_line(key_desc: &str, cmd_desc: &str, max_key_len: usize) -> (out: String)
    ensures
        out@ == binding_line(key_desc@, cmd_desc@, max_key_len as nat),
{
    let mut out: Vec<char> = Vec::new();
    append_padded(&mut out, &to_chars(key_desc), max_key_len);
    append_str(&mut out, "    ");
    append_str(&mut out, cmd_desc);
    assert(out@ =~= binding_line(key_desc@, cmd_desc@, max_key_len as nat));
    from_chars(&out)
}

/// The length of the longest of `texts`; nought where there is none.
pub open spec fn longest_of(texts: Seq<Seq<char>>) -> nat
    decreases texts.len(),
{
    if texts.len() == 0 {
        0
    } else {
        let rest = longest_of(texts.drop_last());
        if texts.last().len() > rest {
            texts.last().len()
        } else {
            rest
        }
    }
}

/// The length of the longest of `texts`, in characters.
pub fn longest(texts: &Vec<String>) -> (n: usize)
    ensures
        n == longest_of(strings(texts@)),
{
    let mut n: usize = 0;
    let mut i: usize = 0;
    while i < texts.len()
        invariant
            i <= texts.len(),
            n == longest_of(strings(texts@).take(i as int)),
        decreases texts.len() - i,
    {
        proof {
            let t = strings(texts@);
            assert(t.take(i + 1).drop_last() == t.take(i as int));
            assert(t.take(i + 1).last() == texts@[i as int]@);
        }
        let len = texts[i].as_str().unicode_len();
        if len > n {
            n = len;
        }
        i += 1;
    }
    assert(strings(texts@).take(texts.len() as int) == strings(texts@));
    n
}

/// No text is longer than the longest.
pub proof fn lemma_longest_bounds(texts: Seq<Seq<char>>, i: int)
    requires
        0 <= i < texts.len(),
    ensures
        texts[i].len() <= longest_of(texts),
    decreases texts.len(),
{
    if i < texts.len() - 1 {
        lemma_longest_bounds(texts.drop_last(), i);
    }
}

/// What a line of input asks for.
pub enum LineChoice {
    /// Nothing: the line is blank.
    Nothing,
    /// The command that the line's first word stands for, with the words
    /// after it.
    Command(ReplCommand, Vec<String>),
    /// The line is to be evaluated as an expression.
    Evaluate,
}

/// A choice with its words as plain text.
pub enum ChoiceView {
    Nothing,
    Command(ReplCommand, Seq<Seq<char>>),
    Evaluate,
}

impl View for LineChoice {
    type V = ChoiceView;

    open spec fn view(&self) -> ChoiceView {
        match self {
            LineChoice::Nothing => ChoiceView::Nothing,
            LineChoice::Command(c, args) => ChoiceView::Command(*c, strings(args@)),
            LineChoice::Evaluate => ChoiceView::Evaluate,
        }
    }
}

/// What the line `line` asks for, the commands being called `commands`: a
/// blank line asks for nothing; a line whose first word begins exactly one of
/// the names, and that name is a command's, asks for that command; any other
/// line is to be evaluated.
pub open spec fn choice_of(commands: Seq<Seq<char>>, line: Seq<char>) -> ChoiceView {
    let text = trim(line);
    if text.len() == 0 {
        ChoiceView::Nothing
    } else if words_of(text).len() == 0 {
        ChoiceView::Evaluate
    } else {
        let parts = command_and_arguments(words_of(text));
        match command_for(commands, parts.0) {
            Some(name) => match command_named(name) {
                Some(c) => ChoiceView::Command(c, parts.1),
                None => ChoiceView::Evaluate,
            },
            None => ChoiceView::Evaluate,
        }
    }
}

/// What a line of input asks for.
pub fn choose_for_line(commands: &Vec<String>, line: &str) -> (choice: LineChoice)
    ensures
        choice@ == choice_of(strings(commands@), line@),
{
    let chars = to_chars(line);
    let text = trimmed(&chars, 0, chars.len());
    assert(chars@.subrange(0, chars.len() as int) == chars@);
    if text.len() == 0 {
        return LineChoice::Nothing;
    }
    let text = from_chars(&text);
    match try_parse_line(text.as_str()) {
        None => LineChoice::Evaluate,
        Some((first_word, rest)) => match match_command(commands, first_word.as_str()) {
            Some(name) => match ReplCommand::from_name(name.as_str()) {
                Some(c) => LineChoice::Command(c, rest),
                None => LineChoice::Evaluate,
            },
            None => LineChoice::Evaluate,
        },
    }
}

} // verus!
