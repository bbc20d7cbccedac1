//! What the full-screen editor decides: its history of edited texts, what a
//! key does to the editing, and how pasted text is taken in.

use std::collections::VecDeque;
use vstd::prelude::*;
use crate::text::{append_str, from_chars, to_chars};

verus! {

/// The texts edited before, newest first, and the place in them that the
/// user has gone to.
pub struct History {
    pub entries: VecDeque<String>,
    pub current_index: Option<usize>,
}

/// `text` as a block: between braces, on lines of its own.
pub open spec fn as_block(text: Seq<char>) -> Seq<char> {
    "{\n"@ + text + "\n}"@
}

/// What each entry of a history holds.
pub open spec fn entry_texts(entries: Seq<String>) -> Seq<Seq<char>> {
    Seq::new(entries.len(), |i: int| entries[i]@)
}

/// The entry at `index`, if there is one.
pub open spec fn entry_at(entries: Seq<String>, index: int) -> Option<Seq<char>> {
    if 0 <= index < entries.len() {
        Some(entries[index]@)
    } else {
        None
    }
}

/// The place before `index`, going round from the newest entry to the oldest.
pub open spec fn place_before(index: Option<usize>, len: int) -> int {
    match index {
        Some(i) => if i > 0 {
            i - 1
        } else {
            len - 1
        },
        None => len - 1,
    }
}

/// The place after `index`: the newest entry where no place was set; the
/// same place where no later one can be counted.
pub open spec fn place_after(index: Option<usize>) -> int {
    match index {
        Some(i) => if i < usize::MAX {
            i + 1
        } else {
            i as int
        },
        None => 0,
    }
}

impl History {
    /// An empty history.
    pub fn new() -> (h: History)
        ensures
            h.entries@.len() == 0,
            h.current_index is None,
    {
        History { entries: VecDeque::new(), current_index: None }
    }

    /// Puts `entry`, as a block, in front of the entries.
    pub fn add_entry(&mut self, entry: &str)
        ensures
            final(self).entries@.len() == old(self).entries@.len() + 1,
            entry_texts(final(self).entries@) == seq![as_block(entry@)] + entry_texts(
                old(self).entries@,
            ),
            final(self).current_index == old(self).current_index,
    {
        let mut block: Vec<char> = to_chars("{\n");
        append_str(&mut block, entry);
        append_str(&mut block, "\n}");
        let block = from_chars(&block);
        self.entries.push_front(block);
        assert(entry_texts(self.entries@) =~= seq![as_block(entry@)] + entry_texts(
            old(self).entries@,
        ));
    }

    /// The entry at the place gone to, or the newest where no place was set;
    /// that place is then set. `None` where there is no such entry.
    pub fn get_current(&mut self) -> (r: Option<String>)
        ensures
            final(self).entries == old(self).entries,
            old(self).entries@.len() == 0 ==> r is None && final(self).current_index == old(
                self,
            ).current_index,
            old(self).entries@.len() > 0 ==> {
                let place = match old(self).current_index {
                    Some(i) => i,
                    None => 0,
                };
                &&& final(self).current_index == Some(place)
                &&& r.deep_view() == entry_at(old(self).entries@, place as int)
            },
    {
        if self.entries.len() == 0 {
            return None;
        }
        let place: usize = match self.current_index {
            Some(i) => i,
            None => 0,
        };
        self.current_index = Some(place);
        self.entry(place)
    }

    /// Goes one entry back in time, from no place to the newest entry, and
    /// hands out the entry there. `None` where there is no such entry.
    pub fn get_previous(&mut self) -> (r: Option<String>)
        ensures
            final(self).entries == old(self).entries,
            old(self).entries@.len() == 0 ==> r is None && final(self).current_index == old(
                self,
            ).current_index,
            old(self).entries@.len() > 0 ==> {
                let place = place_after(old(self).current_index);
                &&& final(self).current_index == Some(place as usize)
                &&& r.deep_view() == entry_at(old(self).entries@, place)
            },
    {
        if self.entries.len() == 0 {
            return None;
        }
        let place: usize = match self.current_index {
            Some(i) => if i < usize::MAX {
                i + 1
            } else {
                i
            },
            None => 0,
        };
        self.current_index = Some(place);
        self.entry(place)
    }

    /// Goes one entry forward in time, from the newest entry or from no place
    /// round to the oldest, and hands out the entry there. `None` where there
    /// is no such entry.
    pub fn get_next(&mut self) -> (r: Option<String>)
        ensures
            final(self).entries == old(self).entries,
            old(self).entries@.len() == 0 ==> r is None && final(self).current_index == old(
                self,
            ).current_index,
            old(self).entries@.len() > 0 ==> {
                let place = place_before(
                    old(self).current_index,
                    old(self).entries@.len() as int,
                );
                &&& final(self).current_index == Some(place as usize)
                &&& r.deep_view() == entry_at(old(self).entries@, place)
            },
    {
        let len = self.entries.len();
        if len == 0 {
            return None;
        }
        let place: usize = match self.current_index {
            Some(i) => if i > 0 {
                i - 1
            } else {
                len - 1
            },
            None => len - 1,
        };
        self.current_index = Some(place);
        self.entry(place)
    }

    /// A copy of the entry at `place`, if there is one.
    pub fn entry(&self, place: usize) -> (r: Option<String>)
        ensures
            r.deep_view() == entry_at(self.entries@, place as int),
    {
        if place < self.entries.len() {
            Some(self.entries[place].clone())
        } else {
            None
        }
    }
}

/// What a key does to the editing.
#[derive(Debug)]
pub enum KeyAction {
    AbandonChanges,
    /// For keys that need no handling of their own.
    Continue,
    /// Leave; holds whether the text was saved.
    Quit(bool),
    Save,
    SaveAndExit,
    ShowHelp,
    ToggleHighlight,
    TogglePopup,
}

/// Whether the editing ends with this action: it does on abandoning, on
/// quitting, and on saving and leaving.
pub open spec fn is_final(action: KeyAction) -> bool {
    action is AbandonChanges || action is Quit || action is SaveAndExit
}

impl KeyAction {
    /// Whether the editing ends with this action. There is no help to show
    /// yet, so `ShowHelp` must not be asked about.
    pub fn ends_editing(&self) -> (b: bool)
        requires
            !(self is ShowHelp),
        ensures
            b == is_final(*self),
    {
        matches!(self, KeyAction::AbandonChanges | KeyAction::Quit(_) | KeyAction::SaveAndExit)
    }
}

/// The colours of the selection.
#[derive(Debug, Clone, Copy, PartialEq, Eq, Structural)]
pub enum TuiSelectionBg {
    BlueYellow,
    RedWhite,
}

impl TuiSelectionBg {
    /// The other colours.
    pub fn toggled(&self) -> (other: TuiSelectionBg)
        ensures
            other != *self,
    {
        match self {
            TuiSelectionBg::BlueYellow => TuiSelectionBg::RedWhite,
            TuiSelectionBg::RedWhite => TuiSelectionBg::BlueYellow,
        }
    }
}

/// What an editing session works on.
pub struct EditData<'a> {
    pub initial_content: &'a str,
    pub save_path: &'a String,
    pub history_path: &'a Option<String>,
    pub history: Option<History>,
}

/// `s` with every line break as a single line feed: a carriage return with
/// the line feed after it, or a carriage return alone, becomes a line feed.
pub open spec fn normalized(s: Seq<char>) -> Seq<char>
    decreases s.len(),
{
    if s.len() == 0 {
        Seq::empty()
    } else if s.last() == '\n' && s.len() >= 2 && s[s.len() - 2] == '\r' {
        normalized(s.drop_last())
    } else if s.last() == '\r' {
        normalized(s.drop_last()).push('\n')
    } else {
        normalized(s.drop_last()).push(s.last())
    }
}

/// Pasted text with every line break as a single line feed.
pub fn normalize_newlines(input: &str) -> (out: String)
    ensures
        out@ == normalized(input@),
{
    let s = to_chars(input);
    let mut out: Vec<char> = Vec::new();
    let mut i: usize = 0;
    while i < s.len()
        invariant
            i <= s.len(),
            out@ == normalized(s@.take(i as int)),
        decreases s.len() - i,
    {
        let ghost t = s@.take(i + 1);
        assert(t.drop_last() == s@.take(i as int));
        assert(t.last() == s@[i as int]);
        assert(i >= 1 ==> t[t.len() - 2] == s@[i - 1]);
        let c = s[i];
        if c == '\n' && i >= 1 && s[i - 1] == '\r' {
        } else if c == '\r' {
            out.push('\n');
        } else {
            out.push(c);
        }
        i += 1;
    }
    assert(s@.take(s.len() as int) == s@);
    from_chars(&out)
}

} // verus!
