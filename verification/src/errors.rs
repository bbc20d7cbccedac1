//! The failures that the pipeline reports.

use vstd::prelude::*;
use crate::text::{append, from_chars, split_lines, texts, to_chars, lines_of};

verus! {

/// The stage of the pipeline in which something happened.
#[derive(Clone, Copy, PartialEq, Eq, Debug, Structural)]
pub enum Stage {
    Generate,
    Build,
    Run,
}

/// Why a run of the pipeline stopped.
///
/// Every payload is handed on as it was received: the manifest parser's
/// message, the registry's answer, the system's error text, the toolchain's
/// captured error output.
#[derive(Clone, Debug)]
pub enum BuildRunError {
    /// The user gave up.
    Cancelled,
    /// A command could not be carried out; the payload says why.
    Command(String),
    /// A failure reported as plain text.
    FromStr(String),
    /// The script's embedded manifest is not valid manifest text.
    MalformedManifest(String),
    /// The registry knows no crate of this name.
    DependencyNotFound(String),
    /// The registry's answer could not be understood.
    RegistryResponseError(String),
    /// A file or directory could not be read or written.
    FilesystemError(String),
    /// The toolchain's build ended with a failure; holds its error output.
    ToolchainBuildFailed(String),
    /// The built program ended with a failure; holds its error output.
    ToolchainRunFailed(String),
}

/// A failure with its payload as a sequence of characters.
pub enum ErrorView {
    Cancelled,
    Command(Seq<char>),
    FromStr(Seq<char>),
    MalformedManifest(Seq<char>),
    DependencyNotFound(Seq<char>),
    RegistryResponseError(Seq<char>),
    FilesystemError(Seq<char>),
    ToolchainBuildFailed(Seq<char>),
    ToolchainRunFailed(Seq<char>),
}

impl View for BuildRunError {
    type V = ErrorView;

    open spec fn view(&self) -> ErrorView {
        match self {
            BuildRunError::Cancelled => ErrorView::Cancelled,
            BuildRunError::Command(s) => ErrorView::Command(s@),
            BuildRunError::FromStr(s) => ErrorView::FromStr(s@),
            BuildRunError::MalformedManifest(s) => ErrorView::MalformedManifest(s@),
            BuildRunError::DependencyNotFound(s) => ErrorView::DependencyNotFound(s@),
            BuildRunError::RegistryResponseError(s) => ErrorView::RegistryResponseError(s@),
            BuildRunError::FilesystemError(s) => ErrorView::FilesystemError(s@),
            BuildRunError::ToolchainBuildFailed(s) => ErrorView::ToolchainBuildFailed(s@),
            BuildRunError::ToolchainRunFailed(s) => ErrorView::ToolchainRunFailed(s@),
        }
    }
}

/// Every line of `lines`, each followed by a line feed.
pub open spec fn joined_lines(lines: Seq<Seq<char>>) -> Seq<char>
    decreases lines.len(),
{
    if lines.len() == 0 {
        Seq::empty()
    } else {
        joined_lines(lines.drop_last()) + lines.last() + seq!['\n']
    }
}

/// The text shown for a failure.
pub open spec fn message_of(e: ErrorView) -> Seq<char> {
    match e {
        ErrorView::Cancelled => "Cancelled"@,
        ErrorView::Command(s) => joined_lines(lines_of(s)),
        ErrorView::FromStr(s) => joined_lines(lines_of(s)),
        ErrorView::MalformedManifest(s) => s,
        ErrorView::DependencyNotFound(s) => s,
        ErrorView::RegistryResponseError(s) => s,
        ErrorView::FilesystemError(s) => s,
        ErrorView::ToolchainBuildFailed(s) => s,
        ErrorView::ToolchainRunFailed(s) => s,
    }
}

/// The stage that a failure belongs to, where it belongs to one.
pub open spec fn stage_of(e: ErrorView) -> Option<Stage> {
    match e {
        ErrorView::MalformedManifest(_) => Some(Stage::Generate),
        ErrorView::DependencyNotFound(_) => Some(Stage::Generate),
        ErrorView::RegistryResponseError(_) => Some(Stage::Generate),
        ErrorView::ToolchainBuildFailed(_) => Some(Stage::Build),
        ErrorView::ToolchainRunFailed(_) => Some(Stage::Run),
        _ => None,
    }
}

/// The lines of a text put together again, each closed by a line feed.
pub fn reassemble(lines: &Vec<Vec<char>>) -> (out: Vec<char>)
    ensures
        out@ == joined_lines(texts(lines@)),
{
    let mut out: Vec<char> = Vec::new();
    let mut i: usize = 0;
    while i < lines.len()
        invariant
            i <= lines.len(),
            out@ == joined_lines(texts(lines@).take(i as int)),
        decreases lines.len() - i,
    {
        proof {
            let t = texts(lines@);
            assert(t.take(i + 1).drop_last() == t.take(i as int));
            assert(t.take(i + 1).last() == lines@[i as int]@);
        }
        append(&mut out, &lines[i]);
        out.push('\n');
        i += 1;
    }
    assert(texts(lines@).take(lines.len() as int) == texts(lines@));
    out
}

/// A wall of text as readable lines: the lines of `text_wall`, each closed
/// by a line feed.
pub fn disentangle(text_wall: &str) -> (out: String)
    ensures
        out@ == joined_lines(lines_of(text_wall@)),
{
    let chars = to_chars(text_wall);
    let lines = split_lines(&chars);
    let out = reassemble(&lines);
    from_chars(&out)
}

/// `s` with a line feed in place of every backslash followed by `n`.
pub open spec fn unescaped(s: Seq<char>) -> Seq<char>
    decreases s.len(),
{
    if s.len() == 0 {
        Seq::empty()
    } else if s.len() >= 2 && s[0] == '\\' && s[1] == 'n' {
        seq!['\n'] + unescaped(s.skip(2))
    } else {
        seq![s[0]] + unescaped(s.drop_first())
    }
}

/// Text in which line feeds are written out as a backslash and `n`, with
/// real line feeds in their place.
pub fn unescape_newlines(text: &str) -> (out: String)
    ensures
        out@ == unescaped(text@),
{
    let s = to_chars(text);
    let mut out: Vec<char> = Vec::new();
    let mut i: usize = 0;
    assert(s@.skip(0) == s@);
    while i < s.len()
        invariant
            i <= s.len(),
            unescaped(s@) == out@ + unescaped(s@.skip(i as int)),
        decreases s.len() - i,
    {
        let ghost rest = s@.skip(i as int);
        if s[i] == '\\' && i + 1 < s.len() && s[i + 1] == 'n' {
            out.push('\n');
            assert(rest.skip(2) == s@.skip(i + 2));
            i += 2;
        } else {
            out.push(s[i]);
            assert(rest.drop_first() == s@.skip(i + 1));
            i += 1;
        }
    }
    from_chars(&out)
}

impl BuildRunError {
    /// The text shown for this failure.
    pub fn to_string(&self) -> (out: String)
        ensures
            out@ == message_of(self@),
    {
        match self {
            BuildRunError::Cancelled => "Cancelled".to_owned(),
            BuildRunError::Command(s) => disentangle(s.as_str()),
            BuildRunError::FromStr(s) => disentangle(s.as_str()),
            BuildRunError::MalformedManifest(s) => s.clone(),
            BuildRunError::DependencyNotFound(s) => s.clone(),
            BuildRunError::RegistryResponseError(s) => s.clone(),
            BuildRunError::FilesystemError(s) => s.clone(),
            BuildRunError::ToolchainBuildFailed(s) => s.clone(),
            BuildRunError::ToolchainRunFailed(s) => s.clone(),
        }
    }

    /// The stage that this failure belongs to, where it belongs to one.
    pub fn stage(&self) -> (r: Option<Stage>)
        ensures
            r == stage_of(self@),
    {
        match self {
            BuildRunError::MalformedManifest(_) => Some(Stage::Generate),
            BuildRunError::DependencyNotFound(_) => Some(Stage::Generate),
            BuildRunError::RegistryResponseError(_) => Some(Stage::Generate),
            BuildRunError::ToolchainBuildFailed(_) => Some(Stage::Build),
            BuildRunError::ToolchainRunFailed(_) => Some(Stage::Run),
            _ => None,
        }
    }
}

impl From<String> for BuildRunError {
    fn from(message: String) -> (e: BuildRunError) {
        BuildRunError::FromStr(message)
    }
}

impl vstd::std_specs::convert::FromSpecImpl<String> for BuildRunError {
    open spec fn obeys_from_spec() -> bool {
        true
    }

    open spec fn from_spec(message: String) -> BuildRunError {
        BuildRunError::FromStr(message)
    }
}

} // verus!
