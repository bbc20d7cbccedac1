//! The registry resolver: asks the package registry for the newest version of
//! a crate, through a command that the caller runs.

use vstd::prelude::*;
use crate::errors::{BuildRunError, ErrorView};
use crate::patterns::{captures, regex_captures};
use crate::shared::CommandOutput;
use crate::text::{from_chars, lines_of, same_chars, split_lines, strings, texts, to_chars};

verus! {

/// Runs a program with arguments and reports how it ended, or why it could
/// not be run. The pipeline reaches the registry and the toolchain only
/// through this; nothing is promised of what comes back.
pub trait CommandRunner {
    fn run_command(&self, program: &str, args: &Vec<String>) -> Result<CommandOutput, String>;
}

/// The program that is asked.
pub const SEARCH_PROGRAM: &'static str = "cargo";

/// A line of the registry's answer: a name, ` = `, and a version of three
/// numbers between quotes. Group 1 is the name, group 2 the version.
pub const DEP_PATTERN: &'static str = r#"(?m)^(?P<name>[\w-]+) = "(?P<version>\d+\.\d+\.\d+)"#;

/// The name and the version that the first match captured in groups 1 and 2.
pub open spec fn captured_dependency(found: Option<Seq<Seq<Option<Seq<char>>>>>) -> Option<
    (Seq<char>, Seq<char>),
> {
    match found {
        Some(m) => if m.len() > 0 && m[0].len() > 2 && m[0][1] is Some && m[0][2] is Some {
            Some((m[0][1]->0, m[0][2]->0))
        } else {
            None
        },
        None => None,
    }
}

/// The name and the version that the first match captured in groups 1 and 2.
pub fn dependency_from_captures(found: &Option<Vec<Vec<Option<String>>>>) -> (r: Option<
    (String, String),
>)
    ensures
        r.deep_view() == captured_dependency(found.deep_view()),
{
    match found {
        Some(m) => {
            if m.len() > 0 && m[0].len() > 2 {
                let first = &m[0];
                assert(found.deep_view()->0[0] == first.deep_view());
                match (&first[1], &first[2]) {
                    (Some(name), Some(version)) => Some((name.clone(), version.clone())),
                    _ => None,
                }
            } else {
                None
            }
        },
        None => None,
    }
}

/// What a line of the registry's answer says: the name and the version that
/// `DEP_PATTERN` captures in it.
pub open spec fn dependency_in(line: Seq<char>) -> Option<(Seq<char>, Seq<char>)> {
    captured_dependency(regex_captures(DEP_PATTERN@, line))
}

/// A resolver's answer as plain text values.
pub open spec fn answer_view(r: Result<(String, String), BuildRunError>) -> Result<
    (Seq<char>, Seq<char>),
    ErrorView,
> {
    match r {
        Ok((name, version)) => Ok((name@, version@)),
        Err(e) => Err(e@),
    }
}

/// Reads a name and a version off a line of the registry's answer.
///
/// Fails, with the line, exactly where the line does not show them.
pub fn capture_dep(first_line: &str) -> (r: Result<(String, String), BuildRunError>)
    ensures
        answer_view(r) == (match dependency_in(first_line@) {
            Some(found) => Ok(found),
            None => Err(ErrorView::RegistryResponseError(first_line@)),
        }),
{
    let found = captures(DEP_PATTERN, first_line);
    match dependency_from_captures(&found) {
        Some(pair) => Ok(pair),
        None => Err(BuildRunError::RegistryResponseError(first_line.to_owned())),
    }
}

/// `name` with a hyphen for every underscore: the other way a crate's name may
/// be written.
pub open spec fn hyphenated(name: Seq<char>) -> Seq<char> {
    Seq::new(
        name.len(),
        |i: int|
            if name[i] == '_' {
                '-'
            } else {
                name[i]
            },
    )
}

/// `name` with a hyphen for every underscore.
pub fn hyphenate(name: &Vec<char>) -> (out: Vec<char>)
    ensures
        out@ == hyphenated(name@),
{
    let mut out: Vec<char> = Vec::new();
    let mut i: usize = 0;
    while i < name.len()
        invariant
            i <= name.len(),
            out@ == hyphenated(name@).take(i as int),
        decreases name.len() - i,
    {
        let c = name[i];
        out.push(
            if c == '_' {
                '-'
            } else {
                c
            },
        );
        assert(out@ == hyphenated(name@).take(i as int).push(hyphenated(name@)[i as int]));
        i += 1;
    }
    assert(hyphenated(name@).take(name.len() as int) == hyphenated(name@));
    out
}

/// The arguments of the query for the crate `dep_crate`: a search for the
/// name, limited to one answer.
pub open spec fn search_arguments(dep_crate: Seq<char>) -> Seq<Seq<char>> {
    seq!["search"@, dep_crate, "--limit"@, "1"@]
}

/// The arguments of the query for the crate `dep_crate`.
pub fn search_args(dep_crate: &str) -> (args: Vec<String>)
    ensures
        strings(args@) == search_arguments(dep_crate@),
{
    let mut args: Vec<String> = Vec::new();
    args.push("search".to_owned());
    args.push(dep_crate.to_owned());
    args.push("--limit".to_owned());
    args.push("1".to_owned());
    assert(strings(args@) =~= search_arguments(dep_crate@));
    args
}

/// What the outcome of the query for `dep_crate` means.
///
/// A command that could not be run, or that failed, is a registry error with
/// the reason or the command's error output. An empty answer means that the
/// registry knows no such crate. Else the first line decides: a line that
/// shows no name and version is a registry error, with the line; a name other
/// than the one asked for, in either spelling, means that the crate is not
/// known; else the line's name and version are the answer.
pub open spec fn search_outcome(dep_crate: Seq<char>, outcome: Result<CommandOutput, String>)
    -> Result<(Seq<char>, Seq<char>), ErrorView> {
    match outcome {
        Err(reason) => Err(ErrorView::RegistryResponseError(reason@)),
        Ok(out) => if !out.success {
            Err(ErrorView::RegistryResponseError(out.stderr@))
        } else if lines_of(out.stdout@).len() == 0 {
            Err(ErrorView::DependencyNotFound(dep_crate))
        } else {
            let line = lines_of(out.stdout@)[0];
            match dependency_in(line) {
                None => Err(ErrorView::RegistryResponseError(line)),
                Some((name, version)) => if name == dep_crate || name == hyphenated(dep_crate) {
                    Ok((name, version))
                } else {
                    Err(ErrorView::DependencyNotFound(dep_crate))
                },
            }
        },
    }
}

/// Reads the outcome of the query for `dep_crate`.
pub fn interpret_search(dep_crate: &str, outcome: &Result<CommandOutput, String>) -> (r: Result<
    (String, String),
    BuildRunError,
>)
    ensures
        answer_view(r) == search_outcome(dep_crate@, *outcome),
{
    match outcome {
        Err(reason) => Err(BuildRunError::RegistryResponseError(reason.clone())),
        Ok(out) => {
            if !out.success {
                return Err(BuildRunError::RegistryResponseError(out.stderr.clone()));
            }
            let lines = split_lines(&to_chars(out.stdout.as_str()));
            if lines.len() == 0 {
                return Err(BuildRunError::DependencyNotFound(dep_crate.to_owned()));
            }
            assert(texts(lines@)[0] == lines@[0]@);
            let line = from_chars(&lines[0]);
            match capture_dep(line.as_str()) {
                Err(e) => Err(e),
                Ok((name, version)) => {
                    let wanted = to_chars(dep_crate);
                    let got = to_chars(name.as_str());
                    if same_chars(&got, &wanted) || same_chars(&got, &hyphenate(&wanted)) {
                        Ok((name, version))
                    } else {
                        Err(BuildRunError::DependencyNotFound(dep_crate.to_owned()))
                    }
                },
            }
        },
    }
}

/// Asks the registry, through `runner`, for the newest version of the crate
/// `dep_crate`: runs the search for it and reads the outcome, whatever it is.
pub fn cargo_search<R: CommandRunner>(runner: &R, dep_crate: &str) -> (r: Result<
    (String, String),
    BuildRunError,
>)
    ensures
        exists|outcome: Result<CommandOutput, String>|
            answer_view(r) == #[trigger] search_outcome(dep_crate@, outcome),
{
    let args = search_args(dep_crate);
    let outcome = runner.run_command(SEARCH_PROGRAM, &args);
    let r = interpret_search(dep_crate, &outcome);
    assert(answer_view(r) == search_outcome(dep_crate@, outcome));
    r
}

/// The registry can answer a query for `asked` with the name `name` and the
/// version `version`: there is an outcome of the query that means so.
pub open spec fn registry_answers(asked: Seq<char>, name: Seq<char>, version: Seq<char>) -> bool {
    exists|outcome: Result<CommandOutput, String>| #[trigger]
        search_outcome(asked, outcome) == Ok::<(Seq<char>, Seq<char>), ErrorView>(
            (name, version),
        )
}

/// A query for `name` can fail with `e`: there is an outcome of the query
/// that means so.
pub open spec fn registry_fails(name: Seq<char>, e: ErrorView) -> bool {
    exists|outcome: Result<CommandOutput, String>| #[trigger]
        search_outcome(name, outcome) == Err::<(Seq<char>, Seq<char>), ErrorView>(e)
}

/// What holds of the answer to a query, whatever the registry said.
pub proof fn lemma_answer_is_an_outcome(
    name: Seq<char>,
    r: Result<(String, String), BuildRunError>,
)
    requires
        exists|outcome: Result<CommandOutput, String>|
            answer_view(r) == #[trigger] search_outcome(name, outcome),
    ensures
        r is Ok ==> registry_answers(name, (r->Ok_0).0@, (r->Ok_0).1@),
        r is Err ==> registry_fails(name, r->Err_0@),
{
    let outcome = choose|outcome: Result<CommandOutput, String>|
        answer_view(r) == #[trigger] search_outcome(name, outcome);
    assert(search_outcome(name, outcome) == answer_view(r));
}

} // verus!
