//! Pattern matching on text, done by the `regex` crate.

use vstd::prelude::*;

verus! {

/// What `regex` finds when the pattern `pattern` is run over `text`: `None`
/// where the pattern does not compile; else, for each match from left to right,
/// its capture groups in order (group 0, the whole match, first), each with
/// the text it captured, or `None` where the group took no part in the match.
pub uninterp spec fn regex_captures(pattern: Seq<char>, text: Seq<char>) -> Option<
    Seq<Seq<Option<Seq<char>>>>,
>;

/// Runs `regex::Regex::new` on `pattern` and `Regex::captures_iter` on `text`,
/// and copies out every group of every match that `Captures::iter` yields.
/// The contract only gives that result its name.
#[verifier::external_body]
pub(crate) fn captures(pattern: &str, text: &str) -> (found: Option<Vec<Vec<Option<String>>>>)
    ensures
        found.deep_view() == regex_captures(pattern@, text@),
{
    let re = match regex::Regex::new(pattern) {
        Ok(re) => re,
        Err(_) => return None,
    };
    let mut found = Vec::new();
    for c in re.captures_iter(text) {
        let mut groups = Vec::new();
        for g in c.iter() {
            groups.push(match g { Some(m) => Some(m.as_str().to_string()), None => None });
        }
        found.push(groups);
    }
    Some(found)
}

/// The text that group `group` captured in each match, in order; matches in
/// which the group is missing or took no part are left out.
pub open spec fn group_texts(matches: Seq<Seq<Option<Seq<char>>>>, group: int) -> Seq<Seq<char>>
    decreases matches.len(),
{
    if matches.len() == 0 {
        Seq::empty()
    } else {
        let rest = group_texts(matches.drop_last(), group);
        let m = matches.last();
        if 0 <= group < m.len() && m[group] is Some {
            rest.push(m[group]->0)
        } else {
            rest
        }
    }
}

/// The text that group `group` captured in each of `matches`.
pub fn group_of_each(matches: &Vec<Vec<Option<String>>>, group: usize) -> (out: Vec<String>)
    ensures
        out.deep_view() == group_texts(matches.deep_view(), group as int),
{
    let mut out: Vec<String> = Vec::new();
    let mut i: usize = 0;
    while i < matches.len()
        invariant
            i <= matches.len(),
            out.deep_view() == group_texts(matches.deep_view().take(i as int), group as int),
        decreases matches.len() - i,
    {
        let ghost all = matches.deep_view();
        let ghost before = out.deep_view();
        proof {
            assert(all.take(i + 1).drop_last() == all.take(i as int));
            assert(all.take(i + 1).last() == matches@[i as int].deep_view());
        }
        let m = &matches[i];
        if group < m.len() {
            match &m[group] {
                Some(s) => {
                    out.push(s.clone());
                    assert(out.deep_view() == before.push(s@));
                },
                None => {},
            }
        }
        i += 1;
    }
    assert(matches.deep_view().take(matches.len() as int) == matches.deep_view());
    out
}

/// The text that group `group` captured in each match of `pattern` in `text`;
/// nothing where the pattern does not compile.
pub open spec fn captured(pattern: Seq<char>, text: Seq<char>, group: int) -> Seq<Seq<char>> {
    match regex_captures(pattern, text) {
        Some(m) => group_texts(m, group),
        None => Seq::empty(),
    }
}

/// How many matches `pattern` has in `text`; none where the pattern does not
/// compile.
pub open spec fn match_count(pattern: Seq<char>, text: Seq<char>) -> nat {
    match regex_captures(pattern, text) {
        Some(m) => m.len(),
        None => 0,
    }
}

/// The text that group `group` captured in each match of `pattern` in `text`.
pub fn capture_group(pattern: &str, text: &str, group: usize) -> (out: Vec<String>)
    ensures
        out.deep_view() == captured(pattern@, text@, group as int),
{
    match captures(pattern, text) {
        Some(m) => group_of_each(&m, group),
        None => {
            let out: Vec<String> = Vec::new();
            assert(out.deep_view() == Seq::<Seq<char>>::empty());
            out
        },
    }
}

/// How many matches `pattern` has in `text`.
pub fn count_matches(pattern: &str, text: &str) -> (n: usize)
    ensures
        n == match_count(pattern@, text@),
{
    match captures(pattern, text) {
        Some(m) => m.len(),
        None => 0,
    }
}

} // verus!
