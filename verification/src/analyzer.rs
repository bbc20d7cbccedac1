//! The source analyser: what a script says about itself.
//!
//! A script may begin with an interpreter line, may carry one manifest block
//! fenced by `/*[toml]` and `*/`, directive lines (`//# Key: value`),
//! description lines (`///` or `//:`), imports, and an entry point.

use vstd::prelude::*;
use crate::errors::{BuildRunError, ErrorView};
use crate::manifest::{check_manifest, manifest_parse_error};
use crate::patterns::{capture_group, captured, count_matches, match_count};
use crate::text::{
    append, append_str, find, find_from, from_chars, has_prefix, insert_sorted, is_space,
    is_space_char, lemma_find_from, lines_of, lines_within, lower, matches_at, lowered, same_chars, slice, split_lines, starts_with,
    strictly_sorted, strings, texts, to_chars, trim, trim_start, trimmed,
};

verus! {

/// `#!`, which opens an interpreter line.
pub open spec fn shebang_marker() -> Seq<char> {
    seq!['#', '!']
}

/// The line feed as a pattern.
pub open spec fn line_feed() -> Seq<char> {
    seq!['\n']
}

/// `/*[toml]`, which opens the manifest block.
pub open spec fn open_fence() -> Seq<char> {
    seq!['/', '*', '[', 't', 'o', 'm', 'l', ']']
}

/// `*/`, which closes the manifest block.
pub open spec fn close_fence() -> Seq<char> {
    seq!['*', '/']
}

/// `//#`, which opens a directive line.
pub open spec fn directive_marker() -> Seq<char> {
    seq!['/', '/', '#']
}

/// The script without the text of its interpreter line. The line's own line
/// feed stays, so that every later line keeps its number.
pub open spec fn without_shebang(s: Seq<char>) -> Seq<char> {
    if starts_with(s, shebang_marker()) {
        match find_from(s, line_feed(), 0) {
            Some(i) => s.skip(i),
            None => Seq::empty(),
        }
    } else {
        s
    }
}

/// The script without the text of its interpreter line.
pub fn strip_shebang(source: &Vec<char>) -> (body: Vec<char>)
    ensures
        body@ == without_shebang(source@),
{
    let marker: Vec<char> = vec!['#', '!'];
    assert(marker@ == shebang_marker());
    if has_prefix(source, &marker) {
        let feed: Vec<char> = vec!['\n'];
        assert(feed@ == line_feed());
        match find(source, &feed, 0) {
            Some(i) => {
                assert(source@.skip(i as int) == source@.subrange(i as int, source.len() as int));
                slice(source, i, source.len())
            },
            None => Vec::new(),
        }
    } else {
        assert(source@ == source@.subrange(0, source.len() as int));
        slice(source, 0, source.len())
    }
}

/// Where the content of the first complete manifest block at or after `from`
/// begins and ends: after the first opening fence, up to the first closing
/// fence that follows it.
pub open spec fn block_at(s: Seq<char>, from: int) -> Option<(int, int)> {
    match find_from(s, open_fence(), from) {
        Some(o) => match find_from(s, close_fence(), o + 8) {
            Some(c) => Some((o + 8, c)),
            None => None,
        },
        None => None,
    }
}

/// The content of the script's manifest block, taken as it stands: that of the
/// first block where there are several.
pub open spec fn manifest_block(s: Seq<char>) -> Option<Seq<char>> {
    match block_at(s, 0) {
        Some((a, b)) => Some(s.subrange(a, b)),
        None => None,
    }
}

/// Whether another complete manifest block follows the first one. Such a
/// block is not used.
pub open spec fn has_second_block(s: Seq<char>) -> bool {
    match block_at(s, 0) {
        Some((a, b)) => block_at(s, b + 2) is Some,
        None => false,
    }
}

/// Where the content of the first complete manifest block at or after `from`
/// begins and ends.
pub fn find_block(s: &Vec<char>, from: usize) -> (r: Option<(usize, usize)>)
    ensures
        match r {
            Some((a, b)) => block_at(s@, from as int) == Some((a as int, b as int)) && from + 8
                <= a <= b && b + 2 <= s.len(),
            None => block_at(s@, from as int) is None,
        },
{
    let open: Vec<char> = vec!['/', '*', '[', 't', 'o', 'm', 'l', ']'];
    let close: Vec<char> = vec!['*', '/'];
    assert(open@ == open_fence());
    assert(close@ == close_fence());
    match find(s, &open, from) {
        Some(o) => match find(s, &close, o + 8) {
            Some(c) => Some((o + 8, c)),
            None => None,
        },
        None => None,
    }
}

/// The key and the value of a directive line `//# Key: value`: the key in
/// lower case, both without surrounding blanks. A line without the marker or
/// without a colon is no directive.
pub open spec fn directive_of(line: Seq<char>) -> Option<(Seq<char>, Seq<char>)> {
    if starts_with(line, directive_marker()) {
        let rest = line.skip(3);
        match find_from(rest, seq![':'], 0) {
            Some(c) => Some((lower(trim(rest.take(c))), trim(rest.skip(c + 1)))),
            None => None,
        }
    } else {
        None
    }
}

/// The value that the directives of `lines` give to `key`: that of the last
/// such directive.
pub open spec fn directive_value(lines: Seq<Seq<char>>, key: Seq<char>) -> Option<Seq<char>>
    decreases lines.len(),
{
    if lines.len() == 0 {
        None
    } else {
        match directive_of(lines.last()) {
            Some((k, v)) => if k == key {
                Some(v)
            } else {
                directive_value(lines.drop_last(), key)
            },
            None => directive_value(lines.drop_last(), key),
        }
    }
}

/// Whether `line` is a description line: one that begins with `///` or `//:`.
pub open spec fn is_description_line(line: Seq<char>) -> bool {
    starts_with(line, seq!['/', '/', '/']) || starts_with(line, seq!['/', '/', ':'])
}

/// The description that `lines` give: the text after the marker of every
/// description line, each closed by a line feed.
pub open spec fn description_of(lines: Seq<Seq<char>>) -> Seq<char>
    decreases lines.len(),
{
    if lines.len() == 0 {
        Seq::empty()
    } else {
        let rest = description_of(lines.drop_last());
        if is_description_line(lines.last()) {
            rest + lines.last().skip(3) + seq!['\n']
        } else {
            rest
        }
    }
}

/// The key and the value of a directive line.
pub fn parse_directive(line: &Vec<char>) -> (r: Option<(Vec<char>, Vec<char>)>)
    ensures
        match r {
            Some((k, v)) => directive_of(line@) == Some((k@, v@)),
            None => directive_of(line@) is None,
        },
{
    let marker: Vec<char> = vec!['/', '/', '#'];
    assert(marker@ == directive_marker());
    if !has_prefix(line, &marker) {
        return None;
    }
    let rest = slice(line, 3, line.len());
    assert(rest@ == line@.skip(3));
    let colon: Vec<char> = vec![':'];
    assert(colon@ == seq![':']);
    match find(&rest, &colon, 0) {
        Some(c) => {
            let key = trimmed(&rest, 0, c);
            let value = trimmed(&rest, c + 1, rest.len());
            assert(rest@.take(c as int) == rest@.subrange(0, c as int));
            assert(rest@.skip(c + 1) == rest@.subrange(c + 1, rest.len() as int));
            Some((lowered(&key), value))
        },
        None => None,
    }
}

/// The value that the directives of `lines` give to `key`.
pub fn find_directive(lines: &Vec<Vec<char>>, key: &Vec<char>) -> (r: Option<Vec<char>>)
    ensures
        match r {
            Some(v) => directive_value(texts(lines@), key@) == Some(v@),
            None => directive_value(texts(lines@), key@) is None,
        },
{
    let mut found: Option<Vec<char>> = None;
    let mut i: usize = 0;
    while i < lines.len()
        invariant
            i <= lines.len(),
            match found {
                Some(v) => directive_value(texts(lines@).take(i as int), key@) == Some(v@),
                None => directive_value(texts(lines@).take(i as int), key@) is None,
            },
        decreases lines.len() - i,
    {
        proof {
            let t = texts(lines@);
            assert(t.take(i + 1).drop_last() == t.take(i as int));
            assert(t.take(i + 1).last() == lines@[i as int]@);
        }
        match parse_directive(&lines[i]) {
            Some((k, v)) => {
                if same_chars(&k, key) {
                    found = Some(v);
                }
            },
            None => {},
        }
        i += 1;
    }
    assert(texts(lines@).take(lines.len() as int) == texts(lines@));
    found
}

/// Whether `line` is a description line.
pub fn is_description(line: &Vec<char>) -> (r: bool)
    ensures
        r == is_description_line(line@),
{
    let doc: Vec<char> = vec!['/', '/', '/'];
    let note: Vec<char> = vec!['/', '/', ':'];
    assert(doc@ == seq!['/', '/', '/']);
    assert(note@ == seq!['/', '/', ':']);
    has_prefix(line, &doc) || has_prefix(line, &note)
}

/// The description that `lines` give.
pub fn collect_description(lines: &Vec<Vec<char>>) -> (out: Vec<char>)
    ensures
        out@ == description_of(texts(lines@)),
{
    let mut out: Vec<char> = Vec::new();
    let mut i: usize = 0;
    while i < lines.len()
        invariant
            i <= lines.len(),
            out@ == description_of(texts(lines@).take(i as int)),
        decreases lines.len() - i,
    {
        proof {
            let t = texts(lines@);
            assert(t.take(i + 1).drop_last() == t.take(i as int));
            assert(t.take(i + 1).last() == lines@[i as int]@);
        }
        if is_description(&lines[i]) {
            let line = &lines[i];
            let tail = slice(line, 3, line.len());
            assert(tail@ == line@.skip(3));
            append(&mut out, &tail);
            out.push('\n');
        }
        i += 1;
    }
    assert(texts(lines@).take(lines.len() as int) == texts(lines@));
    out
}

/// A line that begins, after blanks, with `use`: group 1 is the imported path.
pub const USE_PATTERN: &'static str = r"(?m)^[\s]*use\s+([^;{]+)";

/// A line that begins, after blanks, with `extern crate`: group 1 is the crate.
pub const EXTERN_CRATE_PATTERN: &'static str = r"(?m)^[\s]*extern\s+crate\s+([^;{]+)";

/// A line that begins, after blanks, with the signature of `main`.
pub const MAIN_PATTERN: &'static str = r"(?m)^\s*(async\s+)?fn\s+main\s*\(\s*\)";

/// A character of a crate's name in source text.
pub open spec fn is_name_char(c: char) -> bool {
    ('a' <= c && c <= 'z') || ('A' <= c && c <= 'Z') || ('0' <= c && c <= '9') || c == '_'
}

/// The first position at or after `i` that holds neither a blank nor a colon.
pub open spec fn path_start(p: Seq<char>, i: int) -> int
    decreases p.len() - i,
{
    if 0 <= i < p.len() && (is_space(p[i]) || p[i] == ':') {
        path_start(p, i + 1)
    } else {
        i
    }
}

/// The first position at or after `i` that holds no character of a name.
pub open spec fn name_end(p: Seq<char>, i: int) -> int
    decreases p.len() - i,
{
    if 0 <= i < p.len() && is_name_char(p[i]) {
        name_end(p, i + 1)
    } else {
        i
    }
}

/// The outermost segment of an imported path: the name with which the path
/// begins, after any blanks and leading colons.
pub open spec fn import_root(path: Seq<char>) -> Seq<char> {
    let a = path_start(path, 0);
    path.subrange(a, name_end(path, a))
}

/// The outermost segment of each path.
pub open spec fn roots_of(paths: Seq<Seq<char>>) -> Seq<Seq<char>> {
    Seq::new(paths.len(), |i: int| import_root(paths[i]))
}

/// The names that stand for the language's own facilities or for the script
/// itself, and so for no dependency.
pub open spec fn is_builtin(name: Seq<char>) -> bool {
    name == "std"@ || name == "core"@ || name == "alloc"@ || name == "collections"@ || name
        == "fmt"@ || name == "crate"@ || name == "self"@ || name == "super"@
}

/// A name that stands for a dependency.
pub open spec fn is_dependency_name(name: Seq<char>) -> bool {
    name.len() > 0 && !is_builtin(name)
}

/// `deps` is the list of the dependencies among `candidates`: in dictionary
/// order, each once, and holding exactly the candidates that stand for a
/// dependency.
pub open spec fn is_dependency_list(deps: Seq<Seq<char>>, candidates: Seq<Seq<char>>) -> bool {
    &&& strictly_sorted(deps)
    &&& forall|x: Seq<char>| #[trigger]
        deps.contains(x) <==> (candidates.contains(x) && is_dependency_name(x))
}

/// Whether `c` is a character of a crate's name.
pub fn is_name(c: char) -> (b: bool)
    ensures
        b == is_name_char(c),
{
    ('a' <= c && c <= 'z') || ('A' <= c && c <= 'Z') || ('0' <= c && c <= '9') || c == '_'
}

/// The outermost segment of an imported path.
pub fn import_root_of(path: &str) -> (root: String)
    ensures
        root@ == import_root(path@),
{
    let p = to_chars(path);
    let mut a: usize = 0;
    while a < p.len() && (is_space_char(p[a]) || p[a] == ':')
        invariant
            a <= p.len(),
            path_start(p@, 0) == path_start(p@, a as int),
        decreases p.len() - a,
    {
        a += 1;
    }
    let mut b: usize = a;
    while b < p.len() && is_name(p[b])
        invariant
            a <= b <= p.len(),
            name_end(p@, a as int) == name_end(p@, b as int),
        decreases p.len() - b,
    {
        b += 1;
    }
    from_chars(&slice(&p, a, b))
}

/// Whether `name` stands for the language's own facilities or for the script
/// itself.
pub fn is_builtin_name(name: &str) -> (b: bool)
    ensures
        b == is_builtin(name@),
{
    let n = to_chars(name);
    same_chars(&n, &to_chars("std")) || same_chars(&n, &to_chars("core")) || same_chars(
        &n,
        &to_chars("alloc"),
    ) || same_chars(&n, &to_chars("collections")) || same_chars(&n, &to_chars("fmt"))
        || same_chars(&n, &to_chars("crate")) || same_chars(&n, &to_chars("self")) || same_chars(
        &n,
        &to_chars("super"),
    )
}

/// The dependencies among `candidates`, in dictionary order, each once.
pub fn dependency_names(candidates: &Vec<String>) -> (deps: Vec<String>)
    ensures
        is_dependency_list(strings(deps@), strings(candidates@)),
{
    let mut deps: Vec<String> = Vec::new();
    let ghost all = strings(candidates@);
    let mut i: usize = 0;
    assert(strings(deps@) =~= Seq::<Seq<char>>::empty());
    while i < candidates.len()
        invariant
            i <= candidates.len(),
            all == strings(candidates@),
            is_dependency_list(strings(deps@), all.take(i as int)),
        decreases candidates.len() - i,
    {
        let c = &candidates[i];
        let ghost before = strings(deps@);
        assert(all.take(i + 1) == all.take(i as int).push(c@));
        if c.as_str().unicode_len() > 0 && !is_builtin_name(c.as_str()) {
            insert_sorted(&mut deps, c.clone());
        }
        proof {
            let after = strings(deps@);
            let t0 = all.take(i as int);
            let t1 = all.take(i + 1);
            assert forall|x: Seq<char>| #[trigger]
                after.contains(x) <==> (t1.contains(x) && is_dependency_name(x)) by {
                if t1.contains(x) {
                    let k = choose|k: int| 0 <= k < t1.len() && t1[k] == x;
                    if k < i {
                        assert(t0[k] == x);
                    }
                }
                if t0.contains(x) {
                    let k = choose|k: int| 0 <= k < t0.len() && t0[k] == x;
                    assert(t1[k] == x);
                }
                if x == c@ {
                    assert(t1[i as int] == x);
                }
            }
        }
        i += 1;
    }
    assert(all.take(candidates.len() as int) == all);
    deps
}

/// What a structural parse of the script found: the outermost segment of
/// every imported path, the crates named by `extern crate`, and how many
/// entry points the script defines.
pub struct ScriptStructure {
    pub imports: Vec<String>,
    pub extern_crates: Vec<String>,
    pub entry_points: usize,
}

/// What the analysis of a script yields.
pub struct ParsedMetadata {
    /// The value of the directive `//# Purpose:`.
    pub purpose: Option<String>,
    /// The text of the description lines.
    pub description: Option<String>,
    /// The content of the manifest block, as it stands in the script.
    pub embedded_manifest: Option<String>,
    /// The crates that the script's imports name, in dictionary order.
    pub inferred_dependencies: Vec<String>,
    /// Whether the script defines an entry point, rather than being a bare
    /// expression or snippet.
    pub is_program: bool,
    /// Whether the script holds a further manifest block, which is not used.
    pub extra_manifest_blocks: bool,
}

/// The names that the imports of the script give: those that the structural
/// parse found, where there is one; else those that the text shows.
pub open spec fn import_candidates(body: Seq<char>, structure: Option<ScriptStructure>) -> Seq<
    Seq<char>,
> {
    match structure {
        Some(st) => strings(st.imports@) + strings(st.extern_crates@),
        None => roots_of(captured(USE_PATTERN@, body, 1)) + roots_of(
            captured(EXTERN_CRATE_PATTERN@, body, 1),
        ),
    }
}

/// How many entry points the script defines: as the structural parse counted
/// them, where there is one; else as the text shows.
pub open spec fn entry_point_count(body: Seq<char>, structure: Option<ScriptStructure>) -> nat {
    match structure {
        Some(st) => st.entry_points as nat,
        None => match_count(MAIN_PATTERN@, body),
    }
}

/// `m` is the analysis of the script `source`, given what a structural parse
/// found in it, if there was one.
pub open spec fn is_analysis_of(
    m: ParsedMetadata,
    source: Seq<char>,
    structure: Option<ScriptStructure>,
) -> bool {
    let body = without_shebang(source);
    let lines = lines_of(body);
    &&& m.purpose.deep_view() == directive_value(lines, "purpose"@)
    &&& m.description.deep_view() == Some(description_of(lines))
    &&& m.embedded_manifest.deep_view() == manifest_block(body)
    &&& m.extra_manifest_blocks == has_second_block(body)
    &&& m.is_program == (entry_point_count(body, structure) >= 1)
    &&& is_dependency_list(strings(m.inferred_dependencies@), import_candidates(body, structure))
}

/// What is wrong with the manifest block of the script `source`, if anything.
pub open spec fn manifest_problem(source: Seq<char>) -> Option<Seq<char>> {
    match manifest_block(without_shebang(source)) {
        Some(text) => manifest_parse_error(text),
        None => None,
    }
}

/// The outermost segment of each path.
pub fn import_roots(paths: &Vec<String>) -> (roots: Vec<String>)
    ensures
        strings(roots@) == roots_of(strings(paths@)),
{
    let mut roots: Vec<String> = Vec::new();
    let mut i: usize = 0;
    while i < paths.len()
        invariant
            i <= paths.len(),
            strings(roots@) == roots_of(strings(paths@)).take(i as int),
        decreases paths.len() - i,
    {
        let root = import_root_of(paths[i].as_str());
        roots.push(root);
        assert(strings(roots@) == roots_of(strings(paths@)).take(i as int).push(
            roots_of(strings(paths@))[i as int],
        ));
        i += 1;
    }
    assert(roots_of(strings(paths@)).take(paths.len() as int) == roots_of(strings(paths@)));
    roots
}

/// Adds a copy of each string of `more` to `out`.
pub fn extend_strings(out: &mut Vec<String>, more: &Vec<String>)
    ensures
        strings(final(out)@) == strings(old(out)@) + strings(more@),
{
    let mut i: usize = 0;
    assert(strings(more@).take(0) == Seq::<Seq<char>>::empty());
    while i < more.len()
        invariant
            i <= more.len(),
            strings(out@) == strings(old(out)@) + strings(more@).take(i as int),
        decreases more.len() - i,
    {
        out.push(more[i].clone());
        assert(strings(out@) == (strings(old(out)@) + strings(more@).take(i as int)).push(
            more@[i as int]@,
        ));
        assert(strings(more@).take(i + 1) == strings(more@).take(i as int).push(
            more@[i as int]@,
        ));
        i += 1;
    }
    assert(strings(more@).take(more.len() as int) == strings(more@));
}

/// Analyses a script. `structure` is what a structural parse of it found; with
/// `None`, imports and entry points are read off the text.
///
/// Fails, with the parser's message, exactly where the script has a manifest
/// block that is no valid manifest.
pub fn parse_metadata(source: &str, structure: Option<&ScriptStructure>) -> (r: Result<
    ParsedMetadata,
    BuildRunError,
>)
    ensures
        match r {
            Ok(m) => manifest_problem(source@) is None && is_analysis_of(
                m,
                source@,
                match structure {
                    Some(st) => Some(*st),
                    None => None,
                },
            ),
            Err(e) => manifest_problem(source@) is Some && e@ == ErrorView::MalformedManifest(
                manifest_problem(source@)->0,
            ),
        },
{
    let chars = to_chars(source);
    let body = strip_shebang(&chars);
    let lines = split_lines(&body);
    let purpose = match find_directive(&lines, &to_chars("purpose")) {
        Some(v) => Some(from_chars(&v)),
        None => None,
    };
    let description = Some(from_chars(&collect_description(&lines)));
    let mut embedded_manifest: Option<String> = None;
    let mut extra_manifest_blocks = false;
    match find_block(&body, 0) {
        Some((a, b)) => {
            let text = from_chars(&slice(&body, a, b));
            match check_manifest(text.as_str()) {
                Some(problem) => {
                    return Err(BuildRunError::MalformedManifest(problem));
                },
                None => {},
            }
            embedded_manifest = Some(text);
            extra_manifest_blocks = find_block(&body, b + 2).is_some();
        },
        None => {},
    }
    let mut candidates: Vec<String> = Vec::new();
    assert(strings(candidates@) =~= Seq::<Seq<char>>::empty());
    let is_program;
    match structure {
        Some(st) => {
            extend_strings(&mut candidates, &st.imports);
            extend_strings(&mut candidates, &st.extern_crates);
            is_program = st.entry_points >= 1;
        },
        None => {
            let text = from_chars(&body);
            let uses = capture_group(USE_PATTERN, text.as_str(), 1);
            let externs = capture_group(EXTERN_CRATE_PATTERN, text.as_str(), 1);
            assert(uses.deep_view() =~= strings(uses@));
            assert(externs.deep_view() =~= strings(externs@));
            let use_roots = import_roots(&uses);
            let extern_roots = import_roots(&externs);
            extend_strings(&mut candidates, &use_roots);
            extend_strings(&mut candidates, &extern_roots);
            is_program = count_matches(MAIN_PATTERN, text.as_str()) >= 1;
        },
    }
    let inferred_dependencies = dependency_names(&candidates);
    Ok(
        ParsedMetadata {
            purpose,
            description,
            embedded_manifest,
            inferred_dependencies,
            is_program,
            extra_manifest_blocks,
        },
    )
}

/// `s` without the characters `c` with which it begins.
pub open spec fn strip_leading(s: Seq<char>, c: char) -> Seq<char>
    decreases s.len(),
{
    if s.len() > 0 && s[0] == c {
        strip_leading(s.drop_first(), c)
    } else {
        s
    }
}

/// The first position at or after `from` that holds no blank.
pub fn skip_blanks(v: &Vec<char>, from: usize) -> (a: usize)
    requires
        from <= v.len(),
    ensures
        from <= a <= v.len(),
        v@.skip(a as int) == trim_start(v@.skip(from as int)),
{
    let mut a: usize = from;
    while a < v.len() && is_space_char(v[a])
        invariant
            from <= a <= v.len(),
            trim_start(v@.skip(from as int)) == trim_start(v@.skip(a as int)),
        decreases v.len() - a,
    {
        assert(v@.skip(a as int).drop_first() == v@.skip(a + 1));
        a += 1;
    }
    a
}

/// The first position at or after `from` that does not hold `c`.
pub fn skip_char(v: &Vec<char>, from: usize, c: char) -> (a: usize)
    requires
        from <= v.len(),
    ensures
        from <= a <= v.len(),
        v@.skip(a as int) == strip_leading(v@.skip(from as int), c),
{
    let mut a: usize = from;
    while a < v.len() && v[a] == c
        invariant
            from <= a <= v.len(),
            strip_leading(v@.skip(from as int), c) == strip_leading(v@.skip(a as int), c),
        decreases v.len() - a,
    {
        assert(v@.skip(a as int).drop_first() == v@.skip(a + 1));
        a += 1;
    }
    a
}

/// `//!`, which opens a line of manifest text written as a comment.
pub open spec fn doc_marker() -> Seq<char> {
    seq!['/', '/', '!']
}

/// The manifest text of a line that, after blanks, begins with `//!`: the
/// line without the blanks, the slashes and the exclamation marks with which
/// it begins. Other lines hold none.
pub open spec fn doc_manifest_line(line: Seq<char>) -> Option<Seq<char>> {
    let t = trim_start(line);
    if starts_with(t, doc_marker()) {
        Some(strip_leading(strip_leading(t, '/'), '!'))
    } else {
        None
    }
}

/// The manifest text that `lines` hold in comments of the form `//!`, each
/// piece closed by a line feed.
pub open spec fn doc_manifest(lines: Seq<Seq<char>>) -> Seq<char>
    decreases lines.len(),
{
    if lines.len() == 0 {
        Seq::empty()
    } else {
        match doc_manifest_line(lines.last()) {
            Some(t) => doc_manifest(lines.drop_last()) + t + seq!['\n'],
            None => doc_manifest(lines.drop_last()),
        }
    }
}

/// The manifest text that a script holds in comments of the form `//!`.
pub fn doc_comment_manifest(source: &str) -> (out: String)
    ensures
        out@ == doc_manifest(lines_of(source@)),
{
    let lines = split_lines(&to_chars(source));
    let marker: Vec<char> = vec!['/', '/', '!'];
    assert(marker@ == doc_marker());
    let mut out: Vec<char> = Vec::new();
    let mut i: usize = 0;
    while i < lines.len()
        invariant
            i <= lines.len(),
            marker@ == doc_marker(),
            out@ == doc_manifest(texts(lines@).take(i as int)),
        decreases lines.len() - i,
    {
        proof {
            let t = texts(lines@);
            assert(t.take(i + 1).drop_last() == t.take(i as int));
            assert(t.take(i + 1).last() == lines@[i as int]@);
        }
        let line = &lines[i];
        assert(line@.skip(0) == line@);
        let a = skip_blanks(line, 0);
        let t = slice(line, a, line.len());
        assert(t@ == trim_start(line@));
        if has_prefix(&t, &marker) {
            assert(t@.skip(0) == t@);
            let b = skip_char(&t, 0, '/');
            let c = skip_char(&t, b, '!');
            let piece = slice(&t, c, t.len());
            assert(piece@ == t@.skip(c as int));
            append(&mut out, &piece);
            out.push('\n');
        }
        i += 1;
    }
    assert(texts(lines@).take(lines.len() as int) == texts(lines@));
    from_chars(&out)
}

/// Whether a line opens the manifest block: after blanks it begins with the
/// opening fence.
pub open spec fn opens_block(line: Seq<char>) -> bool {
    starts_with(trim_start(line), open_fence())
}

/// Whether a line closes the manifest block: it holds the closing fence.
pub open spec fn closes_block(line: Seq<char>) -> bool {
    find_from(line, close_fence(), 0) is Some
}

/// Whether the manifest block is open after `lines`.
pub open spec fn in_block_after(lines: Seq<Seq<char>>) -> bool
    decreases lines.len(),
{
    if lines.len() == 0 {
        false
    } else if opens_block(lines.last()) {
        true
    } else if closes_block(lines.last()) {
        false
    } else {
        in_block_after(lines.drop_last())
    }
}

/// A line in the other form: the line that opens the block becomes
/// `` //! ```cargo ``, the line that closes it `` //! ``` ``, a line inside
/// the block gets `//! ` in front, and any other line stays.
pub open spec fn other_form_of(line: Seq<char>, in_block: bool) -> Seq<char> {
    if opens_block(line) {
        "//! ```cargo"@
    } else if closes_block(line) {
        "//! ```"@
    } else if in_block {
        "//! "@ + line
    } else {
        line
    }
}

/// A script in the other form, line by line, each line closed by a line feed.
pub open spec fn other_form(lines: Seq<Seq<char>>) -> Seq<char>
    decreases lines.len(),
{
    if lines.len() == 0 {
        Seq::empty()
    } else {
        other_form(lines.drop_last()) + other_form_of(
            lines.last(),
            in_block_after(lines.drop_last()),
        ) + seq!['\n']
    }
}

/// Rewrites a script whose manifest stands in a fenced block as one that
/// carries it in comments: the form that `rust-script` reads.
pub fn to_rust_script(content: &str) -> (out: String)
    ensures
        out@ == other_form(lines_of(content@)),
{
    let lines = split_lines(&to_chars(content));
    let open: Vec<char> = vec!['/', '*', '[', 't', 'o', 'm', 'l', ']'];
    let close: Vec<char> = vec!['*', '/'];
    assert(open@ == open_fence());
    assert(close@ == close_fence());
    let mut out: Vec<char> = Vec::new();
    let mut is_cargo = false;
    let mut i: usize = 0;
    while i < lines.len()
        invariant
            i <= lines.len(),
            open@ == open_fence(),
            close@ == close_fence(),
            out@ == other_form(texts(lines@).take(i as int)),
            is_cargo == in_block_after(texts(lines@).take(i as int)),
        decreases lines.len() - i,
    {
        proof {
            let t = texts(lines@);
            assert(t.take(i + 1).drop_last() == t.take(i as int));
            assert(t.take(i + 1).last() == lines@[i as int]@);
        }
        let line = &lines[i];
        assert(line@.skip(0) == line@);
        let a = skip_blanks(line, 0);
        let t = slice(line, a, line.len());
        assert(t@ == trim_start(line@));
        if has_prefix(&t, &open) {
            append_str(&mut out, "//! ```cargo");
            is_cargo = true;
        } else if find(line, &close, 0).is_some() {
            append_str(&mut out, "//! ```");
            is_cargo = false;
        } else if is_cargo {
            append_str(&mut out, "//! ");
            append(&mut out, line);
        } else {
            append(&mut out, line);
        }
        out.push('\n');
        assert(out@ =~= other_form(texts(lines@).take(i + 1)));
        i += 1;
    }
    assert(texts(lines@).take(lines.len() as int) == texts(lines@));
    from_chars(&out)
}

/// The lines of a text cut off at the front are those of the whole text from
/// the cut on.
pub proof fn lemma_lines_of_tail(s: Seq<char>, k: int, start: int, i: int)
    requires
        0 <= k <= s.len(),
        0 <= start <= i,
    ensures
        lines_within(s.skip(k), start, i) == lines_within(s, start + k, i + k),
    decreases s.len() - k - i,
{
    let t = s.skip(k);
    if i >= t.len() {
        if start < t.len() {
            assert(t.subrange(start, t.len() as int) == s.subrange(start + k, s.len() as int));
        }
    } else {
        assert(t[i] == s[i + k]);
        if t[i] == '\n' {
            assert(t.subrange(start, i) == s.subrange(start + k, i + k));
            lemma_lines_of_tail(s, k, i + 1, i + 1);
        } else {
            lemma_lines_of_tail(s, k, start, i + 1);
        }
    }
}

/// As long as no line feed is met, the lines are those of the line in
/// progress.
pub proof fn lemma_lines_before_feed(s: Seq<char>, j: int, k: int)
    requires
        0 <= j <= k <= s.len(),
        forall|x: int| 0 <= x < k ==> s[x] != '\n',
    ensures
        lines_within(s, 0, j) == lines_within(s, 0, k),
    decreases k - j,
{
    if j < k {
        lemma_lines_before_feed(s, j + 1, k);
    }
}

/// Taking out the interpreter line moves no line: where the script begins
/// with an interpreter line that is closed by a line feed, the script without
/// it has the same lines, but for the first, which is empty.
pub proof fn lemma_shebang_keeps_line_numbers(s: Seq<char>)
    requires
        starts_with(s, shebang_marker()),
        find_from(s, line_feed(), 0) is Some,
    ensures
        lines_of(without_shebang(s)).len() == lines_of(s).len(),
        lines_of(s).len() >= 1,
        lines_of(without_shebang(s)) == lines_of(s).update(0, Seq::empty()),
{
    let k = find_from(s, line_feed(), 0)->0;
    lemma_find_from(s, line_feed(), 0);
    assert(s.subrange(k, k + 1)[0] == line_feed()[0]);
    assert(s[k] == '\n');
    assert forall|x: int| 0 <= x < k implies s[x] != '\n' by {
        if s[x] == '\n' {
            assert(s.subrange(x, x + 1) =~= line_feed());
            assert(matches_at(s, line_feed(), x));
        }
    }
    lemma_lines_before_feed(s, 0, k);
    let t = s.skip(k);
    assert(t[0] == s[k]);
    lemma_lines_of_tail(s, k, 1, 1);
    let rest = lines_within(s, k + 1, k + 1);
    assert(lines_of(t) == seq![crate::text::without_cr(t.subrange(0, 0))] + rest);
    assert(t.subrange(0, 0) =~= Seq::<char>::empty());
    assert(lines_of(s) == seq![crate::text::without_cr(s.subrange(0, k))] + rest);
    assert(lines_of(t) =~= lines_of(s).update(0, Seq::empty()));
}

/// The interpreter line changes no field of the analysis: a script is
/// analysed as the same script with the text of its interpreter line taken
/// out, and what is wrong with its manifest block is the same.
pub proof fn lemma_shebang_changes_no_field(
    s: Seq<char>,
    m: ParsedMetadata,
    structure: Option<ScriptStructure>,
)
    ensures
        without_shebang(without_shebang(s)) == without_shebang(s),
        is_analysis_of(m, s, structure) == is_analysis_of(m, without_shebang(s), structure),
        manifest_problem(s) == manifest_problem(without_shebang(s)),
{
    let body = without_shebang(s);
    if starts_with(s, shebang_marker()) {
        match find_from(s, line_feed(), 0) {
            Some(i) => {
                lemma_find_from(s, line_feed(), 0);
                assert(s.subrange(i, i + 1)[0] == line_feed()[0]);
                assert(body[0] == '\n');
                if starts_with(body, shebang_marker()) {
                    assert(body.subrange(0, 2)[0] == shebang_marker()[0]);
                }
            },
            None => {},
        }
        assert(!starts_with(body, shebang_marker()));
    }
}

/// A line that is no directive, put before other lines, gives no key a
/// value.
pub proof fn lemma_directives_after_plain_line(
    first: Seq<char>,
    lines: Seq<Seq<char>>,
    key: Seq<char>,
)
    requires
        directive_of(first) is None,
    ensures
        directive_value(seq![first] + lines, key) == directive_value(lines, key),
    decreases lines.len(),
{
    let all = seq![first] + lines;
    if lines.len() == 0 {
        assert(all.last() == first);
        assert(all.drop_last().len() == 0);
    } else {
        assert(all.last() == lines.last());
        assert(all.drop_last() == seq![first] + lines.drop_last());
        lemma_directives_after_plain_line(first, lines.drop_last(), key);
    }
}

/// A line that is no description line, put before other lines, adds nothing
/// to the description.
pub proof fn lemma_description_after_plain_line(first: Seq<char>, lines: Seq<Seq<char>>)
    requires
        !is_description_line(first),
    ensures
        description_of(seq![first] + lines) == description_of(lines),
    decreases lines.len(),
{
    let all = seq![first] + lines;
    if lines.len() == 0 {
        assert(all.last() == first);
        assert(all.drop_last().len() == 0);
        assert(description_of(all.drop_last()) == Seq::<char>::empty());
        assert(description_of(all) == description_of(all.drop_last()));
    } else {
        assert(all.last() == lines.last());
        assert(all.drop_last() == seq![first] + lines.drop_last());
        lemma_description_after_plain_line(first, lines.drop_last());
    }
}

/// A position found in a text is found one further on in the text with one
/// character put before it.
pub open spec fn moved_on(p: Option<int>) -> Option<int> {
    match p {
        Some(i) => Some(i + 1),
        None => None,
    }
}

/// Searching a text with one character put before it, from past that
/// character, finds what a search of the text finds, one position further
/// on.
pub proof fn lemma_find_after_first(c: char, rest: Seq<char>, pat: Seq<char>, from: int)
    requires
        0 <= from,
    ensures
        find_from(seq![c] + rest, pat, from + 1) == moved_on(find_from(rest, pat, from)),
    decreases rest.len() - from + 1,
{
    let body = seq![c] + rest;
    if from + pat.len() <= rest.len() {
        assert(body.subrange(from + 1, from + 1 + pat.len()) == rest.subrange(
            from,
            from + pat.len(),
        ));
        if !matches_at(rest, pat, from) {
            lemma_find_after_first(c, rest, pat, from + 1);
        }
    }
}

/// A block found in a text is found one position further on in the text with
/// one character put before it.
pub open spec fn block_moved_on(b: Option<(int, int)>) -> Option<(int, int)> {
    match b {
        Some((from, to)) => Some((from + 1, to + 1)),
        None => None,
    }
}

/// The manifest blocks of a text with one character put before it are those
/// of the text, one position further on.
pub proof fn lemma_block_after_first(c: char, rest: Seq<char>, from: int)
    requires
        0 <= from,
    ensures
        block_at(seq![c] + rest, from + 1) == block_moved_on(block_at(rest, from)),
{
    lemma_find_after_first(c, rest, open_fence(), from);
    match find_from(rest, open_fence(), from) {
        Some(o) => {
            lemma_find_from(rest, open_fence(), from);
            lemma_find_after_first(c, rest, close_fence(), o + 8);
        },
        None => {},
    }
}

/// An interpreter line adds nothing to what a script says about itself: a
/// script that begins with one is analysed, given what a structural parse
/// found, as the script that follows the line, and what the text alone
/// shows (directives, description, manifest block) is the same in both.
pub proof fn lemma_interpreter_line_adds_nothing(
    line: Seq<char>,
    rest: Seq<char>,
    m: ParsedMetadata,
    structure: ScriptStructure,
    key: Seq<char>,
)
    requires
        starts_with(line, shebang_marker()),
        forall|i: int| 0 <= i < line.len() ==> line[i] != '\n',
        !starts_with(rest, shebang_marker()),
    ensures
        without_shebang(line + line_feed() + rest) == line_feed() + rest,
        directive_value(lines_of(line_feed() + rest), key) == directive_value(lines_of(rest), key),
        description_of(lines_of(line_feed() + rest)) == description_of(lines_of(rest)),
        manifest_block(line_feed() + rest) == manifest_block(rest),
        has_second_block(line_feed() + rest) == has_second_block(rest),
        manifest_problem(line + line_feed() + rest) == manifest_problem(rest),
        is_analysis_of(m, line + line_feed() + rest, Some(structure)) == is_analysis_of(
            m,
            rest,
            Some(structure),
        ),
{
    let s = line + line_feed() + rest;
    let body = line_feed() + rest;
    let k = line.len() as int;
    // The script without its interpreter line.
    assert(s.subrange(0, 2) == line.subrange(0, 2));
    assert(s[k] == '\n');
    assert(s.subrange(k, k + 1) == line_feed());
    lemma_find_from(s, line_feed(), 0);
    assert(matches_at(s, line_feed(), k));
    let found = find_from(s, line_feed(), 0)->0;
    if found < k {
        assert(s.subrange(found, found + 1)[0] == line_feed()[0]);
        assert(s[found] == line[found]);
    }
    assert(found == k);
    assert(s.skip(k) == body);
    assert(without_shebang(s) == body);
    assert(without_shebang(rest) == rest);
    // Its lines.
    assert(body[0] == '\n');
    assert(body.skip(1) == rest);
    lemma_lines_of_tail(body, 1, 0, 0);
    let empty = Seq::<char>::empty();
    assert(body.subrange(0, 0) == empty);
    assert(lines_of(body) == seq![empty] + lines_of(rest));
    lemma_directives_after_plain_line(empty, lines_of(rest), key);
    lemma_directives_after_plain_line(empty, lines_of(rest), "purpose"@);
    lemma_description_after_plain_line(empty, lines_of(rest));
    // Its manifest blocks.
    assert(body == seq!['\n'] + rest);
    if matches_at(body, open_fence(), 0) {
        assert(body.subrange(0, 8)[0] == open_fence()[0]);
    }
    assert(find_from(body, open_fence(), 0) == find_from(body, open_fence(), 1)) by {
        if 8 > body.len() {
            assert(find_from(body, open_fence(), 1) is None);
        }
    }
    lemma_find_after_first('\n', rest, open_fence(), 0);
    lemma_block_after_first('\n', rest, 0);
    assert(block_at(body, 0) == block_at(body, 1));
    match block_at(rest, 0) {
        Some((a, b)) => {
            lemma_find_from(rest, open_fence(), 0);
            lemma_find_from(rest, close_fence(), a);
            assert(body.subrange(a + 1, b + 1) == rest.subrange(a, b));
            lemma_block_after_first('\n', rest, b + 2);
        },
        None => {},
    }
}

} // verus!
