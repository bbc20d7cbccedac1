//! The manifest merger: what a script declares, what its imports need, and
//! what the registry answers, made into one dependency table.

use vstd::prelude::*;
use crate::analyzer::ParsedMetadata;
use crate::errors::{BuildRunError, ErrorView};
use crate::manifest::{
    add_entries, add_entry, bare_manifest, default_manifest, has_key, keys_unique,
    lemma_lookup_push, lemma_with_entries, lemma_with_entry, lookup,
    requirement_of, table_entries, table_of, toml_table_entries, with_entries, with_entry,
    Dependency, Manifest, ManifestView, Package, Product, Table, DEFAULT_EDITION,
    DEFAULT_VERSION, DEPENDENCIES_TABLE,
};
use crate::registry::{
    cargo_search, hyphenated, lemma_answer_is_an_outcome, registry_answers, registry_fails,
    CommandRunner,
};
use crate::shared::{joined, stem_of, BuildState, MANIFEST_FILE_NAME, SOURCE_FILE_NAME};
use crate::text::{append_str, from_chars, same_chars, strings, to_chars};

verus! {

/// What the registry answered when asked for a crate: the name it was asked
/// for, and the name and the version that it gave.
pub struct Resolution {
    pub asked: String,
    pub name: String,
    pub version: String,
}

/// The registry's answers: for each name asked for, the name and the version
/// given.
pub type Answers = Seq<(Seq<char>, Seq<char>, Seq<char>)>;

/// The answers that a list of resolutions stands for.
pub open spec fn answers_of(list: Seq<Resolution>) -> Answers {
    Seq::new(list.len(), |i: int| (list[i].asked@, list[i].name@, list[i].version@))
}

/// The name and the version that the answers hold for the name `asked`:
/// those of the first answer to it.
pub open spec fn answer_for(answers: Answers, asked: Seq<char>) -> Option<(Seq<char>, Seq<char>)>
    decreases answers.len(),
{
    if answers.len() == 0 {
        None
    } else if answers[0].0 == asked {
        Some((answers[0].1, answers[0].2))
    } else {
        answer_for(answers.drop_first(), asked)
    }
}

/// The name that the answers hold for the name `asked`.
pub open spec fn given_name(answers: Answers, asked: Seq<char>) -> Seq<char> {
    match answer_for(answers, asked) {
        Some((name, _)) => name,
        None => Seq::empty(),
    }
}

/// `v` between double quotes: a version as a TOML value.
pub open spec fn quoted(v: Seq<char>) -> Seq<char> {
    seq!['"'] + v + seq!['"']
}

/// `table` completed for the names of `inferred`, in order: a name that has
/// an entry is passed over; for any other the answer to it is taken, and an
/// entry is added under the name that the registry gave, with the version
/// quoted, unless that name has an entry. Where a name that needs an answer
/// has none, the first such name.
pub open spec fn resolve_into(table: Table, inferred: Seq<Seq<char>>, answers: Answers) -> Result<
    Table,
    Seq<char>,
>
    decreases inferred.len(),
{
    if inferred.len() == 0 {
        Ok(table)
    } else {
        match resolve_into(table, inferred.drop_last(), answers) {
            Ok(t) => {
                let name = inferred.last();
                if has_key(t, name) {
                    Ok(t)
                } else {
                    match answer_for(answers, name) {
                        Some((given, version)) => Ok(with_entry(t, given, quoted(version))),
                        None => Err(name),
                    }
                }
            },
            Err(name) => Err(name),
        }
    }
}

/// The dependency table of a merge: the entries of `start`, then those of
/// `embedded` whose names are new, then what the answers give for each name
/// of `inferred` that is still missing.
pub open spec fn merged_table(
    start: Table,
    embedded: Table,
    inferred: Seq<Seq<char>>,
    answers: Answers,
) -> Result<Table, Seq<char>> {
    resolve_into(with_entries(start, embedded), inferred, answers)
}

/// The names of `inferred` that have no entry in `table`, in order.
pub open spec fn missing_from(table: Table, inferred: Seq<Seq<char>>) -> Seq<Seq<char>>
    decreases inferred.len(),
{
    if inferred.len() == 0 {
        Seq::empty()
    } else if has_key(table, inferred.last()) {
        missing_from(table, inferred.drop_last())
    } else {
        missing_from(table, inferred.drop_last()).push(inferred.last())
    }
}

/// The names of `inferred` that have no entry in `table`: those for which the
/// registry has to be asked.
pub fn missing_dependencies(table: &Vec<Dependency>, inferred: &Vec<String>) -> (missing: Vec<
    String,
>)
    ensures
        strings(missing@) == missing_from(table_of(table@), strings(inferred@)),
{
    let mut missing: Vec<String> = Vec::new();
    let mut i: usize = 0;
    assert(strings(missing@) =~= Seq::<Seq<char>>::empty());
    while i < inferred.len()
        invariant
            i <= inferred.len(),
            strings(missing@) == missing_from(
                table_of(table@),
                strings(inferred@).take(i as int),
            ),
        decreases inferred.len() - i,
    {
        proof {
            let s = strings(inferred@);
            assert(s.take(i + 1).drop_last() == s.take(i as int));
            assert(s.take(i + 1).last() == inferred@[i as int]@);
        }
        let ghost before = strings(missing@);
        match requirement_of(table, inferred[i].as_str()) {
            Some(_) => {},
            None => {
                missing.push(inferred[i].clone());
                assert(strings(missing@) == before.push(inferred@[i as int]@));
            },
        }
        i += 1;
    }
    assert(strings(inferred@).take(inferred.len() as int) == strings(inferred@));
    missing
}

/// The first answer to the name `asked`, if there is one.
pub fn find_answer(answers: &Vec<Resolution>, asked: &str) -> (r: Option<usize>)
    ensures
        match r {
            Some(i) => i < answers.len() && answer_for(answers_of(answers@), asked@) == Some(
                (answers[i as int].name@, answers[i as int].version@),
            ),
            None => answer_for(answers_of(answers@), asked@) is None,
        },
{
    let key = to_chars(asked);
    let ghost a = answers_of(answers@);
    let mut i: usize = 0;
    assert(a.skip(0) == a);
    while i < answers.len()
        invariant
            i <= answers.len(),
            a == answers_of(answers@),
            key@ == asked@,
            answer_for(a, asked@) == answer_for(a.skip(i as int), asked@),
        decreases answers.len() - i,
    {
        let here = to_chars(answers[i].asked.as_str());
        if same_chars(&here, &key) {
            return Some(i);
        }
        assert(a.skip(i as int).drop_first() == a.skip(i + 1));
        i += 1;
    }
    None
}

/// Completes `table` for the names of `inferred`, taking names and versions
/// from `answers`.
///
/// Fails, naming the dependency, exactly where a name that needs an answer
/// has none; the table is then left as far as it got.
pub fn resolve_dependencies(
    table: &mut Vec<Dependency>,
    inferred: &Vec<String>,
    answers: &Vec<Resolution>,
) -> (r: Result<(), BuildRunError>)
    ensures
        match resolve_into(table_of(old(table)@), strings(inferred@), answers_of(answers@)) {
            Ok(t) => r is Ok && table_of(final(table)@) == t,
            Err(name) => r is Err && r->Err_0@ == ErrorView::DependencyNotFound(name),
        },
{
    let ghost start = table_of(table@);
    let ghost names = strings(inferred@);
    let ghost given = answers_of(answers@);
    let mut i: usize = 0;
    while i < inferred.len()
        invariant
            i <= inferred.len(),
            names == strings(inferred@),
            given == answers_of(answers@),
            start == table_of(old(table)@),
            resolve_into(start, names.take(i as int), given) == Ok::<Table, Seq<char>>(
                table_of(table@),
            ),
        decreases inferred.len() - i,
    {
        proof {
            assert(names.take(i + 1).drop_last() == names.take(i as int));
            assert(names.take(i + 1).last() == inferred@[i as int]@);
        }
        let name = &inferred[i];
        match requirement_of(table, name.as_str()) {
            Some(_) => {},
            None => match find_answer(answers, name.as_str()) {
                Some(k) => {
                    let mut requirement: Vec<char> = Vec::new();
                    requirement.push('"');
                    append_str(&mut requirement, answers[k].version.as_str());
                    requirement.push('"');
                    assert(requirement@ == quoted(answers@[k as int].version@));
                    add_entry(table, answers[k].name.clone(), from_chars(&requirement));
                },
                None => {
                    proof {
                        assert(resolve_into(start, names.take(i + 1), given) == Err::<
                            Table,
                            Seq<char>,
                        >(name@));
                        lemma_resolve_fails_on(start, names, given, i as int + 1);
                    }
                    return Err(BuildRunError::DependencyNotFound(name.clone()));
                },
            },
        }
        i += 1;
    }
    assert(names.take(inferred.len() as int) == names);
    Ok(())
}

/// Once the names up to position `upto` fail on a name, all the names fail on
/// that name.
pub proof fn lemma_resolve_fails_on(
    table: Table,
    inferred: Seq<Seq<char>>,
    answers: Answers,
    upto: int,
)
    requires
        0 <= upto <= inferred.len(),
        resolve_into(table, inferred.take(upto), answers) is Err,
    ensures
        resolve_into(table, inferred, answers) == resolve_into(
            table,
            inferred.take(upto),
            answers,
        ),
    decreases inferred.len() - upto,
{
    if upto < inferred.len() {
        assert(inferred.take(upto + 1).drop_last() == inferred.take(upto));
        lemma_resolve_fails_on(table, inferred, answers, upto + 1);
    } else {
        assert(inferred.take(upto) == inferred);
    }
}

/// The dependency entries that a script's manifest text declares: none where
/// the script has no manifest text; `None` where the text is no TOML document.
pub open spec fn embedded_entries(text: Option<Seq<char>>) -> Option<Table> {
    match text {
        Some(t) => toml_table_entries(t, DEPENDENCIES_TABLE@),
        None => Some(Seq::empty()),
    }
}

/// The dependency entries that a script's manifest text declares.
///
/// Fails, with the text, exactly where the text is no TOML document.
pub fn embedded_dependencies(text: &Option<String>) -> (r: Result<Vec<Dependency>, BuildRunError>)
    ensures
        match embedded_entries(text.deep_view()) {
            Some(t) => r is Ok && table_of(r->Ok_0@) == t,
            None => r is Err && r->Err_0@ == ErrorView::MalformedManifest(text->0@),
        },
{
    match text {
        Some(t) => match table_entries(t.as_str(), DEPENDENCIES_TABLE) {
            Some(list) => Ok(list),
            None => Err(BuildRunError::MalformedManifest(t.clone())),
        },
        None => {
            let list: Vec<Dependency> = Vec::new();
            assert(table_of(list@) =~= Seq::empty());
            Ok(list)
        },
    }
}

/// Merges what a script declares with what its imports need, given the
/// registry's answers: the manifest is `defaults` with the dependency table
/// `merged_table` of its own entries, the entries `embedded`, the names
/// `inferred` and the answers `answers`.
///
/// Fails, naming the dependency, exactly where an inferred name that no entry
/// covers has no answer.
pub fn merge_resolved(
    defaults: Manifest,
    embedded: &Vec<Dependency>,
    inferred: &Vec<String>,
    answers: &Vec<Resolution>,
) -> (r: Result<Manifest, BuildRunError>)
    ensures
        match merged_table(
            defaults@.dependencies,
            table_of(embedded@),
            strings(inferred@),
            answers_of(answers@),
        ) {
            Ok(t) => r is Ok && r->Ok_0@ == (ManifestView { dependencies: t, ..defaults@ }),
            Err(name) => r is Err && r->Err_0@ == ErrorView::DependencyNotFound(name),
        },
{
    let mut m = defaults;
    let mut table: Vec<Dependency> = Vec::new();
    std::mem::swap(&mut table, &mut m.dependencies);
    add_entries(&mut table, embedded);
    match resolve_dependencies(&mut table, inferred, answers) {
        Ok(()) => {
            m.dependencies = table;
            Ok(m)
        },
        Err(e) => Err(e),
    }
}

/// The crate `name` has an entry in `table`, under its name as it is written
/// in the script or under that name with hyphens for its underscores, which
/// is the other way the registry spells a crate.
pub open spec fn present(table: Table, name: Seq<char>) -> bool {
    has_key(table, name) || has_key(table, hyphenated(name))
}

/// The names for which the registry has to be asked for a script with the
/// analysis `metadata`: the inferred names that the declared entries do not
/// cover. None where the manifest text is no TOML document.
pub open spec fn names_to_ask(metadata: ParsedMetadata) -> Seq<Seq<char>> {
    match embedded_entries(metadata.embedded_manifest.deep_view()) {
        Some(embedded) => missing_from(
            with_entries(Seq::empty(), embedded),
            strings(metadata.inferred_dependencies@),
        ),
        None => Seq::empty(),
    }
}

/// Every answer is one that the registry can give to its query.
pub open spec fn given_by_registry(answers: Answers) -> bool {
    forall|j: int|
        0 <= j < answers.len() ==> registry_answers(
            (#[trigger] answers[j]).0,
            answers[j].1,
            answers[j].2,
        )
}

/// The manifest of a script: the default manifest of its build, with the
/// dependencies that its manifest text declares, and one more for each
/// inferred crate that the text does not cover, under the name and at the
/// version that the registry, asked through `runner`, gives for it.
///
/// Fails with `MalformedManifest` exactly where the manifest text is no TOML
/// document; nothing is asked then. Else the registry is asked for each
/// missing crate in turn. Where no crate is missing the merge succeeds. A
/// failure is one of a query for a missing crate. On success the manifest is
/// the merge of the declared entries, the inferred names and answers that
/// the registry gave, and it is also kept in `build_state`.
#[verifier::loop_isolation(false)]
pub fn merge_manifest<R: CommandRunner>(
    build_state: &mut BuildState,
    metadata: &ParsedMetadata,
    runner: &R,
) -> (r: Result<Manifest, BuildRunError>)
    ensures
        final(build_state).source_stem == old(build_state).source_stem,
        final(build_state).source_path == old(build_state).source_path,
        final(build_state).target_dir_path == old(build_state).target_dir_path,
        final(build_state).cargo_toml_path == old(build_state).cargo_toml_path,
        final(build_state).source_name == old(build_state).source_name,
        final(build_state).cargo_home == old(build_state).cargo_home,
        final(build_state).rs_manifest == old(build_state).rs_manifest,
        r is Err ==> final(build_state).cargo_manifest == old(build_state).cargo_manifest,
        r is Ok ==> r->Ok_0.wf(),
        match embedded_entries(metadata.embedded_manifest.deep_view()) {
            None => r is Err && r->Err_0@ == ErrorView::MalformedManifest(
                metadata.embedded_manifest->0@,
            ),
            Some(embedded) => {
                let start = with_entries(Seq::empty(), embedded);
                let inferred = strings(metadata.inferred_dependencies@);
                let missing = missing_from(start, inferred);
                &&& missing.len() == 0 ==> r is Ok
                &&& r is Err ==> exists|i: int|
                    0 <= i < missing.len() && registry_fails(#[trigger] missing[i], r->Err_0@)
                &&& r is Ok ==> {
                    &&& exists|answers: Answers|
                        given_by_registry(answers) && #[trigger] merged_table(
                            Seq::empty(),
                            embedded,
                            inferred,
                            answers,
                        ) == Ok::<Table, Seq<char>>(r->Ok_0@.dependencies)
                    &&& forall|i: int|
                        0 <= i < inferred.len() ==> present(
                            r->Ok_0@.dependencies,
                            #[trigger] inferred[i],
                        )
                    &&& forall|n: Seq<char>|
                        has_key(embedded, n) ==> #[trigger] lookup(r->Ok_0@.dependencies, n)
                            == lookup(embedded, n)
                    &&& r->Ok_0@ == (ManifestView {
                        dependencies: r->Ok_0@.dependencies,
                        ..bare_manifest(
                            old(build_state).source_stem@,
                            DEFAULT_VERSION@,
                            DEFAULT_EDITION@,
                            old(build_state).source_path@,
                        )
                    })
                    &&& final(build_state).cargo_manifest is Some
                    &&& final(build_state).cargo_manifest->0@ == r->Ok_0@
                }
            },
        },
{
    let embedded = match embedded_dependencies(&metadata.embedded_manifest) {
        Ok(list) => list,
        Err(e) => {
            return Err(e);
        },
    };
    let mut start: Vec<Dependency> = Vec::new();
    assert(table_of(start@) =~= Seq::empty());
    add_entries(&mut start, &embedded);
    let missing = missing_dependencies(&start, &metadata.inferred_dependencies);
    let ghost wanted = strings(missing@);
    let mut answers: Vec<Resolution> = Vec::new();
    let mut i: usize = 0;
    while i < missing.len()
        invariant
            i <= missing.len(),
            answers.len() == i,
            forall|k: int|
                0 <= k < i ==> (#[trigger] answers_of(answers@)[k]).0 == wanted[k]
                    && registry_answers(
                    wanted[k],
                    answers_of(answers@)[k].1,
                    answers_of(answers@)[k].2,
                ),
        decreases missing.len() - i,
    {
        let answer = cargo_search(runner, missing[i].as_str());
        proof {
            lemma_answer_is_an_outcome(missing@[i as int]@, answer);
            assert(wanted[i as int] == missing@[i as int]@);
        }
        match answer {
            Ok((name, version)) => {
                let ghost before = answers_of(answers@);
                answers.push(Resolution { asked: missing[i].clone(), name, version });
                assert(answers_of(answers@) == before.push((wanted[i as int], name@, version@)));
            },
            Err(e) => {
                return Err(e);
            },
        }
        i += 1;
    }
    let defaults = match default_manifest(build_state) {
        Ok(m) => m,
        Err(e) => {
            return Err(e);
        },
    };
    proof {
        let given = answers_of(answers@);
        lemma_first_entry_wins(table_of(embedded@), Seq::empty());
        assert forall|k: int| 0 <= k < wanted.len() implies answer_for(
            given,
            #[trigger] wanted[k],
        ) is Some by {
            lemma_has_answer(given, wanted[k]);
            assert(given[k].0 == wanted[k]);
        }
        lemma_answers_suffice(table_of(start@), strings(metadata.inferred_dependencies@), given);
        lemma_merge_complete(
            table_of(embedded@),
            strings(metadata.inferred_dependencies@),
            given,
        );
        assert forall|n: Seq<char>| has_key(table_of(embedded@), n) implies #[trigger] lookup(
            merged_table(
                Seq::empty(),
                table_of(embedded@),
                strings(metadata.inferred_dependencies@),
                given,
            )->Ok_0,
            n,
        ) == lookup(table_of(embedded@), n) by {
            lemma_embedded_wins(
                table_of(embedded@),
                strings(metadata.inferred_dependencies@),
                given,
                n,
                lookup(table_of(embedded@), n)->0,
            );
        }
        assert(given_by_registry(given)) by {
            assert forall|j: int| 0 <= j < given.len() implies registry_answers(
                (#[trigger] given[j]).0,
                given[j].1,
                given[j].2,
            ) by {
                assert(given[j].0 == wanted[j]);
            }
        }
    }
    proof {
        lemma_inferred_present(
            table_of(embedded@),
            strings(metadata.inferred_dependencies@),
            answers_of(answers@),
        );
    }
    match merge_resolved(defaults, &embedded, &metadata.inferred_dependencies, &answers) {
        Ok(m) => {
            let kept = Manifest {
                package: Package {
                    name: m.package.name.clone(),
                    version: m.package.version.clone(),
                    edition: m.package.edition.clone(),
                },
                bin: Product { name: m.bin.name.clone(), path: m.bin.path.clone() },
                dependencies: copy_table(&m.dependencies),
            };
            build_state.cargo_manifest = Some(kept);
            assert(merged_table(
                Seq::empty(),
                table_of(embedded@),
                strings(metadata.inferred_dependencies@),
                answers_of(answers@),
            ) == Ok::<Table, Seq<char>>(m@.dependencies));
            Ok(m)
        },
        Err(e) => Err(e),
    }
}

/// How the making of a build's record can fail: with `Command` and the name,
/// for a name without a stem; else with `MalformedManifest` and the text, for
/// manifest text that is no TOML document; else as a query of the registry
/// for a crate that lacks an entry can fail.
pub open spec fn prepare_fails_with(
    metadata: ParsedMetadata,
    source_name: Seq<char>,
    e: ErrorView,
) -> bool {
    let embedded = embedded_entries(metadata.embedded_manifest.deep_view());
    ||| stem_of(source_name) is None && e == ErrorView::Command(source_name)
    ||| stem_of(source_name) is Some && embedded is None && e == ErrorView::MalformedManifest(
        metadata.embedded_manifest->0@,
    )
    ||| stem_of(source_name) is Some && embedded is Some && exists|i: int|
        0 <= i < names_to_ask(metadata).len() && registry_fails(
            #[trigger] names_to_ask(metadata)[i],
            e,
        )
}

/// The making of a build's record succeeds without the registry: the name
/// has a stem, the manifest text is a TOML document, and no inferred crate
/// lacks an entry.
pub open spec fn prepares_unasked(metadata: ParsedMetadata, source_name: Seq<char>) -> bool {
    &&& stem_of(source_name) is Some
    &&& embedded_entries(metadata.embedded_manifest.deep_view()) is Some
    &&& names_to_ask(metadata).len() == 0
}

/// Makes the record of a script's build, ready for the stages: the record of
/// `BuildState::new` for the script named `source_name`, with the script's
/// manifest text and its merged manifest.
///
/// - Fails with `Command`, and the name, exactly where the script's name has
///   no stem; nothing is asked of the registry then.
/// - Else fails with `MalformedManifest` exactly where the manifest text is
///   no TOML document; nothing is asked then either.
/// - Else succeeds where no inferred crate lacks a declared entry.
/// - Else the registry is asked, and any failure is one of a query for a
///   crate that lacks an entry.
pub fn prepare_build<R: CommandRunner>(
    metadata: &ParsedMetadata,
    source_name: &str,
    build_root: &str,
    cargo_home: &str,
    runner: &R,
) -> (r: Result<BuildState, BuildRunError>)
    ensures
        stem_of(source_name@) is None ==> r is Err && r->Err_0@ == ErrorView::Command(
            source_name@,
        ),
        stem_of(source_name@) is Some && embedded_entries(
            metadata.embedded_manifest.deep_view(),
        ) is None ==> r is Err && r->Err_0@ == ErrorView::MalformedManifest(
            metadata.embedded_manifest->0@,
        ),
        stem_of(source_name@) is Some && embedded_entries(
            metadata.embedded_manifest.deep_view(),
        ) is Some && names_to_ask(*metadata).len() == 0 ==> r is Ok,
        r is Err ==> prepare_fails_with(*metadata, source_name@, r->Err_0@),
        r is Ok ==> is_prepared(r->Ok_0, *metadata, source_name@, build_root@, cargo_home@),
{
    let mut state = match BuildState::new(source_name, build_root, cargo_home) {
        Ok(state) => state,
        Err(e) => {
            return Err(e);
        },
    };
    state.rs_manifest = match &metadata.embedded_manifest {
        Some(text) => Some(text.clone()),
        None => None,
    };
    match merge_manifest(&mut state, metadata, runner) {
        Ok(m) => {
            proof {
                assert(state.cargo_manifest->0@ == m@);
                assert(state.cargo_manifest->0.wf()) by {
                    assert(table_of(state.cargo_manifest->0.dependencies@)
                        == state.cargo_manifest->0@.dependencies);
                }
            }
            Ok(state)
        },
        Err(e) => {
            proof {
                if embedded_entries(metadata.embedded_manifest.deep_view()) is Some {
                    let missing = missing_from(
                        with_entries(
                            Seq::empty(),
                            embedded_entries(metadata.embedded_manifest.deep_view())->0,
                        ),
                        strings(metadata.inferred_dependencies@),
                    );
                    let i = choose|i: int|
                        0 <= i < missing.len() && registry_fails(#[trigger] missing[i], e@);
                    assert(names_to_ask(*metadata)[i] == missing[i]);
                }
            }
            Err(e)
        },
    }
}

/// `state` is the record of the build of the script named `source_name` with
/// the analysis `metadata`: its paths are those of `BuildState::new`, it holds
/// the script's manifest text, and its manifest is the default one of the
/// build with a dependency table that
/// - is a merge of the declared entries, the inferred names and answers that
///   the registry can give,
/// - names no crate twice,
/// - requires of every declared crate what was declared, and
/// - has an entry for every inferred crate, under either spelling.
pub open spec fn is_prepared(
    state: BuildState,
    metadata: ParsedMetadata,
    source_name: Seq<char>,
    build_root: Seq<char>,
    cargo_home: Seq<char>,
) -> bool {
    let embedded = embedded_entries(metadata.embedded_manifest.deep_view());
    let inferred = strings(metadata.inferred_dependencies@);
    &&& stem_of(source_name) == Some(state.source_stem@)
    &&& state.source_name@ == source_name
    &&& state.target_dir_path@ == joined(build_root, state.source_stem@)
    &&& state.source_path@ == joined(state.target_dir_path@, SOURCE_FILE_NAME@)
    &&& state.cargo_toml_path@ == joined(state.target_dir_path@, MANIFEST_FILE_NAME@)
    &&& state.cargo_home@ == cargo_home
    &&& state.rs_manifest.deep_view() == metadata.embedded_manifest.deep_view()
    &&& embedded is Some
    &&& state.cargo_manifest is Some
    &&& state.cargo_manifest->0.wf()
    &&& state.cargo_manifest->0@ == (ManifestView {
        dependencies: state.cargo_manifest->0@.dependencies,
        ..bare_manifest(
            state.source_stem@,
            DEFAULT_VERSION@,
            DEFAULT_EDITION@,
            state.source_path@,
        )
    })
    &&& exists|answers: Answers|
        given_by_registry(answers) && #[trigger] merged_table(
            Seq::empty(),
            embedded->0,
            inferred,
            answers,
        ) == Ok::<Table, Seq<char>>(state.cargo_manifest->0@.dependencies)
    &&& forall|i: int|
        0 <= i < inferred.len() ==> present(
            state.cargo_manifest->0@.dependencies,
            #[trigger] inferred[i],
        )
    &&& forall|n: Seq<char>|
        has_key(embedded->0, n) ==> #[trigger] lookup(state.cargo_manifest->0@.dependencies, n)
            == lookup(embedded->0, n)
}

/// A copy of a dependency table.
pub fn copy_table(table: &Vec<Dependency>) -> (out: Vec<Dependency>)
    ensures
        table_of(out@) == table_of(table@),
{
    let mut out: Vec<Dependency> = Vec::new();
    let mut i: usize = 0;
    while i < table.len()
        invariant
            i <= table.len(),
            table_of(out@) == table_of(table@).take(i as int),
        decreases table.len() - i,
    {
        out.push(
            Dependency { name: table[i].name.clone(), requirement: table[i].requirement.clone() },
        );
        assert(table_of(out@) == table_of(table@).take(i as int).push(table_of(table@)[i as int]));
        i += 1;
    }
    assert(table_of(table@).take(table.len() as int) == table_of(table@));
    out
}

/// A name has an answer exactly where some position of the answers holds one
/// to it.
pub proof fn lemma_has_answer(answers: Answers, asked: Seq<char>)
    ensures
        answer_for(answers, asked) is Some <==> exists|i: int|
            0 <= i < answers.len() && (#[trigger] answers[i]).0 == asked,
    decreases answers.len(),
{
    if answers.len() > 0 {
        lemma_has_answer(answers.drop_first(), asked);
        if answers[0].0 != asked {
            let rest = answers.drop_first();
            if answer_for(answers, asked) is Some {
                let i = choose|i: int| 0 <= i < rest.len() && (#[trigger] rest[i]).0 == asked;
                assert(answers[i + 1].0 == asked);
            }
            if exists|i: int| 0 <= i < answers.len() && (#[trigger] answers[i]).0 == asked {
                let i = choose|i: int| 0 <= i < answers.len() && (#[trigger] answers[i]).0 == asked;
                assert(rest[i - 1].0 == asked);
            }
        }
    }
}

/// Where every inferred name has an entry already, the table stays as it is,
/// whatever the registry would answer.
pub proof fn lemma_nothing_missing(table: Table, inferred: Seq<Seq<char>>, answers: Answers)
    requires
        missing_from(table, inferred).len() == 0,
    ensures
        resolve_into(table, inferred, answers) == Ok::<Table, Seq<char>>(table),
    decreases inferred.len(),
{
    if inferred.len() > 0 {
        if !has_key(table, inferred.last()) {
            assert(missing_from(table, inferred).len() > 0);
        }
        lemma_nothing_missing(table, inferred.drop_last(), answers);
    }
}

/// A table built from entries alone requires of every name what the first
/// entry of that name says.
pub proof fn lemma_first_entry_wins(entries: Table, name: Seq<char>)
    ensures
        keys_unique(with_entries(Seq::empty(), entries)),
        lookup(with_entries(Seq::empty(), entries), name) == lookup(entries, name),
    decreases entries.len(),
{
    let empty: Table = Seq::empty();
    lemma_with_entries(empty, entries);
    if entries.len() > 0 {
        let front = entries.drop_last();
        let last = entries.last();
        let inner = with_entries(empty, front);
        lemma_first_entry_wins(front, name);
        lemma_first_entry_wins(front, last.0);
        lemma_with_entries(empty, front);
        assert(entries == front.push(last));
        lemma_lookup_push(front, last, name);
        if !has_key(inner, last.0) {
            lemma_lookup_push(inner, last, name);
        }
    }
}

/// The name under which an inferred name stands in a completed table: its own
/// where it had an entry, else the one that the registry gave.
pub open spec fn covered(table: Table, name: Seq<char>, answers: Answers) -> bool {
    has_key(table, name) || (answer_for(answers, name) is Some && has_key(
        table,
        given_name(answers, name),
    ))
}

/// Resolving keeps names unique and keeps what the table required; every
/// inferred name is covered afterwards, and every entry is one of the table
/// or stands under a name that the registry gave for an inferred name.
pub proof fn lemma_resolve_into(table: Table, inferred: Seq<Seq<char>>, answers: Answers)
    requires
        keys_unique(table),
        resolve_into(table, inferred, answers) is Ok,
    ensures
        keys_unique(resolve_into(table, inferred, answers)->Ok_0),
        forall|n: Seq<char>|
            has_key(table, n) ==> #[trigger] lookup(
                resolve_into(table, inferred, answers)->Ok_0,
                n,
            ) == lookup(table, n),
        forall|i: int|
            0 <= i < inferred.len() ==> covered(
                resolve_into(table, inferred, answers)->Ok_0,
                #[trigger] inferred[i],
                answers,
            ),
        forall|n: Seq<char>| #[trigger]
            has_key(resolve_into(table, inferred, answers)->Ok_0, n) ==> has_key(table, n)
                || exists|i: int|
                0 <= i < inferred.len() && #[trigger] answer_for(answers, inferred[i]) is Some
                    && given_name(answers, inferred[i]) == n,
    decreases inferred.len(),
{
    if inferred.len() > 0 {
        let front = inferred.drop_last();
        let name = inferred.last();
        let t = resolve_into(table, front, answers)->Ok_0;
        let out = resolve_into(table, inferred, answers)->Ok_0;
        lemma_resolve_into(table, front, answers);
        if !has_key(t, name) {
            let given = answer_for(answers, name)->0;
            assert(out == with_entry(t, given.0, quoted(given.1)));
            lemma_with_entry(t, given.0, quoted(given.1));
        }
        assert forall|n: Seq<char>| has_key(table, n) implies #[trigger] lookup(out, n) == lookup(
            table,
            n,
        ) by {
            assert(lookup(t, n) == lookup(table, n));
        }
        assert forall|i: int| 0 <= i < inferred.len() implies covered(
            out,
            #[trigger] inferred[i],
            answers,
        ) by {
            if i < inferred.len() - 1 {
                assert(front[i] == inferred[i]);
                assert(covered(t, front[i], answers));
                if has_key(t, inferred[i]) {
                    assert(lookup(out, inferred[i]) == lookup(t, inferred[i])) by {
                        if !has_key(t, name) {
                        }
                    }
                } else {
                    let g = given_name(answers, inferred[i]);
                    assert(has_key(t, g));
                    assert(lookup(out, g) == lookup(t, g)) by {
                        if !has_key(t, name) {
                        }
                    }
                }
            }
        }
        assert forall|n: Seq<char>| #[trigger] has_key(out, n) implies has_key(table, n)
            || exists|i: int|
            0 <= i < inferred.len() && #[trigger] answer_for(answers, inferred[i]) is Some
                && given_name(answers, inferred[i]) == n by {
            if has_key(t, n) {
                if !has_key(table, n) {
                    let k = choose|k: int|
                        0 <= k < front.len() && #[trigger] answer_for(answers, front[k]) is Some
                            && given_name(answers, front[k]) == n;
                    assert(inferred[k] == front[k]);
                }
            } else {
                assert(inferred[inferred.len() - 1] == name);
                assert(given_name(answers, inferred[inferred.len() - 1]) == n);
            }
        }
    }
}

/// Where there is an answer for every name that is missing, resolving
/// succeeds.
pub proof fn lemma_answers_suffice(table: Table, inferred: Seq<Seq<char>>, answers: Answers)
    requires
        keys_unique(table),
        forall|k: int|
            0 <= k < missing_from(table, inferred).len() ==> answer_for(
                answers,
                #[trigger] missing_from(table, inferred)[k],
            ) is Some,
    ensures
        resolve_into(table, inferred, answers) is Ok,
    decreases inferred.len(),
{
    if inferred.len() > 0 {
        let front = inferred.drop_last();
        let name = inferred.last();
        let all = missing_from(table, inferred);
        assert forall|k: int| 0 <= k < missing_from(table, front).len() implies answer_for(
            answers,
            #[trigger] missing_from(table, front)[k],
        ) is Some by {
            assert(all[k] == missing_from(table, front)[k]);
        }
        lemma_answers_suffice(table, front, answers);
        lemma_resolve_into(table, front, answers);
        let t = resolve_into(table, front, answers)->Ok_0;
        if !has_key(t, name) {
            assert(!has_key(table, name));
            assert(all[all.len() - 1] == name);
        }
    }
}

/// A script without manifest text and without imports has no dependencies.
pub proof fn lemma_no_dependencies(answers: Answers)
    ensures
        embedded_entries(None) == Some(Seq::<(Seq<char>, Seq<char>)>::empty()),
        merged_table(Seq::empty(), Seq::empty(), Seq::empty(), answers) == Ok::<
            Table,
            Seq<char>,
        >(Seq::empty()),
{
}

/// What a script's manifest text declares stands: where the text requires
/// `requirement` of the crate `name`, so does every merged manifest, whether
/// or not the crate is also inferred from the imports, and whatever the
/// registry answers.
pub proof fn lemma_embedded_wins(
    embedded: Table,
    inferred: Seq<Seq<char>>,
    answers: Answers,
    name: Seq<char>,
    requirement: Seq<char>,
)
    requires
        lookup(embedded, name) == Some(requirement),
        merged_table(Seq::empty(), embedded, inferred, answers) is Ok,
    ensures
        lookup(merged_table(Seq::empty(), embedded, inferred, answers)->Ok_0, name) == Some(
            requirement,
        ),
{
    lemma_first_entry_wins(embedded, name);
    lemma_resolve_into(with_entries(Seq::empty(), embedded), inferred, answers);
}

/// A merge drops nothing and doubles nothing: in the merged table no name
/// occurs twice, every declared crate has its entry, every inferred crate is
/// covered, under its own name or under the one that the registry gave for
/// it, and every entry stands for a declared crate or under a name that the
/// registry gave for an inferred one.
pub proof fn lemma_merge_complete(embedded: Table, inferred: Seq<Seq<char>>, answers: Answers)
    requires
        merged_table(Seq::empty(), embedded, inferred, answers) is Ok,
    ensures
        keys_unique(merged_table(Seq::empty(), embedded, inferred, answers)->Ok_0),
        forall|n: Seq<char>|
            has_key(embedded, n) ==> #[trigger] has_key(
                merged_table(Seq::empty(), embedded, inferred, answers)->Ok_0,
                n,
            ),
        forall|i: int|
            0 <= i < inferred.len() ==> covered(
                merged_table(Seq::empty(), embedded, inferred, answers)->Ok_0,
                #[trigger] inferred[i],
                answers,
            ),
        forall|n: Seq<char>| #[trigger]
            has_key(merged_table(Seq::empty(), embedded, inferred, answers)->Ok_0, n)
                ==> has_key(embedded, n) || exists|i: int|
                0 <= i < inferred.len() && #[trigger] answer_for(answers, inferred[i]) is Some
                    && given_name(answers, inferred[i]) == n,
{
    let start = with_entries(Seq::empty(), embedded);
    let out = merged_table(Seq::empty(), embedded, inferred, answers)->Ok_0;
    lemma_first_entry_wins(embedded, Seq::empty());
    lemma_resolve_into(start, inferred, answers);
    assert forall|n: Seq<char>| has_key(embedded, n) implies #[trigger] has_key(out, n) by {
        lemma_first_entry_wins(embedded, n);
    }
    assert forall|n: Seq<char>| #[trigger] has_key(out, n) implies has_key(embedded, n)
        || exists|i: int|
        0 <= i < inferred.len() && #[trigger] answer_for(answers, inferred[i]) is Some
            && given_name(answers, inferred[i]) == n by {
        lemma_first_entry_wins(embedded, n);
    }
}

/// An answer that is found for a name is one of the answers, and is an
/// answer to that name.
pub proof fn lemma_answer_is_member(answers: Answers, asked: Seq<char>)
    requires
        answer_for(answers, asked) is Some,
    ensures
        exists|j: int|
            0 <= j < answers.len() && #[trigger] answers[j] == (
                asked,
                given_name(answers, asked),
                (answer_for(answers, asked)->0).1,
            ),
    decreases answers.len(),
{
    if answers[0].0 == asked {
        assert(answers[0] == (
            asked,
            given_name(answers, asked),
            (answer_for(answers, asked)->0).1,
        ));
    } else {
        let rest = answers.drop_first();
        lemma_answer_is_member(rest, asked);
        let j = choose|j: int|
            0 <= j < rest.len() && #[trigger] rest[j] == (
                asked,
                given_name(rest, asked),
                (answer_for(rest, asked)->0).1,
            );
        assert(answers[j + 1] == rest[j]);
    }
}

/// With answers that the registry can give, every inferred crate has an
/// entry in the merged table, under its own name or under that name with
/// hyphens for its underscores.
pub proof fn lemma_inferred_present(embedded: Table, inferred: Seq<Seq<char>>, answers: Answers)
    requires
        given_by_registry(answers),
        merged_table(Seq::empty(), embedded, inferred, answers) is Ok,
    ensures
        forall|i: int|
            0 <= i < inferred.len() ==> present(
                merged_table(Seq::empty(), embedded, inferred, answers)->Ok_0,
                #[trigger] inferred[i],
            ),
{
    let out = merged_table(Seq::empty(), embedded, inferred, answers)->Ok_0;
    lemma_merge_complete(embedded, inferred, answers);
    assert forall|i: int| 0 <= i < inferred.len() implies present(
        out,
        #[trigger] inferred[i],
    ) by {
        let name = inferred[i];
        assert(covered(out, name, answers));
        if !has_key(out, name) {
            lemma_answer_is_member(answers, name);
            let j = choose|j: int|
                0 <= j < answers.len() && #[trigger] answers[j] == (
                    name,
                    given_name(answers, name),
                    (answer_for(answers, name)->0).1,
                );
            assert(registry_answers(answers[j].0, answers[j].1, answers[j].2));
            lemma_registry_names(name, given_name(answers, name), answers[j].2);
        }
    }
}

/// The name that the registry gives for a crate is the crate's name as it was
/// asked for, or that name with hyphens for its underscores.
pub proof fn lemma_registry_names(asked: Seq<char>, name: Seq<char>, version: Seq<char>)
    requires
        registry_answers(asked, name, version),
    ensures
        name == asked || name == hyphenated(asked),
{
}

} // verus!
