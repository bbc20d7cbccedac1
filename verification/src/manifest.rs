//! The build manifest: its parts, its dependency table, the default manifest
//! of a script, and the manifest as text.

use vstd::prelude::*;
use crate::errors::BuildRunError;
use crate::shared::BuildState;
use crate::text::{append_str, from_chars, same_chars, to_chars};

verus! {

/// What `cargo_toml` says against `text` as a manifest: `None` where it reads
/// `text` as a manifest, else its message.
pub uninterp spec fn manifest_parse_error(text: Seq<char>) -> Option<Seq<char>>;

/// Runs `cargo_toml::Manifest::from_str` on `text` and hands back the
/// error's message where there is one. The contract only gives that result
/// its name.
#[verifier::external_body]
pub(crate) fn check_manifest(text: &str) -> (problem: Option<String>)
    ensures
        problem.deep_view() == manifest_parse_error(text@),
{
    match cargo_toml::Manifest::from_str(text) {
        Ok(_) => None,
        Err(e) => Some(e.to_string()),
    }
}

/// What `toml` reads in `text` under the table `table`: `None` where `text` is
/// no TOML document; else the table's entries in the order in which `toml`
/// keeps them, each key with its value written as TOML; no entries where the
/// document has no table of that name.
pub uninterp spec fn toml_table_entries(text: Seq<char>, table: Seq<char>) -> Option<
    Seq<(Seq<char>, Seq<char>)>,
>;

/// Parses `text` as a `toml::Table`, looks `table` up in it with `Map::get`,
/// and copies out each entry that `Map::iter` yields, the value through its
/// `Display`. The values come from the parser, and `Display` accepts all that
/// the parser makes. The contract only gives the result its name.
#[verifier::external_body]
pub(crate) fn table_entries(text: &str, table: &str) -> (entries: Option<Vec<Dependency>>)
    ensures
        match entries {
            Some(list) => toml_table_entries(text@, table@) == Some(table_of(list@)),
            None => toml_table_entries(text@, table@) is None,
        },
{
    let doc = match text.parse::<toml::Table>() {
        Ok(doc) => doc,
        Err(_) => return None,
    };
    let mut entries = Vec::new();
    if let Some(toml::Value::Table(t)) = doc.get(table) {
        for (k, v) in t.iter() {
            entries.push(Dependency { name: k.clone(), requirement: v.to_string() });
        }
    }
    Some(entries)
}

/// One dependency: the crate's name and what is required of it, written as a
/// TOML value (`"1.0.203"`, or an inline table with a version and features).
pub struct Dependency {
    pub name: String,
    pub requirement: String,
}

/// The identity of the package built from a script.
pub struct Package {
    pub name: String,
    pub version: String,
    pub edition: String,
}

/// The one binary that the package builds: its name and its source file.
pub struct Product {
    pub name: String,
    pub path: String,
}

/// The build manifest of a script.
pub struct Manifest {
    pub package: Package,
    pub bin: Product,
    pub dependencies: Vec<Dependency>,
}

/// A dependency table: names with their requirements, in order.
pub type Table = Seq<(Seq<char>, Seq<char>)>;

/// A manifest as plain text values.
pub struct ManifestView {
    pub name: Seq<char>,
    pub version: Seq<char>,
    pub edition: Seq<char>,
    pub bin_name: Seq<char>,
    pub bin_path: Seq<char>,
    pub dependencies: Table,
}

/// The table that a list of dependencies stands for.
pub open spec fn table_of(deps: Seq<Dependency>) -> Table {
    Seq::new(deps.len(), |i: int| (deps[i].name@, deps[i].requirement@))
}

impl View for Manifest {
    type V = ManifestView;

    open spec fn view(&self) -> ManifestView {
        ManifestView {
            name: self.package.name@,
            version: self.package.version@,
            edition: self.package.edition@,
            bin_name: self.bin.name@,
            bin_path: self.bin.path@,
            dependencies: table_of(self.dependencies@),
        }
    }
}

/// What `table` requires of `name`: the requirement of the first entry of
/// that name.
pub open spec fn lookup(table: Table, name: Seq<char>) -> Option<Seq<char>>
    decreases table.len(),
{
    if table.len() == 0 {
        None
    } else if table[0].0 == name {
        Some(table[0].1)
    } else {
        lookup(table.drop_first(), name)
    }
}

/// Whether `table` has an entry for `name`.
pub open spec fn has_key(table: Table, name: Seq<char>) -> bool {
    lookup(table, name) is Some
}

/// No name has two entries in `table`.
pub open spec fn keys_unique(table: Table) -> bool {
    forall|i: int, j: int| 0 <= i < j < table.len() ==> table[i].0 != table[j].0
}

/// `table` with one more entry, unless it has one of that name already.
pub open spec fn with_entry(table: Table, name: Seq<char>, requirement: Seq<char>) -> Table {
    if has_key(table, name) {
        table
    } else {
        table.push((name, requirement))
    }
}

/// `table` with the entries of `more` added in order, each unless the table
/// has one of that name by then.
pub open spec fn with_entries(table: Table, more: Table) -> Table
    decreases more.len(),
{
    if more.len() == 0 {
        table
    } else {
        with_entry(with_entries(table, more.drop_last()), more.last().0, more.last().1)
    }
}

/// A lookup in a table with one more entry at its end finds what the table
/// held, else the new entry.
pub proof fn lemma_lookup_push(table: Table, entry: (Seq<char>, Seq<char>), name: Seq<char>)
    ensures
        lookup(table.push(entry), name) == (if lookup(table, name) is Some {
            lookup(table, name)
        } else if entry.0 == name {
            Some(entry.1)
        } else {
            None
        }),
    decreases table.len(),
{
    if table.len() == 0 {
        assert(table.push(entry).drop_first() == table);
    } else {
        assert(table.push(entry).drop_first() == table.drop_first().push(entry));
        lemma_lookup_push(table.drop_first(), entry, name);
    }
}

/// A name has an entry exactly where some position of the table holds it.
pub proof fn lemma_has_key(table: Table, name: Seq<char>)
    ensures
        has_key(table, name) <==> exists|i: int| 0 <= i < table.len() && #[trigger] table[i].0
            == name,
    decreases table.len(),
{
    if table.len() > 0 {
        lemma_has_key(table.drop_first(), name);
        if table[0].0 != name {
            if has_key(table, name) {
                let i = choose|i: int|
                    0 <= i < table.drop_first().len() && #[trigger] table.drop_first()[i].0
                        == name;
                assert(table[i + 1].0 == name);
            }
            if exists|i: int| 0 <= i < table.len() && #[trigger] table[i].0 == name {
                let i = choose|i: int| 0 <= i < table.len() && #[trigger] table[i].0 == name;
                assert(table.drop_first()[i - 1].0 == name);
            }
        }
    }
}

/// Adding an entry keeps names unique, keeps what the table required, and
/// gives the new name a requirement.
pub proof fn lemma_with_entry(table: Table, name: Seq<char>, requirement: Seq<char>)
    requires
        keys_unique(table),
    ensures
        keys_unique(with_entry(table, name, requirement)),
        has_key(with_entry(table, name, requirement), name),
        forall|n: Seq<char>|
            has_key(table, n) ==> #[trigger] lookup(with_entry(table, name, requirement), n)
                == lookup(table, n),
        forall|n: Seq<char>| #[trigger]
            has_key(with_entry(table, name, requirement), n) ==> has_key(table, n) || n == name,
        !has_key(table, name) ==> lookup(with_entry(table, name, requirement), name) == Some(
            requirement,
        ),
{
    let after = with_entry(table, name, requirement);
    if !has_key(table, name) {
        lemma_has_key(table, name);
        assert forall|n: Seq<char>| true implies #[trigger] lookup(after, n) == (if lookup(
            table,
            n,
        ) is Some {
            lookup(table, n)
        } else if name == n {
            Some(requirement)
        } else {
            None
        }) by {
            lemma_lookup_push(table, (name, requirement), n);
        }
        assert(lookup(after, name) == Some(requirement));
    }
}

/// Adding entries keeps names unique and keeps what the table required.
pub proof fn lemma_with_entries(table: Table, more: Table)
    requires
        keys_unique(table),
    ensures
        keys_unique(with_entries(table, more)),
        forall|n: Seq<char>|
            has_key(table, n) ==> #[trigger] lookup(with_entries(table, more), n) == lookup(
                table,
                n,
            ),
    decreases more.len(),
{
    if more.len() > 0 {
        let inner = with_entries(table, more.drop_last());
        lemma_with_entries(table, more.drop_last());
        lemma_with_entry(inner, more.last().0, more.last().1);
    }
}

/// What `table` requires of `name`, if anything.
pub fn requirement_of(table: &Vec<Dependency>, name: &str) -> (r: Option<usize>)
    ensures
        match r {
            Some(i) => i < table.len() && table[i as int].name@ == name@ && lookup(
                table_of(table@),
                name@,
            ) == Some(table[i as int].requirement@),
            None => !has_key(table_of(table@), name@),
        },
{
    let key = to_chars(name);
    let ghost t = table_of(table@);
    let mut i: usize = 0;
    assert(t.skip(0) == t);
    while i < table.len()
        invariant
            i <= table.len(),
            t == table_of(table@),
            key@ == name@,
            lookup(t, name@) == lookup(t.skip(i as int), name@),
        decreases table.len() - i,
    {
        let here = to_chars(table[i].name.as_str());
        if same_chars(&here, &key) {
            return Some(i);
        }
        assert(t.skip(i as int).drop_first() == t.skip(i + 1));
        i += 1;
    }
    None
}

/// Adds an entry for `name` to `table`, unless it has one already.
pub fn add_entry(table: &mut Vec<Dependency>, name: String, requirement: String)
    ensures
        table_of(final(table)@) == with_entry(table_of(old(table)@), name@, requirement@),
{
    match requirement_of(table, name.as_str()) {
        Some(_) => {},
        None => {
            table.push(Dependency { name, requirement });
            assert(table_of(table@) == table_of(old(table)@).push((name@, requirement@)));
        },
    }
}

/// Adds each entry of `more` to `table`, in order, unless the table has one of
/// that name by then.
pub fn add_entries(table: &mut Vec<Dependency>, more: &Vec<Dependency>)
    ensures
        table_of(final(table)@) == with_entries(table_of(old(table)@), table_of(more@)),
{
    let mut i: usize = 0;
    while i < more.len()
        invariant
            i <= more.len(),
            table_of(table@) == with_entries(
                table_of(old(table)@),
                table_of(more@).take(i as int),
            ),
        decreases more.len() - i,
    {
        proof {
            let p = table_of(more@);
            assert(p.take(i + 1).drop_last() == p.take(i as int));
            assert(p.take(i + 1).last() == (more@[i as int].name@, more@[i as int].requirement@));
        }
        add_entry(table, more[i].name.clone(), more[i].requirement.clone());
        i += 1;
    }
    assert(table_of(more@).take(more.len() as int) == table_of(more@));
}

/// The version of every generated package.
pub const DEFAULT_VERSION: &'static str = "0.0.1";

/// The edition of every generated package.
pub const DEFAULT_EDITION: &'static str = "2021";

/// The name of the manifest table that holds the dependencies.
pub const DEPENDENCIES_TABLE: &'static str = "dependencies";

/// What a manifest without dependencies is made from.
pub struct ManifestConfig {
    pub name: String,
    pub version: String,
    pub edition: String,
    pub binary_path: String,
}

/// The manifest of the package `name` with one binary of the same name, built
/// from the source file `binary_path`, and no dependencies.
pub open spec fn bare_manifest(
    name: Seq<char>,
    version: Seq<char>,
    edition: Seq<char>,
    binary_path: Seq<char>,
) -> ManifestView {
    ManifestView {
        name,
        version,
        edition,
        bin_name: name,
        bin_path: binary_path,
        dependencies: Seq::empty(),
    }
}

/// The manifest that `config` describes: no dependencies, one binary named as
/// the package.
pub fn build_manifest(config: ManifestConfig) -> (m: Manifest)
    ensures
        m.wf(),
        m@ == bare_manifest(
            config.name@,
            config.version@,
            config.edition@,
            config.binary_path@,
        ),
{
    let bin_name = config.name.clone();
    let m = Manifest {
        package: Package { name: config.name, version: config.version, edition: config.edition },
        bin: Product { name: bin_name, path: config.binary_path },
        dependencies: Vec::new(),
    };
    assert(table_of(m.dependencies@) =~= Seq::empty());
    m
}

/// The manifest that every script starts from: the package is named by the
/// script's stem, has the fixed version and edition, and builds one binary
/// from the generated source file.
pub fn default_manifest(build_state: &BuildState) -> (r: Result<Manifest, BuildRunError>)
    ensures
        r is Ok,
        r->Ok_0.wf(),
        r->Ok_0@ == bare_manifest(
            build_state.source_stem@,
            DEFAULT_VERSION@,
            DEFAULT_EDITION@,
            build_state.source_path@,
        ),
{
    Ok(
        build_manifest(
            ManifestConfig {
                name: build_state.source_stem.clone(),
                version: DEFAULT_VERSION.to_owned(),
                edition: DEFAULT_EDITION.to_owned(),
                binary_path: build_state.source_path.clone(),
            },
        ),
    )
}

/// `path` with every backslash doubled, as a TOML string needs it.
pub open spec fn escaped(path: Seq<char>) -> Seq<char>
    decreases path.len(),
{
    if path.len() == 0 {
        Seq::empty()
    } else if path.last() == '\\' {
        escaped(path.drop_last()) + seq!['\\', '\\']
    } else {
        escaped(path.drop_last()).push(path.last())
    }
}

/// `path` with every backslash doubled, so that the path of a Windows file can
/// stand between quotes in the manifest. Other paths hold no backslash and
/// stay as they are.
pub fn escape_path_for_windows(path: &str) -> (out: String)
    ensures
        out@ == escaped(path@),
{
    let p = to_chars(path);
    let mut out: Vec<char> = Vec::new();
    let mut i: usize = 0;
    while i < p.len()
        invariant
            i <= p.len(),
            out@ == escaped(p@.take(i as int)),
        decreases p.len() - i,
    {
        assert(p@.take(i + 1).drop_last() == p@.take(i as int));
        if p[i] == '\\' {
            out.push('\\');
            out.push('\\');
            assert(out@ == escaped(p@.take(i as int)) + seq!['\\', '\\']);
        } else {
            out.push(p[i]);
        }
        i += 1;
    }
    assert(p@.take(p.len() as int) == p@);
    from_chars(&out)
}

/// The lines of the dependency table: for each entry its name, ` = `, its
/// requirement, and a line feed.
pub open spec fn dependency_lines(table: Table) -> Seq<char>
    decreases table.len(),
{
    if table.len() == 0 {
        Seq::empty()
    } else {
        dependency_lines(table.drop_last()) + table.last().0 + " = "@ + table.last().1
            + seq!['\n']
    }
}

/// The text of a manifest: the package's identity, the dependency table in
/// the table's order, an empty workspace, and the binary with its path
/// escaped.
pub open spec fn rendered(m: ManifestView) -> Seq<char> {
    "[package]\nname = \""@ + m.name + "\"\nversion = \""@ + m.version + "\"\nedition = \""@
        + m.edition + "\"\n\n[dependencies]\n"@ + dependency_lines(m.dependencies)
        + "\n[workspace]\n\n[[bin]]\nname = \""@ + m.bin_name + "\"\npath = \""@ + escaped(
        m.bin_path,
    ) + "\"\n"@
}

impl Manifest {
    /// No dependency is named twice.
    pub open spec fn wf(&self) -> bool {
        keys_unique(table_of(self.dependencies@))
    }

    /// The text of the manifest, as it is written to the manifest file.
    pub fn render(&self) -> (out: String)
        ensures
            out@ == rendered(self@),
    {
        let mut out: Vec<char> = Vec::new();
        append_str(&mut out, "[package]\nname = \"");
        append_str(&mut out, self.package.name.as_str());
        append_str(&mut out, "\"\nversion = \"");
        append_str(&mut out, self.package.version.as_str());
        append_str(&mut out, "\"\nedition = \"");
        append_str(&mut out, self.package.edition.as_str());
        append_str(&mut out, "\"\n\n[dependencies]\n");
        let ghost head = out@;
        let ghost t = table_of(self.dependencies@);
        let mut i: usize = 0;
        assert(dependency_lines(t.take(0)) == Seq::<char>::empty());
        assert(out@ == head + Seq::<char>::empty());
        while i < self.dependencies.len()
            invariant
                i <= self.dependencies.len(),
                t == table_of(self.dependencies@),
                out@ == head + dependency_lines(t.take(i as int)),
            decreases self.dependencies.len() - i,
        {
            proof {
                assert(t.take(i + 1).drop_last() == t.take(i as int));
                assert(t.take(i + 1).last() == t[i as int]);
            }
            let d = &self.dependencies[i];
            append_str(&mut out, d.name.as_str());
            append_str(&mut out, " = ");
            append_str(&mut out, d.requirement.as_str());
            out.push('\n');
            assert(out@ == head + dependency_lines(t.take(i + 1)));
            i += 1;
        }
        assert(t.take(self.dependencies.len() as int) == t);
        append_str(&mut out, "\n[workspace]\n\n[[bin]]\nname = \"");
        append_str(&mut out, self.bin.name.as_str());
        append_str(&mut out, "\"\npath = \"");
        let path = escape_path_for_windows(self.bin.path.as_str());
        append_str(&mut out, path.as_str());
        append_str(&mut out, "\"\n");
        assert(out@ == rendered(self@));
        from_chars(&out)
    }

    /// What the manifest requires of the crate `name`, if it depends on it.
    pub fn dependency(&self, name: &str) -> (r: Option<&Dependency>)
        ensures
            match r {
                Some(d) => d.name@ == name@ && lookup(self@.dependencies, name@) == Some(
                    d.requirement@,
                ),
                None => !has_key(self@.dependencies, name@),
            },
    {
        match requirement_of(&self.dependencies, name) {
            Some(i) => Some(&self.dependencies[i]),
            None => None,
        }
    }

    /// Whether the manifest depends on the crate `name`.
    pub fn contains_key(&self, name: &str) -> (r: bool)
        ensures
            r == has_key(self@.dependencies, name@),
    {
        requirement_of(&self.dependencies, name).is_some()
    }
}

} // verus!
