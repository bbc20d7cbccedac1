//! The guide to a collection of scripts: what each script says about itself,
//! put together as one text.

use vstd::prelude::*;
use vstd::multiset::Multiset;
use vstd::seq_lib::*;
use crate::analyzer::ParsedMetadata;
use crate::text::{
    append_str, from_chars, lemma_less_irreflexive, lemma_less_total, lemma_less_transitive,
    order_texts, strings, text_less, to_chars, TextOrder,
};

verus! {

/// What the guide begins with.
pub const README_HEADER: &'static str = r#"## Running the scripts
### In its simplest form:

```
rs_script <path to script>
```
##### E.g.

    rs_script demo/hello.rs

### Full syntax:

```
rs_script [RS-SCRIPT OPTIONS] <path to script> [-- [SCRIPT OPTIONS] <script args>]
```

##### E.g.

    rs_script -t demo/clap_tut_builder_01.rs -- -ddd -c /dummy/dummy.rs test -l

    Completed generation in 0.143s
    Building clap_tut_builder_01.rs ...
        Compiling clap_tut_builder_01 v0.0.1 (/var/folders/rx/mng2ds0s6y53v12znz5jhpk80000gn/T/rs-script/clap_tut_builder_01)
        Finished `dev` profile [unoptimized + debuginfo] target(s) in 0.69s
    Completed build in 0.766s
    ----------------------------------------------------------------------
    Value for config: /dummy/dummy.rs
    Don't be crazy
    Printing testing lists...
    ----------------------------------------------------------------------
    Completed run in 1.182s
    rs-script completed processing script clap_tut_builder_01.rs in 2.130s

**Alternatively**, you can run:

    rs_script [OPTIONS] --edit|-d [-- [SCRIPT_OPTIONS] script_args]

then paste the script into the editor that appears, and press Ctrl-d to execute it. The source is available at the link in the entry for the script below..

##### E.g.

    rs_script -d -- 100

then paste the source of `demo/fib_classic_ibig.rs` or similar into the editor and press Ctrl-d to execute it.


This will compute and print F(100) in the Fibonacci sequence.

Since `rs-script` is parsing with `clap` you can have other options alongside or combined with the -d in any order, e.g.:

        rs_script --quiet -d -t -- 100

OR

        rs_script -qdt -- 100

... etc.


Remember to use `--` to separate options and arguments that are intended for `rs_script` from those intended for the target script.

***
## Detailed script listing


"#;

/// Where the scripts can be read.
pub const SCRIPT_LINK_BASE: &'static str =
    "https://github.com/durbanlegend/rs-script/blob/master/demo/";

/// What the guide says of one script.
pub struct ScriptMetadata {
    pub script: String,
    pub purpose: Option<String>,
    pub crates: Vec<String>,
    pub script_type: Option<String>,
    pub description: Option<String>,
}

/// What a script is called by kind: a program where it has an entry point,
/// else a snippet.
pub open spec fn kind_name(is_program: bool) -> Seq<char> {
    if is_program {
        "Program"@
    } else {
        "Snippet"@
    }
}

/// What the guide says of the script named `script`, given its analysis.
pub fn script_metadata(script: &str, parsed: &ParsedMetadata) -> (m: ScriptMetadata)
    ensures
        m.script@ == script@,
        m.purpose.deep_view() == parsed.purpose.deep_view(),
        m.description.deep_view() == parsed.description.deep_view(),
        strings(m.crates@) == strings(parsed.inferred_dependencies@),
        m.script_type.deep_view() == Some(kind_name(parsed.is_program)),
{
    let mut crates: Vec<String> = Vec::new();
    let mut i: usize = 0;
    while i < parsed.inferred_dependencies.len()
        invariant
            i <= parsed.inferred_dependencies.len(),
            strings(crates@) == strings(parsed.inferred_dependencies@).take(i as int),
        decreases parsed.inferred_dependencies.len() - i,
    {
        crates.push(parsed.inferred_dependencies[i].clone());
        assert(strings(crates@) == strings(parsed.inferred_dependencies@).take(i as int).push(
            parsed.inferred_dependencies@[i as int]@,
        ));
        i += 1;
    }
    assert(strings(parsed.inferred_dependencies@).take(
        parsed.inferred_dependencies.len() as int,
    ) == strings(parsed.inferred_dependencies@));
    ScriptMetadata {
        script: script.to_owned(),
        purpose: match &parsed.purpose {
            Some(p) => Some(p.clone()),
            None => None,
        },
        crates,
        script_type: Some(
            if parsed.is_program {
                "Program".to_owned()
            } else {
                "Snippet".to_owned()
            },
        ),
        description: match &parsed.description {
            Some(d) => Some(d.clone()),
            None => None,
        },
    }
}

/// The text of an optional value: nothing where there is none.
pub open spec fn text_or_empty(value: Option<String>) -> Seq<char> {
    match value {
        Some(s) => s@,
        None => Seq::empty(),
    }
}

/// The names of crates, each between backticks, joined by `, `.
pub open spec fn crate_list(crates: Seq<Seq<char>>) -> Seq<char>
    decreases crates.len(),
{
    if crates.len() == 0 {
        Seq::empty()
    } else if crates.len() == 1 {
        "`"@ + crates[0] + "`"@
    } else {
        crate_list(crates.drop_last()) + ", "@ + "`"@ + crates.last() + "`"@
    }
}

/// The entry of one script in the guide.
pub open spec fn entry_of(m: ScriptMetadata) -> Seq<char> {
    "### Script: "@ + m.script@ + "\n\n**Description:** "@ + text_or_empty(m.description)
        + "\n\n**Purpose:** "@ + text_or_empty(m.purpose) + "\n\n**Crates:** "@ + crate_list(
        strings(m.crates@),
    ) + "\n\n**Type:** "@ + text_or_empty(m.script_type) + "\n\n**Link:** ["@ + m.script@ + "]("@
        + SCRIPT_LINK_BASE@ + m.script@ + ")\n\n---\n\n"@
}

/// The entries of scripts, one after the other.
pub open spec fn entries_of(list: Seq<ScriptMetadata>) -> Seq<char>
    decreases list.len(),
{
    if list.len() == 0 {
        Seq::empty()
    } else {
        entries_of(list.drop_last()) + entry_of(list.last())
    }
}

/// Appends the names of crates, each between backticks, joined by `, `.
fn append_crate_list(out: &mut Vec<char>, crates: &Vec<String>)
    ensures
        final(out)@ == old(out)@ + crate_list(strings(crates@)),
{
    let ghost before = out@;
    let mut i: usize = 0;
    assert(out@ =~= before + crate_list(strings(crates@).take(0)));
    while i < crates.len()
        invariant
            i <= crates.len(),
            out@ == before + crate_list(strings(crates@).take(i as int)),
        decreases crates.len() - i,
    {
        proof {
            let c = strings(crates@);
            assert(c.take(i + 1).drop_last() == c.take(i as int));
            assert(c.take(i + 1).last() == crates@[i as int]@);
            assert(c.take(i + 1)[0] == c[0]);
            assert(i == 0 ==> c.take(i as int).len() == 0);
        }
        if i > 0 {
            append_str(out, ", ");
        }
        append_str(out, "`");
        append_str(out, crates[i].as_str());
        append_str(out, "`");
        assert(out@ =~= before + crate_list(strings(crates@).take(i + 1)));
        i += 1;
    }
    assert(strings(crates@).take(crates.len() as int) == strings(crates@));
}

/// Appends the text of an optional value.
fn append_or_empty(out: &mut Vec<char>, value: &Option<String>)
    ensures
        final(out)@ == old(out)@ + text_or_empty(*value),
{
    match value {
        Some(s) => append_str(out, s.as_str()),
        None => {
            assert(out@ =~= old(out)@ + Seq::<char>::empty());
        },
    }
}

/// The entry of one script in the guide.
pub fn readme_entry(m: &ScriptMetadata) -> (out: Vec<char>)
    ensures
        out@ == entry_of(*m),
{
    let mut out = to_chars("### Script: ");
    append_str(&mut out, m.script.as_str());
    append_str(&mut out, "\n\n**Description:** ");
    append_or_empty(&mut out, &m.description);
    append_str(&mut out, "\n\n**Purpose:** ");
    append_or_empty(&mut out, &m.purpose);
    append_str(&mut out, "\n\n**Crates:** ");
    append_crate_list(&mut out, &m.crates);
    append_str(&mut out, "\n\n**Type:** ");
    append_or_empty(&mut out, &m.script_type);
    append_str(&mut out, "\n\n**Link:** [");
    append_str(&mut out, m.script.as_str());
    append_str(&mut out, "](");
    append_str(&mut out, SCRIPT_LINK_BASE);
    append_str(&mut out, m.script.as_str());
    append_str(&mut out, ")\n\n---\n\n");
    assert(out@ =~= entry_of(*m));
    out
}

/// The text of the guide: the header, then the entry of every script in the
/// order given.
pub fn generate_readme(metadata_list: &Vec<ScriptMetadata>) -> (out: String)
    ensures
        out@ == README_HEADER@ + entries_of(metadata_list@),
{
    let mut out = to_chars(README_HEADER);
    let mut i: usize = 0;
    assert(out@ =~= README_HEADER@ + entries_of(metadata_list@.take(0)));
    while i < metadata_list.len()
        invariant
            i <= metadata_list.len(),
            out@ == README_HEADER@ + entries_of(metadata_list@.take(i as int)),
        decreases metadata_list.len() - i,
    {
        proof {
            assert(metadata_list@.take(i + 1).drop_last() == metadata_list@.take(i as int));
            assert(metadata_list@.take(i + 1).last() == metadata_list@[i as int]);
        }
        let entry = readme_entry(&metadata_list[i]);
        crate::text::append(&mut out, &entry);
        assert(out@ =~= README_HEADER@ + entries_of(metadata_list@.take(i + 1)));
        i += 1;
    }
    assert(metadata_list@.take(metadata_list.len() as int) == metadata_list@);
    from_chars(&out)
}

/// The scripts stand in the dictionary order of their names: none stands
/// before one whose name comes strictly before its own.
pub open spec fn sorted_by_script(list: Seq<ScriptMetadata>) -> bool {
    forall|i: int, j: int|
        0 <= i < j < list.len() ==> !text_less(
            #[trigger] list[j].script@,
            #[trigger] list[i].script@,
        )
}

/// The scripts of `list` that are named `name`, in the order in which they
/// stand.
pub open spec fn with_name(list: Seq<ScriptMetadata>, name: Seq<char>) -> Seq<ScriptMetadata>
    decreases list.len(),
{
    if list.len() == 0 {
        Seq::empty()
    } else if list[0].script@ == name {
        seq![list[0]] + with_name(list.drop_first(), name)
    } else {
        with_name(list.drop_first(), name)
    }
}

/// The scripts of a name in two lists put together are those of the first
/// list, then those of the second.
pub proof fn lemma_with_name_concat(
    a: Seq<ScriptMetadata>,
    b: Seq<ScriptMetadata>,
    name: Seq<char>,
)
    ensures
        with_name(a + b, name) == with_name(a, name) + with_name(b, name),
    decreases a.len(),
{
    if a.len() == 0 {
        assert(a + b == b);
        assert(with_name(a, name) + with_name(b, name) == with_name(b, name));
    } else {
        assert((a + b).drop_first() == a.drop_first() + b);
        lemma_with_name_concat(a.drop_first(), b, name);
        assert(with_name(a + b, name) == with_name(a, name) + with_name(b, name));
    }
}

/// A list in which no script has the name holds no script of the name.
pub proof fn lemma_with_name_none(a: Seq<ScriptMetadata>, name: Seq<char>)
    requires
        forall|i: int| 0 <= i < a.len() ==> (#[trigger] a[i]).script@ != name,
    ensures
        with_name(a, name) == Seq::<ScriptMetadata>::empty(),
    decreases a.len(),
{
    if a.len() > 0 {
        assert(a[0].script@ != name);
        assert forall|i: int| 0 <= i < a.drop_first().len() implies (#[trigger] a.drop_first()[
            i
        ]).script@ != name by {
            assert(a.drop_first()[i] == a[i + 1]);
        }
        lemma_with_name_none(a.drop_first(), name);
    }
}

/// Puts `m` into the sorted list at its place by name, before the scripts of
/// the same name.
pub fn insert_by_script(list: &mut Vec<ScriptMetadata>, m: ScriptMetadata)
    requires
        sorted_by_script(old(list)@),
    ensures
        sorted_by_script(final(list)@),
        final(list)@.to_multiset() == old(list)@.to_multiset().insert(m),
        forall|name: Seq<char>| #[trigger]
            with_name(final(list)@, name) == (if m.script@ == name {
                seq![m] + with_name(old(list)@, name)
            } else {
                with_name(old(list)@, name)
            }),
{
    let name = to_chars(m.script.as_str());
    let ghost before = list@;
    let mut p: usize = 0;
    let mut placed = false;
    while p < list.len() && !placed
        invariant
            p <= list.len(),
            list@ == before,
            name@ == m.script@,
            sorted_by_script(before),
            forall|i: int| 0 <= i < p ==> text_less(#[trigger] before[i].script@, name@),
            placed ==> p < list.len() && !text_less(before[p as int].script@, name@),
        decreases list.len() - p, (if placed { 0int } else { 1int }),
    {
        let here = to_chars(list[p].script.as_str());
        match order_texts(&here, &name) {
            TextOrder::Before => {
                p += 1;
            },
            _ => {
                placed = true;
            },
        }
    }
    proof {
        assert forall|i: int| 0 <= i < p implies !text_less(
            name@,
            #[trigger] before[i].script@,
        ) by {
            if text_less(name@, before[i].script@) {
                lemma_less_transitive(name@, before[i].script@, name@, 0);
                lemma_less_irreflexive(name@, 0);
            }
        }
        assert forall|j: int| p <= j < before.len() implies !text_less(
            #[trigger] before[j].script@,
            name@,
        ) by {
            let a = before[p as int].script@;
            let b = before[j].script@;
            if j > p && text_less(b, name@) {
                assert(!text_less(b, a));
                assert(a.take(0) == name@.take(0));
                lemma_less_total(a, name@, 0);
                if a != name@ {
                    lemma_less_transitive(b, name@, a, 0);
                }
            }
        }
        to_multiset_insert(before, p as int, m);
    }
    list.insert(p, m);
    proof {
        let after = list@;
        assert(after == before.insert(p as int, m));
        assert forall|i: int, j: int| 0 <= i < j < after.len() implies !text_less(
            #[trigger] after[j].script@,
            #[trigger] after[i].script@,
        ) by {
            if j < p {
                assert(after[i] == before[i] && after[j] == before[j]);
            } else if j == p {
                assert(after[i] == before[i]);
            } else if i < p {
                assert(after[i] == before[i] && after[j] == before[j - 1]);
            } else if i == p {
                assert(after[j] == before[j - 1]);
            } else {
                assert(after[i] == before[i - 1] && after[j] == before[j - 1]);
            }
        }
        let front = before.take(p as int);
        let back = before.skip(p as int);
        assert(before == front + back);
        assert(after == front + seq![m] + back);
        assert forall|n: Seq<char>| #[trigger] with_name(after, n) == (if m.script@ == n {
            seq![m] + with_name(before, n)
        } else {
            with_name(before, n)
        }) by {
            lemma_with_name_concat(front, back, n);
            lemma_with_name_concat(front + seq![m], back, n);
            lemma_with_name_concat(front, seq![m], n);
            assert(seq![m].drop_first() == Seq::<ScriptMetadata>::empty());
            assert(with_name(seq![m].drop_first(), n) == Seq::<ScriptMetadata>::empty());
            if m.script@ == n {
                assert forall|i: int| 0 <= i < front.len() implies (#[trigger] front[
                    i
                ]).script@ != n by {
                    assert(front[i] == before[i]);
                    assert(text_less(before[i].script@, name@));
                    lemma_less_irreflexive(n, 0);
                }
                lemma_with_name_none(front, n);
                assert(with_name(seq![m], n) == seq![m]);
                assert(with_name(after, n) == seq![m] + with_name(back, n));
                assert(with_name(before, n) == with_name(back, n));
            } else {
                assert(with_name(seq![m], n) == Seq::<ScriptMetadata>::empty());
                assert(with_name(front, n) + Seq::<ScriptMetadata>::empty() == with_name(
                    front,
                    n,
                ));
            }
        }
    }
}

/// The scripts in the dictionary order of their names; scripts of one name
/// keep the order in which they came.
pub fn collect_all_metadata(scripts: Vec<ScriptMetadata>) -> (sorted: Vec<ScriptMetadata>)
    ensures
        sorted_by_script(sorted@),
        sorted@.to_multiset() == scripts@.to_multiset(),
        forall|name: Seq<char>| #[trigger]
            with_name(sorted@, name) == with_name(scripts@, name),
{
    let ghost all = scripts@;
    let mut rest = scripts;
    let mut sorted: Vec<ScriptMetadata> = Vec::new();
    proof {
        assert(all =~= rest@ + Seq::<ScriptMetadata>::empty());
        broadcast use group_to_multiset_ensures;
        assert(sorted@.to_multiset() =~= Multiset::<ScriptMetadata>::empty());
        assert(all.skip(all.len() as int) == Seq::<ScriptMetadata>::empty());
    }
    while rest.len() > 0
        invariant
            sorted_by_script(sorted@),
            rest@ == all.take(rest.len() as int),
            rest.len() <= all.len(),
            sorted@.to_multiset().add(rest@.to_multiset()) == all.to_multiset(),
            forall|name: Seq<char>| #[trigger]
                with_name(sorted@, name) == with_name(all.skip(rest.len() as int), name),
        decreases rest.len(),
    {
        let ghost r0 = rest@;
        let ghost s0 = sorted@;
        let m = rest.pop().unwrap();
        proof {
            broadcast use group_to_multiset_ensures;
            assert(r0 == rest@.push(m));
            assert(r0.to_multiset() =~= rest@.to_multiset().insert(m));
            assert(m == all[rest.len() as int]);
            assert(rest@ == all.take(rest.len() as int));
        }
        insert_by_script(&mut sorted, m);
        proof {
            assert(sorted@.to_multiset().add(rest@.to_multiset()) =~= s0.to_multiset().add(
                r0.to_multiset(),
            ));
            let tail = all.skip(rest.len() as int);
            assert(tail.drop_first() == all.skip(rest.len() + 1));
            assert(tail[0] == m);
            assert forall|name: Seq<char>| #[trigger] with_name(sorted@, name) == with_name(
                tail,
                name,
            ) by {
                assert(with_name(s0, name) == with_name(all.skip(rest.len() + 1), name));
            }
        }
    }
    proof {
        broadcast use group_to_multiset_ensures;
        assert(rest@.to_multiset() =~= Multiset::<ScriptMetadata>::empty());
        assert(sorted@.to_multiset() =~= sorted@.to_multiset().add(rest@.to_multiset()));
        assert(all.skip(0) == all);
    }
    sorted
}

} // verus!
