//! What the stages of the pipeline share: the record of one script's build,
//! and the outcome of a command.

use vstd::prelude::*;
use crate::errors::{BuildRunError, ErrorView};
use crate::manifest::Manifest;
use crate::text::{append_str, from_chars, matches_at, occurs_at, slice, to_chars};

verus! {

/// The name of the generated source file inside the build directory.
pub const SOURCE_FILE_NAME: &'static str = "tmp_source.rs";

/// The name of the generated manifest inside the build directory.
pub const MANIFEST_FILE_NAME: &'static str = "Cargo.toml";

/// The suffix of a script's file name.
pub const RS_SUFFIX: &'static str = ".rs";

/// Where the toolchain puts what it builds, below the build directory.
pub const ARTIFACT_DIR: &'static str = "target/debug";

/// How a command ended: whether it succeeded, and what it wrote.
pub struct CommandOutput {
    pub success: bool,
    pub stdout: String,
    pub stderr: String,
}

/// The record of one script's build: the script's names, where its build
/// directory and the files in it are, and the manifests once they are known.
pub struct BuildState {
    /// The script's file name without its suffix.
    pub source_stem: String,
    /// The script's file name.
    pub source_name: String,
    /// The generated source file.
    pub source_path: String,
    /// The build directory.
    pub target_dir_path: String,
    /// The generated manifest file.
    pub cargo_toml_path: String,
    /// The directory of the toolchain's own files.
    pub cargo_home: String,
    /// The manifest text that the script carries, if any.
    pub rs_manifest: Option<String>,
    /// The merged manifest, once it is made.
    pub cargo_manifest: Option<Manifest>,
}

impl Default for BuildState {
    fn default() -> (state: BuildState)
        ensures
            state.source_stem@.len() == 0,
            state.source_name@.len() == 0,
            state.source_path@.len() == 0,
            state.target_dir_path@.len() == 0,
            state.cargo_toml_path@.len() == 0,
            state.cargo_home@.len() == 0,
            state.rs_manifest is None,
            state.cargo_manifest is None,
    {
        BuildState {
            source_stem: String::new(),
            source_name: String::new(),
            source_path: String::new(),
            target_dir_path: String::new(),
            cargo_toml_path: String::new(),
            cargo_home: String::new(),
            rs_manifest: None,
            cargo_manifest: None,
        }
    }
}

/// `dir` and `name` joined into one path.
pub open spec fn joined(dir: Seq<char>, name: Seq<char>) -> Seq<char> {
    dir + seq!['/'] + name
}

/// `dir` and `name` joined into one path.
pub fn join_path(dir: &str, name: &str) -> (path: String)
    ensures
        path@ == joined(dir@, name@),
{
    let mut out = to_chars(dir);
    out.push('/');
    append_str(&mut out, name);
    from_chars(&out)
}

/// `s` ends with `pat`.
pub open spec fn ends_with(s: Seq<char>, pat: Seq<char>) -> bool {
    matches_at(s, pat, s.len() - pat.len())
}

/// The stem of a script's file name: the name without the suffix `.rs`.
/// A name that does not end in `.rs`, or is nothing but the suffix, has none.
pub open spec fn stem_of(source_name: Seq<char>) -> Option<Seq<char>> {
    if ends_with(source_name, RS_SUFFIX@) && source_name.len() > RS_SUFFIX@.len() {
        Some(source_name.take(source_name.len() - RS_SUFFIX@.len()))
    } else {
        None
    }
}

/// The stem of a script's file name.
pub fn script_stem(source_name: &str) -> (stem: Option<String>)
    ensures
        stem.deep_view() == stem_of(source_name@),
{
    let name = to_chars(source_name);
    let suffix = to_chars(RS_SUFFIX);
    if name.len() > suffix.len() && occurs_at(&name, &suffix, name.len() - suffix.len()) {
        let n: usize = name.len() - suffix.len();
        assert(name@.take(n as int) == name@.subrange(0, n as int));
        Some(from_chars(&slice(&name, 0, n)))
    } else {
        None
    }
}

/// The compiled program of the script `stem` below the build directory.
pub open spec fn artifact_of(build_dir: Seq<char>, stem: Seq<char>) -> Seq<char> {
    joined(joined(build_dir, ARTIFACT_DIR@), stem)
}

impl BuildState {
    /// The record for the script named `source_name`, to be built in a
    /// directory of its own below `build_root`: the directory is named by the
    /// script's stem, and holds the generated source and manifest under their
    /// fixed names.
    ///
    /// Fails exactly where `source_name` has no stem.
    pub fn new(source_name: &str, build_root: &str, cargo_home: &str) -> (r: Result<
        BuildState,
        BuildRunError,
    >)
        ensures
            match r {
                Ok(state) => {
                    &&& stem_of(source_name@) == Some(state.source_stem@)
                    &&& state.source_name@ == source_name@
                    &&& state.target_dir_path@ == joined(build_root@, state.source_stem@)
                    &&& state.source_path@ == joined(state.target_dir_path@, SOURCE_FILE_NAME@)
                    &&& state.cargo_toml_path@ == joined(
                        state.target_dir_path@,
                        MANIFEST_FILE_NAME@,
                    )
                    &&& state.cargo_home@ == cargo_home@
                    &&& state.rs_manifest is None
                    &&& state.cargo_manifest is None
                },
                Err(e) => stem_of(source_name@) is None && e@ == ErrorView::Command(
                    source_name@,
                ),
            },
    {
        match script_stem(source_name) {
            Some(stem) => {
                let target_dir_path = join_path(build_root, stem.as_str());
                let source_path = join_path(target_dir_path.as_str(), SOURCE_FILE_NAME);
                let cargo_toml_path = join_path(target_dir_path.as_str(), MANIFEST_FILE_NAME);
                Ok(
                    BuildState {
                        source_stem: stem,
                        source_name: source_name.to_owned(),
                        source_path,
                        target_dir_path,
                        cargo_toml_path,
                        cargo_home: cargo_home.to_owned(),
                        rs_manifest: None,
                        cargo_manifest: None,
                    },
                )
            },
            None => Err(BuildRunError::Command(source_name.to_owned())),
        }
    }

    /// Where the toolchain puts the compiled program.
    pub fn artifact_path(&self) -> (path: String)
        ensures
            path@ == artifact_of(self.target_dir_path@, self.source_stem@),
    {
        let dir = join_path(self.target_dir_path.as_str(), ARTIFACT_DIR);
        join_path(dir.as_str(), self.source_stem.as_str())
    }
}

} // verus!
