use rs_script::analyzer::{parse_metadata, ParsedMetadata};
use rs_script::errors::BuildRunError;
use rs_script::manifest::{
    build_manifest, default_manifest, escape_path_for_windows, Dependency, ManifestConfig,
};
use rs_script::merge::{
    embedded_dependencies, merge_manifest, merge_resolved, missing_dependencies, prepare_build,
    Resolution,
};
use rs_script::registry::{
    capture_dep, cargo_search, interpret_search, search_args, CommandRunner,
};
use rs_script::shared::CommandOutput;
use rs_script::BuildState;
use std::cell::RefCell;

/// Answers every query with the same output and records what it was asked.
struct FixedRunner {
    output: Result<(bool, String, String), String>,
    calls: RefCell<Vec<(String, Vec<String>)>>,
}

impl FixedRunner {
    fn answering(stdout: &str) -> Self {
        FixedRunner {
            output: Ok((true, stdout.to_string(), String::new())),
            calls: RefCell::new(Vec::new()),
        }
    }

    fn failing(stderr: &str) -> Self {
        FixedRunner {
            output: Ok((false, String::new(), stderr.to_string())),
            calls: RefCell::new(Vec::new()),
        }
    }
}

impl CommandRunner for FixedRunner {
    fn run_command(&self, program: &str, args: &Vec<String>) -> Result<CommandOutput, String> {
        self.calls.borrow_mut().push((program.to_string(), args.clone()));
        match &self.output {
            Ok((success, stdout, stderr)) => Ok(CommandOutput {
                success: *success,
                stdout: stdout.clone(),
                stderr: stderr.clone(),
            }),
            Err(reason) => Err(reason.clone()),
        }
    }
}

/// Answers a query for a crate with a version made for the test.
struct EchoRunner;

impl CommandRunner for EchoRunner {
    fn run_command(&self, _program: &str, args: &Vec<String>) -> Result<CommandOutput, String> {
        Ok(CommandOutput {
            success: true,
            stdout: format!("{} = \"9.8.7\"    # made for the test\n", args[1]),
            stderr: String::new(),
        })
    }
}

fn example_state() -> BuildState {
    BuildState {
        source_stem: "example".to_string(),
        source_name: "example.rs".to_string(),
        target_dir_path: "/tmp".to_string(),
        cargo_manifest: None,
        rs_manifest: None,
        ..Default::default()
    }
}

fn metadata(embedded: Option<&str>, inferred: &[&str]) -> ParsedMetadata {
    ParsedMetadata {
        purpose: None,
        description: None,
        embedded_manifest: embedded.map(|s| s.to_string()),
        inferred_dependencies: inferred.iter().map(|s| s.to_string()).collect(),
        is_program: true,
        extra_manifest_blocks: false,
    }
}

fn dep(name: &str, requirement: &str) -> Dependency {
    Dependency { name: name.to_string(), requirement: requirement.to_string() }
}

fn answer(asked: &str, name: &str, version: &str) -> Resolution {
    Resolution { asked: asked.to_string(), name: name.to_string(), version: version.to_string() }
}

fn table(deps: &[Dependency]) -> Vec<(String, String)> {
    deps.iter().map(|d| (d.name.clone(), d.requirement.clone())).collect()
}

#[test]
fn test_cargo_search_success() {
    let runner = FixedRunner::answering("serde = \"1.0.203\"");
    let args: Vec<String> = vec![
        "search".to_string(),
        "serde".to_string(),
        "--limit".to_string(),
        "1".to_string(),
    ];

    let result = cargo_search(&runner, "serde");
    assert!(result.is_ok());
    let (name, version) = result.unwrap();
    assert_eq!(name, "serde");
    assert_eq!(version, "1.0.203");
    assert_eq!(*runner.calls.borrow(), vec![("cargo".to_string(), args)]);
}

#[test]
fn test_capture_dep_valid() {
    let line = r#"serde = "1.0.104""#;
    let result = capture_dep(line);
    assert!(result.is_ok());
    let (name, version) = result.unwrap();
    assert_eq!(name, "serde");
    assert_eq!(version, "1.0.104");
}

#[test]
fn test_capture_dep_invalid() {
    let line = r#"invalid format"#;
    let result = capture_dep(line);
    assert!(result.is_err());
}

#[test]
fn test_default_manifest() {
    let build_state = BuildState {
        source_stem: "example".to_string(),
        source_name: "example.rs".to_string(),
        target_dir_path: "/tmp".to_string(),
        cargo_manifest: None,
        rs_manifest: None,
        ..Default::default()
    };

    let manifest = default_manifest(&build_state).unwrap();
    assert_eq!(manifest.package.name, "example");
    assert_eq!(manifest.package.version, "0.0.1");
    assert_eq!(manifest.package.edition, "2021");
}

#[test]
fn test_escape_path_for_windows() {
    let path = r"C:\path\to\file";
    let escaped_path = escape_path_for_windows(path);
    assert_eq!(escaped_path, r"C:\\path\\to\\file");

    let path = "/path/to/file";
    let escaped_path = escape_path_for_windows(path);
    assert_eq!(escaped_path, path);
}

#[test]
fn test_merge_manifest() {
    let mut build_state = example_state();

    let rs_source = r#"
        #[macro_use]
        extern crate serde_derive;
        "#;

    let syntax_tree = None;
    let parsed = parse_metadata(rs_source, syntax_tree).unwrap();

    let manifest = merge_manifest(&mut build_state, &parsed, &EchoRunner).unwrap();
    println!("manifest.dependencies={:#?}", table(&manifest.dependencies));
    assert!(!manifest.dependencies.is_empty());
    assert!(manifest.contains_key("serde_derive"));
}

#[test]
fn capture_dep_reads_the_start_of_a_search_line() {
    let (name, version) =
        capture_dep("serde_json = \"1.0.120\"    # A JSON serialization file format").unwrap();
    assert_eq!(name, "serde_json");
    assert_eq!(version, "1.0.120");
}

#[test]
fn capture_dep_wants_three_numbers() {
    match capture_dep("serde = \"1.0\"") {
        Err(BuildRunError::RegistryResponseError(line)) => assert_eq!(line, "serde = \"1.0\""),
        other => panic!("unexpected: {:?}", other.map_err(|e| e.to_string())),
    }
}

#[test]
fn search_arguments_limit_the_answer_to_one() {
    assert_eq!(search_args("nu-ansi-term"), vec!["search", "nu-ansi-term", "--limit", "1"]);
}

#[test]
fn a_search_that_fails_is_a_registry_error() {
    let runner = FixedRunner::failing("error: no network");
    match cargo_search(&runner, "serde") {
        Err(BuildRunError::RegistryResponseError(text)) => assert_eq!(text, "error: no network"),
        other => panic!("unexpected: {:?}", other.map_err(|e| e.to_string())),
    }
}

#[test]
fn a_search_that_cannot_run_is_a_registry_error() {
    let outcome: Result<CommandOutput, String> = Err("cargo: not found".to_string());
    match interpret_search("serde", &outcome) {
        Err(BuildRunError::RegistryResponseError(text)) => assert_eq!(text, "cargo: not found"),
        other => panic!("unexpected: {:?}", other.map_err(|e| e.to_string())),
    }
}

#[test]
fn an_empty_answer_means_not_found() {
    let runner = FixedRunner::answering("");
    match cargo_search(&runner, "no_such_crate") {
        Err(BuildRunError::DependencyNotFound(name)) => assert_eq!(name, "no_such_crate"),
        other => panic!("unexpected: {:?}", other.map_err(|e| e.to_string())),
    }
}

#[test]
fn another_crate_in_the_answer_means_not_found() {
    let runner = FixedRunner::answering("serde_json = \"1.0.120\"\n");
    match cargo_search(&runner, "serde_jso") {
        Err(BuildRunError::DependencyNotFound(name)) => assert_eq!(name, "serde_jso"),
        other => panic!("unexpected: {:?}", other.map_err(|e| e.to_string())),
    }
}

#[test]
fn an_unreadable_answer_is_a_registry_error() {
    let runner = FixedRunner::answering("warning: something else\nserde = \"1.0.203\"\n");
    match cargo_search(&runner, "serde") {
        Err(BuildRunError::RegistryResponseError(line)) => {
            assert_eq!(line, "warning: something else")
        }
        other => panic!("unexpected: {:?}", other.map_err(|e| e.to_string())),
    }
}

#[test]
fn the_hyphenated_spelling_is_the_same_crate() {
    let runner = FixedRunner::answering("nu-ansi-term = \"0.50.1\"\n");
    let (name, version) = cargo_search(&runner, "nu_ansi_term").unwrap();
    assert_eq!(name, "nu-ansi-term");
    assert_eq!(version, "0.50.1");
}

#[test]
fn no_manifest_and_no_imports_give_no_dependencies() {
    let mut build_state = example_state();
    let runner = FixedRunner::answering("never asked");
    let manifest = merge_manifest(&mut build_state, &metadata(None, &[]), &runner).unwrap();
    assert!(manifest.dependencies.is_empty());
    assert!(runner.calls.borrow().is_empty());
    assert!(build_state.cargo_manifest.is_some());
}

#[test]
fn embedded_requirement_wins_over_inference() {
    let mut build_state = example_state();
    let runner = FixedRunner::answering("serde = \"9.9.9\"\n");
    let parsed = metadata(Some("[dependencies]\nserde = \"1.0.203\"\n"), &["serde"]);
    let manifest = merge_manifest(&mut build_state, &parsed, &runner).unwrap();
    assert_eq!(table(&manifest.dependencies), table(&[dep("serde", "\"1.0.203\"")]));
    assert!(runner.calls.borrow().is_empty());
}

#[test]
fn embedded_and_inferred_dependencies_are_merged() {
    let mut build_state = example_state();
    let source = "/*[toml]\n[dependencies]\nserde = \"1.0.203\"\n*/\nuse serde_derive;\nfn main() {}\n";
    let parsed = parse_metadata(source, None).unwrap();
    assert_eq!(parsed.inferred_dependencies, vec!["serde_derive"]);
    let manifest = merge_manifest(&mut build_state, &parsed, &EchoRunner).unwrap();
    assert_eq!(
        table(&manifest.dependencies),
        table(&[dep("serde", "\"1.0.203\""), dep("serde_derive", "\"9.8.7\"")])
    );
    assert_eq!(manifest.dependency("serde").unwrap().requirement, "\"1.0.203\"");
    assert_eq!(manifest.dependency("serde_derive").unwrap().requirement, "\"9.8.7\"");
    assert!(manifest.dependency("serde_json").is_none());
}

#[test]
fn a_detailed_requirement_is_written_with_sorted_keys() {
    let text = "[dependencies]\nserde = { version = \"1.0\", features = [\"derive\"] }\n";
    let deps = embedded_dependencies(&Some(text.to_string())).unwrap();
    assert_eq!(deps.len(), 1);
    assert_eq!(deps[0].name, "serde");
    assert_eq!(deps[0].requirement, "{ features = [\"derive\"], version = \"1.0\" }");
}

#[test]
fn manifest_text_without_dependencies_declares_none() {
    let deps = embedded_dependencies(&Some("[package]\nname = \"x\"\n".to_string())).unwrap();
    assert!(deps.is_empty());
    assert!(embedded_dependencies(&None).unwrap().is_empty());
}

#[test]
fn manifest_text_that_is_no_toml_is_malformed() {
    match embedded_dependencies(&Some("[dependencies\nserde = ".to_string())) {
        Err(BuildRunError::MalformedManifest(text)) => assert_eq!(text, "[dependencies\nserde = "),
        other => panic!("unexpected: {:?}", other.map(|d| table(&d)).map_err(|e| e.to_string())),
    }
}

#[test]
fn an_unresolved_dependency_fails_the_merge() {
    let mut build_state = example_state();
    let runner = FixedRunner::answering("");
    match merge_manifest(&mut build_state, &metadata(None, &["nothing_like_it"]), &runner) {
        Err(BuildRunError::DependencyNotFound(name)) => assert_eq!(name, "nothing_like_it"),
        other => panic!("unexpected: {:?}", other.map(|m| m.render()).map_err(|e| e.to_string())),
    }
    assert!(build_state.cargo_manifest.is_none());
}

#[test]
fn merge_resolved_names_the_first_missing_version() {
    let defaults = default_manifest(&example_state()).unwrap();
    let inferred = vec!["alpha".to_string(), "beta".to_string(), "gamma".to_string()];
    let resolved = vec![answer("alpha", "alpha", "1.2.3")];
    match merge_resolved(defaults, &vec![], &inferred, &resolved) {
        Err(BuildRunError::DependencyNotFound(name)) => assert_eq!(name, "beta"),
        other => panic!("unexpected: {:?}", other.map(|m| m.render()).map_err(|e| e.to_string())),
    }
}

#[test]
fn merge_resolved_quotes_the_versions() {
    let defaults = default_manifest(&example_state()).unwrap();
    let embedded = vec![dep("beta", "{ git = \"https://example.org/beta\" }"), dep("beta", "\"2\"")];
    let inferred = vec!["alpha".to_string(), "beta".to_string()];
    let resolved = vec![answer("alpha", "alpha", "1.2.3"), answer("beta", "beta", "7.7.7")];
    let manifest = merge_resolved(defaults, &embedded, &inferred, &resolved).unwrap();
    assert_eq!(
        table(&manifest.dependencies),
        table(&[dep("beta", "{ git = \"https://example.org/beta\" }"), dep("alpha", "\"1.2.3\"")])
    );
}

#[test]
fn missing_dependencies_are_those_without_an_entry() {
    let have = vec![dep("serde", "\"1\"")];
    let inferred = vec!["regex".to_string(), "serde".to_string(), "syn".to_string()];
    assert_eq!(missing_dependencies(&have, &inferred), vec!["regex", "syn"]);
}

#[test]
fn the_manifest_is_rendered_as_text() {
    let mut manifest = build_manifest(ManifestConfig {
        name: "hello".to_string(),
        version: "0.0.1".to_string(),
        edition: "2021".to_string(),
        binary_path: r"C:\tmp\hello\tmp_source.rs".to_string(),
    });
    manifest.dependencies.push(dep("serde", "\"1.0.203\""));
    manifest.dependencies.push(dep("rug", "{ version = \"1.24.0\", features = [\"integer\"] }"));
    let expected = "[package]\nname = \"hello\"\nversion = \"0.0.1\"\nedition = \"2021\"\n\n[dependencies]\nserde = \"1.0.203\"\nrug = { version = \"1.24.0\", features = [\"integer\"] }\n\n[workspace]\n\n[[bin]]\nname = \"hello\"\npath = \"C:\\\\tmp\\\\hello\\\\tmp_source.rs\"\n";
    assert_eq!(manifest.render(), expected);
}

#[test]
fn rendering_twice_gives_the_same_text() {
    let mut build_state = example_state();
    let parsed = metadata(Some("[dependencies]\nserde = \"1.0.203\"\n"), &["regex"]);
    let first = merge_manifest(&mut build_state, &parsed, &EchoRunner).unwrap().render();
    let second = merge_manifest(&mut build_state, &parsed, &EchoRunner).unwrap().render();
    assert_eq!(first, second);
    assert_eq!(build_state.cargo_manifest.as_ref().unwrap().render(), first);
}

#[test]
fn the_build_state_names_the_files_of_the_build() {
    let state = BuildState::new("fib.rs", "/tmp/rs-script", "/home/me/.cargo").unwrap();
    assert_eq!(state.source_stem, "fib");
    assert_eq!(state.source_name, "fib.rs");
    assert_eq!(state.target_dir_path, "/tmp/rs-script/fib");
    assert_eq!(state.source_path, "/tmp/rs-script/fib/tmp_source.rs");
    assert_eq!(state.cargo_toml_path, "/tmp/rs-script/fib/Cargo.toml");
    assert_eq!(state.cargo_home, "/home/me/.cargo");
    assert_eq!(state.artifact_path(), "/tmp/rs-script/fib/target/debug/fib");
    assert!(state.cargo_manifest.is_none());
}

#[test]
fn a_script_needs_a_stem() {
    for name in ["fib", ".rs", "fib.py", ""] {
        match BuildState::new(name, "/tmp", "") {
            Err(BuildRunError::Command(text)) => assert_eq!(text, name),
            _ => panic!("{name} was accepted"),
        }
    }
}

#[test]
fn a_crate_stands_under_the_name_that_the_registry_gives() {
    let mut build_state = example_state();
    let runner = FixedRunner::answering("nu-ansi-term = \"0.50.1\"\n");
    let manifest =
        merge_manifest(&mut build_state, &metadata(None, &["nu_ansi_term"]), &runner).unwrap();
    assert_eq!(table(&manifest.dependencies), table(&[dep("nu-ansi-term", "\"0.50.1\"")]));

    // An entry under that name stands, and no second one is made.
    let defaults = default_manifest(&example_state()).unwrap();
    let embedded = vec![dep("nu-ansi-term", "\"0.49\"")];
    let inferred = vec!["nu_ansi_term".to_string()];
    let answers = vec![answer("nu_ansi_term", "nu-ansi-term", "0.50.1")];
    let manifest = merge_resolved(defaults, &embedded, &inferred, &answers).unwrap();
    assert_eq!(table(&manifest.dependencies), table(&[dep("nu-ansi-term", "\"0.49\"")]));
}

#[test]
fn the_first_answer_to_a_name_counts() {
    let defaults = default_manifest(&example_state()).unwrap();
    let inferred = vec!["a".to_string()];
    let answers = vec![answer("b", "b", "1.0.0"), answer("a", "a", "2.0.0"), answer("a", "a", "3.0.0")];
    let manifest = merge_resolved(defaults, &vec![], &inferred, &answers).unwrap();
    assert_eq!(table(&manifest.dependencies), table(&[dep("a", "\"2.0.0\"")]));
}

#[test]
fn a_build_is_prepared_from_the_analysis() {
    let source = "/*[toml]\n[dependencies]\nserde = \"1.0.203\"\n*/\nuse regex::Regex;\nfn main() {}\n";
    let parsed = parse_metadata(source, None).unwrap();
    let state = prepare_build(&parsed, "demo.rs", "/tmp/rs-script", "/cargo", &EchoRunner).unwrap();
    assert_eq!(state.source_stem, "demo");
    assert_eq!(state.target_dir_path, "/tmp/rs-script/demo");
    assert_eq!(state.cargo_toml_path, "/tmp/rs-script/demo/Cargo.toml");
    assert_eq!(state.rs_manifest, parsed.embedded_manifest);
    let manifest = state.cargo_manifest.as_ref().unwrap();
    assert_eq!(manifest.package.name, "demo");
    assert_eq!(manifest.bin.path, "/tmp/rs-script/demo/tmp_source.rs");
    assert_eq!(
        table(&manifest.dependencies),
        table(&[dep("serde", "\"1.0.203\""), dep("regex", "\"9.8.7\"")])
    );

    assert!(matches!(
        prepare_build(&parsed, "demo", "/tmp", "", &EchoRunner),
        Err(BuildRunError::Command(name)) if name == "demo"
    ));
    assert!(matches!(
        prepare_build(&parsed, "demo.rs", "/tmp", "", &FixedRunner::answering("")),
        Err(BuildRunError::DependencyNotFound(name)) if name == "regex"
    ));
}
