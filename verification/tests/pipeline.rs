use rs_script::errors::{BuildRunError, Stage};
use rs_script::pipeline::{
    build, build_args, generate, manifest_changed, run, Action, Effect, Event, GenQualifier,
    Pipeline, PipelineState, Waiting,
};
use rs_script::registry::CommandRunner;
use rs_script::shared::CommandOutput;

fn output(success: bool, stdout: &str, stderr: &str) -> CommandOutput {
    CommandOutput { success, stdout: stdout.to_string(), stderr: stderr.to_string() }
}

fn finished(success: bool, stdout: &str, stderr: &str) -> Event {
    Event::Finished(Ok(output(success, stdout, stderr)))
}

/// A short name for each effect, with its payload.
fn name(effect: &Effect) -> String {
    match effect {
        Effect::WriteSource => "write source".to_string(),
        Effect::ReadManifest => "read manifest".to_string(),
        Effect::WriteManifest => "write manifest".to_string(),
        Effect::RunBuild => "build".to_string(),
        Effect::RunProgram => "run".to_string(),
        Effect::Finish(written) => format!("finish [{written}]"),
        Effect::Fail(e) => format!("fail {e:?}"),
        Effect::Stop => "stop".to_string(),
    }
}

/// Runs `events` through a pipeline for `action` and names the effects.
fn effects(action: Action, manifest: &str, events: Vec<Event>) -> (Pipeline, Vec<String>) {
    let mut pipeline = Pipeline::new(action);
    let mut names = Vec::new();
    for event in &events {
        let (next, effect) = pipeline.step(manifest, event);
        names.push(name(&effect));
        pipeline = next;
    }
    (pipeline, names)
}

const MANIFEST: &str = "[package]\nname = \"x\"\n";

#[test]
fn all_stages_run_in_order() {
    let (pipeline, names) = effects(
        Action::All,
        MANIFEST,
        vec![
            Event::Begin,
            Event::Written(Ok(())),
            Event::ManifestRead(Ok(None)),
            Event::Written(Ok(())),
            finished(true, "Compiling", ""),
            finished(true, "34\n", ""),
            Event::Begin,
        ],
    );
    assert_eq!(
        names,
        vec![
            "write source",
            "read manifest",
            "write manifest",
            "build",
            "run",
            "finish [34\n]",
            "stop"
        ]
    );
    assert_eq!(pipeline.state, PipelineState::Ran);
    assert!(pipeline.is_over());
}

#[test]
fn an_unchanged_manifest_is_not_rewritten() {
    let (pipeline, names) = effects(
        Action::GenAndBuild,
        MANIFEST,
        vec![
            Event::Begin,
            Event::Written(Ok(())),
            Event::ManifestRead(Ok(Some(MANIFEST.to_string()))),
        ],
    );
    assert_eq!(names, vec!["write source", "read manifest", "build"]);
    assert_eq!(pipeline.state, PipelineState::Generated);
    assert_eq!(pipeline.waiting, Waiting::Build);
}

#[test]
fn a_manifest_that_differs_in_a_blank_is_rewritten() {
    let on_disk = format!("{MANIFEST} ");
    let (pipeline, names) = effects(
        Action::Generate(GenQualifier::CargoToml),
        MANIFEST,
        vec![Event::Begin, Event::ManifestRead(Ok(Some(on_disk))), Event::Written(Ok(()))],
    );
    assert_eq!(names, vec!["read manifest", "write manifest", "finish []"]);
    assert_eq!(pipeline.state, PipelineState::Generated);
    assert!(manifest_changed(MANIFEST, &None));
    assert!(manifest_changed(MANIFEST, &Some(String::new())));
    assert!(!manifest_changed(MANIFEST, &Some(MANIFEST.to_string())));
    assert!(!manifest_changed("", &Some(String::new())));
}

#[test]
fn a_failed_build_is_reported_and_nothing_is_run() {
    let (pipeline, names) = effects(
        Action::BuildAndRun,
        MANIFEST,
        vec![
            Event::Begin,
            finished(false, "ignored", "error[E0308]: mismatched types\n"),
            finished(true, "never", ""),
            Event::Begin,
        ],
    );
    assert_eq!(
        names,
        vec![
            "build",
            "fail ToolchainBuildFailed(\"error[E0308]: mismatched types\\n\")",
            "stop",
            "stop"
        ]
    );
    assert_eq!(pipeline.state, PipelineState::Failed(Stage::Build));
    assert!(pipeline.is_over());
}

#[test]
fn a_failed_run_is_told_from_a_failed_build() {
    let (pipeline, names) = effects(
        Action::Run,
        MANIFEST,
        vec![Event::Begin, finished(false, "partial", "thread 'main' panicked")],
    );
    assert_eq!(names, vec!["run", "fail ToolchainRunFailed(\"thread 'main' panicked\")"]);
    assert_eq!(pipeline.state, PipelineState::Failed(Stage::Run));
    assert!(matches!(build(&output(false, "", "e")), Err(BuildRunError::ToolchainBuildFailed(e)) if e == "e"));
    assert!(matches!(run(&output(false, "", "e")), Err(BuildRunError::ToolchainRunFailed(e)) if e == "e"));
    assert!(build(&output(true, "out", "warning")).is_ok());
    assert_eq!(run(&output(true, "out", "warning")).ok(), Some("out".to_string()));
}

#[test]
fn file_errors_end_the_run_before_the_build() {
    let denied = || Err::<(), String>("permission denied".to_string());
    let expected = "fail FilesystemError(\"permission denied\")";

    let (pipeline, names) = effects(Action::All, MANIFEST, vec![Event::Begin, Event::Written(denied())]);
    assert_eq!(names, vec!["write source", expected]);
    assert_eq!(pipeline.state, PipelineState::Failed(Stage::Generate));

    let (_, names) = effects(
        Action::All,
        MANIFEST,
        vec![Event::Begin, Event::Written(Ok(())), Event::ManifestRead(Err("permission denied".to_string()))],
    );
    assert_eq!(names, vec!["write source", "read manifest", expected]);

    let (_, names) = effects(
        Action::All,
        MANIFEST,
        vec![
            Event::Begin,
            Event::Written(Ok(())),
            Event::ManifestRead(Ok(None)),
            Event::Written(denied()),
            Event::Begin,
        ],
    );
    assert_eq!(names, vec!["write source", "read manifest", "write manifest", expected, "stop"]);

    let (pipeline, names) = effects(
        Action::Build,
        MANIFEST,
        vec![Event::Begin, Event::Finished(Err("permission denied".to_string()))],
    );
    assert_eq!(names, vec!["build", expected]);
    assert_eq!(pipeline.state, PipelineState::Failed(Stage::Build));
}

#[test]
fn each_action_asks_for_its_stages() {
    let first = |action| effects(action, MANIFEST, vec![Event::Begin]).1.remove(0);
    assert_eq!(first(Action::All), "write source");
    assert_eq!(first(Action::GenAndBuild), "write source");
    assert_eq!(first(Action::Generate(GenQualifier::Both)), "write source");
    assert_eq!(first(Action::Generate(GenQualifier::Source)), "write source");
    assert_eq!(first(Action::Generate(GenQualifier::CargoToml)), "read manifest");
    assert_eq!(first(Action::Build), "build");
    assert_eq!(first(Action::BuildAndRun), "build");
    assert_eq!(first(Action::Run), "run");

    let (pipeline, names) = effects(
        Action::Generate(GenQualifier::Source),
        MANIFEST,
        vec![Event::Begin, Event::Written(Ok(()))],
    );
    assert_eq!(names, vec!["write source", "finish []"]);
    assert_eq!(pipeline.state, PipelineState::Generated);

    let (pipeline, names) = effects(Action::Build, MANIFEST, vec![Event::Begin, finished(true, "", "")]);
    assert_eq!(names, vec!["build", "finish []"]);
    assert_eq!(pipeline.state, PipelineState::Built);

    for action in [Action::All, Action::Build, Action::GenAndBuild, Action::BuildAndRun] {
        assert!(action.builds());
    }
    assert!(!Action::Run.builds() && !Action::Generate(GenQualifier::Both).builds());
    assert!(Action::Run.runs() && !Action::GenAndBuild.runs());
    assert!(!Action::Generate(GenQualifier::CargoToml).writes_source());
    assert!(!Action::Generate(GenQualifier::Source).writes_manifest());
}

#[test]
fn an_event_out_of_turn_ends_the_run() {
    let (pipeline, names) = effects(Action::All, MANIFEST, vec![Event::Begin, Event::Begin]);
    assert_eq!(names, vec!["write source", "fail Command(\"unexpected event\")"]);
    assert_eq!(pipeline.state, PipelineState::Failed(Stage::Generate));
    let (pipeline, names) = effects(Action::All, MANIFEST, vec![finished(true, "", "")]);
    assert_eq!(names, vec!["fail Command(\"unexpected event\")"]);
    assert!(pipeline.is_over());
}

#[test]
fn the_same_events_give_the_same_effects_twice() {
    let events = || {
        vec![
            Event::Begin,
            Event::Written(Ok(())),
            Event::ManifestRead(Ok(Some(MANIFEST.to_string()))),
            finished(true, "", ""),
            finished(true, "out", ""),
        ]
    };
    let first = effects(Action::All, MANIFEST, events());
    let second = effects(Action::All, MANIFEST, events());
    assert_eq!(first, second);
    assert_eq!(first.1, vec!["write source", "read manifest", "build", "run", "finish [out]"]);
}

#[test]
fn the_build_is_verbose() {
    assert_eq!(build_args(), vec!["build", "--verbose"]);
    assert_eq!(rs_script::pipeline::BUILD_PROGRAM, "cargo");
}

/// Records every query and answers each with a version made for the test.
struct Recorder {
    asked: std::cell::RefCell<Vec<String>>,
}

impl CommandRunner for Recorder {
    fn run_command(&self, _program: &str, args: &Vec<String>) -> Result<CommandOutput, String> {
        self.asked.borrow_mut().push(args[1].clone());
        Ok(output(true, &format!("{} = \"1.2.3\"\n", args[1]), ""))
    }
}

#[test]
fn a_malformed_manifest_stops_generation_before_any_effect() {
    let runner = Recorder { asked: std::cell::RefCell::new(Vec::new()) };
    let source = "/*[toml]\n[dependencies\n*/\nuse regex::Regex;\nfn main() {}\n";
    match generate(Action::All, source, None, "bad.rs", "/tmp/rs-script", "", &runner) {
        Err(BuildRunError::MalformedManifest(message)) => assert!(!message.is_empty()),
        _ => panic!("the manifest was accepted"),
    }
    // No effect came back, and the registry was not asked.
    assert!(runner.asked.borrow().is_empty());
}

#[test]
fn generation_hands_back_the_first_effect() {
    let runner = Recorder { asked: std::cell::RefCell::new(Vec::new()) };
    let source = "/*[toml]\n[dependencies]\nserde = \"1\"\n*/\nuse regex::Regex;\nfn main() {}\n";
    let g = match generate(Action::All, source, None, "good.rs", "/tmp/rs-script", "/c", &runner) {
        Ok(g) => g,
        Err(e) => panic!("{}", e.to_string()),
    };
    assert_eq!(*runner.asked.borrow(), vec!["regex"]);
    assert_eq!(name(&g.effect), "write source");
    assert_eq!(g.pipeline.waiting, Waiting::SourceWrite);
    assert_eq!(g.pipeline.state, PipelineState::Init);
    assert_eq!(g.build_state.target_dir_path, "/tmp/rs-script/good");
    assert_eq!(g.metadata.inferred_dependencies, vec!["regex"]);
    assert_eq!(g.manifest, g.build_state.cargo_manifest.as_ref().unwrap().render());
    assert!(g.manifest.contains("\nserde = \"1\"\nregex = \"1.2.3\"\n"));

    let built = generate(Action::Build, "2 + 3", None, "x.rs", "/tmp", "", &runner).ok().unwrap();
    assert_eq!(name(&built.effect), "build");
    assert!(matches!(
        generate(Action::All, "2 + 3", None, "x", "/tmp", "", &runner),
        Err(BuildRunError::Command(n)) if n == "x"
    ));
}
