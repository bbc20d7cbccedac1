//! The orchestrator: which step of generate, build and run comes next.
//!
//! The library decides; the caller acts. The caller hands `step` what
//! happened (an `Event`) and is told what to do (an `Effect`): write a file,
//! read the manifest on disk, run the toolchain, run the program, or stop.

use vstd::prelude::*;
use crate::analyzer::{
    is_analysis_of, manifest_problem, parse_metadata, ParsedMetadata, ScriptStructure,
};
use crate::errors::{BuildRunError, ErrorView, Stage};
use crate::manifest::{rendered, ManifestView};
use crate::merge::{is_prepared, prepare_build, prepare_fails_with, prepares_unasked};
use crate::registry::CommandRunner;
use crate::shared::{BuildState, CommandOutput};
use crate::text::{append, append_str, decimal, decimal_of, from_chars, same_text, strings, to_chars};

verus! {

/// The program that builds.
pub const BUILD_PROGRAM: &'static str = "cargo";

/// Which of the two generated files a generation writes.
#[derive(Clone, Copy, PartialEq, Eq, Debug, Structural)]
pub enum GenQualifier {
    Both,
    CargoToml,
    Source,
}

/// What the caller asks of the pipeline: any run of consecutive stages.
#[derive(Clone, Copy, PartialEq, Eq, Debug, Structural)]
pub enum Action {
    All,
    Generate(GenQualifier),
    Build,
    GenAndBuild,
    Run,
    BuildAndRun,
}

/// How far the pipeline has come.
#[derive(Clone, Copy, PartialEq, Eq, Debug, Structural)]
pub enum PipelineState {
    Init,
    Generated,
    Built,
    Ran,
    Failed(Stage),
}

/// What the pipeline is waiting to hear.
#[derive(Clone, Copy, PartialEq, Eq, Debug, Structural)]
pub enum Waiting {
    /// The word to begin.
    Start,
    /// How the writing of the source file went.
    SourceWrite,
    /// What the manifest file on disk holds.
    ManifestRead,
    /// How the writing of the manifest file went.
    ManifestWrite,
    /// How the build ended.
    Build,
    /// How the program ended.
    Run,
    /// Nothing: the run is over.
    Nothing,
}

/// One run of the pipeline.
#[derive(Clone, Copy, PartialEq, Eq, Debug, Structural)]
pub struct Pipeline {
    pub action: Action,
    pub state: PipelineState,
    pub waiting: Waiting,
}

/// What happened outside.
pub enum Event {
    /// The caller is ready.
    Begin,
    /// A file was written, or could not be.
    Written(Result<(), String>),
    /// The manifest on disk was read: its text, `None` where there is no
    /// such file; or it could not be read.
    ManifestRead(Result<Option<String>, String>),
    /// A command ended, or could not be run.
    Finished(Result<CommandOutput, String>),
}

/// What the caller is to do next.
pub enum Effect {
    /// Write the script to the source file of the build directory.
    WriteSource,
    /// Read the manifest file of the build directory.
    ReadManifest,
    /// Write the manifest text to the manifest file.
    WriteManifest,
    /// Run the toolchain's build in the build directory.
    RunBuild,
    /// Run the compiled program.
    RunProgram,
    /// Report success: all that was asked for is done. For a run of the
    /// program, with what it wrote.
    Finish(String),
    /// Report the failure.
    Fail(BuildRunError),
    /// Nothing: the run was over before.
    Stop,
}

/// An effect with its payload as plain text.
pub enum EffectView {
    WriteSource,
    ReadManifest,
    WriteManifest,
    RunBuild,
    RunProgram,
    Finish(Seq<char>),
    Fail(ErrorView),
    Stop,
}

impl View for Effect {
    type V = EffectView;

    open spec fn view(&self) -> EffectView {
        match self {
            Effect::WriteSource => EffectView::WriteSource,
            Effect::ReadManifest => EffectView::ReadManifest,
            Effect::WriteManifest => EffectView::WriteManifest,
            Effect::RunBuild => EffectView::RunBuild,
            Effect::RunProgram => EffectView::RunProgram,
            Effect::Finish(s) => EffectView::Finish(s@),
            Effect::Fail(e) => EffectView::Fail(e@),
            Effect::Stop => EffectView::Stop,
        }
    }
}

/// Whether `action` has the source file written.
pub open spec fn writes_source(action: Action) -> bool {
    match action {
        Action::All => true,
        Action::GenAndBuild => true,
        Action::Generate(q) => q != GenQualifier::CargoToml,
        _ => false,
    }
}

/// Whether `action` has the manifest file brought up to date.
pub open spec fn writes_manifest(action: Action) -> bool {
    match action {
        Action::All => true,
        Action::GenAndBuild => true,
        Action::Generate(q) => q != GenQualifier::Source,
        _ => false,
    }
}

/// Whether `action` includes the build.
pub open spec fn builds(action: Action) -> bool {
    match action {
        Action::All => true,
        Action::Build => true,
        Action::GenAndBuild => true,
        Action::BuildAndRun => true,
        _ => false,
    }
}

/// Whether `action` includes the run of the program.
pub open spec fn runs(action: Action) -> bool {
    match action {
        Action::All => true,
        Action::Run => true,
        Action::BuildAndRun => true,
        _ => false,
    }
}

impl Action {
    /// Whether this action has the source file written.
    pub fn writes_source(&self) -> (b: bool)
        ensures
            b == writes_source(*self),
    {
        match self {
            Action::All => true,
            Action::GenAndBuild => true,
            Action::Generate(q) => !matches!(q, GenQualifier::CargoToml),
            _ => false,
        }
    }

    /// Whether this action has the manifest file brought up to date.
    pub fn writes_manifest(&self) -> (b: bool)
        ensures
            b == writes_manifest(*self),
    {
        match self {
            Action::All => true,
            Action::GenAndBuild => true,
            Action::Generate(q) => !matches!(q, GenQualifier::Source),
            _ => false,
        }
    }

    /// Whether this action includes the build.
    pub fn builds(&self) -> (b: bool)
        ensures
            b == builds(*self),
    {
        matches!(self, Action::All | Action::Build | Action::GenAndBuild | Action::BuildAndRun)
    }

    /// Whether this action includes the run of the program.
    pub fn runs(&self) -> (b: bool)
        ensures
            b == runs(*self),
    {
        matches!(self, Action::All | Action::Run | Action::BuildAndRun)
    }
}

/// The pipeline at the run of the program, or at its end where no run is
/// asked for.
pub open spec fn enter_run(p: Pipeline) -> (Pipeline, EffectView) {
    if runs(p.action) {
        (Pipeline { waiting: Waiting::Run, ..p }, EffectView::RunProgram)
    } else {
        (Pipeline { waiting: Waiting::Nothing, ..p }, EffectView::Finish(Seq::empty()))
    }
}

/// The pipeline at the build, or further on where no build is asked for.
pub open spec fn enter_build(p: Pipeline) -> (Pipeline, EffectView) {
    if builds(p.action) {
        (Pipeline { waiting: Waiting::Build, ..p }, EffectView::RunBuild)
    } else {
        enter_run(p)
    }
}

/// The pipeline once generation is behind it.
pub open spec fn generated(p: Pipeline) -> (Pipeline, EffectView) {
    enter_build(Pipeline { state: PipelineState::Generated, ..p })
}

/// The pipeline at the manifest file, or further on where the manifest is not
/// asked for.
pub open spec fn enter_manifest(p: Pipeline) -> (Pipeline, EffectView) {
    if writes_manifest(p.action) {
        (Pipeline { waiting: Waiting::ManifestRead, ..p }, EffectView::ReadManifest)
    } else if writes_source(p.action) {
        generated(p)
    } else {
        enter_build(p)
    }
}

/// The pipeline at its first step.
pub open spec fn enter_source(p: Pipeline) -> (Pipeline, EffectView) {
    if writes_source(p.action) {
        (Pipeline { waiting: Waiting::SourceWrite, ..p }, EffectView::WriteSource)
    } else {
        enter_manifest(p)
    }
}

/// The stage in which the pipeline waits.
pub open spec fn stage_of_waiting(w: Waiting) -> Stage {
    match w {
        Waiting::Build => Stage::Build,
        Waiting::Run => Stage::Run,
        _ => Stage::Generate,
    }
}

/// The pipeline stopped by a failure in the stage in which it waited.
pub open spec fn failed(p: Pipeline, e: ErrorView) -> (Pipeline, EffectView) {
    (
        Pipeline {
            state: PipelineState::Failed(stage_of_waiting(p.waiting)),
            waiting: Waiting::Nothing,
            ..p
        },
        EffectView::Fail(e),
    )
}

/// The manifest file has to be written: it is missing, or its text differs
/// in any character from the new text.
pub open spec fn manifest_differs(manifest: Seq<char>, on_disk: Option<String>) -> bool {
    match on_disk {
        Some(text) => text@ != manifest,
        None => true,
    }
}

/// What a finished build means: nothing more where it succeeded, else the
/// failure with the build's error output as it was captured.
pub open spec fn build_result(out: CommandOutput) -> Result<(), ErrorView> {
    if out.success {
        Ok(())
    } else {
        Err(ErrorView::ToolchainBuildFailed(out.stderr@))
    }
}

/// What a finished run of the program means: what it wrote where it
/// succeeded, else the failure with its error output as it was captured.
pub open spec fn run_result(out: CommandOutput) -> Result<Seq<char>, ErrorView> {
    if out.success {
        Ok(out.stdout@)
    } else {
        Err(ErrorView::ToolchainRunFailed(out.stderr@))
    }
}

/// The message for an event that the pipeline was not waiting for.
pub open spec fn unexpected() -> Seq<char> {
    "unexpected event"@
}

/// The next state of the pipeline, and what the caller is to do, after
/// `event`; `manifest` is the new manifest text.
///
/// - At the start the first stage that the action asks for is entered.
/// - A file that could not be written or read ends the run with
///   `FilesystemError`.
/// - The manifest file is written only where `manifest_differs`.
/// - A build or a program that could not be run, or that failed, ends the
///   run; else the next stage that the action asks for is entered.
/// - Once the run is over nothing is asked for any more.
pub open spec fn step_of(p: Pipeline, manifest: Seq<char>, event: Event) -> (
    Pipeline,
    EffectView,
) {
    match (p.waiting, event) {
        (Waiting::Nothing, _) => (p, EffectView::Stop),
        (Waiting::Start, Event::Begin) => enter_source(p),
        (Waiting::SourceWrite, Event::Written(Ok(_))) => enter_manifest(p),
        (Waiting::SourceWrite, Event::Written(Err(e))) => failed(
            p,
            ErrorView::FilesystemError(e@),
        ),
        (Waiting::ManifestRead, Event::ManifestRead(Ok(on_disk))) => if manifest_differs(
            manifest,
            on_disk,
        ) {
            (Pipeline { waiting: Waiting::ManifestWrite, ..p }, EffectView::WriteManifest)
        } else {
            generated(p)
        },
        (Waiting::ManifestRead, Event::ManifestRead(Err(e))) => failed(
            p,
            ErrorView::FilesystemError(e@),
        ),
        (Waiting::ManifestWrite, Event::Written(Ok(_))) => generated(p),
        (Waiting::ManifestWrite, Event::Written(Err(e))) => failed(
            p,
            ErrorView::FilesystemError(e@),
        ),
        (Waiting::Build, Event::Finished(Ok(out))) => match build_result(out) {
            Ok(_) => enter_run(Pipeline { state: PipelineState::Built, ..p }),
            Err(e) => failed(p, e),
        },
        (Waiting::Build, Event::Finished(Err(e))) => failed(p, ErrorView::FilesystemError(e@)),
        (Waiting::Run, Event::Finished(Ok(out))) => match run_result(out) {
            Ok(written) => (
                Pipeline { state: PipelineState::Ran, waiting: Waiting::Nothing, ..p },
                EffectView::Finish(written),
            ),
            Err(e) => failed(p, e),
        },
        (Waiting::Run, Event::Finished(Err(e))) => failed(p, ErrorView::FilesystemError(e@)),
        _ => failed(p, ErrorView::Command(unexpected())),
    }
}

/// Whether the manifest file has to be written, given what it holds now.
pub fn manifest_changed(cargo_manifest: &str, prev_cargo_toml: &Option<String>) -> (write: bool)
    ensures
        write == manifest_differs(cargo_manifest@, *prev_cargo_toml),
{
    match prev_cargo_toml {
        Some(text) => !same_text(text.as_str(), cargo_manifest),
        None => true,
    }
}

/// A script made ready for its stages: its analysis, the record of its
/// build, the text of its manifest, and the pipeline begun, with the first
/// thing that the caller is to do.
pub struct Generated {
    pub metadata: ParsedMetadata,
    pub build_state: BuildState,
    pub manifest: String,
    pub pipeline: Pipeline,
    pub effect: Effect,
}

/// What a parse of the script found, as a plain value.
pub open spec fn given_structure(structure: Option<&ScriptStructure>) -> Option<ScriptStructure> {
    match structure {
        Some(st) => Some(*st),
        None => None,
    }
}

/// How generation can fail for the script `source` named `source_name`: with
/// `MalformedManifest` and the parser's message, for a manifest block that is
/// no manifest; else as the making of the build's record can fail for the
/// script's analysis.
pub open spec fn generate_fails_with(
    source: Seq<char>,
    structure: Option<ScriptStructure>,
    source_name: Seq<char>,
    e: ErrorView,
) -> bool {
    match manifest_problem(source) {
        Some(problem) => e == ErrorView::MalformedManifest(problem),
        None => exists|m: ParsedMetadata| #[trigger]
            is_analysis_of(m, source, structure) && prepare_fails_with(m, source_name, e),
    }
}

/// Generation: analyses the script, makes the record of its build with its
/// merged manifest, and begins the pipeline for `action`. Nothing is written
/// here: the caller learns what to write from the effect that comes back,
/// and a failure comes back without one.
///
/// - A manifest block that is no manifest fails with `MalformedManifest`,
///   before the build's record is made and before anything is asked of the
///   registry or of the caller.
/// - Else the failures are those of `prepare_build`, and success is owed
///   where that needs no answer of the registry.
/// - On success the manifest text is the rendering of the merged manifest,
///   and the pipeline and the effect are those of the first step.
pub fn generate<R: CommandRunner>(
    action: Action,
    source: &str,
    structure: Option<&ScriptStructure>,
    source_name: &str,
    build_root: &str,
    cargo_home: &str,
    runner: &R,
) -> (r: Result<Generated, BuildRunError>)
    ensures
        manifest_problem(source@) is Some ==> r is Err,
        r is Err ==> generate_fails_with(
            source@,
            given_structure(structure),
            source_name@,
            r->Err_0@,
        ),
        manifest_problem(source@) is None && (forall|m: ParsedMetadata| #[trigger]
            is_analysis_of(m, source@, given_structure(structure)) ==> prepares_unasked(
                m,
                source_name@,
            )) ==> r is Ok,
        r is Ok ==> {
            let g = r->Ok_0;
            &&& manifest_problem(source@) is None
            &&& is_analysis_of(g.metadata, source@, given_structure(structure))
            &&& is_prepared(g.build_state, g.metadata, source_name@, build_root@, cargo_home@)
            &&& g.manifest@ == rendered(g.build_state.cargo_manifest->0@)
            &&& (g.pipeline, g.effect@) == step_of(
                Pipeline { action, state: PipelineState::Init, waiting: Waiting::Start },
                g.manifest@,
                Event::Begin,
            )
        },
{
    let metadata = match parse_metadata(source, structure) {
        Ok(metadata) => metadata,
        Err(e) => {
            return Err(e);
        },
    };
    let build_state = match prepare_build(&metadata, source_name, build_root, cargo_home, runner) {
        Ok(state) => state,
        Err(e) => {
            assert(is_analysis_of(metadata, source@, given_structure(structure)));
            return Err(e);
        },
    };
    let manifest = match &build_state.cargo_manifest {
        Some(m) => m.render(),
        None => String::new(),
    };
    let (pipeline, effect) = Pipeline::new(action).step(manifest.as_str(), &Event::Begin);
    Ok(Generated { metadata, build_state, manifest, pipeline, effect })
}

/// What a finished build means.
pub fn build(output: &CommandOutput) -> (r: Result<(), BuildRunError>)
    ensures
        match build_result(*output) {
            Ok(_) => r is Ok,
            Err(e) => r is Err && r->Err_0@ == e,
        },
{
    if output.success {
        Ok(())
    } else {
        Err(BuildRunError::ToolchainBuildFailed(output.stderr.clone()))
    }
}

/// What a finished run of the program means.
pub fn run(output: &CommandOutput) -> (r: Result<String, BuildRunError>)
    ensures
        match run_result(*output) {
            Ok(written) => r is Ok && r->Ok_0@ == written,
            Err(e) => r is Err && r->Err_0@ == e,
        },
{
    if output.success {
        Ok(output.stdout.clone())
    } else {
        Err(BuildRunError::ToolchainRunFailed(output.stderr.clone()))
    }
}

/// The arguments of the build command.
pub fn build_args() -> (args: Vec<String>)
    ensures
        strings(args@) == seq!["build"@, "--verbose"@],
{
    let mut args: Vec<String> = Vec::new();
    args.push("build".to_owned());
    args.push("--verbose".to_owned());
    assert(strings(args@) =~= seq!["build"@, "--verbose"@]);
    args
}

impl Waiting {
    /// The stage in which the pipeline waits.
    pub fn stage(&self) -> (stage: Stage)
        ensures
            stage == stage_of_waiting(*self),
    {
        match self {
            Waiting::Build => Stage::Build,
            Waiting::Run => Stage::Run,
            _ => Stage::Generate,
        }
    }
}

impl Pipeline {
    /// A run of the pipeline for `action`, not yet begun.
    pub fn new(action: Action) -> (p: Pipeline)
        ensures
            p == (Pipeline { action, state: PipelineState::Init, waiting: Waiting::Start }),
    {
        Pipeline { action, state: PipelineState::Init, waiting: Waiting::Start }
    }

    /// Whether the run is over.
    pub fn is_over(&self) -> (b: bool)
        ensures
            b == (self.waiting == Waiting::Nothing),
    {
        matches!(self.waiting, Waiting::Nothing)
    }

    fn enter_run(self) -> (r: (Pipeline, Effect))
        ensures
            (r.0, r.1@) == enter_run(self),
    {
        if self.action.runs() {
            (Pipeline { waiting: Waiting::Run, ..self }, Effect::RunProgram)
        } else {
            (Pipeline { waiting: Waiting::Nothing, ..self }, Effect::Finish(String::new()))
        }
    }

    fn enter_build(self) -> (r: (Pipeline, Effect))
        ensures
            (r.0, r.1@) == enter_build(self),
    {
        if self.action.builds() {
            (Pipeline { waiting: Waiting::Build, ..self }, Effect::RunBuild)
        } else {
            self.enter_run()
        }
    }

    fn generated(self) -> (r: (Pipeline, Effect))
        ensures
            (r.0, r.1@) == generated(self),
    {
        Pipeline { state: PipelineState::Generated, ..self }.enter_build()
    }

    fn enter_manifest(self) -> (r: (Pipeline, Effect))
        ensures
            (r.0, r.1@) == enter_manifest(self),
    {
        if self.action.writes_manifest() {
            (Pipeline { waiting: Waiting::ManifestRead, ..self }, Effect::ReadManifest)
        } else if self.action.writes_source() {
            self.generated()
        } else {
            self.enter_build()
        }
    }

    fn enter_source(self) -> (r: (Pipeline, Effect))
        ensures
            (r.0, r.1@) == enter_source(self),
    {
        if self.action.writes_source() {
            (Pipeline { waiting: Waiting::SourceWrite, ..self }, Effect::WriteSource)
        } else {
            self.enter_manifest()
        }
    }

    fn failed(self, e: BuildRunError) -> (r: (Pipeline, Effect))
        ensures
            (r.0, r.1@) == failed(self, e@),
    {
        let stage = self.waiting.stage();
        (
            Pipeline { state: PipelineState::Failed(stage), waiting: Waiting::Nothing, ..self },
            Effect::Fail(e),
        )
    }

    /// The next state of the pipeline, and what the caller is to do, after
    /// `event`; `manifest` is the new manifest text.
    pub fn step(self, manifest: &str, event: &Event) -> (r: (Pipeline, Effect))
        ensures
            (r.0, r.1@) == step_of(self, manifest@, *event),
    {
        match (self.waiting, event) {
            (Waiting::Nothing, _) => (self, Effect::Stop),
            (Waiting::Start, Event::Begin) => self.enter_source(),
            (Waiting::SourceWrite, Event::Written(Ok(_))) => self.enter_manifest(),
            (Waiting::SourceWrite, Event::Written(Err(e))) => self.failed(
                BuildRunError::FilesystemError(e.clone()),
            ),
            (Waiting::ManifestRead, Event::ManifestRead(Ok(on_disk))) => {
                if manifest_changed(manifest, on_disk) {
                    (Pipeline { waiting: Waiting::ManifestWrite, ..self }, Effect::WriteManifest)
                } else {
                    self.generated()
                }
            },
            (Waiting::ManifestRead, Event::ManifestRead(Err(e))) => self.failed(
                BuildRunError::FilesystemError(e.clone()),
            ),
            (Waiting::ManifestWrite, Event::Written(Ok(_))) => self.generated(),
            (Waiting::ManifestWrite, Event::Written(Err(e))) => self.failed(
                BuildRunError::FilesystemError(e.clone()),
            ),
            (Waiting::Build, Event::Finished(Ok(out))) => match build(out) {
                Ok(_) => Pipeline { state: PipelineState::Built, ..self }.enter_run(),
                Err(e) => self.failed(e),
            },
            (Waiting::Build, Event::Finished(Err(e))) => self.failed(
                BuildRunError::FilesystemError(e.clone()),
            ),
            (Waiting::Run, Event::Finished(Ok(out))) => match run(out) {
                Ok(written) => (
                    Pipeline { state: PipelineState::Ran, waiting: Waiting::Nothing, ..self },
                    Effect::Finish(written),
                ),
                Err(e) => self.failed(e),
            },
            (Waiting::Run, Event::Finished(Err(e))) => self.failed(
                BuildRunError::FilesystemError(e.clone()),
            ),
            _ => self.failed(BuildRunError::Command("unexpected event".to_owned())),
        }
    }
}

/// How a stage is called in a report.
pub open spec fn stage_name(stage: Stage) -> Seq<char> {
    match stage {
        Stage::Generate => "generation"@,
        Stage::Build => "build"@,
        Stage::Run => "run"@,
    }
}

/// The report of the time that a stage took: `Completed`, the stage, `in`,
/// the seconds, a point, the milliseconds beyond them, and `s`.
pub open spec fn timing_report(stage: Stage, secs: u64, millis: u32) -> Seq<char> {
    "Completed "@ + stage_name(stage) + " in "@ + decimal_of(secs as nat) + "."@ + decimal_of(
        millis as nat,
    ) + "s"@
}

/// The report of the time that a stage took.
pub fn timing_message(stage: Stage, secs: u64, millis: u32) -> (out: String)
    ensures
        out@ == timing_report(stage, secs, millis),
{
    let mut out = to_chars("Completed ");
    append_str(
        &mut out,
        match stage {
            Stage::Generate => "generation",
            Stage::Build => "build",
            Stage::Run => "run",
        },
    );
    append_str(&mut out, " in ");
    append(&mut out, &decimal(secs));
    append_str(&mut out, ".");
    append(&mut out, &decimal(millis as u64));
    append_str(&mut out, "s");
    from_chars(&out)
}

/// The action that the chosen stages make: all stages where all are chosen
/// or none is; else the run of stages chosen. Generation and run without the
/// build between them make no action.
pub open spec fn action_of(generate: bool, build: bool, run: bool, all: bool) -> Option<Action> {
    if all || (generate && build && run) || !(generate || build || run) {
        Some(Action::All)
    } else if generate && run {
        None
    } else if generate && build {
        Some(Action::GenAndBuild)
    } else if build && run {
        Some(Action::BuildAndRun)
    } else if generate {
        Some(Action::Generate(GenQualifier::Both))
    } else if build {
        Some(Action::Build)
    } else {
        Some(Action::Run)
    }
}

/// The action that the chosen stages make.
pub fn action_for(generate: bool, build: bool, run: bool, all: bool) -> (action: Option<Action>)
    ensures
        action == action_of(generate, build, run, all),
{
    if all || (generate && build && run) || !(generate || build || run) {
        Some(Action::All)
    } else if generate && run {
        None
    } else if generate && build {
        Some(Action::GenAndBuild)
    } else if build && run {
        Some(Action::BuildAndRun)
    } else if generate {
        Some(Action::Generate(GenQualifier::Both))
    } else if build {
        Some(Action::Build)
    } else {
        Some(Action::Run)
    }
}

/// An action made from chosen stages has exactly those stages, or all.
pub proof fn lemma_action_has_its_stages(generate: bool, build: bool, run: bool)
    requires
        generate || build || run,
        action_of(generate, build, run, false) is Some,
    ensures
        writes_source(action_of(generate, build, run, false)->0) == generate,
        writes_manifest(action_of(generate, build, run, false)->0) == generate,
        builds(action_of(generate, build, run, false)->0) == build,
        runs(action_of(generate, build, run, false)->0) == run,
{
}

/// What the caller is told, one after the other, when `events` happen in
/// order.
pub open spec fn effects_of(p: Pipeline, manifest: Seq<char>, events: Seq<Event>) -> Seq<
    EffectView,
>
    decreases events.len(),
{
    if events.len() == 0 {
        Seq::empty()
    } else {
        let next = step_of(p, manifest, events[0]);
        seq![next.1] + effects_of(next.0, manifest, events.drop_first())
    }
}

/// Once the run is over, the caller is told to stop, whatever happens.
pub proof fn lemma_over_stays_over(p: Pipeline, manifest: Seq<char>, events: Seq<Event>)
    requires
        p.waiting == Waiting::Nothing,
    ensures
        effects_of(p, manifest, events).len() == events.len(),
        forall|i: int|
            0 <= i < events.len() ==> #[trigger] effects_of(p, manifest, events)[i]
                == EffectView::Stop,
    decreases events.len(),
{
    if events.len() > 0 {
        lemma_over_stays_over(p, manifest, events.drop_first());
        let rest = effects_of(p, manifest, events.drop_first());
        assert forall|i: int| 0 <= i < events.len() implies #[trigger] effects_of(
            p,
            manifest,
            events,
        )[i] == EffectView::Stop by {
            if i > 0 {
                assert(effects_of(p, manifest, events)[i] == rest[i - 1]);
            }
        }
    }
}

/// A build that fails ends the run with `ToolchainBuildFailed`, carrying the
/// build's error output as captured, and the program is never run after it,
/// whatever happens later.
pub proof fn lemma_failed_build_never_runs(
    p: Pipeline,
    manifest: Seq<char>,
    out: CommandOutput,
    later: Seq<Event>,
)
    requires
        p.waiting == Waiting::Build,
        !out.success,
    ensures
        step_of(p, manifest, Event::Finished(Ok(out))).1 == EffectView::Fail(
            ErrorView::ToolchainBuildFailed(out.stderr@),
        ),
        step_of(p, manifest, Event::Finished(Ok(out))).0.state == PipelineState::Failed(
            Stage::Build,
        ),
        forall|i: int|
            0 <= i < later.len() ==> #[trigger] effects_of(
                step_of(p, manifest, Event::Finished(Ok(out))).0,
                manifest,
                later,
            )[i] != EffectView::RunProgram,
{
    let next = step_of(p, manifest, Event::Finished(Ok(out))).0;
    lemma_over_stays_over(next, manifest, later);
}

/// A manifest file that holds the new text already, character for character,
/// is not written again, and generation counts as done; one that is missing
/// or differs is written.
pub proof fn lemma_unchanged_manifest_is_kept(
    p: Pipeline,
    manifest: Seq<char>,
    on_disk: Option<String>,
)
    requires
        p.waiting == Waiting::ManifestRead,
    ensures
        (on_disk is Some && on_disk->0@ == manifest) ==> step_of(
            p,
            manifest,
            Event::ManifestRead(Ok(on_disk)),
        ).1 != EffectView::WriteManifest && step_of(
            p,
            manifest,
            Event::ManifestRead(Ok(on_disk)),
        ).0.state == PipelineState::Generated,
        !(on_disk is Some && on_disk->0@ == manifest) ==> step_of(
            p,
            manifest,
            Event::ManifestRead(Ok(on_disk)),
        ).1 == EffectView::WriteManifest,
{
}

/// Generating again for an unchanged script writes no manifest: where the
/// manifest file holds the text of a manifest, and the new manifest is the
/// same, the text is the same and the file is left alone.
pub proof fn lemma_regeneration_writes_nothing(p: Pipeline, m: ManifestView, on_disk: String)
    requires
        p.waiting == Waiting::ManifestRead,
        on_disk@ == rendered(m),
    ensures
        step_of(p, rendered(m), Event::ManifestRead(Ok(Some(on_disk)))).1
            != EffectView::WriteManifest,
        step_of(p, rendered(m), Event::ManifestRead(Ok(Some(on_disk)))).1
            != EffectView::WriteSource,
{
}

/// The program is run only after a successful build, unless the action asks
/// for no build; and the toolchain is run only where the action asks for it.
pub proof fn lemma_stages_in_order(p: Pipeline, manifest: Seq<char>, event: Event)
    ensures
        step_of(p, manifest, event).1 == EffectView::RunProgram ==> runs(p.action) && (builds(
            p.action,
        ) ==> step_of(p, manifest, event).0.state == PipelineState::Built),
        step_of(p, manifest, event).1 == EffectView::RunBuild ==> builds(p.action),
        step_of(p, manifest, event).1 == EffectView::WriteManifest ==> p.waiting
            == Waiting::ManifestRead,
        step_of(p, manifest, event).0.action == p.action,
{
}

} // verus!
