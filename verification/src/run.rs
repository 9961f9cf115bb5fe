//! What `gpubox run` does, step by step: every decision is made here, from
//! the plan and from how the previous step ended, and every step is an
//! [`Action`] for the caller to perform.

use vstd::prelude::*;
use crate::backend;
use crate::backend::linux;
use crate::backend::linux::ContainerEngine;
use crate::backend::{
    BackendError, Engine, Invocation, InvocationView, LaunchSpec, LaunchSpecView, Outcome, Platform,
    Tools, Unavailable,
};
use crate::cache;
use crate::cache::{BuildError, BuildErrorView, BuildOutcome, ImageSource};
use crate::container;
use crate::container::ContainerState;
use crate::generate;
use crate::launch;
use crate::launch::{
    Host, HostView, Overrides, OverridesView, Plan, PlanError, PlanErrorView, PlanView,
};
use crate::mounts;
use crate::mounts::{Identity, IdentityView};
use crate::probe::pciids::{PciIds, PciIdsView};
use crate::stack;
use crate::stack::{QuirksDb, QuirksDbView, ResolvedStack, ResolvedStackView};
use crate::text;

verus! {

/// Why a run failed.
#[derive(Debug, PartialEq, Eq)]
pub enum RunError {
    /// No launch could be planned.
    Plan(PlanError),
    /// `--name` on a backend that has no named containers.
    NameUnsupported { engine: Engine },
    /// The engine's tool is not there.
    Unavailable(Unavailable),
    /// No invocation could be built.
    Backend(BackendError),
    /// The cached image could not be built.
    Build(BuildError),
    /// A program could not be executed.
    NotExecuted { program: String },
    /// A container could not be created or started.
    NotPrepared { program: String, args: String, name: String },
    /// A generated file could not be written.
    NotWritten { path: String },
    /// The caller reported something that it was not asked for.
    OutOfTurn,
}

/// What a [`RunError`] stands for.
#[verifier::ext_equal]
pub enum RunErrorView {
    Plan(PlanErrorView),
    NameUnsupported { engine: Engine },
    Unavailable(Unavailable),
    Backend(BackendError),
    Build(BuildErrorView),
    NotExecuted { program: Seq<char> },
    NotPrepared { program: Seq<char>, args: Seq<char>, name: Seq<char> },
    NotWritten { path: Seq<char> },
    OutOfTurn,
}

impl DeepView for RunError {
    type V = RunErrorView;

    open spec fn deep_view(&self) -> RunErrorView {
        match self {
            RunError::Plan(e) => RunErrorView::Plan(e.deep_view()),
            RunError::NameUnsupported { engine } => RunErrorView::NameUnsupported {
                engine: *engine,
            },
            RunError::Unavailable(e) => RunErrorView::Unavailable(*e),
            RunError::Backend(e) => RunErrorView::Backend(*e),
            RunError::Build(e) => RunErrorView::Build(e.deep_view()),
            RunError::NotExecuted { program } => RunErrorView::NotExecuted { program: program@ },
            RunError::NotPrepared { program, args, name } => RunErrorView::NotPrepared {
                program: program@,
                args: args@,
                name: name@,
            },
            RunError::NotWritten { path } => RunErrorView::NotWritten { path: path@ },
            RunError::OutOfTurn => RunErrorView::OutOfTurn,
        }
    }
}

/// What the user is told when a run failed.
pub open spec fn run_message(e: RunErrorView) -> Seq<char> {
    match e {
        RunErrorView::Plan(e) => launch::plan_message(e),
        RunErrorView::NameUnsupported { engine } =>
            "--name is only supported with the docker/podman backends (resolved backend: `"@
            + backend::engine_name(engine) + "`)"@,
        RunErrorView::Unavailable(e) => backend::unavailable_message(e),
        RunErrorView::Backend(e) => backend::backend_message(e),
        RunErrorView::Build(e) => cache::build_message(e),
        RunErrorView::NotExecuted { program } => "failed to execute `"@ + program + "`"@,
        RunErrorView::NotPrepared { program, args, name } => "`"@ + program + " "@ + args
            + "` failed while preparing container `"@ + name + "`"@,
        RunErrorView::NotWritten { path } => "writing generated file "@ + path,
        RunErrorView::OutOfTurn => "a step was reported out of turn"@,
    }
}

impl RunError {
    /// The error as it is shown to people.
    pub fn message(&self) -> (r: String)
        ensures
            r@ == run_message(self.deep_view()),
    {
        match self {
            RunError::Plan(e) => e.message(),
            RunError::NameUnsupported { engine } => {
                text::join3(
                    "--name is only supported with the docker/podman backends (resolved backend: `",
                    engine.name(),
                    "`)",
                )
            },
            RunError::Unavailable(e) => e.message(),
            RunError::Backend(e) => e.message(),
            RunError::Build(e) => e.message(),
            RunError::NotExecuted { program } => {
                text::join3("failed to execute `", program.as_str(), "`")
            },
            RunError::NotPrepared { program, args, name } => {
                let mut r = text::join3("`", program.as_str(), " ");
                r.append(args.as_str());
                r.append("` failed while preparing container `");
                r.append(name.as_str());
                r.append("`");
                r
            },
            RunError::NotWritten { path } => text::join2("writing generated file ", path.as_str()),
            RunError::OutOfTurn => "a step was reported out of turn".to_string(),
        }
    }
}

/// How the command of a run gets into its sandbox.
#[derive(Debug)]
pub enum Route {
    /// In a container that is created once and reattached to.
    Persistent { engine: ContainerEngine, name: String },
    /// In a sandbox of its own.
    OneShot,
}

/// What a [`Route`] stands for.
#[verifier::ext_equal]
pub enum RouteView {
    Persistent { engine: ContainerEngine, name: Seq<char> },
    OneShot,
}

impl DeepView for Route {
    type V = RouteView;

    open spec fn deep_view(&self) -> RouteView {
        match self {
            Route::Persistent { engine, name } => RouteView::Persistent {
                engine: *engine,
                name: name@,
            },
            Route::OneShot => RouteView::OneShot,
        }
    }
}

/// The step that a run waits for.
#[derive(Debug)]
pub enum Phase {
    /// Whether the cached image exists.
    ImageCheck { engine: ContainerEngine },
    /// The build of the cached image.
    ImageBuild { engine: ContainerEngine },
    /// The inspection of the container.
    Inspecting,
    /// The creation or the start of the container.
    Preparing(Invocation),
    /// The writing of a generated file.
    Writing { invocation: Invocation, next: usize },
    /// The end of the command.
    Launching(Invocation),
    /// Nothing: the run is over.
    Ended,
}

/// What a [`Phase`] stands for.
#[verifier::ext_equal]
pub enum PhaseView {
    ImageCheck { engine: ContainerEngine },
    ImageBuild { engine: ContainerEngine },
    Inspecting,
    Preparing(InvocationView),
    Writing { invocation: InvocationView, next: nat },
    Launching(InvocationView),
    Ended,
}

impl DeepView for Phase {
    type V = PhaseView;

    open spec fn deep_view(&self) -> PhaseView {
        match self {
            Phase::ImageCheck { engine } => PhaseView::ImageCheck { engine: *engine },
            Phase::ImageBuild { engine } => PhaseView::ImageBuild { engine: *engine },
            Phase::Inspecting => PhaseView::Inspecting,
            Phase::Preparing(invocation) => PhaseView::Preparing(invocation.deep_view()),
            Phase::Writing { invocation, next } => PhaseView::Writing {
                invocation: invocation.deep_view(),
                next: *next as nat,
            },
            Phase::Launching(invocation) => PhaseView::Launching(invocation.deep_view()),
            Phase::Ended => PhaseView::Ended,
        }
    }
}

/// What is fixed for the whole of a run.
#[derive(Debug)]
pub struct Setting {
    /// Print what would be run instead of running it.
    pub dry_run: bool,
    pub platform: Platform,
    pub tools: Tools,
    /// The invoking user.
    pub identity: Identity,
    /// Where generated files go.
    pub scratch_dir: String,
}

/// What a [`Setting`] stands for.
#[verifier::ext_equal]
pub struct SettingView {
    pub dry_run: bool,
    pub platform: Platform,
    pub tools: Tools,
    pub identity: IdentityView,
    pub scratch_dir: Seq<char>,
}

impl DeepView for Setting {
    type V = SettingView;

    open spec fn deep_view(&self) -> SettingView {
        SettingView {
            dry_run: self.dry_run,
            platform: self.platform,
            tools: self.tools,
            identity: self.identity.deep_view(),
            scratch_dir: self.scratch_dir@,
        }
    }
}

/// A run that waits for its next step.
#[derive(Debug)]
pub struct Run {
    pub setting: Setting,
    pub route: Route,
    pub engine: Engine,
    pub resolved: ResolvedStack,
    pub spec: LaunchSpec,
    pub phase: Phase,
}

/// What a [`Run`] stands for.
#[verifier::ext_equal]
pub struct RunView {
    pub setting: SettingView,
    pub route: RouteView,
    pub engine: Engine,
    pub resolved: ResolvedStackView,
    pub spec: LaunchSpecView,
    pub phase: PhaseView,
}

impl DeepView for Run {
    type V = RunView;

    open spec fn deep_view(&self) -> RunView {
        RunView {
            setting: self.setting.deep_view(),
            route: self.route.deep_view(),
            engine: self.engine,
            resolved: self.resolved.deep_view(),
            spec: self.spec.deep_view(),
            phase: self.phase.deep_view(),
        }
    }
}

/// What the caller is asked to do.
#[derive(Debug, PartialEq, Eq)]
pub enum Action {
    /// Execute quietly, and report the outcome.
    CheckImage(Invocation),
    /// Execute with the Dockerfile on stdin, and report the outcome.
    BuildImage { invocation: Invocation, dockerfile: String },
    /// Execute, and report what it printed if it succeeded.
    Inspect(Invocation),
    /// Execute, and report the outcome.
    Prepare(Invocation),
    /// Write a file, and report whether it was written.
    WriteFile { path: String, content: String },
    /// Execute, and report the outcome.
    Launch(Invocation),
    /// Print the lines; the run is over and did well.
    Print(Vec<String>),
    /// The run is over, with this exit code.
    Exit(i32),
    /// The run is over and failed.
    Fail(RunError),
}

/// What an [`Action`] stands for.
#[verifier::ext_equal]
pub enum ActionView {
    CheckImage(InvocationView),
    BuildImage { invocation: InvocationView, dockerfile: Seq<char> },
    Inspect(InvocationView),
    Prepare(InvocationView),
    WriteFile { path: Seq<char>, content: Seq<char> },
    Launch(InvocationView),
    Print(Seq<Seq<char>>),
    Exit(i32),
    Fail(RunErrorView),
}

impl DeepView for Action {
    type V = ActionView;

    open spec fn deep_view(&self) -> ActionView {
        match self {
            Action::CheckImage(invocation) => ActionView::CheckImage(invocation.deep_view()),
            Action::BuildImage { invocation, dockerfile } => ActionView::BuildImage {
                invocation: invocation.deep_view(),
                dockerfile: dockerfile@,
            },
            Action::Inspect(invocation) => ActionView::Inspect(invocation.deep_view()),
            Action::Prepare(invocation) => ActionView::Prepare(invocation.deep_view()),
            Action::WriteFile { path, content } => ActionView::WriteFile {
                path: path@,
                content: content@,
            },
            Action::Launch(invocation) => ActionView::Launch(invocation.deep_view()),
            Action::Print(lines) => ActionView::Print(lines.deep_view()),
            Action::Exit(code) => ActionView::Exit(*code),
            Action::Fail(e) => ActionView::Fail(e.deep_view()),
        }
    }
}

/// How the caller's last step ended.
#[derive(Debug, PartialEq, Eq)]
pub enum Event {
    /// An execution ended.
    Finished(Outcome),
    /// A build ended.
    Built(BuildOutcome),
    /// What a successful inspection printed.
    Inspected(Option<String>),
    /// Whether a file was written.
    Written(bool),
}

/// What an [`Event`] stands for.
#[verifier::ext_equal]
pub enum EventView {
    Finished(Outcome),
    Built(BuildOutcome),
    Inspected(Option<Seq<char>>),
    Written(bool),
}

impl DeepView for Event {
    type V = EventView;

    open spec fn deep_view(&self) -> EventView {
        match self {
            Event::Finished(outcome) => EventView::Finished(*outcome),
            Event::Built(outcome) => EventView::Built(*outcome),
            Event::Inspected(printed) => EventView::Inspected(printed.deep_view()),
            Event::Written(done) => EventView::Written(*done),
        }
    }
}

/// The line that shows an invocation as a shell would read it.
pub open spec fn invocation_line(invocation: InvocationView) -> Seq<char> {
    invocation.program + linux::shell_words(invocation.args)
}

/// Writes the line that shows an invocation.
pub fn print_invocation_line(invocation: &Invocation) -> (r: String)
    ensures
        r@ == invocation_line(invocation.deep_view()),
{
    text::join2(invocation.program.as_str(), linux::quote_words(&invocation.args).as_str())
}

/// The line that opens what a dry run prints.
pub open spec fn dry_run_header(run: RunView) -> Seq<char> {
    "# stack: "@ + run.resolved.stack + "  image: "@ + run.spec.image + "  backend: "@
        + backend::engine_name(run.engine)
}

/// The lines on the files that an invocation needs.
pub open spec fn file_lines(files: Seq<(Seq<char>, Seq<char>)>) -> Seq<Seq<char>> {
    Seq::new(files.len(), |i: int| "# (would write "@ + files[i].0 + " )"@)
}

/// What a dry run prints in place of launching an invocation.
pub open spec fn dry_run_lines(run: RunView, invocation: InvocationView) -> Seq<Seq<char>> {
    seq![dry_run_header(run), invocation_line(invocation)] + file_lines(invocation.generated_files)
}

/// What a dry run prints in place of executing in a container.
pub open spec fn dry_run_in_container(
    run: RunView,
    name: Seq<char>,
    state: ContainerState,
    setup: Option<InvocationView>,
    execution: InvocationView,
) -> Seq<Seq<char>> {
    seq![
        dry_run_header(run) + "  container: "@ + name + " (state: "@ + container::state_name(state)
            + ")"@,
    ] + (match setup {
        Some(invocation) => seq![invocation_line(invocation)],
        None => Seq::empty(),
    }) + seq![invocation_line(execution)]
}

/// A run that is over.
pub open spec fn ended(run: RunView) -> RunView {
    RunView { phase: PhaseView::Ended, ..run }
}

/// A run that failed.
pub open spec fn failed(run: RunView, e: RunErrorView) -> (RunView, ActionView) {
    (ended(run), ActionView::Fail(e))
}

/// The failure of a run whose engine's tool is not there.
pub open spec fn unavailable(run: RunView) -> (RunView, ActionView) {
    failed(
        run,
        RunErrorView::Unavailable(
            Unavailable { engine: run.engine, platform: run.setting.platform },
        ),
    )
}

/// Whether the tool of a run's engine is there.
pub open spec fn is_available(run: RunView) -> bool {
    backend::has_tool(run.engine, run.setting.tools)
}

/// The writing of the next generated file, or the launch if all are written.
pub open spec fn write_or_launch(run: RunView, invocation: InvocationView, next: nat) -> (
    RunView,
    ActionView,
) {
    if next < invocation.generated_files.len() {
        (
            RunView { phase: PhaseView::Writing { invocation, next }, ..run },
            ActionView::WriteFile {
                path: invocation.generated_files[next as int].0,
                content: invocation.generated_files[next as int].1,
            },
        )
    } else {
        (
            RunView { phase: PhaseView::Launching(invocation), ..run },
            ActionView::Launch(invocation),
        )
    }
}

/// The launch of a sandbox of its own, once its image is settled.
pub open spec fn launch_alone(run: RunView) -> (RunView, ActionView) {
    match backend::invocation_for(
        run.engine,
        run.spec,
        run.setting.identity,
        run.setting.scratch_dir,
    ) {
        Err(e) => failed(run, RunErrorView::Backend(e)),
        Ok(invocation) => if run.setting.dry_run {
            (ended(run), ActionView::Print(dry_run_lines(run, invocation)))
        } else if !is_available(run) {
            unavailable(run)
        } else {
            write_or_launch(run, invocation, 0)
        },
    }
}

/// What follows once the image is settled: the inspection of the container,
/// or the launch.
pub open spec fn with_image(run: RunView) -> (RunView, ActionView) {
    match run.route {
        RouteView::Persistent { engine, name } => (
            RunView { phase: PhaseView::Inspecting, ..run },
            ActionView::Inspect(container::inspection(engine, name)),
        ),
        RouteView::OneShot => launch_alone(run),
    }
}

/// The search for the cached image, if one is needed.
pub open spec fn settle_image(run: RunView, engine: ContainerEngine) -> (RunView, ActionView) {
    match cache::image_needed(run.resolved, run.spec) {
        Some(image) => (
            RunView { phase: PhaseView::ImageCheck { engine }, ..run },
            ActionView::CheckImage(cache::image_inspection(engine, image.tag)),
        ),
        None => with_image(run),
    }
}

/// The first step of a run.
pub open spec fn first_step(run: RunView) -> (RunView, ActionView) {
    match run.route {
        RouteView::Persistent { engine, name } => if run.setting.dry_run {
            with_image(run)
        } else if !is_available(run) {
            unavailable(run)
        } else {
            settle_image(run, engine)
        },
        RouteView::OneShot => match backend::container_engine(run.engine) {
            Some(engine) => if run.setting.dry_run {
                launch_alone(run)
            } else {
                settle_image(run, engine)
            },
            None => launch_alone(run),
        },
    }
}

/// What follows when the cached image exists or was built.
pub open spec fn image_settled(run: RunView, engine: ContainerEngine, source: ImageSource) -> (
    RunView,
    ActionView,
) {
    let cached = cache::cached_launch(engine, run.resolved, run.spec, source);
    match cached.1 {
        Ok(_) => with_image(RunView { spec: cached.0, ..run }),
        Err(e) => failed(run, RunErrorView::Build(e)),
    }
}

/// The build of the cached image.
pub open spec fn build_step(run: RunView, engine: ContainerEngine) -> (RunView, ActionView) {
    match cache::image_needed(run.resolved, run.spec) {
        Some(image) => (
            RunView { phase: PhaseView::ImageBuild { engine }, ..run },
            ActionView::BuildImage {
                invocation: cache::image_build(engine, image.tag),
                dockerfile: image.dockerfile,
            },
        ),
        None => with_image(run),
    }
}

/// What follows the inspection of the container.
pub open spec fn inspected(run: RunView, printed: Option<Seq<char>>) -> (RunView, ActionView) {
    match run.route {
        RouteView::Persistent { engine, name } => {
            let state = container::shown_state(printed);
            let setup = container::preparation(engine, run.spec, name, run.setting.identity, state);
            let execution = container::execution(engine, run.spec, name, run.setting.identity);
            if run.setting.dry_run {
                (
                    ended(run),
                    ActionView::Print(dry_run_in_container(run, name, state, setup, execution)),
                )
            } else {
                match setup {
                    Some(invocation) => (
                        RunView { phase: PhaseView::Preparing(invocation), ..run },
                        ActionView::Prepare(invocation),
                    ),
                    None => (
                        RunView { phase: PhaseView::Launching(execution), ..run },
                        ActionView::Launch(execution),
                    ),
                }
            }
        },
        RouteView::OneShot => failed(run, RunErrorView::OutOfTurn),
    }
}

/// What follows the creation or the start of the container.
pub open spec fn prepared(run: RunView, invocation: InvocationView, outcome: Outcome) -> (
    RunView,
    ActionView,
) {
    match run.route {
        RouteView::Persistent { engine, name } => if outcome is NotStarted {
            failed(run, RunErrorView::NotExecuted { program: invocation.program })
        } else if !outcome.is_success() {
            failed(
                run,
                RunErrorView::NotPrepared {
                    program: invocation.program,
                    args: text::joined(invocation.args, " "@),
                    name,
                },
            )
        } else {
            let execution = container::execution(engine, run.spec, name, run.setting.identity);
            (
                RunView { phase: PhaseView::Launching(execution), ..run },
                ActionView::Launch(execution),
            )
        },
        RouteView::OneShot => failed(run, RunErrorView::OutOfTurn),
    }
}

/// The end of a run whose command has ended.
pub open spec fn launched(run: RunView, invocation: InvocationView, outcome: Outcome) -> (
    RunView,
    ActionView,
) {
    match outcome {
        Outcome::NotStarted => failed(
            run,
            RunErrorView::NotExecuted { program: invocation.program },
        ),
        Outcome::Exited { code: Some(code) } => (ended(run), ActionView::Exit(code)),
        Outcome::Exited { code: None } => (ended(run), ActionView::Exit(1)),
    }
}

/// What a run does next.
pub open spec fn next_step(run: RunView, event: EventView) -> (RunView, ActionView) {
    match (run.phase, event) {
        (PhaseView::ImageCheck { engine }, EventView::Finished(outcome)) => {
            if outcome.is_success() {
                image_settled(run, engine, ImageSource::Present)
            } else {
                build_step(run, engine)
            }
        },
        (PhaseView::ImageBuild { engine }, EventView::Built(outcome)) => {
            image_settled(run, engine, ImageSource::Built(outcome))
        },
        (PhaseView::Inspecting, EventView::Inspected(printed)) => inspected(run, printed),
        (PhaseView::Preparing(invocation), EventView::Finished(outcome)) => {
            prepared(run, invocation, outcome)
        },
        (PhaseView::Writing { invocation, next }, EventView::Written(done)) => {
            if next >= invocation.generated_files.len() {
                failed(run, RunErrorView::OutOfTurn)
            } else if done {
                write_or_launch(run, invocation, next + 1)
            } else {
                failed(
                    run,
                    RunErrorView::NotWritten {
                        path: invocation.generated_files[next as int].0,
                    },
                )
            }
        },
        (PhaseView::Launching(invocation), EventView::Finished(outcome)) => {
            launched(run, invocation, outcome)
        },
        _ => failed(run, RunErrorView::OutOfTurn),
    }
}

fn header_line(run: &Run) -> (r: String)
    ensures
        r@ == dry_run_header(run.deep_view()),
{
    let mut r = text::join3("# stack: ", run.resolved.stack.as_str(), "  image: ");
    r.append(run.spec.image.as_str());
    r.append("  backend: ");
    r.append(run.engine.name());
    r
}

/// What a dry run prints in place of launching an invocation.
fn print_dry_run(run: &Run, invocation: &Invocation) -> (r: Vec<String>)
    ensures
        r.deep_view() == dry_run_lines(run.deep_view(), invocation.deep_view()),
{
    let mut r = text::no_strings();
    text::push_string(&mut r, header_line(run));
    text::push_string(&mut r, print_invocation_line(invocation));
    let ghost head = r.deep_view();
    let ghost expected = file_lines(invocation.deep_view().generated_files);
    let mut i: usize = 0;
    assert(head + expected.take(0) =~= head);
    while i < invocation.generated_files.len()
        invariant
            expected == file_lines(invocation.deep_view().generated_files),
            i <= invocation.generated_files@.len(),
            r.deep_view() == head + expected.take(i as int),
        decreases invocation.generated_files@.len() - i,
    {
        let path = invocation.generated_files[i].0.as_str();
        text::push_string(&mut r, text::join3("# (would write ", path, " )"));
        assert(expected[i as int] == "# (would write "@ + path@ + " )"@);
        assert(head + expected.take(i + 1) =~= (head + expected.take(i as int)).push(
            expected[i as int],
        ));
        i += 1;
    }
    assert(expected.take(i as int) =~= expected);
    r
}

/// What a dry run prints in place of executing in a container.
fn print_dry_run_in_container(
    run: &Run,
    name: &str,
    state: ContainerState,
    setup: &Option<Invocation>,
    execution: &Invocation,
) -> (r: Vec<String>)
    ensures
        r.deep_view() == dry_run_in_container(
            run.deep_view(),
            name@,
            state,
            setup.deep_view(),
            execution.deep_view(),
        ),
{
    let mut header = header_line(run);
    header.append("  container: ");
    header.append(name);
    header.append(" (state: ");
    header.append(state.name());
    header.append(")");
    let mut r = text::no_strings();
    text::push_string(&mut r, header);
    if let Some(invocation) = setup {
        text::push_string(&mut r, print_invocation_line(invocation));
    }
    text::push_string(&mut r, print_invocation_line(execution));
    r
}

impl Run {
    fn fail(self, e: RunError) -> (r: (Run, Action))
        ensures
            (r.0.deep_view(), r.1.deep_view()) == failed(self.deep_view(), e.deep_view()),
    {
        let mut run = self;
        run.phase = Phase::Ended;
        (run, Action::Fail(e))
    }

    fn write_or_launch(self, invocation: Invocation, next: usize) -> (r: (Run, Action))
        ensures
            (r.0.deep_view(), r.1.deep_view()) == write_or_launch(
                self.deep_view(),
                invocation.deep_view(),
                next as nat,
            ),
    {
        let mut run = self;
        let ghost files = invocation.generated_files.deep_view();
        assert(files.len() == invocation.generated_files@.len());
        if next < invocation.generated_files.len() {
            let path = invocation.generated_files[next].0.clone();
            let content = invocation.generated_files[next].1.clone();
            assert(files[next as int] == (path@, content@));
            run.phase = Phase::Writing { invocation, next };
            (run, Action::WriteFile { path, content })
        } else {
            run.phase = Phase::Launching(invocation.clone());
            (run, Action::Launch(invocation))
        }
    }

    fn launch_alone(self) -> (r: (Run, Action))
        ensures
            (r.0.deep_view(), r.1.deep_view()) == launch_alone(self.deep_view()),
    {
        let built = backend::build_invocation(
            self.engine,
            &self.spec,
            &self.setting.identity,
            self.setting.scratch_dir.as_str(),
        );
        let invocation = match built {
            Ok(invocation) => invocation,
            Err(e) => return self.fail(RunError::Backend(e)),
        };
        if self.setting.dry_run {
            let lines = print_dry_run(&self, &invocation);
            let mut run = self;
            run.phase = Phase::Ended;
            return (run, Action::Print(lines));
        }
        match backend::ensure_available(self.engine, self.setting.platform, &self.setting.tools) {
            Ok(_) => self.write_or_launch(invocation, 0),
            Err(e) => self.fail(RunError::Unavailable(e)),
        }
    }

    fn with_image(self) -> (r: (Run, Action))
        ensures
            (r.0.deep_view(), r.1.deep_view()) == with_image(self.deep_view()),
    {
        let inspection = match &self.route {
            Route::Persistent { engine, name } => Some(
                container::inspect_invocation(*engine, name.as_str()),
            ),
            Route::OneShot => None,
        };
        match inspection {
            Some(invocation) => {
                let mut run = self;
                run.phase = Phase::Inspecting;
                (run, Action::Inspect(invocation))
            },
            None => self.launch_alone(),
        }
    }

    fn settle_image(self, engine: ContainerEngine) -> (r: (Run, Action))
        ensures
            (r.0.deep_view(), r.1.deep_view()) == settle_image(self.deep_view(), engine),
    {
        match cache::needed_image(&self.resolved, &self.spec) {
            Some(image) => {
                let mut run = self;
                run.phase = Phase::ImageCheck { engine };
                (
                    run,
                    Action::CheckImage(cache::image_exists_invocation(engine, image.tag.as_str())),
                )
            },
            None => self.with_image(),
        }
    }

    fn build_step(self, engine: ContainerEngine) -> (r: (Run, Action))
        ensures
            (r.0.deep_view(), r.1.deep_view()) == build_step(self.deep_view(), engine),
    {
        match cache::needed_image(&self.resolved, &self.spec) {
            Some(image) => {
                let mut run = self;
                run.phase = Phase::ImageBuild { engine };
                let invocation = cache::build_image_invocation(engine, image.tag.as_str());
                (run, Action::BuildImage { invocation, dockerfile: image.dockerfile })
            },
            None => self.with_image(),
        }
    }

    fn image_settled(self, engine: ContainerEngine, source: ImageSource) -> (r: (Run, Action))
        ensures
            (r.0.deep_view(), r.1.deep_view()) == image_settled(self.deep_view(), engine, source),
    {
        let ghost before = self.deep_view();
        let Run { setting, route, engine: chosen, resolved, spec, phase } = self;
        let mut spec = spec;
        let cached = cache::ensure_cached_image(engine, &resolved, &mut spec, source);
        let run = Run { setting, route, engine: chosen, resolved, spec, phase };
        match cached {
            Ok(_) => run.with_image(),
            Err(e) => {
                assert(run.deep_view() =~= before);
                run.fail(RunError::Build(e))
            },
        }
    }

    fn first_step(self) -> (r: (Run, Action))
        ensures
            (r.0.deep_view(), r.1.deep_view()) == first_step(self.deep_view()),
    {
        let persistent = match &self.route {
            Route::Persistent { engine, .. } => Some(*engine),
            Route::OneShot => None,
        };
        if let Some(engine) = persistent {
            if self.setting.dry_run {
                return self.with_image();
            }
            return match backend::ensure_available(
                self.engine,
                self.setting.platform,
                &self.setting.tools,
            ) {
                Ok(_) => self.settle_image(engine),
                Err(e) => self.fail(RunError::Unavailable(e)),
            };
        }
        if !self.setting.dry_run {
            if let Some(engine) = self.engine.as_container_engine() {
                return self.settle_image(engine);
            }
        }
        self.launch_alone()
    }

    fn inspected(self, printed: &Option<String>) -> (r: (Run, Action))
        ensures
            (r.0.deep_view(), r.1.deep_view()) == inspected(
                self.deep_view(),
                printed.deep_view(),
            ),
    {
        let state = container::inspect(printed);
        let built = match &self.route {
            Route::Persistent { engine, name } => {
                let setup = container::setup_invocation(
                    *engine,
                    &self.spec,
                    name.as_str(),
                    &self.setting.identity,
                    state,
                );
                let execution = container::exec_invocation(
                    *engine,
                    &self.spec,
                    name.as_str(),
                    &self.setting.identity,
                );
                let lines = print_dry_run_in_container(
                    &self,
                    name.as_str(),
                    state,
                    &setup,
                    &execution,
                );
                Some((setup, execution, lines))
            },
            Route::OneShot => None,
        };
        let (setup, execution, lines) = match built {
            Some(built) => built,
            None => return self.fail(RunError::OutOfTurn),
        };
        let mut run = self;
        if run.setting.dry_run {
            run.phase = Phase::Ended;
            return (run, Action::Print(lines));
        }
        match setup {
            Some(invocation) => {
                run.phase = Phase::Preparing(invocation.clone());
                (run, Action::Prepare(invocation))
            },
            None => {
                run.phase = Phase::Launching(execution.clone());
                (run, Action::Launch(execution))
            },
        }
    }

    fn prepared(self, invocation: Invocation, outcome: Outcome) -> (r: (Run, Action))
        ensures
            (r.0.deep_view(), r.1.deep_view()) == prepared(
                self.deep_view(),
                invocation.deep_view(),
                outcome,
            ),
    {
        let built = match &self.route {
            Route::Persistent { engine, name } => Some(
                (
                    container::exec_invocation(
                        *engine,
                        &self.spec,
                        name.as_str(),
                        &self.setting.identity,
                    ),
                    name.clone(),
                ),
            ),
            Route::OneShot => None,
        };
        let (execution, name) = match built {
            Some(built) => built,
            None => return self.fail(RunError::OutOfTurn),
        };
        if let Outcome::NotStarted = outcome {
            return self.fail(RunError::NotExecuted { program: invocation.program });
        }
        if !outcome.success() {
            let args = text::join(&invocation.args, " ");
            return self.fail(RunError::NotPrepared { program: invocation.program, args, name });
        }
        let mut run = self;
        run.phase = Phase::Launching(execution.clone());
        (run, Action::Launch(execution))
    }

    fn launched(self, invocation: Invocation, outcome: Outcome) -> (r: (Run, Action))
        ensures
            (r.0.deep_view(), r.1.deep_view()) == launched(
                self.deep_view(),
                invocation.deep_view(),
                outcome,
            ),
    {
        let code: i32 = match outcome {
            Outcome::NotStarted => {
                return self.fail(RunError::NotExecuted { program: invocation.program });
            },
            Outcome::Exited { code: Some(code) } => code,
            Outcome::Exited { code: None } => 1,
        };
        let mut run = self;
        run.phase = Phase::Ended;
        (run, Action::Exit(code))
    }

    /// Takes in how the last step ended, and says what to do next.
    pub fn step(self, event: Event) -> (r: (Run, Action))
        ensures
            (r.0.deep_view(), r.1.deep_view()) == next_step(self.deep_view(), event.deep_view()),
    {
        let ghost before = self.deep_view();
        let Run { setting, route, engine: chosen, resolved, spec, phase } = self;
        let run = Run { setting, route, engine: chosen, resolved, spec, phase: Phase::Ended };
        assert(run.deep_view() =~= ended(before));
        match phase {
            Phase::ImageCheck { engine } => if let Event::Finished(outcome) = event {
                if outcome.success() {
                    return run.image_settled(engine, ImageSource::Present);
                }
                return run.build_step(engine);
            },
            Phase::ImageBuild { engine } => if let Event::Built(outcome) = event {
                return run.image_settled(engine, ImageSource::Built(outcome));
            },
            Phase::Inspecting => if let Event::Inspected(printed) = event {
                return run.inspected(&printed);
            },
            Phase::Preparing(invocation) => if let Event::Finished(outcome) = event {
                return run.prepared(invocation, outcome);
            },
            Phase::Writing { invocation, next } => if let Event::Written(done) = event {
                assert(invocation.deep_view().generated_files.len()
                    == invocation.generated_files@.len());
                if next < invocation.generated_files.len() {
                    if done {
                        return run.write_or_launch(invocation, next + 1);
                    }
                    let path = invocation.generated_files[next].0.clone();
                    assert(invocation.deep_view().generated_files[next as int].0 == path@);
                    return run.fail(RunError::NotWritten { path });
                }
            },
            Phase::Launching(invocation) => if let Event::Finished(outcome) = event {
                return run.launched(invocation, outcome);
            },
            Phase::Ended => {},
        }
        run.fail(RunError::OutOfTurn)
    }
}

/// The route of a launch, or why there is none.
///
/// Persistence is the default: every `gpubox run` reattaches to a container -
/// the shared one, or `gpubox-<name>` with `--name <name>` - rather than a
/// one-off `--rm` container. `--rm` opts back into the throwaway behavior.
/// Backends with no notion of a persistent container silently get a sandbox
/// of their own - unless the user *explicitly* asked for `--name` on one of
/// them, which is an error rather than being quietly ignored.
pub open spec fn route_for(engine: Engine, overrides: OverridesView) -> Result<
    RouteView,
    RunErrorView,
> {
    if overrides.ephemeral {
        Ok(RouteView::OneShot)
    } else {
        match backend::container_engine(engine) {
            Some(container_engine) => Ok(
                RouteView::Persistent {
                    engine: container_engine,
                    name: container::container_for(overrides.name),
                },
            ),
            None => if overrides.name is Some {
                Err(RunErrorView::NameUnsupported { engine })
            } else {
                Ok(RouteView::OneShot)
            },
        }
    }
}

fn choose_route(engine: Engine, overrides: &Overrides) -> (r: Result<Route, RunError>)
    ensures
        match r {
            Ok(route) => route_for(engine, overrides.deep_view()) == Ok::<RouteView, RunErrorView>(
                route.deep_view(),
            ),
            Err(e) => route_for(engine, overrides.deep_view()) == Err::<RouteView, RunErrorView>(
                e.deep_view(),
            ),
        },
{
    if overrides.ephemeral {
        return Ok(Route::OneShot);
    }
    match engine.as_container_engine() {
        Some(container_engine) => Ok(
            Route::Persistent {
                engine: container_engine,
                name: container::full_name(&overrides.name),
            },
        ),
        None => if overrides.name.is_some() {
            Err(RunError::NameUnsupported { engine })
        } else {
            Ok(Route::OneShot)
        },
    }
}

/// The beginning of the run of a plan.
pub open spec fn begun(
    plan: PlanView,
    overrides: OverridesView,
    setting: SettingView,
) -> Result<(RunView, ActionView), RunErrorView> {
    match route_for(plan.engine, overrides) {
        Err(e) => Err(e),
        Ok(route) => Ok(
            first_step(
                RunView {
                    setting,
                    route,
                    engine: plan.engine,
                    resolved: plan.resolved,
                    spec: plan.spec,
                    phase: PhaseView::Ended,
                },
            ),
        ),
    }
}

/// Begins the run of a plan.
pub fn begin(plan: Plan, overrides: &Overrides, setting: Setting) -> (r: Result<
    (Run, Action),
    RunError,
>)
    ensures
        match r {
            Ok((run, action)) => begun(
                plan.deep_view(),
                overrides.deep_view(),
                setting.deep_view(),
            ) == Ok::<(RunView, ActionView), RunErrorView>((run.deep_view(), action.deep_view())),
            Err(e) => begun(plan.deep_view(), overrides.deep_view(), setting.deep_view()) == Err::<
                (RunView, ActionView),
                RunErrorView,
            >(e.deep_view()),
        },
{
    let route = match choose_route(plan.engine, overrides) {
        Ok(route) => route,
        Err(e) => return Err(e),
    };
    let run = Run {
        setting,
        route,
        engine: plan.engine,
        resolved: plan.resolved,
        spec: plan.spec,
        phase: Phase::Ended,
    };
    Ok(run.first_step())
}

/// The setting of a run on a host.
pub open spec fn setting_on(host: HostView, dry_run: bool, scratch_dir: Seq<char>) -> SettingView {
    SettingView {
        dry_run,
        platform: host.platform,
        tools: host.tools,
        identity: mounts::user_of(host.env),
        scratch_dir,
    }
}

/// The beginning of `gpubox run`: without a command it is an interactive
/// shell.
pub open spec fn executed(
    ids: PciIdsView,
    quirks: QuirksDbView,
    host: HostView,
    overrides: OverridesView,
    command: Seq<Seq<char>>,
    dry_run: bool,
    scratch_dir: Seq<char>,
) -> Result<(RunView, ActionView), RunErrorView> {
    match launch::launch_plan(ids, quirks, host, overrides, command, command.len() == 0) {
        Ok(plan) => begun(plan, overrides, setting_on(host, dry_run, scratch_dir)),
        Err(e) => Err(RunErrorView::Plan(e)),
    }
}

/// Plans a launch on the host and begins its run. With no command this is an
/// interactive shell; with one it runs non-interactively.
pub fn execute(
    ids: &PciIds,
    quirks: &QuirksDb,
    host: &Host,
    overrides: &Overrides,
    command: Vec<String>,
    dry_run: bool,
    scratch_dir: &str,
) -> (r: Result<(Run, Action), RunError>)
    ensures
        match r {
            Ok((run, action)) => executed(
                ids.deep_view(),
                quirks.deep_view(),
                host.deep_view(),
                overrides.deep_view(),
                command.deep_view(),
                dry_run,
                scratch_dir@,
            ) == Ok::<(RunView, ActionView), RunErrorView>((run.deep_view(), action.deep_view())),
            Err(e) => executed(
                ids.deep_view(),
                quirks.deep_view(),
                host.deep_view(),
                overrides.deep_view(),
                command.deep_view(),
                dry_run,
                scratch_dir@,
            ) == Err::<(RunView, ActionView), RunErrorView>(e.deep_view()),
        },
{
    assert(command.deep_view().len() == command@.len());
    let interactive = command.len() == 0;
    let plan = match launch::plan(ids, quirks, host, overrides, command, interactive) {
        Ok(plan) => plan,
        Err(e) => return Err(RunError::Plan(e)),
    };
    let setting = Setting {
        dry_run,
        platform: host.platform,
        tools: host.tools,
        identity: mounts::current_identity(&host.env),
        scratch_dir: scratch_dir.to_string(),
    };
    begin(plan, overrides, setting)
}

/// How far a run still is from its end.
pub open spec fn stage(phase: PhaseView) -> nat {
    match phase {
        PhaseView::ImageCheck { .. } => 6,
        PhaseView::ImageBuild { .. } => 5,
        PhaseView::Inspecting => 4,
        PhaseView::Preparing(_) => 3,
        PhaseView::Writing { .. } => 2,
        PhaseView::Launching(_) => 1,
        PhaseView::Ended => 0,
    }
}

/// How many files a run still has to write.
pub open spec fn files_left(phase: PhaseView) -> nat {
    match phase {
        PhaseView::Writing { invocation, next } => (if next < invocation.generated_files.len() {
            (invocation.generated_files.len() - next) as nat
        } else {
            0
        }),
        _ => 0,
    }
}

/// Whether an action asks the caller for nothing more.
pub open spec fn is_last(action: ActionView) -> bool {
    action is Print || action is Exit || action is Fail
}

/// Every run ends: each step brings it nearer to its end, and it is over
/// exactly when the last action was given.
#[verifier::spinoff_prover]
#[verifier::rlimit(50)]
pub proof fn law_every_run_ends(run: RunView, event: EventView)
    requires
        run.phase !is Ended,
    ensures
        stage(next_step(run, event).0.phase) < stage(run.phase) || (stage(
            next_step(run, event).0.phase,
        ) == stage(run.phase) && files_left(next_step(run, event).0.phase) < files_left(
            run.phase,
        )),
        next_step(run, event).0.phase is Ended <==> is_last(next_step(run, event).1),
{
}

/// A run that is over stays over.
pub proof fn law_ended_runs_stay_ended(run: RunView, event: EventView)
    requires
        run.phase is Ended,
    ensures
        next_step(run, event) == (run, ActionView::Fail(RunErrorView::OutOfTurn)),
{
}

/// Whether an action leaves the host as it is.
pub open spec fn is_harmless(action: ActionView) -> bool {
    action is Inspect || action is Print || action is Fail
}

/// Whether a run is one that its own steps can lead to: a dry run only ever
/// waits for an inspection, and a run that has passed the check of its
/// engine's tool has the tool.
pub open spec fn is_sound(run: RunView) -> bool {
    &&& run.setting.dry_run ==> run.phase is Inspecting || run.phase is Ended
    &&& run.phase is Inspecting || run.phase is Preparing ==> run.route is Persistent
    &&& !run.setting.dry_run && run.route is Persistent && run.phase !is Ended ==> is_available(run)
    &&& run.phase is Writing || run.phase is Launching ==> is_available(run)
}

proof fn sound_with_image(run: RunView)
    requires
        !run.setting.dry_run && run.route is Persistent ==> is_available(run),
    ensures
        is_sound(with_image(run).0),
{
    if run.route is OneShot {
        match backend::invocation_for(
            run.engine,
            run.spec,
            run.setting.identity,
            run.setting.scratch_dir,
        ) {
            Ok(invocation) => {
                assert(is_sound(launch_alone(run).0));
            },
            Err(e) => {},
        }
    }
}

/// A run begins sound.
pub proof fn law_runs_begin_sound(plan: PlanView, overrides: OverridesView, setting: SettingView)
    ensures
        begun(plan, overrides, setting) matches Ok((run, _)) ==> is_sound(run),
{
    match route_for(plan.engine, overrides) {
        Ok(route) => {
            let run = RunView {
                setting,
                route,
                engine: plan.engine,
                resolved: plan.resolved,
                spec: plan.spec,
                phase: PhaseView::Ended,
            };
            if !run.setting.dry_run && run.route is Persistent && !is_available(run) {
                assert(is_sound(first_step(run).0));
            } else {
                sound_with_image(run);
                assert(is_sound(first_step(run).0));
            }
        },
        Err(e) => {},
    }
}

/// Each step keeps a run sound.
pub proof fn law_steps_keep_runs_sound(run: RunView, event: EventView)
    requires
        is_sound(run),
    ensures
        is_sound(next_step(run, event).0),
{
    match (run.phase, event) {
        (PhaseView::ImageCheck { engine }, EventView::Finished(outcome)) => {
            let cached = cache::cached_launch(
                engine,
                run.resolved,
                run.spec,
                ImageSource::Present,
            );
            sound_with_image(RunView { spec: cached.0, ..run });
            sound_with_image(run);
        },
        (PhaseView::ImageBuild { engine }, EventView::Built(outcome)) => {
            let cached = cache::cached_launch(
                engine,
                run.resolved,
                run.spec,
                ImageSource::Built(outcome),
            );
            sound_with_image(RunView { spec: cached.0, ..run });
        },
        _ => {},
    }
}

/// A dry run changes nothing: it asks for no more than an inspection of the
/// container, and prints what would be run.
pub proof fn law_dry_run_changes_nothing(
    plan: PlanView,
    overrides: OverridesView,
    setting: SettingView,
    run: RunView,
    event: EventView,
)
    requires
        setting.dry_run,
        run.setting.dry_run,
        is_sound(run),
    ensures
        begun(plan, overrides, setting) matches Ok((_, action)) ==> is_harmless(action),
        is_harmless(next_step(run, event).1),
        next_step(run, event).0.setting == run.setting,
{
}

/// Nothing is launched, prepared or written for an engine whose tool is not
/// there.
pub proof fn law_only_available_engines_run(
    plan: PlanView,
    overrides: OverridesView,
    setting: SettingView,
    run: RunView,
    event: EventView,
)
    requires
        is_sound(run),
    ensures
        begun(plan, overrides, setting) matches Ok((first, action)) ==> (action is Launch
            || action is Prepare || action is WriteFile ==> is_available(first)),
        next_step(run, event).1 is Launch || next_step(run, event).1 is Prepare || next_step(
            run,
            event,
        ).1 is WriteFile ==> is_available(run),
{
}

/// A container that could not be created or started is not executed in, and
/// an image that could not be built is not launched.
pub proof fn law_failed_setup_launches_nothing(run: RunView, event: EventView)
    requires
        run.phase is Preparing && (event matches EventView::Finished(outcome)
            && !outcome.is_success()) || run.phase is ImageBuild && (event matches EventView::Built(
            outcome,
        ) && outcome != (BuildOutcome::Exited { code: Some(0i32) })) && cache::image_needed(
            run.resolved,
            run.spec,
        ) is Some,
    ensures
        next_step(run, event).1 is Fail,
{
}

/// Once the image is settled, nothing is left to install: the packages are in
/// the image, with `--rm` or without.
pub proof fn law_settled_images_install_nothing(run: RunView, event: EventView)
    requires
        run.phase is ImageCheck || run.phase is ImageBuild,
        next_step(run, event).1 !is Fail,
        next_step(run, event).1 !is BuildImage,
    ensures
        next_step(run, event).0.spec.packages.len() == 0,
        linux::install_step(next_step(run, event).0.spec.packages) == Seq::<char>::empty(),
{
}

/// Without `--rm`, a Docker/Podman launch always goes to a persistent
/// container, and which one depends on `--name` alone: neither the hardware,
/// the stack, the image nor the user bears on it.
pub proof fn law_persistence_is_the_default(engine: Engine, overrides: OverridesView)
    requires
        !overrides.ephemeral,
        backend::container_engine(engine) is Some,
    ensures
        route_for(engine, overrides) == Ok::<RouteView, RunErrorView>(
            RouteView::Persistent {
                engine: backend::container_engine(engine).unwrap(),
                name: container::container_for(overrides.name),
            },
        ),
        overrides.name is None ==> container::container_for(overrides.name)
            == container::DEFAULT_CONTAINER_NAME@,
{
}

/// `gpubox run` on a Linux host, whatever its hardware and whatever the
/// command: the run begins, and it goes to the one shared container.
pub proof fn law_plain_run_uses_the_shared_container(
    ids: PciIdsView,
    quirks: QuirksDbView,
    host: HostView,
    command: Seq<Seq<char>>,
    dry_run: bool,
    scratch_dir: Seq<char>,
)
    requires
        stack::quirks_fault(quirks) is None,
        host.platform == Platform::Linux,
    ensures
        executed(ids, quirks, host, launch::no_overrides(), command, dry_run, scratch_dir) matches
            Ok((run, _)) && run.route == (RouteView::Persistent {
            engine: backend::container_engine(run.engine).unwrap(),
            name: container::DEFAULT_CONTAINER_NAME@,
        }),
{
    let interactive = command.len() == 0;
    launch::law_every_host_has_a_plan(ids, quirks, host, command, interactive);
    match launch::launch_plan(
        ids,
        quirks,
        host,
        launch::no_overrides(),
        command,
        interactive,
    ) {
        Ok(plan) => {
            backend::law_linux_default_is_a_container_engine(plan.resolved.stack, host.tools);
        },
        Err(e) => {},
    }
}

/// With `--rm` no launch is persistent, and backends without persistent
/// containers fall back to a sandbox of its own unless a name was asked for.
pub proof fn law_one_shot_routes(engine: Engine, overrides: OverridesView)
    ensures
        overrides.ephemeral ==> route_for(engine, overrides) == Ok::<
            RouteView,
            RunErrorView,
        >(RouteView::OneShot),
        !overrides.ephemeral && backend::container_engine(engine) is None ==> route_for(
            engine,
            overrides,
        ) == (if overrides.name is None {
            Ok::<RouteView, RunErrorView>(RouteView::OneShot)
        } else {
            Err::<RouteView, RunErrorView>(RunErrorView::NameUnsupported { engine })
        }),
{
}

/// A command is executed in the container that was inspected and, if need be,
/// created or started: a run keeps its route.
pub proof fn law_runs_keep_their_route(run: RunView, event: EventView)
    ensures
        next_step(run, event).0.route == run.route,
        next_step(run, event).0.engine == run.engine,
        next_step(run, event).0.setting == run.setting,
        next_step(run, event).0.spec.command == run.spec.command,
{
}

/// A missing container is created, a stopped one is started, and a running one
/// is executed in at once.
pub proof fn law_containers_are_reattached_to(
    run: RunView,
    engine: ContainerEngine,
    name: Seq<char>,
    printed: Option<Seq<char>>,
)
    requires
        run.phase is Inspecting,
        !run.setting.dry_run,
        run.route == (RouteView::Persistent { engine, name }),
    ensures
        next_step(run, EventView::Inspected(printed)).1 == (match container::shown_state(printed) {
            ContainerState::Missing => ActionView::Prepare(
                container::creation(engine, run.spec, name, run.setting.identity),
            ),
            ContainerState::Stopped => ActionView::Prepare(container::wake_up(engine, name)),
            ContainerState::Running => ActionView::Launch(
                container::execution(engine, run.spec, name, run.setting.identity),
            ),
        }),
{
}

/// A dry run on a container engine: it asks for the state of the container, and
/// then prints the header, the line that creates a missing container or starts
/// a stopped one, and the line that executes the command.
pub proof fn law_dry_run_prints_the_commands(
    plan: PlanView,
    overrides: OverridesView,
    setting: SettingView,
    engine: ContainerEngine,
    printed: Option<Seq<char>>,
)
    requires
        setting.dry_run,
        !overrides.ephemeral,
        backend::container_engine(plan.engine) == Some(engine),
    ensures
        begun(plan, overrides, setting) matches Ok((run, action)) && ({
            let name = container::container_for(overrides.name);
            let state = container::shown_state(printed);
            &&& action == ActionView::Inspect(container::inspection(engine, name))
            &&& run.spec == plan.spec
            &&& next_step(run, EventView::Inspected(printed)) == (
                ended(run),
                ActionView::Print(
                    dry_run_in_container(
                        run,
                        name,
                        state,
                        container::preparation(engine, plan.spec, name, setting.identity, state),
                        container::execution(engine, plan.spec, name, setting.identity),
                    ),
                ),
            )
        }),
{
}

/// A run is of the plan: its engine, its stack and its launch; and it begins on
/// the route that the engine and the overrides ask for.
pub proof fn law_runs_are_of_the_plan(plan: PlanView, overrides: OverridesView, setting: SettingView)
    ensures
        begun(plan, overrides, setting) matches Ok((run, _)) ==> run.engine == plan.engine
            && run.resolved == plan.resolved && run.spec == plan.spec && run.setting == setting
            && route_for(plan.engine, overrides) == Ok::<RouteView, RunErrorView>(run.route),
        begun(plan, overrides, setting) matches Err(e) ==> route_for(plan.engine, overrides)
            == Err::<RouteView, RunErrorView>(e),
{
}

/// How a run in a persistent container begins. A dry run inspects the
/// container, and so does a run with nothing to install; one with packages to
/// install first asks whether its image is there; and where the engine is
/// missing nothing is done at all.
pub proof fn law_persistent_runs_begin(
    plan: PlanView,
    overrides: OverridesView,
    setting: SettingView,
    engine: ContainerEngine,
)
    requires
        !overrides.ephemeral,
        plan.engine == Engine::Docker && engine == ContainerEngine::Docker || plan.engine
            == Engine::Podman && engine == ContainerEngine::Podman,
    ensures
        ({
            let name = match overrides.name {
                Some(name) => "gpubox-"@ + name,
                None => "gpubox"@,
            };
            let there = if engine == ContainerEngine::Docker {
                setting.tools.docker
            } else {
                setting.tools.podman
            };
            begun(plan, overrides, setting) matches Ok((run, action)) && {
                &&& run.route == (RouteView::Persistent { engine, name })
                &&& setting.dry_run || (there && plan.spec.packages.len() == 0) ==> action
                    == ActionView::Inspect(container::inspection(engine, name)) && run.phase
                    is Inspecting
                &&& !setting.dry_run && there && plan.spec.packages.len() > 0 ==> action
                    == ActionView::CheckImage(
                    cache::image_inspection(
                        engine,
                        cache::tag_for(
                            plan.resolved.stack,
                            plan.spec.image,
                            plan.resolved.packages,
                        ),
                    ),
                ) && run.phase == (PhaseView::ImageCheck { engine })
                &&& !setting.dry_run && !there ==> action == ActionView::Fail(
                    RunErrorView::Unavailable(
                        Unavailable { engine: plan.engine, platform: setting.platform },
                    ),
                ) && run.phase is Ended
            }
        }),
{
}

/// How a one-off run begins. A dry run prints its command; a run with Docker or
/// Podman and packages to install first asks whether its image is there; and
/// any other is launched, after the files that it needs are written, if its
/// engine is there.
pub proof fn law_one_off_runs_begin(
    plan: PlanView,
    overrides: OverridesView,
    setting: SettingView,
    invocation: InvocationView,
)
    requires
        overrides.ephemeral || (plan.engine != Engine::Docker && plan.engine != Engine::Podman
            && overrides.name is None),
        backend::invocation_for(plan.engine, plan.spec, setting.identity, setting.scratch_dir)
            == Ok::<InvocationView, BackendError>(invocation),
    ensures
        begun(plan, overrides, setting) matches Ok((run, action)) && {
            let checks = (plan.engine == Engine::Docker || plan.engine == Engine::Podman)
                && plan.spec.packages.len() > 0;
            let there = backend::has_tool(plan.engine, setting.tools);
            &&& run.route is OneShot
            &&& setting.dry_run ==> action == ActionView::Print(dry_run_lines(run, invocation))
            &&& !setting.dry_run && checks ==> action == ActionView::CheckImage(
                cache::image_inspection(
                    if plan.engine == Engine::Docker {
                        ContainerEngine::Docker
                    } else {
                        ContainerEngine::Podman
                    },
                    cache::tag_for(
                        plan.resolved.stack,
                        plan.spec.image,
                        plan.resolved.packages,
                    ),
                ),
            )
            &&& !setting.dry_run && !checks && !there ==> action == ActionView::Fail(
                RunErrorView::Unavailable(
                    Unavailable { engine: plan.engine, platform: setting.platform },
                ),
            )
            &&& !setting.dry_run && !checks && there && invocation.generated_files.len() == 0
                ==> action == ActionView::Launch(invocation)
            &&& !setting.dry_run && !checks && there && invocation.generated_files.len() > 0
                ==> action == (ActionView::WriteFile {
                path: invocation.generated_files[0].0,
                content: invocation.generated_files[0].1,
            })
        },
{
}

/// What follows the question whether the image is there. If it is, the run goes
/// on with it; if not, it is built from its Dockerfile under its tag, and the
/// run goes on once that has been done. Either way a persistent run then
/// inspects its container, and a one-off run is launched on that image.
#[verifier::spinoff_prover]
#[verifier::rlimit(40)]
pub proof fn law_images_are_built_where_missing(
    run: RunView,
    engine: ContainerEngine,
    outcome: Outcome,
    built: RunView,
    name: Seq<char>,
)
    requires
        run.phase == (PhaseView::ImageCheck { engine }),
        built == (RunView { phase: PhaseView::ImageBuild { engine }, ..run }),
        run.spec.packages.len() > 0,
    ensures
        ({
            let tag = cache::tag_for(run.resolved.stack, run.spec.image, run.resolved.packages);
            let success = Outcome::Exited { code: Some(0i32) };
            let found = next_step(run, EventView::Finished(success));
            let made = next_step(
                built,
                EventView::Built(BuildOutcome::Exited { code: Some(0i32) }),
            );
            &&& outcome != success ==> next_step(run, EventView::Finished(outcome)) == (
                built,
                ActionView::BuildImage {
                    invocation: cache::image_build(engine, tag),
                    dockerfile: generate::dockerfile(run.resolved, run.spec.image),
                },
            )
            &&& made == found
            &&& found.0.spec.image == tag
            &&& found.0.spec.packages.len() == 0
            &&& found.0.spec.command == run.spec.command
            &&& found.0.spec.env == run.spec.env
            &&& found.0.spec.mounts == run.spec.mounts
            &&& found.0.spec.device_args == run.spec.device_args
            &&& run.route == (RouteView::Persistent { engine, name }) ==> found.1
                == ActionView::Inspect(container::inspection(engine, name))
            &&& run.route is OneShot && !run.setting.dry_run && run.setting.tools.docker
                && run.engine == Engine::Docker ==> found.1 == ActionView::Launch(
                linux::run_invocation(
                    ContainerEngine::Docker,
                    found.0.spec,
                    run.setting.identity,
                ),
            )
            &&& run.route is OneShot && !run.setting.dry_run && run.setting.tools.podman
                && run.engine == Engine::Podman ==> found.1 == ActionView::Launch(
                linux::run_invocation(
                    ContainerEngine::Podman,
                    found.0.spec,
                    run.setting.identity,
                ),
            )
        }),
{
}

/// The command is executed in the container once that has been created or
/// started; and a container that could not be leaves the command unexecuted.
pub proof fn law_commands_follow_the_preparation(
    run: RunView,
    engine: ContainerEngine,
    name: Seq<char>,
    invocation: InvocationView,
    outcome: Outcome,
)
    requires
        run.phase == PhaseView::Preparing(invocation),
        run.route == (RouteView::Persistent { engine, name }),
    ensures
        outcome == (Outcome::Exited { code: Some(0i32) }) ==> next_step(
            run,
            EventView::Finished(outcome),
        ).1 == ActionView::Launch(
            container::execution(engine, run.spec, name, run.setting.identity),
        ),
        outcome is NotStarted ==> next_step(run, EventView::Finished(outcome)).1
            == ActionView::Fail(RunErrorView::NotExecuted { program: invocation.program }),
        outcome is Exited && outcome != (Outcome::Exited { code: Some(0i32) }) ==> next_step(
            run,
            EventView::Finished(outcome),
        ).1 == ActionView::Fail(
            RunErrorView::NotPrepared {
                program: invocation.program,
                args: text::joined(invocation.args, " "@),
                name,
            },
        ),
{
}

/// The run ends as its command does: with the command's exit code; with one, if
/// a signal ended the command; and with an error, if it never began.
pub proof fn law_exit_codes_are_passed_on(run: RunView, invocation: InvocationView, code: i32)
    requires
        run.phase == PhaseView::Launching(invocation),
    ensures
        next_step(run, EventView::Finished(Outcome::Exited { code: Some(code) })).1
            == ActionView::Exit(code),
        next_step(run, EventView::Finished(Outcome::Exited { code: None })).1 == ActionView::Exit(
            1,
        ),
        next_step(run, EventView::Finished(Outcome::NotStarted)).1 == ActionView::Fail(
            RunErrorView::NotExecuted { program: invocation.program },
        ),
{
}

/// Files are written one after the other, each with its content, and only when
/// all of them are written is the command launched; one that could not be
/// written ends the run.
pub proof fn law_files_are_written_before_the_launch(
    run: RunView,
    invocation: InvocationView,
    next: nat,
)
    requires
        run.phase == (PhaseView::Writing { invocation, next }),
        next < invocation.generated_files.len(),
    ensures
        next + 1 < invocation.generated_files.len() ==> next_step(run, EventView::Written(true)).1
            == (ActionView::WriteFile {
            path: invocation.generated_files[next as int + 1].0,
            content: invocation.generated_files[next as int + 1].1,
        }),
        next + 1 == invocation.generated_files.len() ==> next_step(run, EventView::Written(true)).1
            == ActionView::Launch(invocation),
        next_step(run, EventView::Written(false)).1 == ActionView::Fail(
            RunErrorView::NotWritten { path: invocation.generated_files[next as int].0 },
        ),
{
}

/// `run` is of the plan of its overrides and its command: interactive exactly
/// if there is no command; as the host's user; on the host's platform with the
/// host's tools.
pub proof fn law_runs_are_planned(
    ids: PciIdsView,
    quirks: QuirksDbView,
    host: HostView,
    overrides: OverridesView,
    command: Seq<Seq<char>>,
    dry_run: bool,
    scratch_dir: Seq<char>,
)
    ensures
        executed(ids, quirks, host, overrides, command, dry_run, scratch_dir) matches Ok((run, _))
            ==> {
            &&& run.spec.interactive <==> command.len() == 0
            &&& run.spec.command == command
            &&& run.setting.dry_run == dry_run
            &&& run.setting.platform == host.platform
            &&& run.setting.tools == host.tools
            &&& run.setting.scratch_dir == scratch_dir
            &&& run.setting.identity.uid == host.env.identity.uid
            &&& run.setting.identity.gid == host.env.identity.gid
            &&& run.setting.identity.user == host.env.identity.user
            &&& host.env.home matches Some(home) ==> run.setting.identity.home == home
            &&& host.env.home is None ==> run.setting.identity.home == host.env.identity.home
            &&& launch::launch_plan(
                ids,
                quirks,
                host,
                overrides,
                command,
                command.len() == 0,
            ) matches Ok(plan) && plan.spec == run.spec && plan.engine == run.engine
                && plan.resolved == run.resolved
        },
        launch::launch_plan(ids, quirks, host, overrides, command, command.len() == 0) matches Err(
            e,
        ) ==> executed(ids, quirks, host, overrides, command, dry_run, scratch_dir) == Err::<
            (RunView, ActionView),
            RunErrorView,
        >(RunErrorView::Plan(e)),
{
}

/// What a dry run prints: the stack, the image and the engine; the command line
/// of each invocation, program first and every argument quoted for a shell; and
/// which files would be written.
pub proof fn law_dry_runs_print_what_would_run(
    run: RunView,
    invocation: InvocationView,
    name: Seq<char>,
    state: ContainerState,
    setup: InvocationView,
    i: int,
)
    ensures
        ({
            let lines = dry_run_lines(run, invocation);
            let header = "# stack: "@ + run.resolved.stack + "  image: "@ + run.spec.image
                + "  backend: "@ + backend::engine_name(run.engine);
            let prepared = dry_run_in_container(run, name, state, Some(setup), invocation);
            let running = dry_run_in_container(run, name, state, None, invocation);
            let header_in_container = header + "  container: "@ + name + " (state: "@
                + container::state_name(state) + ")"@;
            &&& lines.len() == 2 + invocation.generated_files.len()
            &&& lines[0] == header
            &&& lines[1] == invocation.program + linux::shell_words(invocation.args)
            &&& 0 <= i < invocation.generated_files.len() ==> lines[2 + i] == "# (would write "@
                + invocation.generated_files[i].0 + " )"@
            &&& prepared.len() == 3
            &&& prepared[0] == header_in_container
            &&& prepared[1] == setup.program + linux::shell_words(setup.args)
            &&& prepared[2] == invocation.program + linux::shell_words(invocation.args)
            &&& running.len() == 2
            &&& running[0] == header_in_container
            &&& running[1] == invocation.program + linux::shell_words(invocation.args)
        }),
{
}

/// What the user is told when a run failed names what failed.
pub proof fn law_run_messages(
    engine: Engine,
    program: Seq<char>,
    args: Seq<char>,
    name: Seq<char>,
    plan: PlanErrorView,
    build: BuildErrorView,
    missing: Unavailable,
)
    ensures
        run_message(RunErrorView::Plan(plan)) == launch::plan_message(plan),
        run_message(RunErrorView::NameUnsupported { engine })
            == "--name is only supported with the docker/podman backends (resolved backend: `"@
            + backend::engine_name(engine) + "`)"@,
        run_message(RunErrorView::Unavailable(missing)) == backend::unavailable_message(missing),
        run_message(RunErrorView::Build(build)) == cache::build_message(build),
        run_message(RunErrorView::NotExecuted { program }) == "failed to execute `"@ + program
            + "`"@,
        run_message(RunErrorView::NotPrepared { program, args, name }) == "`"@ + program + " "@
            + args + "` failed while preparing container `"@ + name + "`"@,
        run_message(RunErrorView::NotWritten { path: name }) == "writing generated file "@ + name,
{
}

/// Whatever happens on the way, a run keeps its launch: all but the image and
/// the packages, which caching settles, stays as it was planned.
#[verifier::spinoff_prover]
#[verifier::rlimit(40)]
pub proof fn law_runs_keep_their_launch(run: RunView, event: EventView)
    ensures
        next_step(run, event).0.resolved == run.resolved,
        next_step(run, event).0.spec == (LaunchSpecView {
            image: next_step(run, event).0.spec.image,
            packages: next_step(run, event).0.spec.packages,
            ..run.spec
        }),
        run.phase !is ImageCheck && run.phase !is ImageBuild ==> next_step(run, event).0.spec
            == run.spec,
        run.spec.packages.len() == 0 ==> next_step(run, event).0.spec == run.spec,
{
    lemma_going_on_keeps_the_launch(run);
    match run.phase {
        PhaseView::ImageCheck { engine } => {
            let cached = cache::cached_launch(engine, run.resolved, run.spec, ImageSource::Present);
            lemma_going_on_keeps_the_launch(RunView { spec: cached.0, ..run });
        },
        PhaseView::ImageBuild { engine } => {
            if let EventView::Built(outcome) = event {
                let cached = cache::cached_launch(
                    engine,
                    run.resolved,
                    run.spec,
                    ImageSource::Built(outcome),
                );
                lemma_going_on_keeps_the_launch(RunView { spec: cached.0, ..run });
            }
        },
        _ => {},
    }
}

proof fn lemma_going_on_keeps_the_launch(run: RunView)
    ensures
        with_image(run).0.spec == run.spec,
        with_image(run).0.resolved == run.resolved,
{
}

} // verus!
