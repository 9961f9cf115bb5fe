//! Persistent containers (`gpubox run` / `gpubox run --name <name>` /
//! `gpubox rm [name]`).
//!
//! Persistence is the default, the same model distrobox/toolbox use: every
//! `gpubox run` reattaches to a single container, [`DEFAULT_CONTAINER_NAME`],
//! shared across every stack/hardware config on the host, unless `--name
//! <name>` asks for a separate one (`gpubox-<name>`) instead. Either way, the
//! first invocation creates it (detached, initialized once via the usual
//! passwd/group/package wrapper), every subsequent one just `exec`s into the
//! already-running container, and it persists across host reboots until
//! `gpubox rm` deletes it. `--rm` opts back into one-off containers.
//!
//! Linux (Docker/Podman) only - Seatbelt runs natively on the host with
//! nothing to persist, and Windows Sandbox always boots a clean VM by design.

use vstd::prelude::*;
use crate::backend::linux;
use crate::backend::linux::ContainerEngine;
use crate::backend::{Invocation, InvocationView, LaunchSpec, LaunchSpecView, Outcome};
use crate::mounts;
use crate::mounts::{Identity, IdentityView};
use crate::text;

verus! {

/// The container name used when no `--name` is given: one shared
/// "personal box" per host, regardless of which stack/hardware config
/// resolved this particular invocation. An explicit `--name <x>` instead
/// produces [`container_name`]'s `gpubox-<x>`.
pub const DEFAULT_CONTAINER_NAME: &'static str = "gpubox";

/// The container of a user-supplied name.
pub open spec fn named_container(name: Seq<char>) -> Seq<char> {
    "gpubox-"@ + name
}

/// Turn a user-supplied `--name` into the actual docker/podman container
/// name gpubox creates, namespaced so it doesn't collide with unrelated
/// containers on the host, and so it can never collide with
/// [`DEFAULT_CONTAINER_NAME`] itself.
pub fn container_name(name: &str) -> (r: String)
    ensures
        r@ == named_container(name@),
{
    text::join2("gpubox-", name)
}

/// The container of an optional `--name`.
pub open spec fn container_for(name: Option<Seq<char>>) -> Seq<char> {
    match name {
        Some(name) => named_container(name),
        None => DEFAULT_CONTAINER_NAME@,
    }
}

/// The container that `run` and `rm` use for an optional name: the shared
/// default one if there is none.
pub fn full_name(name: &Option<String>) -> (r: String)
    ensures
        r@ == container_for(name.deep_view()),
{
    match name {
        Some(name) => container_name(name.as_str()),
        None => DEFAULT_CONTAINER_NAME.to_string(),
    }
}

/// Two names stand for one container only if they are the same name, and none
/// of them stands for the default container.
pub proof fn law_container_names_are_distinct(a: Seq<char>, b: Seq<char>)
    ensures
        named_container(a) == named_container(b) ==> a == b,
        named_container(a) != DEFAULT_CONTAINER_NAME@,
        container_for(Some(a)) == container_for(Some(b)) ==> a == b,
        container_for(Some(a)) != container_for(None),
{
    reveal_strlit("gpubox-");
    reveal_strlit("gpubox");
    let n = "gpubox-"@.len() as int;
    assert(named_container(a).skip(n) =~= a);
    assert(named_container(b).skip(n) =~= b);
    assert(named_container(a).len() > DEFAULT_CONTAINER_NAME@.len());
}

/// Whether a container exists, and if so, whether it runs.
#[derive(Debug, Clone, Copy, PartialEq, Eq, Structural)]
pub enum ContainerState {
    Missing,
    Stopped,
    Running,
}

/// The name of a state, as it is shown to people.
pub open spec fn state_name(state: ContainerState) -> Seq<char> {
    match state {
        ContainerState::Missing => "Missing"@,
        ContainerState::Stopped => "Stopped"@,
        ContainerState::Running => "Running"@,
    }
}

impl ContainerState {
    /// The name of the state, as it is shown to people.
    pub fn name(self) -> (r: &'static str)
        ensures
            r@ == state_name(self),
    {
        match self {
            ContainerState::Missing => "Missing",
            ContainerState::Stopped => "Stopped",
            ContainerState::Running => "Running",
        }
    }
}

/// The command that asks an engine for a container's state.
pub open spec fn inspection(engine: ContainerEngine, name: Seq<char>) -> InvocationView {
    InvocationView {
        program: linux::engine_program(engine),
        args: seq!["inspect"@, "-f"@, "{{.State.Running}}"@, name],
        generated_files: Seq::empty(),
    }
}

/// Build the `<engine> inspect -f {{.State.Running}} <name>` invocation.
pub fn inspect_invocation(engine: ContainerEngine, name: &str) -> (r: Invocation)
    ensures
        r.deep_view() == inspection(engine, name@),
{
    let mut args = text::no_strings();
    text::push_str(&mut args, "inspect");
    text::push_str(&mut args, "-f");
    text::push_str(&mut args, "{{.State.Running}}");
    text::push_str(&mut args, name);
    Invocation {
        program: engine.program().to_string(),
        args,
        generated_files: text::no_pairs(),
    }
}

/// The state that an inspection shows: what it printed, if it succeeded.
pub open spec fn shown_state(printed: Option<Seq<char>>) -> ContainerState {
    match printed {
        Some(printed) => if text::trim(printed) == "true"@ {
            ContainerState::Running
        } else {
            ContainerState::Stopped
        },
        None => ContainerState::Missing,
    }
}

/// Whether the inspected container exists and, if so, whether it's running,
/// by what a successful [`inspect_invocation`] printed. Best-effort: any
/// failure (engine not installed, container genuinely missing) is treated as
/// [`ContainerState::Missing`], since the caller's next step (create it) is
/// the right recovery either way.
pub fn inspect(printed: &Option<String>) -> (r: ContainerState)
    ensures
        r == shown_state(printed.deep_view()),
{
    match printed {
        Some(printed) => {
            let trimmed = text::trimmed(printed.as_str());
            if text::same(trimmed.as_str(), "true") {
                ContainerState::Running
            } else {
                ContainerState::Stopped
            }
        },
        None => ContainerState::Missing,
    }
}

/// The flags with which a persistent container is created.
pub open spec fn create_flags(spec: LaunchSpecView, name: Seq<char>) -> Seq<Seq<char>> {
    seq!["run"@, "-d"@, "--name"@, name] + linux::common_args(spec)
}

/// The command that keeps a persistent container alive.
pub open spec fn keep_alive() -> Seq<Seq<char>> {
    seq!["sleep"@, "infinity"@]
}

/// The invocation that creates a persistent container.
pub open spec fn creation(
    engine: ContainerEngine,
    spec: LaunchSpecView,
    name: Seq<char>,
    identity: IdentityView,
) -> InvocationView {
    InvocationView {
        program: linux::engine_program(engine),
        args: create_flags(spec, name) + seq![spec.image] + linux::wrapped(
            spec.packages,
            identity,
            keep_alive(),
        ),
        generated_files: Seq::empty(),
    }
}

/// Build the `<engine> run -d --name <name> ... sleep infinity` invocation
/// that creates the persistent container the first time it's needed.
/// Deliberately omits `--rm` (the whole point is that it survives) and
/// runs detached; the passwd/group fixup and any one-time package install
/// still happen here via the normal wrapper script, so they only ever run
/// once per container rather than on every `gpubox run`.
pub fn create_invocation(
    engine: ContainerEngine,
    spec: &LaunchSpec,
    name: &str,
    identity: &Identity,
) -> (r: Invocation)
    ensures
        r.deep_view() == creation(engine, spec.deep_view(), name@, identity.deep_view()),
{
    let mut args = text::no_strings();
    text::push_str(&mut args, "run");
    text::push_str(&mut args, "-d");
    text::push_str(&mut args, "--name");
    text::push_str(&mut args, name);
    text::push_all(&mut args, &linux::run_args_common(spec));
    assert(args.deep_view() =~= create_flags(spec.deep_view(), name@));
    let ghost flags = args.deep_view();
    text::push_str(&mut args, spec.image.as_str());
    assert(args.deep_view() =~= flags + seq![spec.image@]);
    let mut tail = text::no_strings();
    text::push_str(&mut tail, "sleep");
    text::push_str(&mut tail, "infinity");
    assert(tail.deep_view() =~= keep_alive());
    text::push_all(&mut args, &linux::command_argv_with_tail(spec, &tail, identity));
    Invocation {
        program: engine.program().to_string(),
        args,
        generated_files: text::no_pairs(),
    }
}

/// The flag with which a command is attached to a running container.
pub open spec fn attach_flag(interactive: bool) -> Seq<char> {
    if interactive {
        "-it"@
    } else {
        "-i"@
    }
}

/// The invocation that runs a command inside a running container.
pub open spec fn execution(
    engine: ContainerEngine,
    spec: LaunchSpecView,
    name: Seq<char>,
    identity: IdentityView,
) -> InvocationView {
    InvocationView {
        program: linux::engine_program(engine),
        args: seq!["exec"@, attach_flag(spec.interactive), "--user"@, mounts::uid_gid(identity)]
            + linux::env_args(spec.env) + linux::workdir_args(spec.workdir) + seq![name]
            + linux::command_or_shell(spec.command),
        generated_files: Seq::empty(),
    }
}

/// Build the `<engine> exec ... <name> <command>` invocation that runs
/// `spec`'s command (or an interactive shell) inside an already-running
/// named container. No wrapper script is needed here: the passwd/group
/// fixup already happened once, during [`create_invocation`], so this
/// just execs directly as the real host uid/gid via `--user`.
pub fn exec_invocation(
    engine: ContainerEngine,
    spec: &LaunchSpec,
    name: &str,
    identity: &Identity,
) -> (r: Invocation)
    ensures
        r.deep_view() == execution(engine, spec.deep_view(), name@, identity.deep_view()),
{
    let mut args = text::no_strings();
    text::push_str(&mut args, "exec");
    if spec.interactive {
        text::push_str(&mut args, "-it");
    } else {
        text::push_str(&mut args, "-i");
    }
    text::push_str(&mut args, "--user");
    text::push_string(&mut args, identity.uid_gid());
    assert(args.deep_view() =~= seq![
        "exec"@,
        attach_flag(spec.interactive),
        "--user"@,
        mounts::uid_gid(identity.deep_view()),
    ]);
    linux::push_env(&mut args, &spec.env);
    linux::push_workdir(&mut args, &spec.workdir);
    let ghost flags = args.deep_view();
    text::push_str(&mut args, name);
    assert(args.deep_view() =~= flags + seq![name@]);
    text::push_all(&mut args, &linux::command_tail(spec));
    Invocation {
        program: engine.program().to_string(),
        args,
        generated_files: text::no_pairs(),
    }
}

/// The invocation that wakes a stopped container.
pub open spec fn wake_up(engine: ContainerEngine, name: Seq<char>) -> InvocationView {
    InvocationView {
        program: linux::engine_program(engine),
        args: seq!["start"@, name],
        generated_files: Seq::empty(),
    }
}

/// Build the `<engine> start <name>` invocation used to wake a stopped
/// (but not removed) named container back up before exec'ing into it.
pub fn start_invocation(engine: ContainerEngine, name: &str) -> (r: Invocation)
    ensures
        r.deep_view() == wake_up(engine, name@),
{
    let mut args = text::no_strings();
    text::push_str(&mut args, "start");
    text::push_str(&mut args, name);
    Invocation {
        program: engine.program().to_string(),
        args,
        generated_files: text::no_pairs(),
    }
}

/// What has to run before a command can be executed in a container.
pub open spec fn preparation(
    engine: ContainerEngine,
    spec: LaunchSpecView,
    name: Seq<char>,
    identity: IdentityView,
    state: ContainerState,
) -> Option<InvocationView> {
    match state {
        ContainerState::Missing => Some(creation(engine, spec, name, identity)),
        ContainerState::Stopped => Some(wake_up(engine, name)),
        ContainerState::Running => None,
    }
}

/// Build what has to run before a command can be executed in a container:
/// create a missing one, start a stopped one.
pub fn setup_invocation(
    engine: ContainerEngine,
    spec: &LaunchSpec,
    name: &str,
    identity: &Identity,
    state: ContainerState,
) -> (r: Option<Invocation>)
    ensures
        r.deep_view() == preparation(
            engine,
            spec.deep_view(),
            name@,
            identity.deep_view(),
            state,
        ),
{
    match state {
        ContainerState::Missing => Some(create_invocation(engine, spec, name, identity)),
        ContainerState::Stopped => Some(start_invocation(engine, name)),
        ContainerState::Running => None,
    }
}

/// The invocation that removes a container.
pub open spec fn removal(engine: ContainerEngine, name: Seq<char>) -> InvocationView {
    InvocationView {
        program: linux::engine_program(engine),
        args: seq!["rm"@, "-f"@, name],
        generated_files: Seq::empty(),
    }
}

/// Build the `<engine> rm -f <name>` invocation.
pub fn remove_invocation(engine: ContainerEngine, name: &str) -> (r: Invocation)
    ensures
        r.deep_view() == removal(engine, name@),
{
    let mut args = text::no_strings();
    text::push_str(&mut args, "rm");
    text::push_str(&mut args, "-f");
    text::push_str(&mut args, name);
    Invocation {
        program: engine.program().to_string(),
        args,
        generated_files: text::no_pairs(),
    }
}

/// Why a container was not removed.
#[derive(Debug, PartialEq, Eq)]
pub enum RemoveError {
    /// The engine could not be run.
    NotRun { engine: ContainerEngine, name: String },
    /// The engine failed.
    Failed { engine: ContainerEngine, name: String },
}

/// What a [`RemoveError`] stands for.
#[verifier::ext_equal]
pub enum RemoveErrorView {
    NotRun { engine: ContainerEngine, name: Seq<char> },
    Failed { engine: ContainerEngine, name: Seq<char> },
}

impl DeepView for RemoveError {
    type V = RemoveErrorView;

    open spec fn deep_view(&self) -> RemoveErrorView {
        match self {
            RemoveError::NotRun { engine, name } => RemoveErrorView::NotRun {
                engine: *engine,
                name: name@,
            },
            RemoveError::Failed { engine, name } => RemoveErrorView::Failed {
                engine: *engine,
                name: name@,
            },
        }
    }
}

/// What the user is told when a container was not removed.
pub open spec fn remove_message(e: RemoveErrorView) -> Seq<char> {
    match e {
        RemoveErrorView::NotRun { engine, name } => "failed to run `"@ + linux::engine_program(
            engine,
        ) + " rm -f "@ + name + "`"@,
        RemoveErrorView::Failed { engine, name } => "`"@ + linux::engine_program(engine)
            + " rm -f "@ + name + "` failed"@,
    }
}

impl RemoveError {
    /// The error as it is shown to people.
    pub fn message(&self) -> (r: String)
        ensures
            r@ == remove_message(self.deep_view()),
    {
        match self {
            RemoveError::NotRun { engine, name } => {
                let mut r = text::join3("failed to run `", engine.program(), " rm -f ");
                r.append(name.as_str());
                r.append("`");
                r
            },
            RemoveError::Failed { engine, name } => {
                let mut r = text::join3("`", engine.program(), " rm -f ");
                r.append(name.as_str());
                r.append("` failed");
                r
            },
        }
    }
}

/// How a removal ended.
pub open spec fn removed(engine: ContainerEngine, name: Seq<char>, outcome: Outcome) -> Result<
    (),
    RemoveErrorView,
> {
    match outcome {
        Outcome::NotStarted => Err(RemoveErrorView::NotRun { engine, name }),
        Outcome::Exited { code: Some(0) } => Ok(()),
        Outcome::Exited { .. } => Err(RemoveErrorView::Failed { engine, name }),
    }
}

/// Whether a container was removed outright (`gpubox rm [name]`), so that the
/// next `gpubox run`/`gpubox run --name <name>` starts completely fresh, by
/// how [`remove_invocation`] ended.
pub fn remove(engine: ContainerEngine, name: &str, outcome: Outcome) -> (r: Result<
    (),
    RemoveError,
>)
    ensures
        match r {
            Ok(_) => removed(engine, name@, outcome) == Ok::<(), RemoveErrorView>(()),
            Err(e) => removed(engine, name@, outcome) == Err::<(), RemoveErrorView>(
                e.deep_view(),
            ),
        },
{
    match outcome {
        Outcome::NotStarted => Err(RemoveError::NotRun { engine, name: name.to_string() }),
        Outcome::Exited { code } => if outcome.success() {
            Ok(())
        } else {
            Err(RemoveError::Failed { engine, name: name.to_string() })
        },
    }
}

/// A persistent container is never created with `--rm`: unless the flag was
/// handed in among the device or extra flags, or as a name or a directory, it
/// does not occur before the image.
pub proof fn law_created_containers_survive(spec: LaunchSpecView, name: Seq<char>)
    requires
        name != "--rm"@,
        spec.workdir != Some("--rm"@),
        !spec.device_args.contains("--rm"@),
        !spec.extra_args.contains("--rm"@),
    ensures
        !create_flags(spec, name).contains("--rm"@),
{
    reveal_strlit("--rm");
    reveal_strlit("run");
    reveal_strlit("-d");
    reveal_strlit("--name");
    reveal_strlit("--user");
    reveal_strlit("0:0");
    reveal_strlit("-w");
    let rm = "--rm"@;
    volumes_are_not_rm(spec.mounts);
    env_is_not_rm(spec.env);
    let head = seq!["run"@, "-d"@, "--name"@, name];
    assert(rm.len() == 4);
    assert("run"@.len() != 4 && "-d"@.len() != 4 && "--name"@.len() != 4);
    assert(!head.contains(rm));
    let root = linux::root_args();
    assert("--user"@.len() != 4 && "0:0"@.len() != 4);
    assert(!root.contains(rm));
    let dir = linux::workdir_args(spec.workdir);
    assert("-w"@.len() != 4);
    assert(!dir.contains(rm));
    let v = linux::volume_args(spec.mounts);
    let e = linux::env_args(spec.env);
    concat_lacks(head, v, rm);
    concat_lacks(v, e, rm);
    concat_lacks(v + e, spec.device_args, rm);
    concat_lacks(v + e + spec.device_args, spec.extra_args, rm);
    concat_lacks(v + e + spec.device_args + spec.extra_args, root, rm);
    concat_lacks(v + e + spec.device_args + spec.extra_args + root, dir, rm);
    concat_lacks(head, linux::common_args(spec), rm);
}

proof fn concat_lacks(a: Seq<Seq<char>>, b: Seq<Seq<char>>, x: Seq<char>)
    requires
        !a.contains(x),
        !b.contains(x),
    ensures
        !(a + b).contains(x),
{
    assert forall|i: int| 0 <= i < (a + b).len() implies (a + b)[i] != x by {
        if i < a.len() {
            assert(a.contains(a[i]));
        } else {
            assert(b.contains(b[i - a.len()]));
        }
    }
}

proof fn volumes_are_not_rm(mounts: Seq<mounts::BindMountView>)
    ensures
        !linux::volume_args(mounts).contains("--rm"@),
    decreases mounts.len(),
{
    reveal_strlit("--rm");
    reveal_strlit("-v");
    reveal_strlit(":");
    if mounts.len() > 0 {
        volumes_are_not_rm(mounts.drop_last());
        let mount = mounts.last();
        let value = linux::volume(mount);
        let at = mount.host.len() as int;
        assert(value[at] == ':');
        assert("--rm"@.len() == 4 && "-v"@.len() == 2);
        assert(value != "--rm"@) by {
            if value == "--rm"@ {
                assert(0 <= at < 4);
                assert("--rm"@[at] != ':');
            }
        }
        let pair = seq!["-v"@, value];
        assert(!pair.contains("--rm"@));
        concat_lacks(linux::volume_args(mounts.drop_last()), pair, "--rm"@);
    }
}

proof fn env_is_not_rm(env: Seq<(Seq<char>, Seq<char>)>)
    ensures
        !linux::env_args(env).contains("--rm"@),
    decreases env.len(),
{
    reveal_strlit("--rm");
    reveal_strlit("-e");
    reveal_strlit("=");
    if env.len() > 0 {
        env_is_not_rm(env.drop_last());
        let value = env.last().0 + "="@ + env.last().1;
        let at = env.last().0.len() as int;
        assert(value[at] == '=');
        assert("--rm"@.len() == 4 && "-e"@.len() == 2);
        assert(value != "--rm"@) by {
            if value == "--rm"@ {
                assert(0 <= at < 4);
                assert("--rm"@[at] != '=');
            }
        }
        let pair = seq!["-e"@, value];
        assert(!pair.contains("--rm"@));
        concat_lacks(linux::env_args(env.drop_last()), pair, "--rm"@);
    }
}

/// Setup happens once, at creation: what is executed in a container later
/// depends on neither the packages, the image, the mounts nor the device
/// flags of the launch.
pub proof fn law_execution_needs_no_setup(
    engine: ContainerEngine,
    a: LaunchSpecView,
    b: LaunchSpecView,
    name: Seq<char>,
    identity: IdentityView,
)
    requires
        a.env == b.env,
        a.workdir == b.workdir,
        a.command == b.command,
        a.interactive == b.interactive,
    ensures
        execution(engine, a, name, identity) == execution(engine, b, name, identity),
{
}

/// The container that was set up is the one in which the command is executed,
/// and the one that is inspected and removed under the same name.
pub proof fn law_one_container_throughout(
    engine: ContainerEngine,
    spec: LaunchSpecView,
    name: Seq<char>,
    identity: IdentityView,
)
    ensures
        creation(engine, spec, name, identity).args[3] == name,
        wake_up(engine, name).args.last() == name,
        inspection(engine, name).args.last() == name,
        removal(engine, name).args.last() == name,
        execution(engine, spec, name, identity).args[execution(
            engine,
            spec,
            name,
            identity,
        ).args.len() - linux::command_or_shell(spec.command).len() - 1] == name,
{
}

/// What a persistent container is created with, argument by argument: detached
/// and under its name; all mounts, variables, device flags and extra flags of
/// the launch, before the image; the root that the wrapper starts as; the
/// working directory; the image; and the wrapper that makes the user and then
/// keeps the container alive.
#[verifier::spinoff_prover]
#[verifier::rlimit(40)]
pub proof fn law_created_containers_get_everything(
    engine: ContainerEngine,
    spec: LaunchSpecView,
    name: Seq<char>,
    identity: IdentityView,
)
    ensures
        creation(engine, spec, name, identity).program == (if engine == ContainerEngine::Docker {
            "docker"@
        } else {
            "podman"@
        }),
        creation(engine, spec, name, identity).generated_files.len() == 0,
        ({
            let args = creation(engine, spec, name, identity).args;
            let root = 4int + linux::flag_count(spec);
            let image = if spec.workdir is Some {
                root + 4
            } else {
                root + 2
            };
            &&& args.take(4) == seq!["run"@, "-d"@, "--name"@, name]
            &&& linux::flags_stand_at(args, 4, spec)
            &&& args[root] == "--user"@
            &&& args[root + 1] == "0:0"@
            &&& spec.workdir matches Some(dir) ==> args[root + 2] == "-w"@ && args[root + 3] == dir
            &&& args[image] == spec.image
            &&& linux::wrapper_stands_at(
                args,
                image + 1,
                spec.packages,
                identity,
                seq!["sleep"@, "infinity"@],
            )
        }),
{
    let head = seq!["run"@, "-d"@, "--name"@, name];
    let root = linux::root_args();
    let dir = linux::workdir_args(spec.workdir);
    let wrapper = linux::wrapped(spec.packages, identity, keep_alive());
    let after = root + dir + seq![spec.image] + wrapper;
    let args = creation(engine, spec, name, identity).args;
    linux::lemma_flags_stand(head, spec, after);
    let flags = head + linux::volume_args(spec.mounts) + linux::env_args(spec.env)
        + spec.device_args + spec.extra_args;
    let before = flags + root + dir + seq![spec.image];
    assert(args =~= flags + after);
    assert(flags + after =~= before + wrapper);
    linux::lemma_wrapper_stands(before, spec.packages, identity, keep_alive());
    assert(args.take(4) =~= head);
    let r = flags.len() as int;
    assert(r == 4 + linux::flag_count(spec));
    assert(args[r] == root[0]);
    assert(args[r + 1] == root[1]);
    if spec.workdir is Some {
        assert(args[r + 2] == dir[0]);
        assert(args[r + 3] == dir[1]);
    }
}

/// A persistent container gets, between its name and its image, the very flags
/// that a one-off container of the same launch gets before its image.
#[verifier::spinoff_prover]
#[verifier::rlimit(40)]
pub proof fn law_persistent_containers_lack_nothing(
    spec: LaunchSpecView,
    name: Seq<char>,
    identity: IdentityView,
)
    ensures
        ({
            let created = creation(ContainerEngine::Docker, spec, name, identity).args;
            let once = linux::run_invocation(ContainerEngine::Docker, spec, identity).args;
            let flags: int = if spec.interactive {
                3
            } else {
                2
            };
            let count = linux::flag_count(spec) + (if spec.workdir is Some {
                5int
            } else {
                3
            });
            created.subrange(4, 4 + count) == once.subrange(flags, flags + count)
        }),
{
    let created = creation(ContainerEngine::Docker, spec, name, identity).args;
    let once = linux::run_invocation(ContainerEngine::Docker, spec, identity).args;
    let body = linux::volume_args(spec.mounts) + linux::env_args(spec.env) + spec.device_args
        + spec.extra_args + linux::root_args() + linux::workdir_args(spec.workdir) + seq![
        spec.image,
    ];
    linux::lemma_volume_args(spec.mounts, 0);
    linux::lemma_env_args(spec.env, 0);
    let head = seq!["run"@, "--rm"@] + linux::tty_args(spec.interactive);
    let groups = linux::group_args(ContainerEngine::Docker);
    let command = linux::command_or_shell(spec.command);
    assert(groups =~= Seq::empty());
    let wrapper = linux::wrapped(spec.packages, identity, command);
    assert(once =~= head + body + wrapper);
    assert(created =~= seq!["run"@, "-d"@, "--name"@, name] + body + linux::wrapped(
        spec.packages,
        identity,
        keep_alive(),
    ));
    assert(once.subrange(head.len() as int, (head.len() + body.len()) as int) =~= body);
    assert(created.subrange(4, (4 + body.len()) as int) =~= body);
}

/// What a command is executed with in a running container, argument by
/// argument: attached, with a terminal if it is interactive; as the user's
/// uid and gid; with all variables of the launch, in its working directory; in
/// the container of that name; and the command itself, or a shell if there is
/// none.
#[verifier::spinoff_prover]
#[verifier::rlimit(40)]
pub proof fn law_commands_are_executed_as_the_user(
    engine: ContainerEngine,
    spec: LaunchSpecView,
    name: Seq<char>,
    identity: IdentityView,
)
    ensures
        execution(engine, spec, name, identity).program == (if engine == ContainerEngine::Docker {
            "docker"@
        } else {
            "podman"@
        }),
        execution(engine, spec, name, identity).generated_files.len() == 0,
        ({
            let args = execution(engine, spec, name, identity).args;
            let dir = 4int + 2 * spec.env.len();
            let at = if spec.workdir is Some {
                dir + 2
            } else {
                dir
            };
            &&& args[0] == "exec"@
            &&& spec.interactive ==> args[1] == "-it"@
            &&& !spec.interactive ==> args[1] == "-i"@
            &&& args[2] == "--user"@
            &&& args[3] == text::decimal(identity.uid as nat) + ":"@ + text::decimal(
                identity.gid as nat,
            )
            &&& linux::env_stands_at(args, 4, spec.env)
            &&& spec.workdir matches Some(path) ==> args[dir] == "-w"@ && args[dir + 1]
                == path
            &&& args[at] == name
            &&& spec.command.len() > 0 ==> args.skip(at + 1) == spec.command
            &&& spec.command.len() == 0 ==> args.skip(at + 1) == seq!["/bin/bash"@]
        }),
{
    let head = seq!["exec"@, attach_flag(spec.interactive), "--user"@, mounts::uid_gid(identity)];
    let dir = linux::workdir_args(spec.workdir);
    let command = linux::command_or_shell(spec.command);
    let after = dir + seq![name] + command;
    let args = execution(engine, spec, name, identity).args;
    linux::lemma_env_stands(head, spec.env, after);
    assert(args =~= head + linux::env_args(spec.env) + after);
    let d = 4int + 2 * spec.env.len();
    if spec.workdir is Some {
        assert(args[d] == dir[0]);
        assert(args[d + 1] == dir[1]);
    }
    let at = d + dir.len();
    assert(args[at] == name);
    assert(args.skip(at + 1) =~= command);
}

/// The commands that inspect, wake and remove a container do that and nothing
/// else, with the engine that is asked for.
pub proof fn law_container_commands(engine: ContainerEngine, name: Seq<char>)
    ensures
        inspection(engine, name).args == seq!["inspect"@, "-f"@, "{{.State.Running}}"@, name],
        wake_up(engine, name).args == seq!["start"@, name],
        removal(engine, name).args == seq!["rm"@, "-f"@, name],
        inspection(engine, name).program == wake_up(engine, name).program,
        removal(engine, name).program == wake_up(engine, name).program,
        wake_up(ContainerEngine::Docker, name).program == "docker"@,
        wake_up(ContainerEngine::Podman, name).program == "podman"@,
{
}

/// A missing container is created, a stopped one is started, and a running one
/// needs nothing; whatever has to be done is done to the container of that
/// name.
pub proof fn law_containers_are_created_once(
    engine: ContainerEngine,
    spec: LaunchSpecView,
    name: Seq<char>,
    identity: IdentityView,
)
    ensures
        preparation(engine, spec, name, identity, ContainerState::Missing) == Some(
            creation(engine, spec, name, identity),
        ),
        preparation(engine, spec, name, identity, ContainerState::Stopped) == Some(
            wake_up(engine, name),
        ),
        preparation(engine, spec, name, identity, ContainerState::Running) is None,
{
}

/// An inspection shows a running container exactly when it prints `true`, with
/// any white space round it; a container that can be inspected and prints
/// anything else is stopped; and one that cannot be inspected is missing.
pub proof fn law_inspections_show_the_state(
    before: Seq<char>,
    after: Seq<char>,
    printed: Seq<char>,
)
    requires
        text::is_blank(before),
        text::is_blank(after),
    ensures
        shown_state(Some(before + "true"@ + after)) == ContainerState::Running,
        shown_state(Some(printed)) != ContainerState::Missing,
        shown_state(Some(printed)) == ContainerState::Running ==> exists|a: Seq<char>, b: Seq<char>|
            text::is_blank(a) && text::is_blank(b) && printed == #[trigger] (a + "true"@ + b),
        shown_state(None) == ContainerState::Missing,
{
    reveal_strlit("true");
    text::law_trim_leaves_the_text(before, "true"@, after);
    if shown_state(Some(printed)) == ContainerState::Running {
        let blanks = text::law_trim_takes_blanks_off(printed);
        assert(printed == blanks.0 + "true"@ + blanks.1);
    }
}

/// Without a name the container is the shared `gpubox`; a name makes it
/// `gpubox-` and the name.
pub proof fn law_container_names(name: Seq<char>)
    ensures
        container_for(None) == "gpubox"@,
        container_for(Some(name)) == "gpubox-"@ + name,
        named_container(name) == "gpubox-"@ + name,
{
}

/// A container was removed exactly when the engine ran and ended with code
/// zero; else the error tells whether the engine ran at all.
pub proof fn law_removal_needs_success(engine: ContainerEngine, name: Seq<char>, outcome: Outcome)
    ensures
        removed(engine, name, outcome) is Ok <==> outcome == (Outcome::Exited { code: Some(0i32) }),
        outcome is NotStarted ==> removed(engine, name, outcome) == Err::<(), RemoveErrorView>(
            RemoveErrorView::NotRun { engine, name },
        ),
        outcome is Exited && outcome != (Outcome::Exited { code: Some(0i32) }) ==> removed(
            engine,
            name,
            outcome,
        ) == Err::<(), RemoveErrorView>(RemoveErrorView::Failed { engine, name }),
{
}

/// The names of the states.
pub proof fn law_state_names()
    ensures
        state_name(ContainerState::Missing) == "Missing"@,
        state_name(ContainerState::Stopped) == "Stopped"@,
        state_name(ContainerState::Running) == "Running"@,
{
}

/// What the user is told when a container was not removed names the command.
pub proof fn law_removal_messages(name: Seq<char>)
    ensures
        remove_message(RemoveErrorView::NotRun { engine: ContainerEngine::Docker, name })
            == "failed to run `"@ + "docker"@ + " rm -f "@ + name + "`"@,
        remove_message(RemoveErrorView::Failed { engine: ContainerEngine::Docker, name }) == "`"@
            + "docker"@ + " rm -f "@ + name + "` failed"@,
        remove_message(RemoveErrorView::NotRun { engine: ContainerEngine::Podman, name })
            == "failed to run `"@ + "podman"@ + " rm -f "@ + name + "`"@,
        remove_message(RemoveErrorView::Failed { engine: ContainerEngine::Podman, name }) == "`"@
            + "podman"@ + " rm -f "@ + name + "` failed"@,
{
}

} // verus!
