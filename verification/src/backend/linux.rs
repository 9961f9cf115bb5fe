//! Docker/Podman argv construction.
//!
//! The container is always made to *be* the real host user: it starts as root
//! in a small wrapper that writes the user into `/etc/passwd` and
//! `/etc/group`, installs what packages are asked for, and only then drops to
//! the user's uid/gid and executes the command.

use vstd::prelude::*;
use crate::backend::{Invocation, InvocationView, LaunchSpec, LaunchSpecView};
use crate::cli;
use crate::mounts::{BindMount, BindMountView, Identity, IdentityView};
use crate::text;

verus! {

/// The engines that run Linux containers.
#[derive(Debug, Clone, Copy, PartialEq, Eq, Structural)]
pub enum ContainerEngine {
    Docker,
    Podman,
}

/// The program of a container engine.
pub open spec fn engine_program(engine: ContainerEngine) -> Seq<char> {
    match engine {
        ContainerEngine::Docker => "docker"@,
        ContainerEngine::Podman => "podman"@,
    }
}

impl ContainerEngine {
    /// The program of the engine.
    pub fn program(self) -> (r: &'static str)
        ensures
            r@ == engine_program(self),
    {
        match self {
            ContainerEngine::Docker => "docker",
            ContainerEngine::Podman => "podman",
        }
    }
}

/// A mount in the form `host:container[:ro]`.
pub open spec fn volume(mount: BindMountView) -> Seq<char> {
    if mount.read_only {
        mount.host + ":"@ + mount.container + ":ro"@
    } else {
        mount.host + ":"@ + mount.container
    }
}

/// Writes a mount in the form `host:container[:ro]`.
pub fn volume_of(mount: &BindMount) -> (r: String)
    ensures
        r@ == volume(mount.deep_view()),
{
    let mut r = text::join3(mount.host.as_str(), ":", mount.container.as_str());
    if mount.read_only {
        r.append(":ro");
    }
    r
}

/// The flags of the given mounts.
pub open spec fn volume_args(mounts: Seq<BindMountView>) -> Seq<Seq<char>>
    decreases mounts.len(),
{
    if mounts.len() == 0 {
        Seq::empty()
    } else {
        volume_args(mounts.drop_last()) + seq!["-v"@, volume(mounts.last())]
    }
}

fn push_volumes(args: &mut Vec<String>, mounts: &Vec<BindMount>)
    ensures
        final(args).deep_view() == old(args).deep_view() + volume_args(mounts.deep_view()),
{
    let ghost before = args.deep_view();
    let ghost view = mounts.deep_view();
    let mut i: usize = 0;
    assert(before + volume_args(view.take(0)) =~= before);
    while i < mounts.len()
        invariant
            view == mounts.deep_view(),
            i <= mounts@.len(),
            args.deep_view() == before + volume_args(view.take(i as int)),
        decreases mounts@.len() - i,
    {
        let mount = &mounts[i];
        assert(view.take(i + 1).drop_last() =~= view.take(i as int));
        assert(view.take(i + 1).last() == mount.deep_view());
        let ghost now = args.deep_view();
        text::push_str(args, "-v");
        text::push_string(args, volume_of(mount));
        assert(args.deep_view() =~= now + seq!["-v"@, volume(mount.deep_view())]);
        assert(args.deep_view() =~= before + volume_args(view.take(i + 1)));
        i += 1;
    }
    assert(view.take(i as int) =~= view);
}

/// The flags of the given variables.
pub open spec fn env_args(env: Seq<(Seq<char>, Seq<char>)>) -> Seq<Seq<char>>
    decreases env.len(),
{
    if env.len() == 0 {
        Seq::empty()
    } else {
        env_args(env.drop_last()) + seq!["-e"@, env.last().0 + "="@ + env.last().1]
    }
}

/// Adds the flags of the given variables.
pub fn push_env(args: &mut Vec<String>, env: &Vec<(String, String)>)
    ensures
        final(args).deep_view() == old(args).deep_view() + env_args(env.deep_view()),
{
    let ghost before = args.deep_view();
    let ghost view = env.deep_view();
    let mut i: usize = 0;
    assert(before + env_args(view.take(0)) =~= before);
    while i < env.len()
        invariant
            view == env.deep_view(),
            i <= env@.len(),
            args.deep_view() == before + env_args(view.take(i as int)),
        decreases env@.len() - i,
    {
        let pair = &env[i];
        assert(view.take(i + 1).drop_last() =~= view.take(i as int));
        assert(view.take(i + 1).last() == pair.deep_view());
        let ghost now = args.deep_view();
        text::push_str(args, "-e");
        text::push_string(args, text::join3(pair.0.as_str(), "=", pair.1.as_str()));
        assert(args.deep_view() =~= now + seq!["-e"@, pair.0@ + "="@ + pair.1@]);
        assert(args.deep_view() =~= before + env_args(view.take(i + 1)));
        i += 1;
    }
    assert(view.take(i as int) =~= view);
}

/// The flag of an interactive launch.
pub open spec fn tty_args(interactive: bool) -> Seq<Seq<char>> {
    if interactive {
        seq!["-it"@]
    } else {
        Seq::empty()
    }
}

/// The flags of a working directory.
pub open spec fn workdir_args(workdir: Option<Seq<char>>) -> Seq<Seq<char>> {
    match workdir {
        Some(dir) => seq!["-w"@, dir],
        None => Seq::empty(),
    }
}

/// Adds the flags of a working directory.
pub fn push_workdir(args: &mut Vec<String>, workdir: &Option<String>)
    ensures
        final(args).deep_view() == old(args).deep_view() + workdir_args(workdir.deep_view()),
{
    let ghost before = args.deep_view();
    if let Some(dir) = workdir {
        text::push_str(args, "-w");
        text::push_str(args, dir.as_str());
    }
    assert(args.deep_view() =~= before + workdir_args(workdir.deep_view()));
}

/// The flags that only one of the engines takes: rootless Podman must let
/// supplementary groups (video/render) carry through so that `/dev/dri`
/// permissions actually apply.
pub open spec fn group_args(engine: ContainerEngine) -> Seq<Seq<char>> {
    match engine {
        ContainerEngine::Podman => seq!["--group-add"@, "keep-groups"@],
        ContainerEngine::Docker => Seq::empty(),
    }
}

/// The flags with which the wrapper starts as root, whatever uid mapping the
/// extra flags ask for.
pub open spec fn root_args() -> Seq<Seq<char>> {
    seq!["--user"@, "0:0"@]
}

fn push_root(args: &mut Vec<String>)
    ensures
        final(args).deep_view() == old(args).deep_view() + root_args(),
{
    let ghost before = args.deep_view();
    text::push_str(args, "--user");
    text::push_str(args, "0:0");
    assert(args.deep_view() =~= before + root_args());
}

/// The command of a launch: its own, or an interactive shell.
pub open spec fn command_or_shell(command: Seq<Seq<char>>) -> Seq<Seq<char>> {
    if command.len() == 0 {
        seq!["/bin/bash"@]
    } else {
        command
    }
}

/// The command of a launch, or an interactive shell if it has none.
pub fn command_tail(spec: &LaunchSpec) -> (r: Vec<String>)
    ensures
        r.deep_view() == command_or_shell(spec.deep_view().command),
{
    if spec.command.len() == 0 {
        let mut r = text::no_strings();
        text::push_str(&mut r, "/bin/bash");
        assert(spec.deep_view().command.len() == 0);
        r
    } else {
        assert(spec.deep_view().command.len() == spec.command@.len());
        text::clone_strings(&spec.command)
    }
}

/// The first part of the wrapper: takes the user's uid, gid, name and home off
/// its arguments and writes the user over whatever account the image has
/// under that name or uid. A home with a colon in it cannot stand in
/// `/etc/passwd`, whose fields colons part.
pub const WRAPPER_SETUP: &'static str = "set -e
uid=$1 gid=$2 user=$3 home=$4
shift 4
case $home in *:*) home=/ ;; esac
awk -F: -v name=\"$user\" -v id=\"$uid\" '$1 != name && $3 != id' /etc/passwd > /etc/passwd.gpubox
printf '%s:x:%s:%s::%s:/bin/bash\\n' \"$user\" \"$uid\" \"$gid\" \"$home\" >> /etc/passwd.gpubox
cat /etc/passwd.gpubox > /etc/passwd
awk -F: -v name=\"$user\" -v id=\"$gid\" '$1 != name && $3 != id' /etc/group > /etc/group.gpubox
printf '%s:x:%s:\\n' \"$user\" \"$gid\" >> /etc/group.gpubox
cat /etc/group.gpubox > /etc/group
rm -f /etc/passwd.gpubox /etc/group.gpubox
";

/// The beginning of the wrapper's package installation.
pub const WRAPPER_INSTALL: &'static str = "export DEBIAN_FRONTEND=noninteractive
apt-get update
apt-get install -y --no-install-recommends";

/// The last part of the wrapper: drops to the user and executes the command.
pub const WRAPPER_DROP: &'static str = "exec setpriv --reuid \"$uid\" --regid \"$gid\" --keep-groups -- \"$@\"
";

/// Words for a shell, each after a space.
pub open spec fn shell_words(words: Seq<Seq<char>>) -> Seq<char>
    decreases words.len(),
{
    if words.len() == 0 {
        Seq::empty()
    } else {
        shell_words(words.drop_last()) + " "@ + cli::shell_quoted(words.last())
    }
}

/// Writes words for a shell, each after a space.
pub fn quote_words(words: &Vec<String>) -> (r: String)
    ensures
        r@ == shell_words(words.deep_view()),
{
    let ghost view = words.deep_view();
    let mut r = String::new();
    let mut i: usize = 0;
    while i < words.len()
        invariant
            view == words.deep_view(),
            i <= words@.len(),
            r@ == shell_words(view.take(i as int)),
        decreases words@.len() - i,
    {
        assert(view.take(i + 1).drop_last() =~= view.take(i as int));
        assert(view.take(i + 1).last() == words@[i as int]@);
        r.append(" ");
        r.append(cli::shell_quote(words[i].as_str()).as_str());
        i += 1;
    }
    assert(view.take(i as int) =~= view);
    r
}

/// The wrapper's package installation.
pub open spec fn install_step(packages: Seq<Seq<char>>) -> Seq<char> {
    if packages.len() == 0 {
        Seq::empty()
    } else {
        WRAPPER_INSTALL@ + shell_words(packages) + "\n"@
    }
}

/// The wrapper script.
pub open spec fn wrapper_script(packages: Seq<Seq<char>>) -> Seq<char> {
    WRAPPER_SETUP@ + install_step(packages) + WRAPPER_DROP@
}

fn render_install_step(packages: &Vec<String>) -> (r: String)
    ensures
        r@ == install_step(packages.deep_view()),
{
    assert(packages.deep_view().len() == packages@.len());
    if packages.len() == 0 {
        return text::empty();
    }
    text::join3(WRAPPER_INSTALL, quote_words(packages).as_str(), "\n")
}

/// Writes the wrapper script.
pub fn script(packages: &Vec<String>) -> (r: String)
    ensures
        r@ == wrapper_script(packages.deep_view()),
{
    let step = render_install_step(packages);
    text::join3(WRAPPER_SETUP, step.as_str(), WRAPPER_DROP)
}

/// The argv that runs `tail` inside the container: through the wrapper, as
/// the given user.
pub open spec fn wrapped(
    packages: Seq<Seq<char>>,
    identity: IdentityView,
    tail: Seq<Seq<char>>,
) -> Seq<Seq<char>> {
    seq![
        "/bin/sh"@,
        "-c"@,
        wrapper_script(packages),
        "gpubox"@,
        text::decimal(identity.uid as nat),
        text::decimal(identity.gid as nat),
        identity.user,
        identity.home,
    ] + tail
}

/// The argv that runs `tail` inside the container: through the wrapper, as
/// the given user.
pub fn command_argv_with_tail(spec: &LaunchSpec, tail: &Vec<String>, identity: &Identity) -> (r:
    Vec<String>)
    ensures
        r.deep_view() == wrapped(
            spec.deep_view().packages,
            identity.deep_view(),
            tail.deep_view(),
        ),
{
    let mut r = text::no_strings();
    text::push_str(&mut r, "/bin/sh");
    text::push_str(&mut r, "-c");
    text::push_string(&mut r, script(&spec.packages));
    text::push_str(&mut r, "gpubox");
    text::push_string(&mut r, text::to_decimal(identity.uid as u64));
    text::push_string(&mut r, text::to_decimal(identity.gid as u64));
    text::push_str(&mut r, identity.user.as_str());
    text::push_str(&mut r, identity.home.as_str());
    text::push_all(&mut r, tail);
    r
}

/// The flags that every container of a launch gets, whichever engine runs it.
pub open spec fn common_args(spec: LaunchSpecView) -> Seq<Seq<char>> {
    volume_args(spec.mounts) + env_args(spec.env) + spec.device_args + spec.extra_args
        + root_args() + workdir_args(spec.workdir)
}

/// The flags that every container of a launch gets, whichever engine runs it.
pub fn run_args_common(spec: &LaunchSpec) -> (r: Vec<String>)
    ensures
        r.deep_view() == common_args(spec.deep_view()),
{
    let mut r = text::no_strings();
    push_volumes(&mut r, &spec.mounts);
    assert(r.deep_view() =~= volume_args(spec.deep_view().mounts));
    push_env(&mut r, &spec.env);
    text::push_all(&mut r, &spec.device_args);
    text::push_all(&mut r, &spec.extra_args);
    push_root(&mut r);
    push_workdir(&mut r, &spec.workdir);
    r
}

/// The arguments of a one-off container.
pub open spec fn run_args(
    engine: ContainerEngine,
    spec: LaunchSpecView,
    identity: IdentityView,
) -> Seq<Seq<char>> {
    seq!["run"@, "--rm"@] + tty_args(spec.interactive) + volume_args(spec.mounts) + env_args(
        spec.env,
    ) + spec.device_args + spec.extra_args + group_args(engine) + root_args() + workdir_args(
        spec.workdir,
    ) + seq![spec.image] + wrapped(spec.packages, identity, command_or_shell(spec.command))
}

/// The invocation of a one-off container.
pub open spec fn run_invocation(
    engine: ContainerEngine,
    spec: LaunchSpecView,
    identity: IdentityView,
) -> InvocationView {
    InvocationView {
        program: engine_program(engine),
        args: run_args(engine, spec, identity),
        generated_files: Seq::empty(),
    }
}

/// Build the `<engine> run --rm ...` invocation of a one-off container that
/// runs the command of `spec`, or an interactive shell, as the given user.
pub fn build_invocation(
    engine: ContainerEngine,
    spec: &LaunchSpec,
    identity: &Identity,
) -> (r: Invocation)
    ensures
        r.deep_view() == run_invocation(engine, spec.deep_view(), identity.deep_view()),
{
    let mut args = text::no_strings();
    text::push_str(&mut args, "run");
    text::push_str(&mut args, "--rm");
    if spec.interactive {
        text::push_str(&mut args, "-it");
    }
    assert(args.deep_view() =~= seq!["run"@, "--rm"@] + tty_args(spec.interactive));
    push_volumes(&mut args, &spec.mounts);
    push_env(&mut args, &spec.env);
    text::push_all(&mut args, &spec.device_args);
    text::push_all(&mut args, &spec.extra_args);
    let ghost a1 = args.deep_view();
    match engine {
        ContainerEngine::Podman => {
            text::push_str(&mut args, "--group-add");
            text::push_str(&mut args, "keep-groups");
        },
        ContainerEngine::Docker => {},
    }
    assert(args.deep_view() =~= a1 + group_args(engine));
    push_root(&mut args);
    push_workdir(&mut args, &spec.workdir);
    let ghost a2 = args.deep_view();
    text::push_str(&mut args, spec.image.as_str());
    assert(args.deep_view() =~= a2 + seq![spec.image@]);
    let tail = command_tail(spec);
    text::push_all(&mut args, &command_argv_with_tail(spec, &tail, identity));
    Invocation {
        program: engine.program().to_string(),
        args,
        generated_files: text::no_pairs(),
    }
}

/// A one-off container is removed when its command ends, and runs the command
/// - the last of its arguments - through the wrapper.
pub proof fn law_one_off_containers_are_removed(
    engine: ContainerEngine,
    spec: LaunchSpecView,
    identity: IdentityView,
)
    ensures
        run_args(engine, spec, identity)[0] == "run"@,
        run_args(engine, spec, identity)[1] == "--rm"@,
        run_args(engine, spec, identity).skip(
            run_args(engine, spec, identity).len() - command_or_shell(spec.command).len(),
        ) == command_or_shell(spec.command),
{
    let args = run_args(engine, spec, identity);
    let command = command_or_shell(spec.command);
    assert(args.skip(args.len() - command.len()) =~= command);
}

/// A launch without packages installs nothing, and otherwise the installation
/// comes before privileges are dropped and the command is executed.
pub proof fn law_wrapper_installs_before_it_drops(packages: Seq<Seq<char>>)
    ensures
        packages.len() == 0 ==> wrapper_script(packages) == WRAPPER_SETUP@ + WRAPPER_DROP@,
        packages.len() > 0 ==> wrapper_script(packages) == WRAPPER_SETUP@ + WRAPPER_INSTALL@
            + shell_words(packages) + "\n"@ + WRAPPER_DROP@,
{
    if packages.len() == 0 {
        assert(wrapper_script(packages) =~= WRAPPER_SETUP@ + WRAPPER_DROP@);
    } else {
        assert(wrapper_script(packages) =~= WRAPPER_SETUP@ + WRAPPER_INSTALL@ + shell_words(
            packages,
        ) + "\n"@ + WRAPPER_DROP@);
    }
}

/// Whether each mount has its `-v` and its `host:container` - with `:ro` after
/// it, if it is read-only - from the given place on, in order.
pub open spec fn mounts_stand_at(
    args: Seq<Seq<char>>,
    at: int,
    mounts: Seq<BindMountView>,
) -> bool {
    forall|i: int|
        #![trigger mounts[i]]
        0 <= i < mounts.len() ==> args.subrange(at + 2 * i, at + 2 * i + 2) == seq![
            "-v"@,
            mounts[i].host + ":"@ + mounts[i].container + (if mounts[i].read_only {
                ":ro"@
            } else {
                Seq::empty()
            }),
        ]
}

/// Whether each variable has its `-e` and its `name=value` from the given place
/// on, in order.
pub open spec fn env_stands_at(
    args: Seq<Seq<char>>,
    at: int,
    env: Seq<(Seq<char>, Seq<char>)>,
) -> bool {
    forall|i: int|
        #![trigger env[i]]
        0 <= i < env.len() ==> args.subrange(at + 2 * i, at + 2 * i + 2) == seq![
            "-e"@,
            env[i].0 + "="@ + env[i].1,
        ]
}

/// How many arguments the mounts, variables, device flags and extra flags of a
/// launch come to.
pub open spec fn flag_count(spec: LaunchSpecView) -> nat {
    2 * spec.mounts.len() + 2 * spec.env.len() + spec.device_args.len() + spec.extra_args.len()
}

/// Whether the mounts, the variables, the device flags and the extra flags of a
/// launch stand in `args` from the given place on, all of them, each in order.
pub open spec fn flags_stand_at(args: Seq<Seq<char>>, at: int, spec: LaunchSpecView) -> bool {
    let env = at + 2 * spec.mounts.len();
    let devices = env + 2 * spec.env.len();
    let extra = devices + spec.device_args.len();
    &&& mounts_stand_at(args, at, spec.mounts)
    &&& env_stands_at(args, env, spec.env)
    &&& args.subrange(devices, extra) == spec.device_args
    &&& args.subrange(extra, extra + spec.extra_args.len()) == spec.extra_args
}

/// Whether the container drops to the given user from the given place on: the
/// wrapper, the user, and the command.
pub open spec fn wrapper_stands_at(
    args: Seq<Seq<char>>,
    at: int,
    packages: Seq<Seq<char>>,
    identity: IdentityView,
    command: Seq<Seq<char>>,
) -> bool {
    &&& args.len() == at + 8 + command.len()
    &&& args[at] == "/bin/sh"@
    &&& args[at + 1] == "-c"@
    &&& args[at + 2] == wrapper_script(packages)
    &&& args[at + 4] == text::decimal(identity.uid as nat)
    &&& args[at + 5] == text::decimal(identity.gid as nat)
    &&& args[at + 6] == identity.user
    &&& args[at + 7] == identity.home
    &&& args.skip(at + 8) == command
}

/// Where the flags of mounts stand among the arguments that hold them.
pub proof fn lemma_volume_args(mounts: Seq<BindMountView>, i: int)
    ensures
        volume_args(mounts).len() == 2 * mounts.len(),
        0 <= i < mounts.len() ==> volume_args(mounts)[2 * i] == "-v"@ && volume_args(mounts)[2 * i
            + 1] == volume(mounts[i]),
    decreases mounts.len(),
{
    if mounts.len() > 0 {
        let front = mounts.drop_last();
        lemma_volume_args(front, i);
        if 0 <= i < front.len() {
            assert(volume_args(mounts)[2 * i] == volume_args(front)[2 * i]);
            assert(volume_args(mounts)[2 * i + 1] == volume_args(front)[2 * i + 1]);
        }
    }
}

/// Where the flags of variables stand among the arguments that hold them.
pub proof fn lemma_env_args(env: Seq<(Seq<char>, Seq<char>)>, i: int)
    ensures
        env_args(env).len() == 2 * env.len(),
        0 <= i < env.len() ==> env_args(env)[2 * i] == "-e"@ && env_args(env)[2 * i + 1]
            == env[i].0 + "="@ + env[i].1,
    decreases env.len(),
{
    if env.len() > 0 {
        let front = env.drop_last();
        lemma_env_args(front, i);
        if 0 <= i < front.len() {
            assert(env_args(env)[2 * i] == env_args(front)[2 * i]);
            assert(env_args(env)[2 * i + 1] == env_args(front)[2 * i + 1]);
        }
    }
}

/// The flags of variables stand where they were put.
pub proof fn lemma_env_stands(
    before: Seq<Seq<char>>,
    env: Seq<(Seq<char>, Seq<char>)>,
    after: Seq<Seq<char>>,
)
    ensures
        env_args(env).len() == 2 * env.len(),
        env_stands_at(before + env_args(env) + after, before.len() as int, env),
{
    lemma_env_args(env, 0);
    let args = before + env_args(env) + after;
    let at = before.len() as int;
    assert forall|i: int|
        #![trigger env[i]]
        0 <= i < env.len() implies args.subrange(at + 2 * i, at + 2 * i + 2) == seq![
        "-e"@,
        env[i].0 + "="@ + env[i].1,
    ] by {
        lemma_env_args(env, i);
        assert(args[at + 2 * i] == env_args(env)[2 * i]);
        assert(args[at + 2 * i + 1] == env_args(env)[2 * i + 1]);
        assert(args.subrange(at + 2 * i, at + 2 * i + 2) =~= seq![
            "-e"@,
            env[i].0 + "="@ + env[i].1,
        ]);
    }
}

/// The flags of mounts stand where they were put.
pub proof fn lemma_mounts_stand(
    before: Seq<Seq<char>>,
    mounts: Seq<BindMountView>,
    after: Seq<Seq<char>>,
)
    ensures
        volume_args(mounts).len() == 2 * mounts.len(),
        mounts_stand_at(before + volume_args(mounts) + after, before.len() as int, mounts),
{
    lemma_volume_args(mounts, 0);
    let args = before + volume_args(mounts) + after;
    let at = before.len() as int;
    assert forall|i: int|
        #![trigger mounts[i]]
        0 <= i < mounts.len() implies args.subrange(at + 2 * i, at + 2 * i + 2) == seq![
        "-v"@,
        mounts[i].host + ":"@ + mounts[i].container + (if mounts[i].read_only {
            ":ro"@
        } else {
            Seq::empty()
        }),
    ] by {
        lemma_volume_args(mounts, i);
        let value = mounts[i].host + ":"@ + mounts[i].container + (if mounts[i].read_only {
            ":ro"@
        } else {
            Seq::empty()
        });
        assert(volume(mounts[i]) =~= value);
        assert(args[at + 2 * i] == volume_args(mounts)[2 * i]);
        assert(args[at + 2 * i + 1] == volume_args(mounts)[2 * i + 1]);
        assert(args.subrange(at + 2 * i, at + 2 * i + 2) =~= seq!["-v"@, value]);
    }
}

/// The flags of a launch stand where they were put.
#[verifier::spinoff_prover]
#[verifier::rlimit(40)]
pub proof fn lemma_flags_stand(
    before: Seq<Seq<char>>,
    spec: LaunchSpecView,
    after: Seq<Seq<char>>,
)
    ensures
        volume_args(spec.mounts).len() == 2 * spec.mounts.len(),
        env_args(spec.env).len() == 2 * spec.env.len(),
        flags_stand_at(
            before + volume_args(spec.mounts) + env_args(spec.env) + spec.device_args
                + spec.extra_args + after,
            before.len() as int,
            spec,
        ),
{
    let v = volume_args(spec.mounts);
    let e = env_args(spec.env);
    let d = spec.device_args;
    let x = spec.extra_args;
    let args = before + v + e + d + x + after;
    lemma_mounts_stand(before, spec.mounts, e + d + x + after);
    assert(args =~= before + v + (e + d + x + after));
    lemma_env_stands(before + v, spec.env, d + x + after);
    assert(args =~= (before + v) + e + (d + x + after));
    let devices: int = before.len() + v.len() + e.len() + 0int;
    assert(args.subrange(devices, devices + d.len()) =~= d);
    assert(args.subrange(devices + d.len(), devices + d.len() + x.len()) =~= x);
}

/// The wrapper stands where it was put.
pub proof fn lemma_wrapper_stands(
    before: Seq<Seq<char>>,
    packages: Seq<Seq<char>>,
    identity: IdentityView,
    command: Seq<Seq<char>>,
)
    ensures
        wrapper_stands_at(
            before + wrapped(packages, identity, command),
            before.len() as int,
            packages,
            identity,
            command,
        ),
{
    let wrapper = wrapped(packages, identity, command);
    let args = before + wrapper;
    let at = before.len() as int;
    assert(args[at] == wrapper[0] && args[at + 1] == wrapper[1] && args[at + 2] == wrapper[2]);
    assert(args[at + 4] == wrapper[4] && args[at + 5] == wrapper[5]);
    assert(args[at + 6] == wrapper[6] && args[at + 7] == wrapper[7]);
    assert(args.skip(at + 8) =~= command);
}

/// What a one-off container is run with, argument by argument: `run --rm`, and
/// `-it` if it is interactive; all mounts, variables, device flags and extra
/// flags of the launch; with Podman the user's groups; the root that the
/// wrapper starts as, after any other user that the extra flags ask for; the
/// working directory; the image; and the wrapper that drops to the user and
/// executes the command, or a shell if there is none.
#[verifier::spinoff_prover]
#[verifier::rlimit(40)]
pub proof fn law_one_off_containers_get_everything(
    engine: ContainerEngine,
    spec: LaunchSpecView,
    identity: IdentityView,
)
    ensures
        run_invocation(engine, spec, identity).program == (if engine == ContainerEngine::Docker {
            "docker"@
        } else {
            "podman"@
        }),
        run_invocation(engine, spec, identity).generated_files.len() == 0,
        ({
            let args = run_invocation(engine, spec, identity).args;
            let flags: int = if spec.interactive {
                3
            } else {
                2
            };
            let groups = flags + flag_count(spec);
            let root = if engine == ContainerEngine::Podman {
                groups + 2
            } else {
                groups
            };
            let image = if spec.workdir is Some {
                root + 4
            } else {
                root + 2
            };
            &&& args[0] == "run"@
            &&& args[1] == "--rm"@
            &&& spec.interactive ==> args[2] == "-it"@
            &&& flags_stand_at(args, flags, spec)
            &&& engine == ContainerEngine::Podman ==> args[groups] == "--group-add"@ && args[groups
                + 1] == "keep-groups"@
            &&& args[root] == "--user"@
            &&& args[root + 1] == "0:0"@
            &&& spec.workdir matches Some(dir) ==> args[root + 2] == "-w"@ && args[root + 3] == dir
            &&& args[image] == spec.image
            &&& spec.command.len() == 0 ==> wrapper_stands_at(
                args,
                image + 1,
                spec.packages,
                identity,
                seq!["/bin/bash"@],
            )
            &&& spec.command.len() > 0 ==> wrapper_stands_at(
                args,
                image + 1,
                spec.packages,
                identity,
                spec.command,
            )
        }),
{
    let head = seq!["run"@, "--rm"@] + tty_args(spec.interactive);
    let groups = group_args(engine);
    let dir = workdir_args(spec.workdir);
    let command = command_or_shell(spec.command);
    let wrapper = wrapped(spec.packages, identity, command);
    let after = groups + root_args() + dir + seq![spec.image] + wrapper;
    let args = run_args(engine, spec, identity);
    lemma_flags_stand(head, spec, after);
    let flags = head + volume_args(spec.mounts) + env_args(spec.env) + spec.device_args
        + spec.extra_args;
    assert(args =~= flags + after);
    let n = flags.len() as int;
    assert(n == head.len() + flag_count(spec));
    let r = n + groups.len();
    assert(args[r] == root_args()[0]);
    assert(args[r + 1] == root_args()[1]);
    if engine == ContainerEngine::Podman {
        assert(args[n] == groups[0]);
        assert(args[n + 1] == groups[1]);
    }
    if spec.workdir is Some {
        assert(args[r + 2] == dir[0]);
        assert(args[r + 3] == dir[1]);
    }
    let image = r + 2 + dir.len();
    assert(args[image] == spec.image);
    let before = flags + groups + root_args() + dir + seq![spec.image];
    lemma_wrapper_stands(before, spec.packages, identity, command);
    assert(args =~= before + wrapper);
}

proof fn lemma_shell_words(a: Seq<Seq<char>>, b: Seq<Seq<char>>)
    ensures
        shell_words(a + b) == shell_words(a) + shell_words(b),
    decreases b.len(),
{
    if b.len() == 0 {
        assert(a + b =~= a);
        assert(shell_words(a) + shell_words(b) =~= shell_words(a));
    } else {
        lemma_shell_words(a, b.drop_last());
        assert((a + b).drop_last() =~= a + b.drop_last());
        assert(shell_words(a + b) =~= shell_words(a) + shell_words(b));
    }
}

/// Words for a shell stand one after the other, each quoted and after a space.
pub proof fn law_shell_words_are_all_there(
    a: Seq<Seq<char>>,
    b: Seq<Seq<char>>,
    word: Seq<char>,
)
    ensures
        shell_words(a + b) == shell_words(a) + shell_words(b),
        shell_words(seq![word]) == " "@ + cli::shell_quoted(word),
        shell_words(Seq::empty()) == Seq::<char>::empty(),
{
    lemma_shell_words(a, b);
    reveal_with_fuel(shell_words, 2);
    assert(seq![word].drop_last() =~= Seq::empty());
    assert(shell_words(seq![word]) =~= " "@ + cli::shell_quoted(word));
}

/// The wrapper, as root, takes the user off its arguments and rewrites
/// `/etc/passwd` and `/etc/group`, then installs the packages that are asked
/// for, every one of them, and does that before it drops to the user's uid and
/// gid and executes the command in its own place.
pub proof fn law_wrapper_makes_the_user(packages: Seq<Seq<char>>)
    ensures
        ({
            let setup =
                "set -e
uid=$1 gid=$2 user=$3 home=$4
shift 4
case $home in *:*) home=/ ;; esac
awk -F: -v name=\"$user\" -v id=\"$uid\" '$1 != name && $3 != id' /etc/passwd > /etc/passwd.gpubox
printf '%s:x:%s:%s::%s:/bin/bash\\n' \"$user\" \"$uid\" \"$gid\" \"$home\" >> /etc/passwd.gpubox
cat /etc/passwd.gpubox > /etc/passwd
awk -F: -v name=\"$user\" -v id=\"$gid\" '$1 != name && $3 != id' /etc/group > /etc/group.gpubox
printf '%s:x:%s:\\n' \"$user\" \"$gid\" >> /etc/group.gpubox
cat /etc/group.gpubox > /etc/group
rm -f /etc/passwd.gpubox /etc/group.gpubox
"@;
            let install =
                "export DEBIAN_FRONTEND=noninteractive
apt-get update
apt-get install -y --no-install-recommends"@;
            let drop = "exec setpriv --reuid \"$uid\" --regid \"$gid\" --keep-groups -- \"$@\"
"@;
            &&& packages.len() == 0 ==> wrapper_script(packages) == setup + drop
            &&& packages.len() > 0 ==> wrapper_script(packages) == setup + install + shell_words(
                packages,
            ) + "\n"@ + drop
        }),
{
    law_wrapper_installs_before_it_drops(packages);
}

} // verus!
