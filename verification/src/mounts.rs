//! Stage 4: distrobox-grade host integration.
//!
//! Builds the bind mounts, uid mapping, and GUI socket wiring that make a
//! container feel like an extension of the host rather than an isolated
//! box: home directory (dotfiles included, since they live under `$HOME`),
//! current working directory, X11/Wayland sockets, and a prompt marker so
//! users always know which stack they're in.

use vstd::prelude::*;
use crate::backend::Platform;
use crate::paths;
use crate::text;

verus! {

/// A bind mount of a host path into the container.
#[derive(Debug, PartialEq, Eq)]
pub struct BindMount {
    pub host: String,
    pub container: String,
    pub read_only: bool,
}

/// What a [`BindMount`] stands for.
#[verifier::ext_equal]
pub struct BindMountView {
    pub host: Seq<char>,
    pub container: Seq<char>,
    pub read_only: bool,
}

impl DeepView for BindMount {
    type V = BindMountView;

    open spec fn deep_view(&self) -> BindMountView {
        BindMountView {
            host: self.host@,
            container: self.container@,
            read_only: self.read_only,
        }
    }
}

impl Clone for BindMount {
    fn clone(&self) -> (r: Self)
        ensures
            r.deep_view() == self.deep_view(),
    {
        BindMount {
            host: self.host.clone(),
            container: self.container.clone(),
            read_only: self.read_only,
        }
    }
}

/// A mount of `path` at the same place inside the container.
pub open spec fn same_path(path: Seq<char>, read_only: bool) -> BindMountView {
    BindMountView { host: path, container: path, read_only }
}

/// Adds a mount of `path` at the same place inside the container.
pub fn push_mount(mounts: &mut Vec<BindMount>, path: &str, read_only: bool)
    ensures
        final(mounts).deep_view() == old(mounts).deep_view().push(same_path(path@, read_only)),
{
    mounts.push(BindMount { host: path.to_string(), container: path.to_string(), read_only });
    assert(mounts.deep_view() =~= old(mounts).deep_view().push(same_path(path@, read_only)));
}

/// Adds copies of all of `more` at the end of `mounts`.
pub fn push_mounts(mounts: &mut Vec<BindMount>, more: &Vec<BindMount>)
    ensures
        final(mounts).deep_view() == old(mounts).deep_view() + more.deep_view(),
{
    let ghost before = mounts.deep_view();
    let mut i: usize = 0;
    assert(before + more.deep_view().take(0) =~= before);
    while i < more.len()
        invariant
            i <= more@.len(),
            mounts.deep_view() == before + more.deep_view().take(i as int),
        decreases more@.len() - i,
    {
        let ghost now = mounts.deep_view();
        mounts.push(more[i].clone());
        assert(mounts.deep_view() =~= now.push(more.deep_view()[i as int]));
        assert(before + more.deep_view().take(i + 1) =~= (before + more.deep_view().take(
            i as int,
        )).push(more.deep_view()[i as int]));
        i += 1;
    }
    assert(more.deep_view().take(i as int) =~= more.deep_view());
}

/// A copy of a list of mounts.
pub fn clone_mounts(mounts: &Vec<BindMount>) -> (r: Vec<BindMount>)
    ensures
        r.deep_view() == mounts.deep_view(),
{
    let mut r: Vec<BindMount> = Vec::new();
    assert(r.deep_view() =~= Seq::<BindMountView>::empty());
    push_mounts(&mut r, mounts);
    assert(r.deep_view() =~= mounts.deep_view());
    r
}

/// Who the invoking user is.
#[derive(Debug, PartialEq, Eq)]
pub struct Identity {
    pub uid: u32,
    pub gid: u32,
    pub user: String,
    pub home: String,
}

/// What an [`Identity`] stands for.
#[verifier::ext_equal]
pub struct IdentityView {
    pub uid: u32,
    pub gid: u32,
    pub user: Seq<char>,
    pub home: Seq<char>,
}

impl DeepView for Identity {
    type V = IdentityView;

    open spec fn deep_view(&self) -> IdentityView {
        IdentityView { uid: self.uid, gid: self.gid, user: self.user@, home: self.home@ }
    }
}

impl Clone for Identity {
    fn clone(&self) -> (r: Self)
        ensures
            r.deep_view() == self.deep_view(),
    {
        Identity {
            uid: self.uid,
            gid: self.gid,
            user: self.user.clone(),
            home: self.home.clone(),
        }
    }
}

/// The `uid:gid` pair of a user.
pub open spec fn uid_gid(identity: IdentityView) -> Seq<char> {
    text::decimal(identity.uid as nat) + ":"@ + text::decimal(identity.gid as nat)
}

impl Identity {
    /// The `uid:gid` pair of the user.
    pub fn uid_gid(&self) -> (r: String)
        ensures
            r@ == uid_gid(self.deep_view()),
    {
        text::join3(
            text::to_decimal(self.uid as u64).as_str(),
            ":",
            text::to_decimal(self.gid as u64).as_str(),
        )
    }
}

/// What the environment of the invoking process holds.
#[derive(Debug)]
pub struct HostEnv {
    /// `$HOME`, or `%USERPROFILE%` on Windows.
    pub home: Option<String>,
    /// The current working directory.
    pub cwd: Option<String>,
    /// `$DISPLAY`.
    pub display: Option<String>,
    /// `$WAYLAND_DISPLAY`.
    pub wayland_display: Option<String>,
    /// `$XDG_RUNTIME_DIR`.
    pub runtime_dir: Option<String>,
    /// The invoking user.
    pub identity: Identity,
}

/// What a [`HostEnv`] stands for.
#[verifier::ext_equal]
pub struct HostEnvView {
    pub home: Option<Seq<char>>,
    pub cwd: Option<Seq<char>>,
    pub display: Option<Seq<char>>,
    pub wayland_display: Option<Seq<char>>,
    pub runtime_dir: Option<Seq<char>>,
    pub identity: IdentityView,
}

impl DeepView for HostEnv {
    type V = HostEnvView;

    open spec fn deep_view(&self) -> HostEnvView {
        HostEnvView {
            home: self.home.deep_view(),
            cwd: self.cwd.deep_view(),
            display: self.display.deep_view(),
            wayland_display: self.wayland_display.deep_view(),
            runtime_dir: self.runtime_dir.deep_view(),
            identity: self.identity.deep_view(),
        }
    }
}

/// How `$HOME` is mounted. The container runs a root wrapper before it drops
/// privileges, so a read-write home is one that root inside the container can
/// write; the other modes are for those who do not want that.
#[derive(Debug, Clone, Copy, PartialEq, Eq, Structural)]
pub enum HomeMode {
    ReadWrite,
    ReadOnly,
    /// Not mounted at all.
    Absent,
}

/// Everything that ties the container to the host.
#[derive(Debug)]
pub struct HostIntegration {
    pub mounts: Vec<BindMount>,
    pub env: Vec<(String, String)>,
    /// Extra engine flags, e.g. `--userns=keep-id` on podman.
    pub extra_args: Vec<String>,
    /// Container-side path to `cd` into (mirrors the host CWD bind mount).
    pub workdir: Option<String>,
}

/// What a [`HostIntegration`] stands for.
#[verifier::ext_equal]
pub struct HostIntegrationView {
    pub mounts: Seq<BindMountView>,
    pub env: Seq<(Seq<char>, Seq<char>)>,
    pub extra_args: Seq<Seq<char>>,
    pub workdir: Option<Seq<char>>,
}

impl DeepView for HostIntegration {
    type V = HostIntegrationView;

    open spec fn deep_view(&self) -> HostIntegrationView {
        HostIntegrationView {
            mounts: self.mounts.deep_view(),
            env: self.env.deep_view(),
            extra_args: self.extra_args.deep_view(),
            workdir: self.workdir.deep_view(),
        }
    }
}

impl Default for HostIntegration {
    fn default() -> (r: HostIntegration)
        ensures
            r.deep_view() == (HostIntegrationView {
                mounts: Seq::empty(),
                env: Seq::empty(),
                extra_args: Seq::empty(),
                workdir: None,
            }),
    {
        let mounts: Vec<BindMount> = Vec::new();
        assert(mounts.deep_view() =~= Seq::<BindMountView>::empty());
        HostIntegration {
            mounts,
            env: text::no_pairs(),
            extra_args: text::no_strings(),
            workdir: None,
        }
    }
}

/// The mount of the home directory.
pub open spec fn home_mounts(mode: HomeMode, home: Option<Seq<char>>) -> Seq<BindMountView> {
    match home {
        Some(path) => match mode {
            HomeMode::ReadWrite => seq![same_path(path, false)],
            HomeMode::ReadOnly => seq![same_path(path, true)],
            HomeMode::Absent => Seq::empty(),
        },
        None => Seq::empty(),
    }
}

/// The mount of the current working directory.
pub open spec fn cwd_mounts(cwd: Option<Seq<char>>) -> Seq<BindMountView> {
    match cwd {
        Some(path) => seq![same_path(path, false)],
        None => Seq::empty(),
    }
}

/// The mount of the X11 sockets.
pub open spec fn x11_mounts(host: HostEnvView) -> Seq<BindMountView> {
    if host.display is Some {
        seq![same_path("/tmp/.X11-unix"@, false)]
    } else {
        Seq::empty()
    }
}

/// What an X11 client needs to know.
pub open spec fn x11_env(host: HostEnvView) -> Seq<(Seq<char>, Seq<char>)> {
    match host.display {
        Some(display) => seq![("DISPLAY"@, display)],
        None => Seq::empty(),
    }
}

/// The mount of the Wayland socket.
pub open spec fn wayland_mounts(platform: Platform, host: HostEnvView) -> Seq<BindMountView> {
    match (host.wayland_display, host.runtime_dir) {
        (Some(display), Some(dir)) => seq![
            same_path(paths::path_join(platform, dir, display), false),
        ],
        _ => Seq::empty(),
    }
}

/// What a Wayland client needs to know.
pub open spec fn wayland_env(host: HostEnvView) -> Seq<(Seq<char>, Seq<char>)> {
    match (host.wayland_display, host.runtime_dir) {
        (Some(display), Some(dir)) => seq![
            ("XDG_RUNTIME_DIR"@, dir),
            ("WAYLAND_DISPLAY"@, display),
        ],
        _ => Seq::empty(),
    }
}

/// Whether an engine runs Linux containers, in which the invoking user has to
/// be made known.
pub open spec fn is_linux_engine(engine: Seq<char>) -> bool {
    engine == "docker"@ || engine == "podman"@
}

/// The invoking user, at home where the host says.
pub open spec fn user_of(host: HostEnvView) -> IdentityView {
    match host.home {
        Some(home) => IdentityView { home, ..host.identity },
        None => host.identity,
    }
}

/// The invoking user, at home where the host says.
pub fn current_identity(host: &HostEnv) -> (r: Identity)
    ensures
        r.deep_view() == user_of(host.deep_view()),
{
    let mut identity = host.identity.clone();
    if let Some(home) = &host.home {
        identity.home = home.clone();
    }
    identity
}

/// Who the user is, said over whatever account the image has for the uid.
pub open spec fn identity_env(engine: Seq<char>, user: IdentityView) -> Seq<
    (Seq<char>, Seq<char>),
> {
    if is_linux_engine(engine) {
        seq![("HOME"@, user.home), ("USER"@, user.user), ("LOGNAME"@, user.user)]
    } else {
        Seq::empty()
    }
}

/// The uid mapping flags of an engine, so that files created in the mounted
/// home/cwd are owned by the invoking user. Windows has no uids to map.
pub open spec fn uid_args(engine: Seq<char>, platform: Platform, user: IdentityView) -> Seq<
    Seq<char>,
> {
    if engine == "podman"@ {
        seq!["--userns=keep-id"@]
    } else if engine == "docker"@ && platform != Platform::Windows {
        seq!["-u"@, uid_gid(user)]
    } else {
        Seq::empty()
    }
}

/// The host bindings for an engine, a stack and a home mode: home, working
/// directory and GUI sockets, the GUI variables, the prompt marker and the
/// user's identity, and the engine's uid mapping.
pub open spec fn integration(
    engine: Seq<char>,
    stack: Seq<char>,
    mode: HomeMode,
    platform: Platform,
    host: HostEnvView,
) -> HostIntegrationView {
    HostIntegrationView {
        mounts: home_mounts(mode, host.home) + cwd_mounts(host.cwd) + x11_mounts(host)
            + wayland_mounts(platform, host),
        env: x11_env(host) + wayland_env(host) + seq![("GPUBOX_STACK"@, stack)] + identity_env(
            engine,
            user_of(host),
        ),
        extra_args: uid_args(engine, platform, user_of(host)),
        workdir: host.cwd,
    }
}

/// Adds the GUI sockets and variables of the host.
fn add_gui_sockets(
    mounts: &mut Vec<BindMount>,
    env: &mut Vec<(String, String)>,
    platform: Platform,
    host: &HostEnv,
)
    ensures
        final(mounts).deep_view() == old(mounts).deep_view() + x11_mounts(host.deep_view())
            + wayland_mounts(platform, host.deep_view()),
        final(env).deep_view() == old(env).deep_view() + x11_env(host.deep_view()) + wayland_env(
            host.deep_view(),
        ),
{
    let ghost view = host.deep_view();
    if let Some(display) = &host.display {
        push_mount(mounts, "/tmp/.X11-unix", false);
        text::push_pair(env, "DISPLAY", display.as_str());
    }
    assert(mounts.deep_view() =~= old(mounts).deep_view() + x11_mounts(view));
    assert(env.deep_view() =~= old(env).deep_view() + x11_env(view));
    let ghost mounts1 = mounts.deep_view();
    let ghost env1 = env.deep_view();
    if let Some(display) = &host.wayland_display {
        if let Some(dir) = &host.runtime_dir {
            let socket = paths::join_paths(platform, dir.as_str(), display.as_str());
            push_mount(mounts, socket.as_str(), false);
            text::push_pair(env, "XDG_RUNTIME_DIR", dir.as_str());
            text::push_pair(env, "WAYLAND_DISPLAY", display.as_str());
        }
    }
    assert(mounts.deep_view() =~= mounts1 + wayland_mounts(platform, view));
    assert(env.deep_view() =~= env1 + wayland_env(view));
}

/// The uid mapping flags of an engine.
fn uid_mapping(engine: &str, platform: Platform, user: &Identity) -> (r: Vec<String>)
    ensures
        r.deep_view() == uid_args(engine@, platform, user.deep_view()),
{
    let mut r = text::no_strings();
    if text::same(engine, "podman") {
        text::push_str(&mut r, "--userns=keep-id");
    } else if text::same(engine, "docker") && platform != Platform::Windows {
        text::push_str(&mut r, "-u");
        text::push_string(&mut r, user.uid_gid());
    }
    r
}

/// Build the distrobox-style set of host bindings for the given container
/// engine and resolved stack tag (used only for the prompt marker), with the
/// home directory mounted as asked for.
pub fn plan_with_home_mode(
    engine: &str,
    stack: &str,
    mode: HomeMode,
    platform: Platform,
    host: &HostEnv,
) -> (r: HostIntegration)
    ensures
        r.deep_view() == integration(engine@, stack@, mode, platform, host.deep_view()),
{
    let ghost view = host.deep_view();
    let mut mounts: Vec<BindMount> = Vec::new();
    let mut env = text::no_pairs();
    if let Some(home) = &host.home {
        match mode {
            HomeMode::ReadWrite => push_mount(&mut mounts, home.as_str(), false),
            HomeMode::ReadOnly => push_mount(&mut mounts, home.as_str(), true),
            HomeMode::Absent => {},
        }
    }
    assert(mounts.deep_view() =~= home_mounts(mode, view.home));
    if let Some(cwd) = &host.cwd {
        push_mount(&mut mounts, cwd.as_str(), false);
    }
    assert(mounts.deep_view() =~= home_mounts(mode, view.home) + cwd_mounts(view.cwd));
    add_gui_sockets(&mut mounts, &mut env, platform, host);
    assert(env.deep_view() =~= x11_env(view) + wayland_env(view));
    let ghost env1 = env.deep_view();
    text::push_pair(&mut env, "GPUBOX_STACK", stack);
    assert(env.deep_view() =~= env1 + seq![("GPUBOX_STACK"@, stack@)]);
    let ghost env2 = env.deep_view();
    let user = current_identity(host);
    if text::same(engine, "docker") || text::same(engine, "podman") {
        text::push_pair(&mut env, "HOME", user.home.as_str());
        text::push_pair(&mut env, "USER", user.user.as_str());
        text::push_pair(&mut env, "LOGNAME", user.user.as_str());
    }
    assert(env.deep_view() =~= env2 + identity_env(engine@, user_of(view)));
    HostIntegration {
        mounts,
        env,
        extra_args: uid_mapping(engine, platform, &user),
        workdir: host.cwd.clone(),
    }
}

/// Build the standard distrobox-style set of host bindings for the given
/// container engine and resolved stack tag, with a writable home directory.
pub fn plan(engine: &str, stack: &str, platform: Platform, host: &HostEnv) -> (r: HostIntegration)
    ensures
        r.deep_view() == integration(
            engine@,
            stack@,
            HomeMode::ReadWrite,
            platform,
            host.deep_view(),
        ),
{
    plan_with_home_mode(engine, stack, HomeMode::ReadWrite, platform, host)
}

/// A Linux container finds the user's home where it is mounted: `HOME` is the
/// very path.
pub proof fn law_home_is_where_it_is_mounted(
    engine: Seq<char>,
    stack: Seq<char>,
    platform: Platform,
    host: HostEnvView,
    home: Seq<char>,
)
    requires
        is_linux_engine(engine),
        host.home == Some(home),
    ensures
        integration(engine, stack, HomeMode::ReadWrite, platform, host).mounts[0] == same_path(
            home,
            false,
        ),
        integration(engine, stack, HomeMode::ReadWrite, platform, host).env.contains(
            ("HOME"@, home),
        ),
        user_of(host).home == home,
{
    let env = integration(engine, stack, HomeMode::ReadWrite, platform, host).env;
    assert(env[env.len() - 3] == ("HOME"@, home));
}

/// What is mounted, and nothing else is: the home directory unless it is to be
/// absent, read-only only if that is asked for; the working directory,
/// writable; the X11 sockets where there is a display; and the Wayland socket
/// in the runtime directory. Each stands at its own path in the container.
pub proof fn law_what_is_mounted(
    engine: Seq<char>,
    stack: Seq<char>,
    mode: HomeMode,
    platform: Platform,
    host: HostEnvView,
    mount: BindMountView,
)
    ensures
        integration(engine, stack, mode, platform, host).mounts.contains(mount) <==> mount.host
            == mount.container && {
            ||| host.home == Some(mount.host) && mode == HomeMode::ReadWrite && !mount.read_only
            ||| host.home == Some(mount.host) && mode == HomeMode::ReadOnly && mount.read_only
            ||| host.cwd == Some(mount.host) && !mount.read_only
            ||| host.display is Some && mount.host == "/tmp/.X11-unix"@ && !mount.read_only
            ||| (host.wayland_display matches Some(display) && host.runtime_dir matches Some(dir)
                && mount.host == paths::path_join(platform, dir, display) && !mount.read_only)
        },
        integration(engine, stack, mode, platform, host).mounts.len() == one_if(
            host.home is Some && mode != HomeMode::Absent,
        ) + one_if(host.cwd is Some) + one_if(host.display is Some) + one_if(
            host.wayland_display is Some && host.runtime_dir is Some,
        ),
{
    let home = home_mounts(mode, host.home);
    let cwd = cwd_mounts(host.cwd);
    let x11 = x11_mounts(host);
    let wayland = wayland_mounts(platform, host);
    let all = integration(engine, stack, mode, platform, host).mounts;
    lemma_parts_of_four(home, cwd, x11, wayland, mount);
    lemma_at_most_one(home, mount);
    lemma_at_most_one(cwd, mount);
    lemma_at_most_one(x11, mount);
    lemma_at_most_one(wayland, mount);
}

/// One if a thing is there, and else zero.
pub open spec fn one_if(there: bool) -> nat {
    if there {
        1
    } else {
        0
    }
}

proof fn lemma_parts_of_four<T>(a: Seq<T>, b: Seq<T>, c: Seq<T>, d: Seq<T>, x: T)
    ensures
        (a + b + c + d).contains(x) <==> a.contains(x) || b.contains(x) || c.contains(x)
            || d.contains(x),
{
    let all = a + b + c + d;
    if all.contains(x) {
        let i = all.index_of(x);
        if i < a.len() {
            assert(a[i] == x);
        } else if i < a.len() + b.len() {
            assert(b[i - a.len()] == x);
        } else if i < a.len() + b.len() + c.len() {
            assert(c[i - a.len() - b.len()] == x);
        } else {
            assert(d[i - a.len() - b.len() - c.len()] == x);
        }
    }
    if a.contains(x) {
        assert(all[a.index_of(x)] == x);
    }
    if b.contains(x) {
        assert(all[a.len() + b.index_of(x)] == x);
    }
    if c.contains(x) {
        assert(all[a.len() + b.len() + c.index_of(x)] == x);
    }
    if d.contains(x) {
        assert(all[a.len() + b.len() + c.len() + d.index_of(x)] == x);
    }
}

proof fn lemma_at_most_one<T>(a: Seq<T>, x: T)
    requires
        a.len() <= 1,
    ensures
        a.contains(x) <==> a.len() == 1 && a[0] == x,
{
    if a.contains(x) {
        assert(a.index_of(x) == 0);
    }
}

/// Which variables tell the container about the host, and no others do: the
/// stack, for the prompt; the display, and the Wayland display with its runtime
/// directory, where the host has them; and in a Linux container the user's
/// home and name.
pub proof fn law_what_is_set(
    engine: Seq<char>,
    stack: Seq<char>,
    mode: HomeMode,
    platform: Platform,
    host: HostEnvView,
    name: Seq<char>,
    value: Seq<char>,
)
    ensures
        integration(engine, stack, mode, platform, host).env.contains((name, value)) <==> {
            ||| name == "GPUBOX_STACK"@ && value == stack
            ||| name == "DISPLAY"@ && host.display == Some(value)
            ||| name == "XDG_RUNTIME_DIR"@ && host.runtime_dir == Some(value)
                && host.wayland_display is Some
            ||| name == "WAYLAND_DISPLAY"@ && host.wayland_display == Some(value)
                && host.runtime_dir is Some
            ||| (engine == "docker"@ || engine == "podman"@) && name == "HOME"@ && value == (
            match host.home {
                Some(home) => home,
                None => host.identity.home,
            })
            ||| (engine == "docker"@ || engine == "podman"@) && (name == "USER"@ || name
                == "LOGNAME"@) && value == host.identity.user
        },
        integration(engine, stack, mode, platform, host).env.len() == 1 + one_if(
            host.display is Some,
        ) + 2 * one_if(host.wayland_display is Some && host.runtime_dir is Some) + 3 * one_if(
            engine == "docker"@ || engine == "podman"@,
        ),
{
    let pair = (name, value);
    let x11 = x11_env(host);
    let wayland = wayland_env(host);
    let marker = seq![("GPUBOX_STACK"@, stack)];
    let identity = identity_env(engine, user_of(host));
    lemma_parts_of_four(x11, wayland, marker, identity, pair);
    lemma_at_most_one(x11, pair);
    lemma_at_most_one(marker, pair);
    if wayland.contains(pair) {
        let i = wayland.index_of(pair);
        assert(i == 0 || i == 1);
    }
    if wayland.len() == 2 {
        assert(wayland.contains(wayland[0]) && wayland.contains(wayland[1]));
    }
    if identity.contains(pair) {
        let i = identity.index_of(pair);
        assert(i == 0 || i == 1 || i == 2);
    }
    if identity.len() == 3 {
        assert(identity.contains(identity[0]) && identity.contains(identity[1])
            && identity.contains(identity[2]));
    }
}

/// Files that the container makes belong to the user: Podman keeps the user's
/// id, and Docker is handed the uid and gid - but on Windows, which has none.
/// The container starts in the host's working directory.
pub proof fn law_files_belong_to_the_user(
    stack: Seq<char>,
    mode: HomeMode,
    platform: Platform,
    host: HostEnvView,
    engine: Seq<char>,
)
    ensures
        integration("podman"@, stack, mode, platform, host).extra_args == seq![
            "--userns=keep-id"@,
        ],
        platform != Platform::Windows ==> integration(
            "docker"@,
            stack,
            mode,
            platform,
            host,
        ).extra_args == seq![
            "-u"@,
            text::decimal(host.identity.uid as nat) + ":"@ + text::decimal(
                host.identity.gid as nat,
            ),
        ],
        integration("docker"@, stack, mode, Platform::Windows, host).extra_args.len() == 0,
        engine != "docker"@ && engine != "podman"@ ==> integration(
            engine,
            stack,
            mode,
            platform,
            host,
        ).extra_args.len() == 0,
        integration(engine, stack, mode, platform, host).workdir == host.cwd,
{
    reveal_strlit("docker");
    reveal_strlit("podman");
    assert("docker"@[0] == 'd' && "podman"@[0] == 'p');
}

/// The invoking user is the host's, with the host's home where there is one.
pub proof fn law_the_user_is_the_host_user(host: HostEnvView)
    ensures
        user_of(host).uid == host.identity.uid,
        user_of(host).gid == host.identity.gid,
        user_of(host).user == host.identity.user,
        host.home matches Some(home) ==> user_of(host).home == home,
        host.home is None ==> user_of(host).home == host.identity.home,
{
}

} // verus!
