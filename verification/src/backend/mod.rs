//! Backend abstraction: turns a fully-resolved [`LaunchSpec`] into an
//! executable command for whichever sandboxing technology fits the host
//! platform.
//!
//! * Linux: Docker or Podman containers (Docker is the default).
//! * macOS: Seatbelt (`sandbox-exec`), Apple's native process sandboxing.
//! * Windows: Windows Sandbox, a lightweight Hyper-V-backed VM, or
//!   process-isolated Windows containers where GPU compute is needed.

pub mod linux;
pub mod macos;
pub mod windows;
pub mod windows_container;

use vstd::prelude::*;
use crate::backend::linux::ContainerEngine;
use crate::mounts;
use crate::mounts::{BindMount, BindMountView, Identity, IdentityView};
use crate::text;

verus! {

/// Everything a backend needs to know to launch the sandbox.
#[derive(Debug)]
pub struct LaunchSpec {
    pub image: String,
    pub stack: String,
    pub env: Vec<(String, String)>,
    pub mounts: Vec<BindMount>,
    /// Raw engine device flags, e.g. `--gpus all` or `--device /dev/dri`
    /// (Linux only; ignored by the macOS/Windows backends).
    pub device_args: Vec<String>,
    /// Additional raw engine flags (e.g. `--userns=keep-id`, `-u uid:gid`).
    pub extra_args: Vec<String>,
    /// Apt packages the Linux backend must install inside the container
    /// before running `command`. Ignored by the macOS/Windows backends.
    pub packages: Vec<String>,
    /// Command to run inside the sandbox. Empty means "interactive shell".
    pub command: Vec<String>,
    pub interactive: bool,
    /// Working directory to `cd` into inside the sandbox (the container
    /// path corresponding to the host CWD bind mount).
    pub workdir: Option<String>,
}

/// What a [`LaunchSpec`] stands for.
#[verifier::ext_equal]
pub struct LaunchSpecView {
    pub image: Seq<char>,
    pub stack: Seq<char>,
    pub env: Seq<(Seq<char>, Seq<char>)>,
    pub mounts: Seq<BindMountView>,
    pub device_args: Seq<Seq<char>>,
    pub extra_args: Seq<Seq<char>>,
    pub packages: Seq<Seq<char>>,
    pub command: Seq<Seq<char>>,
    pub interactive: bool,
    pub workdir: Option<Seq<char>>,
}

impl DeepView for LaunchSpec {
    type V = LaunchSpecView;

    open spec fn deep_view(&self) -> LaunchSpecView {
        LaunchSpecView {
            image: self.image@,
            stack: self.stack@,
            env: self.env.deep_view(),
            mounts: self.mounts.deep_view(),
            device_args: self.device_args.deep_view(),
            extra_args: self.extra_args.deep_view(),
            packages: self.packages.deep_view(),
            command: self.command.deep_view(),
            interactive: self.interactive,
            workdir: self.workdir.deep_view(),
        }
    }
}

impl Clone for LaunchSpec {
    fn clone(&self) -> (r: Self)
        ensures
            r.deep_view() == self.deep_view(),
    {
        LaunchSpec {
            image: self.image.clone(),
            stack: self.stack.clone(),
            env: text::clone_pairs(&self.env),
            mounts: mounts::clone_mounts(&self.mounts),
            device_args: text::clone_strings(&self.device_args),
            extra_args: text::clone_strings(&self.extra_args),
            packages: text::clone_strings(&self.packages),
            command: text::clone_strings(&self.command),
            interactive: self.interactive,
            workdir: self.workdir.clone(),
        }
    }
}

/// A concrete argv ready to be executed (or printed, for `--dry-run`).
#[derive(Debug, PartialEq, Eq)]
pub struct Invocation {
    pub program: String,
    pub args: Vec<String>,
    /// Any files that have to be written to disk to support this
    /// invocation (e.g. a generated Seatbelt profile or `.wsb` config), by
    /// path and content.
    pub generated_files: Vec<(String, String)>,
}

/// What an [`Invocation`] stands for.
#[verifier::ext_equal]
pub struct InvocationView {
    pub program: Seq<char>,
    pub args: Seq<Seq<char>>,
    pub generated_files: Seq<(Seq<char>, Seq<char>)>,
}

impl DeepView for Invocation {
    type V = InvocationView;

    open spec fn deep_view(&self) -> InvocationView {
        InvocationView {
            program: self.program@,
            args: self.args.deep_view(),
            generated_files: self.generated_files.deep_view(),
        }
    }
}

impl Clone for Invocation {
    fn clone(&self) -> (r: Self)
        ensures
            r.deep_view() == self.deep_view(),
    {
        Invocation {
            program: self.program.clone(),
            args: text::clone_strings(&self.args),
            generated_files: text::clone_pairs(&self.generated_files),
        }
    }
}

/// How the execution of a command ended.
#[derive(Debug, Clone, Copy, PartialEq, Eq, Structural)]
pub enum Outcome {
    /// The program could not be started.
    NotStarted,
    /// The program ended, with this exit code unless a signal ended it.
    Exited { code: Option<i32> },
}

impl Outcome {
    /// Whether the command did its work.
    pub open spec fn is_success(self) -> bool {
        self == Outcome::Exited { code: Some(0i32) }
    }

    /// Whether the command did its work.
    pub fn success(self) -> (r: bool)
        ensures
            r == self.is_success(),
    {
        match self {
            Outcome::Exited { code: Some(code) } => code == 0,
            _ => false,
        }
    }
}

/// The family of the host's operating system.
#[derive(Debug, Clone, Copy, PartialEq, Eq, Structural)]
pub enum Platform {
    Linux,
    MacOs,
    Windows,
    Other,
}

/// Which of the engines' tools the host has.
#[derive(Debug, Clone, Copy, PartialEq, Eq, Structural)]
pub struct Tools {
    /// `docker` is on `PATH`.
    pub docker: bool,
    /// `podman` is on `PATH`.
    pub podman: bool,
    /// `sandbox-exec` is on `PATH`.
    pub sandbox_exec: bool,
    /// `WindowsSandbox.exe` is on `PATH`.
    pub windows_sandbox_on_path: bool,
    /// `C:\Windows\System32\WindowsSandbox.exe` exists.
    pub windows_sandbox_in_system32: bool,
}

/// The sandboxing technologies.
#[derive(Debug, Clone, Copy, PartialEq, Eq, Structural)]
pub enum Engine {
    Docker,
    Podman,
    Seatbelt,
    WindowsSandbox,
    /// Process-isolated Windows container with GPU compute passthrough -
    /// the CUDA-capable alternative to Windows Sandbox's `<VGpu>`, which
    /// only provides WDDM/DirectX paravirtualization. See
    /// `backend::windows_container` for the full rationale.
    WindowsContainer,
}

/// The name of an engine.
pub open spec fn engine_name(engine: Engine) -> Seq<char> {
    match engine {
        Engine::Docker => "docker"@,
        Engine::Podman => "podman"@,
        Engine::Seatbelt => "seatbelt"@,
        Engine::WindowsSandbox => "windows-sandbox"@,
        Engine::WindowsContainer => "windows-container"@,
    }
}

/// The engine that a name stands for, in any case of the letters.
pub open spec fn engine_named(s: Seq<char>) -> Option<Engine> {
    let name = text::lower(s);
    if name == "docker"@ {
        Some(Engine::Docker)
    } else if name == "podman"@ {
        Some(Engine::Podman)
    } else if name == "seatbelt"@ || name == "sandbox-exec"@ {
        Some(Engine::Seatbelt)
    } else if name == "windows-sandbox"@ || name == "wsb"@ {
        Some(Engine::WindowsSandbox)
    } else if name == "windows-container"@ || name == "wincontainer"@ || name == "win-container"@ {
        Some(Engine::WindowsContainer)
    } else {
        None
    }
}

/// Whether the tool of an engine is there. Windows containers are driven by
/// the same `docker` CLI as Linux ones.
pub open spec fn has_tool(engine: Engine, tools: Tools) -> bool {
    match engine {
        Engine::Docker => tools.docker,
        Engine::Podman => tools.podman,
        Engine::Seatbelt => tools.sandbox_exec,
        Engine::WindowsSandbox => tools.windows_sandbox_on_path
            || tools.windows_sandbox_in_system32,
        Engine::WindowsContainer => tools.docker,
    }
}

/// The engine of a platform when nobody asks for another: Docker on Linux,
/// unless only Podman is there.
pub open spec fn platform_default(platform: Platform, tools: Tools) -> Engine {
    match platform {
        Platform::MacOs => Engine::Seatbelt,
        Platform::Windows => Engine::WindowsSandbox,
        _ => if !tools.docker && tools.podman {
            Engine::Podman
        } else {
            Engine::Docker
        },
    }
}

/// Whether a stack needs the vendor's GPU compute.
pub open spec fn needs_gpu_compute(stack: Seq<char>) -> bool {
    stack == "cuda"@ || stack == "rocm"@ || stack == "oneapi"@
}

/// The engine for a stack when nobody asks for another: on Windows, GPU
/// compute goes to Windows containers where they are there.
pub open spec fn stack_default(stack: Seq<char>, platform: Platform, tools: Tools) -> Engine {
    if platform == Platform::Windows && needs_gpu_compute(stack) && has_tool(
        Engine::WindowsContainer,
        tools,
    ) {
        Engine::WindowsContainer
    } else {
        platform_default(platform, tools)
    }
}

/// The Docker/Podman engine that an engine is, if it is one.
pub open spec fn container_engine(engine: Engine) -> Option<ContainerEngine> {
    match engine {
        Engine::Docker => Some(ContainerEngine::Docker),
        Engine::Podman => Some(ContainerEngine::Podman),
        _ => None,
    }
}

impl Engine {
    /// The name of the engine.
    pub fn name(self) -> (r: &'static str)
        ensures
            r@ == engine_name(self),
    {
        match self {
            Engine::Docker => "docker",
            Engine::Podman => "podman",
            Engine::Seatbelt => "seatbelt",
            Engine::WindowsSandbox => "windows-sandbox",
            Engine::WindowsContainer => "windows-container",
        }
    }

    /// The engine that a name or one of its aliases stands for.
    pub fn parse(s: &str) -> (r: Option<Engine>)
        ensures
            r == engine_named(s@),
    {
        let lowered = text::ascii_lowercase(s);
        let name = lowered.as_str();
        if text::same(name, "docker") {
            Some(Engine::Docker)
        } else if text::same(name, "podman") {
            Some(Engine::Podman)
        } else if text::same(name, "seatbelt") || text::same(name, "sandbox-exec") {
            Some(Engine::Seatbelt)
        } else if text::same(name, "windows-sandbox") || text::same(name, "wsb") {
            Some(Engine::WindowsSandbox)
        } else if text::same(name, "windows-container") || text::same(name, "wincontainer")
            || text::same(name, "win-container") {
            Some(Engine::WindowsContainer)
        } else {
            None
        }
    }

    /// The default engine for a host platform. Linux defaults to Docker
    /// (falling back to Podman if Docker isn't installed). Windows defaults
    /// to Windows Sandbox, since it works out of the box with no setup and
    /// needs no GPU for most uses.
    pub fn default_for_platform(platform: Platform, tools: &Tools) -> (r: Engine)
        ensures
            r == platform_default(platform, *tools),
    {
        match platform {
            Platform::MacOs => Engine::Seatbelt,
            Platform::Windows => Engine::WindowsSandbox,
            _ => if !Engine::Docker.is_available(tools) && Engine::Podman.is_available(tools) {
                Engine::Podman
            } else {
                Engine::Docker
            },
        }
    }

    /// Like [`Engine::default_for_platform`], but on Windows additionally
    /// prefers [`Engine::WindowsContainer`] over Windows Sandbox when the
    /// detected stack actually needs vendor GPU compute (`cuda`/`rocm`/
    /// `oneapi`), which Windows Sandbox's `<VGpu>` cannot run at all.
    pub fn default_for_platform_and_stack(stack: &str, platform: Platform, tools: &Tools) -> (r:
        Engine)
        ensures
            r == stack_default(stack@, platform, *tools),
    {
        if platform == Platform::Windows {
            let needs_compute = text::same(stack, "cuda") || text::same(stack, "rocm")
                || text::same(stack, "oneapi");
            if needs_compute && Engine::WindowsContainer.is_available(tools) {
                return Engine::WindowsContainer;
            }
        }
        Engine::default_for_platform(platform, tools)
    }

    /// Whether the underlying tool for this engine is installed on PATH
    /// (or, for Windows Sandbox, present in its usual System32 location).
    pub fn is_available(self, tools: &Tools) -> (r: bool)
        ensures
            r == has_tool(self, *tools),
    {
        match self {
            Engine::Docker => tools.docker,
            Engine::Podman => tools.podman,
            Engine::Seatbelt => tools.sandbox_exec,
            Engine::WindowsSandbox => tools.windows_sandbox_on_path
                || tools.windows_sandbox_in_system32,
            Engine::WindowsContainer => tools.docker,
        }
    }

    /// Every engine.
    pub fn all() -> (r: [Engine; 5])
        ensures
            r@ == seq![
                Engine::Docker,
                Engine::Podman,
                Engine::Seatbelt,
                Engine::WindowsSandbox,
                Engine::WindowsContainer,
            ],
    {
        [
            Engine::Docker,
            Engine::Podman,
            Engine::Seatbelt,
            Engine::WindowsSandbox,
            Engine::WindowsContainer,
        ]
    }

    /// If this engine is one of the Linux docker/podman engines, the
    /// corresponding [`ContainerEngine`]: only these have nameable containers
    /// and buildable images.
    pub fn as_container_engine(self) -> (r: Option<ContainerEngine>)
        ensures
            r == container_engine(self),
    {
        match self {
            Engine::Docker => Some(ContainerEngine::Docker),
            Engine::Podman => Some(ContainerEngine::Podman),
            _ => None,
        }
    }
}

/// Whether `s` ends in `suffix`.
pub open spec fn has_suffix(s: Seq<char>, suffix: Seq<char>) -> bool {
    s.len() >= suffix.len() && s.skip(s.len() - suffix.len()) == suffix
}

/// The file names under which a program is looked for on `PATH`: its own, and
/// with `.exe` on Windows.
pub open spec fn program_files(bin: Seq<char>, platform: Platform) -> Seq<Seq<char>> {
    if platform == Platform::Windows && !has_suffix(bin, ".exe"@) {
        seq![bin, bin + ".exe"@]
    } else {
        seq![bin]
    }
}

/// The file names under which a program is looked for on `PATH`.
pub fn which_candidates(bin: &str, platform: Platform) -> (r: Vec<String>)
    ensures
        r.deep_view() == program_files(bin@, platform),
{
    let chars = text::chars_of(bin);
    let extension = text::chars_of(".exe");
    let is_exe = chars.len() >= extension.len() && text::matches_at(
        &chars,
        &extension,
        chars.len() - extension.len(),
    );
    assert(is_exe == has_suffix(bin@, ".exe"@)) by {
        if bin@.len() >= ".exe"@.len() {
            let at = bin@.len() - ".exe"@.len();
            assert(bin@.subrange(at, at + ".exe"@.len()) =~= bin@.skip(at));
        }
    }
    let mut r = text::no_strings();
    text::push_str(&mut r, bin);
    if platform == Platform::Windows && !is_exe {
        text::push_string(&mut r, text::join2(bin, ".exe"));
    }
    r
}

/// An engine whose tool is not there.
#[derive(Debug, Clone, Copy, PartialEq, Eq, Structural)]
pub struct Unavailable {
    pub engine: Engine,
    pub platform: Platform,
}

/// The engines of a platform, as they are named to people.
pub open spec fn engines_hint(platform: Platform) -> Seq<char> {
    match platform {
        Platform::Linux => "docker, podman"@,
        Platform::MacOs => "seatbelt"@,
        Platform::Windows => "windows-sandbox, windows-container"@,
        Platform::Other => "none supported on this platform"@,
    }
}

/// The engines of a platform, as they are named to people.
pub fn platform_engines_hint(platform: Platform) -> (r: &'static str)
    ensures
        r@ == engines_hint(platform),
{
    match platform {
        Platform::Linux => "docker, podman",
        Platform::MacOs => "seatbelt",
        Platform::Windows => "windows-sandbox, windows-container",
        Platform::Other => "none supported on this platform",
    }
}

/// What the user is told about an engine whose tool is not there.
pub open spec fn unavailable_message(e: Unavailable) -> Seq<char> {
    "backend `"@ + engine_name(e.engine)
        + "` was selected but isn't available on this host.\nInstall it, or choose another with --backend (available choices for this platform: "@
        + engines_hint(e.platform) + ")."@
}

impl Unavailable {
    /// The error as it is shown to people.
    pub fn message(&self) -> (r: String)
        ensures
            r@ == unavailable_message(*self),
    {
        let mut r = text::join3(
            "backend `",
            self.engine.name(),
            "` was selected but isn't available on this host.\nInstall it, or choose another with --backend (available choices for this platform: ",
        );
        r.append(platform_engines_hint(self.platform));
        r.append(").");
        r
    }
}

/// Ensure the chosen engine is actually usable, with a clear error message
/// pointing at how to fix it (install it, or pick another with
/// `--backend`).
pub fn ensure_available(engine: Engine, platform: Platform, tools: &Tools) -> (r: Result<
    (),
    Unavailable,
>)
    ensures
        match r {
            Ok(_) => has_tool(engine, *tools),
            Err(e) => !has_tool(engine, *tools) && e == (Unavailable { engine, platform }),
        },
{
    if engine.is_available(tools) {
        Ok(())
    } else {
        Err(Unavailable { engine, platform })
    }
}

/// Why no invocation could be built. None of the engines has a reason of its
/// own so far.
#[derive(Debug, Clone, Copy, PartialEq, Eq, Structural)]
pub struct BackendError;

/// What the user is told when no invocation could be built.
pub open spec fn backend_message(e: BackendError) -> Seq<char> {
    "no invocation could be built"@
}

impl BackendError {
    /// The error as it is shown to people.
    pub fn message(&self) -> (r: String)
        ensures
            r@ == backend_message(*self),
    {
        "no invocation could be built".to_string()
    }
}

/// The invocation for a launch under an engine.
pub open spec fn invocation_for(
    engine: Engine,
    spec: LaunchSpecView,
    identity: IdentityView,
    scratch_dir: Seq<char>,
) -> Result<InvocationView, BackendError> {
    match engine {
        Engine::Docker => Ok(linux::run_invocation(ContainerEngine::Docker, spec, identity)),
        Engine::Podman => Ok(linux::run_invocation(ContainerEngine::Podman, spec, identity)),
        Engine::Seatbelt => Ok(macos::seatbelt_invocation(spec, scratch_dir)),
        Engine::WindowsSandbox => Ok(windows::sandbox_invocation(spec, scratch_dir)),
        Engine::WindowsContainer => Ok(windows_container::container_invocation(spec)),
    }
}

/// Build the executable invocation for `spec` under `engine`. `identity` is
/// the invoking user, whom Linux containers take on; generated files go to
/// `scratch_dir`.
pub fn build_invocation(
    engine: Engine,
    spec: &LaunchSpec,
    identity: &Identity,
    scratch_dir: &str,
) -> (r: Result<Invocation, BackendError>)
    ensures
        r matches Ok(invocation) && invocation_for(
            engine,
            spec.deep_view(),
            identity.deep_view(),
            scratch_dir@,
        ) == Ok::<InvocationView, BackendError>(invocation.deep_view()),
{
    match engine {
        Engine::Docker => Ok(linux::build_invocation(ContainerEngine::Docker, spec, identity)),
        Engine::Podman => Ok(linux::build_invocation(ContainerEngine::Podman, spec, identity)),
        Engine::Seatbelt => Ok(macos::build_invocation(spec, scratch_dir)),
        Engine::WindowsSandbox => Ok(windows::build_invocation(spec, scratch_dir)),
        Engine::WindowsContainer => windows_container::build_invocation(spec),
    }
}

/// Every engine has an invocation for every launch; and that of Docker and
/// Podman runs the command - the last of its arguments - through the wrapper,
/// which installs the packages first.
pub proof fn law_every_launch_has_an_invocation(
    engine: Engine,
    spec: LaunchSpecView,
    identity: IdentityView,
    scratch_dir: Seq<char>,
)
    ensures
        invocation_for(engine, spec, identity, scratch_dir) is Ok,
        container_engine(engine) is Some ==> {
            let args = invocation_for(engine, spec, identity, scratch_dir)->Ok_0.args;
            let tail = linux::wrapped(
                spec.packages,
                identity,
                linux::command_or_shell(spec.command),
            );
            args.skip(args.len() - tail.len()) == tail
        },
{
    if let Some(container_engine) = container_engine(engine) {
        let args = linux::run_args(container_engine, spec, identity);
        let tail = linux::wrapped(spec.packages, identity, linux::command_or_shell(spec.command));
        assert(args.skip(args.len() - tail.len()) =~= tail);
    }
}

/// Every engine is found again under its own name.
pub proof fn law_engine_names_parse(engine: Engine)
    ensures
        engine_named(engine_name(engine)) == Some(engine),
{
    reveal_strlit("docker");
    reveal_strlit("podman");
    reveal_strlit("seatbelt");
    reveal_strlit("sandbox-exec");
    reveal_strlit("windows-sandbox");
    reveal_strlit("wsb");
    reveal_strlit("windows-container");
    reveal_strlit("wincontainer");
    reveal_strlit("win-container");
    let name = engine_name(engine);
    assert(text::lower(name) =~= name);
    assert(name.len() == 8 ==> name[0] == 's');
    assert("podman"@[0] == 'p' && "docker"@[0] == 'd');
    assert("windows-sandbox"@.len() == 15 && "windows-container"@.len() == 17);
}

/// The case of the letters in an engine's name does not matter.
pub proof fn law_engine_names_ignore_case(s: Seq<char>)
    ensures
        engine_named(text::lower(s)) == engine_named(s),
{
    text::law_lower_is_idempotent(s);
}

/// The default engine of Linux is one of the two container engines, so that a
/// launch is persistent there without asking.
pub proof fn law_linux_default_is_a_container_engine(stack: Seq<char>, tools: Tools)
    ensures
        container_engine(stack_default(stack, Platform::Linux, tools)) is Some,
        stack_default(stack, Platform::Linux, tools) == platform_default(Platform::Linux, tools),
{
}

/// On Windows a stack that needs GPU compute never goes to Windows Sandbox,
/// which cannot run it, where Windows containers are there.
pub proof fn law_gpu_compute_avoids_windows_sandbox(stack: Seq<char>, tools: Tools)
    requires
        needs_gpu_compute(stack),
        has_tool(Engine::WindowsContainer, tools),
    ensures
        stack_default(stack, Platform::Windows, tools) == Engine::WindowsContainer,
{
}

/// The name of each engine.
pub proof fn law_engine_names()
    ensures
        engine_name(Engine::Docker) == "docker"@,
        engine_name(Engine::Podman) == "podman"@,
        engine_name(Engine::Seatbelt) == "seatbelt"@,
        engine_name(Engine::WindowsSandbox) == "windows-sandbox"@,
        engine_name(Engine::WindowsContainer) == "windows-container"@,
{
}

/// Which names an engine is asked for by, in any case of the letters; and no
/// other name asks for one.
pub proof fn law_engines_by_name(s: Seq<char>)
    ensures
        engine_named(s) == Some(Engine::Docker) <==> text::lower(s) == "docker"@,
        engine_named(s) == Some(Engine::Podman) <==> text::lower(s) == "podman"@,
        engine_named(s) == Some(Engine::Seatbelt) <==> text::lower(s) == "seatbelt"@ || text::lower(
            s,
        ) == "sandbox-exec"@,
        engine_named(s) == Some(Engine::WindowsSandbox) <==> text::lower(s) == "windows-sandbox"@
            || text::lower(s) == "wsb"@,
        engine_named(s) == Some(Engine::WindowsContainer) <==> text::lower(s)
            == "windows-container"@ || text::lower(s) == "wincontainer"@ || text::lower(s)
            == "win-container"@,
{
    reveal_strlit("docker");
    reveal_strlit("podman");
    reveal_strlit("seatbelt");
    reveal_strlit("sandbox-exec");
    reveal_strlit("windows-sandbox");
    reveal_strlit("wsb");
    reveal_strlit("windows-container");
    reveal_strlit("wincontainer");
    reveal_strlit("win-container");
    assert("docker"@[0] == 'd' && "podman"@[0] == 'p');
    assert("sandbox-exec"@[0] == 's' && "wincontainer"@[0] == 'w');
    assert("docker"@.len() == 6 && "podman"@.len() == 6 && "seatbelt"@.len() == 8);
    assert("sandbox-exec"@.len() == 12 && "wincontainer"@.len() == 12 && "win-container"@.len()
        == 13);
    assert("windows-sandbox"@.len() == 15 && "windows-container"@.len() == 17 && "wsb"@.len() == 3);
}

/// An engine is available exactly where its tool is: Docker, which also drives
/// Windows containers; Podman; `sandbox-exec`; and Windows Sandbox, on the path
/// or in its usual place.
pub proof fn law_engines_need_their_tool(tools: Tools)
    ensures
        has_tool(Engine::Docker, tools) <==> tools.docker,
        has_tool(Engine::WindowsContainer, tools) <==> tools.docker,
        has_tool(Engine::Podman, tools) <==> tools.podman,
        has_tool(Engine::Seatbelt, tools) <==> tools.sandbox_exec,
        !tools.windows_sandbox_on_path && !tools.windows_sandbox_in_system32 ==> !has_tool(
            Engine::WindowsSandbox,
            tools,
        ),
        tools.windows_sandbox_on_path ==> has_tool(Engine::WindowsSandbox, tools),
        tools.windows_sandbox_in_system32 ==> has_tool(Engine::WindowsSandbox, tools),
{
}

/// The default engine of each platform. Linux: Docker, and Podman only where
/// Docker is missing and Podman is there. macOS: Seatbelt. Windows: Windows
/// Sandbox, but a Windows container for the stacks that need GPU compute -
/// `cuda`, `rocm` and `oneapi` - where Docker is there to run it.
pub proof fn law_default_engines(stack: Seq<char>, tools: Tools)
    ensures
        stack_default(stack, Platform::Linux, tools) == (if tools.podman && !tools.docker {
            Engine::Podman
        } else {
            Engine::Docker
        }),
        stack_default(stack, Platform::Other, tools) == stack_default(
            stack,
            Platform::Linux,
            tools,
        ),
        stack_default(stack, Platform::MacOs, tools) == Engine::Seatbelt,
        tools.docker && (stack == "cuda"@ || stack == "rocm"@ || stack == "oneapi"@)
            ==> stack_default(stack, Platform::Windows, tools) == Engine::WindowsContainer,
        !tools.docker || (stack != "cuda"@ && stack != "rocm"@ && stack != "oneapi"@)
            ==> stack_default(stack, Platform::Windows, tools) == Engine::WindowsSandbox,
        platform_default(Platform::Linux, tools) == stack_default(stack, Platform::Linux, tools),
        platform_default(Platform::Other, tools) == stack_default(stack, Platform::Linux, tools),
        platform_default(Platform::MacOs, tools) == Engine::Seatbelt,
        platform_default(Platform::Windows, tools) == Engine::WindowsSandbox,
{
}

/// Docker and Podman run containers that can be named and kept, as themselves;
/// no other engine does.
pub proof fn law_container_engines(engine: Engine)
    ensures
        container_engine(Engine::Docker) == Some(ContainerEngine::Docker),
        container_engine(Engine::Podman) == Some(ContainerEngine::Podman),
        engine != Engine::Docker && engine != Engine::Podman ==> container_engine(engine) is None,
        container_engine(engine) matches Some(found) ==> linux::engine_program(found)
            == engine_name(engine),
{
}

/// A program is looked for under its own name, and on Windows also with `.exe`
/// after it, unless it has that already.
pub proof fn law_programs_are_looked_for(bin: Seq<char>, platform: Platform, stem: Seq<char>)
    ensures
        program_files(bin, platform)[0] == bin,
        platform != Platform::Windows ==> program_files(bin, platform).len() == 1,
        program_files(stem + ".exe"@, Platform::Windows).len() == 1,
        (forall|s: Seq<char>| bin != #[trigger] (s + ".exe"@)) ==> program_files(
            bin,
            Platform::Windows,
        ) == seq![bin, bin + ".exe"@],
{
    let full = stem + ".exe"@;
    assert(full.skip(full.len() - ".exe"@.len()) =~= ".exe"@);
    if has_suffix(bin, ".exe"@) {
        let s = bin.take(bin.len() - ".exe"@.len());
        assert(bin =~= s + ".exe"@);
    }
}

/// Each engine has its own invocation: Docker's and Podman's of a one-off
/// container, Seatbelt's, Windows Sandbox's, and a Windows container's.
pub proof fn law_invocations_are_of_the_engine(
    spec: LaunchSpecView,
    identity: IdentityView,
    dir: Seq<char>,
)
    ensures
        invocation_for(Engine::Docker, spec, identity, dir) matches Ok(found) && found
            == linux::run_invocation(ContainerEngine::Docker, spec, identity) && found.program
            == "docker"@,
        invocation_for(Engine::Podman, spec, identity, dir) matches Ok(found) && found
            == linux::run_invocation(ContainerEngine::Podman, spec, identity) && found.program
            == "podman"@,
        invocation_for(Engine::Seatbelt, spec, identity, dir) matches Ok(found) && found
            == macos::seatbelt_invocation(spec, dir) && found.program == "sandbox-exec"@,
        invocation_for(Engine::WindowsSandbox, spec, identity, dir) matches Ok(found) && found
            == windows::sandbox_invocation(spec, dir) && found.program == "WindowsSandbox.exe"@,
        invocation_for(Engine::WindowsContainer, spec, identity, dir) matches Ok(found) && found
            == windows_container::container_invocation(spec) && found.program == "docker"@
            && found.args.take(4) == seq!["run"@, "--rm"@, "--isolation"@, "process"@],
{
    let args = windows_container::container_invocation(spec).args;
    assert(args.take(4) =~= seq!["run"@, "--rm"@, "--isolation"@, "process"@]);
}

/// What the user is told about an engine that is not there names the engine and
/// the engines that the platform has.
pub proof fn law_unavailable_engines_come_with_a_hint(engine: Engine)
    ensures
        engines_hint(Platform::Linux) == "docker, podman"@,
        engines_hint(Platform::MacOs) == "seatbelt"@,
        engines_hint(Platform::Windows) == "windows-sandbox, windows-container"@,
        unavailable_message(Unavailable { engine, platform: Platform::Linux }) == "backend `"@
            + engine_name(engine)
            + "` was selected but isn't available on this host.\nInstall it, or choose another with --backend (available choices for this platform: "@
            + "docker, podman"@ + ")."@,
{
}

} // verus!
