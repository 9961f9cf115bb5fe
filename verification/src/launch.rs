//! Wires probe, stack resolution, device injection and host integration
//! together into a single [`LaunchSpec`] ready to hand to a
//! [`crate::backend`].

use vstd::prelude::*;
use crate::backend;
use crate::backend::{Engine, LaunchSpec, LaunchSpecView, Platform, Tools};
use crate::device;
use crate::device::{DeviceHost, DeviceHostView};
use crate::mounts;
use crate::mounts::{BindMount, BindMountView, HomeMode, HostEnv, HostEnvView};
use crate::paths;
use crate::probe;
use crate::probe::pciids::{PciIds, PciIdsView};
use crate::probe::{
    GpuClass, GpuClassView, GpuDevice, GpuDeviceView, RawProbe, RawProbeView, SelectError,
    SelectErrorView,
};
use crate::stack;
use crate::stack::{
    QuirksDb, QuirksDbView, ResolveError, ResolveErrorView, ResolvedStack, ResolvedStackView,
};
use crate::text;

verus! {

/// User-facing overrides, one per `gpubox` global CLI flag.
#[derive(Debug)]
pub struct Overrides {
    pub backend: Option<String>,
    pub image: Option<String>,
    /// Force a specific hardware classification instead of probing the
    /// host, e.g. `sm_86`, `gfx1100`, `arc`, `apple`, `vulkan`, `cpu`.
    pub gfx_override: Option<String>,
    /// Select a specific detected GPU on a multi-GPU/hybrid host, by
    /// 0-based index (`--gpu 1`) or coarse vendor name (`--gpu nvidia`).
    /// `None` keeps the default [`probe::pick_primary`] behavior.
    pub gpu: Option<String>,
    /// Give the container a name (`--name ml`) instead of the default one,
    /// shared across every stack/hardware config: either way, the container
    /// is created once and reattached on subsequent `gpubox run` invocations
    /// instead of being torn down. See [`crate::container`].
    pub name: Option<String>,
    /// Use a throwaway `--rm` container for this invocation instead of a
    /// persistent one. Mutually exclusive with `name`.
    pub ephemeral: bool,
    /// Don't mount `$HOME` into the container at all.
    pub no_home: bool,
    /// Mount `$HOME` read-only instead of read-write.
    pub read_only_home: bool,
}

/// What an [`Overrides`] stands for.
#[verifier::ext_equal]
pub struct OverridesView {
    pub backend: Option<Seq<char>>,
    pub image: Option<Seq<char>>,
    pub gfx_override: Option<Seq<char>>,
    pub gpu: Option<Seq<char>>,
    pub name: Option<Seq<char>>,
    pub ephemeral: bool,
    pub no_home: bool,
    pub read_only_home: bool,
}

impl DeepView for Overrides {
    type V = OverridesView;

    open spec fn deep_view(&self) -> OverridesView {
        OverridesView {
            backend: self.backend.deep_view(),
            image: self.image.deep_view(),
            gfx_override: self.gfx_override.deep_view(),
            gpu: self.gpu.deep_view(),
            name: self.name.deep_view(),
            ephemeral: self.ephemeral,
            no_home: self.no_home,
            read_only_home: self.read_only_home,
        }
    }
}

/// No override at all.
pub open spec fn no_overrides() -> OverridesView {
    OverridesView {
        backend: None,
        image: None,
        gfx_override: None,
        gpu: None,
        name: None,
        ephemeral: false,
        no_home: false,
        read_only_home: false,
    }
}

impl Default for Overrides {
    fn default() -> (r: Overrides)
        ensures
            r.deep_view() == no_overrides(),
    {
        Overrides {
            backend: None,
            image: None,
            gfx_override: None,
            gpu: None,
            name: None,
            ephemeral: false,
            no_home: false,
            read_only_home: false,
        }
    }
}

impl Clone for Overrides {
    fn clone(&self) -> (r: Self)
        ensures
            r.deep_view() == self.deep_view(),
    {
        Overrides {
            backend: self.backend.clone(),
            image: self.image.clone(),
            gfx_override: self.gfx_override.clone(),
            gpu: self.gpu.clone(),
            name: self.name.clone(),
            ephemeral: self.ephemeral,
            no_home: self.no_home,
            read_only_home: self.read_only_home,
        }
    }
}

/// What is known about the host before anything is decided.
#[derive(Debug)]
pub struct Host {
    pub platform: Platform,
    pub tools: Tools,
    /// What the platform's interface says about its GPUs.
    pub raw: RawProbe,
    /// The environment of the invoking process.
    pub env: HostEnv,
    /// What bears on device injection (Linux only).
    pub devices: DeviceHost,
}

/// What a [`Host`] stands for.
#[verifier::ext_equal]
pub struct HostView {
    pub platform: Platform,
    pub tools: Tools,
    pub raw: RawProbeView,
    pub env: HostEnvView,
    pub devices: DeviceHostView,
}

impl DeepView for Host {
    type V = HostView;

    open spec fn deep_view(&self) -> HostView {
        HostView {
            platform: self.platform,
            tools: self.tools,
            raw: self.raw.deep_view(),
            env: self.env.deep_view(),
            devices: self.devices.deep_view(),
        }
    }
}

/// Why no launch could be planned.
#[derive(Debug, PartialEq, Eq)]
pub enum PlanError {
    /// `--no-home` together with `--read-only-home`.
    HomeConflict,
    /// A `--gfx-override` that names no classification.
    UnknownArch { value: String },
    /// A `--gpu` that selects nothing.
    Select(SelectError),
    /// A classification that no rule resolves.
    Resolve(ResolveError),
    /// A `--backend` that names no engine.
    UnknownBackend { name: String },
}

/// What a [`PlanError`] stands for.
#[verifier::ext_equal]
pub enum PlanErrorView {
    HomeConflict,
    UnknownArch { value: Seq<char> },
    Select(SelectErrorView),
    Resolve(ResolveErrorView),
    UnknownBackend { name: Seq<char> },
}

impl DeepView for PlanError {
    type V = PlanErrorView;

    open spec fn deep_view(&self) -> PlanErrorView {
        match self {
            PlanError::HomeConflict => PlanErrorView::HomeConflict,
            PlanError::UnknownArch { value } => PlanErrorView::UnknownArch { value: value@ },
            PlanError::Select(e) => PlanErrorView::Select(e.deep_view()),
            PlanError::Resolve(e) => PlanErrorView::Resolve(e.deep_view()),
            PlanError::UnknownBackend { name } => PlanErrorView::UnknownBackend { name: name@ },
        }
    }
}

/// What the user is told about an unknown backend.
pub open spec fn unknown_backend_message(name: Seq<char>) -> Seq<char> {
    "unrecognized --backend `"@ + name + "`"@
}

/// What the user is told when no launch could be planned.
pub open spec fn plan_message(e: PlanErrorView) -> Seq<char> {
    match e {
        PlanErrorView::HomeConflict => "--no-home and --read-only-home are mutually exclusive"@,
        PlanErrorView::UnknownArch { value } => "unrecognized --gfx-override value `"@ + value
            + "`; expected an sm_* / gfx* arch tag, one of arc/xe/igpu, or apple/vulkan/cpu"@,
        PlanErrorView::Select(e) => probe::select_message(e),
        PlanErrorView::Resolve(e) => stack::resolve_message(e),
        PlanErrorView::UnknownBackend { name } => unknown_backend_message(name),
    }
}

impl PlanError {
    /// The error as it is shown to people.
    pub fn message(&self) -> (r: String)
        ensures
            r@ == plan_message(self.deep_view()),
    {
        match self {
            PlanError::HomeConflict => {
                "--no-home and --read-only-home are mutually exclusive".to_string()
            },
            PlanError::UnknownArch { value } => {
                text::join3(
                    "unrecognized --gfx-override value `",
                    value.as_str(),
                    "`; expected an sm_* / gfx* arch tag, one of arc/xe/igpu, or apple/vulkan/cpu",
                )
            },
            PlanError::Select(e) => e.message(),
            PlanError::Resolve(e) => e.message(),
            PlanError::UnknownBackend { name } => {
                text::join3("unrecognized --backend `", name.as_str(), "`")
            },
        }
    }
}

/// The classification that a `--gfx-override` value names, in any case of the
/// letters.
pub open spec fn override_class(value: Seq<char>) -> Option<GpuClassView> {
    let lower = text::lower(value);
    if text::has_prefix(lower, "sm_"@) {
        Some(GpuClassView::Nvidia { arch: lower })
    } else if text::has_prefix(lower, "gfx"@) {
        Some(GpuClassView::Amd { arch: lower })
    } else if lower == "arc"@ || lower == "xe"@ || lower == "igpu"@ {
        Some(GpuClassView::Intel { class: lower })
    } else if lower == "apple"@ {
        Some(GpuClassView::Apple)
    } else if lower == "vulkan"@ {
        Some(GpuClassView::Vulkan)
    } else if lower == "cpu"@ || lower == "none"@ {
        Some(GpuClassView::NoGpu)
    } else {
        None
    }
}

/// Parse a `--gfx-override` value into a [`GpuClass`]. Prefixes match the
/// same arch-tag conventions used throughout the PCI id database.
pub fn parse_gfx_override(value: &str) -> (r: Result<GpuClass, PlanError>)
    ensures
        match r {
            Ok(class) => override_class(value@) == Some(class.deep_view()),
            Err(e) => override_class(value@) is None && e.deep_view() == (
            PlanErrorView::UnknownArch { value: value@ }),
        },
{
    let lower = text::ascii_lowercase(value);
    if text::starts_with(lower.as_str(), "sm_") {
        Ok(GpuClass::Nvidia { arch: lower })
    } else if text::starts_with(lower.as_str(), "gfx") {
        Ok(GpuClass::Amd { arch: lower })
    } else if text::same(lower.as_str(), "arc") || text::same(lower.as_str(), "xe") || text::same(
        lower.as_str(),
        "igpu",
    ) {
        Ok(GpuClass::Intel { class: lower })
    } else if text::same(lower.as_str(), "apple") {
        Ok(GpuClass::Apple)
    } else if text::same(lower.as_str(), "vulkan") {
        Ok(GpuClass::Vulkan)
    } else if text::same(lower.as_str(), "cpu") || text::same(lower.as_str(), "none") {
        Ok(GpuClass::NoGpu)
    } else {
        Err(PlanError::UnknownArch { value: value.to_string() })
    }
}

/// A launch with everything that was decided on the way to it.
#[derive(Debug)]
pub struct Plan {
    pub class: GpuClass,
    /// Every GPU the probe detected (before `--gpu`/primary selection),
    /// for `gpubox doctor` to surface on multi-GPU/hybrid hosts.
    pub devices: Vec<GpuDevice>,
    pub resolved: ResolvedStack,
    pub engine: Engine,
    pub spec: LaunchSpec,
    /// Explanation of the device-injection path chosen (Linux only).
    pub device_reason: Option<String>,
}

/// What a [`Plan`] stands for.
#[verifier::ext_equal]
pub struct PlanView {
    pub class: GpuClassView,
    pub devices: Seq<GpuDeviceView>,
    pub resolved: ResolvedStackView,
    pub engine: Engine,
    pub spec: LaunchSpecView,
    pub device_reason: Option<Seq<char>>,
}

impl DeepView for Plan {
    type V = PlanView;

    open spec fn deep_view(&self) -> PlanView {
        PlanView {
            class: self.class.deep_view(),
            devices: self.devices.deep_view(),
            resolved: self.resolved.deep_view(),
            engine: self.engine,
            spec: self.spec.deep_view(),
            device_reason: self.device_reason.deep_view(),
        }
    }
}

/// The classification of a launch: the override's, or else that of the
/// selected GPU, or else that of the primary one.
pub open spec fn chosen_class(devices: Seq<GpuDeviceView>, overrides: OverridesView) -> Result<
    GpuClassView,
    PlanErrorView,
> {
    match overrides.gfx_override {
        Some(value) => match override_class(value) {
            Some(class) => Ok(class),
            None => Err(PlanErrorView::UnknownArch { value }),
        },
        None => match overrides.gpu {
            Some(selector) => match probe::selection(devices, selector) {
                Ok(device) => Ok(device.class),
                Err(e) => Err(PlanErrorView::Select(e)),
            },
            None => Ok(probe::primary(devices).class),
        },
    }
}

fn choose_class(devices: &Vec<GpuDevice>, overrides: &Overrides) -> (r: Result<GpuClass, PlanError>)
    requires
        devices@.len() > 0,
    ensures
        match r {
            Ok(class) => chosen_class(devices.deep_view(), overrides.deep_view()) == Ok::<
                GpuClassView,
                PlanErrorView,
            >(class.deep_view()),
            Err(e) => chosen_class(devices.deep_view(), overrides.deep_view()) == Err::<
                GpuClassView,
                PlanErrorView,
            >(e.deep_view()),
        },
{
    let list = devices.as_slice();
    assert(list.deep_view() =~= devices.deep_view());
    match &overrides.gfx_override {
        Some(value) => parse_gfx_override(value.as_str()),
        None => match &overrides.gpu {
            // Multi-GPU/hybrid hosts (e.g. an Intel iGPU alongside an
            // NVIDIA dGPU) shouldn't have their hardware silently chosen
            // for them - `--gpu <index|vendor>` lets the user pick
            // explicitly instead of trusting `pick_primary`'s ranking.
            Some(selector) => match probe::select(list, selector.as_str()) {
                Ok(device) => Ok(device.class),
                Err(e) => Err(PlanError::Select(e)),
            },
            None => Ok(probe::pick_primary(list).class.clone()),
        },
    }
}

/// The engine of a launch: the one asked for, or else the default one.
pub open spec fn chosen_engine(
    backend: Option<Seq<char>>,
    stack: Seq<char>,
    platform: Platform,
    tools: Tools,
) -> Result<Engine, PlanErrorView> {
    match backend {
        Some(name) => match backend::engine_named(name) {
            Some(engine) => Ok(engine),
            None => Err(PlanErrorView::UnknownBackend { name }),
        },
        None => Ok(backend::stack_default(stack, platform, tools)),
    }
}

fn choose_engine(backend: &Option<String>, stack: &str, platform: Platform, tools: &Tools) -> (r:
    Result<Engine, PlanError>)
    ensures
        match r {
            Ok(engine) => chosen_engine(backend.deep_view(), stack@, platform, *tools) == Ok::<
                Engine,
                PlanErrorView,
            >(engine),
            Err(e) => chosen_engine(backend.deep_view(), stack@, platform, *tools) == Err::<
                Engine,
                PlanErrorView,
            >(e.deep_view()),
        },
{
    match backend {
        Some(name) => match Engine::parse(name.as_str()) {
            Some(engine) => Ok(engine),
            None => Err(PlanError::UnknownBackend { name: name.clone() }),
        },
        None => Ok(Engine::default_for_platform_and_stack(stack, platform, tools)),
    }
}

/// The image of a launch: the one asked for, or else the stack's own - the
/// Windows-based one, if there is one, for a Windows container.
pub open spec fn chosen_image(
    image: Option<Seq<char>>,
    engine: Engine,
    resolved: ResolvedStackView,
) -> Seq<char> {
    match image {
        Some(image) => image,
        None => match resolved.windows_image {
            Some(windows_image) => if engine == Engine::WindowsContainer {
                windows_image
            } else {
                resolved.image
            },
            None => resolved.image,
        },
    }
}

fn choose_image(image: &Option<String>, engine: Engine, resolved: &ResolvedStack) -> (r: String)
    ensures
        r@ == chosen_image(image.deep_view(), engine, resolved.deep_view()),
{
    if let Some(image) = image {
        return image.clone();
    }
    // `resolved.image` is always a Linux image reference (the vendor's
    // published CUDA/ROCm/oneAPI container, or the Ubuntu-based Vulkan/CPU
    // fallback) - it cannot run as a Windows container, which needs a
    // Windows Server Core/Nano Server-based image instead.
    if engine == Engine::WindowsContainer {
        if let Some(windows_image) = &resolved.windows_image {
            return windows_image.clone();
        }
    }
    resolved.image.clone()
}

/// How the home directory is mounted.
pub open spec fn home_mode(no_home: bool, read_only_home: bool) -> HomeMode {
    if no_home {
        HomeMode::Absent
    } else if read_only_home {
        HomeMode::ReadOnly
    } else {
        HomeMode::ReadWrite
    }
}

/// What device injection adds to a launch.
#[verifier::ext_equal]
pub struct InjectedView {
    pub args: Seq<Seq<char>>,
    pub reason: Option<Seq<char>>,
    pub mounts: Seq<BindMountView>,
}

/// What device injection adds to a launch: only Linux has it.
pub open spec fn injected(
    platform: Platform,
    class: GpuClassView,
    host: DeviceHostView,
) -> InjectedView {
    if platform == Platform::Linux {
        let injection = device::injection(class, host);
        InjectedView {
            args: injection.args,
            reason: Some(injection.reason),
            mounts: device::library_binds(injection.library_mounts),
        }
    } else {
        InjectedView { args: Seq::empty(), reason: None, mounts: Seq::empty() }
    }
}

/// What device injection adds to a launch: engine flags, the explanation of
/// the path chosen, and the mounts of the host's driver libraries. Nothing at
/// all but on Linux.
pub fn device_injection(platform: Platform, class: &GpuClass, host: &DeviceHost) -> (r: (
    Vec<String>,
    Option<String>,
    Vec<BindMount>,
))
    ensures
        (InjectedView { args: r.0.deep_view(), reason: r.1.deep_view(), mounts: r.2.deep_view() })
            == injected(platform, class.deep_view(), host.deep_view()),
{
    if platform == Platform::Linux {
        let injection = device::plan(class, host);
        let library_mounts = device::bind_libraries(&injection.library_mounts);
        (injection.args, Some(injection.reason), library_mounts)
    } else {
        let mounts: Vec<BindMount> = Vec::new();
        assert(mounts.deep_view() =~= Seq::<BindMountView>::empty());
        (text::no_strings(), None, mounts)
    }
}

/// The launch of an engine, a stack and a classification.
pub open spec fn launch_spec(
    class: GpuClassView,
    resolved: ResolvedStackView,
    engine: Engine,
    overrides: OverridesView,
    host: HostView,
    command: Seq<Seq<char>>,
    interactive: bool,
) -> LaunchSpecView {
    let added = injected(host.platform, class, host.devices);
    let integration = mounts::integration(
        backend::engine_name(engine),
        resolved.stack,
        home_mode(overrides.no_home, overrides.read_only_home),
        host.platform,
        host.env,
    );
    LaunchSpecView {
        image: chosen_image(overrides.image, engine, resolved),
        stack: resolved.stack,
        env: resolved.env + integration.env,
        mounts: integration.mounts + added.mounts,
        device_args: added.args,
        extra_args: integration.extra_args,
        packages: resolved.packages,
        command,
        interactive,
        workdir: integration.workdir,
    }
}

/// The plan of a launch, or why there is none.
pub open spec fn launch_plan(
    ids: PciIdsView,
    quirks: QuirksDbView,
    host: HostView,
    overrides: OverridesView,
    command: Seq<Seq<char>>,
    interactive: bool,
) -> Result<PlanView, PlanErrorView> {
    let devices = probe::host_devices(ids, host.raw);
    if overrides.no_home && overrides.read_only_home {
        Err(PlanErrorView::HomeConflict)
    } else {
        match chosen_class(devices, overrides) {
            Err(e) => Err(e),
            Ok(class) => match stack::resolution(quirks, class) {
                Err(e) => Err(PlanErrorView::Resolve(e)),
                Ok(resolved) => match chosen_engine(
                    overrides.backend,
                    resolved.stack,
                    host.platform,
                    host.tools,
                ) {
                    Err(e) => Err(e),
                    Ok(engine) => Ok(
                        PlanView {
                            class,
                            devices,
                            resolved,
                            engine,
                            spec: launch_spec(
                                class,
                                resolved,
                                engine,
                                overrides,
                                host,
                                command,
                                interactive,
                            ),
                            device_reason: injected(host.platform, class, host.devices).reason,
                        },
                    ),
                },
            },
        }
    }
}

fn build_spec(
    class: &GpuClass,
    resolved: &ResolvedStack,
    engine: Engine,
    overrides: &Overrides,
    host: &Host,
    command: Vec<String>,
    interactive: bool,
) -> (r: (LaunchSpec, Option<String>))
    ensures
        r.0.deep_view() == launch_spec(
            class.deep_view(),
            resolved.deep_view(),
            engine,
            overrides.deep_view(),
            host.deep_view(),
            command.deep_view(),
            interactive,
        ),
        r.1.deep_view() == injected(
            host.platform,
            class.deep_view(),
            host.devices.deep_view(),
        ).reason,
{
    let (device_args, device_reason, library_mounts) = device_injection(
        host.platform,
        class,
        &host.devices,
    );
    let mode = if overrides.no_home {
        HomeMode::Absent
    } else if overrides.read_only_home {
        HomeMode::ReadOnly
    } else {
        HomeMode::ReadWrite
    };
    let integration = mounts::plan_with_home_mode(
        engine.name(),
        resolved.stack.as_str(),
        mode,
        host.platform,
        &host.env,
    );
    let mut env = resolved.env.pairs();
    text::push_pairs(&mut env, &integration.env);
    let mut spec_mounts = integration.mounts;
    mounts::push_mounts(&mut spec_mounts, &library_mounts);
    let spec = LaunchSpec {
        image: choose_image(&overrides.image, engine, resolved),
        stack: resolved.stack.clone(),
        env,
        mounts: spec_mounts,
        device_args,
        extra_args: integration.extra_args,
        packages: text::clone_strings(&resolved.packages),
        command,
        interactive,
        workdir: integration.workdir,
    };
    (spec, device_reason)
}

/// Build the full launch plan: probe (or apply `--gfx-override`/`--gpu`),
/// resolve the stack, plan device injection, plan host integration, and
/// merge it all into a [`LaunchSpec`] plus the [`Engine`] that will run
/// it.
pub fn plan(
    ids: &PciIds,
    quirks: &QuirksDb,
    host: &Host,
    overrides: &Overrides,
    command: Vec<String>,
    interactive: bool,
) -> (r: Result<Plan, PlanError>)
    ensures
        match r {
            Ok(plan) => launch_plan(
                ids.deep_view(),
                quirks.deep_view(),
                host.deep_view(),
                overrides.deep_view(),
                command.deep_view(),
                interactive,
            ) == Ok::<PlanView, PlanErrorView>(plan.deep_view()),
            Err(e) => launch_plan(
                ids.deep_view(),
                quirks.deep_view(),
                host.deep_view(),
                overrides.deep_view(),
                command.deep_view(),
                interactive,
            ) == Err::<PlanView, PlanErrorView>(e.deep_view()),
        },
{
    if overrides.no_home && overrides.read_only_home {
        return Err(PlanError::HomeConflict);
    }
    let devices = probe::probe_host(ids, &host.raw);
    let class = match choose_class(&devices, overrides) {
        Ok(class) => class,
        Err(e) => return Err(e),
    };
    let resolved = match stack::resolve(quirks, &class) {
        Ok(resolved) => resolved,
        Err(e) => return Err(PlanError::Resolve(e)),
    };
    let engine = match choose_engine(
        &overrides.backend,
        resolved.stack.as_str(),
        host.platform,
        &host.tools,
    ) {
        Ok(engine) => engine,
        Err(e) => return Err(e),
    };
    let (spec, device_reason) = build_spec(
        &class,
        &resolved,
        engine,
        overrides,
        host,
        command,
        interactive,
    );
    Ok(Plan { class, devices, resolved, engine, spec, device_reason })
}

/// A plan never fails on hardware: with a valid quirks database and no
/// overrides there is a plan for every host.
pub proof fn law_every_host_has_a_plan(
    ids: PciIdsView,
    quirks: QuirksDbView,
    host: HostView,
    command: Seq<Seq<char>>,
    interactive: bool,
)
    requires
        stack::quirks_fault(quirks) is None,
    ensures
        launch_plan(ids, quirks, host, no_overrides(), command, interactive) is Ok,
{
    let devices = probe::host_devices(ids, host.raw);
    stack::law_valid_database_resolves_everything(quirks, probe::primary(devices).class);
}

/// A `--gfx-override` decides the classification alone: neither the host's
/// hardware nor `--gpu` bears on it.
pub proof fn law_gfx_override_skips_the_probe(
    devices1: Seq<GpuDeviceView>,
    overrides1: OverridesView,
    devices2: Seq<GpuDeviceView>,
    overrides2: OverridesView,
)
    requires
        overrides1.gfx_override is Some,
        overrides1.gfx_override == overrides2.gfx_override,
    ensures
        chosen_class(devices1, overrides1) == chosen_class(devices2, overrides2),
{
}

/// An `--image` is the image of the launch, whatever else was decided.
pub proof fn law_image_override_wins(
    ids: PciIdsView,
    quirks: QuirksDbView,
    host: HostView,
    overrides: OverridesView,
    command: Seq<Seq<char>>,
    interactive: bool,
    image: Seq<char>,
)
    requires
        overrides.image == Some(image),
    ensures
        launch_plan(ids, quirks, host, overrides, command, interactive) matches Ok(plan)
            ==> plan.spec.image == image,
{
}

/// A `--backend` that names an engine is the engine of the launch.
pub proof fn law_backend_override_wins(
    ids: PciIdsView,
    quirks: QuirksDbView,
    host: HostView,
    overrides: OverridesView,
    command: Seq<Seq<char>>,
    interactive: bool,
    engine: Engine,
)
    requires
        overrides.backend == Some(backend::engine_name(engine)),
    ensures
        launch_plan(ids, quirks, host, overrides, command, interactive) matches Ok(plan)
            ==> plan.engine == engine,
{
    backend::law_engine_names_parse(engine);
}

/// What was asked to run is what is launched, and only Linux hands devices
/// over: elsewhere there are no engine flags for them and no explanation.
pub proof fn law_plan_keeps_the_command(
    ids: PciIdsView,
    quirks: QuirksDbView,
    host: HostView,
    overrides: OverridesView,
    command: Seq<Seq<char>>,
    interactive: bool,
)
    ensures
        launch_plan(ids, quirks, host, overrides, command, interactive) matches Ok(plan) ==> {
            &&& plan.spec.command == command
            &&& plan.spec.interactive == interactive
            &&& plan.spec.stack == plan.resolved.stack
            &&& plan.spec.packages == plan.resolved.packages
            &&& plan.devices.len() > 0
            &&& host.platform != Platform::Linux ==> plan.device_reason is None
                && plan.spec.device_args.len() == 0
        },
{
}

/// On Linux, device injection adds exactly what [`device::plan`] asks for, each
/// library mounted read-only under its own path; elsewhere it adds nothing.
/// And what it adds is what the launch has.
pub proof fn law_devices_are_injected_on_linux_only(
    ids: PciIdsView,
    quirks: QuirksDbView,
    host: HostView,
    overrides: OverridesView,
    command: Seq<Seq<char>>,
    interactive: bool,
    class: GpuClassView,
)
    ensures
        host.platform == Platform::Linux ==> {
            let injection = device::injection(class, host.devices);
            let added = injected(host.platform, class, host.devices);
            &&& added.args == injection.args
            &&& added.reason == Some(injection.reason)
            &&& added.mounts.len() == injection.library_mounts.len()
            &&& forall|i: int|
                0 <= i < added.mounts.len() ==> #[trigger] added.mounts[i] == (BindMountView {
                    host: injection.library_mounts[i],
                    container: injection.library_mounts[i],
                    read_only: true,
                })
        },
        host.platform != Platform::Linux ==> injected(host.platform, class, host.devices) == (
        InjectedView { args: Seq::empty(), reason: None, mounts: Seq::empty() }),
        launch_plan(ids, quirks, host, overrides, command, interactive) matches Ok(plan) ==> {
            let added = injected(host.platform, plan.class, host.devices);
            &&& plan.spec.device_args == added.args
            &&& plan.device_reason == added.reason
            &&& plan.spec.mounts.skip(plan.spec.mounts.len() - added.mounts.len()) == added.mounts
        },
{
    if let Ok(plan) = launch_plan(ids, quirks, host, overrides, command, interactive) {
        let added = injected(host.platform, plan.class, host.devices);
        assert(plan.spec.mounts.skip(plan.spec.mounts.len() - added.mounts.len())
            =~= added.mounts);
    }
}

/// With `--no-home` the mounts are the same whatever the home directory is;
/// and the home directory is none of them, unless it is the working directory
/// or one of the GUI sockets.
pub proof fn law_no_home_mounts_no_home(
    engine: Seq<char>,
    stack: Seq<char>,
    platform: Platform,
    host: HostEnvView,
    home: Option<Seq<char>>,
    path: Seq<char>,
)
    ensures
        mounts::integration(engine, stack, home_mode(true, false), platform, host).mounts
            == mounts::integration(
            engine,
            stack,
            home_mode(true, false),
            platform,
            HostEnvView { home, ..host },
        ).mounts,
        host.home == Some(path) && host.cwd != Some(path) && !is_gui_socket(platform, host, path)
            ==> forall|i: int|
            0 <= i < mounts::integration(
                engine,
                stack,
                home_mode(true, false),
                platform,
                host,
            ).mounts.len() ==> (#[trigger] mounts::integration(
                engine,
                stack,
                home_mode(true, false),
                platform,
                host,
            ).mounts[i]).host != path,
{
}

/// Whether a path is one of the GUI sockets that are mounted.
pub open spec fn is_gui_socket(platform: Platform, host: HostEnvView, path: Seq<char>) -> bool {
    ||| host.display is Some && path == "/tmp/.X11-unix"@
    ||| (host.wayland_display matches Some(display) && host.runtime_dir matches Some(dir) && path
        == paths::path_join(platform, dir, display))
}

/// `--read-only-home` changes one thing: the home directory is mounted
/// read-only instead of read-write.
pub proof fn law_read_only_home_is_not_writable(
    engine: Seq<char>,
    stack: Seq<char>,
    platform: Platform,
    host: HostEnvView,
    home: Seq<char>,
)
    requires
        host.home == Some(home),
    ensures
        mounts::integration(engine, stack, home_mode(false, true), platform, host) == ({
            let usual = mounts::integration(engine, stack, home_mode(false, false), platform, host);
            mounts::HostIntegrationView {
                mounts: usual.mounts.update(0, mounts::same_path(home, true)),
                ..usual
            }
        }),
        mounts::integration(engine, stack, home_mode(false, false), platform, host).mounts[0]
            == mounts::same_path(home, false),
{
    let usual = mounts::integration(engine, stack, home_mode(false, false), platform, host);
    let guarded = mounts::integration(engine, stack, home_mode(false, true), platform, host);
    assert(guarded.mounts =~= usual.mounts.update(0, mounts::same_path(home, true)));
}

/// Without an `--image` the image is the stack's own, whatever Windows-based
/// image the stack has; only a Windows container gets that one, and the stack's
/// own if there is none.
pub proof fn law_only_windows_containers_get_windows_images(
    ids: PciIdsView,
    quirks: QuirksDbView,
    host: HostView,
    overrides: OverridesView,
    command: Seq<Seq<char>>,
    interactive: bool,
)
    requires
        overrides.image is None,
    ensures
        launch_plan(ids, quirks, host, overrides, command, interactive) matches Ok(plan) ==> {
            &&& plan.engine != Engine::WindowsContainer ==> plan.spec.image == plan.resolved.image
            &&& plan.engine == Engine::WindowsContainer ==> (match plan.resolved.windows_image {
                Some(image) => plan.spec.image == image,
                None => plan.spec.image == plan.resolved.image,
            })
        },
{
}

/// What a plan is planned for. With a `--gfx-override`, the classification that
/// it names; else with a `--gpu`, that of the device it selects among the
/// host's; else that of the host's primary device. The stack is the one that
/// the quirks database resolves for it, and the devices are those of the host.
pub proof fn law_plans_are_for_the_chosen_gpu(
    ids: PciIdsView,
    quirks: QuirksDbView,
    host: HostView,
    overrides: OverridesView,
    command: Seq<Seq<char>>,
    interactive: bool,
)
    ensures
        launch_plan(ids, quirks, host, overrides, command, interactive) matches Ok(plan) ==> {
            &&& plan.devices == probe::host_devices(ids, host.raw)
            &&& overrides.gfx_override matches Some(value) ==> override_class(value) == Some(
                plan.class,
            )
            &&& overrides.gfx_override is None ==> match overrides.gpu {
                Some(selector) => probe::selection(plan.devices, selector) matches Ok(device)
                    && device.class == plan.class,
                None => probe::primary(plan.devices).class == plan.class,
            }
            &&& stack::resolution(quirks, plan.class) == Ok::<
                ResolvedStackView,
                ResolveErrorView,
            >(plan.resolved)
        },
{
}

/// The engine of a plan is the one that `--backend` names, or else the default
/// of the platform for the stack.
pub proof fn law_plans_use_the_chosen_engine(
    ids: PciIdsView,
    quirks: QuirksDbView,
    host: HostView,
    overrides: OverridesView,
    command: Seq<Seq<char>>,
    interactive: bool,
)
    ensures
        launch_plan(ids, quirks, host, overrides, command, interactive) matches Ok(plan) ==> match
            overrides.backend {
            Some(name) => backend::engine_named(name) == Some(plan.engine),
            None => plan.engine == backend::stack_default(
                plan.resolved.stack,
                host.platform,
                host.tools,
            ),
        },
{
}

/// What stops a plan, and nothing else does: both home flags together, an
/// override that names no classification, a selector that selects nothing,
/// hardware that no rule resolves, and a backend that does not exist.
pub proof fn law_what_stops_a_plan(
    ids: PciIdsView,
    quirks: QuirksDbView,
    host: HostView,
    overrides: OverridesView,
    command: Seq<Seq<char>>,
    interactive: bool,
)
    ensures
        launch_plan(ids, quirks, host, overrides, command, interactive) matches Err(e) ==> match e {
            PlanErrorView::HomeConflict => overrides.no_home && overrides.read_only_home,
            PlanErrorView::UnknownArch { value } => overrides.gfx_override == Some(value)
                && override_class(value) is None,
            PlanErrorView::Select(cause) => overrides.gfx_override is None && (overrides.gpu matches
                Some(selector) && probe::selection(probe::host_devices(ids, host.raw), selector)
                == Err::<GpuDeviceView, SelectErrorView>(cause)),
            PlanErrorView::Resolve(cause) => chosen_class(
                probe::host_devices(ids, host.raw),
                overrides,
            ) matches Ok(class) && stack::resolution(quirks, class) == Err::<
                ResolvedStackView,
                ResolveErrorView,
            >(cause),
            PlanErrorView::UnknownBackend { name } => overrides.backend == Some(name)
                && backend::engine_named(name) is None,
        },
        overrides.no_home && overrides.read_only_home ==> launch_plan(
            ids,
            quirks,
            host,
            overrides,
            command,
            interactive,
        ) is Err,
        (overrides.gfx_override matches Some(value) && override_class(value) is None)
            ==> launch_plan(ids, quirks, host, overrides, command, interactive) is Err,
        (overrides.backend matches Some(name) && backend::engine_named(name) is None)
            ==> launch_plan(ids, quirks, host, overrides, command, interactive) is Err,
{
}

/// A launch has the variables of the stack, all of them and in order, and after
/// them those of the host; the mounts of the host and after them the driver
/// libraries; and the flags, the working directory and the home directory that
/// the host and the overrides ask for.
#[verifier::spinoff_prover]
#[verifier::rlimit(40)]
pub proof fn law_launches_carry_stack_and_host(
    ids: PciIdsView,
    quirks: QuirksDbView,
    host: HostView,
    overrides: OverridesView,
    command: Seq<Seq<char>>,
    interactive: bool,
)
    ensures
        launch_plan(ids, quirks, host, overrides, command, interactive) matches Ok(plan) ==> {
            let mode = if overrides.no_home {
                HomeMode::Absent
            } else if overrides.read_only_home {
                HomeMode::ReadOnly
            } else {
                HomeMode::ReadWrite
            };
            let ties = mounts::integration(
                backend::engine_name(plan.engine),
                plan.resolved.stack,
                mode,
                host.platform,
                host.env,
            );
            let quirk_count = plan.resolved.env.len() as int;
            &&& plan.spec.env.take(quirk_count) == plan.resolved.env
            &&& plan.spec.env.skip(quirk_count) == ties.env
            &&& plan.spec.mounts.take(ties.mounts.len() as int) == ties.mounts
            &&& plan.spec.extra_args == ties.extra_args
            &&& plan.spec.workdir == host.env.cwd
            &&& plan.spec.packages == plan.resolved.packages
            &&& plan.spec.command == command
            &&& plan.spec.interactive == interactive
            &&& host.platform == Platform::Linux ==> plan.spec.device_args == device::injection(
                plan.class,
                host.devices,
            ).args
            &&& host.platform == Platform::Linux ==> plan.spec.mounts.skip(
                ties.mounts.len() as int,
            ).len() == device::injection(plan.class, host.devices).library_mounts.len()
            &&& host.platform == Platform::Linux ==> forall|i: int|
                #![trigger device::injection(plan.class, host.devices).library_mounts[i]]
                0 <= i < device::injection(plan.class, host.devices).library_mounts.len()
                    ==> plan.spec.mounts[ties.mounts.len() + i] == (BindMountView {
                    host: device::injection(plan.class, host.devices).library_mounts[i],
                    container: device::injection(plan.class, host.devices).library_mounts[i],
                    read_only: true,
                })
            &&& host.platform != Platform::Linux ==> plan.spec.mounts.len() == ties.mounts.len()
        },
{
    if let Ok(plan) = launch_plan(ids, quirks, host, overrides, command, interactive) {
        let ties = mounts::integration(
            backend::engine_name(plan.engine),
            plan.resolved.stack,
            home_mode(overrides.no_home, overrides.read_only_home),
            host.platform,
            host.env,
        );
        assert(plan.spec.env.take(plan.resolved.env.len() as int) =~= plan.resolved.env);
        assert(plan.spec.env.skip(plan.resolved.env.len() as int) =~= ties.env);
        assert(plan.spec.mounts.take(ties.mounts.len() as int) =~= ties.mounts);
        if host.platform == Platform::Linux {
            let libraries = device::injection(plan.class, host.devices).library_mounts;
            assert forall|i: int|
                #![trigger libraries[i]]
                0 <= i < libraries.len() implies plan.spec.mounts[ties.mounts.len() + i] == (
            BindMountView { host: libraries[i], container: libraries[i], read_only: true }) by {
                assert(plan.spec.mounts[ties.mounts.len() + i] == device::library_binds(
                    libraries,
                )[i]);
            }
        }
    }
}

/// Which classification a `--gfx-override` names, in any case of its letters:
/// an `sm_` tag is NVIDIA's and a `gfx` tag is AMD's, each its own arch in lower
/// case; `arc`, `xe` and `igpu` are Intel's; and there are `apple`, `vulkan`,
/// and `cpu` or `none` for no GPU.
pub proof fn law_gfx_overrides(value: Seq<char>, tail: Seq<char>)
    ensures
        text::lower(value) == "sm_"@ + tail ==> override_class(value) == Some(
            GpuClassView::Nvidia { arch: "sm_"@ + tail },
        ),
        text::lower(value) == "gfx"@ + tail ==> override_class(value) == Some(
            GpuClassView::Amd { arch: "gfx"@ + tail },
        ),
        text::lower(value) == "arc"@ ==> override_class(value) == Some(
            GpuClassView::Intel { class: "arc"@ },
        ),
        text::lower(value) == "xe"@ ==> override_class(value) == Some(
            GpuClassView::Intel { class: "xe"@ },
        ),
        text::lower(value) == "igpu"@ ==> override_class(value) == Some(
            GpuClassView::Intel { class: "igpu"@ },
        ),
        text::lower(value) == "apple"@ ==> override_class(value) == Some(GpuClassView::Apple),
        text::lower(value) == "vulkan"@ ==> override_class(value) == Some(GpuClassView::Vulkan),
        text::lower(value) == "cpu"@ ==> override_class(value) == Some(GpuClassView::NoGpu),
        text::lower(value) == "none"@ ==> override_class(value) == Some(GpuClassView::NoGpu),
{
    reveal_strlit("sm_");
    reveal_strlit("gfx");
    reveal_strlit("arc");
    reveal_strlit("xe");
    reveal_strlit("igpu");
    reveal_strlit("apple");
    reveal_strlit("vulkan");
    reveal_strlit("cpu");
    reveal_strlit("none");
    let lower = text::lower(value);
    assert(("sm_"@ + tail)[0] == 's');
    assert(("gfx"@ + tail)[0] == 'g');
    if lower == "sm_"@ + tail {
        assert(lower.subrange(0, 3) =~= "sm_"@);
    } else if lower == "gfx"@ + tail {
        assert(lower.subrange(0, 3) =~= "gfx"@);
        assert(lower.subrange(0, 3)[0] == 'g');
        assert("sm_"@[0] == 's');
    } else {
        if lower.len() >= 3 {
            assert(lower.subrange(0, 3)[0] == lower[0]);
            assert(lower.subrange(0, 3)[1] == lower[1]);
        }
        assert("sm_"@[0] == 's' && "gfx"@[0] == 'g');
        assert("arc"@[0] == 'a' && "xe"@[0] == 'x' && "igpu"@[0] == 'i' && "apple"@[0] == 'a');
        assert("vulkan"@[0] == 'v' && "cpu"@[0] == 'c' && "none"@[0] == 'n');
        assert("arc"@.len() == 3 && "xe"@.len() == 2 && "igpu"@.len() == 4);
        assert("apple"@.len() == 5 && "vulkan"@.len() == 6 && "cpu"@.len() == 3);
        assert("none"@.len() == 4);
    }
}

/// A `--gfx-override` that is none of those names nothing.
pub proof fn law_gfx_overrides_end_there(value: Seq<char>)
    requires
        !text::has_prefix(text::lower(value), "sm_"@),
        !text::has_prefix(text::lower(value), "gfx"@),
        text::lower(value) != "arc"@,
        text::lower(value) != "xe"@,
        text::lower(value) != "igpu"@,
        text::lower(value) != "apple"@,
        text::lower(value) != "vulkan"@,
        text::lower(value) != "cpu"@,
        text::lower(value) != "none"@,
    ensures
        override_class(value) is None,
{
}

/// Where there is nothing to stop it, there is a plan: with a valid quirks
/// database, not both home flags, an override that names a classification or a
/// selector that selects a device, if there is one, and a backend that exists,
/// if one is asked for.
pub proof fn law_there_is_a_plan(
    ids: PciIdsView,
    quirks: QuirksDbView,
    host: HostView,
    overrides: OverridesView,
    command: Seq<Seq<char>>,
    interactive: bool,
)
    requires
        stack::quirks_fault(quirks) is None,
        !(overrides.no_home && overrides.read_only_home),
        overrides.gfx_override matches Some(value) ==> override_class(value) is Some,
        overrides.gpu matches Some(selector) ==> overrides.gfx_override is Some || probe::selection(
            probe::host_devices(ids, host.raw),
            selector,
        ) is Ok,
        overrides.backend matches Some(name) ==> backend::engine_named(name) is Some,
    ensures
        launch_plan(ids, quirks, host, overrides, command, interactive) is Ok,
{
    let devices = probe::host_devices(ids, host.raw);
    if let Ok(class) = chosen_class(devices, overrides) {
        stack::law_valid_database_resolves_everything(quirks, class);
    }
}

/// What the user is told when no launch could be planned names what was asked
/// for.
pub proof fn law_plan_messages(value: Seq<char>, e: SelectErrorView, r: ResolveErrorView)
    ensures
        plan_message(PlanErrorView::HomeConflict)
            == "--no-home and --read-only-home are mutually exclusive"@,
        plan_message(PlanErrorView::UnknownArch { value }) == "unrecognized --gfx-override value `"@
            + value
            + "`; expected an sm_* / gfx* arch tag, one of arc/xe/igpu, or apple/vulkan/cpu"@,
        plan_message(PlanErrorView::UnknownBackend { name: value }) == "unrecognized --backend `"@
            + value + "`"@,
        plan_message(PlanErrorView::Select(e)) == probe::select_message(e),
        plan_message(PlanErrorView::Resolve(r)) == stack::resolve_message(r),
{
}

} // verus!
