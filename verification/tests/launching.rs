//! Plans, reports, and what the command line does with them.

use gpubox::backend::{Engine, Invocation, Outcome, Platform, Tools};
use gpubox::cache::{BuildError, BuildOutcome};
use gpubox::cli::{
    generate_cmd, overrides_from, removed_line, rm_cmd, shell_quote, GenerateError, RmAction,
    RmError,
};
use gpubox::device::DeviceHost;
use gpubox::doctor;
use gpubox::launch;
use gpubox::launch::{parse_gfx_override, Host, Overrides, Plan, PlanError};
use gpubox::mounts::{BindMount, HostEnv, Identity};
use gpubox::probe::linux::DrmEntry;
use gpubox::probe::pciids::PciIds;
use gpubox::probe::{GpuClass, RawProbe, SelectError};
use gpubox::run::{execute, Action, Event, Run, RunError};
use gpubox::stack::{QuirksDb, StackRule};
use gpubox::table::Table;

fn strings(items: &[&str]) -> Vec<String> {
    items.iter().map(|s| s.to_string()).collect()
}

fn tags(entries: &[(&str, &str)]) -> Table<String> {
    let mut table = Table::new();
    for (key, tag) in entries {
        table.insert(key.to_string(), tag.to_string());
    }
    table
}

fn ids() -> PciIds {
    PciIds {
        nvidia: tags(&[("0x2684", "sm_89")]),
        amd: tags(&[("0x744c", "gfx1100")]),
        intel: tags(&[("0x46a6", "xe")]),
    }
}

fn rule(stack: &str, image: &str, packages: &[&str]) -> StackRule {
    StackRule {
        stack: stack.to_string(),
        image: image.to_string(),
        windows_image: None,
        env: Table::new(),
        notes: None,
        packages: strings(packages),
    }
}

fn vulkan() -> StackRule {
    rule("vulkan", "ubuntu:24.04", &["mesa-vulkan-drivers", "vulkan-tools"])
}

fn rules(entries: Vec<(&str, StackRule)>) -> Table<StackRule> {
    let mut table = Table::new();
    for (key, rule) in entries {
        table.insert(key.to_string(), rule);
    }
    table
}

fn quirks() -> QuirksDb {
    let mut cuda = rule("cuda", "nvidia/cuda:12.9.2-devel-ubuntu24.04", &[]);
    cuda.windows_image = Some("mcr.microsoft.com/windows/servercore:ltsc2022".to_string());
    let mut renoir = rule("rocm", "rocm/rocm-terminal:6.1", &[]);
    renoir.env.insert("HSA_OVERRIDE_GFX_VERSION".to_string(), "9.0.0".to_string());
    renoir.notes = Some(
        "Renoir (gfx90c) integrated graphics is not officially supported by ROCm but works \
         when HSA_OVERRIDE_GFX_VERSION overrides it to report as gfx9.0.0.\n"
            .to_string(),
    );
    QuirksDb {
        nvidia: rules(vec![
            ("sm_86", cuda.clone()),
            ("sm_89", cuda),
            ("unknown", vulkan()),
        ]),
        amd: rules(vec![
            ("gfx1100", rule("rocm", "rocm/rocm-terminal:6.1", &[])),
            ("gfx90c", renoir),
            ("unknown", vulkan()),
        ]),
        intel: rules(vec![
            ("arc", rule("oneapi", "intel/oneapi-basekit:2025.3.2-0-devel-ubuntu24.04", &[])),
            ("default", vulkan()),
        ]),
        apple: rules(vec![("default", rule("metal", "none", &[]))]),
        vulkan: rules(vec![("default", vulkan())]),
        none: rules(vec![("default", rule("cpu", "ubuntu:24.04", &[]))]),
    }
}

const NOTHING: Tools = Tools {
    docker: false,
    podman: false,
    sandbox_exec: false,
    windows_sandbox_on_path: false,
    windows_sandbox_in_system32: false,
};

fn alice() -> Identity {
    Identity {
        uid: 1000,
        gid: 1000,
        user: "alice".to_string(),
        home: "/home/alice".to_string(),
    }
}

fn entry(name: &str, vendor: &str, device: &str) -> DrmEntry {
    DrmEntry {
        name: name.to_string(),
        has_device: true,
        vendor: Some(vendor.to_string()),
        device: Some(device.to_string()),
        compatible: None,
    }
}

/// A Linux laptop with an Intel iGPU, an NVIDIA dGPU, and Docker.
fn host() -> Host {
    Host {
        platform: Platform::Linux,
        tools: Tools { docker: true, ..NOTHING },
        raw: RawProbe::Linux(vec![
            entry("card0", "0x8086\n", "0x46a6\n"),
            entry("card1", "0x10de\n", "0x2684\n"),
        ]),
        env: HostEnv {
            home: Some("/home/alice".to_string()),
            cwd: Some("/home/alice/project".to_string()),
            display: None,
            wayland_display: None,
            runtime_dir: None,
            identity: alice(),
        },
        devices: DeviceHost { cdi_files: vec![], has_kfd: true, library_files: vec![] },
    }
}

fn forced(class: &str) -> Overrides {
    Overrides { gfx_override: Some(class.to_string()), ..Default::default() }
}

fn plan(overrides: &Overrides) -> Result<Plan, PlanError> {
    launch::plan(&ids(), &quirks(), &host(), overrides, vec![], true)
}

// --- Plans ---

#[test]
fn gfx_override_parses_nvidia_arch() {
    let class = parse_gfx_override("sm_86").unwrap();
    assert_eq!(class, GpuClass::Nvidia { arch: "sm_86".into() });
}

#[test]
fn gfx_override_parses_amd_arch() {
    let class = parse_gfx_override("gfx1100").unwrap();
    assert_eq!(class, GpuClass::Amd { arch: "gfx1100".into() });
}

#[test]
fn gfx_override_parses_intel_class() {
    let class = parse_gfx_override("arc").unwrap();
    assert_eq!(class, GpuClass::Intel { class: "arc".into() });
}

#[test]
fn gfx_override_rejects_garbage() {
    assert!(parse_gfx_override("banana").is_err());
    assert_eq!(
        parse_gfx_override("banana").unwrap_err().message(),
        "unrecognized --gfx-override value `banana`; expected an sm_* / gfx* arch tag, one of \
         arc/xe/igpu, or apple/vulkan/cpu"
    );
}

#[test]
fn gfx_override_ignores_case_and_knows_every_class() {
    assert_eq!(
        parse_gfx_override("GFX90C").unwrap(),
        GpuClass::Amd { arch: "gfx90c".into() }
    );
    assert_eq!(parse_gfx_override("Apple").unwrap(), GpuClass::Apple);
    assert_eq!(parse_gfx_override("vulkan").unwrap(), GpuClass::Vulkan);
    assert_eq!(parse_gfx_override("cpu").unwrap(), GpuClass::NoGpu);
    assert_eq!(parse_gfx_override("none").unwrap(), GpuClass::NoGpu);
}

#[test]
fn plan_with_override_skips_hardware_probe() {
    let plan = plan(&forced("gfx1100")).unwrap();
    assert_eq!(plan.resolved.stack, "rocm");
    assert_eq!(plan.spec.image, "rocm/rocm-terminal:6.1");
}

#[test]
fn plan_honors_image_override() {
    let overrides = Overrides {
        image: Some("mycorp/custom:latest".to_string()),
        ..forced("cpu")
    };
    let plan = plan(&overrides).unwrap();
    assert_eq!(plan.spec.image, "mycorp/custom:latest");
}

#[test]
fn windows_container_backend_prefers_windows_image_over_linux_image() {
    let overrides = Overrides {
        backend: Some("windows-container".to_string()),
        ..forced("sm_86")
    };
    let plan = plan(&overrides).unwrap();
    assert_eq!(plan.resolved.image, "nvidia/cuda:12.9.2-devel-ubuntu24.04");
    assert_eq!(plan.spec.image, "mcr.microsoft.com/windows/servercore:ltsc2022");
}

#[test]
fn windows_container_backend_honors_explicit_image_override() {
    let overrides = Overrides {
        backend: Some("windows-container".to_string()),
        image: Some("myregistry/my-cuda-windows:latest".to_string()),
        ..forced("sm_86")
    };
    let plan = plan(&overrides).unwrap();
    assert_eq!(plan.spec.image, "myregistry/my-cuda-windows:latest");
}

#[test]
fn plan_rejects_unknown_backend() {
    let overrides = Overrides {
        backend: Some("bogus-engine".to_string()),
        ..forced("cpu")
    };
    assert!(plan(&overrides).is_err());
    assert_eq!(
        plan(&overrides).unwrap_err().message(),
        "unrecognized --backend `bogus-engine`"
    );
}

#[test]
fn the_primary_gpu_decides_unless_another_is_selected() {
    let usual = plan(&Overrides::default()).unwrap();
    assert_eq!(usual.class, GpuClass::Nvidia { arch: "sm_89".into() });
    assert_eq!(usual.devices.len(), 2);
    assert_eq!(usual.engine, Engine::Docker);
    assert_eq!(usual.spec.device_args, vec!["--gpus", "all"]);
    let selected = plan(&Overrides { gpu: Some("0".to_string()), ..Default::default() }).unwrap();
    assert_eq!(selected.class, GpuClass::Intel { class: "xe".into() });
    assert_eq!(selected.spec.device_args, vec!["--device", "/dev/dri"]);
    let missing = plan(&Overrides { gpu: Some("7".to_string()), ..Default::default() });
    assert_eq!(
        missing.unwrap_err(),
        PlanError::Select(SelectError::OutOfRange { index: 7, count: 2 })
    );
}

#[test]
fn quirk_variables_come_before_the_host_ones() {
    let plan = plan(&forced("gfx90c")).unwrap();
    let names: Vec<&str> = plan.spec.env.iter().map(|(k, _)| k.as_str()).collect();
    assert_eq!(
        names,
        vec!["HSA_OVERRIDE_GFX_VERSION", "GPUBOX_STACK", "HOME", "USER", "LOGNAME"]
    );
    assert_eq!(plan.spec.device_args, vec!["--device", "/dev/dri", "--device", "/dev/kfd"]);
}

#[test]
fn home_flags_change_the_home_mount() {
    let home = |read_only| BindMount {
        host: "/home/alice".to_string(),
        container: "/home/alice".to_string(),
        read_only,
    };
    let usual = plan(&forced("cpu")).unwrap();
    assert!(usual.spec.mounts.contains(&home(false)));
    let guarded = plan(&Overrides { read_only_home: true, ..forced("cpu") }).unwrap();
    assert!(guarded.spec.mounts.contains(&home(true)));
    assert!(!guarded.spec.mounts.contains(&home(false)));
    let without = plan(&Overrides { no_home: true, ..forced("cpu") }).unwrap();
    assert!(without.spec.mounts.iter().all(|m| m.host != "/home/alice"));
    let both = plan(&Overrides { no_home: true, read_only_home: true, ..forced("cpu") });
    assert_eq!(both.as_ref().unwrap_err(), &PlanError::HomeConflict);
    assert_eq!(
        both.unwrap_err().message(),
        "--no-home and --read-only-home are mutually exclusive"
    );
}

#[test]
fn unresolvable_hardware_is_reported() {
    let mut db = quirks();
    db.none = Table::new();
    let err = launch::plan(&ids(), &db, &host(), &forced("cpu"), vec![], true).unwrap_err();
    assert!(matches!(err, PlanError::Resolve(_)));
}

#[test]
fn device_injection_is_the_plan_of_the_device_module() {
    let class = GpuClass::Amd { arch: "gfx1100".into() };
    let (args, reason, mounts) =
        launch::device_injection(Platform::Linux, &class, &host().devices);
    let injection = gpubox::device::plan(&class, &host().devices);
    assert_eq!(args, injection.args);
    assert_eq!(reason, Some(injection.reason));
    assert!(mounts.is_empty());
    assert_eq!(
        launch::device_injection(Platform::Windows, &class, &host().devices),
        (vec![], None, vec![])
    );
}

#[test]
fn devices_are_handed_over_on_linux_only() {
    let mut mac = host();
    mac.platform = Platform::MacOs;
    mac.raw = RawProbe::MacOs { apple_silicon: true };
    let plan =
        launch::plan(&ids(), &quirks(), &mac, &forced("gfx1100"), vec![], true).unwrap();
    assert!(plan.spec.device_args.is_empty());
    assert_eq!(plan.device_reason, None);
    assert_eq!(plan.engine, Engine::Seatbelt);
}

// --- Doctor ---

#[test]
fn report_mentions_detected_and_resolved_stack() {
    let text = doctor::report(&ids(), &quirks(), &host(), &forced("gfx1100")).unwrap();
    assert!(text.contains("AMD (gfx1100)"));
    assert!(text.contains("Resolved stack    : rocm"));
    assert!(text.contains("--gfx-override"));
    for line in [
        "Detected hardware : AMD (gfx1100)",
        "Container image   : rocm/rocm-terminal:6.1",
        "Matched rule      : amd.gfx1100",
        "Backend           : docker",
        "  available       : yes",
        "  GPUBOX_STACK=rocm",
        "  USER=alice",
    ] {
        assert!(text.lines().any(|l| l == line));
    }
}

#[test]
fn report_is_the_documented_one() {
    let mac = Host {
        platform: Platform::MacOs,
        tools: Tools { sandbox_exec: true, ..NOTHING },
        raw: RawProbe::MacOs { apple_silicon: true },
        env: HostEnv {
            home: None,
            cwd: None,
            display: None,
            wayland_display: None,
            runtime_dir: None,
            identity: alice(),
        },
        devices: DeviceHost { cdi_files: vec![], has_kfd: false, library_files: vec![] },
    };
    assert_eq!(
        doctor::report(&ids(), &quirks(), &mac, &forced("gfx90c")).unwrap(),
        "gpubox doctor\n\
         =============\n\
         \n\
         Detected hardware : AMD (gfx90c)\n\
         Resolved stack    : rocm\n\
         Container image   : rocm/rocm-terminal:6.1\n\
         Matched rule      : amd.gfx90c\n\
         Notes             :\n  \
         Renoir (gfx90c) integrated graphics is not officially supported by ROCm but works \
         when HSA_OVERRIDE_GFX_VERSION overrides it to report as gfx9.0.0.\n\
         Quirk env vars    :\n  \
         HSA_OVERRIDE_GFX_VERSION=9.0.0\n  \
         GPUBOX_STACK=rocm\n\
         \n\
         Backend           : seatbelt\n  \
         available       : yes\n\
         \n\
         Overrides:\n  \
         --backend <name>       force a specific backend (docker, podman, seatbelt, windows-sandbox)\n  \
         --image <ref>          use a custom image instead of rocm/rocm-terminal:6.1\n  \
         --gfx-override <arch>  force a hardware classification (e.g. sm_86, gfx1100, arc, apple, vulkan, cpu)\n"
    );
}

#[test]
fn report_lists_several_gpus_and_other_backends() {
    let mut host = host();
    host.tools = Tools { podman: true, ..NOTHING };
    let text = doctor::report(&ids(), &quirks(), &host, &Overrides::default()).unwrap();
    assert!(text.contains(
        "Detected GPUs     :\n  0: Intel (xe) at /dev/dri/card0\n  1: NVIDIA (sm_89) at /dev/dri/card1\n"
    ));
    assert!(text.contains("Backend           : podman\n  available       : yes\n"));
    assert!(text.contains("Podman mode       : rootless\n"));
    assert!(text.contains("\nOther backends available on this platform:\n  docker no\n"));
    assert!(text.contains("Device injection  : "));
    let docker = Overrides { backend: Some("docker".to_string()), ..Default::default() };
    let text = doctor::report(&ids(), &quirks(), &host, &docker).unwrap();
    assert!(text.contains("  available       : NO - not found on PATH\n"));
    assert!(!text.contains("Podman mode"));
}

#[test]
fn report_warns_about_linux_images_in_windows_containers() {
    let windows = |class: &str, image: Option<&str>| {
        let overrides = Overrides {
            backend: Some("windows-container".to_string()),
            image: image.map(|i| i.to_string()),
            ..forced(class)
        };
        doctor::report(&ids(), &quirks(), &host(), &overrides).unwrap()
    };
    assert!(windows("gfx1100", None).contains("Warning           : stack `rocm`"));
    assert!(!windows("gfx1100", Some("mine")).contains("Warning"));
    assert!(!windows("sm_86", None).contains("Warning"));
}

#[test]
fn structured_report_holds_the_same_facts() {
    let text = doctor::report_json(&ids(), &quirks(), &host(), &forced("gfx90c")).unwrap();
    assert!(text.contains("\"detected\": \"AMD (gfx90c)\""));
    assert!(text.contains(
        "\"devices\": [{\"class\": \"Intel (xe)\", \"node\": \"/dev/dri/card0\"}, \
         {\"class\": \"NVIDIA (sm_89)\", \"node\": \"/dev/dri/card1\"}]"
    ));
    assert!(text.contains("\"warning\": null"));
    assert!(text.contains("\"podman_mode\": null"));
    assert!(text.contains("\"other_backends\": [{\"name\": \"podman\", \"available\": false}]"));
    assert!(text.contains("\"default_image\": \"rocm/rocm-terminal:6.1\""));
    let podman = with_backend("gfx1100", "podman");
    let text = doctor::report_json(&ids(), &quirks(), &host(), &podman).unwrap();
    assert!(text.contains("\"podman_mode\": \"rootless\""));
    assert!(text.contains("\"other_backends\": [{\"name\": \"docker\", \"available\": true}]"));
    let windows = with_backend("gfx1100", "windows-container");
    let text = doctor::report_json(&ids(), &quirks(), &host(), &windows).unwrap();
    assert!(text.contains("\"warning\": \"stack `rocm` has no Windows-based image"));
    let text = doctor::report_json(&ids(), &quirks(), &host(), &forced("gfx90c")).unwrap();
    assert!(text.contains("\"rule\": \"amd.gfx90c\""));
    assert!(text.contains("\"HSA_OVERRIDE_GFX_VERSION\": \"9.0.0\""));
    assert!(text.contains("\"backend\": \"docker\",\n  \"available\": true"));
    assert!(doctor::report_json(&ids(), &quirks(), &host(), &forced("banana")).is_err());
}

#[test]
fn the_snapshot_holds_no_paths() {
    let text = doctor::probe_snapshot_json(&ids(), &host().raw);
    assert_eq!(
        text,
        "[{\"vendor\": \"0x8086\", \"device\": \"0x46a6\", \"class\": \"Intel (xe)\"}, \
         {\"vendor\": \"0x10de\", \"device\": \"0x2684\", \"class\": \"NVIDIA (sm_89)\"}]"
    );
    assert!(!text.contains("/dev"));
}

// --- Run ---

fn start(overrides: &Overrides, command: &[&str], dry_run: bool) -> Result<(Run, Action), RunError> {
    execute(&ids(), &quirks(), &host(), overrides, strings(command), dry_run, "/tmp")
}

fn with_backend(class: &str, backend: &str) -> Overrides {
    Overrides { backend: Some(backend.to_string()), ..forced(class) }
}

/// What a dry run prints on a host where no container exists.
fn printed(overrides: &Overrides, command: &[&str]) -> String {
    let (run, action) = start(overrides, command, true).unwrap();
    let last = match action {
        Action::Inspect(_) => run.step(Event::Inspected(None)).1,
        other => other,
    };
    match last {
        Action::Print(lines) => lines.join("\n"),
        other => panic!("{other:?}"),
    }
}

fn line(invocation: &Invocation) -> String {
    format!("{} {}", invocation.program, invocation.args.join(" "))
}

const DONE: Outcome = Outcome::Exited { code: Some(0) };

#[test]
fn enter_rm_falls_back_to_the_old_throwaway_container() {
    let overrides = Overrides { ephemeral: true, ..with_backend("cpu", "docker") };
    let out = printed(&overrides, &[]);
    assert!(out.contains("docker run --rm -it"));
    assert!(!out.contains("--name"));
}

#[test]
fn enter_name_uses_that_name_instead_of_the_stack() {
    let overrides = Overrides { name: Some("ml".to_string()), ..with_backend("cpu", "docker") };
    let out = printed(&overrides, &[]);
    assert!(out.contains("container: gpubox-ml"));
}

#[test]
fn backends_with_no_persistence_story_silently_use_the_native_ephemeral_path() {
    // Seatbelt has no container to persist - a run without an explicit name
    // must fall through to the native path without erroring.
    let out = printed(&with_backend("cpu", "seatbelt"), &[]);
    assert!(out.contains("sandbox-exec"));
    assert!(out.contains("# (would write /tmp/gpubox.sb )"));
}

#[test]
fn explicit_name_on_an_unsupported_backend_is_an_error() {
    let overrides = Overrides { name: Some("ml".to_string()), ..with_backend("cpu", "seatbelt") };
    let err = start(&overrides, &[], true).unwrap_err();
    assert!(err
        .message()
        .contains("--name is only supported with the docker/podman backends"));
    assert_eq!(err, RunError::NameUnsupported { engine: Engine::Seatbelt });
}

#[test]
fn the_default_container_is_shared_by_all_stacks() {
    for class in ["cpu", "gfx1100", "sm_86"] {
        let out = printed(&with_backend(class, "docker"), &["python", "train.py"]);
        assert!(out.contains("container: gpubox (state: Missing)"));
        assert!(out.contains("docker run -d --name gpubox "));
        assert!(out.contains("docker exec -i "));
        assert!(out.ends_with("gpubox python train.py"));
        // No `--rm` container flag anywhere in the persistent path.
        assert!(!out.contains("run --rm"));
    }
}

#[test]
fn a_dry_run_shows_the_container_as_it_is() {
    let (run, _) = start(&with_backend("cpu", "docker"), &[], true).unwrap();
    let (_, action) = run.step(Event::Inspected(Some("true\n".to_string())));
    match action {
        Action::Print(lines) => {
            assert_eq!(
                lines[0],
                "# stack: cpu  image: ubuntu:24.04  backend: docker  container: gpubox \
                 (state: Running)"
            );
            assert_eq!(lines.len(), 2);
            assert!(lines[1].starts_with("docker exec -it --user 1000:1000 -e GPUBOX_STACK=cpu"));
        },
        other => panic!("{other:?}"),
    }
}

#[test]
fn a_missing_container_is_created_and_entered() {
    let (run, action) = start(&forced("cpu"), &[], false).unwrap();
    assert!(matches!(&action, Action::Inspect(i) if line(i).ends_with("gpubox")));
    let (run, action) = run.step(Event::Inspected(None));
    assert!(matches!(&action, Action::Prepare(i) if line(i).starts_with("docker run -d --name gpubox ")));
    let (run, action) = run.step(Event::Finished(DONE));
    assert!(matches!(&action, Action::Launch(i) if line(i).starts_with("docker exec -it ")));
    let (run, action) = run.step(Event::Finished(Outcome::Exited { code: Some(7) }));
    assert_eq!(action, Action::Exit(7));
    // Nothing more to report.
    assert_eq!(run.step(Event::Finished(DONE)).1, Action::Fail(RunError::OutOfTurn));
}

#[test]
fn a_stopped_container_is_started_and_a_running_one_entered() {
    let (run, _) = start(&forced("cpu"), &[], false).unwrap();
    let (_, action) = run.step(Event::Inspected(Some("false\n".to_string())));
    assert!(matches!(&action, Action::Prepare(i) if line(i) == "docker start gpubox"));
    let (run, _) = start(&forced("cpu"), &[], false).unwrap();
    let (run, action) = run.step(Event::Inspected(Some("true\n".to_string())));
    assert!(matches!(&action, Action::Launch(_)));
    let (_, action) = run.step(Event::Finished(Outcome::Exited { code: None }));
    assert_eq!(action, Action::Exit(1));
}

#[test]
fn a_container_that_cannot_be_prepared_is_not_entered() {
    let (run, _) = start(&forced("cpu"), &[], false).unwrap();
    let (run, _) = run.step(Event::Inspected(Some("false".to_string())));
    let (_, action) = run.step(Event::Finished(Outcome::Exited { code: Some(125) }));
    match action {
        Action::Fail(e) => assert_eq!(
            e.message(),
            "`docker start gpubox` failed while preparing container `gpubox`"
        ),
        other => panic!("{other:?}"),
    }
    let (run, _) = start(&forced("cpu"), &[], false).unwrap();
    let (run, _) = run.step(Event::Inspected(None));
    let (_, action) = run.step(Event::Finished(Outcome::NotStarted));
    assert_eq!(
        action,
        Action::Fail(RunError::NotExecuted { program: "docker".to_string() })
    );
}

#[test]
fn packages_are_baked_into_an_image_first() {
    let overrides = Overrides { ephemeral: true, ..forced("vulkan") };
    let (run, action) = start(&overrides, &["vulkaninfo"], false).unwrap();
    assert!(matches!(&action, Action::CheckImage(i) if line(i).starts_with("docker image inspect gpubox-cache/vulkan:")));
    let (run, action) = run.step(Event::Finished(Outcome::Exited { code: Some(1) }));
    let dockerfile = match action {
        Action::BuildImage { invocation, dockerfile } => {
            assert!(line(&invocation).starts_with("docker build -t gpubox-cache/vulkan:"));
            dockerfile
        },
        other => panic!("{other:?}"),
    };
    assert!(dockerfile.contains("FROM ubuntu:24.04\n"));
    let (_, action) = run.step(Event::Built(BuildOutcome::Exited { code: Some(0) }));
    match action {
        Action::Launch(i) => {
            assert!(i.args.iter().any(|a| a.starts_with("gpubox-cache/vulkan:")));
            assert!(!i.args.iter().any(|a| a.contains("apt-get")));
            assert_eq!(i.args.last().map(String::as_str), Some("vulkaninfo"));
        },
        other => panic!("{other:?}"),
    }
}

#[test]
fn a_cached_image_is_reused_and_a_broken_build_is_fatal() {
    let overrides = Overrides { ephemeral: true, ..forced("vulkan") };
    let (run, _) = start(&overrides, &[], false).unwrap();
    assert!(matches!(run.step(Event::Finished(DONE)).1, Action::Launch(_)));
    let (run, _) = start(&forced("vulkan"), &[], false).unwrap();
    let (run, _) = run.step(Event::Finished(Outcome::NotStarted));
    let (_, action) = run.step(Event::Built(BuildOutcome::NotFed));
    assert_eq!(action, Action::Fail(RunError::Build(BuildError::NotFed)));
}

#[test]
fn generated_files_are_written_before_the_launch() {
    let mut mac = host();
    mac.platform = Platform::MacOs;
    mac.tools = Tools { sandbox_exec: true, ..NOTHING };
    let begin = || {
        execute(&ids(), &quirks(), &mac, &forced("apple"), vec![], false, "/tmp").unwrap()
    };
    let (run, action) = begin();
    assert!(matches!(&action, Action::WriteFile { path, .. } if path == "/tmp/gpubox.sb"));
    let (_, action) = run.step(Event::Written(true));
    assert!(matches!(&action, Action::Launch(i) if i.program == "sandbox-exec"));
    let (run, _) = begin();
    let (_, action) = run.step(Event::Written(false));
    match action {
        Action::Fail(e) => assert_eq!(e.message(), "writing generated file /tmp/gpubox.sb"),
        other => panic!("{other:?}"),
    }
}

#[test]
fn an_engine_without_its_tool_is_not_run() {
    let (_, action) = start(&with_backend("cpu", "podman"), &[], false).unwrap();
    assert!(matches!(action, Action::Fail(RunError::Unavailable(_))));
    let (_, action) = start(&with_backend("cpu", "seatbelt"), &[], false).unwrap();
    assert!(matches!(action, Action::Fail(RunError::Unavailable(_))));
    // A dry run needs no tool.
    assert!(printed(&with_backend("cpu", "podman"), &[]).contains("podman exec"));
}

#[test]
fn windows_hosts_run_linux_containers_as_the_user() {
    let mut windows = host();
    windows.platform = Platform::Windows;
    windows.raw = RawProbe::Windows(None);
    let begin = |ephemeral, dry_run| {
        let overrides = Overrides { ephemeral, ..with_backend("cpu", "docker") };
        execute(&ids(), &quirks(), &windows, &overrides, vec![], dry_run, "/tmp").unwrap()
    };
    // One-shot.
    match begin(true, true).1 {
        Action::Print(lines) => {
            assert!(lines[1].starts_with("docker run --rm -it "));
            assert!(lines[1].contains(" --user 0:0 "));
            assert!(lines[1].contains("exec setpriv"));
            assert!(!lines[1].contains(" -u "));
        },
        other => panic!("{other:?}"),
    }
    assert!(matches!(begin(true, false).1, Action::Launch(_)));
    // Persistent.
    let (run, action) = begin(false, true);
    assert!(matches!(action, Action::Inspect(_)));
    match run.step(Event::Inspected(None)).1 {
        Action::Print(lines) => {
            assert_eq!(lines.len(), 3);
            assert!(lines[0].ends_with("container: gpubox (state: Missing)"));
            assert!(lines[1].starts_with("docker run -d --name gpubox "));
            assert!(lines[2].starts_with("docker exec -it --user 1000:1000 -e GPUBOX_STACK=cpu "));
        },
        other => panic!("{other:?}"),
    }
}

#[test]
fn a_run_that_cannot_be_planned_does_not_begin() {
    let err = start(&forced("banana"), &[], false).unwrap_err();
    assert!(matches!(err, RunError::Plan(PlanError::UnknownArch { .. })));
    assert_eq!(err.message(), parse_gfx_override("banana").unwrap_err().message());
}

#[test]
fn a_command_that_cannot_be_executed_is_reported() {
    let (run, _) = start(&forced("cpu"), &[], false).unwrap();
    let (run, _) = run.step(Event::Inspected(Some("true".to_string())));
    let (_, action) = run.step(Event::Finished(Outcome::NotStarted));
    match action {
        Action::Fail(e) => assert_eq!(e.message(), "failed to execute `docker`"),
        other => panic!("{other:?}"),
    }
}

// --- Rm, generate, quoting ---

fn rm(backend: Option<&str>, dry_run: bool, name: Option<&str>) -> Result<RmAction, RmError> {
    rm_cmd(
        &backend.map(|b| b.to_string()),
        dry_run,
        &name.map(|n| n.to_string()),
        Platform::Linux,
        &Tools { docker: true, ..NOTHING },
    )
}

#[test]
fn rm_with_explicit_name_uses_it() {
    match rm(Some("docker"), true, Some("ml")) {
        Ok(RmAction::Print(out)) => assert!(out.contains("docker rm -f gpubox-ml")),
        other => panic!("{other:?}"),
    }
}

#[test]
fn rm_removes_the_container_that_run_uses() {
    match rm(None, false, None) {
        Ok(RmAction::Remove { engine, name, invocation }) => {
            assert_eq!(name, "gpubox");
            assert_eq!(line(&invocation), "docker rm -f gpubox");
            assert_eq!(removed_line(engine, &name, DONE), Ok("removed gpubox".to_string()));
            assert!(removed_line(engine, &name, Outcome::NotStarted).is_err());
        },
        other => panic!("{other:?}"),
    }
}

#[test]
fn rm_knows_only_container_backends() {
    let unknown = rm(Some("bogus"), true, None).unwrap_err();
    assert_eq!(unknown.message(), "unrecognized --backend `bogus`");
    let unsupported = rm(Some("seatbelt"), true, None).unwrap_err();
    assert_eq!(unsupported, RmError::Unsupported);
    assert_eq!(
        unsupported.message(),
        "`gpubox rm` is only supported with the docker/podman backends"
    );
}

fn generate(class: &str, format: Option<&str>) -> Result<String, GenerateError> {
    generate_cmd(
        &ids(),
        &quirks(),
        &host(),
        &forced(class),
        &format.map(|f| f.to_string()),
    )
}

#[test]
fn generate_renders_the_plan() {
    assert!(generate("gfx90c", None).unwrap().contains("FROM rocm/rocm-terminal:6.1\n"));
    assert!(generate("gfx90c", Some("Quadlet"))
        .unwrap()
        .contains("Environment=HSA_OVERRIDE_GFX_VERSION=9.0.0\n"));
    assert_eq!(
        generate("cpu", Some("makefile")).unwrap_err().message(),
        "unrecognized --format `makefile`"
    );
    assert!(matches!(generate("apple", Some("compose")), Err(GenerateError::NoImage(_))));
    assert!(matches!(generate("banana", None), Err(GenerateError::Plan(_))));
}

#[test]
fn overrides_start_out_unnamed() {
    let overrides =
        overrides_from(Some("docker".to_string()), None, None, Some("1".to_string()), true, false);
    assert_eq!(overrides.backend.as_deref(), Some("docker"));
    assert_eq!(overrides.gpu.as_deref(), Some("1"));
    assert_eq!(overrides.name, None);
    assert!(!overrides.ephemeral);
    assert!(overrides.no_home);
    assert!(!overrides.read_only_home);
}

#[test]
fn arguments_are_quoted_for_a_shell() {
    assert_eq!(shell_quote(""), "");
    assert_eq!(shell_quote("python3.12"), "python3.12");
    assert_eq!(shell_quote("--image=a/b:c@d_e"), "--image=a/b:c@d_e");
    assert_eq!(shell_quote("naïve"), "naïve");
    assert_eq!(shell_quote("a b"), "'a b'");
    assert_eq!(shell_quote("it's"), "'it'\\''s'");
    assert_eq!(shell_quote("$HOME"), "'$HOME'");
}
