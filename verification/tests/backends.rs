//! Device injection, host integration, and what the backends make of a
//! launch.

use gpubox::backend::linux::ContainerEngine;
use gpubox::backend::windows_container::GPU_DEVICE_CLASS_GUID;
use gpubox::backend::{
    ensure_available, linux, macos, which_candidates, windows, windows_container,
    Engine, Invocation, LaunchSpec, Outcome, Platform, Tools,
};
use gpubox::cache::{
    build_image, cache_tag, ensure_cached_image, needed_image, BuildError, BuildOutcome,
    ImageSource,
};
use gpubox::container::{
    container_name, create_invocation, exec_invocation, full_name, inspect, inspect_invocation,
    remove, start_invocation, ContainerState, RemoveError, DEFAULT_CONTAINER_NAME,
};
use gpubox::device;
use gpubox::device::{
    amd_injection, intel_injection, nvidia_injection, DeviceHost, DeviceInjection, LibraryFile,
};
use gpubox::generate::{render, validate_format_for_stack, Format};
use gpubox::json::{to_json_array, to_json_object, to_json_string};
use gpubox::mounts;
use gpubox::mounts::{BindMount, HomeMode, HostEnv, Identity};
use gpubox::paths::join_paths;
use gpubox::probe::GpuClass;
use gpubox::stack::ResolvedStack;
use gpubox::table::Table;
use std::hash::{Hash, Hasher};

fn strings(items: &[&str]) -> Vec<String> {
    items.iter().map(|s| s.to_string()).collect()
}

fn mount(path: &str, read_only: bool) -> BindMount {
    BindMount { host: path.to_string(), container: path.to_string(), read_only }
}

fn alice() -> Identity {
    Identity {
        uid: 1000,
        gid: 1001,
        user: "alice".to_string(),
        home: "/home/alice".to_string(),
    }
}

fn sample_spec() -> LaunchSpec {
    LaunchSpec {
        image: "gpubox/rocm:6.1".to_string(),
        stack: "rocm".to_string(),
        env: vec![("HSA_OVERRIDE_GFX_VERSION".to_string(), "9.0.0".to_string())],
        mounts: vec![mount("/home/alice", false)],
        device_args: strings(&["--device", "/dev/dri"]),
        extra_args: vec![],
        packages: vec![],
        command: vec![],
        interactive: true,
        workdir: None,
    }
}

// --- Docker and Podman ---

#[test]
fn docker_invocation_has_expected_shape() {
    let inv = linux::build_invocation(ContainerEngine::Docker, &sample_spec(), &alice());
    assert_eq!(inv.program, "docker");
    assert!(inv.args.contains(&"run".to_string()));
    assert!(inv.args.contains(&"-v".to_string()));
    assert!(inv.args.iter().any(|a| a == "/home/alice:/home/alice"));
    assert!(inv.args.contains(&"gpubox/rocm:6.1".to_string()));
    assert_eq!(inv.args.last(), Some(&"/bin/bash".to_string()));
}

#[test]
fn podman_gets_keep_groups() {
    let inv = linux::build_invocation(ContainerEngine::Podman, &sample_spec(), &alice());
    assert!(inv.args.contains(&"keep-groups".to_string()));
    assert_eq!(inv.program, "podman");
}

#[test]
fn non_interactive_run_uses_explicit_command() {
    let mut spec = sample_spec();
    spec.interactive = false;
    spec.command = strings(&["python", "train.py"]);
    let inv = linux::build_invocation(ContainerEngine::Docker, &spec, &alice());
    assert!(!inv.args.contains(&"-it".to_string()));
    assert_eq!(&inv.args[inv.args.len() - 2..], &strings(&["python", "train.py"])[..]);
}

#[test]
fn a_one_off_container_runs_the_command_through_the_wrapper() {
    let mut spec = sample_spec();
    spec.mounts.push(mount("/usr/lib/libcuda.so.1", true));
    spec.workdir = Some("/home/alice/project".to_string());
    let inv = linux::build_invocation(ContainerEngine::Podman, &spec, &alice());
    let script = linux::script(&vec![]);
    let expected = strings(&[
        "run",
        "--rm",
        "-it",
        "-v",
        "/home/alice:/home/alice",
        "-v",
        "/usr/lib/libcuda.so.1:/usr/lib/libcuda.so.1:ro",
        "-e",
        "HSA_OVERRIDE_GFX_VERSION=9.0.0",
        "--device",
        "/dev/dri",
        "--group-add",
        "keep-groups",
        "--user",
        "0:0",
        "-w",
        "/home/alice/project",
        "gpubox/rocm:6.1",
        "/bin/sh",
        "-c",
        &script,
        "gpubox",
        "1000",
        "1001",
        "alice",
        "/home/alice",
        "/bin/bash",
    ]);
    assert_eq!(inv.args, expected);
    assert!(inv.generated_files.is_empty());
}

#[test]
fn the_wrapper_installs_only_what_is_asked_for() {
    let plain = linux::script(&vec![]);
    assert!(plain.contains("/etc/passwd"));
    assert!(plain.contains("/etc/group"));
    assert!(plain.contains("exec setpriv"));
    assert!(!plain.contains("apt-get"));
    let full = linux::script(&strings(&["mesa-vulkan-drivers", "odd name"]));
    assert!(full.contains("apt-get install -y --no-install-recommends mesa-vulkan-drivers 'odd name'\n"));
    assert!(full.find("apt-get").unwrap() < full.find("exec setpriv").unwrap());
}

#[test]
fn the_wrapper_drops_to_the_user_with_every_engine() {
    let mut spec = sample_spec();
    spec.packages = strings(&["mesa-vulkan-drivers"]);
    spec.command = strings(&["vulkaninfo"]);
    let script = linux::script(&spec.packages);
    assert!(script.contains("exec setpriv"));
    for engine in [Engine::Docker, Engine::Podman] {
        let inv = gpubox::backend::build_invocation(engine, &spec, &alice(), "/tmp").unwrap();
        let tail = strings(&[
            "gpubox/rocm:6.1",
            "/bin/sh",
            "-c",
            &script,
            "gpubox",
            "1000",
            "1001",
            "alice",
            "/home/alice",
            "vulkaninfo",
        ]);
        assert_eq!(&inv.args[inv.args.len() - tail.len()..], &tail[..]);
        assert!(inv.args.contains(&"--user".to_string()));
    }
}

// --- Engines ---

const NOTHING: Tools = Tools {
    docker: false,
    podman: false,
    sandbox_exec: false,
    windows_sandbox_on_path: false,
    windows_sandbox_in_system32: false,
};

#[test]
fn parses_known_engine_names() {
    assert_eq!(Engine::parse("docker"), Some(Engine::Docker));
    assert_eq!(Engine::parse("Podman"), Some(Engine::Podman));
    assert_eq!(Engine::parse("sandbox-exec"), Some(Engine::Seatbelt));
    assert_eq!(Engine::parse("wsb"), Some(Engine::WindowsSandbox));
    assert_eq!(Engine::parse("bogus"), None);
}

#[test]
fn every_engine_parses_its_own_name() {
    for engine in Engine::all() {
        assert_eq!(Engine::parse(engine.name()), Some(engine));
        assert_eq!(Engine::parse(&engine.name().to_uppercase()), Some(engine));
    }
    assert_eq!(Engine::parse("win-container"), Some(Engine::WindowsContainer));
    assert_eq!(Engine::parse("wincontainer"), Some(Engine::WindowsContainer));
}

#[test]
fn default_engine_matches_current_platform_family() {
    let both = Tools { docker: true, podman: true, ..NOTHING };
    let podman = Tools { podman: true, ..NOTHING };
    assert_eq!(Engine::default_for_platform(Platform::MacOs, &both), Engine::Seatbelt);
    assert_eq!(Engine::default_for_platform(Platform::Windows, &both), Engine::WindowsSandbox);
    assert_eq!(Engine::default_for_platform(Platform::Linux, &both), Engine::Docker);
    assert_eq!(Engine::default_for_platform(Platform::Linux, &podman), Engine::Podman);
    assert_eq!(Engine::default_for_platform(Platform::Linux, &NOTHING), Engine::Docker);
}

#[test]
fn gpu_compute_on_windows_prefers_windows_containers() {
    let docker = Tools { docker: true, ..NOTHING };
    let pick = |stack: &str, tools: &Tools| {
        Engine::default_for_platform_and_stack(stack, Platform::Windows, tools)
    };
    for stack in ["cuda", "rocm", "oneapi"] {
        assert_eq!(pick(stack, &docker), Engine::WindowsContainer);
        assert_eq!(pick(stack, &NOTHING), Engine::WindowsSandbox);
    }
    assert_eq!(pick("vulkan", &docker), Engine::WindowsSandbox);
    assert_eq!(
        Engine::default_for_platform_and_stack("cuda", Platform::Linux, &docker),
        Engine::Docker
    );
}

#[test]
fn only_docker_and_podman_have_containers() {
    assert_eq!(Engine::Docker.as_container_engine(), Some(ContainerEngine::Docker));
    assert_eq!(Engine::Podman.as_container_engine(), Some(ContainerEngine::Podman));
    assert_eq!(Engine::Seatbelt.as_container_engine(), None);
    assert_eq!(Engine::WindowsSandbox.as_container_engine(), None);
    assert_eq!(Engine::WindowsContainer.as_container_engine(), None);
}

#[test]
fn an_engine_without_its_tool_is_unavailable() {
    let in_system32 = Tools { windows_sandbox_in_system32: true, ..NOTHING };
    assert!(Engine::WindowsSandbox.is_available(&in_system32));
    assert!(!Engine::Podman.is_available(&in_system32));
    let docker = Tools { docker: true, ..NOTHING };
    assert_eq!(ensure_available(Engine::WindowsContainer, Platform::Windows, &docker), Ok(()));
    let err = ensure_available(Engine::Podman, Platform::Linux, &docker).unwrap_err();
    assert_eq!(
        err.message(),
        "backend `podman` was selected but isn't available on this host.\nInstall it, or choose \
         another with --backend (available choices for this platform: docker, podman)."
    );
}

#[test]
fn programs_have_an_extension_on_windows_only() {
    assert_eq!(which_candidates("docker", Platform::Linux), strings(&["docker"]));
    assert_eq!(
        which_candidates("docker", Platform::Windows),
        strings(&["docker", "docker.exe"])
    );
    assert_eq!(
        which_candidates("WindowsSandbox.exe", Platform::Windows),
        strings(&["WindowsSandbox.exe"])
    );
}

#[test]
fn every_engine_builds_its_own_invocation() {
    let build = |engine: Engine| {
        gpubox::backend::build_invocation(engine, &sample_spec(), &alice(), "/tmp")
    };
    assert_eq!(build(Engine::Docker).unwrap().program, "docker");
    assert_eq!(build(Engine::Podman).unwrap().program, "podman");
    assert_eq!(build(Engine::Seatbelt).unwrap().program, "sandbox-exec");
    assert_eq!(build(Engine::WindowsSandbox).unwrap().program, "WindowsSandbox.exe");
    let container = build(Engine::WindowsContainer).unwrap();
    assert_eq!(container.args[2], "--isolation");
}

// --- Windows containers ---

fn windows_spec() -> LaunchSpec {
    LaunchSpec {
        image: "mcr.microsoft.com/windows/servercore:ltsc2022".to_string(),
        stack: "cuda".to_string(),
        env: vec![],
        mounts: vec![mount(r"C:\Users\alice", false)],
        device_args: vec![],
        extra_args: vec![],
        packages: vec![],
        command: vec![],
        interactive: true,
        workdir: None,
    }
}

#[test]
fn invocation_uses_process_isolation_and_gpu_class_device() {
    let inv = windows_container::build_invocation(&windows_spec()).unwrap();
    assert_eq!(inv.program, "docker");
    assert!(inv.args.contains(&"--isolation".to_string()));
    assert!(inv.args.contains(&"process".to_string()));
    assert!(inv.args.iter().any(|a| a == &format!("class/{GPU_DEVICE_CLASS_GUID}")));
}

#[test]
fn no_posix_wrapper_command_tail_is_used_directly() {
    let mut spec = windows_spec();
    spec.command = strings(&["nvidia-smi.exe"]);
    spec.interactive = false;
    let inv = windows_container::build_invocation(&spec).unwrap();
    assert_eq!(inv.args.last(), Some(&"nvidia-smi.exe".to_string()));
    assert!(!inv.args.iter().any(|a| a.contains("setpriv")));
}

#[test]
fn interactive_default_command_is_cmd_exe() {
    let inv = windows_container::build_invocation(&windows_spec()).unwrap();
    assert_eq!(inv.args.last(), Some(&"cmd.exe".to_string()));
}

#[test]
fn mounts_use_mount_flag_not_dash_v() {
    // A Windows path already contains a colon (`C:\Users\alice`), so
    // `-v host:container:ro`'s colon-delimited syntax is ambiguous
    // there; `--mount type=bind,source=...,target=...` has no such
    // problem.
    let inv = windows_container::build_invocation(&windows_spec()).unwrap();
    assert!(!inv.args.contains(&"-v".to_string()));
    assert!(inv.args.contains(&"--mount".to_string()));
    assert!(inv
        .args
        .iter()
        .any(|a| a == r"type=bind,source=C:\Users\alice,target=C:\Users\alice"));
}

#[test]
fn read_only_mount_gets_readonly_suffix() {
    let mut spec = windows_spec();
    spec.mounts[0].read_only = true;
    let inv = windows_container::build_invocation(&spec).unwrap();
    assert!(inv
        .args
        .iter()
        .any(|a| a == r"type=bind,source=C:\Users\alice,target=C:\Users\alice,readonly"));
}

#[test]
fn a_windows_container_invocation_is_complete() {
    let mut spec = windows_spec();
    spec.env.push(("GPUBOX_STACK".to_string(), "cuda".to_string()));
    spec.extra_args = strings(&["--cpus", "2"]);
    spec.workdir = Some(r"C:\work".to_string());
    let inv = windows_container::build_invocation(&spec).unwrap();
    assert_eq!(
        inv.args,
        strings(&[
            "run",
            "--rm",
            "--isolation",
            "process",
            "--device",
            "class/5B45201D-F2F2-4F3B-85BB-30FF1F953599",
            "-it",
            "--mount",
            r"type=bind,source=C:\Users\alice,target=C:\Users\alice",
            "-e",
            "GPUBOX_STACK=cuda",
            "--cpus",
            "2",
            "-w",
            r"C:\work",
            "mcr.microsoft.com/windows/servercore:ltsc2022",
            "cmd.exe",
        ])
    );
}

// --- Seatbelt and Windows Sandbox ---

#[test]
fn seatbelt_allows_writes_under_writable_mounts_only() {
    let mut spec = sample_spec();
    spec.mounts.push(mount("/opt/\"odd\"", false));
    spec.mounts.push(mount("/etc", true));
    let inv = macos::build_invocation(&spec, "/tmp");
    assert_eq!(inv.program, "sandbox-exec");
    assert_eq!(
        inv.args,
        strings(&[
            "-f",
            "/tmp/gpubox.sb",
            "/usr/bin/env",
            "HSA_OVERRIDE_GFX_VERSION=9.0.0",
            "/bin/bash",
        ])
    );
    let profile = "(version 1)\n(allow default)\n(deny file-write*)\n\
                   (allow file-write* (subpath \"/home/alice\"))\n\
                   (allow file-write* (subpath \"/opt/\\\"odd\\\"\"))\n";
    assert_eq!(
        inv.generated_files,
        vec![("/tmp/gpubox.sb".to_string(), profile.to_string())]
    );
}

#[test]
fn windows_sandbox_gets_a_configuration_file() {
    let mut spec = windows_spec();
    spec.mounts.push(mount(r"C:\R&D", true));
    spec.command = strings(&["nvidia-smi.exe", "-L"]);
    let inv = windows::build_invocation(&spec, "C:/tmp/");
    assert_eq!(inv.program, "WindowsSandbox.exe");
    assert_eq!(inv.args, strings(&["C:/tmp/gpubox.wsb"]));
    let config = &inv.generated_files[0].1;
    assert!(config.contains("<VGpu>Enable</VGpu>"));
    assert!(config.contains(r"<HostFolder>C:\R&amp;D</HostFolder>"));
    assert!(config.contains("<ReadOnly>true</ReadOnly>"));
    assert!(config.contains("<Command>nvidia-smi.exe -L</Command>"));
    assert!(!windows::render_configuration(&windows_spec()).contains("LogonCommand"));
}

// --- Persistent containers ---

#[test]
fn container_name_is_namespaced() {
    assert_eq!(container_name("ml"), "gpubox-ml");
}

#[test]
fn default_container_name_is_bare_gpubox() {
    // The default (no `--name`) container is one shared box, not
    // namespaced per stack - distinct from an explicit `--name`,
    // which always goes through `container_name` and gets the
    // `gpubox-` prefix.
    assert_eq!(DEFAULT_CONTAINER_NAME, "gpubox");
    assert_ne!(DEFAULT_CONTAINER_NAME, container_name(DEFAULT_CONTAINER_NAME));
    assert_eq!(full_name(&None), "gpubox");
    assert_eq!(full_name(&Some("ml".to_string())), "gpubox-ml");
}

#[test]
fn create_invocation_is_detached_and_survives() {
    let inv = create_invocation(ContainerEngine::Docker, &sample_spec(), "gpubox-ml", &alice());
    assert_eq!(inv.program, "docker");
    assert!(inv.args.contains(&"-d".to_string()));
    assert!(!inv.args.contains(&"--rm".to_string()));
    assert!(inv.args.contains(&"--name".to_string()));
    assert!(inv.args.contains(&"gpubox-ml".to_string()));
    // Keeps itself alive rather than running the user's real command.
    assert_eq!(inv.args.last(), Some(&"infinity".to_string()));
    assert!(inv.args.iter().any(|a| a == "sleep"));
}

#[test]
fn create_invocation_still_runs_setup_wrapper() {
    let mut spec = sample_spec();
    spec.packages = strings(&["mesa-vulkan-drivers"]);
    let inv = create_invocation(ContainerEngine::Docker, &spec, "gpubox-ml", &alice());
    let script = inv
        .args
        .iter()
        .find(|a| a.contains("setpriv"))
        .expect("wrapper script must still run once at creation");
    assert!(script.contains("apt-get"));
}

#[test]
fn exec_invocation_uses_user_flag_not_wrapper() {
    let inv = exec_invocation(ContainerEngine::Docker, &sample_spec(), "gpubox-ml", &alice());
    assert_eq!(inv.program, "docker");
    assert!(inv.args.contains(&"exec".to_string()));
    assert!(inv.args.contains(&"--user".to_string()));
    assert!(!inv.args.iter().any(|a| a.contains("setpriv")));
    assert_eq!(inv.args.last(), Some(&"/bin/bash".to_string()));
    assert_eq!(
        inv.args,
        strings(&[
            "exec",
            "-it",
            "--user",
            "1000:1001",
            "-e",
            "HSA_OVERRIDE_GFX_VERSION=9.0.0",
            "gpubox-ml",
            "/bin/bash",
        ])
    );
}

#[test]
fn exec_invocation_non_interactive_uses_dash_i_and_explicit_command() {
    let mut spec = sample_spec();
    spec.interactive = false;
    spec.command = strings(&["python", "train.py"]);
    let inv = exec_invocation(ContainerEngine::Podman, &spec, "gpubox-ml", &alice());
    assert_eq!(inv.program, "podman");
    assert!(inv.args.contains(&"-i".to_string()));
    assert!(!inv.args.contains(&"-it".to_string()));
    assert_eq!(&inv.args[inv.args.len() - 2..], &strings(&["python", "train.py"])[..]);
}

#[test]
fn start_invocation_targets_the_right_engine_and_name() {
    let inv = start_invocation(ContainerEngine::Podman, "gpubox-ml");
    assert_eq!(inv.program, "podman");
    assert_eq!(inv.args, vec!["start", "gpubox-ml"]);
}

#[test]
fn inspection_tells_running_stopped_and_missing_apart() {
    assert_eq!(
        inspect_invocation(ContainerEngine::Docker, "gpubox").args,
        vec!["inspect", "-f", "{{.State.Running}}", "gpubox"]
    );
    assert_eq!(inspect(&Some("true\n".to_string())), ContainerState::Running);
    assert_eq!(inspect(&Some("false\n".to_string())), ContainerState::Stopped);
    assert_eq!(inspect(&Some(String::new())), ContainerState::Stopped);
    assert_eq!(inspect(&None), ContainerState::Missing);
}

#[test]
fn removal_succeeds_or_says_why_not() {
    let done = Outcome::Exited { code: Some(0) };
    assert_eq!(remove(ContainerEngine::Docker, "gpubox", done), Ok(()));
    let failed = remove(ContainerEngine::Docker, "gpubox", Outcome::Exited { code: Some(1) });
    assert_eq!(
        failed,
        Err(RemoveError::Failed {
            engine: ContainerEngine::Docker,
            name: "gpubox".to_string(),
        })
    );
    assert_eq!(failed.unwrap_err().message(), "`docker rm -f gpubox` failed");
    let missing = remove(ContainerEngine::Podman, "gpubox-ml", Outcome::NotStarted).unwrap_err();
    assert_eq!(missing.message(), "failed to run `podman rm -f gpubox-ml`");
    let killed = remove(ContainerEngine::Docker, "gpubox", Outcome::Exited { code: None });
    assert!(killed.is_err());
}

// --- Image cache ---

fn resolved() -> ResolvedStack {
    ResolvedStack {
        detected: "unrecognized GPU (Vulkan capable)".to_string(),
        stack: "vulkan".to_string(),
        image: "ubuntu:24.04".to_string(),
        env: Table::new(),
        notes: None,
        packages: strings(&["mesa-vulkan-drivers", "vulkan-tools"]),
        rule_key: "vulkan.default".to_string(),
        windows_image: None,
    }
}

fn spec() -> LaunchSpec {
    LaunchSpec {
        image: "ubuntu:24.04".to_string(),
        stack: "vulkan".to_string(),
        env: vec![],
        mounts: vec![mount("/home/alice", false)],
        device_args: strings(&["--device", "/dev/dri"]),
        extra_args: vec![],
        packages: strings(&["mesa-vulkan-drivers", "vulkan-tools"]),
        command: vec![],
        interactive: true,
        workdir: None,
    }
}

#[test]
fn cache_tag_is_deterministic_for_same_inputs() {
    assert_eq!(cache_tag(&resolved(), &spec()), cache_tag(&resolved(), &spec()));
}

#[test]
fn cache_tag_changes_when_image_override_changes() {
    let mut other = spec();
    other.image = "debian:12".to_string();
    assert_ne!(cache_tag(&resolved(), &spec()), cache_tag(&resolved(), &other));
}

#[test]
fn cache_tag_changes_when_packages_change() {
    let mut other_resolved = resolved();
    other_resolved.packages.push("mesa-utils".to_string());
    assert_ne!(cache_tag(&resolved(), &spec()), cache_tag(&other_resolved, &spec()));
}

#[test]
fn cuda_and_rocm_specs_have_no_packages_to_cache() {
    // Vendor images never populate `packages`, so caching is a no-op for
    // them.
    let mut cuda_resolved = resolved();
    cuda_resolved.stack = "cuda".to_string();
    cuda_resolved.packages.clear();
    assert!(cuda_resolved.packages.is_empty());
    let mut cuda_spec = spec();
    cuda_spec.packages.clear();
    let used = ensure_cached_image(
        ContainerEngine::Docker,
        &cuda_resolved,
        &mut cuda_spec,
        ImageSource::Present,
    );
    assert_eq!(used, Ok(false));
    assert_eq!(cuda_spec.image, "ubuntu:24.04");
    assert_eq!(needed_image(&cuda_resolved, &cuda_spec), None);
}

#[test]
fn cache_tags_hash_the_image_and_the_packages() {
    // The same strings and list hashed by the standard library itself.
    let mut hasher = std::collections::hash_map::DefaultHasher::new();
    spec().image.hash(&mut hasher);
    resolved().packages.hash(&mut hasher);
    let expected = format!("gpubox-cache/vulkan:{:016x}", hasher.finish());
    assert_eq!(cache_tag(&resolved(), &spec()), expected);
}

#[test]
fn a_cached_image_replaces_the_packages() {
    let tag = cache_tag(&resolved(), &spec());
    let mut launch = spec();
    let engine = ContainerEngine::Docker;
    assert_eq!(
        ensure_cached_image(engine, &resolved(), &mut launch, ImageSource::Present),
        Ok(true)
    );
    assert_eq!(launch.image, tag);
    assert!(launch.packages.is_empty());
    // Once more changes nothing.
    assert_eq!(
        ensure_cached_image(engine, &resolved(), &mut launch, ImageSource::Present),
        Ok(false)
    );
    assert_eq!(launch.image, tag);
}

#[test]
fn a_failed_build_leaves_the_launch_alone() {
    let mut launch = spec();
    let failed = ImageSource::Built(BuildOutcome::Exited { code: Some(1) });
    let tag = cache_tag(&resolved(), &spec());
    let err = ensure_cached_image(ContainerEngine::Podman, &resolved(), &mut launch, failed);
    assert_eq!(
        err,
        Err(BuildError::Failed { engine: ContainerEngine::Podman, tag: tag.clone() })
    );
    assert_eq!(err.unwrap_err().message(), format!("`podman build -t {tag}` failed"));
    assert_eq!(launch.image, "ubuntu:24.04");
    assert_eq!(launch.packages.len(), 2);
}

#[test]
fn every_way_a_build_fails_has_its_message() {
    let message = |outcome: BuildOutcome| {
        build_image(ContainerEngine::Docker, "t", outcome).unwrap_err().message()
    };
    assert_eq!(message(BuildOutcome::NotStarted), "failed to run `docker build`");
    assert_eq!(
        message(BuildOutcome::NotFed),
        "writing generated Dockerfile to `build`'s stdin"
    );
    assert_eq!(message(BuildOutcome::NotAwaited), "waiting on `docker build`");
    assert_eq!(message(BuildOutcome::Exited { code: None }), "`docker build -t t` failed");
    let done = BuildOutcome::Exited { code: Some(0) };
    assert_eq!(build_image(ContainerEngine::Docker, "t", done), Ok(()));
}

// --- Generated files ---

#[test]
fn the_dockerfile_installs_the_packages() {
    let mut stack = resolved();
    stack.env.insert("A".to_string(), "b \"c\"".to_string());
    let needed = needed_image(&stack, &spec()).unwrap();
    assert_eq!(
        needed.dockerfile,
        "# Generated by `gpubox generate` for stack: vulkan\n\
         FROM ubuntu:24.04\n\
         RUN apt-get update && DEBIAN_FRONTEND=noninteractive apt-get install -y \
         --no-install-recommends mesa-vulkan-drivers vulkan-tools \
         && rm -rf /var/lib/apt/lists/*\n\
         ENV A=\"b \\\"c\\\"\"\n"
    );
    assert_eq!(needed.dockerfile, render(Format::Dockerfile, &stack, &spec()));
}

#[test]
fn the_quadlet_unit_is_the_documented_one() {
    let mut stack = resolved();
    stack.stack = "rocm".to_string();
    stack.packages.clear();
    let launch = LaunchSpec {
        image: "rocm/rocm-terminal:6.1".to_string(),
        stack: "rocm".to_string(),
        env: vec![
            ("HSA_OVERRIDE_GFX_VERSION".to_string(), "9.0.0".to_string()),
            ("GPUBOX_STACK".to_string(), "rocm".to_string()),
        ],
        mounts: vec![mount("/home/alice", false), mount("/home/alice/project", false)],
        device_args: vec![],
        extra_args: vec![],
        packages: vec![],
        command: vec![],
        interactive: true,
        workdir: Some("/home/alice/project".to_string()),
    };
    assert_eq!(
        render(Format::Quadlet, &stack, &launch),
        "# Generated by `gpubox generate` for stack: rocm\n\
         [Unit]\n\
         Description=gpubox rocm sandbox\n\
         \n\
         [Container]\n\
         Image=rocm/rocm-terminal:6.1\n\
         Volume=/home/alice:/home/alice\n\
         Volume=/home/alice/project:/home/alice/project\n\
         Environment=HSA_OVERRIDE_GFX_VERSION=9.0.0\n\
         Environment=GPUBOX_STACK=rocm\n\
         WorkingDir=/home/alice/project\n\
         \n\
         [Install]\n\
         WantedBy=default.target\n"
    );
}

#[test]
fn the_compose_file_hands_devices_over() {
    let mut launch = sample_spec();
    launch.device_args = strings(&["--device", "/dev/kfd", "--device", "/dev/dri"]);
    let mut stack = resolved();
    stack.stack = "rocm".to_string();
    assert_eq!(
        render(Format::Compose, &stack, &launch),
        "# Generated by `gpubox generate` for stack: rocm\n\
         services:\n  gpubox:\n    image: \"gpubox/rocm:6.1\"\n    stdin_open: true\n    \
         tty: true\n    environment:\n      - \"HSA_OVERRIDE_GFX_VERSION=9.0.0\"\n    \
         volumes:\n      - \"/home/alice:/home/alice\"\n    devices:\n      - \"/dev/kfd\"\n      \
         - \"/dev/dri\"\n"
    );
    launch.device_args = strings(&["--gpus", "all"]);
    launch.workdir = Some("/w".to_string());
    let toolkit = render(Format::Compose, &stack, &launch);
    assert!(toolkit.ends_with("    gpus: all\n    working_dir: \"/w\"\n"));
    assert!(render(Format::Quadlet, &stack, &launch).contains("PodmanArgs=--gpus all\n"));
}

#[test]
fn the_devcontainer_is_json() {
    let launch = sample_spec();
    let mut stack = resolved();
    stack.stack = "rocm".to_string();
    assert_eq!(
        render(Format::Devcontainer, &stack, &launch),
        "{\n  \"name\": \"gpubox (rocm)\",\n  \"image\": \"gpubox/rocm:6.1\",\n  \
         \"containerEnv\": {\"HSA_OVERRIDE_GFX_VERSION\": \"9.0.0\"},\n  \
         \"mounts\": [\"source=/home/alice,target=/home/alice,type=bind\"],\n  \
         \"runArgs\": [\"--device\", \"/dev/dri\"]\n}\n"
    );
}

#[test]
fn sandbox_formats_are_those_of_their_backends() {
    assert_eq!(
        render(Format::Seatbelt, &resolved(), &spec()),
        macos::render_profile(&spec().mounts)
    );
    assert_eq!(
        render(Format::WindowsSandbox, &resolved(), &spec()),
        windows::render_configuration(&spec())
    );
}

#[test]
fn formats_have_names_and_platforms() {
    for format in [
        Format::Dockerfile,
        Format::Compose,
        Format::Quadlet,
        Format::Seatbelt,
        Format::WindowsSandbox,
        Format::Devcontainer,
    ] {
        assert_eq!(Format::parse(format.name()), Some(format));
    }
    assert_eq!(Format::parse("makefile"), None);
    assert_eq!(Format::default_for_platform(Platform::Linux), Format::Dockerfile);
    assert_eq!(Format::default_for_platform(Platform::MacOs), Format::Seatbelt);
    assert_eq!(Format::default_for_platform(Platform::Windows), Format::WindowsSandbox);
}

#[test]
fn a_native_stack_has_no_container_file() {
    let mut metal = resolved();
    metal.stack = "metal".to_string();
    metal.image = "none".to_string();
    assert_eq!(validate_format_for_stack(Format::Seatbelt, &metal), Ok(()));
    let err = validate_format_for_stack(Format::Compose, &metal).unwrap_err();
    assert_eq!(
        err.message(),
        "--format compose needs a container image, but stack `metal` has none"
    );
    assert_eq!(validate_format_for_stack(Format::Compose, &resolved()), Ok(()));
}

#[test]
fn json_strings_are_escaped() {
    assert_eq!(to_json_string("a\"b\\c\n\t\u{1}\u{1f}é"), "\"a\\\"b\\\\c\\n\\t\\u0001\\u001fé\"");
    assert_eq!(to_json_array(&strings(&["a", "b"])), "[\"a\", \"b\"]");
    assert_eq!(to_json_array(&vec![]), "[]");
    assert_eq!(
        to_json_object(&vec![("k".to_string(), "v".to_string())]),
        "{\"k\": \"v\"}"
    );
}

// --- Device injection ---

fn device_host(cdi: &[&str], kfd: bool) -> DeviceHost {
    DeviceHost {
        cdi_files: strings(cdi),
        has_kfd: kfd,
        library_files: vec![
            LibraryFile {
                name: "libcuda.so.1".to_string(),
                path: "/usr/lib/libcuda.so.1".to_string(),
                is_file: true,
            },
            LibraryFile {
                name: "libc.so.6".to_string(),
                path: "/usr/lib/libc.so.6".to_string(),
                is_file: true,
            },
            LibraryFile {
                name: "libnvidia-ml.so.1".to_string(),
                path: "/usr/lib/libnvidia-ml.so.1".to_string(),
                is_file: false,
            },
        ],
    }
}

#[test]
fn amd_without_kfd_only_requests_dri() {
    let injection = amd_injection(false);
    assert!(injection.args.contains(&"/dev/dri".to_string()));
    assert!(!injection.args.contains(&"/dev/kfd".to_string()));
    let with_kfd = amd_injection(true);
    assert!(with_kfd.args.contains(&"/dev/dri".to_string()));
    assert!(with_kfd.args.contains(&"/dev/kfd".to_string()));
}

#[test]
fn intel_requests_dri_only() {
    let injection = intel_injection();
    assert_eq!(injection.args, vec!["--device", "/dev/dri"]);
}

#[test]
fn plan_is_noop_for_vulkan_apple_and_none() {
    let host = device_host(&[], true);
    assert_eq!(device::plan(&GpuClass::Vulkan, &host), DeviceInjection::default());
    assert_eq!(device::plan(&GpuClass::Apple, &host), DeviceInjection::default());
    assert_eq!(device::plan(&GpuClass::NoGpu, &host), DeviceInjection::default());
}

#[test]
fn nvidia_prefers_cdi_over_the_toolkit() {
    let cdi = nvidia_injection(&device_host(&["nvidia.yaml"], false));
    assert_eq!(cdi.args, vec!["--device", "nvidia.com/gpu=all"]);
    assert!(cdi.library_mounts.is_empty());
    let toolkit = nvidia_injection(&device_host(&[], false));
    assert_eq!(toolkit.args, vec!["--gpus", "all"]);
    let libraries: Vec<&str> = toolkit.library_mounts.iter().map(|m| m.host.as_str()).collect();
    assert_eq!(libraries, vec!["/usr/lib/libcuda.so.1"]);
    let binds = device::bind_libraries(&toolkit.library_mounts);
    assert_eq!(binds, vec![mount("/usr/lib/libcuda.so.1", true)]);
}

// --- Host integration ---

fn host_env() -> HostEnv {
    HostEnv {
        home: Some("/home/alice".to_string()),
        cwd: Some("/home/alice/project".to_string()),
        display: None,
        wayland_display: None,
        runtime_dir: None,
        identity: alice(),
    }
}

#[test]
fn podman_gets_keep_id_flag() {
    let integration = mounts::plan("podman", "rocm", Platform::Linux, &host_env());
    assert!(integration.extra_args.contains(&"--userns=keep-id".to_string()));
}

#[test]
fn prompt_marker_env_is_set() {
    let integration = mounts::plan("docker", "cuda", Platform::Linux, &host_env());
    assert!(integration.env.iter().any(|(k, v)| k == "GPUBOX_STACK" && v == "cuda"));
}

#[test]
fn home_and_cwd_are_mounted() {
    let integration = mounts::plan("docker", "vulkan", Platform::Linux, &host_env());
    assert!(integration.mounts.iter().any(|m| m.host == m.container));
    assert_eq!(
        integration.mounts,
        vec![mount("/home/alice", false), mount("/home/alice/project", false)]
    );
    assert_eq!(integration.workdir.as_deref(), Some("/home/alice/project"));
    assert_eq!(integration.extra_args, vec!["-u", "1000:1001"]);
}

#[test]
fn home_is_where_it_is_mounted() {
    let mut host = host_env();
    host.home = Some("/srv/alice".to_string());
    let home = |host: &HostEnv| {
        let env = mounts::plan("docker", "cuda", Platform::Linux, host).env;
        env.into_iter().find(|(key, _)| key == "HOME").map(|(_, value)| value)
    };
    assert_eq!(mounts::plan("docker", "cuda", Platform::Linux, &host).mounts[0], mount("/srv/alice", false));
    assert_eq!(home(&host).as_deref(), Some("/srv/alice"));
    assert_eq!(mounts::current_identity(&host).home, "/srv/alice");
    host.home = None;
    assert_eq!(home(&host).as_deref(), Some("/home/alice"));
    assert_eq!(mounts::current_identity(&host), alice());
}

#[test]
fn windows_has_no_uids_to_map() {
    let args = |engine: &str| mounts::plan(engine, "cuda", Platform::Windows, &host_env()).extra_args;
    assert!(args("docker").is_empty());
    assert_eq!(args("podman"), vec!["--userns=keep-id"]);
}

#[test]
fn home_modes_differ_in_the_home_mount_only() {
    let plan = |mode| mounts::plan_with_home_mode("docker", "cuda", mode, Platform::Linux, &host_env());
    assert_eq!(plan(HomeMode::ReadOnly).mounts[0], mount("/home/alice", true));
    assert_eq!(plan(HomeMode::ReadWrite).mounts[0], mount("/home/alice", false));
    assert_eq!(plan(HomeMode::Absent).mounts, vec![mount("/home/alice/project", false)]);
    assert_eq!(plan(HomeMode::Absent).env, plan(HomeMode::ReadWrite).env);
}

#[test]
fn gui_sockets_are_forwarded() {
    let mut host = host_env();
    host.display = Some(":0".to_string());
    host.wayland_display = Some("wayland-0".to_string());
    host.runtime_dir = Some("/run/user/1000".to_string());
    let integration = mounts::plan("seatbelt", "metal", Platform::Linux, &host);
    assert_eq!(integration.mounts[2], mount("/tmp/.X11-unix", false));
    assert_eq!(integration.mounts[3], mount("/run/user/1000/wayland-0", false));
    let pair = |k: &str, v: &str| (k.to_string(), v.to_string());
    assert_eq!(
        integration.env,
        vec![
            pair("DISPLAY", ":0"),
            pair("XDG_RUNTIME_DIR", "/run/user/1000"),
            pair("WAYLAND_DISPLAY", "wayland-0"),
            pair("GPUBOX_STACK", "metal"),
        ]
    );
    assert!(integration.extra_args.is_empty());
}

#[test]
fn paths_are_joined_by_the_rule_of_the_platform() {
    let posix = |base: &str, child: &str| join_paths(Platform::Linux, base, child);
    assert_eq!(posix("/run/user/1000", "/tmp/w"), "/tmp/w");
    assert_eq!(posix("/run/", "w"), "/run/w");
    assert_eq!(posix("/run", "w"), "/run/w");
    assert_eq!(posix(r"C:\run", r"C:\w"), r"C:\run/C:\w");
    let windows = |base: &str, child: &str| join_paths(Platform::Windows, base, child);
    assert_eq!(windows(r"C:\run", r"C:\w"), r"C:\w");
    assert_eq!(windows(r"C:\run", "w"), r"C:\run\w");
    assert_eq!(windows("C:/run/", "w"), "C:/run/w");
    assert_eq!(windows(r"C:\run", r"\w"), r"C:\w");
    assert_eq!(windows(r"C:\run", "D:w"), "D:w");
    assert_eq!(windows("C:", "w"), "C:w");
    assert_eq!(windows(r"\\server\share\run", r"\w"), r"\\server\share\w");
    assert_eq!(windows(r"\\server\share", "w"), r"\\server\share\w");
    assert_eq!(windows(r"C:\run", r"\\server\share\w"), r"\\server\share\w");
    assert_eq!(windows("", "w"), "w");
}

#[test]
fn verbatim_paths_are_joined_component_by_component() {
    let join = |base: &str, child: &str| join_paths(Platform::Windows, base, child);
    assert_eq!(join(r"\\?\C:\a", r"b\c"), r"\\?\C:\a\b\c");
    assert_eq!(join(r"\\?\C:\a", r"b/c"), r"\\?\C:\a\b\c");
    assert_eq!(join(r"\\?\C:\a", r".\b\.\c"), r"\\?\C:\a\b\c");
    assert_eq!(join(r"\\?\C:\a", r"..\b"), r"\\?\C:\b");
    assert_eq!(join(r"\\?\C:\a", r"..\..\b"), r"\\?\C:\b");
    assert_eq!(join(r"\\?\C:\a", r"\w"), r"\\?\C:\w");
    assert_eq!(join(r"\\?\C:", "w"), r"\\?\C:\w");
    assert_eq!(join(r"\\?\UNC\server\share\a", r"\w"), r"\\?\UNC\server\share\w");
    assert_eq!(join(r"\\?\C:\a", r"D:\w"), r"D:\w");
    assert_eq!(join(r"\\?\C:\a", ""), r"\\?\C:\a\");
    // A slash separates nothing in the base.
    assert_eq!(join(r"\\?\C:\a/b", r"..\w"), r"\\?\C:\w");
}

#[test]
fn the_wayland_socket_lies_where_the_platform_says() {
    let mut host = host_env();
    host.wayland_display = Some(r"C:\w".to_string());
    host.runtime_dir = Some(r"C:\run".to_string());
    let integration = mounts::plan("seatbelt", "cpu", Platform::Windows, &host);
    assert_eq!(integration.mounts[2], mount(r"C:\w", false));
}

#[test]
fn invocations_can_be_copied() {
    let inv: Invocation = start_invocation(ContainerEngine::Docker, "gpubox");
    assert_eq!(inv.clone(), inv);
}
