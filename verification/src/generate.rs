//! Renders a launch as an inspectable file instead of running anything: a
//! Dockerfile, a Compose file, a Podman Quadlet unit, a Seatbelt `.sb`
//! profile, a Windows Sandbox `.wsb` config, or a VS Code `devcontainer.json`
//! - so the "magic" is reproducible in CI, checked into a repo, or opened
//! straight in Dev Containers.

use vstd::prelude::*;
use crate::backend::linux;
use crate::backend::macos;
use crate::backend::windows;
use crate::backend::{LaunchSpec, LaunchSpecView, Platform};
use crate::json;
use crate::mounts::{BindMount, BindMountView};
use crate::stack::{ResolvedStack, ResolvedStackView};
use crate::text;

verus! {

/// The formats of a rendered launch.
#[derive(Debug, Clone, Copy, PartialEq, Eq, Structural)]
pub enum Format {
    Dockerfile,
    Compose,
    Quadlet,
    Seatbelt,
    WindowsSandbox,
    Devcontainer,
}

/// The name of a format.
pub open spec fn format_name(format: Format) -> Seq<char> {
    match format {
        Format::Dockerfile => "dockerfile"@,
        Format::Compose => "compose"@,
        Format::Quadlet => "quadlet"@,
        Format::Seatbelt => "seatbelt"@,
        Format::WindowsSandbox => "windows-sandbox"@,
        Format::Devcontainer => "devcontainer"@,
    }
}

/// The format that a name stands for, in any case of the letters.
pub open spec fn format_named(s: Seq<char>) -> Option<Format> {
    let name = text::lower(s);
    if name == "dockerfile"@ {
        Some(Format::Dockerfile)
    } else if name == "compose"@ {
        Some(Format::Compose)
    } else if name == "quadlet"@ {
        Some(Format::Quadlet)
    } else if name == "seatbelt"@ {
        Some(Format::Seatbelt)
    } else if name == "windows-sandbox"@ {
        Some(Format::WindowsSandbox)
    } else if name == "devcontainer"@ {
        Some(Format::Devcontainer)
    } else {
        None
    }
}

/// The idiomatic format of a platform.
pub open spec fn platform_format(platform: Platform) -> Format {
    match platform {
        Platform::MacOs => Format::Seatbelt,
        Platform::Windows => Format::WindowsSandbox,
        _ => Format::Dockerfile,
    }
}

impl Format {
    /// The name of the format.
    pub fn name(self) -> (r: &'static str)
        ensures
            r@ == format_name(self),
    {
        match self {
            Format::Dockerfile => "dockerfile",
            Format::Compose => "compose",
            Format::Quadlet => "quadlet",
            Format::Seatbelt => "seatbelt",
            Format::WindowsSandbox => "windows-sandbox",
            Format::Devcontainer => "devcontainer",
        }
    }

    /// The format that a name stands for.
    pub fn parse(s: &str) -> (r: Option<Format>)
        ensures
            r == format_named(s@),
    {
        let lowered = text::ascii_lowercase(s);
        let name = lowered.as_str();
        if text::same(name, "dockerfile") {
            Some(Format::Dockerfile)
        } else if text::same(name, "compose") {
            Some(Format::Compose)
        } else if text::same(name, "quadlet") {
            Some(Format::Quadlet)
        } else if text::same(name, "seatbelt") {
            Some(Format::Seatbelt)
        } else if text::same(name, "windows-sandbox") {
            Some(Format::WindowsSandbox)
        } else if text::same(name, "devcontainer") {
            Some(Format::Devcontainer)
        } else {
            None
        }
    }

    /// The idiomatic format of a host platform.
    pub fn default_for_platform(platform: Platform) -> (r: Format)
        ensures
            r == platform_format(platform),
    {
        match platform {
            Platform::MacOs => Format::Seatbelt,
            Platform::Windows => Format::WindowsSandbox,
            _ => Format::Dockerfile,
        }
    }
}

/// Every format is found again under its own name.
pub proof fn law_format_names_parse(format: Format)
    ensures
        format_named(format_name(format)) == Some(format),
{
    reveal_strlit("dockerfile");
    reveal_strlit("compose");
    reveal_strlit("quadlet");
    reveal_strlit("seatbelt");
    reveal_strlit("windows-sandbox");
    reveal_strlit("devcontainer");
    let name = format_name(format);
    assert(text::lower(name) =~= name);
    assert("compose"@[0] == 'c' && "quadlet"@[0] == 'q');
}

/// A format that needs a container image, for a stack that has none.
#[derive(Debug, PartialEq, Eq)]
pub struct NoImage {
    pub format: Format,
    pub stack: String,
}

/// What a [`NoImage`] stands for.
#[verifier::ext_equal]
pub struct NoImageView {
    pub format: Format,
    pub stack: Seq<char>,
}

impl DeepView for NoImage {
    type V = NoImageView;

    open spec fn deep_view(&self) -> NoImageView {
        NoImageView { format: self.format, stack: self.stack@ }
    }
}

/// What the user is told about a format that needs an image.
pub open spec fn no_image_message(e: NoImageView) -> Seq<char> {
    "--format "@ + format_name(e.format) + " needs a container image, but stack `"@ + e.stack
        + "` has none"@
}

impl NoImage {
    /// The error as it is shown to people.
    pub fn message(&self) -> (r: String)
        ensures
            r@ == no_image_message(self.deep_view()),
    {
        let mut r = text::join3(
            "--format ",
            self.format.name(),
            " needs a container image, but stack `",
        );
        r.append(self.stack.as_str());
        r.append("` has none");
        r
    }
}

/// Whether a format describes a container.
pub open spec fn needs_image(format: Format) -> bool {
    !(format is Seatbelt || format is WindowsSandbox)
}

/// Whether a format can describe a stack: a container needs an image, and a
/// stack that runs natively on the host (image `none`) has none.
pub fn validate_format_for_stack(format: Format, resolved: &ResolvedStack) -> (r: Result<
    (),
    NoImage,
>)
    ensures
        match r {
            Ok(_) => !(needs_image(format) && resolved.image@ == "none"@),
            Err(e) => needs_image(format) && resolved.image@ == "none"@ && e.deep_view() == (
            NoImageView { format, stack: resolved.stack@ }),
        },
{
    let needs = match format {
        Format::Seatbelt | Format::WindowsSandbox => false,
        _ => true,
    };
    if needs && text::same(resolved.image.as_str(), "none") {
        Err(NoImage { format, stack: resolved.stack.clone() })
    } else {
        Ok(())
    }
}

/// The given mounts in the form `host:container[:ro]`.
pub open spec fn volumes(mounts: Seq<BindMountView>) -> Seq<Seq<char>> {
    Seq::new(mounts.len(), |i: int| linux::volume(mounts[i]))
}

fn volumes_of(mounts: &Vec<BindMount>) -> (r: Vec<String>)
    ensures
        r.deep_view() == volumes(mounts.deep_view()),
{
    let ghost expected = volumes(mounts.deep_view());
    let mut r = text::no_strings();
    let mut i: usize = 0;
    assert(expected.take(0) =~= Seq::empty());
    while i < mounts.len()
        invariant
            expected == volumes(mounts.deep_view()),
            i <= mounts@.len(),
            r.deep_view() == expected.take(i as int),
        decreases mounts@.len() - i,
    {
        text::push_string(&mut r, linux::volume_of(&mounts[i]));
        assert(expected.take(i + 1) =~= expected.take(i as int).push(expected[i as int]));
        i += 1;
    }
    assert(expected.take(i as int) =~= expected);
    r
}

/// The mount of a development container.
pub open spec fn dev_mount(mount: BindMountView) -> Seq<char> {
    "source="@ + mount.host + ",target="@ + mount.container + (if mount.read_only {
        ",type=bind,readonly"@
    } else {
        ",type=bind"@
    })
}

/// The mounts of a development container.
pub open spec fn dev_mounts(mounts: Seq<BindMountView>) -> Seq<Seq<char>> {
    Seq::new(mounts.len(), |i: int| dev_mount(mounts[i]))
}

fn dev_mounts_of(mounts: &Vec<BindMount>) -> (r: Vec<String>)
    ensures
        r.deep_view() == dev_mounts(mounts.deep_view()),
{
    let ghost expected = dev_mounts(mounts.deep_view());
    let mut r = text::no_strings();
    let mut i: usize = 0;
    assert(expected.take(0) =~= Seq::empty());
    while i < mounts.len()
        invariant
            expected == dev_mounts(mounts.deep_view()),
            i <= mounts@.len(),
            r.deep_view() == expected.take(i as int),
        decreases mounts@.len() - i,
    {
        let mount = &mounts[i];
        let mut value = text::join3("source=", mount.host.as_str(), ",target=");
        value.append(mount.container.as_str());
        if mount.read_only {
            value.append(",type=bind,readonly");
        } else {
            value.append(",type=bind");
        }
        text::push_string(&mut r, value);
        assert(expected[i as int] == dev_mount(mount.deep_view()));
        assert(expected.take(i + 1) =~= expected.take(i as int).push(expected[i as int]));
        i += 1;
    }
    assert(expected.take(i as int) =~= expected);
    r
}

/// The values of the `--device` flags among engine flags.
pub open spec fn device_values(args: Seq<Seq<char>>) -> Seq<Seq<char>>
    decreases args.len(),
{
    if args.len() < 2 {
        Seq::empty()
    } else if args[args.len() - 2] == "--device"@ {
        device_values(args.drop_last()).push(args.last())
    } else {
        device_values(args.drop_last())
    }
}

fn devices_of(args: &Vec<String>) -> (r: Vec<String>)
    ensures
        r.deep_view() == device_values(args.deep_view()),
{
    let ghost view = args.deep_view();
    let mut r = text::no_strings();
    if args.len() < 2 {
        assert(view.len() < 2);
        return r;
    }
    let mut i: usize = 1;
    while i < args.len()
        invariant
            view == args.deep_view(),
            1 <= i <= args@.len(),
            r.deep_view() == device_values(view.take(i as int)),
        decreases args@.len() - i,
    {
        assert(view.take(i + 1).drop_last() =~= view.take(i as int));
        assert(view.take(i + 1).last() == args@[i as int]@);
        assert(view.take(i + 1)[i - 1] == args@[i - 1]@);
        if text::same(args[i - 1].as_str(), "--device") {
            text::push_str(&mut r, args[i].as_str());
        }
        i += 1;
    }
    assert(view.take(i as int) =~= view);
    r
}

/// Whether the toolkit's `--gpus` flag is among engine flags.
pub open spec fn asks_for_all_gpus(args: Seq<Seq<char>>) -> bool {
    exists|i: int| 0 <= i < args.len() && #[trigger] args[i] == "--gpus"@
}

fn wants_all_gpus(args: &Vec<String>) -> (r: bool)
    ensures
        r == asks_for_all_gpus(args.deep_view()),
{
    let ghost view = args.deep_view();
    let mut i: usize = 0;
    while i < args.len()
        invariant
            view == args.deep_view(),
            i <= args@.len(),
            forall|j: int| 0 <= j < i ==> view[j] != "--gpus"@,
        decreases args@.len() - i,
    {
        assert(view[i as int] == args@[i as int]@);
        if text::same(args[i].as_str(), "--gpus") {
            return true;
        }
        i += 1;
    }
    assert(view.len() == args@.len());
    false
}

/// The line that opens a rendered file.
pub open spec fn header(stack: Seq<char>) -> Seq<char> {
    "# Generated by `gpubox generate` for stack: "@ + stack + "\n"@
}

fn header_of(stack: &str) -> (r: String)
    ensures
        r@ == header(stack@),
{
    text::join3("# Generated by `gpubox generate` for stack: ", stack, "\n")
}

/// The Dockerfile step that installs packages.
pub open spec fn install_layer(packages: Seq<Seq<char>>) -> Seq<char> {
    if packages.len() == 0 {
        Seq::empty()
    } else {
        "RUN apt-get update && DEBIAN_FRONTEND=noninteractive apt-get install -y --no-install-recommends"@
            + linux::shell_words(packages) + " && rm -rf /var/lib/apt/lists/*\n"@
    }
}

/// The Dockerfile of a stack: its base image with its packages and its quirk
/// variables.
pub open spec fn dockerfile(resolved: ResolvedStackView, image: Seq<char>) -> Seq<char> {
    header(resolved.stack) + "FROM "@ + image + "\n"@ + install_layer(resolved.packages)
        + text::framed(text::assignments(quoted_values(resolved.env)), "ENV "@, "\n"@)
}

/// Variables with their values as quoted strings.
pub open spec fn quoted_values(env: Seq<(Seq<char>, Seq<char>)>) -> Seq<(Seq<char>, Seq<char>)> {
    Seq::new(env.len(), |i: int| (env[i].0, json::json_string(env[i].1)))
}

fn quote_values(env: &Vec<(String, String)>) -> (r: Vec<(String, String)>)
    ensures
        r.deep_view() == quoted_values(env.deep_view()),
{
    let ghost expected = quoted_values(env.deep_view());
    let mut r = text::no_pairs();
    let mut i: usize = 0;
    assert(expected.take(0) =~= Seq::empty());
    while i < env.len()
        invariant
            expected == quoted_values(env.deep_view()),
            i <= env@.len(),
            r.deep_view() == expected.take(i as int),
        decreases env@.len() - i,
    {
        text::push_pair(&mut r, env[i].0.as_str(), json::to_json_string(env[i].1.as_str()).as_str());
        assert(expected[i as int] == (env@[i as int].0@, json::json_string(env@[i as int].1@)));
        assert(expected.take(i + 1) =~= expected.take(i as int).push(expected[i as int]));
        i += 1;
    }
    assert(expected.take(i as int) =~= expected);
    r
}

/// Writes the Dockerfile of a stack.
pub fn render_dockerfile(resolved: &ResolvedStack, image: &str) -> (r: String)
    ensures
        r@ == dockerfile(resolved.deep_view(), image@),
{
    let mut r = header_of(resolved.stack.as_str());
    r.append("FROM ");
    r.append(image);
    r.append("\n");
    assert(resolved.packages.deep_view().len() == resolved.packages@.len());
    let ghost before = r@;
    if resolved.packages.len() > 0 {
        let step = text::join3(
            "RUN apt-get update && DEBIAN_FRONTEND=noninteractive apt-get install -y --no-install-recommends",
            linux::quote_words(&resolved.packages).as_str(),
            " && rm -rf /var/lib/apt/lists/*\n",
        );
        r.append(step.as_str());
    }
    assert(r@ =~= before + install_layer(resolved.deep_view().packages));
    let env = quote_values(&resolved.env.pairs());
    r.append(text::frame(&text::assign(&env), "ENV ", "\n").as_str());
    r
}

/// The line that asks for all GPUs, if the engine flags do.
pub open spec fn all_gpus_line(args: Seq<Seq<char>>, line: Seq<char>) -> Seq<char> {
    if asks_for_all_gpus(args) {
        line
    } else {
        Seq::empty()
    }
}

fn render_all_gpus(args: &Vec<String>, line: &str) -> (r: String)
    ensures
        r@ == all_gpus_line(args.deep_view(), line@),
{
    if wants_all_gpus(args) {
        line.to_string()
    } else {
        text::empty()
    }
}

/// The Compose file of a launch.
pub open spec fn compose(resolved: ResolvedStackView, spec: LaunchSpecView) -> Seq<char> {
    header(resolved.stack) + "services:\n  gpubox:\n    image: "@ + json::json_string(spec.image)
        + "\n    stdin_open: true\n    tty: true\n"@ + text::section(
        "    environment:\n"@,
        json::json_strings(text::assignments(spec.env)),
        "      - "@,
        "\n"@,
    ) + text::section("    volumes:\n"@, json::json_strings(volumes(spec.mounts)), "      - "@, "\n"@)
        + text::section(
        "    devices:\n"@,
        json::json_strings(device_values(spec.device_args)),
        "      - "@,
        "\n"@,
    ) + all_gpus_line(spec.device_args, "    gpus: all\n"@) + text::optional_line(
        "    working_dir: "@,
        json::json_option(spec.workdir),
    )
}

/// Writes the Compose file of a launch.
pub fn render_compose(resolved: &ResolvedStack, spec: &LaunchSpec) -> (r: String)
    ensures
        r@ == compose(resolved.deep_view(), spec.deep_view()),
{
    let mut r = header_of(resolved.stack.as_str());
    r.append("services:\n  gpubox:\n    image: ");
    r.append(json::to_json_string(spec.image.as_str()).as_str());
    r.append("\n    stdin_open: true\n    tty: true\n");
    let env = json::to_json_strings(&text::assign(&spec.env));
    r.append(text::render_section("    environment:\n", &env, "      - ", "\n").as_str());
    let mounts = json::to_json_strings(&volumes_of(&spec.mounts));
    r.append(text::render_section("    volumes:\n", &mounts, "      - ", "\n").as_str());
    let devices = json::to_json_strings(&devices_of(&spec.device_args));
    r.append(text::render_section("    devices:\n", &devices, "      - ", "\n").as_str());
    r.append(render_all_gpus(&spec.device_args, "    gpus: all\n").as_str());
    let workdir = json::to_json_option(&spec.workdir);
    r.append(text::render_optional("    working_dir: ", &workdir).as_str());
    r
}

/// The Podman Quadlet unit of a launch.
pub open spec fn quadlet(resolved: ResolvedStackView, spec: LaunchSpecView) -> Seq<char> {
    header(resolved.stack) + "[Unit]\nDescription=gpubox "@ + resolved.stack
        + " sandbox\n\n[Container]\nImage="@ + spec.image + "\n"@ + text::framed(
        volumes(spec.mounts),
        "Volume="@,
        "\n"@,
    ) + text::framed(text::assignments(spec.env), "Environment="@, "\n"@) + text::framed(
        device_values(spec.device_args),
        "AddDevice="@,
        "\n"@,
    ) + all_gpus_line(spec.device_args, "PodmanArgs=--gpus all\n"@) + text::optional_line(
        "WorkingDir="@,
        spec.workdir,
    ) + "\n[Install]\nWantedBy=default.target\n"@
}

/// Writes the Podman Quadlet unit of a launch.
pub fn render_quadlet(resolved: &ResolvedStack, spec: &LaunchSpec) -> (r: String)
    ensures
        r@ == quadlet(resolved.deep_view(), spec.deep_view()),
{
    let mut r = header_of(resolved.stack.as_str());
    r.append("[Unit]\nDescription=gpubox ");
    r.append(resolved.stack.as_str());
    r.append(" sandbox\n\n[Container]\nImage=");
    r.append(spec.image.as_str());
    r.append("\n");
    r.append(text::frame(&volumes_of(&spec.mounts), "Volume=", "\n").as_str());
    r.append(text::frame(&text::assign(&spec.env), "Environment=", "\n").as_str());
    r.append(text::frame(&devices_of(&spec.device_args), "AddDevice=", "\n").as_str());
    r.append(render_all_gpus(&spec.device_args, "PodmanArgs=--gpus all\n").as_str());
    r.append(text::render_optional("WorkingDir=", &spec.workdir).as_str());
    r.append("\n[Install]\nWantedBy=default.target\n");
    r
}

/// The folder line of a development container.
pub open spec fn workspace_line(workdir: Option<Seq<char>>) -> Seq<char> {
    match workdir {
        Some(dir) => ",\n  \"workspaceFolder\": "@ + json::json_string(dir) + "\n}\n"@,
        None => "\n}\n"@,
    }
}

/// The `devcontainer.json` of a launch.
pub open spec fn devcontainer(resolved: ResolvedStackView, spec: LaunchSpecView) -> Seq<char> {
    "{\n  \"name\": "@ + json::json_string("gpubox ("@ + resolved.stack + ")"@) + ",\n  \"image\": "@
        + json::json_string(spec.image) + ",\n  \"containerEnv\": "@ + json::json_object(spec.env)
        + ",\n  \"mounts\": "@ + json::json_array(dev_mounts(spec.mounts)) + ",\n  \"runArgs\": "@
        + json::json_array(spec.device_args + spec.extra_args) + workspace_line(spec.workdir)
}

/// Writes the `devcontainer.json` of a launch.
pub fn render_devcontainer(resolved: &ResolvedStack, spec: &LaunchSpec) -> (r: String)
    ensures
        r@ == devcontainer(resolved.deep_view(), spec.deep_view()),
{
    let name = text::join3("gpubox (", resolved.stack.as_str(), ")");
    let mut r = "{\n  \"name\": ".to_string();
    r.append(json::to_json_string(name.as_str()).as_str());
    r.append(",\n  \"image\": ");
    r.append(json::to_json_string(spec.image.as_str()).as_str());
    r.append(",\n  \"containerEnv\": ");
    r.append(json::to_json_object(&spec.env).as_str());
    r.append(",\n  \"mounts\": ");
    r.append(json::to_json_array(&dev_mounts_of(&spec.mounts)).as_str());
    r.append(",\n  \"runArgs\": ");
    let mut args = text::clone_strings(&spec.device_args);
    text::push_all(&mut args, &spec.extra_args);
    r.append(json::to_json_array(&args).as_str());
    let tail = match &spec.workdir {
        Some(dir) => text::join3(
            ",\n  \"workspaceFolder\": ",
            json::to_json_string(dir.as_str()).as_str(),
            "\n}\n",
        ),
        None => "\n}\n".to_string(),
    };
    r.append(tail.as_str());
    r
}

/// The file that describes a launch in a format.
pub open spec fn rendering(
    format: Format,
    resolved: ResolvedStackView,
    spec: LaunchSpecView,
) -> Seq<char> {
    match format {
        Format::Dockerfile => dockerfile(resolved, spec.image),
        Format::Compose => compose(resolved, spec),
        Format::Quadlet => quadlet(resolved, spec),
        Format::Seatbelt => macos::profile(spec.mounts),
        Format::WindowsSandbox => windows::configuration(spec),
        Format::Devcontainer => devcontainer(resolved, spec),
    }
}

/// Renders a launch in a format.
pub fn render(format: Format, resolved: &ResolvedStack, spec: &LaunchSpec) -> (r: String)
    ensures
        r@ == rendering(format, resolved.deep_view(), spec.deep_view()),
{
    match format {
        Format::Dockerfile => render_dockerfile(resolved, spec.image.as_str()),
        Format::Compose => render_compose(resolved, spec),
        Format::Quadlet => render_quadlet(resolved, spec),
        Format::Seatbelt => macos::render_profile(&spec.mounts),
        Format::WindowsSandbox => windows::render_configuration(spec),
        Format::Devcontainer => render_devcontainer(resolved, spec),
    }
}

/// Which names a format is asked for by, in any case of the letters; and no
/// other name asks for one.
pub proof fn law_formats_by_name(s: Seq<char>)
    ensures
        format_named(s) == Some(Format::Dockerfile) <==> text::lower(s) == "dockerfile"@,
        format_named(s) == Some(Format::Compose) <==> text::lower(s) == "compose"@,
        format_named(s) == Some(Format::Quadlet) <==> text::lower(s) == "quadlet"@,
        format_named(s) == Some(Format::Seatbelt) <==> text::lower(s) == "seatbelt"@,
        format_named(s) == Some(Format::WindowsSandbox) <==> text::lower(s) == "windows-sandbox"@,
        format_named(s) == Some(Format::Devcontainer) <==> text::lower(s) == "devcontainer"@,
{
    reveal_strlit("dockerfile");
    reveal_strlit("compose");
    reveal_strlit("quadlet");
    reveal_strlit("seatbelt");
    reveal_strlit("windows-sandbox");
    reveal_strlit("devcontainer");
    assert("dockerfile"@.len() == 10 && "compose"@.len() == 7 && "quadlet"@.len() == 7);
    assert("seatbelt"@.len() == 8 && "windows-sandbox"@.len() == 15 && "devcontainer"@.len() == 12);
    assert("compose"@[0] == 'c' && "quadlet"@[0] == 'q');
}

/// The format that is idiomatic for each platform, and which formats need a
/// container image: all but those of Seatbelt and Windows Sandbox.
pub proof fn law_formats_of_platforms(format: Format)
    ensures
        platform_format(Platform::Linux) == Format::Dockerfile,
        platform_format(Platform::Other) == Format::Dockerfile,
        platform_format(Platform::MacOs) == Format::Seatbelt,
        platform_format(Platform::Windows) == Format::WindowsSandbox,
        needs_image(Format::Dockerfile),
        needs_image(Format::Compose),
        needs_image(Format::Quadlet),
        needs_image(Format::Devcontainer),
        !needs_image(Format::Seatbelt),
        !needs_image(Format::WindowsSandbox),
{
}

/// Each format renders what it is named after: a Dockerfile on the image of the
/// launch, and the profile and the configuration that a launch would be run
/// with.
pub proof fn law_formats_render(resolved: ResolvedStackView, spec: LaunchSpecView)
    ensures
        rendering(Format::Dockerfile, resolved, spec) == dockerfile(resolved, spec.image),
        rendering(Format::Compose, resolved, spec) == compose(resolved, spec),
        rendering(Format::Quadlet, resolved, spec) == quadlet(resolved, spec),
        rendering(Format::Devcontainer, resolved, spec) == devcontainer(resolved, spec),
        rendering(Format::Seatbelt, resolved, spec) == macos::seatbelt_invocation(
            spec,
            Seq::empty(),
        ).generated_files[0].1,
        rendering(Format::WindowsSandbox, resolved, spec) == windows::sandbox_invocation(
            spec,
            Seq::empty(),
        ).generated_files[0].1,
{
}

/// The devices of device flags are what follows a `--device`, and nothing else
/// is.
pub proof fn law_devices_follow_their_flag(args: Seq<Seq<char>>, value: Seq<char>)
    ensures
        device_values(args).contains(value) <==> exists|i: int|
            0 <= i < args.len() - 1 && #[trigger] args[i] == "--device"@ && args[i + 1] == value,
        device_values(Seq::empty()).len() == 0,
        device_values(seq!["--device"@, value]) == seq![value],
        device_values(seq!["--device"@, "/dev/dri"@, "--device"@, value]) == seq![
            "/dev/dri"@,
            value,
        ],
        asks_for_all_gpus(args) <==> args.contains("--gpus"@),
        args.contains("--gpus"@) ==> all_gpus_line(args, value) == value,
        !args.contains("--gpus"@) ==> all_gpus_line(args, value).len() == 0,
    decreases args.len(),
{
    reveal_with_fuel(device_values, 4);
    reveal_strlit("--device");
    reveal_strlit("/dev/dri");
    assert("--device"@[0] == '-' && "/dev/dri"@[0] == '/');
    let one = seq!["--device"@, value];
    assert(device_values(one) =~= seq![value]);
    let two = seq!["--device"@, "/dev/dri"@, "--device"@, value];
    assert(two.drop_last() =~= seq!["--device"@, "/dev/dri"@, "--device"@]);
    assert(two.drop_last().drop_last() =~= seq!["--device"@, "/dev/dri"@]);
    assert(two.drop_last().drop_last().drop_last() =~= seq!["--device"@]);
    assert(device_values(two) =~= seq!["/dev/dri"@, value]);
    if asks_for_all_gpus(args) {
        let i = choose|i: int| 0 <= i < args.len() && #[trigger] args[i] == "--gpus"@;
        assert(args.contains(args[i]));
    }
    if args.contains("--gpus"@) {
        assert(args[args.index_of("--gpus"@)] == "--gpus"@);
    }
    if args.len() >= 2 {
        let front = args.drop_last();
        let n = args.len() - 2;
        law_devices_follow_their_flag(front, value);
        let before = device_values(front);
        let all = device_values(args);
        if all.contains(value) {
            let k = all.index_of(value);
            if k < before.len() {
                assert(before[k] == value);
                let i = choose|i: int|
                    0 <= i < front.len() - 1 && #[trigger] front[i] == "--device"@ && front[i + 1]
                        == value;
                assert(args[i] == "--device"@ && args[i + 1] == value);
            } else {
                assert(args[n] == "--device"@ && args[n + 1] == value);
            }
        }
        if exists|i: int|
            0 <= i < args.len() - 1 && #[trigger] args[i] == "--device"@ && args[i + 1] == value {
            let i = choose|i: int|
                0 <= i < args.len() - 1 && #[trigger] args[i] == "--device"@ && args[i + 1]
                    == value;
            if i < n {
                assert(front[i] == "--device"@ && front[i + 1] == value);
                assert(all[before.index_of(value)] == value);
            } else {
                assert(all.last() == value);
            }
        }
    }
}

/// A Dockerfile begins with the stack and the image that it builds on; it
/// installs all packages of the stack if there are any, and runs nothing if
/// there are none; and it sets every variable of the stack.
#[verifier::spinoff_prover]
#[verifier::rlimit(40)]
pub proof fn law_dockerfiles(resolved: ResolvedStackView, image: Seq<char>, i: int)
    ensures
        text::has_prefix(
            dockerfile(resolved, image),
            "# Generated by `gpubox generate` for stack: "@ + resolved.stack + "\n"@ + "FROM "@
                + image + "\n"@,
        ),
        resolved.packages.len() > 0 ==> text::occurs_in(
            dockerfile(resolved, image),
            "RUN apt-get update && DEBIAN_FRONTEND=noninteractive apt-get install -y --no-install-recommends"@
                + linux::shell_words(resolved.packages) + " && rm -rf /var/lib/apt/lists/*\n"@,
        ),
        0 <= i < resolved.env.len() ==> text::occurs_in(
            dockerfile(resolved, image),
            "ENV "@ + (resolved.env[i].0 + "="@ + json::json_string(resolved.env[i].1)) + "\n"@,
        ),
        resolved.packages.len() == 0 && resolved.env.len() == 0 ==> dockerfile(resolved, image)
            == "# Generated by `gpubox generate` for stack: "@ + resolved.stack + "\n"@ + "FROM "@
            + image + "\n"@,
{
    let start = "# Generated by `gpubox generate` for stack: "@ + resolved.stack + "\n"@ + "FROM "@
        + image + "\n"@;
    let layer = install_layer(resolved.packages);
    let items = text::assignments(quoted_values(resolved.env));
    let env = text::framed(items, "ENV "@, "\n"@);
    let all = dockerfile(resolved, image);
    assert(all =~= start + layer + env);
    assert(all.subrange(0, start.len() as int) =~= start);
    text::law_parts_occur(start, layer, env);
    if 0 <= i < resolved.env.len() {
        text::lemma_framed_occurs(items, "ENV "@, "\n"@, i);
        let line = "ENV "@ + items[i] + "\n"@;
        text::lemma_occurs_within(start + layer, env, Seq::empty(), line);
        assert(start + layer + env + Seq::<char>::empty() =~= all);
        assert(items[i] == resolved.env[i].0 + "="@ + json::json_string(resolved.env[i].1));
    }
    if resolved.packages.len() == 0 && resolved.env.len() == 0 {
        assert(all =~= start);
    }
}

/// A Compose file has the image of the launch, and all of its variables, its
/// mounts and its devices, each under its heading; `gpus: all` exactly if the
/// device flags ask for all GPUs; and the working directory.
#[verifier::spinoff_prover]
#[verifier::rlimit(40)]
pub proof fn law_compose_files(resolved: ResolvedStackView, spec: LaunchSpecView, i: int)
    ensures
        text::has_prefix(
            compose(resolved, spec),
            "# Generated by `gpubox generate` for stack: "@ + resolved.stack + "\n"@
                + "services:\n  gpubox:\n    image: "@ + json::json_string(spec.image)
                + "\n    stdin_open: true\n    tty: true\n"@,
        ),
        spec.env.len() > 0 ==> text::occurs_in(
            compose(resolved, spec),
            "    environment:\n"@ + "      - "@ + json::json_string(
                spec.env[0].0 + "="@ + spec.env[0].1,
            ) + "\n"@,
        ),
        0 <= i < spec.env.len() ==> text::occurs_in(
            compose(resolved, spec),
            "      - "@ + json::json_string(spec.env[i].0 + "="@ + spec.env[i].1) + "\n"@,
        ),
        spec.mounts.len() > 0 ==> text::occurs_in(
            compose(resolved, spec),
            "    volumes:\n"@ + "      - "@ + json::json_string(linux::volume(spec.mounts[0]))
                + "\n"@,
        ),
        0 <= i < spec.mounts.len() ==> text::occurs_in(
            compose(resolved, spec),
            "      - "@ + json::json_string(linux::volume(spec.mounts[i])) + "\n"@,
        ),
        device_values(spec.device_args).len() > 0 ==> text::occurs_in(
            compose(resolved, spec),
            "    devices:\n"@ + "      - "@ + json::json_string(device_values(spec.device_args)[0])
                + "\n"@,
        ),
        0 <= i < device_values(spec.device_args).len() ==> text::occurs_in(
            compose(resolved, spec),
            "      - "@ + json::json_string(device_values(spec.device_args)[i]) + "\n"@,
        ),
        spec.device_args.contains("--gpus"@) ==> text::occurs_in(
            compose(resolved, spec),
            "    gpus: all\n"@,
        ),
        (spec.workdir matches Some(dir) ==> text::occurs_in(
            compose(resolved, spec),
            "    working_dir: "@ + json::json_string(dir) + "\n"@,
        )),
{
    let start = "# Generated by `gpubox generate` for stack: "@ + resolved.stack + "\n"@
        + "services:\n  gpubox:\n    image: "@ + json::json_string(spec.image)
        + "\n    stdin_open: true\n    tty: true\n"@;
    let env_items = json::json_strings(text::assignments(spec.env));
    let mount_items = json::json_strings(volumes(spec.mounts));
    let device_items = json::json_strings(device_values(spec.device_args));
    let env = text::section("    environment:\n"@, env_items, "      - "@, "\n"@);
    let mounts = text::section("    volumes:\n"@, mount_items, "      - "@, "\n"@);
    let devices = text::section("    devices:\n"@, device_items, "      - "@, "\n"@);
    let gpus = all_gpus_line(spec.device_args, "    gpus: all\n"@);
    let dir = text::optional_line("    working_dir: "@, json::json_option(spec.workdir));
    let all = compose(resolved, spec);
    assert(all =~= start + env + mounts + devices + gpus + dir);
    assert(all.subrange(0, start.len() as int) =~= start);
    text::lemma_section_occurs(
        start,
        "    environment:\n"@,
        env_items,
        "      - "@,
        "\n"@,
        mounts + devices + gpus + dir,
        i,
    );
    assert(all =~= start + env + (mounts + devices + gpus + dir));
    text::lemma_section_occurs(
        start + env,
        "    volumes:\n"@,
        mount_items,
        "      - "@,
        "\n"@,
        devices + gpus + dir,
        i,
    );
    assert(all =~= (start + env) + mounts + (devices + gpus + dir));
    text::lemma_section_occurs(
        start + env + mounts,
        "    devices:\n"@,
        device_items,
        "      - "@,
        "\n"@,
        gpus + dir,
        i,
    );
    assert(all =~= (start + env + mounts) + devices + (gpus + dir));
    text::law_parts_occur(start + env + mounts + devices, gpus, dir);
    law_devices_follow_their_flag(spec.device_args, Seq::empty());
    text::law_parts_occur(start + env + mounts + devices + gpus, dir, Seq::empty());
    assert(all =~= start + env + mounts + devices + gpus + dir + Seq::<char>::empty());
}

/// A Quadlet unit has the image of the launch, and all of its mounts, its
/// variables and its devices; `--gpus all` exactly if the device flags ask for
/// all GPUs; and the working directory.
#[verifier::spinoff_prover]
#[verifier::rlimit(40)]
pub proof fn law_quadlet_units(resolved: ResolvedStackView, spec: LaunchSpecView, i: int)
    ensures
        text::has_prefix(
            quadlet(resolved, spec),
            "# Generated by `gpubox generate` for stack: "@ + resolved.stack + "\n"@
                + "[Unit]\nDescription=gpubox "@ + resolved.stack
                + " sandbox\n\n[Container]\nImage="@ + spec.image + "\n"@,
        ),
        0 <= i < spec.mounts.len() ==> text::occurs_in(
            quadlet(resolved, spec),
            "Volume="@ + linux::volume(spec.mounts[i]) + "\n"@,
        ),
        0 <= i < spec.env.len() ==> text::occurs_in(
            quadlet(resolved, spec),
            "Environment="@ + (spec.env[i].0 + "="@ + spec.env[i].1) + "\n"@,
        ),
        0 <= i < device_values(spec.device_args).len() ==> text::occurs_in(
            quadlet(resolved, spec),
            "AddDevice="@ + device_values(spec.device_args)[i] + "\n"@,
        ),
        spec.device_args.contains("--gpus"@) ==> text::occurs_in(
            quadlet(resolved, spec),
            "PodmanArgs=--gpus all\n"@,
        ),
        (spec.workdir matches Some(dir) ==> text::occurs_in(
            quadlet(resolved, spec),
            "WorkingDir="@ + dir + "\n"@,
        )),
        text::occurs_in(quadlet(resolved, spec), "\n[Install]\nWantedBy=default.target\n"@),
{
    let start = "# Generated by `gpubox generate` for stack: "@ + resolved.stack + "\n"@
        + "[Unit]\nDescription=gpubox "@ + resolved.stack + " sandbox\n\n[Container]\nImage="@
        + spec.image + "\n"@;
    let env_items = text::assignments(spec.env);
    let mount_items = volumes(spec.mounts);
    let device_items = device_values(spec.device_args);
    let mounts = text::framed(mount_items, "Volume="@, "\n"@);
    let env = text::framed(env_items, "Environment="@, "\n"@);
    let devices = text::framed(device_items, "AddDevice="@, "\n"@);
    let gpus = all_gpus_line(spec.device_args, "PodmanArgs=--gpus all\n"@);
    let dir = text::optional_line("WorkingDir="@, spec.workdir);
    let end = "\n[Install]\nWantedBy=default.target\n"@;
    let all = quadlet(resolved, spec);
    assert(all =~= start + mounts + env + devices + gpus + dir + end);
    assert(all.subrange(0, start.len() as int) =~= start);
    if 0 <= i < mount_items.len() {
        text::lemma_framed_occurs(mount_items, "Volume="@, "\n"@, i);
        text::lemma_occurs_within(
            start,
            mounts,
            env + devices + gpus + dir + end,
            "Volume="@ + mount_items[i] + "\n"@,
        );
        assert(all =~= start + mounts + (env + devices + gpus + dir + end));
    }
    if 0 <= i < env_items.len() {
        text::lemma_framed_occurs(env_items, "Environment="@, "\n"@, i);
        text::lemma_occurs_within(
            start + mounts,
            env,
            devices + gpus + dir + end,
            "Environment="@ + env_items[i] + "\n"@,
        );
        assert(all =~= (start + mounts) + env + (devices + gpus + dir + end));
    }
    if 0 <= i < device_items.len() {
        text::lemma_framed_occurs(device_items, "AddDevice="@, "\n"@, i);
        text::lemma_occurs_within(
            start + mounts + env,
            devices,
            gpus + dir + end,
            "AddDevice="@ + device_items[i] + "\n"@,
        );
        assert(all =~= (start + mounts + env) + devices + (gpus + dir + end));
    }
    law_devices_follow_their_flag(spec.device_args, Seq::empty());
    text::law_parts_occur(start + mounts + env + devices, gpus, dir + end);
    assert(all =~= (start + mounts + env + devices) + gpus + (dir + end));
    text::law_parts_occur(start + mounts + env + devices + gpus, dir, end);
    text::law_parts_occur(start + mounts + env + devices + gpus + dir, end, Seq::empty());
    assert(all =~= start + mounts + env + devices + gpus + dir + end + Seq::<char>::empty());
}

/// A dev container has the image of the launch, its variables, its mounts, its
/// device flags and extra flags, all of them, and its working directory.
#[verifier::spinoff_prover]
#[verifier::rlimit(40)]
pub proof fn law_dev_containers(resolved: ResolvedStackView, spec: LaunchSpecView, i: int)
    ensures
        text::occurs_in(
            devcontainer(resolved, spec),
            ",\n  \"image\": "@ + json::json_string(spec.image) + ",\n  \"containerEnv\": "@
                + json::json_object(spec.env) + ",\n  \"mounts\": "@ + json::json_array(
                dev_mounts(spec.mounts),
            ) + ",\n  \"runArgs\": "@ + json::json_array(spec.device_args + spec.extra_args),
        ),
        dev_mounts(spec.mounts).len() == spec.mounts.len(),
        0 <= i < spec.mounts.len() && !spec.mounts[i].read_only ==> dev_mounts(spec.mounts)[i]
            == "source="@ + spec.mounts[i].host + ",target="@ + spec.mounts[i].container
            + ",type=bind"@,
        0 <= i < spec.mounts.len() && spec.mounts[i].read_only ==> dev_mounts(spec.mounts)[i]
            == "source="@ + spec.mounts[i].host + ",target="@ + spec.mounts[i].container
            + ",type=bind,readonly"@,
        (spec.workdir matches Some(dir) ==> text::occurs_in(
            devcontainer(resolved, spec),
            ",\n  \"workspaceFolder\": "@ + json::json_string(dir) + "\n}\n"@,
        )),
{
    let start = "{\n  \"name\": "@ + json::json_string("gpubox ("@ + resolved.stack + ")"@);
    let p1 = ",\n  \"image\": "@;
    let s1 = json::json_string(spec.image);
    let p2 = ",\n  \"containerEnv\": "@;
    let s2 = json::json_object(spec.env);
    let p3 = ",\n  \"mounts\": "@;
    let s3 = json::json_array(dev_mounts(spec.mounts));
    let p4 = ",\n  \"runArgs\": "@;
    let s4 = json::json_array(spec.device_args + spec.extra_args);
    let end = workspace_line(spec.workdir);
    lemma_append(start, p1, s1);
    lemma_append(start, p1 + s1, p2);
    lemma_append(start, p1 + s1 + p2, s2);
    lemma_append(start, p1 + s1 + p2 + s2, p3);
    lemma_append(start, p1 + s1 + p2 + s2 + p3, s3);
    lemma_append(start, p1 + s1 + p2 + s2 + p3 + s3, p4);
    lemma_append(start, p1 + s1 + p2 + s2 + p3 + s3 + p4, s4);
    let middle = p1 + s1 + p2 + s2 + p3 + s3 + p4 + s4;
    text::law_parts_occur(start, middle, end);
    lemma_ends(start + middle, end);
}

proof fn lemma_append(a: Seq<char>, b: Seq<char>, c: Seq<char>)
    ensures
        a + (b + c) == a + b + c,
{
    assert(a + (b + c) =~= a + b + c);
}

proof fn lemma_ends(before: Seq<char>, end: Seq<char>)
    ensures
        text::occurs_in(before + end, end),
{
    let none = Seq::<char>::empty();
    text::law_parts_occur(before, end, none);
    assert(before + end + none =~= before + end);
}

} // verus!
