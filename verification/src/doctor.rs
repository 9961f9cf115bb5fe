//! `gpubox doctor` - explain what was detected, what was chosen, and how to
//! override it. Good diagnostics are what make people trust auto-detection.

use vstd::prelude::*;
use crate::backend;
use crate::backend::{Engine, Platform, Tools};
use crate::json;
use crate::launch;
use crate::launch::{Host, HostView, Overrides, OverridesView, Plan, PlanError, PlanErrorView, PlanView};
use crate::mounts::{Identity, IdentityView};
use crate::probe;
use crate::probe::pciids;
use crate::probe::pciids::{PciIds, PciIdsView};
use crate::probe::{GpuDevice, GpuDeviceView, RawProbe};
use crate::stack::{QuirksDb, QuirksDbView};
use crate::text;

verus! {

/// Whether an engine belongs to a platform.
pub open spec fn belongs_to(engine: Engine, platform: Platform) -> bool {
    match engine {
        Engine::Docker => platform == Platform::Linux,
        Engine::Podman => platform == Platform::Linux,
        Engine::Seatbelt => platform == Platform::MacOs,
        Engine::WindowsSandbox => platform == Platform::Windows,
        Engine::WindowsContainer => platform == Platform::Windows,
    }
}

/// Whether an engine belongs to a platform.
pub fn platform_supports(engine: Engine, platform: Platform) -> (r: bool)
    ensures
        r == belongs_to(engine, platform),
{
    match engine {
        Engine::Docker | Engine::Podman => platform == Platform::Linux,
        Engine::Seatbelt => platform == Platform::MacOs,
        Engine::WindowsSandbox | Engine::WindowsContainer => platform == Platform::Windows,
    }
}

/// Every engine.
pub open spec fn all_engines() -> Seq<Engine> {
    seq![
        Engine::Docker,
        Engine::Podman,
        Engine::Seatbelt,
        Engine::WindowsSandbox,
        Engine::WindowsContainer,
    ]
}

/// The engines of a list that belong to the platform, other than the chosen
/// one.
pub open spec fn others_among(engines: Seq<Engine>, chosen: Engine, platform: Platform) -> Seq<
    Engine,
>
    decreases engines.len(),
{
    if engines.len() == 0 {
        Seq::empty()
    } else {
        let before = others_among(engines.drop_last(), chosen, platform);
        if engines.last() != chosen && belongs_to(engines.last(), platform) {
            before.push(engines.last())
        } else {
            before
        }
    }
}

/// The engines of the platform other than the chosen one.
pub open spec fn other_engines(chosen: Engine, platform: Platform) -> Seq<Engine> {
    others_among(all_engines(), chosen, platform)
}

fn list_other_engines(chosen: Engine, platform: Platform) -> (r: Vec<Engine>)
    ensures
        r@ == other_engines(chosen, platform),
{
    let engines = Engine::all();
    let ghost all = all_engines();
    let mut r: Vec<Engine> = Vec::new();
    let mut i: usize = 0;
    while i < 5
        invariant
            engines@ == all,
            all.len() == 5,
            i <= 5,
            r@ == others_among(all.take(i as int), chosen, platform),
        decreases 5 - i,
    {
        assert(all.take(i + 1).drop_last() =~= all.take(i as int));
        let engine = engines[i];
        assert(all.take(i + 1).last() == engine);
        if engine != chosen && platform_supports(engine, platform) {
            r.push(engine);
        }
        i += 1;
    }
    assert(all.take(i as int) =~= all);
    r
}

/// The line on an engine that was not chosen.
pub open spec fn engine_line(engine: Engine, tools: Tools) -> Seq<char> {
    backend::engine_name(engine) + (if backend::has_tool(engine, tools) {
        " yes"@
    } else {
        " no"@
    })
}

/// The lines on engines that were not chosen.
pub open spec fn engine_lines(engines: Seq<Engine>, tools: Tools) -> Seq<Seq<char>> {
    Seq::new(engines.len(), |i: int| engine_line(engines[i], tools))
}

fn list_engine_lines(engines: &Vec<Engine>, tools: &Tools) -> (r: Vec<String>)
    ensures
        r.deep_view() == engine_lines(engines@, *tools),
{
    let ghost expected = engine_lines(engines@, *tools);
    let mut r = text::no_strings();
    let mut i: usize = 0;
    assert(expected.take(0) =~= Seq::empty());
    while i < engines.len()
        invariant
            expected == engine_lines(engines@, *tools),
            i <= engines@.len(),
            r.deep_view() == expected.take(i as int),
        decreases engines@.len() - i,
    {
        let engine = engines[i];
        if engine.is_available(tools) {
            text::push_string(&mut r, text::join2(engine.name(), " yes"));
        } else {
            text::push_string(&mut r, text::join2(engine.name(), " no"));
        }
        assert(expected[i as int] == engine_line(engine, *tools));
        assert(expected.take(i + 1) =~= expected.take(i as int).push(expected[i as int]));
        i += 1;
    }
    assert(expected.take(i as int) =~= expected);
    r
}

/// The line on one of several GPUs: its index, what it is and where it is.
pub open spec fn device_line(index: nat, device: GpuDeviceView) -> Seq<char> {
    text::decimal(index) + ": "@ + probe::description(device.class) + (match device.node {
        Some(node) => " at "@ + node,
        None => Seq::empty(),
    })
}

/// The lines on several GPUs.
pub open spec fn device_lines(devices: Seq<GpuDeviceView>) -> Seq<Seq<char>> {
    Seq::new(devices.len(), |i: int| device_line(i as nat, devices[i]))
}

fn list_devices(devices: &Vec<GpuDevice>) -> (r: Vec<String>)
    ensures
        r.deep_view() == device_lines(devices.deep_view()),
{
    let ghost expected = device_lines(devices.deep_view());
    let mut r = text::no_strings();
    let mut i: usize = 0;
    assert(expected.take(0) =~= Seq::empty());
    while i < devices.len()
        invariant
            expected == device_lines(devices.deep_view()),
            i <= devices@.len(),
            r.deep_view() == expected.take(i as int),
        decreases devices@.len() - i,
    {
        let device = &devices[i];
        let mut line = text::join3(
            text::to_decimal(i as u64).as_str(),
            ": ",
            device.class.describe().as_str(),
        );
        if let Some(node) = &device.node {
            line.append(text::join2(" at ", node.as_str()).as_str());
        }
        assert(line@ =~= device_line(i as nat, device.deep_view()));
        assert(expected[i as int] == device_line(i as nat, device.deep_view()));
        text::push_string(&mut r, line);
        assert(expected.take(i + 1) =~= expected.take(i as int).push(expected[i as int]));
        i += 1;
    }
    assert(expected.take(i as int) =~= expected);
    r
}

/// The section on the GPUs of a host that has more than one.
pub open spec fn devices_section(devices: Seq<GpuDeviceView>) -> Seq<char> {
    if devices.len() > 1 {
        "Detected GPUs     :\n"@ + text::framed(device_lines(devices), "  "@, "\n"@)
    } else {
        Seq::empty()
    }
}

/// The warning about a Linux image in a Windows container.
pub open spec fn image_warning(plan: PlanView, image: Option<Seq<char>>) -> Option<Seq<char>> {
    if plan.engine == Engine::WindowsContainer && image is None
        && plan.resolved.windows_image is None {
        Some(
            "stack `"@ + plan.resolved.stack
                + "` has no Windows-based image; set one with --image"@,
        )
    } else {
        None
    }
}

/// The section on the rule's notes.
pub open spec fn notes_section(notes: Option<Seq<char>>) -> Seq<char> {
    match notes {
        Some(notes) => "Notes             :\n"@ + text::framed(
            text::lines(text::trim(notes)),
            "  "@,
            "\n"@,
        ),
        None => Seq::empty(),
    }
}

/// How Podman runs, where it is the engine: rootless unless root runs it.
pub open spec fn podman_mode(engine: Engine, user: IdentityView) -> Option<Seq<char>> {
    if engine == Engine::Podman {
        if user.uid == 0 {
            Some("rootful"@)
        } else {
            Some("rootless"@)
        }
    } else {
        None
    }
}

/// What the report says about the hardware and the stack.
pub open spec fn stack_part(plan: PlanView, image: Option<Seq<char>>) -> Seq<char> {
    "gpubox doctor\n=============\n\nDetected hardware : "@ + probe::description(plan.class) + "\n"@
        + devices_section(plan.devices) + "Resolved stack    : "@ + plan.resolved.stack
        + "\nContainer image   : "@ + plan.spec.image + "\n"@ + text::optional_line(
        "Warning           : "@,
        image_warning(plan, image),
    ) + "Matched rule      : "@ + plan.resolved.rule_key + "\n"@ + notes_section(
        plan.resolved.notes,
    ) + text::section(
        "Quirk env vars    :\n"@,
        text::assignments(plan.spec.env),
        "  "@,
        "\n"@,
    )
}

/// What the report says about the backend.
pub open spec fn backend_part(
    plan: PlanView,
    platform: Platform,
    tools: Tools,
    identity: IdentityView,
) -> Seq<char> {
    "\nBackend           : "@ + backend::engine_name(plan.engine) + "\n  available       : "@ + (
    if backend::has_tool(plan.engine, tools) {
        "yes\n"@
    } else {
        "NO - not found on PATH\n"@
    }) + text::optional_line("Podman mode       : "@, podman_mode(plan.engine, identity)) + text::optional_line(
        "Device injection  : "@,
        plan.device_reason,
    ) + text::section(
        "\nOther backends available on this platform:\n"@,
        engine_lines(other_engines(plan.engine, platform), tools),
        "  "@,
        "\n"@,
    )
}

/// What the report says about overrides.
pub open spec fn overrides_part(plan: PlanView) -> Seq<char> {
    "\nOverrides:\n  --backend <name>       force a specific backend (docker, podman, seatbelt, windows-sandbox)\n  --image <ref>          use a custom image instead of "@
        + plan.resolved.image
        + "\n  --gfx-override <arch>  force a hardware classification (e.g. sm_86, gfx1100, arc, apple, vulkan, cpu)\n"@
}

/// The report on a plan.
pub open spec fn report_text(
    plan: PlanView,
    image: Option<Seq<char>>,
    host: HostView,
) -> Seq<char> {
    stack_part(plan, image) + backend_part(plan, host.platform, host.tools, host.env.identity)
        + overrides_part(plan)
}

fn render_devices(devices: &Vec<GpuDevice>) -> (r: String)
    ensures
        r@ == devices_section(devices.deep_view()),
{
    assert(devices.deep_view().len() == devices@.len());
    if devices.len() > 1 {
        text::join2(
            "Detected GPUs     :\n",
            text::frame(&list_devices(devices), "  ", "\n").as_str(),
        )
    } else {
        text::empty()
    }
}

fn warn_about_image(plan: &Plan, image: &Option<String>) -> (r: Option<String>)
    ensures
        r.deep_view() == image_warning(plan.deep_view(), image.deep_view()),
{
    if plan.engine == Engine::WindowsContainer && image.is_none()
        && plan.resolved.windows_image.is_none() {
        Some(
            text::join3(
                "stack `",
                plan.resolved.stack.as_str(),
                "` has no Windows-based image; set one with --image",
            ),
        )
    } else {
        None
    }
}

fn render_notes(notes: &Option<String>) -> (r: String)
    ensures
        r@ == notes_section(notes.deep_view()),
{
    match notes {
        Some(notes) => {
            let trimmed = text::trimmed(notes.as_str());
            let lines = text::lines_of(trimmed.as_str());
            text::join2("Notes             :\n", text::frame(&lines, "  ", "\n").as_str())
        },
        None => text::empty(),
    }
}

fn mode_of_podman(engine: Engine, user: &Identity) -> (r: Option<String>)
    ensures
        r.deep_view() == podman_mode(engine, user.deep_view()),
{
    if engine == Engine::Podman {
        if user.uid == 0 {
            return Some("rootful".to_string());
        }
        return Some("rootless".to_string());
    }
    None
}

fn render_stack_part(plan: &Plan, image: &Option<String>) -> (r: String)
    ensures
        r@ == stack_part(plan.deep_view(), image.deep_view()),
{
    let mut r = "gpubox doctor\n=============\n\nDetected hardware : ".to_string();
    r.append(plan.class.describe().as_str());
    r.append("\n");
    r.append(render_devices(&plan.devices).as_str());
    r.append("Resolved stack    : ");
    r.append(plan.resolved.stack.as_str());
    r.append("\nContainer image   : ");
    r.append(plan.spec.image.as_str());
    r.append("\n");
    let warning = warn_about_image(plan, image);
    r.append(text::render_optional("Warning           : ", &warning).as_str());
    r.append("Matched rule      : ");
    r.append(plan.resolved.rule_key.as_str());
    r.append("\n");
    r.append(render_notes(&plan.resolved.notes).as_str());
    let env = text::assign(&plan.spec.env);
    r.append(text::render_section("Quirk env vars    :\n", &env, "  ", "\n").as_str());
    r
}

fn render_backend_part(plan: &Plan, host: &Host) -> (r: String)
    ensures
        r@ == backend_part(
            plan.deep_view(),
            host.platform,
            host.tools,
            host.env.identity.deep_view(),
        ),
{
    let mut r = text::join3(
        "\nBackend           : ",
        plan.engine.name(),
        "\n  available       : ",
    );
    if plan.engine.is_available(&host.tools) {
        r.append("yes\n");
    } else {
        r.append("NO - not found on PATH\n");
    }
    let mode = mode_of_podman(plan.engine, &host.env.identity);
    r.append(text::render_optional("Podman mode       : ", &mode).as_str());
    r.append(text::render_optional("Device injection  : ", &plan.device_reason).as_str());
    let engines = list_other_engines(plan.engine, host.platform);
    let others = list_engine_lines(&engines, &host.tools);
    r.append(
        text::render_section(
            "\nOther backends available on this platform:\n",
            &others,
            "  ",
            "\n",
        ).as_str(),
    );
    r
}

/// Explains a plan: what was detected, what was chosen, and how to override
/// it. `image` is the `--image` it was made with.
pub fn render_report(plan: &Plan, image: &Option<String>, host: &Host) -> (r: String)
    ensures
        r@ == report_text(plan.deep_view(), image.deep_view(), host.deep_view()),
{
    let overrides = text::join3(
        "\nOverrides:\n  --backend <name>       force a specific backend (docker, podman, seatbelt, windows-sandbox)\n  --image <ref>          use a custom image instead of ",
        plan.resolved.image.as_str(),
        "\n  --gfx-override <arch>  force a hardware classification (e.g. sm_86, gfx1100, arc, apple, vulkan, cpu)\n",
    );
    text::join3(
        render_stack_part(plan, image).as_str(),
        render_backend_part(plan, host).as_str(),
        overrides.as_str(),
    )
}

/// A line that a text has, it has with any end.
proof fn keep(text: Seq<char>, more: Seq<char>, lines: Set<Seq<char>>)
    requires
        forall|line: Seq<char>| lines.contains(line) ==> text::has_line(text, line),
    ensures
        forall|line: Seq<char>| lines.contains(line) ==> text::has_line(text + more, line),
{
    assert forall|line: Seq<char>| lines.contains(line) implies text::has_line(
        text + more,
        line,
    ) by {
        text::lemma_line_stays(text, more, line);
    }
}

/// The variables of a plan as the report shows them.
pub open spec fn is_env_line(plan: PlanView, line: Seq<char>) -> bool {
    exists|i: int|
        0 <= i < plan.spec.env.len() && line == "  "@ + (#[trigger] plan.spec.env[i]).0 + "="@
            + plan.spec.env[i].1
}

proof fn lemma_detected_line(class: Seq<char>)
    ensures
        text::has_line(
            "gpubox doctor\n=============\n\nDetected hardware : "@ + class + "\n"@,
            "Detected hardware : "@ + class,
        ),
        text::ends_lines("gpubox doctor\n=============\n\nDetected hardware : "@ + class + "\n"@),
{
    reveal_strlit("\n");
    reveal_strlit("gpubox doctor\n=============\n\nDetected hardware : ");
    reveal_strlit("gpubox doctor\n=============\n\n");
    reveal_strlit("Detected hardware : ");
    let head = "gpubox doctor\n=============\n\n"@;
    assert("gpubox doctor\n=============\n\nDetected hardware : "@ =~= head
        + "Detected hardware : "@);
    text::lemma_labelled_line(head, "Detected hardware : "@, class, "\n"@);
}

proof fn lemma_choice_lines(before: Seq<char>, stack: Seq<char>, image: Seq<char>)
    requires
        text::ends_lines(before),
    ensures
        text::has_line(
            before + "Resolved stack    : "@ + stack + "\nContainer image   : "@ + image + "\n"@,
            "Resolved stack    : "@ + stack,
        ),
        text::has_line(
            before + "Resolved stack    : "@ + stack + "\nContainer image   : "@ + image + "\n"@,
            "Container image   : "@ + image,
        ),
        text::ends_lines(
            before + "Resolved stack    : "@ + stack + "\nContainer image   : "@ + image + "\n"@,
        ),
{
    reveal_strlit("\n");
    reveal_strlit("\nContainer image   : ");
    reveal_strlit("Container image   : ");
    let line = "Resolved stack    : "@ + stack;
    let first = before + "Resolved stack    : "@ + stack;
    let upper = first + "\nContainer image   : "@;
    text::lemma_labelled_line(
        before,
        "Resolved stack    : "@,
        stack,
        "\nContainer image   : "@,
    );
    text::lemma_line_stays(upper, image, line);
    text::lemma_line_stays(upper + image, "\n"@, line);
    assert("\nContainer image   : "@ =~= "\n"@ + "Container image   : "@);
    assert(upper =~= first + "\n"@ + "Container image   : "@);
    text::lemma_labelled_line(first + "\n"@, "Container image   : "@, image, "\n"@);
}

proof fn lemma_rule_line(before: Seq<char>, rule: Seq<char>)
    requires
        text::ends_lines(before),
    ensures
        text::has_line(
            before + "Matched rule      : "@ + rule + "\n"@,
            "Matched rule      : "@ + rule,
        ),
        text::ends_lines(before + "Matched rule      : "@ + rule + "\n"@),
{
    reveal_strlit("\n");
    text::lemma_labelled_line(before, "Matched rule      : "@, rule, "\n"@);
}

proof fn lemma_ends(before: Seq<char>, more: Seq<char>)
    requires
        text::ends_lines(before),
        text::ends_lines(more),
    ensures
        text::ends_lines(before + more),
{
    if more.len() > 0 {
        assert((before + more).last() == more.last());
    } else {
        assert(before + more =~= before);
    }
}

proof fn lemma_optional_parts(plan: PlanView, image: Option<Seq<char>>)
    ensures
        text::ends_lines(devices_section(plan.devices)),
        text::ends_lines(
            text::optional_line("Warning           : "@, image_warning(plan, image)),
        ),
        text::ends_lines(notes_section(plan.resolved.notes)),
        text::ends_lines("Quirk env vars    :\n"@),
{
    reveal_strlit("\n");
    reveal_strlit("Detected GPUs     :\n");
    reveal_strlit("Notes             :\n");
    reveal_strlit("Quirk env vars    :\n");
    text::lemma_framed_lines(device_lines(plan.devices), "  "@);
    lemma_ends(
        "Detected GPUs     :\n"@,
        text::framed(device_lines(plan.devices), "  "@, "\n"@),
    );
    if let Some(notes) = plan.resolved.notes {
        let lines = text::lines(text::trim(notes));
        text::lemma_framed_lines(lines, "  "@);
        lemma_ends("Notes             :\n"@, text::framed(lines, "  "@, "\n"@));
    }
}

proof fn lemma_stack_lines(plan: PlanView, image: Option<Seq<char>>)
    ensures
        text::ends_lines(stack_part(plan, image)),
        text::has_line(
            stack_part(plan, image),
            "Detected hardware : "@ + probe::description(plan.class),
        ),
        text::has_line(
            stack_part(plan, image),
            "Resolved stack    : "@ + plan.resolved.stack,
        ),
        text::has_line(stack_part(plan, image), "Container image   : "@ + plan.spec.image),
        text::has_line(stack_part(plan, image), "Matched rule      : "@ + plan.resolved.rule_key),
        forall|line: Seq<char>| #[trigger]
            is_env_line(plan, line) ==> text::has_line(stack_part(plan, image), line),
{
    let class = probe::description(plan.class);
    let devices = devices_section(plan.devices);
    let warning = text::optional_line("Warning           : "@, image_warning(plan, image));
    let notes = notes_section(plan.resolved.notes);
    let items = text::assignments(plan.spec.env);
    let env = text::section("Quirk env vars    :\n"@, items, "  "@, "\n"@);
    lemma_optional_parts(plan, image);
    let t1 = "gpubox doctor\n=============\n\nDetected hardware : "@ + class + "\n"@;
    lemma_detected_line(class);
    let t2 = t1 + devices;
    lemma_ends(t1, devices);
    let t3 = t2 + "Resolved stack    : "@ + plan.resolved.stack + "\nContainer image   : "@
        + plan.spec.image + "\n"@;
    lemma_choice_lines(t2, plan.resolved.stack, plan.spec.image);
    let t4 = t3 + warning;
    lemma_ends(t3, warning);
    let t5 = t4 + "Matched rule      : "@ + plan.resolved.rule_key + "\n"@;
    lemma_rule_line(t4, plan.resolved.rule_key);
    let t6 = t5 + notes;
    lemma_ends(t5, notes);
    text::lemma_section_lines("Quirk env vars    :\n"@, items, "  "@);
    lemma_ends(t6, env);
    assert(stack_part(plan, image) == t6 + env);
    let detected = set!["Detected hardware : "@ + class];
    keep(t1, devices, detected);
    keep(t2, "Resolved stack    : "@, detected);
    keep(t2 + "Resolved stack    : "@, plan.resolved.stack, detected);
    keep(
        t2 + "Resolved stack    : "@ + plan.resolved.stack,
        "\nContainer image   : "@,
        detected,
    );
    keep(
        t2 + "Resolved stack    : "@ + plan.resolved.stack + "\nContainer image   : "@,
        plan.spec.image,
        detected,
    );
    keep(
        t2 + "Resolved stack    : "@ + plan.resolved.stack + "\nContainer image   : "@
            + plan.spec.image,
        "\n"@,
        detected,
    );
    let chosen = detected.insert("Resolved stack    : "@ + plan.resolved.stack).insert(
        "Container image   : "@ + plan.spec.image,
    );
    assert(detected.contains("Detected hardware : "@ + class));
    keep(t3, warning, chosen);
    keep(t4, "Matched rule      : "@, chosen);
    keep(t4 + "Matched rule      : "@, plan.resolved.rule_key, chosen);
    keep(t4 + "Matched rule      : "@ + plan.resolved.rule_key, "\n"@, chosen);
    let matched = chosen.insert("Matched rule      : "@ + plan.resolved.rule_key);
    keep(t5, notes, matched);
    keep(t6, env, matched);
    assert(matched.contains("Detected hardware : "@ + class));
    assert(matched.contains("Resolved stack    : "@ + plan.resolved.stack));
    assert(matched.contains("Container image   : "@ + plan.spec.image));
    assert(matched.contains("Matched rule      : "@ + plan.resolved.rule_key));
    assert forall|line: Seq<char>| #[trigger] is_env_line(plan, line) implies text::has_line(
        stack_part(plan, image),
        line,
    ) by {
        let i = choose|i: int|
            0 <= i < plan.spec.env.len() && line == "  "@ + (#[trigger] plan.spec.env[i]).0 + "="@
                + plan.spec.env[i].1;
        assert(line =~= "  "@ + items[i]);
        text::lemma_line_follows(t6, env, line);
    }
}

/// What stands at the beginning of the report's part on the backend.
pub open spec fn backend_lines(engine: Engine, available: bool) -> Seq<char> {
    "\nBackend           : "@ + backend::engine_name(engine) + "\n  available       : "@ + (
    if available {
        "yes\n"@
    } else {
        "NO - not found on PATH\n"@
    })
}

proof fn lemma_backend_lines(
    plan: PlanView,
    platform: Platform,
    tools: Tools,
    identity: IdentityView,
)
    ensures
        text::has_line(
            backend_part(plan, platform, tools, identity),
            "Backend           : "@ + backend::engine_name(plan.engine),
        ),
        backend::has_tool(plan.engine, tools) ==> text::has_line(
            backend_part(plan, platform, tools, identity),
            "  available       : yes"@,
        ),
        !backend::has_tool(plan.engine, tools) ==> text::has_line(
            backend_part(plan, platform, tools, identity),
            "  available       : NO - not found on PATH"@,
        ),
        text::has_prefix(
            backend_part(plan, platform, tools, identity),
            backend_lines(plan.engine, backend::has_tool(plan.engine, tools)),
        ),
{
    reveal_strlit("\n");
    reveal_strlit("\nBackend           : ");
    reveal_strlit("Backend           : ");
    reveal_strlit("\n  available       : ");
    reveal_strlit("  available       : ");
    reveal_strlit("yes\n");
    reveal_strlit("yes");
    reveal_strlit("NO - not found on PATH\n");
    reveal_strlit("NO - not found on PATH");
    reveal_strlit("  available       : yes");
    reveal_strlit("  available       : NO - not found on PATH");
    let name = backend::engine_name(plan.engine);
    let available = backend::has_tool(plan.engine, tools);
    let said = if available {
        "yes"@
    } else {
        "NO - not found on PATH"@
    };
    let first = "\nBackend           : "@ + name + "\n  available       : "@;
    assert(first =~= "\n"@ + "Backend           : "@ + name + "\n  available       : "@);
    text::lemma_labelled_line("\n"@, "Backend           : "@, name, "\n  available       : "@);
    let both = backend_lines(plan.engine, available);
    let tail = if available {
        "yes\n"@
    } else {
        "NO - not found on PATH\n"@
    };
    assert(tail =~= said + "\n"@);
    text::lemma_line_stays(first, tail, "Backend           : "@ + name);
    let above = "\nBackend           : "@ + name + "\n"@;
    assert(both =~= above + "  available       : "@ + said + "\n"@);
    text::lemma_labelled_line(above, "  available       : "@, said, "\n"@);
    assert("  available       : "@ + "yes"@ =~= "  available       : yes"@);
    assert("  available       : "@ + "NO - not found on PATH"@
        =~= "  available       : NO - not found on PATH"@);
    let mode = text::optional_line("Podman mode       : "@, podman_mode(plan.engine, identity));
    let injection = text::optional_line("Device injection  : "@, plan.device_reason);
    let others = text::section(
        "\nOther backends available on this platform:\n"@,
        engine_lines(other_engines(plan.engine, platform), tools),
        "  "@,
        "\n"@,
    );
    let whole = backend_part(plan, platform, tools, identity);
    assert(whole == both + mode + injection + others);
    let lines = set!["Backend           : "@ + name, "  available       : "@ + said];
    keep(both, mode, lines);
    keep(both + mode, injection, lines);
    keep(both + mode + injection, others, lines);
    assert(lines.contains("Backend           : "@ + name) && lines.contains(
        "  available       : "@ + said,
    ));
    assert(whole.subrange(0, both.len() as int) =~= both);
}

/// The report shows what was found, which rule matched and what was chosen:
/// each has its line, and so has every variable of the launch. Right after the
/// part on the stack it says whether the engine is available, and says yes
/// exactly if its tool is there.
pub proof fn law_report_shows_the_plan(plan: PlanView, image: Option<Seq<char>>, host: HostView)
    ensures
        text::has_line(
            report_text(plan, image, host),
            "Detected hardware : "@ + probe::description(plan.class),
        ),
        text::has_line(
            report_text(plan, image, host),
            "Resolved stack    : "@ + plan.resolved.stack,
        ),
        text::has_line(report_text(plan, image, host), "Container image   : "@ + plan.spec.image),
        text::has_line(
            report_text(plan, image, host),
            "Matched rule      : "@ + plan.resolved.rule_key,
        ),
        text::has_line(
            report_text(plan, image, host),
            "Backend           : "@ + backend::engine_name(plan.engine),
        ),
        forall|i: int|
            0 <= i < plan.spec.env.len() ==> text::has_line(
                report_text(plan, image, host),
                "  "@ + (#[trigger] plan.spec.env[i]).0 + "="@ + plan.spec.env[i].1,
            ),
        backend::has_tool(plan.engine, host.tools) ==> text::has_line(
            report_text(plan, image, host),
            "  available       : yes"@,
        ),
        !backend::has_tool(plan.engine, host.tools) ==> text::has_line(
            report_text(plan, image, host),
            "  available       : NO - not found on PATH"@,
        ),
        text::occurs_at(
            report_text(plan, image, host),
            backend_lines(plan.engine, true),
            stack_part(plan, image).len() as int,
        ) <==> backend::has_tool(plan.engine, host.tools),
{
    let first = stack_part(plan, image);
    let second = backend_part(plan, host.platform, host.tools, host.env.identity);
    let third = overrides_part(plan);
    let whole = report_text(plan, image, host);
    let available = backend::has_tool(plan.engine, host.tools);
    lemma_stack_lines(plan, image);
    lemma_backend_lines(plan, host.platform, host.tools, host.env.identity);
    let detected = "Detected hardware : "@ + probe::description(plan.class);
    let stack = "Resolved stack    : "@ + plan.resolved.stack;
    let image_line = "Container image   : "@ + plan.spec.image;
    let rule = "Matched rule      : "@ + plan.resolved.rule_key;
    let engine = "Backend           : "@ + backend::engine_name(plan.engine);
    let availability = if available {
        "  available       : yes"@
    } else {
        "  available       : NO - not found on PATH"@
    };
    let upper = set![detected, stack, image_line, rule];
    keep(first, second, upper);
    text::lemma_line_follows(first, second, engine);
    text::lemma_line_follows(first, second, availability);
    let all = upper.insert(engine).insert(availability);
    keep(first + second, third, all);
    assert(all.contains(detected) && all.contains(stack) && all.contains(image_line)
        && all.contains(rule) && all.contains(engine) && all.contains(availability));
    assert forall|i: int| 0 <= i < plan.spec.env.len() implies text::has_line(
        whole,
        "  "@ + (#[trigger] plan.spec.env[i]).0 + "="@ + plan.spec.env[i].1,
    ) by {
        let line = "  "@ + plan.spec.env[i].0 + "="@ + plan.spec.env[i].1;
        assert(is_env_line(plan, line));
        text::lemma_line_stays(first, second, line);
        text::lemma_line_stays(first + second, third, line);
    }
    let at = first.len() as int;
    let said = backend_lines(plan.engine, available);
    assert(whole.subrange(at, at + said.len()) =~= second.subrange(0, said.len() as int));
    if !available {
        reveal_strlit("yes\n");
        reveal_strlit("NO - not found on PATH\n");
        let yes = backend_lines(plan.engine, true);
        let n = yes.len() - 4;
        assert(yes[n] == 'y');
        assert(said[n] == 'N');
        if text::occurs_at(whole, yes, at) {
            assert(whole.subrange(at, at + yes.len())[n] == 'y');
            assert(whole[at + n] == 'y');
            assert(whole.subrange(at, at + said.len())[n] == 'N');
        }
    }
}

/// There is a report exactly if there is a plan, and it is the report on that
/// plan.
pub proof fn law_report_is_on_the_plan(
    ids: PciIdsView,
    quirks: QuirksDbView,
    host: HostView,
    overrides: OverridesView,
)
    ensures
        doctor_report(ids, quirks, host, overrides) is Ok <==> launch::launch_plan(
            ids,
            quirks,
            host,
            overrides,
            Seq::empty(),
            true,
        ) is Ok,
        doctor_report(ids, quirks, host, overrides) is Ok <==> doctor_object(
            ids,
            quirks,
            host,
            overrides,
        ) is Ok,
        launch::launch_plan(ids, quirks, host, overrides, Seq::empty(), true) matches Ok(plan)
            ==> doctor_report(ids, quirks, host, overrides) == Ok::<Seq<char>, PlanErrorView>(
            report_text(plan, overrides.image, host),
        ),
{
}

/// The report on a host, or why there is none.
pub open spec fn doctor_report(
    ids: PciIdsView,
    quirks: QuirksDbView,
    host: HostView,
    overrides: OverridesView,
) -> Result<Seq<char>, PlanErrorView> {
    match launch::launch_plan(ids, quirks, host, overrides, Seq::empty(), true) {
        Ok(plan) => Ok(report_text(plan, overrides.image, host)),
        Err(e) => Err(e),
    }
}

/// Plans a launch on the host and explains it.
pub fn report(ids: &PciIds, quirks: &QuirksDb, host: &Host, overrides: &Overrides) -> (r: Result<
    String,
    PlanError,
>)
    ensures
        match r {
            Ok(text) => doctor_report(
                ids.deep_view(),
                quirks.deep_view(),
                host.deep_view(),
                overrides.deep_view(),
            ) == Ok::<Seq<char>, PlanErrorView>(text@),
            Err(e) => doctor_report(
                ids.deep_view(),
                quirks.deep_view(),
                host.deep_view(),
                overrides.deep_view(),
            ) == Err::<Seq<char>, PlanErrorView>(e.deep_view()),
        },
{
    match launch::plan(ids, quirks, host, overrides, text::no_strings(), true) {
        Ok(plan) => Ok(render_report(&plan, &overrides.image, host)),
        Err(e) => Err(e),
    }
}

/// An optional JSON string, `null` if there is none.
pub open spec fn json_or_null(value: Option<Seq<char>>) -> Seq<char> {
    match value {
        Some(value) => json::json_string(value),
        None => "null"@,
    }
}

fn to_json_or_null(value: &Option<String>) -> (r: String)
    ensures
        r@ == json_or_null(value.deep_view()),
{
    match value {
        Some(value) => json::to_json_string(value.as_str()),
        None => "null".to_string(),
    }
}

/// A truth value in JSON.
pub open spec fn json_bool(value: bool) -> Seq<char> {
    if value {
        "true"@
    } else {
        "false"@
    }
}

fn to_json_bool(value: bool) -> (r: &'static str)
    ensures
        r@ == json_bool(value),
{
    if value {
        "true"
    } else {
        "false"
    }
}

/// A GPU in the structured report: what it is and where it is.
pub open spec fn device_entry(device: GpuDeviceView) -> Seq<char> {
    "{\"class\": "@ + json::json_string(probe::description(device.class)) + ", \"node\": "@
        + json_or_null(device.node) + "}"@
}

/// The GPUs in the structured report.
pub open spec fn device_entries(devices: Seq<GpuDeviceView>) -> Seq<Seq<char>> {
    Seq::new(devices.len(), |i: int| device_entry(devices[i]))
}

fn list_device_entries(devices: &Vec<GpuDevice>) -> (r: Vec<String>)
    ensures
        r.deep_view() == device_entries(devices.deep_view()),
{
    let ghost expected = device_entries(devices.deep_view());
    let mut r = text::no_strings();
    let mut i: usize = 0;
    assert(expected.take(0) =~= Seq::empty());
    while i < devices.len()
        invariant
            expected == device_entries(devices.deep_view()),
            i <= devices@.len(),
            r.deep_view() == expected.take(i as int),
        decreases devices@.len() - i,
    {
        let device = &devices[i];
        let mut entry = text::join3(
            "{\"class\": ",
            json::to_json_string(device.class.describe().as_str()).as_str(),
            ", \"node\": ",
        );
        entry.append(to_json_or_null(&device.node).as_str());
        entry.append("}");
        text::push_string(&mut r, entry);
        assert(expected[i as int] == device_entry(device.deep_view()));
        assert(expected.take(i + 1) =~= expected.take(i as int).push(expected[i as int]));
        i += 1;
    }
    assert(expected.take(i as int) =~= expected);
    r
}

/// An engine that was not chosen in the structured report.
pub open spec fn engine_entry(engine: Engine, tools: Tools) -> Seq<char> {
    "{\"name\": "@ + json::json_string(backend::engine_name(engine)) + ", \"available\": "@
        + json_bool(backend::has_tool(engine, tools)) + "}"@
}

/// The engines that were not chosen in the structured report.
pub open spec fn engine_entries(engines: Seq<Engine>, tools: Tools) -> Seq<Seq<char>> {
    Seq::new(engines.len(), |i: int| engine_entry(engines[i], tools))
}

fn list_engine_entries(engines: &Vec<Engine>, tools: &Tools) -> (r: Vec<String>)
    ensures
        r.deep_view() == engine_entries(engines@, *tools),
{
    let ghost expected = engine_entries(engines@, *tools);
    let mut r = text::no_strings();
    let mut i: usize = 0;
    assert(expected.take(0) =~= Seq::empty());
    while i < engines.len()
        invariant
            expected == engine_entries(engines@, *tools),
            i <= engines@.len(),
            r.deep_view() == expected.take(i as int),
        decreases engines@.len() - i,
    {
        let engine = engines[i];
        let mut entry = text::join3(
            "{\"name\": ",
            json::to_json_string(engine.name()).as_str(),
            ", \"available\": ",
        );
        entry.append(to_json_bool(engine.is_available(tools)));
        entry.append("}");
        text::push_string(&mut r, entry);
        assert(expected[i as int] == engine_entry(engine, *tools));
        assert(expected.take(i + 1) =~= expected.take(i as int).push(expected[i as int]));
        i += 1;
    }
    assert(expected.take(i as int) =~= expected);
    r
}

/// The structured report on a plan: everything that [`report_text`] shows.
pub open spec fn report_object(plan: PlanView, image: Option<Seq<char>>, host: HostView) -> Seq<
    char,
> {
    "{\n  \"detected\": "@ + json::json_string(probe::description(plan.class))
        + ",\n  \"devices\": ["@ + text::joined(device_entries(plan.devices), ", "@)
        + "],\n  \"stack\": "@ + json::json_string(plan.resolved.stack) + ",\n  \"image\": "@
        + json::json_string(plan.spec.image) + ",\n  \"default_image\": "@ + json::json_string(
        plan.resolved.image,
    ) + ",\n  \"warning\": "@ + json_or_null(image_warning(plan, image)) + ",\n  \"rule\": "@
        + json::json_string(plan.resolved.rule_key) + ",\n  \"notes\": "@ + json_or_null(
        plan.resolved.notes,
    ) + ",\n  \"env\": "@ + json::json_object(plan.spec.env) + ",\n  \"backend\": "@
        + json::json_string(backend::engine_name(plan.engine)) + ",\n  \"available\": "@
        + json_bool(backend::has_tool(plan.engine, host.tools)) + ",\n  \"podman_mode\": "@
        + json_or_null(podman_mode(plan.engine, host.env.identity))
        + ",\n  \"device_injection\": "@ + json_or_null(plan.device_reason)
        + ",\n  \"other_backends\": ["@ + text::joined(
        engine_entries(other_engines(plan.engine, host.platform), host.tools),
        ", "@,
    ) + "]\n}"@
}

/// Explains a plan in a form for scripts. `image` is the `--image` it was made
/// with.
pub fn render_report_json(plan: &Plan, image: &Option<String>, host: &Host) -> (r: String)
    ensures
        r@ == report_object(plan.deep_view(), image.deep_view(), host.deep_view()),
{
    let mut r = "{\n  \"detected\": ".to_string();
    r.append(json::to_json_string(plan.class.describe().as_str()).as_str());
    r.append(",\n  \"devices\": [");
    r.append(text::join(&list_device_entries(&plan.devices), ", ").as_str());
    r.append("],\n  \"stack\": ");
    r.append(json::to_json_string(plan.resolved.stack.as_str()).as_str());
    r.append(",\n  \"image\": ");
    r.append(json::to_json_string(plan.spec.image.as_str()).as_str());
    r.append(",\n  \"default_image\": ");
    r.append(json::to_json_string(plan.resolved.image.as_str()).as_str());
    r.append(",\n  \"warning\": ");
    r.append(to_json_or_null(&warn_about_image(plan, image)).as_str());
    r.append(",\n  \"rule\": ");
    r.append(json::to_json_string(plan.resolved.rule_key.as_str()).as_str());
    r.append(",\n  \"notes\": ");
    r.append(to_json_or_null(&plan.resolved.notes).as_str());
    r.append(",\n  \"env\": ");
    r.append(json::to_json_object(&plan.spec.env).as_str());
    r.append(",\n  \"backend\": ");
    r.append(json::to_json_string(plan.engine.name()).as_str());
    r.append(",\n  \"available\": ");
    r.append(to_json_bool(plan.engine.is_available(&host.tools)));
    r.append(",\n  \"podman_mode\": ");
    r.append(to_json_or_null(&mode_of_podman(plan.engine, &host.env.identity)).as_str());
    r.append(",\n  \"device_injection\": ");
    r.append(to_json_or_null(&plan.device_reason).as_str());
    r.append(",\n  \"other_backends\": [");
    let engines = list_other_engines(plan.engine, host.platform);
    r.append(text::join(&list_engine_entries(&engines, &host.tools), ", ").as_str());
    r.append("]\n}");
    r
}

/// The structured report on a host, or why there is none.
pub open spec fn doctor_object(
    ids: PciIdsView,
    quirks: QuirksDbView,
    host: HostView,
    overrides: OverridesView,
) -> Result<Seq<char>, PlanErrorView> {
    match launch::launch_plan(ids, quirks, host, overrides, Seq::empty(), true) {
        Ok(plan) => Ok(report_object(plan, overrides.image, host)),
        Err(e) => Err(e),
    }
}

/// Plans a launch on the host and explains it in a form for scripts.
pub fn report_json(ids: &PciIds, quirks: &QuirksDb, host: &Host, overrides: &Overrides) -> (r:
    Result<String, PlanError>)
    ensures
        match r {
            Ok(text) => doctor_object(
                ids.deep_view(),
                quirks.deep_view(),
                host.deep_view(),
                overrides.deep_view(),
            ) == Ok::<Seq<char>, PlanErrorView>(text@),
            Err(e) => doctor_object(
                ids.deep_view(),
                quirks.deep_view(),
                host.deep_view(),
                overrides.deep_view(),
            ) == Err::<Seq<char>, PlanErrorView>(e.deep_view()),
        },
{
    match launch::plan(ids, quirks, host, overrides, text::no_strings(), true) {
        Ok(plan) => Ok(render_report_json(&plan, &overrides.image, host)),
        Err(e) => Err(e),
    }
}

/// A PCI id in JSON.
pub open spec fn json_id(id: Option<u16>) -> Seq<char> {
    match id {
        Some(id) => json::json_string(pciids::id_key(id)),
        None => "null"@,
    }
}

fn to_json_id(id: Option<u16>) -> (r: String)
    ensures
        r@ == json_id(id),
{
    match id {
        Some(id) => json::to_json_string(pciids::key(id).as_str()),
        None => "null".to_string(),
    }
}

/// What is told of a GPU in a bug report: its ids and its classification.
pub open spec fn snapshot_entry(device: GpuDeviceView) -> Seq<char> {
    "{\"vendor\": "@ + json_id(device.vendor_id) + ", \"device\": "@ + json_id(device.device_id)
        + ", \"class\": "@ + json::json_string(probe::description(device.class)) + "}"@
}

/// What is told of several GPUs.
pub open spec fn snapshot_entries(devices: Seq<GpuDeviceView>) -> Seq<Seq<char>> {
    Seq::new(devices.len(), |i: int| snapshot_entry(devices[i]))
}

/// The hardware-probe snapshot for a bug report.
pub open spec fn snapshot(devices: Seq<GpuDeviceView>) -> Seq<char> {
    "["@ + text::joined(snapshot_entries(devices), ", "@) + "]"@
}

fn render_snapshot(devices: &Vec<GpuDevice>) -> (r: String)
    ensures
        r@ == snapshot(devices.deep_view()),
{
    let ghost expected = snapshot_entries(devices.deep_view());
    let mut entries = text::no_strings();
    let mut i: usize = 0;
    assert(expected.take(0) =~= Seq::empty());
    while i < devices.len()
        invariant
            expected == snapshot_entries(devices.deep_view()),
            i <= devices@.len(),
            entries.deep_view() == expected.take(i as int),
        decreases devices@.len() - i,
    {
        let device = &devices[i];
        let mut entry = text::join3(
            "{\"vendor\": ",
            to_json_id(device.vendor_id).as_str(),
            ", \"device\": ",
        );
        entry.append(to_json_id(device.device_id).as_str());
        entry.append(", \"class\": ");
        entry.append(json::to_json_string(device.class.describe().as_str()).as_str());
        entry.append("}");
        text::push_string(&mut entries, entry);
        assert(expected[i as int] == snapshot_entry(device.deep_view()));
        assert(expected.take(i + 1) =~= expected.take(i as int).push(expected[i as int]));
        i += 1;
    }
    assert(expected.take(i as int) =~= expected);
    text::join3("[", text::join(&entries, ", ").as_str(), "]")
}

/// An anonymized hardware-probe snapshot (no paths, no usernames) suitable
/// for pasting into a bug report.
pub fn probe_snapshot_json(ids: &PciIds, raw: &RawProbe) -> (r: String)
    ensures
        r@ == snapshot(probe::host_devices(ids.deep_view(), raw.deep_view())),
{
    render_snapshot(&probe::probe_host(ids, raw))
}

/// The snapshot tells nothing of where a GPU was found: GPUs that differ only
/// in their node have the same snapshot.
pub proof fn law_snapshot_is_anonymous(a: Seq<GpuDeviceView>, b: Seq<GpuDeviceView>)
    requires
        a.len() == b.len(),
        forall|i: int|
            0 <= i < a.len() ==> (#[trigger] a[i]).class == b[i].class && a[i].vendor_id
                == b[i].vendor_id && a[i].device_id == b[i].device_id,
    ensures
        snapshot(a) == snapshot(b),
{
    assert(snapshot_entries(a) =~= snapshot_entries(b));
}

/// Which engines belong to which platform.
pub proof fn law_engines_of_platforms(engine: Engine, platform: Platform)
    ensures
        belongs_to(engine, Platform::Linux) <==> engine == Engine::Docker || engine
            == Engine::Podman,
        belongs_to(engine, Platform::MacOs) <==> engine == Engine::Seatbelt,
        belongs_to(engine, Platform::Windows) <==> engine == Engine::WindowsSandbox || engine
            == Engine::WindowsContainer,
        !belongs_to(engine, Platform::Other),
{
}

proof fn lemma_others_among(engines: Seq<Engine>, chosen: Engine, platform: Platform, e: Engine)
    ensures
        others_among(engines, chosen, platform).contains(e) <==> engines.contains(e) && e != chosen
            && belongs_to(e, platform),
    decreases engines.len(),
{
    if engines.len() > 0 {
        let front = engines.drop_last();
        lemma_others_among(front, chosen, platform, e);
        let before = others_among(front, chosen, platform);
        let all = others_among(engines, chosen, platform);
        if all.contains(e) {
            let k = all.index_of(e);
            if k < before.len() {
                assert(before[k] == e);
                assert(engines[front.index_of(e)] == e);
            } else {
                assert(engines[engines.len() - 1] == e);
            }
        }
        if engines.contains(e) && e != chosen && belongs_to(e, platform) {
            let k = engines.index_of(e);
            if k < front.len() {
                assert(front[k] == e);
                assert(all[before.index_of(e)] == e);
            } else {
                assert(all.last() == e);
            }
        }
    }
}

/// The other engines of a host are those of its platform but the chosen one:
/// all of them, and no others.
pub proof fn law_other_engines(chosen: Engine, platform: Platform, engine: Engine)
    ensures
        other_engines(chosen, platform).contains(engine) <==> engine != chosen && belongs_to(
            engine,
            platform,
        ),
{
    lemma_others_among(all_engines(), chosen, platform, engine);
    let all = all_engines();
    assert(all[0] == Engine::Docker && all[1] == Engine::Podman && all[2] == Engine::Seatbelt
        && all[3] == Engine::WindowsSandbox && all[4] == Engine::WindowsContainer);
    assert(all.contains(engine));
}

/// The user is warned exactly where a Windows container would have to run an
/// image that is not Windows-based: no image was asked for, and the stack has
/// none.
pub proof fn law_image_warnings(plan: PlanView, image: Option<Seq<char>>)
    ensures
        image_warning(plan, image) is Some <==> plan.engine == Engine::WindowsContainer && image
            is None && plan.resolved.windows_image is None,
        image_warning(plan, image) matches Some(warning) ==> warning == "stack `"@
            + plan.resolved.stack + "` has no Windows-based image; set one with --image"@,
{
}

/// Podman's mode is told, and no other engine's: rootful for root, and rootless
/// for anyone else.
pub proof fn law_podman_modes(engine: Engine, user: IdentityView)
    ensures
        engine != Engine::Podman ==> podman_mode(engine, user) is None,
        engine == Engine::Podman && user.uid == 0 ==> podman_mode(engine, user) == Some("rootful"@),
        engine == Engine::Podman && user.uid != 0 ==> podman_mode(engine, user) == Some(
            "rootless"@,
        ),
{
}

proof fn lemma_in_stack_part(plan: PlanView, image: Option<Seq<char>>, host: HostView, x: Seq<char>)
    requires
        text::occurs_in(stack_part(plan, image), x),
    ensures
        text::occurs_in(report_text(plan, image, host), x),
{
    let stack = stack_part(plan, image);
    let backend = backend_part(plan, host.platform, host.tools, host.env.identity);
    let none = Seq::<char>::empty();
    text::lemma_occurs_within(none, stack, backend + overrides_part(plan), x);
    assert(none + stack + (backend + overrides_part(plan)) =~= report_text(plan, image, host));
}

proof fn lemma_in_backend_part(
    plan: PlanView,
    image: Option<Seq<char>>,
    host: HostView,
    x: Seq<char>,
)
    requires
        text::occurs_in(backend_part(plan, host.platform, host.tools, host.env.identity), x),
    ensures
        text::occurs_in(report_text(plan, image, host), x),
{
    text::lemma_occurs_within(
        stack_part(plan, image),
        backend_part(plan, host.platform, host.tools, host.env.identity),
        overrides_part(plan),
        x,
    );
}

/// On a host with several GPUs the report lists each of them, with its index,
/// what it is, and where it is; with one GPU there is no list.
pub proof fn law_report_lists_the_gpus(
    plan: PlanView,
    image: Option<Seq<char>>,
    host: HostView,
    i: int,
    node: Seq<char>,
)
    ensures
        plan.devices.len() <= 1 ==> devices_section(plan.devices).len() == 0,
        plan.devices.len() > 1 && 0 <= i < plan.devices.len() && plan.devices[i].node == Some(node)
            ==> text::occurs_in(
            report_text(plan, image, host),
            "  "@ + (text::decimal(i as nat) + ": "@ + probe::description(plan.devices[i].class)
                + (" at "@ + node)) + "\n"@,
        ),
        plan.devices.len() > 1 && 0 <= i < plan.devices.len() && plan.devices[i].node is None
            ==> text::occurs_in(
            report_text(plan, image, host),
            "  "@ + (text::decimal(i as nat) + ": "@ + probe::description(plan.devices[i].class)
                + Seq::<char>::empty()) + "\n"@,
        ),
{
    if plan.devices.len() > 1 && 0 <= i < plan.devices.len() {
        let items = device_lines(plan.devices);
        let line = "  "@ + items[i] + "\n"@;
        text::lemma_framed_occurs(items, "  "@, "\n"@, i);
        let framed = text::framed(items, "  "@, "\n"@);
        let none = Seq::<char>::empty();
        text::lemma_occurs_within("Detected GPUs     :\n"@, framed, none, line);
        assert("Detected GPUs     :\n"@ + framed + none =~= devices_section(plan.devices));
        lemma_devices_in_stack_part(plan, image);
        lemma_section_in_stack_part(plan, image, line);
        lemma_in_stack_part(plan, image, host, line);
    }
}

proof fn lemma_section_in_stack_part(plan: PlanView, image: Option<Seq<char>>, x: Seq<char>)
    requires
        text::occurs_in(devices_section(plan.devices), x),
        stack_part(plan, image) == hardware_lines(plan) + devices_section(plan.devices)
            + stack_lines(plan, image),
    ensures
        text::occurs_in(stack_part(plan, image), x),
{
    text::lemma_occurs_within(
        hardware_lines(plan),
        devices_section(plan.devices),
        stack_lines(plan, image),
        x,
    );
}

spec fn hardware_lines(plan: PlanView) -> Seq<char> {
    "gpubox doctor\n=============\n\nDetected hardware : "@ + probe::description(plan.class) + "\n"@
}

spec fn stack_lines(plan: PlanView, image: Option<Seq<char>>) -> Seq<char> {
    "Resolved stack    : "@ + plan.resolved.stack + "\nContainer image   : "@ + plan.spec.image
        + "\n"@ + text::optional_line("Warning           : "@, image_warning(plan, image))
        + "Matched rule      : "@ + plan.resolved.rule_key + "\n"@ + notes_section(
        plan.resolved.notes,
    ) + text::section(
        "Quirk env vars    :\n"@,
        text::assignments(plan.spec.env),
        "  "@,
        "\n"@,
    )
}

#[verifier::spinoff_prover]
#[verifier::rlimit(40)]
proof fn lemma_devices_in_stack_part(plan: PlanView, image: Option<Seq<char>>)
    ensures
        stack_part(plan, image) == hardware_lines(plan) + devices_section(plan.devices)
            + stack_lines(plan, image),
{
    let before = hardware_lines(plan) + devices_section(plan.devices);
    let p1 = "Resolved stack    : "@;
    let s1 = plan.resolved.stack;
    let p2 = "\nContainer image   : "@;
    let s2 = plan.spec.image;
    let p3 = "\n"@;
    let s3 = text::optional_line("Warning           : "@, image_warning(plan, image));
    let p4 = "Matched rule      : "@;
    let s4 = plan.resolved.rule_key;
    let p5 = "\n"@;
    let s5 = notes_section(plan.resolved.notes);
    let s6 = text::section(
        "Quirk env vars    :\n"@,
        text::assignments(plan.spec.env),
        "  "@,
        "\n"@,
    );
    lemma_append(before, p1, s1);
    lemma_append(before, p1 + s1, p2);
    lemma_append(before, p1 + s1 + p2, s2);
    lemma_append(before, p1 + s1 + p2 + s2, p3);
    lemma_append(before, p1 + s1 + p2 + s2 + p3, s3);
    lemma_append(before, p1 + s1 + p2 + s2 + p3 + s3, p4);
    lemma_append(before, p1 + s1 + p2 + s2 + p3 + s3 + p4, s4);
    lemma_append(before, p1 + s1 + p2 + s2 + p3 + s3 + p4 + s4, p5);
    lemma_append(before, p1 + s1 + p2 + s2 + p3 + s3 + p4 + s4 + p5, s5);
    lemma_append(before, p1 + s1 + p2 + s2 + p3 + s3 + p4 + s4 + p5 + s5, s6);
}

/// The report passes on the warning about the image, and the notes of the rule,
/// line by line.
#[verifier::spinoff_prover]
#[verifier::rlimit(40)]
pub proof fn law_report_passes_on_warnings_and_notes(
    plan: PlanView,
    image: Option<Seq<char>>,
    host: HostView,
    i: int,
)
    ensures
        (image_warning(plan, image) matches Some(warning) ==> text::occurs_in(
            report_text(plan, image, host),
            "Warning           : "@ + warning + "\n"@,
        )),
        (plan.resolved.notes matches Some(notes) ==> 0 <= i < text::lines(text::trim(notes)).len()
            ==> text::occurs_in(
            report_text(plan, image, host),
            "  "@ + text::lines(text::trim(notes))[i] + "\n"@,
        )),
{
    let start = "gpubox doctor\n=============\n\nDetected hardware : "@ + probe::description(
        plan.class,
    ) + "\n"@ + devices_section(plan.devices) + "Resolved stack    : "@ + plan.resolved.stack
        + "\nContainer image   : "@ + plan.spec.image + "\n"@;
    let warning = text::optional_line("Warning           : "@, image_warning(plan, image));
    let rule = "Matched rule      : "@ + plan.resolved.rule_key + "\n"@;
    let notes = notes_section(plan.resolved.notes);
    let env = text::section(
        "Quirk env vars    :\n"@,
        text::assignments(plan.spec.env),
        "  "@,
        "\n"@,
    );
    assert(stack_part(plan, image) =~= start + warning + (rule + notes + env));
    text::law_parts_occur(start, warning, rule + notes + env);
    if image_warning(plan, image) is Some {
        lemma_in_stack_part(plan, image, host, warning);
    }
    if let Some(text) = plan.resolved.notes {
        let items = text::lines(text::trim(text));
        if 0 <= i < items.len() {
            let line = "  "@ + items[i] + "\n"@;
            text::lemma_framed_occurs(items, "  "@, "\n"@, i);
            let framed = text::framed(items, "  "@, "\n"@);
            let before = start + warning + rule + "Notes             :\n"@;
            text::lemma_occurs_within(before, framed, env, line);
            assert(stack_part(plan, image) =~= before + framed + env);
            lemma_in_stack_part(plan, image, host, line);
        }
    }
}

/// The report tells Podman's mode, how the GPU is handed over, which other
/// engines the platform has and whether each is there, and which image an
/// `--image` would replace.
#[verifier::spinoff_prover]
#[verifier::rlimit(40)]
pub proof fn law_report_tells_the_ways(
    plan: PlanView,
    image: Option<Seq<char>>,
    host: HostView,
    engine: Engine,
)
    ensures
        (podman_mode(plan.engine, host.env.identity) matches Some(mode) ==> text::occurs_in(
            report_text(plan, image, host),
            "Podman mode       : "@ + mode + "\n"@,
        )),
        (plan.device_reason matches Some(reason) ==> text::occurs_in(
            report_text(plan, image, host),
            "Device injection  : "@ + reason + "\n"@,
        )),
        engine != plan.engine && belongs_to(engine, host.platform) && backend::has_tool(
            engine,
            host.tools,
        ) ==> text::occurs_in(
            report_text(plan, image, host),
            "  "@ + (backend::engine_name(engine) + " yes"@) + "\n"@,
        ),
        engine != plan.engine && belongs_to(engine, host.platform) && !backend::has_tool(
            engine,
            host.tools,
        ) ==> text::occurs_in(
            report_text(plan, image, host),
            "  "@ + (backend::engine_name(engine) + " no"@) + "\n"@,
        ),
        text::occurs_in(
            report_text(plan, image, host),
            "  --image <ref>          use a custom image instead of "@ + plan.resolved.image,
        ),
{
    let all = backend_part(plan, host.platform, host.tools, host.env.identity);
    let start = backend_lines(plan.engine, backend::has_tool(plan.engine, host.tools));
    let mode = text::optional_line(
        "Podman mode       : "@,
        podman_mode(plan.engine, host.env.identity),
    );
    let reason = text::optional_line("Device injection  : "@, plan.device_reason);
    let others = other_engines(plan.engine, host.platform);
    let items = engine_lines(others, host.tools);
    let list = text::section(
        "\nOther backends available on this platform:\n"@,
        items,
        "  "@,
        "\n"@,
    );
    assert(all =~= start + mode + (reason + list));
    text::law_parts_occur(start, mode, reason + list);
    lemma_in_backend_part(plan, image, host, mode);
    assert(all =~= start + mode + reason + list);
    text::law_parts_occur(start + mode, reason, list);
    lemma_in_backend_part(plan, image, host, reason);
    if engine != plan.engine && belongs_to(engine, host.platform) {
        law_other_engines(plan.engine, host.platform, engine);
        let i = others.index_of(engine);
        let none = Seq::<char>::empty();
        text::lemma_section_occurs(
            start + mode + reason,
            "\nOther backends available on this platform:\n"@,
            items,
            "  "@,
            "\n"@,
            none,
            i,
        );
        assert(all =~= start + mode + reason + list + none);
        lemma_in_backend_part(plan, image, host, "  "@ + items[i] + "\n"@);
    }
    lemma_image_hint(plan, image, host);
}

#[verifier::spinoff_prover]
#[verifier::rlimit(40)]
proof fn lemma_image_hint(plan: PlanView, image: Option<Seq<char>>, host: HostView)
    ensures
        text::occurs_in(
            report_text(plan, image, host),
            "  --image <ref>          use a custom image instead of "@ + plan.resolved.image,
        ),
{
    let label =
        "\nOverrides:\n  --backend <name>       force a specific backend (docker, podman, seatbelt, windows-sandbox)\n  --image <ref>          use a custom image instead of "@;
    let end =
        "\n  --gfx-override <arch>  force a hardware classification (e.g. sm_86, gfx1100, arc, apple, vulkan, cpu)\n"@;
    let flag = "  --image <ref>          use a custom image instead of "@;
    reveal_strlit(
        "\nOverrides:\n  --backend <name>       force a specific backend (docker, podman, seatbelt, windows-sandbox)\n  --image <ref>          use a custom image instead of ",
    );
    reveal_strlit("  --image <ref>          use a custom image instead of ");
    let before = label.take(label.len() - flag.len());
    assert(label =~= before + flag);
    let report = report_text(plan, image, host);
    let rest = stack_part(plan, image) + backend_part(
        plan,
        host.platform,
        host.tools,
        host.env.identity,
    );
    text::law_parts_occur(rest + before, flag + plan.resolved.image, end);
    assert(report =~= rest + before + (flag + plan.resolved.image) + end);
}

/// The structured report has what the other one has, field by field.
#[verifier::spinoff_prover]
#[verifier::rlimit(40)]
pub proof fn law_json_report_has_every_field(
    plan: PlanView,
    image: Option<Seq<char>>,
    host: HostView,
    i: int,
)
    ensures
        text::has_prefix(
            report_object(plan, image, host),
            "{\n  \"detected\": "@ + json::json_string(probe::description(plan.class)),
        ),
        text::occurs_in(
            report_object(plan, image, host),
            "],\n  \"stack\": "@ + json::json_string(plan.resolved.stack) + ",\n  \"image\": "@
                + json::json_string(plan.spec.image) + ",\n  \"default_image\": "@
                + json::json_string(plan.resolved.image) + ",\n  \"warning\": "@ + json_or_null(
                image_warning(plan, image),
            ) + ",\n  \"rule\": "@ + json::json_string(plan.resolved.rule_key)
                + ",\n  \"notes\": "@ + json_or_null(plan.resolved.notes) + ",\n  \"env\": "@
                + json::json_object(plan.spec.env),
        ),
        text::occurs_in(
            report_object(plan, image, host),
            ",\n  \"backend\": "@ + json::json_string(backend::engine_name(plan.engine))
                + ",\n  \"available\": "@ + json_bool(backend::has_tool(plan.engine, host.tools))
                + ",\n  \"podman_mode\": "@ + json_or_null(
                podman_mode(plan.engine, host.env.identity),
            ) + ",\n  \"device_injection\": "@ + json_or_null(plan.device_reason),
        ),
        0 <= i < plan.devices.len() ==> text::occurs_in(
            report_object(plan, image, host),
            "{\"class\": "@ + json::json_string(probe::description(plan.devices[i].class))
                + ", \"node\": "@ + json_or_null(plan.devices[i].node) + "}"@,
        ),
        json_bool(true) == "true"@,
        json_bool(false) == "false"@,
        json_or_null(None) == "null"@,
        (plan.device_reason matches Some(reason) ==> json_or_null(plan.device_reason)
            == json::json_string(reason)),
{
    let start = "{\n  \"detected\": "@ + json::json_string(probe::description(plan.class));
    let entries = device_entries(plan.devices);
    lemma_object_fields(plan, image, host);
    lemma_field_groups(
        report_object(plan, image, host),
        start,
        ",\n  \"devices\": ["@,
        text::joined(entries, ", "@),
        stack_fields(plan, image),
        backend_fields(plan, host),
        engine_field(plan, host),
    );
    if 0 <= i < plan.devices.len() {
        text::lemma_joined_occurs(entries, ", "@, i);
        let devices = text::joined(entries, ", "@);
        lemma_occurs_twice(report_object(plan, image, host), devices, entries[i]);
    }
}

proof fn lemma_occurs_twice(all: Seq<char>, part: Seq<char>, x: Seq<char>)
    requires
        text::occurs_in(all, part),
        text::occurs_in(part, x),
    ensures
        text::occurs_in(all, x),
{
    let at = choose|at: int| text::occurs_at(all, part, at);
    let before = all.take(at);
    let after = all.skip(at + part.len());
    assert(all =~= before + part + after) by {
        assert(all.subrange(at, at + part.len()) == part);
        assert(all =~= before + all.subrange(at, at + part.len()) + after);
    }
    text::lemma_occurs_within(before, part, after, x);
}

proof fn lemma_field_groups(
    all: Seq<char>,
    start: Seq<char>,
    label: Seq<char>,
    devices: Seq<char>,
    stack: Seq<char>,
    backend: Seq<char>,
    end: Seq<char>,
)
    requires
        all == start + label + devices + stack + backend + end,
    ensures
        text::has_prefix(all, start),
        text::occurs_in(all, devices),
        text::occurs_in(all, stack),
        text::occurs_in(all, backend),
{
    assert(all.subrange(0, start.len() as int) =~= start);
    text::law_parts_occur(start + label, devices, stack + backend + end);
    assert(all =~= start + label + devices + (stack + backend + end));
    text::law_parts_occur(start + label + devices, stack, backend + end);
    assert(all =~= start + label + devices + stack + (backend + end));
    text::law_parts_occur(start + label + devices + stack, backend, end);
}

spec fn engine_field(plan: PlanView, host: HostView) -> Seq<char> {
    ",\n  \"other_backends\": ["@ + text::joined(
        engine_entries(other_engines(plan.engine, host.platform), host.tools),
        ", "@,
    ) + "]\n}"@
}

#[verifier::spinoff_prover]
#[verifier::rlimit(40)]
proof fn lemma_object_fields(plan: PlanView, image: Option<Seq<char>>, host: HostView)
    ensures
        report_object(plan, image, host) == "{\n  \"detected\": "@ + json::json_string(
            probe::description(plan.class),
        ) + ",\n  \"devices\": ["@ + text::joined(device_entries(plan.devices), ", "@)
            + stack_fields(plan, image) + backend_fields(plan, host) + engine_field(plan, host),
{
    let open = "{\n  \"detected\": "@ + json::json_string(probe::description(plan.class))
        + ",\n  \"devices\": ["@ + text::joined(device_entries(plan.devices), ", "@);
    lemma_stack_fields(open, plan, image);
    lemma_backend_fields(open + stack_fields(plan, image), plan, host);
    let before = open + stack_fields(plan, image) + backend_fields(plan, host);
    let label = ",\n  \"other_backends\": ["@;
    let list = text::joined(
        engine_entries(other_engines(plan.engine, host.platform), host.tools),
        ", "@,
    );
    lemma_append(before, label, list);
    lemma_append(before, label + list, "]\n}"@);
}

spec fn stack_fields(plan: PlanView, image: Option<Seq<char>>) -> Seq<char> {
    "],\n  \"stack\": "@ + json::json_string(plan.resolved.stack) + ",\n  \"image\": "@
        + json::json_string(plan.spec.image) + ",\n  \"default_image\": "@ + json::json_string(
        plan.resolved.image,
    ) + ",\n  \"warning\": "@ + json_or_null(image_warning(plan, image)) + ",\n  \"rule\": "@
        + json::json_string(plan.resolved.rule_key) + ",\n  \"notes\": "@ + json_or_null(
        plan.resolved.notes,
    ) + ",\n  \"env\": "@ + json::json_object(plan.spec.env)
}

#[verifier::spinoff_prover]
#[verifier::rlimit(40)]
proof fn lemma_stack_fields(before: Seq<char>, plan: PlanView, image: Option<Seq<char>>)
    ensures
        before + stack_fields(plan, image) == before + "],\n  \"stack\": "@ + json::json_string(
            plan.resolved.stack,
        ) + ",\n  \"image\": "@ + json::json_string(plan.spec.image) + ",\n  \"default_image\": "@
            + json::json_string(plan.resolved.image) + ",\n  \"warning\": "@ + json_or_null(
            image_warning(plan, image),
        ) + ",\n  \"rule\": "@ + json::json_string(plan.resolved.rule_key) + ",\n  \"notes\": "@
            + json_or_null(plan.resolved.notes) + ",\n  \"env\": "@ + json::json_object(
            plan.spec.env,
        ),
{
    let p1 = "],\n  \"stack\": "@;
    let s1 = json::json_string(plan.resolved.stack);
    let p2 = ",\n  \"image\": "@;
    let s2 = json::json_string(plan.spec.image);
    let p3 = ",\n  \"default_image\": "@;
    let s3 = json::json_string(plan.resolved.image);
    let p4 = ",\n  \"warning\": "@;
    let s4 = json_or_null(image_warning(plan, image));
    let p5 = ",\n  \"rule\": "@;
    let s5 = json::json_string(plan.resolved.rule_key);
    let p6 = ",\n  \"notes\": "@;
    let s6 = json_or_null(plan.resolved.notes);
    let p7 = ",\n  \"env\": "@;
    let s7 = json::json_object(plan.spec.env);
    lemma_append(before, p1, s1);
    lemma_append(before, p1 + s1, p2);
    lemma_append(before, p1 + s1 + p2, s2);
    lemma_append(before, p1 + s1 + p2 + s2, p3);
    lemma_append(before, p1 + s1 + p2 + s2 + p3, s3);
    lemma_append(before, p1 + s1 + p2 + s2 + p3 + s3, p4);
    lemma_append(before, p1 + s1 + p2 + s2 + p3 + s3 + p4, s4);
    lemma_append(before, p1 + s1 + p2 + s2 + p3 + s3 + p4 + s4, p5);
    lemma_append(before, p1 + s1 + p2 + s2 + p3 + s3 + p4 + s4 + p5, s5);
    lemma_append(before, p1 + s1 + p2 + s2 + p3 + s3 + p4 + s4 + p5 + s5, p6);
    lemma_append(before, p1 + s1 + p2 + s2 + p3 + s3 + p4 + s4 + p5 + s5 + p6, s6);
    lemma_append(before, p1 + s1 + p2 + s2 + p3 + s3 + p4 + s4 + p5 + s5 + p6 + s6, p7);
    lemma_append(before, p1 + s1 + p2 + s2 + p3 + s3 + p4 + s4 + p5 + s5 + p6 + s6 + p7, s7);
}

spec fn backend_fields(plan: PlanView, host: HostView) -> Seq<char> {
    ",\n  \"backend\": "@ + json::json_string(backend::engine_name(plan.engine))
        + ",\n  \"available\": "@ + json_bool(backend::has_tool(plan.engine, host.tools))
        + ",\n  \"podman_mode\": "@ + json_or_null(podman_mode(plan.engine, host.env.identity))
        + ",\n  \"device_injection\": "@ + json_or_null(plan.device_reason)
}

proof fn lemma_backend_fields(before: Seq<char>, plan: PlanView, host: HostView)
    ensures
        before + backend_fields(plan, host) == before + ",\n  \"backend\": "@ + json::json_string(
            backend::engine_name(plan.engine),
        ) + ",\n  \"available\": "@ + json_bool(backend::has_tool(plan.engine, host.tools))
            + ",\n  \"podman_mode\": "@ + json_or_null(podman_mode(plan.engine, host.env.identity))
            + ",\n  \"device_injection\": "@ + json_or_null(plan.device_reason),
{
    let p1 = ",\n  \"backend\": "@;
    let s1 = json::json_string(backend::engine_name(plan.engine));
    let p2 = ",\n  \"available\": "@;
    let s2 = json_bool(backend::has_tool(plan.engine, host.tools));
    let p3 = ",\n  \"podman_mode\": "@;
    let s3 = json_or_null(podman_mode(plan.engine, host.env.identity));
    let p4 = ",\n  \"device_injection\": "@;
    let s4 = json_or_null(plan.device_reason);
    lemma_append(before, p1, s1);
    lemma_append(before, p1 + s1, p2);
    lemma_append(before, p1 + s1 + p2, s2);
    lemma_append(before, p1 + s1 + p2 + s2, p3);
    lemma_append(before, p1 + s1 + p2 + s2 + p3, s3);
    lemma_append(before, p1 + s1 + p2 + s2 + p3 + s3, p4);
    lemma_append(before, p1 + s1 + p2 + s2 + p3 + s3 + p4, s4);
}

proof fn lemma_append(a: Seq<char>, b: Seq<char>, c: Seq<char>)
    ensures
        a + (b + c) == a + b + c,
{
    assert(a + (b + c) =~= a + b + c);
}

/// The snapshot has, of every GPU, the two ids in their `0x` form and what it
/// is; and nothing that is not a GPU.
pub proof fn law_snapshots_have_every_gpu(devices: Seq<GpuDeviceView>, i: int, v: u16, d: u16)
    ensures
        0 <= i < devices.len() && devices[i].vendor_id == Some(v) && devices[i].device_id == Some(d)
            ==> text::occurs_in(
            snapshot(devices),
            "{\"vendor\": "@ + json::json_string(pciids::id_key(v)) + ", \"device\": "@
                + json::json_string(pciids::id_key(d)) + ", \"class\": "@ + json::json_string(
                probe::description(devices[i].class),
            ) + "}"@,
        ),
        0 <= i < devices.len() && devices[i].vendor_id is None && devices[i].device_id is None
            ==> text::occurs_in(
            snapshot(devices),
            "{\"vendor\": "@ + "null"@ + ", \"device\": "@ + "null"@ + ", \"class\": "@
                + json::json_string(probe::description(devices[i].class)) + "}"@,
        ),
        snapshot(Seq::empty()) == "["@ + "]"@,
{
    let entries = snapshot_entries(devices);
    if 0 <= i < devices.len() {
        text::lemma_joined_occurs(entries, ", "@, i);
        text::lemma_occurs_within("["@, text::joined(entries, ", "@), "]"@, entries[i]);
    }
    assert(snapshot_entries(Seq::empty()) =~= Seq::empty());
    assert(snapshot(Seq::empty()) =~= "["@ + "]"@);
}

/// The structured report has each other engine of the platform, and whether it
/// is there.
pub proof fn law_json_report_has_the_other_engines(
    plan: PlanView,
    image: Option<Seq<char>>,
    host: HostView,
    engine: Engine,
)
    requires
        engine != plan.engine,
        belongs_to(engine, host.platform),
    ensures
        backend::has_tool(engine, host.tools) ==> text::occurs_in(
            report_object(plan, image, host),
            "{\"name\": "@ + json::json_string(backend::engine_name(engine))
                + ", \"available\": "@ + "true"@ + "}"@,
        ),
        !backend::has_tool(engine, host.tools) ==> text::occurs_in(
            report_object(plan, image, host),
            "{\"name\": "@ + json::json_string(backend::engine_name(engine))
                + ", \"available\": "@ + "false"@ + "}"@,
        ),
{
    law_other_engines(plan.engine, host.platform, engine);
    let others = other_engines(plan.engine, host.platform);
    let entries = engine_entries(others, host.tools);
    let i = others.index_of(engine);
    let list = text::joined(entries, ", "@);
    text::lemma_joined_occurs(entries, ", "@, i);
    text::lemma_occurs_within(",\n  \"other_backends\": ["@, list, "]\n}"@, entries[i]);
    lemma_object_fields(plan, image, host);
    let none = Seq::<char>::empty();
    let before = "{\n  \"detected\": "@ + json::json_string(probe::description(plan.class))
        + ",\n  \"devices\": ["@ + text::joined(device_entries(plan.devices), ", "@)
        + stack_fields(plan, image) + backend_fields(plan, host);
    text::lemma_occurs_within(before, engine_field(plan, host), none, entries[i]);
    assert(before + engine_field(plan, host) + none =~= before + engine_field(plan, host));
}

} // verus!
