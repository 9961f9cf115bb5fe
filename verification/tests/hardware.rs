//! Hardware probe, classification and stack resolution.

use gpubox::probe::linux::{cdi_available, is_card_name, probe_at, read_hex_id, DrmEntry};
use gpubox::probe::pciids::{classify, key, validate_pci_ids_db, PciIds, PciIdsFault};
use gpubox::probe::windows::{extract_hex_field, parse_pnp_device_id};
use gpubox::probe::{
    has_vulkan_icd, pick_primary, probe_host, select, GpuClass, GpuDevice, RawProbe, SelectError,
};
use gpubox::stack::{
    lookup, resolve, validate_quirks_db, MissingRule, QuirksDb, QuirksFault, StackRule,
};
use gpubox::table::Table;

fn tags(entries: &[(&str, &str)]) -> Table<String> {
    let mut table = Table::new();
    for (key, tag) in entries {
        table.insert(key.to_string(), tag.to_string());
    }
    table
}

fn ids() -> PciIds {
    PciIds {
        nvidia: tags(&[("0x2684", "sm_89"), ("0x2204", "sm_86")]),
        amd: tags(&[("0x744c", "gfx1100"), ("0x1636", "gfx90c")]),
        intel: tags(&[("0x56a0", "arc"), ("0x46a6", "xe")]),
    }
}

fn rule(stack: &str, image: &str, packages: &[&str]) -> StackRule {
    StackRule {
        stack: stack.to_string(),
        image: image.to_string(),
        windows_image: None,
        env: Table::new(),
        notes: None,
        packages: packages.iter().map(|p| p.to_string()).collect(),
    }
}

fn vulkan() -> StackRule {
    rule(
        "vulkan",
        "ubuntu:24.04",
        &["mesa-vulkan-drivers", "vulkan-tools", "libvulkan1"],
    )
}

fn rules(entries: Vec<(&str, StackRule)>) -> Table<StackRule> {
    let mut table = Table::new();
    for (key, rule) in entries {
        table.insert(key.to_string(), rule);
    }
    table
}

fn quirks() -> QuirksDb {
    let cuda = "nvidia/cuda:12.9.2-devel-ubuntu24.04";
    let oneapi = "intel/oneapi-basekit:2025.3.2-0-devel-ubuntu24.04";
    let mut renoir = rule("rocm", "rocm/rocm-terminal:6.1", &[]);
    renoir.env.insert("HSA_OVERRIDE_GFX_VERSION".to_string(), "9.0.0".to_string());
    renoir.notes = Some("Renoir needs an override.\n".to_string());
    let mut ampere = rule("cuda", cuda, &[]);
    ampere.windows_image = Some("mcr.microsoft.com/windows/servercore:ltsc2022".to_string());
    QuirksDb {
        nvidia: rules(vec![
            ("sm_86", ampere),
            ("sm_89", rule("cuda", cuda, &[])),
            ("unknown", vulkan()),
        ]),
        amd: rules(vec![
            ("gfx1100", rule("rocm", "rocm/rocm-terminal:6.1", &[])),
            ("gfx90c", renoir),
            ("unknown", vulkan()),
        ]),
        intel: rules(vec![
            ("arc", rule("oneapi", oneapi, &[])),
            ("xe", rule("oneapi", oneapi, &[])),
            ("default", vulkan()),
        ]),
        apple: rules(vec![("default", rule("metal", "none", &[]))]),
        vulkan: rules(vec![("default", vulkan())]),
        none: rules(vec![("default", rule("cpu", "ubuntu:24.04", &[]))]),
    }
}

fn nvidia(arch: &str) -> GpuClass {
    GpuClass::Nvidia { arch: arch.to_string() }
}

fn amd(arch: &str) -> GpuClass {
    GpuClass::Amd { arch: arch.to_string() }
}

fn intel(class: &str) -> GpuClass {
    GpuClass::Intel { class: class.to_string() }
}

fn card(name: &str, vendor: &str, device: &str) -> DrmEntry {
    DrmEntry {
        name: name.to_string(),
        has_device: true,
        vendor: Some(vendor.to_string()),
        device: Some(device.to_string()),
        compatible: None,
    }
}

fn bare(name: &str, compatible: Option<&str>) -> DrmEntry {
    DrmEntry {
        name: name.to_string(),
        has_device: true,
        vendor: None,
        device: None,
        compatible: compatible.map(|c| c.to_string()),
    }
}

// --- Linux probe ---

#[test]
fn probes_single_nvidia_card() {
    let devices = probe_at(&ids(), &vec![card("card0", "0x10de\n", "0x2684\n")]);
    assert_eq!(devices.len(), 1);
    assert_eq!(devices[0].vendor_id, Some(0x10de));
    assert_eq!(devices[0].node.as_deref(), Some("/dev/dri/card0"));
}

#[test]
fn ignores_connector_nodes() {
    let entries = vec![card("card0", "0x1002\n", "0x744c\n"), bare("card0-DP-1", None)];
    let devices = probe_at(&ids(), &entries);
    assert_eq!(devices.len(), 1);
}

#[test]
fn missing_root_yields_no_devices() {
    let devices = probe_at(&ids(), &vec![]);
    assert!(devices.is_empty());
}

#[test]
fn cards_come_in_the_order_of_their_names() {
    let entries = vec![
        card("card2", "0x8086", "0x46a6"),
        bare("renderD128", None),
        card("card10", "0x10de", "0x2684"),
        card("card0", "0x1002", "0x744c"),
    ];
    let nodes: Vec<String> =
        probe_at(&ids(), &entries).into_iter().map(|d| d.node.unwrap()).collect();
    assert_eq!(nodes, vec!["/dev/dri/card0", "/dev/dri/card10", "/dev/dri/card2"]);
    // However the directory is walked.
    let backwards: Vec<DrmEntry> = entries.into_iter().rev().collect();
    let again: Vec<String> =
        probe_at(&ids(), &backwards).into_iter().map(|d| d.node.unwrap()).collect();
    assert_eq!(again, nodes);
}

#[test]
fn soc_gpus_are_guessed_from_the_device_tree() {
    let entries = vec![
        bare("card0", Some("apple,agx-t8103\0apple,agx-g13g\0")),
        bare("card1", Some("nvidia,tegra234-host1x\0")),
        bare("card2", Some("arm,mali-g610\0")),
        bare("card3", None),
    ];
    let classes: Vec<GpuClass> =
        probe_at(&ids(), &entries).into_iter().map(|d| d.class).collect();
    assert_eq!(
        classes,
        vec![GpuClass::Apple, nvidia("unknown"), GpuClass::Vulkan, GpuClass::Vulkan]
    );
}

#[test]
fn a_card_without_a_device_is_passed_over() {
    let virtual_card = DrmEntry { has_device: false, ..bare("card0", None) };
    assert!(probe_at(&ids(), &vec![virtual_card]).is_empty());
}

#[test]
fn unreadable_ids_drop_a_card() {
    assert!(probe_at(&ids(), &vec![card("card0", "junk", "0x2684")]).is_empty());
    assert!(probe_at(&ids(), &vec![card("card0", "0x10de", "0x12684")]).is_empty());
}

#[test]
fn sysfs_ids_are_hexadecimal() {
    assert_eq!(read_hex_id("0x10de\n"), Some(0x10de));
    assert_eq!(read_hex_id("  8086 "), Some(0x8086));
    assert_eq!(read_hex_id("0x10000"), None);
    assert_eq!(read_hex_id("0x"), None);
    assert_eq!(read_hex_id("-1"), None);
}

#[test]
fn card_names_are_cards_without_connectors() {
    assert!(is_card_name("card0"));
    assert!(is_card_name("card12"));
    assert!(!is_card_name("card0-HDMI-A-1"));
    assert!(!is_card_name("renderD128"));
}

#[test]
fn cdi_specs_are_yaml_or_json_files() {
    assert!(cdi_available(&vec!["nvidia.yaml".to_string()]));
    assert!(cdi_available(&vec!["readme".to_string(), "amd.json".to_string()]));
    assert!(!cdi_available(&vec!["nvidia.yaml.bak".to_string(), ".yaml".to_string()]));
    assert!(!cdi_available(&vec![]));
}

#[test]
fn one_icd_manifest_is_enough_for_vulkan() {
    assert!(has_vulkan_icd(&vec!["radeon_icd.x86_64.json".to_string()]));
    assert!(!has_vulkan_icd(&vec![]));
}

// --- Windows probe ---

#[test]
fn parses_nvidia_pnp_device_id() {
    let line = r"PCI\VEN_10DE&DEV_2684&SUBSYS_87131458&REV_A1\4&1a2b3c4d&0&0008";
    let device = parse_pnp_device_id(&ids(), line).unwrap();
    assert_eq!(device.vendor_id, Some(0x10de));
    assert_eq!(device.device_id, Some(0x2684));
}

#[test]
fn parses_amd_pnp_device_id() {
    let line = r"PCI\VEN_1002&DEV_744C&SUBSYS_0B361002&REV_C8\4&1a2b3c4d&0&0008";
    let device = parse_pnp_device_id(&ids(), line).unwrap();
    assert_eq!(device.vendor_id, Some(0x1002));
    assert_eq!(device.device_id, Some(0x744c));
}

#[test]
fn rejects_malformed_line() {
    assert!(parse_pnp_device_id(&ids(), "not a pnp id").is_none());
}

/// WMI's `Win32_VideoController` lists one row per adapter, so a hybrid
/// laptop (Intel iGPU + NVIDIA dGPU) surfaces as multiple lines; both must
/// parse.
#[test]
fn multiple_lines_yield_multiple_devices() {
    let output = format!(
        "{}\n{}",
        r"PCI\VEN_8086&DEV_46A6&SUBSYS_00000000&REV_0C\3&11583659&0&10",
        r"PCI\VEN_10DE&DEV_2684&SUBSYS_87131458&REV_A1\4&1a2b3c4d&0&0008",
    );
    let ids = ids();
    let devices: Vec<GpuDevice> =
        output.lines().filter_map(|line| parse_pnp_device_id(&ids, line)).collect();
    assert_eq!(devices.len(), 2);
    assert_eq!(devices[0].vendor_id, Some(0x8086));
    assert_eq!(devices[1].vendor_id, Some(0x10de));
    let probed = probe_host(&ids, &RawProbe::Windows(Some(output.replace('\n', "\r\n"))));
    assert_eq!(probed.len(), 2);
    assert_eq!(probed[1].class, nvidia("sm_89"));
}

#[test]
fn hex_fields_are_the_digits_after_their_marker() {
    assert_eq!(extract_hex_field(r"PCI\VEN_10DE&DEV_2684", "VEN_"), Some(0x10de));
    assert_eq!(extract_hex_field("VEN_10D", "VEN_"), Some(0x10d));
    assert_eq!(extract_hex_field("VEN_10D&DEV_1", "VEN_"), Some(0x10d));
    assert_eq!(extract_hex_field("VEN_10DE2", "VEN_"), None);
    assert_eq!(extract_hex_field("VEN_", "VEN_"), None);
    assert_eq!(extract_hex_field("DEV_2684", "VEN_"), None);
}

// --- Classification ---

#[test]
fn known_nvidia_ada_device() {
    // AD102 - RTX 4090
    assert_eq!(classify(&ids(), 0x10de, 0x2684), nvidia("sm_89"));
}

#[test]
fn known_amd_rdna3_device() {
    // Navi 31 - RX 7900 XTX
    assert_eq!(classify(&ids(), 0x1002, 0x744c), amd("gfx1100"));
}

#[test]
fn known_amd_igpu_quirk_device() {
    // Renoir iGPU, needs the HSA_OVERRIDE_GFX_VERSION quirk
    assert_eq!(classify(&ids(), 0x1002, 0x1636), amd("gfx90c"));
}

#[test]
fn known_intel_arc_device() {
    assert_eq!(classify(&ids(), 0x8086, 0x56a0), intel("arc"));
}

#[test]
fn unknown_nvidia_device_falls_back_to_unknown_arch() {
    assert_eq!(classify(&ids(), 0x10de, 0xffff), nvidia("unknown"));
}

#[test]
fn unrecognized_vendor_is_generic_vulkan() {
    assert_eq!(classify(&ids(), 0x1234, 0x0001), GpuClass::Vulkan);
}

#[test]
fn unknown_intel_device_defaults_to_igpu_class() {
    assert_eq!(classify(&ids(), 0x8086, 0x0000), intel("igpu"));
}

#[test]
fn device_keys_are_four_hexadecimal_digits() {
    assert_eq!(key(0x2684), "0x2684");
    assert_eq!(key(0xa0), "0x00a0");
    assert_eq!(key(0xffff), "0xffff");
}

#[test]
fn pci_ids_toml_is_structurally_valid() {
    assert_eq!(validate_pci_ids_db(&ids()), Ok(()));
}

#[test]
fn malformed_device_ids_are_found() {
    for bad in ["2684", "0x268", "0x26840", "0X2684", "0x744C", "0x26g4"] {
        let mut broken = ids();
        broken.amd.insert(bad.to_string(), "gfx1100".to_string());
        assert_eq!(
            validate_pci_ids_db(&broken),
            Err(PciIdsFault::BadDeviceId { vendor: "amd".to_string(), key: bad.to_string() })
        );
    }
}

#[test]
fn unknown_intel_classes_are_found() {
    let mut broken = ids();
    broken.intel.insert("0x7d55".to_string(), "xe2".to_string());
    assert_eq!(
        validate_pci_ids_db(&broken),
        Err(PciIdsFault::BadIntelClass { key: "0x7d55".to_string(), tag: "xe2".to_string() })
    );
    broken.intel.insert("0x7d55".to_string(), "igpu".to_string());
    assert_eq!(validate_pci_ids_db(&broken), Ok(()));
}

#[test]
fn classes_describe_themselves() {
    assert_eq!(nvidia("sm_89").describe(), "NVIDIA (sm_89)");
    assert_eq!(amd("gfx1100").describe(), "AMD (gfx1100)");
    assert_eq!(intel("arc").describe(), "Intel (arc)");
}

// --- The host's GPUs ---

#[test]
fn probe_host_never_empty() {
    // Even on an unsupported platform / with no permissions, there must
    // always be at least the "none" sentinel so downstream stack resolution
    // has something to match against.
    let probes = [
        RawProbe::Linux(vec![]),
        RawProbe::MacOs { apple_silicon: false },
        RawProbe::Windows(None),
        RawProbe::Other,
    ];
    for raw in probes {
        let devices = probe_host(&ids(), &raw);
        assert!(!devices.is_empty());
        assert_eq!(devices[0].class, GpuClass::NoGpu);
    }
    let mac = probe_host(&ids(), &RawProbe::MacOs { apple_silicon: true });
    assert_eq!(mac[0].class, GpuClass::Apple);
}

#[test]
fn pick_primary_prefers_nvidia_over_amd() {
    let devices = vec![
        GpuDevice {
            vendor_id: Some(0x1002),
            device_id: Some(0x744c),
            node: None,
            class: amd("gfx1100"),
        },
        GpuDevice {
            vendor_id: Some(0x10de),
            device_id: Some(0x2684),
            node: None,
            class: nvidia("sm_89"),
        },
    ];
    let primary = pick_primary(&devices);
    assert!(matches!(primary.class, GpuClass::Nvidia { .. }));
}

fn device(class: GpuClass, node: &str) -> GpuDevice {
    GpuDevice { vendor_id: None, device_id: None, node: Some(node.to_string()), class }
}

#[test]
fn pick_primary_ranks_every_class() {
    let ranked = [
        nvidia("sm_89"),
        amd("gfx1100"),
        intel("arc"),
        amd("gfx90c"),
        GpuClass::Apple,
        GpuClass::Vulkan,
        GpuClass::NoGpu,
    ];
    for better in 0..ranked.len() {
        for worse in better + 1..ranked.len() {
            let devices =
                vec![device(ranked[worse].clone(), "a"), device(ranked[better].clone(), "b")];
            assert_eq!(pick_primary(&devices).node.as_deref(), Some("b"));
        }
    }
}

fn hybrid_devices() -> Vec<GpuDevice> {
    vec![
        GpuDevice {
            vendor_id: Some(0x8086),
            device_id: Some(0x46a6),
            node: Some("/dev/dri/card0".to_string()),
            class: intel("xe"),
        },
        GpuDevice {
            vendor_id: Some(0x10de),
            device_id: Some(0x2684),
            node: Some("/dev/dri/card1".to_string()),
            class: nvidia("sm_89"),
        },
    ]
}

#[test]
fn select_by_index_picks_that_exact_device() {
    let devices = hybrid_devices();
    let picked = select(&devices, "0").unwrap();
    assert_eq!(picked.class, devices[0].class);
    let picked = select(&devices, "1").unwrap();
    assert_eq!(picked.class, devices[1].class);
}

#[test]
fn select_by_index_out_of_range_errors() {
    let devices = hybrid_devices();
    let err = select(&devices, "5").unwrap_err();
    // Must mention the actual valid range, not a misleading `0..0`.
    assert!(err.message().contains("0..1"));
    assert_eq!(err, SelectError::OutOfRange { index: 5, count: 2 });
    assert_eq!(
        err.message(),
        "--gpu 5 is out of range; 2 GPU(s) detected (indices 0..1)"
    );
}

#[test]
fn select_by_index_on_empty_device_list_gives_a_clear_error() {
    // No `0..0`-style implication that index 0 would be valid - there
    // are no GPUs to select from at all.
    let err = select(&[], "0").unwrap_err();
    let message = err.message();
    assert!(message.contains("no GPUs detected"));
    assert!(!message.contains("0.."));
}

#[test]
fn select_by_vendor_name_on_hybrid_laptop() {
    // Intel iGPU + NVIDIA dGPU, the exact scenario multi-GPU support
    // is for: pick_primary would silently choose NVIDIA, but the user
    // must be able to explicitly ask for the Intel device instead.
    let devices = hybrid_devices();
    let picked = select(&devices, "intel").unwrap();
    assert!(matches!(picked.class, GpuClass::Intel { .. }));
    let picked = select(&devices, "NVIDIA").unwrap();
    assert!(matches!(picked.class, GpuClass::Nvidia { .. }));
}

#[test]
fn select_by_unmatched_name_errors() {
    let devices = hybrid_devices();
    assert!(select(&devices, "amd").is_err());
    assert!(select(&devices, "banana").is_err());
    assert_eq!(
        select(&devices, "banana").unwrap_err().message(),
        "no detected GPU matches `banana`; run `gpubox doctor` to see what was found"
    );
}

// --- Stack resolution ---

#[test]
fn resolves_known_nvidia_arch_to_cuda() {
    let resolved = resolve(&quirks(), &nvidia("sm_86")).unwrap();
    assert_eq!(resolved.stack, "cuda");
    assert!(resolved.image.contains("cuda"));
    assert_eq!(resolved.rule_key, "nvidia.sm_86");
}

#[test]
fn resolves_gfx90c_with_hsa_override_quirk() {
    let resolved = resolve(&quirks(), &amd("gfx90c")).unwrap();
    assert_eq!(resolved.stack, "rocm");
    assert_eq!(
        resolved.env.get("HSA_OVERRIDE_GFX_VERSION").map(String::as_str),
        Some("9.0.0")
    );
    assert!(resolved.notes.is_some());
}

#[test]
fn unknown_nvidia_arch_falls_back_to_vulkan() {
    let resolved = resolve(&quirks(), &nvidia("unknown")).unwrap();
    assert_eq!(resolved.stack, "vulkan");
    assert_eq!(resolved.rule_key, "nvidia.unknown");
    let other = resolve(&quirks(), &nvidia("sm_999")).unwrap();
    assert_eq!(other.rule_key, "nvidia.unknown");
}

#[test]
fn intel_arc_resolves_to_oneapi() {
    let resolved = resolve(&quirks(), &intel("arc")).unwrap();
    assert_eq!(resolved.stack, "oneapi");
}

#[test]
fn apple_resolves_to_metal() {
    let resolved = resolve(&quirks(), &GpuClass::Apple).unwrap();
    assert_eq!(resolved.stack, "metal");
}

#[test]
fn none_resolves_to_cpu() {
    let resolved = resolve(&quirks(), &GpuClass::NoGpu).unwrap();
    assert_eq!(resolved.stack, "cpu");
}

#[test]
fn vulkan_class_resolves_to_vulkan() {
    let resolved = resolve(&quirks(), &GpuClass::Vulkan).unwrap();
    assert_eq!(resolved.stack, "vulkan");
    assert_eq!(resolved.image, "ubuntu:24.04");
    assert!(resolved.packages.iter().any(|p| p == "mesa-vulkan-drivers"));
}

#[test]
fn cuda_and_rocm_images_carry_no_apt_packages() {
    // Vendor images (CUDA/ROCm/oneAPI) already ship their full stack;
    // only the plain-distro Vulkan/CPU fallbacks need `packages`.
    let cuda = resolve(&quirks(), &nvidia("sm_86")).unwrap();
    assert!(cuda.packages.is_empty());
}

#[test]
fn an_intel_igpu_falls_back_to_the_default_rule() {
    let resolved = resolve(&quirks(), &intel("igpu")).unwrap();
    assert_eq!(resolved.rule_key, "intel.default");
    assert_eq!(resolved.stack, "vulkan");
}

#[test]
fn hardware_without_any_rule_is_an_error() {
    let mut db = quirks();
    db.amd = Table::new();
    let err = resolve(&db, &amd("gfx1100")).unwrap_err();
    assert_eq!(err.detected, "AMD (gfx1100)");
    assert_eq!(
        err.cause,
        MissingRule { vendor: "amd".to_string(), key: "gfx1100".to_string() }
    );
    assert_eq!(err.message(), "resolving stack for detected hardware AMD (gfx1100)");
    assert!(lookup(&db.amd, "gfx1100", "amd").is_err());
}

#[test]
fn quirks_toml_is_structurally_valid() {
    assert_eq!(validate_quirks_db(&quirks()), Ok(()));
}

#[test]
fn broken_quirks_are_found() {
    let mut no_fallback = quirks();
    no_fallback.intel = rules(vec![("arc", rule("oneapi", "intel/oneapi-basekit:1", &[]))]);
    assert_eq!(
        validate_quirks_db(&no_fallback),
        Err(QuirksFault::MissingFallback { vendor: "intel".to_string() })
    );
    let mut no_image = quirks();
    no_image.vulkan = rules(vec![("default", rule("vulkan", "", &[]))]);
    assert_eq!(
        validate_quirks_db(&no_image),
        Err(QuirksFault::BadImage { vendor: "vulkan".to_string(), key: "default".to_string() })
    );
    let mut no_stack = quirks();
    no_stack.amd.insert("gfx1201".to_string(), rule("hip", "rocm/rocm-terminal:6.1", &[]));
    assert_eq!(
        validate_quirks_db(&no_stack),
        Err(QuirksFault::UnknownStack { vendor: "amd".to_string(), key: "gfx1201".to_string() })
    );
    let mut vendor_fallback = quirks();
    vendor_fallback.nvidia.insert("unknown".to_string(), rule("cuda", "nvidia/cuda:12.9.2", &[]));
    assert_eq!(
        validate_quirks_db(&vendor_fallback),
        Err(QuirksFault::BadFallback { vendor: "nvidia".to_string(), key: "unknown".to_string() })
    );
    // Apple's one rule is no fallback.
    assert_eq!(quirks().apple.get("default").map(|rule| rule.stack.as_str()), Some("metal"));
}

// --- Tables ---

#[test]
fn inserting_under_a_key_replaces_its_value() {
    let mut table = tags(&[("a", "1"), ("b", "2")]);
    table.insert("a".to_string(), "3".to_string());
    assert_eq!(table.len(), 2);
    assert_eq!(table.get("a").map(String::as_str), Some("3"));
    assert_eq!(table.get("b").map(String::as_str), Some("2"));
    assert_eq!(table.get("c"), None);
    assert_eq!(
        table.pairs(),
        vec![("a".to_string(), "3".to_string()), ("b".to_string(), "2".to_string())]
    );
}
