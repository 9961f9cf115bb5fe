//! Stage 1: hardware probe.
//!
//! What the host-native interfaces say (sysfs on Linux, WMI on Windows, the
//! CPU architecture on macOS) comes in as plain values; this module turns it
//! into a list of GPUs and picks one of them.

pub mod linux;
pub mod macos;
pub mod pciids;
pub mod windows;

use vstd::prelude::*;
use crate::probe::linux::{DrmEntry, DrmEntryView};
use crate::probe::pciids::PciIds;
use crate::text;

pub use crate::probe::linux::{cdi_available, has_vulkan_icd};
pub use crate::probe::pciids::{classify, validate_pci_ids_db};

verus! {

/// Normalized classification of a piece of GPU hardware, independent of the
/// raw vendor/device id pair used to derive it.
#[derive(Debug, PartialEq, Eq)]
pub enum GpuClass {
    /// NVIDIA GPU, `arch` is a CUDA compute-capability tag, e.g. `"sm_86"`,
    /// or `"unknown"` if the device id wasn't recognized.
    Nvidia { arch: String },
    /// AMD GPU, `arch` is a gfx architecture tag, e.g. `"gfx1100"`, or
    /// `"unknown"` if the device id wasn't recognized.
    Amd { arch: String },
    /// Intel GPU, `class` is one of `"arc"`, `"xe"`, `"igpu"`.
    Intel { class: String },
    /// Apple Silicon integrated GPU.
    Apple,
    /// A GPU was found but couldn't be attributed to a known vendor;
    /// generic Vulkan is the only thing we can reasonably promise.
    Vulkan,
    /// No usable GPU found - CPU fallback.
    NoGpu,
}

/// What a [`GpuClass`] stands for.
#[verifier::ext_equal]
pub enum GpuClassView {
    Nvidia { arch: Seq<char> },
    Amd { arch: Seq<char> },
    Intel { class: Seq<char> },
    Apple,
    Vulkan,
    NoGpu,
}

impl DeepView for GpuClass {
    type V = GpuClassView;

    open spec fn deep_view(&self) -> GpuClassView {
        match self {
            GpuClass::Nvidia { arch } => GpuClassView::Nvidia { arch: arch@ },
            GpuClass::Amd { arch } => GpuClassView::Amd { arch: arch@ },
            GpuClass::Intel { class } => GpuClassView::Intel { class: class@ },
            GpuClass::Apple => GpuClassView::Apple,
            GpuClass::Vulkan => GpuClassView::Vulkan,
            GpuClass::NoGpu => GpuClassView::NoGpu,
        }
    }
}

impl Clone for GpuClass {
    fn clone(&self) -> (r: Self)
        ensures
            r.deep_view() == self.deep_view(),
    {
        match self {
            GpuClass::Nvidia { arch } => GpuClass::Nvidia { arch: arch.clone() },
            GpuClass::Amd { arch } => GpuClass::Amd { arch: arch.clone() },
            GpuClass::Intel { class } => GpuClass::Intel { class: class.clone() },
            GpuClass::Apple => GpuClass::Apple,
            GpuClass::Vulkan => GpuClass::Vulkan,
            GpuClass::NoGpu => GpuClass::NoGpu,
        }
    }
}

/// How a class is named to people.
pub open spec fn description(class: GpuClassView) -> Seq<char> {
    match class {
        GpuClassView::Nvidia { arch } => "NVIDIA ("@ + arch + ")"@,
        GpuClassView::Amd { arch } => "AMD ("@ + arch + ")"@,
        GpuClassView::Intel { class } => "Intel ("@ + class + ")"@,
        GpuClassView::Apple => "Apple Silicon"@,
        GpuClassView::Vulkan => "unrecognized GPU (Vulkan capable)"@,
        GpuClassView::NoGpu => "none"@,
    }
}

impl GpuClass {
    /// The class as it is shown to people.
    pub fn describe(&self) -> (r: String)
        ensures
            r@ == description(self.deep_view()),
    {
        match self {
            GpuClass::Nvidia { arch } => text::join3("NVIDIA (", arch.as_str(), ")"),
            GpuClass::Amd { arch } => text::join3("AMD (", arch.as_str(), ")"),
            GpuClass::Intel { class } => text::join3("Intel (", class.as_str(), ")"),
            GpuClass::Apple => "Apple Silicon".to_string(),
            GpuClass::Vulkan => "unrecognized GPU (Vulkan capable)".to_string(),
            GpuClass::NoGpu => "none".to_string(),
        }
    }
}

/// A single detected GPU device.
#[derive(Debug, PartialEq, Eq)]
pub struct GpuDevice {
    /// PCI vendor id, e.g. `0x10de` for NVIDIA. `None` on platforms (or
    /// device classes) where PCI enumeration doesn't apply, e.g. Apple
    /// Silicon.
    pub vendor_id: Option<u16>,
    /// PCI device id.
    pub device_id: Option<u16>,
    /// Host-side identifier useful for diagnostics: a DRM node path on Linux
    /// (`/dev/dri/card0`) or a PNP device id on Windows.
    pub node: Option<String>,
    pub class: GpuClass,
}

/// What a [`GpuDevice`] stands for.
#[verifier::ext_equal]
pub struct GpuDeviceView {
    pub vendor_id: Option<u16>,
    pub device_id: Option<u16>,
    pub node: Option<Seq<char>>,
    pub class: GpuClassView,
}

impl DeepView for GpuDevice {
    type V = GpuDeviceView;

    open spec fn deep_view(&self) -> GpuDeviceView {
        GpuDeviceView {
            vendor_id: self.vendor_id,
            device_id: self.device_id,
            node: self.node.deep_view(),
            class: self.class.deep_view(),
        }
    }
}

impl Clone for GpuDevice {
    fn clone(&self) -> (r: Self)
        ensures
            r.deep_view() == self.deep_view(),
    {
        GpuDevice {
            vendor_id: self.vendor_id,
            device_id: self.device_id,
            node: self.node.clone(),
            class: self.class.clone(),
        }
    }
}

/// The device that stands for "no GPU".
pub open spec fn no_device() -> GpuDeviceView {
    GpuDeviceView { vendor_id: None, device_id: None, node: None, class: GpuClassView::NoGpu }
}

impl GpuDevice {
    /// The device that stands for "no GPU".
    pub fn none() -> (r: GpuDevice)
        ensures
            r.deep_view() == no_device(),
    {
        GpuDevice { vendor_id: None, device_id: None, node: None, class: GpuClass::NoGpu }
    }
}

/// What the host-native interface of a platform had to say about its GPUs.
#[derive(Debug)]
pub enum RawProbe {
    /// The entries under `/sys/class/drm`.
    Linux(Vec<DrmEntry>),
    /// Whether the CPU is Apple Silicon (`aarch64`).
    MacOs { apple_silicon: bool },
    /// What the WMI query printed, if it succeeded.
    Windows(Option<String>),
    /// A platform without a probe.
    Other,
}

/// What a [`RawProbe`] stands for.
#[verifier::ext_equal]
pub enum RawProbeView {
    Linux(Seq<DrmEntryView>),
    MacOs { apple_silicon: bool },
    Windows(Option<Seq<char>>),
    Other,
}

impl DeepView for RawProbe {
    type V = RawProbeView;

    open spec fn deep_view(&self) -> RawProbeView {
        match self {
            RawProbe::Linux(entries) => RawProbeView::Linux(entries.deep_view()),
            RawProbe::MacOs { apple_silicon } => RawProbeView::MacOs {
                apple_silicon: *apple_silicon,
            },
            RawProbe::Windows(stdout) => RawProbeView::Windows(stdout.deep_view()),
            RawProbe::Other => RawProbeView::Other,
        }
    }
}

/// The GPUs that a platform's interface reports.
pub open spec fn platform_devices(ids: pciids::PciIdsView, raw: RawProbeView) -> Seq<
    GpuDeviceView,
> {
    match raw {
        RawProbeView::Linux(entries) => linux::drm_devices(ids, entries),
        RawProbeView::MacOs { apple_silicon } => macos::mac_devices(apple_silicon),
        RawProbeView::Windows(stdout) => windows::wmi_devices(ids, stdout),
        RawProbeView::Other => Seq::empty(),
    }
}

/// Lists the GPUs that the platform's interface reports.
pub fn probe_platform(ids: &PciIds, raw: &RawProbe) -> (r: Vec<GpuDevice>)
    ensures
        r.deep_view() == platform_devices(ids.deep_view(), raw.deep_view()),
{
    match raw {
        RawProbe::Linux(entries) => linux::probe(ids, entries),
        RawProbe::MacOs { apple_silicon } => macos::probe(*apple_silicon),
        RawProbe::Windows(stdout) => windows::probe(ids, stdout),
        RawProbe::Other => {
            let r: Vec<GpuDevice> = Vec::new();
            assert(r.deep_view() =~= Seq::<GpuDeviceView>::empty());
            r
        },
    }
}

/// The GPUs of the host: what its platform reports, or the one device that
/// stands for "no GPU".
pub open spec fn host_devices(ids: pciids::PciIdsView, raw: RawProbeView) -> Seq<GpuDeviceView> {
    let found = platform_devices(ids, raw);
    if found.len() == 0 {
        seq![no_device()]
    } else {
        found
    }
}

/// Probe the host for GPUs. Never fails and never comes back empty: hardware
/// probing is best-effort, and a host that reports nothing has the one device
/// that stack resolution treats as the CPU fallback.
pub fn probe_host(ids: &PciIds, raw: &RawProbe) -> (r: Vec<GpuDevice>)
    ensures
        r.deep_view() == host_devices(ids.deep_view(), raw.deep_view()),
        r@.len() > 0,
{
    let mut devices = probe_platform(ids, raw);
    assert(devices@.len() == devices.deep_view().len());
    if devices.len() == 0 {
        devices.push(GpuDevice::none());
        assert(devices.deep_view() =~= seq![no_device()]);
    }
    devices
}

/// Known AMD integrated-GPU gfx architecture tags, used only to rank
/// discrete cards above iGPUs when multiple AMD devices are present.
pub open spec fn is_amd_igpu(arch: Seq<char>) -> bool {
    arch == "gfx902"@ || arch == "gfx90c"@
}

/// Where a class stands when one GPU must be chosen, best first: NVIDIA,
/// discrete AMD, Intel Arc/Xe, AMD iGPU, other Intel, Apple, generic Vulkan,
/// none.
pub open spec fn class_rank(class: GpuClassView) -> nat {
    match class {
        GpuClassView::Nvidia { .. } => 0,
        GpuClassView::Amd { arch } => if is_amd_igpu(arch) {
            3
        } else {
            1
        },
        GpuClassView::Intel { class } => if class == "arc"@ || class == "xe"@ {
            2
        } else {
            4
        },
        GpuClassView::Apple => 5,
        GpuClassView::Vulkan => 6,
        GpuClassView::NoGpu => 7,
    }
}

/// The rank of a device's class.
pub fn rank(device: &GpuDevice) -> (r: u8)
    ensures
        r == class_rank(device.deep_view().class),
{
    match &device.class {
        GpuClass::Nvidia { .. } => 0,
        GpuClass::Amd { arch } => if text::same(arch.as_str(), "gfx902") || text::same(
            arch.as_str(),
            "gfx90c",
        ) {
            3
        } else {
            1
        },
        GpuClass::Intel { class } => if text::same(class.as_str(), "arc") || text::same(
            class.as_str(),
            "xe",
        ) {
            2
        } else {
            4
        },
        GpuClass::Apple => 5,
        GpuClass::Vulkan => 6,
        GpuClass::NoGpu => 7,
    }
}

/// Whether the `i`-th device is the first of those with the best rank.
pub open spec fn is_primary(devices: Seq<GpuDeviceView>, i: int) -> bool {
    &&& 0 <= i < devices.len()
    &&& forall|j: int|
        0 <= j < devices.len() ==> class_rank(devices[i].class) <= class_rank(
            #[trigger] devices[j].class,
        )
    &&& forall|j: int|
        0 <= j < i ==> class_rank(devices[i].class) < class_rank(#[trigger] devices[j].class)
}

/// The device that is chosen when nobody asks for another.
pub open spec fn primary(devices: Seq<GpuDeviceView>) -> GpuDeviceView {
    devices[choose|i: int| is_primary(devices, i)]
}

/// At most one position is the primary one.
pub proof fn law_primary_is_unique(devices: Seq<GpuDeviceView>, i: int, j: int)
    requires
        is_primary(devices, i),
        is_primary(devices, j),
    ensures
        i == j,
        primary(devices) == devices[i],
{
    let k = choose|k: int| is_primary(devices, k);
    assert(is_primary(devices, k));
    assert(class_rank(devices[i].class) <= class_rank(devices[j].class));
    assert(class_rank(devices[j].class) <= class_rank(devices[i].class));
    assert(class_rank(devices[i].class) <= class_rank(devices[k].class));
    assert(class_rank(devices[k].class) <= class_rank(devices[i].class));
}

/// Where there are devices, one of them is the primary one.
pub proof fn law_primary_exists(devices: Seq<GpuDeviceView>)
    requires
        devices.len() > 0,
    ensures
        exists|i: int| is_primary(devices, i),
        exists|i: int| 0 <= i < devices.len() && #[trigger] devices[i] == primary(devices),
    decreases devices.len(),
{
    let last = devices.len() - 1;
    if devices.len() == 1 {
        assert(is_primary(devices, 0));
    } else {
        let front = devices.drop_last();
        law_primary_exists(front);
        let k = choose|k: int| is_primary(front, k);
        assert(forall|j: int| 0 <= j < last ==> #[trigger] devices[j] == front[j]);
        if class_rank(devices[last].class) < class_rank(devices[k].class) {
            assert forall|j: int| 0 <= j < last implies class_rank(devices[last].class)
                < class_rank(#[trigger] devices[j].class) by {
                assert(class_rank(front[k].class) <= class_rank(front[j].class));
            }
            assert(is_primary(devices, last));
        } else {
            assert forall|j: int| 0 <= j < devices.len() implies class_rank(devices[k].class)
                <= class_rank(#[trigger] devices[j].class) by {
                if j < last {
                    assert(class_rank(front[k].class) <= class_rank(front[j].class));
                }
            }
            assert forall|j: int| 0 <= j < k implies class_rank(devices[k].class) < class_rank(
                #[trigger] devices[j].class,
            ) by {
                assert(class_rank(front[k].class) < class_rank(front[j].class));
            }
            assert(is_primary(devices, k));
        }
    }
    let i = choose|i: int| is_primary(devices, i);
    assert(is_primary(devices, i));
    assert(devices[i] == primary(devices));
}

/// Pick the "best" device to drive stack resolution when multiple GPUs are
/// present. Priority: discrete NVIDIA > discrete AMD > Intel Arc/Xe > any
/// remaining AMD/Intel iGPU > Apple > generic Vulkan > none; of equals, the
/// first.
pub fn pick_primary(devices: &[GpuDevice]) -> (r: &GpuDevice)
    requires
        devices@.len() > 0,
    ensures
        exists|i: int|
            is_primary(devices.deep_view(), i) && #[trigger] devices@[i] == *r,
        r.deep_view() == primary(devices.deep_view()),
{
    let mut best: usize = 0;
    let mut i: usize = 1;
    let ghost view = devices.deep_view();
    while i < devices.len()
        invariant
            view == devices.deep_view(),
            best < i <= devices@.len(),
            is_primary(view.take(i as int), best as int),
        decreases devices@.len() - i,
    {
        let ghost before = view.take(i as int);
        let ghost after = view.take(i + 1);
        let current = rank(&devices[i]);
        let champion = rank(&devices[best]);
        assert(view[i as int] == devices@[i as int].deep_view());
        assert(view[best as int] == devices@[best as int].deep_view());
        assert(forall|j: int| 0 <= j < i ==> #[trigger] after[j] == before[j]);
        assert(after[i as int] == view[i as int]);
        assert(before[best as int] == view[best as int]);
        if current < champion {
            assert forall|j: int| 0 <= j < i implies class_rank(after[i as int].class)
                < class_rank(#[trigger] after[j].class) by {
                assert(class_rank(before[best as int].class) <= class_rank(before[j].class));
            }
            best = i;
        } else {
            assert forall|j: int| 0 <= j < i implies class_rank(after[best as int].class)
                <= class_rank(#[trigger] after[j].class) by {
                assert(class_rank(before[best as int].class) <= class_rank(before[j].class));
            }
            assert forall|j: int| 0 <= j < best implies class_rank(after[best as int].class)
                < class_rank(#[trigger] after[j].class) by {
                assert(class_rank(before[best as int].class) < class_rank(before[j].class));
            }
        }
        i += 1;
    }
    proof {
        assert(view.take(i as int) =~= view);
        law_primary_is_unique(view, best as int, best as int);
        assert(devices@[best as int] == devices[best as int]);
    }
    &devices[best]
}

/// Whether a class answers to a coarse vendor/family name the way a user
/// would type it on the command line, in any case of the letters.
pub open spec fn answers_to(class: GpuClassView, name: Seq<char>) -> bool {
    let name = text::lower(name);
    match class {
        GpuClassView::Nvidia { .. } => name == "nvidia"@ || name == "cuda"@,
        GpuClassView::Amd { .. } => name == "amd"@ || name == "rocm"@,
        GpuClassView::Intel { .. } => name == "intel"@ || name == "oneapi"@,
        GpuClassView::Apple => name == "apple"@ || name == "metal"@,
        GpuClassView::Vulkan => name == "vulkan"@,
        GpuClassView::NoGpu => name == "cpu"@ || name == "none"@,
    }
}

/// True if `class` matches a coarse vendor/family name the way a user would
/// type it on the command line, e.g. `--gpu amd`. Deliberately loose
/// (substring-free, case-insensitive exact keyword match) so it stays stable
/// as new arch tags are added.
pub fn class_matches_name(class: &GpuClass, name: &str) -> (r: bool)
    ensures
        r == answers_to(class.deep_view(), name@),
{
    let lowered = text::ascii_lowercase(name);
    let name = lowered.as_str();
    match class {
        GpuClass::Nvidia { .. } => text::same(name, "nvidia") || text::same(name, "cuda"),
        GpuClass::Amd { .. } => text::same(name, "amd") || text::same(name, "rocm"),
        GpuClass::Intel { .. } => text::same(name, "intel") || text::same(name, "oneapi"),
        GpuClass::Apple => text::same(name, "apple") || text::same(name, "metal"),
        GpuClass::Vulkan => text::same(name, "vulkan"),
        GpuClass::NoGpu => text::same(name, "cpu") || text::same(name, "none"),
    }
}

/// Why a `--gpu` selector picked nothing.
#[derive(Debug, PartialEq, Eq)]
pub enum SelectError {
    /// An index, and no GPUs at all.
    NoDevices { index: usize },
    /// An index past the last of `count` GPUs.
    OutOfRange { index: usize, count: usize },
    /// A name that no GPU answers to.
    NoMatch { selector: String },
}

/// What a [`SelectError`] stands for.
#[verifier::ext_equal]
pub enum SelectErrorView {
    NoDevices { index: nat },
    OutOfRange { index: nat, count: nat },
    NoMatch { selector: Seq<char> },
}

impl DeepView for SelectError {
    type V = SelectErrorView;

    open spec fn deep_view(&self) -> SelectErrorView {
        match self {
            SelectError::NoDevices { index } => SelectErrorView::NoDevices { index: *index as nat },
            SelectError::OutOfRange { index, count } => SelectErrorView::OutOfRange {
                index: *index as nat,
                count: *count as nat,
            },
            SelectError::NoMatch { selector } => SelectErrorView::NoMatch { selector: selector@ },
        }
    }
}

/// The last index into a list of `count` items.
pub open spec fn last_index(count: nat) -> nat {
    if count == 0 {
        0
    } else {
        (count - 1) as nat
    }
}

/// What the user is told about a selector that picked nothing.
pub open spec fn select_message(e: SelectErrorView) -> Seq<char> {
    match e {
        SelectErrorView::NoDevices { index } => "--gpu "@ + text::decimal(index)
            + " is out of range; no GPUs detected"@,
        SelectErrorView::OutOfRange { index, count } => "--gpu "@ + text::decimal(index)
            + " is out of range; "@ + text::decimal(count) + " GPU(s) detected (indices 0.."@
            + text::decimal(last_index(count)) + ")"@,
        SelectErrorView::NoMatch { selector } => "no detected GPU matches `"@ + selector
            + "`; run `gpubox doctor` to see what was found"@,
    }
}

impl SelectError {
    /// The error as it is shown to people.
    pub fn message(&self) -> (r: String)
        ensures
            r@ == select_message(self.deep_view()),
    {
        match self {
            SelectError::NoDevices { index } => {
                text::join3(
                    "--gpu ",
                    text::to_decimal(*index as u64).as_str(),
                    " is out of range; no GPUs detected",
                )
            },
            SelectError::OutOfRange { index, count } => {
                let mut r = text::join3(
                    "--gpu ",
                    text::to_decimal(*index as u64).as_str(),
                    " is out of range; ",
                );
                r.append(text::to_decimal(*count as u64).as_str());
                r.append(" GPU(s) detected (indices 0..");
                let last: usize = if *count == 0 {
                    0
                } else {
                    *count - 1
                };
                r.append(text::to_decimal(last as u64).as_str());
                r.append(")");
                r
            },
            SelectError::NoMatch { selector } => {
                text::join3(
                    "no detected GPU matches `",
                    selector.as_str(),
                    "`; run `gpubox doctor` to see what was found",
                )
            },
        }
    }
}

/// The first device that answers to `name`.
pub open spec fn first_named(devices: Seq<GpuDeviceView>, name: Seq<char>) -> Option<GpuDeviceView>
    decreases devices.len(),
{
    if devices.len() == 0 {
        None
    } else if answers_to(devices[0].class, name) {
        Some(devices[0])
    } else {
        first_named(devices.skip(1), name)
    }
}

/// The device that a `--gpu` selector asks for: a number is an index into the
/// list, anything else a vendor/family name.
pub open spec fn selection(devices: Seq<GpuDeviceView>, selector: Seq<char>) -> Result<
    GpuDeviceView,
    SelectErrorView,
> {
    match text::unsigned(selector, 10, usize::MAX as nat) {
        Some(index) => if index < devices.len() {
            Ok(devices[index as int])
        } else if devices.len() == 0 {
            Err(SelectErrorView::NoDevices { index })
        } else {
            Err(SelectErrorView::OutOfRange { index, count: devices.len() })
        },
        None => match first_named(devices, selector) {
            Some(device) => Ok(device),
            None => Err(SelectErrorView::NoMatch { selector }),
        },
    }
}

/// Select a specific device out of `devices` by a user-provided `--gpu`
/// selector: either a 0-based index into the detected list, or a coarse
/// vendor/family name (`nvidia`, `amd`, `intel`, `apple`, `vulkan`, `cpu`).
pub fn select(devices: &[GpuDevice], selector: &str) -> (r: Result<GpuDevice, SelectError>)
    ensures
        match r {
            Ok(device) => selection(devices.deep_view(), selector@) == Ok::<
                GpuDeviceView,
                SelectErrorView,
            >(device.deep_view()),
            Err(e) => selection(devices.deep_view(), selector@) == Err::<
                GpuDeviceView,
                SelectErrorView,
            >(e.deep_view()),
        },
{
    let ghost view = devices.deep_view();
    let count: usize = devices.len();
    if let Some(number) = text::parse_unsigned(&text::chars_of(selector), 10, usize::MAX as u64) {
        let index: usize = number as usize;
        if index < count {
            return Ok(devices[index].clone());
        }
        if count == 0 {
            return Err(SelectError::NoDevices { index });
        }
        return Err(SelectError::OutOfRange { index, count });
    }
    let mut i: usize = 0;
    assert(view.skip(0) =~= view);
    while i < count
        invariant
            view == devices.deep_view(),
            count == devices@.len(),
            i <= count,
            first_named(view, selector@) == first_named(view.skip(i as int), selector@),
            text::unsigned(selector@, 10, usize::MAX as nat) is None,
        decreases count - i,
    {
        assert(view.skip(i as int)[0] == devices@[i as int].deep_view());
        if class_matches_name(&devices[i].class, selector) {
            return Ok(devices[i].clone());
        }
        assert(view.skip(i as int).skip(1) =~= view.skip(i + 1));
        i += 1;
    }
    Err(SelectError::NoMatch { selector: selector.to_string() })
}

/// The kinds of GPUs that are told apart when one of them must be chosen.
pub enum GpuKind {
    Nvidia,
    DiscreteAmd,
    ArcOrXe,
    AmdIgpu,
    OtherIntel,
    Apple,
    Vulkan,
    NoGpu,
}

/// The kind of a class. Of the AMD GPUs, `gfx902` and `gfx90c` are integrated.
pub open spec fn kind_of(class: GpuClassView) -> GpuKind {
    match class {
        GpuClassView::Nvidia { .. } => GpuKind::Nvidia,
        GpuClassView::Amd { arch } => if arch != "gfx902"@ && arch != "gfx90c"@ {
            GpuKind::DiscreteAmd
        } else {
            GpuKind::AmdIgpu
        },
        GpuClassView::Intel { class } => if class == "arc"@ || class == "xe"@ {
            GpuKind::ArcOrXe
        } else {
            GpuKind::OtherIntel
        },
        GpuClassView::Apple => GpuKind::Apple,
        GpuClassView::Vulkan => GpuKind::Vulkan,
        GpuClassView::NoGpu => GpuKind::NoGpu,
    }
}

/// Whether there is a device of the given kind.
pub open spec fn has_kind(devices: Seq<GpuDeviceView>, kind: GpuKind) -> bool {
    exists|i: int| 0 <= i < devices.len() && kind_of((#[trigger] devices[i]).class) == kind
}

/// The primary device is an NVIDIA GPU if there is one; else a discrete AMD
/// GPU if there is one; else an Intel Arc/Xe; else an AMD iGPU; else any other
/// Intel GPU; else Apple's; else one that can do no more than Vulkan; and only
/// else none.
pub proof fn law_primary_is_of_the_best_kind(devices: Seq<GpuDeviceView>)
    requires
        devices.len() > 0,
    ensures
        has_kind(devices, GpuKind::Nvidia) ==> primary(devices).class is Nvidia,
        !has_kind(devices, GpuKind::Nvidia) && has_kind(devices, GpuKind::DiscreteAmd) ==> kind_of(
            primary(devices).class,
        ) == GpuKind::DiscreteAmd,
        !has_kind(devices, GpuKind::Nvidia) && !has_kind(devices, GpuKind::DiscreteAmd) && has_kind(
            devices,
            GpuKind::ArcOrXe,
        ) ==> kind_of(primary(devices).class) == GpuKind::ArcOrXe,
        !has_kind(devices, GpuKind::Nvidia) && !has_kind(devices, GpuKind::DiscreteAmd)
            && !has_kind(devices, GpuKind::ArcOrXe) && has_kind(devices, GpuKind::AmdIgpu)
            ==> kind_of(primary(devices).class) == GpuKind::AmdIgpu,
        !has_kind(devices, GpuKind::Nvidia) && !has_kind(devices, GpuKind::DiscreteAmd)
            && !has_kind(devices, GpuKind::ArcOrXe) && !has_kind(devices, GpuKind::AmdIgpu)
            && has_kind(devices, GpuKind::OtherIntel) ==> primary(devices).class is Intel,
        !has_kind(devices, GpuKind::Nvidia) && !has_kind(devices, GpuKind::DiscreteAmd)
            && !has_kind(devices, GpuKind::ArcOrXe) && !has_kind(devices, GpuKind::AmdIgpu)
            && !has_kind(devices, GpuKind::OtherIntel) && has_kind(devices, GpuKind::Apple)
            ==> primary(devices).class is Apple,
        !has_kind(devices, GpuKind::Nvidia) && !has_kind(devices, GpuKind::DiscreteAmd)
            && !has_kind(devices, GpuKind::ArcOrXe) && !has_kind(devices, GpuKind::AmdIgpu)
            && !has_kind(devices, GpuKind::OtherIntel) && !has_kind(devices, GpuKind::Apple)
            && has_kind(devices, GpuKind::Vulkan) ==> primary(devices).class is Vulkan,
        primary(devices).class is NoGpu ==> forall|i: int|
            0 <= i < devices.len() ==> (#[trigger] devices[i]).class is NoGpu,
{
    law_primary_exists(devices);
    let i = choose|i: int| is_primary(devices, i);
    law_primary_is_unique(devices, i, i);
    assert(devices[i] == primary(devices));
    assert forall|j: int| 0 <= j < devices.len() implies class_rank(primary(devices).class)
        <= class_rank((#[trigger] devices[j]).class) by {
        assert(class_rank(devices[i].class) <= class_rank(devices[j].class));
    }
    assert(has_kind(devices, kind_of(devices[i].class)));
}

/// Of devices of one kind, the first is the primary one.
pub proof fn law_primary_is_the_first_of_its_kind(devices: Seq<GpuDeviceView>)
    requires
        devices.len() > 0,
    ensures
        exists|i: int|
            0 <= i < devices.len() && #[trigger] devices[i] == primary(devices) && forall|j: int|
                0 <= j < i ==> kind_of((#[trigger] devices[j]).class) != kind_of(devices[i].class),
{
    law_primary_exists(devices);
    let i = choose|i: int| is_primary(devices, i);
    law_primary_is_unique(devices, i, i);
    assert forall|j: int| 0 <= j < i implies kind_of((#[trigger] devices[j]).class) != kind_of(
        devices[i].class,
    ) by {
        assert(class_rank(devices[i].class) < class_rank(devices[j].class));
    }
    assert(devices[i] == primary(devices));
}

/// Whether a name, in any case of its letters, is one of the two given ones.
pub open spec fn is_either(name: Seq<char>, a: Seq<char>, b: Seq<char>) -> bool {
    text::lower(name) == a || text::lower(name) == b
}

/// Whether a name asks for the vendor of a class, by the vendor's own name or
/// that of its stack.
pub open spec fn asks_for(name: Seq<char>, class: GpuClassView) -> bool {
    ||| class is Nvidia && is_either(name, "nvidia"@, "cuda"@)
    ||| class is Amd && is_either(name, "amd"@, "rocm"@)
    ||| class is Intel && is_either(name, "intel"@, "oneapi"@)
    ||| class is Apple && is_either(name, "apple"@, "metal"@)
    ||| class is Vulkan && text::lower(name) == "vulkan"@
    ||| class is NoGpu && is_either(name, "cpu"@, "none"@)
}

proof fn lemma_names_are_no_numbers(name: Seq<char>, class: GpuClassView)
    requires
        asks_for(name, class),
    ensures
        text::unsigned(name, 10, usize::MAX as nat) is None,
{
    reveal_strlit("nvidia");
    reveal_strlit("cuda");
    reveal_strlit("amd");
    reveal_strlit("rocm");
    reveal_strlit("intel");
    reveal_strlit("oneapi");
    reveal_strlit("apple");
    reveal_strlit("metal");
    reveal_strlit("vulkan");
    reveal_strlit("cpu");
    reveal_strlit("none");
    assert(text::lower(name).len() > 0);
    assert('a' <= text::lower(name)[0] <= 'z');
    text::law_lower_changes_capitals_only(name, 0);
    text::law_words_are_no_numbers(name, usize::MAX as nat);
}

proof fn lemma_first_named(devices: Seq<GpuDeviceView>, name: Seq<char>, i: int)
    requires
        0 <= i < devices.len(),
        answers_to(devices[i].class, name),
        forall|j: int| 0 <= j < i ==> !answers_to((#[trigger] devices[j]).class, name),
    ensures
        first_named(devices, name) == Some(devices[i]),
    decreases i,
{
    if i > 0 {
        assert(!answers_to(devices[0].class, name));
        assert forall|j: int| 0 <= j < i - 1 implies !answers_to(
            (#[trigger] devices.skip(1)[j]).class,
            name,
        ) by {
            assert(!answers_to(devices[j + 1].class, name));
        }
        lemma_first_named(devices.skip(1), name, i - 1);
    }
}

proof fn lemma_none_named(devices: Seq<GpuDeviceView>, name: Seq<char>)
    requires
        forall|j: int| 0 <= j < devices.len() ==> !answers_to((#[trigger] devices[j]).class, name),
    ensures
        first_named(devices, name) is None,
    decreases devices.len(),
{
    if devices.len() > 0 {
        assert(!answers_to(devices[0].class, name));
        assert forall|j: int| 0 <= j < devices.skip(1).len() implies !answers_to(
            (#[trigger] devices.skip(1)[j]).class,
            name,
        ) by {
            assert(!answers_to(devices[j + 1].class, name));
        }
        lemma_none_named(devices.skip(1), name);
    }
}

/// A `--gpu` that is a vendor's name, or its stack's, in any case of the
/// letters, selects the first device of that vendor whenever there is one.
pub proof fn law_vendors_are_selected_by_name(
    devices: Seq<GpuDeviceView>,
    selector: Seq<char>,
    i: int,
)
    requires
        0 <= i < devices.len(),
        asks_for(selector, devices[i].class),
        forall|j: int| 0 <= j < i ==> !asks_for(selector, (#[trigger] devices[j]).class),
    ensures
        selection(devices, selector) == Ok::<GpuDeviceView, SelectErrorView>(devices[i]),
{
    lemma_names_are_no_numbers(selector, devices[i].class);
    lemma_vendor_names_differ();
    assert forall|j: int| 0 <= j < i implies !answers_to(
        (#[trigger] devices[j]).class,
        selector,
    ) by {
        assert(!asks_for(selector, devices[j].class));
    }
    lemma_first_named(devices, selector, i);
}

/// One name asks for one vendor: two classes that answer to the same name are
/// of the same vendor.
pub proof fn law_names_tell_vendors_apart(a: GpuClassView, b: GpuClassView, name: Seq<char>)
    requires
        asks_for(name, a),
        asks_for(name, b),
    ensures
        a is Nvidia <==> b is Nvidia,
        a is Amd <==> b is Amd,
        a is Intel <==> b is Intel,
        a is Apple <==> b is Apple,
        a is Vulkan <==> b is Vulkan,
        a is NoGpu <==> b is NoGpu,
{
    lemma_vendor_names_differ();
}

proof fn lemma_vendor_names_differ()
    ensures
        "nvidia"@ != "vulkan"@,
        "nvidia"@ != "oneapi"@,
        "vulkan"@ != "oneapi"@,
        "cuda"@ != "rocm"@,
        "cuda"@ != "none"@,
        "rocm"@ != "none"@,
        "amd"@ != "cpu"@,
        "intel"@ != "apple"@,
        "intel"@ != "metal"@,
        "apple"@ != "metal"@,
        "nvidia"@.len() == 6,
        "oneapi"@.len() == 6,
        "vulkan"@.len() == 6,
        "cuda"@.len() == 4,
        "rocm"@.len() == 4,
        "none"@.len() == 4,
        "amd"@.len() == 3,
        "cpu"@.len() == 3,
        "intel"@.len() == 5,
        "apple"@.len() == 5,
        "metal"@.len() == 5,
{
    reveal_strlit("nvidia");
    reveal_strlit("cuda");
    reveal_strlit("amd");
    reveal_strlit("rocm");
    reveal_strlit("intel");
    reveal_strlit("oneapi");
    reveal_strlit("apple");
    reveal_strlit("metal");
    reveal_strlit("vulkan");
    reveal_strlit("cpu");
    reveal_strlit("none");
    assert("nvidia"@[0] == 'n' && "oneapi"@[0] == 'o' && "vulkan"@[0] == 'v');
    assert("cuda"@[0] == 'c' && "rocm"@[0] == 'r' && "none"@[0] == 'n');
    assert("amd"@[0] == 'a' && "cpu"@[0] == 'c');
    assert("intel"@[0] == 'i' && "apple"@[0] == 'a' && "metal"@[0] == 'm');
}

/// A `--gpu` that no device's vendor answers to, and that is no number, selects
/// nothing; and the error names it.
pub proof fn law_unknown_names_select_nothing(devices: Seq<GpuDeviceView>, selector: Seq<char>)
    requires
        text::unsigned(selector, 10, usize::MAX as nat) is None,
        forall|j: int| 0 <= j < devices.len() ==> !asks_for(selector, (#[trigger] devices[j]).class),
    ensures
        selection(devices, selector) == Err::<GpuDeviceView, SelectErrorView>(
            SelectErrorView::NoMatch { selector },
        ),
{
    assert forall|j: int| 0 <= j < devices.len() implies !answers_to(
        (#[trigger] devices[j]).class,
        selector,
    ) by {
        assert(!asks_for(selector, devices[j].class));
    }
    lemma_none_named(devices, selector);
}

/// A `--gpu` that is a number selects the device at that index, counted from
/// zero; an index past the last device is an error that says how many there
/// are.
pub proof fn law_devices_are_selected_by_index(devices: Seq<GpuDeviceView>, index: nat)
    requires
        index <= usize::MAX,
    ensures
        index < devices.len() ==> selection(devices, text::decimal(index)) == Ok::<
            GpuDeviceView,
            SelectErrorView,
        >(devices[index as int]),
        devices.len() > 0 && index >= devices.len() ==> selection(devices, text::decimal(index))
            == Err::<GpuDeviceView, SelectErrorView>(
            SelectErrorView::OutOfRange { index, count: devices.len() },
        ),
        devices.len() == 0 ==> selection(devices, text::decimal(index)) == Err::<
            GpuDeviceView,
            SelectErrorView,
        >(SelectErrorView::NoDevices { index }),
{
    text::law_decimal_is_parsed(index, usize::MAX as nat);
}

/// What the user is told about a selector that picked nothing names the
/// selector; an index past the last GPU comes with the number of GPUs and the
/// last index there is, and one where there are no GPUs with neither.
pub proof fn law_selection_errors_say_what_was_asked_for(
    index: nat,
    count: nat,
    selector: Seq<char>,
)
    requires
        count > 0,
    ensures
        select_message(SelectErrorView::OutOfRange { index, count }) == "--gpu "@ + text::decimal(
            index,
        ) + " is out of range; "@ + text::decimal(count) + " GPU(s) detected (indices 0.."@
            + text::decimal((count - 1) as nat) + ")"@,
        select_message(SelectErrorView::NoDevices { index }) == "--gpu "@ + text::decimal(index)
            + " is out of range; no GPUs detected"@,
        text::has_prefix(
            select_message(SelectErrorView::NoMatch { selector }),
            "no detected GPU matches `"@ + selector + "`"@,
        ),
{
    reveal_strlit("`; run `gpubox doctor` to see what was found");
    reveal_strlit("`");
    let start = "no detected GPU matches `"@ + selector + "`"@;
    let message = select_message(SelectErrorView::NoMatch { selector });
    assert(message.subrange(0, start.len() as int) =~= start);
}

/// How each class is named to people.
pub proof fn law_descriptions(arch: Seq<char>)
    ensures
        description(GpuClassView::Nvidia { arch }) == "NVIDIA ("@ + arch + ")"@,
        description(GpuClassView::Amd { arch }) == "AMD ("@ + arch + ")"@,
        description(GpuClassView::Intel { class: arch }) == "Intel ("@ + arch + ")"@,
        description(GpuClassView::Apple) == "Apple Silicon"@,
        description(GpuClassView::Vulkan) == "unrecognized GPU (Vulkan capable)"@,
        description(GpuClassView::NoGpu) == "none"@,
{
}

/// The host's GPUs are what its platform reports, each in its place; and a host
/// that reports nothing has one device, of no vendor and at no node, that
/// stands for "no GPU".
pub proof fn law_hosts_have_what_their_platform_reports(
    ids: pciids::PciIdsView,
    raw: RawProbeView,
    entries: Seq<DrmEntryView>,
    stdout: Option<Seq<char>>,
)
    ensures
        host_devices(ids, raw).len() > 0,
        platform_devices(ids, raw).len() > 0 ==> host_devices(ids, raw) == platform_devices(
            ids,
            raw,
        ),
        platform_devices(ids, raw).len() == 0 ==> host_devices(ids, raw).len() == 1 && ({
            let device = host_devices(ids, raw)[0];
            &&& device.class is NoGpu
            &&& device.node is None
            &&& device.vendor_id is None
            &&& device.device_id is None
        }),
        platform_devices(ids, RawProbeView::Linux(entries)) == linux::drm_devices(ids, entries),
        platform_devices(ids, RawProbeView::Windows(stdout)) == windows::wmi_devices(ids, stdout),
        platform_devices(ids, RawProbeView::Other).len() == 0,
        platform_devices(ids, RawProbeView::MacOs { apple_silicon: false }).len() == 0,
        platform_devices(ids, RawProbeView::MacOs { apple_silicon: true }).len() == 1,
        platform_devices(ids, RawProbeView::MacOs { apple_silicon: true })[0] == (GpuDeviceView {
            vendor_id: None,
            device_id: None,
            node: Some("Apple GPU (integrated)"@),
            class: GpuClassView::Apple,
        }),
{
}

} // verus!
