//! Stage 3: device injection (Linux only).
//!
//! Decides how to hand the GPU to the container: CDI where a spec is present,
//! otherwise raw `--device` nodes for AMD/Intel or the
//! nvidia-container-toolkit's `--gpus` flag for NVIDIA. Also figures out
//! which host userspace driver libraries need to be bind-mounted in for
//! NVIDIA, since the kernel driver and userspace libs must be the exact
//! same version.

use vstd::prelude::*;
use crate::mounts;
use crate::mounts::{BindMount, BindMountView};
use crate::probe;
use crate::probe::linux::{has_extension, is_cdi_spec};
use crate::probe::{GpuClass, GpuClassView};
use crate::text;

verus! {

/// A bind mount of a specific host path into the same path in the
/// container, read-only.
#[derive(Debug, PartialEq, Eq)]
pub struct RoMount {
    pub host: String,
}

impl DeepView for RoMount {
    type V = Seq<char>;

    open spec fn deep_view(&self) -> Seq<char> {
        self.host@
    }
}

impl Clone for RoMount {
    fn clone(&self) -> (r: Self)
        ensures
            r.deep_view() == self.deep_view(),
    {
        RoMount { host: self.host.clone() }
    }
}

/// Extra docker/podman CLI arguments needed to grant access to the GPU.
#[derive(Debug, PartialEq, Eq)]
pub struct DeviceInjection {
    pub args: Vec<String>,
    /// Read-only host library bind mounts (NVIDIA userspace driver libs).
    pub library_mounts: Vec<RoMount>,
    /// Human-readable explanation of the chosen path, surfaced by
    /// `gpubox doctor`.
    pub reason: String,
}

/// What a [`DeviceInjection`] stands for; a library mount by its path.
#[verifier::ext_equal]
pub struct DeviceInjectionView {
    pub args: Seq<Seq<char>>,
    pub library_mounts: Seq<Seq<char>>,
    pub reason: Seq<char>,
}

impl DeepView for DeviceInjection {
    type V = DeviceInjectionView;

    open spec fn deep_view(&self) -> DeviceInjectionView {
        DeviceInjectionView {
            args: self.args.deep_view(),
            library_mounts: self.library_mounts.deep_view(),
            reason: self.reason@,
        }
    }
}

impl Clone for DeviceInjection {
    fn clone(&self) -> (r: Self)
        ensures
            r.deep_view() == self.deep_view(),
    {
        let mut library_mounts: Vec<RoMount> = Vec::new();
        let mut i: usize = 0;
        while i < self.library_mounts.len()
            invariant
                i <= self.library_mounts@.len(),
                library_mounts.deep_view() =~= self.library_mounts.deep_view().take(i as int),
            decreases self.library_mounts@.len() - i,
        {
            let ghost before = library_mounts.deep_view();
            library_mounts.push(self.library_mounts[i].clone());
            assert(library_mounts.deep_view() =~= before.push(
                self.library_mounts.deep_view()[i as int],
            ));
            i += 1;
        }
        DeviceInjection {
            args: text::clone_strings(&self.args),
            library_mounts,
            reason: self.reason.clone(),
        }
    }
}

/// Nothing to inject.
pub open spec fn no_injection() -> DeviceInjectionView {
    DeviceInjectionView { args: Seq::empty(), library_mounts: Seq::empty(), reason: Seq::empty() }
}

impl Default for DeviceInjection {
    fn default() -> (r: DeviceInjection)
        ensures
            r.deep_view() == no_injection(),
    {
        let library_mounts: Vec<RoMount> = Vec::new();
        assert(library_mounts.deep_view() =~= Seq::<Seq<char>>::empty());
        DeviceInjection { args: text::no_strings(), library_mounts, reason: String::new() }
    }
}

/// A file in one of the directories that may hold driver libraries.
#[derive(Debug)]
pub struct LibraryFile {
    pub name: String,
    pub path: String,
    /// Whether it is a regular file (or a link to one).
    pub is_file: bool,
}

/// What a [`LibraryFile`] stands for.
#[verifier::ext_equal]
pub struct LibraryFileView {
    pub name: Seq<char>,
    pub path: Seq<char>,
    pub is_file: bool,
}

impl DeepView for LibraryFile {
    type V = LibraryFileView;

    open spec fn deep_view(&self) -> LibraryFileView {
        LibraryFileView { name: self.name@, path: self.path@, is_file: self.is_file }
    }
}

/// What the host has to say about its device nodes and drivers.
#[derive(Debug)]
pub struct DeviceHost {
    /// The file names under `/etc/cdi` and `/var/run/cdi`.
    pub cdi_files: Vec<String>,
    /// Whether `/dev/kfd` exists: the kernel exposes an AMD KFD (compute)
    /// node, meaning ROCm's HSA runtime can attach to the GPU.
    pub has_kfd: bool,
    /// The files in the directories of [`nvidia_lib_dirs`], in this order.
    pub library_files: Vec<LibraryFile>,
}

/// What a [`DeviceHost`] stands for.
#[verifier::ext_equal]
pub struct DeviceHostView {
    pub cdi_files: Seq<Seq<char>>,
    pub has_kfd: bool,
    pub library_files: Seq<LibraryFileView>,
}

impl DeepView for DeviceHost {
    type V = DeviceHostView;

    open spec fn deep_view(&self) -> DeviceHostView {
        DeviceHostView {
            cdi_files: self.cdi_files.deep_view(),
            has_kfd: self.has_kfd,
            library_files: self.library_files.deep_view(),
        }
    }
}

/// Whether a CDI spec is among the given files.
pub open spec fn has_cdi(files: Seq<Seq<char>>) -> bool {
    exists|i: int| 0 <= i < files.len() && is_cdi_spec(#[trigger] files[i])
}

/// True if a CDI (Container Device Interface) spec directory has at least
/// one spec file. Both modern docker and podman can consume CDI specs
/// directly via `--device`, which is the preferred, most portable path.
pub fn cdi_available(host: &DeviceHost) -> (r: bool)
    ensures
        r == has_cdi(host.deep_view().cdi_files),
{
    probe::cdi_available(&host.cdi_files)
}

/// Common locations for the NVIDIA userspace driver stack across major
/// distros, WSL2's GPU paravirtualization driver location last.
pub fn nvidia_lib_dirs() -> (r: Vec<String>)
    ensures
        r.deep_view() == seq![
            "/usr/lib/x86_64-linux-gnu"@,
            "/usr/lib/aarch64-linux-gnu"@,
            "/usr/lib64"@,
            "/usr/lib/wsl/lib"@,
        ],
{
    let mut r = text::no_strings();
    text::push_str(&mut r, "/usr/lib/x86_64-linux-gnu");
    text::push_str(&mut r, "/usr/lib/aarch64-linux-gnu");
    text::push_str(&mut r, "/usr/lib64");
    text::push_str(&mut r, "/usr/lib/wsl/lib");
    r
}

/// Whether a file is a userspace library of the NVIDIA driver.
pub open spec fn is_driver_library(file: LibraryFileView) -> bool {
    (text::has_prefix(file.name, "libcuda.so"@) || text::has_prefix(file.name, "libnvidia-"@))
        && file.is_file
}

/// The paths of the driver libraries among the given files, in order.
pub open spec fn driver_libraries(files: Seq<LibraryFileView>) -> Seq<Seq<char>>
    decreases files.len(),
{
    if files.len() == 0 {
        Seq::empty()
    } else {
        let before = driver_libraries(files.drop_last());
        if is_driver_library(files.last()) {
            before.push(files.last().path)
        } else {
            before
        }
    }
}

/// The read-only mounts of whatever driver libraries the host has, so the
/// container's userspace exactly matches the host's kernel driver.
pub fn nvidia_driver_library_mounts(files: &Vec<LibraryFile>) -> (r: Vec<RoMount>)
    ensures
        r.deep_view() == driver_libraries(files.deep_view()),
{
    let ghost view = files.deep_view();
    let mut r: Vec<RoMount> = Vec::new();
    let mut i: usize = 0;
    assert(r.deep_view() =~= Seq::<Seq<char>>::empty());
    while i < files.len()
        invariant
            view == files.deep_view(),
            i <= files@.len(),
            r.deep_view() == driver_libraries(view.take(i as int)),
        decreases files@.len() - i,
    {
        let file = &files[i];
        let ghost before = r.deep_view();
        assert(view.take(i + 1).drop_last() =~= view.take(i as int));
        assert(view.take(i + 1).last() == file.deep_view());
        if (text::starts_with(file.name.as_str(), "libcuda.so") || text::starts_with(
            file.name.as_str(),
            "libnvidia-",
        )) && file.is_file {
            r.push(RoMount { host: file.path.clone() });
            assert(r.deep_view() =~= before.push(file.path@));
        }
        i += 1;
    }
    assert(view.take(i as int) =~= view);
    r
}

/// How an NVIDIA GPU is handed over: by CDI, whose specs declare their own
/// library mounts, or by the toolkit's `--gpus` with the host's driver
/// libraries mounted.
pub open spec fn nvidia_view(host: DeviceHostView) -> DeviceInjectionView {
    if has_cdi(host.cdi_files) {
        DeviceInjectionView {
            args: seq!["--device"@, "nvidia.com/gpu=all"@],
            library_mounts: Seq::empty(),
            reason: "CDI spec found under /etc/cdi or /var/run/cdi; using nvidia.com/gpu=all"@,
        }
    } else {
        DeviceInjectionView {
            args: seq!["--gpus"@, "all"@],
            library_mounts: driver_libraries(host.library_files),
            reason: "no CDI spec found; falling back to nvidia-container-toolkit's --gpus=all (requires the toolkit's runtime hook to be installed on the host)"@,
        }
    }
}

/// Hands an NVIDIA GPU to the container.
pub fn nvidia_injection(host: &DeviceHost) -> (r: DeviceInjection)
    ensures
        r.deep_view() == nvidia_view(host.deep_view()),
{
    let mut args = text::no_strings();
    if cdi_available(host) {
        text::push_str(&mut args, "--device");
        text::push_str(&mut args, "nvidia.com/gpu=all");
        let library_mounts: Vec<RoMount> = Vec::new();
        assert(library_mounts.deep_view() =~= Seq::<Seq<char>>::empty());
        DeviceInjection {
            args,
            library_mounts,
            reason: "CDI spec found under /etc/cdi or /var/run/cdi; using nvidia.com/gpu=all".to_string(),
        }
    } else {
        text::push_str(&mut args, "--gpus");
        text::push_str(&mut args, "all");
        DeviceInjection {
            args,
            library_mounts: nvidia_driver_library_mounts(&host.library_files),
            reason: "no CDI spec found; falling back to nvidia-container-toolkit's --gpus=all (requires the toolkit's runtime hook to be installed on the host)".to_string(),
        }
    }
}

/// How an AMD GPU is handed over: its render nodes, and the compute node where
/// the host has one.
pub open spec fn amd_view(has_kfd: bool) -> DeviceInjectionView {
    if has_kfd {
        DeviceInjectionView {
            args: seq!["--device"@, "/dev/dri"@, "--device"@, "/dev/kfd"@],
            library_mounts: Seq::empty(),
            reason: "--device /dev/dri for rendering"@ + "; "@
                + "--device /dev/kfd for ROCm compute (HSA)"@,
        }
    } else {
        DeviceInjectionView {
            args: seq!["--device"@, "/dev/dri"@],
            library_mounts: Seq::empty(),
            reason: "--device /dev/dri for rendering"@,
        }
    }
}

/// Hands an AMD GPU to the container.
pub fn amd_injection(has_kfd: bool) -> (r: DeviceInjection)
    ensures
        r.deep_view() == amd_view(has_kfd),
{
    let mut args = text::no_strings();
    text::push_str(&mut args, "--device");
    text::push_str(&mut args, "/dev/dri");
    let mut notes = text::no_strings();
    text::push_str(&mut notes, "--device /dev/dri for rendering");
    if has_kfd {
        text::push_str(&mut args, "--device");
        text::push_str(&mut args, "/dev/kfd");
        text::push_str(&mut notes, "--device /dev/kfd for ROCm compute (HSA)");
    }
    let reason = text::join(&notes, "; ");
    proof {
        reveal_with_fuel(text::joined, 2);
        let view = notes.deep_view();
        if has_kfd {
            assert(view.drop_last() =~= seq!["--device /dev/dri for rendering"@]);
        }
    }
    let library_mounts: Vec<RoMount> = Vec::new();
    assert(library_mounts.deep_view() =~= Seq::<Seq<char>>::empty());
    DeviceInjection { args, library_mounts, reason }
}

/// How an Intel GPU is handed over: its render nodes.
pub open spec fn intel_view() -> DeviceInjectionView {
    DeviceInjectionView {
        args: seq!["--device"@, "/dev/dri"@],
        library_mounts: Seq::empty(),
        reason: "--device /dev/dri for Intel VA-API/oneAPI Level Zero"@,
    }
}

/// Hands an Intel GPU to the container.
pub fn intel_injection() -> (r: DeviceInjection)
    ensures
        r.deep_view() == intel_view(),
{
    let mut args = text::no_strings();
    text::push_str(&mut args, "--device");
    text::push_str(&mut args, "/dev/dri");
    let library_mounts: Vec<RoMount> = Vec::new();
    assert(library_mounts.deep_view() =~= Seq::<Seq<char>>::empty());
    DeviceInjection {
        args,
        library_mounts,
        reason: "--device /dev/dri for Intel VA-API/oneAPI Level Zero".to_string(),
    }
}

/// How a GPU of the given class is handed over.
pub open spec fn injection(class: GpuClassView, host: DeviceHostView) -> DeviceInjectionView {
    match class {
        GpuClassView::Nvidia { .. } => nvidia_view(host),
        GpuClassView::Amd { .. } => amd_view(host.has_kfd),
        GpuClassView::Intel { .. } => intel_view(),
        GpuClassView::Vulkan => no_injection(),
        GpuClassView::Apple => no_injection(),
        GpuClassView::NoGpu => no_injection(),
    }
}

/// Decide how to inject the detected GPU class into the container.
pub fn plan(class: &GpuClass, host: &DeviceHost) -> (r: DeviceInjection)
    ensures
        r.deep_view() == injection(class.deep_view(), host.deep_view()),
{
    match class {
        GpuClass::Nvidia { .. } => nvidia_injection(host),
        GpuClass::Amd { .. } => amd_injection(host.has_kfd),
        GpuClass::Intel { .. } => intel_injection(),
        GpuClass::Vulkan | GpuClass::Apple | GpuClass::NoGpu => DeviceInjection::default(),
    }
}

/// The bind mounts of read-only host libraries: each at its own path.
pub open spec fn library_binds(paths: Seq<Seq<char>>) -> Seq<BindMountView> {
    Seq::new(paths.len(), |i: int| mounts::same_path(paths[i], true))
}

/// Turns library mounts into bind mounts.
pub fn bind_libraries(libraries: &Vec<RoMount>) -> (r: Vec<BindMount>)
    ensures
        r.deep_view() == library_binds(libraries.deep_view()),
{
    let ghost expected = library_binds(libraries.deep_view());
    let mut r: Vec<BindMount> = Vec::new();
    let mut i: usize = 0;
    assert(r.deep_view() =~= expected.take(0));
    while i < libraries.len()
        invariant
            expected == library_binds(libraries.deep_view()),
            i <= libraries@.len(),
            r.deep_view() == expected.take(i as int),
        decreases libraries@.len() - i,
    {
        mounts::push_mount(&mut r, libraries[i].host.as_str(), true);
        assert(expected.take(i + 1) =~= expected.take(i as int).push(expected[i as int]));
        i += 1;
    }
    assert(expected.take(i as int) =~= expected);
    r
}

/// GPUs without a vendor's stack need nothing handed over.
pub proof fn law_only_vendor_gpus_are_injected(class: GpuClassView, host: DeviceHostView)
    requires
        class is Vulkan || class is Apple || class is NoGpu,
    ensures
        injection(class, host) == no_injection(),
{
}

/// Whatever is mounted for a GPU is a library of the host, read-only and under
/// its own path; and where the engine can use CDI nothing is mounted at all.
pub proof fn law_libraries_are_read_only(class: GpuClassView, host: DeviceHostView, i: int)
    requires
        0 <= i < library_binds(injection(class, host).library_mounts).len(),
    ensures
        library_binds(injection(class, host).library_mounts)[i].read_only,
        library_binds(injection(class, host).library_mounts)[i].host == library_binds(
            injection(class, host).library_mounts,
        )[i].container,
        !has_cdi(host.cdi_files),
        class is Nvidia,
{
}

/// Whether a name is the given stem with anything after it.
pub open spec fn is_named_after(name: Seq<char>, stem: Seq<char>) -> bool {
    exists|rest: Seq<char>| name == #[trigger] (stem + rest)
}

/// The engine can use CDI exactly where one of the files has the extension
/// `yaml` or `json`.
pub proof fn law_cdi_needs_a_spec(files: Seq<Seq<char>>)
    ensures
        has_cdi(files) <==> exists|i: int|
            0 <= i < files.len() && (has_extension(#[trigger] files[i], "yaml"@) || has_extension(
                files[i],
                "json"@,
            )),
{
    if has_cdi(files) {
        let i = choose|i: int| 0 <= i < files.len() && is_cdi_spec(#[trigger] files[i]);
        probe::linux::law_cdi_specs_are_yaml_or_json(files[i]);
    }
    if exists|i: int|
        0 <= i < files.len() && (has_extension(#[trigger] files[i], "yaml"@) || has_extension(
            files[i],
            "json"@,
        )) {
        let i = choose|i: int|
            0 <= i < files.len() && (has_extension(#[trigger] files[i], "yaml"@) || has_extension(
                files[i],
                "json"@,
            ));
        probe::linux::law_cdi_specs_are_yaml_or_json(files[i]);
        assert(is_cdi_spec(files[i]));
    }
}

proof fn lemma_driver_libraries(files: Seq<LibraryFileView>, path: Seq<char>)
    ensures
        driver_libraries(files).contains(path) <==> exists|i: int|
            0 <= i < files.len() && is_driver_library(#[trigger] files[i]) && files[i].path == path,
    decreases files.len(),
{
    if files.len() > 0 {
        let front = files.drop_last();
        lemma_driver_libraries(front, path);
        let before = driver_libraries(front);
        let all = driver_libraries(files);
        if all.contains(path) {
            let k = all.index_of(path);
            if k < before.len() {
                assert(before[k] == path);
                let i = choose|i: int|
                    0 <= i < front.len() && is_driver_library(#[trigger] front[i]) && front[i].path
                        == path;
                assert(files[i] == front[i]);
            } else {
                assert(is_driver_library(files[files.len() - 1]));
            }
        }
        if exists|i: int|
            0 <= i < files.len() && is_driver_library(#[trigger] files[i]) && files[i].path
                == path {
            let i = choose|i: int|
                0 <= i < files.len() && is_driver_library(#[trigger] files[i]) && files[i].path
                    == path;
            if i < front.len() {
                assert(front[i] == files[i]);
                let k = before.index_of(path);
                assert(all[k] == path);
            } else {
                assert(all.last() == path);
            }
        }
    }
}

/// Without a CDI spec, what is mounted for an NVIDIA GPU are the regular files
/// of the library directories whose names begin with `libcuda.so` or with
/// `libnvidia-`: each of them, and no other file.
pub proof fn law_driver_libraries_are_mounted(
    arch: Seq<char>,
    host: DeviceHostView,
    path: Seq<char>,
)
    requires
        !has_cdi(host.cdi_files),
    ensures
        injection(GpuClassView::Nvidia { arch }, host).library_mounts.contains(path)
            <==> exists|i: int|
            0 <= i < host.library_files.len() && (#[trigger] host.library_files[i]).path == path
                && host.library_files[i].is_file && (is_named_after(
                host.library_files[i].name,
                "libcuda.so"@,
            ) || is_named_after(host.library_files[i].name, "libnvidia-"@)),
{
    let files = host.library_files;
    lemma_driver_libraries(files, path);
    assert forall|i: int| 0 <= i < files.len() implies is_driver_library(#[trigger] files[i]) == (
    files[i].is_file && (is_named_after(files[i].name, "libcuda.so"@) || is_named_after(
        files[i].name,
        "libnvidia-"@,
    ))) by {
        text::law_prefix_is_followed(files[i].name, "libcuda.so"@);
        text::law_prefix_is_followed(files[i].name, "libnvidia-"@);
    }
}

/// The driver libraries are mounted in the order in which the directories list
/// them, each as often as it is listed.
pub proof fn law_driver_libraries_keep_their_order(
    a: Seq<LibraryFileView>,
    b: Seq<LibraryFileView>,
    rest: Seq<char>,
    path: Seq<char>,
)
    ensures
        driver_libraries(a + b) == driver_libraries(a) + driver_libraries(b),
        driver_libraries(
            seq![LibraryFileView { name: "libcuda.so"@ + rest, path, is_file: true }],
        ) == seq![path],
        driver_libraries(
            seq![LibraryFileView { name: "libnvidia-"@ + rest, path, is_file: true }],
        ) == seq![path],
    decreases b.len(),
{
    reveal_with_fuel(driver_libraries, 2);
    let cuda = LibraryFileView { name: "libcuda.so"@ + rest, path, is_file: true };
    let nvidia = LibraryFileView { name: "libnvidia-"@ + rest, path, is_file: true };
    text::law_prefix_is_followed(cuda.name, "libcuda.so"@);
    text::law_prefix_is_followed(nvidia.name, "libnvidia-"@);
    assert(seq![cuda].drop_last() =~= Seq::empty());
    assert(seq![nvidia].drop_last() =~= Seq::empty());
    assert(driver_libraries(seq![cuda]) =~= seq![path]);
    assert(driver_libraries(seq![nvidia]) =~= seq![path]);
    if b.len() == 0 {
        assert(a + b =~= a);
        assert(driver_libraries(a) + driver_libraries(b) =~= driver_libraries(a));
    } else {
        law_driver_libraries_keep_their_order(a, b.drop_last(), rest, path);
        assert((a + b).drop_last() =~= a + b.drop_last());
        assert(driver_libraries(a + b) =~= driver_libraries(a) + driver_libraries(b));
    }
}

/// How each vendor's GPU is handed over. NVIDIA's: all of its GPUs by CDI where
/// there is a spec, else by the toolkit's `--gpus all`. AMD's: `/dev/dri`, and
/// `/dev/kfd` exactly where the host has it. Intel's: `/dev/dri`. Nothing but
/// an NVIDIA GPU without CDI has libraries mounted.
pub proof fn law_gpus_are_handed_over(class: GpuClassView, host: DeviceHostView)
    ensures
        class is Nvidia && has_cdi(host.cdi_files) ==> injection(class, host).args == seq![
            "--device"@,
            "nvidia.com/gpu=all"@,
        ],
        class is Nvidia && !has_cdi(host.cdi_files) ==> injection(class, host).args == seq![
            "--gpus"@,
            "all"@,
        ],
        class is Amd ==> injection(class, host).args.len() == (if host.has_kfd {
            4int
        } else {
            2
        }),
        class is Amd || class is Intel ==> injection(class, host).args.take(2) == seq![
            "--device"@,
            "/dev/dri"@,
        ],
        class is Amd && host.has_kfd ==> injection(class, host).args.skip(2) == seq![
            "--device"@,
            "/dev/kfd"@,
        ],
        class is Intel ==> injection(class, host).args.len() == 2,
        class is Apple || class is Vulkan || class is NoGpu ==> injection(class, host).args.len()
            == 0 && injection(class, host).reason.len() == 0,
        class !is Nvidia || has_cdi(host.cdi_files) ==> injection(
            class,
            host,
        ).library_mounts.len() == 0,
{
    let args = injection(class, host).args;
    if class is Amd || class is Intel {
        assert(args.take(2) =~= seq!["--device"@, "/dev/dri"@]);
    }
    if class is Amd && host.has_kfd {
        assert(args.skip(2) =~= seq!["--device"@, "/dev/kfd"@]);
    }
}

/// The explanation of a hand-over says which way was taken: it names every
/// device that is handed over.
pub proof fn law_reasons_name_the_devices(class: GpuClassView, host: DeviceHostView)
    ensures
        class is Nvidia && has_cdi(host.cdi_files) ==> text::has_prefix(
            injection(class, host).reason,
            "CDI spec found"@,
        ),
        class is Nvidia && !has_cdi(host.cdi_files) ==> text::has_prefix(
            injection(class, host).reason,
            "no CDI spec found"@,
        ),
        class is Amd && !host.has_kfd ==> injection(class, host).reason
            == "--device /dev/dri for rendering"@,
        class is Amd && host.has_kfd ==> injection(class, host).reason
            == "--device /dev/dri for rendering"@ + "; "@
            + "--device /dev/kfd for ROCm compute (HSA)"@,
        class is Intel ==> injection(class, host).reason
            == "--device /dev/dri for Intel VA-API/oneAPI Level Zero"@,
{
    reveal_strlit("CDI spec found");
    reveal_strlit("CDI spec found under /etc/cdi or /var/run/cdi; using nvidia.com/gpu=all");
    reveal_strlit("no CDI spec found");
    reveal_strlit(
        "no CDI spec found; falling back to nvidia-container-toolkit's --gpus=all (requires the toolkit's runtime hook to be installed on the host)",
    );
    let reason = injection(class, host).reason;
    if class is Nvidia && has_cdi(host.cdi_files) {
        assert(reason.subrange(0, "CDI spec found"@.len() as int) =~= "CDI spec found"@);
    }
    if class is Nvidia && !has_cdi(host.cdi_files) {
        assert(reason.subrange(0, "no CDI spec found"@.len() as int) =~= "no CDI spec found"@);
    }
}

/// Every library is mounted read-only, at its own path, in its place.
pub proof fn law_libraries_are_bound_at_their_path(paths: Seq<Seq<char>>, i: int)
    requires
        0 <= i < paths.len(),
    ensures
        library_binds(paths).len() == paths.len(),
        library_binds(paths)[i].host == paths[i],
        library_binds(paths)[i].container == paths[i],
        library_binds(paths)[i].read_only,
{
}

} // verus!
