//! Local image caching for stacks that need extra apt packages layered on
//! top of a base image (the Vulkan fallback's `mesa-vulkan-drivers` et al.).
//!
//! Without this, every single `gpubox run` on unrecognized hardware re-runs
//! `apt-get install` inside the wrapper script before anything else can
//! happen: a network hit and a real wait, every launch, purely to reinstall
//! the exact same packages that were already installed last time. Building a
//! local tagged image once - the same Dockerfile `gpubox generate --format
//! dockerfile` would produce - and reusing that image on every subsequent
//! launch turns that into "install once per base image + package set, ever".

use std::collections::hash_map::DefaultHasher;
use std::hash::Hasher;
use vstd::prelude::*;
use vstd::std_specs::hash::DefaultHasherAdditionalSpecFns;
use vstd::utf8::{decode_utf8, encode_utf8, encode_utf8_decode_utf8};
use crate::backend::linux;
use crate::backend::linux::ContainerEngine;
use crate::backend::{Invocation, InvocationView, LaunchSpec, LaunchSpecView};
use crate::generate;
use crate::stack::{ResolvedStack, ResolvedStackView};
use crate::text;

verus! {

/// The last `width` bytes of `n`, the lowest first.
pub open spec fn low_bytes(n: nat, width: nat) -> Seq<u8>
    decreases width,
{
    if width == 0 {
        Seq::empty()
    } else {
        seq![(n % 256) as u8] + low_bytes(n / 256, (width - 1) as nat)
    }
}

fn length_bytes(n: u64, width: usize) -> (r: Vec<u8>)
    ensures
        r@ == low_bytes(n as nat, width as nat),
{
    let mut r: Vec<u8> = Vec::new();
    let mut rest: u64 = n;
    let mut i: usize = 0;
    assert(r@ + low_bytes(rest as nat, (width - i) as nat) =~= low_bytes(n as nat, width as nat));
    while i < width
        invariant
            i <= width,
            r@ + low_bytes(rest as nat, (width - i) as nat) == low_bytes(n as nat, width as nat),
        decreases width - i,
    {
        let ghost before = r@;
        let byte: u8 = (rest % 256) as u8;
        r.push(byte);
        assert(before + low_bytes(rest as nat, (width - i) as nat) =~= r@ + low_bytes(
            (rest / 256) as nat,
            (width - i - 1) as nat,
        ));
        rest = rest / 256;
        i += 1;
    }
    assert(r@ + low_bytes(rest as nat, 0) =~= r@);
    r
}

/// What a string contributes to a hash: its bytes, and one that no string
/// holds, so that no two lists of strings run together.
pub open spec fn string_writes(s: Seq<char>) -> Seq<Seq<u8>> {
    seq![encode_utf8(s), seq![0xffu8]]
}

/// What strings contribute to a hash one after the other.
pub open spec fn list_writes(items: Seq<Seq<char>>) -> Seq<Seq<u8>>
    decreases items.len(),
{
    if items.len() == 0 {
        Seq::empty()
    } else {
        list_writes(items.drop_last()) + string_writes(items.last())
    }
}

/// What is hashed of a base image and a list of packages.
pub open spec fn hashed(image: Seq<char>, packages: Seq<Seq<char>>) -> Seq<Seq<u8>> {
    string_writes(image) + seq![low_bytes(packages.len(), 8)] + list_writes(packages)
}

fn hash_string(hasher: &mut DefaultHasher, s: &str)
    ensures
        final(hasher)@ == old(hasher)@ + string_writes(s@),
{
    let ghost before = hasher@;
    hasher.write(s.as_bytes());
    let end: [u8; 1] = [0xff];
    hasher.write(&end);
    assert(end@ =~= seq![0xffu8]);
    assert(hasher@ =~= before + string_writes(s@));
}

/// The tag of the local image for a base image and a list of packages.
pub open spec fn tag_for(stack: Seq<char>, image: Seq<char>, packages: Seq<Seq<char>>) -> Seq<
    char,
> {
    "gpubox-cache/"@ + stack + ":"@ + text::hex(
        DefaultHasher::spec_finish(hashed(image, packages)) as nat,
        16,
    )
}

/// Deterministic local image tag for a given base image + package set.
/// Re-running with the same base image and the same `packages` list
/// reuses the same cached image; a change of the quirks database or an
/// `--image` override naturally busts the cache by hashing to a different
/// tag instead of silently reusing a stale one.
pub fn cache_tag(resolved: &ResolvedStack, spec: &LaunchSpec) -> (r: String)
    ensures
        r@ == tag_for(resolved.stack@, spec.image@, resolved.packages.deep_view()),
{
    let ghost view = resolved.packages.deep_view();
    let mut hasher = DefaultHasher::new();
    hash_string(&mut hasher, spec.image.as_str());
    let length = length_bytes(resolved.packages.len() as u64, 8);
    hasher.write(length.as_slice());
    let ghost head = string_writes(spec.image@) + seq![low_bytes(view.len(), 8)];
    assert(hasher@ =~= head);
    let mut i: usize = 0;
    assert(head + list_writes(view.take(0)) =~= head);
    while i < resolved.packages.len()
        invariant
            view == resolved.packages.deep_view(),
            i <= resolved.packages@.len(),
            hasher@ == head + list_writes(view.take(i as int)),
        decreases resolved.packages@.len() - i,
    {
        assert(view.take(i + 1).drop_last() =~= view.take(i as int));
        assert(view.take(i + 1).last() == resolved.packages@[i as int]@);
        hash_string(&mut hasher, resolved.packages[i].as_str());
        assert(hasher@ =~= head + list_writes(view.take(i + 1)));
        i += 1;
    }
    assert(view.take(i as int) =~= view);
    let mut r = text::join3("gpubox-cache/", resolved.stack.as_str(), ":");
    r.append(text::to_hex(hasher.finish(), 16).as_str());
    r
}

/// The invocation that asks an engine whether a local image exists.
pub open spec fn image_inspection(engine: ContainerEngine, tag: Seq<char>) -> InvocationView {
    InvocationView {
        program: linux::engine_program(engine),
        args: seq!["image"@, "inspect"@, tag],
        generated_files: Seq::empty(),
    }
}

/// Build the `<engine> image inspect <tag>` invocation, which succeeds if the
/// image exists. Any failure (engine missing, image genuinely absent) is
/// treated as "doesn't exist yet".
pub fn image_exists_invocation(engine: ContainerEngine, tag: &str) -> (r: Invocation)
    ensures
        r.deep_view() == image_inspection(engine, tag@),
{
    let mut args = text::no_strings();
    text::push_str(&mut args, "image");
    text::push_str(&mut args, "inspect");
    text::push_str(&mut args, tag);
    Invocation {
        program: engine.program().to_string(),
        args,
        generated_files: text::no_pairs(),
    }
}

/// The invocation that builds a local image.
pub open spec fn image_build(engine: ContainerEngine, tag: Seq<char>) -> InvocationView {
    InvocationView {
        program: linux::engine_program(engine),
        args: seq!["build"@, "-t"@, tag, "-"@],
        generated_files: Seq::empty(),
    }
}

/// Build the `<engine> build -t <tag> -` invocation, which reads its
/// Dockerfile from stdin. Passing `-` as the sole build-context argument
/// tells docker/podman to use an empty build context, instead of packaging
/// and sending the current working directory to the daemon - which, since
/// the generated Dockerfile only ever installs packages, would otherwise be
/// a pointless transfer on every cache miss.
pub fn build_image_invocation(engine: ContainerEngine, tag: &str) -> (r: Invocation)
    ensures
        r.deep_view() == image_build(engine, tag@),
{
    let mut args = text::no_strings();
    text::push_str(&mut args, "build");
    text::push_str(&mut args, "-t");
    text::push_str(&mut args, tag);
    text::push_str(&mut args, "-");
    Invocation {
        program: engine.program().to_string(),
        args,
        generated_files: text::no_pairs(),
    }
}

/// How the build of an image ended.
#[derive(Debug, Clone, Copy, PartialEq, Eq, Structural)]
pub enum BuildOutcome {
    /// The engine could not be started.
    NotStarted,
    /// The engine did not take the Dockerfile.
    NotFed,
    /// The end of the engine could not be waited for.
    NotAwaited,
    /// The engine ended, with this exit code unless a signal ended it.
    Exited { code: Option<i32> },
}

/// Why an image was not built.
#[derive(Debug, PartialEq, Eq)]
pub enum BuildError {
    NotStarted { engine: ContainerEngine },
    NotFed,
    NotAwaited { engine: ContainerEngine },
    Failed { engine: ContainerEngine, tag: String },
}

/// What a [`BuildError`] stands for.
#[verifier::ext_equal]
pub enum BuildErrorView {
    NotStarted { engine: ContainerEngine },
    NotFed,
    NotAwaited { engine: ContainerEngine },
    Failed { engine: ContainerEngine, tag: Seq<char> },
}

impl DeepView for BuildError {
    type V = BuildErrorView;

    open spec fn deep_view(&self) -> BuildErrorView {
        match self {
            BuildError::NotStarted { engine } => BuildErrorView::NotStarted { engine: *engine },
            BuildError::NotFed => BuildErrorView::NotFed,
            BuildError::NotAwaited { engine } => BuildErrorView::NotAwaited { engine: *engine },
            BuildError::Failed { engine, tag } => BuildErrorView::Failed {
                engine: *engine,
                tag: tag@,
            },
        }
    }
}

/// What the user is told when an image was not built.
pub open spec fn build_message(e: BuildErrorView) -> Seq<char> {
    match e {
        BuildErrorView::NotStarted { engine } => "failed to run `"@ + linux::engine_program(engine)
            + " build`"@,
        BuildErrorView::NotFed => "writing generated Dockerfile to `build`'s stdin"@,
        BuildErrorView::NotAwaited { engine } => "waiting on `"@ + linux::engine_program(engine)
            + " build`"@,
        BuildErrorView::Failed { engine, tag } => "`"@ + linux::engine_program(engine)
            + " build -t "@ + tag + "` failed"@,
    }
}

impl BuildError {
    /// The error as it is shown to people.
    pub fn message(&self) -> (r: String)
        ensures
            r@ == build_message(self.deep_view()),
    {
        match self {
            BuildError::NotStarted { engine } => {
                text::join3("failed to run `", engine.program(), " build`")
            },
            BuildError::NotFed => "writing generated Dockerfile to `build`'s stdin".to_string(),
            BuildError::NotAwaited { engine } => {
                text::join3("waiting on `", engine.program(), " build`")
            },
            BuildError::Failed { engine, tag } => {
                let mut r = text::join3("`", engine.program(), " build -t ");
                r.append(tag.as_str());
                r.append("` failed");
                r
            },
        }
    }
}

/// The error of a build, if it has one.
pub open spec fn build_fault(
    engine: ContainerEngine,
    tag: Seq<char>,
    outcome: BuildOutcome,
) -> Option<BuildErrorView> {
    match outcome {
        BuildOutcome::NotStarted => Some(BuildErrorView::NotStarted { engine }),
        BuildOutcome::NotFed => Some(BuildErrorView::NotFed),
        BuildOutcome::NotAwaited => Some(BuildErrorView::NotAwaited { engine }),
        BuildOutcome::Exited { code } => if code == Some(0i32) {
            None
        } else {
            Some(BuildErrorView::Failed { engine, tag })
        },
    }
}

/// Whether an image was built and tagged, by how [`build_image_invocation`]
/// ended.
pub fn build_image(engine: ContainerEngine, tag: &str, outcome: BuildOutcome) -> (r: Result<
    (),
    BuildError,
>)
    ensures
        match r {
            Ok(_) => build_fault(engine, tag@, outcome) is None,
            Err(e) => build_fault(engine, tag@, outcome) == Some(e.deep_view()),
        },
{
    match outcome {
        BuildOutcome::NotStarted => Err(BuildError::NotStarted { engine }),
        BuildOutcome::NotFed => Err(BuildError::NotFed),
        BuildOutcome::NotAwaited => Err(BuildError::NotAwaited { engine }),
        BuildOutcome::Exited { code: Some(code) } => if code == 0 {
            Ok(())
        } else {
            Err(BuildError::Failed { engine, tag: tag.to_string() })
        },
        BuildOutcome::Exited { code: None } => Err(
            BuildError::Failed { engine, tag: tag.to_string() },
        ),
    }
}

/// The local image that a launch needs.
#[derive(Debug, PartialEq, Eq)]
pub struct CachedImage {
    pub tag: String,
    /// What the image is built from.
    pub dockerfile: String,
}

/// What a [`CachedImage`] stands for.
#[verifier::ext_equal]
pub struct CachedImageView {
    pub tag: Seq<char>,
    pub dockerfile: Seq<char>,
}

impl DeepView for CachedImage {
    type V = CachedImageView;

    open spec fn deep_view(&self) -> CachedImageView {
        CachedImageView { tag: self.tag@, dockerfile: self.dockerfile@ }
    }
}

/// The local image that a launch needs, if it needs one.
pub open spec fn image_needed(resolved: ResolvedStackView, spec: LaunchSpecView) -> Option<
    CachedImageView,
> {
    if spec.packages.len() == 0 {
        None
    } else {
        Some(
            CachedImageView {
                tag: tag_for(resolved.stack, spec.image, resolved.packages),
                dockerfile: generate::rendering(generate::Format::Dockerfile, resolved, spec),
            },
        )
    }
}

/// The local image that a launch needs: none when `spec.packages` is empty -
/// vendor images (CUDA/ROCm/oneAPI) already ship their full stack.
pub fn needed_image(resolved: &ResolvedStack, spec: &LaunchSpec) -> (r: Option<CachedImage>)
    ensures
        r.deep_view() == image_needed(resolved.deep_view(), spec.deep_view()),
{
    assert(spec.deep_view().packages.len() == spec.packages@.len());
    if spec.packages.len() == 0 {
        return None;
    }
    Some(
        CachedImage {
            tag: cache_tag(resolved, spec),
            dockerfile: generate::render(generate::Format::Dockerfile, resolved, spec),
        },
    )
}

/// Where the local image of a launch came from.
#[derive(Debug, Clone, Copy, PartialEq, Eq, Structural)]
pub enum ImageSource {
    /// It existed already.
    Present,
    /// It had to be built.
    Built(BuildOutcome),
}

/// A launch that uses a local image in place of its own and has nothing left
/// to install.
pub open spec fn with_cached(spec: LaunchSpecView, tag: Seq<char>) -> LaunchSpecView {
    LaunchSpecView { image: tag, packages: Seq::empty(), ..spec }
}

/// A launch after its image was cached, and the error if it could not be.
pub open spec fn cached_launch(
    engine: ContainerEngine,
    resolved: ResolvedStackView,
    spec: LaunchSpecView,
    source: ImageSource,
) -> (LaunchSpecView, Result<bool, BuildErrorView>) {
    match image_needed(resolved, spec) {
        None => (spec, Ok(false)),
        Some(image) => match source {
            ImageSource::Present => (with_cached(spec, image.tag), Ok(true)),
            ImageSource::Built(outcome) => match build_fault(engine, image.tag, outcome) {
                Some(e) => (spec, Err(e)),
                None => (with_cached(spec, image.tag), Ok(true)),
            },
        },
    }
}

/// If `spec` needs extra packages layered on top of its base image, and a
/// locally cached image with those packages already baked in exists or was
/// built, repoint `spec.image` at it and clear `spec.packages` - so the
/// runtime wrapper script has nothing left to `apt-get install` and every
/// subsequent launch skips straight to the workload. Returns `true` if a
/// cached image is now in use.
///
/// A no-op (returns `Ok(false)`) when `spec.packages` is empty.
pub fn ensure_cached_image(
    engine: ContainerEngine,
    resolved: &ResolvedStack,
    spec: &mut LaunchSpec,
    source: ImageSource,
) -> (r: Result<bool, BuildError>)
    ensures
        final(spec).deep_view() == cached_launch(
            engine,
            resolved.deep_view(),
            old(spec).deep_view(),
            source,
        ).0,
        match r {
            Ok(used) => cached_launch(
                engine,
                resolved.deep_view(),
                old(spec).deep_view(),
                source,
            ).1 == Ok::<bool, BuildErrorView>(used),
            Err(e) => cached_launch(
                engine,
                resolved.deep_view(),
                old(spec).deep_view(),
                source,
            ).1 == Err::<bool, BuildErrorView>(e.deep_view()),
        },
{
    assert(spec.deep_view().packages.len() == spec.packages@.len());
    if spec.packages.len() == 0 {
        return Ok(false);
    }
    let tag = cache_tag(resolved, spec);
    if let ImageSource::Built(outcome) = source {
        if let Err(e) = build_image(engine, tag.as_str(), outcome) {
            return Err(e);
        }
    }
    spec.image = tag;
    spec.packages = text::no_strings();
    assert(spec.deep_view() =~= with_cached(old(spec).deep_view(), tag@));
    Ok(true)
}

/// A launch that uses its cached image needs no further image: the packages
/// are installed once, and caching it again changes nothing.
pub proof fn law_caching_is_idempotent(
    engine: ContainerEngine,
    resolved: ResolvedStackView,
    spec: LaunchSpecView,
    first: ImageSource,
    second: ImageSource,
)
    requires
        cached_launch(engine, resolved, spec, first).1 is Ok,
    ensures
        cached_launch(engine, resolved, spec, first).0.packages.len() == 0,
        cached_launch(
            engine,
            resolved,
            cached_launch(engine, resolved, spec, first).0,
            second,
        ) == (
            cached_launch(engine, resolved, spec, first).0,
            Ok::<bool, BuildErrorView>(false),
        ),
{
}

/// A launch whose image could not be cached is left as it was.
pub proof fn law_failed_caching_changes_nothing(
    engine: ContainerEngine,
    resolved: ResolvedStackView,
    spec: LaunchSpecView,
    source: ImageSource,
)
    requires
        cached_launch(engine, resolved, spec, source).1 is Err,
    ensures
        cached_launch(engine, resolved, spec, source).0 == spec,
{
}

/// What is hashed into the tag tells base images and package lists apart: it
/// is the same only for the same image and the same packages in the same
/// order.
pub proof fn law_hash_input_is_unambiguous(
    image1: Seq<char>,
    packages1: Seq<Seq<char>>,
    image2: Seq<char>,
    packages2: Seq<Seq<char>>,
)
    requires
        hashed(image1, packages1) == hashed(image2, packages2),
    ensures
        image1 == image2,
        packages1 == packages2,
{
    let h1 = hashed(image1, packages1);
    let h2 = hashed(image2, packages2);
    assert(h1[0] == encode_utf8(image1));
    assert(h2[0] == encode_utf8(image2));
    encode_utf8_decode_utf8(image1);
    encode_utf8_decode_utf8(image2);
    assert(decode_utf8(h1[0]) == image1);
    assert(h1.skip(3) =~= list_writes(packages1));
    assert(h2.skip(3) =~= list_writes(packages2));
    lists_are_told_apart(packages1, packages2);
}

proof fn list_length(items: Seq<Seq<char>>)
    ensures
        list_writes(items).len() == 2 * items.len(),
    decreases items.len(),
{
    if items.len() > 0 {
        list_length(items.drop_last());
    }
}

proof fn lists_are_told_apart(a: Seq<Seq<char>>, b: Seq<Seq<char>>)
    requires
        list_writes(a) == list_writes(b),
    ensures
        a == b,
    decreases a.len(),
{
    list_length(a);
    list_length(b);
    if a.len() > 0 {
        let wa = list_writes(a);
        let wb = list_writes(b);
        let n = wa.len() - 2;
        list_length(a.drop_last());
        list_length(b.drop_last());
        assert(wa[n] == encode_utf8(a.last()));
        assert(wb[n] == encode_utf8(b.last()));
        encode_utf8_decode_utf8(a.last());
        encode_utf8_decode_utf8(b.last());
        assert(wa.take(n) =~= list_writes(a.drop_last()));
        assert(wb.take(n) =~= list_writes(b.drop_last()));
        lists_are_told_apart(a.drop_last(), b.drop_last());
        assert(a =~= a.drop_last().push(a.last()));
        assert(b =~= b.drop_last().push(b.last()));
    } else {
        assert(a =~= b);
    }
}

spec fn sixteen_to(width: nat) -> nat
    decreases width,
{
    if width == 0 {
        1
    } else {
        16 * sixteen_to((width - 1) as nat)
    }
}

proof fn lemma_hex_is_injective(a: nat, b: nat, width: nat)
    requires
        text::hex(a, width) == text::hex(b, width),
        a < sixteen_to(width),
        b < sixteen_to(width),
    ensures
        a == b,
    decreases width,
{
    if width > 0 {
        let w = (width - 1) as nat;
        assert(text::hex(a, width).drop_last() =~= text::hex(a / 16, w));
        assert(text::hex(b, width).drop_last() =~= text::hex(b / 16, w));
        assert(text::hex(a, width).last() == text::hex_char(a % 16));
        assert(text::hex(b, width).last() == text::hex_char(b % 16));
        assert(a % 16 == b % 16);
        lemma_hex_is_injective(a / 16, b / 16, w);
    }
}

proof fn lemma_hex_length(n: nat, width: nat)
    ensures
        text::hex(n, width).len() == width,
    decreases width,
{
    if width > 0 {
        lemma_hex_length(n / 16, (width - 1) as nat);
    }
}

/// A tag names the stack and then, in sixteen hexadecimal digits, the hash of
/// the image and the packages: two launches of a stack share a tag exactly if
/// their hashes agree.
pub proof fn law_tags_tell_launches_apart(
    stack: Seq<char>,
    image1: Seq<char>,
    packages1: Seq<Seq<char>>,
    image2: Seq<char>,
    packages2: Seq<Seq<char>>,
)
    ensures
        text::has_prefix(tag_for(stack, image1, packages1), "gpubox-cache/"@ + stack + ":"@),
        tag_for(stack, image1, packages1).len() == ("gpubox-cache/"@ + stack + ":"@).len() + 16,
        tag_for(stack, image1, packages1) == tag_for(stack, image2, packages2)
            <==> DefaultHasher::spec_finish(hashed(image1, packages1))
            == DefaultHasher::spec_finish(hashed(image2, packages2)),
{
    let start = "gpubox-cache/"@ + stack + ":"@;
    let hash1 = DefaultHasher::spec_finish(hashed(image1, packages1)) as nat;
    let hash2 = DefaultHasher::spec_finish(hashed(image2, packages2)) as nat;
    let tag1 = tag_for(stack, image1, packages1);
    let tag2 = tag_for(stack, image2, packages2);
    lemma_hex_length(hash1, 16);
    lemma_hex_length(hash2, 16);
    assert(tag1.subrange(0, start.len() as int) =~= start);
    if tag1 == tag2 {
        assert(tag1.skip(start.len() as int) =~= text::hex(hash1, 16));
        assert(tag2.skip(start.len() as int) =~= text::hex(hash2, 16));
        reveal_with_fuel(sixteen_to, 17);
        lemma_hex_is_injective(hash1, hash2, 16);
    }
}

/// A cached image is needed exactly if there are packages to install. It is
/// built from the Dockerfile that `generate` renders for the launch, under the
/// tag of its stack, its image and the packages of the stack.
pub proof fn law_images_are_cached_for_packages(resolved: ResolvedStackView, spec: LaunchSpecView)
    ensures
        image_needed(resolved, spec) is Some <==> spec.packages.len() > 0,
        image_needed(resolved, spec) matches Some(image) ==> image.tag == tag_for(
            resolved.stack,
            spec.image,
            resolved.packages,
        ) && image.dockerfile == generate::dockerfile(resolved, spec.image),
{
}

/// A launch without packages stays as it is. Else, once its image is there -
/// found, or built by an engine that ended with code zero - the launch runs on
/// that image, has nothing left to install, and is the same in all else. A
/// build that failed leaves the launch as it was, and the error says how it
/// failed.
pub proof fn law_launches_move_to_the_cached_image(
    engine: ContainerEngine,
    resolved: ResolvedStackView,
    spec: LaunchSpecView,
    source: ImageSource,
)
    ensures
        spec.packages.len() == 0 ==> cached_launch(engine, resolved, spec, source) == (
            spec,
            Ok::<bool, BuildErrorView>(false),
        ),
        spec.packages.len() > 0 && (source == ImageSource::Present || source == (
        ImageSource::Built(BuildOutcome::Exited { code: Some(0i32) }))) ==> cached_launch(
            engine,
            resolved,
            spec,
            source,
        ) == (
            LaunchSpecView {
                image: tag_for(resolved.stack, spec.image, resolved.packages),
                packages: Seq::empty(),
                stack: spec.stack,
                env: spec.env,
                mounts: spec.mounts,
                device_args: spec.device_args,
                extra_args: spec.extra_args,
                command: spec.command,
                interactive: spec.interactive,
                workdir: spec.workdir,
            },
            Ok::<bool, BuildErrorView>(true),
        ),
        spec.packages.len() > 0 && (source matches ImageSource::Built(outcome) && outcome != (
        BuildOutcome::Exited { code: Some(0i32) })) ==> cached_launch(
            engine,
            resolved,
            spec,
            source,
        ).0 == spec && (cached_launch(engine, resolved, spec, source).1 matches Err(e) && (match (
            source->Built_0,
            e,
        ) {
            (BuildOutcome::NotStarted, BuildErrorView::NotStarted { engine: with }) => with
                == engine,
            (BuildOutcome::NotFed, BuildErrorView::NotFed) => true,
            (BuildOutcome::NotAwaited, BuildErrorView::NotAwaited { engine: with }) => with
                == engine,
            (BuildOutcome::Exited { .. }, BuildErrorView::Failed { engine: with, tag }) => with
                == engine && tag == tag_for(resolved.stack, spec.image, resolved.packages),
            _ => false,
        })),
{
}

/// The commands that look for an image and build it do that and nothing else,
/// with the engine that is asked for; a build reads its Dockerfile from stdin
/// and is sent no other file.
pub proof fn law_image_commands(tag: Seq<char>)
    ensures
        image_inspection(ContainerEngine::Docker, tag).program == "docker"@,
        image_inspection(ContainerEngine::Podman, tag).program == "podman"@,
        image_inspection(ContainerEngine::Docker, tag).args == seq!["image"@, "inspect"@, tag],
        image_inspection(ContainerEngine::Podman, tag).args == seq!["image"@, "inspect"@, tag],
        image_build(ContainerEngine::Docker, tag).program == "docker"@,
        image_build(ContainerEngine::Podman, tag).program == "podman"@,
        image_build(ContainerEngine::Docker, tag).args == seq!["build"@, "-t"@, tag, "-"@],
        image_build(ContainerEngine::Podman, tag).args == seq!["build"@, "-t"@, tag, "-"@],
{
}

/// What the user is told when an image was not built names what went wrong.
pub proof fn law_build_messages(engine: ContainerEngine, tag: Seq<char>)
    ensures
        build_message(BuildErrorView::NotStarted { engine }) == "failed to run `"@
            + linux::engine_program(engine) + " build`"@,
        build_message(BuildErrorView::NotFed) == "writing generated Dockerfile to `build`'s stdin"@,
        build_message(BuildErrorView::NotAwaited { engine }) == "waiting on `"@
            + linux::engine_program(engine) + " build`"@,
        build_message(BuildErrorView::Failed { engine, tag }) == "`"@ + linux::engine_program(engine)
            + " build -t "@ + tag + "` failed"@,
{
}

} // verus!
