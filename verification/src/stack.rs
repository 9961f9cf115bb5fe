//! Stage 2: stack resolution.
//!
//! Maps a [`GpuClass`] to a runtime stack name, a default container image,
//! and any quirk environment variables, by consulting the community-
//! maintained quirks database.

use vstd::prelude::*;
use crate::probe;
use crate::probe::{GpuClass, GpuClassView};
use crate::table;
use crate::table::Table;
use crate::text;

verus! {

/// What one entry of the quirks database says.
#[derive(Debug)]
pub struct StackRule {
    pub stack: String,
    pub image: String,
    /// The image to use under Windows containers, which cannot run `image`.
    pub windows_image: Option<String>,
    pub env: Table<String>,
    pub notes: Option<String>,
    /// Apt packages to layer on top of `image` (used by the Vulkan/CPU
    /// fallbacks, which start from a plain distro base rather than a
    /// vendor-published image).
    pub packages: Vec<String>,
}

/// What a [`StackRule`] stands for.
#[verifier::ext_equal]
pub struct StackRuleView {
    pub stack: Seq<char>,
    pub image: Seq<char>,
    pub windows_image: Option<Seq<char>>,
    pub env: Seq<(Seq<char>, Seq<char>)>,
    pub notes: Option<Seq<char>>,
    pub packages: Seq<Seq<char>>,
}

impl DeepView for StackRule {
    type V = StackRuleView;

    open spec fn deep_view(&self) -> StackRuleView {
        StackRuleView {
            stack: self.stack@,
            image: self.image@,
            windows_image: self.windows_image.deep_view(),
            env: self.env.deep_view(),
            notes: self.notes.deep_view(),
            packages: self.packages.deep_view(),
        }
    }
}

impl Clone for StackRule {
    fn clone(&self) -> (r: Self)
        ensures
            r.deep_view() == self.deep_view(),
    {
        StackRule {
            stack: self.stack.clone(),
            image: self.image.clone(),
            windows_image: self.windows_image.clone(),
            env: self.env.clone(),
            notes: self.notes.clone(),
            packages: text::clone_strings(&self.packages),
        }
    }
}

/// The quirks database: per vendor, a rule for each arch tag.
#[derive(Debug)]
pub struct QuirksDb {
    pub nvidia: Table<StackRule>,
    pub amd: Table<StackRule>,
    pub intel: Table<StackRule>,
    pub apple: Table<StackRule>,
    pub vulkan: Table<StackRule>,
    pub none: Table<StackRule>,
}

/// What a [`QuirksDb`] holds.
#[verifier::ext_equal]
pub struct QuirksDbView {
    pub nvidia: Seq<(Seq<char>, StackRuleView)>,
    pub amd: Seq<(Seq<char>, StackRuleView)>,
    pub intel: Seq<(Seq<char>, StackRuleView)>,
    pub apple: Seq<(Seq<char>, StackRuleView)>,
    pub vulkan: Seq<(Seq<char>, StackRuleView)>,
    pub none: Seq<(Seq<char>, StackRuleView)>,
}

impl DeepView for QuirksDb {
    type V = QuirksDbView;

    open spec fn deep_view(&self) -> QuirksDbView {
        QuirksDbView {
            nvidia: self.nvidia.deep_view(),
            amd: self.amd.deep_view(),
            intel: self.intel.deep_view(),
            apple: self.apple.deep_view(),
            vulkan: self.vulkan.deep_view(),
            none: self.none.deep_view(),
        }
    }
}

/// The final, fully-resolved answer to "what should I run, and how".
#[derive(Debug)]
pub struct ResolvedStack {
    /// Which detected hardware this was resolved from (human-readable).
    pub detected: String,
    /// Runtime stack name: "cuda", "rocm", "oneapi", "metal", "vulkan", or
    /// "cpu".
    pub stack: String,
    /// Default container image tag for this stack.
    pub image: String,
    /// Extra environment variables that must be set inside the container
    /// for this specific piece of hardware to work (quirks).
    pub env: Table<String>,
    /// Human-readable explanation, surfaced by `gpubox doctor`.
    pub notes: Option<String>,
    /// Which table.key of the quirks database produced this rule, for
    /// diagnostics.
    pub rule_key: String,
    /// Apt packages to layer on top of `image` (see [`StackRule::packages`]).
    pub packages: Vec<String>,
    /// The image for Windows containers (see [`StackRule::windows_image`]).
    pub windows_image: Option<String>,
}

/// What a [`ResolvedStack`] stands for.
#[verifier::ext_equal]
pub struct ResolvedStackView {
    pub detected: Seq<char>,
    pub stack: Seq<char>,
    pub image: Seq<char>,
    pub env: Seq<(Seq<char>, Seq<char>)>,
    pub notes: Option<Seq<char>>,
    pub rule_key: Seq<char>,
    pub packages: Seq<Seq<char>>,
    pub windows_image: Option<Seq<char>>,
}

impl DeepView for ResolvedStack {
    type V = ResolvedStackView;

    open spec fn deep_view(&self) -> ResolvedStackView {
        ResolvedStackView {
            detected: self.detected@,
            stack: self.stack@,
            image: self.image@,
            env: self.env.deep_view(),
            notes: self.notes.deep_view(),
            rule_key: self.rule_key@,
            packages: self.packages.deep_view(),
            windows_image: self.windows_image.deep_view(),
        }
    }
}

impl Clone for ResolvedStack {
    fn clone(&self) -> (r: Self)
        ensures
            r.deep_view() == self.deep_view(),
    {
        ResolvedStack {
            detected: self.detected.clone(),
            stack: self.stack.clone(),
            image: self.image.clone(),
            env: self.env.clone(),
            notes: self.notes.clone(),
            rule_key: self.rule_key.clone(),
            packages: text::clone_strings(&self.packages),
            windows_image: self.windows_image.clone(),
        }
    }
}

/// A vendor table that has neither the asked-for rule nor a fallback.
#[derive(Debug, PartialEq, Eq)]
pub struct MissingRule {
    pub vendor: String,
    pub key: String,
}

/// What a [`MissingRule`] stands for.
#[verifier::ext_equal]
pub struct MissingRuleView {
    pub vendor: Seq<char>,
    pub key: Seq<char>,
}

impl DeepView for MissingRule {
    type V = MissingRuleView;

    open spec fn deep_view(&self) -> MissingRuleView {
        MissingRuleView { vendor: self.vendor@, key: self.key@ }
    }
}

/// What the user is told about a missing rule.
pub open spec fn missing_rule_message(e: MissingRuleView) -> Seq<char> {
    "data/quirks.toml has no rule for `"@ + e.vendor + "."@ + e.key + "` and no `"@ + e.vendor
        + ".unknown`/`"@ + e.vendor + ".default` fallback"@
}

impl MissingRule {
    /// The error as it is shown to people.
    pub fn message(&self) -> (r: String)
        ensures
            r@ == missing_rule_message(self.deep_view()),
    {
        let mut r = text::join3("data/quirks.toml has no rule for `", self.vendor.as_str(), ".");
        r.append(self.key.as_str());
        r.append("` and no `");
        r.append(self.vendor.as_str());
        r.append(".unknown`/`");
        r.append(self.vendor.as_str());
        r.append(".default` fallback");
        r
    }
}

/// A classification that no rule resolves.
#[derive(Debug, PartialEq, Eq)]
pub struct ResolveError {
    /// Which detected hardware could not be resolved (human-readable).
    pub detected: String,
    pub cause: MissingRule,
}

/// What a [`ResolveError`] stands for.
#[verifier::ext_equal]
pub struct ResolveErrorView {
    pub detected: Seq<char>,
    pub cause: MissingRuleView,
}

impl DeepView for ResolveError {
    type V = ResolveErrorView;

    open spec fn deep_view(&self) -> ResolveErrorView {
        ResolveErrorView { detected: self.detected@, cause: self.cause.deep_view() }
    }
}

/// What the user is told about hardware that could not be resolved.
pub open spec fn resolve_message(e: ResolveErrorView) -> Seq<char> {
    "resolving stack for detected hardware "@ + e.detected
}

impl ResolveError {
    /// The error as it is shown to people; its cause has a message of its own.
    pub fn message(&self) -> (r: String)
        ensures
            r@ == resolve_message(self.deep_view()),
    {
        text::join2("resolving stack for detected hardware ", self.detected.as_str())
    }
}

/// The rule for `key` and the key it stands under: its own, or else the
/// `unknown` or the `default` fallback, in this order.
pub open spec fn rule_for(table: Seq<(Seq<char>, StackRuleView)>, key: Seq<char>) -> Option<
    (StackRuleView, Seq<char>),
> {
    match table::entry(table, key) {
        Some(rule) => Some((rule, key)),
        None => match table::entry(table, "unknown"@) {
            Some(rule) => Some((rule, "unknown"@)),
            None => match table::entry(table, "default"@) {
                Some(rule) => Some((rule, "default"@)),
                None => None,
            },
        },
    }
}

/// Looks `key` up in a vendor's table, with its fallbacks, and says which
/// `vendor.key` was found.
pub fn lookup(table: &Table<StackRule>, key: &str, vendor: &str) -> (r: Result<
    (StackRule, String),
    MissingRule,
>)
    ensures
        match r {
            Ok((rule, found)) => rule_for(table.deep_view(), key@) matches Some((expected, at))
                && rule.deep_view() == expected && found@ == vendor@ + "."@ + at,
            Err(e) => rule_for(table.deep_view(), key@) is None && e.deep_view() == (
            MissingRuleView { vendor: vendor@, key: key@ }),
        },
{
    if let Some(rule) = table.get(key) {
        return Ok((rule.clone(), text::join3(vendor, ".", key)));
    }
    if let Some(rule) = table.get("unknown") {
        return Ok((rule.clone(), text::join3(vendor, ".", "unknown")));
    }
    if let Some(rule) = table.get("default") {
        return Ok((rule.clone(), text::join3(vendor, ".", "default")));
    }
    Err(MissingRule { vendor: vendor.to_string(), key: key.to_string() })
}

/// The name of the table that a class is looked up in.
pub open spec fn vendor_name(class: GpuClassView) -> Seq<char> {
    match class {
        GpuClassView::Nvidia { .. } => "nvidia"@,
        GpuClassView::Amd { .. } => "amd"@,
        GpuClassView::Intel { .. } => "intel"@,
        GpuClassView::Apple => "apple"@,
        GpuClassView::Vulkan => "vulkan"@,
        GpuClassView::NoGpu => "none"@,
    }
}

/// The table that a class is looked up in.
pub open spec fn vendor_table(db: QuirksDbView, class: GpuClassView) -> Seq<
    (Seq<char>, StackRuleView),
> {
    match class {
        GpuClassView::Nvidia { .. } => db.nvidia,
        GpuClassView::Amd { .. } => db.amd,
        GpuClassView::Intel { .. } => db.intel,
        GpuClassView::Apple => db.apple,
        GpuClassView::Vulkan => db.vulkan,
        GpuClassView::NoGpu => db.none,
    }
}

/// The key that a class is looked up under.
pub open spec fn class_key(class: GpuClassView) -> Seq<char> {
    match class {
        GpuClassView::Nvidia { arch } => arch,
        GpuClassView::Amd { arch } => arch,
        GpuClassView::Intel { class } => class,
        GpuClassView::Apple => "default"@,
        GpuClassView::Vulkan => "default"@,
        GpuClassView::NoGpu => "default"@,
    }
}

/// What a classification resolves to.
pub open spec fn resolution(db: QuirksDbView, class: GpuClassView) -> Result<
    ResolvedStackView,
    ResolveErrorView,
> {
    match rule_for(vendor_table(db, class), class_key(class)) {
        Some((rule, found)) => Ok(
            ResolvedStackView {
                detected: probe::description(class),
                stack: rule.stack,
                image: rule.image,
                env: rule.env,
                notes: rule.notes,
                rule_key: vendor_name(class) + "."@ + found,
                packages: rule.packages,
                windows_image: rule.windows_image,
            },
        ),
        None => Err(
            ResolveErrorView {
                detected: probe::description(class),
                cause: MissingRuleView { vendor: vendor_name(class), key: class_key(class) },
            },
        ),
    }
}

/// Resolve a detected [`GpuClass`] into a concrete stack/image/env.
pub fn resolve(db: &QuirksDb, class: &GpuClass) -> (r: Result<ResolvedStack, ResolveError>)
    ensures
        match r {
            Ok(resolved) => resolution(db.deep_view(), class.deep_view()) == Ok::<
                ResolvedStackView,
                ResolveErrorView,
            >(resolved.deep_view()),
            Err(e) => resolution(db.deep_view(), class.deep_view()) == Err::<
                ResolvedStackView,
                ResolveErrorView,
            >(e.deep_view()),
        },
{
    let found = match class {
        GpuClass::Nvidia { arch } => lookup(&db.nvidia, arch.as_str(), "nvidia"),
        GpuClass::Amd { arch } => lookup(&db.amd, arch.as_str(), "amd"),
        GpuClass::Intel { class } => lookup(&db.intel, class.as_str(), "intel"),
        GpuClass::Apple => lookup(&db.apple, "default", "apple"),
        GpuClass::Vulkan => lookup(&db.vulkan, "default", "vulkan"),
        GpuClass::NoGpu => lookup(&db.none, "default", "none"),
    };
    match found {
        Ok((rule, rule_key)) => Ok(
            ResolvedStack {
                detected: class.describe(),
                stack: rule.stack,
                image: rule.image,
                env: rule.env,
                notes: rule.notes,
                rule_key,
                packages: rule.packages,
                windows_image: rule.windows_image,
            },
        ),
        Err(cause) => Err(ResolveError { detected: class.describe(), cause }),
    }
}

/// Whether an image reference can be a real, pullable one: not empty, in one
/// word, and not in the `gpubox/` namespace, which no registry serves.
pub open spec fn is_real_image(image: Seq<char>) -> bool {
    &&& image.len() > 0
    &&& forall|i: int| 0 <= i < image.len() ==> !text::is_space(#[trigger] image[i])
    &&& !text::has_prefix(image, "gpubox/"@)
}

fn check_image(image: &str) -> (r: bool)
    ensures
        r == is_real_image(image@),
{
    let chars = text::chars_of(image);
    if chars.len() == 0 || text::starts_with(image, "gpubox/") {
        return false;
    }
    let mut i: usize = 0;
    while i < chars.len()
        invariant
            chars@ == image@,
            i <= chars@.len(),
            forall|j: int| 0 <= j < i ==> !text::is_space(#[trigger] image@[j]),
        decreases chars@.len() - i,
    {
        if text::is_space_char(chars[i]) {
            assert(text::is_space(image@[i as int]));
            return false;
        }
        i += 1;
    }
    true
}

/// Whether both images of a rule are real ones.
pub open spec fn has_real_images(rule: StackRuleView) -> bool {
    is_real_image(rule.image) && (rule.windows_image matches Some(image) ==> is_real_image(image))
}

fn check_images(rule: &StackRule) -> (r: bool)
    ensures
        r == has_real_images(rule.deep_view()),
{
    check_image(rule.image.as_str()) && match &rule.windows_image {
        Some(image) => check_image(image.as_str()),
        None => true,
    }
}

/// What is wrong with a quirks database.
#[derive(Debug, PartialEq, Eq)]
pub enum QuirksFault {
    /// A vendor table with neither an `unknown` nor a `default` rule.
    MissingFallback { vendor: String },
    /// A rule whose image is no real reference.
    BadImage { vendor: String, key: String },
    /// A rule for a stack that does not exist.
    UnknownStack { vendor: String, key: String },
    /// A rule for hardware that nobody has added yet, with a stack that not
    /// all hardware can run.
    BadFallback { vendor: String, key: String },
}

/// What a [`QuirksFault`] stands for.
#[verifier::ext_equal]
pub enum QuirksFaultView {
    MissingFallback { vendor: Seq<char> },
    BadImage { vendor: Seq<char>, key: Seq<char> },
    UnknownStack { vendor: Seq<char>, key: Seq<char> },
    BadFallback { vendor: Seq<char>, key: Seq<char> },
}

impl DeepView for QuirksFault {
    type V = QuirksFaultView;

    open spec fn deep_view(&self) -> QuirksFaultView {
        match self {
            QuirksFault::MissingFallback { vendor } => QuirksFaultView::MissingFallback {
                vendor: vendor@,
            },
            QuirksFault::BadImage { vendor, key } => QuirksFaultView::BadImage {
                vendor: vendor@,
                key: key@,
            },
            QuirksFault::UnknownStack { vendor, key } => QuirksFaultView::UnknownStack {
                vendor: vendor@,
                key: key@,
            },
            QuirksFault::BadFallback { vendor, key } => QuirksFaultView::BadFallback {
                vendor: vendor@,
                key: key@,
            },
        }
    }
}

/// Whether a vendor table has a rule for hardware that nobody has added yet.
pub open spec fn has_fallback(table: Seq<(Seq<char>, StackRuleView)>) -> bool {
    table::entry(table, "unknown"@) is Some || table::entry(table, "default"@) is Some
}

/// Whether a stack exists.
pub open spec fn is_stack(stack: Seq<char>) -> bool {
    stack == "cuda"@ || stack == "rocm"@ || stack == "oneapi"@ || stack == "metal"@ || stack
        == "vulkan"@ || stack == "cpu"@
}

fn check_stack(stack: &str) -> (r: bool)
    ensures
        r == is_stack(stack@),
{
    text::same(stack, "cuda") || text::same(stack, "rocm") || text::same(stack, "oneapi")
        || text::same(stack, "metal") || text::same(stack, "vulkan") || text::same(stack, "cpu")
}

/// Whether a stack runs on any hardware: with a GPU by Vulkan, or without.
pub open spec fn runs_anywhere(stack: Seq<char>) -> bool {
    stack == "vulkan"@ || stack == "cpu"@
}

/// Whether a rule is the one for hardware that nobody has added yet. Apple's
/// table holds one GPU, so its rule is no such fallback.
pub open spec fn is_fallback(vendor: Seq<char>, key: Seq<char>) -> bool {
    vendor != "apple"@ && (key == "unknown"@ || key == "default"@)
}

/// What is wrong with a rule.
pub open spec fn rule_fault(vendor: Seq<char>, key: Seq<char>, rule: StackRuleView) -> Option<
    QuirksFaultView,
> {
    if !has_real_images(rule) {
        Some(QuirksFaultView::BadImage { vendor, key })
    } else if !is_stack(rule.stack) {
        Some(QuirksFaultView::UnknownStack { vendor, key })
    } else if is_fallback(vendor, key) && !runs_anywhere(rule.stack) {
        Some(QuirksFaultView::BadFallback { vendor, key })
    } else {
        None
    }
}

fn check_rule(vendor: &str, key: &str, rule: &StackRule) -> (r: Option<QuirksFault>)
    ensures
        r.deep_view() == rule_fault(vendor@, key@, rule.deep_view()),
{
    if !check_images(rule) {
        return Some(QuirksFault::BadImage { vendor: vendor.to_string(), key: key.to_string() });
    }
    let stack = rule.stack.as_str();
    if !check_stack(stack) {
        return Some(
            QuirksFault::UnknownStack { vendor: vendor.to_string(), key: key.to_string() },
        );
    }
    if !text::same(vendor, "apple") && (text::same(key, "unknown") || text::same(key, "default"))
        && !text::same(stack, "vulkan") && !text::same(stack, "cpu") {
        return Some(
            QuirksFault::BadFallback { vendor: vendor.to_string(), key: key.to_string() },
        );
    }
    None
}

/// The first thing that is wrong with the rules of a vendor table.
pub open spec fn rules_fault(
    table: Seq<(Seq<char>, StackRuleView)>,
    vendor: Seq<char>,
) -> Option<QuirksFaultView>
    decreases table.len(),
{
    if table.len() == 0 {
        None
    } else if let Some(fault) = rule_fault(vendor, table[0].0, table[0].1) {
        Some(fault)
    } else {
        rules_fault(table.skip(1), vendor)
    }
}

/// What is wrong with a vendor table: it has no fallback, or a rule whose
/// images are no real references, whose stack does not exist, or which is a
/// fallback to a stack that not all hardware can run.
pub open spec fn table_fault(
    table: Seq<(Seq<char>, StackRuleView)>,
    vendor: Seq<char>,
) -> Option<QuirksFaultView> {
    if !has_fallback(table) {
        Some(QuirksFaultView::MissingFallback { vendor })
    } else {
        rules_fault(table, vendor)
    }
}

/// The first thing that is wrong with a quirks database.
pub open spec fn quirks_fault(db: QuirksDbView) -> Option<QuirksFaultView> {
    if let Some(fault) = table_fault(db.nvidia, "nvidia"@) {
        Some(fault)
    } else if let Some(fault) = table_fault(db.amd, "amd"@) {
        Some(fault)
    } else if let Some(fault) = table_fault(db.intel, "intel"@) {
        Some(fault)
    } else if let Some(fault) = table_fault(db.apple, "apple"@) {
        Some(fault)
    } else if let Some(fault) = table_fault(db.vulkan, "vulkan"@) {
        Some(fault)
    } else {
        table_fault(db.none, "none"@)
    }
}

fn check_table(table: &Table<StackRule>, vendor: &str) -> (r: Option<QuirksFault>)
    ensures
        r.deep_view() == table_fault(table.deep_view(), vendor@),
{
    if table.get("unknown").is_none() && table.get("default").is_none() {
        return Some(QuirksFault::MissingFallback { vendor: vendor.to_string() });
    }
    let ghost view = table.deep_view();
    let count: usize = table.len();
    let mut i: usize = 0;
    assert(view.skip(0) =~= view);
    while i < count
        invariant
            view == table.deep_view(),
            has_fallback(view),
            count == view.len(),
            i <= count,
            rules_fault(view, vendor@) == rules_fault(view.skip(i as int), vendor@),
        decreases count - i,
    {
        assert(view.skip(i as int)[0] == view[i as int]);
        if let Some(fault) = check_rule(vendor, table.key(i).as_str(), table.value(i)) {
            return Some(fault);
        }
        assert(view.skip(i as int).skip(1) =~= view.skip(i + 1));
        i += 1;
    }
    None
}

/// Structural check of the quirks database: every vendor table has a fallback
/// rule that any hardware can run, every image is a real reference, and every
/// stack exists. Reports the first fault.
pub fn validate_quirks_db(db: &QuirksDb) -> (r: Result<(), QuirksFault>)
    ensures
        match r {
            Ok(_) => quirks_fault(db.deep_view()) is None,
            Err(e) => quirks_fault(db.deep_view()) == Some(e.deep_view()),
        },
{
    if let Some(fault) = check_table(&db.nvidia, "nvidia") {
        return Err(fault);
    }
    if let Some(fault) = check_table(&db.amd, "amd") {
        return Err(fault);
    }
    if let Some(fault) = check_table(&db.intel, "intel") {
        return Err(fault);
    }
    if let Some(fault) = check_table(&db.apple, "apple") {
        return Err(fault);
    }
    if let Some(fault) = check_table(&db.vulkan, "vulkan") {
        return Err(fault);
    }
    if let Some(fault) = check_table(&db.none, "none") {
        return Err(fault);
    }
    Ok(())
}

proof fn lemma_entry_is_sound(
    table: Seq<(Seq<char>, StackRuleView)>,
    vendor: Seq<char>,
    key: Seq<char>,
)
    requires
        rules_fault(table, vendor) is None,
    ensures
        table::entry(table, key) matches Some(rule) ==> rule_fault(vendor, key, rule) is None,
    decreases table.len(),
{
    if table.len() > 0 {
        lemma_entry_is_sound(table.skip(1), vendor, key);
    }
}

/// With a database that passes the structural check, every classification
/// resolves, whatever its arch tag, to a stack that exists and to a real
/// image: hardware that nobody has added yet gets a fallback and no error. And
/// that fallback is Vulkan or the CPU, for every tag that has no rule of its
/// own, as for `unknown` and for GPUs of no known vendor.
pub proof fn law_valid_database_resolves_everything(db: QuirksDbView, class: GpuClassView)
    requires
        quirks_fault(db) is None,
    ensures
        resolution(db, class) matches Ok(resolved) && is_stack(resolved.stack) && is_real_image(
            resolved.image,
        ) && (resolved.windows_image matches Some(image) ==> is_real_image(image)) && (class
            !is Apple && (table::entry(vendor_table(db, class), class_key(class)) is None
            || class_key(class) == "unknown"@ || class is Vulkan || class is NoGpu)
            ==> runs_anywhere(resolved.stack)),
{
    reveal_strlit("apple");
    reveal_strlit("nvidia");
    reveal_strlit("amd");
    reveal_strlit("intel");
    reveal_strlit("vulkan");
    reveal_strlit("none");
    let table = vendor_table(db, class);
    let vendor = vendor_name(class);
    assert(table_fault(table, vendor) is None);
    lemma_entry_is_sound(table, vendor, class_key(class));
    lemma_entry_is_sound(table, vendor, "unknown"@);
    lemma_entry_is_sound(table, vendor, "default"@);
    assert(class !is Apple ==> vendor != "apple"@) by {
        assert("apple"@.len() == 5 && "intel"@.len() == 5 && "apple"@[0] == 'a' && "intel"@[0]
            == 'i');
        assert("nvidia"@.len() != 5 && "amd"@.len() != 5 && "vulkan"@.len() != 5 && "none"@.len()
            != 5);
    }
}

/// A rule that the database has for the very tag is the one that is used.
pub proof fn law_own_rule_wins(db: QuirksDbView, class: GpuClassView)
    requires
        table::entry(vendor_table(db, class), class_key(class)) is Some,
    ensures
        resolution(db, class) matches Ok(resolved) && ({
            let rule = table::entry(vendor_table(db, class), class_key(class))->0;
            &&& resolved.stack == rule.stack
            &&& resolved.image == rule.image
            &&& resolved.env == rule.env
            &&& resolved.packages == rule.packages
            &&& resolved.rule_key == vendor_name(class) + "."@ + class_key(class)
        }),
{
}

/// A tag without a rule of its own resolves exactly as the tag `unknown` does,
/// but for the description of the hardware.
pub proof fn law_unknown_tags_fall_back(db: QuirksDbView, class: GpuClassView, unknown: GpuClassView)
    requires
        table::entry(vendor_table(db, class), class_key(class)) is None,
        table::entry(vendor_table(db, class), "unknown"@) is Some,
        vendor_name(unknown) == vendor_name(class),
        vendor_table(db, unknown) == vendor_table(db, class),
        class_key(unknown) == "unknown"@,
    ensures
        resolution(db, class) matches Ok(found) && resolution(db, unknown) matches Ok(fallback)
            && found == (ResolvedStackView { detected: found.detected, ..fallback }),
{
}

/// Whether a stack was resolved by the given rule of the given table: it has
/// all that the rule says, and says itself which rule that was.
pub open spec fn comes_from(
    resolved: ResolvedStackView,
    rule: StackRuleView,
    table: Seq<char>,
    key: Seq<char>,
) -> bool {
    &&& resolved.stack == rule.stack
    &&& resolved.image == rule.image
    &&& resolved.windows_image == rule.windows_image
    &&& resolved.env == rule.env
    &&& resolved.notes == rule.notes
    &&& resolved.packages == rule.packages
    &&& resolved.rule_key == table + "."@ + key
}

/// Whether a lookup in a table ended as it must: with the rule of the very tag;
/// else with that of `unknown`; else with that of `default`; and else, and only
/// else, with an error that names the table and the tag.
pub open spec fn is_looked_up(
    resolved: Result<ResolvedStackView, ResolveErrorView>,
    rules: Seq<(Seq<char>, StackRuleView)>,
    table: Seq<char>,
    tag: Seq<char>,
) -> bool {
    if let Some(rule) = table::entry(rules, tag) {
        resolved matches Ok(found) && comes_from(found, rule, table, tag)
    } else if let Some(rule) = table::entry(rules, "unknown"@) {
        resolved matches Ok(found) && comes_from(found, rule, table, "unknown"@)
    } else if let Some(rule) = table::entry(rules, "default"@) {
        resolved matches Ok(found) && comes_from(found, rule, table, "default"@)
    } else {
        resolved matches Err(e) && e.cause.vendor == table && e.cause.key == tag
    }
}

/// Each vendor's GPUs are resolved by the vendor's own table: NVIDIA's, AMD's
/// and Intel's by their tag, and the others by the one rule of theirs.
pub proof fn law_every_vendor_has_its_table(db: QuirksDbView, tag: Seq<char>)
    ensures
        is_looked_up(
            resolution(db, GpuClassView::Nvidia { arch: tag }),
            db.nvidia,
            "nvidia"@,
            tag,
        ),
        is_looked_up(resolution(db, GpuClassView::Amd { arch: tag }), db.amd, "amd"@, tag),
        is_looked_up(resolution(db, GpuClassView::Intel { class: tag }), db.intel, "intel"@, tag),
        is_looked_up(resolution(db, GpuClassView::Apple), db.apple, "apple"@, "default"@),
        is_looked_up(resolution(db, GpuClassView::Vulkan), db.vulkan, "vulkan"@, "default"@),
        is_looked_up(resolution(db, GpuClassView::NoGpu), db.none, "none"@, "default"@),
{
}

/// What was resolved, or could not be, is said to come from the hardware that
/// was asked about.
pub proof fn law_resolutions_say_what_was_detected(db: QuirksDbView, class: GpuClassView)
    ensures
        match resolution(db, class) {
            Ok(resolved) => resolved.detected == probe::description(class),
            Err(e) => e.detected == probe::description(class) && resolve_message(e)
                == "resolving stack for detected hardware "@ + probe::description(class),
        },
{
}

/// The six stacks that exist, and no other.
pub proof fn law_there_are_six_stacks(stack: Seq<char>)
    ensures
        is_stack("cuda"@),
        is_stack("rocm"@),
        is_stack("oneapi"@),
        is_stack("metal"@),
        is_stack("vulkan"@),
        is_stack("cpu"@),
        stack != "cuda"@ && stack != "rocm"@ && stack != "oneapi"@ && stack != "metal"@ && stack
            != "vulkan"@ && stack != "cpu"@ ==> !is_stack(stack),
        runs_anywhere(stack) <==> stack == "vulkan"@ || stack == "cpu"@,
{
}

/// A real image reference is not empty, has no white space, and does not stand
/// in the placeholder namespace `gpubox/`; and a reference of visible ASCII
/// characters that does not stand there is real.
pub proof fn law_real_images(image: Seq<char>, rest: Seq<char>)
    ensures
        !is_real_image(Seq::empty()),
        !is_real_image("gpubox/"@ + rest),
        image.contains(' ') || image.contains('\n') || image.contains('\t') ==> !is_real_image(
            image,
        ),
        image.len() > 0 && (forall|i: int|
            0 <= i < image.len() ==> '!' <= #[trigger] image[i] <= '~') && !text::has_prefix(
            image,
            "gpubox/"@,
        ) ==> is_real_image(image),
{
    let placeholder = "gpubox/"@ + rest;
    assert(placeholder.subrange(0, "gpubox/"@.len() as int) =~= "gpubox/"@);
    if image.contains(' ') {
        assert(text::is_space(image[image.index_of(' ')]));
    }
    if image.contains('\n') {
        assert(text::is_space(image[image.index_of('\n')]));
    }
    if image.contains('\t') {
        assert(text::is_space(image[image.index_of('\t')]));
    }
}

/// Whether the rules of a table are sound: there is a fallback, and every rule
/// has real images, a stack that exists, and, if it is a fallback that any
/// hardware must be able to run, Vulkan or the CPU.
pub open spec fn is_sound_table(
    rules: Seq<(Seq<char>, StackRuleView)>,
    runs_everywhere: bool,
) -> bool {
    &&& exists|i: int|
        0 <= i < rules.len() && ((#[trigger] rules[i]).0 == "unknown"@ || rules[i].0 == "default"@)
    &&& forall|i: int|
        0 <= i < rules.len() ==> is_real_image((#[trigger] rules[i]).1.image) && (
        rules[i].1.windows_image matches Some(image) ==> is_real_image(image)) && is_stack(
            rules[i].1.stack,
        ) && (runs_everywhere && (rules[i].0 == "unknown"@ || rules[i].0 == "default"@)
            ==> rules[i].1.stack == "vulkan"@ || rules[i].1.stack == "cpu"@)
}

proof fn lemma_entry_at<T>(rules: Seq<(Seq<char>, T)>, key: Seq<char>)
    ensures
        table::entry(rules, key) is Some <==> exists|i: int|
            0 <= i < rules.len() && (#[trigger] rules[i]).0 == key,
    decreases rules.len(),
{
    if rules.len() > 0 {
        let rest = rules.skip(1);
        lemma_entry_at(rest, key);
        if rules[0].0 != key && exists|i: int|
            0 <= i < rules.len() && (#[trigger] rules[i]).0 == key {
            let i = choose|i: int| 0 <= i < rules.len() && (#[trigger] rules[i]).0 == key;
            assert(rest[i - 1] == rules[i]);
        }
        if rules[0].0 != key && table::entry(rest, key) is Some {
            let i = choose|i: int| 0 <= i < rest.len() && (#[trigger] rest[i]).0 == key;
            assert(rules[i + 1] == rest[i]);
        }
    }
}

proof fn lemma_rules_fault(rules: Seq<(Seq<char>, StackRuleView)>, vendor: Seq<char>)
    ensures
        rules_fault(rules, vendor) is None <==> forall|i: int|
            0 <= i < rules.len() ==> rule_fault(vendor, (#[trigger] rules[i]).0, rules[i].1) is None,
    decreases rules.len(),
{
    if rules.len() > 0 {
        let rest = rules.skip(1);
        lemma_rules_fault(rest, vendor);
        if rules_fault(rules, vendor) is None {
            assert forall|i: int| 0 <= i < rules.len() implies rule_fault(
                vendor,
                (#[trigger] rules[i]).0,
                rules[i].1,
            ) is None by {
                if i > 0 {
                    assert(rest[i - 1] == rules[i]);
                }
            }
        } else if rule_fault(vendor, rules[0].0, rules[0].1) is None {
            let i = choose|i: int|
                0 <= i < rest.len() && rule_fault(vendor, (#[trigger] rest[i]).0, rest[i].1)
                    is Some;
            assert(rules[i + 1] == rest[i]);
        }
    }
}

proof fn lemma_table_fault(rules: Seq<(Seq<char>, StackRuleView)>, vendor: Seq<char>)
    ensures
        table_fault(rules, vendor) is None <==> is_sound_table(rules, vendor != "apple"@),
{
    lemma_entry_at(rules, "unknown"@);
    lemma_entry_at(rules, "default"@);
    lemma_rules_fault(rules, vendor);
    if is_sound_table(rules, vendor != "apple"@) {
        assert forall|i: int| 0 <= i < rules.len() implies rule_fault(
            vendor,
            (#[trigger] rules[i]).0,
            rules[i].1,
        ) is None by {}
    }
    if table_fault(rules, vendor) is None {
        assert forall|i: int| 0 <= i < rules.len() implies is_real_image(
            (#[trigger] rules[i]).1.image,
        ) && (rules[i].1.windows_image matches Some(image) ==> is_real_image(image)) && is_stack(
            rules[i].1.stack,
        ) && (vendor != "apple"@ && (rules[i].0 == "unknown"@ || rules[i].0 == "default"@)
            ==> rules[i].1.stack == "vulkan"@ || rules[i].1.stack == "cpu"@) by {
            assert(rule_fault(vendor, rules[i].0, rules[i].1) is None);
        }
    }
}

/// A quirks database passes the structural check exactly when each of its six
/// tables is sound. The one fallback that need not run on any hardware is
/// Apple's.
pub proof fn law_valid_quirks(db: QuirksDbView)
    ensures
        quirks_fault(db) is None <==> is_sound_table(db.nvidia, true) && is_sound_table(
            db.amd,
            true,
        ) && is_sound_table(db.intel, true) && is_sound_table(db.apple, false) && is_sound_table(
            db.vulkan,
            true,
        ) && is_sound_table(db.none, true),
{
    reveal_strlit("apple");
    reveal_strlit("nvidia");
    reveal_strlit("amd");
    reveal_strlit("intel");
    reveal_strlit("vulkan");
    reveal_strlit("none");
    assert("apple"@[0] == 'a' && "intel"@[0] == 'i');
    assert("apple"@.len() == 5 && "nvidia"@.len() == 6 && "amd"@.len() == 3);
    assert("vulkan"@.len() == 6 && "none"@.len() == 4);
    lemma_table_fault(db.nvidia, "nvidia"@);
    lemma_table_fault(db.amd, "amd"@);
    lemma_table_fault(db.intel, "intel"@);
    lemma_table_fault(db.apple, "apple"@);
    lemma_table_fault(db.vulkan, "vulkan"@);
    lemma_table_fault(db.none, "none"@);
}

proof fn lemma_reported_rule(rules: Seq<(Seq<char>, StackRuleView)>, vendor: Seq<char>)
    ensures
        rules_fault(rules, vendor) matches Some(fault) ==> exists|i: int|
            0 <= i < rules.len() && rule_fault(vendor, (#[trigger] rules[i]).0, rules[i].1) == Some(
                fault,
            ),
    decreases rules.len(),
{
    if rules.len() > 0 && rule_fault(vendor, rules[0].0, rules[0].1) is None {
        let rest = rules.skip(1);
        lemma_reported_rule(rest, vendor);
        if let Some(fault) = rules_fault(rest, vendor) {
            let i = choose|i: int|
                0 <= i < rest.len() && rule_fault(vendor, (#[trigger] rest[i]).0, rest[i].1)
                    == Some(fault);
            assert(rules[i + 1] == rest[i]);
        }
    }
}

/// What the structural check reports of a table is wrong with it: it has no
/// fallback, or one of its rules - the one whose tag is reported - has an image
/// that is not real, a stack that does not exist, or a fallback that not all
/// hardware can run.
pub proof fn law_reported_faults_are_there(
    rules: Seq<(Seq<char>, StackRuleView)>,
    vendor: Seq<char>,
)
    ensures
        table_fault(rules, vendor) matches Some(fault) ==> match fault {
            QuirksFaultView::MissingFallback { vendor: reported } => reported == vendor
                && table::entry(rules, "unknown"@) is None && table::entry(rules, "default"@)
                is None,
            QuirksFaultView::BadImage { vendor: reported, key } => reported == vendor && exists|
                i: int,
            |
                0 <= i < rules.len() && (#[trigger] rules[i]).0 == key && (!is_real_image(
                    rules[i].1.image,
                ) || (rules[i].1.windows_image matches Some(image) && !is_real_image(image))),
            QuirksFaultView::UnknownStack { vendor: reported, key } => reported == vendor && exists|
                i: int,
            |
                0 <= i < rules.len() && (#[trigger] rules[i]).0 == key && !is_stack(
                    rules[i].1.stack,
                ),
            QuirksFaultView::BadFallback { vendor: reported, key } => reported == vendor && (key
                == "unknown"@ || key == "default"@) && exists|i: int|
                0 <= i < rules.len() && (#[trigger] rules[i]).0 == key && rules[i].1.stack
                    != "vulkan"@ && rules[i].1.stack != "cpu"@,
        },
{
    lemma_reported_rule(rules, vendor);
    if let Some(fault) = table_fault(rules, vendor) {
        if has_fallback(rules) {
            let i = choose|i: int|
                0 <= i < rules.len() && rule_fault(vendor, (#[trigger] rules[i]).0, rules[i].1)
                    == Some(fault);
            assert(rules[i].0 == rules[i].0);
        }
    }
}

/// What the user is told about a missing rule names the rule and the fallbacks
/// that were looked for.
pub proof fn law_missing_rule_messages(vendor: Seq<char>, key: Seq<char>)
    ensures
        missing_rule_message(MissingRuleView { vendor, key })
            == "data/quirks.toml has no rule for `"@ + vendor + "."@ + key + "` and no `"@ + vendor
            + ".unknown`/`"@ + vendor + ".default` fallback"@,
{
}

} // verus!
