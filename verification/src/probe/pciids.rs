//! The hardware classification database: turns a raw (vendor_id, device_id)
//! pair into a [`GpuClass`].

use vstd::prelude::*;
use crate::probe::{GpuClass, GpuClassView};
use crate::table;
use crate::table::Table;
use crate::text;

verus! {

pub const VENDOR_NVIDIA: u16 = 0x10de;

pub const VENDOR_AMD: u16 = 0x1002;

pub const VENDOR_INTEL: u16 = 0x8086;

/// Per vendor, which arch tag a device id stands for. Keys are device ids in
/// the form `0x2684`.
#[derive(Debug)]
pub struct PciIds {
    pub nvidia: Table<String>,
    pub amd: Table<String>,
    pub intel: Table<String>,
}

/// What a [`PciIds`] holds.
#[verifier::ext_equal]
pub struct PciIdsView {
    pub nvidia: Seq<(Seq<char>, Seq<char>)>,
    pub amd: Seq<(Seq<char>, Seq<char>)>,
    pub intel: Seq<(Seq<char>, Seq<char>)>,
}

impl DeepView for PciIds {
    type V = PciIdsView;

    open spec fn deep_view(&self) -> PciIdsView {
        PciIdsView {
            nvidia: self.nvidia.deep_view(),
            amd: self.amd.deep_view(),
            intel: self.intel.deep_view(),
        }
    }
}

/// The key of a device id: `0x` and four lower-case hexadecimal digits.
pub open spec fn id_key(device_id: u16) -> Seq<char> {
    "0x"@ + text::hex(device_id as nat, 4)
}

/// The key of a device id.
pub fn key(device_id: u16) -> (r: String)
    ensures
        r@ == id_key(device_id),
{
    text::join2("0x", text::to_hex(device_id as u64, 4).as_str())
}

/// The tag of a device id, or `fallback` for an id that the table lacks.
pub open spec fn tag_or(
    table: Seq<(Seq<char>, Seq<char>)>,
    device_id: u16,
    fallback: Seq<char>,
) -> Seq<char> {
    match table::entry(table, id_key(device_id)) {
        Some(tag) => tag,
        None => fallback,
    }
}

fn lookup_tag(table: &Table<String>, device_id: u16, fallback: &str) -> (r: String)
    ensures
        r@ == tag_or(table.deep_view(), device_id, fallback@),
{
    match table.get(key(device_id).as_str()) {
        Some(tag) => tag.clone(),
        None => fallback.to_string(),
    }
}

/// What a (vendor_id, device_id) pair stands for. Unknown devices of a known
/// vendor keep the vendor; an unknown vendor is generic Vulkan.
pub open spec fn class_of(ids: PciIdsView, vendor_id: u16, device_id: u16) -> GpuClassView {
    if vendor_id == VENDOR_NVIDIA {
        GpuClassView::Nvidia { arch: tag_or(ids.nvidia, device_id, "unknown"@) }
    } else if vendor_id == VENDOR_AMD {
        GpuClassView::Amd { arch: tag_or(ids.amd, device_id, "unknown"@) }
    } else if vendor_id == VENDOR_INTEL {
        GpuClassView::Intel { class: tag_or(ids.intel, device_id, "igpu"@) }
    } else {
        GpuClassView::Vulkan
    }
}

/// Classify a (vendor_id, device_id) pair read from PCI configuration space
/// (e.g. `/sys/class/drm/card0/device/{vendor,device}` on Linux).
pub fn classify(ids: &PciIds, vendor_id: u16, device_id: u16) -> (r: GpuClass)
    ensures
        r.deep_view() == class_of(ids.deep_view(), vendor_id, device_id),
{
    if vendor_id == VENDOR_NVIDIA {
        GpuClass::Nvidia { arch: lookup_tag(&ids.nvidia, device_id, "unknown") }
    } else if vendor_id == VENDOR_AMD {
        GpuClass::Amd { arch: lookup_tag(&ids.amd, device_id, "unknown") }
    } else if vendor_id == VENDOR_INTEL {
        GpuClass::Intel { class: lookup_tag(&ids.intel, device_id, "igpu") }
    } else {
        GpuClass::Vulkan
    }
}

/// Whether `c` is a lower-case hexadecimal digit.
pub open spec fn is_lower_hex(c: char) -> bool {
    '0' <= c <= '9' || 'a' <= c <= 'f'
}

/// Whether a key has the form `0x2684`: `0x` and four lower-case hexadecimal
/// digits.
pub open spec fn is_id_key(key: Seq<char>) -> bool {
    &&& key.len() == 6
    &&& text::has_prefix(key, "0x"@)
    &&& forall|i: int| 2 <= i < 6 ==> is_lower_hex(#[trigger] key[i])
}

/// What the lower-case hexadecimal digit `c` stands for.
spec fn lower_hex_value(c: char) -> int {
    if c <= '9' {
        c as int - '0' as int
    } else {
        c as int - 'a' as int + 10
    }
}

/// The well-formed keys are exactly the keys of device ids: an entry under
/// any other key could never be looked up.
pub proof fn law_id_keys_are_the_keys_of_ids(key: Seq<char>)
    ensures
        is_id_key(key) <==> exists|device_id: u16| key == #[trigger] id_key(device_id),
{
    reveal_strlit("0x");
    reveal_with_fuel(text::hex, 5);
    if is_id_key(key) {
        assert(is_lower_hex(key[2]) && is_lower_hex(key[3]) && is_lower_hex(key[4])
            && is_lower_hex(key[5]));
        let a = lower_hex_value(key[2]);
        let b = lower_hex_value(key[3]);
        let c = lower_hex_value(key[4]);
        let d = lower_hex_value(key[5]);
        let n = a * 4096 + b * 256 + c * 16 + d;
        let device_id = n as u16;
        assert(n / 16 == a * 256 + b * 16 + c && n % 16 == d);
        assert(n / 16 / 16 == a * 16 + b && (n / 16) % 16 == c);
        assert(n / 16 / 16 / 16 == a && (n / 16 / 16) % 16 == b);
        assert(key.subrange(0, 2)[0] == key[0] && key.subrange(0, 2)[1] == key[1]);
        assert(key =~= id_key(device_id));
    }
    if exists|device_id: u16| key == #[trigger] id_key(device_id) {
        let device_id = choose|device_id: u16| key == #[trigger] id_key(device_id);
        assert(key.subrange(0, 2) =~= "0x"@);
    }
}

/// Whether a tag is one of the coarse classes of Intel GPUs.
pub open spec fn is_intel_class(tag: Seq<char>) -> bool {
    tag == "arc"@ || tag == "xe"@ || tag == "igpu"@
}

/// What is wrong with a classification database.
#[derive(Debug, PartialEq, Eq)]
pub enum PciIdsFault {
    /// A key that is no device id.
    BadDeviceId { vendor: String, key: String },
    /// A tag of an Intel device that is none of Intel's classes.
    BadIntelClass { key: String, tag: String },
}

/// What a [`PciIdsFault`] stands for.
#[verifier::ext_equal]
pub enum PciIdsFaultView {
    BadDeviceId { vendor: Seq<char>, key: Seq<char> },
    BadIntelClass { key: Seq<char>, tag: Seq<char> },
}

impl DeepView for PciIdsFault {
    type V = PciIdsFaultView;

    open spec fn deep_view(&self) -> PciIdsFaultView {
        match self {
            PciIdsFault::BadDeviceId { vendor, key } => PciIdsFaultView::BadDeviceId {
                vendor: vendor@,
                key: key@,
            },
            PciIdsFault::BadIntelClass { key, tag } => PciIdsFaultView::BadIntelClass {
                key: key@,
                tag: tag@,
            },
        }
    }
}

/// The first key of a vendor's table that is no device id.
pub open spec fn table_fault(table: Seq<(Seq<char>, Seq<char>)>, vendor: Seq<char>) -> Option<
    PciIdsFaultView,
>
    decreases table.len(),
{
    if table.len() == 0 {
        None
    } else if !is_id_key(table[0].0) {
        Some(PciIdsFaultView::BadDeviceId { vendor, key: table[0].0 })
    } else {
        table_fault(table.skip(1), vendor)
    }
}

/// The first tag of Intel's table that is none of Intel's classes.
pub open spec fn intel_fault(table: Seq<(Seq<char>, Seq<char>)>) -> Option<PciIdsFaultView>
    decreases table.len(),
{
    if table.len() == 0 {
        None
    } else if !is_intel_class(table[0].1) {
        Some(PciIdsFaultView::BadIntelClass { key: table[0].0, tag: table[0].1 })
    } else {
        intel_fault(table.skip(1))
    }
}

/// The first thing that is wrong with the database: a key that is no device
/// id, or a tag that is none of Intel's classes.
pub open spec fn ids_fault(ids: PciIdsView) -> Option<PciIdsFaultView> {
    match table_fault(ids.nvidia, "nvidia"@) {
        Some(fault) => Some(fault),
        None => match table_fault(ids.amd, "amd"@) {
            Some(fault) => Some(fault),
            None => match table_fault(ids.intel, "intel"@) {
                Some(fault) => Some(fault),
                None => intel_fault(ids.intel),
            },
        },
    }
}

fn check_key(key: &str) -> (r: bool)
    ensures
        r == is_id_key(key@),
{
    let chars = text::chars_of(key);
    if chars.len() != 6 || !text::starts_with(key, "0x") {
        return false;
    }
    let mut i: usize = 2;
    while i < 6
        invariant
            chars@ == key@,
            2 <= i <= 6,
            chars@.len() == 6,
            forall|j: int| 2 <= j < i ==> is_lower_hex(#[trigger] key@[j]),
        decreases 6 - i,
    {
        let c = chars[i];
        if !('0' <= c && c <= '9' || 'a' <= c && c <= 'f') {
            assert(!is_lower_hex(key@[i as int]));
            return false;
        }
        i += 1;
    }
    true
}

fn check_table(table: &Table<String>, vendor: &str) -> (r: Option<PciIdsFault>)
    ensures
        r.deep_view() == table_fault(table.deep_view(), vendor@),
{
    let ghost view = table.deep_view();
    let count: usize = table.len();
    let mut i: usize = 0;
    assert(view.skip(0) =~= view);
    while i < count
        invariant
            view == table.deep_view(),
            count == view.len(),
            i <= count,
            table_fault(view, vendor@) == table_fault(view.skip(i as int), vendor@),
        decreases count - i,
    {
        let key = table.key(i);
        assert(view.skip(i as int)[0] == view[i as int]);
        if !check_key(key.as_str()) {
            return Some(
                PciIdsFault::BadDeviceId { vendor: vendor.to_string(), key: key.clone() },
            );
        }
        assert(view.skip(i as int).skip(1) =~= view.skip(i + 1));
        i += 1;
    }
    None
}

fn check_intel_classes(table: &Table<String>) -> (r: Option<PciIdsFault>)
    ensures
        r.deep_view() == intel_fault(table.deep_view()),
{
    let ghost view = table.deep_view();
    let count: usize = table.len();
    let mut i: usize = 0;
    assert(view.skip(0) =~= view);
    while i < count
        invariant
            view == table.deep_view(),
            count == view.len(),
            i <= count,
            intel_fault(view) == intel_fault(view.skip(i as int)),
        decreases count - i,
    {
        let tag = table.value(i);
        assert(view.skip(i as int)[0] == view[i as int]);
        if !text::same(tag.as_str(), "arc") && !text::same(tag.as_str(), "xe") && !text::same(
            tag.as_str(),
            "igpu",
        ) {
            return Some(
                PciIdsFault::BadIntelClass { key: table.key(i).clone(), tag: tag.clone() },
            );
        }
        assert(view.skip(i as int).skip(1) =~= view.skip(i + 1));
        i += 1;
    }
    None
}

/// Structural check of the classification database: every device id has the
/// form that lookups use, and every Intel device one of Intel's classes.
/// Reports the first fault.
pub fn validate_pci_ids_db(ids: &PciIds) -> (r: Result<(), PciIdsFault>)
    ensures
        match r {
            Ok(_) => ids_fault(ids.deep_view()) is None,
            Err(e) => ids_fault(ids.deep_view()) == Some(e.deep_view()),
        },
{
    if let Some(fault) = check_table(&ids.nvidia, "nvidia") {
        return Err(fault);
    }
    if let Some(fault) = check_table(&ids.amd, "amd") {
        return Err(fault);
    }
    if let Some(fault) = check_table(&ids.intel, "intel") {
        return Err(fault);
    }
    if let Some(fault) = check_intel_classes(&ids.intel) {
        return Err(fault);
    }
    Ok(())
}

/// Whether every key of a table is a device id.
pub open spec fn all_ids(table: Seq<(Seq<char>, Seq<char>)>) -> bool {
    forall|i: int| 0 <= i < table.len() ==> is_id_key(#[trigger] table[i].0)
}

proof fn lemma_table_fault(table: Seq<(Seq<char>, Seq<char>)>, vendor: Seq<char>)
    ensures
        table_fault(table, vendor) is None <==> all_ids(table),
    decreases table.len(),
{
    if table.len() > 0 {
        lemma_table_fault(table.skip(1), vendor);
        if all_ids(table) {
            assert(is_id_key(table[0].0));
            assert forall|i: int| 0 <= i < table.skip(1).len() implies is_id_key(
                #[trigger] table.skip(1)[i].0,
            ) by {
                assert(is_id_key(table[i + 1].0));
            }
        }
        if table_fault(table, vendor) is None {
            assert forall|i: int| 0 <= i < table.len() implies is_id_key(
                #[trigger] table[i].0,
            ) by {
                if i > 0 {
                    assert(is_id_key(table.skip(1)[i - 1].0));
                }
            }
        }
    }
}

/// Whether every tag of a table is one of Intel's classes.
pub open spec fn all_intel_classes(table: Seq<(Seq<char>, Seq<char>)>) -> bool {
    forall|i: int| 0 <= i < table.len() ==> is_intel_class(#[trigger] table[i].1)
}

proof fn lemma_intel_fault(table: Seq<(Seq<char>, Seq<char>)>)
    ensures
        intel_fault(table) is None <==> all_intel_classes(table),
    decreases table.len(),
{
    if table.len() > 0 {
        lemma_intel_fault(table.skip(1));
        if all_intel_classes(table) {
            assert(is_intel_class(table[0].1));
            assert forall|i: int| 0 <= i < table.skip(1).len() implies is_intel_class(
                #[trigger] table.skip(1)[i].1,
            ) by {
                assert(is_intel_class(table[i + 1].1));
            }
        }
        if intel_fault(table) is None {
            assert forall|i: int| 0 <= i < table.len() implies is_intel_class(
                #[trigger] table[i].1,
            ) by {
                if i > 0 {
                    assert(is_intel_class(table.skip(1)[i - 1].1));
                }
            }
        }
    }
}

/// The database passes the structural check exactly when every one of its
/// keys is a device id and every tag of Intel's table one of Intel's classes.
pub proof fn law_valid_ids(ids: PciIdsView)
    ensures
        ids_fault(ids) is None <==> all_ids(ids.nvidia) && all_ids(ids.amd) && all_ids(ids.intel)
            && all_intel_classes(ids.intel),
{
    lemma_table_fault(ids.nvidia, "nvidia"@);
    lemma_table_fault(ids.amd, "amd"@);
    lemma_table_fault(ids.intel, "intel"@);
    lemma_intel_fault(ids.intel);
}

proof fn lemma_intel_entry(table: Seq<(Seq<char>, Seq<char>)>, key: Seq<char>)
    requires
        intel_fault(table) is None,
    ensures
        table::entry(table, key) matches Some(tag) ==> is_intel_class(tag),
    decreases table.len(),
{
    if table.len() > 0 {
        lemma_intel_entry(table.skip(1), key);
    }
}

/// By a database that passes the structural check, an Intel GPU is `arc`, `xe`
/// or `igpu`, whatever its device id.
pub proof fn law_intel_gpus_have_a_known_class(ids: PciIdsView, vendor_id: u16, device_id: u16)
    requires
        ids_fault(ids) is None,
    ensures
        class_of(ids, vendor_id, device_id) matches GpuClassView::Intel { class }
            ==> is_intel_class(class),
{
    lemma_intel_entry(ids.intel, id_key(device_id));
}

/// The vendor id decides the vendor, and the vendor's own table the arch or
/// class: its entry for the device, or else `unknown`, with Intel `igpu`. Any
/// other vendor's GPU is generic Vulkan.
pub proof fn law_vendor_ids_decide(ids: PciIdsView, device_id: u16, vendor_id: u16)
    ensures
        class_of(ids, 0x10de, device_id) == (GpuClassView::Nvidia {
            arch: match table::entry(ids.nvidia, id_key(device_id)) {
                Some(tag) => tag,
                None => "unknown"@,
            },
        }),
        class_of(ids, 0x1002, device_id) == (GpuClassView::Amd {
            arch: match table::entry(ids.amd, id_key(device_id)) {
                Some(tag) => tag,
                None => "unknown"@,
            },
        }),
        class_of(ids, 0x8086, device_id) == (GpuClassView::Intel {
            class: match table::entry(ids.intel, id_key(device_id)) {
                Some(tag) => tag,
                None => "igpu"@,
            },
        }),
        vendor_id != 0x10de && vendor_id != 0x1002 && vendor_id != 0x8086 ==> class_of(
            ids,
            vendor_id,
            device_id,
        ) is Vulkan,
{
}

/// The key of a device id is `0x` and its four lower-case hexadecimal digits,
/// from which the id is read back; so no two devices share a key.
pub proof fn law_device_keys_are_read_back(device_id: u16, other: u16)
    ensures
        id_key(device_id).len() == 6,
        id_key(device_id).take(2) == "0x"@,
        text::numeral(id_key(device_id).skip(2), 16) == Some(device_id as nat),
        forall|i: int|
            2 <= i < 6 ==> '0' <= #[trigger] id_key(device_id)[i] <= '9' || 'a' <= id_key(
                device_id,
            )[i] <= 'f',
        id_key(device_id) == id_key(other) ==> device_id == other,
{
    reveal_strlit("0x");
    text::law_hex_is_read_back(device_id as nat);
    text::law_hex_is_read_back(other as nat);
    assert(id_key(device_id).take(2) =~= "0x"@);
    assert(id_key(device_id).skip(2) =~= text::hex(device_id as nat, 4));
    assert(id_key(other).skip(2) =~= text::hex(other as nat, 4));
    assert forall|i: int| 2 <= i < 6 implies '0' <= #[trigger] id_key(device_id)[i] <= '9' || 'a'
        <= id_key(device_id)[i] <= 'f' by {
        assert(id_key(device_id)[i] == text::hex(device_id as nat, 4)[i - 2]);
    }
}

/// What Intel's GPUs can be, and which keys are well formed: both by the
/// letter.
pub proof fn law_well_formed_entries(tag: Seq<char>, key: Seq<char>)
    ensures
        is_intel_class("arc"@),
        is_intel_class("xe"@),
        is_intel_class("igpu"@),
        tag != "arc"@ && tag != "xe"@ && tag != "igpu"@ ==> !is_intel_class(tag),
        is_id_key(key) ==> key.len() == 6 && key[0] == '0' && key[1] == 'x' && forall|i: int|
            2 <= i < 6 ==> '0' <= #[trigger] key[i] <= '9' || 'a' <= key[i] <= 'f',
{
    reveal_strlit("0x");
    if is_id_key(key) {
        assert(key.subrange(0, 2)[0] == key[0] && key.subrange(0, 2)[1] == key[1]);
        assert forall|i: int| 2 <= i < 6 implies '0' <= #[trigger] key[i] <= '9' || 'a' <= key[i]
            <= 'f' by {
            assert(is_lower_hex(key[i]));
        }
    }
}

proof fn lemma_reported_key(table: Seq<(Seq<char>, Seq<char>)>, vendor: Seq<char>)
    ensures
        table_fault(table, vendor) matches Some(fault) ==> (fault matches
            PciIdsFaultView::BadDeviceId { vendor: reported, key } && reported == vendor && exists|
            i: int,
        |
            0 <= i < table.len() && (#[trigger] table[i]).0 == key && !is_id_key(key)),
    decreases table.len(),
{
    if table.len() > 0 && is_id_key(table[0].0) {
        let rest = table.skip(1);
        lemma_reported_key(rest, vendor);
        if let Some(PciIdsFaultView::BadDeviceId { vendor: reported, key }) = table_fault(
            rest,
            vendor,
        ) {
            let i = choose|i: int|
                0 <= i < rest.len() && (#[trigger] rest[i]).0 == key && !is_id_key(key);
            assert(table[i + 1] == rest[i]);
        }
    } else if table.len() > 0 {
        assert(table[0].0 == table[0].0);
    }
}

proof fn lemma_reported_tag(table: Seq<(Seq<char>, Seq<char>)>)
    ensures
        intel_fault(table) matches Some(fault) ==> (fault matches
            PciIdsFaultView::BadIntelClass { key, tag } && !is_intel_class(tag) && table.contains(
            (key, tag),
        )),
    decreases table.len(),
{
    if table.len() > 0 && is_intel_class(table[0].1) {
        let rest = table.skip(1);
        lemma_reported_tag(rest);
        if let Some(PciIdsFaultView::BadIntelClass { key, tag }) = intel_fault(rest) {
            let i = rest.index_of((key, tag));
            assert(table[i + 1] == rest[i]);
        }
    } else if table.len() > 0 {
        assert(table[0] == (table[0].0, table[0].1));
    }
}

/// What the structural check reports is wrong: the key that is reported is in
/// the vendor's table and no device id, and the tag is in Intel's and none of
/// its classes.
pub proof fn law_reported_faults_are_there(ids: PciIdsView)
    ensures
        ids_fault(ids) matches Some(fault) ==> match fault {
            PciIdsFaultView::BadDeviceId { vendor, key } => {
                let table = if vendor == "nvidia"@ {
                    ids.nvidia
                } else if vendor == "amd"@ {
                    ids.amd
                } else {
                    ids.intel
                };
                (vendor == "nvidia"@ || vendor == "amd"@ || vendor == "intel"@) && !is_id_key(key)
                    && table::entry(table, key) is Some
            },
            PciIdsFaultView::BadIntelClass { key, tag } => !is_intel_class(tag)
                && ids.intel.contains((key, tag)),
        },
{
    reveal_strlit("nvidia");
    reveal_strlit("amd");
    reveal_strlit("intel");
    assert("nvidia"@.len() == 6 && "amd"@.len() == 3 && "intel"@.len() == 5);
    lemma_reported_key(ids.nvidia, "nvidia"@);
    lemma_reported_key(ids.amd, "amd"@);
    lemma_reported_key(ids.intel, "intel"@);
    lemma_reported_tag(ids.intel);
    if let Some(PciIdsFaultView::BadDeviceId { vendor, key }) = ids_fault(ids) {
        lemma_has_entry(ids.nvidia, key);
        lemma_has_entry(ids.amd, key);
        lemma_has_entry(ids.intel, key);
    }
}

proof fn lemma_has_entry(table: Seq<(Seq<char>, Seq<char>)>, key: Seq<char>)
    ensures
        (exists|i: int| 0 <= i < table.len() && (#[trigger] table[i]).0 == key) ==> table::entry(
            table,
            key,
        ) is Some,
    decreases table.len(),
{
    if table.len() > 0 && table[0].0 != key {
        let rest = table.skip(1);
        lemma_has_entry(rest, key);
        if exists|i: int| 0 <= i < table.len() && (#[trigger] table[i]).0 == key {
            let i = choose|i: int| 0 <= i < table.len() && (#[trigger] table[i]).0 == key;
            assert(rest[i - 1] == table[i]);
        }
    }
}

} // verus!
