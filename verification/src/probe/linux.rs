//! Linux hardware probe: what stands under `/sys/class/drm`, with the PCI
//! vendor/device ids straight out of sysfs. Requires no root and no vendor
//! tooling.

use vstd::prelude::*;
use crate::probe::pciids;
use crate::probe::pciids::{classify, PciIds, PciIdsView};
use crate::probe::{GpuClass, GpuClassView, GpuDevice, GpuDeviceView};
use crate::text;

verus! {

/// One entry of `/sys/class/drm`.
#[derive(Debug)]
pub struct DrmEntry {
    /// The file name, e.g. `card0` or `card0-DP-1`.
    pub name: String,
    /// Whether there is a `device` directory.
    pub has_device: bool,
    /// What `device/vendor` holds, if there is such a file.
    pub vendor: Option<String>,
    /// What `device/device` holds, if there is such a file.
    pub device: Option<String>,
    /// What `device/of_node/compatible` holds, if there is such a file:
    /// device-tree names, each ended by a NUL.
    pub compatible: Option<String>,
}

/// What a [`DrmEntry`] stands for.
#[verifier::ext_equal]
pub struct DrmEntryView {
    pub name: Seq<char>,
    pub has_device: bool,
    pub vendor: Option<Seq<char>>,
    pub device: Option<Seq<char>>,
    pub compatible: Option<Seq<char>>,
}

impl DeepView for DrmEntry {
    type V = DrmEntryView;

    open spec fn deep_view(&self) -> DrmEntryView {
        DrmEntryView {
            name: self.name@,
            has_device: self.has_device,
            vendor: self.vendor.deep_view(),
            device: self.device.deep_view(),
            compatible: self.compatible.deep_view(),
        }
    }
}

/// `s` without a leading `0x`.
pub open spec fn without_0x(s: Seq<char>) -> Seq<char> {
    if text::has_prefix(s, "0x"@) {
        s.skip(2)
    } else {
        s
    }
}

/// The id in a sysfs id file like `0x10de\n`.
pub open spec fn sysfs_id(raw: Seq<char>) -> Option<nat> {
    text::unsigned(without_0x(text::trim(raw)), 16, 0xffff)
}

/// Parses what a sysfs id file like `0x10de\n` holds into a `u16`.
pub fn read_hex_id(raw: &str) -> (r: Option<u16>)
    ensures
        match r {
            Some(v) => sysfs_id(raw@) == Some(v as nat),
            None => sysfs_id(raw@) is None,
        },
{
    let id = text::trimmed(raw);
    let chars = text::chars_of(id.as_str());
    let prefixed = text::starts_with(id.as_str(), "0x");
    proof {
        reveal_strlit("0x");
    }
    let from: usize = if prefixed {
        2
    } else {
        0
    };
    let digits = text::chars_of(text::string_of(&chars, from, chars.len()).as_str());
    assert(digits@ =~= without_0x(text::trim(raw@)));
    match text::parse_unsigned(&digits, 16, 0xffff) {
        Some(v) => Some(v as u16),
        None => None,
    }
}

/// Whether an entry is a top-level `cardN` node and no connector like
/// `cardN-DP-1`, which would list the same GPU again.
pub open spec fn is_card(name: Seq<char>) -> bool {
    text::has_prefix(name, "card"@) && !name.contains('-')
}

/// Whether an entry is a top-level `cardN` node.
pub fn is_card_name(name: &str) -> (r: bool)
    ensures
        r == is_card(name@),
{
    text::starts_with(name, "card") && !text::contains_char(&text::chars_of(name), '-')
}

/// Whether a device-tree `compatible` list has a name of the given vendor,
/// written `vendor,`.
pub open spec fn is_compatible(list: Seq<char>, vendor: Seq<char>) -> bool {
    exists|k: int| #[trigger]
        text::occurs_at(list, vendor, k) && (k == 0 || list[k - 1] == '\0')
}

fn compatible_with(list: &str, vendor: &str) -> (r: bool)
    ensures
        r == is_compatible(list@, vendor@),
{
    let chars = text::chars_of(list);
    let prefix = text::chars_of(vendor);
    let mut k: usize = 0;
    while k < chars.len()
        invariant
            chars@ == list@,
            prefix@ == vendor@,
            k <= chars@.len(),
            forall|j: int|
                0 <= j < k && #[trigger] text::occurs_at(list@, vendor@, j) ==> j != 0 && list@[j
                    - 1] != '\0',
        decreases chars@.len() - k,
    {
        if (k == 0 || chars[k - 1] == '\0') && text::matches_at(&chars, &prefix, k) {
            return true;
        }
        k += 1;
    }
    if (k == 0 || chars[k - 1] == '\0') && text::matches_at(&chars, &prefix, k) {
        return true;
    }
    false
}

/// What a GPU without PCI ids most likely is: the GPU of an SoC, which the
/// device tree may name, and generic Vulkan otherwise.
pub open spec fn soc_class(compatible: Option<Seq<char>>) -> GpuClassView {
    match compatible {
        Some(list) => if is_compatible(list, "apple,"@) {
            GpuClassView::Apple
        } else if is_compatible(list, "nvidia,"@) {
            GpuClassView::Nvidia { arch: "unknown"@ }
        } else {
            GpuClassView::Vulkan
        },
        None => GpuClassView::Vulkan,
    }
}

/// Guesses from the device tree what a GPU without PCI ids is.
pub fn classify_soc(compatible: &Option<String>) -> (r: GpuClass)
    ensures
        r.deep_view() == soc_class(compatible.deep_view()),
{
    match compatible {
        Some(list) => if compatible_with(list.as_str(), "apple,") {
            GpuClass::Apple
        } else if compatible_with(list.as_str(), "nvidia,") {
            GpuClass::Nvidia { arch: "unknown".to_string() }
        } else {
            GpuClass::Vulkan
        },
        None => GpuClass::Vulkan,
    }
}

/// The device of a card. A card whose device has neither id file is the GPU of
/// an SoC; a card without a device, or with id files that do not both hold an
/// id, is passed over.
pub open spec fn card_device(ids: PciIdsView, card: DrmEntryView) -> Option<GpuDeviceView> {
    let node = Some("/dev/dri/"@ + card.name);
    match (card.vendor, card.device) {
        (Some(vendor), Some(device)) => match (sysfs_id(vendor), sysfs_id(device)) {
            (Some(vendor), Some(device)) => Some(
                GpuDeviceView {
                    vendor_id: Some(vendor as u16),
                    device_id: Some(device as u16),
                    node,
                    class: pciids::class_of(ids, vendor as u16, device as u16),
                },
            ),
            _ => None,
        },
        (None, None) => if card.has_device {
            Some(
                GpuDeviceView {
                    vendor_id: None,
                    device_id: None,
                    node,
                    class: soc_class(card.compatible),
                },
            )
        } else {
            None
        },
        _ => None,
    }
}

/// Turns a card into its device.
pub fn probe_card(ids: &PciIds, card: &DrmEntry) -> (r: Option<GpuDevice>)
    ensures
        r.deep_view() == card_device(ids.deep_view(), card.deep_view()),
{
    let node = Some(text::join2("/dev/dri/", card.name.as_str()));
    match (&card.vendor, &card.device) {
        (Some(vendor), Some(device)) => match (
            read_hex_id(vendor.as_str()),
            read_hex_id(device.as_str()),
        ) {
            (Some(vendor), Some(device)) => Some(
                GpuDevice {
                    vendor_id: Some(vendor),
                    device_id: Some(device),
                    node,
                    class: classify(ids, vendor, device),
                },
            ),
            _ => None,
        },
        (None, None) => if card.has_device {
            Some(
                GpuDevice {
                    vendor_id: None,
                    device_id: None,
                    node,
                    class: classify_soc(&card.compatible),
                },
            )
        } else {
            None
        },
        _ => None,
    }
}

/// Whether `a` comes before `b` in the order of their characters.
pub open spec fn name_before(a: Seq<char>, b: Seq<char>) -> bool
    decreases a.len(),
{
    if b.len() == 0 {
        false
    } else if a.len() == 0 {
        true
    } else if a[0] != b[0] {
        a[0] < b[0]
    } else {
        name_before(a.skip(1), b.skip(1))
    }
}

fn precedes(a: &str, b: &str) -> (r: bool)
    ensures
        r == name_before(a@, b@),
{
    let left = text::chars_of(a);
    let right = text::chars_of(b);
    let mut i: usize = 0;
    assert(left@.skip(0) =~= left@);
    assert(right@.skip(0) =~= right@);
    while i < left.len() && i < right.len()
        invariant
            left@ == a@,
            right@ == b@,
            i <= left@.len(),
            i <= right@.len(),
            name_before(left@, right@) == name_before(left@.skip(i as int), right@.skip(i as int)),
        decreases left@.len() - i,
    {
        if left[i] != right[i] {
            return left[i] < right[i];
        }
        assert(left@.skip(i as int).skip(1) =~= left@.skip(i + 1));
        assert(right@.skip(i as int).skip(1) =~= right@.skip(i + 1));
        i += 1;
    }
    i < right.len()
}

/// `sorted` with `card` put before the first entry whose name comes after its
/// own.
pub open spec fn insert_card(sorted: Seq<DrmEntryView>, card: DrmEntryView) -> Seq<DrmEntryView>
    decreases sorted.len(),
{
    if sorted.len() == 0 {
        seq![card]
    } else if name_before(card.name, sorted[0].name) {
        seq![card] + sorted
    } else {
        seq![sorted[0]] + insert_card(sorted.skip(1), card)
    }
}

proof fn lemma_insert_card(sorted: Seq<DrmEntryView>, card: DrmEntryView, k: int)
    requires
        0 <= k <= sorted.len(),
        forall|j: int| 0 <= j < k ==> !name_before(card.name, #[trigger] sorted[j].name),
        k == sorted.len() || name_before(card.name, sorted[k].name),
    ensures
        insert_card(sorted, card) == sorted.insert(k, card),
    decreases sorted.len(),
{
    if k > 0 {
        assert(!name_before(card.name, sorted[0].name));
        assert forall|j: int| 0 <= j < k - 1 implies !name_before(
            card.name,
            #[trigger] sorted.skip(1)[j].name,
        ) by {
            assert(!name_before(card.name, sorted[j + 1].name));
        }
        lemma_insert_card(sorted.skip(1), card, k - 1);
    }
    assert(insert_card(sorted, card) =~= sorted.insert(k, card));
}

/// The cards among `entries`, in the order of their names.
pub open spec fn sorted_cards(entries: Seq<DrmEntryView>) -> Seq<DrmEntryView>
    decreases entries.len(),
{
    if entries.len() == 0 {
        Seq::empty()
    } else {
        let before = sorted_cards(entries.drop_last());
        if is_card(entries.last().name) {
            insert_card(before, entries.last())
        } else {
            before
        }
    }
}

fn sort_cards(entries: &Vec<DrmEntry>) -> (r: Vec<&DrmEntry>)
    ensures
        r.deep_view() == sorted_cards(entries.deep_view()),
{
    let mut r: Vec<&DrmEntry> = Vec::new();
    let ghost view = entries.deep_view();
    let mut i: usize = 0;
    assert(r.deep_view() =~= Seq::<DrmEntryView>::empty());
    while i < entries.len()
        invariant
            view == entries.deep_view(),
            i <= entries@.len(),
            r.deep_view() == sorted_cards(view.take(i as int)),
        decreases entries@.len() - i,
    {
        let card = &entries[i];
        let ghost before = r.deep_view();
        assert(view.take(i + 1).drop_last() =~= view.take(i as int));
        assert(view.take(i + 1).last() == card.deep_view());
        if is_card_name(card.name.as_str()) {
            let mut k: usize = 0;
            while k < r.len() && !precedes(card.name.as_str(), r[k].name.as_str())
                invariant
                    before == r.deep_view(),
                    k <= r@.len(),
                    forall|j: int|
                        0 <= j < k ==> !name_before(card.name@, #[trigger] before[j].name),
                decreases r@.len() - k,
            {
                assert(before[k as int].name == r@[k as int].name@);
                k += 1;
            }
            assert(k < r@.len() ==> before[k as int].name == r@[k as int].name@);
            proof {
                lemma_insert_card(before, card.deep_view(), k as int);
            }
            r.insert(k, card);
            assert(r.deep_view() =~= before.insert(k as int, card.deep_view()));
        }
        i += 1;
    }
    assert(view.take(i as int) =~= view);
    r
}

/// Whether no two entries have the same name, as in every directory.
pub open spec fn distinct_names(entries: Seq<DrmEntryView>) -> bool {
    forall|i: int, j: int|
        0 <= i < j < entries.len() ==> (#[trigger] entries[i]).name != (#[trigger] entries[j]).name
}

/// Whether entries are in the strict order of their names.
pub open spec fn in_name_order(entries: Seq<DrmEntryView>) -> bool {
    forall|i: int, j: int|
        0 <= i < j < entries.len() ==> name_before(
            (#[trigger] entries[i]).name,
            (#[trigger] entries[j]).name,
        )
}

/// The order of names is a strict total order.
pub proof fn law_name_order(a: Seq<char>, b: Seq<char>, c: Seq<char>)
    ensures
        !name_before(a, a),
        name_before(a, b) ==> !name_before(b, a),
        name_before(a, b) && name_before(b, c) ==> name_before(a, c),
        a != b ==> name_before(a, b) || name_before(b, a),
    decreases a.len() + b.len() + c.len(),
{
    if a.len() > 0 && b.len() > 0 && c.len() > 0 {
        law_name_order(a.skip(1), b.skip(1), c.skip(1));
    } else if a.len() > 0 && b.len() > 0 {
        law_name_order(a.skip(1), b.skip(1), c);
    } else if a.len() > 0 {
        law_name_order(a.skip(1), b, c);
    }
    if a.len() > 0 && b.len() > 0 && a[0] == b[0] && a.skip(1) == b.skip(1) {
        assert(a =~= seq![a[0]] + a.skip(1));
        assert(b =~= seq![b[0]] + b.skip(1));
    }
    if a.len() == 0 && b.len() == 0 {
        assert(a =~= b);
    }
}

proof fn lemma_insertion(sorted: Seq<DrmEntryView>, card: DrmEntryView)
    requires
        in_name_order(sorted),
        forall|i: int| 0 <= i < sorted.len() ==> (#[trigger] sorted[i]).name != card.name,
    ensures
        in_name_order(insert_card(sorted, card)),
        forall|e: DrmEntryView| #[trigger]
            insert_card(sorted, card).contains(e) <==> sorted.contains(e) || e == card,
    decreases sorted.len(),
{
    let inserted = insert_card(sorted, card);
    if sorted.len() == 0 {
        assert(inserted[0] == card);
    } else if name_before(card.name, sorted[0].name) {
        assert forall|i: int, j: int| 0 <= i < j < inserted.len() implies name_before(
            (#[trigger] inserted[i]).name,
            (#[trigger] inserted[j]).name,
        ) by {
            if i == 0 && j > 1 {
                law_name_order(card.name, sorted[0].name, sorted[j - 1].name);
            }
        }
        assert(inserted[0] == card);
        assert forall|e: DrmEntryView| #[trigger] inserted.contains(e) <==> sorted.contains(e) || e
            == card by {
            if sorted.contains(e) {
                let i = choose|i: int| 0 <= i < sorted.len() && sorted[i] == e;
                assert(inserted[i + 1] == e);
            }
        }
    } else {
        let tail = sorted.skip(1);
        lemma_insertion(tail, card);
        let rest = insert_card(tail, card);
        law_name_order(card.name, sorted[0].name, card.name);
        assert forall|j: int| 0 <= j < rest.len() implies name_before(
            sorted[0].name,
            (#[trigger] rest[j]).name,
        ) by {
            assert(rest.contains(rest[j]));
            if tail.contains(rest[j]) {
                let i = choose|i: int| 0 <= i < tail.len() && tail[i] == rest[j];
                assert(sorted[i + 1] == rest[j]);
            }
        }
        assert forall|i: int, j: int| 0 <= i < j < inserted.len() implies name_before(
            (#[trigger] inserted[i]).name,
            (#[trigger] inserted[j]).name,
        ) by {
            assert(inserted[j] == rest[j - 1]);
            if i > 0 {
                assert(inserted[i] == rest[i - 1]);
            }
        }
        assert forall|e: DrmEntryView| #[trigger] inserted.contains(e) <==> sorted.contains(e) || e
            == card by {
            if inserted.contains(e) {
                let i = choose|i: int| 0 <= i < inserted.len() && inserted[i] == e;
                if i == 0 {
                    assert(sorted[0] == e);
                } else {
                    assert(rest[i - 1] == e);
                    assert(rest.contains(e));
                    if tail.contains(e) {
                        let k = choose|k: int| 0 <= k < tail.len() && tail[k] == e;
                        assert(sorted[k + 1] == e);
                    }
                }
            }
            if sorted.contains(e) {
                let i = choose|i: int| 0 <= i < sorted.len() && sorted[i] == e;
                if i == 0 {
                    assert(inserted[0] == e);
                } else {
                    assert(tail[i - 1] == e);
                    assert(rest.contains(e));
                    let k = choose|k: int| 0 <= k < rest.len() && rest[k] == e;
                    assert(inserted[k + 1] == e);
                }
            }
            if e == card {
                assert(rest.contains(e));
                let k = choose|k: int| 0 <= k < rest.len() && rest[k] == e;
                assert(inserted[k + 1] == e);
            }
        }
    }
}

/// The cards of a directory come in the order of their names, each of them
/// once, and nothing else comes with them.
pub proof fn law_cards_are_sorted(entries: Seq<DrmEntryView>)
    requires
        distinct_names(entries),
    ensures
        in_name_order(sorted_cards(entries)),
        forall|e: DrmEntryView| #[trigger]
            sorted_cards(entries).contains(e) <==> entries.contains(e) && is_card(e.name),
    decreases entries.len(),
{
    if entries.len() > 0 {
        let front = entries.drop_last();
        let last = entries.last();
        law_cards_are_sorted(front);
        let before = sorted_cards(front);
        if is_card(last.name) {
            assert forall|i: int| 0 <= i < before.len() implies (#[trigger] before[i]).name
                != last.name by {
                assert(before.contains(before[i]));
                let k = choose|k: int| 0 <= k < front.len() && front[k] == before[i];
                assert(entries[k] == before[i]);
                assert(entries[entries.len() - 1] == last);
            }
            lemma_insertion(before, last);
        }
        assert forall|e: DrmEntryView| #[trigger] sorted_cards(entries).contains(e)
            <==> entries.contains(e) && is_card(e.name) by {
            if entries.contains(e) {
                let k = choose|k: int| 0 <= k < entries.len() && entries[k] == e;
                if k < front.len() {
                    assert(front[k] == e);
                    assert(front.contains(e));
                }
            }
            if front.contains(e) {
                let k = choose|k: int| 0 <= k < front.len() && front[k] == e;
                assert(entries[k] == e);
            }
            assert(entries[entries.len() - 1] == last);
            assert(before.contains(e) <==> front.contains(e) && is_card(e.name));
        }
    }
}

proof fn lemma_order_is_unique(a: Seq<DrmEntryView>, b: Seq<DrmEntryView>)
    requires
        in_name_order(a),
        in_name_order(b),
        forall|e: DrmEntryView| a.contains(e) <==> b.contains(e),
    ensures
        a == b,
    decreases a.len(),
{
    if a.len() == 0 {
        if b.len() > 0 {
            assert(b.contains(b[0]));
        }
        assert(a =~= b);
    } else {
        assert(a.contains(a[0]));
        let j = choose|j: int| 0 <= j < b.len() && b[j] == a[0];
        assert(b.contains(b[0]));
        let i = choose|i: int| 0 <= i < a.len() && a[i] == b[0];
        if j > 0 {
            assert(name_before(b[0].name, b[j].name));
            law_name_order(b[0].name, b[j].name, b[0].name);
            if i > 0 {
                assert(name_before(a[0].name, a[i].name));
            }
        }
        assert(a[0] == b[0]);
        let ta = a.skip(1);
        let tb = b.skip(1);
        assert(in_name_order(ta)) by {
            assert forall|x: int, y: int| 0 <= x < y < ta.len() implies name_before(
                (#[trigger] ta[x]).name,
                (#[trigger] ta[y]).name,
            ) by {
                assert(name_before(a[x + 1].name, a[y + 1].name));
            }
        }
        assert(in_name_order(tb)) by {
            assert forall|x: int, y: int| 0 <= x < y < tb.len() implies name_before(
                (#[trigger] tb[x]).name,
                (#[trigger] tb[y]).name,
            ) by {
                assert(name_before(b[x + 1].name, b[y + 1].name));
            }
        }
        assert forall|e: DrmEntryView| ta.contains(e) <==> tb.contains(e) by {
            lemma_tail_elements(a, e);
            lemma_tail_elements(b, e);
        }
        lemma_order_is_unique(ta, tb);
        assert(a =~= seq![a[0]] + ta);
        assert(b =~= seq![b[0]] + tb);
    }
}

proof fn lemma_tail_elements(a: Seq<DrmEntryView>, e: DrmEntryView)
    requires
        in_name_order(a),
        a.len() > 0,
    ensures
        a.skip(1).contains(e) <==> a.contains(e) && e != a[0],
{
    let tail = a.skip(1);
    if tail.contains(e) {
        let i = choose|i: int| 0 <= i < tail.len() && tail[i] == e;
        assert(a[i + 1] == e);
        assert(name_before(a[0].name, a[i + 1].name));
        law_name_order(e.name, e.name, e.name);
    }
    if a.contains(e) && e != a[0] {
        let i = choose|i: int| 0 <= i < a.len() && a[i] == e;
        assert(tail[i - 1] == e);
    }
}

/// The order in which a directory is walked does not matter: the same entries
/// give the same GPUs in the same order.
pub proof fn law_probe_ignores_directory_order(
    ids: PciIdsView,
    a: Seq<DrmEntryView>,
    b: Seq<DrmEntryView>,
)
    requires
        distinct_names(a),
        distinct_names(b),
        forall|e: DrmEntryView| a.contains(e) <==> b.contains(e),
    ensures
        drm_devices(ids, a) == drm_devices(ids, b),
{
    law_cards_are_sorted(a);
    law_cards_are_sorted(b);
    assert forall|e: DrmEntryView| sorted_cards(a).contains(e) <==> sorted_cards(b).contains(e) by {
        assert(a.contains(e) <==> b.contains(e));
    }
    lemma_order_is_unique(sorted_cards(a), sorted_cards(b));
}

/// The devices of the given cards, in order.
pub open spec fn card_devices(ids: PciIdsView, cards: Seq<DrmEntryView>) -> Seq<GpuDeviceView>
    decreases cards.len(),
{
    if cards.len() == 0 {
        Seq::empty()
    } else {
        let before = card_devices(ids, cards.drop_last());
        match card_device(ids, cards.last()) {
            Some(device) => before.push(device),
            None => before,
        }
    }
}

/// The GPUs under `/sys/class/drm`: those of its cards, by name.
pub open spec fn drm_devices(ids: PciIdsView, entries: Seq<DrmEntryView>) -> Seq<GpuDeviceView> {
    card_devices(ids, sorted_cards(entries))
}

/// Lists the GPUs among the entries of a DRM directory. A directory that
/// could not be read has no entries.
pub fn probe_at(ids: &PciIds, entries: &Vec<DrmEntry>) -> (r: Vec<GpuDevice>)
    ensures
        r.deep_view() == drm_devices(ids.deep_view(), entries.deep_view()),
{
    let cards = sort_cards(entries);
    let ghost view = cards.deep_view();
    let mut r: Vec<GpuDevice> = Vec::new();
    let mut i: usize = 0;
    assert(r.deep_view() =~= Seq::<GpuDeviceView>::empty());
    while i < cards.len()
        invariant
            view == cards.deep_view(),
            i <= cards@.len(),
            r.deep_view() == card_devices(ids.deep_view(), view.take(i as int)),
        decreases cards@.len() - i,
    {
        let ghost before = r.deep_view();
        assert(view.take(i + 1).drop_last() =~= view.take(i as int));
        assert(view.take(i + 1).last() == cards@[i as int].deep_view());
        if let Some(device) = probe_card(ids, cards[i]) {
            r.push(device);
            assert(r.deep_view() =~= before.push(device.deep_view()));
        }
        i += 1;
    }
    assert(view.take(i as int) =~= view);
    r
}

/// Lists the GPUs of a Linux host from the entries of `/sys/class/drm`.
pub fn probe(ids: &PciIds, entries: &Vec<DrmEntry>) -> (r: Vec<GpuDevice>)
    ensures
        r.deep_view() == drm_devices(ids.deep_view(), entries.deep_view()),
{
    probe_at(ids, entries)
}

/// Where the last dot of a file name stands.
pub open spec fn last_dot(name: Seq<char>) -> Option<nat>
    decreases name.len(),
{
    if name.len() == 0 {
        None
    } else if name.last() == '.' {
        Some((name.len() - 1) as nat)
    } else {
        last_dot(name.drop_last())
    }
}

/// The extension of a file name: what follows its last dot, unless that dot
/// is the first character.
pub open spec fn file_extension(name: Seq<char>) -> Option<Seq<char>> {
    match last_dot(name) {
        Some(at) => if at == 0 || name == ".."@ {
            None
        } else {
            Some(name.skip(at as int + 1))
        },
        None => None,
    }
}

fn extension_of(name: &str) -> (r: Option<String>)
    ensures
        r.deep_view() == file_extension(name@),
{
    let chars = text::chars_of(name);
    let mut i: usize = chars.len();
    assert(name@.take(i as int) =~= name@);
    while i > 0 && chars[i - 1] != '.'
        invariant
            chars@ == name@,
            i <= chars@.len(),
            last_dot(name@) == last_dot(name@.take(i as int)),
        decreases i,
    {
        assert(name@.take(i as int).drop_last() =~= name@.take(i - 1));
        i -= 1;
    }
    if i <= 1 || text::same(name, "..") {
        None
    } else {
        let r = text::string_of(&chars, i, chars.len());
        assert(r@ =~= name@.skip(i as int));
        Some(r)
    }
}

/// Whether a file is a CDI spec: a `.yaml` or a `.json`.
pub open spec fn is_cdi_spec(name: Seq<char>) -> bool {
    file_extension(name) == Some("yaml"@) || file_extension(name) == Some("json"@)
}

/// True if a CDI (Container Device Interface) spec directory holds at least
/// one spec file. `files` are the file names under `/etc/cdi` and
/// `/var/run/cdi`. Used by the device-injection stage to prefer CDI over raw
/// `--device` flags.
pub fn cdi_available(files: &Vec<String>) -> (r: bool)
    ensures
        r == exists|i: int|
            0 <= i < files@.len() && is_cdi_spec(#[trigger] files.deep_view()[i]),
{
    let mut i: usize = 0;
    while i < files.len()
        invariant
            i <= files@.len(),
            forall|j: int| 0 <= j < i ==> !is_cdi_spec(#[trigger] files.deep_view()[j]),
        decreases files@.len() - i,
    {
        assert(files.deep_view()[i as int] == files@[i as int]@);
        if let Some(extension) = extension_of(files[i].as_str()) {
            if text::same(extension.as_str(), "yaml") || text::same(extension.as_str(), "json") {
                assert(is_cdi_spec(files.deep_view()[i as int]));
                return true;
            }
        }
        i += 1;
    }
    false
}

/// True if the system has at least one Vulkan ICD manifest installed, which is
/// a reasonable proxy for "some Vulkan driver already works here".
/// `manifests` are the file names under `/usr/share/vulkan/icd.d` and
/// `/etc/vulkan/icd.d`.
pub fn has_vulkan_icd(manifests: &Vec<String>) -> (r: bool)
    ensures
        r == (manifests@.len() > 0),
{
    manifests.len() > 0
}

/// Whether a file name is something, then a dot, then the given extension.
pub open spec fn has_extension(name: Seq<char>, extension: Seq<char>) -> bool {
    exists|stem: Seq<char>| stem.len() > 0 && name == #[trigger] (stem + "."@) + extension
}

proof fn lemma_last_dot(stem: Seq<char>, extension: Seq<char>)
    requires
        !extension.contains('.'),
    ensures
        last_dot(stem + "."@ + extension) == Some(stem.len()),
    decreases extension.len(),
{
    reveal_strlit(".");
    let name = stem + "."@ + extension;
    if extension.len() == 0 {
        assert(name.last() == '.');
    } else {
        assert(extension.contains(extension.last()));
        let front = extension.drop_last();
        assert(!front.contains('.')) by {
            if front.contains('.') {
                let i = front.index_of('.');
                assert(extension[i] == '.');
            }
        }
        lemma_last_dot(stem, front);
        assert(name.drop_last() =~= stem + "."@ + front);
    }
}

proof fn lemma_dot_splits(name: Seq<char>)
    ensures
        last_dot(name) matches Some(at) ==> at < name.len() && name[at as int] == '.',
    decreases name.len(),
{
    if name.len() > 0 && name.last() != '.' {
        lemma_dot_splits(name.drop_last());
    }
}

proof fn lemma_extension(name: Seq<char>, extension: Seq<char>)
    requires
        !extension.contains('.'),
        extension.len() > 0,
    ensures
        file_extension(name) == Some(extension) <==> has_extension(name, extension),
{
    reveal_strlit(".");
    reveal_strlit("..");
    lemma_dot_splits(name);
    if file_extension(name) == Some(extension) {
        let at = last_dot(name)->0;
        let stem = name.take(at as int);
        assert(name =~= (stem + "."@) + extension);
    }
    if has_extension(name, extension) {
        let stem = choose|stem: Seq<char>|
            stem.len() > 0 && name == #[trigger] (stem + "."@) + extension;
        lemma_last_dot(stem, extension);
        assert(name.skip(stem.len() as int + 1) =~= extension);
        if name == ".."@ {
            assert(name.last() == extension.last());
            assert(extension.contains(extension.last()));
        }
    }
}

/// A CDI spec is a file with the extension `yaml` or `json`, and nothing else
/// is.
pub proof fn law_cdi_specs_are_yaml_or_json(name: Seq<char>)
    ensures
        is_cdi_spec(name) <==> has_extension(name, "yaml"@) || has_extension(name, "json"@),
{
    reveal_strlit("yaml");
    reveal_strlit("json");
    assert(!"yaml"@.contains('.'));
    assert(!"json"@.contains('.'));
    lemma_extension(name, "yaml"@);
    lemma_extension(name, "json"@);
}

/// A card is an entry whose name begins with `card` and has no hyphen: the
/// connectors `card0-DP-1` of a card are none.
pub proof fn law_connectors_are_no_cards(rest: Seq<char>, name: Seq<char>)
    ensures
        is_card("card"@ + rest) <==> !rest.contains('-'),
        is_card(name) ==> !name.contains('-') && name.len() >= 4 && name.take(4) == "card"@,
{
    reveal_strlit("card");
    let card = "card"@ + rest;
    assert(card.subrange(0, 4) =~= "card"@);
    if rest.contains('-') {
        let i = rest.index_of('-');
        assert(card[i + 4] == '-');
    }
    if card.contains('-') {
        let i = card.index_of('-');
        assert(card[i] == '-');
        assert(i >= 4);
        assert(rest[i - 4] == '-');
    }
    if is_card(name) {
        assert(name.take(4) =~= name.subrange(0, 4));
    }
}

/// A sysfs id is read as it is written: `0x`, four hexadecimal digits and a
/// line feed; the `0x` may be missing.
pub proof fn law_sysfs_ids_are_read_back(id: u16)
    ensures
        sysfs_id("0x"@ + text::hex(id as nat, 4) + "\n"@) == Some(id as nat),
        sysfs_id(text::hex(id as nat, 4) + "\n"@) == Some(id as nat),
{
    reveal_strlit("0x");
    reveal_strlit("\n");
    let digits = text::hex(id as nat, 4);
    text::law_hex_is_read_back(id as nat);
    let blank = Seq::<char>::empty();
    assert(text::is_blank("\n"@));
    let full = "0x"@ + digits;
    assert('0' <= digits[3] <= '9' || 'a' <= digits[3] <= 'f');
    assert('0' <= digits[0] <= '9' || 'a' <= digits[0] <= 'f');
    assert('0' <= digits[1] <= '9' || 'a' <= digits[1] <= 'f');
    text::law_trim_leaves_the_text(blank, full, "\n"@);
    assert(blank + full + "\n"@ =~= full + "\n"@);
    text::law_trim_leaves_the_text(blank, digits, "\n"@);
    assert(blank + digits + "\n"@ =~= digits + "\n"@);
    assert(full.subrange(0, 2) =~= "0x"@);
    assert(full.skip(2) =~= digits);
    assert(digits.subrange(0, 2)[1] == digits[1]);
}

/// What is read as a sysfs id fits into 16 bits.
pub proof fn law_sysfs_ids_fit(raw: Seq<char>)
    ensures
        sysfs_id(raw) matches Some(id) ==> id <= 0xffff,
{
}

/// A card with a readable vendor and device id is the device of those ids, at
/// the node of its name. One with neither id file but a `device` directory is
/// an SoC's GPU, without ids. Any other card is no device.
pub proof fn law_cards_are_probed(
    ids: PciIdsView,
    card: DrmEntryView,
    vendor: u16,
    device: u16,
    vendor_text: Seq<char>,
    device_text: Seq<char>,
)
    requires
        sysfs_id(vendor_text) == Some(vendor as nat),
        sysfs_id(device_text) == Some(device as nat),
    ensures
        card.vendor == Some(vendor_text) && card.device == Some(device_text) ==> card_device(
            ids,
            card,
        ) == Some(
            GpuDeviceView {
                vendor_id: Some(vendor),
                device_id: Some(device),
                node: Some("/dev/dri/"@ + card.name),
                class: pciids::class_of(ids, vendor, device),
            },
        ),
        card.vendor is None && card.device is None && card.has_device ==> (card_device(ids, card)
            matches Some(found) && found.vendor_id is None && found.device_id is None && found.node
            == Some("/dev/dri/"@ + card.name) && found.class == soc_class(card.compatible)),
        card.vendor is None && card.device is None && !card.has_device ==> card_device(ids, card)
            is None,
        (card.vendor is Some) != (card.device is Some) ==> card_device(ids, card) is None,
        (card.vendor matches Some(raw) && sysfs_id(raw) is None) ==> card_device(ids, card) is None,
        (card.device matches Some(raw) && sysfs_id(raw) is None) ==> card_device(ids, card) is None,
{
}

/// An SoC's GPU is Apple's if a name of the device tree's list begins with
/// `apple,`; else NVIDIA's, of an unknown arch, if one begins with `nvidia,`;
/// else, as without a list, it is generic Vulkan. A name begins where the list
/// does, or after a NUL.
pub proof fn law_socs_are_told_by_their_device_tree(
    before: Seq<char>,
    after: Seq<char>,
    list: Seq<char>,
)
    requires
        before.len() == 0 || before.last() == '\0',
        forall|k: int|
            #![trigger text::occurs_at(list, "apple,"@, k)]
            k > 0 && text::occurs_at(list, "apple,"@, k) ==> list[k - 1] != '\0',
        !text::occurs_at(list, "apple,"@, 0),
    ensures
        soc_class(Some(before + "apple,"@ + after)) is Apple,
        soc_class(Some(list)) !is Apple,
        list == before + "nvidia,"@ + after ==> soc_class(Some(list)) == (GpuClassView::Nvidia {
            arch: "unknown"@,
        }),
        (forall|k: int| !#[trigger] text::occurs_at(list, "nvidia,"@, k)) ==> soc_class(Some(list))
            is Vulkan,
        soc_class(None) is Vulkan,
{
    let apple = before + "apple,"@ + after;
    let at = before.len() as int;
    assert(apple.subrange(at, at + "apple,"@.len()) =~= "apple,"@);
    assert(text::occurs_at(apple, "apple,"@, at));
    if before.len() > 0 {
        assert(apple[at - 1] == before.last());
    }
    assert(is_compatible(apple, "apple,"@));
    if list == before + "nvidia,"@ + after {
        assert(list.subrange(at, at + "nvidia,"@.len()) =~= "nvidia,"@);
        assert(text::occurs_at(list, "nvidia,"@, at));
        if before.len() > 0 {
            assert(list[at - 1] == before.last());
        }
    }
}

proof fn lemma_card_devices(ids: PciIdsView, cards: Seq<DrmEntryView>, device: GpuDeviceView)
    ensures
        card_devices(ids, cards).contains(device) <==> exists|i: int|
            0 <= i < cards.len() && card_device(ids, #[trigger] cards[i]) == Some(device),
    decreases cards.len(),
{
    if cards.len() > 0 {
        let front = cards.drop_last();
        lemma_card_devices(ids, front, device);
        let before = card_devices(ids, front);
        let all = card_devices(ids, cards);
        if all.contains(device) {
            let k = all.index_of(device);
            if k < before.len() {
                assert(before[k] == device);
                let i = choose|i: int|
                    0 <= i < front.len() && card_device(ids, #[trigger] front[i]) == Some(device);
                assert(cards[i] == front[i]);
            } else {
                assert(card_device(ids, cards[cards.len() - 1]) == Some(device));
            }
        }
        if exists|i: int|
            0 <= i < cards.len() && card_device(ids, #[trigger] cards[i]) == Some(device) {
            let i = choose|i: int|
                0 <= i < cards.len() && card_device(ids, #[trigger] cards[i]) == Some(device);
            if i < front.len() {
                assert(front[i] == cards[i]);
                let k = before.index_of(device);
                assert(all[k] == device);
            } else {
                assert(all.last() == device);
            }
        }
    }
}

/// Every card that is a device is found, and nothing else is.
pub proof fn law_every_card_is_found(
    ids: PciIdsView,
    entries: Seq<DrmEntryView>,
    device: GpuDeviceView,
)
    requires
        distinct_names(entries),
    ensures
        drm_devices(ids, entries).contains(device) <==> exists|i: int|
            0 <= i < entries.len() && is_card((#[trigger] entries[i]).name) && card_device(
                ids,
                entries[i],
            ) == Some(device),
{
    law_cards_are_sorted(entries);
    let cards = sorted_cards(entries);
    lemma_card_devices(ids, cards, device);
    if drm_devices(ids, entries).contains(device) {
        let i = choose|i: int|
            0 <= i < cards.len() && card_device(ids, #[trigger] cards[i]) == Some(device);
        assert(cards.contains(cards[i]));
        let j = entries.index_of(cards[i]);
        assert(entries[j] == cards[i]);
    }
    if exists|i: int|
        0 <= i < entries.len() && is_card((#[trigger] entries[i]).name) && card_device(
            ids,
            entries[i],
        ) == Some(device) {
        let i = choose|i: int|
            0 <= i < entries.len() && is_card((#[trigger] entries[i]).name) && card_device(
                ids,
                entries[i],
            ) == Some(device);
        assert(entries.contains(entries[i]));
        assert(cards.contains(entries[i]));
        let j = cards.index_of(entries[i]);
        assert(cards[j] == entries[i]);
    }
}

/// Cards are probed one by one: the devices of two lists of cards are those of
/// the first and then those of the second.
pub proof fn law_cards_are_probed_in_order(
    ids: PciIdsView,
    a: Seq<DrmEntryView>,
    b: Seq<DrmEntryView>,
    card: DrmEntryView,
)
    ensures
        card_devices(ids, a + b) == card_devices(ids, a) + card_devices(ids, b),
        card_devices(ids, seq![card]) == (match card_device(ids, card) {
            Some(device) => seq![device],
            None => Seq::empty(),
        }),
    decreases b.len(),
{
    reveal_with_fuel(card_devices, 2);
    assert(seq![card].drop_last() =~= Seq::empty());
    assert(card_devices(ids, seq![card]) =~= (match card_device(ids, card) {
        Some(device) => seq![device],
        None => Seq::empty(),
    }));
    if b.len() == 0 {
        assert(a + b =~= a);
        assert(card_devices(ids, a) + card_devices(ids, b) =~= card_devices(ids, a));
    } else {
        law_cards_are_probed_in_order(ids, a, b.drop_last(), card);
        assert((a + b).drop_last() =~= a + b.drop_last());
        assert(card_devices(ids, a + b) =~= card_devices(ids, a) + card_devices(ids, b));
    }
}

/// Names are in the order of a dictionary: by the first character in which they
/// differ, the lower one first, and a name before what begins with it.
pub proof fn law_names_are_in_dictionary_order(
    start: Seq<char>,
    a: char,
    b: char,
    rest: Seq<char>,
    other: Seq<char>,
)
    requires
        a < b,
    ensures
        name_before(start + seq![a] + rest, start + seq![b] + other),
        !name_before(start + seq![b] + other, start + seq![a] + rest),
        name_before(start, start + seq![a] + rest),
    decreases start.len(),
{
    let low = start + seq![a] + rest;
    let high = start + seq![b] + other;
    if start.len() == 0 {
        assert(low[0] == a && high[0] == b);
    } else {
        law_names_are_in_dictionary_order(start.skip(1), a, b, rest, other);
        assert(low.skip(1) =~= start.skip(1) + seq![a] + rest);
        assert(high.skip(1) =~= start.skip(1) + seq![b] + other);
        assert(low[0] == start[0] && high[0] == start[0]);
    }
}

/// The devices of a host are in the order of their cards' names: between any
/// two of them the node of the first has the lower name.
pub proof fn law_devices_are_in_name_order(ids: PciIdsView, entries: Seq<DrmEntryView>, i: int, j: int)
    requires
        distinct_names(entries),
        0 <= i < j < drm_devices(ids, entries).len(),
    ensures
        exists|a: Seq<char>, b: Seq<char>|
            #![trigger name_before(a, b)]
            drm_devices(ids, entries)[i].node == Some("/dev/dri/"@ + a) && drm_devices(
                ids,
                entries,
            )[j].node == Some("/dev/dri/"@ + b) && name_before(a, b),
{
    law_cards_are_sorted(entries);
    let cards = sorted_cards(entries);
    let (k, l) = lemma_devices_have_cards(ids, cards, i, j);
    assert(name_before(cards[k].name, cards[l].name));
}

proof fn lemma_device_has_card(ids: PciIdsView, cards: Seq<DrmEntryView>, i: int) -> (k: int)
    requires
        0 <= i < card_devices(ids, cards).len(),
    ensures
        0 <= k < cards.len(),
        card_device(ids, cards[k]) == Some(card_devices(ids, cards)[i]),
    decreases cards.len(),
{
    let front = cards.drop_last();
    if i < card_devices(ids, front).len() {
        let k = lemma_device_has_card(ids, front, i);
        assert(cards[k] == front[k]);
        k
    } else {
        cards.len() - 1
    }
}

proof fn lemma_devices_have_cards(ids: PciIdsView, cards: Seq<DrmEntryView>, i: int, j: int) -> (r: (
    int,
    int,
))
    requires
        0 <= i < j < card_devices(ids, cards).len(),
    ensures
        0 <= r.0 < r.1 < cards.len(),
        card_device(ids, cards[r.0]) == Some(card_devices(ids, cards)[i]),
        card_device(ids, cards[r.1]) == Some(card_devices(ids, cards)[j]),
    decreases cards.len(),
{
    let front = cards.drop_last();
    if j < card_devices(ids, front).len() {
        let (k, l) = lemma_devices_have_cards(ids, front, i, j);
        assert(cards[k] == front[k] && cards[l] == front[l]);
        (k, l)
    } else {
        let k = lemma_device_has_card(ids, front, i);
        assert(cards[k] == front[k]);
        (k, cards.len() - 1)
    }
}

} // verus!
