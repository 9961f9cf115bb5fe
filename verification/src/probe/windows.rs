//! Windows hardware probe.
//!
//! There's no sysfs equivalent, so the host is asked through WMI's
//! `Win32_VideoController` class for each adapter's `PNPDeviceID`, which
//! embeds the same PCI `VEN_xxxx&DEV_xxxx` pair Linux exposes through sysfs.

use vstd::prelude::*;
use crate::probe::pciids;
use crate::probe::pciids::{classify, PciIds, PciIdsView};
use crate::probe::{GpuDevice, GpuDeviceView};
use crate::text;

verus! {

/// How many hexadecimal digits `s` begins with.
pub open spec fn hex_run(s: Seq<char>) -> nat
    decreases s.len(),
{
    if s.len() > 0 && text::digit_value(s[0], 16) is Some {
        1 + hex_run(s.skip(1))
    } else {
        0
    }
}

proof fn lemma_hex_run(s: Seq<char>, n: int)
    requires
        0 <= n <= s.len(),
        forall|k: int| 0 <= k < n ==> text::digit_value(#[trigger] s[k], 16) is Some,
        n == s.len() || text::digit_value(s[n], 16) is None,
    ensures
        hex_run(s) == n,
    decreases s.len(),
{
    if n > 0 {
        assert(text::digit_value(s[0], 16) is Some);
        assert forall|k: int| 0 <= k < n - 1 implies text::digit_value(
            #[trigger] s.skip(1)[k],
            16,
        ) is Some by {
            assert(text::digit_value(s[k + 1], 16) is Some);
        }
        lemma_hex_run(s.skip(1), n - 1);
    }
}

/// The 16-bit number written in hexadecimal right after the first `marker`.
pub open spec fn hex_field(haystack: Seq<char>, marker: Seq<char>) -> Option<nat> {
    match text::position(haystack, marker) {
        Some(at) => {
            let rest = haystack.skip(at as int + marker.len() as int);
            text::unsigned(rest.take(hex_run(rest) as int), 16, 0xffff)
        },
        None => None,
    }
}

/// Reads the 16-bit number written in hexadecimal right after the first
/// `marker`.
pub fn extract_hex_field(haystack: &str, marker: &str) -> (r: Option<u16>)
    ensures
        match r {
            Some(v) => hex_field(haystack@, marker@) == Some(v as nat),
            None => hex_field(haystack@, marker@) is None,
        },
{
    let hay = text::chars_of(haystack);
    let needle = text::chars_of(marker);
    match text::find(&hay, &needle) {
        None => None,
        Some(at) => {
            proof {
                text::law_position_is_first(hay@, needle@);
            }
            assert(at + needle.len() <= hay.len());
            let start: usize = at + needle.len();
            let ghost rest = hay@.skip(start as int);
            let mut end: usize = start;
            let mut digits: Vec<char> = Vec::new();
            while end < hay.len() && text::read_digit(hay[end], 16).is_some()
                invariant
                    start <= end <= hay@.len(),
                    rest == hay@.skip(start as int),
                    digits@ =~= rest.take(end - start),
                    forall|k: int|
                        0 <= k < end - start ==> text::digit_value(#[trigger] rest[k], 16) is Some,
                decreases hay@.len() - end,
            {
                digits.push(hay[end]);
                end += 1;
            }
            proof {
                lemma_hex_run(rest, end - start);
            }
            match text::parse_unsigned(&digits, 16, 0xffff) {
                Some(v) => Some(v as u16),
                None => None,
            }
        },
    }
}

/// The device that a PnP device id names.
pub open spec fn pnp_device(ids: PciIdsView, line: Seq<char>) -> Option<GpuDeviceView> {
    let id = text::trim(line);
    match (hex_field(id, "VEN_"@), hex_field(id, "DEV_"@)) {
        (Some(vendor), Some(device)) => Some(
            GpuDeviceView {
                vendor_id: Some(vendor as u16),
                device_id: Some(device as u16),
                node: Some(id),
                class: pciids::class_of(ids, vendor as u16, device as u16),
            },
        ),
        _ => None,
    }
}

/// Parses a PnP device id like
/// `PCI\VEN_10DE&DEV_2684&SUBSYS_...&REV_A1\4&1a2b3c4d&0&0008` into a
/// [`GpuDevice`].
pub fn parse_pnp_device_id(ids: &PciIds, line: &str) -> (r: Option<GpuDevice>)
    ensures
        r.deep_view() == pnp_device(ids.deep_view(), line@),
{
    let id = text::trimmed(line);
    match extract_hex_field(id.as_str(), "VEN_") {
        None => None,
        Some(vendor) => match extract_hex_field(id.as_str(), "DEV_") {
            None => None,
            Some(device) => {
                let class = classify(ids, vendor, device);
                Some(
                    GpuDevice {
                        vendor_id: Some(vendor),
                        device_id: Some(device),
                        node: Some(id),
                        class,
                    },
                )
            },
        },
    }
}

/// The devices that the given lines name, in order; other lines are passed
/// over.
pub open spec fn devices_in(ids: PciIdsView, lines: Seq<Seq<char>>) -> Seq<GpuDeviceView>
    decreases lines.len(),
{
    if lines.len() == 0 {
        Seq::empty()
    } else {
        let before = devices_in(ids, lines.drop_last());
        match pnp_device(ids, lines.last()) {
            Some(device) => before.push(device),
            None => before,
        }
    }
}

/// The devices that the WMI query's output names; none if it failed.
pub open spec fn wmi_devices(ids: PciIdsView, stdout: Option<Seq<char>>) -> Seq<GpuDeviceView> {
    match stdout {
        Some(text) => devices_in(ids, text::lines(text)),
        None => Seq::empty(),
    }
}

/// Lists the GPUs that the WMI query printed, one PnP device id per line.
/// `None` stands for a query that could not be run or failed.
pub fn probe(ids: &PciIds, stdout: &Option<String>) -> (r: Vec<GpuDevice>)
    ensures
        r.deep_view() == wmi_devices(ids.deep_view(), stdout.deep_view()),
{
    let mut r: Vec<GpuDevice> = Vec::new();
    assert(r.deep_view() =~= Seq::<GpuDeviceView>::empty());
    if let Some(output) = stdout {
        let lines = text::lines_of(output.as_str());
        let ghost view = lines.deep_view();
        let mut i: usize = 0;
        while i < lines.len()
            invariant
                view == lines.deep_view(),
                i <= lines@.len(),
                r.deep_view() == devices_in(ids.deep_view(), view.take(i as int)),
            decreases lines@.len() - i,
        {
            let ghost before = r.deep_view();
            assert(view.take(i + 1).drop_last() =~= view.take(i as int));
            assert(view.take(i + 1).last() == lines@[i as int]@);
            if let Some(device) = parse_pnp_device_id(ids, lines[i].as_str()) {
                r.push(device);
                assert(r.deep_view() =~= before.push(device.deep_view()));
            }
            i += 1;
        }
        assert(view.take(i as int) =~= view);
    }
    r
}

proof fn lemma_digits_run(digits: Seq<char>, rest: Seq<char>)
    requires
        forall|i: int| 0 <= i < digits.len() ==> text::digit_value(#[trigger] digits[i], 16) is Some,
        rest.len() > 0 ==> text::digit_value(rest[0], 16) is None,
    ensures
        hex_run(digits + rest) == digits.len(),
    decreases digits.len(),
{
    if digits.len() == 0 {
        assert(digits + rest =~= rest);
    } else {
        assert(text::digit_value(digits[0], 16) is Some);
        assert forall|i: int| 0 <= i < digits.skip(1).len() implies text::digit_value(
            #[trigger] digits.skip(1)[i],
            16,
        ) is Some by {
            assert(text::digit_value(digits[i + 1], 16) is Some);
        }
        lemma_digits_run(digits.skip(1), rest);
        assert((digits + rest).skip(1) =~= digits.skip(1) + rest);
    }
}

proof fn lemma_position(hay: Seq<char>, needle: Seq<char>, at: int)
    requires
        text::occurs_at(hay, needle, at),
        forall|k: int| 0 <= k < at ==> !#[trigger] text::occurs_at(hay, needle, k),
    ensures
        text::position(hay, needle) == Some(at as nat),
{
    text::law_position_is_first(hay, needle);
    if let Some(found) = text::position(hay, needle) {
        if found < at {
            assert(text::occurs_at(hay, needle, found as int));
        }
        if at < found {
            assert(text::occurs_at(hay, needle, at));
        }
    }
}

/// A field of a PNP id is the hexadecimal number that follows the first
/// occurrence of its marker, as far as there are digits, if there is one and
/// it fits into 16 bits.
pub proof fn law_fields_follow_their_marker(
    before: Seq<char>,
    marker: Seq<char>,
    digits: Seq<char>,
    rest: Seq<char>,
)
    requires
        forall|k: int|
            0 <= k < before.len() ==> !#[trigger] text::occurs_at(
                before + marker + digits + rest,
                marker,
                k,
            ),
        forall|i: int| 0 <= i < digits.len() ==> text::digit_value(#[trigger] digits[i], 16) is Some,
        rest.len() > 0 ==> text::digit_value(rest[0], 16) is None,
    ensures
        hex_field(before + marker + digits + rest, marker) == (match text::numeral(digits, 16) {
            Some(value) if digits.len() > 0 && value <= 0xffff => Some(value),
            _ => None,
        }),
{
    let hay = before + marker + digits + rest;
    let at = before.len() as int;
    assert(hay.subrange(at, at + marker.len()) =~= marker);
    lemma_position(hay, marker, at);
    lemma_digits_run(digits, rest);
    let tail = hay.skip(at + marker.len() as int);
    assert(tail =~= digits + rest);
    assert(tail.take(digits.len() as int) =~= digits);
    if digits.len() > 0 {
        assert(text::digit_value(digits[0], 16) is Some);
        assert(text::unsigned_digits(digits) == digits);
    }
}

/// Where the marker does not occur there is no field.
pub proof fn law_no_marker_no_field(haystack: Seq<char>, marker: Seq<char>)
    requires
        forall|k: int| !#[trigger] text::occurs_at(haystack, marker, k),
    ensures
        hex_field(haystack, marker) is None,
{
    text::law_position_is_first(haystack, marker);
    if let Some(at) = text::position(haystack, marker) {
        assert(text::occurs_at(haystack, marker, at as int));
    }
}

/// A line is a device exactly when it has a vendor field `VEN_` and a device
/// field `DEV_`; the device is of those two ids, in this order, and its node is
/// the line without the white space round it.
pub proof fn law_pnp_ids_hold_vendor_and_device(ids: PciIdsView, line: Seq<char>)
    ensures
        pnp_device(ids, line) is Some <==> hex_field(text::trim(line), "VEN_"@) is Some
            && hex_field(text::trim(line), "DEV_"@) is Some,
        pnp_device(ids, line) matches Some(device) ==> {
            let vendor_id = hex_field(text::trim(line), "VEN_"@)->0 as u16;
            let device_id = hex_field(text::trim(line), "DEV_"@)->0 as u16;
            &&& device.vendor_id == Some(vendor_id)
            &&& device.device_id == Some(device_id)
            &&& device.node == Some(text::trim(line))
            &&& device.class == pciids::class_of(ids, vendor_id, device_id)
        },
{
}

/// Lines are read one by one and in order: what no line says, no device is.
pub proof fn law_every_adapter_is_found(
    ids: PciIdsView,
    a: Seq<Seq<char>>,
    b: Seq<Seq<char>>,
    line: Seq<char>,
    stdout: Seq<char>,
)
    ensures
        devices_in(ids, a + b) == devices_in(ids, a) + devices_in(ids, b),
        devices_in(ids, seq![line]) == (match pnp_device(ids, line) {
            Some(device) => seq![device],
            None => Seq::empty(),
        }),
        wmi_devices(ids, Some(stdout)) == devices_in(ids, text::lines(stdout)),
        wmi_devices(ids, None).len() == 0,
    decreases b.len(),
{
    reveal_with_fuel(devices_in, 2);
    assert(seq![line].drop_last() =~= Seq::empty());
    assert(devices_in(ids, seq![line]) =~= (match pnp_device(ids, line) {
        Some(device) => seq![device],
        None => Seq::empty(),
    }));
    if b.len() == 0 {
        assert(a + b =~= a);
        assert(devices_in(ids, a) + devices_in(ids, b) =~= devices_in(ids, a));
    } else {
        law_every_adapter_is_found(ids, a, b.drop_last(), line, stdout);
        assert((a + b).drop_last() =~= a + b.drop_last());
        assert(devices_in(ids, a + b) =~= devices_in(ids, a) + devices_in(ids, b));
    }
}

} // verus!
