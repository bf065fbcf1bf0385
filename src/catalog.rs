//! Building the device list from what the bus reports.
//!
//! Devices of the tool's vendor that name a product become entries, once per
//! vendor id, product id and serial number (the first report wins). The
//! entries are sorted by product name, stably, and the placeholder that stands
//! for "no device selected" goes first.

use vstd::prelude::*;
use vstd::multiset::Multiset;
use vstd::utf8::char_u32_cast;
use vstd::seq_lib::{
    group_to_multiset_ensures, to_multiset_build, to_multiset_contains, to_multiset_insert,
};
use crate::classify::is_supported;
use crate::device::{
    create_vpc_device_from_info, descriptor_serial, is_entry_of, is_listable, lemma_entry_key,
    no_connection_text,
    DeviceDescriptor, VpcDevice, VENDOR_ID_FILTER,
};

verus! {

/// `a` sorts before or equal to `b`: code point by code point, a prefix first.
pub open spec fn text_le(a: Seq<char>, b: Seq<char>) -> bool
    decreases a.len(),
{
    if a.len() == 0 {
        true
    } else if b.len() == 0 {
        false
    } else if a[0] != b[0] {
        (a[0] as u32) < (b[0] as u32)
    } else {
        text_le(a.drop_first(), b.drop_first())
    }
}

proof fn lemma_text_le_total(a: Seq<char>, b: Seq<char>)
    ensures
        text_le(a, b) || text_le(b, a),
    decreases a.len(),
{
    if a.len() > 0 && b.len() > 0 {
        if a[0] == b[0] {
            lemma_text_le_total(a.drop_first(), b.drop_first());
        } else {
            char_u32_cast(a[0], a[0] as u32);
            char_u32_cast(b[0], b[0] as u32);
        }
    }
}

proof fn lemma_text_le_transitive(a: Seq<char>, b: Seq<char>, c: Seq<char>)
    requires
        text_le(a, b),
        text_le(b, c),
    ensures
        text_le(a, c),
    decreases a.len(),
{
    if a.len() > 0 && b.len() > 0 && c.len() > 0 && a[0] == b[0] && b[0] == c[0] {
        lemma_text_le_transitive(a.drop_first(), b.drop_first(), c.drop_first());
    }
}

/// Compares two texts in the order of `text_le`.
pub fn text_le_exec(a: &str, b: &str) -> (r: bool)
    ensures
        r == text_le(a@, b@),
{
    let la = a.unicode_len();
    let lb = b.unicode_len();
    let mut i: usize = 0;
    assert(a@.skip(0) =~= a@);
    assert(b@.skip(0) =~= b@);
    while i < la && i < lb && a.get_char(i) == b.get_char(i)
        invariant
            la == a@.len(),
            lb == b@.len(),
            i <= la,
            i <= lb,
            text_le(a@, b@) == text_le(a@.skip(i as int), b@.skip(i as int)),
        decreases la - i,
    {
        assert(a@.skip(i as int).drop_first() =~= a@.skip(i + 1));
        assert(b@.skip(i as int).drop_first() =~= b@.skip(i + 1));
        i = i + 1;
    }
    if i == la {
        true
    } else if i == lb {
        false
    } else {
        (a.get_char(i) as u32) < (b.get_char(i) as u32)
    }
}

pub open spec fn name_of(v: VpcDevice) -> Seq<char> {
    (*v.name)@
}

/// The entries are in order of product name.
pub open spec fn sorted_by_name(s: Seq<VpcDevice>) -> bool {
    forall|i: int, j: int| 0 <= i < j < s.len() ==> text_le(name_of(s[i]), name_of(s[j]))
}

/// Sorts entries by product name; entries with equal names keep their order.
pub fn sort_by_name(v: &mut Vec<VpcDevice>)
    ensures
        sorted_by_name(final(v)@),
        final(v)@.to_multiset() == old(v)@.to_multiset(),
{
    broadcast use group_to_multiset_ensures;

    let mut out: Vec<VpcDevice> = Vec::new();
    while v.len() > 0
        invariant
            sorted_by_name(out@),
            out@.to_multiset().add(v@.to_multiset()) == old(v)@.to_multiset(),
        decreases v.len(),
    {
        let ghost before = v@;
        let x = v.pop().unwrap();
        assert(before =~= v@.push(x));
        let mut p: usize = 0;
        while p < out.len() && !text_le_exec(x.name.as_str(), out[p].name.as_str())
            invariant
                p <= out@.len(),
                forall|k: int| 0 <= k < p ==> !text_le(name_of(x), name_of(#[trigger] out@[k])),
            decreases out.len() - p,
        {
            p = p + 1;
        }
        let ghost old_out = out@;
        out.insert(p, x);
        proof {
            assert forall|i: int, j: int| 0 <= i < j < out@.len() implies text_le(
                name_of(out@[i]),
                name_of(out@[j]),
            ) by {
                if j < p {
                    assert(out@[i] == old_out[i] && out@[j] == old_out[j]);
                } else if j == p {
                    assert(out@[i] == old_out[i]);
                    lemma_text_le_total(name_of(x), name_of(old_out[i]));
                } else if i == p {
                    assert(out@[j] == old_out[j - 1]);
                    assert(text_le(name_of(x), name_of(old_out[p as int])));
                    if j - 1 > p {
                        lemma_text_le_transitive(
                            name_of(x),
                            name_of(old_out[p as int]),
                            name_of(old_out[j - 1]),
                        );
                    }
                } else if i < p {
                    assert(out@[i] == old_out[i] && out@[j] == old_out[j - 1]);
                } else {
                    assert(out@[i] == old_out[i - 1] && out@[j] == old_out[j - 1]);
                }
            }
            to_multiset_insert(old_out, p as int, x);
            to_multiset_build(v@, x);
            assert(out@.to_multiset() == old_out.to_multiset().insert(x));
            assert(before.to_multiset() == v@.to_multiset().insert(x));
            assert(out@.to_multiset().add(v@.to_multiset()) =~= old_out.to_multiset().add(
                before.to_multiset(),
            ));
        }
    }
    assert(v@.to_multiset() =~= Multiset::empty());
    assert(out@.to_multiset() =~= old(v)@.to_multiset());
    *v = out;
}

/// The device is one the tool lists: of the tool's vendor, with a product name.
pub open spec fn is_eligible(d: DeviceDescriptor) -> bool {
    d.vendor_id == VENDOR_ID_FILTER && is_listable(d)
}

/// Entry `v` and report `d` name the same device: ids and serial number agree.
pub open spec fn same_key(v: VpcDevice, d: DeviceDescriptor) -> bool {
    v.vendor_id == d.vendor_id && v.product_id == d.product_id && v.serial_number@
        == descriptor_serial(d)
}

pub open spec fn entries_share_key(a: VpcDevice, b: VpcDevice) -> bool {
    a.vendor_id == b.vendor_id && a.product_id == b.product_id && a.serial_number@
        == b.serial_number@
}

/// Report `j` is eligible and no eligible report before it names its device.
#[verifier::opaque]
pub open spec fn is_first_report(found: Seq<DeviceDescriptor>, j: int) -> bool {
    &&& 0 <= j < found.len()
    &&& is_eligible(found[j])
    &&& forall|k: int|
        0 <= k < j && is_eligible(#[trigger] found[k]) ==> !(found[k].vendor_id == found[j].vendor_id
            && found[k].product_id == found[j].product_id && descriptor_serial(found[k])
            == descriptor_serial(found[j]))
}

/// `v` is the entry made from the first report of its device.
pub open spec fn made_from_report(v: VpcDevice, found: Seq<DeviceDescriptor>) -> bool {
    exists|j: int| is_first_report(found, j) && #[trigger] is_entry_of(v, found[j])
}

/// Some entry names the device of report `d`.
pub open spec fn lists_device_of(entries: Seq<VpcDevice>, d: DeviceDescriptor) -> bool {
    exists|k: int| 0 <= k < entries.len() && #[trigger] same_key(entries[k], d)
}

/// No two entries name the same device.
pub open spec fn keys_distinct(entries: Seq<VpcDevice>) -> bool {
    forall|k1: int, k2: int|
        0 <= k1 < entries.len() && 0 <= k2 < entries.len() && k1 != k2 ==> !entries_share_key(
            #[trigger] entries[k1],
            #[trigger] entries[k2],
        )
}

/// `entries` lists every device among the eligible reports exactly once,
/// each entry made from that device's first report.
pub open spec fn lists_reports(entries: Seq<VpcDevice>, found: Seq<DeviceDescriptor>) -> bool {
    &&& forall|k: int| 0 <= k < entries.len() ==> made_from_report(#[trigger] entries[k], found)
    &&& forall|j: int|
        0 <= j < found.len() && is_eligible(#[trigger] found[j]) ==> lists_device_of(entries, found[j])
    &&& keys_distinct(entries)
}

/// Whether `entries` already lists the device of `v`.
fn lists_device(entries: &Vec<VpcDevice>, v: &VpcDevice) -> (r: bool)
    ensures
        r == exists|k: int| 0 <= k < entries@.len() && #[trigger] entries_share_key(entries@[k], *v),
{
    let mut k: usize = 0;
    while k < entries.len()
        invariant
            k <= entries@.len(),
            forall|m: int| 0 <= m < k ==> !entries_share_key(#[trigger] entries@[m], *v),
        decreases entries.len() - k,
    {
        let e = &entries[k];
        if e.vendor_id == v.vendor_id && e.product_id == v.product_id && e.serial_number
            == v.serial_number {
            assert(entries_share_key(entries@[k as int], *v));
            return true;
        }
        k = k + 1;
    }
    false
}

/// A report whose device no entry lists yet, while every earlier eligible
/// report's device is listed, is the first report of its device.
proof fn lemma_unlisted_is_first(entries: Seq<VpcDevice>, found: Seq<DeviceDescriptor>, i: int, v: VpcDevice)
    requires
        0 <= i < found.len(),
        is_eligible(found[i]),
        is_entry_of(v, found[i]),
        forall|j: int| 0 <= j < i && is_eligible(#[trigger] found[j]) ==> lists_device_of(entries, found[j]),
        forall|k: int| 0 <= k < entries.len() ==> !#[trigger] entries_share_key(entries[k], v),
    ensures
        is_first_report(found, i),
{
    reveal(is_first_report);
    lemma_entry_key(v, found[i]);
    assert forall|m: int| 0 <= m < i && is_eligible(#[trigger] found[m]) implies !(found[m].vendor_id
        == found[i].vendor_id && found[m].product_id == found[i].product_id && descriptor_serial(
        found[m],
    ) == descriptor_serial(found[i])) by {
        assert(lists_device_of(entries, found[m]));
        let k = choose|k: int| 0 <= k < entries.len() && #[trigger] same_key(entries[k], found[m]);
        assert(!entries_share_key(entries[k], v));
    }
}

proof fn lemma_push_keeps_listed(entries: Seq<VpcDevice>, v: VpcDevice, d: DeviceDescriptor)
    requires
        lists_device_of(entries, d),
    ensures
        lists_device_of(entries.push(v), d),
{
    let k = choose|k: int| 0 <= k < entries.len() && #[trigger] same_key(entries[k], d);
    assert(entries.push(v)[k] == entries[k]);
    assert(same_key(entries.push(v)[k], d));
}

/// The entries of the eligible reports, one per device, in the order of
/// their first reports; later reports of a listed device are skipped.
fn collect_entries(found: &Vec<DeviceDescriptor>, skip_firmware: bool) -> (r: Vec<VpcDevice>)
    ensures
        lists_reports(r@, found@),
{
    let mut out: Vec<VpcDevice> = Vec::new();
    let mut i: usize = 0;
    while i < found.len()
        invariant
            i <= found@.len(),
            forall|k: int| 0 <= k < out@.len() ==> made_from_report(#[trigger] out@[k], found@),
            forall|j: int|
                0 <= j < i && is_eligible(#[trigger] found@[j]) ==> lists_device_of(out@, found@[j]),
            keys_distinct(out@),
        decreases found.len() - i,
    {
        let d = &found[i];
        let created = if d.vendor_id == VENDOR_ID_FILTER {
            create_vpc_device_from_info(d)
        } else {
            None
        };
        match created {
            Some(v) => {
                proof {
                    lemma_entry_key(v, found@[i as int]);
                }
                if lists_device(&out, &v) {
                    proof {
                        let k = choose|k: int|
                            0 <= k < out@.len() && #[trigger] entries_share_key(out@[k], v);
                        assert(same_key(out@[k], found@[i as int]));
                    }
                } else if is_supported(String::from_str(v.firmware.as_str()), skip_firmware) {
                    proof {
                        lemma_unlisted_is_first(out@, found@, i as int, v);
                    }
                    let ghost before = out@;
                    out.push(v);
                    proof {
                        assert(made_from_report(v, found@)) by {
                            assert(is_entry_of(v, found@[i as int]));
                        }
                        assert forall|k: int| 0 <= k < out@.len() implies made_from_report(
                            #[trigger] out@[k],
                            found@,
                        ) by {
                            if k < before.len() {
                                assert(out@[k] == before[k]);
                            }
                        }
                        assert forall|j: int|
                            0 <= j < i + 1 && is_eligible(#[trigger] found@[j]) implies lists_device_of(
                            out@,
                            found@[j],
                        ) by {
                            if j < i {
                                lemma_push_keeps_listed(before, v, found@[j]);
                            } else {
                                assert(same_key(out@[before.len() as int], found@[j]));
                            }
                        }
                        assert forall|k1: int, k2: int|
                            0 <= k1 < out@.len() && 0 <= k2 < out@.len() && k1 != k2 implies !entries_share_key(
                            #[trigger] out@[k1],
                            #[trigger] out@[k2],
                        ) by {
                            let n = before.len() as int;
                            if k1 < n && k2 < n {
                                assert(out@[k1] == before[k1] && out@[k2] == before[k2]);
                            } else if k1 < n {
                                assert(out@[k1] == before[k1] && out@[k2] == v);
                                assert(!entries_share_key(before[k1], v));
                            } else {
                                assert(out@[k2] == before[k2] && out@[k1] == v);
                                assert(!entries_share_key(before[k2], v));
                            }
                        }
                    }
                }
            },
            None => {},
        }
        i = i + 1;
    }
    out
}

/// What one ordering holds, a reordering holds.
proof fn lemma_reordering_contains(a: Seq<VpcDevice>, b: Seq<VpcDevice>, x: VpcDevice)
    requires
        a.to_multiset() == b.to_multiset(),
        a.contains(x),
    ensures
        b.contains(x),
{
    to_multiset_contains(a, x);
    to_multiset_contains(b, x);
}

proof fn lemma_reordering_keeps_sources(a: Seq<VpcDevice>, b: Seq<VpcDevice>, found: Seq<DeviceDescriptor>)
    requires
        forall|k: int| 0 <= k < a.len() ==> made_from_report(#[trigger] a[k], found),
        a.to_multiset() == b.to_multiset(),
    ensures
        forall|k: int| 0 <= k < b.len() ==> made_from_report(#[trigger] b[k], found),
{
    assert forall|k: int| 0 <= k < b.len() implies made_from_report(#[trigger] b[k], found) by {
        assert(b.contains(b[k]));
        lemma_reordering_contains(b, a, b[k]);
        let k2 = choose|k2: int| 0 <= k2 < a.len() && a[k2] == b[k];
        assert(made_from_report(a[k2], found));
    }
}

proof fn lemma_reordering_keeps_listed(a: Seq<VpcDevice>, b: Seq<VpcDevice>, d: DeviceDescriptor)
    requires
        lists_device_of(a, d),
        a.to_multiset() == b.to_multiset(),
    ensures
        lists_device_of(b, d),
{
    let k = choose|k: int| 0 <= k < a.len() && #[trigger] same_key(a[k], d);
    assert(a.contains(a[k]));
    lemma_reordering_contains(a, b, a[k]);
    let k2 = choose|k2: int| 0 <= k2 < b.len() && b[k2] == a[k];
    assert(same_key(b[k2], d));
}

proof fn lemma_reordering_keeps_distinct(a: Seq<VpcDevice>, b: Seq<VpcDevice>)
    requires
        keys_distinct(a),
        a.to_multiset() == b.to_multiset(),
    ensures
        keys_distinct(b),
{
    assert(a.no_duplicates()) by {
        assert forall|i: int, j: int| 0 <= i < a.len() && 0 <= j < a.len() && i != j implies a[i]
            != a[j] by {
            assert(!entries_share_key(a[i], a[j]));
        }
    }
    a.lemma_multiset_has_no_duplicates();
    b.lemma_multiset_has_no_duplicates_conv();
    assert forall|k1: int, k2: int|
        0 <= k1 < b.len() && 0 <= k2 < b.len() && k1 != k2 implies !entries_share_key(
        #[trigger] b[k1],
        #[trigger] b[k2],
    ) by {
        assert(b.contains(b[k1]));
        assert(b.contains(b[k2]));
        lemma_reordering_contains(b, a, b[k1]);
        lemma_reordering_contains(b, a, b[k2]);
        let i1 = choose|i1: int| 0 <= i1 < a.len() && a[i1] == b[k1];
        let i2 = choose|i2: int| 0 <= i2 < a.len() && a[i2] == b[k2];
        assert(b[k1] != b[k2]);
        assert(i1 != i2);
    }
}

/// A reordering keeps the listing property.
proof fn lemma_permuted_listing(a: Seq<VpcDevice>, b: Seq<VpcDevice>, found: Seq<DeviceDescriptor>)
    requires
        lists_reports(a, found),
        a.to_multiset() == b.to_multiset(),
    ensures
        lists_reports(b, found),
{
    lemma_reordering_keeps_sources(a, b, found);
    assert forall|j: int| 0 <= j < found.len() && is_eligible(#[trigger] found[j]) implies lists_device_of(
        b,
        found[j],
    ) by {
        lemma_reordering_keeps_listed(a, b, found[j]);
    }
    lemma_reordering_keeps_distinct(a, b);
}

/// Builds the device list: the placeholder first, then one entry per device
/// of the tool's vendor that names a product, made from the device's first
/// report, in order of product name.
pub fn build_device_list(found: &Vec<DeviceDescriptor>, skip_firmware: bool) -> (r: Vec<VpcDevice>)
    ensures
        r@.len() >= 1,
        r@[0].vendor_id == 0,
        r@[0].product_id == 0,
        name_of(r@[0]) == no_connection_text(),
        lists_reports(r@.drop_first(), found@),
        sorted_by_name(r@.drop_first()),
{
    let mut entries = collect_entries(found, skip_firmware);
    let ghost collected = entries@;
    sort_by_name(&mut entries);
    proof {
        lemma_permuted_listing(collected, entries@, found@);
    }
    let ghost sorted = entries@;
    entries.insert(0, VpcDevice::default());
    assert(entries@.drop_first() =~= sorted);
    entries
}

} // verus!
