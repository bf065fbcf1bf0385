//! Device identities: configured slots and the devices found on the bus.

use vstd::prelude::*;
use vstd::string::StringExecFns;
use std::rc::Rc;

verus! {

/// Text of the placeholder entry that stands for "no device selected".
pub open spec fn no_connection_text() -> Seq<char> {
    "-NO CONNECTION (Select device from list)-"@
}

/// The upper-case hexadecimal digit of `d` (0 to 15).
pub open spec fn hex_digit(d: int) -> char {
    "0123456789ABCDEF"@[d]
}

/// `v` as four upper-case hexadecimal digits.
pub open spec fn hex4(v: u16) -> Seq<char> {
    seq![
        hex_digit((v as int / 4096) % 16),
        hex_digit((v as int / 256) % 16),
        hex_digit((v as int / 16) % 16),
        hex_digit(v as int % 16),
    ]
}

/// Writes `v` as four upper-case hexadecimal digits.
pub fn format_hex4(v: u16) -> (r: String)
    ensures
        r@ == hex4(v),
{
    let digits = "0123456789ABCDEF";
    proof {
        reveal_strlit("0123456789ABCDEF");
    }
    let mut r = String::new();
    let d3 = (v / 4096) as usize;
    let d2 = ((v / 256) % 16) as usize;
    let d1 = ((v / 16) % 16) as usize;
    let d0 = (v % 16) as usize;
    r.append(digits.substring_char(d3, d3 + 1));
    r.append(digits.substring_char(d2, d2 + 1));
    r.append(digits.substring_char(d1, d1 + 1));
    r.append(digits.substring_char(d0, d0 + 1));
    assert(r@ =~= hex4(v));
    r
}

/// A device found on the bus, as the device list shows it.
#[derive(Debug, PartialEq, PartialOrd, Ord, Eq, Hash, Clone)]
pub struct VpcDevice {
    /// `VVVV:PPPP:serial`, the ids in hexadecimal.
    pub full_name: String,
    /// The product string.
    pub name: Rc<String>,
    /// The manufacturer string, which carries the firmware version.
    pub firmware: Rc<String>,
    pub vendor_id: u16,
    pub product_id: u16,
    pub serial_number: String,
    pub usage: u16,
    /// Whether the worker currently talks to the device.
    pub active: bool,
}

impl Default for VpcDevice {
    /// The placeholder entry that stands for "no device selected".
    fn default() -> (r: VpcDevice)
        ensures
            r.full_name@.len() == 0,
            (*r.name)@ == no_connection_text(),
            (*r.firmware)@.len() == 0,
            r.vendor_id == 0,
            r.product_id == 0,
            r.serial_number@.len() == 0,
            r.usage == 0,
            !r.active,
    {
        VpcDevice {
            full_name: String::new(),
            name: Rc::new(String::from_str("-NO CONNECTION (Select device from list)-")),
            firmware: Rc::new(String::new()),
            vendor_id: 0,
            product_id: 0,
            serial_number: String::new(),
            usage: 0,
            active: false,
        }
    }
}

/// `s`, or `N/A` when `s` is empty.
pub open spec fn or_not_available(s: Seq<char>) -> Seq<char> {
    if s.len() == 0 { "N/A"@ } else { s }
}

impl VpcDevice {
    /// How the device list shows the device: the placeholder shows its name,
    /// a real device its ids, name, serial number and firmware.
    pub open spec fn spec_label(self) -> Seq<char> {
        if self.vendor_id == 0 && self.product_id == 0 {
            (*self.name)@
        } else {
            "VID:"@ + hex4(self.vendor_id) + " PID:"@ + hex4(self.product_id) + " "@ + (*self.name)@
                + " (SN:"@ + or_not_available(self.serial_number@) + " FW:"@ + or_not_available(
                (*self.firmware)@,
            ) + ")"@
        }
    }

    pub fn label(&self) -> (r: String)
        ensures
            r@ == self.spec_label(),
    {
        if self.vendor_id == 0 && self.product_id == 0 {
            return String::from_str(self.name.as_str());
        }
        let mut r = String::from_str("VID:");
        r.append(format_hex4(self.vendor_id).as_str());
        r.append(" PID:");
        r.append(format_hex4(self.product_id).as_str());
        r.append(" ");
        r.append(self.name.as_str());
        r.append(" (SN:");
        if self.serial_number.as_str().is_empty() {
            r.append("N/A");
        } else {
            r.append(self.serial_number.as_str());
        }
        r.append(" FW:");
        if self.firmware.as_str().is_empty() {
            r.append("N/A");
        } else {
            r.append(self.firmware.as_str());
        }
        r.append(")");
        r
    }
}

/// The catalog entry `d` is the device that slot `s` names.
pub open spec fn is_saved_device(d: VpcDevice, s: SavedDevice) -> bool {
    d.vendor_id == s.vendor_id && d.product_id == s.product_id && d.serial_number@
        == s.serial_number@
}

/// The first position at or after `from` of the device that `s` names.
pub open spec fn first_position(list: Seq<VpcDevice>, s: SavedDevice, from: int) -> Option<int>
    decreases list.len() - from,
{
    if from < 0 || from >= list.len() {
        None
    } else if is_saved_device(list[from], s) {
        Some(from)
    } else {
        first_position(list, s, from + 1)
    }
}

/// The position in the device list that a slot selects: that of its device,
/// or 0 (the placeholder) when the slot is empty or its device is absent.
pub open spec fn device_index_for(list: Seq<VpcDevice>, s: SavedDevice) -> int {
    if s.spec_is_unconfigured() {
        0
    } else {
        match first_position(list, s, 0) {
            Some(i) => i,
            None => 0,
        }
    }
}

/// Finds the position in `device_list` of the device that `saved_device`
/// names; 0, the placeholder's position, when the slot is empty or the device
/// is not in the list.
pub fn find_device_index_for_saved(device_list: &[VpcDevice], saved_device: &SavedDevice) -> (r: usize)
    ensures
        r == device_index_for(device_list@, *saved_device),
        r == 0 || r < device_list@.len(),
{
    if saved_device.vendor_id == 0 && saved_device.product_id == 0 {
        return 0;
    }
    let mut i: usize = 0;
    while i < device_list.len()
        invariant
            !saved_device.spec_is_unconfigured(),
            i <= device_list@.len(),
            first_position(device_list@, *saved_device, 0) == first_position(
                device_list@,
                *saved_device,
                i as int,
            ),
        decreases device_list.len() - i,
    {
        let d = &device_list[i];
        if d.vendor_id == saved_device.vendor_id && d.product_id == saved_device.product_id
            && d.serial_number == saved_device.serial_number {
            assert(is_saved_device(device_list@[i as int], *saved_device));
            assert(first_position(device_list@, *saved_device, i as int) == Some(i as int));
            return i;
        }
        i = i + 1;
    }
    0
}

/// A configured slot: which device it means and which shift bits it takes part in.
#[derive(Clone, Debug)]
pub struct SavedDevice {
    pub vendor_id: u16,
    pub product_id: u16,
    pub serial_number: String,
    pub state_enabled: [bool; 8],
}

/// The slot as a fresh one is: no device, every bit enabled.
pub open spec fn is_empty_slot(s: SavedDevice) -> bool {
    &&& s.vendor_id == 0
    &&& s.product_id == 0
    &&& s.serial_number@.len() == 0
    &&& forall|i: int| 0 <= i < 8 ==> s.state_enabled@[i]
}

impl SavedDevice {
    /// The slot names no device: its vendor and product ids are both zero.
    pub open spec fn spec_is_unconfigured(&self) -> bool {
        self.vendor_id == 0 && self.product_id == 0
    }

    /// A copy of the slot.
    pub fn duplicate(&self) -> (r: SavedDevice)
        ensures
            r == *self,
    {
        SavedDevice {
            vendor_id: self.vendor_id,
            product_id: self.product_id,
            serial_number: self.serial_number.clone(),
            state_enabled: self.state_enabled,
        }
    }
}

impl Default for SavedDevice {
    /// An empty slot with every bit enabled.
    fn default() -> (r: SavedDevice)
        ensures
            is_empty_slot(r),
    {
        SavedDevice {
            vendor_id: 0,
            product_id: 0,
            serial_number: String::new(),
            state_enabled: [true; 8],
        }
    }
}

/// Vendor id of the devices the tool works with.
pub const VENDOR_ID_FILTER: u16 = 0x3344;

/// What the bus reports of a device, as plain values.
#[derive(Clone, Debug)]
pub struct DeviceDescriptor {
    pub vendor_id: u16,
    pub product_id: u16,
    pub product_string: Option<String>,
    pub manufacturer_string: Option<String>,
    pub serial_number: Option<String>,
    pub usage: u16,
}

pub open spec fn text_or(s: Option<String>, fallback: Seq<char>) -> Seq<char> {
    match s {
        Some(t) => t@,
        None => fallback,
    }
}

/// The name a descriptor gives its device.
pub open spec fn descriptor_name(d: DeviceDescriptor) -> Seq<char> {
    text_or(d.product_string, "Unknown Product"@)
}

/// The firmware string a descriptor gives its device.
pub open spec fn descriptor_firmware(d: DeviceDescriptor) -> Seq<char> {
    text_or(d.manufacturer_string, "Unknown Firmware"@)
}

pub open spec fn descriptor_serial(d: DeviceDescriptor) -> Seq<char> {
    text_or(d.serial_number, Seq::empty())
}

/// The descriptor names a real, identifiable product.
pub open spec fn is_listable(d: DeviceDescriptor) -> bool {
    d.vendor_id != 0 && d.product_id != 0 && descriptor_name(d) != "Unknown Product"@
}

/// `VVVV:PPPP:serial`, with `no_sn` for a missing serial number.
pub open spec fn full_name_of(vendor_id: u16, product_id: u16, serial: Seq<char>) -> Seq<char> {
    hex4(vendor_id) + ":"@ + hex4(product_id) + ":"@ + if serial.len() == 0 {
        "no_sn"@
    } else {
        serial
    }
}

/// `v` is the catalog entry made from `d`.
#[verifier::opaque]
pub open spec fn is_entry_of(v: VpcDevice, d: DeviceDescriptor) -> bool {
    &&& v.full_name@ == full_name_of(d.vendor_id, d.product_id, descriptor_serial(d))
    &&& (*v.name)@ == descriptor_name(d)
    &&& (*v.firmware)@ == descriptor_firmware(d)
    &&& v.vendor_id == d.vendor_id
    &&& v.product_id == d.product_id
    &&& v.serial_number@ == descriptor_serial(d)
    &&& v.usage == d.usage
    &&& !v.active
}

/// An entry shares the ids and serial number of the report it was made from.
pub proof fn lemma_entry_key(v: VpcDevice, d: DeviceDescriptor)
    requires
        is_entry_of(v, d),
    ensures
        v.vendor_id == d.vendor_id,
        v.product_id == d.product_id,
        v.serial_number@ == descriptor_serial(d),
{
    reveal(is_entry_of);
}

fn text_or_else(s: &Option<String>, fallback: &str) -> (r: String)
    ensures
        r@ == text_or(*s, fallback@),
{
    match s {
        Some(t) => t.clone(),
        None => String::from_str(fallback),
    }
}

/// Makes the catalog entry of a device the bus reports; `None` when either id
/// is zero or the device gives no product name.
pub fn create_vpc_device_from_info(device_info: &DeviceDescriptor) -> (r: Option<VpcDevice>)
    ensures
        r is Some <==> is_listable(*device_info),
        r matches Some(v) ==> is_entry_of(v, *device_info),
{
    reveal(is_entry_of);
    let name = text_or_else(&device_info.product_string, "Unknown Product");
    let firmware = text_or_else(&device_info.manufacturer_string, "Unknown Firmware");
    let serial_number = text_or_else(&device_info.serial_number, "");
    proof {
        reveal_strlit("");
    }
    let unknown = String::from_str("Unknown Product");
    if device_info.vendor_id == 0 || device_info.product_id == 0 || name == unknown {
        return None;
    }
    let mut full_name = format_hex4(device_info.vendor_id);
    full_name.append(":");
    full_name.append(format_hex4(device_info.product_id).as_str());
    full_name.append(":");
    if serial_number.as_str().is_empty() {
        full_name.append("no_sn");
    } else {
        full_name.append(serial_number.as_str());
    }
    assert(full_name@ =~= full_name_of(
        device_info.vendor_id,
        device_info.product_id,
        descriptor_serial(*device_info),
    ));
    assert(serial_number@ == descriptor_serial(*device_info));
    assert(name@ == descriptor_name(*device_info));
    assert(firmware@ == descriptor_firmware(*device_info));
    Some(
        VpcDevice {
            full_name,
            name: Rc::new(name),
            firmware: Rc::new(firmware),
            vendor_id: device_info.vendor_id,
            product_id: device_info.product_id,
            serial_number,
            usage: device_info.usage,
            active: false,
        },
    )
}

/// The slot after a catalog refresh: emptied when it names a device that the
/// catalog no longer lists.
pub open spec fn refreshed_slot_is(new: SavedDevice, old: SavedDevice, list: Seq<VpcDevice>) -> bool {
    if device_index_for(list, old) == 0 && !old.spec_is_unconfigured() {
        is_empty_slot(new)
    } else {
        new == old
    }
}

/// Empties every slot whose device is missing from `device_list`, and tells
/// whether any slot changed.
pub fn reset_missing_slots(slots: &mut Vec<SavedDevice>, device_list: &[VpcDevice]) -> (changed:
    bool)
    ensures
        final(slots)@.len() == old(slots)@.len(),
        forall|i: int|
            0 <= i < old(slots)@.len() ==> refreshed_slot_is(
                #[trigger] final(slots)@[i],
                old(slots)@[i],
                device_list@,
            ),
        changed == exists|i: int|
            0 <= i < old(slots)@.len() && device_index_for(device_list@, #[trigger] old(slots)@[i])
                == 0 && !old(slots)@[i].spec_is_unconfigured(),
{
    let mut changed = false;
    let mut i: usize = 0;
    while i < slots.len()
        invariant
            slots@.len() == old(slots)@.len(),
            i <= slots@.len(),
            forall|k: int|
                0 <= k < i ==> refreshed_slot_is(#[trigger] slots@[k], old(slots)@[k], device_list@),
            forall|k: int| i <= k < slots@.len() ==> #[trigger] slots@[k] == old(slots)@[k],
            changed == exists|k: int|
                0 <= k < i && device_index_for(device_list@, #[trigger] old(slots)@[k]) == 0
                    && !old(slots)@[k].spec_is_unconfigured(),
        decreases slots.len() - i,
    {
        let idx = find_device_index_for_saved(device_list, &slots[i]);
        if idx == 0 && (slots[i].vendor_id != 0 || slots[i].product_id != 0) {
            slots.set(i, SavedDevice::default());
            changed = true;
        }
        i = i + 1;
    }
    changed
}

/// Marks every device of the list as not talking to the worker.
pub fn mark_all_inactive(devices: &mut Vec<VpcDevice>)
    ensures
        final(devices)@.len() == old(devices)@.len(),
        forall|i: int|
            0 <= i < old(devices)@.len() ==> #[trigger] final(devices)@[i] == (VpcDevice {
                active: false,
                ..old(devices)@[i]
            }),
{
    let mut i: usize = 0;
    while i < devices.len()
        invariant
            devices@.len() == old(devices)@.len(),
            i <= devices@.len(),
            forall|k: int|
                0 <= k < i ==> #[trigger] devices@[k] == (VpcDevice {
                    active: false,
                    ..old(devices)@[k]
                }),
            forall|k: int| i <= k < devices@.len() ==> #[trigger] devices@[k] == old(devices)@[k],
        decreases devices.len() - i,
    {
        devices[i].active = false;
        i = i + 1;
    }
}

} // verus!
