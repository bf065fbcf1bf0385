//! Persistent configuration: the configured slots and the per-bit rules.

use vstd::prelude::*;
use crate::device::{is_empty_slot, refreshed_slot_is, reset_missing_slots, SavedDevice, VpcDevice};

verus! {

/// How the votes of the sources combine into one bit.
#[derive(Clone, Copy, Debug, PartialEq, Eq, Structural)]
pub enum ShiftModifiers {
    /// Set when any vote is set.
    OR,
    /// Set when every vote is set.
    AND,
    /// Set when an odd number of votes are set.
    XOR,
}

impl ShiftModifiers {
    /// The rule's label, as the interface shows it.
    pub fn as_str(&self) -> (r: &'static str)
        ensures
            r == (match *self {
                ShiftModifiers::OR => "OR",
                ShiftModifiers::AND => "AND",
                ShiftModifiers::XOR => "XOR",
            }),
    {
        match self {
            ShiftModifiers::OR => "OR",
            ShiftModifiers::AND => "AND",
            ShiftModifiers::XOR => "XOR",
        }
    }

    /// The rule that follows this one when the user cycles through them.
    pub fn next(&self) -> (r: ShiftModifiers)
        ensures
            r == (match *self {
                ShiftModifiers::OR => ShiftModifiers::AND,
                ShiftModifiers::AND => ShiftModifiers::XOR,
                ShiftModifiers::XOR => ShiftModifiers::OR,
            }),
    {
        match self {
            ShiftModifiers::OR => ShiftModifiers::AND,
            ShiftModifiers::AND => ShiftModifiers::XOR,
            ShiftModifiers::XOR => ShiftModifiers::OR,
        }
    }
}

/// One combination rule for each of the eight shift bits.
#[derive(Clone, Copy, Debug)]
pub struct ModifiersArray {
    data: [ShiftModifiers; 8],
}

impl ModifiersArray {
    pub closed spec fn spec_data(self) -> [ShiftModifiers; 8] {
        self.data
    }
}

impl View for ModifiersArray {
    type V = Seq<ShiftModifiers>;

    open spec fn view(&self) -> Seq<ShiftModifiers> {
        self.spec_data()@
    }
}

impl ModifiersArray {
    /// The rule of bit `index`.
    pub fn get(&self, index: usize) -> (r: ShiftModifiers)
        requires
            index < 8,
        ensures
            r == self@[index as int],
    {
        self.data[index]
    }

    /// Replaces the rule of bit `index`.
    pub fn set(&mut self, index: usize, rule: ShiftModifiers)
        requires
            index < 8,
        ensures
            final(self)@ == old(self)@.update(index as int, rule),
    {
        self.data[index] = rule;
    }
}

impl Default for ModifiersArray {
    /// Every bit combines with OR.
    fn default() -> (r: ModifiersArray)
        ensures
            r@.len() == 8,
            forall|i: int| 0 <= i < 8 ==> r@[i] == ShiftModifiers::OR,
    {
        ModifiersArray { data: [ShiftModifiers::OR; 8] }
    }
}

/// Everything the user configures: the source slots, the receiver slots and
/// the rule of each shift bit.
#[derive(Debug)]
pub struct ConfigData {
    pub sources: Vec<SavedDevice>,
    pub receivers: Vec<SavedDevice>,
    pub shift_modifiers: ModifiersArray,
}

impl Default for ConfigData {
    /// No slots, and OR for every bit.
    fn default() -> (r: ConfigData)
        ensures
            r.sources@.len() == 0,
            r.receivers@.len() == 0,
            r.shift_modifiers@.len() == 8,
            forall|i: int| 0 <= i < 8 ==> r.shift_modifiers@[i] == ShiftModifiers::OR,
    {
        ConfigData {
            sources: Vec::new(),
            receivers: Vec::new(),
            shift_modifiers: ModifiersArray::default(),
        }
    }
}

impl ConfigData {
    /// Appends an empty source slot.
    pub fn add_source(&mut self)
        ensures
            final(self).sources@.len() == old(self).sources@.len() + 1,
            final(self).sources@.drop_last() == old(self).sources@,
            is_empty_slot(final(self).sources@.last()),
            final(self).receivers@ == old(self).receivers@,
            final(self).shift_modifiers@ == old(self).shift_modifiers@,
    {
        self.sources.push(SavedDevice::default());
        assert(self.sources@.drop_last() =~= old(self).sources@);
    }

    /// Removes the last source slot, unless it is the only one; tells whether
    /// a slot went.
    pub fn remove_source(&mut self) -> (removed: bool)
        ensures
            removed == (old(self).sources@.len() > 1),
            removed ==> final(self).sources@ == old(self).sources@.drop_last(),
            !removed ==> final(self).sources@ == old(self).sources@,
            final(self).receivers@ == old(self).receivers@,
            final(self).shift_modifiers@ == old(self).shift_modifiers@,
    {
        if self.sources.len() > 1 {
            self.sources.pop();
            true
        } else {
            false
        }
    }

    /// Appends an empty receiver slot.
    pub fn add_receiver(&mut self)
        ensures
            final(self).receivers@.len() == old(self).receivers@.len() + 1,
            final(self).receivers@.drop_last() == old(self).receivers@,
            is_empty_slot(final(self).receivers@.last()),
            final(self).sources@ == old(self).sources@,
            final(self).shift_modifiers@ == old(self).shift_modifiers@,
    {
        self.receivers.push(SavedDevice::default());
        assert(self.receivers@.drop_last() =~= old(self).receivers@);
    }

    /// Removes the last receiver slot, if there is one; tells whether a slot went.
    pub fn remove_receiver(&mut self) -> (removed: bool)
        ensures
            removed == (old(self).receivers@.len() > 0),
            removed ==> final(self).receivers@ == old(self).receivers@.drop_last(),
            !removed ==> final(self).receivers@ == old(self).receivers@,
            final(self).sources@ == old(self).sources@,
            final(self).shift_modifiers@ == old(self).shift_modifiers@,
    {
        if self.receivers.len() > 0 {
            self.receivers.pop();
            true
        } else {
            false
        }
    }

    /// After a catalog refresh, empties every source and receiver slot whose
    /// device the catalog no longer lists; tells whether any slot changed.
    pub fn reset_missing_devices(&mut self, device_list: &[VpcDevice]) -> (changed: bool)
        ensures
            final(self).sources@.len() == old(self).sources@.len(),
            final(self).receivers@.len() == old(self).receivers@.len(),
            forall|i: int|
                0 <= i < old(self).sources@.len() ==> refreshed_slot_is(
                    #[trigger] final(self).sources@[i],
                    old(self).sources@[i],
                    device_list@,
                ),
            forall|i: int|
                0 <= i < old(self).receivers@.len() ==> refreshed_slot_is(
                    #[trigger] final(self).receivers@[i],
                    old(self).receivers@[i],
                    device_list@,
                ),
            final(self).shift_modifiers@ == old(self).shift_modifiers@,
    {
        let a = reset_missing_slots(&mut self.sources, device_list);
        let b = reset_missing_slots(&mut self.receivers, device_list);
        a || b
    }
}

} // verus!
