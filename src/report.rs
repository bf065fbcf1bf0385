//! Wire layouts of the shift-state feature report.
//!
//! A 16-bit shift state travels inside a fixed-size feature report whose first
//! byte is the report identifier. Firmware generations differ in the report's
//! size and in where the two bytes of the state sit.

use vstd::prelude::*;
use crate::bits::merge_bytes;

verus! {

/// Report identifier of the shift-state feature report, in every known layout.
pub const FEATURE_REPORT_ID_SHIFT: u8 = 4;

/// Size of the largest known layout; a buffer of this size fits any report.
pub const MAX_REPORT_SIZE: usize = 19;

/// Where a 16-bit state lives inside a feature report.
///
/// Byte 0 always holds the report identifier; the state's bytes sit at
/// distinct positions after it and inside the report.
#[derive(Clone, Copy, Debug, PartialEq, Eq)]
pub struct ReportFormat {
    name: &'static str,
    report_id: u8,
    total_size: usize,
    high_byte_idx: Option<usize>,
    low_byte_idx: usize,
}

impl ReportFormat {
    pub closed spec fn spec_name(self) -> &'static str {
        self.name
    }

    pub closed spec fn spec_report_id(self) -> u8 {
        self.report_id
    }

    pub closed spec fn spec_total_size(self) -> usize {
        self.total_size
    }

    pub closed spec fn spec_high_byte_idx(self) -> Option<usize> {
        self.high_byte_idx
    }

    pub closed spec fn spec_low_byte_idx(self) -> usize {
        self.low_byte_idx
    }

    /// The layout is consistent: both state bytes fall inside the report, after
    /// the identifier byte, and never on the same position.
    #[verifier::type_invariant]
    pub open spec fn wf(self) -> bool {
        &&& 1 <= self.spec_low_byte_idx() < self.spec_total_size()
        &&& self.spec_total_size() <= MAX_REPORT_SIZE
        &&& match self.spec_high_byte_idx() {
            Some(h) => 1 <= h < self.spec_total_size() && h != self.spec_low_byte_idx(),
            None => true,
        }
    }

    /// Byte `i` of the report that carries `state`.
    pub open spec fn report_byte(self, state: u16, i: int) -> u8 {
        if i == 0 {
            self.spec_report_id()
        } else if self.spec_high_byte_idx() == Some(i as usize) {
            (state >> 8u16) as u8
        } else if i == self.spec_low_byte_idx() {
            state as u8
        } else {
            0u8
        }
    }

    /// The complete report that carries `state`.
    pub open spec fn packed(self, state: u16) -> Seq<u8> {
        Seq::new(self.spec_total_size() as nat, |i: int| self.report_byte(state, i))
    }

    /// The state that a received report carries, if it is one of this layout.
    /// A missing high byte reads as zero; a missing low byte rejects the report.
    pub open spec fn unpacked(self, data: Seq<u8>) -> Option<u16> {
        if data.len() == 0 || data[0] != self.spec_report_id() {
            None
        } else if data.len() <= self.spec_low_byte_idx() {
            None
        } else {
            let high: u8 = match self.spec_high_byte_idx() {
                Some(h) => if h < data.len() { data[h as int] } else { 0u8 },
                None => 0u8,
            };
            Some((high as u16 * 256 + data[self.spec_low_byte_idx() as int] as u16) as u16)
        }
    }

    /// The first-generation layout, as a value.
    pub closed spec fn legacy_layout() -> ReportFormat {
        ReportFormat {
            name: "Original (Size 2)",
            report_id: FEATURE_REPORT_ID_SHIFT,
            total_size: 2,
            high_byte_idx: None,
            low_byte_idx: 1,
        }
    }

    /// The current layout, as a value.
    pub closed spec fn current_layout() -> ReportFormat {
        ReportFormat {
            name: "NEW (Size 19)",
            report_id: FEATURE_REPORT_ID_SHIFT,
            total_size: 19,
            high_byte_idx: Some(1),
            low_byte_idx: 2,
        }
    }

    /// What the two known layouts hold.
    pub proof fn lemma_known_layouts()
        ensures
            Self::legacy_layout().spec_report_id() == FEATURE_REPORT_ID_SHIFT,
            Self::legacy_layout().spec_total_size() == 2,
            Self::legacy_layout().spec_high_byte_idx() == None::<usize>,
            Self::legacy_layout().spec_low_byte_idx() == 1,
            Self::legacy_layout().wf(),
            Self::current_layout().spec_report_id() == FEATURE_REPORT_ID_SHIFT,
            Self::current_layout().spec_total_size() == 19,
            Self::current_layout().spec_high_byte_idx() == Some(1usize),
            Self::current_layout().spec_low_byte_idx() == 2,
            Self::current_layout().wf(),
            Self::legacy_layout() != Self::current_layout(),
    {
    }

    /// The first-generation layout: two bytes, no room for the high byte.
    pub fn legacy() -> (r: ReportFormat)
        ensures
            r == Self::legacy_layout(),
            r.spec_report_id() == FEATURE_REPORT_ID_SHIFT,
            r.spec_total_size() == 2,
            r.spec_high_byte_idx() == None::<usize>,
            r.spec_low_byte_idx() == 1,
            r.wf(),
    {
        ReportFormat {
            name: "Original (Size 2)",
            report_id: FEATURE_REPORT_ID_SHIFT,
            total_size: 2,
            high_byte_idx: None,
            low_byte_idx: 1,
        }
    }

    /// The current layout: nineteen bytes, high byte then low byte after the identifier.
    pub fn current() -> (r: ReportFormat)
        ensures
            r == Self::current_layout(),
            r.spec_report_id() == FEATURE_REPORT_ID_SHIFT,
            r.spec_total_size() == 19,
            r.spec_high_byte_idx() == Some(1usize),
            r.spec_low_byte_idx() == 2,
            r.wf(),
    {
        ReportFormat {
            name: "NEW (Size 19)",
            report_id: FEATURE_REPORT_ID_SHIFT,
            total_size: 19,
            high_byte_idx: Some(1),
            low_byte_idx: 2,
        }
    }

    /// A short human-readable name of the layout, for diagnostics.
    pub fn name(&self) -> (r: &'static str)
        ensures
            r == self.spec_name(),
    {
        self.name
    }

    pub fn report_id(&self) -> (r: u8)
        ensures
            r == self.spec_report_id(),
    {
        self.report_id
    }

    pub fn total_size(&self) -> (r: usize)
        ensures
            r == self.spec_total_size(),
            2 <= r <= MAX_REPORT_SIZE,
    {
        proof {
            use_type_invariant(self);
        }
        self.total_size
    }

    pub fn high_byte_idx(&self) -> (r: Option<usize>)
        ensures
            r == self.spec_high_byte_idx(),
    {
        self.high_byte_idx
    }

    pub fn low_byte_idx(&self) -> (r: usize)
        ensures
            r == self.spec_low_byte_idx(),
    {
        self.low_byte_idx
    }

    /// Writes the report that carries `state` into the front of `buffer` and
    /// returns that part of it. A buffer shorter than the report is left as it
    /// is and an empty slice comes back. Without a high-byte slot the upper
    /// eight bits of `state` are dropped.
    pub fn pack_state<'buf>(&self, buffer: &'buf mut [u8], state: u16) -> (r: &'buf [u8])
        ensures
            self.wf(),
            old(buffer)@.len() < self.spec_total_size() ==> {
                &&& r@.len() == 0
                &&& final(buffer)@ == old(buffer)@
            },
            old(buffer)@.len() >= self.spec_total_size() ==> {
                &&& r@ == self.packed(state)
                &&& final(buffer)@.len() == old(buffer)@.len()
                &&& final(buffer)@.subrange(0, self.spec_total_size() as int) == self.packed(state)
                &&& final(buffer)@.subrange(self.spec_total_size() as int, old(buffer)@.len() as int)
                    == old(buffer)@.subrange(self.spec_total_size() as int, old(buffer)@.len() as int)
            },
    {
        proof {
            use_type_invariant(self);
        }
        if buffer.len() < self.total_size {
            return &[];
        }
        let n = self.total_size;
        let mut i: usize = 0;
        while i < n
            invariant
                self.wf(),
                n == self.spec_total_size(),
                i <= n <= buffer@.len(),
                buffer@.len() == old(buffer)@.len(),
                forall|j: int| 0 <= j < i ==> buffer@[j] == self.report_byte(state, j),
                forall|j: int| n <= j < buffer@.len() ==> buffer@[j] == old(buffer)@[j],
            decreases n - i,
        {
            let b: u8 = if i == 0 {
                self.report_id
            } else if self.high_byte_idx == Some(i) {
                (state >> 8u16) as u8
            } else if i == self.low_byte_idx {
                state as u8
            } else {
                0u8
            };
            buffer[i] = b;
            i = i + 1;
        }
        let r: &[u8] = &buffer[0..n];
        assert(r@ =~= self.packed(state));
        assert(buffer@.subrange(0, n as int) =~= self.packed(state));
        assert(buffer@.subrange(n as int, buffer@.len() as int) =~= old(buffer)@.subrange(
            n as int,
            old(buffer)@.len() as int,
        ));
        r
    }

    /// Reads the state out of a received report: `None` when the report is
    /// empty, carries another identifier, or stops before the low byte.
    pub fn unpack_state(&self, received_data: &[u8]) -> (r: Option<u16>)
        ensures
            r == self.unpacked(received_data@),
    {
        if received_data.len() == 0 || received_data[0] != self.report_id {
            return None;
        }
        if received_data.len() <= self.low_byte_idx {
            return None;
        }
        let low_byte = received_data[self.low_byte_idx];
        let high_byte: u8 = match self.high_byte_idx {
            Some(h) => if h < received_data.len() { received_data[h] } else { 0u8 },
            None => 0u8,
        };
        Some(merge_bytes(high_byte, low_byte))
    }
}

/// Packing a state and unpacking the report gives the state back, except that a
/// layout without a high-byte slot keeps only the low eight bits.
pub proof fn lemma_pack_unpack_round_trip(format: ReportFormat, state: u16)
    requires
        format.wf(),
    ensures
        format.unpacked(format.packed(state)) == Some(
            if format.spec_high_byte_idx() is Some {
                state
            } else {
                state & 0xffu16
            },
        ),
{
    let data = format.packed(state);
    let low = format.spec_low_byte_idx();
    assert(data[0] == format.spec_report_id());
    assert(data[low as int] == state as u8);
    match format.spec_high_byte_idx() {
        Some(h) => {
            assert(data[h as int] == (state >> 8u16) as u8);
            assert((((state >> 8u16) as u8) as u16 * 256 + (state as u8) as u16) as u16 == state)
                by (bit_vector);
        },
        None => {
            assert(((0u8 as u16) * 256 + (state as u8) as u16) as u16 == state & 0xffu16)
                by (bit_vector);
        },
    }
}

} // verus!
