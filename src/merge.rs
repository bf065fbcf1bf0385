//! The merge engine: combines the sources' readings into one shift state.
//!
//! Only the low eight bits carry rules. For each such bit, every source that
//! has the bit enabled casts a vote (an unavailable source votes `false`); the
//! bit's rule combines the votes, and a bit that nobody votes on stays clear.

use vstd::prelude::*;
use crate::bits::{bit_of, read_bit};
use crate::config::{ModifiersArray, ShiftModifiers};

verus! {

/// The number of `true` entries of `votes`.
pub open spec fn count_true(votes: Seq<bool>) -> nat
    decreases votes.len(),
{
    if votes.len() == 0 {
        0
    } else {
        count_true(votes.drop_last()) + if votes.last() { 1nat } else { 0nat }
    }
}

/// What `rule` makes of a non-empty set of votes.
pub open spec fn combine(rule: ShiftModifiers, votes: Seq<bool>) -> bool {
    match rule {
        ShiftModifiers::OR => exists|i: int| 0 <= i < votes.len() && votes[i],
        ShiftModifiers::AND => forall|i: int| 0 <= i < votes.len() ==> votes[i],
        ShiftModifiers::XOR => count_true(votes) % 2 == 1,
    }
}

/// Combines votes under one rule: OR is set when any vote is, AND when all
/// are, and XOR when an odd number are (an exclusive-or folded from the left).
pub fn combine_votes(rule: ShiftModifiers, votes: &Vec<bool>) -> (r: bool)
    ensures
        r == combine(rule, votes@),
{
    match rule {
        ShiftModifiers::OR => {
            let mut i: usize = 0;
            while i < votes.len()
                invariant
                    rule == ShiftModifiers::OR,
                    i <= votes@.len(),
                    forall|j: int| 0 <= j < i ==> !votes@[j],
                decreases votes.len() - i,
            {
                if votes[i] {
                    assert(votes@[i as int]);
                    return true;
                }
                i = i + 1;
            }
            false
        },
        ShiftModifiers::AND => {
            let mut i: usize = 0;
            while i < votes.len()
                invariant
                    rule == ShiftModifiers::AND,
                    i <= votes@.len(),
                    forall|j: int| 0 <= j < i ==> votes@[j],
                decreases votes.len() - i,
            {
                if !votes[i] {
                    assert(!votes@[i as int]);
                    return false;
                }
                i = i + 1;
            }
            true
        },
        ShiftModifiers::XOR => {
            let mut acc = false;
            let mut i: usize = 0;
            while i < votes.len()
                invariant
                    i <= votes@.len(),
                    acc == (count_true(votes@.subrange(0, i as int)) % 2 == 1),
                decreases votes.len() - i,
            {
                assert(votes@.subrange(0, i + 1).drop_last() =~= votes@.subrange(0, i as int));
                acc = acc ^ votes[i];
                i = i + 1;
            }
            assert(votes@.subrange(0, votes@.len() as int) =~= votes@);
            acc
        },
    }
}

/// One source's reading of a cycle and the bits it takes part in.
#[derive(Clone, Copy, Debug)]
pub struct SourceReading {
    /// The decoded state, or `None` when the source was unavailable.
    pub state: Option<u16>,
    pub enabled: [bool; 8],
}

/// The vote of a source on bit `b`: its bit, or `false` when it is unavailable.
pub open spec fn vote(r: SourceReading, b: int) -> bool {
    match r.state {
        Some(v) => bit_of(v, b),
        None => false,
    }
}

/// The votes on bit `b`, in source order, of the sources that enable it.
pub open spec fn contributors(readings: Seq<SourceReading>, b: int) -> Seq<bool>
    decreases readings.len(),
{
    if readings.len() == 0 {
        Seq::empty()
    } else if readings.last().enabled@[b] {
        contributors(readings.drop_last(), b).push(vote(readings.last(), b))
    } else {
        contributors(readings.drop_last(), b)
    }
}

/// Bit `b` of the combined state.
pub open spec fn combined_bit(rules: Seq<ShiftModifiers>, readings: Seq<SourceReading>, b: int) -> bool {
    0 <= b < 8 && contributors(readings, b).len() > 0 && combine(rules[b], contributors(readings, b))
}

/// Collects the votes on bit `b`.
fn collect_votes(readings: &Vec<SourceReading>, b: u8) -> (r: Vec<bool>)
    requires
        b < 8,
    ensures
        r@ == contributors(readings@, b as int),
{
    let mut votes: Vec<bool> = Vec::new();
    let mut i: usize = 0;
    while i < readings.len()
        invariant
            b < 8,
            i <= readings@.len(),
            votes@ == contributors(readings@.subrange(0, i as int), b as int),
        decreases readings.len() - i,
    {
        let r = readings[i];
        assert(readings@.subrange(0, i + 1).drop_last() =~= readings@.subrange(0, i as int));
        if r.enabled[b as usize] {
            let v = match r.state {
                Some(s) => read_bit(s, b),
                None => false,
            };
            votes.push(v);
        }
        i = i + 1;
    }
    assert(readings@.subrange(0, readings@.len() as int) =~= readings@);
    votes
}

proof fn lemma_set_bit(acc: u16, b: u16, j: u16)
    requires
        b < 16,
        j < 16,
    ensures
        ((acc | (1u16 << b)) >> j) & 1u16 == 1u16 <==> (((acc >> j) & 1u16 == 1u16) || j == b),
{
    assert(((acc | (1u16 << b)) >> j) & 1u16 == 1u16 <==> (((acc >> j) & 1u16 == 1u16) || j == b))
        by (bit_vector)
        requires
            b < 16,
            j < 16,
    ;
}

/// The bits of `enabled`, as a mask of the low byte.
pub open spec fn enabled_mask(enabled: [bool; 8], n: int) -> u16
    decreases n,
{
    if n <= 0 {
        0
    } else {
        enabled_mask(enabled, n - 1) | if enabled@[n - 1] {
            1u16 << ((n - 1) as u16)
        } else {
            0u16
        }
    }
}

/// The bits of the combined state, packed into a value (bit `b` is `1 << b`).
pub open spec fn combined_upto(rules: Seq<ShiftModifiers>, readings: Seq<SourceReading>, n: int) -> u16
    decreases n,
{
    if n <= 0 {
        0
    } else {
        combined_upto(rules, readings, n - 1) | if combined_bit(rules, readings, n - 1) {
            1u16 << ((n - 1) as u16)
        } else {
            0u16
        }
    }
}

pub open spec fn combined_value(rules: Seq<ShiftModifiers>, readings: Seq<SourceReading>) -> u16 {
    combined_upto(rules, readings, 8)
}

/// What a receiver is sent: the combined state without the low bits the
/// receiver does not enable, merged by OR with the receiver's own state.
pub open spec fn receiver_value(combined: u16, enabled: [bool; 8], own: u16) -> u16 {
    (combined & (enabled_mask(enabled, 8) | 0xff00u16)) | own
}

/// The combined state of a cycle: bit `b` (for `b` below 8) is the rule of bit
/// `b` applied to the votes on it, and clear when no source enables it; the
/// upper eight bits are clear.
pub fn combine_states(readings: &Vec<SourceReading>, rules: &ModifiersArray) -> (r: u16)
    ensures
        r == combined_value(rules@, readings@),
        forall|b: int| 0 <= b < 16 ==> bit_of(r, b) == combined_bit(rules@, readings@, b),
{
    let mut acc: u16 = 0;
    assert forall|j: int| 0 <= j < 16 implies !bit_of(0u16, j) by {
        let jj = j as u16;
        assert((0u16 >> jj) & 1u16 == 0u16) by (bit_vector);
    }
    let mut b: u8 = 0;
    while b < 8
        invariant
            b <= 8,
            acc == combined_upto(rules@, readings@, b as int),
            forall|j: int|
                0 <= j < 16 ==> bit_of(acc, j) == (j < b && combined_bit(rules@, readings@, j)),
        decreases 8 - b,
    {
        let votes = collect_votes(readings, b);
        let set = votes.len() > 0 && combine_votes(rules.get(b as usize), &votes);
        assert(set == combined_bit(rules@, readings@, b as int));
        let ghost old_acc = acc;
        if set {
            acc = acc | (1u16 << (b as u16));
            assert forall|j: int| 0 <= j < 16 implies bit_of(acc, j) == (bit_of(old_acc, j) || j
                == b) by {
                lemma_set_bit(old_acc, b as u16, j as u16);
            }
        } else {
            acc = acc | 0u16;
            assert(old_acc | 0u16 == old_acc) by (bit_vector);
        }
        b = b + 1;
    }
    acc
}

/// The state sent to a receiver: the combined state restricted to the low
/// bits the receiver enables (its upper byte kept), merged by OR with the
/// state the receiver reported itself. Bit `b` is set exactly when the
/// combined state sets it and the receiver enables it (or `b` is above 7), or
/// when the receiver's own state sets it.
pub fn merge_receiver_state(combined: u16, enabled: &[bool; 8], own: u16) -> (r: u16)
    ensures
        r == receiver_value(combined, *enabled, own),
        forall|b: int|
            0 <= b < 16 ==> bit_of(r, b) == ((bit_of(combined, b) && (b >= 8 || enabled@[b]))
                || bit_of(own, b)),
{
    let mut mask: u16 = 0;
    assert forall|j: int| 0 <= j < 16 implies !bit_of(0u16, j) by {
        let jj = j as u16;
        assert((0u16 >> jj) & 1u16 == 0u16) by (bit_vector);
    }
    let mut b: u8 = 0;
    while b < 8
        invariant
            b <= 8,
            mask == enabled_mask(*enabled, b as int),
            forall|j: int| 0 <= j < 16 ==> bit_of(mask, j) == (j < b && enabled@[j]),
        decreases 8 - b,
    {
        let ghost old_mask = mask;
        if enabled[b as usize] {
            mask = mask | (1u16 << (b as u16));
            assert forall|j: int| 0 <= j < 16 implies bit_of(mask, j) == (bit_of(old_mask, j) || j
                == b) by {
                lemma_set_bit(old_mask, b as u16, j as u16);
            }
        } else {
            mask = mask | 0u16;
            assert(old_mask | 0u16 == old_mask) by (bit_vector);
        }
        b = b + 1;
    }
    let r = (combined & (mask | 0xff00u16)) | own;
    proof {
        assert forall|b: int| 0 <= b < 16 implies bit_of(r, b) == ((bit_of(combined, b) && (b >= 8
            || enabled@[b])) || bit_of(own, b)) by {
            let bb = b as u16;
            let mb = bit_of(mask, b);
            assert(bit_of(mask, b) == (b < 8 && enabled@[b]));
            assert((((combined & (mask | 0xff00u16)) | own) >> bb) & 1u16 == 1u16 <==> ((((combined
                >> bb) & 1u16 == 1u16) && (((mask >> bb) & 1u16 == 1u16) || bb >= 8)) || ((own
                >> bb) & 1u16 == 1u16))) by (bit_vector)
                requires
                    bb < 16,
            ;
        }
    }
    r
}

/// A bit that no source enables is clear in the combined
/// state, whatever its rule.
pub proof fn lemma_unvoted_bit_clear(rules: Seq<ShiftModifiers>, readings: Seq<SourceReading>, b: int)
    requires
        forall|i: int| 0 <= i < readings.len() ==> !(#[trigger] readings[i]).enabled@[b],
    ensures
        contributors(readings, b).len() == 0,
        !combined_bit(rules, readings, b),
    decreases readings.len(),
{
    if readings.len() > 0 {
        let rest = readings.drop_last();
        assert forall|i: int| 0 <= i < rest.len() implies !(#[trigger] rest[i]).enabled@[b] by {
            assert(rest[i] == readings[i]);
        }
        lemma_unvoted_bit_clear(rules, rest, b);
        assert(!readings[readings.len() - 1].enabled@[b]);
    }
}

} // verus!
