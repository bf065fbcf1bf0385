//! Bit-level helpers on 16-bit shift states.

use vstd::prelude::*;

verus! {

/// The bit at `position` of `value`, as a boolean.
pub open spec fn bit_of(value: u16, position: int) -> bool {
    0 <= position < 16 && (value >> (position as u16)) & 1u16 == 1u16
}

/// Reads bit `position` (0 to 15) of `value`; a position beyond 15 reads as `false`.
pub fn read_bit(value: u16, position: u8) -> (r: bool)
    ensures
        r == bit_of(value, position as int),
        position < 16 ==> r == ((value >> (position as u16)) & 1u16 == 1u16),
        position >= 16 ==> !r,
{
    if position > 15 {
        return false;
    }
    let p: u16 = position as u16;
    let r = (value & (1u16 << p)) != 0;
    assert(((value & (1u16 << p)) != 0) == ((value >> p) & 1u16 == 1u16)) by (bit_vector)
        requires
            p < 16,
    ;
    r
}

/// Joins a high and a low byte into one 16-bit value: `(high << 8) | low`.
pub fn merge_bytes(high: u8, low: u8) -> (r: u16)
    ensures
        r == (high as u16) * 256 + (low as u16),
        r as u8 == low,
        (r >> 8u16) as u8 == high,
{
    let r = ((high as u16) << 8u16) | (low as u16);
    assert(((high as u16) << 8u16) | (low as u16) == (high as u16) * 256 + (low as u16))
        by (bit_vector);
    assert(((((high as u16) << 8u16) | (low as u16)) as u8) == low) by (bit_vector);
    assert(((((high as u16) << 8u16) | (low as u16)) >> 8u16) as u8 == high) by (bit_vector);
    r
}

} // verus!
