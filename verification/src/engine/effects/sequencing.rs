//! `D` (pattern break) and `B` (position jump) parameter decoding.
//!
//! `D`'s parameter is packed BCD: two decimal digits, one per nibble, so a raw
//! `0x10` names row 10, not row 16. `B`'s parameter is a plain binary
//! order-table index.
use vstd::prelude::*;

verus! {

/// The row named by a packed-BCD pattern-break parameter: ten times the high
/// nibble plus the low nibble.
pub open spec fn spec_pattern_break_row(param: u8) -> int {
    (param / 16) * 10 + param % 16
}

/// Packs a row number below 100 as two BCD digits, the way a tracker writes a
/// `D` parameter.
pub open spec fn spec_bcd_encode(row: int) -> int {
    (row / 10) * 16 + row % 10
}

/// Decodes a `D` (pattern break) parameter as packed BCD.
pub fn decode_pattern_break_row(param: u8) -> (row: u8)
    ensures
        row == spec_pattern_break_row(param),
{
    assert(param >> 4 == param / 16 && param & 0x0F == param % 16) by (bit_vector);
    let hi: u8 = param >> 4;
    let lo: u8 = param & 0x0F;
    hi * 10 + lo
}

/// Decodes a `B` (position jump) parameter: a plain order-table index, passed
/// through unchanged.
pub fn decode_position_jump(param: u8) -> (slot: u8)
    ensures
        slot == param,
{
    param
}

/// Decoding inverts BCD encoding: every row a tracker can name with two
/// decimal digits is read back as that same row.
pub proof fn lemma_pattern_break_bcd_roundtrip(row: int)
    requires
        0 <= row < 100,
    ensures
        0 <= spec_bcd_encode(row) < 256,
        spec_pattern_break_row(spec_bcd_encode(row) as u8) == row,
{
    let p = spec_bcd_encode(row);
    assert(p / 16 == row / 10 && p % 16 == row % 10);
}

} // verus!
