//! Effect `4xy`: vibrato.
//!
//! A channel keeps a phase `pos` in `0..64`. Each tick from tick 1 on, `pos`
//! advances by the speed `x` (high nibble) and the period is offset by
//! `(table[pos % 32] * y) >> 7`, with `y` the depth (low nibble) and the
//! sign negative in the second half of the cycle (`pos >= 32`). The table holds
//! the magnitudes of one half sine cycle, peak 255.
use vstd::prelude::*;

verus! {

/// Sine magnitudes over half a vibrato cycle.
pub open spec fn vibrato_table() -> Seq<u8> {
    seq![
        0u8, 24, 49, 74, 97, 120, 141, 161, 180, 197, 212, 224, 235, 244, 250, 253,
        255, 253, 250, 244, 235, 224, 212, 197, 180, 161, 141, 120, 97, 74, 49, 24,
    ]
}

/// The phase after one tick at speed `param / 16`.
pub open spec fn spec_next_phase(param: u8, phase: u8) -> int {
    (phase + param / 16) % 64
}

/// The period offset sounded at phase `pos` with depth `param % 16`.
pub open spec fn spec_vibrato_offset(param: u8, pos: int) -> int {
    let magnitude = (vibrato_table()[pos % 32] * (param % 16)) / 128;
    if pos >= 32 {
        -magnitude
    } else {
        magnitude
    }
}

/// `4xy`: advances the channel's vibrato phase by one tick and returns the
/// period offset to add to the channel's base period.
pub fn period_offset_for_tick(param: u8, phase: &mut u8) -> (offset: i16)
    ensures
        *final(phase) == spec_next_phase(param, *old(phase)),
        offset == spec_vibrato_offset(param, spec_next_phase(param, *old(phase))),
        -29 <= offset <= 29,
{
    let table: Vec<u8> = vec![
        0u8, 24, 49, 74, 97, 120, 141, 161, 180, 197, 212, 224, 235, 244, 250, 253,
        255, 253, 250, 244, 235, 224, 212, 197, 180, 161, 141, 120, 97, 74, 49, 24,
    ];
    assert(table@ =~= vibrato_table());
    let old_phase: u8 = *phase;
    assert(param >> 4 == param / 16 && param & 0x0F == param % 16) by (bit_vector);
    let speed: u8 = param >> 4;
    let depth: u8 = param & 0x0F;
    let pos: u8 = ((old_phase as u16 + speed as u16) % 64) as u8;
    let magnitude: u8 = table[(pos % 32) as usize];
    assert((magnitude as int) * (depth as int) <= 3825) by (nonlinear_arith)
        requires
            magnitude <= 255,
            depth <= 15,
            0 <= magnitude,
            0 <= depth,
    ;
    let delta: i16 = ((magnitude as i16) * (depth as i16)) / 128;
    assert(delta <= 29) by (nonlinear_arith)
        requires
            delta == ((magnitude as int) * (depth as int)) / 128,
            magnitude <= 255,
            depth <= 15,
            0 <= magnitude,
            0 <= depth,
    ;
    assert(delta >= 0) by (nonlinear_arith)
        requires
            delta == ((magnitude as int) * (depth as int)) / 128,
            0 <= magnitude,
            0 <= depth,
    ;
    *phase = pos;
    if pos >= 32 {
        -delta
    } else {
        delta
    }
}

} // verus!
