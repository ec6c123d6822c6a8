//! Effects `Axy` (volume slide) and `Cxx` (set volume).
use vstd::prelude::*;

use super::portamento::clamp_int;

verus! {

/// Full volume.
pub const VOLUME_MAX: u8 = 64;

/// One tick of `Axy`: up by `x` (high nibble) when `x > 0`, otherwise down by
/// `y` (low nibble), kept inside `[0, 64]`. When both nibbles are set the
/// up-nibble wins and the down-nibble is ignored.
pub open spec fn spec_volume_slide(volume: u8, param: u8) -> int {
    let up = param / 16;
    let down = param % 16;
    clamp_int(
        if up > 0 {
            volume + up
        } else {
            volume - down
        },
        0,
        VOLUME_MAX as int,
    )
}

/// `Axy`: slides `volume` for one tick.
pub fn slide(volume: u8, param: u8) -> (v: u8)
    ensures
        v == spec_volume_slide(volume, param),
        v <= VOLUME_MAX,
{
    assert(param >> 4 == param / 16 && param & 0x0F == param % 16) by (bit_vector);
    let up: u8 = param >> 4;
    let down: u8 = param & 0x0F;
    let next: i16 = if up > 0 {
        volume as i16 + up as i16
    } else {
        volume as i16 - down as i16
    };
    if next < 0 {
        0
    } else if next > VOLUME_MAX as i16 {
        VOLUME_MAX
    } else {
        next as u8
    }
}

/// `Cxx`: the volume named by `param`, a plain value clamped to 64.
pub fn set(param: u8) -> (v: u8)
    ensures
        v == if param <= VOLUME_MAX {
            param
        } else {
            VOLUME_MAX
        },
{
    if param <= VOLUME_MAX {
        param
    } else {
        VOLUME_MAX
    }
}

} // verus!
