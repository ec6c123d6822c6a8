//! Effects `1xx`/`2xx` (slide up/down) and `3xx` (tone portamento).
use vstd::prelude::*;

verus! {

/// Lowest period (highest pitch) of the canonical Amiga period table, B-3.
pub const PERIOD_MIN: u16 = 113;

/// Highest period (lowest pitch) of the canonical Amiga period table, C-1.
pub const PERIOD_MAX: u16 = 856;

/// `v` limited to the range `[lo, hi]`.
pub open spec fn clamp_int(v: int, lo: int, hi: int) -> int {
    if v < lo {
        lo
    } else if v > hi {
        hi
    } else {
        v
    }
}

/// One tick of `1xx` (nibble 1: period falls, pitch rises) or `2xx` (any other
/// nibble: period rises), kept inside the Amiga period range.
pub open spec fn spec_slide_period(period: u16, param: u8, effect_nibble: u8) -> int {
    clamp_int(
        if effect_nibble == 1 {
            period - param
        } else {
            period + param
        },
        PERIOD_MIN as int,
        PERIOD_MAX as int,
    )
}

/// `|v|`.
pub open spec fn abs_int(v: int) -> int {
    if v < 0 {
        -v
    } else {
        v
    }
}

/// One tick of `3xx`: a step of `param` toward `target`, landing exactly on
/// `target` once it is within `param`.
pub open spec fn spec_tone_step(period: int, target: int, param: int) -> int {
    if abs_int(target - period) <= param {
        target
    } else if target > period {
        period + param
    } else {
        period - param
    }
}

/// `k` successive ticks of `3xx` from `period`.
pub open spec fn tone_steps(period: int, target: int, param: int, k: nat) -> int
    decreases k,
{
    if k == 0 {
        period
    } else {
        tone_steps(spec_tone_step(period, target, param), target, param, (k - 1) as nat)
    }
}

/// `1xx`/`2xx`: slides the period by `param` for one tick (nibble `1` slides
/// up in pitch, so the period falls), clamped to `[PERIOD_MIN, PERIOD_MAX]`.
pub fn slide_period(period: u16, param: u8, effect_nibble: u8) -> (p: u16)
    ensures
        p == spec_slide_period(period, param, effect_nibble),
        PERIOD_MIN <= p <= PERIOD_MAX,
{
    let delta: i32 = param as i32;
    let new_period: i32 = if effect_nibble == 0x1 {
        period as i32 - delta
    } else {
        period as i32 + delta
    };
    if new_period < PERIOD_MIN as i32 {
        PERIOD_MIN
    } else if new_period > PERIOD_MAX as i32 {
        PERIOD_MAX
    } else {
        new_period as u16
    }
}

/// `3xx`: glides `period` toward `target_period` by up to `param` for one tick,
/// snapping exactly to the target once within `param` of it.
pub fn tone_portamento_step(period: u16, target_period: u16, param: u8) -> (p: u16)
    ensures
        p == spec_tone_step(period as int, target_period as int, param as int),
{
    let diff: i32 = target_period as i32 - period as i32;
    let step: i32 = param as i32;
    let dist: i32 = if diff < 0 {
        -diff
    } else {
        diff
    };
    if dist <= step {
        target_period
    } else if diff > 0 {
        period + param as u16
    } else {
        period - param as u16
    }
}

/// A tone-portamento step never passes the target: the new period lies
/// between the old one and the target, and its distance to the target shrinks
/// by exactly `param` (or to zero).
pub proof fn lemma_tone_step_never_overshoots(period: int, target: int, param: int)
    requires
        param >= 0,
    ensures
        ({
            let p = spec_tone_step(period, target, param);
            &&& (period <= target ==> period <= p <= target)
            &&& (target <= period ==> target <= p <= period)
            &&& abs_int(target - p) == if abs_int(target - period) <= param {
                0
            } else {
                abs_int(target - period) - param
            }
        }),
{
}

/// Once at its target, tone portamento stays there.
pub proof fn lemma_tone_step_at_target_is_fixed(target: int, param: int)
    requires
        param >= 0,
    ensures
        spec_tone_step(target, target, param) == target,
{
}

/// Tone portamento converges: with a positive `param`, any `k` ticks with
/// `k * param` at least the starting distance land exactly on the target.
pub proof fn lemma_tone_portamento_converges(period: int, target: int, param: int, k: nat)
    requires
        param > 0,
        k * param >= abs_int(target - period),
    ensures
        tone_steps(period, target, param, k) == target,
    decreases k,
{
    if k > 0 {
        let next = spec_tone_step(period, target, param);
        lemma_tone_step_never_overshoots(period, target, param);
        assert((k - 1) * param == k * param - param) by (nonlinear_arith);
        if abs_int(target - period) <= param {
            assert(next == target);
            assert(abs_int(target - next) == 0);
            assert((k - 1) * param >= 0) by (nonlinear_arith)
                requires
                    k >= 1,
                    param > 0,
            ;
        }
        lemma_tone_portamento_converges(next, target, param, (k - 1) as nat);
    } else {
        assert(k * param == 0) by (nonlinear_arith)
            requires
                k == 0,
        ;
    }
}

/// Away from the ends of the period range, one slide tick moves the period by
/// exactly `param`: down for effect `1`, up for effect `2`; at the ends it stops
/// at the bound it would cross.
pub proof fn lemma_slide_moves_by_param(period: u16, param: u8)
    ensures
        PERIOD_MIN <= period - param <= PERIOD_MAX ==> spec_slide_period(period, param, 1) == period - param,
        PERIOD_MIN <= period + param <= PERIOD_MAX ==> spec_slide_period(period, param, 2) == period + param,
        period - param < PERIOD_MIN ==> spec_slide_period(period, param, 1) == PERIOD_MIN,
        period + param > PERIOD_MAX ==> spec_slide_period(period, param, 2) == PERIOD_MAX,
        param == 0 && PERIOD_MIN <= period <= PERIOD_MAX ==> spec_slide_period(period, param, 1) == period
            && spec_slide_period(period, param, 2) == period,
{
}

} // verus!
