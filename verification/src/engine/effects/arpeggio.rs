//! Effect `0xy`: arpeggio.
//!
//! The Amiga period scale is linear in log-frequency: raising a note by `n`
//! semitones divides its period by `2^(n/12)`. The shifted period is rounded to
//! the nearest integer, halves rounding up. Because `2^(n/12)` is irrational for
//! most `n`, rounding is decided exactly, in integers: with `x = base / 2^(n/12)`,
//! `x < r + 1/2` holds exactly when `(2 * base)^12 < (2r + 1)^12 * 2^n`.
use vstd::prelude::*;

use super::wide::{limbs_value, radix_pow, wide_lt, wide_mul_small, wide_one};

verus! {

/// `b` raised to the natural power `e`.
pub open spec fn ipow(b: int, e: nat) -> int
    decreases e,
{
    if e == 0 {
        1
    } else {
        b * ipow(b, (e - 1) as nat)
    }
}

/// `base / 2^(semitones/12)` lies below `r + 1/2`, so it rounds to at most `r`.
pub open spec fn rounds_to_at_most(base: int, semitones: nat, r: int) -> bool {
    ipow(2 * base, 12) < ipow(2 * r + 1, 12) * ipow(2, semitones)
}

/// `r` is the period `base` raised by `semitones` semitones, that is
/// `base / 2^(semitones/12)`, rounded to the nearest integer with halves
/// rounding up: the least `r >= 0` whose `r + 1/2` lies above that quotient.
pub open spec fn is_shifted_period(base: int, semitones: nat, r: int) -> bool {
    &&& r >= 0
    &&& rounds_to_at_most(base, semitones, r)
    &&& (r == 0 || !rounds_to_at_most(base, semitones, r - 1))
}

/// The semitone offset that arpeggio sounds on a given tick of the row:
/// none on ticks `0, 3, 6, ..`, the high nibble `x` on ticks `1, 4, ..`, the low
/// nibble `y` on ticks `2, 5, ..`.
pub open spec fn arpeggio_semitones(param: u8, tick_in_row: u32) -> nat {
    if tick_in_row % 3 == 1 {
        (param / 16) as nat
    } else if tick_in_row % 3 == 2 {
        (param % 16) as nat
    } else {
        0
    }
}

proof fn lemma_ipow_add(b: int, m: nat, n: nat)
    ensures
        ipow(b, m + n) == ipow(b, m) * ipow(b, n),
    decreases n,
{
    if n > 0 {
        lemma_ipow_add(b, m, (n - 1) as nat);
        assert(ipow(b, m + n) == b * ipow(b, (m + n - 1) as nat));
        let p = ipow(b, m);
        let q = ipow(b, (n - 1) as nat);
        assert(b * (p * q) == p * (b * q)) by (nonlinear_arith);
    }
}

proof fn lemma_ipow_positive(b: int, e: nat)
    requires
        b >= 1,
    ensures
        ipow(b, e) >= 1,
    decreases e,
{
    if e > 0 {
        lemma_ipow_positive(b, (e - 1) as nat);
        let q = ipow(b, (e - 1) as nat);
        assert(b * q >= 1) by (nonlinear_arith)
            requires
                b >= 1,
                q >= 1,
        ;
    }
}

proof fn lemma_ipow_nonneg(b: int, e: nat)
    requires
        b >= 0,
    ensures
        ipow(b, e) >= 0,
    decreases e,
{
    if e > 0 {
        lemma_ipow_nonneg(b, (e - 1) as nat);
        let q = ipow(b, (e - 1) as nat);
        assert(b * q >= 0) by (nonlinear_arith)
            requires
                b >= 0,
                q >= 0,
        ;
    }
}

/// Powers of a natural number grow with the base.
proof fn lemma_ipow_base_mono(a: int, b: int, e: nat)
    requires
        0 <= a <= b,
    ensures
        ipow(a, e) <= ipow(b, e),
    decreases e,
{
    if e > 0 {
        lemma_ipow_base_mono(a, b, (e - 1) as nat);
        lemma_ipow_nonneg(a, (e - 1) as nat);
        let p = ipow(a, (e - 1) as nat);
        let q = ipow(b, (e - 1) as nat);
        assert(a * p <= b * q) by (nonlinear_arith)
            requires
                0 <= a <= b,
                0 <= p <= q,
        ;
    }
}

/// Positive powers of a natural number grow strictly with the base.
proof fn lemma_ipow_base_strict(a: int, b: int, e: nat)
    requires
        0 <= a < b,
        e > 0,
    ensures
        ipow(a, e) < ipow(b, e),
    decreases e,
{
    lemma_ipow_base_mono(a, b, (e - 1) as nat);
    lemma_ipow_nonneg(a, (e - 1) as nat);
    lemma_ipow_positive(b, (e - 1) as nat);
    let p = ipow(a, (e - 1) as nat);
    let q = ipow(b, (e - 1) as nat);
    assert(a * p < b * q) by (nonlinear_arith)
        requires
            0 <= a < b,
            0 <= p <= q,
            q >= 1,
    ;
}

proof fn lemma_ipow_exp_mono(b: int, m: nat, n: nat)
    requires
        b >= 1,
        m <= n,
    ensures
        ipow(b, m) <= ipow(b, n),
{
    lemma_ipow_add(b, m, (n - m) as nat);
    lemma_ipow_positive(b, m);
    lemma_ipow_positive(b, (n - m) as nat);
    let p = ipow(b, m);
    let q = ipow(b, (n - m) as nat);
    assert(p <= p * q) by (nonlinear_arith)
        requires
            p >= 1,
            q >= 1,
    ;
}

proof fn lemma_ipow_mul_base(a: int, b: int, e: nat)
    ensures
        ipow(a * b, e) == ipow(a, e) * ipow(b, e),
    decreases e,
{
    if e > 0 {
        lemma_ipow_mul_base(a, b, (e - 1) as nat);
        let p = ipow(a, (e - 1) as nat);
        let q = ipow(b, (e - 1) as nat);
        assert((a * b) * (p * q) == (a * p) * (b * q)) by (nonlinear_arith);
    }
}

proof fn lemma_ipow_two_17()
    ensures
        ipow(2, 17) == 131072,
{
    reveal_with_fuel(ipow, 18);
}

proof fn lemma_ipow_two_32()
    ensures
        ipow(2, 32) == 0x1_0000_0000,
{
    reveal_with_fuel(ipow, 33);
}

/// `(2^17)^k == 2^(17k)`.
proof fn lemma_ipow_131072(k: nat)
    ensures
        ipow(131072, k) == ipow(2, 17 * k),
    decreases k,
{
    if k > 0 {
        lemma_ipow_131072((k - 1) as nat);
        lemma_ipow_two_17();
        lemma_ipow_add(2, (17 * (k - 1)) as nat, 17);
        assert(17 * (k - 1) + 17 == 17 * k);
        let p = ipow(2, (17 * (k - 1)) as nat);
        assert(131072 * p == p * 131072) by (nonlinear_arith);
    }
}

/// The weight of limb `k` is `2^(32k)`.
proof fn lemma_radix_pow_is_ipow(k: nat)
    ensures
        radix_pow(k) == ipow(2, 32 * k),
    decreases k,
{
    if k > 0 {
        lemma_radix_pow_is_ipow((k - 1) as nat);
        lemma_ipow_two_32();
        lemma_ipow_add(2, (32 * (k - 1)) as nat, 32);
        assert(32 * (k - 1) + 32 == 32 * k);
    }
}

/// Number of `u32` limbs used for the twelfth-power comparisons: 512 bits.
const WIDE_LIMBS: usize = 16;

/// `x^12 * 2^shift` as a wide number; `x` is at most `2 * u16::MAX + 1`.
fn twelfth_power_shifted(x: u32, shift: u8) -> (res: Vec<u32>)
    requires
        x < 131072,
    ensures
        res.len() == WIDE_LIMBS,
        limbs_value(res@) == ipow(x as int, 12) * ipow(2, shift as nat),
{
    proof {
        lemma_radix_pow_is_ipow(16);
        lemma_ipow_131072(12);
    }
    let mut acc = wide_one(WIDE_LIMBS);
    let mut i: usize = 0;
    while i < 12
        invariant
            i <= 12,
            x < 131072,
            acc.len() == WIDE_LIMBS,
            limbs_value(acc@) == ipow(x as int, i as nat),
            radix_pow(16) == ipow(2, 512),
            ipow(131072, 12) == ipow(2, 204),
        decreases 12 - i,
    {
        proof {
            lemma_ipow_base_mono(x as int, 131072, (i + 1) as nat);
            lemma_ipow_exp_mono(131072, (i + 1) as nat, 12);
            lemma_ipow_exp_mono(2, 204, 512);
            lemma_ipow_two_17();
            lemma_ipow_add(2, 204, 1);
            lemma_ipow_exp_mono(2, 205, 512);
            lemma_ipow_positive(2, 204);
            assert(ipow(2, 1) == 2) by {
                reveal_with_fuel(ipow, 2);
            }
            assert(ipow(2, 204) < ipow(2, 205));
            let p = ipow(x as int, i as nat);
            assert(ipow(x as int, (i + 1) as nat) == x * p);
            assert(p * x == x * p) by (nonlinear_arith);
            assert(p * x < radix_pow(acc.len() as nat));
        }
        acc = wide_mul_small(&acc, x);
        i = i + 1;
    }
    let mut j: u8 = 0;
    proof {
        assert(ipow(2, 0) == 1);
        assert(ipow(x as int, 12) * 1 == ipow(x as int, 12));
    }
    while j < shift
        invariant
            j <= shift,
            x < 131072,
            acc.len() == WIDE_LIMBS,
            limbs_value(acc@) == ipow(x as int, 12) * ipow(2, j as nat),
            radix_pow(16) == ipow(2, 512),
            ipow(131072, 12) == ipow(2, 204),
        decreases shift - j,
    {
        proof {
            lemma_ipow_base_mono(x as int, 131072, 12);
            lemma_ipow_nonneg(x as int, 12);
            lemma_ipow_exp_mono(2, (j + 1) as nat, 256);
            lemma_ipow_add(2, 204, 256);
            lemma_ipow_exp_mono(2, 460, 511);
            lemma_ipow_add(2, 511, 1);
            lemma_ipow_positive(2, 511);
            lemma_ipow_positive(2, (j + 1) as nat);
            assert(ipow(2, 1) == 2) by {
                reveal_with_fuel(ipow, 2);
            }
            let a = ipow(x as int, 12);
            let q = ipow(2, j as nat);
            let q1 = ipow(2, (j + 1) as nat);
            assert(q1 == 2 * q);
            let big_a = ipow(2, 204);
            let big_q = ipow(2, 256);
            assert(a * q * 2 == a * q1) by (nonlinear_arith)
                requires
                    q1 == 2 * q,
            ;
            assert(a * q1 <= big_a * big_q) by (nonlinear_arith)
                requires
                    0 <= a <= big_a,
                    0 <= q1 <= big_q,
            ;
            assert(a * q * 2 < radix_pow(acc.len() as nat));
        }
        acc = wide_mul_small(&acc, 2);
        j = j + 1;
    }
    acc
}

/// Rounding to at most `r1` means rounding to at most any larger `r2`.
pub proof fn lemma_rounds_to_at_most_monotone(base: int, semitones: nat, r1: int, r2: int)
    requires
        0 <= r1 <= r2,
        rounds_to_at_most(base, semitones, r1),
    ensures
        rounds_to_at_most(base, semitones, r2),
{
    lemma_ipow_base_mono(2 * r1 + 1, 2 * r2 + 1, 12);
    lemma_ipow_positive(2, semitones);
    let p1 = ipow(2 * r1 + 1, 12);
    let p2 = ipow(2 * r2 + 1, 12);
    let t = ipow(2, semitones);
    assert(p1 * t <= p2 * t) by (nonlinear_arith)
        requires
            p1 <= p2,
            t >= 1,
    ;
}

/// A shifted, rounded period is unique: `is_shifted_period` describes a function.
pub proof fn lemma_shifted_period_unique(base: int, semitones: nat, r1: int, r2: int)
    requires
        is_shifted_period(base, semitones, r1),
        is_shifted_period(base, semitones, r2),
    ensures
        r1 == r2,
{
    if r1 < r2 {
        lemma_rounds_to_at_most_monotone(base, semitones, r1, r2 - 1);
    } else if r2 < r1 {
        lemma_rounds_to_at_most_monotone(base, semitones, r2, r1 - 1);
    }
}

/// `x^12 < y^12` exactly when `x < y`, for natural `x` and `y`.
proof fn lemma_twelfth_power_order(x: int, y: int)
    requires
        x >= 0,
        y >= 0,
    ensures
        ipow(x, 12) < ipow(y, 12) <==> x < y,
{
    if x < y {
        lemma_ipow_base_strict(x, y, 12);
    } else {
        lemma_ipow_base_mono(y, x, 12);
    }
}

/// Shifting by zero semitones leaves the period as it is.
pub proof fn lemma_zero_semitones_is_identity(base: int)
    requires
        base >= 0,
    ensures
        is_shifted_period(base, 0, base),
{
    assert(ipow(2, 0) == 1);
    lemma_twelfth_power_order(2 * base, 2 * base + 1);
    if base > 0 {
        lemma_twelfth_power_order(2 * base, 2 * (base - 1) + 1);
    }
}

/// Twelve semitones is one octave: the period is halved, an odd period
/// rounding up.
pub proof fn lemma_octave_halves_period(base: int, r: int)
    requires
        base >= 0,
    ensures
        is_shifted_period(base, 12, r) <==> r == (base + 1) / 2,
{
    lemma_ipow_two_12();
    assert forall|c: int| c >= 0 implies (rounds_to_at_most(base, 12, c) <==> base < 2 * c + 1) by {
        lemma_ipow_mul_base(2 * c + 1, 2, 12);
        assert((2 * c + 1) * 2 == 4 * c + 2);
        lemma_twelfth_power_order(2 * base, 4 * c + 2);
    }
    if r == (base + 1) / 2 {
        assert(rounds_to_at_most(base, 12, r));
        if r > 0 {
            assert(!rounds_to_at_most(base, 12, r - 1));
        }
    }
    if is_shifted_period(base, 12, r) {
        assert(rounds_to_at_most(base, 12, r));
        if r > 0 {
            assert(!rounds_to_at_most(base, 12, r - 1));
        }
    }
}

proof fn lemma_ipow_two_12()
    ensures
        ipow(2, 12) == 4096,
{
    reveal_with_fuel(ipow, 13);
}

/// Raises `base_period` by `semitones` semitones: `base / 2^(semitones/12)`,
/// rounded to the nearest integer period.
pub fn period_for_offset(base_period: u16, semitones: u8) -> (p: u16)
    ensures
        is_shifted_period(base_period as int, semitones as nat, p as int),
        p <= base_period,
{
    if semitones == 0 {
        proof {
            lemma_zero_semitones_is_identity(base_period as int);
        }
        return base_period;
    }
    let target = twelfth_power_shifted(2 * (base_period as u32), 0);
    proof {
        assert(ipow(2, 0) == 1);
        let b = base_period as int;
        lemma_twelfth_power_order(2 * b, 2 * b + 1);
        lemma_ipow_positive(2, semitones as nat);
        lemma_ipow_nonneg(2 * b + 1, 12);
        let p = ipow(2 * b + 1, 12);
        let t = ipow(2, semitones as nat);
        assert(p <= p * t) by (nonlinear_arith)
            requires
                p >= 0,
                t >= 1,
        ;
    }
    let mut lo: u16 = 0;
    let mut hi: u16 = base_period;
    while lo < hi
        invariant
            lo <= hi <= base_period,
            target.len() == WIDE_LIMBS,
            limbs_value(target@) == ipow(2 * (base_period as int), 12),
            rounds_to_at_most(base_period as int, semitones as nat, hi as int),
            lo == 0 || !rounds_to_at_most(base_period as int, semitones as nat, lo - 1),
        decreases hi - lo,
    {
        let mid: u16 = lo + (hi - lo) / 2;
        let cand = twelfth_power_shifted(2 * (mid as u32) + 1, semitones);
        if wide_lt(&target, &cand) {
            hi = mid;
        } else {
            lo = mid + 1;
        }
    }
    lo
}

/// The period that arpeggio (`0xy`) sounds on tick `tick_in_row` of the row,
/// cycling by `tick_in_row % 3` through the base note, the note raised by `x`
/// semitones (high nibble) and the note raised by `y` semitones (low nibble).
pub fn period_for_tick(base_period: u16, param: u8, tick_in_row: u32) -> (p: u16)
    ensures
        is_shifted_period(base_period as int, arpeggio_semitones(param, tick_in_row), p as int),
        tick_in_row % 3 == 0 ==> p == base_period,
        p <= base_period,
{
    assert(param >> 4 == param / 16 && param & 0x0F == param % 16) by (bit_vector);
    let phase = tick_in_row % 3;
    if phase == 1 {
        period_for_offset(base_period, param >> 4)
    } else if phase == 2 {
        period_for_offset(base_period, param & 0x0F)
    } else {
        proof {
            lemma_zero_semitones_is_identity(base_period as int);
        }
        base_period
    }
}

/// Arpeggio repeats every three ticks: the semitone offset on tick `t` and on
/// tick `t + 3` is the same, so (by uniqueness) is the period.
pub proof fn lemma_arpeggio_cycles_every_three_ticks(base: int, param: u8, t: u32, p1: int, p2: int)
    requires
        t + 3 <= u32::MAX,
        is_shifted_period(base, arpeggio_semitones(param, t), p1),
        is_shifted_period(base, arpeggio_semitones(param, (t + 3) as u32), p2),
    ensures
        p1 == p2,
{
    assert((t + 3) % 3 == t % 3);
    lemma_shifted_period_unique(base, arpeggio_semitones(param, t), p1, p2);
}

/// Arpeggio raises the base note by the full high nibble `x` of `0xy` on ticks
/// `1, 4, ..` and by the full low nibble `y` (0 to 15) on ticks `2, 5, ..`; an
/// `x` or `y` of 12 is one octave, which halves the period.
pub proof fn lemma_arpeggio_uses_full_nibbles(base: int, param: u8, t: u32, p: int)
    requires
        base >= 0,
        is_shifted_period(base, arpeggio_semitones(param, t), p),
    ensures
        t % 3 == 1 ==> is_shifted_period(base, (param >> 4) as nat, p),
        t % 3 == 2 ==> is_shifted_period(base, (param & 0x0F) as nat, p),
        t % 3 == 0 ==> p == base,
        t % 3 == 1 && param >> 4 == 12 ==> p == (base + 1) / 2,
        t % 3 == 2 && param & 0x0F == 12 ==> p == (base + 1) / 2,
{
    assert(param >> 4 == param / 16 && param & 0x0F == param % 16) by (bit_vector);
    if t % 3 == 0 {
        lemma_zero_semitones_is_identity(base);
        lemma_shifted_period_unique(base, 0, p, base);
    }
    if t % 3 == 1 && param >> 4 == 12 {
        lemma_octave_halves_period(base, p);
    }
    if t % 3 == 2 && param & 0x0F == 12 {
        lemma_octave_halves_period(base, p);
    }
}

} // verus!
