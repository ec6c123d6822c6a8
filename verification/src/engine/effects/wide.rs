//! Fixed-width unsigned integers wider than `u128`, stored as little-endian
//! `u32` limbs. Arpeggio rounding compares twelfth powers of periods, which
//! need a little over 450 bits; this module supplies exactly the operations
//! that comparison uses: a small constant, multiplication by a `u32`, and `<`.
use vstd::prelude::*;

verus! {

/// The value of one limb position: 2^32.
pub open spec fn limb_radix() -> nat {
    0x1_0000_0000
}

/// `limb_radix()` raised to the `k`th power: the weight of limb `k`.
pub open spec fn radix_pow(k: nat) -> nat
    decreases k,
{
    if k == 0 {
        1
    } else {
        radix_pow((k - 1) as nat) * limb_radix()
    }
}

/// The number that a little-endian limb sequence stands for.
pub open spec fn limbs_value(s: Seq<u32>) -> nat
    decreases s.len(),
{
    if s.len() == 0 {
        0
    } else {
        limbs_value(s.drop_last()) + (s.last() as nat) * radix_pow((s.len() - 1) as nat)
    }
}

/// A sequence of `n` limbs stands for a number below `radix_pow(n)`.
proof fn lemma_limbs_value_bound(s: Seq<u32>)
    ensures
        limbs_value(s) < radix_pow(s.len()),
    decreases s.len(),
{
    if s.len() > 0 {
        let n = s.len();
        lemma_limbs_value_bound(s.drop_last());
        let v = limbs_value(s.drop_last());
        let r = radix_pow((n - 1) as nat);
        let l = s.last() as nat;
        assert(v + l * r < r * limb_radix()) by (nonlinear_arith)
            requires
                v < r,
                l < limb_radix(),
        ;
    }
}

/// Appending a zero limb leaves the value unchanged.
proof fn lemma_push_zero(s: Seq<u32>)
    ensures
        limbs_value(s.push(0u32)) == limbs_value(s),
{
    assert(s.push(0u32).drop_last() =~= s);
    assert(s.push(0u32).last() == 0u32);
    let r = radix_pow(s.len());
    assert((0u32 as nat) * r == 0);
}

/// The limbs `[1, 0, 0, ..]`, `n` of them: the number one.
pub fn wide_one(n: usize) -> (res: Vec<u32>)
    requires
        n >= 1,
    ensures
        res.len() == n,
        limbs_value(res@) == 1,
{
    let mut res: Vec<u32> = Vec::new();
    res.push(1u32);
    proof {
        assert(res@.len() == 1 && res@.last() == 1u32);
        assert(res@.drop_last() =~= Seq::<u32>::empty());
        assert(limbs_value(Seq::<u32>::empty()) == 0);
        assert(radix_pow(0) == 1);
        assert(limbs_value(res@) == 0 + (1u32 as nat) * radix_pow(0));
    }
    let mut i: usize = 1;
    while i < n
        invariant
            1 <= i <= n,
            res.len() == i,
            limbs_value(res@) == 1,
        decreases n - i,
    {
        proof {
            lemma_push_zero(res@);
        }
        res.push(0u32);
        i = i + 1;
    }
    res
}

/// Multiplies a wide number by a `u32`, keeping its width; the product must fit.
pub fn wide_mul_small(a: &Vec<u32>, m: u32) -> (res: Vec<u32>)
    requires
        limbs_value(a@) * m < radix_pow(a.len() as nat),
    ensures
        res.len() == a.len(),
        limbs_value(res@) == limbs_value(a@) * m,
{
    let n = a.len();
    let mut res: Vec<u32> = Vec::new();
    let mut carry: u64 = 0;
    let mut i: usize = 0;
    proof {
        assert(a@.take(0) =~= Seq::<u32>::empty());
        assert(res@ =~= Seq::<u32>::empty());
        assert(limbs_value(Seq::<u32>::empty()) == 0);
        assert(0 * radix_pow(0) == 0);
    }
    while i < n
        invariant
            n == a.len(),
            i <= n,
            res.len() == i,
            carry < 0x1_0000_0000,
            limbs_value(res@) + carry * radix_pow(i as nat) == limbs_value(a@.take(i as int)) * m,
        decreases n - i,
    {
        let ai = a[i];
        assert((ai as u64) * (m as u64) <= 0xFFFF_FFFE_0000_0001) by (nonlinear_arith)
            requires
                ai <= 0xFFFF_FFFF,
                m <= 0xFFFF_FFFF,
        ;
        let t: u64 = (ai as u64) * (m as u64) + carry;
        assert(t & 0xFFFF_FFFF <= 0xFFFF_FFFF) by (bit_vector);
        let lo: u32 = (t & 0xFFFF_FFFF) as u32;
        let hi: u64 = t >> 32;
        assert(t == lo as u64 + hi * 0x1_0000_0000 && hi < 0x1_0000_0000) by (bit_vector)
            requires
                lo == (t & 0xFFFF_FFFF) as u32,
                hi == t >> 32,
                t <= 0xFFFF_FFFF_FFFF_FFFF,
        ;
        proof {
            let old_res = res@;
            let v = limbs_value(a@.take(i as int));
            let r = radix_pow(i as nat);
            assert(a@.take(i + 1).drop_last() =~= a@.take(i as int));
            assert(a@.take(i + 1).last() == ai);
            assert(old_res.push(lo).drop_last() =~= old_res);
            assert(radix_pow((i + 1) as nat) == r * limb_radix());
            let vr = limbs_value(old_res);
            assert(vr + lo * r + hi * (r * limb_radix()) == (v + ai * r) * m) by (nonlinear_arith)
                requires
                    vr + carry * r == v * m,
                    t == ai * m + carry,
                    t == lo + hi * 0x1_0000_0000,
                    limb_radix() == 0x1_0000_0000,
            ;
        }
        res.push(lo);
        carry = hi;
        i = i + 1;
    }
    proof {
        assert(a@.take(n as int) =~= a@);
        let vr = limbs_value(res@);
        let r = radix_pow(n as nat);
        let p = limbs_value(a@) * m;
        assert(carry == 0) by (nonlinear_arith)
            requires
                vr + carry * r == p,
                p < r,
                vr >= 0,
                carry >= 0,
        ;
    }
    res
}

/// Compares the lowest `k` limbs of two equally wide numbers.
fn wide_lt_prefix(a: &Vec<u32>, b: &Vec<u32>, k: usize) -> (res: bool)
    requires
        a.len() == b.len(),
        k <= a.len(),
    ensures
        res == (limbs_value(a@.take(k as int)) < limbs_value(b@.take(k as int))),
    decreases k,
{
    if k == 0 {
        proof {
            assert(a@.take(0) =~= Seq::<u32>::empty());
            assert(b@.take(0) =~= Seq::<u32>::empty());
        }
        false
    } else {
        let x = a[k - 1];
        let y = b[k - 1];
        proof {
            assert(a@.take(k as int).drop_last() =~= a@.take(k - 1));
            assert(b@.take(k as int).drop_last() =~= b@.take(k - 1));
            lemma_limbs_value_bound(a@.take(k - 1));
            lemma_limbs_value_bound(b@.take(k - 1));
        }
        let ghost va = limbs_value(a@.take(k - 1));
        let ghost vb = limbs_value(b@.take(k - 1));
        let ghost r = radix_pow((k - 1) as nat);
        if x < y {
            assert(va + x * r < vb + y * r) by (nonlinear_arith)
                requires
                    va < r,
                    vb >= 0,
                    x < y,
            ;
            true
        } else if x > y {
            assert(vb + y * r < va + x * r) by (nonlinear_arith)
                requires
                    vb < r,
                    va >= 0,
                    y < x,
            ;
            false
        } else {
            wide_lt_prefix(a, b, k - 1)
        }
    }
}

/// `a < b` for two wide numbers of the same width.
pub fn wide_lt(a: &Vec<u32>, b: &Vec<u32>) -> (res: bool)
    requires
        a.len() == b.len(),
    ensures
        res == (limbs_value(a@) < limbs_value(b@)),
{
    proof {
        assert(a@.take(a.len() as int) =~= a@);
        assert(b@.take(b.len() as int) =~= b@);
    }
    wide_lt_prefix(a, b, a.len())
}

} // verus!
