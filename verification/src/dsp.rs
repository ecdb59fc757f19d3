//! Fixed-point arithmetic kernels for the signal analysis: floor of the
//! binary logarithm with sixteen fractional bits, and the floor of the
//! square root. The decibel scales of the volume meter and the spectrum
//! display are built on these, so the whole analysis path stays in exact
//! integer arithmetic.

use vstd::prelude::*;
use vstd::arithmetic::power2::{pow2, lemma_pow2_adds, lemma_pow2_strictly_increases, lemma2_to64, lemma2_to64_rest};
use vstd::arithmetic::div_mod::{
    lemma_div_is_ordered, lemma_div_multiples_vanish, lemma_fundamental_div_mod,
    lemma_div_denominator, lemma_multiply_divide_lt, lemma_div_pos_is_pos,
};

verus! {

/// Floor of the base-2 logarithm; 0 for inputs below 2.
pub open spec fn log2_floor(x: int) -> int
    decreases x,
{
    if x < 2 {
        0
    } else {
        1 + log2_floor(x / 2)
    }
}

/// `log2_floor` is characterized by the enclosing powers of two.
pub proof fn lemma_log2_floor_from_bounds(x: int, p: nat)
    requires
        pow2(p) <= x < pow2(p + 1),
    ensures
        log2_floor(x) == p,
    decreases p,
{
    vstd::arithmetic::power2::lemma_pow2_pos(p);
    if p == 0 {
        assert(pow2(1) == 2) by { lemma2_to64(); }
    } else {
        assert(pow2(p) == 2 * pow2((p - 1) as nat)) by {
            lemma_pow2_adds(1, (p - 1) as nat);
            lemma2_to64();
        }
        assert(pow2(p + 1) == 2 * pow2(p)) by {
            lemma_pow2_adds(1, p);
            lemma2_to64();
        }
        assert(x >= 2);
        // x / 2 lies between pow2(p - 1) and pow2(p)
        assert(x / 2 >= pow2((p - 1) as nat)) by {
            lemma_div_is_ordered(2 * pow2((p - 1) as nat) as int, x, 2);
            lemma_div_multiples_vanish(pow2((p - 1) as nat) as int, 2);
        }
        assert(x / 2 < pow2(p)) by {
            lemma_multiply_divide_lt(x, 2, pow2(p) as int);
        }
        lemma_log2_floor_from_bounds(x / 2, (p - 1) as nat);
    }
}

/// `log2_floor` never decreases as its argument grows.
pub proof fn lemma_log2_floor_mono(x1: int, x2: int)
    requires
        x1 <= x2,
    ensures
        log2_floor(x1) <= log2_floor(x2),
    decreases x2,
{
    if x1 >= 2 {
        lemma_div_is_ordered(x1, x2, 2);
        lemma_log2_floor_mono(x1 / 2, x2 / 2);
        assert(x2 / 2 < x2) by {
            vstd::arithmetic::div_mod::lemma_div_is_strictly_smaller(x2, 2);
        }
    } else {
        lemma_log2_floor_nonneg(x2);
    }
}

pub proof fn lemma_log2_floor_nonneg(x: int)
    ensures
        log2_floor(x) >= 0,
    decreases x,
{
    if x >= 2 {
        lemma_log2_floor_nonneg(x / 2);
    }
}

/// The normalized mantissa of `x`: `x` scaled by a power of two into
/// `[2^32, 2^33)` (rounding down when scaling shrinks it).
pub open spec fn mantissa_of(x: int) -> int {
    let p = log2_floor(x);
    if p >= 32 {
        x / pow2((p - 32) as nat) as int
    } else {
        x * pow2((32 - p) as nat) as int
    }
}

pub proof fn lemma_log2_floor_bounds(x: int)
    requires
        x >= 1,
    ensures
        pow2(log2_floor(x) as nat) <= x < pow2((log2_floor(x) + 1) as nat),
    decreases x,
{
    lemma_log2_floor_nonneg(x);
    if x < 2 {
        assert(pow2(0) == 1 && pow2(1) == 2) by { lemma2_to64(); }
    } else {
        lemma_log2_floor_nonneg(x / 2);
        lemma_div_pos_is_pos(x, 2);
        lemma_log2_floor_bounds(x / 2);
        let q = log2_floor(x / 2);
        assert(pow2((q + 1) as nat) == 2 * pow2(q as nat) && pow2((q + 2) as nat) == 2 * pow2(
            (q + 1) as nat,
        )) by {
            lemma_pow2_adds(1, q as nat);
            lemma_pow2_adds(1, (q + 1) as nat);
            lemma2_to64();
        }
        lemma_fundamental_div_mod(x, 2);
    }
}

/// The mantissa always lands in `[2^32, 2^33)`.
pub proof fn lemma_mantissa_range(x: int)
    requires
        x >= 1,
    ensures
        0x100000000 <= mantissa_of(x) < 0x200000000,
{
    let p = log2_floor(x);
    lemma_log2_floor_nonneg(x);
    lemma_log2_floor_bounds(x);
    assert(pow2(32) == 0x100000000 && pow2(33) == 0x200000000) by {
        lemma2_to64();
        lemma2_to64_rest();
    }
    if p >= 32 {
        let d = pow2((p - 32) as nat) as int;
        vstd::arithmetic::power2::lemma_pow2_pos((p - 32) as nat);
        assert(pow2(p as nat) == d * 0x100000000) by {
            lemma_pow2_adds((p - 32) as nat, 32);
        }
        assert(x / d >= 0x100000000) by {
            lemma_div_is_ordered(d * 0x100000000, x, d);
            lemma_div_multiples_vanish(0x100000000, d);
        }
        assert(pow2((p + 1) as nat) == d * 0x200000000) by {
            lemma_pow2_adds((p - 32) as nat, 33);
        }
        assert(x / d < 0x200000000) by {
            lemma_multiply_divide_lt(x, d, 0x200000000);
        }
    } else {
        let m = pow2((32 - p) as nat) as int;
        vstd::arithmetic::power2::lemma_pow2_pos((32 - p) as nat);
        assert(pow2(p as nat) * m == 0x100000000) by {
            lemma_pow2_adds(p as nat, (32 - p) as nat);
        }
        assert(pow2((p + 1) as nat) * m == 0x200000000) by {
            lemma_pow2_adds((p + 1) as nat, (32 - p) as nat);
        }
        assert(x * m >= pow2(p as nat) * m) by (nonlinear_arith)
            requires x >= pow2(p as nat), m >= 1;
        assert(x * m < pow2((p + 1) as nat) * m) by (nonlinear_arith)
            requires x < pow2((p + 1) as nat), m >= 1;
    }
}

/// Within one power-of-two band the mantissa is monotone.
proof fn lemma_mantissa_mono_same_band(x1: int, x2: int)
    requires
        1 <= x1 <= x2,
        log2_floor(x1) == log2_floor(x2),
    ensures
        mantissa_of(x1) <= mantissa_of(x2),
{
    let p = log2_floor(x1);
    lemma_log2_floor_nonneg(x1);
    if p >= 32 {
        vstd::arithmetic::power2::lemma_pow2_pos((p - 32) as nat);
        lemma_div_is_ordered(x1, x2, pow2((p - 32) as nat) as int);
    } else {
        vstd::arithmetic::power2::lemma_pow2_pos((32 - p) as nat);
        let m = pow2((32 - p) as nat) as int;
        assert(x1 * m <= x2 * m) by (nonlinear_arith)
            requires x1 <= x2, m >= 0;
    }
}

/// One squaring step of the fractional-bit recurrence, in Q32.
pub open spec fn frac_step(m: int) -> int {
    (m * m) / 0x100000000
}

/// The first `i` fractional bits of `log2(m / 2^32)`, packed most
/// significant first, computed by repeated squaring of the Q32 mantissa.
pub open spec fn frac_bits(m: int, i: nat) -> int
    decreases i,
{
    if i == 0 {
        0
    } else {
        let m2 = frac_step(m);
        if m2 >= 0x200000000 {
            pow2((i - 1) as nat) as int + frac_bits(m2 / 2, (i - 1) as nat)
        } else {
            frac_bits(m2, (i - 1) as nat)
        }
    }
}

/// Squaring a mantissa in `[2^32, 2^33)` lands in `[2^32, 2^34)`, and the
/// conditional halving puts it back in `[2^32, 2^33)`.
pub proof fn lemma_frac_step_range(m: int)
    requires
        0x100000000 <= m < 0x200000000,
    ensures
        0x100000000 <= frac_step(m) < 0x400000000,
        frac_step(m) >= 0x200000000 ==> 0x100000000 <= frac_step(m) / 2 < 0x200000000,
{
    let sq = m * m;
    assert(sq >= 0x100000000int * 0x100000000int) by (nonlinear_arith)
        requires sq == m * m, m >= 0x100000000;
    assert(sq < 0x200000000int * 0x200000000int) by (nonlinear_arith)
        requires sq == m * m, 0 <= m < 0x200000000;
    assert(sq / 0x100000000 >= 0x100000000) by {
        lemma_div_is_ordered(0x100000000int * 0x100000000int, sq, 0x100000000);
        lemma_div_multiples_vanish(0x100000000, 0x100000000);
    }
    assert(sq / 0x100000000 < 0x400000000) by {
        lemma_multiply_divide_lt(sq, 0x100000000, 0x400000000);
    }
    if frac_step(m) >= 0x200000000 {
        lemma_div_is_ordered(0x200000000, frac_step(m), 2);
        lemma_multiply_divide_lt(frac_step(m), 2, 0x200000000);
    }
}

/// The packed fractional bits stay below `2^i`.
pub proof fn lemma_frac_bits_bound(m: int, i: nat)
    requires
        0x100000000 <= m < 0x200000000,
    ensures
        0 <= frac_bits(m, i) < pow2(i),
    decreases i,
{
    vstd::arithmetic::power2::lemma_pow2_pos(i);
    if i > 0 {
        lemma_frac_step_range(m);
        let m2 = frac_step(m);
        assert(pow2(i) == 2 * pow2((i - 1) as nat)) by {
            lemma_pow2_adds(1, (i - 1) as nat);
            lemma2_to64();
        }
        if m2 >= 0x200000000 {
            lemma_frac_bits_bound(m2 / 2, (i - 1) as nat);
        } else {
            lemma_frac_bits_bound(m2, (i - 1) as nat);
        }
    }
}

/// The fractional bits are monotone in the mantissa.
pub proof fn lemma_frac_bits_mono(m1: int, m2: int, i: nat)
    requires
        0x100000000 <= m1 <= m2 < 0x200000000,
    ensures
        frac_bits(m1, i) <= frac_bits(m2, i),
    decreases i,
{
    if i > 0 {
        lemma_frac_step_range(m1);
        lemma_frac_step_range(m2);
        let s1 = frac_step(m1);
        let s2 = frac_step(m2);
        assert(m1 * m1 <= m2 * m2) by (nonlinear_arith)
            requires 0 <= m1 <= m2;
        lemma_div_is_ordered(m1 * m1, m2 * m2, 0x100000000);
        if s1 >= 0x200000000 && s2 >= 0x200000000 {
            lemma_div_is_ordered(s1, s2, 2);
            lemma_frac_bits_mono(s1 / 2, s2 / 2, (i - 1) as nat);
        } else if s1 < 0x200000000 && s2 < 0x200000000 {
            lemma_frac_bits_mono(s1, s2, (i - 1) as nat);
        } else {
            // s1 below the carry threshold, s2 above: the leading bit decides.
            lemma_frac_bits_bound(s1, (i - 1) as nat);
            lemma_frac_bits_bound(s2 / 2, (i - 1) as nat);
        }
    }
}

/// Base-2 logarithm in Q16 fixed point: integer part exact, sixteen
/// fractional bits computed by repeated squaring (rounded down).
pub open spec fn log2_q16(x: int) -> int {
    log2_floor(x) * 65536 + frac_bits(mantissa_of(x), 16)
}

pub proof fn lemma_log2_q16_bounds(x: int)
    requires
        x >= 1,
    ensures
        0 <= log2_q16(x),
        log2_q16(x) < (log2_floor(x) + 1) * 65536,
{
    lemma_log2_floor_nonneg(x);
    lemma_mantissa_range(x);
    lemma_frac_bits_bound(mantissa_of(x), 16);
    assert(pow2(16) == 65536) by { lemma2_to64(); }
    let p = log2_floor(x);
    assert(p * 65536 >= 0) by (nonlinear_arith)
        requires p >= 0;
    assert(p * 65536 + 65536 == (p + 1) * 65536) by (nonlinear_arith);
}

/// The fixed-point logarithm is monotone.
pub proof fn lemma_log2_q16_mono(x1: int, x2: int)
    requires
        1 <= x1 <= x2,
    ensures
        log2_q16(x1) <= log2_q16(x2),
{
    let p1 = log2_floor(x1);
    let p2 = log2_floor(x2);
    lemma_log2_floor_mono(x1, x2);
    lemma_mantissa_range(x1);
    lemma_mantissa_range(x2);
    if p1 == p2 {
        lemma_mantissa_mono_same_band(x1, x2);
        lemma_frac_bits_mono(mantissa_of(x1), mantissa_of(x2), 16);
    } else {
        // p1 < p2: even a full fraction cannot bridge a whole integer step.
        lemma_log2_q16_bounds(x1);
        lemma_frac_bits_bound(mantissa_of(x2), 16);
        assert((p1 + 1) * 65536 <= p2 * 65536) by (nonlinear_arith)
            requires p1 + 1 <= p2;
        assert(p2 * 65536 <= log2_q16(x2)) by {
            lemma_frac_bits_bound(mantissa_of(x2), 16);
        }
    }
}

/// 2 to the power `e`, for exponents that fit a `u64`.
pub fn pow2_u64(e: u64) -> (r: u64)
    requires
        e <= 63,
    ensures
        r as int == pow2(e as nat),
        r >= 1,
{
    let mut r: u64 = 1;
    let mut i: u64 = 0;
    proof {
        lemma2_to64();
    }
    while i < e
        invariant
            i <= e <= 63,
            r as int == pow2(i as nat),
        decreases e - i,
    {
        proof {
            lemma_pow2_strictly_increases(i as nat, 63);
            lemma2_to64();
            lemma2_to64_rest();
            lemma_pow2_adds(1, i as nat);
        }
        r = r * 2;
        i = i + 1;
    }
    proof {
        vstd::arithmetic::power2::lemma_pow2_pos(e as nat);
    }
    r
}

/// Computes `log2_q16(x)`: the binary logarithm of `x` in Q16 fixed point.
pub fn log2_q16_exec(x: u64) -> (r: u64)
    requires
        x >= 1,
    ensures
        r as int == log2_q16(x as int),
        r <= 64 * 65536,
{
    // Integer part: strip powers of two.
    let mut v: u64 = x;
    let mut p: u64 = 0;
    proof {
        assert(pow2(0) == 1) by { lemma2_to64(); }
    }
    while v >= 2
        invariant
            x >= 1,
            p <= 63,
            v as int == x as int / pow2(p as nat) as int,
            v >= 1,
        decreases v,
    {
        proof {
            vstd::arithmetic::power2::lemma_pow2_pos(p as nat);
            lemma_div_denominator(x as int, pow2(p as nat) as int, 2);
            lemma_pow2_adds(p as nat, 1);
            lemma2_to64();
            // p + 1 stays within range because x fits in 64 bits
            lemma_fundamental_div_mod(x as int, pow2(p as nat) as int);
            assert(x as int >= 2 * pow2(p as nat)) by (nonlinear_arith)
                requires
                    x as int == pow2(p as nat) * (x as int / pow2(p as nat) as int) + x as int
                        % pow2(p as nat) as int,
                    x as int % pow2(p as nat) as int >= 0,
                    x as int / pow2(p as nat) as int >= 2,
                    pow2(p as nat) >= 1;
            if p >= 63 {
                lemma_pow2_adds(1, 63);
                lemma2_to64();
                assert(false);
            }
        }
        v = v / 2;
        p = p + 1;
    }
    proof {
        vstd::arithmetic::power2::lemma_pow2_pos(p as nat);
        lemma_fundamental_div_mod(x as int, pow2(p as nat) as int);
        assert(pow2(p as nat) <= x as int && (x as int) < pow2((p + 1) as nat)) by {
            lemma_pow2_adds(p as nat, 1);
            lemma2_to64();
            assert(x as int == pow2(p as nat) * 1 + x as int % pow2(p as nat) as int);
            assert((x as int % pow2(p as nat) as int) < pow2(p as nat)) by {
                vstd::arithmetic::div_mod::lemma_mod_bound(x as int, pow2(p as nat) as int);
            }
        }
        lemma_log2_floor_from_bounds(x as int, p as nat);
    }

    // Normalized mantissa in [2^32, 2^33).
    let m: u64 = if p >= 32 {
        let d = pow2_u64(p - 32);
        x / d
    } else {
        let f = pow2_u64(32 - p);
        proof {
            lemma_mantissa_range(x as int);
        }
        x * f
    };
    proof {
        lemma_mantissa_range(x as int);
        assert(m as int == mantissa_of(x as int));
    }

    // Sixteen fractional bits by repeated squaring.
    let ghost m0 = m as int;
    let mut mm: u64 = m;
    let mut fracb: u64 = 0;
    let mut i: u64 = 0;
    proof {
        assert(pow2(16) == 65536) by { lemma2_to64(); }
    }
    while i < 16
        invariant
            i <= 16,
            0x100000000 <= mm < 0x200000000,
            0x100000000 <= m0 < 0x200000000,
            0 <= fracb < pow2(i as nat),
            frac_bits(m0, 16) == fracb * pow2((16 - i) as nat) + frac_bits(
                mm as int,
                (16 - i) as nat,
            ),
        decreases 16 - i,
    {
        proof {
            assert((mm as int) * (mm as int) < 0x40000000000000000) by (nonlinear_arith)
                requires 0 <= (mm as int) < 0x200000000;
        }
        let sq: u128 = (mm as u128) * (mm as u128);
        proof {
            lemma_frac_step_range(mm as int);
            assert(sq as int == mm as int * mm as int);
        }
        let m2: u64 = (sq / 0x100000000u128) as u64;
        proof {
            assert(m2 as int == frac_step(mm as int));
            lemma_frac_bits_bound(mm as int, (16 - i) as nat);
            // unfold one step of the packed-bit identity
            let k = (16 - i) as nat;
            assert(pow2(k) == 2 * pow2((k - 1) as nat)) by {
                lemma_pow2_adds(1, (k - 1) as nat);
                lemma2_to64();
            }
            if m2 >= 0x200000000 {
                assert(frac_bits(mm as int, k) == pow2((k - 1) as nat) + frac_bits(
                    m2 as int / 2,
                    (k - 1) as nat,
                ));
                assert(fracb * pow2(k) + pow2((k - 1) as nat) == (2 * fracb + 1) * pow2(
                    (k - 1) as nat,
                )) by (nonlinear_arith)
                    requires pow2(k) == 2 * pow2((k - 1) as nat);
            } else {
                assert(fracb * pow2(k) == (2 * fracb) * pow2((k - 1) as nat)) by (nonlinear_arith)
                    requires pow2(k) == 2 * pow2((k - 1) as nat);
            }
            lemma_pow2_strictly_increases(i as nat, 16);
            lemma2_to64();
        }
        if m2 >= 0x200000000 {
            fracb = fracb * 2 + 1;
            mm = m2 / 2;
        } else {
            fracb = fracb * 2;
            mm = m2;
        }
        i = i + 1;
        proof {
            assert(pow2(((16 - i) + 1) as nat) == 2 * pow2((16 - i) as nat)) by {
                lemma_pow2_adds(1, (16 - i) as nat);
                lemma2_to64();
            }
        }
    }
    proof {
        assert(frac_bits(mm as int, 0) == 0);
        assert(fracb * pow2(0) == fracb) by {
            lemma2_to64();
        }
        assert(fracb < 65536) by {
            lemma2_to64();
        }
    }
    p * 65536 + fracb
}

/// Floor of the square root, by the classical base-4 recurrence.
pub open spec fn sqrt_floor(x: int) -> int
    decreases x,
{
    if x <= 0 {
        0
    } else {
        let r = 2 * sqrt_floor(x / 4);
        if (r + 1) * (r + 1) <= x {
            r + 1
        } else {
            r
        }
    }
}

/// `sqrt_floor` really is the floor of the square root.
pub proof fn lemma_sqrt_floor_correct(x: int)
    requires
        x >= 0,
    ensures
        sqrt_floor(x) >= 0,
        sqrt_floor(x) * sqrt_floor(x) <= x,
        (sqrt_floor(x) + 1) * (sqrt_floor(x) + 1) > x,
    decreases x,
{
    if x > 0 {
        lemma_div_pos_is_pos(x, 4);
        assert(x / 4 < x) by {
            vstd::arithmetic::div_mod::lemma_div_is_strictly_smaller(x, 4);
        }
        lemma_sqrt_floor_correct(x / 4);
        let s = sqrt_floor(x / 4);
        let r = 2 * s;
        lemma_fundamental_div_mod(x, 4);
        assert(r * r <= x) by (nonlinear_arith)
            requires
                s * s <= x / 4,
                r == 2 * s,
                x == 4 * (x / 4) + x % 4,
                x % 4 >= 0;
        assert((r + 2) * (r + 2) > x) by (nonlinear_arith)
            requires
                (s + 1) * (s + 1) > x / 4,
                r == 2 * s,
                x == 4 * (x / 4) + x % 4,
                x % 4 < 4;
    }
}

/// Computes the floor of the square root of `x`.
pub fn isqrt_u64(x: u64) -> (r: u64)
    ensures
        r as int == sqrt_floor(x as int),
        r * r <= x,
    decreases x,
{
    if x == 0 {
        0
    } else {
        proof {
            vstd::arithmetic::div_mod::lemma_div_pos_is_pos(x as int, 4);
            lemma_sqrt_floor_correct(x as int / 4);
            // the root of a 62-bit quarter fits in 31 bits
            assert(sqrt_floor(x as int / 4) < 0x80000000) by (nonlinear_arith)
                requires
                    sqrt_floor(x as int / 4) >= 0,
                    sqrt_floor(x as int / 4) * sqrt_floor(x as int / 4) <= x as int / 4,
                    x as int / 4 < 0x4000000000000000;
        }
        let s = isqrt_u64(x / 4);
        let r = 2 * s;
        proof {
            assert((r as int + 1) * (r as int + 1) <= 0x100000000int * 0x100000000int)
                by (nonlinear_arith)
                requires 0 <= (r as int) + 1 <= 0x100000000;
        }
        let cand = (r as u128 + 1) * (r as u128 + 1);
        if cand <= x as u128 {
            r + 1
        } else {
            proof {
                assert(r as int * r as int <= x as int) by (nonlinear_arith)
                    requires
                        sqrt_floor(x as int / 4) * sqrt_floor(x as int / 4) <= x as int / 4,
                        r as int == 2 * sqrt_floor(x as int / 4),
                        x as int >= 4 * (x as int / 4),
                    ;
                lemma_fundamental_div_mod(x as int, 4);
                vstd::arithmetic::div_mod::lemma_mod_bound(x as int, 4);
            }
            r
        }
    }
}

} // verus!
