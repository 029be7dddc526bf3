//! Fixed-point arithmetic primitives.
//!
//! All engine quantities are integers holding thousandths of a unit
//! ("milli" values): coordinates, zoom factors, eased intensities.  This
//! module provides the shared primitives: clamping, a flooring
//! multiply-then-divide, an integer square root, and the two waveforms the
//! renderer uses (a quadratic sine approximation and the smoothstep easing
//! curve).

use vstd::prelude::*;
use vstd::arithmetic::div_mod::{lemma_fundamental_div_mod, lemma_fundamental_div_mod_converse};

verus! {

/// Fixed-point scale: one unit is `MILLI` fixed-point steps.
pub const MILLI: i64 = 1000;

/// `v` pulled into the interval `[lo, hi]`.
pub open spec fn spec_clamp(v: int, lo: int, hi: int) -> int {
    if v < lo {
        lo
    } else if v > hi {
        hi
    } else {
        v
    }
}

/// Clamp `v` to `[lo, hi]`.
pub fn clamp64(v: i64, lo: i64, hi: i64) -> (r: i64)
    requires
        lo <= hi,
    ensures
        r == spec_clamp(v as int, lo as int, hi as int),
{
    if v < lo {
        lo
    } else if v > hi {
        hi
    } else {
        v
    }
}

/// Magnitude of `v` as an unsigned value (total, also at `i64::MIN`).
pub fn abs_u64(v: i64) -> (r: u64)
    ensures
        r == if v >= 0 { v as int } else { -(v as int) },
{
    if v >= 0 {
        v as u64
    } else if v == i64::MIN {
        0x8000_0000_0000_0000u64
    } else {
        (-v) as u64
    }
}

/// The product of two signed factors equals the signed product of their
/// magnitudes, and that product of magnitudes stays below `2^127`.
proof fn lemma_abs_mul(a: int, b: int, ua: int, ub: int)
    by (nonlinear_arith)
    requires
        ua == if a >= 0 { a } else { -a },
        ub == if b >= 0 { b } else { -b },
        ua <= 0x8000_0000_0000_0000,
        ub <= 0x8000_0000_0000_0000,
    ensures
        0 <= ua * ub <= 0x4000_0000_0000_0000_0000_0000_0000_0000,
        (a < 0) != (b < 0) ==> a * b == -(ua * ub),
        !((a < 0) != (b < 0)) ==> a * b == ua * ub,
{
}

/// Flooring quotient of a negated dividend: for `m == q * d + rem` with
/// `0 <= rem < d`, `(-m) / d` is `-q` when the division is exact and
/// `-q - 1` otherwise.
proof fn lemma_neg_div(m: int, d: int, q: int, rem: int)
    requires
        d > 0,
        0 <= rem < d,
        m == q * d + rem,
        q >= 0,
    ensures
        (-m) / d == if rem == 0 { -q } else { -q - 1 },
{
    if rem == 0 {
        assert(-m == (-q) * d + 0) by (nonlinear_arith)
            requires
                m == q * d + rem,
                rem == 0,
        ;
        lemma_fundamental_div_mod_converse(-m, d, -q, 0);
    } else {
        assert(-m == (-q - 1) * d + (d - rem)) by (nonlinear_arith)
            requires
                m == q * d + rem,
        ;
        lemma_fundamental_div_mod_converse(-m, d, -q - 1, d - rem);
    }
}

/// `a * b / d` with flooring division (the spec-level `/` on `int`).
///
/// The operand bound keeps the whole computation within range: with both
/// factors at most three billion in magnitude the product stays within a
/// signed 64-bit quotient for any positive divisor.
pub fn mul_div(a: i64, b: i64, d: i64) -> (r: i64)
    requires
        d > 0,
        (spec_abs(a as int) <= 3_000_000_000 && spec_abs(b as int) <= 3_000_000_000) || (
        spec_abs(a as int) <= 400_000_000_000_000 && spec_abs(b as int) <= 20_000),
    ensures
        r == a as int * b as int / d as int,
        spec_abs(r as int) <= 9_000_000_000_000_000_000,
{
    let neg: bool = (a < 0) != (b < 0);
    let ua: u64 = abs_u64(a);
    let ub: u64 = abs_u64(b);
    proof {
        lemma_abs_mul(a as int, b as int, ua as int, ub as int);
        assert((ua as int <= 3_000_000_000 && ub as int <= 3_000_000_000)
            ==> ua as int * ub as int <= 9_000_000_000_000_000_000) by (nonlinear_arith);
        assert((ua as int <= 400_000_000_000_000 && ub as int <= 20_000)
            ==> ua as int * ub as int <= 9_000_000_000_000_000_000) by (nonlinear_arith)
            requires
                ua as int >= 0,
                ub as int >= 0,
        ;
    }
    let m: u128 = (ua as u128) * (ub as u128);
    let du: u128 = d as u128;
    let q: u128 = m / du;
    let rem: u128 = m % du;
    proof {
        lemma_fundamental_div_mod(m as int, d as int);
        vstd::arithmetic::div_mod::lemma_div_nonincreasing(m as int, d as int);
        assert(d as int * (q as int) == q as int * (d as int)) by (nonlinear_arith);
        if neg {
            lemma_neg_div(m as int, d as int, q as int, rem as int);
            if rem != 0 {
                assert(q + 1 <= m) by (nonlinear_arith)
                    requires
                        m == q * d + rem,
                        d >= 2,
                        1 <= rem < d,
                        q >= 0,
                ;
            }
        }
    }
    if !neg {
        q as i64
    } else if rem == 0 {
        -(q as i64)
    } else {
        -(q as i64) - 1
    }
}

/// `a * b / 1000` for a milli factor `b`: never more than `a`.
pub fn frac_mul(a: i64, b: i64) -> (r: i64)
    requires
        0 <= a <= 3_000_000_000,
        0 <= b <= 1000,
    ensures
        r == a as int * b as int / 1000,
        0 <= r <= a,
{
    proof {
        assert(0 <= a * b <= a * 1000) by (nonlinear_arith)
            requires
                0 <= a,
                0 <= b <= 1000,
        ;
        vstd::arithmetic::div_mod::lemma_div_is_ordered(0, a as int * b as int, 1000);
        vstd::arithmetic::div_mod::lemma_div_is_ordered(a as int * b as int, a as int * 1000, 1000);
        assert(a as int * 1000 == 1000 * (a as int)) by (nonlinear_arith);
        vstd::arithmetic::div_mod::lemma_div_multiples_vanish(a as int, 1000);
    }
    mul_div(a, b, 1000)
}

/// `a * b / 1000` for a factor of up to ten units: never more than ten
/// times `a`.
pub fn frac_mul_up(a: i64, b: i64) -> (r: i64)
    requires
        0 <= a <= 3_000_000_000,
        0 <= b <= 10_000,
    ensures
        r == a as int * b as int / 1000,
        0 <= r <= 10 * a,
{
    proof {
        assert(0 <= a * b <= (10 * a) * 1000) by (nonlinear_arith)
            requires
                0 <= a,
                0 <= b <= 10_000,
        ;
        vstd::arithmetic::div_mod::lemma_div_is_ordered(0, a as int * b as int, 1000);
        vstd::arithmetic::div_mod::lemma_div_is_ordered(
            a as int * b as int,
            (10 * a as int) * 1000,
            1000,
        );
        assert((10 * a as int) * 1000 == 1000 * (10 * a as int)) by (nonlinear_arith);
        vstd::arithmetic::div_mod::lemma_div_multiples_vanish(10 * a as int, 1000);
    }
    mul_div(a, b, 1000)
}

/// `a + (b - a) * t / 1000`: the fixed-point interpolation between `a`
/// and `b`, which always lands between them.
pub fn lerp_milli(a: i64, b: i64, t: i64) -> (r: i64)
    requires
        0 <= t <= 1000,
        spec_abs(a as int) <= 1_000_000_000,
        spec_abs(b as int) <= 1_000_000_000,
    ensures
        r == a + (b - a) * t / 1000,
        a <= b ==> a <= r <= b,
        b <= a ==> b <= r <= a,
{
    let d: i64 = b - a;
    proof {
        if d >= 0 {
            assert(0 <= d * t <= d * 1000) by (nonlinear_arith)
                requires
                    0 <= t <= 1000,
                    d >= 0,
            ;
            vstd::arithmetic::div_mod::lemma_div_is_ordered(0, d as int * t as int, 1000);
            vstd::arithmetic::div_mod::lemma_div_is_ordered(
                d as int * t as int,
                d as int * 1000,
                1000,
            );
            assert(d as int * 1000 == 1000 * d as int) by (nonlinear_arith);
            vstd::arithmetic::div_mod::lemma_div_multiples_vanish(d as int, 1000);
        } else {
            assert(d * 1000 <= d * t <= 0) by (nonlinear_arith)
                requires
                    0 <= t <= 1000,
                    d < 0,
            ;
            vstd::arithmetic::div_mod::lemma_div_is_ordered(d as int * t as int, 0, 1000);
            vstd::arithmetic::div_mod::lemma_div_is_ordered(
                d as int * 1000,
                d as int * t as int,
                1000,
            );
            assert(d as int * 1000 == 1000 * d as int) by (nonlinear_arith);
            vstd::arithmetic::div_mod::lemma_div_multiples_vanish(d as int, 1000);
        }
    }
    a + mul_div(d, t, 1000)
}

/// `a * b / d`, clamped to `[-lim, lim]`.
///
/// Unlike [`mul_div`] this never demands anything of the product's size:
/// the clamp is applied before narrowing back to 64 bits.
pub fn mul_div_clamp(a: i64, b: i64, d: i64, lim: i64) -> (r: i64)
    requires
        d > 0,
        lim >= 0,
    ensures
        r == spec_clamp(a as int * b as int / d as int, -(lim as int), lim as int),
{
    let neg: bool = (a < 0) != (b < 0);
    let ua: u64 = abs_u64(a);
    let ub: u64 = abs_u64(b);
    proof {
        lemma_abs_mul(a as int, b as int, ua as int, ub as int);
    }
    let m: u128 = (ua as u128) * (ub as u128);
    let du: u128 = d as u128;
    let q: u128 = m / du;
    let rem: u128 = m % du;
    proof {
        lemma_fundamental_div_mod(m as int, d as int);
        if neg {
            lemma_neg_div(m as int, d as int, q as int, rem as int);
        }
    }
    if !neg {
        if q > lim as u128 {
            lim
        } else {
            q as i64
        }
    } else if q >= lim as u128 {
        -lim
    } else if rem == 0 {
        -(q as i64)
    } else {
        -(q as i64) - 1
    }
}

/// Magnitude of `v`.
pub open spec fn spec_abs(v: int) -> int {
    if v >= 0 {
        v
    } else {
        -v
    }
}

/// The integer square root: the largest `r` with `r * r <= n`.
pub open spec fn spec_isqrt(n: nat) -> nat
    decreases n,
{
    if n == 0 {
        0
    } else {
        let r = spec_isqrt((n - 1) as nat);
        if (r + 1) * (r + 1) <= n {
            r + 1
        } else {
            r
        }
    }
}

/// `spec_isqrt(n)` brackets `n` between consecutive squares.
pub proof fn lemma_isqrt_bounds(n: nat)
    ensures
        spec_isqrt(n) * spec_isqrt(n) <= n,
        n < (spec_isqrt(n) + 1) * (spec_isqrt(n) + 1),
    decreases n,
{
    let s = spec_isqrt(n);
    if n == 0 {
        assert(s * s <= n && n < (s + 1) * (s + 1)) by (nonlinear_arith)
            requires
                s == 0,
                n == 0,
        ;
    } else {
        lemma_isqrt_bounds((n - 1) as nat);
        let r = spec_isqrt((n - 1) as nat);
        if (r + 1) * (r + 1) <= n {
            assert(s * s <= n && n < (s + 1) * (s + 1)) by (nonlinear_arith)
                requires
                    s == r + 1,
                    (r + 1) * (r + 1) <= n,
                    n - 1 < (r + 1) * (r + 1),
            ;
        } else {
            assert(s * s <= n && n < (s + 1) * (s + 1)) by (nonlinear_arith)
                requires
                    s == r,
                    r * r <= n - 1,
                    n < (r + 1) * (r + 1),
            ;
        }
    }
}

/// Any `r` bracketing `n` between consecutive squares is the integer
/// square root.
pub proof fn lemma_isqrt_unique(n: nat, r: nat)
    requires
        r * r <= n,
        n < (r + 1) * (r + 1),
    ensures
        r == spec_isqrt(n),
{
    lemma_isqrt_bounds(n);
    let s = spec_isqrt(n);
    assert(r == s) by (nonlinear_arith)
        requires
            r * r <= n < (r + 1) * (r + 1),
            s * s <= n < (s + 1) * (s + 1),
    ;
}

/// Integer square root by bisection.
pub fn isqrt(n: u64) -> (r: u64)
    ensures
        r == spec_isqrt(n as nat),
        r * r <= n < (r + 1) * (r + 1),
        r < 0x1_0000_0000,
{
    let mut lo: u64 = 0;
    let mut hi: u64 = 0x1_0000_0000;
    while lo + 1 < hi
        invariant
            lo < hi <= 0x1_0000_0000,
            lo as int * lo as int <= n as int,
            (n as int) < hi as int * hi as int,
        decreases hi - lo,
    {
        let mid: u64 = lo + (hi - lo) / 2;
        proof {
            assert(mid as int * mid as int <= 0xffff_ffff_0000_0001) by (nonlinear_arith)
                requires
                    mid < 0x1_0000_0000,
            ;
        }
        if mid * mid <= n {
            lo = mid;
        } else {
            hi = mid;
        }
    }
    proof {
        lemma_isqrt_unique(n as nat, lo as nat);
    }
    lo
}

/// One period of the sine-like pulse wave, in milli units on milli-turn
/// phases: each half-period is the parabola through its zero crossings
/// with peak height one unit.
pub open spec fn spec_sin_wave(ph: int) -> int {
    if ph < 500 {
        16 * ph * (500 - ph) / 1000
    } else {
        -(16 * (ph - 500) * (1000 - ph) / 1000)
    }
}

/// Sample the pulse wave at time `t` (in milli-turns; wraps each turn).
pub fn sin_wave(t: i64) -> (r: i64)
    requires
        t >= 0,
    ensures
        r == spec_sin_wave(t as int % 1000),
        -1000 <= r <= 1000,
{
    let ph: u64 = (t as u64) % 1000;
    proof {
        assert(ph < 500 ==> 0 <= 16 * ph * (500 - ph) <= 1_000_000) by (nonlinear_arith)
            requires
                0 <= ph < 1000,
        ;
        assert(ph >= 500 ==> 0 <= 16 * (ph - 500) * (1000 - ph) <= 1_000_000)
            by (nonlinear_arith)
            requires
                0 <= ph < 1000,
        ;
    }
    if ph < 500 {
        (16 * ph * (500 - ph) / 1000) as i64
    } else {
        -((16 * (ph - 500) * (1000 - ph) / 1000) as i64)
    }
}

/// The smoothstep easing curve `3 t^2 - 2 t^3` on milli inputs.
pub open spec fn spec_smooth(t: int) -> int {
    t * t * (3000 - 2 * t) / 1_000_000
}

/// Evaluate the smoothstep curve; soft near both ends of `[0, 1000]`.
pub fn smooth_step(t: i64) -> (r: i64)
    requires
        0 <= t <= 1000,
    ensures
        r == spec_smooth(t as int),
        0 <= r <= 1000,
{
    let tu: u64 = t as u64;
    proof {
        assert(tu * tu <= 1_000_000 && 0 <= tu * tu * (3000 - 2 * tu) <= 1_000_000_000)
            by (nonlinear_arith)
            requires
                0 <= tu <= 1000,
        ;
    }
    (tu * tu * (3000 - 2 * tu) / 1_000_000) as i64
}

} // verus!
