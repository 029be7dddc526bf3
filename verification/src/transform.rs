//! The view transform: pan offset and uniform zoom.
//!
//! World coordinates map to screen coordinates as
//! `screen = world * k / 1000 + t` per axis, with the zoom factor `k` in
//! milli units clamped to `[K_MIN, K_MAX]`.  Wheel zoom recomputes the
//! translation so the world point under the pointer stays put on screen,
//! up to fixed-point rounding of at most [`ZOOM_EPS`] milli units.

use vstd::prelude::*;
use vstd::arithmetic::div_mod::{
    lemma_fundamental_div_mod,
    lemma_div_is_ordered,
    lemma_div_multiples_vanish,
};
use crate::fixed::{spec_clamp, spec_abs, clamp64, mul_div};

verus! {

/// Smallest zoom factor, milli units (0.1x).
pub const K_MIN: i64 = 100;

/// Largest zoom factor, milli units (10x).
pub const K_MAX: i64 = 10_000;

/// Translations stay within this many milli units.
pub const TRANSLATE_LIMIT: i64 = 1_000_000_000_000;

/// Screen coordinates handed to the transform stay within this many
/// milli units.
pub const SCREEN_LIMIT: i64 = 10_000_000_000_000;

/// How far, in milli world units, a wheel zoom may move the world point
/// under the pointer.
pub const ZOOM_EPS: i64 = 11;

/// Pan offset and uniform scale.
pub struct ViewTransform {
    /// Screen-space translation, milli units.
    pub x: i64,
    pub y: i64,
    /// Zoom factor, milli units.
    pub k: i64,
}

/// One world axis mapped to the screen.
pub open spec fn spec_w2s(w: int, k: int, t: int) -> int {
    w * k / 1000 + t
}

/// One screen axis mapped back to the world.
pub open spec fn spec_s2w(s: int, k: int, t: int) -> int {
    (s - t) * 1000 / k
}

/// The zoom factor after one wheel step: a tenth in or out,
/// multiplicative, clamped.
pub open spec fn spec_zoom_k(k: int, zoom_out: bool) -> int {
    if zoom_out {
        spec_clamp(k * 900 / 1000, K_MIN as int, K_MAX as int)
    } else {
        spec_clamp(k * 1100 / 1000, K_MIN as int, K_MAX as int)
    }
}

/// The translation after a wheel step at pointer position `p`: the
/// anchor-point update `p - (p - t) * k2 / k`, clamped to range.
pub open spec fn spec_zoom_t(t: int, p: int, k: int, k2: int) -> int {
    spec_clamp(p - (p - t) * k2 / k, -(TRANSLATE_LIMIT as int), TRANSLATE_LIMIT as int)
}

impl ViewTransform {
    /// Zoom in range, translation in range.
    pub open spec fn wf(&self) -> bool {
        &&& K_MIN <= self.k <= K_MAX
        &&& -TRANSLATE_LIMIT <= self.x <= TRANSLATE_LIMIT
        &&& -TRANSLATE_LIMIT <= self.y <= TRANSLATE_LIMIT
    }

    /// The identity view: no pan, unit zoom.
    pub fn identity() -> (t: ViewTransform)
        ensures
            t.wf(),
            t.x == 0 && t.y == 0 && t.k == 1000,
    {
        ViewTransform { x: 0, y: 0, k: 1000 }
    }

    /// Map a world point to the screen.
    pub fn to_screen(&self, wx: i64, wy: i64) -> (s: (i64, i64))
        requires
            self.wf(),
            spec_abs(wx as int) <= crate::graph::POS_LIMIT as int,
            spec_abs(wy as int) <= crate::graph::POS_LIMIT as int,
        ensures
            s.0 == spec_w2s(wx as int, self.k as int, self.x as int),
            s.1 == spec_w2s(wy as int, self.k as int, self.y as int),
            spec_abs(s.0 as int) <= 11_000_000_000_000,
            spec_abs(s.1 as int) <= 11_000_000_000_000,
    {
        let sx = mul_div(wx, self.k, 1000);
        let sy = mul_div(wy, self.k, 1000);
        proof {
            lemma_mul_div_ratio_bound(wx as int, self.k as int, 1000, 1_000_000_000, 10);
            lemma_mul_div_ratio_bound(wy as int, self.k as int, 1000, 1_000_000_000, 10);
        }
        (sx + self.x, sy + self.y)
    }

    /// Map a screen point to the world.
    pub fn to_world(&self, sx: i64, sy: i64) -> (w: (i64, i64))
        requires
            self.wf(),
            spec_abs(sx as int) <= SCREEN_LIMIT as int,
            spec_abs(sy as int) <= SCREEN_LIMIT as int,
        ensures
            w.0 == spec_s2w(sx as int, self.k as int, self.x as int),
            w.1 == spec_s2w(sy as int, self.k as int, self.y as int),
            spec_abs(w.0 as int) <= 110_000_000_000_000,
            spec_abs(w.1 as int) <= 110_000_000_000_000,
    {
        let cx = sx - self.x;
        let cy = sy - self.y;
        proof {
            lemma_mul_div_ratio_bound(cx as int, 1000, self.k as int, 11_000_000_000_000, 10);
            lemma_mul_div_ratio_bound(cy as int, 1000, self.k as int, 11_000_000_000_000, 10);
        }
        (mul_div(cx, 1000, self.k), mul_div(cy, 1000, self.k))
    }

    /// Apply one wheel step at screen point `(px, py)`: scale the zoom by
    /// a tenth (out for positive `delta_y`, in otherwise) and move the
    /// translation so the world point under the pointer stays fixed.
    pub fn zoom_at(&mut self, px: i64, py: i64, delta_y: i64)
        requires
            old(self).wf(),
            spec_abs(px as int) <= SCREEN_LIMIT as int,
            spec_abs(py as int) <= SCREEN_LIMIT as int,
        ensures
            final(self).wf(),
            final(self).k == spec_zoom_k(old(self).k as int, delta_y > 0),
            final(self).x == spec_zoom_t(
                old(self).x as int,
                px as int,
                old(self).k as int,
                final(self).k as int,
            ),
            final(self).y == spec_zoom_t(
                old(self).y as int,
                py as int,
                old(self).k as int,
                final(self).k as int,
            ),
    {
        let factor: i64 = if delta_y > 0 {
            900
        } else {
            1100
        };
        let k2 = clamp64(mul_div(self.k, factor, 1000), K_MIN, K_MAX);
        let cx = px - self.x;
        let cy = py - self.y;
        proof {
            lemma_mul_div_ratio_bound(cx as int, k2 as int, self.k as int, 11_000_000_000_000, 100);
            lemma_mul_div_ratio_bound(cy as int, k2 as int, self.k as int, 11_000_000_000_000, 100);
        }
        let mx = mul_div(cx, k2, self.k);
        let my = mul_div(cy, k2, self.k);
        self.x = clamp64(px - mx, -TRANSLATE_LIMIT, TRANSLATE_LIMIT);
        self.y = clamp64(py - my, -TRANSLATE_LIMIT, TRANSLATE_LIMIT);
        self.k = k2;
    }
}

/// `|a * b / d|` is at most `lim` when `|a| <= lim` and `0 <= b <= d`.
pub(crate) proof fn lemma_mul_div_bound(a: int, b: int, d: int, lim: int)
    requires
        0 < d,
        0 <= b <= d,
        0 <= lim,
        spec_abs(a) <= lim,
    ensures
        -lim <= a * b / d <= lim,
{
    if b == 0 {
        assert(a * b == 0) by (nonlinear_arith)
            requires
                b == 0,
        ;
        vstd::arithmetic::div_mod::lemma_div_of0(d);
    } else if a >= 0 {
        assert(0 <= a * b <= lim * d) by (nonlinear_arith)
            requires
                0 <= a <= lim,
                0 < b <= d,
        ;
        lemma_div_is_ordered(0, a * b, d);
        lemma_div_is_ordered(a * b, lim * d, d);
        assert(lim * d == d * lim) by (nonlinear_arith);
        lemma_div_multiples_vanish(lim, d);
    } else {
        assert(-(lim * d) <= a * b <= 0) by (nonlinear_arith)
            requires
                -lim <= a < 0,
                0 < b <= d,
        ;
        lemma_div_is_ordered(a * b, 0, d);
        lemma_div_is_ordered(-(lim * d), a * b, d);
        assert(-(lim * d) == d * (-lim)) by (nonlinear_arith);
        lemma_div_multiples_vanish(-lim, d);
    }
}

/// `|a * b / d|` is at most `ratio * |a|` when `b <= ratio * d`, hence at
/// most `ratio * lim` for `|a| <= lim`.
pub(crate) proof fn lemma_mul_div_ratio_bound(a: int, b: int, d: int, lim: int, ratio: int)
    requires
        0 < d,
        0 <= b <= ratio * d,
        0 <= lim,
        0 < ratio,
        spec_abs(a) <= lim,
    ensures
        -(ratio * lim) <= a * b / d <= ratio * lim,
        0 <= a ==> 0 <= a * b / d,
{
    if b == 0 {
        assert(a * b == 0 && ratio * lim >= 0) by (nonlinear_arith)
            requires
                b == 0,
                ratio > 0,
                lim >= 0,
        ;
        vstd::arithmetic::div_mod::lemma_div_of0(d);
    } else if a >= 0 {
        assert(0 <= a * b <= (ratio * lim) * d) by (nonlinear_arith)
            requires
                0 <= a <= lim,
                0 < b <= ratio * d,
                0 < ratio,
                0 < d,
        ;
        lemma_div_is_ordered(0, a * b, d);
        lemma_div_is_ordered(a * b, (ratio * lim) * d, d);
        assert((ratio * lim) * d == d * (ratio * lim)) by (nonlinear_arith);
        lemma_div_multiples_vanish(ratio * lim, d);
    } else {
        assert(-((ratio * lim) * d) <= a * b <= 0) by (nonlinear_arith)
            requires
                -lim <= a < 0,
                0 < b <= ratio * d,
                0 < ratio,
                0 < d,
        ;
        lemma_div_is_ordered(a * b, 0, d);
        lemma_div_is_ordered(-((ratio * lim) * d), a * b, d);
        assert(-((ratio * lim) * d) == d * (-(ratio * lim))) by (nonlinear_arith);
        lemma_div_multiples_vanish(-(ratio * lim), d);
    }
}

/// Rescaling a value through an intermediate fixed-point stage loses at
/// most one part in `p`, never gaining: the exact rescale `n * c / q`
/// exceeds the staged rescale `n * (c * p / q) / p` by between 0 and
/// `n / p + 1`.
pub proof fn lemma_rescale_error(c: int, p: int, q: int, n: int)
    requires
        1 <= p,
        1 <= q,
        1 <= n,
    ensures
        0 <= n * c / q - n * (c * p / q) / p,
        n * c / q - n * (c * p / q) / p <= n / p + 1,
{
    let x = c * p / q;
    let w2 = n * x / p;
    let w1 = n * c / q;
    lemma_fundamental_div_mod(c * p, q);
    lemma_fundamental_div_mod(n * x, p);
    lemma_fundamental_div_mod(n * c, q);
    let r1 = (c * p) % q;
    let r2 = (n * x) % p;
    let r3 = (n * c) % q;
    assert(q * p * (w1 - w2) == q * r2 + n * r1 - p * r3) by (nonlinear_arith)
        requires
            c * p == q * x + r1,
            n * x == p * w2 + r2,
            n * c == q * w1 + r3,
    ;
    // Lower bound: the right-hand side is above -q*p.
    assert(w1 - w2 >= 0) by (nonlinear_arith)
        requires
            q * p * (w1 - w2) == q * r2 + n * r1 - p * r3,
            0 <= r1,
            0 <= r2,
            r3 < q,
            1 <= p,
            1 <= q,
            1 <= n,
    ;
    // Upper bound: the right-hand side is below q*(p + n).
    assert(p * (w1 - w2) < p + n) by (nonlinear_arith)
        requires
            q * p * (w1 - w2) == q * r2 + n * r1 - p * r3,
            r2 < p,
            r1 < q,
            0 <= r3,
            1 <= p,
            1 <= q,
            1 <= n,
    ;
    lemma_fundamental_div_mod(n, p);
    assert(w1 - w2 <= n / p + 1) by (nonlinear_arith)
        requires
            p * (w1 - w2) < p + n,
            1 <= p,
            1 <= n,
            p * (n / p) + n % p == n,
            0 <= n % p < p,
    ;
}

/// After a wheel zoom at screen point `p`, the world point under `p`
/// moves by less than [`ZOOM_EPS`] milli units, and never away from the
/// origin side it was on: the zoom is a fixpoint of the pointer position
/// up to fixed-point rounding.
pub proof fn lemma_zoom_point_fixed(t: ViewTransform, px: int, delta_y_pos: bool)
    requires
        t.wf(),
        spec_abs(px) <= 10_000_000_000,
        spec_abs(t.x as int) <= 10_000_000_000,
    ensures
        ({
            let k2 = spec_zoom_k(t.k as int, delta_y_pos);
            let x2 = spec_zoom_t(t.x as int, px, t.k as int, k2);
            let before = spec_s2w(px, t.k as int, t.x as int);
            let after = spec_s2w(px, k2, x2);
            0 <= before - after <= ZOOM_EPS
        }),
{
    let k = t.k as int;
    let k2 = spec_zoom_k(k, delta_y_pos);
    let c = px - t.x;
    // The new zoom factor stays in range and within a small ratio of the
    // old one.
    assert(K_MIN <= k2 <= K_MAX);
    assert(k * 900 / 1000 <= k && k * 1100 / 1000 <= 2 * k) by (nonlinear_arith)
        requires
            100 <= k <= 10_000,
            k * 1000 == 1000 * k,
    ;
    assert(k2 <= 2 * k);
    // The translation update does not hit its clamp.
    lemma_mul_div_ratio_bound(c, k2, k, 20_000_000_000, 2);
    let x2 = spec_zoom_t(t.x as int, px, k, k2);
    assert(x2 == px - c * k2 / k);
    // The rescale error bound with the unclamped translation.
    lemma_rescale_error(c, k2, k, 1000);
    assert(spec_s2w(px, k, t.x as int) == 1000 * c / k) by {
        assert((px - t.x) * 1000 == 1000 * c) by (nonlinear_arith)
            requires
                c == px - t.x,
        ;
    }
    assert(spec_s2w(px, k2, x2) == 1000 * (c * k2 / k) / k2) by {
        assert((px - x2) * 1000 == 1000 * (c * k2 / k)) by (nonlinear_arith)
            requires
                x2 == px - c * k2 / k,
        ;
    }
    assert(1000int / k2 + 1 <= ZOOM_EPS) by {
        lemma_div_is_ordered_wrap(k2);
    }
}

/// `1000 / k` is at most 10 for `k >= 100`.
proof fn lemma_div_is_ordered_wrap(k2: int)
    requires
        k2 >= 100,
    ensures
        1000int / k2 <= 10,
{
    lemma_div_is_ordered(1000int, 10 * k2, k2);
    assert(10 * k2 == k2 * 10) by (nonlinear_arith);
    lemma_div_multiples_vanish(10, k2);
}

} // verus!
