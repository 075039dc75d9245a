//! Angles in half-degrees and fixed-point trigonometry.
//!
//! An angle is an `i32` number of half-degrees, kept normalized to the range
//! `(-360, 360]` (that is, `(-180, 180]` degrees). Sine and cosine are
//! computed over integers with a rational approximation that is exact at
//! every quarter turn and accurate to about two parts in a thousand
//! elsewhere; results are scaled by [`crate::FP`].
use vstd::prelude::*;
use vstd::arithmetic::div_mod::lemma_mod_multiples_vanish;
use vstd::arithmetic::div_mod::lemma_fundamental_div_mod;
use vstd::arithmetic::div_mod::lemma_small_mod;

verus! {

/// A normalized angle lies in `(-360, 360]` half-degrees, i.e. `(-180, 180]`
/// degrees.
pub open spec fn angle_wf(a: int) -> bool {
    -360 < a <= 360
}

/// The representative of `a` modulo a full turn that lies in `(-360, 360]`.
pub open spec fn angle_norm(a: int) -> int {
    360 - ((360 - a) % 720)
}

/// Normalization always lands in `(-360, 360]` and never changes the angle
/// modulo a full turn.
pub proof fn lemma_angle_norm_range(a: int)
    ensures
        angle_wf(angle_norm(a)),
        angle_norm(a) % 720 == a % 720,
{
    let r = (360 - a) % 720;
    assert(0 <= r < 720);
    let k = (360 - a) / 720;
    lemma_fundamental_div_mod(360 - a, 720);
    assert(360 - a == 720 * k + r);
    assert(angle_norm(a) == 720 * k + a);
    lemma_mod_multiples_vanish(k, a, 720);
}

/// An angle already in `(-360, 360]` normalizes to itself.
pub proof fn lemma_angle_norm_fixed(a: int)
    requires
        angle_wf(a),
    ensures
        angle_norm(a) == a,
{
    lemma_small_mod((360 - a) as nat, 720nat);
}

/// Brings any half-degree count into `(-360, 360]`.
pub fn normalize_hd(a: i64) -> (r: i32)
    requires
        -0x1_0000_0000 <= a <= 0x1_0000_0000,
    ensures
        r == angle_norm(a as int),
        angle_wf(r as int),
{
    proof {
        lemma_angle_norm_range(a as int);
    }
    let b: i64 = 360 - a;
    let b2: i64 = b + 4_320_000_000;
    proof {
        lemma_mod_multiples_vanish(6_000_000, b as int, 720);
        assert(720 * 6_000_000 + b == b2);
    }
    let e: i64 = b2 % 720;
    (360 - e) as i32
}

/// Numerator of the rational sine approximation on `[0, 360]` half-degrees.
pub open spec fn sin_num(h: int) -> int {
    4 * h * (360 - h) * 1024
}

/// Denominator of the rational sine approximation on `[0, 360]` half-degrees.
pub open spec fn sin_den(h: int) -> int {
    162000 - h * (360 - h)
}

/// Fixed-point sine of a normalized angle, scaled by `1024`.
pub open spec fn sin_spec(h: int) -> int
    recommends
        angle_wf(h),
{
    if h >= 0 {
        sin_num(h) / sin_den(h)
    } else {
        -(sin_num(-h) / sin_den(-h))
    }
}

/// Fixed-point cosine of a normalized angle, scaled by `1024`: the sine a
/// quarter turn ahead.
pub open spec fn cos_spec(h: int) -> int
    recommends
        angle_wf(h),
{
    sin_spec(angle_norm(h + 180))
}

/// The product `h * (360 - h)` stays within `[0, 32400]` on `[0, 360]`, and
/// within `[359, 32400]` away from the endpoints.
proof fn lemma_sin_product_bounds(h: int)
    requires
        0 <= h <= 360,
    ensures
        0 <= h * (360 - h) <= 32400,
        1 <= h <= 359 ==> 359 <= h * (360 - h),
{
    assert(0 <= h * (360 - h) <= 32400) by (nonlinear_arith)
        requires
            0 <= h <= 360,
    ;
    if 1 <= h <= 359 {
        assert(359 <= h * (360 - h)) by (nonlinear_arith)
            requires
                1 <= h <= 359,
        ;
    }
}

/// The sine approximation on `[0, 360]`: bounded by the scale, exact at the
/// endpoints and the peak, and nonzero strictly between the endpoints.
pub proof fn lemma_sin_pos_bounds(h: int)
    requires
        0 <= h <= 360,
    ensures
        0 <= sin_num(h) / sin_den(h) <= 1024,
        h == 0 || h == 360 ==> sin_num(h) / sin_den(h) == 0,
        h == 180 ==> sin_num(h) / sin_den(h) == 1024,
        1 <= h <= 359 ==> 1 <= sin_num(h) / sin_den(h),
{
    lemma_sin_product_bounds(h);
    let q = h * (360 - h);
    assert(sin_num(h) == 4 * q * 1024) by (nonlinear_arith)
        requires
            q == h * (360 - h),
    ;
    assert(sin_den(h) == 162000 - q);
    assert(129600 <= sin_den(h) <= 162000);
    assert(0 <= sin_num(h) <= 1024 * sin_den(h)) by (nonlinear_arith)
        requires
            q == h * (360 - h),
            0 <= q <= 32400,
            sin_num(h) == 4 * q * 1024,
            sin_den(h) == 162000 - q,
    ;
    assert(0 <= sin_num(h) / sin_den(h) <= 1024) by (nonlinear_arith)
        requires
            0 <= sin_num(h) <= 1024 * sin_den(h),
            129600 <= sin_den(h),
    ;
    if h == 0 || h == 360 {
        assert(sin_num(h) == 0);
        assert(sin_num(h) / sin_den(h) == 0);
    }
    if h == 180 {
        assert(sin_num(h) == 132710400);
        assert(sin_den(h) == 129600);
        assert(132710400int / 129600int == 1024);
    }
    if 1 <= h <= 359 {
        assert(sin_den(h) <= sin_num(h)) by (nonlinear_arith)
            requires
                q == h * (360 - h),
                359 <= q <= 32400,
                sin_num(h) == 4 * q * 1024,
                sin_den(h) == 162000 - q,
        ;
        assert(1 <= sin_num(h) / sin_den(h)) by (nonlinear_arith)
            requires
                0 < sin_den(h) <= sin_num(h),
        ;
    }
}

/// Sine approximation on `[0, 360]` half-degrees, scaled by `1024`.
fn sin_pos(h: i32) -> (r: i64)
    requires
        0 <= h <= 360,
    ensures
        r == sin_num(h as int) / sin_den(h as int),
        0 <= r <= 1024,
{
    proof {
        lemma_sin_pos_bounds(h as int);
        lemma_sin_product_bounds(h as int);
    }
    let q: i64 = (h as i64) * (360 - h as i64);
    let num: i64 = 4 * q * 1024;
    let den: i64 = 162000 - q;
    proof {
        assert(num == sin_num(h as int)) by (nonlinear_arith)
            requires
                q == h as int * (360 - h as int),
                num == 4 * q * 1024,
        ;
        assert(den == sin_den(h as int));
    }
    num / den
}

/// Fixed-point sine of a normalized half-degree angle.
pub fn sin_hd(h: i32) -> (r: i64)
    requires
        angle_wf(h as int),
    ensures
        r == sin_spec(h as int),
        -1024 <= r <= 1024,
{
    proof {
        if h < 0 {
            lemma_sin_pos_bounds(-h as int);
        }
    }
    if h >= 0 {
        sin_pos(h)
    } else {
        -sin_pos(-h)
    }
}

/// Fixed-point cosine of a normalized half-degree angle.
pub fn cos_hd(h: i32) -> (r: i64)
    requires
        angle_wf(h as int),
    ensures
        r == cos_spec(h as int),
        -1024 <= r <= 1024,
{
    let shifted: i32 = normalize_hd(h as i64 + 180);
    proof {
        if shifted >= 0 {
            lemma_sin_pos_bounds(shifted as int);
        } else {
            lemma_sin_pos_bounds(-shifted as int);
        }
    }
    sin_hd(shifted)
}

/// Sine of a normalized angle is zero exactly at `0` and at the half turn.
pub proof fn lemma_sin_zeros(h: int)
    requires
        angle_wf(h),
    ensures
        sin_spec(h) == 0 <==> (h == 0 || h == 360),
{
    if h >= 0 {
        lemma_sin_pos_bounds(h);
    } else {
        lemma_sin_pos_bounds(-h);
        assert(1 <= -h <= 359);
    }
}

/// Sine and cosine of one normalized angle are never both zero, so the
/// facing vector derived from an angle is never the null vector.
pub proof fn lemma_sin_cos_not_both_zero(h: int)
    requires
        angle_wf(h),
    ensures
        sin_spec(h) != 0 || cos_spec(h) != 0,
{
    if sin_spec(h) == 0 {
        lemma_sin_zeros(h);
        if h == 0 {
            assert(angle_norm(180) == 180) by {
                lemma_small_mod(180nat, 720nat);
            }
            assert(cos_spec(0) == sin_spec(180));
            lemma_sin_pos_bounds(180);
            assert(cos_spec(0) == 1024);
        } else {
            assert(h == 360);
            assert((-180) % 720 == 540) by {
                lemma_mod_multiples_vanish(1, -180, 720);
                lemma_small_mod(540nat, 720nat);
            }
            assert(angle_norm(540) == -180);
            assert(cos_spec(360) == sin_spec(-180));
            lemma_sin_pos_bounds(180);
            assert(cos_spec(360) == -1024);
        }
    }
}

} // verus!
