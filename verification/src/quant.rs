//! Quantisers: raw ADC readings to reported buckets.
//!
//! The throttle pot is wired inverted, so a larger raw reading means a lower
//! throttle.  The servo pot is useful only between `SERVO_MIN` and
//! `SERVO_MAX`; readings outside that range land on the nearer endpoint.
//! Both buckets are rounded down to a fixed step, so a drifting reading
//! crosses at most one bucket boundary at a time.

use vstd::prelude::*;

verus! {

/// Step between adjacent throttle buckets.
pub const THROTTLE_STEP: u16 = 5;
/// Raw ADC counts per throttle percent point.
pub const THROTTLE_DIV: u16 = 40;
/// Step between adjacent servo buckets.
pub const SERVO_STEP: u16 = 10;
/// Raw reading at and below which the servo maps to 0.
pub const SERVO_MIN: u32 = 2750;
/// Raw reading at and above which the servo maps to the top of its range.
pub const SERVO_MAX: u32 = 4100;
/// Top of the servo linear map's output range, before rounding.
pub const SERVO_TOP: u32 = 95;

/// The throttle reading scaled to 0..=100, before rounding.
/// The subtraction from 100 flips the inverted pot.
pub open spec fn throttle_scaled(v: u16) -> int {
    if v as int / THROTTLE_DIV as int >= 100 {
        0
    } else {
        100 - v as int / THROTTLE_DIV as int
    }
}

/// The reported throttle bucket: the scaled reading rounded down to a
/// multiple of `THROTTLE_STEP`.
pub open spec fn throttle_bucket_spec(v: u16) -> int {
    throttle_scaled(v) - throttle_scaled(v) % (THROTTLE_STEP as int)
}

/// Quantise a raw throttle reading.  Accepts any raw value; readings at or
/// above 4000 counts all map to bucket 0.
pub fn throttle_bucket(v: u16) -> (bucket: u16)
    ensures
        bucket == throttle_bucket_spec(v),
        bucket % THROTTLE_STEP == 0,
        bucket <= 100,
{
    let scaled = 100u16.saturating_sub(v / THROTTLE_DIV);
    scaled - scaled % THROTTLE_STEP
}

/// The throttle bucket never rises when the raw reading rises: the pot is
/// inverted, so the bucket is non-increasing in the raw value.
pub proof fn lemma_throttle_monotone(v1: u16, v2: u16)
    requires
        v1 < v2,
    ensures
        throttle_bucket_spec(v2) <= throttle_bucket_spec(v1),
{
    let d = THROTTLE_DIV as int;
    assert(v1 as int / d <= v2 as int / d) by (nonlinear_arith)
        requires v1 < v2, d == 40;
    let s1 = throttle_scaled(v1);
    let s2 = throttle_scaled(v2);
    assert(s2 <= s1);
    assert(s2 - s2 % 5 <= s1 - s1 % 5) by (nonlinear_arith)
        requires 0 <= s2 <= s1;
}

/// No chatter: one raw count moves the throttle bucket by at most one
/// step, so adjacent buckets never overlap and a drifting reading crosses
/// at most one boundary at a time.
pub proof fn lemma_throttle_no_chatter(v: u16)
    requires
        v < u16::MAX,
    ensures
        throttle_bucket_spec((v + 1) as u16) <= throttle_bucket_spec(v),
        throttle_bucket_spec(v) - throttle_bucket_spec((v + 1) as u16) <= THROTTLE_STEP as int,
{
    let w = (v + 1) as u16;
    lemma_throttle_monotone(v, w);
    assert(v as int / 40 <= w as int / 40 && w as int / 40 <= v as int / 40 + 1)
        by (nonlinear_arith)
        requires w == v + 1;
    let s1 = throttle_scaled(v);
    let s2 = throttle_scaled(w);
    assert(s2 <= s1 <= s2 + 1);
    assert(s1 - s1 % 5 - (s2 - s2 % 5) <= 5) by (nonlinear_arith)
        requires 0 <= s2 <= s1 <= s2 + 1;
}

/// Saturating subtraction on mathematical integers, clipped at zero.
pub open spec fn sat_sub(a: int, b: int) -> int {
    if a - b >= 0 {
        a - b
    } else {
        0
    }
}

/// Saturating multiplication, clipped at `u32::MAX`.
pub open spec fn sat_mul_u32(a: int, b: int) -> int {
    if a * b > u32::MAX as int {
        u32::MAX as int
    } else {
        a * b
    }
}

/// Saturating addition, clipped at `u32::MAX`.
pub open spec fn sat_add_u32(a: int, b: int) -> int {
    if a + b > u32::MAX as int {
        u32::MAX as int
    } else {
        a + b
    }
}

/// A saturating linear map from the raw domain `[xmin, xmax]` onto the
/// output range `[ymin, ymax]`: out-of-range inputs land on the nearer
/// endpoint instead of wrapping.
pub open spec fn linear_conv_spec(n: u32, xmin: u32, xmax: u32, ymin: u32, ymax: u32) -> int {
    sat_add_u32(
        sat_mul_u32(sat_sub(n as int, xmin as int), ymax as int - ymin as int) / (xmax as int
            - xmin as int),
        ymin as int,
    )
}

/// Saturating linear interpolation of `n` from `[xmin, xmax]` to
/// `[ymin, ymax]`.  Every intermediate step saturates rather than wraps.
pub fn linear_conv(n: u32, xmin: u32, xmax: u32, ymin: u32, ymax: u32) -> (y: u32)
    requires
        xmin < xmax,
        ymin <= ymax,
    ensures
        y == linear_conv_spec(n, xmin, xmax, ymin, ymax),
{
    let shifted = n.saturating_sub(xmin);
    let yrange = ymax - ymin;
    let xrange = xmax - xmin;
    let scaled = match shifted.checked_mul(yrange) {
        Some(p) => p,
        None => u32::MAX,
    };
    (scaled / xrange).saturating_add(ymin)
}

/// The servo linear map before rounding: `[SERVO_MIN, SERVO_MAX]` onto
/// `[0, SERVO_TOP]`, clamped to that output range.
pub open spec fn servo_scaled(u: u16) -> int {
    let y = linear_conv_spec(u as u32, SERVO_MIN, SERVO_MAX, 0, SERVO_TOP);
    if y > SERVO_TOP as int {
        SERVO_TOP as int
    } else {
        y
    }
}

/// The reported servo bucket: the clamped linear map rounded down to a
/// multiple of `SERVO_STEP`.
pub open spec fn servo_bucket_spec(u: u16) -> int {
    servo_scaled(u) - servo_scaled(u) % (SERVO_STEP as int)
}

/// Quantise a raw servo reading.  Readings at or below `SERVO_MIN` give
/// bucket 0; readings at or above `SERVO_MAX` give the top bucket.
pub fn servo_bucket(u: u16) -> (bucket: u16)
    ensures
        bucket == servo_bucket_spec(u),
        bucket % SERVO_STEP == 0,
        bucket <= 90,
        u <= SERVO_MIN ==> bucket == 0,
        u as u32 >= SERVO_MAX ==> bucket == 90,
{
    proof {
        lemma_servo_scaled_range(u);
    }
    let y = linear_conv(u as u32, SERVO_MIN, SERVO_MAX, 0, SERVO_TOP);
    let clamped: u16 = if y > SERVO_TOP {
        SERVO_TOP as u16
    } else {
        y as u16
    };
    clamped - clamped % SERVO_STEP
}

/// The servo bucket never falls when the raw reading rises.
pub proof fn lemma_servo_monotone(u1: u16, u2: u16)
    requires
        u1 <= u2,
    ensures
        servo_bucket_spec(u1) <= servo_bucket_spec(u2),
{
    let a1 = sat_sub(u1 as int, SERVO_MIN as int);
    let a2 = sat_sub(u2 as int, SERVO_MIN as int);
    assert(0 <= a1 <= a2 <= u16::MAX as int);
    assert(a1 * 95 <= a2 * 95 <= u16::MAX as int * 95) by (nonlinear_arith)
        requires 0 <= a1 <= a2 <= u16::MAX as int;
    assert(sat_mul_u32(a1, 95) == a1 * 95 && sat_mul_u32(a2, 95) == a2 * 95);
    vstd::arithmetic::div_mod::lemma_div_is_ordered(a1 * 95, a2 * 95, 1350);
    vstd::arithmetic::div_mod::lemma_div_pos_is_pos(a1 * 95, 1350);
    vstd::arithmetic::div_mod::lemma_div_is_ordered(a2 * 95, u16::MAX as int * 95, 1350);
    let s1 = servo_scaled(u1);
    let s2 = servo_scaled(u2);
    assert(0 <= s1 <= s2);
    assert(s1 - s1 % 10 <= s2 - s2 % 10) by (nonlinear_arith)
        requires 0 <= s1 <= s2;
}

/// No chatter: one raw count moves the servo bucket by at most one step.
pub proof fn lemma_servo_no_chatter(u: u16)
    requires
        u < u16::MAX,
    ensures
        servo_bucket_spec(u) <= servo_bucket_spec((u + 1) as u16),
        servo_bucket_spec((u + 1) as u16) - servo_bucket_spec(u) <= SERVO_STEP as int,
{
    let w = (u + 1) as u16;
    lemma_servo_monotone(u, w);
    let a1 = sat_sub(u as int, SERVO_MIN as int);
    let a2 = sat_sub(w as int, SERVO_MIN as int);
    assert(0 <= a1 <= a2 <= a1 + 1);
    assert(a1 * 95 <= u16::MAX as int * 95 && a2 * 95 <= a1 * 95 + 95) by (nonlinear_arith)
        requires 0 <= a1 <= a2 <= a1 + 1 <= u16::MAX as int + 1;
    assert(sat_mul_u32(a1, 95) == a1 * 95 && sat_mul_u32(a2, 95) == a2 * 95);
    vstd::arithmetic::div_mod::lemma_div_is_ordered(a2 * 95, a1 * 95 + 1350, 1350);
    vstd::arithmetic::div_mod::lemma_div_plus_one(a1 * 95, 1350);
    vstd::arithmetic::div_mod::lemma_div_pos_is_pos(a1 * 95, 1350);
    let s1 = servo_scaled(u);
    let s2 = servo_scaled(w);
    assert(0 <= s1 <= s2 <= s1 + 1);
    assert(s2 - s2 % 10 - (s1 - s1 % 10) <= 10) by (nonlinear_arith)
        requires 0 <= s1 <= s2 <= s1 + 1;
}

/// Endpoint behaviour of the clamped servo map: it stays within
/// `[0, SERVO_TOP]`, is 0 at and below `SERVO_MIN`, and reaches `SERVO_TOP`
/// at and above `SERVO_MAX`.
proof fn lemma_servo_scaled_range(u: u16)
    ensures
        0 <= servo_scaled(u) <= SERVO_TOP as int,
        u <= SERVO_MIN ==> servo_scaled(u) == 0,
        u as u32 >= SERVO_MAX ==> servo_scaled(u) == SERVO_TOP as int,
{
    let shifted = sat_sub(u as int, SERVO_MIN as int);
    assert(0 <= shifted <= u16::MAX as int);
    assert(shifted * 95 <= u16::MAX as int * 95) by (nonlinear_arith)
        requires 0 <= shifted <= u16::MAX as int;
    assert(sat_mul_u32(shifted, 95) == shifted * 95);
    assert(shifted * 95 / 1350 >= 0) by (nonlinear_arith)
        requires shifted >= 0;
    if u <= SERVO_MIN {
        assert(shifted == 0);
        assert(0int * 95 == 0) by (nonlinear_arith);
    }
    if u as u32 >= SERVO_MAX {
        assert(shifted >= 1350);
        assert(shifted * 95 / 1350 >= 95) by (nonlinear_arith)
            requires shifted >= 1350;
    }
}

} // verus!
