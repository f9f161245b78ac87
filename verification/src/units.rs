//! Fixed-point arithmetic shared by every moving thing.
//!
//! A coordinate is an `i32` count of sub-pixel units. A velocity is an `i32`
//! count of units travelled in one reference frame, the sixtieth of a second.
//! Elapsed time is a `u64` count of microseconds. Results that leave the `i32`
//! range stop at its ends.

use vstd::prelude::*;

verus! {

/// Sub-pixel units in one pixel.
pub const UNIT: i32 = 1000;

/// Microseconds in one second.
pub const MICROS_PER_SECOND: u64 = 1_000_000;

/// Reference frames in one second.
pub const FRAMES_PER_SECOND: u64 = 60;

/// A displacement or velocity in the plane.
#[derive(Clone, Copy, Debug, PartialEq, Eq)]
pub struct Vector {
    pub x: i32,
    pub y: i32,
}

/// Quotient of `a` by a positive `b`, rounded toward zero.
pub open spec fn trunc_div(a: int, b: int) -> int
    recommends
        b > 0,
{
    if a >= 0 {
        a / b
    } else {
        -((-a) / b)
    }
}

/// The nearest value to `x` that an `i32` holds.
pub open spec fn clamped(x: int) -> int {
    if x < i32::MIN {
        i32::MIN as int
    } else if x > i32::MAX {
        i32::MAX as int
    } else {
        x
    }
}

/// Distance covered at velocity `vel` during `dt` microseconds, rounded toward zero.
pub open spec fn travel(vel: int, dt: int) -> int {
    trunc_div(vel * dt * FRAMES_PER_SECOND as int, MICROS_PER_SECOND as int)
}

/// The coordinate reached from `pos` at velocity `vel` after `dt` microseconds.
pub open spec fn moved(pos: int, vel: int, dt: int) -> int {
    clamped(pos + travel(vel, dt))
}

/// Half of `x`, rounded toward zero.
pub open spec fn half(x: int) -> int {
    trunc_div(x, 2)
}

/// The nearest value to `x` that an `i32` holds.
pub fn clamp_to_i32(x: i128) -> (r: i32)
    ensures
        r == clamped(x as int),
{
    if x < i32::MIN as i128 {
        i32::MIN
    } else if x > i32::MAX as i128 {
        i32::MAX
    } else {
        x as i32
    }
}

/// Exact quotient rounded toward zero, for a positive divisor.
pub fn div_toward_zero(a: i128, b: i128) -> (q: i128)
    requires
        b > 0,
        a > i128::MIN,
    ensures
        q == trunc_div(a as int, b as int),
{
    if a >= 0 {
        a / b
    } else {
        let m: i128 = -a;
        let q: i128 = m / b;
        -q
    }
}

/// Half of `x`, rounded toward zero.
pub fn halved(x: i32) -> (h: i32)
    ensures
        h == half(x as int),
{
    if x >= 0 {
        x / 2
    } else {
        let m: i64 = -(x as i64);
        let q: i64 = m / 2;
        (-q) as i32
    }
}

/// The coordinate `offset` away from `pos`, stopped at the ends of the range.
pub fn shifted(pos: i32, offset: i32) -> (r: i32)
    ensures
        r == clamped(pos + offset),
{
    clamp_to_i32(pos as i128 + offset as i128)
}

/// Moves a coordinate at velocity `vel` for `dt` microseconds.
pub fn advance(pos: i32, vel: i32, dt: u64) -> (r: i32)
    ensures
        r == moved(pos as int, vel as int, dt as int),
{
    assert(-0x8000_0000 * 0x1_0000_0000_0000_0000 * 60 <= vel * dt * 60
        <= 0x8000_0000 * 0x1_0000_0000_0000_0000 * 60) by (nonlinear_arith)
        requires
            -0x8000_0000 <= vel <= 0x8000_0000,
            0 <= dt <= 0x1_0000_0000_0000_0000,
    ;
    assert(-0x8000_0000 * 0x1_0000_0000_0000_0000 <= vel * dt
        <= 0x8000_0000 * 0x1_0000_0000_0000_0000) by (nonlinear_arith)
        requires
            -0x8000_0000 <= vel <= 0x8000_0000,
            0 <= dt <= 0x1_0000_0000_0000_0000,
    ;
    let product: i128 = (vel as i128) * (dt as i128) * (FRAMES_PER_SECOND as i128);
    let step: i128 = div_toward_zero(product, MICROS_PER_SECOND as i128);
    clamp_to_i32(pos as i128 + step)
}

/// Whether `r` is the whole part of the square root of `n`.
pub open spec fn is_floor_sqrt(n: int, r: int) -> bool {
    0 <= r && r * r <= n < (r + 1) * (r + 1)
}

/// The whole part of the square root of `n`.
pub open spec fn floor_sqrt(n: int) -> int {
    choose|r: int| is_floor_sqrt(n, r)
}

/// A number has at most one whole square root.
pub proof fn lemma_floor_sqrt_unique(n: int, a: int, b: int)
    requires
        is_floor_sqrt(n, a),
        is_floor_sqrt(n, b),
    ensures
        a == b,
{
    if a < b {
        assert((a + 1) * (a + 1) <= b * b) by (nonlinear_arith)
            requires
                0 <= a + 1 <= b,
        ;
    }
    if b < a {
        assert((b + 1) * (b + 1) <= a * a) by (nonlinear_arith)
            requires
                0 <= b + 1 <= a,
        ;
    }
}

/// Every number that is not negative has a whole square root.
pub proof fn lemma_floor_sqrt_exists(n: int)
    requires
        n >= 0,
    ensures
        is_floor_sqrt(n, floor_sqrt(n)),
    decreases n,
{
    if n == 0 {
        assert(is_floor_sqrt(0, 0));
    } else {
        lemma_floor_sqrt_exists(n - 1);
        let r = floor_sqrt(n - 1);
        if (r + 1) * (r + 1) <= n {
            assert((r + 2) * (r + 2) > n) by (nonlinear_arith)
                requires
                    r >= 0,
                    n - 1 < (r + 1) * (r + 1),
            ;
            assert(is_floor_sqrt(n, r + 1));
        } else {
            assert(is_floor_sqrt(n, r));
        }
    }
}

/// Neither component of a vector is longer than the whole part of its length,
/// and a vector other than zero has a length of at least one.
pub proof fn lemma_component_within_length(dx: int, dy: int)
    ensures
        -floor_sqrt(dx * dx + dy * dy) <= dx <= floor_sqrt(dx * dx + dy * dy),
        -floor_sqrt(dx * dx + dy * dy) <= dy <= floor_sqrt(dx * dx + dy * dy),
        floor_sqrt(dx * dx + dy * dy) == 0 <==> dx == 0 && dy == 0,
{
    let n = dx * dx + dy * dy;
    assert(dx * dx >= 0 && dy * dy >= 0) by (nonlinear_arith);
    lemma_floor_sqrt_exists(n);
    let len = floor_sqrt(n);
    assert(-len <= dx <= len) by (nonlinear_arith)
        requires
            len >= 0,
            dx * dx < (len + 1) * (len + 1),
    ;
    assert(-len <= dy <= len) by (nonlinear_arith)
        requires
            len >= 0,
            dy * dy < (len + 1) * (len + 1),
    ;
    if dx != 0 || dy != 0 {
        assert(n >= 1) by (nonlinear_arith)
            requires
                n == dx * dx + dy * dy,
                dx != 0 || dy != 0,
        ;
        assert(len != 0) by (nonlinear_arith)
            requires
                n >= 1,
                n < (len + 1) * (len + 1),
        ;
    } else {
        assert(n == 0);
        assert(len == 0) by (nonlinear_arith)
            requires
                len >= 0,
                len * len <= 0,
        ;
    }
}

/// A scaled direction is no longer than asked for on either axis, and on
/// neither axis does it point against the vector it was made from.
pub proof fn lemma_scaled_bounded(dx: int, dy: int, mag: int)
    requires
        0 <= mag <= i32::MAX,
    ensures
        -mag <= scaled(dx, dy, mag).x <= mag,
        -mag <= scaled(dx, dy, mag).y <= mag,
        dx >= 0 ==> scaled(dx, dy, mag).x >= 0,
        dx <= 0 ==> scaled(dx, dy, mag).x <= 0,
        dy >= 0 ==> scaled(dx, dy, mag).y >= 0,
        dy <= 0 ==> scaled(dx, dy, mag).y <= 0,
        dx == 0 && dy == 0 ==> scaled(dx, dy, mag) == (Vector { x: 0, y: 0 }),
{
    lemma_component_within_length(dx, dy);
    let len = floor_sqrt(dx * dx + dy * dy);
    if len != 0 {
        lemma_quotient_bounded(dx, mag, len);
        lemma_quotient_bounded(dy, mag, len);
    }
}

/// Scaling a part of a whole by `mag` and dividing by the whole gives at most `mag`.
proof fn lemma_quotient_bounded(d: int, mag: int, len: int)
    requires
        len > 0,
        -len <= d <= len,
        mag >= 0,
    ensures
        -mag <= trunc_div(d * mag, len) <= mag,
        d >= 0 ==> trunc_div(d * mag, len) >= 0,
        d <= 0 ==> trunc_div(d * mag, len) <= 0,
{
    if d >= 0 {
        assert(0 <= d * mag <= len * mag) by (nonlinear_arith)
            requires
                0 <= d <= len,
                mag >= 0,
        ;
        assert(0 <= (d * mag) / len <= mag) by (nonlinear_arith)
            requires
                0 <= d * mag <= len * mag,
                len > 0,
        ;
    } else {
        assert(0 < -(d * mag) <= len * mag || d * mag == 0) by (nonlinear_arith)
            requires
                -len <= d < 0,
                mag >= 0,
        ;
        assert(0 <= (-(d * mag)) / len <= mag) by (nonlinear_arith)
            requires
                0 <= -(d * mag) <= len * mag,
                len > 0,
        ;
    }
}

/// The vector of length about `mag` that points the way of `(dx, dy)`: each
/// component is scaled by `mag` over the whole part of the length of
/// `(dx, dy)`, rounded toward zero. The zero vector has no direction and
/// scales to zero.
pub open spec fn scaled(dx: int, dy: int, mag: int) -> Vector {
    let len = floor_sqrt(dx * dx + dy * dy);
    if len == 0 {
        Vector { x: 0, y: 0 }
    } else {
        Vector {
            x: clamped(trunc_div(dx * mag, len)) as i32,
            y: clamped(trunc_div(dy * mag, len)) as i32,
        }
    }
}

/// Whole part of the square root, by bisection.
pub fn isqrt(n: u128) -> (r: u64)
    ensures
        is_floor_sqrt(n as int, r as int),
        r == floor_sqrt(n as int),
{
    let mut lo: u128 = 0;
    let mut hi: u128 = 0x1_0000_0000_0000_0000;
    while hi - lo > 1
        invariant
            lo < hi <= 0x1_0000_0000_0000_0000,
            lo * lo <= n < hi * hi,
        decreases hi - lo,
    {
        let mid: u128 = lo + (hi - lo) / 2;
        assert(mid * mid <= 0xffff_ffff_ffff_ffff * 0xffff_ffff_ffff_ffff) by (nonlinear_arith)
            requires
                0 <= mid <= 0xffff_ffff_ffff_ffff,
        ;
        if mid * mid <= n {
            lo = mid;
        } else {
            hi = mid;
        }
    }
    proof {
        assert(is_floor_sqrt(n as int, lo as int));
        lemma_floor_sqrt_unique(n as int, lo as int, floor_sqrt(n as int));
    }
    lo as u64
}

/// Scales the direction of `(dx, dy)` to `mag`.
pub fn scaled_direction(dx: i64, dy: i64, mag: i32) -> (v: Vector)
    ensures
        v == scaled(dx as int, dy as int, mag as int),
        mag >= 0 ==> -mag <= v.x <= mag && -mag <= v.y <= mag,
{
    proof {
        if mag >= 0 {
            lemma_scaled_bounded(dx as int, dy as int, mag as int);
        }
    }
    assert(0 <= dx * dx <= 0x8000_0000_0000_0000 * 0x8000_0000_0000_0000) by (nonlinear_arith)
        requires
            -0x8000_0000_0000_0000 <= dx <= 0x8000_0000_0000_0000,
    ;
    assert(0 <= dy * dy <= 0x8000_0000_0000_0000 * 0x8000_0000_0000_0000) by (nonlinear_arith)
        requires
            -0x8000_0000_0000_0000 <= dy <= 0x8000_0000_0000_0000,
    ;
    let sx: i128 = (dx as i128) * (dx as i128);
    let sy: i128 = (dy as i128) * (dy as i128);
    let len: u64 = isqrt(sx as u128 + sy as u128);
    if len == 0 {
        Vector { x: 0, y: 0 }
    } else {
        assert(-0x8000_0000_0000_0000 * 0x8000_0000 <= dx * mag <= 0x8000_0000_0000_0000
            * 0x8000_0000) by (nonlinear_arith)
            requires
                -0x8000_0000_0000_0000 <= dx <= 0x8000_0000_0000_0000,
                -0x8000_0000 <= mag <= 0x8000_0000,
        ;
        assert(-0x8000_0000_0000_0000 * 0x8000_0000 <= dy * mag <= 0x8000_0000_0000_0000
            * 0x8000_0000) by (nonlinear_arith)
            requires
                -0x8000_0000_0000_0000 <= dy <= 0x8000_0000_0000_0000,
                -0x8000_0000 <= mag <= 0x8000_0000,
        ;
        let x: i128 = div_toward_zero((dx as i128) * (mag as i128), len as i128);
        let y: i128 = div_toward_zero((dy as i128) * (mag as i128), len as i128);
        Vector { x: clamp_to_i32(x), y: clamp_to_i32(y) }
    }
}

} // verus!
