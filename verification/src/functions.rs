//! Fixed-point arithmetic helpers shared by the whole pipeline.
//!
//! All continuous quantities in this crate are integers in milli-units:
//! the value 1000 stands for 1.0. Division is truncating (toward zero),
//! exactly as Rust's integer `/` behaves, and `tdiv` is its ghost mirror.

use vstd::prelude::*;

verus! {

use vstd::arithmetic::div_mod::lemma_div_nonincreasing;
use vstd::arithmetic::div_mod::lemma_div_is_ordered;
use vstd::arithmetic::div_mod::lemma_div_pos_is_pos;

/// A 3-vector of fixed-point coordinates (milli-units).
#[derive(Clone, Copy, Debug, PartialEq, Eq, Structural)]
pub struct Vec3 {
    pub x: i64,
    pub y: i64,
    pub z: i64,
}

impl Vec3 {
    /// The all-zero vector.
    pub fn zero() -> (v: Vec3)
        ensures
            v == (Vec3 { x: 0, y: 0, z: 0 }),
    {
        Vec3 { x: 0, y: 0, z: 0 }
    }
}

/// A 4-vector holding a quaternion's components (milli-units).
#[derive(Clone, Copy, Debug, PartialEq, Eq, Structural)]
pub struct Vec4 {
    pub x: i64,
    pub y: i64,
    pub z: i64,
    pub w: i64,
}

impl Vec4 {
    /// The all-zero quaternion record.
    pub fn zero() -> (v: Vec4)
        ensures
            v == (Vec4 { x: 0, y: 0, z: 0, w: 0 }),
    {
        Vec4 { x: 0, y: 0, z: 0, w: 0 }
    }
}

/// Truncating (toward zero) division, the ghost twin of Rust's `/` on
/// integers, for a positive divisor.
pub open spec fn tdiv(a: int, b: int) -> int {
    if a >= 0 {
        a / b
    } else {
        -((-a) / b)
    }
}

/// Clamping to a closed interval, the ghost twin of `clamp_i64`.
pub open spec fn clamped(v: int, lo: int, hi: int) -> int {
    if v < lo {
        lo
    } else if v > hi {
        hi
    } else {
        v
    }
}

/// Clamp `v` into `[lo, hi]`.
pub fn clamp_i64(v: i64, lo: i64, hi: i64) -> (r: i64)
    requires
        lo <= hi,
    ensures
        r == clamped(v as int, lo as int, hi as int),
{
    if v < lo {
        lo
    } else if v > hi {
        hi
    } else {
        v
    }
}

/// Truncating division of `a` by a positive divisor `b`.
pub fn div_trunc(a: i64, b: i64) -> (r: i64)
    requires
        1 <= b,
        -0x4000_0000_0000_0000 <= a <= 0x4000_0000_0000_0000,
    ensures
        r == tdiv(a as int, b as int),
{
    if a >= 0 {
        let q: u64 = (a as u64) / (b as u64);
        proof {
            lemma_div_nonincreasing(a as int, b as int);
        }
        q as i64
    } else {
        let n: i64 = -a;
        let q: u64 = (n as u64) / (b as u64);
        proof {
            lemma_div_nonincreasing(n as int, b as int);
        }
        -(q as i64)
    }
}

/// Truncating division never grows a value's magnitude, and keeps its
/// sign.
pub proof fn lemma_tdiv_magnitude(a: int, b: int)
    requires
        1 <= b,
    ensures
        vstd::math::abs(tdiv(a, b)) <= vstd::math::abs(a),
        a >= 0 ==> 0 <= tdiv(a, b),
        a <= 0 ==> tdiv(a, b) <= 0,
{
    if a >= 0 {
        lemma_div_nonincreasing(a, b);
        lemma_div_pos_is_pos(a, b);
    } else {
        lemma_div_nonincreasing(-a, b);
        lemma_div_pos_is_pos(-a, b);
    }
}

/// Whether `r` is the integer square-root floor of `n`.
pub open spec fn is_sqrt_floor(n: int, r: int) -> bool {
    0 <= r && r * r <= n && n < (r + 1) * (r + 1)
}

/// The integer square-root floor: the unique `r >= 0` with
/// `r * r <= n < (r + 1) * (r + 1)`.
pub open spec fn sqrt_floor(n: int) -> int {
    choose|r: int| is_sqrt_floor(n, r)
}

/// `sqrt_floor` is pinned down by its defining inequalities.
pub proof fn lemma_sqrt_floor_unique(n: int, r: int)
    requires
        0 <= r,
        r * r <= n,
        n < (r + 1) * (r + 1),
    ensures
        sqrt_floor(n) == r,
{
    assert(exists|x: int| is_sqrt_floor(n, x)) by {
        assert(is_sqrt_floor(n, r));
    }
    let s = sqrt_floor(n);
    assert(is_sqrt_floor(n, s));
    if s < r {
        assert((s + 1) * (s + 1) <= r * r) by (nonlinear_arith)
            requires
                0 <= s,
                s < r,
        ;
        assert(false);
    }
    if r < s {
        assert((r + 1) * (r + 1) <= s * s) by (nonlinear_arith)
            requires
                0 <= r,
                r < s,
        ;
        assert(false);
    }
}

/// Integer square root by binary search.
pub fn isqrt(n: i64) -> (r: i64)
    requires
        0 <= n < 0x3780_0000_0000_0000,
    ensures
        r == sqrt_floor(n as int),
        0 <= r,
        r * r <= n,
        n < (r + 1) * (r + 1),
{
    let nn: u64 = n as u64;
    let mut lo: u64 = 0;
    let mut hi: u64 = 2_000_000_000;
    assert((2_000_000_000 as int) * (2_000_000_000 as int) == 0x3782_DACE_9D90_0000 as int)
        by (nonlinear_arith);
    while lo + 1 < hi
        invariant
            0 <= lo < hi <= 2_000_000_000,
            lo * lo <= nn,
            nn < hi * hi,
            nn == n,
            0 <= n < 0x3780_0000_0000_0000,
        decreases hi - lo,
    {
        let mid: u64 = lo + (hi - lo) / 2;
        assert(lo < mid < hi);
        assert(mid * mid <= 0x3782_DACE_9D90_0000) by (nonlinear_arith)
            requires
                0 <= mid <= 2_000_000_000,
        ;
        if mid * mid <= nn {
            lo = mid;
        } else {
            hi = mid;
        }
    }
    proof {
        lemma_sqrt_floor_unique(n as int, lo as int);
    }
    lo as i64
}

/// Fixed-point Euclidean norm of a 3-vector: the square root floor of
/// the sum of the squared components, still in milli-units.
pub fn hyp(v: &Vec3) -> (r: i64)
    requires
        -1_000_000_000 <= v.x <= 1_000_000_000,
        -1_000_000_000 <= v.y <= 1_000_000_000,
        -1_000_000_000 <= v.z <= 1_000_000_000,
    ensures
        r == sqrt_floor(v.x * v.x + v.y * v.y + v.z * v.z),
        0 <= r <= 2_000_000_000,
        r * r <= v.x * v.x + v.y * v.y + v.z * v.z,
        v.x * v.x + v.y * v.y + v.z * v.z < (r + 1) * (r + 1),
{
    proof {
        assert(0 <= v.x * v.x <= 1_000_000_000_000_000_000) by (nonlinear_arith)
            requires
                -1_000_000_000 <= v.x <= 1_000_000_000,
        ;
        assert(0 <= v.y * v.y <= 1_000_000_000_000_000_000) by (nonlinear_arith)
            requires
                -1_000_000_000 <= v.y <= 1_000_000_000,
        ;
        assert(0 <= v.z * v.z <= 1_000_000_000_000_000_000) by (nonlinear_arith)
            requires
                -1_000_000_000 <= v.z <= 1_000_000_000,
        ;
    }
    let dx = v.x * v.x;
    let dy = v.y * v.y;
    let dz = v.z * v.z;
    let r = isqrt(dx + dy + dz);
    proof {
        if r > 2_000_000_000 {
            assert(r * r > 0x3780_0000_0000_0000) by (nonlinear_arith)
                requires
                    r > 2_000_000_000,
            ;
        }
    }
    r
}

/// The smoothstep ease applied to a unit-interval fixed-point value:
/// the ghost value of `smoothstep`.
pub open spec fn smoothstep_spec(t: int) -> int {
    tdiv(t * t * (3000 - 2 * t), 1_000_000)
}

/// Smoothstep easing `t * t * (3 - 2 * t)` on the fixed-point unit
/// interval `[0, 1000]`.
pub fn smoothstep(t: i64) -> (r: i64)
    requires
        0 <= t <= 1000,
    ensures
        r == smoothstep_spec(t as int),
        0 <= r <= 1000,
{
    proof {
        assert(0 <= t * t <= 1_000_000) by (nonlinear_arith)
            requires
                0 <= t <= 1000,
        ;
        assert(0 <= t * t * (3000 - 2 * t) <= 1_000_000_000) by (nonlinear_arith)
            requires
                0 <= t <= 1000,
        ;
    }
    let t2: i64 = t * t;
    let cube: i64 = t2 * (3000 - 2 * t);
    let r: i64 = ((cube as u64) / 1_000_000) as i64;
    proof {
        lemma_div_is_ordered(cube as int, 1_000_000_000, 1_000_000);
        lemma_div_nonincreasing(cube as int, 1_000_000);
    }
    r
}

/// Whether any bit selected by `mask` is set in `buttons`.
pub fn button_mask(buttons: u32, mask: u32) -> (r: bool)
    ensures
        r == ((buttons & mask) != 0),
{
    (buttons & mask) != 0
}

/// Fixed-point absolute value.
pub fn abs_i64(a: i64) -> (r: i64)
    requires
        i64::MIN < a,
    ensures
        r == vstd::math::abs(a as int),
{
    if a < 0 {
        -a
    } else {
        a
    }
}

/// Wrap an integer into a byte, as two's-complement truncation does.
pub fn wrap_u8(t: i64) -> (r: u8)
    requires
        -256 <= t < 512,
    ensures
        r == (t as int) % 256,
{
    if t < 0 {
        (t + 256) as u8
    } else if t >= 256 {
        (t - 256) as u8
    } else {
        t as u8
    }
}

} // verus!
