//! Fixed-point arithmetic: angles, light levels, square roots and the sine
//! approximation that the engine uses in place of floating point. A value
//! of `FP_ONE` stands for 1.0; positions are measured in tile units and
//! angles in radians, both carried as `i64` with 16 fractional bits.

use vstd::prelude::*;
use vstd::arithmetic::div_mod::{
    lemma_div_is_ordered, lemma_div_multiples_vanish, lemma_div_pos_is_pos,
};

verus! {

/// The fixed-point unit: this integer stands for the real number 1.0.
pub const FP_ONE: i64 = 65536;

/// One half, in fixed-point units.
pub const FP_HALF: i64 = 32768;

/// One quarter, in fixed-point units.
pub const FP_QUARTER: i64 = 16384;

/// The angle pi in fixed-point radians (65536 * pi, rounded).
pub const PI_FP: i64 = 205887;

/// The angle pi/2 in fixed-point radians.
pub const HALF_PI_FP: i64 = 102944;

/// The angle pi/4 in fixed-point radians.
pub const QUARTER_PI_FP: i64 = 51472;

/// A full turn. Angles are always normalized into [0, TWO_PI_FP).
pub const TWO_PI_FP: i64 = 2 * PI_FP;

/// What `wrap_angle` computes: the Euclidean remainder of the angle by a
/// full turn, which always lies in [0, TWO_PI_FP).
pub open spec fn wrap_spec(a: int) -> int {
    a % (TWO_PI_FP as int)
}

/// Normalizes an angle into [0, TWO_PI_FP).
pub fn wrap_angle(a: i64) -> (r: i64)
    ensures
        r == wrap_spec(a as int),
        0 <= r < TWO_PI_FP,
{
    let w = a.checked_rem_euclid(TWO_PI_FP);
    match w {
        Some(v) => v,
        None => {
            proof {
                assert(false);
            }
            0
        },
    }
}

/// Law: wrapping is idempotent across full turns. For every angle `a`,
/// the wrap of `wrap(a)` plus a full turn equals `wrap(a)`, and the wrap
/// of `wrap(a)` itself is again `wrap(a)`.
pub proof fn lemma_wrap_angle_periodic(a: int)
    ensures
        wrap_spec(wrap_spec(a) + TWO_PI_FP) == wrap_spec(a),
        wrap_spec(wrap_spec(a)) == wrap_spec(a),
{
    let m = TWO_PI_FP as int;
    vstd::arithmetic::div_mod::lemma_mod_add_multiples_vanish(wrap_spec(a), m);
    vstd::arithmetic::div_mod::lemma_mod_twice(a, m);
}

/// What `calculate_lighting` computes: linear falloff from full brightness
/// at distance zero down to darkness at the light radius, clamped.
pub open spec fn lighting_spec(distance: int, radius: int) -> int {
    if distance >= radius {
        0
    } else {
        (radius - distance) * (FP_ONE as int) / radius
    }
}

/// Light intensity in [0, FP_ONE] for a point at `distance` from the
/// viewer under a light of radius `radius` (both fixed-point tile units).
pub fn calculate_lighting(distance: i64, radius: i64) -> (r: i64)
    requires
        0 <= distance,
        0 < radius <= 0x10000000000,
    ensures
        r == lighting_spec(distance as int, radius as int),
        0 <= r <= FP_ONE,
        distance == 0 ==> r == FP_ONE,
        distance >= radius ==> r == 0,
{
    if distance >= radius {
        0
    } else {
        let num: i64 = (radius - distance) * FP_ONE;
        let r: i64 = ((num as u64) / (radius as u64)) as i64;
        proof {
            let ri = radius as int;
            let ni = num as int;
            lemma_div_pos_is_pos(ni, ri);
            lemma_div_is_ordered(ni, ri * (FP_ONE as int), ri);
            lemma_div_multiples_vanish(FP_ONE as int, ri);
            if distance == 0 {
                lemma_div_multiples_vanish(FP_ONE as int, ri);
            }
        }
        r
    }
}


/// The integer square root: the greatest `r` with `r * r <= n` (zero for
/// negative arguments).
pub open spec fn sqrt_floor(n: int) -> int
    decreases n,
{
    if n <= 0 {
        0
    } else {
        let p = sqrt_floor(n - 1);
        if (p + 1) * (p + 1) <= n {
            p + 1
        } else {
            p
        }
    }
}

/// `sqrt_floor` brackets its argument between consecutive squares.
pub proof fn lemma_sqrt_floor_bounds(n: int)
    requires
        n >= 0,
    ensures
        sqrt_floor(n) >= 0,
        sqrt_floor(n) * sqrt_floor(n) <= n,
        n < (sqrt_floor(n) + 1) * (sqrt_floor(n) + 1),
    decreases n,
{
    if n > 0 {
        lemma_sqrt_floor_bounds(n - 1);
        let p = sqrt_floor(n - 1);
        if (p + 1) * (p + 1) <= n {
            assert(n < (p + 2) * (p + 2)) by (nonlinear_arith)
                requires
                    n - 1 < (p + 1) * (p + 1),
                    p >= 0,
            ;
        }
    }
}

/// Any value bracketed between consecutive squares is the square root.
pub proof fn lemma_sqrt_floor_unique(n: int, r: int)
    requires
        0 <= r,
        r * r <= n,
        n < (r + 1) * (r + 1),
    ensures
        r == sqrt_floor(n),
{
    lemma_sqrt_floor_bounds(n);
    let s = sqrt_floor(n);
    if r < s {
        assert((r + 1) * (r + 1) <= s * s) by (nonlinear_arith)
            requires
                0 <= r,
                r + 1 <= s,
        ;
    }
    if s < r {
        assert((s + 1) * (s + 1) <= r * r) by (nonlinear_arith)
            requires
                0 <= s,
                s + 1 <= r,
        ;
    }
}

/// Integer square root: the greatest `r` with `r * r <= n`.
pub fn fp_sqrt(n: u64) -> (r: u64)
    requires
        n < 0x100000000000000u64,
    ensures
        r * r <= n,
        n < (r + 1) * (r + 1),
        r < 0x10000000u64,
        r == sqrt_floor(n as int),
{
    let mut lo: u64 = 0;
    let mut hi: u64 = 0xFFFFFFFu64;
    while lo < hi
        invariant
            lo <= hi,
            hi < 0x10000000u64,
            lo * lo <= n,
            n < (hi + 1) * (hi + 1),
        decreases hi - lo,
    {
        let mid: u64 = lo + (hi - lo + 1) / 2;
        proof {
            assert(mid * mid < 0x100000000000000u64) by (nonlinear_arith)
                requires
                    mid < 0x10000000u64,
            ;
        }
        if mid * mid <= n {
            lo = mid;
        } else {
            hi = mid - 1;
        }
    }
    proof {
        lemma_sqrt_floor_unique(n as int, lo as int);
    }
    lo
}

/// What the sine approximation computes on [0, PI_FP]: the Bhaskara
/// rational approximation 16 x (pi - x) / (5 pi^2 - 4 x (pi - x)),
/// carried out in fixed-point integers.
pub open spec fn sin_half_spec(x: int) -> int {
    16 * x * (PI_FP - x) * FP_ONE / (5 * PI_FP * PI_FP - 4 * x * (PI_FP - x))
}

/// What `fp_sin` computes on a normalized angle: the approximation on the
/// first half turn, and its negation on the second.
pub open spec fn sin_spec(a: int) -> int {
    if a <= PI_FP {
        sin_half_spec(a)
    } else {
        -sin_half_spec(a - PI_FP)
    }
}

/// What `fp_cos` computes: the sine a quarter turn ahead.
pub open spec fn cos_spec(a: int) -> int {
    sin_spec(wrap_spec(a + HALF_PI_FP))
}

proof fn lemma_sin_half_bounds(x: int)
    requires
        0 <= x <= PI_FP,
    ensures
        0 <= sin_half_spec(x) <= FP_ONE,
{
    let p = PI_FP as int;
    let f = FP_ONE as int;
    let t = x * (p - x);
    assert(0 <= 4 * t <= p * p) by (nonlinear_arith)
        requires
            0 <= x <= p,
            t == x * (p - x),
            p == PI_FP as int,
    ;
    let num = 16 * t * f;
    let den = 5 * p * p - 4 * t;
    assert(den >= 4 * p * p);
    assert(num >= 0) by (nonlinear_arith)
        requires
            t >= 0,
            f > 0,
            num == 16 * t * f,
    ;
    assert(num <= f * den) by (nonlinear_arith)
        requires
            num == 16 * t * f,
            den == 5 * p * p - 4 * t,
            4 * t <= p * p,
            t >= 0,
            f > 0,
    ;
    assert(16 * x * (p - x) * f == num) by (nonlinear_arith)
        requires
            t == x * (p - x),
            num == 16 * t * f,
    ;
    assert(5 * p * p - 4 * x * (p - x) == den) by (nonlinear_arith)
        requires
            t == x * (p - x),
            den == 5 * p * p - 4 * t,
    ;
    lemma_div_pos_is_pos(num, den);
    lemma_div_is_ordered(num, f * den, den);
    lemma_div_multiples_vanish(f, den);
    assert(sin_half_spec(x) == num / den);
}

/// The Bhaskara sine approximation on the first half turn.
fn sin_half(x: i64) -> (r: i64)
    requires
        0 <= x <= PI_FP,
    ensures
        r == sin_half_spec(x as int),
        0 <= r <= FP_ONE,
{
    proof {
        assert(0 <= x * (PI_FP - x) <= PI_FP * PI_FP) by (nonlinear_arith)
            requires
                0 <= x <= PI_FP,
        ;
    }
    let t: i64 = x * (PI_FP - x);
    let num: i64 = 16 * t * FP_ONE;
    let den: i64 = 5 * PI_FP * PI_FP - 4 * t;
    let r: i64 = ((num as u64) / (den as u64)) as i64;
    proof {
        let xi = x as int;
        let p = PI_FP as int;
        let f = FP_ONE as int;
        lemma_sin_half_bounds(xi);
        assert(16 * xi * (p - xi) * f == num) by (nonlinear_arith)
            requires
                t == xi * (p - xi),
                num == 16 * t * f,
        ;
        assert(5 * p * p - 4 * xi * (p - xi) == den) by (nonlinear_arith)
            requires
                t == xi * (p - xi),
                den == 5 * p * p - 4 * t,
        ;
        assert(sin_half_spec(xi) == num / den);
        assert(num as u64 as int == num as int);
        assert(den as u64 as int == den as int);
        assert((num as u64) / (den as u64) == num / den);
    }
    r
}

/// Sine of a normalized fixed-point angle; the result lies in
/// [-FP_ONE, FP_ONE].
pub fn fp_sin(a: i64) -> (r: i64)
    requires
        0 <= a < TWO_PI_FP,
    ensures
        r == sin_spec(a as int),
        -FP_ONE <= r <= FP_ONE,
{
    if a <= PI_FP {
        sin_half(a)
    } else {
        -sin_half(a - PI_FP)
    }
}

/// Cosine of a normalized fixed-point angle; the result lies in
/// [-FP_ONE, FP_ONE].
pub fn fp_cos(a: i64) -> (r: i64)
    requires
        0 <= a < TWO_PI_FP,
    ensures
        r == cos_spec(a as int),
        -FP_ONE <= r <= FP_ONE,
{
    let shifted = wrap_angle(a + HALF_PI_FP);
    fp_sin(shifted)
}


/// Truncated (toward zero) integer division, the rounding the engine uses
/// for fixed-point quotients.
pub open spec fn tdiv(a: int, b: int) -> int {
    if (a >= 0) == (b >= 0) {
        (vstd::math::abs(a) as int) / (vstd::math::abs(b) as int)
    } else {
        -((vstd::math::abs(a) as int) / (vstd::math::abs(b) as int))
    }
}

/// Signed fixed-point division, truncating toward zero. The magnitude of
/// the result never exceeds the magnitude of the dividend.
pub fn sdiv(a: i64, b: i64) -> (r: i64)
    requires
        b != 0,
        -0x4000000000000000 <= a <= 0x4000000000000000,
        -0x4000000000000000 <= b <= 0x4000000000000000,
    ensures
        r == tdiv(a as int, b as int),
        vstd::math::abs(r as int) <= vstd::math::abs(a as int),
        vstd::math::abs(r as int) == vstd::math::abs(a as int) / vstd::math::abs(b as int),
{
    let ua: u64 = if a < 0 {
        (-a) as u64
    } else {
        a as u64
    };
    let ub: u64 = if b < 0 {
        (-b) as u64
    } else {
        b as u64
    };
    let q: u64 = ua / ub;
    proof {
        vstd::arithmetic::div_mod::lemma_div_is_ordered_by_denominator(ua as int, 1, ub as int);
        vstd::arithmetic::div_mod::lemma_div_by_self(1);
    }
    if (a < 0) != (b < 0) {
        -(q as i64)
    } else {
        q as i64
    }
}

/// The greatest multiple of `FP_ONE` at or below a nonnegative value.
pub open spec fn floor_mult_spec(v: int) -> int {
    (v / (FP_ONE as int)) * FP_ONE
}

/// The least multiple of `FP_ONE` at or above a nonnegative value.
pub open spec fn ceil_mult_spec(v: int) -> int {
    ((v + FP_ONE - 1) / (FP_ONE as int)) * FP_ONE
}

/// Rounds a nonnegative fixed-point value down to a whole tile boundary.
pub fn floor_mult(v: i64) -> (r: i64)
    requires
        0 <= v <= 0x400000000000,
    ensures
        r == floor_mult_spec(v as int),
        0 <= r <= v,
{
    proof {
        vstd::arithmetic::div_mod::lemma_fundamental_div_mod(v as int, FP_ONE as int);
        vstd::arithmetic::div_mod::lemma_div_pos_is_pos(v as int, FP_ONE as int);
    }
    ((v as u64 / 65536) * 65536) as i64
}

/// Rounds a nonnegative fixed-point value up to a whole tile boundary.
pub fn ceil_mult(v: i64) -> (r: i64)
    requires
        0 <= v <= 0x400000000000,
    ensures
        r == ceil_mult_spec(v as int),
        v <= r <= v + FP_ONE - 1,
{
    proof {
        vstd::arithmetic::div_mod::lemma_fundamental_div_mod(v as int + 65535, FP_ONE as int);
        vstd::arithmetic::div_mod::lemma_div_pos_is_pos(v as int + 65535, FP_ONE as int);
    }
    (((v as u64 + 65535) / 65536) * 65536) as i64
}


/// What the arctangent approximation computes on [0, FP_ONE]: a quarter
/// turn scaled linearly plus a quadratic correction term.
pub open spec fn atan_unit_spec(t: int) -> int {
    (QUARTER_PI_FP * t + 17895 * t * (FP_ONE - t) / (FP_ONE as int)) / (FP_ONE as int)
}

/// Arctangent of a ratio in [0, 1] (fixed point); the result lies in
/// [0, HALF_PI_FP).
fn atan_unit(t: i64) -> (r: i64)
    requires
        0 <= t <= FP_ONE,
    ensures
        r == atan_unit_spec(t as int),
        0 <= r < HALF_PI_FP,
{
    proof {
        assert(0 <= t * (FP_ONE - t) && 4 * (t * (FP_ONE - t)) <= FP_ONE * FP_ONE)
            by (nonlinear_arith)
            requires
                0 <= t <= FP_ONE,
        ;
        assert(17895 * (t * (FP_ONE - t)) == 17895 * t * (FP_ONE - t)) by (nonlinear_arith);
    }
    let corr: i64 = ((17895u64 * ((t * (FP_ONE - t)) as u64)) / 65536) as i64;
    proof {
        lemma_div_is_ordered(17895 * (t as int) * (FP_ONE - t as int), (17895 * 0x40000000) as int, 65536);
        lemma_div_pos_is_pos(17895 * (t as int) * (FP_ONE - t as int), 65536);
    }
    let num: i64 = QUARTER_PI_FP * t + corr;
    let r: i64 = ((num as u64) / 65536) as i64;
    proof {
        lemma_div_is_ordered(num as int, 0x18000000000int, 65536);
        lemma_div_pos_is_pos(num as int, 65536);
    }
    r
}

/// What `fp_atan2` computes: an octant-reduced arctangent with quadrant
/// correction, always in [0, TWO_PI_FP).
pub open spec fn atan2_spec(y: int, x: int) -> int {
    let ax = vstd::math::abs(x) as int;
    let ay = vstd::math::abs(y) as int;
    if ax == 0 && ay == 0 {
        0
    } else {
        let base = if ax >= ay {
            atan_unit_spec(ay * FP_ONE / ax)
        } else {
            HALF_PI_FP - atan_unit_spec(ax * FP_ONE / ay)
        };
        if x >= 0 && y >= 0 {
            base
        } else if x < 0 && y >= 0 {
            PI_FP - base
        } else if x < 0 {
            PI_FP + base
        } else if base == 0 {
            0
        } else {
            TWO_PI_FP - base
        }
    }
}

/// The angle of the vector (x, y), measured like `atan2` but normalized
/// into [0, TWO_PI_FP).
pub fn fp_atan2(y: i64, x: i64) -> (r: i64)
    requires
        -0x40000000 <= y <= 0x40000000,
        -0x40000000 <= x <= 0x40000000,
    ensures
        r == atan2_spec(y as int, x as int),
        0 <= r < TWO_PI_FP,
{
    let ax: i64 = if x < 0 {
        -x
    } else {
        x
    };
    let ay: i64 = if y < 0 {
        -y
    } else {
        y
    };
    if ax == 0 && ay == 0 {
        return 0;
    }
    let base: i64 = if ax >= ay {
        proof {
            lemma_div_is_ordered(ay as int * FP_ONE, ax as int * FP_ONE, ax as int);
            lemma_div_multiples_vanish(FP_ONE as int, ax as int);
            lemma_div_pos_is_pos(ay as int * FP_ONE, ax as int);
        }
        let t: i64 = ((ay as u64 * 65536) / (ax as u64)) as i64;
        atan_unit(t)
    } else {
        proof {
            lemma_div_is_ordered(ax as int * FP_ONE, ay as int * FP_ONE, ay as int);
            lemma_div_multiples_vanish(FP_ONE as int, ay as int);
            lemma_div_pos_is_pos(ax as int * FP_ONE, ay as int);
        }
        let t: i64 = ((ax as u64 * 65536) / (ay as u64)) as i64;
        HALF_PI_FP - atan_unit(t)
    };
    if x >= 0 && y >= 0 {
        base
    } else if x < 0 && y >= 0 {
        PI_FP - base
    } else if x < 0 {
        PI_FP + base
    } else if base == 0 {
        0
    } else {
        TWO_PI_FP - base
    }
}

/// Rounded division of nonnegative fixed-point values: the quotient
/// rounded to nearest, half away from zero.
pub open spec fn rdiv_spec(a: int, b: int) -> int {
    (a + b / 2) / b
}

/// Rounded division for nonnegative dividends and positive divisors.
pub fn rdiv(a: i64, b: i64) -> (r: i64)
    requires
        0 <= a <= 0x1000000000000,
        0 < b <= 0x1000000000000,
    ensures
        r == rdiv_spec(a as int, b as int),
        0 <= r <= a,
{
    proof {
        lemma_div_pos_is_pos(a as int + (b as int) / 2, b as int);
        vstd::arithmetic::div_mod::lemma_div_is_ordered_by_denominator(
            a as int + (b as int) / 2,
            1,
            b as int,
        );
        vstd::arithmetic::div_mod::lemma_div_by_self(1);
        if a == 0 {
            vstd::arithmetic::div_mod::lemma_basic_div((b as int) / 2, b as int);
        } else {
            assert(a as int + (b as int) / 2 <= (a as int) * (b as int)) by (nonlinear_arith)
                requires
                    1 <= a as int,
                    1 <= b as int,
            ;
            lemma_div_is_ordered(a as int + (b as int) / 2, (a as int) * (b as int), b as int);
            lemma_div_multiples_vanish(a as int, b as int);
        }
    }
    ((a as u64 + (b as u64) / 2) / (b as u64)) as i64
}


/// Floor division by a positive divisor (the Euclidean quotient), the
/// conversion from continuous fixed-point positions to grid cells.
pub fn fdiv(a: i64, b: i64) -> (r: i64)
    requires
        0 < b <= 0x100000000,
        -0x1000000000000000 <= a <= 0x1000000000000000,
    ensures
        r == a as int / b as int,
{
    proof {
        vstd::arithmetic::div_mod::lemma_fundamental_div_mod(a as int, b as int);
        let q = a as int / b as int;
        let rr = a as int % b as int;
        assert(-0x2000000000000000 <= q <= 0x2000000000000000) by (nonlinear_arith)
            requires
                a as int == b as int * q + rr,
                0 <= rr < b as int,
                1 <= b as int <= 0x100000000,
                -0x1000000000000000 <= a as int <= 0x1000000000000000,
        ;
    }
    match a.checked_div_euclid(b) {
        Some(v) => v,
        None => {
            proof {
                assert(false);
            }
            0
        },
    }
}


/// Fixed-point multiply: `a * b / FP_ONE`, truncating toward zero, for a
/// bounded first factor and a trigonometric-range second factor.
pub fn mul_div_fp(a: i64, b: i64) -> (r: i64)
    requires
        -0x100000000000 <= a <= 0x100000000000,
        -65536 <= b <= 65536,
    ensures
        r == tdiv(a as int * b as int, FP_ONE as int),
        -0x100000000000 <= r <= 0x100000000000,
{
    proof {
        assert(-0x1000000000000000 <= a as int * b as int <= 0x1000000000000000)
            by (nonlinear_arith)
            requires
                -0x100000000000 <= a as int <= 0x100000000000,
                -65536 <= b as int <= 65536,
        ;
    }
    let r = sdiv(a * b, FP_ONE);
    proof {
        vstd::arithmetic::div_mod::lemma_div_is_ordered(
            vstd::math::abs(a as int * b as int) as int,
            0x1000000000000000int,
            65536,
        );
    }
    r
}

} // verus!
