//! Fixed-point plane geometry for the simulation.
//!
//! All lengths and speeds are integers in milli-units (one field unit is
//! 1000). Velocity scaling is expressed as a rational factor `num / den`
//! applied to each component with truncation toward zero, and the speed
//! clamp rescales a vector down to a maximum magnitude using an exact
//! integer square root.

use vstd::prelude::*;
use vstd::arithmetic::div_mod::{lemma_div_multiples_vanish, lemma_fundamental_div_mod};

verus! {

/// Largest velocity or position component the simulation will produce, in
/// milli-units. Scalings whose result would pass this cap leave the vector
/// unchanged instead (a machine limit; the gameplay constants keep real
/// values about nine orders of magnitude below it).
pub const COMPONENT_LIMIT: i64 = 1_000_000_000_000_000;

/// A 2D vector in fixed-point milli-units.
#[derive(Clone, Copy, PartialEq, Eq, Structural, Debug)]
pub struct Vec2 {
    pub x: i64,
    pub y: i64,
}

impl Vec2 {
    /// The zero vector.
    pub fn zero() -> (r: Vec2)
        ensures
            r.x == 0 && r.y == 0,
    {
        Vec2 { x: 0, y: 0 }
    }
}

pub open spec fn abs(x: int) -> int {
    if x >= 0 {
        x
    } else {
        -x
    }
}

/// Squared Euclidean magnitude of a vector.
pub open spec fn norm_sq(v: Vec2) -> int {
    v.x * v.x + v.y * v.y
}

/// One component scaled by `num / den`, truncating toward zero.
pub open spec fn scaled_comp(x: int, num: int, den: int) -> int {
    if x >= 0 {
        (x * num) / den
    } else {
        -((-x * num) / den)
    }
}

/// Whether scaling `v` by `num / den` keeps both components within the
/// machine cap, so that the scaling is applied rather than skipped.
pub open spec fn scale_fits(v: Vec2, num: int, den: int) -> bool {
    abs(v.x as int) * num / den <= COMPONENT_LIMIT && abs(v.y as int) * num / den
        <= COMPONENT_LIMIT
}

/// The vector scaled by `num / den`, componentwise, truncating toward zero.
pub open spec fn scaled_vec(v: Vec2, num: int, den: int) -> Vec2 {
    Vec2 { x: scaled_comp(v.x as int, num, den) as i64, y: scaled_comp(v.y as int, num, den) as i64 }
}

/// `2^63`, an upper bound on the magnitude of any `i64`.
pub const I64_MAG_BOUND: u128 = 0x8000_0000_0000_0000;

/// `2^127`, an upper bound on the squared magnitude of any `i64` vector.
pub const NORM_SQ_BOUND: u128 = 0x8000_0000_0000_0000_0000_0000_0000_0000;

/// Magnitude of a component as an unsigned wide integer.
fn abs_u128(x: i64) -> (r: u128)
    ensures
        r == abs(x as int),
        r <= I64_MAG_BOUND,
{
    if x >= 0 {
        x as u128
    } else {
        (-(x as i128)) as u128
    }
}

proof fn lemma_abs_sq(x: int)
    by (nonlinear_arith)
    ensures
        abs(x) * abs(x) == x * x,
{
}

proof fn lemma_sq_le(a: int, s: int)
    by (nonlinear_arith)
    requires
        0 <= a,
        0 <= s,
        a * a <= s * s,
    ensures
        a <= s,
{
}

/// Scale a velocity vector by the rational factor `num / den`, truncating
/// toward zero. If either scaled component would pass the machine cap the
/// vector is returned unchanged.
pub fn scale_velocity(v: Vec2, num: u64, den: u64) -> (r: Vec2)
    requires
        1 <= den,
    ensures
        scale_fits(v, num as int, den as int) ==> r == scaled_vec(v, num as int, den as int),
        !scale_fits(v, num as int, den as int) ==> r == v,
{
    let mx = abs_u128(v.x);
    let my = abs_u128(v.y);
    proof {
        assert(mx * (num as u128) < 0xFFFF_FFFF_FFFF_FFFF_FFFF_FFFF_FFFF_FFFFu128)
            by (nonlinear_arith)
            requires
                mx <= 0x8000_0000_0000_0000u128,
                num <= 0xFFFF_FFFF_FFFF_FFFFu64,
        ;
        assert(my * (num as u128) < 0xFFFF_FFFF_FFFF_FFFF_FFFF_FFFF_FFFF_FFFFu128)
            by (nonlinear_arith)
            requires
                my <= 0x8000_0000_0000_0000u128,
                num <= 0xFFFF_FFFF_FFFF_FFFFu64,
        ;
    }
    let qx = mx * (num as u128) / (den as u128);
    let qy = my * (num as u128) / (den as u128);
    if qx <= COMPONENT_LIMIT as u128 && qy <= COMPONENT_LIMIT as u128 {
        let rx = if v.x >= 0 {
            qx as i64
        } else {
            -(qx as i64)
        };
        let ry = if v.y >= 0 {
            qy as i64
        } else {
            -(qy as i64)
        };
        Vec2 { x: rx, y: ry }
    } else {
        v
    }
}

/// A vector scaled by `num / den` where the result fits under the machine
/// cap, unchanged where it does not: the value `scale_velocity` computes.
pub open spec fn scaled_or_same(v: Vec2, num: int, den: int) -> Vec2 {
    if scale_fits(v, num, den) {
        scaled_vec(v, num, den)
    } else {
        v
    }
}

/// Scaling keeps components within the machine cap: where the scaled value
/// would not fit the vector is unchanged, and an unchanged in-cap vector
/// stays in cap.
pub proof fn lemma_scaled_or_same_bounded(v: Vec2, num: int, den: int)
    requires
        abs(v.x as int) <= COMPONENT_LIMIT,
        abs(v.y as int) <= COMPONENT_LIMIT,
        0 <= num,
        1 <= den,
    ensures
        abs(scaled_or_same(v, num, den).x as int) <= COMPONENT_LIMIT,
        abs(scaled_or_same(v, num, den).y as int) <= COMPONENT_LIMIT,
{
    if scale_fits(v, num, den) {
        lemma_scaled_comp_abs(v.x as int, num, den);
        lemma_scaled_comp_abs(v.y as int, num, den);
    }
}

/// The magnitude of a scaled component is the scaled magnitude.
pub proof fn lemma_scaled_comp_abs(x: int, num: int, den: int)
    requires
        0 <= num,
        1 <= den,
    ensures
        abs(scaled_comp(x, num, den)) == abs(x) * num / den,
{
    assert(0 <= abs(x) * num) by (nonlinear_arith)
        requires
            0 <= num,
    ;
    vstd::arithmetic::div_mod::lemma_div_pos_is_pos(abs(x) * num, den);
}

/// The image of a vector under one of the eight axis symmetries of the
/// plane: the four quarter-turn rotations (`k` in 0..4) and the four
/// reflections (`k` in 4..8). Each preserves the magnitude exactly.
pub open spec fn eighth_image(v: Vec2, k: int) -> Vec2 {
    if k == 0 {
        v
    } else if k == 1 {
        Vec2 { x: (-(v.y as int)) as i64, y: v.x }
    } else if k == 2 {
        Vec2 { x: (-(v.x as int)) as i64, y: (-(v.y as int)) as i64 }
    } else if k == 3 {
        Vec2 { x: v.y, y: (-(v.x as int)) as i64 }
    } else if k == 4 {
        Vec2 { x: v.y, y: v.x }
    } else if k == 5 {
        Vec2 { x: (-(v.x as int)) as i64, y: v.y }
    } else if k == 6 {
        Vec2 { x: (-(v.y as int)) as i64, y: (-(v.x as int)) as i64 }
    } else {
        Vec2 { x: v.x, y: (-(v.y as int)) as i64 }
    }
}

/// Turn or mirror a vector by one of the eight axis symmetries, keeping
/// its magnitude exactly.
pub fn rotate_eighth(v: Vec2, k: u64) -> (r: Vec2)
    requires
        k < 8,
        abs(v.x as int) <= COMPONENT_LIMIT,
        abs(v.y as int) <= COMPONENT_LIMIT,
    ensures
        r == eighth_image(v, k as int),
        norm_sq(r) == norm_sq(v),
        abs(r.x as int) <= COMPONENT_LIMIT,
        abs(r.y as int) <= COMPONENT_LIMIT,
{
    let r = match k {
        0 => v,
        1 => Vec2 { x: -v.y, y: v.x },
        2 => Vec2 { x: -v.x, y: -v.y },
        3 => Vec2 { x: v.y, y: -v.x },
        4 => Vec2 { x: v.y, y: v.x },
        5 => Vec2 { x: -v.x, y: v.y },
        6 => Vec2 { x: -v.y, y: -v.x },
        _ => Vec2 { x: v.x, y: -v.y },
    };
    proof {
        assert(norm_sq(r) == norm_sq(v)) by (nonlinear_arith)
            requires
                (r.x == v.x || r.x == -(v.x as int) || r.x == v.y || r.x == -(v.y as int)),
                (r.y == v.y || r.y == -(v.y as int) || r.y == v.x || r.y == -(v.x as int)),
                (r.x == v.x || r.x == -(v.x as int)) <==> (r.y == v.y || r.y == -(v.y as int)),
        ;
    }
    r
}

/// Least nonnegative `r` with `n <= r * r`.
pub open spec fn is_ceil_sqrt(n: int, r: int) -> bool {
    &&& 0 <= r
    &&& n <= r * r
    &&& r == 0 || (r - 1) * (r - 1) < n
}

/// The rounding point of `is_ceil_sqrt` is unique.
pub proof fn lemma_ceil_sqrt_unique(n: int, r1: int, r2: int)
    by (nonlinear_arith)
    requires
        is_ceil_sqrt(n, r1),
        is_ceil_sqrt(n, r2),
    ensures
        r1 == r2,
{
}

/// Largest `r` with `r * r <= n`, by binary search.
pub(crate) fn floor_sqrt_u128(n: u128) -> (r: u64)
    requires
        n <= NORM_SQ_BOUND,
    ensures
        (r as int) * (r as int) <= n as int,
        (n as int) < (r as int + 1) * (r as int + 1),
{
    let mut lo: u128 = 0;
    let mut hi: u128 = 0xFFFF_FFFF_FFFF_FFFF;
    assert((hi as int + 1) * (hi as int + 1) > n as int) by (nonlinear_arith)
        requires
            n <= 0x8000_0000_0000_0000_0000_0000_0000_0000u128,
            hi == 0xFFFF_FFFF_FFFF_FFFFu128,
    ;
    while lo < hi
        invariant
            lo <= hi,
            hi <= 0xFFFF_FFFF_FFFF_FFFF,
            (lo as int) * (lo as int) <= n as int,
            (n as int) < (hi as int + 1) * (hi as int + 1),
        decreases hi - lo,
    {
        let mid = (lo + hi + 1) / 2;
        assert(lo < mid <= hi);
        assert(mid * mid < 0xFFFF_FFFF_FFFF_FFFF_FFFF_FFFF_FFFF_FFFFu128) by (nonlinear_arith)
            requires
                mid <= 0xFFFF_FFFF_FFFF_FFFFu128,
        ;
        if mid * mid <= n {
            lo = mid;
        } else {
            hi = mid - 1;
        }
    }
    lo as u64
}

/// Least `r` with `n <= r * r`.
fn ceil_sqrt_u128(n: u128) -> (r: u64)
    requires
        n <= NORM_SQ_BOUND,
    ensures
        is_ceil_sqrt(n as int, r as int),
{
    let f = floor_sqrt_u128(n);
    assert(f < 0xFFFF_FFFF_FFFF_FFFFu64) by (nonlinear_arith)
        requires
            (f as int) * (f as int) <= n as int,
            n <= 0x8000_0000_0000_0000_0000_0000_0000_0000u128,
    ;
    assert((f as u128) * (f as u128) < 0xFFFF_FFFF_FFFF_FFFF_FFFF_FFFF_FFFF_FFFFu128)
        by (nonlinear_arith)
        requires
            f <= 0xFFFF_FFFF_FFFF_FFFFu64,
    ;
    if (f as u128) * (f as u128) == n {
        assert(f == 0 || (f as int - 1) * (f as int - 1) < n as int) by (nonlinear_arith)
            requires
                (f as int) * (f as int) == n as int,
                0 <= f,
        ;
        f
    } else {
        assert((f as int) * (f as int) < n as int);
        f + 1
    }
}

/// A clamped component is no larger than the maximum: `a * m / s <= m`
/// whenever `a <= s`.
proof fn lemma_scaled_le_max(a: int, m: int, s: int)
    requires
        0 <= a <= s,
        0 <= m,
        0 < s,
    ensures
        0 <= a * m / s <= m,
{
    assert(a * m <= s * m) by (nonlinear_arith)
        requires
            a <= s,
            0 <= m,
    ;
    assert(0 <= a * m) by (nonlinear_arith)
        requires
            0 <= a,
            0 <= m,
    ;
    vstd::arithmetic::div_mod::lemma_div_is_ordered(a * m, s * m, s);
    lemma_div_multiples_vanish(m, s);
    assert(s * m == m * s) by (nonlinear_arith);
    vstd::arithmetic::div_mod::lemma_div_pos_is_pos(a * m, s);
}

/// Rescaling a vector by `max / s`, where `s` is the ceiling square root of
/// its squared magnitude, brings the squared magnitude under `max * max`.
proof fn lemma_rescaled_norm_le(a: int, b: int, m: int, s: int)
    requires
        0 <= a,
        0 <= b,
        0 <= m,
        0 < s,
        a * a + b * b <= s * s,
    ensures
        (a * m / s) * (a * m / s) + (b * m / s) * (b * m / s) <= m * m,
{
    let x = a * m / s;
    let y = b * m / s;
    assert(0 <= a * m) by (nonlinear_arith)
        requires
            0 <= a,
            0 <= m,
    ;
    assert(0 <= b * m) by (nonlinear_arith)
        requires
            0 <= b,
            0 <= m,
    ;
    lemma_fundamental_div_mod(a * m, s);
    lemma_fundamental_div_mod(b * m, s);
    vstd::arithmetic::div_mod::lemma_mod_division_less_than_divisor(a * m, s);
    vstd::arithmetic::div_mod::lemma_mod_division_less_than_divisor(b * m, s);
    vstd::arithmetic::div_mod::lemma_div_pos_is_pos(a * m, s);
    vstd::arithmetic::div_mod::lemma_div_pos_is_pos(b * m, s);
    assert(s * x <= a * m && s * y <= b * m);
    assert((x * x + y * y) * (s * s) <= (m * m) * (s * s)) by (nonlinear_arith)
        requires
            0 <= x,
            0 <= y,
            0 <= m,
            0 < s,
            s * x <= a * m,
            s * y <= b * m,
            a * a + b * b <= s * s,
    ;
    assert(x * x + y * y <= m * m) by (nonlinear_arith)
        requires
            (x * x + y * y) * (s * s) <= (m * m) * (s * s),
            0 < s,
    ;
}

/// The clamp relation: `r` is `v` unchanged when `v` is already within the
/// speed limit, and otherwise `v` rescaled down to magnitude `max` along its
/// own direction, using the ceiling square root of the squared magnitude.
pub open spec fn speed_clamped(v: Vec2, max: int, r: Vec2) -> bool {
    if norm_sq(v) <= max * max {
        r == v
    } else {
        exists|s: int|
            is_ceil_sqrt(norm_sq(v), s) && r == (Vec2 {
                x: scaled_comp(v.x as int, max, s) as i64,
                y: scaled_comp(v.y as int, max, s) as i64,
            })
    }
}

/// Rescale `v` down to magnitude `max` (direction preserved, truncating) if
/// it is faster than `max`; return it unchanged otherwise.
pub fn clamp_velocity(v: Vec2, max: i64) -> (r: Vec2)
    requires
        1 <= max <= 1_000_000,
    ensures
        speed_clamped(v, max as int, r),
        norm_sq(r) <= max * max,
        norm_sq(v) <= max * max ==> r == v,
        abs(r.x as int) <= max && abs(r.y as int) <= max || r == v,
{
    let mx = abs_u128(v.x);
    let my = abs_u128(v.y);
    proof {
        lemma_abs_sq(v.x as int);
        lemma_abs_sq(v.y as int);
        assert(mx * mx + my * my <= 0x8000_0000_0000_0000_0000_0000_0000_0000u128)
            by (nonlinear_arith)
            requires
                mx <= 0x8000_0000_0000_0000u128,
                my <= 0x8000_0000_0000_0000u128,
        ;
        assert((mx * mx + my * my) as int == norm_sq(v)) by (nonlinear_arith)
            requires
                mx == abs(v.x as int),
                my == abs(v.y as int),
                abs(v.x as int) * abs(v.x as int) == v.x * v.x,
                abs(v.y as int) * abs(v.y as int) == v.y * v.y,
                mx * mx + my * my <= 0x8000_0000_0000_0000_0000_0000_0000_0000u128,
        ;
    }
    let n = mx * mx + my * my;
    let m = max as u128;
    proof {
        assert(m * m < 0xFFFF_FFFF_FFFF_FFFF_FFFF_FFFF_FFFF_FFFFu128) by (nonlinear_arith)
            requires
                m <= 1_000_000u128,
        ;
    }
    if n <= m * m {
        assert(norm_sq(v) <= (max as int) * (max as int)) by (nonlinear_arith)
            requires
                n as int == norm_sq(v),
                n <= m * m,
                m == max as u128,
                0 < max,
        ;
        v
    } else {
        assert((max as int) * (max as int) < norm_sq(v)) by (nonlinear_arith)
            requires
                n as int == norm_sq(v),
                n > m * m,
                m == max as u128,
                0 < max,
        ;
        let s = ceil_sqrt_u128(n);
        proof {
            assert(0 < s) by (nonlinear_arith)
                requires
                    is_ceil_sqrt(n as int, s as int),
                    n > m * m,
                    0 <= m,
            ;
            lemma_sq_le(mx as int, s as int);
            lemma_sq_le(my as int, s as int);
            lemma_scaled_le_max(mx as int, max as int, s as int);
            lemma_scaled_le_max(my as int, max as int, s as int);
            lemma_rescaled_norm_le(mx as int, my as int, max as int, s as int);
            assert(mx * m < 0xFFFF_FFFF_FFFF_FFFF_FFFF_FFFF_FFFF_FFFFu128) by (nonlinear_arith)
                requires
                    mx <= 0x8000_0000_0000_0000u128,
                    m <= 1_000_000u128,
            ;
            assert(my * m < 0xFFFF_FFFF_FFFF_FFFF_FFFF_FFFF_FFFF_FFFFu128) by (nonlinear_arith)
                requires
                    my <= 0x8000_0000_0000_0000u128,
                    m <= 1_000_000u128,
            ;
        }
        let qx = mx * m / (s as u128);
        let qy = my * m / (s as u128);
        let rx = if v.x >= 0 {
            qx as i64
        } else {
            -(qx as i64)
        };
        let ry = if v.y >= 0 {
            qy as i64
        } else {
            -(qy as i64)
        };
        let r = Vec2 { x: rx, y: ry };
        proof {
            assert(r.x as int == scaled_comp(v.x as int, max as int, s as int));
            assert(r.y as int == scaled_comp(v.y as int, max as int, s as int));
            assert(norm_sq(r) <= (max as int) * (max as int)) by {
                lemma_abs_sq(r.x as int);
                lemma_abs_sq(r.y as int);
            }
        }
        r
    }
}

proof fn lemma_scaled_comp_round_trip(x: int, num: int, den: int)
    requires
        1 <= num,
        1 <= den,
        (abs(x) * num) % den == 0,
    ensures
        scaled_comp(scaled_comp(x, num, den), den, num) == x,
        abs(scaled_comp(x, num, den)) == abs(x) * num / den,
{
    let a = abs(x);
    let q = (a * num) / den;
    lemma_fundamental_div_mod(a * num, den);
    assert(a * num == den * q);
    assert(q * den == a * num) by (nonlinear_arith)
        requires
            a * num == den * q,
    ;
    assert(0 <= a * num) by (nonlinear_arith)
        requires
            0 <= a,
            1 <= num,
    ;
    vstd::arithmetic::div_mod::lemma_div_pos_is_pos(a * num, den);
    lemma_div_multiples_vanish(a, num);
    assert(num * a == a * num) by (nonlinear_arith);
    assert((q * den) / num == a);
    if q == 0 {
        assert(a == 0) by (nonlinear_arith)
            requires
                a * num == den * q,
                q == 0,
                0 <= a,
                1 <= num,
        ;
    }
    if x >= 0 {
        assert(scaled_comp(x, num, den) == q);
        assert(scaled_comp(q, den, num) == (q * den) / num);
    } else {
        assert(scaled_comp(x, num, den) == -q);
        assert(q > 0);
        assert(scaled_comp(-q, den, num) == -((q * den) / num));
    }
}

/// Scaling by `num / den` and back by `den / num` is exact whenever the
/// first scaling has no remainder: the original vector is reconstructed.
/// (With an odd remainder the truncation loses it: for example a component
/// of 3 scaled by 5/2 gives 7, and 7 scaled back by 2/5 gives 2.)
pub proof fn lemma_scale_round_trip(v: Vec2, num: int, den: int)
    requires
        1 <= num,
        1 <= den,
        (abs(v.x as int) * num) % den == 0,
        (abs(v.y as int) * num) % den == 0,
        abs(v.x as int) * num / den <= COMPONENT_LIMIT,
        abs(v.y as int) * num / den <= COMPONENT_LIMIT,
        abs(v.x as int) <= COMPONENT_LIMIT,
        abs(v.y as int) <= COMPONENT_LIMIT,
    ensures
        scale_fits(v, num, den),
        scale_fits(scaled_vec(v, num, den), den, num),
        scaled_vec(scaled_vec(v, num, den), den, num) == v,
{
    lemma_scaled_comp_round_trip(v.x as int, num, den);
    lemma_scaled_comp_round_trip(v.y as int, num, den);
    let w = scaled_vec(v, num, den);
    assert(w.x as int == scaled_comp(v.x as int, num, den));
    assert(w.y as int == scaled_comp(v.y as int, num, den));
    assert(abs(w.x as int) * den / num == abs(v.x as int)) by {
        assert(abs(w.x as int) == abs(v.x as int) * num / den);
        let q = abs(w.x as int);
        lemma_fundamental_div_mod(abs(v.x as int) * num, den);
        assert(q * den == abs(v.x as int) * num) by (nonlinear_arith)
            requires
                abs(v.x as int) * num == den * q + (abs(v.x as int) * num) % den,
                (abs(v.x as int) * num) % den == 0,
        ;
        lemma_div_multiples_vanish(abs(v.x as int), num);
        assert(num * abs(v.x as int) == abs(v.x as int) * num) by (nonlinear_arith);
    }
    assert(abs(w.y as int) * den / num == abs(v.y as int)) by {
        assert(abs(w.y as int) == abs(v.y as int) * num / den);
        let q = abs(w.y as int);
        lemma_fundamental_div_mod(abs(v.y as int) * num, den);
        assert(q * den == abs(v.y as int) * num) by (nonlinear_arith)
            requires
                abs(v.y as int) * num == den * q + (abs(v.y as int) * num) % den,
                (abs(v.y as int) * num) % den == 0,
        ;
        lemma_div_multiples_vanish(abs(v.y as int), num);
        assert(num * abs(v.y as int) == abs(v.y as int) * num) by (nonlinear_arith);
    }
    assert(scaled_vec(w, den, num).x == v.x);
    assert(scaled_vec(w, den, num).y == v.y);
}

/// Any outcome of the clamp relation is within the speed limit.
pub proof fn lemma_speed_clamped_norm(v: Vec2, max: int, r: Vec2)
    requires
        1 <= max <= i64::MAX,
        speed_clamped(v, max, r),
    ensures
        norm_sq(r) <= max * max,
{
    if norm_sq(v) <= max * max {
    } else {
        let s = choose|s: int|
            is_ceil_sqrt(norm_sq(v), s) && r == (Vec2 {
                x: scaled_comp(v.x as int, max, s) as i64,
                y: scaled_comp(v.y as int, max, s) as i64,
            });
        let mx = abs(v.x as int);
        let my = abs(v.y as int);
        lemma_abs_sq(v.x as int);
        lemma_abs_sq(v.y as int);
        assert(mx * mx + my * my == norm_sq(v));
        assert(0 < s) by (nonlinear_arith)
            requires
                is_ceil_sqrt(norm_sq(v), s),
                norm_sq(v) > max * max,
                1 <= max,
        ;
        assert(mx * mx <= s * s && my * my <= s * s) by (nonlinear_arith)
            requires
                0 <= mx,
                0 <= my,
                mx * mx + my * my <= s * s,
        ;
        lemma_sq_le(mx, s);
        lemma_sq_le(my, s);
        lemma_scaled_le_max(mx, max, s);
        lemma_scaled_le_max(my, max, s);
        lemma_scaled_comp_abs(v.x as int, max, s);
        lemma_scaled_comp_abs(v.y as int, max, s);
        assert(r.x as int == scaled_comp(v.x as int, max, s));
        assert(r.y as int == scaled_comp(v.y as int, max, s));
        lemma_rescaled_norm_le(mx, my, max, s);
        lemma_abs_sq(r.x as int);
        lemma_abs_sq(r.y as int);
        assert(abs(r.x as int) == mx * max / s && abs(r.y as int) == my * max / s);
    }
}

/// The speed clamp is idempotent: clamping an already clamped velocity
/// changes nothing, so applying the clamp twice equals applying it once.
pub proof fn lemma_speed_clamp_idempotent(v: Vec2, r1: Vec2, r2: Vec2, max: int)
    requires
        1 <= max <= i64::MAX,
        speed_clamped(v, max, r1),
        speed_clamped(r1, max, r2),
    ensures
        r2 == r1,
{
    lemma_speed_clamped_norm(v, max, r1);
}

} // verus!
