//! Integer 2D vectors, exact square roots, and fixed-point unit directions.

use vstd::prelude::*;

verus! {

/// The fixed-point value of a unit component: a direction `(DIR_ONE, 0)`
/// points along the positive x axis with length one.
pub const DIR_ONE: i64 = 1_000_000;

/// Largest magnitude of a position coordinate.
pub const MAX_COORD: i64 = 1_000_000_000;

/// A point or a vector of the plane.
#[derive(Clone, Copy, Debug, PartialEq, Eq, Structural)]
pub struct Vec2 {
    pub x: i64,
    pub y: i64,
}

impl Vec2 {
    pub fn new(x: i64, y: i64) -> (r: Vec2)
        ensures
            r.x == x,
            r.y == y,
    {
        Vec2 { x, y }
    }

    pub fn zero() -> (r: Vec2)
        ensures
            r.x == 0,
            r.y == 0,
    {
        Vec2 { x: 0, y: 0 }
    }
}

pub open spec fn abs(a: int) -> int {
    if a >= 0 {
        a
    } else {
        -a
    }
}

/// A point that lies in the playing field.
pub open spec fn is_position(p: Vec2) -> bool {
    -MAX_COORD <= p.x <= MAX_COORD && -MAX_COORD <= p.y <= MAX_COORD
}

/// A vector whose components each lie within one fixed-point unit
/// (`DIR_ONE`): every heading `normalize` gives, the zero vector included,
/// is one.
pub open spec fn is_direction(d: Vec2) -> bool {
    -DIR_ONE <= d.x <= DIR_ONE && -DIR_ONE <= d.y <= DIR_ONE
}

/// Squared Euclidean distance between two points.
pub open spec fn dist_sq(a: Vec2, b: Vec2) -> int {
    (b.x - a.x) * (b.x - a.x) + (b.y - a.y) * (b.y - a.y)
}

/// `a` is closer to `p` than `r`: `|p - a| < r`, for `r >= 0`.
pub open spec fn closer_than(p: Vec2, a: Vec2, r: int) -> bool {
    dist_sq(p, a) < r * r
}

/// `a` is farther from `p` than `r`: `|p - a| > r`, for `r >= 0`.
pub open spec fn farther_than(p: Vec2, a: Vec2, r: int) -> bool {
    dist_sq(p, a) > r * r
}

/// `r` is the integer square root of `n`.
pub open spec fn is_isqrt(n: int, r: int) -> bool {
    0 <= r && r * r <= n < (r + 1) * (r + 1)
}

/// The integer square root of `n >= 0`.
pub open spec fn floor_sqrt(n: int) -> int {
    choose|r: int| is_isqrt(n, r)
}

/// Division that rounds toward zero, as Rust's `/` does, for `d > 0`.
pub open spec fn trunc_div(n: int, d: int) -> int {
    if n >= 0 {
        n / d
    } else {
        -((-n) / d)
    }
}

/// One component of the unit vector along a vector of length `len`, whose
/// component is `a`.
pub open spec fn unit_axis(a: int, len: int) -> int {
    if len <= 0 {
        0
    } else {
        trunc_div(a * DIR_ONE, len)
    }
}

/// The fixed-point unit vector along `(dx, dy)`; the zero vector stays zero.
/// The length is taken of the vector scaled by `DIR_ONE`, so that it is
/// exact to one part in `DIR_ONE` even for short vectors.
pub open spec fn heading(dx: int, dy: int) -> (int, int) {
    let sx = dx * DIR_ONE;
    let sy = dy * DIR_ONE;
    let len = floor_sqrt(sx * sx + sy * sy);
    (unit_axis(sx, len), unit_axis(sy, len))
}

/// The direction from `from` toward `to`.
pub open spec fn heading_to(from: Vec2, to: Vec2) -> (int, int) {
    heading(to.x - from.x, to.y - from.y)
}

proof fn lemma_square_monotone(a: int, b: int)
    requires
        0 <= a <= b,
    ensures
        a * a <= b * b,
{
    assert(a * a <= b * b) by (nonlinear_arith)
        requires
            0 <= a <= b,
    ;
}

proof fn lemma_isqrt_unique(n: int, a: int, b: int)
    requires
        is_isqrt(n, a),
        is_isqrt(n, b),
    ensures
        a == b,
{
    if a < b {
        lemma_square_monotone(a + 1, b);
    } else if b < a {
        lemma_square_monotone(b + 1, a);
    }
}

/// The integer square root of `n`.
pub fn isqrt(n: u128) -> (r: u128)
    ensures
        is_isqrt(n as int, r as int),
        r == floor_sqrt(n as int),
        r < 0x1_0000_0000_0000_0000,
{
    let mut lo: u128 = 0;
    let mut hi: u128 = 0x1_0000_0000_0000_0000;
    assert(n < hi * hi) by (nonlinear_arith)
        requires
            hi == 0x1_0000_0000_0000_0000,
            n <= u128::MAX,
    ;
    while hi - lo > 1
        invariant
            lo < hi <= 0x1_0000_0000_0000_0000,
            lo * lo <= n,
            n < hi * hi,
        decreases hi - lo,
    {
        let mid: u128 = lo + (hi - lo) / 2;
        assert(mid * mid < 0x1_0000_0000_0000_0000_0000_0000_0000_0000) by (nonlinear_arith)
            requires
                mid < 0x1_0000_0000_0000_0000,
        ;
        if mid * mid <= n {
            lo = mid;
        } else {
            hi = mid;
        }
    }
    proof {
        assert(hi == lo + 1);
        assert(is_isqrt(n as int, lo as int));
        let w = floor_sqrt(n as int);
        assert(is_isqrt(n as int, w));
        lemma_isqrt_unique(n as int, lo as int, w);
    }
    lo
}

/// Division that rounds toward zero, for a divisor `d > 0`.
pub(crate) fn div_trunc(n: i128, d: i128) -> (r: i128)
    requires
        d > 0,
        n > i128::MIN,
    ensures
        r == trunc_div(n as int, d as int),
{
    if n >= 0 {
        n / d
    } else {
        let m: i128 = -n;
        -(m / d)
    }
}

proof fn lemma_axis_le_len(a: int, len: int)
    requires
        0 <= len,
        a * a <= (len + 1) * (len + 1) - 1,
    ensures
        abs(a) <= len,
{
    if abs(a) > len {
        lemma_square_monotone(len + 1, abs(a));
        assert(abs(a) * abs(a) == a * a) by (nonlinear_arith);
    }
}

proof fn lemma_unit_axis_bound(a: int, len: int)
    requires
        0 < len,
        abs(a) <= len,
    ensures
        -DIR_ONE <= unit_axis(a, len) <= DIR_ONE,
{
    let m = abs(a) * DIR_ONE;
    assert(0 <= m <= len * DIR_ONE) by (nonlinear_arith)
        requires
            0 <= abs(a) <= len,
            m == abs(a) * DIR_ONE,
    ;
    assert(m / len <= DIR_ONE) by (nonlinear_arith)
        requires
            0 <= m <= len * DIR_ONE,
            0 < len,
    ;
    if a >= 0 {
        assert(a * DIR_ONE == m);
    } else {
        assert(-(a * DIR_ONE) == m) by (nonlinear_arith)
            requires
                m == abs(a) * DIR_ONE,
                a < 0,
        ;
    }
}

/// The fixed-point unit vector along `(dx, dy)`, components rounded toward
/// zero. The zero vector has no direction and gives the zero vector.
pub fn normalize(dx: i64, dy: i64) -> (r: Vec2)
    requires
        -2 * MAX_COORD <= dx <= 2 * MAX_COORD,
        -2 * MAX_COORD <= dy <= 2 * MAX_COORD,
    ensures
        r.x == heading(dx as int, dy as int).0,
        r.y == heading(dx as int, dy as int).1,
        is_direction(r),
{
    let sx: i128 = dx as i128 * DIR_ONE as i128;
    let sy: i128 = dy as i128 * DIR_ONE as i128;
    assert(-2_000_000_000_000_000 <= sx <= 2_000_000_000_000_000) by (nonlinear_arith)
        requires
            -2_000_000_000 <= dx <= 2_000_000_000,
            sx == dx * 1_000_000,
    ;
    assert(-2_000_000_000_000_000 <= sy <= 2_000_000_000_000_000) by (nonlinear_arith)
        requires
            -2_000_000_000 <= dy <= 2_000_000_000,
            sy == dy * 1_000_000,
    ;
    assert(0 <= sx * sx <= 4_000_000_000_000_000_000_000_000_000_000) by (nonlinear_arith)
        requires
            -2_000_000_000_000_000 <= sx <= 2_000_000_000_000_000,
    ;
    assert(0 <= sy * sy <= 4_000_000_000_000_000_000_000_000_000_000) by (nonlinear_arith)
        requires
            -2_000_000_000_000_000 <= sy <= 2_000_000_000_000_000,
    ;
    let n: u128 = (sx * sx + sy * sy) as u128;
    let len: u128 = isqrt(n);
    if len == 0 {
        Vec2 { x: 0, y: 0 }
    } else {
        proof {
            assert(sx * sx <= n && sy * sy <= n);
            lemma_axis_le_len(sx as int, len as int);
            lemma_axis_le_len(sy as int, len as int);
            lemma_unit_axis_bound(sx as int, len as int);
            lemma_unit_axis_bound(sy as int, len as int);
        }
        assert(-2_000_000_000_000_000_000_000 <= sx * DIR_ONE <= 2_000_000_000_000_000_000_000) by (nonlinear_arith)
            requires
                -2_000_000_000_000_000 <= sx <= 2_000_000_000_000_000,
        ;
        assert(-2_000_000_000_000_000_000_000 <= sy * DIR_ONE <= 2_000_000_000_000_000_000_000) by (nonlinear_arith)
            requires
                -2_000_000_000_000_000 <= sy <= 2_000_000_000_000_000,
        ;
        let l: i128 = len as i128;
        let x: i128 = div_trunc(sx * DIR_ONE as i128, l);
        let y: i128 = div_trunc(sy * DIR_ONE as i128, l);
        Vec2 { x: x as i64, y: y as i64 }
    }
}

/// The direction from `from` toward `to`.
pub fn direction_to(from: Vec2, to: Vec2) -> (r: Vec2)
    requires
        is_position(from),
        is_position(to),
    ensures
        r.x == heading_to(from, to).0,
        r.y == heading_to(from, to).1,
        is_direction(r),
{
    normalize(to.x - from.x, to.y - from.y)
}

/// Squared distance between two points of the field.
pub fn distance_sq(a: Vec2, b: Vec2) -> (r: i128)
    requires
        is_position(a),
        is_position(b),
    ensures
        r == dist_sq(a, b),
{
    let dx: i128 = b.x as i128 - a.x as i128;
    let dy: i128 = b.y as i128 - a.y as i128;
    assert(dx * dx <= 4_000_000_000_000_000_000 && dx * dx >= 0) by (nonlinear_arith)
        requires
            -2_000_000_000 <= dx <= 2_000_000_000,
    ;
    assert(dy * dy <= 4_000_000_000_000_000_000 && dy * dy >= 0) by (nonlinear_arith)
        requires
            -2_000_000_000 <= dy <= 2_000_000_000,
    ;
    dx * dx + dy * dy
}

/// The square of a distance threshold.
pub(crate) fn square(r: i64) -> (s: i128)
    ensures
        s == r * r,
{
    let w: i128 = r as i128;
    assert(w * w <= 0x4000_0000_0000_0000_0000_0000_0000_0000 && w * w >= 0) by (nonlinear_arith)
        requires
            -0x8000_0000_0000_0000 <= w <= 0x7fff_ffff_ffff_ffff,
    ;
    w * w
}

proof fn lemma_trunc_div_neg(n: int, d: int)
    requires
        d > 0,
    ensures
        trunc_div(-n, d) == -trunc_div(n, d),
{
    if n == 0 {
        assert(0int / d == 0);
    }
}

/// Fleeing is the exact opposite of seeking: the direction from `to` away
/// toward `from` is the negation of the direction from `from` toward `to`,
/// component by component.
pub proof fn lemma_away_is_opposite(from: Vec2, to: Vec2)
    ensures
        heading_to(to, from).0 == -heading_to(from, to).0,
        heading_to(to, from).1 == -heading_to(from, to).1,
{
    let dx = to.x - from.x;
    let dy = to.y - from.y;
    assert(from.x - to.x == -dx);
    assert(from.y - to.y == -dy);
    let sx = dx * DIR_ONE;
    let sy = dy * DIR_ONE;
    assert((-dx) * DIR_ONE == -sx) by (nonlinear_arith)
        requires
            sx == dx * DIR_ONE,
    ;
    assert((-dy) * DIR_ONE == -sy) by (nonlinear_arith)
        requires
            sy == dy * DIR_ONE,
    ;
    assert((-sx) * (-sx) + (-sy) * (-sy) == sx * sx + sy * sy) by (nonlinear_arith);
    let len = floor_sqrt(sx * sx + sy * sy);
    if len > 0 {
        assert((-sx) * DIR_ONE == -(sx * DIR_ONE)) by (nonlinear_arith);
        assert((-sy) * DIR_ONE == -(sy * DIR_ONE)) by (nonlinear_arith);
        lemma_trunc_div_neg(sx * DIR_ONE, len);
        lemma_trunc_div_neg(sy * DIR_ONE, len);
    }
}

} // verus!
