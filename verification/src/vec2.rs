//! Fixed-point 2-D vectors.
//!
//! Coordinates are integers counted in thousandths of a world unit, so one
//! world unit is `SCALE` steps. Normalization pre-scales by `PRECISION`
//! before taking an integer square root, which keeps the quotient error of
//! the magnitude below one part in `PRECISION`.

use vstd::prelude::*;

verus! {

/// Number of fixed-point steps in one world unit.
pub const SCALE: i64 = 1000;

/// Pre-scaling factor applied before the integer square root in
/// normalization; equal to `SCALE * SCALE` so that the quotient error
/// stays below the output quantum.
pub const PRECISION: i64 = 1_000_000;

/// Largest component magnitude a vector may have for the fixed-point
/// arithmetic on it to stay in range.
pub const COMPONENT_LIMIT: i64 = 1_000_000_000;

/// A half turn, in microradians.
pub const PI_MICRO: i64 = 3_141_592;

/// A quarter turn, in microradians.
pub const HALF_PI_MICRO: i64 = 1_570_796;

/// An eighth of a turn, in microradians.
pub const QUARTER_PI_MICRO: i64 = 785_398;

/// The quadratic correction coefficient of the arctangent approximation,
/// in microradians (0.273 radians).
pub const ATAN_ADJUST: i64 = 273_000;

/// A 2-D vector in fixed-point coordinates.
#[derive(Clone, Copy, Debug, PartialEq, Eq, Structural)]
pub struct Vector2 {
    pub x: i64,
    pub y: i64,
}

/// `r` is the integer square root of `n`: the largest integer whose square
/// does not exceed `n`.
pub open spec fn is_isqrt(n: int, r: int) -> bool {
    0 <= r && r * r <= n && n < (r + 1) * (r + 1)
}

/// The integer square root of `n` (meaningful for `n >= 0`;
/// `lemma_sqrt_floor_exists` shows it satisfies `is_isqrt`).
pub open spec fn sqrt_floor(n: int) -> int {
    choose|r: int| is_isqrt(n, r)
}

/// Two integer square roots of the same number are equal.
pub proof fn lemma_isqrt_unique(n: int, a: int, b: int)
    by (nonlinear_arith)
    requires
        is_isqrt(n, a),
        is_isqrt(n, b),
    ensures
        a == b,
{
}

/// Every non-negative integer has an integer square root, and `sqrt_floor`
/// denotes it.
pub proof fn lemma_sqrt_floor_exists(n: int)
    requires
        0 <= n,
    ensures
        is_isqrt(n, sqrt_floor(n)),
    decreases n,
{
    if n == 0 {
        assert(is_isqrt(0, 0));
    } else {
        lemma_sqrt_floor_exists(n - 1);
        let r = sqrt_floor(n - 1);
        if (r + 1) * (r + 1) <= n {
            assert(n == (r + 1) * (r + 1));
            assert(n < (r + 2) * (r + 2)) by (nonlinear_arith)
                requires
                    n == (r + 1) * (r + 1),
                    r >= 0,
            ;
            assert(is_isqrt(n, r + 1));
        } else {
            assert(is_isqrt(n, r));
        }
    }
}

/// A witness pins `sqrt_floor` down.
pub proof fn lemma_sqrt_floor_of(n: int, r: int)
    requires
        is_isqrt(n, r),
    ensures
        sqrt_floor(n) == r,
{
    assert(exists|q: int| is_isqrt(n, q));
    lemma_isqrt_unique(n, sqrt_floor(n), r);
}

/// Integer square root by bisection.
pub fn isqrt_u128(n: u128) -> (r: u128)
    requires
        n <= 4_000_000_000_000_000_000_000_000_000_000u128,
    ensures
        is_isqrt(n as int, r as int),
        r as int == sqrt_floor(n as int),
{
    let mut lo: u128 = 0;
    let mut hi: u128 = 2_000_000_000_000_001;
    while lo + 1 < hi
        invariant
            lo < hi <= 2_000_000_000_000_001,
            lo * lo <= n,
            (n as int) < (hi as int) * (hi as int),
        decreases hi - lo,
    {
        let mid: u128 = lo + (hi - lo) / 2;
        proof {
            assert((mid as int) * (mid as int) <= 2_000_000_000_000_001i128 * 2_000_000_000_000_001i128)
                by (nonlinear_arith)
                requires
                    0 <= mid as int <= 2_000_000_000_000_001,
            ;
        }
        if mid * mid <= n {
            lo = mid;
        } else {
            hi = mid;
        }
    }
    proof {
        lemma_sqrt_floor_of(n as int, lo as int);
    }
    lo
}

impl Vector2 {
    /// The squared magnitude, as a mathematical integer.
    pub open spec fn norm_sq(self) -> int {
        self.x * self.x + self.y * self.y
    }

    /// Both components small enough for the fixed-point arithmetic to stay
    /// in range.
    pub open spec fn in_range(self) -> bool {
        -COMPONENT_LIMIT <= self.x <= COMPONENT_LIMIT
            && -COMPONENT_LIMIT <= self.y <= COMPONENT_LIMIT
    }

    pub open spec fn is_zero(self) -> bool {
        self.x == 0 && self.y == 0
    }

    pub fn new(x: i64, y: i64) -> (r: Vector2)
        ensures
            r.x == x,
            r.y == y,
    {
        Vector2 { x, y }
    }
}

/// The squared magnitude of `v` after both components are pre-scaled by
/// `PRECISION`.
pub open spec fn scaled_norm_sq(v: Vector2) -> int {
    (v.x * PRECISION) * (v.x * PRECISION) + (v.y * PRECISION) * (v.y * PRECISION)
}

/// The pre-scaled magnitude of `v`: the integer square root of
/// `scaled_norm_sq(v)`.
pub open spec fn scaled_mag(v: Vector2) -> int {
    sqrt_floor(scaled_norm_sq(v))
}

/// One component of the normalized vector: `c * PRECISION * SCALE / m`,
/// rounded toward zero.
pub open spec fn unit_component(c: int, m: int) -> int
    recommends
        m >= 1,
{
    if c >= 0 {
        (c * PRECISION * SCALE) / m
    } else {
        -(((-c) * PRECISION * SCALE) / m)
    }
}

/// The x component of `normalize(v)`.
pub open spec fn spec_normalize_x(v: Vector2) -> int {
    if v.is_zero() {
        0
    } else {
        unit_component(v.x as int, scaled_mag(v))
    }
}

/// The y component of `normalize(v)`.
pub open spec fn spec_normalize_y(v: Vector2) -> int {
    if v.is_zero() {
        0
    } else {
        unit_component(v.y as int, scaled_mag(v))
    }
}

/// A unit-length vector in the direction of `v`, in fixed point: each
/// component is at most `SCALE` in magnitude and the squared magnitude is
/// `SCALE * SCALE` up to the quantization error (`lemma_normalize_unit`).
/// The zero vector, whose direction is undefined, maps to the zero vector.
pub fn normalize(v: Vector2) -> (r: Vector2)
    requires
        v.in_range(),
    ensures
        r.x as int == spec_normalize_x(v),
        r.y as int == spec_normalize_y(v),
        -SCALE <= r.x <= SCALE,
        -SCALE <= r.y <= SCALE,
        v.is_zero() ==> r.is_zero(),
{
    if v.x == 0 && v.y == 0 {
        return Vector2 { x: 0, y: 0 };
    }
    let ax: i64 = if v.x >= 0 { v.x } else { -v.x };
    let ay: i64 = if v.y >= 0 { v.y } else { -v.y };
    let sx: u128 = (ax as u128) * (PRECISION as u128);
    let sy: u128 = (ay as u128) * (PRECISION as u128);
    proof {
        assert(sx as int <= 1_000_000_000_000_000 && sy as int <= 1_000_000_000_000_000);
        assert((sx as int) * (sx as int) + (sy as int) * (sy as int)
            <= 2_000_000_000_000_000_000_000_000_000_000) by (nonlinear_arith)
            requires
                0 <= sx as int <= 1_000_000_000_000_000,
                0 <= sy as int <= 1_000_000_000_000_000,
        ;
    }
    let nsq: u128 = sx * sx + sy * sy;
    proof {
        assert(nsq as int == scaled_norm_sq(v)) by (nonlinear_arith)
            requires
                sx as int == if v.x >= 0 { v.x * PRECISION as int } else { (-v.x) * PRECISION as int },
                sy as int == if v.y >= 0 { v.y * PRECISION as int } else { (-v.y) * PRECISION as int },
                nsq as int == (sx as int) * (sx as int) + (sy as int) * (sy as int),
                scaled_norm_sq(v) == (v.x * PRECISION) * (v.x * PRECISION)
                    + (v.y * PRECISION) * (v.y * PRECISION),
        ;
    }
    let m: u128 = isqrt_u128(nsq);
    proof {
        // at least one component is a whole pre-scaled unit, so m >= PRECISION
        assert(sx as int >= PRECISION || sy as int >= PRECISION);
        assert(m as int >= PRECISION) by (nonlinear_arith)
            requires
                is_isqrt(nsq as int, m as int),
                (sx as int) * (sx as int) + (sy as int) * (sy as int) == nsq as int,
                0 <= sx as int,
                0 <= sy as int,
                sx as int >= PRECISION || sy as int >= PRECISION,
        ;
        // each pre-scaled component is at most m, so each quotient is at most SCALE
        assert(sx as int <= m as int && sy as int <= m as int) by (nonlinear_arith)
            requires
                is_isqrt(nsq as int, m as int),
                (sx as int) * (sx as int) + (sy as int) * (sy as int) == nsq as int,
                0 <= sx as int,
                0 <= sy as int,
        ;
        assert((sx as int * SCALE) / (m as int) <= SCALE
            && (sy as int * SCALE) / (m as int) <= SCALE) by (nonlinear_arith)
            requires
                0 <= sx as int <= m as int,
                0 <= sy as int <= m as int,
                m as int >= 1,
        ;
        assert((sx as int * SCALE) / (m as int) >= 0
            && (sy as int * SCALE) / (m as int) >= 0) by (nonlinear_arith)
            requires
                0 <= sx as int,
                0 <= sy as int,
                m as int >= 1,
        ;
    }
    let ux: i64 = ((sx * (SCALE as u128)) / m) as i64;
    let uy: i64 = ((sy * (SCALE as u128)) / m) as i64;
    let rx: i64 = if v.x >= 0 { ux } else { -ux };
    let ry: i64 = if v.y >= 0 { uy } else { -uy };
    proof {
        assert(sx as int * SCALE == (if v.x >= 0 { v.x as int } else { -(v.x as int) }) * PRECISION * SCALE)
            by (nonlinear_arith)
            requires
                sx as int == (if v.x >= 0 { v.x as int } else { -(v.x as int) }) * PRECISION,
        ;
        assert(sy as int * SCALE == (if v.y >= 0 { v.y as int } else { -(v.y as int) }) * PRECISION * SCALE)
            by (nonlinear_arith)
            requires
                sy as int == (if v.y >= 0 { v.y as int } else { -(v.y as int) }) * PRECISION,
        ;
        assert(rx as int == unit_component(v.x as int, scaled_mag(v)));
        assert(ry as int == unit_component(v.y as int, scaled_mag(v)));
    }
    Vector2 { x: rx, y: ry }
}

/// Law: normalization yields a unit vector. For every non-zero in-range
/// vector, the squared magnitude of the normalized vector differs from
/// `SCALE * SCALE` (the squared fixed-point unit) only by the quantization
/// error of the fixed-point grid:
/// `SCALE*SCALE - 4*SCALE - 2 < |normalize(v)|^2 <= SCALE*SCALE + 2`.
pub proof fn lemma_normalize_unit(v: Vector2)
    requires
        v.in_range(),
        !v.is_zero(),
    ensures
        ({
            let nx = spec_normalize_x(v);
            let ny = spec_normalize_y(v);
            SCALE * SCALE - 4 * SCALE - 2 < nx * nx + ny * ny
                && nx * nx + ny * ny <= SCALE * SCALE + 2
        }),
{
    let xa = if v.x >= 0 { v.x as int } else { -(v.x as int) };
    let ya = if v.y >= 0 { v.y as int } else { -(v.y as int) };
    let a = xa * PRECISION;
    let b = ya * PRECISION;
    let n = scaled_norm_sq(v);
    assert(a * a + b * b == n && 0 <= a && 0 <= b && (a >= PRECISION || b >= PRECISION))
        by (nonlinear_arith)
        requires
            a == xa * PRECISION,
            b == ya * PRECISION,
            xa == if v.x >= 0 { v.x as int } else { -(v.x as int) },
            ya == if v.y >= 0 { v.y as int } else { -(v.y as int) },
            n == (v.x * PRECISION) * (v.x * PRECISION) + (v.y * PRECISION) * (v.y * PRECISION),
            !(v.x == 0 && v.y == 0),
    ;
    lemma_sqrt_floor_exists(n);
    let m = scaled_mag(v);
    assert(is_isqrt(n, m));
    assert(m >= PRECISION && a <= m && b <= m) by (nonlinear_arith)
        requires
            is_isqrt(n, m),
            a * a + b * b == n,
            0 <= a,
            0 <= b,
            a >= PRECISION || b >= PRECISION,
    ;
    let ux = (a * SCALE) / m;
    let uy = (b * SCALE) / m;
    let nx = spec_normalize_x(v);
    let ny = spec_normalize_y(v);
    assert(a * SCALE == xa * PRECISION * SCALE && b * SCALE == ya * PRECISION * SCALE)
        by (nonlinear_arith)
        requires
            a == xa * PRECISION,
            b == ya * PRECISION,
    ;
    assert(nx == ux || nx == -ux);
    assert(ny == uy || ny == -uy);
    vstd::arithmetic::div_mod::lemma_fundamental_div_mod(a * SCALE, m);
    vstd::arithmetic::div_mod::lemma_fundamental_div_mod(b * SCALE, m);
    assert(0 <= (a * SCALE) % m < m);
    assert(0 <= (b * SCALE) % m < m);
    assert(m * ux <= a * SCALE && a * SCALE < m * (ux + 1) && 0 <= ux) by (nonlinear_arith)
        requires
            a * SCALE == m * ux + (a * SCALE) % m,
            0 <= (a * SCALE) % m < m,
            0 <= a,
            m >= 1,
    ;
    assert(m * uy <= b * SCALE && b * SCALE < m * (uy + 1) && 0 <= uy) by (nonlinear_arith)
        requires
            b * SCALE == m * uy + (b * SCALE) % m,
            0 <= (b * SCALE) % m < m,
            0 <= b,
            m >= 1,
    ;
    assert(ux <= SCALE && uy <= SCALE) by (nonlinear_arith)
        requires
            m * ux <= a * SCALE,
            m * uy <= b * SCALE,
            a <= m,
            b <= m,
            m >= 1,
            0 <= ux,
            0 <= uy,
            0 <= a,
            0 <= b,
    ;
    // upper bound: m^2 (ux^2 + uy^2) <= n * SCALE^2 < (m+1)^2 SCALE^2
    let pu = m * ux;
    let pv = m * uy;
    let qu = a * SCALE;
    let qv = b * SCALE;
    assert(pu * pu <= qu * qu) by (nonlinear_arith)
        requires
            0 <= pu <= qu,
    ;
    assert(pv * pv <= qv * qv) by (nonlinear_arith)
        requires
            0 <= pv <= qv,
    ;
    assert(m * m * (ux * ux + uy * uy) == pu * pu + pv * pv) by (nonlinear_arith)
        requires
            pu == m * ux,
            pv == m * uy,
    ;
    assert(qu * qu + qv * qv == n * (SCALE * SCALE)) by (nonlinear_arith)
        requires
            qu == a * SCALE,
            qv == b * SCALE,
            a * a + b * b == n,
    ;
    assert(n * (SCALE * SCALE) < (m + 1) * (m + 1) * (SCALE * SCALE)) by (nonlinear_arith)
        requires
            n < (m + 1) * (m + 1),
    ;
    assert(m * m * (ux * ux + uy * uy) < (m + 1) * (m + 1) * (SCALE * SCALE));
    assert(ux * ux + uy * uy <= SCALE * SCALE + 2) by (nonlinear_arith)
        requires
            m * m * (ux * ux + uy * uy) < (m + 1) * (m + 1) * (SCALE * SCALE),
            m >= 1_000_000,
            0 <= ux,
            0 <= uy,
    ;
    // lower bound: m^2 SCALE^2 <= n SCALE^2 < m^2 ((ux+1)^2 + (uy+1)^2)
    assert(SCALE * SCALE < (ux + 1) * (ux + 1) + (uy + 1) * (uy + 1)) by (nonlinear_arith)
        requires
            0 <= a * SCALE < m * (ux + 1),
            0 <= b * SCALE < m * (uy + 1),
            a * a + b * b == n,
            m * m <= n,
            m >= 1,
            0 <= ux,
            0 <= uy,
    ;
    assert(SCALE * SCALE - 4 * SCALE - 2 < ux * ux + uy * uy) by (nonlinear_arith)
        requires
            SCALE * SCALE < (ux + 1) * (ux + 1) + (uy + 1) * (uy + 1),
            0 <= ux <= SCALE,
            0 <= uy <= SCALE,
    ;
    assert(nx * nx == ux * ux && ny * ny == uy * uy) by (nonlinear_arith)
        requires
            nx == ux || nx == -ux,
            ny == uy || ny == -uy,
    ;
}

/// Multiplies both components of `v` by the scalar `s`.
pub fn scale(v: Vector2, s: i64) -> (r: Vector2)
    requires
        v.in_range(),
        -COMPONENT_LIMIT <= s <= COMPONENT_LIMIT,
    ensures
        r.x as int == v.x * s,
        r.y as int == v.y * s,
{
    proof {
        assert(-1_000_000_000_000_000_000 <= v.x * s <= 1_000_000_000_000_000_000
            && -1_000_000_000_000_000_000 <= v.y * s <= 1_000_000_000_000_000_000)
            by (nonlinear_arith)
            requires
                -1_000_000_000 <= v.x as int <= 1_000_000_000,
                -1_000_000_000 <= v.y as int <= 1_000_000_000,
                -1_000_000_000 <= s as int <= 1_000_000_000,
        ;
    }
    Vector2 { x: v.x * s, y: v.y * s }
}

/// The arctangent of `z / PRECISION` in microradians, for `0 <= z <=
/// PRECISION`: the quarter-turn chord plus the standard quadratic
/// correction term.
pub open spec fn spec_atan_ratio(z: int) -> int {
    (z * QUARTER_PI_MICRO) / (PRECISION as int)
        + (((z * (PRECISION - z)) / (PRECISION as int)) * ATAN_ADJUST) / (PRECISION as int)
}

/// The arctangent of `n / d` in microradians, for `0 <= n <= d`.
pub open spec fn spec_atan_octant(n: int, d: int) -> int
    recommends
        d >= 1,
{
    spec_atan_ratio((n * PRECISION) / d)
}

/// The angle of the point `(x, y)` from the positive x axis, in
/// microradians, in the half-open range `(-PI_MICRO, PI_MICRO]`; the
/// origin maps to zero.
pub open spec fn spec_atan2(y: int, x: int) -> int {
    let ax = if x >= 0 { x } else { -x };
    let ay = if y >= 0 { y } else { -y };
    if ax == 0 && ay == 0 {
        0
    } else {
        let base = if ax >= ay {
            spec_atan_octant(ay, ax)
        } else {
            HALF_PI_MICRO - spec_atan_octant(ax, ay)
        };
        let flipped = if x >= 0 {
            base
        } else {
            PI_MICRO - base
        };
        if y >= 0 {
            flipped
        } else {
            -flipped
        }
    }
}

/// The facing rotation for the heading `v`, in microradians:
/// `atan2(-x, y)`, the display convention under which a heading of
/// `(0, 1)` faces forward with no rotation.
pub open spec fn spec_heading_angle(v: Vector2) -> int {
    spec_atan2(-(v.x as int), v.y as int)
}

fn atan_ratio(z: i64) -> (r: i64)
    requires
        0 <= z <= PRECISION,
    ensures
        r as int == spec_atan_ratio(z as int),
        0 <= r <= QUARTER_PI_MICRO + ATAN_ADJUST,
{
    let zu: u64 = z as u64;
    let pu: u64 = PRECISION as u64;
    let t1: u64 = (zu * (QUARTER_PI_MICRO as u64)) / pu;
    proof {
        assert(zu as int * (pu as int - zu as int) <= 1_000_000_000_000) by (nonlinear_arith)
            requires
                0 <= zu as int <= 1_000_000,
                pu as int == 1_000_000,
        ;
    }
    let w: u64 = (zu * (pu - zu)) / pu;
    proof {
        assert(zu as int * QUARTER_PI_MICRO <= PRECISION as int * QUARTER_PI_MICRO)
            by (nonlinear_arith)
            requires
                0 <= zu as int <= PRECISION,
        ;
        assert(t1 as int <= QUARTER_PI_MICRO) by (nonlinear_arith)
            requires
                t1 as int == (zu as int * QUARTER_PI_MICRO) / (PRECISION as int),
                zu as int * QUARTER_PI_MICRO <= PRECISION as int * QUARTER_PI_MICRO,
                0 <= zu as int,
        ;
        assert(zu as int * (PRECISION - zu as int) <= PRECISION as int * PRECISION)
            by (nonlinear_arith)
            requires
                0 <= zu as int <= PRECISION,
        ;
        assert(w as int <= PRECISION) by (nonlinear_arith)
            requires
                w as int == (zu as int * (PRECISION - zu as int)) / (PRECISION as int),
                zu as int * (PRECISION - zu as int) <= PRECISION as int * PRECISION,
                0 <= zu as int <= PRECISION,
        ;
    }
    let t2: u64 = (w * (ATAN_ADJUST as u64)) / pu;
    proof {
        assert(w as int * ATAN_ADJUST <= PRECISION as int * ATAN_ADJUST) by (nonlinear_arith)
            requires
                0 <= w as int <= PRECISION,
        ;
        assert(t2 as int <= ATAN_ADJUST) by (nonlinear_arith)
            requires
                t2 as int == (w as int * ATAN_ADJUST) / (PRECISION as int),
                w as int * ATAN_ADJUST <= PRECISION as int * ATAN_ADJUST,
                0 <= w as int,
        ;
    }
    (t1 + t2) as i64
}

fn atan_octant(n: i64, d: i64) -> (r: i64)
    requires
        0 <= n <= d,
        1 <= d <= COMPONENT_LIMIT,
    ensures
        r as int == spec_atan_octant(n as int, d as int),
        0 <= r <= QUARTER_PI_MICRO + ATAN_ADJUST,
{
    let z: u64 = ((n as u64) * (PRECISION as u64)) / (d as u64);
    proof {
        assert(n as int * PRECISION <= d as int * PRECISION) by (nonlinear_arith)
            requires
                0 <= n as int <= d as int,
        ;
        assert(z as int <= PRECISION) by (nonlinear_arith)
            requires
                z as int == (n as int * PRECISION) / (d as int),
                n as int * PRECISION <= d as int * PRECISION,
                1 <= d as int,
                0 <= n as int,
        ;
        assert(z as int >= 0) by (nonlinear_arith)
            requires
                z as int == (n as int * PRECISION) / (d as int),
                0 <= n as int,
                1 <= d as int,
        ;
    }
    atan_ratio(z as i64)
}

/// The angle of the point `(x, y)` from the positive x axis, in
/// microradians.
pub fn atan2_fp(y: i64, x: i64) -> (r: i64)
    requires
        -COMPONENT_LIMIT <= y <= COMPONENT_LIMIT,
        -COMPONENT_LIMIT <= x <= COMPONENT_LIMIT,
    ensures
        r as int == spec_atan2(y as int, x as int),
        -PI_MICRO <= r <= PI_MICRO,
{
    let ax: i64 = if x >= 0 { x } else { -x };
    let ay: i64 = if y >= 0 { y } else { -y };
    if ax == 0 && ay == 0 {
        return 0;
    }
    let base: i64 = if ax >= ay {
        atan_octant(ay, ax)
    } else {
        HALF_PI_MICRO - atan_octant(ax, ay)
    };
    let flipped: i64 = if x >= 0 {
        base
    } else {
        PI_MICRO - base
    };
    if y >= 0 {
        flipped
    } else {
        -flipped
    }
}

/// The facing rotation for the heading `v`, in microradians.
pub fn heading_angle(v: Vector2) -> (r: i64)
    requires
        v.in_range(),
    ensures
        r as int == spec_heading_angle(v),
        -PI_MICRO <= r <= PI_MICRO,
{
    atan2_fp(-v.x, v.y)
}

/// Law: the facing rotation is a pure function of the heading — two
/// results computed from the same heading are identical.
pub proof fn lemma_heading_angle_deterministic(v: Vector2, r1: int, r2: int)
    requires
        r1 == spec_heading_angle(v),
        r2 == spec_heading_angle(v),
    ensures
        r1 == r2,
{
}

/// Law: a heading that points along the positive y axis faces forward —
/// its rotation is exactly zero.
pub proof fn lemma_heading_angle_north(v: Vector2)
    requires
        v.x == 0,
        0 < v.y,
    ensures
        spec_heading_angle(v) == 0,
{
    vstd::arithmetic::div_mod::lemma_div_of0(v.y as int);
    assert((0int * PRECISION) / (v.y as int) == 0);
    assert(spec_atan_ratio(0) == 0);
}

} // verus!
