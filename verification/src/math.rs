//! Fixed-point scalar and planar-vector arithmetic for the simulation.
//!
//! All quantities are `i64` milli-units. Division rounds toward zero
//! (magnitude divided, sign kept), and vector lengths come from an
//! integer square root, so every operation has an exact mathematical
//! statement.

use vstd::prelude::*;

verus! {

/// One thousand fixed-point steps make one unit: positions, speeds,
/// seconds and health values are all carried as milli-units in `i64`.
pub const SCALE: i64 = 1000;

/// World coordinates (and the difference of two of them, halved) stay
/// within this bound, so squared vector norms fit in `i64`.
pub const MAX_COORD: i64 = 1_000_000_000;

/// Truncating division of a signed value by a positive divisor, as a
/// mathematical function: the magnitude is divided and the sign kept,
/// so the result rounds toward zero.
pub open spec fn tdiv(a: int, d: int) -> int
    recommends
        d > 0,
{
    if a >= 0 {
        a / d
    } else {
        -((-a) / d)
    }
}

/// Truncating division for fixed-point values: divides the magnitude,
/// keeps the sign.
pub fn div_trunc(a: i64, d: i64) -> (r: i64)
    requires
        d > 0,
        a > i64::MIN,
    ensures
        r == tdiv(a as int, d as int),
{
    if a >= 0 {
        a / d
    } else {
        let m: i64 = -a;
        -(m / d)
    }
}

/// The floor of the square root of a non-negative integer, defined by
/// counting up: the largest `s` with `s * s <= n`.
pub open spec fn sqrt_floor(n: int) -> int
    recommends
        n >= 0,
    decreases n,
{
    if n <= 0 {
        0
    } else {
        let s = sqrt_floor(n - 1);
        if (s + 1) * (s + 1) <= n {
            s + 1
        } else {
            s
        }
    }
}

/// `sqrt_floor` is indeed the floor of the square root: it is
/// non-negative, its square is at most `n`, and the next square is
/// beyond `n`.
pub proof fn lemma_sqrt_floor_bounds(n: int)
    requires
        n >= 0,
    ensures
        sqrt_floor(n) >= 0,
        sqrt_floor(n) * sqrt_floor(n) <= n,
        n < (sqrt_floor(n) + 1) * (sqrt_floor(n) + 1),
    decreases n,
{
    if n == 0 {
    } else {
        lemma_sqrt_floor_bounds(n - 1);
        let s = sqrt_floor(n - 1);
        if (s + 1) * (s + 1) <= n {
            assert((s + 2) * (s + 2) == (s + 1) * (s + 1) + 2 * s + 3) by (nonlinear_arith);
        }
    }
}

/// Any `r` whose square brackets `n` equals `sqrt_floor(n)`.
pub proof fn lemma_sqrt_floor_unique(n: int, r: int)
    requires
        n >= 0,
        r >= 0,
        r * r <= n,
        n < (r + 1) * (r + 1),
    ensures
        r == sqrt_floor(n),
{
    lemma_sqrt_floor_bounds(n);
    let s = sqrt_floor(n);
    if r < s {
        assert((r + 1) * (r + 1) <= s * s) by (nonlinear_arith)
            requires
                0 <= r + 1 <= s,
        ;
    } else if r > s {
        assert((s + 1) * (s + 1) <= r * r) by (nonlinear_arith)
            requires
                0 <= s + 1 <= r,
        ;
    }
}

/// Integer square root by binary search: returns `sqrt_floor(n)`.
pub fn isqrt(n: i64) -> (r: i64)
    requires
        n >= 0,
    ensures
        r >= 0,
        r == sqrt_floor(n as int),
        r * r <= n,
        n < (r + 1) * (r + 1),
{
    let mut lo: i64 = 0;
    let mut hi: i64 = 3_037_000_500;
    assert((3_037_000_500int) * 3_037_000_500 > i64::MAX as int) by (nonlinear_arith);
    while lo + 1 < hi
        invariant
            0 <= lo < hi <= 3_037_000_500,
            lo * lo <= n,
            (n as int) < hi * hi,
        decreases hi - lo,
    {
        let mid: i64 = lo + (hi - lo) / 2;
        proof {
            assert((mid as int) * (mid as int) <= 3_037_000_500int * 3_037_000_500)
                by (nonlinear_arith)
                requires
                    0 <= mid as int <= 3_037_000_500,
            ;
        }
        let sq: i128 = (mid as i128) * (mid as i128);
        if sq <= n as i128 {
            lo = mid;
        } else {
            hi = mid;
        }
    }
    proof {
        lemma_sqrt_floor_unique(n as int, lo as int);
    }
    lo
}

/// A planar vector in fixed-point milli-units.
#[derive(Clone, Copy, PartialEq, Eq, Structural, Debug)]
pub struct V2 {
    pub x: i64,
    pub y: i64,
}

impl V2 {
    /// The squared Euclidean length.
    pub open spec fn norm_sq(self) -> int {
        self.x * self.x + self.y * self.y
    }

    /// Both components lie within the given bound.
    pub open spec fn bounded(self, b: int) -> bool {
        -b <= self.x <= b && -b <= self.y <= b
    }

    /// Componentwise sum.
    pub fn plus(self, o: V2) -> (r: V2)
        requires
            i64::MIN <= self.x + o.x <= i64::MAX,
            i64::MIN <= self.y + o.y <= i64::MAX,
        ensures
            r.x == self.x + o.x,
            r.y == self.y + o.y,
    {
        V2 { x: self.x + o.x, y: self.y + o.y }
    }

    /// Componentwise difference.
    pub fn minus(self, o: V2) -> (r: V2)
        requires
            i64::MIN <= self.x - o.x <= i64::MAX,
            i64::MIN <= self.y - o.y <= i64::MAX,
        ensures
            r.x == self.x - o.x,
            r.y == self.y - o.y,
    {
        V2 { x: self.x - o.x, y: self.y - o.y }
    }

    /// The vector of the same direction whose length is (up to the
    /// fixed-point rounding of each component) `len`: each component is
    /// multiplied by `len` and divided, rounding toward zero, by the
    /// integer length of the vector.
    pub open spec fn scaled(self, len: int) -> V2 {
        V2 {
            x: tdiv(self.x * len, sqrt_floor(self.norm_sq())) as i64,
            y: tdiv(self.y * len, sqrt_floor(self.norm_sq())) as i64,
        }
    }

    /// Computes `self.scaled(len)`.
    pub fn scale_to_len(self, len: i64) -> (r: V2)
        requires
            self.bounded(2 * MAX_COORD as int),
            self.norm_sq() > 0,
            0 <= len <= 2_000_000,
        ensures
            r == self.scaled(len as int),
            r.x == tdiv(self.x * len, sqrt_floor(self.norm_sq())),
            r.y == tdiv(self.y * len, sqrt_floor(self.norm_sq())),
    {
        proof {
            assert(0 <= self.x * self.x <= 4_000_000_000_000_000_000) by (nonlinear_arith)
                requires
                    -2_000_000_000 <= self.x <= 2_000_000_000,
            ;
            assert(0 <= self.y * self.y <= 4_000_000_000_000_000_000) by (nonlinear_arith)
                requires
                    -2_000_000_000 <= self.y <= 2_000_000_000,
            ;
        }
        let nsq: i64 = self.x * self.x + self.y * self.y;
        let n: i64 = isqrt(nsq);
        proof {
            assert(n >= 1) by {
                if n == 0 {
                    assert((n + 1) * (n + 1) == 1) by (nonlinear_arith)
                        requires
                            n == 0i64,
                    ;
                    assert(nsq < 1);
                }
            }
            assert(-4_000_000_000_000_000 <= self.x * len <= 4_000_000_000_000_000)
                by (nonlinear_arith)
                requires
                    -2_000_000_000 <= self.x <= 2_000_000_000,
                    0 <= len <= 2_000_000,
            ;
            assert(-4_000_000_000_000_000 <= self.y * len <= 4_000_000_000_000_000)
                by (nonlinear_arith)
                requires
                    -2_000_000_000 <= self.y <= 2_000_000_000,
                    0 <= len <= 2_000_000,
            ;
        }
        V2 { x: div_trunc(self.x * len, n), y: div_trunc(self.y * len, n) }
    }
}

/// Dividing an exact multiple of a positive divisor, toward zero, gives
/// back the factor.
pub proof fn lemma_tdiv_mul_exact(k: int, d: int)
    requires
        d > 0,
    ensures
        tdiv(k * d, d) == k,
{
    if k >= 0 {
        assert(k * d >= 0) by (nonlinear_arith)
            requires
                k >= 0,
                d > 0,
        ;
        vstd::arithmetic::div_mod::lemma_div_multiples_vanish(k, d);
        assert(d * k == k * d) by (nonlinear_arith);
    } else {
        assert(k * d < 0) by (nonlinear_arith)
            requires
                k < 0,
                d > 0,
        ;
        assert(-(k * d) == (-k) * d) by (nonlinear_arith);
        vstd::arithmetic::div_mod::lemma_div_multiples_vanish(-k, d);
        assert(d * (-k) == (-k) * d) by (nonlinear_arith);
    }
}

/// Truncating division by a positive divisor never grows a value's
/// magnitude.
pub proof fn lemma_tdiv_within(a: int, d: int, m: int)
    requires
        d >= 1,
        -m <= a <= m,
    ensures
        -m <= tdiv(a, d) <= m,
{
    let mag = if a >= 0 {
        a
    } else {
        -a
    };
    vstd::arithmetic::div_mod::lemma_div_is_ordered_by_denominator(mag, 1, d);
    vstd::arithmetic::div_mod::lemma_div_basics(mag);
    vstd::arithmetic::div_mod::lemma_div_pos_is_pos(mag, d);
}

/// `sqrt_floor` grows with its argument.
pub proof fn lemma_sqrt_floor_monotone(a: int, b: int)
    requires
        0 <= a <= b,
    ensures
        sqrt_floor(a) <= sqrt_floor(b),
    decreases b - a,
{
    if a < b {
        lemma_sqrt_floor_monotone(a, b - 1);
    }
}

/// The square root of a perfect square is its root.
pub proof fn lemma_sqrt_floor_square(k: int)
    requires
        k >= 0,
    ensures
        sqrt_floor(k * k) == k,
{
    assert(k * k >= 0) by (nonlinear_arith)
        requires
            k >= 0,
    ;
    assert(k * k < (k + 1) * (k + 1)) by (nonlinear_arith)
        requires
            k >= 0,
    ;
    lemma_sqrt_floor_unique(k * k, k);
}

/// Scaling a nonzero vector to length `len` bounds each component by
/// `len`: the integer length is at least as large as either component's
/// magnitude.
pub proof fn lemma_scaled_bounded(v: V2, len: int)
    requires
        v.norm_sq() > 0,
        len >= 0,
    ensures
        -len <= tdiv(v.x * len, sqrt_floor(v.norm_sq())) <= len,
        -len <= tdiv(v.y * len, sqrt_floor(v.norm_sq())) <= len,
        v.scaled(len).bounded(len),
{
    let n = sqrt_floor(v.norm_sq());
    lemma_sqrt_floor_bounds(v.norm_sq());
    assert(n >= 1) by {
        if n == 0 {
            assert((n + 1) * (n + 1) == 1) by (nonlinear_arith)
                requires
                    n == 0,
            ;
        }
    }
    lemma_component_le_sqrt(v.x as int, v.y as int);
    lemma_component_le_sqrt(v.y as int, v.x as int);
    assert(v.y * v.y + v.x * v.x == v.norm_sq());
    lemma_tdiv_scaled_component(v.x as int, len, n);
    lemma_tdiv_scaled_component(v.y as int, len, n);
    assert(v.scaled(len).x == tdiv(v.x * len, n) as i64);
    assert(v.scaled(len).y == tdiv(v.y * len, n) as i64);
}

/// A component's magnitude is at most the integer length of the vector.
proof fn lemma_component_le_sqrt(a: int, b: int)
    ensures
        -sqrt_floor(a * a + b * b) <= a <= sqrt_floor(a * a + b * b),
{
    let m = if a >= 0 {
        a
    } else {
        -a
    };
    assert(m * m == a * a && a * a >= 0 && b * b >= 0) by (nonlinear_arith)
        requires
            m == a || m == -a,
    ;
    lemma_sqrt_floor_square(m);
    lemma_sqrt_floor_monotone(m * m, a * a + b * b);
}

/// Dividing `a * len` by a divisor at least `|a|` keeps the result in
/// `[-len, len]`.
proof fn lemma_tdiv_scaled_component(a: int, len: int, n: int)
    requires
        n >= 1,
        len >= 0,
        -n <= a <= n,
    ensures
        -len <= tdiv(a * len, n) <= len,
{
    let m = if a >= 0 {
        a
    } else {
        -a
    };
    assert(0 <= m * len <= n * len) by (nonlinear_arith)
        requires
            0 <= m <= n,
            len >= 0,
    ;
    vstd::arithmetic::div_mod::lemma_div_is_ordered(m * len, n * len, n);
    vstd::arithmetic::div_mod::lemma_div_multiples_vanish(len, n);
    assert(n * len == len * n) by (nonlinear_arith);
    assert((m * len) / n <= len);
    vstd::arithmetic::div_mod::lemma_div_pos_is_pos(m * len, n);
    if a >= 0 {
        assert(tdiv(a * len, n) == (m * len) / n);
    } else {
        assert(a * len == -(m * len)) by (nonlinear_arith)
            requires
                m == -a,
        ;
        if m * len == 0 {
            assert(tdiv(a * len, n) == 0);
        } else {
            assert(tdiv(a * len, n) == -((m * len) / n));
        }
    }
}

/// Position and planar orientation of an entity. The orientation is a
/// heading vector: the (not necessarily unit) direction the entity
/// faces. A heading of `(SCALE, 0)` is a rotation of zero radians.
#[derive(Clone, Copy, Debug, PartialEq, Eq, Structural)]
pub struct Transform2 {
    pub pos: V2,
    pub heading: V2,
}

impl Transform2 {
    /// The position is in the world and the heading is a usable
    /// direction: bounded and nonzero.
    pub open spec fn wf(self) -> bool {
        &&& self.pos.bounded(MAX_COORD as int)
        &&& self.heading.bounded(2 * MAX_COORD as int)
        &&& self.heading.norm_sq() > 0
    }
}

/// Clamps a scalar into the inclusive interval `[lo, hi]`.
pub fn clamp(v: i64, lo: i64, hi: i64) -> (r: i64)
    requires
        lo <= hi,
    ensures
        r == clamped(v as int, lo as int, hi as int),
{
    if v < lo {
        lo
    } else if v > hi {
        hi
    } else {
        v
    }
}

/// The mathematical clamp into `[lo, hi]`.
pub open spec fn clamped(v: int, lo: int, hi: int) -> int {
    if v < lo {
        lo
    } else if v > hi {
        hi
    } else {
        v
    }
}

} // verus!
