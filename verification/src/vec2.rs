//! Fixed-point vectors in the plane.
use vstd::prelude::*;
use vstd::arithmetic::div_mod::{lemma_fundamental_div_mod, lemma_hoist_over_denominator};
use crate::fixed::{clamp, clamp_component, floor_sqrt, in_range, isqrt, lemma_floor_sqrt, LIMIT,
    MICROS_PER_SECOND, SCALE};

verus! {

/// A position or a velocity, in sub-units (per second, for a velocity).
#[derive(Clone, Copy, Debug, PartialEq, Eq, Structural)]
pub struct Vec2 {
    pub x: i64,
    pub y: i64,
}

/// The distance covered in `dt` microseconds at `speed` sub-units per
/// second, rounded toward zero.
pub open spec fn travel(speed: int, dt: int) -> int {
    if speed >= 0 {
        speed * dt / (MICROS_PER_SECOND as int)
    } else {
        -((-speed) * dt / (MICROS_PER_SECOND as int))
    }
}

/// The share of `a` in the unit vector along `(a, b)`, in sub-units and
/// rounded to the nearest, a half away from zero. It is meant for
/// `(a, b)` other than `(0, 0)`.
pub open spec fn unit_part(a: int, b: int) -> int {
    if a >= 0 {
        unit_root(a, b)
    } else {
        -unit_root(a, b)
    }
}

/// The magnitude of `unit_part(a, b)`: the root of the share that `a * a`
/// has in `a * a + b * b`, taken of `SCALE * SCALE` and rounded to the
/// nearest. The root of four times the share is rounded down first, which
/// gives twice the root, and half of that is rounded to the nearest.
pub open spec fn unit_root(a: int, b: int) -> int {
    (floor_sqrt((4 * (a * a * (SCALE * SCALE)) / (a * a + b * b)) as nat) as int + 1) / 2
}

/// Whether a vector of the components `x` and `y` has unit length, up to
/// the rounding of its components: its length lies within one sub-unit
/// of `SCALE`.
pub open spec fn is_unit(x: int, y: int) -> bool {
    (SCALE - 1) * (SCALE - 1) <= x * x + y * y <= (SCALE + 1) * (SCALE + 1)
}

impl Vec2 {
    /// Whether both components are representable.
    pub open spec fn in_range(self) -> bool {
        in_range(self.x as int) && in_range(self.y as int)
    }

    /// The sum of two vectors, each component clamped into range.
    pub open spec fn plus_spec(self, other: Vec2) -> Vec2 {
        Vec2 { x: clamp(self.x + other.x) as i64, y: clamp(self.y + other.y) as i64 }
    }

    /// Where a point at `self` is after `dt` microseconds at `velocity`,
    /// each component clamped into range.
    pub open spec fn moved_spec(self, velocity: Vec2, dt: u64) -> Vec2 {
        Vec2 {
            x: clamp(self.x + travel(velocity.x as int, dt as int)) as i64,
            y: clamp(self.y + travel(velocity.y as int, dt as int)) as i64,
        }
    }

    /// The vector of the given components, each clamped into range.
    pub fn clamped(x: i64, y: i64) -> (v: Vec2)
        ensures
            v.x == clamp(x as int),
            v.y == clamp(y as int),
            v.in_range(),
    {
        Vec2 { x: clamp_component(x as i128), y: clamp_component(y as i128) }
    }

    /// Whether both components are representable.
    pub fn is_in_range(&self) -> (b: bool)
        ensures
            b == self.in_range(),
    {
        -LIMIT <= self.x && self.x <= LIMIT && -LIMIT <= self.y && self.y <= LIMIT
    }

    /// Adds `other`, clamping each component into range.
    pub fn plus(self, other: Vec2) -> (v: Vec2)
        ensures
            v == self.plus_spec(other),
            v.in_range(),
    {
        Vec2 {
            x: clamp_component(self.x as i128 + other.x as i128),
            y: clamp_component(self.y as i128 + other.y as i128),
        }
    }

    /// Moves a point for `dt` microseconds at `velocity`, clamping each
    /// component into range.
    pub fn moved(self, velocity: Vec2, dt: u64) -> (v: Vec2)
        ensures
            v == self.moved_spec(velocity, dt),
            v.in_range(),
    {
        Vec2 {
            x: clamp_component(self.x as i128 + travelled(velocity.x, dt)),
            y: clamp_component(self.y as i128 + travelled(velocity.y, dt)),
        }
    }

    /// The unit vector along `self`, or `None` for the zero vector, which
    /// has no direction.
    pub fn try_normalize(self) -> (r: Option<Vec2>)
        requires
            self.in_range(),
        ensures
            r is None <==> (self.x == 0 && self.y == 0),
            r matches Some(u) ==> {
                &&& u.x == unit_part(self.x as int, self.y as int)
                &&& u.y == unit_part(self.y as int, self.x as int)
                &&& is_unit(u.x as int, u.y as int)
            },
    {
        if self.x == 0 && self.y == 0 {
            return None;
        }
        proof {
            lemma_unit_length(self.x as int, self.y as int);
        }
        let ux: i64 = unit_component(self.x, self.y);
        let uy: i64 = unit_component(self.y, self.x);
        Some(Vec2 { x: ux, y: uy })
    }
}

/// The absolute value of `c`.
fn magnitude(c: i64) -> (m: u128)
    ensures
        m == if c >= 0 { c as int } else { -(c as int) },
{
    if c >= 0 {
        c as u128
    } else {
        (-(c as i128)) as u128
    }
}

/// The distance covered in `dt` microseconds at `speed`.
fn travelled(speed: i64, dt: u64) -> (d: i128)
    ensures
        d == travel(speed as int, dt as int),
        -0x4000_0000_0000_0000_0000_0000_0000_0000 <= d <= 0x4000_0000_0000_0000_0000_0000_0000_0000,
{
    let rate: u128 = magnitude(speed);
    assert(rate * dt <= 0x8000_0000_0000_0000 * 0xffff_ffff_ffff_ffff) by (nonlinear_arith)
        requires
            0 <= rate <= 0x8000_0000_0000_0000,
            0 <= dt <= 0xffff_ffff_ffff_ffff,
    ;
    let covered: u128 = rate * (dt as u128) / (MICROS_PER_SECOND as u128);
    assert(covered <= 0x8000_0000_0000_0000_0000_0000_0000_0000int / 1_000_000) by {
        let product: int = rate * dt;
        assert(product <= 0x8000_0000_0000_0000_0000_0000_0000_0000);
        assert(covered == product / 1_000_000);
    }
    if speed >= 0 {
        covered as i128
    } else {
        -(covered as i128)
    }
}

/// One component of the unit vector along `(a, b)`.
fn unit_component(a: i64, b: i64) -> (r: i64)
    requires
        in_range(a as int),
        in_range(b as int),
        a != 0 || b != 0,
    ensures
        r == unit_part(a as int, b as int),
{
    let ua: u128 = magnitude(a);
    let ub: u128 = magnitude(b);
    assert(ua * ua == a * a && ub * ub == b * b) by (nonlinear_arith)
        requires
            ua == a || ua == -a,
            ub == b || ub == -b,
    ;
    assert(ua * ua <= 10_000_000_000_000 * 10_000_000_000_000 && ub * ub <= 10_000_000_000_000
        * 10_000_000_000_000) by (nonlinear_arith)
        requires
            0 <= ua <= 10_000_000_000_000,
            0 <= ub <= 10_000_000_000_000,
    ;
    let aa: u128 = ua * ua;
    let q: u128 = aa + ub * ub;
    assert(q > 0) by (nonlinear_arith)
        requires
            q == ua * ua + ub * ub,
            ua > 0 || ub > 0,
            ua >= 0,
            ub >= 0,
    ;
    // SCALE * SCALE
    let scaled: u128 = aa * 1_000_000_000_000;
    // Four times the share, taken in two parts: four times `scaled` need
    // not fit.
    let whole: u128 = scaled / q;
    let left: u128 = scaled % q;
    proof {
        lemma_quadruple_quotient(scaled as int, q as int);
        assert(whole <= 1_000_000_000_000) by (nonlinear_arith)
            requires
                whole == scaled / q,
                scaled == aa * 1_000_000_000_000,
                0 <= aa <= q,
                0 < q,
        ;
    }
    let fourfold: u128 = 4 * whole + 4 * left / q;
    let doubled: u64 = isqrt(fourfold);
    proof {
        lemma_unit_root(a as int, b as int);
    }
    let root: u64 = (doubled + 1) / 2;
    if a >= 0 {
        root as i64
    } else {
        -(root as i64)
    }
}

/// Four times a quotient, taken of the quotient and of the remainder.
proof fn lemma_quadruple_quotient(x: int, q: int)
    requires
        0 < q,
    ensures
        4 * x / q == 4 * (x / q) + 4 * (x % q) / q,
{
    lemma_fundamental_div_mod(x, q);
    lemma_hoist_over_denominator(4 * (x % q), 4 * (x / q), q as nat);
    assert(4 * (x / q) * q == 4 * (q * (x / q))) by (nonlinear_arith);
}

/// What pins `unit_root(a, b)` down without a division, and its bounds:
/// twice the root lies within one of twice the exact share.
proof fn lemma_unit_root(a: int, b: int)
    requires
        a != 0 || b != 0,
    ensures
        0 <= unit_root(a, b) <= SCALE,
        0 <= floor_sqrt((4 * (a * a * (SCALE * SCALE)) / (a * a + b * b)) as nat) <= 2 * SCALE,
        a == 0 ==> unit_root(a, b) == 0,
        (2 * unit_root(a, b) - 1) * (2 * unit_root(a, b) - 1) * (a * a + b * b) <= 4 * (a * a * (
        SCALE * SCALE)) + (a * a + b * b),
        4 * (a * a * (SCALE * SCALE)) < (2 * unit_root(a, b) + 1) * (2 * unit_root(a, b) + 1) * (a
            * a + b * b),
{
    let s2: int = SCALE * SCALE;
    let aa = a * a;
    let q = a * a + b * b;
    assert(aa >= 0 && q > 0 && aa <= q) by (nonlinear_arith)
        requires
            aa == a * a,
            q == a * a + b * b,
            a != 0 || b != 0,
    ;
    let a4 = 4 * (aa * s2);
    let t = a4 / q;
    assert(0 <= t <= 4 * s2 && t * q <= a4 < (t + 1) * q) by (nonlinear_arith)
        requires
            t == a4 / q,
            a4 == 4 * (aa * s2),
            q > 0,
            0 <= aa <= q,
            s2 >= 0,
    ;
    lemma_floor_sqrt(t as nat);
    let m = floor_sqrt(t as nat) as int;
    let n = unit_root(a, b);
    assert(n == (m + 1) / 2);
    if m > 2 * SCALE {
        assert(m * m >= (2 * SCALE + 1) * (2 * SCALE + 1)) by (nonlinear_arith)
            requires
                m >= 2 * SCALE + 1,
        ;
    }
    let lo = 2 * n - 1;
    let hi = 2 * n + 1;
    assert(lo * lo * q <= a4 + q) by (nonlinear_arith)
        requires
            -1 <= lo <= m,
            0 <= m,
            m * m <= t,
            t * q <= a4,
            q > 0,
            0 <= a4,
    ;
    assert(a4 < hi * hi * q) by (nonlinear_arith)
        requires
            0 <= m,
            m + 1 <= hi,
            t + 1 <= (m + 1) * (m + 1),
            a4 < (t + 1) * q,
            q > 0,
    ;
    if a == 0 {
        assert(aa == 0 && t == 0) by (nonlinear_arith)
            requires
                a == 0,
                aa == a * a,
                a4 == 4 * (aa * s2),
                t == a4 / q,
                q > 0,
        ;
        assert(m == 0) by (nonlinear_arith)
            requires
                0 <= m,
                m * m <= 0,
        ;
    }
}

/// The unit vector along any vector other than zero has unit length, up
/// to rounding, and each of its components has the sign of the component
/// it came from, or is zero.
pub proof fn lemma_unit_length(a: int, b: int)
    requires
        a != 0 || b != 0,
    ensures
        is_unit(unit_part(a, b), unit_part(b, a)),
        a >= 0 ==> 0 <= unit_part(a, b) <= SCALE,
        a <= 0 ==> -SCALE <= unit_part(a, b) <= 0,
        b >= 0 ==> 0 <= unit_part(b, a) <= SCALE,
        b <= 0 ==> -SCALE <= unit_part(b, a) <= 0,
{
    let s2: int = SCALE * SCALE;
    let q = a * a + b * b;
    let ra = unit_root(a, b);
    let rb = unit_root(b, a);
    lemma_unit_root(a, b);
    lemma_unit_root(b, a);
    assert(b * b + a * a == q);
    assert(q > 0) by (nonlinear_arith)
        requires
            q == a * a + b * b,
            a != 0 || b != 0,
    ;
    // twice the roots, each within one of twice the exact share
    let x = 2 * ra;
    let y = 2 * rb;
    let fa = 4 * (a * a * s2);
    let fb = 4 * (b * b * s2);
    assert(fa + fb == 4 * s2 * q) by (nonlinear_arith)
        requires
            fa == 4 * (a * a * s2),
            fb == 4 * (b * b * s2),
            q == a * a + b * b,
    ;
    assert((x - 1) * (x - 1) + (y - 1) * (y - 1) <= 4 * s2 + 2) by (nonlinear_arith)
        requires
            (x - 1) * (x - 1) * q <= fa + q,
            (y - 1) * (y - 1) * q <= fb + q,
            fa + fb == 4 * s2 * q,
            q > 0,
    ;
    assert((x + 1) * (x + 1) + (y + 1) * (y + 1) > 4 * s2) by (nonlinear_arith)
        requires
            fa < (x + 1) * (x + 1) * q,
            fb < (y + 1) * (y + 1) * q,
            fa + fb == 4 * s2 * q,
            q > 0,
    ;
    let t = x + y - 2;
    assert(t * t <= 2 * (4 * s2 + 2)) by (nonlinear_arith)
        requires
            t == (x - 1) + (y - 1),
            (x - 1) * (x - 1) + (y - 1) * (y - 1) <= 4 * s2 + 2,
    ;
    if t >= 2_828_428 {
        assert(t * t >= 2_828_428 * 2_828_428) by (nonlinear_arith)
            requires
                t >= 2_828_428,
        ;
    }
    assert(x * x + y * y == (x - 1) * (x - 1) + (y - 1) * (y - 1) + 2 * t + 2) by (nonlinear_arith)
        requires
            t == x + y - 2,
    ;
    assert(x * x + y * y == (x + 1) * (x + 1) + (y + 1) * (y + 1) - 2 * t - 6) by (nonlinear_arith)
        requires
            t == x + y - 2,
    ;
    assert(x * x + y * y == 4 * (ra * ra + rb * rb)) by (nonlinear_arith)
        requires
            x == 2 * ra,
            y == 2 * rb,
    ;
    assert(unit_part(a, b) * unit_part(a, b) == ra * ra) by (nonlinear_arith)
        requires
            unit_part(a, b) == ra || unit_part(a, b) == -ra,
    ;
    assert(unit_part(b, a) * unit_part(b, a) == rb * rb) by (nonlinear_arith)
        requires
            unit_part(b, a) == rb || unit_part(b, a) == -rb,
    ;
}

} // verus!
