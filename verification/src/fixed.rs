//! Fixed-point scalars: the scale, the representable range, clamping into
//! that range, and the integer square root that normalisation rests on.
use vstd::prelude::*;

verus! {

/// Sub-units per unit of the host: the coordinate `c` stands for `c / SCALE`.
pub const SCALE: i64 = 1_000_000;

/// The largest magnitude that a coordinate or a speed may take. A result
/// beyond it is clamped to it, so no component ever leaves the range.
pub const LIMIT: i64 = 10_000_000_000_000;

/// Microseconds per second.
pub const MICROS_PER_SECOND: u64 = 1_000_000;

/// Whether `c` is a representable component.
pub open spec fn in_range(c: int) -> bool {
    -LIMIT <= c <= LIMIT
}

/// The representable component nearest to `c`.
pub open spec fn clamp(c: int) -> int {
    if c < -LIMIT {
        -(LIMIT as int)
    } else if c > LIMIT {
        LIMIT as int
    } else {
        c
    }
}

/// Brings an intermediate result back into the representable range.
pub fn clamp_component(c: i128) -> (r: i64)
    ensures
        r == clamp(c as int),
        in_range(r as int),
{
    if c < -(LIMIT as i128) {
        -LIMIT
    } else if c > LIMIT as i128 {
        LIMIT
    } else {
        c as i64
    }
}

/// Whether `r` is the square root of `n`, rounded down.
pub open spec fn is_floor_sqrt(r: int, n: int) -> bool {
    0 <= r && r * r <= n < (r + 1) * (r + 1)
}

/// The square root of `n`, rounded down.
pub open spec fn floor_sqrt(n: nat) -> nat {
    choose|r: nat| is_floor_sqrt(r as int, n as int)
}

/// At most one number is the rounded-down square root of `n`.
pub proof fn lemma_floor_sqrt_unique(r1: int, r2: int, n: int)
    requires
        is_floor_sqrt(r1, n),
        is_floor_sqrt(r2, n),
    ensures
        r1 == r2,
{
    if r1 < r2 {
        assert((r1 + 1) * (r1 + 1) <= r2 * r2) by (nonlinear_arith)
            requires
                0 <= r1,
                r1 + 1 <= r2,
        ;
    } else if r2 < r1 {
        assert((r2 + 1) * (r2 + 1) <= r1 * r1) by (nonlinear_arith)
            requires
                0 <= r2,
                r2 + 1 <= r1,
        ;
    }
}

/// Every natural number has a rounded-down square root.
proof fn lemma_floor_sqrt_exists(n: nat)
    ensures
        exists|r: nat| is_floor_sqrt(r as int, n as int),
    decreases n,
{
    if n == 0 {
        assert(is_floor_sqrt(0nat as int, n as int));
    } else {
        let m = (n - 1) as nat;
        lemma_floor_sqrt_exists(m);
        let r = choose|r: nat| is_floor_sqrt(r as int, m as int);
        if (r + 1) * (r + 1) <= n {
            assert((r + 1) * (r + 1) < (r + 2) * (r + 2)) by (nonlinear_arith);
            assert(is_floor_sqrt((r + 1) as nat as int, n as int));
        } else {
            assert(is_floor_sqrt(r as int, n as int));
        }
    }
}

/// `floor_sqrt(n)` is the rounded-down square root of `n`, and the only one.
pub proof fn lemma_floor_sqrt(n: nat)
    ensures
        is_floor_sqrt(floor_sqrt(n) as int, n as int),
        forall|r: int| is_floor_sqrt(r, n as int) ==> r == floor_sqrt(n),
{
    lemma_floor_sqrt_exists(n);
    assert forall|r: int| is_floor_sqrt(r, n as int) implies r == floor_sqrt(n) by {
        lemma_floor_sqrt_unique(r, floor_sqrt(n) as int, n as int);
    }
}

/// The square root of `n`, rounded down, found by bisection.
pub fn isqrt(n: u128) -> (r: u64)
    ensures
        r == floor_sqrt(n as nat),
        is_floor_sqrt(r as int, n as int),
{
    let mut lo: u128 = 0;
    let mut hi: u128 = 0x1_0000_0000_0000_0000;
    while hi - lo > 1
        invariant
            lo < hi <= 0x1_0000_0000_0000_0000,
            lo * lo <= n,
            n < hi * hi,
        decreases hi - lo,
    {
        let mid: u128 = lo + (hi - lo) / 2;
        assert(mid * mid <= 0xffff_ffff_ffff_ffff * 0xffff_ffff_ffff_ffff) by (nonlinear_arith)
            requires
                0 <= mid <= 0xffff_ffff_ffff_ffff,
        ;
        if mid * mid <= n {
            lo = mid;
        } else {
            hi = mid;
        }
    }
    proof {
        assert(is_floor_sqrt(lo as int, n as int));
        lemma_floor_sqrt(n as nat);
    }
    lo as u64
}

} // verus!
