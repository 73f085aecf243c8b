use vstd::prelude::*;

verus! {

/// One drawing unit, expressed in fixed-point coordinate steps.
pub const UNIT: i64 = 1_000_000_000;

/// Coincidence tolerance: two points are the same endpoint when their
/// Euclidean distance is strictly below 10^-6 drawing units, i.e. 1000
/// coordinate steps.  Stored squared so no root is ever taken.
pub const EPSILON_SQ: i128 = 1_000_000;

/// Bound on stored coordinates (2^61) under which squared distances of two
/// points fit comfortably in an `i128`.
pub const COORD_LIMIT: i64 = 0x2000_0000_0000_0000;

/// Tighter bound (2^59) asked of contours that are offset, so that the
/// displaced coordinates stay within `COORD_LIMIT`.
pub const OFFSET_LIMIT: i64 = 0x800_0000_0000_0000;

/// A point (or direction) in the drawing, in fixed-point coordinates.
#[derive(Clone, Copy, PartialEq, Eq, Structural, Debug)]
pub struct Point3 {
    pub x: i64,
    pub y: i64,
    pub z: i64,
}

pub open spec fn coord_in_range(c: int) -> bool {
    -COORD_LIMIT <= c <= COORD_LIMIT
}

pub open spec fn point_in_range(p: Point3) -> bool {
    coord_in_range(p.x as int) && coord_in_range(p.y as int) && coord_in_range(p.z as int)
}

pub open spec fn coord_in_offset_range(c: int) -> bool {
    -OFFSET_LIMIT <= c <= OFFSET_LIMIT
}

pub open spec fn point_in_offset_range(p: Point3) -> bool {
    coord_in_offset_range(p.x as int) && coord_in_offset_range(p.y as int)
        && coord_in_offset_range(p.z as int)
}

/// Squared Euclidean distance between two points.
pub open spec fn dist_sq(a: Point3, b: Point3) -> int {
    (a.x - b.x) * (a.x - b.x) + (a.y - b.y) * (a.y - b.y) + (a.z - b.z) * (a.z - b.z)
}

/// The coincidence test all stitching decisions rest on: strictly below the
/// tolerance counts as the same point.
pub open spec fn coincide(a: Point3, b: Point3) -> bool {
    dist_sq(a, b) < EPSILON_SQ
}

pub proof fn lemma_dist_sq_symmetric(a: Point3, b: Point3)
    ensures
        dist_sq(a, b) == dist_sq(b, a),
{
    assert((a.x - b.x) * (a.x - b.x) == (b.x - a.x) * (b.x - a.x)) by (nonlinear_arith);
    assert((a.y - b.y) * (a.y - b.y) == (b.y - a.y) * (b.y - a.y)) by (nonlinear_arith);
    assert((a.z - b.z) * (a.z - b.z) == (b.z - a.z) * (b.z - a.z)) by (nonlinear_arith);
}

/// Squared distance, computed without overflow for in-range points.
pub fn distance_sq(a: &Point3, b: &Point3) -> (r: i128)
    requires
        point_in_range(*a),
        point_in_range(*b),
    ensures
        r == dist_sq(*a, *b),
{
    let dx: i128 = a.x as i128 - b.x as i128;
    let dy: i128 = a.y as i128 - b.y as i128;
    let dz: i128 = a.z as i128 - b.z as i128;
    assert(dx * dx + dy * dy + dz * dz <= 3 * 0x4000_0000_0000_0000 * 0x4000_0000_0000_0000
        && dx * dx >= 0 && dy * dy >= 0 && dz * dz >= 0) by (nonlinear_arith)
        requires
            -0x4000_0000_0000_0000 <= dx <= 0x4000_0000_0000_0000,
            -0x4000_0000_0000_0000 <= dy <= 0x4000_0000_0000_0000,
            -0x4000_0000_0000_0000 <= dz <= 0x4000_0000_0000_0000,
    ;
    dx * dx + dy * dy + dz * dz
}

/// Floor of the square root: the largest integer whose square is at most
/// `n` (and 0 for a negative `n`).
pub open spec fn sqrt_floor(n: int) -> int
    decreases n,
{
    if n <= 0 {
        0
    } else {
        let p = sqrt_floor(n - 1);
        if (p + 1) * (p + 1) <= n {
            p + 1
        } else {
            p
        }
    }
}

pub proof fn lemma_sqrt_floor_bounds(n: int)
    requires
        n >= 0,
    ensures
        sqrt_floor(n) >= 0,
        sqrt_floor(n) * sqrt_floor(n) <= n,
        (sqrt_floor(n) + 1) * (sqrt_floor(n) + 1) > n,
    decreases n,
{
    if n > 0 {
        lemma_sqrt_floor_bounds(n - 1);
        let p = sqrt_floor(n - 1);
        if (p + 1) * (p + 1) <= n {
            assert((p + 2) * (p + 2) > n) by (nonlinear_arith)
                requires
                    p >= 0,
                    n <= (p + 1) * (p + 1),
            ;
        }
    }
}

/// The two bounds pin the root down: no second integer satisfies them.
pub proof fn lemma_sqrt_floor_unique(n: int, r: int)
    requires
        n >= 0,
        r >= 0,
        r * r <= n,
        (r + 1) * (r + 1) > n,
    ensures
        r == sqrt_floor(n),
{
    lemma_sqrt_floor_bounds(n);
    let s = sqrt_floor(n);
    assert(r == s) by (nonlinear_arith)
        requires
            r >= 0,
            s >= 0,
            r * r <= n,
            (r + 1) * (r + 1) > n,
            s * s <= n,
            (s + 1) * (s + 1) > n,
    ;
}

/// Any integer whose square is at most `n` is at most the floor root.
pub proof fn lemma_sqrt_floor_maximal(n: int, m: int)
    requires
        n >= 0,
        m >= 0,
        m * m <= n,
    ensures
        m <= sqrt_floor(n),
{
    lemma_sqrt_floor_bounds(n);
    let s = sqrt_floor(n);
    assert(m <= s) by (nonlinear_arith)
        requires
            m >= 0,
            s >= 0,
            m * m <= n,
            (s + 1) * (s + 1) > n,
    ;
}

/// Integer square root by bisection.
pub fn isqrt(n: u128) -> (r: u128)
    requires
        n < 0x4000_0000_0000_0000_0000_0000_0000_0000,
    ensures
        r == sqrt_floor(n as int),
        r * r <= n,
        (r + 1) * (r + 1) > n,
{
    if n == 0 {
        proof {
            lemma_sqrt_floor_unique(n as int, 0);
        }
        return 0;
    }
    let mut lo: u128 = 0;
    let mut hi: u128 = 0x8000_0000_0000_0000;
    proof {
        assert(hi * hi > n) by (nonlinear_arith)
            requires
                hi == 0x8000_0000_0000_0000u128,
                n < 0x4000_0000_0000_0000_0000_0000_0000_0000,
        ;
    }
    while lo + 1 < hi
        invariant
            lo < hi,
            hi <= 0x8000_0000_0000_0000,
            lo * lo <= n,
            hi * hi > n,
        decreases hi - lo,
    {
        let mid: u128 = lo + (hi - lo) / 2;
        proof {
            assert(mid * mid < 0x8000_0000_0000_0000_0000_0000_0000_0000u128 * 2)
                by (nonlinear_arith)
                requires
                    mid < 0x8000_0000_0000_0000u128 + 1,
            ;
        }
        if mid * mid <= n {
            lo = mid;
        } else {
            hi = mid;
        }
    }
    proof {
        lemma_sqrt_floor_unique(n as int, lo as int);
    }
    lo
}

/// Quotient rounded toward zero, as machine division rounds.
pub open spec fn div_trunc(n: int, d: int) -> int {
    if n >= 0 {
        n / d
    } else {
        -((-n) / d)
    }
}

pub proof fn lemma_div_trunc_bound(n: int, d: int, m: int)
    requires
        d >= 1,
        m >= 0,
        -(m * d) <= n <= m * d,
    ensures
        -m <= div_trunc(n, d) <= m,
{
    if n >= 0 {
        assert(0 <= n / d <= m) by (nonlinear_arith)
            requires
                d >= 1,
                m >= 0,
                0 <= n <= m * d,
        ;
    } else {
        assert(0 <= (-n) / d <= m) by (nonlinear_arith)
            requires
                d >= 1,
                m >= 0,
                0 <= -n <= m * d,
        ;
    }
}

/// Division rounding toward zero, the rounding used for all offset
/// displacements.
pub fn divide_toward_zero(n: i128, d: i128) -> (q: i128)
    requires
        1 <= d,
        -0x4000_0000_0000_0000_0000_0000_0000_0000 <= n
            <= 0x4000_0000_0000_0000_0000_0000_0000_0000,
    ensures
        q == div_trunc(n as int, d as int),
{
    if n >= 0 {
        let q: u128 = (n as u128) / (d as u128);
        q as i128
    } else {
        let q: u128 = ((-n) as u128) / (d as u128);
        proof {
            assert((-n) as u128 / (d as u128) <= (-n) as u128) by (nonlinear_arith)
                requires
                    d as u128 >= 1,
            ;
        }
        -(q as i128)
    }
}

/// Whether two points are the same endpoint, up to the tolerance.
pub fn points_coincide(a: &Point3, b: &Point3) -> (r: bool)
    requires
        point_in_range(*a),
        point_in_range(*b),
    ensures
        r == coincide(*a, *b),
{
    distance_sq(a, b) < EPSILON_SQ
}

} // verus!
