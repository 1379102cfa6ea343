//! The point domain: three-channel fixed-point values and their squared
//! distance.  Channels are non-negative integers; a caller scales its own
//! domain (a color space, a generic numeric vector) into `0..=CHANNEL_MAX`.

use vstd::prelude::*;

verus! {

/// Largest value a point channel may hold.
pub const CHANNEL_MAX: u64 = 262144;

/// Largest number of points a buffer may hold.  Together with `CHANNEL_MAX`
/// this keeps every distance sum of a run inside `u64`.
pub const BUFFER_MAX: u64 = 16777216;

/// A three-channel point.  The first channel doubles as the
/// luminosity-like scalar that post-processing sorts by.
#[derive(Clone, Copy, Debug, PartialEq, Eq, Structural)]
pub struct Point {
    /// Luminosity-like channel.
    pub c0: u64,
    /// Second channel.
    pub c1: u64,
    /// Third channel.
    pub c2: u64,
}

impl Point {
    /// All channels lie inside the domain.
    pub open spec fn valid(self) -> bool {
        self.c0 <= CHANNEL_MAX && self.c1 <= CHANNEL_MAX && self.c2 <= CHANNEL_MAX
    }

    /// Channel selector for spec-level sums.
    pub open spec fn ch(self, c: int) -> u64 {
        if c == 0 {
            self.c0
        } else if c == 1 {
            self.c1
        } else {
            self.c2
        }
    }
}

/// Squared difference of two channel values.
pub open spec fn sq(a: int, b: int) -> int {
    (a - b) * (a - b)
}

/// Squared distance between two points: the sum of squared channel
/// differences, with no square root taken.
pub open spec fn sq_dist(p: Point, q: Point) -> int {
    sq(p.c0 as int, q.c0 as int) + sq(p.c1 as int, q.c1 as int) + sq(p.c2 as int, q.c2 as int)
}

/// Every point of the sequence is valid.
pub open spec fn all_valid(s: Seq<Point>) -> bool {
    forall|i: int| 0 <= i < s.len() ==> (#[trigger] s[i]).valid()
}

/// Upper limit of `sq_dist` over valid points: `3 * CHANNEL_MAX^2`.
pub const DIST_LIMIT: u64 = 206158430208;

pub proof fn lemma_sq_dist_bounds(p: Point, q: Point)
    requires
        p.valid(),
        q.valid(),
    ensures
        0 <= sq_dist(p, q) <= DIST_LIMIT,
{
    let d0 = p.c0 - q.c0;
    let d1 = p.c1 - q.c1;
    let d2 = p.c2 - q.c2;
    assert(d0 * d0 <= CHANNEL_MAX * CHANNEL_MAX) by (nonlinear_arith)
        requires -(CHANNEL_MAX as int) <= d0 <= CHANNEL_MAX,
    ;
    assert(d1 * d1 <= CHANNEL_MAX * CHANNEL_MAX) by (nonlinear_arith)
        requires -(CHANNEL_MAX as int) <= d1 <= CHANNEL_MAX,
    ;
    assert(d2 * d2 <= CHANNEL_MAX * CHANNEL_MAX) by (nonlinear_arith)
        requires -(CHANNEL_MAX as int) <= d2 <= CHANNEL_MAX,
    ;
    assert(d0 * d0 >= 0) by (nonlinear_arith);
    assert(d1 * d1 >= 0) by (nonlinear_arith);
    assert(d2 * d2 >= 0) by (nonlinear_arith);
}

/// Index and squared distance of the centroid nearest to `p` among the
/// first `n` entries of `cents`, scanning forward and keeping the first
/// minimum.  Before any entry is seen the index is 0 and the distance is
/// the largest `u64`, mirroring how both engines start their scans.
pub open spec fn best_prefix(p: Point, cents: Seq<Point>, n: int) -> (int, int)
    decreases n,
{
    if n <= 0 {
        (0int, u64::MAX as int)
    } else {
        let prev = best_prefix(p, cents, n - 1);
        if sq_dist(p, cents[n - 1]) < prev.1 {
            (n - 1, sq_dist(p, cents[n - 1]))
        } else {
            prev
        }
    }
}

/// Index of the centroid nearest to `p`; ties go to the first minimum.
pub open spec fn closest(p: Point, cents: Seq<Point>) -> int {
    best_prefix(p, cents, cents.len() as int).0
}

/// Squared distance from `p` to its nearest centroid.
pub open spec fn min_dist(p: Point, cents: Seq<Point>) -> int {
    best_prefix(p, cents, cents.len() as int).1
}

pub proof fn lemma_best_prefix(p: Point, cents: Seq<Point>, n: int)
    requires
        p.valid(),
        all_valid(cents),
        1 <= n <= cents.len(),
    ensures
        0 <= best_prefix(p, cents, n).0 < n,
        best_prefix(p, cents, n).1 == sq_dist(p, cents[best_prefix(p, cents, n).0]),
        0 <= best_prefix(p, cents, n).1 <= DIST_LIMIT,
        forall|i: int| 0 <= i < n ==> best_prefix(p, cents, n).1 <= sq_dist(p, cents[i]),
    decreases n,
{
    lemma_sq_dist_bounds(p, cents[n - 1]);
    if n == 1 {
        assert(best_prefix(p, cents, 0) == (0int, u64::MAX as int));
    } else {
        lemma_best_prefix(p, cents, n - 1);
    }
}

/// Squared difference of two `u64` channels, computed without overflow.
fn sq_diff(a: u64, b: u64) -> (r: u64)
    requires
        a <= CHANNEL_MAX,
        b <= CHANNEL_MAX,
    ensures
        r == sq(a as int, b as int),
        r <= 68719476736u64,
{
    let d: u64 = if a >= b {
        a - b
    } else {
        b - a
    };
    proof {
        assert(d * d == sq(a as int, b as int) && d * d <= CHANNEL_MAX * CHANNEL_MAX)
            by (nonlinear_arith)
            requires
                d <= CHANNEL_MAX,
                (d == a - b || d == b - a),
        ;
    }
    d * d
}

impl Point {
    /// Squared distance between two points; the square root is omitted, as
    /// both engines only compare squared magnitudes.
    pub fn difference(c1: &Point, c2: &Point) -> (r: u64)
        requires
            c1.valid(),
            c2.valid(),
        ensures
            r == sq_dist(*c1, *c2),
            r <= DIST_LIMIT,
    {
        proof {
            lemma_sq_dist_bounds(*c1, *c2);
        }
        sq_diff(c1.c0, c2.c0) + sq_diff(c1.c1, c2.c1) + sq_diff(c1.c2, c2.c2)
    }
}

} // verus!
