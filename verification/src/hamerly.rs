//! The accelerated (bounded) k-means engine.
//!
//! It produces a result of the same shape as the naive engine but prunes
//! most distance work with cached bounds: per point an upper bound on the
//! distance to its assigned centroid and a lower bound on the distance to
//! any other centroid, and per centroid its movement and half the distance
//! to its nearest other centroid.  Bounds are kept conservative under
//! integer square roots: upper bounds round up, lower bounds and
//! half-distances round down.

use vstd::prelude::*;

use crate::kmeans::{
    convergence_score, copy_points, count_in, random_log, random_point, sum_in, Kmeans,
    RunOutcome,
};
use crate::plus_plus::{init_plus_plus, plus_plus_spec};
use crate::point::{all_valid, sq_dist, Point, BUFFER_MAX, CHANNEL_MAX};
use crate::rng::SeedRng;

verus! {

/// `r` is the integer square root of `x`, rounded down.
pub open spec fn is_floor_sqrt(x: int, r: int) -> bool {
    0 <= r && r * r <= x && (r + 1) * (r + 1) > x
}

/// The integer square root of `x`, rounded down.
pub open spec fn floor_sqrt(x: int) -> int {
    choose|r: int| is_floor_sqrt(x, r)
}

/// The integer square root of `x`, rounded up.
pub open spec fn ceil_sqrt(x: int) -> int {
    if floor_sqrt(x) * floor_sqrt(x) == x {
        floor_sqrt(x)
    } else {
        floor_sqrt(x) + 1
    }
}

pub proof fn lemma_floor_sqrt_exists(x: int)
    requires
        x >= 0,
    ensures
        is_floor_sqrt(x, floor_sqrt(x)),
    decreases x,
{
    if x == 0 {
        assert(is_floor_sqrt(0, 0)) by (nonlinear_arith);
    } else {
        lemma_floor_sqrt_exists(x - 1);
        let r = floor_sqrt(x - 1);
        if (r + 1) * (r + 1) > x {
            assert(is_floor_sqrt(x, r));
        } else {
            assert((r + 1) * (r + 1) == x);
            assert(is_floor_sqrt(x, r + 1)) by (nonlinear_arith)
                requires (r + 1) * (r + 1) == x && r >= 0,
            ;
        }
    }
    let w = choose|w: int| is_floor_sqrt(x, w);
    assert(is_floor_sqrt(x, w));
}

pub proof fn lemma_floor_sqrt_unique(x: int, r: int)
    requires
        is_floor_sqrt(x, r),
    ensures
        r == floor_sqrt(x),
{
    lemma_floor_sqrt_exists(x);
    let s = floor_sqrt(x);
    assert(r == s) by (nonlinear_arith)
        requires is_floor_sqrt(x, r) && is_floor_sqrt(x, s),
    ;
}

/// Integer square root, rounded down.
pub fn int_sqrt(x: u64) -> (r: u64)
    ensures
        r == floor_sqrt(x as int),
        r * r <= x,
        r <= 4294967295u64,
{
    let mut lo: u64 = 0;
    let mut hi: u64 = 4294967296u64;
    while lo + 1 < hi
        invariant
            lo < hi <= 4294967296u64,
            lo * lo <= x,
            (hi as int) * (hi as int) > x,
        decreases hi - lo,
    {
        let mid: u64 = lo + (hi - lo) / 2;
        proof {
            assert(mid * mid < 18446744073709551616) by (nonlinear_arith)
                requires mid <= 4294967295u64,
            ;
        }
        if mid * mid <= x {
            lo = mid;
        } else {
            hi = mid;
        }
    }
    proof {
        assert(is_floor_sqrt(x as int, lo as int));
        lemma_floor_sqrt_unique(x as int, lo as int);
    }
    lo
}

/// Integer square root, rounded up.
pub fn int_sqrt_ceil(x: u64) -> (r: u64)
    ensures
        r == ceil_sqrt(x as int),
{
    let f = int_sqrt(x);
    if f * f == x {
        f
    } else {
        proof {
            lemma_floor_sqrt_exists(x as int);
        }
        f + 1
    }
}

/// Saturating addition on `u64`.
pub open spec fn sat_add(a: u64, b: u64) -> u64 {
    if a + b > u64::MAX {
        u64::MAX
    } else {
        (a + b) as u64
    }
}

/// Saturating subtraction on `u64`.
pub open spec fn sat_sub(a: u64, b: u64) -> u64 {
    if a >= b {
        (a - b) as u64
    } else {
        0
    }
}

/// Caching data for the accelerated engine's centroids.
#[derive(Clone, Debug)]
pub struct HamerlyCentroids {
    /// Centroid points.
    pub centroids: Vec<Point>,
    /// Distances the centroids have moved since the previous iteration.
    pub deltas: Vec<u64>,
    /// Half-distances to the nearest other centroid.
    pub half_distances: Vec<u64>,
}

impl HamerlyCentroids {
    /// Empty centroid set with `capacity` zeroed cache slots.
    pub fn new(capacity: usize) -> (r: HamerlyCentroids)
        ensures
            r.centroids@ == Seq::<Point>::empty(),
            r.deltas@ == Seq::new(capacity as nat, |i: int| 0u64),
            r.half_distances@ == Seq::new(capacity as nat, |i: int| 0u64),
    {
        let mut deltas: Vec<u64> = Vec::new();
        let mut half_distances: Vec<u64> = Vec::new();
        let mut i: usize = 0;
        while i < capacity
            invariant
                0 <= i <= capacity,
                deltas@ =~= Seq::new(i as nat, |t: int| 0u64),
                half_distances@ =~= Seq::new(i as nat, |t: int| 0u64),
            decreases capacity - i,
        {
            deltas.push(0);
            half_distances.push(0);
            i += 1;
        }
        assert(deltas@ =~= Seq::new(capacity as nat, |i: int| 0u64));
        assert(half_distances@ =~= Seq::new(capacity as nat, |i: int| 0u64));
        HamerlyCentroids { centroids: Vec::new(), deltas, half_distances }
    }
}

/// Caching data for one point in the accelerated engine.
#[derive(Clone, Copy, Debug, PartialEq, Eq, Structural)]
pub struct HamerlyPoint {
    /// Index of this point's centroid.
    pub index: u8,
    /// Upper bound on the distance from this point to its centroid.
    pub upper_bound: u64,
    /// Lower bound on the distance from this point to any centroid beyond
    /// its closest one.
    pub lower_bound: u64,
}

impl HamerlyPoint {
    /// The starting state: assigned to centroid 0 with trivial bounds.
    pub fn new() -> (r: HamerlyPoint)
        ensures
            r == initial_point(),
    {
        HamerlyPoint { index: 0, upper_bound: u64::MAX, lower_bound: 0 }
    }
}

/// The starting state of every point's cache.
pub open spec fn initial_point() -> HamerlyPoint {
    HamerlyPoint { index: 0, upper_bound: u64::MAX, lower_bound: 0 }
}

/// Minimum squared distance from centroid `i` to any other centroid among
/// the first `n`, the largest `u64` when there is none.
pub open spec fn min_other_prefix(cents: Seq<Point>, i: int, n: int) -> int
    decreases n,
{
    if n <= 0 {
        u64::MAX as int
    } else {
        let prev = min_other_prefix(cents, i, n - 1);
        if n - 1 == i {
            prev
        } else if sq_dist(cents[i], cents[n - 1]) < prev {
            sq_dist(cents[i], cents[n - 1])
        } else {
            prev
        }
    }
}

/// The recomputed half-distance slots: slot `i` becomes half the rounded-
/// down root of centroid `i`'s distance to its nearest other centroid;
/// slots beyond the centroid count keep their old value.
pub open spec fn half_distances_spec(cents: Seq<Point>, old_half: Seq<u64>) -> Seq<u64> {
    Seq::new(
        old_half.len(),
        |i: int|
            if i < cents.len() {
                (floor_sqrt(min_other_prefix(cents, i, cents.len() as int)) / 2) as u64
            } else {
                old_half[i]
            },
    )
}

/// The two smallest squared distances from `p` to the first `n` centroids
/// and the index of the nearest, scanning forward from the first.
pub open spec fn scan_two(p: Point, cents: Seq<Point>, n: int) -> (int, int, int)
    decreases n,
{
    if n <= 1 {
        (sq_dist(p, cents[0]), u64::MAX as int, 0int)
    } else {
        let prev = scan_two(p, cents, n - 1);
        let d = sq_dist(p, cents[n - 1]);
        if d < prev.0 {
            (d, prev.0, n - 1)
        } else if d < prev.1 {
            (prev.0, d, prev.2)
        } else {
            prev
        }
    }
}

/// One point's pass of the bounded assignment step: skip it entirely when
/// its upper bound rules out a change, else tighten the upper bound and
/// retry, else scan all centroids for the two nearest.
pub open spec fn ham_assign_point(
    p: Point,
    cents: Seq<Point>,
    half: Seq<u64>,
    hp: HamerlyPoint,
) -> HamerlyPoint {
    let z: u64 = if half[hp.index as int] >= hp.lower_bound {
        half[hp.index as int]
    } else {
        hp.lower_bound
    };
    if hp.upper_bound <= z {
        hp
    } else {
        let ub = ceil_sqrt(sq_dist(p, cents[hp.index as int])) as u64;
        let hp1 = HamerlyPoint { index: hp.index, upper_bound: ub, lower_bound: hp.lower_bound };
        if ub <= z {
            hp1
        } else if cents.len() < 2 {
            hp1
        } else {
            let sc = scan_two(p, cents, cents.len() as int);
            let hp2 = if sc.2 != hp.index as int {
                HamerlyPoint {
                    index: sc.2 as u8,
                    upper_bound: ceil_sqrt(sc.0) as u64,
                    lower_bound: hp1.lower_bound,
                }
            } else {
                hp1
            };
            HamerlyPoint {
                index: hp2.index,
                upper_bound: hp2.upper_bound,
                lower_bound: floor_sqrt(sc.1) as u64,
            }
        }
    }
}

/// The bounded assignment step over every buffered point; point slots
/// beyond the buffer keep their old state.
pub open spec fn ham_assign(
    buf: Seq<Point>,
    cents: Seq<Point>,
    half: Seq<u64>,
    points: Seq<HamerlyPoint>,
) -> Seq<HamerlyPoint> {
    Seq::new(
        points.len(),
        |i: int|
            if i < buf.len() {
                ham_assign_point(buf[i], cents, half, points[i])
            } else {
                points[i]
            },
    )
}

/// The assignment indices carried by the point caches.
pub open spec fn hp_indices(points: Seq<HamerlyPoint>) -> Seq<u8> {
    Seq::new(points.len(), |i: int| points[i].index)
}

/// Recomputing centroids and their movement deltas from `j` on: each
/// centroid becomes the mean of its assigned points (or a fresh random
/// point when none is assigned), and its delta the rounded-up root of its
/// squared movement.
pub open spec fn ham_recalc_from(
    buf: Seq<Point>,
    indices: Seq<u8>,
    cents: Seq<Point>,
    deltas: Seq<u64>,
    j: int,
    seed: u64,
    log: Seq<Seq<u64>>,
) -> (Seq<Point>, Seq<u64>, Seq<Seq<u64>>)
    decreases cents.len() - j,
{
    if j < 0 || j >= cents.len() || j >= deltas.len() {
        (cents, deltas, log)
    } else {
        let cnt = count_in(indices, j, buf.len() as int);
        let nc = if cnt != 0 {
            crate::kmeans::cluster_mean(buf, indices, j)
        } else {
            random_point(seed, log)
        };
        let nlog = if cnt != 0 {
            log
        } else {
            random_log(log)
        };
        let d = ceil_sqrt(sq_dist(cents[j], nc)) as u64;
        ham_recalc_from(buf, indices, cents.update(j, nc), deltas.update(j, d), j + 1, seed, nlog)
    }
}

/// The largest movement delta among the first `n`.
pub open spec fn max_delta_prefix(deltas: Seq<u64>, n: int) -> u64
    decreases n,
{
    if n <= 0 {
        0u64
    } else {
        let prev = max_delta_prefix(deltas, n - 1);
        if deltas[n - 1] > prev {
            deltas[n - 1]
        } else {
            prev
        }
    }
}

/// The bound-loosening step after centroids move: every point's upper
/// bound grows by its centroid's delta and its lower bound shrinks by the
/// largest delta, both saturating.
pub open spec fn update_bounds_spec(deltas: Seq<u64>, points: Seq<HamerlyPoint>) -> Seq<
    HamerlyPoint,
> {
    let md = max_delta_prefix(deltas, deltas.len() as int);
    Seq::new(
        points.len(),
        |i: int|
            HamerlyPoint {
                index: points[i].index,
                upper_bound: sat_add(points[i].upper_bound, deltas[points[i].index as int]),
                lower_bound: sat_sub(points[i].lower_bound, md),
            },
    )
}

/// The main loop of the accelerated engine: recompute half-distances, run
/// the bounded assignment, recompute centroids and deltas, score, and stop
/// once the budget is spent or the score reaches the threshold; when it
/// goes on, loosen the bounds first.
pub open spec fn hamerly_loop(
    buf: Seq<Point>,
    cents: Seq<Point>,
    deltas: Seq<u64>,
    half: Seq<u64>,
    points: Seq<HamerlyPoint>,
    seed: u64,
    log: Seq<Seq<u64>>,
    remaining: nat,
    converge: u64,
) -> RunOutcome
    decreases remaining,
{
    let half1 = half_distances_spec(cents, half);
    let points1 = ham_assign(buf, cents, half1, points);
    let rc = ham_recalc_from(buf, hp_indices(points1), cents, deltas, 0, seed, log);
    let sc = convergence_score(rc.0, cents);
    if remaining == 0 || sc <= converge {
        RunOutcome { score: sc, centroids: rc.0, indices: hp_indices(points1), log: rc.2 }
    } else {
        let points2 = update_bounds_spec(rc.1, points1);
        hamerly_loop(buf, rc.0, rc.1, half1, points2, seed, rc.2, (remaining - 1) as nat, converge)
    }
}

impl Point {
    /// For each centroid, cache half the distance to its nearest other
    /// centroid (rounded down).
    pub fn compute_half_distances(centers: &mut HamerlyCentroids)
        requires
            all_valid(old(centers).centroids@),
        ensures
            final(centers).centroids@ == old(centers).centroids@,
            final(centers).deltas@ == old(centers).deltas@,
            final(centers).half_distances@ == half_distances_spec(
                old(centers).centroids@,
                old(centers).half_distances@,
            ),
    {
        let ghost cents = centers.centroids@;
        let ghost half0 = centers.half_distances@;
        let n: usize = if centers.centroids.len() <= centers.half_distances.len() {
            centers.centroids.len()
        } else {
            centers.half_distances.len()
        };
        let mut i: usize = 0;
        while i < n
            invariant
                0 <= i <= n,
                cents == centers.centroids@,
                all_valid(cents),
                n <= cents.len(),
                n <= centers.half_distances@.len(),
                n == cents.len() || n == centers.half_distances@.len(),
                centers.deltas@ == old(centers).deltas@,
                half0.len() == centers.half_distances@.len(),
                forall|t: int|
                    0 <= t < i ==> centers.half_distances@[t] == half_distances_spec(
                        cents,
                        half0,
                    )[t],
                forall|t: int| i <= t < half0.len() ==> centers.half_distances@[t] == half0[t],
            decreases n - i,
        {
            let mut mind: u64 = u64::MAX;
            let mut j: usize = 0;
            while j < centers.centroids.len()
                invariant
                    0 <= j <= cents.len(),
                    i < cents.len(),
                    cents == centers.centroids@,
                    all_valid(cents),
                    mind == min_other_prefix(cents, i as int, j as int),
                decreases cents.len() - j,
            {
                if j != i {
                    let diff = Point::difference(&centers.centroids[i], &centers.centroids[j]);
                    if diff < mind {
                        mind = diff;
                    }
                }
                j += 1;
            }
            let root = int_sqrt(mind);
            centers.half_distances.set(i, root / 2);
            i += 1;
        }
        assert(centers.half_distances@ =~= half_distances_spec(cents, half0));
    }

    /// The bounded assignment step: index every point to its nearest
    /// centroid, skipping points whose cached bounds rule out a change.
    pub fn get_closest_centroid_hamerly(
        buffer: &Vec<Point>,
        centers: &HamerlyCentroids,
        points: &mut Vec<HamerlyPoint>,
    )
        requires
            all_valid(buffer@),
            all_valid(centers.centroids@),
            1 <= centers.centroids@.len() <= 255,
            centers.centroids@.len() <= centers.half_distances@.len(),
            forall|t: int|
                0 <= t < old(points)@.len() ==> (#[trigger] old(points)@[t]).index
                    < centers.centroids@.len(),
        ensures
            final(points)@ == ham_assign(
                buffer@,
                centers.centroids@,
                centers.half_distances@,
                old(points)@,
            ),
            final(points)@.len() == old(points)@.len(),
            forall|t: int|
                0 <= t < final(points)@.len() ==> (#[trigger] final(points)@[t]).index
                    < centers.centroids@.len(),
    {
        let ghost cents = centers.centroids@;
        let ghost half = centers.half_distances@;
        let ghost orig = points@;
        let n: usize = if buffer.len() <= points.len() {
            buffer.len()
        } else {
            points.len()
        };
        let mut i: usize = 0;
        while i < n
            invariant
                0 <= i <= n,
                n <= buffer@.len(),
                n <= points@.len(),
                n == buffer@.len() || n == points@.len(),
                cents == centers.centroids@,
                half == centers.half_distances@,
                all_valid(buffer@),
                all_valid(cents),
                1 <= cents.len() <= 255,
                cents.len() <= half.len(),
                points@.len() == orig.len(),
                forall|t: int| 0 <= t < orig.len() ==> (#[trigger] orig[t]).index < cents.len(),
                forall|t: int|
                    0 <= t < i ==> points@[t] == ham_assign(buffer@, cents, half, orig)[t],
                forall|t: int| i <= t < orig.len() ==> points@[t] == orig[t],
                forall|t: int|
                    0 <= t < points@.len() ==> (#[trigger] points@[t]).index < cents.len(),
            decreases n - i,
        {
            let hp = points[i];
            let ghost target = ham_assign_point(buffer@[i as int], cents, half, orig[i as int]);

            // The largest of the half-distance of the point's centroid and
            // the point's lower bound: below it nothing can change.
            let hd = centers.half_distances[hp.index as usize];
            let z: u64 = if hd >= hp.lower_bound {
                hd
            } else {
                hp.lower_bound
            };

            if hp.upper_bound <= z {
                i += 1;
                continue ;
            }

            // Tighten the upper bound to the true rounded-up distance.
            let ub = int_sqrt_ceil(
                Point::difference(&buffer[i], &centers.centroids[hp.index as usize]),
            );
            points.set(
                i,
                HamerlyPoint { index: hp.index, upper_bound: ub, lower_bound: hp.lower_bound },
            );

            if ub <= z {
                i += 1;
                continue ;
            }

            // Find the two closest centroids to the current point.
            if centers.centroids.len() < 2 {
                i += 1;
                continue ;
            }

            let mut min1 = Point::difference(&buffer[i], &centers.centroids[0]);
            let mut min2: u64 = u64::MAX;
            let mut c1: usize = 0;
            let mut j: usize = 1;
            while j < centers.centroids.len()
                invariant
                    1 <= j <= cents.len(),
                    i < buffer@.len(),
                    cents == centers.centroids@,
                    all_valid(buffer@),
                    all_valid(cents),
                    (min1 as int, min2 as int, c1 as int) == scan_two(
                        buffer@[i as int],
                        cents,
                        j as int,
                    ),
                    c1 < cents.len(),
                decreases cents.len() - j,
            {
                let diff = Point::difference(&buffer[i], &centers.centroids[j]);
                if diff < min1 {
                    min2 = min1;
                    min1 = diff;
                    c1 = j;
                    j += 1;
                    continue ;
                }
                if diff < min2 {
                    min2 = diff;
                }
                j += 1;
            }

            if c1 as u8 != hp.index {
                points.set(
                    i,
                    HamerlyPoint {
                        index: c1 as u8,
                        upper_bound: int_sqrt_ceil(min1),
                        lower_bound: hp.lower_bound,
                    },
                );
            }
            let cur = points[i];
            points.set(
                i,
                HamerlyPoint {
                    index: cur.index,
                    upper_bound: cur.upper_bound,
                    lower_bound: int_sqrt(min2),
                },
            );
            assert(points@[i as int] == target);
            i += 1;
        }
        assert(points@ =~= ham_assign(buffer@, cents, half, orig));
    }

    /// Recompute every centroid as the mean of its assigned points (or a
    /// fresh random point when none is assigned), and cache the rounded-up
    /// root of its squared movement.
    pub fn recalculate_centroids_hamerly(
        rng: &mut SeedRng,
        buf: &Vec<Point>,
        centers: &mut HamerlyCentroids,
        points: &Vec<HamerlyPoint>,
    )
        requires
            all_valid(buf@),
            all_valid(old(centers).centroids@),
            points@.len() == buf@.len(),
            buf@.len() <= BUFFER_MAX,
        ensures
            (final(centers).centroids@, final(centers).deltas@, final(rng).draws())
                == ham_recalc_from(
                buf@,
                hp_indices(points@),
                old(centers).centroids@,
                old(centers).deltas@,
                0,
                old(rng).seed(),
                old(rng).draws(),
            ),
            final(centers).centroids@.len() == old(centers).centroids@.len(),
            final(centers).deltas@.len() == old(centers).deltas@.len(),
            final(centers).half_distances@ == old(centers).half_distances@,
            all_valid(final(centers).centroids@),
            final(rng).seed() == old(rng).seed(),
    {
        let ghost seed = rng.seed();
        let ghost log0 = rng.draws();
        let ghost orig_c = centers.centroids@;
        let ghost orig_d = centers.deltas@;
        let ghost indices = hp_indices(points@);
        let n: usize = if centers.centroids.len() <= centers.deltas.len() {
            centers.centroids.len()
        } else {
            centers.deltas.len()
        };
        let mut j: usize = 0;
        while j < n
            invariant
                seed == old(rng).seed(),
                0 <= j <= n,
                n <= centers.centroids@.len(),
                n <= centers.deltas@.len(),
                n == centers.centroids@.len() || n == centers.deltas@.len(),
                centers.centroids@.len() == orig_c.len(),
                centers.deltas@.len() == orig_d.len(),
                centers.half_distances@ == old(centers).half_distances@,
                all_valid(buf@),
                all_valid(orig_c),
                indices == hp_indices(points@),
                indices.len() == buf@.len(),
                buf@.len() <= BUFFER_MAX,
                rng.seed() == seed,
                forall|t: int| 0 <= t < j ==> (#[trigger] centers.centroids@[t]).valid(),
                forall|t: int| j <= t < orig_c.len() ==> centers.centroids@[t] == orig_c[t],
                ham_recalc_from(
                    buf@,
                    indices,
                    centers.centroids@,
                    centers.deltas@,
                    j as int,
                    seed,
                    rng.draws(),
                ) == ham_recalc_from(buf@, indices, orig_c, orig_d, 0, seed, log0),
            decreases n - j,
        {
            let mut s0: u64 = 0;
            let mut s1: u64 = 0;
            let mut s2: u64 = 0;
            let mut counter: u64 = 0;
            let mut i: usize = 0;
            while i < buf.len()
                invariant
                    0 <= i <= buf@.len(),
                    all_valid(buf@),
                    indices == hp_indices(points@),
                    indices.len() == buf@.len(),
                    points@.len() == buf@.len(),
                    buf@.len() <= BUFFER_MAX,
                    j < centers.centroids@.len(),
                    counter == count_in(indices, j as int, i as int),
                    s0 == sum_in(buf@, indices, j as int, 0, i as int),
                    s1 == sum_in(buf@, indices, j as int, 1, i as int),
                    s2 == sum_in(buf@, indices, j as int, 2, i as int),
                    counter <= i,
                    s0 <= counter * CHANNEL_MAX,
                    s1 <= counter * CHANNEL_MAX,
                    s2 <= counter * CHANNEL_MAX,
                decreases buf@.len() - i,
            {
                if points[i].index as usize == j {
                    proof {
                        assert((counter + 1) * CHANNEL_MAX == counter * CHANNEL_MAX + CHANNEL_MAX)
                            by (nonlinear_arith);
                        assert((counter + 1) * CHANNEL_MAX <= BUFFER_MAX * CHANNEL_MAX)
                            by (nonlinear_arith)
                            requires counter + 1 <= BUFFER_MAX,
                        ;
                    }
                    s0 = s0 + buf[i].c0;
                    s1 = s1 + buf[i].c1;
                    s2 = s2 + buf[i].c2;
                    counter = counter + 1;
                }
                i += 1;
            }
            let new_color: Point;
            if counter != 0 {
                let m = Point { c0: s0 / counter, c1: s1 / counter, c2: s2 / counter };
                proof {
                    assert(s0 / counter <= CHANNEL_MAX && s1 / counter <= CHANNEL_MAX && s2
                        / counter <= CHANNEL_MAX) by (nonlinear_arith)
                        requires
                            counter >= 1,
                            s0 <= counter * CHANNEL_MAX,
                            s1 <= counter * CHANNEL_MAX,
                            s2 <= counter * CHANNEL_MAX,
                    ;
                    assert(m == crate::kmeans::cluster_mean(buf@, indices, j as int));
                }
                new_color = m;
            } else {
                new_color = Point::create_random(rng);
            }
            assert(centers.centroids@[j as int] == orig_c[j as int]);
            assert(orig_c[j as int].valid());
            let delta = int_sqrt_ceil(Point::difference(&centers.centroids[j], &new_color));
            centers.deltas.set(j, delta);
            centers.centroids.set(j, new_color);
            j += 1;
        }
        assert forall|t: int| 0 <= t < centers.centroids@.len() implies (#[trigger] centers
            .centroids@[t]).valid() by {
            if t >= n {
                assert(centers.centroids@[t] == orig_c[t]);
                assert(orig_c[t].valid());
            }
        };
    }

    /// Loosen every point's bounds after the centroids moved: the upper
    /// bound grows by the movement of the point's centroid, the lower
    /// bound shrinks by the largest movement of any centroid.
    pub fn update_bounds(centers: &HamerlyCentroids, points: &mut Vec<HamerlyPoint>)
        requires
            forall|t: int|
                0 <= t < old(points)@.len() ==> (#[trigger] old(points)@[t]).index
                    < centers.deltas@.len(),
        ensures
            final(points)@ == update_bounds_spec(centers.deltas@, old(points)@),
            forall|t: int|
                0 <= t < final(points)@.len() ==> (#[trigger] final(points)@[t]).index
                    == old(points)@[t].index,
    {
        let ghost deltas = centers.deltas@;
        let ghost orig = points@;
        let mut delta_p: u64 = 0;
        let mut c: usize = 0;
        while c < centers.deltas.len()
            invariant
                0 <= c <= deltas.len(),
                deltas == centers.deltas@,
                delta_p == max_delta_prefix(deltas, c as int),
            decreases deltas.len() - c,
        {
            if centers.deltas[c] > delta_p {
                delta_p = centers.deltas[c];
            }
            c += 1;
        }
        let mut i: usize = 0;
        while i < points.len()
            invariant
                0 <= i <= points@.len(),
                deltas == centers.deltas@,
                delta_p == max_delta_prefix(deltas, deltas.len() as int),
                points@.len() == orig.len(),
                forall|t: int| 0 <= t < orig.len() ==> (#[trigger] orig[t]).index < deltas.len(),
                forall|t: int|
                    0 <= t < i ==> points@[t] == update_bounds_spec(deltas, orig)[t],
                forall|t: int| i <= t < orig.len() ==> points@[t] == orig[t],
            decreases points@.len() - i,
        {
            let hp = points[i];
            assert(points@[i as int] == orig[i as int]);
            points.set(
                i,
                HamerlyPoint {
                    index: hp.index,
                    upper_bound: hp.upper_bound.saturating_add(
                        centers.deltas[hp.index as usize],
                    ),
                    lower_bound: hp.lower_bound.saturating_sub(delta_p),
                },
            );
            i += 1;
        }
        assert(points@ =~= update_bounds_spec(deltas, orig));
    }
}

/// The whole accelerated run: k-means++ seeding from an empty draw log,
/// zeroed caches, then the bounded loop.
pub open spec fn kmeans_hamerly_spec(
    k: nat,
    max_iter: nat,
    converge: u64,
    buf: Seq<Point>,
    seed: u64,
) -> RunOutcome {
    let pp = plus_plus_spec(k, buf, seed, Seq::empty());
    hamerly_loop(
        buf,
        pp.0,
        Seq::new(k, |i: int| 0u64),
        Seq::new(k, |i: int| 0u64),
        Seq::new(buf.len(), |i: int| initial_point()),
        seed,
        pp.1,
        max_iter,
        converge,
    )
}


/// Find the k-means centroids of a buffer using the bounded engine.
///
/// Takes the same arguments as `get_kmeans` and produces a result of the
/// same shape, skipping most distance work through cached bounds.  The
/// result is entirely determined by `k`, `max_iter`, `converge`, the
/// buffer, and the seed; `verbose` has no effect on it.
pub fn get_kmeans_hamerly(
    k: usize,
    max_iter: usize,
    converge: u64,
    verbose: bool,
    buf: &Vec<Point>,
    seed: u64,
) -> (result: Kmeans)
    requires
        1 <= k <= 255,
        1 <= buf@.len() <= BUFFER_MAX,
        all_valid(buf@),
    ensures
        ({
            let outcome = kmeans_hamerly_spec(k as nat, max_iter as nat, converge, buf@, seed);
            result.score == outcome.score && result.centroids@ == outcome.centroids
                && result.indices@ == outcome.indices
        }),
        1 <= result.centroids@.len() <= k,
        all_valid(result.centroids@),
        result.indices@.len() == buf@.len(),
        forall|t: int|
            0 <= t < result.indices@.len() ==> (#[trigger] result.indices@[t])
                < result.centroids@.len(),
{
    let _ = verbose;
    let ghost spec0 = kmeans_hamerly_spec(k as nat, max_iter as nat, converge, buf@, seed);

    // Initialize the random centroids and the zeroed caches.
    let mut rng = SeedRng::new(seed);
    let mut centers = HamerlyCentroids::new(k);
    init_plus_plus(k, &mut rng, buf, &mut centers.centroids);

    // Initialize the point caches and the convergence variables.
    let mut iterations: usize = 0;
    let mut score: u64 = 0;
    let mut old_centers = copy_points(&centers.centroids);
    let mut points: Vec<HamerlyPoint> = Vec::new();
    let mut t: usize = 0;
    while t < buf.len()
        invariant
            0 <= t <= buf@.len(),
            points@ =~= Seq::new(t as nat, |i: int| initial_point()),
        decreases buf@.len() - t,
    {
        points.push(HamerlyPoint::new());
        t += 1;
    }
    assert(points@ =~= Seq::new(buf@.len(), |i: int| initial_point()));

    // Main loop: index points to the nearest centroids and recalculate the
    // means until convergence.
    loop
        invariant_except_break
            1 <= k <= 255,
            1 <= buf@.len() <= BUFFER_MAX,
            all_valid(buf@),
            rng.seed() == seed,
            iterations <= max_iter,
            1 <= centers.centroids@.len() <= k,
            centers.deltas@.len() == k,
            centers.half_distances@.len() == k,
            all_valid(centers.centroids@),
            old_centers@ == centers.centroids@,
            points@.len() == buf@.len(),
            forall|t: int|
                0 <= t < points@.len() ==> (#[trigger] points@[t]).index
                    < centers.centroids@.len(),
            hamerly_loop(
                buf@,
                centers.centroids@,
                centers.deltas@,
                centers.half_distances@,
                points@,
                seed,
                rng.draws(),
                (max_iter - iterations) as nat,
                converge,
            ) == spec0,
        ensures
            1 <= centers.centroids@.len() <= k,
            all_valid(centers.centroids@),
            points@.len() == buf@.len(),
            forall|t: int|
                0 <= t < points@.len() ==> (#[trigger] points@[t]).index
                    < centers.centroids@.len(),
            (RunOutcome {
                score: score as int,
                centroids: centers.centroids@,
                indices: hp_indices(points@),
                log: rng.draws(),
            }) == spec0,
        decreases max_iter - iterations,
    {
        let ghost cents_at_start = centers.centroids@;
        Point::compute_half_distances(&mut centers);
        Point::get_closest_centroid_hamerly(buf, &centers, &mut points);
        Point::recalculate_centroids_hamerly(&mut rng, buf, &mut centers, &points);
        score = Point::check_loop(&centers.centroids, &old_centers);

        // Stop when the iteration budget is spent or the centroids have
        // moved no further than the convergence threshold.
        if iterations >= max_iter || score <= converge {
            break ;
        }

        Point::update_bounds(&centers, &mut points);
        old_centers = copy_points(&centers.centroids);
        iterations += 1;
    }

    // Read the final assignment out of the point caches.
    let mut indices: Vec<u8> = Vec::new();
    let mut t: usize = 0;
    while t < points.len()
        invariant
            0 <= t <= points@.len(),
            indices@ =~= hp_indices(points@).take(t as int),
        decreases points@.len() - t,
    {
        indices.push(points[t].index);
        assert(indices@ =~= hp_indices(points@).take(t + 1));
        t += 1;
    }
    assert(indices@ =~= hp_indices(points@));

    Kmeans { score, centroids: centers.centroids, indices }
}

} // verus!
