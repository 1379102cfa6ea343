//! The naive (Lloyd) k-means engine: assign every point to its nearest
//! centroid, recompute each centroid as the mean of its points, and repeat
//! until the centroids stop moving or the iteration budget is spent.

use vstd::prelude::*;

use crate::plus_plus::{init_plus_plus, plus_plus_spec};
use crate::point::{
    all_valid, best_prefix, closest, lemma_best_prefix, sq_dist, Point, BUFFER_MAX, CHANNEL_MAX,
    DIST_LIMIT,
};
use crate::rng::{pick_below, range_event, SeedRng};

verus! {

/// Range bound for one random channel draw: a channel is drawn uniformly
/// from `0..=CHANNEL_MAX`.
pub const CHANNEL_RANGE: u64 = CHANNEL_MAX + 1;

/// The assignment of every buffered point: the index of its nearest
/// centroid, ties resolved to the first minimum encountered.
pub open spec fn assignment(buf: Seq<Point>, cents: Seq<Point>) -> Seq<u8> {
    Seq::new(buf.len(), |i: int| closest(buf[i], cents) as u8)
}

/// How many of the first `n` assignment indices name centroid `j`.
pub open spec fn count_in(indices: Seq<u8>, j: int, n: int) -> int
    decreases n,
{
    if n <= 0 {
        0
    } else {
        count_in(indices, j, n - 1) + if indices[n - 1] == j {
            1int
        } else {
            0int
        }
    }
}

/// Sum of channel `c` over the first `n` points assigned to centroid `j`.
pub open spec fn sum_in(buf: Seq<Point>, indices: Seq<u8>, j: int, c: int, n: int) -> int
    decreases n,
{
    if n <= 0 {
        0
    } else {
        sum_in(buf, indices, j, c, n - 1) + if indices[n - 1] == j {
            buf[n - 1].ch(c) as int
        } else {
            0int
        }
    }
}

/// The point drawn by three uniform channel draws.
pub open spec fn random_point(seed: u64, log: Seq<Seq<u64>>) -> Point {
    let log1 = log.push(range_event(CHANNEL_RANGE));
    let log2 = log1.push(range_event(CHANNEL_RANGE));
    Point {
        c0: pick_below(seed, log, CHANNEL_RANGE),
        c1: pick_below(seed, log1, CHANNEL_RANGE),
        c2: pick_below(seed, log2, CHANNEL_RANGE),
    }
}

/// The draw log after three uniform channel draws.
pub open spec fn random_log(log: Seq<Seq<u64>>) -> Seq<Seq<u64>> {
    log.push(range_event(CHANNEL_RANGE)).push(range_event(CHANNEL_RANGE)).push(
        range_event(CHANNEL_RANGE),
    )
}

/// The mean of the points assigned to centroid `j`, channel sums divided by
/// the occurrence count (integer division; meaningful when the count is
/// positive).
pub open spec fn cluster_mean(buf: Seq<Point>, indices: Seq<u8>, j: int) -> Point {
    let n = buf.len() as int;
    let cnt = count_in(indices, j, n);
    Point {
        c0: (sum_in(buf, indices, j, 0, n) / cnt) as u64,
        c1: (sum_in(buf, indices, j, 1, n) / cnt) as u64,
        c2: (sum_in(buf, indices, j, 2, n) / cnt) as u64,
    }
}

/// Recomputing centroids `j..`: each becomes the mean of its assigned
/// points, or a fresh random point when no point is assigned to it.
pub open spec fn recalc_from(
    buf: Seq<Point>,
    indices: Seq<u8>,
    cents: Seq<Point>,
    j: int,
    seed: u64,
    log: Seq<Seq<u64>>,
) -> (Seq<Point>, Seq<Seq<u64>>)
    decreases cents.len() - j,
{
    if j < 0 || j >= cents.len() {
        (cents, log)
    } else if count_in(indices, j, buf.len() as int) != 0 {
        recalc_from(buf, indices, cents.update(j, cluster_mean(buf, indices, j)), j + 1, seed, log)
    } else {
        recalc_from(buf, indices, cents.update(j, random_point(seed, log)), j + 1, seed, random_log(log))
    }
}

/// Recomputing every centroid.
pub open spec fn recalc(
    buf: Seq<Point>,
    indices: Seq<u8>,
    cents: Seq<Point>,
    seed: u64,
    log: Seq<Seq<u64>>,
) -> (Seq<Point>, Seq<Seq<u64>>) {
    recalc_from(buf, indices, cents, 0, seed, log)
}

/// Sum of squared centroid movement over the first `n` centroid pairs.
pub open spec fn score_prefix(cents: Seq<Point>, old_cents: Seq<Point>, n: int) -> int
    decreases n,
{
    if n <= 0 {
        0
    } else {
        score_prefix(cents, old_cents, n - 1) + sq_dist(cents[n - 1], old_cents[n - 1])
    }
}

/// The convergence score: the sum of squared distances between paired
/// current and previous centroids.
pub open spec fn convergence_score(cents: Seq<Point>, old_cents: Seq<Point>) -> int {
    if cents.len() <= old_cents.len() {
        score_prefix(cents, old_cents, cents.len() as int)
    } else {
        score_prefix(cents, old_cents, old_cents.len() as int)
    }
}

/// Everything one engine run determines: the final score, centroids,
/// assignment indices, and the draw log it leaves behind.
#[verifier::ext_equal]
pub ghost struct RunOutcome {
    /// Final convergence score.
    pub score: int,
    /// Final centroids.
    pub centroids: Seq<Point>,
    /// Final assignment indices.
    pub indices: Seq<u8>,
    /// The draw log after the run.
    pub log: Seq<Seq<u64>>,
}

/// The main loop of the naive engine, starting from seeded centroids with
/// `remaining` allowed further iterations: assign, recompute, score, and
/// stop once the budget is spent or the score reaches the threshold.
pub open spec fn engine_loop(
    buf: Seq<Point>,
    cents: Seq<Point>,
    seed: u64,
    log: Seq<Seq<u64>>,
    remaining: nat,
    converge: u64,
) -> RunOutcome
    decreases remaining,
{
    let indices = assignment(buf, cents);
    let rc = recalc(buf, indices, cents, seed, log);
    let sc = convergence_score(rc.0, cents);
    if remaining == 0 || sc <= converge {
        RunOutcome { score: sc, centroids: rc.0, indices, log: rc.1 }
    } else {
        engine_loop(buf, rc.0, seed, rc.1, (remaining - 1) as nat, converge)
    }
}

/// The whole naive run: k-means++ seeding from an empty draw log, then the
/// engine loop.
pub open spec fn kmeans_spec(
    k: nat,
    max_iter: nat,
    converge: u64,
    buf: Seq<Point>,
    seed: u64,
) -> RunOutcome {
    let pp = plus_plus_spec(k, buf, seed, Seq::empty());
    engine_loop(buf, pp.0, seed, pp.1, max_iter, converge)
}

/// Result of a k-means run: convergence score, centroids, and the indexed
/// buffer.
#[derive(Clone, Debug)]
pub struct Kmeans {
    /// Sum of squared distances between the final and previous centroids.
    pub score: u64,
    /// Points determined to be centroids of the input buffer.
    pub centroids: Vec<Point>,
    /// Buffer of points indexed to centroids.
    pub indices: Vec<u8>,
}

impl Kmeans {
    /// An empty result whose score compares above every real score, for
    /// best-of-N selection.
    pub fn new() -> (r: Kmeans)
        ensures
            r.score == u64::MAX,
            r.centroids@ == Seq::<Point>::empty(),
            r.indices@ == Seq::<u8>::empty(),
    {
        Kmeans { score: u64::MAX, centroids: Vec::new(), indices: Vec::new() }
    }
}

impl Point {
    /// Append to `indices` the index of the nearest centroid of every
    /// buffered point, ties resolved to the first minimum encountered.
    pub fn get_closest_centroid(buffer: &Vec<Point>, centroids: &Vec<Point>, indices: &mut Vec<u8>)
        requires
            all_valid(buffer@),
            all_valid(centroids@),
            1 <= centroids@.len() <= 255,
        ensures
            final(indices)@ == old(indices)@ + assignment(buffer@, centroids@),
            forall|t: int|
                0 <= t < final(indices)@.len() - old(indices)@.len() ==> (
                #[trigger] assignment(buffer@, centroids@)[t]) < centroids@.len(),
    {
        let ghost orig = indices@;
        let mut i: usize = 0;
        while i < buffer.len()
            invariant
                0 <= i <= buffer@.len(),
                all_valid(buffer@),
                all_valid(centroids@),
                1 <= centroids@.len() <= 255,
                indices@.len() == orig.len() + i,
                forall|t: int| 0 <= t < orig.len() ==> indices@[t] == orig[t],
                forall|t: int|
                    0 <= t < i ==> indices@[orig.len() + t] == assignment(buffer@, centroids@)[t]
                        && (#[trigger] assignment(buffer@, centroids@)[t]) < centroids@.len(),
            decreases buffer@.len() - i,
        {
            let mut index: usize = 0;
            let mut min: u64 = u64::MAX;
            let mut j: usize = 0;
            while j < centroids.len()
                invariant
                    0 <= j <= centroids@.len(),
                    i < buffer@.len(),
                    all_valid(buffer@),
                    all_valid(centroids@),
                    (index as int, min as int) == best_prefix(buffer@[i as int], centroids@, j as int),
                decreases centroids@.len() - j,
            {
                let diff = Point::difference(&buffer[i], &centroids[j]);
                if diff < min {
                    min = diff;
                    index = j;
                }
                j += 1;
            }
            proof {
                lemma_best_prefix(buffer@[i as int], centroids@, centroids@.len() as int);
            }
            indices.push(index as u8);
            i += 1;
        }
        assert(indices@ =~= orig + assignment(buffer@, centroids@));
    }

    /// Generate a random point, one uniform draw per channel.
    pub fn create_random(rng: &mut SeedRng) -> (p: Point)
        ensures
            p == random_point(old(rng).seed(), old(rng).draws()),
            p.valid(),
            final(rng).seed() == old(rng).seed(),
            final(rng).draws() == random_log(old(rng).draws()),
    {
        let c0 = rng.draw_below(CHANNEL_RANGE);
        let c1 = rng.draw_below(CHANNEL_RANGE);
        let c2 = rng.draw_below(CHANNEL_RANGE);
        Point { c0, c1, c2 }
    }

    /// Replace every centroid with the mean of the points assigned to it,
    /// or with a fresh random point when no point is assigned to it.
    pub fn recalculate_centroids(
        rng: &mut SeedRng,
        buf: &Vec<Point>,
        centroids: &mut Vec<Point>,
        indices: &Vec<u8>,
    )
        requires
            all_valid(buf@),
            indices@.len() == buf@.len(),
            buf@.len() <= BUFFER_MAX,
        ensures
            (final(centroids)@, final(rng).draws()) == recalc(
                buf@,
                indices@,
                old(centroids)@,
                old(rng).seed(),
                old(rng).draws(),
            ),
            final(centroids)@.len() == old(centroids)@.len(),
            all_valid(final(centroids)@),
            final(rng).seed() == old(rng).seed(),
    {
        let ghost seed = rng.seed();
        let ghost log0 = rng.draws();
        let ghost orig = centroids@;
        let mut j: usize = 0;
        while j < centroids.len()
            invariant
                seed == old(rng).seed(),
                0 <= j <= centroids@.len(),
                centroids@.len() == orig.len(),
                all_valid(buf@),
                indices@.len() == buf@.len(),
                buf@.len() <= BUFFER_MAX,
                rng.seed() == seed,
                forall|t: int| 0 <= t < j ==> (#[trigger] centroids@[t]).valid(),
                recalc_from(buf@, indices@, centroids@, j as int, seed, rng.draws()) == recalc_from(
                    buf@,
                    indices@,
                    orig,
                    0,
                    seed,
                    log0,
                ),
            decreases centroids@.len() - j,
        {
            let mut s0: u64 = 0;
            let mut s1: u64 = 0;
            let mut s2: u64 = 0;
            let mut counter: u64 = 0;
            let mut i: usize = 0;
            while i < buf.len()
                invariant
                    0 <= i <= buf@.len(),
                    all_valid(buf@),
                    indices@.len() == buf@.len(),
                    buf@.len() <= BUFFER_MAX,
                    j < centroids@.len(),
                    counter == count_in(indices@, j as int, i as int),
                    s0 == sum_in(buf@, indices@, j as int, 0, i as int),
                    s1 == sum_in(buf@, indices@, j as int, 1, i as int),
                    s2 == sum_in(buf@, indices@, j as int, 2, i as int),
                    counter <= i,
                    s0 <= counter * CHANNEL_MAX,
                    s1 <= counter * CHANNEL_MAX,
                    s2 <= counter * CHANNEL_MAX,
                decreases buf@.len() - i,
            {
                if indices[i] as usize == j {
                    proof {
                        assert((counter + 1) * CHANNEL_MAX == counter * CHANNEL_MAX + CHANNEL_MAX)
                            by (nonlinear_arith);
                        assert((counter + 1) * CHANNEL_MAX <= BUFFER_MAX * CHANNEL_MAX)
                            by (nonlinear_arith)
                            requires counter + 1 <= BUFFER_MAX,
                        ;
                    }
                    s0 = s0 + buf[i].c0;
                    s1 = s1 + buf[i].c1;
                    s2 = s2 + buf[i].c2;
                    counter = counter + 1;
                }
                i += 1;
            }
            if counter != 0 {
                let m = Point { c0: s0 / counter, c1: s1 / counter, c2: s2 / counter };
                proof {
                    assert(s0 / counter <= CHANNEL_MAX && s1 / counter <= CHANNEL_MAX && s2
                        / counter <= CHANNEL_MAX) by (nonlinear_arith)
                        requires
                            counter >= 1,
                            s0 <= counter * CHANNEL_MAX,
                            s1 <= counter * CHANNEL_MAX,
                            s2 <= counter * CHANNEL_MAX,
                    ;
                    assert(m == cluster_mean(buf@, indices@, j as int));
                }
                centroids.set(j, m);
            } else {
                let p = Point::create_random(rng);
                centroids.set(j, p);
            }
            j += 1;
        }
    }

    /// The convergence score: sum of squared distances between paired
    /// current and previous centroids.
    pub fn check_loop(centroids: &Vec<Point>, old_centroids: &Vec<Point>) -> (score: u64)
        requires
            all_valid(centroids@),
            all_valid(old_centroids@),
            centroids@.len() <= 255,
        ensures
            score == convergence_score(centroids@, old_centroids@),
    {
        let n: usize = if centroids.len() <= old_centroids.len() {
            centroids.len()
        } else {
            old_centroids.len()
        };
        let mut score: u64 = 0;
        let mut i: usize = 0;
        while i < n
            invariant
                0 <= i <= n,
                n <= centroids@.len(),
                n <= old_centroids@.len(),
                n <= 255,
                all_valid(centroids@),
                all_valid(old_centroids@),
                score == score_prefix(centroids@, old_centroids@, i as int),
                score <= i * DIST_LIMIT,
            decreases n - i,
        {
            proof {
                assert((i + 1) * DIST_LIMIT == i * DIST_LIMIT + DIST_LIMIT) by (nonlinear_arith);
                assert((i + 1) * DIST_LIMIT <= 255 * DIST_LIMIT) by (nonlinear_arith)
                    requires i + 1 <= 255,
                ;
            }
            score = score + Point::difference(&centroids[i], &old_centroids[i]);
            i += 1;
        }
        score
    }
}

/// Copy a vector of points.
pub(crate) fn copy_points(v: &Vec<Point>) -> (r: Vec<Point>)
    ensures
        r@ == v@,
{
    let mut r: Vec<Point> = Vec::new();
    let mut i: usize = 0;
    while i < v.len()
        invariant
            0 <= i <= v@.len(),
            r@ =~= v@.take(i as int),
        decreases v@.len() - i,
    {
        r.push(v[i]);
        i += 1;
    }
    assert(r@ =~= v@);
    r
}

/// Find the k-means centroids of a buffer with the naive engine.
///
/// The run is complete when the score is at most `converge` or the number
/// of iterations reaches `max_iter`.  The result is entirely determined by
/// `k`, `max_iter`, `converge`, the buffer, and the seed; `verbose` has no
/// effect on it (convergence reporting is the caller's affair).
pub fn get_kmeans(
    k: usize,
    max_iter: usize,
    converge: u64,
    verbose: bool,
    buf: &Vec<Point>,
    seed: u64,
) -> (result: Kmeans)
    requires
        1 <= k <= 255,
        1 <= buf@.len() <= BUFFER_MAX,
        all_valid(buf@),
    ensures
        ({
            let outcome = kmeans_spec(k as nat, max_iter as nat, converge, buf@, seed);
            result.score == outcome.score && result.centroids@ == outcome.centroids
                && result.indices@ == outcome.indices
        }),
        1 <= result.centroids@.len() <= k,
        all_valid(result.centroids@),
        result.indices@.len() == buf@.len(),
        forall|t: int|
            0 <= t < result.indices@.len() ==> (#[trigger] result.indices@[t]) < result.centroids@.len(),
{
    let _ = verbose;
    let ghost spec0 = kmeans_spec(k as nat, max_iter as nat, converge, buf@, seed);

    // Initialize the random centroids.
    let mut rng = SeedRng::new(seed);
    let mut centroids: Vec<Point> = Vec::new();
    init_plus_plus(k, &mut rng, buf, &mut centroids);

    // Initialize the indexed buffer and the convergence variables.
    let mut iterations: usize = 0;
    let mut score: u64 = 0;
    let mut old_centroids = copy_points(&centroids);
    let mut indices: Vec<u8> = Vec::new();

    // Main loop: index points to the nearest centroids and recalculate the
    // means until convergence.
    loop
        invariant_except_break
            1 <= k <= 255,
            1 <= buf@.len() <= BUFFER_MAX,
            all_valid(buf@),
            rng.seed() == seed,
            iterations <= max_iter,
            1 <= centroids@.len() <= k,
            all_valid(centroids@),
            old_centroids@ == centroids@,
            indices@.len() == 0,
            engine_loop(
                buf@,
                centroids@,
                seed,
                rng.draws(),
                (max_iter - iterations) as nat,
                converge,
            ) == spec0,
        ensures
            1 <= centroids@.len() <= k,
            all_valid(centroids@),
            indices@.len() == buf@.len(),
            forall|t: int|
                0 <= t < indices@.len() ==> (#[trigger] indices@[t]) < centroids@.len(),
            (RunOutcome {
                score: score as int,
                centroids: centroids@,
                indices: indices@,
                log: rng.draws(),
            }) == spec0,
        decreases max_iter - iterations,
    {
        let ghost cents_at_start = centroids@;
        Point::get_closest_centroid(buf, &centroids, &mut indices);
        assert(indices@ =~= assignment(buf@, cents_at_start));
        Point::recalculate_centroids(&mut rng, buf, &mut centroids, &indices);
        score = Point::check_loop(&centroids, &old_centroids);

        // Stop when the iteration budget is spent or the centroids have
        // moved no further than the convergence threshold.
        if iterations >= max_iter || score <= converge {
            break ;
        }

        indices.clear();
        iterations += 1;
        old_centroids = copy_points(&centroids);
    }

    Kmeans { score, centroids, indices }
}

} // verus!
