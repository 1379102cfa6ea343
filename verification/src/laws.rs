//! Laws that relate the library's functions across runs.

use vstd::prelude::*;

use crate::hamerly::{
    half_distances_spec, ham_assign, ham_assign_point, ham_recalc_from, hamerly_loop, hp_indices,
    initial_point, kmeans_hamerly_spec, update_bounds_spec, HamerlyPoint,
};
use crate::kmeans::{
    assignment, cluster_mean, convergence_score, count_in, engine_loop, kmeans_spec, recalc_from,
    score_prefix, sum_in, RunOutcome,
};
use crate::plus_plus::plus_plus_spec;
use crate::point::{best_prefix, sq_dist, Point};

verus! {

/// Sum of channel `c` over the first `n` buffered points.
pub open spec fn total_sum(buf: Seq<Point>, c: int, n: int) -> int
    decreases n,
{
    if n <= 0 {
        0
    } else {
        total_sum(buf, c, n - 1) + buf[n - 1].ch(c) as int
    }
}

/// The arithmetic mean of the whole buffer, channel sums divided by the
/// point count.
pub open spec fn global_mean(buf: Seq<Point>) -> Point {
    let n = buf.len() as int;
    Point {
        c0: (total_sum(buf, 0, n) / n) as u64,
        c1: (total_sum(buf, 1, n) / n) as u64,
        c2: (total_sum(buf, 2, n) / n) as u64,
    }
}

/// An all-zero assignment of `n` points.
pub open spec fn zero_indices(n: nat) -> Seq<u8> {
    Seq::new(n, |i: int| 0u8)
}

proof fn lemma_single_centroid_assignment(buf: Seq<Point>, cents: Seq<Point>)
    requires
        cents.len() == 1,
    ensures
        assignment(buf, cents) =~= zero_indices(buf.len()),
{
    assert forall|i: int| 0 <= i < buf.len() implies assignment(buf, cents)[i] == 0u8 by {
        assert(best_prefix(buf[i], cents, 0) == (0int, u64::MAX as int));
        assert(best_prefix(buf[i], cents, 1).0 == 0);
    }
}

proof fn lemma_zero_indices_counts(buf: Seq<Point>, n: int)
    requires
        0 <= n <= buf.len(),
    ensures
        count_in(zero_indices(buf.len()), 0, n) == n,
        sum_in(buf, zero_indices(buf.len()), 0, 0, n) == total_sum(buf, 0, n),
        sum_in(buf, zero_indices(buf.len()), 0, 1, n) == total_sum(buf, 1, n),
        sum_in(buf, zero_indices(buf.len()), 0, 2, n) == total_sum(buf, 2, n),
    decreases n,
{
    if n > 0 {
        lemma_zero_indices_counts(buf, n - 1);
    }
}

proof fn lemma_mean_of_all(buf: Seq<Point>)
    requires
        buf.len() >= 1,
    ensures
        cluster_mean(buf, zero_indices(buf.len()), 0) == global_mean(buf),
        count_in(zero_indices(buf.len()), 0, buf.len() as int) == buf.len(),
{
    lemma_zero_indices_counts(buf, buf.len() as int);
}

proof fn lemma_naive_k1_outcome(
    buf: Seq<Point>,
    cents: Seq<Point>,
    seed: u64,
    log: Seq<Seq<u64>>,
    remaining: nat,
    converge: u64,
)
    requires
        buf.len() >= 1,
        cents.len() == 1,
    ensures
        ({
            let out = engine_loop(buf, cents, seed, log, remaining, converge);
            let mean = global_mean(buf);
            let d1 = convergence_score(seq![mean], cents);
            out.centroids == seq![mean] && out.indices == zero_indices(buf.len()) && out.log
                == log && out.score == (if remaining == 0 || d1 <= converge {
                d1
            } else {
                0int
            })
        }),
{
    reveal_with_fuel(recalc_from, 3);
    reveal_with_fuel(engine_loop, 3);
    lemma_single_centroid_assignment(buf, cents);
    lemma_mean_of_all(buf);
    let mean = global_mean(buf);
    let indices = assignment(buf, cents);
    assert(indices == zero_indices(buf.len())) by {
        assert(indices =~= zero_indices(buf.len()));
    }
    let rc = recalc_from(buf, indices, cents, 0, seed, log);
    assert(rc.0 == seq![mean] && rc.1 == log) by {
        assert(count_in(indices, 0, buf.len() as int) == buf.len());
        assert(cluster_mean(buf, indices, 0) == mean);
        assert(cents.update(0, mean) =~= seq![mean]);
    }
    let d1 = convergence_score(rc.0, cents);
    if !(remaining == 0 || d1 <= converge) {
        // A second pass starts from the mean and leaves it unmoved, so the
        // score drops to zero and the loop stops.
        lemma_single_centroid_assignment(buf, seq![mean]);
        let indices2 = assignment(buf, seq![mean]);
        assert(indices2 == zero_indices(buf.len())) by {
            assert(indices2 =~= zero_indices(buf.len()));
        }
        let rc2 = recalc_from(buf, indices2, seq![mean], 0, seed, log);
        assert(rc2.0 == seq![mean] && rc2.1 == log) by {
            assert(count_in(indices2, 0, buf.len() as int) == buf.len());
            assert(cluster_mean(buf, indices2, 0) == mean);
            assert(Seq::empty().push(mean).update(0, mean) =~= seq![mean]);
        }
        assert(convergence_score(rc2.0, seq![mean]) == 0) by {
            assert(sq_dist(mean, mean) == 0) by (nonlinear_arith);
            assert(score_prefix(seq![mean], seq![mean], 1) == score_prefix(
                seq![mean],
                seq![mean],
                0,
            ) + sq_dist(mean, mean));
        }
    }
}

proof fn lemma_ham_k1_indices(
    buf: Seq<Point>,
    cents: Seq<Point>,
    half: Seq<u64>,
    points: Seq<HamerlyPoint>,
)
    requires
        cents.len() == 1,
        forall|t: int| 0 <= t < points.len() ==> (#[trigger] points[t]).index == 0,
    ensures
        forall|t: int|
            0 <= t < points.len() ==> (#[trigger] ham_assign(buf, cents, half, points)[t]).index
                == 0,
        hp_indices(ham_assign(buf, cents, half, points)) =~= zero_indices(points.len()),
{
    assert forall|t: int| 0 <= t < points.len() implies (#[trigger] ham_assign(
        buf,
        cents,
        half,
        points,
    )[t]).index == 0 by {
        if t < buf.len() {
            assert(ham_assign_point(buf[t], cents, half, points[t]).index == points[t].index);
        }
    }
}

proof fn lemma_ham_k1_outcome(
    buf: Seq<Point>,
    cents: Seq<Point>,
    deltas: Seq<u64>,
    half: Seq<u64>,
    points: Seq<HamerlyPoint>,
    seed: u64,
    log: Seq<Seq<u64>>,
    remaining: nat,
    converge: u64,
)
    requires
        buf.len() >= 1,
        cents.len() == 1,
        deltas.len() == 1,
        points.len() == buf.len(),
        forall|t: int| 0 <= t < points.len() ==> (#[trigger] points[t]).index == 0,
    ensures
        ({
            let out = hamerly_loop(buf, cents, deltas, half, points, seed, log, remaining, converge);
            let mean = global_mean(buf);
            let d1 = convergence_score(seq![mean], cents);
            out.centroids == seq![mean] && out.indices == zero_indices(buf.len()) && out.log
                == log && out.score == (if remaining == 0 || d1 <= converge {
                d1
            } else {
                0int
            })
        }),
{
    reveal_with_fuel(ham_recalc_from, 3);
    reveal_with_fuel(hamerly_loop, 3);
    lemma_mean_of_all(buf);
    let mean = global_mean(buf);
    let half1 = half_distances_spec(cents, half);
    let points1 = ham_assign(buf, cents, half1, points);
    lemma_ham_k1_indices(buf, cents, half1, points);
    let indices = hp_indices(points1);
    assert(indices == zero_indices(buf.len())) by {
        assert(indices =~= zero_indices(buf.len()));
    }
    let rc = ham_recalc_from(buf, indices, cents, deltas, 0, seed, log);
    assert(rc.0 == seq![mean] && rc.1.len() == 1 && rc.2 == log) by {
        assert(count_in(indices, 0, buf.len() as int) == buf.len());
        assert(cluster_mean(buf, indices, 0) == mean);
        assert(cents.update(0, mean) =~= seq![mean]);
    }
    let d1 = convergence_score(rc.0, cents);
    if !(remaining == 0 || d1 <= converge) {
        // A second pass starts from the mean and leaves it unmoved, so the
        // score drops to zero and the loop stops.
        let points2 = update_bounds_spec(rc.1, points1);
        assert(points2.len() == buf.len());
        assert forall|t: int| 0 <= t < points2.len() implies (#[trigger] points2[t]).index
            == 0 by {
            assert(points1[t].index == 0);
        }
        let half2 = half_distances_spec(rc.0, half1);
        let points3 = ham_assign(buf, rc.0, half2, points2);
        lemma_ham_k1_indices(buf, rc.0, half2, points2);
        let indices3 = hp_indices(points3);
        assert(indices3 == zero_indices(buf.len())) by {
            assert(indices3 =~= zero_indices(buf.len()));
        }
        let rc2 = ham_recalc_from(buf, indices3, rc.0, rc.1, 0, seed, log);
        assert(rc2.0 == seq![mean] && rc2.2 == log) by {
            assert(count_in(indices3, 0, buf.len() as int) == buf.len());
            assert(cluster_mean(buf, indices3, 0) == mean);
            assert(Seq::empty().push(mean).update(0, mean) =~= seq![mean]);
        }
        assert(convergence_score(rc2.0, rc.0) == 0) by {
            assert(sq_dist(mean, mean) == 0) by (nonlinear_arith);
            assert(score_prefix(seq![mean], seq![mean], 1) == score_prefix(
                seq![mean],
                seq![mean],
                0,
            ) + sq_dist(mean, mean));
        }
    }
}

/// With a single cluster the seeded centroid set holds exactly one point,
/// a copy of some buffered point: k-means++ with `k = 1` draws the first
/// centroid uniformly from the buffer and stops.
pub proof fn lemma_seeding_k1(buf: Seq<Point>, seed: u64, log: Seq<Seq<u64>>)
    requires
        buf.len() >= 1,
    ensures
        plus_plus_spec(1, buf, seed, log).0.len() == 1,
        buf.contains(plus_plus_spec(1, buf, seed, log).0[0]),
{
    let i = crate::rng::pick_below(seed, log, buf.len() as u64) as int;
    assert(0 <= i < buf.len());
    assert(plus_plus_spec(1, buf, seed, log).0 =~= seq![buf[i]]);
    assert(buf.contains(buf[i]));
}

/// With a single cluster, both engines return exactly the arithmetic mean
/// of the input buffer as the one centroid: every point is assigned to
/// the only centroid, and recomputation replaces it by the mean of all
/// points, where it stays.
pub proof fn lemma_k1_centroid_is_mean(
    max_iter: nat,
    converge: u64,
    buf: Seq<Point>,
    seed: u64,
)
    requires
        buf.len() >= 1,
    ensures
        kmeans_spec(1, max_iter, converge, buf, seed).centroids =~= seq![global_mean(buf)],
        kmeans_hamerly_spec(1, max_iter, converge, buf, seed).centroids =~= seq![
            global_mean(buf),
        ],
{
    let pp = plus_plus_spec(1, buf, seed, Seq::empty());
    lemma_seeding_k1(buf, seed, Seq::empty());
    lemma_naive_k1_outcome(buf, pp.0, seed, pp.1, max_iter, converge);
    let init_points = Seq::new(buf.len(), |i: int| initial_point());
    assert(forall|t: int|
        0 <= t < init_points.len() ==> (#[trigger] init_points[t]).index == 0);
    lemma_ham_k1_outcome(
        buf,
        pp.0,
        Seq::new(1, |i: int| 0u64),
        Seq::new(1, |i: int| 0u64),
        init_points,
        seed,
        pp.1,
        max_iter,
        converge,
    );
}

/// Engine agreement for a single cluster: with `k = 1` the naive and the
/// bounded engine produce the same outcome — the same score, centroids,
/// assignment indices, and draw log.
pub proof fn lemma_engines_agree_k1(max_iter: nat, converge: u64, buf: Seq<Point>, seed: u64)
    requires
        buf.len() >= 1,
    ensures
        kmeans_spec(1, max_iter, converge, buf, seed) == kmeans_hamerly_spec(
            1,
            max_iter,
            converge,
            buf,
            seed,
        ),
{
    let pp = plus_plus_spec(1, buf, seed, Seq::empty());
    lemma_seeding_k1(buf, seed, Seq::empty());
    lemma_naive_k1_outcome(buf, pp.0, seed, pp.1, max_iter, converge);
    let init_points = Seq::new(buf.len(), |i: int| initial_point());
    assert(forall|t: int|
        0 <= t < init_points.len() ==> (#[trigger] init_points[t]).index == 0);
    lemma_ham_k1_outcome(
        buf,
        pp.0,
        Seq::new(1, |i: int| 0u64),
        Seq::new(1, |i: int| 0u64),
        init_points,
        seed,
        pp.1,
        max_iter,
        converge,
    );
    let a = kmeans_spec(1, max_iter, converge, buf, seed);
    let b = kmeans_hamerly_spec(1, max_iter, converge, buf, seed);
    assert(a =~= b);
}

/// Determinism: for a fixed cluster count, iteration budget, convergence
/// threshold, buffer, and seed, every run of an engine yields the same
/// outcome.  Each engine's contract pins its result to a pure function of
/// those inputs, so any two results of equal inputs are equal.
pub proof fn lemma_naive_runs_identical(
    k: nat,
    max_iter: nat,
    converge: u64,
    buf: Seq<Point>,
    seed: u64,
    r1: RunOutcome,
    r2: RunOutcome,
)
    requires
        r1 == kmeans_spec(k, max_iter, converge, buf, seed),
        r2 == kmeans_spec(k, max_iter, converge, buf, seed),
    ensures
        r1 == r2,
{
}

/// Determinism of the bounded engine, as `lemma_naive_runs_identical`.
pub proof fn lemma_hamerly_runs_identical(
    k: nat,
    max_iter: nat,
    converge: u64,
    buf: Seq<Point>,
    seed: u64,
    r1: RunOutcome,
    r2: RunOutcome,
)
    requires
        r1 == kmeans_hamerly_spec(k, max_iter, converge, buf, seed),
        r2 == kmeans_hamerly_spec(k, max_iter, converge, buf, seed),
    ensures
        r1 == r2,
{
}

} // verus!
