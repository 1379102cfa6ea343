//! k-means++ centroid seeding.
//!
//! The first centroid is drawn uniformly from the buffer; each further
//! centroid is drawn with probability proportional to the squared distance
//! from its source point to the nearest centroid chosen so far.  If that
//! distance becomes zero for every point, seeding stops early and the
//! centroid set legitimately stays shorter than `k`.

use vstd::prelude::*;

use crate::point::{
    all_valid, best_prefix, lemma_best_prefix, min_dist, Point, BUFFER_MAX, DIST_LIMIT,
};
use crate::rng::{
    pick_below, pick_weighted, range_event, weight_sum, weighted_event, SeedRng,
};

verus! {

/// The seeding weight of every buffered point: its squared distance to the
/// nearest centroid chosen so far.
pub open spec fn weights_of(buf: Seq<Point>, cents: Seq<Point>) -> Seq<u64> {
    Seq::new(buf.len(), |i: int| min_dist(buf[i], cents) as u64)
}

/// Seeding after the first centroid: draw up to `remaining` further
/// centroids, stopping early when every weight is zero.
pub open spec fn plus_plus_step(
    buf: Seq<Point>,
    cents: Seq<Point>,
    seed: u64,
    log: Seq<Seq<u64>>,
    remaining: nat,
) -> (Seq<Point>, Seq<Seq<u64>>)
    decreases remaining,
{
    if remaining == 0 {
        (cents, log)
    } else {
        let ws = weights_of(buf, cents);
        if weight_sum(ws) == 0 {
            (cents, log)
        } else {
            plus_plus_step(
                buf,
                cents.push(buf[pick_weighted(seed, log, ws)]),
                seed,
                log.push(weighted_event(ws)),
                (remaining - 1) as nat,
            )
        }
    }
}

/// The whole seeding: the centroids chosen for `k`, a seed, and a draw
/// log, together with the log after seeding.
pub open spec fn plus_plus_spec(k: nat, buf: Seq<Point>, seed: u64, log: Seq<Seq<u64>>) -> (
    Seq<Point>,
    Seq<Seq<u64>>,
) {
    if k == 0 {
        (Seq::empty(), log)
    } else {
        plus_plus_step(
            buf,
            seq![buf[pick_below(seed, log, buf.len() as u64) as int]],
            seed,
            log.push(range_event(buf.len() as u64)),
            (k - 1) as nat,
        )
    }
}

/// k-means++ centroid initialization.
///
/// Appends between 1 and `k` centroids to the empty `centroids` vector
/// (none when `k` is 0), each a copy of some buffered point, entirely
/// determined by the seed of `rng`, its draws so far, and the buffer.
pub fn init_plus_plus(k: usize, rng: &mut SeedRng, buf: &Vec<Point>, centroids: &mut Vec<Point>)
    requires
        old(centroids)@.len() == 0,
        1 <= buf@.len() <= BUFFER_MAX,
        all_valid(buf@),
    ensures
        (final(centroids)@, final(rng).draws()) == plus_plus_spec(
            k as nat,
            buf@,
            old(rng).seed(),
            old(rng).draws(),
        ),
        final(rng).seed() == old(rng).seed(),
        k == 0 ==> final(centroids)@.len() == 0,
        k >= 1 ==> 1 <= final(centroids)@.len() <= k,
        all_valid(final(centroids)@),
        forall|j: int|
            0 <= j < final(centroids)@.len() ==> buf@.contains(#[trigger] final(centroids)@[j]),
{
    if k == 0 {
        assert(centroids@ =~= Seq::<Point>::empty());
        return ;
    }
    let ghost seed = rng.seed();
    let ghost log0 = rng.draws();
    let len: usize = buf.len();

    // Choose the first centroid at random, uniformly from the buffer.
    let first: u64 = rng.draw_below(len as u64);
    centroids.push(buf[first as usize]);
    assert(buf@.contains(buf@[first as int]));
    assert(centroids@ =~= seq![buf@[pick_below(seed, log0, len as u64) as int]]);

    let mut picked: usize = 1;
    while picked < k
        invariant
            seed == old(rng).seed(),
            log0 == old(rng).draws(),
            1 <= picked <= k,
            len == buf@.len(),
            1 <= buf@.len() <= BUFFER_MAX,
            all_valid(buf@),
            centroids@.len() == picked,
            all_valid(centroids@),
            forall|j: int| 0 <= j < centroids@.len() ==> buf@.contains(#[trigger] centroids@[j]),
            rng.seed() == seed,
            plus_plus_step(buf@, centroids@, seed, rng.draws(), (k - picked) as nat)
                == plus_plus_spec(k as nat, buf@, seed, log0),
        ensures
            (centroids@, rng.draws()) == plus_plus_spec(k as nat, buf@, seed, log0),
        decreases k - picked,
    {
        // Squared distance of every point to its nearest centroid so far.
        let ghost ws = weights_of(buf@, centroids@);
        let mut weights: Vec<u64> = Vec::new();
        let mut sum: u64 = 0;
        let mut i: usize = 0;
        while i < len
            invariant
                0 <= i <= len,
                len == buf@.len() <= BUFFER_MAX,
                all_valid(buf@),
                centroids@.len() >= 1,
                all_valid(centroids@),
                weights@.len() == i,
                forall|t: int| 0 <= t < i ==> weights@[t] == ws[t],
                sum == weight_sum(weights@),
                sum <= i * DIST_LIMIT,
                ws == weights_of(buf@, centroids@),
            decreases len - i,
        {
            let mut mind: u64 = u64::MAX;
            let mut j: usize = 0;
            while j < centroids.len()
                invariant
                    0 <= j <= centroids@.len(),
                    i < buf@.len(),
                    all_valid(buf@),
                    all_valid(centroids@),
                    mind == best_prefix(buf@[i as int], centroids@, j as int).1,
                decreases centroids@.len() - j,
            {
                let d = Point::difference(&buf[i], &centroids[j]);
                if d < mind {
                    mind = d;
                }
                j += 1;
            }
            proof {
                lemma_best_prefix(buf@[i as int], centroids@, centroids@.len() as int);
                assert(ws[i as int] == mind);
                assert(weight_sum(weights@.push(mind)) == weight_sum(weights@) + mind) by {
                    assert(weights@.push(mind).drop_last() =~= weights@);
                }
                assert((i + 1) * DIST_LIMIT == i * DIST_LIMIT + DIST_LIMIT) by (nonlinear_arith);
                assert((i + 1) * DIST_LIMIT <= BUFFER_MAX * DIST_LIMIT) by (nonlinear_arith)
                    requires i + 1 <= BUFFER_MAX,
                ;
            }
            weights.push(mind);
            sum = sum + mind;
            i += 1;
        }
        assert(weights@ =~= ws);

        // When every point coincides with a chosen centroid, stop early.
        if sum == 0 {
            return ;
        }

        // Draw the next centroid with probability proportional to weight.
        let idx = rng.draw_weighted(&weights);
        centroids.push(buf[idx]);
        assert(buf@.contains(buf@[idx as int]));
        picked += 1;
    }
}

} // verus!
