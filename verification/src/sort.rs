//! Post-processing: cluster occurrence percentages, luminosity ordering,
//! dominant-cluster lookup, and mapping assignment indices back to values.

use vstd::prelude::*;

use crate::kmeans::count_in;
use crate::point::Point;

verus! {

/// An exact occurrence ratio: `num` occurrences out of `den` assignments.
#[derive(Clone, Copy, Debug, PartialEq, Eq, Structural)]
pub struct Fraction {
    /// Occurrence count.
    pub num: u64,
    /// Total number of assignments.
    pub den: u64,
}

/// `a <= b` as ratios, by cross-multiplication.
pub open spec fn frac_le(a: Fraction, b: Fraction) -> bool {
    a.num * b.den <= b.num * a.den
}

/// A centroid, the share of the buffer assigned to it, and its index in
/// the centroid set.
#[derive(Clone, Copy, Debug, PartialEq, Eq, Structural)]
pub struct CentroidData {
    /// A k-means centroid.
    pub centroid: Point,
    /// The share of assignments naming this centroid.
    pub percentage: Fraction,
    /// The centroid's index.
    pub index: u8,
}

/// Strict luminosity order on ranked entries, ties resolved by index.
pub open spec fn entry_lt(a: CentroidData, b: CentroidData) -> bool {
    a.centroid.c0 < b.centroid.c0 || (a.centroid.c0 == b.centroid.c0 && a.index < b.index)
}

/// `a <= b` as ratios, executable.
pub fn frac_le_exec(a: &Fraction, b: &Fraction) -> (r: bool)
    ensures
        r == frac_le(*a, *b),
{
    proof {
        assert((a.num as int) * (b.den as int) < 340282366920938463463374607431768211455int
            && (b.num as int) * (a.den as int) < 340282366920938463463374607431768211455int)
            by (nonlinear_arith)
            requires
                a.num <= 18446744073709551615u64,
                b.num <= 18446744073709551615u64,
                a.den <= 18446744073709551615u64,
                b.den <= 18446744073709551615u64,
        ;
    }
    (a.num as u128) * (b.den as u128) <= (b.num as u128) * (a.den as u128)
}

/// The index max-scan over the first `n` entries: the last entry whose
/// ratio is no smaller than every earlier best.
pub open spec fn dominant_prefix(data: Seq<CentroidData>, n: int) -> int
    decreases n,
{
    if n <= 1 {
        0
    } else {
        let prev = dominant_prefix(data, n - 1);
        if frac_le(data[prev].percentage, data[n - 1].percentage) {
            n - 1
        } else {
            prev
        }
    }
}

/// What the dominant-cluster lookup returns.
pub open spec fn dominant_spec(data: Seq<CentroidData>) -> Option<Point> {
    if data.len() == 0 {
        Option::None
    } else {
        Option::Some(data[dominant_prefix(data, data.len() as int)].centroid)
    }
}

pub proof fn lemma_dominant_prefix(data: Seq<CentroidData>, n: int)
    requires
        1 <= n <= data.len(),
    ensures
        0 <= dominant_prefix(data, n) < n,
    decreases n,
{
    if n > 1 {
        lemma_dominant_prefix(data, n - 1);
    }
}

/// The dominant entry's ratio is no smaller than any other entry's, when
/// every total is positive.
pub proof fn lemma_dominant_is_max(data: Seq<CentroidData>, n: int)
    requires
        1 <= n <= data.len(),
        forall|t: int| 0 <= t < data.len() ==> (#[trigger] data[t].percentage).den > 0,
    ensures
        forall|t: int|
            0 <= t < n ==> frac_le(
                #[trigger] data[t].percentage,
                data[dominant_prefix(data, n)].percentage,
            ),
    decreases n,
{
    lemma_dominant_prefix(data, n);
    if n == 1 {
        assert(frac_le(data[0].percentage, data[0].percentage)) by (nonlinear_arith);
    } else {
        lemma_dominant_is_max(data, n - 1);
        lemma_dominant_prefix(data, n - 1);
        let prev = dominant_prefix(data, n - 1);
        let cur = dominant_prefix(data, n);
        assert(frac_le(data[cur].percentage, data[cur].percentage)) by (nonlinear_arith);
        if frac_le(data[prev].percentage, data[n - 1].percentage) {
            assert forall|t: int| 0 <= t < n - 1 implies frac_le(
                #[trigger] data[t].percentage,
                data[n - 1].percentage,
            ) by {
                let a = data[t].percentage;
                let b = data[prev].percentage;
                let c = data[n - 1].percentage;
                assert(frac_le(a, b));
                assert(frac_le(b, c));
                assert(a.den > 0 && b.den > 0 && c.den > 0);
                assert(frac_le(a, c)) by (nonlinear_arith)
                    requires frac_le(a, b) && frac_le(b, c) && a.den > 0 && b.den > 0 && c.den > 0,
                ;
            }
        } else {
            assert(frac_le(data[n - 1].percentage, data[prev].percentage)) by (nonlinear_arith)
                requires
                    !(data[prev].percentage.num * data[n - 1].percentage.den <= data[n
                        - 1].percentage.num * data[prev].percentage.den),
            ;
        }
    }
}

impl Point {
    /// The centroid with the largest ratio; among equals, the one seen
    /// last wins.
    pub fn get_dominant_color(data: &Vec<CentroidData>) -> (r: Option<Point>)
        ensures
            r == dominant_spec(data@),
    {
        if data.len() == 0 {
            return None;
        }
        let mut best: usize = 0;
        let mut n: usize = 1;
        while n < data.len()
            invariant
                1 <= n <= data@.len(),
                best == dominant_prefix(data@, n as int),
                0 <= best < n,
            decreases data@.len() - n,
        {
            proof {
                lemma_dominant_prefix(data@, n + 1);
            }
            if frac_le_exec(&data[best].percentage, &data[n].percentage) {
                best = n;
            }
            n += 1;
        }
        Some(data[best].centroid)
    }
}

/// Sum of the occurrence counts of the first `n` ranked entries.
pub open spec fn sum_percent(data: Seq<CentroidData>, n: int) -> int
    decreases n,
{
    if n <= 0 {
        0
    } else {
        sum_percent(data, n - 1) + data[n - 1].percentage.num
    }
}

/// Sum of `counts` over the first `n` clusters marked used.
pub open spec fn sum_used(counts: Seq<u64>, used: Seq<bool>, n: int) -> int
    decreases n,
{
    if n <= 0 {
        0
    } else {
        sum_used(counts, used, n - 1) + if used[n - 1] {
            counts[n - 1] as int
        } else {
            0int
        }
    }
}

/// Sum of `counts` over the first `n` clusters.
pub open spec fn sum_all(counts: Seq<u64>, n: int) -> int
    decreases n,
{
    if n <= 0 {
        0
    } else {
        sum_all(counts, n - 1) + counts[n - 1]
    }
}

/// How many of the first `n` clusters are marked used.
pub open spec fn used_count(used: Seq<bool>, n: int) -> int
    decreases n,
{
    if n <= 0 {
        0
    } else {
        used_count(used, n - 1) + if used[n - 1] {
            1int
        } else {
            0int
        }
    }
}

/// Sum over the first `kk` clusters of their occurrence counts among the
/// first `n` assignment indices.
pub open spec fn sum_count_in(indices: Seq<u8>, kk: int, n: int) -> int
    decreases kk,
{
    if kk <= 0 {
        0
    } else {
        sum_count_in(indices, kk - 1, n) + count_in(indices, kk - 1, n)
    }
}

proof fn lemma_sum_used_update(counts: Seq<u64>, used: Seq<bool>, n: int, b: int)
    requires
        0 <= b < used.len(),
        n <= used.len(),
        !used[b],
    ensures
        b < n ==> sum_used(counts, used.update(b, true), n) == sum_used(counts, used, n)
            + counts[b],
        b >= n ==> sum_used(counts, used.update(b, true), n) == sum_used(counts, used, n),
    decreases n,
{
    if n > 0 {
        lemma_sum_used_update(counts, used, n - 1, b);
    }
}

proof fn lemma_used_count_update(used: Seq<bool>, n: int, b: int)
    requires
        0 <= b < used.len(),
        n <= used.len(),
        !used[b],
    ensures
        b < n ==> used_count(used.update(b, true), n) == used_count(used, n) + 1,
        b >= n ==> used_count(used.update(b, true), n) == used_count(used, n),
    decreases n,
{
    if n > 0 {
        lemma_used_count_update(used, n - 1, b);
    }
}

proof fn lemma_used_count_le(used: Seq<bool>, n: int)
    requires
        0 <= n <= used.len(),
    ensures
        used_count(used, n) <= n,
    decreases n,
{
    if n > 0 {
        lemma_used_count_le(used, n - 1);
    }
}

proof fn lemma_used_count_full(used: Seq<bool>, n: int)
    requires
        0 <= n <= used.len(),
        used_count(used, n) == n,
    ensures
        forall|j: int| 0 <= j < n ==> used[j],
    decreases n,
{
    if n > 0 {
        lemma_used_count_le(used, n - 1);
        lemma_used_count_full(used, n - 1);
    }
}

proof fn lemma_sum_used_full(counts: Seq<u64>, used: Seq<bool>, n: int)
    requires
        n <= used.len(),
        n <= counts.len(),
        forall|j: int| 0 <= j < n ==> used[j] || counts[j] == 0,
    ensures
        sum_used(counts, used, n) == sum_all(counts, n),
    decreases n,
{
    if n > 0 {
        lemma_sum_used_full(counts, used, n - 1);
    }
}

proof fn lemma_used_count_none(used: Seq<bool>, n: int)
    requires
        n <= used.len(),
        forall|j: int| 0 <= j < n ==> !used[j],
    ensures
        used_count(used, n) == 0,
    decreases n,
{
    if n > 0 {
        lemma_used_count_none(used, n - 1);
    }
}

proof fn lemma_sum_used_none(counts: Seq<u64>, used: Seq<bool>, n: int)
    requires
        n <= used.len(),
        forall|j: int| 0 <= j < n ==> !used[j],
    ensures
        sum_used(counts, used, n) == 0,
    decreases n,
{
    if n > 0 {
        lemma_sum_used_none(counts, used, n - 1);
    }
}

proof fn lemma_sum_percent_agree(data1: Seq<CentroidData>, data2: Seq<CentroidData>, n: int)
    requires
        n <= data1.len(),
        n <= data2.len(),
        forall|t: int| 0 <= t < n ==> data1[t] == data2[t],
    ensures
        sum_percent(data1, n) == sum_percent(data2, n),
    decreases n,
{
    if n > 0 {
        lemma_sum_percent_agree(data1, data2, n - 1);
    }
}

proof fn lemma_sum_count_zero(indices: Seq<u8>, kk: int)
    ensures
        sum_count_in(indices, kk, 0) == 0,
    decreases kk,
{
    if kk > 0 {
        lemma_sum_count_zero(indices, kk - 1);
    }
}

proof fn lemma_sum_count_step(indices: Seq<u8>, kk: int, n: int)
    requires
        1 <= n <= indices.len(),
    ensures
        sum_count_in(indices, kk, n) == sum_count_in(indices, kk, n - 1) + if (indices[n - 1]
            as int) < kk {
            1int
        } else {
            0int
        },
    decreases kk,
{
    if kk > 0 {
        lemma_sum_count_step(indices, kk - 1, n);
    }
}

proof fn lemma_sum_count_total(indices: Seq<u8>, kk: int, n: int)
    requires
        0 <= n <= indices.len(),
        forall|t: int| 0 <= t < indices.len() ==> (#[trigger] indices[t] as int) < kk,
    ensures
        sum_count_in(indices, kk, n) == n,
    decreases n,
{
    if n > 0 {
        lemma_sum_count_total(indices, kk, n - 1);
        lemma_sum_count_step(indices, kk, n);
    } else {
        lemma_sum_count_zero(indices, kk);
    }
}

proof fn lemma_sum_all_eq(counts: Seq<u64>, indices: Seq<u8>, kk: int)
    requires
        kk <= counts.len(),
        forall|j: int|
            0 <= j < kk ==> (#[trigger] counts[j] as int) == count_in(
                indices,
                j,
                indices.len() as int,
            ),
    ensures
        sum_all(counts, kk) == sum_count_in(indices, kk, indices.len() as int),
    decreases kk,
{
    if kk > 0 {
        lemma_sum_all_eq(counts, indices, kk - 1);
    }
}

/// The ranked entry of cluster `j`: its centroid, its exact share of the
/// assignments, and its index.
pub open spec fn entry_of(cents: Seq<Point>, indices: Seq<u8>, j: int) -> CentroidData {
    CentroidData {
        centroid: cents[j],
        percentage: Fraction {
            num: count_in(indices, j, indices.len() as int) as u64,
            den: indices.len() as u64,
        },
        index: j as u8,
    }
}

impl Point {
    /// Rank the clusters: count how often each centroid is named by the
    /// assignment indices, drop the clusters named by none, and list the
    /// rest ordered by the luminosity-like channel ascending (ties by
    /// index).  Each entry carries the exact share of the assignments
    /// naming its centroid; the shares of the listed entries sum to one
    /// (their counts sum to the number of assignments).
    pub fn sort_indexed_colors(centroids: &Vec<Point>, indices: &Vec<u8>) -> (r: Vec<
        CentroidData,
    >)
        requires
            1 <= indices@.len(),
            1 <= centroids@.len() <= 255,
            forall|t: int| 0 <= t < indices@.len() ==> (#[trigger] indices@[t] as int)
                < centroids@.len(),
        ensures
            forall|a: int|
                0 <= a < r@.len() ==> (#[trigger] r@[a].index as int) < centroids@.len() && r@[a]
                    == entry_of(centroids@, indices@, r@[a].index as int) && count_in(
                    indices@,
                    r@[a].index as int,
                    indices@.len() as int,
                ) > 0,
            forall|a: int, b: int| 0 <= a < b < r@.len() ==> entry_lt(r@[a], r@[b]),
            forall|j: int|
                0 <= j < centroids@.len() && count_in(indices@, j, indices@.len() as int) > 0
                    ==> exists|a: int| 0 <= a < r@.len() && (#[trigger] r@[a].index as int) == j,
            sum_percent(r@, r@.len() as int) == indices@.len(),
            r@.len() <= centroids@.len(),
    {
        let k: usize = centroids.len();
        let len: usize = indices.len();

        // Histogram of assignment-index occurrence counts.
        let mut counts: Vec<u64> = Vec::new();
        let mut j: usize = 0;
        while j < k
            invariant
                0 <= j <= k,
                counts@.len() == j,
                forall|t: int| 0 <= t < j ==> counts@[t] == 0,
            decreases k - j,
        {
            counts.push(0);
            j += 1;
        }
        let mut i: usize = 0;
        while i < len
            invariant
                0 <= i <= len,
                len == indices@.len(),
                counts@.len() == k,
                k == centroids@.len(),
                forall|t: int| 0 <= t < indices@.len() ==> (#[trigger] indices@[t] as int) < k,
                forall|t: int|
                    0 <= t < k ==> (#[trigger] counts@[t] as int) == count_in(
                        indices@,
                        t,
                        i as int,
                    ) && counts@[t] <= i,
            decreases len - i,
        {
            let idx = indices[i] as usize;
            counts.set(idx, counts[idx] + 1);
            i += 1;
        }

        // Emit the non-empty clusters in luminosity order: repeatedly take
        // the smallest unlisted one.
        let mut used: Vec<bool> = Vec::new();
        let mut j: usize = 0;
        while j < k
            invariant
                0 <= j <= k,
                used@.len() == j,
                forall|t: int| 0 <= t < j ==> !used@[t],
            decreases k - j,
        {
            used.push(false);
            j += 1;
        }

        let mut res: Vec<CentroidData> = Vec::new();
        proof {
            lemma_used_count_none(used@, k as int);
            lemma_sum_used_none(counts@, used@, k as int);
        }
        while res.len() < k
            invariant_except_break
                len == indices@.len() >= 1,
                k == centroids@.len(),
                1 <= k <= 255,
                counts@.len() == k,
                used@.len() == k,
                forall|t: int| 0 <= t < indices@.len() ==> (#[trigger] indices@[t] as int) < k,
                forall|t: int|
                    0 <= t < k ==> (#[trigger] counts@[t] as int) == count_in(
                        indices@,
                        t,
                        len as int,
                    ),
                res@.len() <= k,
                used_count(used@, k as int) == res@.len(),
                forall|a: int|
                    0 <= a < res@.len() ==> (#[trigger] res@[a].index as int) < k && res@[a]
                        == entry_of(centroids@, indices@, res@[a].index as int) && counts@[res@[a].index as int]
                        > 0 && used@[res@[a].index as int],
                forall|jj: int|
                    0 <= jj < k && used@[jj] ==> counts@[jj] > 0 && exists|a: int|
                        0 <= a < res@.len() && (#[trigger] res@[a].index as int) == jj,
                forall|a: int, b: int| 0 <= a < b < res@.len() ==> entry_lt(res@[a], res@[b]),
                forall|jj: int, a: int|
                    #![trigger res@[a], used@[jj]]
                    0 <= jj < k && !used@[jj] && counts@[jj] > 0 && 0 <= a < res@.len()
                        ==> entry_lt(res@[a], entry_of(centroids@, indices@, jj)),
                sum_percent(res@, res@.len() as int) == sum_used(counts@, used@, k as int),
            ensures
                len == indices@.len(),
                k == centroids@.len(),
                counts@.len() == k,
                used@.len() == k,
                forall|t: int|
                    0 <= t < k ==> (#[trigger] counts@[t] as int) == count_in(
                        indices@,
                        t,
                        len as int,
                    ),
                res@.len() <= k,
                forall|a: int|
                    0 <= a < res@.len() ==> (#[trigger] res@[a].index as int) < k && res@[a]
                        == entry_of(centroids@, indices@, res@[a].index as int) && counts@[res@[a].index as int]
                        > 0,
                forall|jj: int|
                    0 <= jj < k && used@[jj] ==> exists|a: int|
                        0 <= a < res@.len() && (#[trigger] res@[a].index as int) == jj,
                forall|a: int, b: int| 0 <= a < b < res@.len() ==> entry_lt(res@[a], res@[b]),
                res@.len() == k || (forall|jj: int|
                    0 <= jj < k && (#[trigger] counts@[jj]) > 0 ==> used@[jj]),
                used_count(used@, k as int) == res@.len(),
                sum_percent(res@, res@.len() as int) == sum_used(counts@, used@, k as int),
            decreases k - res@.len(),
        {
            // Scan for the smallest unlisted non-empty cluster.
            let mut best: usize = k;
            let mut j: usize = 0;
            while j < k
                invariant
                    0 <= j <= k,
                    k == centroids@.len(),
                    counts@.len() == k,
                    used@.len() == k,
                    best == k || (best < k && best < j && !used@[best as int] && counts@[best
                        as int] > 0),
                    best == k ==> forall|t: int|
                        0 <= t < j ==> used@[t] || (#[trigger] counts@[t]) == 0,
                    best < k ==> forall|t: int|
                        0 <= t < j && !used@[t] && (#[trigger] counts@[t]) > 0 && t != best
                            ==> centroids@[best as int].c0 < centroids@[t].c0 || (
                        centroids@[best as int].c0 == centroids@[t].c0 && best < t),
                decreases k - j,
            {
                if !used[j] && counts[j] > 0 {
                    if best == k {
                        best = j;
                    } else if centroids[j].c0 < centroids[best].c0 {
                        best = j;
                    }
                }
                j += 1;
            }

            if best == k {
                // Every remaining cluster is empty: all non-empty ones are
                // listed.
                break ;
            }

            let ghost used0 = used@;
            let ghost res0 = res@;
            used.set(best, true);
            res.push(
                CentroidData {
                    centroid: centroids[best],
                    percentage: Fraction { num: counts[best], den: len as u64 },
                    index: best as u8,
                },
            );
            proof {
                lemma_sum_used_update(counts@, used0, k as int, best as int);
                lemma_used_count_update(used0, k as int, best as int);
                lemma_sum_percent_agree(res@, res0, res0.len() as int);
                assert(res@[res0.len() as int] == entry_of(centroids@, indices@, best as int));
                assert forall|jj: int|
                    0 <= jj < k && used@[jj] implies counts@[jj] > 0 && exists|a: int|
                        0 <= a < res@.len() && (#[trigger] res@[a].index as int) == jj by {
                    if jj == best {
                        assert(res@[res0.len() as int].index as int == jj);
                    } else {
                        assert(used0[jj]);
                        let a = choose|a: int| 0 <= a < res0.len() && (#[trigger] res0[a].index
                            as int) == jj;
                        assert(res@[a].index as int == jj);
                    }
                }
            }
        }

        proof {
            if res@.len() == k {
                lemma_used_count_full(used@, k as int);
            }
            assert(forall|jj: int| 0 <= jj < k && (#[trigger] counts@[jj]) > 0 ==> used@[jj]);
            assert forall|j: int|
                0 <= j < centroids@.len() && count_in(indices@, j, indices@.len() as int) > 0
                implies exists|a: int| 0 <= a < res@.len() && (#[trigger] res@[a].index as int)
                == j by {
                assert(counts@[j] as int == count_in(indices@, j, len as int));
                assert(used@[j]);
            }
            lemma_sum_used_full(counts@, used@, k as int);
            lemma_sum_all_eq(counts@, indices@, k as int);
            lemma_sum_count_total(indices@, k as int, len as int);
        }
        res
    }
}

/// A trait for mapping assignment indices to their corresponding
/// centroids.
pub trait MapColor: Sized {
    /// Map pixel indices to each centroid for an output buffer.  An index
    /// beyond the centroid set falls back to the last centroid.
    fn map_indices_to_centroids(centroids: &Vec<Self>, indices: &Vec<u8>) -> (out: Vec<Self>)
        requires
            centroids@.len() >= 1,
        ensures
            out@.len() == indices@.len(),
            forall|i: int|
                0 <= i < indices@.len() ==> out@[i] == (if (indices@[i] as int)
                    < centroids@.len() {
                    centroids@[indices@[i] as int]
                } else {
                    centroids@[centroids@.len() - 1]
                }),
    ;
}

impl MapColor for Point {
    fn map_indices_to_centroids(centroids: &Vec<Point>, indices: &Vec<u8>) -> (out: Vec<Point>) {
        let mut out: Vec<Point> = Vec::new();
        let mut i: usize = 0;
        while i < indices.len()
            invariant
                0 <= i <= indices@.len(),
                centroids@.len() >= 1,
                out@.len() == i,
                forall|t: int|
                    0 <= t < i ==> out@[t] == (if (indices@[t] as int) < centroids@.len() {
                        centroids@[indices@[t] as int]
                    } else {
                        centroids@[centroids@.len() - 1]
                    }),
            decreases indices@.len() - i,
        {
            let idx = indices[i] as usize;
            if idx < centroids.len() {
                out.push(centroids[idx]);
            } else {
                out.push(centroids[centroids.len() - 1]);
            }
            i += 1;
        }
        out
    }
}

} // verus!
