//! First-pass and trimmed medians over timestamp samples.
//!
//! A sample is an absolute point in time, measured in milliseconds since the
//! Unix epoch (UTC). The median selection rule is deliberately deterministic:
//! sort ascending and take the element at index `len / 2`, so an even-length
//! list selects the upper-middle element rather than an interpolated average.

use vstd::multiset::Multiset;
use vstd::prelude::*;
use vstd::relations::{sorted_by, total_ordering};
use vstd::seq_lib::lemma_sorted_unique;

verus! {

/// The ascending order on timestamp samples.
pub open spec fn sample_order() -> spec_fn(i64, i64) -> bool {
    |a: i64, b: i64| a <= b
}

pub proof fn lemma_sample_order_total()
    ensures
        total_ordering(sample_order()),
{
}

/// The sample sequence rearranged into ascending order.
pub open spec fn sorted_samples(s: Seq<i64>) -> Seq<i64> {
    s.sort_by(sample_order())
}

/// The median of a sample sequence: the element at index `len / 2` of the
/// ascending rearrangement.
pub open spec fn median_of(s: Seq<i64>) -> i64
    recommends
        s.len() > 0,
{
    sorted_samples(s)[s.len() as int / 2]
}

/// The absolute offset between two samples, in whole milliseconds.
pub open spec fn offset_millis(a: i64, b: i64) -> int {
    if a >= b {
        a - b
    } else {
        b - a
    }
}

/// The trim predicate: whether a sample lies within `cutoff_ms` of the center
/// `m` (inclusive boundary).
pub open spec fn within_cutoff(m: i64, cutoff_ms: i64) -> spec_fn(i64) -> bool {
    |x: i64| offset_millis(x, m) <= cutoff_ms
}

/// The samples of `s` whose absolute offset from the center `m` is at most
/// `cutoff_ms` (inclusive boundary), in their original order.
pub open spec fn kept_samples(s: Seq<i64>, m: i64, cutoff_ms: i64) -> Seq<i64> {
    s.filter(within_cutoff(m, cutoff_ms))
}

/// Whether a sample sequence is in ascending order.
pub open spec fn sorted_asc(s: Seq<i64>) -> bool {
    forall|p: int, q: int| 0 <= p < q < s.len() ==> s[p] <= s[q]
}

/// Sorts the samples into ascending order in place (selection sort).
fn sort_samples(v: &mut Vec<i64>)
    ensures
        final(v)@ == sorted_samples(old(v)@),
{
    let n: usize = v.len();
    let mut i: usize = 0;
    while i < n
        invariant
            i <= n,
            v@.len() == n,
            v@.to_multiset() == old(v)@.to_multiset(),
            sorted_asc(v@.subrange(0, i as int)),
            forall|p: int, q: int| 0 <= p < i <= q < n ==> v@[p] <= v@[q],
        decreases n - i,
    {
        let mut m: usize = i;
        let mut k: usize = i + 1;
        while k < n
            invariant
                i <= m < k <= n,
                v@.len() == n,
                forall|t: int| i <= t < k ==> v@[m as int] <= v@[t],
            decreases n - k,
        {
            if v[k] < v[m] {
                m = k;
            }
            k = k + 1;
        }
        let ghost before = v@;
        let a = v[i];
        let b = v[m];
        v[i] = b;
        v[m] = a;
        proof {
            broadcast use vstd::seq_lib::group_to_multiset_ensures;
            broadcast use vstd::multiset::group_multiset_axioms;

            let s1 = before.update(i as int, b);
            let s2 = s1.update(m as int, a);
            assert(v@ =~= s2);
            assert(s1.to_multiset() == before.to_multiset().insert(b).remove(a));
            assert(s1[m as int] == b);
            assert(s2.to_multiset() == s1.to_multiset().insert(a).remove(b));
            assert(before.to_multiset().contains(a));
            assert(v@.to_multiset() =~= before.to_multiset());
            assert forall|p: int, q: int| 0 <= p < q < i + 1 implies v@[p] <= v@[q] by {
                if q < i {
                    assert(before.subrange(0, i as int)[p] <= before.subrange(0, i as int)[q]);
                } else {
                    assert(before[p] <= before[m as int]);
                }
            }
            assert(sorted_asc(v@.subrange(0, i as int + 1))) by {
                let sub = v@.subrange(0, i as int + 1);
                assert forall|p: int, q: int|
                    0 <= p < q < sub.len() implies #[trigger] sub[p] <= #[trigger] sub[q] by {
                    assert(v@[p] <= v@[q]);
                }
            }
            assert forall|p: int, q: int| 0 <= p < i + 1 <= q < n implies v@[p] <= v@[q] by {
                if p < i {
                    assert(before[p] <= before[q]);
                    assert(before[p] <= before[m as int]);
                }
                assert(before[m as int] <= before[q]);
            }
        }
        i = i + 1;
    }
    proof {
        lemma_sample_order_total();
        assert(v@.subrange(0, n as int) =~= v@);
        assert(sorted_by(v@, sample_order())) by {
            assert forall|p: int, q: int| 0 <= p < q < v@.len() implies #[trigger] sample_order()(
                v@[p],
                v@[q],
            ) by {
                assert(v@.subrange(0, n as int)[p] <= v@.subrange(0, n as int)[q]);
            }
        }
        old(v)@.lemma_sort_by_ensures(sample_order());
        lemma_sorted_unique(v@, sorted_samples(old(v)@), sample_order());
    }
}

/// The first-pass median of the given samples: `None` on an empty list,
/// otherwise the element at index `len / 2` of the ascending rearrangement.
pub fn calculate_median(datetimes: Vec<i64>) -> (r: Option<i64>)
    ensures
        datetimes@.len() == 0 ==> r is None,
        datetimes@.len() > 0 ==> r == Some(median_of(datetimes@)),
{
    if datetimes.len() == 0 {
        return None;
    }
    let ghost orig = datetimes@;
    let mut v = datetimes;
    sort_samples(&mut v);
    proof {
        broadcast use vstd::seq_lib::group_to_multiset_ensures;

        lemma_sample_order_total();
        orig.lemma_sort_by_ensures(sample_order());
        assert(v@.to_multiset().len() == orig.to_multiset().len());
        assert(v@.len() == orig.len());
    }
    let mid: usize = v.len() / 2;
    Some(v[mid])
}

/// Whether the absolute offset of `x` from `m` is at most `cutoff_ms`.
///
/// The subtraction is widened so that no pair of samples overflows.
pub fn offset_within_cutoff(x: i64, m: i64, cutoff_ms: i64) -> (r: bool)
    ensures
        r == (offset_millis(x, m) <= cutoff_ms),
{
    let diff: i128 = (x as i128) - (m as i128);
    let abs: i128 = if diff < 0 {
        -diff
    } else {
        diff
    };
    abs <= (cutoff_ms as i128)
}

/// The trimmed median of a sample sequence: the median of the samples that lie
/// within `cutoff_ms` of the first-pass median, or `None` when the input is
/// empty or fewer than `minimum_keep` samples survive the trim.
pub open spec fn trimmed_median_of(s: Seq<i64>, cutoff_ms: i64, minimum_keep: nat) -> Option<i64> {
    if s.len() == 0 {
        None
    } else {
        let kept = kept_samples(s, median_of(s), cutoff_ms);
        if kept.len() < minimum_keep || kept.len() == 0 {
            None
        } else {
            Some(median_of(kept))
        }
    }
}

/// The two-pass trimmed median: a first-pass median over all samples picks the
/// pivot, samples farther than `cutoff_ms` from the pivot are discarded, and
/// the median of the survivors is returned - unless fewer than `minimum_keep`
/// survive, in which case there is no trustworthy answer.
pub fn calculate_trimmed_median(datetimes: &Vec<i64>, cutoff_ms: i64, minimum_keep: usize) -> (r:
    Option<i64>)
    ensures
        r == trimmed_median_of(datetimes@, cutoff_ms, minimum_keep as nat),
{
    let cloned_samples = datetimes.clone();
    proof {
        assert forall|j: int| 0 <= j < datetimes@.len() implies cloned_samples@[j]
            == datetimes@[j] by {
            assert(vstd::pervasive::cloned::<i64>(datetimes@[j], cloned_samples@[j]));
        }
        assert(cloned_samples@ =~= datetimes@);
    }
    let first_pass = calculate_median(cloned_samples);
    let median: i64 = match first_pass {
        None => {
            return None;
        },
        Some(m) => m,
    };
    let mut kept: Vec<i64> = Vec::new();
    let mut i: usize = 0;
    while i < datetimes.len()
        invariant
            i <= datetimes@.len(),
            kept@ == datetimes@.take(i as int).filter(within_cutoff(median, cutoff_ms)),
        decreases datetimes@.len() - i,
    {
        let x = datetimes[i];
        if offset_within_cutoff(x, median, cutoff_ms) {
            kept.push(x);
        }
        proof {
            reveal(Seq::filter);
            assert(datetimes@.take(i as int + 1).drop_last() =~= datetimes@.take(i as int));
            assert(datetimes@.take(i as int + 1).last() == x);
            assert(within_cutoff(median, cutoff_ms)(x) == (offset_millis(x, median) <= cutoff_ms));
        }
        i = i + 1;
    }
    proof {
        assert(datetimes@.take(datetimes@.len() as int) =~= datetimes@);
        assert(kept@ == kept_samples(datetimes@, median, cutoff_ms));
    }
    if kept.len() < minimum_keep {
        return None;
    }
    calculate_median(kept)
}

/// The median does not depend on the order in which the samples arrive: any
/// two sample sequences that are permutations of each other (equal as
/// multisets) have the same median.
pub proof fn lemma_median_permutation_invariant(s1: Seq<i64>, s2: Seq<i64>)
    requires
        s1.to_multiset() == s2.to_multiset(),
    ensures
        median_of(s1) == median_of(s2),
{
    broadcast use vstd::seq_lib::group_to_multiset_ensures;

    lemma_sample_order_total();
    s1.lemma_sort_by_ensures(sample_order());
    s2.lemma_sort_by_ensures(sample_order());
    lemma_sorted_unique(sorted_samples(s1), sorted_samples(s2), sample_order());
    vstd::seq_lib::to_multiset_len::<i64>(s1);
    vstd::seq_lib::to_multiset_len::<i64>(s2);
    assert(s1.len() == s2.len());
}

/// A single sample is its own median, and trimming with any nonnegative
/// cutoff always keeps it; with a quorum floor of at most one sample, the
/// trimmed median of a single sample is that sample.
pub proof fn lemma_singleton_median(s: Seq<i64>, cutoff_ms: i64, minimum_keep: nat)
    requires
        s.len() == 1,
        cutoff_ms >= 0,
    ensures
        median_of(s) == s[0],
        kept_samples(s, median_of(s), cutoff_ms) == s,
        minimum_keep <= 1 ==> trimmed_median_of(s, cutoff_ms, minimum_keep) == Some(s[0]),
{
    broadcast use vstd::seq_lib::group_to_multiset_ensures;

    lemma_sample_order_total();
    s.lemma_sort_by_ensures(sample_order());
    let sorted = sorted_samples(s);
    assert(s.to_multiset().len() == sorted.to_multiset().len());
    assert(sorted.len() == 1);
    assert(s.to_multiset().contains(s[0]));
    assert(sorted.to_multiset().contains(s[0]));
    assert(sorted.contains(s[0]));
    assert(sorted[0] == s[0]);
    let m = median_of(s);
    assert(m == s[0]);
    assert(kept_samples(s, m, cutoff_ms) =~= s) by {
        reveal(Seq::filter);
        assert(s.drop_last() =~= Seq::<i64>::empty());
        assert(s.drop_last().filter(within_cutoff(m, cutoff_ms)) =~= Seq::<i64>::empty());
        assert(s.last() == s[0]);
        assert(offset_millis(s[0], m) == 0);
        assert(within_cutoff(m, cutoff_ms)(s[0]));
    }
}

proof fn lemma_filter_count(s: Seq<i64>, pred: spec_fn(i64) -> bool, x: i64)
    ensures
        s.filter(pred).to_multiset().count(x) == if pred(x) {
            s.to_multiset().count(x)
        } else {
            0
        },
    decreases s.len(),
{
    broadcast use vstd::seq_lib::group_to_multiset_ensures;
    broadcast use vstd::multiset::group_multiset_axioms;

    reveal(Seq::filter);
    if s.len() == 0 {
        assert(s.to_multiset() =~= Multiset::<i64>::empty());
        assert(s.filter(pred) =~= s);
    } else {
        lemma_filter_count(s.drop_last(), pred, x);
        assert(s =~= s.drop_last().push(s.last()));
        assert(s.to_multiset() == s.drop_last().push(s.last()).to_multiset());
    }
}

/// The whole two-pass trimmed median, like the median itself, is invariant
/// under any permutation of the input samples: completion order contributes
/// nothing to the consensus value.
pub proof fn lemma_trimmed_median_permutation_invariant(
    s1: Seq<i64>,
    s2: Seq<i64>,
    cutoff_ms: i64,
    minimum_keep: nat,
)
    requires
        s1.to_multiset() == s2.to_multiset(),
    ensures
        trimmed_median_of(s1, cutoff_ms, minimum_keep) == trimmed_median_of(
            s2,
            cutoff_ms,
            minimum_keep,
        ),
{
    vstd::seq_lib::to_multiset_len::<i64>(s1);
    vstd::seq_lib::to_multiset_len::<i64>(s2);
    if s1.len() > 0 {
        lemma_median_permutation_invariant(s1, s2);
        let m = median_of(s1);
        let k1 = kept_samples(s1, m, cutoff_ms);
        let k2 = kept_samples(s2, m, cutoff_ms);
        assert forall|x: i64| k1.to_multiset().count(x) == k2.to_multiset().count(x) by {
            lemma_filter_count(s1, within_cutoff(m, cutoff_ms), x);
            lemma_filter_count(s2, within_cutoff(m, cutoff_ms), x);
        }
        assert(k1.to_multiset() =~= k2.to_multiset());
        vstd::seq_lib::to_multiset_len::<i64>(k1);
        vstd::seq_lib::to_multiset_len::<i64>(k2);
        lemma_median_permutation_invariant(k1, k2);
    }
}

/// The trim boundary is inclusive: a sample whose absolute offset from the
/// center is exactly the cutoff is kept, while any sample whose offset
/// exceeds the cutoff - in particular one at offset `cutoff_ms + 1` - is
/// dropped.
pub proof fn lemma_trim_boundary_inclusive(s: Seq<i64>, m: i64, cutoff_ms: i64, i: int)
    requires
        0 <= i < s.len(),
    ensures
        offset_millis(s[i], m) <= cutoff_ms ==> kept_samples(s, m, cutoff_ms).contains(s[i]),
        offset_millis(s[i], m) > cutoff_ms ==> !kept_samples(s, m, cutoff_ms).contains(s[i]),
{
    broadcast use vstd::seq_lib::group_filter_ensures;

    let kept = kept_samples(s, m, cutoff_ms);
    if offset_millis(s[i], m) <= cutoff_ms {
        assert(within_cutoff(m, cutoff_ms)(s[i]));
        assert(kept.contains(s[i]));
    } else {
        assert(!within_cutoff(m, cutoff_ms)(s[i]));
        assert forall|j: int| 0 <= j < kept.len() implies kept[j] != s[i] by {
            assert(within_cutoff(m, cutoff_ms)(kept[j]));
        }
        assert(!kept.contains(s[i]));
    }
}

} // verus!
