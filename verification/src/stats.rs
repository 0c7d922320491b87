//! Latency statistics: the order statistics that the reports show.

use vstd::multiset::*;
use vstd::prelude::*;
use vstd::relations::*;
use vstd::seq_lib::*;

verus! {

/// The order of numbers.
pub open spec fn at_most() -> spec_fn(u128, u128) -> bool {
    |x: u128, y: u128| x <= y
}

/// The values from the smallest to the largest.
pub open spec fn in_order(values: Seq<u128>) -> Seq<u128> {
    values.sort_by(at_most())
}

/// `<[u128]>::sort_unstable` sorts in place: the values afterwards are those
/// from before, none of them smaller than one that stands ahead of it.
#[verifier::external_body]
fn sort_unstable(values: &mut Vec<u128>)
    ensures
        final(values)@.to_multiset() == old(values)@.to_multiset(),
        forall|i: int, j: int|
            0 <= i < j < final(values)@.len() ==> final(values)@[i] <= final(values)@[j],
{
    values.sort_unstable()
}

/// The values from the smallest to the largest.
pub fn sorted(values: &Vec<u128>) -> (r: Vec<u128>)
    ensures
        r@ == in_order(values@),
        r@.len() == values@.len(),
{
    let mut r = values.clone();
    assert(r@ =~= values@);
    sort_unstable(&mut r);
    proof {
        assert(total_ordering(at_most()));
        values@.lemma_sort_by_ensures(at_most());
        assert(sorted_by(r@, at_most()));
        lemma_sorted_unique(r@, in_order(values@), at_most());
        values@.to_multiset_ensures();
        r@.to_multiset_ensures();
    }
    r
}

/// Order statistics of a list of values.
#[derive(Debug, Clone, Copy, PartialEq, Eq, Structural)]
pub struct Summary {
    pub min: u128,
    pub median: u128,
    pub p95: u128,
    pub max: u128,
}

/// The order statistics of a list: its ends, its middle, and the value 95
/// hundredths of the way up. An empty list has none.
pub open spec fn summary_of(values: Seq<u128>) -> Option<Summary> {
    let n = values.len() as int;
    if n == 0 {
        None
    } else {
        Some(
            Summary {
                min: in_order(values)[0],
                median: in_order(values)[n / 2],
                p95: in_order(values)[n * 95 / 100],
                max: in_order(values)[n - 1],
            },
        )
    }
}

pub fn summarize(values: &Vec<u128>) -> (r: Option<Summary>)
    requires
        values@.len() * 95 <= usize::MAX,
    ensures
        r == summary_of(values@),
{
    let sorted_values = sorted(values);
    let n = sorted_values.len();
    if n == 0 {
        return None;
    }
    Some(
        Summary {
            min: sorted_values[0],
            median: sorted_values[n / 2],
            p95: sorted_values[n * 95 / 100],
            max: sorted_values[n - 1],
        },
    )
}

/// What a session reports when it ends.
#[derive(Debug, Clone, Copy, PartialEq, Eq, Structural)]
pub struct Report {
    pub frames: u64,
    pub bytes: u64,
    pub acks: usize,
    pub round_trip: Option<Summary>,
}

/// The report of a session that captured `frames` frames, sent `bytes` bytes and
/// measured these round trips, in nanoseconds.
pub fn report(trips: &Vec<u128>, frames: u64, bytes: u64) -> (r: Report)
    requires
        trips@.len() * 95 <= usize::MAX,
    ensures
        r == (Report { frames, bytes, acks: trips@.len() as usize, round_trip: summary_of(trips@) }),
{
    Report { frames, bytes, acks: trips.len(), round_trip: summarize(trips) }
}

/// The statistics are values of the list, they stand in order, and no value lies
/// outside the ends.
pub proof fn summary_spans_the_values(values: Seq<u128>)
    requires
        values.len() > 0,
    ensures
        summary_of(values) matches Some(s) && {
            &&& values.contains(s.min)
            &&& values.contains(s.median)
            &&& values.contains(s.p95)
            &&& values.contains(s.max)
            &&& s.min <= s.median <= s.p95 <= s.max
            &&& forall|i: int| 0 <= i < values.len() ==> s.min <= #[trigger] values[i] <= s.max
        },
{
    let n = values.len() as int;
    let ordered = in_order(values);
    assert(total_ordering(at_most()));
    values.lemma_sort_by_ensures(at_most());
    values.to_multiset_ensures();
    ordered.to_multiset_ensures();
    assert(ordered.len() == n);
    assert forall|i: int, j: int| 0 <= i <= j < n implies ordered[i] <= ordered[j] by {
        if i < j {
            assert(at_most()(ordered[i], ordered[j]));
        }
    }
    assert forall|k: int| 0 <= k < n implies values.contains(#[trigger] ordered[k]) by {
        assert(ordered.contains(ordered[k]));
    }
    assert forall|i: int| 0 <= i < n implies ordered[0] <= #[trigger] values[i] <= ordered[n - 1] by {
        assert(values.to_multiset().count(values[i]) > 0);
        assert(ordered.contains(values[i]));
        let k = choose|k: int| 0 <= k < n && ordered[k] == values[i];
        assert(ordered[0] <= ordered[k] <= ordered[n - 1]);
    }
}

/// How many of the values are smaller than `bound`.
pub open spec fn smaller(values: Seq<u128>, bound: u128) -> nat {
    values.to_multiset().filter(|v: u128| v < bound).len()
}

/// How many of the values are larger than `bound`.
pub open spec fn larger(values: Seq<u128>, bound: u128) -> nat {
    values.to_multiset().filter(|v: u128| v > bound).len()
}

proof fn lemma_parts_are_no_longer(part: Multiset<u128>, whole: Multiset<u128>)
    requires
        part.subset_of(whole),
    ensures
        part.len() <= whole.len(),
{
    broadcast use vstd::multiset::group_multiset_axioms;

    assert(whole.sub(part).len() == whole.len() - part.len());
}

/// Of a list that is in order, no more values are smaller than the one at `k` than
/// stand before it, and no more are larger than stand after it.
proof fn lemma_around(values: Seq<u128>, ordered: Seq<u128>, k: int)
    requires
        values.to_multiset() == ordered.to_multiset(),
        forall|i: int, j: int| 0 <= i <= j < ordered.len() ==> ordered[i] <= ordered[j],
        0 <= k < ordered.len(),
    ensures
        smaller(values, ordered[k]) <= k,
        larger(values, ordered[k]) <= ordered.len() - 1 - k,
{
    broadcast use vstd::multiset::group_multiset_axioms;

    let m = ordered[k];
    let all = ordered.to_multiset();
    let below = all.filter(|v: u128| v < m);
    let above = all.filter(|v: u128| v > m);
    let front = ordered.take(k);
    let rest = ordered.skip(k);
    assert(front + rest =~= ordered);
    lemma_multiset_commutative(front, rest);
    front.to_multiset_ensures();
    rest.to_multiset_ensures();
    assert forall|v: u128| #[trigger] below.count(v) <= front.to_multiset().count(v) by {
        if v < m && rest.to_multiset().count(v) > 0 {
            assert(rest.contains(v));
            let j = choose|j: int| 0 <= j < rest.len() && rest[j] == v;
            assert(ordered[k] <= ordered[k + j]);
        }
    }
    lemma_parts_are_no_longer(below, front.to_multiset());
    let upto = ordered.take(k + 1);
    let back = ordered.skip(k + 1);
    assert(upto + back =~= ordered);
    lemma_multiset_commutative(upto, back);
    upto.to_multiset_ensures();
    back.to_multiset_ensures();
    assert forall|v: u128| #[trigger] above.count(v) <= back.to_multiset().count(v) by {
        if v > m && upto.to_multiset().count(v) > 0 {
            assert(upto.contains(v));
            let j = choose|j: int| 0 <= j < upto.len() && upto[j] == v;
            assert(ordered[j] <= ordered[k]);
        }
    }
    lemma_parts_are_no_longer(above, back.to_multiset());
}

/// The median parts the values: at most half of them are smaller, and less than half
/// are larger. At most 95 in a hundred are smaller than the other quantile, and less
/// than five in a hundred are larger.
pub proof fn quantiles_part_the_values(values: Seq<u128>)
    ensures
        values.len() == 0 <==> summary_of(values) is None,
        summary_of(values) matches Some(s) ==> {
            &&& 2 * smaller(values, s.median) <= values.len()
            &&& 2 * larger(values, s.median) < values.len()
            &&& 100 * smaller(values, s.p95) <= 95 * values.len()
            &&& 100 * larger(values, s.p95) < 5 * values.len()
            &&& smaller(values, s.min) == 0
            &&& larger(values, s.max) == 0
        },
{
    if values.len() > 0 {
        let n = values.len() as int;
        let ordered = in_order(values);
        assert(total_ordering(at_most()));
        values.lemma_sort_by_ensures(at_most());
        values.to_multiset_ensures();
        ordered.to_multiset_ensures();
        assert forall|i: int, j: int| 0 <= i <= j < n implies ordered[i] <= ordered[j] by {
            if i < j {
                assert(at_most()(ordered[i], ordered[j]));
            }
        }
        lemma_around(values, ordered, 0);
        lemma_around(values, ordered, n / 2);
        lemma_around(values, ordered, n * 95 / 100);
        lemma_around(values, ordered, n - 1);
    }
}

} // verus!
