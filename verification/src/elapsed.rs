//! Measured times, and what a series of them is summed up to.
use vstd::prelude::*;
use vstd::relations::sorted_by;
use vstd::relations::total_ordering;

verus! {

/// A measured time: whole seconds, and the nanoseconds beyond them.
#[derive(Clone, Copy, Debug, PartialEq, Eq, Structural)]
pub struct Elapsed {
    pub secs: u64,
    pub nanos: u32,
}

impl Elapsed {
    /// Whether the nanoseconds make less than a second.
    pub open spec fn wf(self) -> bool {
        self.nanos < 1_000_000_000
    }

    /// The time in nanoseconds.
    pub open spec fn total(self) -> nat {
        self.secs as nat * 1_000_000_000 + self.nanos as nat
    }

    /// The time of `total` nanoseconds.
    pub open spec fn of_nanos(total: nat) -> Elapsed {
        Elapsed {
            secs: (total / 1_000_000_000) as u64,
            nanos: (total % 1_000_000_000) as u32,
        }
    }

    /// Whether this time is no longer than `other`.
    pub open spec fn at_most(self, other: Elapsed) -> bool {
        self.secs < other.secs || (self.secs == other.secs && self.nanos <= other.nanos)
    }

    /// The time of `total` nanoseconds.
    pub fn from_nanos(total: u64) -> (r: Elapsed)
        ensures
            r == Elapsed::of_nanos(total as nat),
            r.wf(),
            r.total() == total,
    {
        Elapsed {
            secs: total / 1_000_000_000,
            nanos: (total % 1_000_000_000) as u32,
        }
    }

    /// The time that each of `by` equal parts takes, without the fraction of a nanosecond.
    pub fn divided(self, by: u32) -> (r: Elapsed)
        requires
            self.wf(),
            by > 0,
        ensures
            r == Elapsed::of_nanos(self.total() / by as nat),
            r.wf(),
            r.total() == self.total() / by as nat,
    {
        let total: u128 = self.secs as u128 * 1_000_000_000 + self.nanos as u128;
        let part: u128 = total / by as u128;
        proof {
            assert(part <= total) by (nonlinear_arith)
                requires
                    part == total / by as u128,
                    by > 0,
            ;
            assert(total < 0x1_0000_0000_0000_0000 * 1_000_000_000);
        }
        Elapsed {
            secs: (part / 1_000_000_000) as u64,
            nanos: (part % 1_000_000_000) as u32,
        }
    }

    fn no_longer_than(self, other: Elapsed) -> (r: bool)
        ensures
            r == self.at_most(other),
    {
        self.secs < other.secs || (self.secs == other.secs && self.nanos <= other.nanos)
    }
}

/// The times from the shortest to the longest.
pub open spec fn in_order(times: Seq<Elapsed>) -> Seq<Elapsed> {
    times.sort_by(|a: Elapsed, b: Elapsed| a.at_most(b))
}

/// What a series of measured times is summed up to.
#[derive(Clone, Copy, Debug, PartialEq, Eq, Structural)]
pub struct Summary {
    pub median: Elapsed,
    pub min: Elapsed,
}

/// The median of the times, the upper one of the two in the middle where their number is even,
/// and the shortest of them.
pub fn summary(times: &Vec<Elapsed>) -> (r: Summary)
    requires
        times@.len() > 0,
    ensures
        r.median == in_order(times@)[times@.len() as int / 2],
        r.min == in_order(times@)[0],
        times@.contains(r.min),
        forall|i: int| 0 <= i < times@.len() ==> r.min.at_most(#[trigger] times@[i]),
        times@.contains(r.median),
        times@.filter(|t: Elapsed| !r.median.at_most(t)).len() <= times@.len() / 2,
        times@.filter(|t: Elapsed| t.at_most(r.median)).len() > times@.len() / 2,
{
    let ghost leq = |a: Elapsed, b: Elapsed| a.at_most(b);
    let mut sorted: Vec<Elapsed> = Vec::new();
    let mut i: usize = 0;
    proof {
        assert(times@.take(0) =~= sorted@);
    }
    while i < times.len()
        invariant
            i <= times.len(),
            leq == (|a: Elapsed, b: Elapsed| a.at_most(b)),
            sorted@.len() == i,
            sorted_by(sorted@, leq),
            sorted@.to_multiset() == times@.take(i as int).to_multiset(),
        decreases times.len() - i,
    {
        let t = times[i];
        let mut k: usize = 0;
        while k < sorted.len() && sorted[k].no_longer_than(t)
            invariant
                k <= sorted.len(),
                forall|j: int| 0 <= j < k ==> (#[trigger] sorted@[j]).at_most(t),
            decreases sorted.len() - k,
        {
            k += 1;
        }
        let ghost before = sorted@;
        sorted.insert(k, t);
        proof {
            assert forall|a: int, b: int| 0 <= a < b < sorted@.len() implies #[trigger] leq(
                sorted@[a],
                sorted@[b],
            ) by {
                if a != k && b != k {
                    let a0 = if a < k { a } else { a - 1 };
                    let b0 = if b < k { b } else { b - 1 };
                    assert(leq(before[a0], before[b0]));
                } else if a == k && k < before.len() && b > k + 1 {
                    assert(leq(before[k as int], before[b - 1]));
                }
            }
            vstd::seq_lib::to_multiset_insert(before, k as int, t);
            vstd::seq_lib::to_multiset_build(times@.take(i as int), t);
            assert(times@.take(i + 1) =~= times@.take(i as int).push(t));
        }
        i += 1;
    }
    proof {
        assert(times@.take(i as int) =~= times@);
        lemma_at_most_orders();
        times@.lemma_sort_by_ensures(leq);
        vstd::seq_lib::lemma_sorted_unique(sorted@, in_order(times@), leq);
        law_shortest_time_comes_first(times@);
        law_median_is_in_the_middle(times@);
    }
    Summary { median: sorted[sorted.len() / 2], min: sorted[0] }
}

proof fn lemma_at_most_orders()
    ensures
        total_ordering(|a: Elapsed, b: Elapsed| a.at_most(b)),
{
}

/// Putting times in order keeps each of them as often as it was measured, the shorter before the
/// longer.
pub proof fn law_order_keeps_times(times: Seq<Elapsed>)
    ensures
        in_order(times).to_multiset() == times.to_multiset(),
        in_order(times).len() == times.len(),
        forall|i: int, j: int|
            0 <= i <= j < times.len() ==> (#[trigger] in_order(times)[i]).at_most(
                #[trigger] in_order(times)[j],
            ),
{
    let leq = |a: Elapsed, b: Elapsed| a.at_most(b);
    lemma_at_most_orders();
    times.lemma_sort_by_ensures(leq);
    times.to_multiset_ensures();
    in_order(times).to_multiset_ensures();
    assert forall|i: int, j: int| 0 <= i <= j < times.len() implies (#[trigger] in_order(
        times,
    )[i]).at_most(#[trigger] in_order(times)[j]) by {
        if i < j {
            assert(leq(in_order(times)[i], in_order(times)[j]));
        }
    }
}

/// In which order the times were measured does not matter to what they are summed up to.
pub proof fn law_order_of_measuring(times: Seq<Elapsed>, again: Seq<Elapsed>)
    requires
        times.to_multiset() == again.to_multiset(),
    ensures
        in_order(times) == in_order(again),
{
    let leq = |a: Elapsed, b: Elapsed| a.at_most(b);
    lemma_at_most_orders();
    times.lemma_sort_by_ensures(leq);
    again.lemma_sort_by_ensures(leq);
    vstd::seq_lib::lemma_sorted_unique(in_order(times), in_order(again), leq);
}

/// A time orders before another just where it has fewer nanoseconds.
pub proof fn law_order_is_by_length(a: Elapsed, b: Elapsed)
    requires
        a.wf(),
        b.wf(),
    ensures
        a.at_most(b) <==> a.total() <= b.total(),
{
}

/// The parts that a time is divided into make up the time, but for less than a nanosecond each.
pub proof fn law_parts_make_up_the_time(time: Elapsed, by: u32)
    requires
        time.wf(),
        by > 0,
    ensures
        by * Elapsed::of_nanos(time.total() / by as nat).total() <= time.total(),
        time.total() < by * (Elapsed::of_nanos(time.total() / by as nat).total() + 1),
{
    let total = time.total() as int;
    let part = total / by as int;
    vstd::arithmetic::div_mod::lemma_fundamental_div_mod(total, by as int);
    assert(0 <= part <= total) by (nonlinear_arith)
        requires
            part == total / by as int,
            total >= 0,
            by > 0,
    ;
    assert(total < 0x1_0000_0000_0000_0000 * 1_000_000_000);
    assert(Elapsed::of_nanos(part as nat).total() == part);
    assert(by * (part + 1) == by * part + by) by (nonlinear_arith);
}

/// A second is a thousand million nanoseconds, and as many are not beyond the seconds any more.
pub proof fn law_seconds_and_nanos(secs: u64, nanos: u32)
    ensures
        (Elapsed { secs, nanos }).wf() <==> nanos < 1_000_000_000,
        (Elapsed { secs: 0, nanos }).total() == nanos,
        secs < u64::MAX ==> (Elapsed { secs: (secs + 1) as u64, nanos }).total() == (Elapsed {
            secs,
            nanos,
        }).total() + 1_000_000_000,
{
}

/// The time of a number of nanoseconds has that number of nanoseconds, and is the only one.
pub proof fn law_nanos_round_trip(total: nat, time: Elapsed)
    requires
        total < 0x1_0000_0000_0000_0000 * 1_000_000_000,
        time.wf(),
    ensures
        Elapsed::of_nanos(total).wf(),
        Elapsed::of_nanos(total).total() == total,
        time.total() == total ==> Elapsed::of_nanos(total) == time,
{
}

proof fn lemma_member_of_both(a: Seq<Elapsed>, b: Seq<Elapsed>, time: Elapsed)
    requires
        a.to_multiset() == b.to_multiset(),
        a.contains(time),
    ensures
        b.contains(time),
{
    a.to_multiset_ensures();
    b.to_multiset_ensures();
    assert(a.to_multiset().count(time) > 0);
    assert(b.to_multiset().count(time) > 0);
}

proof fn lemma_filter_of_multiset(a: Seq<Elapsed>, b: Seq<Elapsed>, pred: spec_fn(Elapsed) -> bool)
    requires
        a.to_multiset() == b.to_multiset(),
    ensures
        a.filter(pred).len() == b.filter(pred).len(),
    decreases a.len(),
{
    a.to_multiset_ensures();
    b.to_multiset_ensures();
    if a.len() > 0 {
        let last = a.last();
        assert(a.contains(last));
        lemma_member_of_both(a, b, last);
        let k = choose|k: int| 0 <= k < b.len() && b[k] == last;
        let one = seq![last];
        let before = b.take(k);
        let after = b.skip(k + 1);
        assert(b =~= before + one + after);
        assert(a =~= a.drop_last() + one);
        assert(b.remove(k) =~= before + after);
        assert(a.remove(a.len() - 1) =~= a.drop_last());
        lemma_filter_of_multiset(a.drop_last(), before + after, pred);
        Seq::filter_distributes_over_add(a.drop_last(), one, pred);
        Seq::filter_distributes_over_add(before, after, pred);
        Seq::filter_distributes_over_add(before, one, pred);
        Seq::filter_distributes_over_add(before + one, after, pred);
    } else {
        assert(a =~= b);
    }
}

proof fn lemma_filter_keeps_all(times: Seq<Elapsed>, pred: spec_fn(Elapsed) -> bool)
    requires
        forall|i: int| 0 <= i < times.len() ==> pred(#[trigger] times[i]),
    ensures
        times.filter(pred).len() == times.len(),
    decreases times.len(),
{
    reveal(Seq::filter);
    if times.len() > 0 {
        lemma_filter_keeps_all(times.drop_last(), pred);
    }
}

/// The first of the times in order was measured, and none that was measured is shorter.
pub proof fn law_shortest_time_comes_first(times: Seq<Elapsed>)
    requires
        times.len() > 0,
    ensures
        times.contains(in_order(times)[0]),
        forall|i: int| 0 <= i < times.len() ==> in_order(times)[0].at_most(#[trigger] times[i]),
{
    let sorted = in_order(times);
    law_order_keeps_times(times);
    assert(sorted.contains(sorted[0]));
    lemma_member_of_both(sorted, times, sorted[0]);
    assert forall|i: int| 0 <= i < times.len() implies sorted[0].at_most(#[trigger] times[i]) by {
        assert(times.contains(times[i]));
        lemma_member_of_both(times, sorted, times[i]);
        let k = choose|k: int| 0 <= k < sorted.len() && sorted[k] == times[i];
        assert(sorted[0].at_most(sorted[k]));
    }
}

/// The median was measured; no more than half of the times are shorter, and more than half are no
/// longer.
pub proof fn law_median_is_in_the_middle(times: Seq<Elapsed>)
    requires
        times.len() > 0,
    ensures
        ({
            let median = in_order(times)[times.len() as int / 2];
            &&& times.contains(median)
            &&& times.filter(|t: Elapsed| !median.at_most(t)).len() <= times.len() / 2
            &&& times.filter(|t: Elapsed| t.at_most(median)).len() > times.len() / 2
        }),
{
    let sorted = in_order(times);
    let half = times.len() as int / 2;
    let median = sorted[half];
    let shorter = |t: Elapsed| !median.at_most(t);
    let no_longer = |t: Elapsed| t.at_most(median);
    law_order_keeps_times(times);
    assert(sorted.contains(median));
    lemma_member_of_both(sorted, times, median);

    let low = sorted.take(half);
    let high = sorted.skip(half);
    assert(sorted =~= low + high);
    assert forall|i: int| 0 <= i < high.len() implies !shorter(#[trigger] high[i]) by {
        assert(median.at_most(sorted[half + i]));
    }
    high.lemma_all_neg_filter_empty(shorter);
    low.lemma_filter_len(shorter);
    Seq::filter_distributes_over_add(low, high, shorter);
    lemma_filter_of_multiset(times, sorted, shorter);

    let upto = sorted.take(half + 1);
    let rest = sorted.skip(half + 1);
    assert(sorted =~= upto + rest);
    assert forall|i: int| 0 <= i < upto.len() implies no_longer(#[trigger] upto[i]) by {
        assert(sorted[i].at_most(median));
    }
    lemma_filter_keeps_all(upto, no_longer);
    Seq::filter_distributes_over_add(upto, rest, no_longer);
    lemma_filter_of_multiset(times, sorted, no_longer);
}

} // verus!
