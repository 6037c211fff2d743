//! The times that a shuffle writer measures of itself.
use vstd::prelude::*;
use crate::totals::law_sum_adds_up;
use crate::totals::lemma_sum_step;
use crate::totals::sum;

verus! {

/// A metric of an operator.
#[derive(Debug)]
pub enum Metric {
    /// A measured time, in nanoseconds.
    Time { name: String, nanos: usize },
    /// Anything else.
    Other,
}

impl Metric {
    /// What the metric adds to the time called `name`.
    pub open spec fn time_named(self, name: Seq<char>) -> nat {
        match self {
            Metric::Time { name: own, nanos } => if own@ == name {
                nanos as nat
            } else {
                0
            },
            Metric::Other => 0,
        }
    }
}

/// What each metric adds to the time called `name`.
pub open spec fn times_named(metrics: Seq<Metric>, name: Seq<char>) -> Seq<nat> {
    metrics.map_values(|metric: Metric| metric.time_named(name))
}

/// The time that a shuffle writer spent on repartitioning and on writing, in nanoseconds.
#[derive(Clone, Copy, Debug, PartialEq, Eq, Structural)]
pub struct WriteTimes {
    pub repart_ns: usize,
    pub write_ns: usize,
}

/// The time that a shuffle writer with these metrics spent on repartitioning and on writing.
pub fn write_times(metrics: &Vec<Metric>) -> (r: WriteTimes)
    requires
        sum(times_named(metrics@, "repart_time"@)) <= usize::MAX,
        sum(times_named(metrics@, "write_time"@)) <= usize::MAX,
    ensures
        r.repart_ns == sum(times_named(metrics@, "repart_time"@)),
        r.write_ns == sum(times_named(metrics@, "write_time"@)),
{
    let ghost repart_of = times_named(metrics@, "repart_time"@);
    let ghost write_of = times_named(metrics@, "write_time"@);
    proof {
        reveal_strlit("repart_time");
        reveal_strlit("write_time");
        assert("repart_time"@.len() != "write_time"@.len());
    }
    let repart_name = "repart_time".to_owned();
    let write_name = "write_time".to_owned();
    let mut repart_ns: usize = 0;
    let mut write_ns: usize = 0;
    let mut i: usize = 0;
    while i < metrics.len()
        invariant
            i <= metrics.len(),
            repart_name@ == "repart_time"@,
            write_name@ == "write_time"@,
            "repart_time"@ != "write_time"@,
            repart_of == times_named(metrics@, "repart_time"@),
            write_of == times_named(metrics@, "write_time"@),
            sum(repart_of) <= usize::MAX,
            sum(write_of) <= usize::MAX,
            repart_ns == sum(repart_of.take(i as int)),
            write_ns == sum(write_of.take(i as int)),
        decreases metrics.len() - i,
    {
        proof {
            lemma_sum_step(repart_of, i as int);
            lemma_sum_step(write_of, i as int);
        }
        if let Metric::Time { name, nanos } = &metrics[i] {
            if *name == repart_name {
                repart_ns += *nanos;
            } else if *name == write_name {
                write_ns += *nanos;
            }
        }
        i += 1;
    }
    assert(repart_of.take(i as int) =~= repart_of);
    assert(write_of.take(i as int) =~= write_of);
    WriteTimes { repart_ns, write_ns }
}

/// A time called `name` adds itself to the time called `name`.
pub proof fn law_named_times_add_up(metrics: Seq<Metric>, name: String, nanos: usize)
    ensures
        sum(times_named(Seq::<Metric>::empty(), name@)) == 0,
        sum(times_named(metrics.push(Metric::Time { name, nanos }), name@)) == sum(
            times_named(metrics, name@),
        ) + nanos,
{
    let more = metrics.push(Metric::Time { name, nanos });
    assert(times_named(Seq::<Metric>::empty(), name@) =~= Seq::<nat>::empty());
    assert(times_named(more, name@) =~= times_named(metrics, name@).push(nanos as nat));
    law_sum_adds_up(times_named(metrics, name@), nanos as nat);
}

/// A time of another name, and a metric that is no time, add nothing.
pub proof fn law_other_metrics_do_not_count(
    metrics: Seq<Metric>,
    wanted: Seq<char>,
    name: String,
    nanos: usize,
)
    requires
        name@ != wanted,
    ensures
        sum(times_named(metrics.push(Metric::Time { name, nanos }), wanted)) == sum(
            times_named(metrics, wanted),
        ),
        sum(times_named(metrics.push(Metric::Other), wanted)) == sum(times_named(metrics, wanted)),
{
    let timed = metrics.push(Metric::Time { name, nanos });
    let other = metrics.push(Metric::Other);
    assert(times_named(timed, wanted) =~= times_named(metrics, wanted).push(0));
    assert(times_named(other, wanted) =~= times_named(metrics, wanted).push(0));
    law_sum_adds_up(times_named(metrics, wanted), 0);
}

} // verus!
