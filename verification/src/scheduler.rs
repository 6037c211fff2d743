//! The scheduler benchmarks: what they do next, and what they report.
use vstd::prelude::*;
use crate::text::decimal;
use crate::text::push_decimal;

verus! {

/// Number of plan input partitions to benchmark a stage with.
pub const PARTITIONS: usize = 4_000;

/// How often a task, or a stage, may fail.
pub const MAX_FAILURES: usize = 4;

/// How often the session configuration is turned into pairs, and how often the pairs are cloned.
pub const SESSION_ITERATIONS: usize = 10_000;

/// What is to be done next on the way to a graph whose wide final stage is running.
#[derive(Clone, Copy, Debug, PartialEq, Eq, Structural)]
pub enum StageStep {
    /// Plan an aggregation whose final stage has `PARTITIONS` partitions.
    Plan,
    /// Complete the leaf stage, so that the final stage resolves.
    CompleteLeafStage,
    /// Revive the graph.
    Revive,
    /// Count the available tasks.
    CountTasks,
    /// Nothing: the final stage is running.
    Ready,
    /// Nothing: the graph is not one to benchmark.
    Failed,
}

/// What came of a step.
#[derive(Clone, Copy, Debug, PartialEq, Eq, Structural)]
pub enum StageEvent {
    Planned,
    LeafStageCompleted,
    LeafStageFailed,
    Revived,
    Available { tasks: usize },
}

impl StageStep {
    /// Whether `event` can come of this step.
    pub open spec fn can_give(self, event: StageEvent) -> bool {
        match self {
            StageStep::Plan => event == StageEvent::Planned,
            StageStep::CompleteLeafStage => event == StageEvent::LeafStageCompleted || event
                == StageEvent::LeafStageFailed,
            StageStep::Revive => event == StageEvent::Revived,
            StageStep::CountTasks => event is Available,
            StageStep::Ready => false,
            StageStep::Failed => false,
        }
    }

    /// The step after this one, when `event` came of it.
    pub open spec fn after(self, event: StageEvent) -> StageStep {
        match event {
            StageEvent::Planned => StageStep::CompleteLeafStage,
            StageEvent::LeafStageCompleted => StageStep::Revive,
            StageEvent::LeafStageFailed => StageStep::Failed,
            StageEvent::Revived => StageStep::CountTasks,
            StageEvent::Available { tasks } => if tasks == PARTITIONS {
                StageStep::Ready
            } else {
                StageStep::Failed
            },
        }
    }

    /// The step after this one, when `event` came of it.
    pub fn next(self, event: StageEvent) -> (r: StageStep)
        requires
            self.can_give(event),
        ensures
            r == self.after(event),
    {
        match event {
            StageEvent::Planned => StageStep::CompleteLeafStage,
            StageEvent::LeafStageCompleted => StageStep::Revive,
            StageEvent::LeafStageFailed => StageStep::Failed,
            StageEvent::Revived => StageStep::CountTasks,
            StageEvent::Available { tasks } => if tasks == PARTITIONS {
                StageStep::Ready
            } else {
                StageStep::Failed
            },
        }
    }

    /// Whether `events` can come, one after the other, of this step and those after it.
    pub open spec fn can_give_all(self, events: Seq<StageEvent>) -> bool
        decreases events.len(),
    {
        events.len() > 0 ==> self.can_give(events[0]) && self.after(events[0]).can_give_all(
            events.drop_first(),
        )
    }

    /// The step after all of `events`.
    pub open spec fn after_all(self, events: Seq<StageEvent>) -> StageStep
        decreases events.len(),
    {
        if events.len() == 0 {
            self
        } else {
            self.after(events[0]).after_all(events.drop_first())
        }
    }
}

/// The final stage is running just when the aggregation was planned, its leaf stage completed and
/// the graph revived, in this order, and as many tasks were available then as the final stage has
/// partitions.
pub proof fn law_ready_stage(events: Seq<StageEvent>)
    requires
        StageStep::Plan.can_give_all(events),
    ensures
        StageStep::Plan.after_all(events) == StageStep::Ready <==> events == seq![
            StageEvent::Planned,
            StageEvent::LeafStageCompleted,
            StageEvent::Revived,
            StageEvent::Available { tasks: PARTITIONS },
        ],
{
    reveal_with_fuel(StageStep::can_give_all, 6);
    reveal_with_fuel(StageStep::after_all, 6);
    let wanted = seq![
        StageEvent::Planned,
        StageEvent::LeafStageCompleted,
        StageEvent::Revived,
        StageEvent::Available { tasks: PARTITIONS },
    ];
    if events.len() >= 1 {
        let rest1 = events.drop_first();
        assert(StageStep::CompleteLeafStage.can_give_all(rest1));
        if rest1.len() >= 1 {
            let rest2 = rest1.drop_first();
            if rest2.len() >= 1 {
                let rest3 = rest2.drop_first();
                if rest3.len() >= 1 {
                    let rest4 = rest3.drop_first();
                    assert(rest4.len() == 0);
                    if StageStep::Plan.after_all(events) == StageStep::Ready {
                        assert(events =~= wanted);
                    }
                }
            }
        }
    }
}

/// The hand-out of the tasks of a stage: how many were handed out so far, and whether none is
/// left.
#[derive(Clone, Copy, Debug, PartialEq, Eq, Structural)]
pub struct Dispatch {
    pub popped: usize,
    pub drained: bool,
}

/// What is to be done next in a hand-out.
#[derive(Clone, Copy, Debug, PartialEq, Eq, Structural)]
pub enum DispatchStep {
    /// Pop the next task.
    Pop,
    /// Report the tasks that were handed out.
    Report { units: usize },
    /// Fail: there was no task to hand out.
    NothingPopped,
}

impl Dispatch {
    /// A hand-out at its beginning.
    pub fn start() -> (r: Dispatch)
        ensures
            r == (Dispatch { popped: 0, drained: false }),
    {
        Dispatch { popped: 0, drained: false }
    }

    /// Takes note of whether there was a task to pop.
    pub fn on_pop(&mut self, got_task: bool)
        requires
            !old(self).drained,
            got_task ==> old(self).popped < usize::MAX,
        ensures
            *final(self) == old(self).after_pop(got_task),
    {
        if got_task {
            self.popped = self.popped + 1;
        } else {
            self.drained = true;
        }
    }

    /// The hand-out after a pop.
    pub open spec fn after_pop(self, got_task: bool) -> Dispatch {
        if got_task {
            Dispatch { popped: (self.popped + 1) as usize, drained: self.drained }
        } else {
            Dispatch { popped: self.popped, drained: true }
        }
    }

    /// What is to be done next.
    pub fn step(&self) -> (r: DispatchStep)
        ensures
            r == self.next_step(),
    {
        if !self.drained {
            DispatchStep::Pop
        } else if self.popped > 0 {
            DispatchStep::Report { units: self.popped }
        } else {
            DispatchStep::NothingPopped
        }
    }

    /// What is to be done next.
    pub open spec fn next_step(self) -> DispatchStep {
        if !self.drained {
            DispatchStep::Pop
        } else if self.popped > 0 {
            DispatchStep::Report { units: self.popped }
        } else {
            DispatchStep::NothingPopped
        }
    }

    /// The hand-out after `tasks` tasks were popped.
    pub open spec fn after_tasks(self, tasks: nat) -> Dispatch
        decreases tasks,
    {
        if tasks == 0 {
            self
        } else {
            self.after_tasks((tasks - 1) as nat).after_pop(true)
        }
    }
}

proof fn lemma_after_tasks(tasks: nat)
    requires
        tasks <= usize::MAX,
    ensures
        (Dispatch { popped: 0, drained: false }).after_tasks(tasks) == (Dispatch {
            popped: tasks as usize,
            drained: false,
        }),
    decreases tasks,
{
    if tasks > 0 {
        lemma_after_tasks((tasks - 1) as nat);
    }
}

/// A hand-out goes on until there is no task left, and then reports as many as there were, or
/// fails where there was none.
pub proof fn law_every_task_is_reported(tasks: nat)
    requires
        tasks <= usize::MAX,
    ensures
        (Dispatch { popped: 0, drained: false }).after_tasks(tasks).next_step()
            == DispatchStep::Pop,
        (Dispatch { popped: 0, drained: false }).after_tasks(tasks).after_pop(false).next_step()
            == if tasks > 0 {
            DispatchStep::Report { units: tasks as usize }
        } else {
            DispatchStep::NothingPopped
        },
{
    lemma_after_tasks(tasks);
}

/// How many status updates are sent at a time.
pub fn batch_sizes() -> (r: Vec<usize>)
    ensures
        r@ == seq![1usize, 64usize],
{
    vec![1usize, 64usize]
}

/// The name under which status updates of `batch_size` at a time are reported.
pub fn update_label(batch_size: usize) -> (r: String)
    ensures
        r@ == "update_task_status/batch="@ + decimal(batch_size as nat),
{
    let mut out = "update_task_status/batch=".to_owned();
    push_decimal(&mut out, batch_size as u64);
    out
}

/// How many key/value pairs were made of the session configuration so far.
#[derive(Clone, Copy, Debug, PartialEq, Eq, Structural)]
pub struct PairCount {
    pub total: usize,
}

impl PairCount {
    /// No pairs yet.
    pub fn start() -> (r: PairCount)
        ensures
            r.total == 0,
    {
        PairCount { total: 0 }
    }

    /// Counts the pairs of one more conversion or clone.
    pub fn on_pairs(&mut self, pairs: usize)
        requires
            old(self).total + pairs <= usize::MAX,
        ensures
            final(self).total == old(self).total + pairs,
    {
        self.total = self.total + pairs;
    }

    /// Whether there were any pairs at all.
    pub fn any(&self) -> (r: bool)
        ensures
            r == (self.total > 0),
    {
        self.total > 0
    }
}

/// The steps on the way to a running final stage: which one is left to do after what came of those
/// before it, and that the way ends in failure just where the leaf stage fails or the number of
/// available tasks is not 4000.
pub proof fn law_steps_to_a_running_stage(tasks: usize)
    ensures
        StageStep::Plan.after_all(seq![StageEvent::Planned]) == StageStep::CompleteLeafStage,
        StageStep::Plan.after_all(seq![StageEvent::Planned, StageEvent::LeafStageFailed])
            == StageStep::Failed,
        StageStep::Plan.after_all(seq![StageEvent::Planned, StageEvent::LeafStageCompleted])
            == StageStep::Revive,
        StageStep::Plan.after_all(
            seq![StageEvent::Planned, StageEvent::LeafStageCompleted, StageEvent::Revived],
        ) == StageStep::CountTasks,
        StageStep::Plan.after_all(
            seq![
                StageEvent::Planned,
                StageEvent::LeafStageCompleted,
                StageEvent::Revived,
                StageEvent::Available { tasks },
            ],
        ) == if tasks == 4_000 {
            StageStep::Ready
        } else {
            StageStep::Failed
        },
{
    reveal_with_fuel(StageStep::after_all, 5);
    let one = seq![StageEvent::Planned];
    let failed = seq![StageEvent::Planned, StageEvent::LeafStageFailed];
    let two = seq![StageEvent::Planned, StageEvent::LeafStageCompleted];
    let three = two.push(StageEvent::Revived);
    let four = three.push(StageEvent::Available { tasks });
    assert(three =~= seq![
        StageEvent::Planned,
        StageEvent::LeafStageCompleted,
        StageEvent::Revived,
    ]);
    assert(four =~= seq![
        StageEvent::Planned,
        StageEvent::LeafStageCompleted,
        StageEvent::Revived,
        StageEvent::Available { tasks },
    ]);
    assert(one.drop_first().len() == 0);
    assert(failed.drop_first()[0] == StageEvent::LeafStageFailed);
    assert(failed.drop_first().drop_first().len() == 0);
    assert(four.drop_first()[0] == StageEvent::LeafStageCompleted);
    assert(four.drop_first().drop_first()[0] == StageEvent::Revived);
    assert(four.drop_first().drop_first().drop_first()[0] == StageEvent::Available { tasks });
}

/// The final stage has 4000 partitions, four failures are allowed, and the session configuration is
/// turned into pairs ten thousand times.
pub proof fn law_scheduler_benchmark_sizes()
    ensures
        PARTITIONS == 4_000,
        MAX_FAILURES == 4,
        SESSION_ITERATIONS == 10_000,
{
}

/// What can come of each step: the leaf stage may fail, any number of tasks may be available, and
/// after the last step nothing comes any more.
pub proof fn law_events_of_each_step(event: StageEvent)
    ensures
        StageStep::Plan.can_give(event) <==> event is Planned,
        StageStep::CompleteLeafStage.can_give(event) <==> event is LeafStageCompleted
            || event is LeafStageFailed,
        StageStep::Revive.can_give(event) <==> event is Revived,
        StageStep::CountTasks.can_give(event) <==> event is Available,
        !StageStep::Ready.can_give(event),
        !StageStep::Failed.can_give(event),
{
}

} // verus!
