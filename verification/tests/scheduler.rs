use ballista_bench::chunks::chunk_ranges;
use ballista_bench::scheduler::{
    batch_sizes, update_label, Dispatch, DispatchStep, PairCount, StageEvent, StageStep,
    PARTITIONS, SESSION_ITERATIONS,
};
use ballista_bench::stream::DrainCount;

fn run(events: &[StageEvent]) -> StageStep {
    let mut step = StageStep::Plan;
    for event in events {
        step = step.next(*event);
    }
    step
}

#[test]
fn wide_stage_is_reached_in_four_steps() {
    let events = [
        StageEvent::Planned,
        StageEvent::LeafStageCompleted,
        StageEvent::Revived,
        StageEvent::Available { tasks: PARTITIONS },
    ];
    assert_eq!(PARTITIONS, 4_000);
    assert_eq!(run(&[]), StageStep::Plan);
    assert_eq!(run(&events[..1]), StageStep::CompleteLeafStage);
    assert_eq!(run(&events[..2]), StageStep::Revive);
    assert_eq!(run(&events[..3]), StageStep::CountTasks);
    assert_eq!(run(&events), StageStep::Ready);
}

#[test]
fn wide_stage_fails_without_its_tasks() {
    assert_eq!(run(&[StageEvent::Planned, StageEvent::LeafStageFailed]), StageStep::Failed);
    for tasks in [0, PARTITIONS - 1, PARTITIONS + 1] {
        let events = [
            StageEvent::Planned,
            StageEvent::LeafStageCompleted,
            StageEvent::Revived,
            StageEvent::Available { tasks },
        ];
        assert_eq!(run(&events), StageStep::Failed);
    }
}

#[test]
fn every_popped_task_is_counted() {
    let mut tasks = (0..PARTITIONS).collect::<Vec<_>>();
    let mut dispatch = Dispatch::start();
    while dispatch.step() == DispatchStep::Pop {
        dispatch.on_pop(tasks.pop().is_some());
    }
    assert_eq!(dispatch.step(), DispatchStep::Report { units: PARTITIONS });
}

#[test]
fn popping_nothing_is_a_failure() {
    let mut dispatch = Dispatch::start();
    dispatch.on_pop(false);
    assert_eq!(dispatch.step(), DispatchStep::NothingPopped);
}

#[test]
fn status_updates_go_out_in_batches() {
    assert_eq!(batch_sizes(), vec![1, 64]);
    for total in [0usize, 1, 63, 64, 65, 4_000] {
        let statuses = (0..total).collect::<Vec<_>>();
        for size in [1usize, 7, 64, 5_000, usize::MAX] {
            let sent = chunk_ranges(total, size)
                .into_iter()
                .map(|(start, end)| statuses[start..end].to_vec())
                .collect::<Vec<_>>();
            let expected = statuses.chunks(size).map(|c| c.to_vec()).collect::<Vec<_>>();
            assert_eq!(sent, expected);
        }
    }
    assert_eq!(chunk_ranges(4_000, 64).len(), 63);
    assert_eq!(chunk_ranges(4_000, 64)[62], (3_968, 4_000));
}

#[test]
fn chunks_of_a_stream_are_stepped_to() {
    for (len, chunk) in [(0usize, 3usize), (10, 3), (9, 3), (1, 65_536), (200_000, 65_536)] {
        let expected = (0..len)
            .step_by(chunk)
            .map(|off| (off, (off + chunk).min(len)))
            .collect::<Vec<_>>();
        assert_eq!(chunk_ranges(len, chunk), expected);
    }
    assert_eq!(
        chunk_ranges(usize::MAX, usize::MAX - 1),
        vec![(0, usize::MAX - 1), (usize::MAX - 1, usize::MAX)]
    );
}

#[test]
fn labels_name_the_batch_size() {
    assert_eq!(update_label(1), "update_task_status/batch=1");
    assert_eq!(update_label(64), "update_task_status/batch=64");
}

#[test]
fn pairs_add_up() {
    let mut count = PairCount::start();
    assert!(!count.any());
    for _ in 0..2 * SESSION_ITERATIONS {
        count.on_pairs(3);
    }
    assert_eq!(count.total, 60_000);
    assert!(count.any());
}

#[test]
fn drained_batches_add_up() {
    let mut count = DrainCount::start();
    count.on_batch(8_192, 100);
    count.on_batch(0, 1);
    count.on_batch(5, 20);
    assert_eq!(count, DrainCount { rows: 8_197, batches: 3, bytes: 121 });
}
