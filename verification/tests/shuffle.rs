use ballista_bench::disk::{dir_size, DirEntry};
use ballista_bench::metrics::{write_times, Metric, WriteTimes};
use ballista_bench::plan::{find_partial_aggregate, AggregateMode, PlanNode};
use ballista_bench::settings::{
    AggregateSettings, BlockStreamSettings, LocalReadSettings, SortReadSettings,
    SortWriteSettings,
};
use ballista_bench::shuffle::{
    blocks_per_partition, executor_meta, file_seed, largest_partition, largest_reduce_input,
    map_seed, write_shuffle_files, BatchSize, MetadataRow, PartitionStats, WrittenFile,
};
use ballista_bench::totals::total_size;

fn row(partition: u32, file_id: u64, num_bytes: u64) -> MetadataRow {
    MetadataRow { partition, file_id, num_bytes }
}

#[test]
fn executor_of_the_benchmarks() {
    let meta = executor_meta();
    assert_eq!(meta.id, "executor_1");
    assert_eq!(meta.host, "executor_1");
    assert_eq!((meta.port, meta.grpc_port, meta.vcores), (7070, 8080, 1));
}

#[test]
fn written_files_are_located_and_summed_up() {
    let batch = |bytes| BatchSize { rows: 8_192, bytes };
    let files = vec![
        WrittenFile { batches: vec![batch(10), batch(20)], len: 7 },
        WrittenFile { batches: vec![batch(30), batch(40)], len: 9 },
    ];
    let written = write_shuffle_files(&files);
    assert_eq!(written.in_memory_bytes, 100);
    assert_eq!(written.on_disk_bytes, 16);
    assert_eq!(written.locations.len(), 2);
    for (f, location) in written.locations.iter().enumerate() {
        assert_eq!(location.map_partition_id, f);
        assert_eq!(location.partition_id.job_id, "job");
        assert_eq!(location.partition_id.stage_id, 1);
        assert_eq!(location.partition_id.partition_id, 0);
        assert_eq!(location.executor_meta.id, "executor_1");
        assert_eq!(
            location.partition_stats,
            PartitionStats {
                num_rows: Some(16_384),
                num_batches: Some(2),
                num_bytes: Some(files[f].len),
            }
        );
        assert_eq!(location.file_id, Some(f as u64));
        assert!(!location.is_sort_shuffle);
    }
    let none = write_shuffle_files(&Vec::new());
    assert!(none.locations.is_empty());
    assert_eq!((none.in_memory_bytes, none.on_disk_bytes), (0, 0));
}

#[test]
fn seeds_count_files_and_batches() {
    assert_eq!(file_seed(31, 15), 31_015);
    assert_eq!(map_seed(7, 15), 715);
    let mut seeds = (0..32).flat_map(|f| (0..16).map(move |b| file_seed(f, b))).collect::<Vec<_>>();
    seeds.sort();
    seeds.dedup();
    assert_eq!(seeds.len(), 512);
}

#[test]
fn blocks_go_to_their_partition_in_order() {
    let rows = vec![row(1, 5, 10), row(0, 5, 1), row(1, 6, 20), row(3, 5, 2), row(1, 7, 0)];
    let blocks = blocks_per_partition(&rows, 4);
    assert_eq!(
        blocks,
        vec![vec![(5, 1)], vec![(5, 10), (6, 20), (7, 0)], vec![], vec![(5, 2)]]
    );
    let named: u64 = rows.iter().map(|r| r.num_bytes).sum();
    let found: u64 = blocks.iter().flatten().map(|b| b.1).sum();
    assert_eq!(named, found);
}

#[test]
fn last_of_the_largest_partitions_is_read() {
    let cases: Vec<Vec<Vec<(u64, u64)>>> = vec![
        vec![vec![(0, 5)], vec![(0, 2), (1, 3)], vec![(0, 4)]],
        vec![vec![], vec![], vec![]],
        vec![vec![(0, 9)], vec![]],
        vec![vec![], vec![(4, u64::MAX)]],
    ];
    for per_partition in &cases {
        let expected = per_partition
            .iter()
            .enumerate()
            .max_by_key(|(_, v)| v.iter().map(|(_, b)| *b).sum::<u64>())
            .map(|(i, _)| i)
            .unwrap();
        assert_eq!(largest_partition(per_partition), expected);
    }
    assert_eq!(largest_partition(&cases[0]), 1);
    assert_eq!(largest_partition(&cases[1]), 2);
}

#[test]
fn largest_partition_finds_its_blocks() {
    let rows = vec![row(2, 5, 10), row(0, 5, 1), row(2, 6, 20), row(1, 5, 30)];
    let input = largest_reduce_input(&rows, 3);
    assert_eq!(input.partition, 2);
    assert_eq!(input.locations.len(), 2);
    let first = &input.locations[0];
    assert_eq!(first.map_partition_id, 5);
    assert_eq!(first.partition_id.job_id, "job");
    assert_eq!(first.partition_id.stage_id, 1);
    assert_eq!(first.partition_id.partition_id, 2);
    assert_eq!(first.file_id, Some(5));
    assert!(first.is_sort_shuffle);
    assert_eq!(
        input.locations[1].partition_stats,
        PartitionStats { num_rows: None, num_batches: None, num_bytes: Some(20) }
    );
}

#[test]
fn sizes_add_up() {
    assert_eq!(total_size(&vec![1, 2, 39]), 42);
    assert_eq!(total_size(&Vec::new()), 0);
}

#[test]
fn times_of_a_writer_are_found_by_name() {
    let time = |name: &str, nanos| Metric::Time { name: name.to_string(), nanos };
    let metrics = vec![
        time("repart_time", 5),
        Metric::Other,
        time("write_time", 7),
        time("spill_time", 100),
        time("repart_time", 6),
    ];
    assert_eq!(write_times(&metrics), WriteTimes { repart_ns: 11, write_ns: 7 });
    assert_eq!(write_times(&Vec::new()), WriteTimes { repart_ns: 0, write_ns: 0 });
}

fn node(aggregate: Option<AggregateMode>, children: Vec<PlanNode>) -> PlanNode {
    PlanNode { aggregate, children }
}

#[test]
fn first_partial_aggregate_is_found() {
    let partial = || node(Some(AggregateMode::Partial), vec![]);
    let scan = || node(None, vec![]);
    assert_eq!(find_partial_aggregate(&partial()), Some(vec![]));
    assert_eq!(find_partial_aggregate(&scan()), None);
    let usual = node(
        Some(AggregateMode::FinalPartitioned),
        vec![node(None, vec![node(Some(AggregateMode::Partial), vec![scan()])])],
    );
    assert_eq!(find_partial_aggregate(&usual), Some(vec![0, 0]));
    let wide = node(
        None,
        vec![
            node(None, vec![scan(), node(Some(AggregateMode::Final), vec![])]),
            node(None, vec![scan(), node(Some(AggregateMode::Partial), vec![partial()])]),
            partial(),
        ],
    );
    assert_eq!(find_partial_aggregate(&wide), Some(vec![1, 1]));
    let without = node(Some(AggregateMode::Single), vec![node(None, vec![scan()]), scan()]);
    assert_eq!(find_partial_aggregate(&without), None);
    for mode in [
        AggregateMode::PartialReduce,
        AggregateMode::Final,
        AggregateMode::FinalPartitioned,
        AggregateMode::Single,
        AggregateMode::SinglePartitioned,
    ] {
        assert_eq!(find_partial_aggregate(&node(Some(mode), vec![])), None);
    }
}

#[test]
fn directories_are_summed_up_without_their_index_files() {
    let file = |name: &str, len| DirEntry::File { name: name.to_string(), len };
    let mut entries = vec![
        file("data.arrow", 100),
        file("data.arrow.index", 1_000),
        DirEntry::Unreadable,
        DirEntry::Directory(vec![
            file("data.arrow.index", 5),
            file("data.arrow.index.bak", 7),
            DirEntry::Directory(vec![file("a", 30)]),
            DirEntry::Directory(vec![]),
        ]),
    ];
    assert_eq!(dir_size(&entries), 137);
    entries.reverse();
    assert_eq!(dir_size(&entries), 137);
    assert_eq!(dir_size(&Vec::new()), 0);
}

#[test]
fn settings_have_their_defaults() {
    let local = LocalReadSettings::from_vars(None, None, None, None, None);
    assert_eq!(
        (local.num_files, local.batches_per_file, local.iterations, local.worker_threads),
        (32, 16, 5, 4)
    );
    assert_eq!(local.readers, "4");
    let sort = SortReadSettings::from_vars(None, None, None, None, None);
    assert_eq!(
        (sort.map_tasks, sort.batches_per_map, sort.num_partitions, sort.iterations),
        (8, 16, 16, 5)
    );
    assert_eq!(sort.readers, "4");
    let write = SortWriteSettings::from_vars(None, None, None, None);
    assert_eq!(
        (write.num_cols, write.num_batches, write.num_partitions, write.iterations),
        (100, 40, 200, 5)
    );
    let aggregate = AggregateSettings::from_vars(None, None);
    assert_eq!((aggregate.num_rows, aggregate.num_partitions), (4_000_000, 16));
    let block = BlockStreamSettings::from_vars(None, None, None);
    assert_eq!((block.chunk_size, block.num_batches, block.iterations), (64 * 1024, 64, 5));
}

#[test]
fn settings_are_taken_from_variables() {
    let local = LocalReadSettings::from_vars(
        Some("1"),
        Some("2"),
        Some("3"),
        Some("+8"),
        Some("unbounded"),
    );
    assert_eq!(
        (local.num_files, local.batches_per_file, local.iterations, local.worker_threads),
        (1, 2, 3, 8)
    );
    assert_eq!(local.readers, "unbounded");
    let sort = SortReadSettings::from_vars(Some("1"), Some("x"), Some("3"), None, Some("2"));
    assert_eq!(
        (sort.map_tasks, sort.batches_per_map, sort.num_partitions, sort.iterations),
        (1, 16, 3, 5)
    );
    let write = SortWriteSettings::from_vars(Some("4"), Some("5"), Some("6"), Some("7"));
    assert_eq!(
        (write.num_cols, write.num_batches, write.num_partitions, write.iterations),
        (4, 5, 6, 7)
    );
    let aggregate = AggregateSettings::from_vars(Some("1000"), Some("2"));
    assert_eq!((aggregate.num_rows, aggregate.num_partitions), (1_000, 2));
    let block = BlockStreamSettings::from_vars(Some("1024"), Some("-1"), Some(""));
    assert_eq!((block.chunk_size, block.num_batches, block.iterations), (1_024, 64, 5));
}
