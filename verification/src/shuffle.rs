//! Shuffle files: where they are, and which reduce partition is read from them.
use vstd::prelude::*;
use crate::totals::law_sum_adds_up;
use crate::totals::lemma_sum_step;
use crate::totals::lemma_sum_update;
use crate::totals::sum;

verus! {

/// The partition of a stage of a job.
#[derive(Debug)]
pub struct PartitionId {
    pub job_id: String,
    pub stage_id: usize,
    pub partition_id: usize,
}

/// The executor that wrote a shuffle file.
#[derive(Debug)]
pub struct ExecutorMetadata {
    pub id: String,
    pub host: String,
    pub port: u16,
    pub grpc_port: u16,
    pub vcores: u32,
}

/// What is known of the size of a partition.
#[derive(Clone, Copy, Debug, PartialEq, Eq)]
pub struct PartitionStats {
    pub num_rows: Option<u64>,
    pub num_batches: Option<u64>,
    pub num_bytes: Option<u64>,
}

/// Where a reduce task finds what one map task wrote for its partition.
#[derive(Debug)]
pub struct PartitionLocation {
    pub map_partition_id: usize,
    pub partition_id: PartitionId,
    pub executor_meta: ExecutorMetadata,
    pub partition_stats: PartitionStats,
    pub file_id: Option<u64>,
    pub is_sort_shuffle: bool,
}

impl ExecutorMetadata {
    /// Whether this is the one executor of the benchmarks.
    pub open spec fn is_bench_executor(self) -> bool {
        &&& self.id@ == "executor_1"@
        &&& self.host@ == "executor_1"@
        &&& self.port == 7070
        &&& self.grpc_port == 8080
        &&& self.vcores == 1
    }
}

impl PartitionLocation {
    /// Whether this is where stage 1 of the benchmarks' job left map output `map_partition_id`
    /// for reduce partition `partition_id`.
    pub open spec fn is_bench_location(self, map_partition_id: usize, partition_id: usize) -> bool {
        &&& self.map_partition_id == map_partition_id
        &&& self.partition_id.job_id@ == "job"@
        &&& self.partition_id.stage_id == 1
        &&& self.partition_id.partition_id == partition_id
        &&& self.executor_meta.is_bench_executor()
    }
}

/// The executor of the benchmarks.
pub fn executor_meta() -> (r: ExecutorMetadata)
    ensures
        r.is_bench_executor(),
        r.id@ == "executor_1"@,
        r.host@ == "executor_1"@,
        r.port == 7070,
        r.grpc_port == 8080,
        r.vcores == 1,
{
    ExecutorMetadata {
        id: "executor_1".to_owned(),
        host: "executor_1".to_owned(),
        port: 7070,
        grpc_port: 8080,
        vcores: 1,
    }
}

fn bench_partition(partition_id: usize) -> (r: PartitionId)
    ensures
        r.job_id@ == "job"@,
        r.stage_id == 1,
        r.partition_id == partition_id,
{
    PartitionId { job_id: "job".to_owned(), stage_id: 1, partition_id }
}

/// The rows of a record batch and the bytes that it takes in memory.
#[derive(Clone, Copy, Debug)]
pub struct BatchSize {
    pub rows: usize,
    pub bytes: usize,
}

/// A shuffle file that was written: its batches in the order of writing, and its length on disk.
#[derive(Debug)]
pub struct WrittenFile {
    pub batches: Vec<BatchSize>,
    pub len: u64,
}

impl WrittenFile {
    pub open spec fn row_numbers(self) -> Seq<nat> {
        self.batches@.map_values(|batch: BatchSize| batch.rows as nat)
    }

    pub open spec fn byte_numbers(self) -> Seq<nat> {
        self.batches@.map_values(|batch: BatchSize| batch.bytes as nat)
    }

    /// The rows in the file.
    pub open spec fn rows(self) -> nat {
        sum(self.row_numbers())
    }

    /// The bytes that the batches of the file take in memory.
    pub open spec fn in_memory(self) -> nat {
        sum(self.byte_numbers())
    }
}

/// The bytes in memory, file by file.
pub open spec fn in_memory_numbers(files: Seq<WrittenFile>) -> Seq<nat> {
    files.map_values(|file: WrittenFile| file.in_memory())
}

/// The bytes on disk, file by file.
pub open spec fn on_disk_numbers(files: Seq<WrittenFile>) -> Seq<nat> {
    files.map_values(|file: WrittenFile| (file.len as usize) as nat)
}

/// The locations of shuffle files, and the bytes that they take in memory and on disk.
#[derive(Debug)]
pub struct ShuffleFiles {
    pub locations: Vec<PartitionLocation>,
    pub in_memory_bytes: usize,
    pub on_disk_bytes: usize,
}

/// The seed of the data in batch `batch` of file `file`.
pub open spec fn file_seed_of(file: int, batch: int) -> int {
    file * 1000 + batch
}

/// The seed of the data in batch `batch` of map task `map_task`.
pub open spec fn map_seed_of(map_task: int, batch: int) -> int {
    map_task * 100 + batch
}

/// The seed of the data in batch `batch` of file `file`.
pub fn file_seed(file: usize, batch: usize) -> (seed: usize)
    requires
        file_seed_of(file as int, batch as int) <= usize::MAX,
    ensures
        seed == file_seed_of(file as int, batch as int),
{
    file * 1000 + batch
}

/// The seed of the data in batch `batch` of map task `map_task`.
pub fn map_seed(map_task: usize, batch: usize) -> (seed: usize)
    requires
        map_seed_of(map_task as int, batch as int) <= usize::MAX,
    ensures
        seed == map_seed_of(map_task as int, batch as int),
{
    map_task * 100 + batch
}

fn file_sizes(file: &WrittenFile) -> (r: (u64, usize))
    requires
        file.rows() <= u64::MAX,
        file.in_memory() <= usize::MAX,
    ensures
        r.0 == file.rows(),
        r.1 == file.in_memory(),
{
    let ghost rows_of = file.row_numbers();
    let ghost bytes_of = file.byte_numbers();
    let mut rows: u64 = 0;
    let mut bytes: usize = 0;
    let mut i: usize = 0;
    while i < file.batches.len()
        invariant
            i <= file.batches.len(),
            rows_of == file.row_numbers(),
            bytes_of == file.byte_numbers(),
            sum(rows_of) <= u64::MAX,
            sum(bytes_of) <= usize::MAX,
            rows == sum(rows_of.take(i as int)),
            bytes == sum(bytes_of.take(i as int)),
        decreases file.batches.len() - i,
    {
        proof {
            lemma_sum_step(rows_of, i as int);
            lemma_sum_step(bytes_of, i as int);
        }
        bytes += file.batches[i].bytes;
        rows += file.batches[i].rows as u64;
        i += 1;
    }
    assert(rows_of.take(i as int) =~= rows_of);
    assert(bytes_of.take(i as int) =~= bytes_of);
    (rows, bytes)
}

/// The locations of the shuffle files that were written, one for each file and in their order,
/// and the bytes that the files take in memory and on disk.
pub fn write_shuffle_files(files: &Vec<WrittenFile>) -> (r: ShuffleFiles)
    requires
        forall|f: int| 0 <= f < files@.len() ==> (#[trigger] files@[f]).rows() <= u64::MAX,
        sum(in_memory_numbers(files@)) <= usize::MAX,
        sum(on_disk_numbers(files@)) <= usize::MAX,
    ensures
        r.locations@.len() == files@.len(),
        forall|f: int|
            #![trigger r.locations@[f]]
            0 <= f < files@.len() ==> {
                &&& r.locations@[f].is_bench_location(f as usize, 0)
                &&& r.locations@[f].partition_stats == (PartitionStats {
                    num_rows: Some(files@[f].rows() as u64),
                    num_batches: Some(files@[f].batches@.len() as u64),
                    num_bytes: Some(files@[f].len),
                })
                &&& r.locations@[f].file_id == Some(f as u64)
                &&& !r.locations@[f].is_sort_shuffle
            },
        r.in_memory_bytes == sum(in_memory_numbers(files@)),
        r.on_disk_bytes == sum(on_disk_numbers(files@)),
{
    let ghost memory_of = in_memory_numbers(files@);
    let ghost disk_of = on_disk_numbers(files@);
    let mut locations: Vec<PartitionLocation> = Vec::new();
    let mut in_memory_bytes: usize = 0;
    let mut on_disk_bytes: usize = 0;
    let mut f: usize = 0;
    while f < files.len()
        invariant
            f <= files.len(),
            forall|k: int| 0 <= k < files@.len() ==> (#[trigger] files@[k]).rows() <= u64::MAX,
            memory_of == in_memory_numbers(files@),
            disk_of == on_disk_numbers(files@),
            sum(memory_of) <= usize::MAX,
            sum(disk_of) <= usize::MAX,
            in_memory_bytes == sum(memory_of.take(f as int)),
            on_disk_bytes == sum(disk_of.take(f as int)),
            locations@.len() == f,
            forall|k: int|
                #![trigger locations@[k]]
                0 <= k < f ==> {
                    &&& locations@[k].is_bench_location(k as usize, 0)
                    &&& locations@[k].partition_stats == (PartitionStats {
                        num_rows: Some(files@[k].rows() as u64),
                        num_batches: Some(files@[k].batches@.len() as u64),
                        num_bytes: Some(files@[k].len),
                    })
                    &&& locations@[k].file_id == Some(k as u64)
                    &&& !locations@[k].is_sort_shuffle
                },
        decreases files.len() - f,
    {
        proof {
            lemma_sum_step(memory_of, f as int);
            lemma_sum_step(disk_of, f as int);
            assert(memory_of[f as int] == files@[f as int].in_memory());
        }
        let file = &files[f];
        let (rows, bytes) = file_sizes(file);
        in_memory_bytes += bytes;
        on_disk_bytes += file.len as usize;
        locations.push(
            PartitionLocation {
                map_partition_id: f,
                partition_id: bench_partition(0),
                executor_meta: executor_meta(),
                partition_stats: PartitionStats {
                    num_rows: Some(rows),
                    num_batches: Some(file.batches.len() as u64),
                    num_bytes: Some(file.len),
                },
                file_id: Some(f as u64),
                is_sort_shuffle: false,
            },
        );
        f += 1;
    }
    assert(memory_of.take(f as int) =~= memory_of);
    assert(disk_of.take(f as int) =~= disk_of);
    ShuffleFiles { locations, in_memory_bytes, on_disk_bytes }
}

/// A row of the metadata that a shuffle writer puts out: it wrote `num_bytes` bytes for reduce
/// partition `partition` to file `file_id`.
#[derive(Clone, Copy, Debug, PartialEq, Eq)]
pub struct MetadataRow {
    pub partition: u32,
    pub file_id: u64,
    pub num_bytes: u64,
}

/// The blocks of reduce partition `partition`, each by its file and its bytes, in the order in
/// which the metadata names them.
pub open spec fn blocks_of(rows: Seq<MetadataRow>, partition: int) -> Seq<(u64, u64)> {
    rows.filter(|row: MetadataRow| row.partition == partition).map_values(
        |row: MetadataRow| (row.file_id, row.num_bytes),
    )
}

/// The rows of the metadata that name reduce partition `partition`.
pub open spec fn rows_of(rows: Seq<MetadataRow>, partition: int) -> Seq<MetadataRow> {
    rows.filter(|row: MetadataRow| row.partition == partition)
}

/// The bytes in a list of blocks.
pub open spec fn block_bytes(blocks: Seq<(u64, u64)>) -> nat {
    sum(block_numbers(blocks))
}

/// The bytes of each block.
pub open spec fn block_numbers(blocks: Seq<(u64, u64)>) -> Seq<nat> {
    blocks.map_values(|block: (u64, u64)| block.1 as nat)
}

proof fn lemma_blocks_step(rows: Seq<MetadataRow>, n: int, partition: int)
    requires
        0 <= n < rows.len(),
    ensures
        blocks_of(rows.take(n + 1), partition) == if rows[n].partition == partition {
            blocks_of(rows.take(n), partition).push((rows[n].file_id, rows[n].num_bytes))
        } else {
            blocks_of(rows.take(n), partition)
        },
{
    assert(rows.take(n + 1).drop_last() =~= rows.take(n));
    reveal_with_fuel(Seq::filter, 2);
    let to_block = |row: MetadataRow| (row.file_id, row.num_bytes);
    let here = rows.take(n).filter(|row: MetadataRow| row.partition == partition);
    assert(here.push(rows[n]).map_values(to_block) =~= here.map_values(to_block).push(
        to_block(rows[n]),
    ));
}

/// The blocks of each of `num_partitions` reduce partitions, each by its file and its bytes, in
/// the order in which the metadata names them.
pub fn blocks_per_partition(rows: &Vec<MetadataRow>, num_partitions: usize) -> (r: Vec<
    Vec<(u64, u64)>,
>)
    requires
        forall|i: int| 0 <= i < rows@.len() ==> (#[trigger] rows@[i]).partition < num_partitions,
    ensures
        r@.len() == num_partitions,
        forall|p: int| 0 <= p < num_partitions ==> (#[trigger] r@[p])@ == blocks_of(rows@, p),
{
    let mut per_partition: Vec<Vec<(u64, u64)>> = Vec::new();
    let mut p: usize = 0;
    while p < num_partitions
        invariant
            p <= num_partitions,
            per_partition@.len() == p,
            forall|k: int| 0 <= k < p ==> (#[trigger] per_partition@[k])@.len() == 0,
        decreases num_partitions - p,
    {
        per_partition.push(Vec::new());
        p += 1;
    }
    proof {
        assert forall|k: int| 0 <= k < num_partitions implies (#[trigger] per_partition@[k])@
            == blocks_of(rows@.take(0), k) by {
            reveal_with_fuel(Seq::filter, 1);
            assert(per_partition@[k]@ =~= blocks_of(rows@.take(0), k));
        }
    }
    let mut i: usize = 0;
    while i < rows.len()
        invariant
            i <= rows.len(),
            forall|k: int|
                0 <= k < rows@.len() ==> (#[trigger] rows@[k]).partition < num_partitions,
            per_partition@.len() == num_partitions,
            forall|k: int|
                0 <= k < num_partitions ==> (#[trigger] per_partition@[k])@ == blocks_of(
                    rows@.take(i as int),
                    k,
                ),
        decreases rows.len() - i,
    {
        let row = rows[i];
        let ghost before = per_partition@;
        per_partition[row.partition as usize].push((row.file_id, row.num_bytes));
        proof {
            assert forall|k: int| 0 <= k < num_partitions implies (#[trigger] per_partition@[k])@
                == blocks_of(rows@.take(i + 1), k) by {
                lemma_blocks_step(rows@, i as int, k);
                assert(before[k]@ == blocks_of(rows@.take(i as int), k));
            }
        }
        i += 1;
    }
    assert(rows@.take(i as int) =~= rows@);
    per_partition
}

fn total_block_bytes(blocks: &Vec<(u64, u64)>) -> (total: u64)
    requires
        block_bytes(blocks@) <= u64::MAX,
    ensures
        total == block_bytes(blocks@),
{
    let ghost numbers = block_numbers(blocks@);
    let mut total: u64 = 0;
    let mut i: usize = 0;
    while i < blocks.len()
        invariant
            i <= blocks.len(),
            numbers == block_numbers(blocks@),
            sum(numbers) <= u64::MAX,
            total == sum(numbers.take(i as int)),
        decreases blocks.len() - i,
    {
        proof {
            lemma_sum_step(numbers, i as int);
        }
        total += blocks[i].1;
        i += 1;
    }
    assert(numbers.take(i as int) =~= numbers);
    total
}

/// The reduce partition with the most bytes; of several that have the most, the last one.
pub fn largest_partition(per_partition: &Vec<Vec<(u64, u64)>>) -> (target: usize)
    requires
        per_partition@.len() > 0,
        forall|p: int|
            0 <= p < per_partition@.len() ==> block_bytes((#[trigger] per_partition@[p])@)
                <= u64::MAX,
    ensures
        target < per_partition@.len(),
        forall|p: int|
            0 <= p < per_partition@.len() ==> block_bytes((#[trigger] per_partition@[p])@)
                <= block_bytes(per_partition@[target as int]@),
        forall|p: int|
            target < p < per_partition@.len() ==> block_bytes((#[trigger] per_partition@[p])@)
                < block_bytes(per_partition@[target as int]@),
{
    let mut target: usize = 0;
    let mut most: u64 = total_block_bytes(&per_partition[0]);
    let mut p: usize = 1;
    while p < per_partition.len()
        invariant
            1 <= p <= per_partition.len(),
            forall|k: int|
                0 <= k < per_partition@.len() ==> block_bytes((#[trigger] per_partition@[k])@)
                    <= u64::MAX,
            target < p,
            most == block_bytes(per_partition@[target as int]@),
            forall|k: int| 0 <= k < p ==> block_bytes((#[trigger] per_partition@[k])@) <= most,
            forall|k: int| target < k < p ==> block_bytes((#[trigger] per_partition@[k])@) < most,
        decreases per_partition.len() - p,
    {
        let bytes: u64 = total_block_bytes(&per_partition[p]);
        if bytes >= most {
            target = p;
            most = bytes;
        }
        p += 1;
    }
    target
}

/// Where reduce partition `target` finds its blocks, in their order.
pub fn sort_shuffle_locations(blocks: &Vec<(u64, u64)>, target: usize) -> (r: Vec<
    PartitionLocation,
>)
    ensures
        r@.len() == blocks@.len(),
        forall|i: int|
            0 <= i < blocks@.len() ==> is_block_location(#[trigger] r@[i], blocks@[i], target),
        forall|i: int|
            #![trigger r@[i]]
            0 <= i < blocks@.len() ==> {
                &&& r@[i].file_id == Some(blocks@[i].0)
                &&& r@[i].partition_stats.num_bytes == Some(blocks@[i].1)
                &&& r@[i].partition_stats.num_rows is None
                &&& r@[i].partition_stats.num_batches is None
                &&& r@[i].map_partition_id == blocks@[i].0 as usize
                &&& r@[i].partition_id.partition_id == target
                &&& r@[i].is_sort_shuffle
            },
{
    let mut r: Vec<PartitionLocation> = Vec::new();
    let mut i: usize = 0;
    while i < blocks.len()
        invariant
            i <= blocks.len(),
            r@.len() == i,
            forall|k: int|
                0 <= k < i ==> is_block_location(#[trigger] r@[k], blocks@[k], target),
        decreases blocks.len() - i,
    {
        let (file_id, num_bytes) = blocks[i];
        r.push(
            PartitionLocation {
                map_partition_id: file_id as usize,
                partition_id: bench_partition(target),
                executor_meta: executor_meta(),
                partition_stats: PartitionStats {
                    num_rows: None,
                    num_batches: None,
                    num_bytes: Some(num_bytes),
                },
                file_id: Some(file_id),
                is_sort_shuffle: true,
            },
        );
        i += 1;
    }
    r
}

/// What a reduce task reads: its partition, and where it finds its blocks.
#[derive(Debug)]
pub struct ReduceInput {
    pub partition: usize,
    pub locations: Vec<PartitionLocation>,
}

/// Whether `location` is where reduce partition `partition` finds `block`.
pub open spec fn is_block_location(
    location: PartitionLocation,
    block: (u64, u64),
    partition: usize,
) -> bool {
    &&& location.is_bench_location(block.0 as usize, partition)
    &&& location.partition_stats == (PartitionStats {
        num_rows: None,
        num_batches: None,
        num_bytes: Some(block.1),
    })
    &&& location.file_id == Some(block.0)
    &&& location.is_sort_shuffle
}

/// What the reduce task of the partition with the most bytes reads; of several that have the most,
/// the last one.
pub fn largest_reduce_input(rows: &Vec<MetadataRow>, num_partitions: usize) -> (r: ReduceInput)
    requires
        num_partitions > 0,
        forall|i: int| 0 <= i < rows@.len() ==> (#[trigger] rows@[i]).partition < num_partitions,
        forall|p: int|
            0 <= p < num_partitions ==> block_bytes(#[trigger] blocks_of(rows@, p)) <= u64::MAX,
    ensures
        r.partition < num_partitions,
        forall|p: int|
            0 <= p < num_partitions ==> block_bytes(#[trigger] blocks_of(rows@, p)) <= block_bytes(
                blocks_of(rows@, r.partition as int),
            ),
        forall|p: int|
            r.partition < p < num_partitions ==> block_bytes(#[trigger] blocks_of(rows@, p))
                < block_bytes(blocks_of(rows@, r.partition as int)),
        r.locations@.len() == blocks_of(rows@, r.partition as int).len(),
        forall|i: int|
            0 <= i < r.locations@.len() ==> is_block_location(
                #[trigger] r.locations@[i],
                blocks_of(rows@, r.partition as int)[i],
                r.partition,
            ),
        r.locations@.len() == rows_of(rows@, r.partition as int).len(),
        forall|i: int|
            #![trigger r.locations@[i]]
            0 <= i < r.locations@.len() ==> {
                let row = rows_of(rows@, r.partition as int)[i];
                &&& r.locations@[i].file_id == Some(row.file_id)
                &&& r.locations@[i].partition_stats.num_bytes == Some(row.num_bytes)
            },
        forall|i: int|
            #![trigger rows@[i]]
            0 <= i < rows@.len() && rows@[i].partition == r.partition ==> exists|k: int|
                0 <= k < r.locations@.len() && (#[trigger] r.locations@[k]).file_id == Some(
                    rows@[i].file_id,
                ) && r.locations@[k].partition_stats.num_bytes == Some(rows@[i].num_bytes),
{
    let per_partition = blocks_per_partition(rows, num_partitions);
    assert forall|p: int| 0 <= p < per_partition@.len() implies block_bytes(
        (#[trigger] per_partition@[p])@,
    ) <= u64::MAX by {
        assert(per_partition@[p]@ == blocks_of(rows@, p));
    }
    let partition: usize = largest_partition(&per_partition);
    assert forall|p: int| 0 <= p < num_partitions implies #[trigger] blocks_of(rows@, p)
        == per_partition@[p]@ by {}
    let locations = sort_shuffle_locations(&per_partition[partition], partition);
    proof {
        law_locations_read_back(rows@, partition, locations@);
    }
    ReduceInput { partition, locations }
}

/// Each row of the metadata is a block of its reduce partition.
pub proof fn law_every_block_is_found(rows: Seq<MetadataRow>, i: int)
    requires
        0 <= i < rows.len(),
    ensures
        blocks_of(rows, rows[i].partition as int).contains((rows[i].file_id, rows[i].num_bytes)),
{
    let partition = rows[i].partition as int;
    let pred = |row: MetadataRow| row.partition == partition;
    rows.lemma_filter_contains(pred, i);
    let found = rows.filter(pred);
    let k = choose|k: int| 0 <= k < found.len() && found[k] == rows[i];
    assert(blocks_of(rows, partition)[k] == (rows[i].file_id, rows[i].num_bytes));
}

/// The bytes of every row of the metadata.
pub open spec fn row_numbers(rows: Seq<MetadataRow>) -> Seq<nat> {
    rows.map_values(|row: MetadataRow| row.num_bytes as nat)
}

/// The bytes of every reduce partition.
pub open spec fn partition_numbers(rows: Seq<MetadataRow>, num_partitions: nat) -> Seq<nat> {
    Seq::new(num_partitions, |p: int| block_bytes(blocks_of(rows, p)))
}

/// The reduce partitions hold together as many bytes as the metadata names: none is lost and none
/// is counted twice.
pub proof fn law_no_byte_is_lost(rows: Seq<MetadataRow>, num_partitions: nat)
    requires
        forall|i: int| 0 <= i < rows.len() ==> (#[trigger] rows[i]).partition < num_partitions,
    ensures
        sum(partition_numbers(rows, num_partitions)) == sum(row_numbers(rows)),
    decreases rows.len(),
{
    if rows.len() == 0 {
        assert forall|p: int| 0 <= p < num_partitions implies #[trigger] partition_numbers(
            rows,
            num_partitions,
        )[p] == 0 by {
            reveal_with_fuel(Seq::filter, 1);
            assert(blocks_of(rows, p) =~= Seq::<(u64, u64)>::empty());
            assert(block_numbers(blocks_of(rows, p)) =~= Seq::<nat>::empty());
        }
        lemma_sum_of_zeros(partition_numbers(rows, num_partitions));
        assert(row_numbers(rows) =~= Seq::<nat>::empty());
    } else {
        let n = rows.len() - 1;
        let before = rows.drop_last();
        let last = rows.last();
        let numbers = partition_numbers(before, num_partitions);
        assert forall|i: int| 0 <= i < before.len() implies (#[trigger] before[i]).partition
            < num_partitions by {
            assert(before[i] == rows[i]);
        }
        law_no_byte_is_lost(before, num_partitions);
        assert(rows.take(n) =~= before);
        assert(rows.take(n + 1) =~= rows);
        let p0 = last.partition as int;
        assert forall|p: int| 0 <= p < num_partitions implies #[trigger] partition_numbers(
            rows,
            num_partitions,
        )[p] == numbers.update(p0, numbers[p0] + last.num_bytes as nat)[p] by {
            lemma_blocks_step(rows, n, p);
            if p == p0 {
                let old_blocks = blocks_of(before, p);
                assert(blocks_of(rows, p) == old_blocks.push((last.file_id, last.num_bytes)));
                assert(block_numbers(blocks_of(rows, p)).drop_last() =~= block_numbers(old_blocks));
            }
        }
        assert(partition_numbers(rows, num_partitions) =~= numbers.update(
            p0,
            numbers[p0] + last.num_bytes as nat,
        ));
        lemma_sum_update(numbers, p0, last.num_bytes as nat);
        assert(row_numbers(rows).drop_last() =~= row_numbers(before));
    }
}

proof fn lemma_sum_of_zeros(numbers: Seq<nat>)
    requires
        forall|i: int| 0 <= i < numbers.len() ==> #[trigger] numbers[i] == 0,
    ensures
        sum(numbers) == 0,
    decreases numbers.len(),
{
    if numbers.len() > 0 {
        lemma_sum_of_zeros(numbers.drop_last());
    }
}

/// Two batches of the files have different seeds, as long as no file has more than a thousand.
pub proof fn law_file_seeds_differ(file: int, batch: int, other_file: int, other_batch: int)
    requires
        0 <= batch < 1000,
        0 <= other_batch < 1000,
        file_seed_of(file, batch) == file_seed_of(other_file, other_batch),
    ensures
        file == other_file,
        batch == other_batch,
{
}

/// Two batches of the map tasks have different seeds, as long as no task has more than a hundred.
pub proof fn law_map_seeds_differ(task: int, batch: int, other_task: int, other_batch: int)
    requires
        0 <= batch < 100,
        0 <= other_batch < 100,
        map_seed_of(task, batch) == map_seed_of(other_task, other_batch),
    ensures
        task == other_task,
        batch == other_batch,
{
}

/// The rows of a reduce partition are found one by one: a row that names the partition comes
/// behind the rows found before it, and any other row is passed over.
pub proof fn law_rows_are_found_in_order(rows: Seq<MetadataRow>, row: MetadataRow, partition: int)
    ensures
        rows_of(Seq::<MetadataRow>::empty(), partition).len() == 0,
        row.partition == partition ==> rows_of(rows.push(row), partition) == rows_of(
            rows,
            partition,
        ).push(row),
        row.partition != partition ==> rows_of(rows.push(row), partition) == rows_of(
            rows,
            partition,
        ),
{
    reveal_with_fuel(Seq::filter, 2);
    assert(rows.push(row).drop_last() =~= rows);
}

/// So are the blocks of a reduce partition: each row that names the partition is one block, of the
/// row's file and with the row's bytes.
pub proof fn law_blocks_are_found_in_order(rows: Seq<MetadataRow>, row: MetadataRow, partition: int)
    ensures
        blocks_of(Seq::<MetadataRow>::empty(), partition).len() == 0,
        row.partition == partition ==> blocks_of(rows.push(row), partition) == blocks_of(
            rows,
            partition,
        ).push((row.file_id, row.num_bytes)),
        row.partition != partition ==> blocks_of(rows.push(row), partition) == blocks_of(
            rows,
            partition,
        ),
{
    reveal_with_fuel(Seq::filter, 1);
    assert(rows.push(row).take(rows.len() as int) =~= rows);
    assert(rows.push(row).take(rows.len() as int + 1) =~= rows.push(row));
    lemma_blocks_step(rows.push(row), rows.len() as int, partition);
}

/// A row of the metadata raises the bytes of its own reduce partition by its own bytes, and those
/// of no other one.
pub proof fn law_bytes_go_to_their_partition(
    rows: Seq<MetadataRow>,
    row: MetadataRow,
    partition: int,
)
    ensures
        block_bytes(blocks_of(Seq::<MetadataRow>::empty(), partition)) == 0,
        row.partition == partition ==> block_bytes(blocks_of(rows.push(row), partition))
            == block_bytes(blocks_of(rows, partition)) + row.num_bytes,
        row.partition != partition ==> block_bytes(blocks_of(rows.push(row), partition))
            == block_bytes(blocks_of(rows, partition)),
{
    law_blocks_are_found_in_order(rows, row, partition);
    law_block_bytes_add_up(Seq::empty(), (0, 0));
    assert(blocks_of(Seq::<MetadataRow>::empty(), partition) =~= Seq::<(u64, u64)>::empty());
    law_block_bytes_add_up(blocks_of(rows, partition), (row.file_id, row.num_bytes));
}

/// One more block raises the bytes of a list of blocks by its own.
pub proof fn law_block_bytes_add_up(blocks: Seq<(u64, u64)>, block: (u64, u64))
    ensures
        block_bytes(Seq::<(u64, u64)>::empty()) == 0,
        block_bytes(blocks.push(block)) == block_bytes(blocks) + block.1,
{
    assert(block_numbers(Seq::<(u64, u64)>::empty()) =~= Seq::<nat>::empty());
    assert(block_numbers(blocks.push(block)) =~= block_numbers(blocks).push(block.1 as nat));
    law_sum_adds_up(block_numbers(blocks), block.1 as nat);
}

/// What a reduce task is told of its blocks can be read back: the files and the bytes of its
/// locations are those of the rows of the metadata that name its partition, in their order. Each
/// such row has a location, and rows of different files have locations of different files.
pub proof fn law_locations_read_back(
    rows: Seq<MetadataRow>,
    partition: usize,
    locations: Seq<PartitionLocation>,
)
    requires
        locations.len() == blocks_of(rows, partition as int).len(),
        forall|i: int|
            0 <= i < locations.len() ==> is_block_location(
                #[trigger] locations[i],
                blocks_of(rows, partition as int)[i],
                partition,
            ),
    ensures
        locations.len() == rows_of(rows, partition as int).len(),
        forall|i: int|
            #![trigger locations[i]]
            0 <= i < locations.len() ==> {
                let row = rows_of(rows, partition as int)[i];
                &&& row.partition == partition
                &&& locations[i].file_id == Some(row.file_id)
                &&& locations[i].partition_stats.num_bytes == Some(row.num_bytes)
                &&& locations[i].partition_stats.num_rows is None
                &&& locations[i].partition_stats.num_batches is None
                &&& row.file_id <= usize::MAX ==> locations[i].map_partition_id == row.file_id
                &&& locations[i].partition_id.partition_id == partition
                &&& locations[i].is_sort_shuffle
            },
        forall|i: int|
            #![trigger rows[i]]
            0 <= i < rows.len() && rows[i].partition == partition ==> exists|k: int|
                0 <= k < locations.len() && (#[trigger] locations[k]).file_id == Some(
                    rows[i].file_id,
                ) && locations[k].partition_stats.num_bytes == Some(rows[i].num_bytes),
        forall|i: int, k: int|
            0 <= i < locations.len() && 0 <= k < locations.len() && rows_of(
                rows,
                partition as int,
            )[i].file_id != rows_of(rows, partition as int)[k].file_id ==> (
            #[trigger] locations[i]).file_id != (#[trigger] locations[k]).file_id,
{
    let pred = |row: MetadataRow| row.partition == partition as int;
    let found = rows_of(rows, partition as int);
    assert(found == rows.filter(pred));
    assert forall|i: int| 0 <= i < locations.len() implies {
        let row = found[i];
        &&& row.partition == partition
        &&& (#[trigger] locations[i]).file_id == Some(row.file_id)
        &&& locations[i].partition_stats.num_bytes == Some(row.num_bytes)
    } by {
        rows.lemma_filter_pred(pred, i);
        assert(is_block_location(locations[i], blocks_of(rows, partition as int)[i], partition));
    }
    assert forall|i: int|
        #![trigger rows[i]]
        0 <= i < rows.len() && rows[i].partition == partition implies exists|k: int|
        0 <= k < locations.len() && (#[trigger] locations[k]).file_id == Some(rows[i].file_id)
            && locations[k].partition_stats.num_bytes == Some(rows[i].num_bytes) by {
        rows.lemma_filter_contains(pred, i);
        let k = choose|k: int| 0 <= k < found.len() && found[k] == rows[i];
        assert(locations[k].file_id == Some(rows[i].file_id));
    }
}

/// A batch more in a file raises its rows and its bytes in memory by those of the batch.
pub proof fn law_batches_add_up(file: WrittenFile, more: WrittenFile, batch: BatchSize)
    requires
        more.batches@ == file.batches@.push(batch),
    ensures
        more.rows() == file.rows() + batch.rows,
        more.in_memory() == file.in_memory() + batch.bytes,
        file.batches@.len() == 0 ==> file.rows() == 0 && file.in_memory() == 0,
{
    assert(more.row_numbers() =~= file.row_numbers().push(batch.rows as nat));
    assert(more.byte_numbers() =~= file.byte_numbers().push(batch.bytes as nat));
    law_sum_adds_up(file.row_numbers(), batch.rows as nat);
    law_sum_adds_up(file.byte_numbers(), batch.bytes as nat);
}

/// A file more raises the bytes in memory by those of its batches, and the bytes on disk by its
/// length.
pub proof fn law_files_add_up(files: Seq<WrittenFile>, file: WrittenFile)
    ensures
        sum(in_memory_numbers(Seq::<WrittenFile>::empty())) == 0,
        sum(on_disk_numbers(Seq::<WrittenFile>::empty())) == 0,
        sum(in_memory_numbers(files.push(file))) == sum(in_memory_numbers(files))
            + file.in_memory(),
        file.len <= usize::MAX ==> sum(on_disk_numbers(files.push(file))) == sum(
            on_disk_numbers(files),
        ) + file.len,
{
    assert(in_memory_numbers(Seq::<WrittenFile>::empty()) =~= Seq::<nat>::empty());
    assert(on_disk_numbers(Seq::<WrittenFile>::empty()) =~= Seq::<nat>::empty());
    assert(in_memory_numbers(files.push(file)) =~= in_memory_numbers(files).push(
        file.in_memory(),
    ));
    assert(on_disk_numbers(files.push(file)) =~= on_disk_numbers(files).push(
        (file.len as usize) as nat,
    ));
    law_sum_adds_up(in_memory_numbers(files), file.in_memory());
    law_sum_adds_up(on_disk_numbers(files), (file.len as usize) as nat);
}

/// Seeds start from zero; the next batch has the next seed, and the next file, or map task, leaves
/// room for a thousand batches, or a hundred.
pub proof fn law_seeds_follow_each_other(source: int, batch: int)
    ensures
        file_seed_of(0, 0) == 0,
        file_seed_of(source, batch + 1) - file_seed_of(source, batch) == 1,
        file_seed_of(source + 1, batch) - file_seed_of(source, batch) == 1000,
        map_seed_of(0, 0) == 0,
        map_seed_of(source, batch + 1) - map_seed_of(source, batch) == 1,
        map_seed_of(source + 1, batch) - map_seed_of(source, batch) == 100,
{
}

/// A location of the benchmarks names stage 1 of the job, its reduce partition, its map output and
/// the one executor.
pub proof fn law_location_names_its_partition(
    location: PartitionLocation,
    map_partition_id: usize,
    partition_id: usize,
)
    requires
        location.is_bench_location(map_partition_id, partition_id),
    ensures
        location.map_partition_id == map_partition_id,
        location.partition_id.job_id@ == "job"@,
        location.partition_id.stage_id == 1,
        location.partition_id.partition_id == partition_id,
        location.executor_meta.id@ == "executor_1"@,
        location.executor_meta.host@ == "executor_1"@,
        location.executor_meta.port == 7070,
        location.executor_meta.grpc_port == 8080,
        location.executor_meta.vcores == 1,
{
}

} // verus!
