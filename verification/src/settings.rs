//! The settings of the benchmarks, taken from environment variables.
use vstd::prelude::*;
use crate::text::decimal;
use crate::text::law_numeral_round_trip;
use crate::text::law_numerals_are_read;
use crate::text::law_only_numerals_are_read;
use crate::text::parse_usize;
use crate::text::parsed_usize;
use crate::text::zeros;

verus! {

/// What a variable with this text sets a number to that is `default` otherwise.
pub open spec fn number_or(value: Option<&str>, default: usize) -> usize {
    match value {
        Some(v) => match parsed_usize(v@) {
            Some(n) => n,
            None => default,
        },
        None => default,
    }
}

/// What a variable with this text sets a text to that is `default` otherwise.
pub open spec fn text_or(value: Option<&str>, default: Seq<char>) -> Seq<char> {
    match value {
        Some(v) => v@,
        None => default,
    }
}

/// The number written in an environment variable, or `default` where the variable is not set or
/// holds no numeral of a `usize`.
pub fn env_usize(value: Option<&str>, default: usize) -> (r: usize)
    ensures
        r == number_or(value, default),
{
    match value {
        Some(v) => match parse_usize(v) {
            Some(n) => n,
            None => default,
        },
        None => default,
    }
}

/// The text of an environment variable, or `default` where the variable is not set.
pub fn env_text(value: Option<&str>, default: &str) -> (r: String)
    ensures
        r@ == text_or(value, default@),
{
    match value {
        Some(v) => v.to_owned(),
        None => default.to_owned(),
    }
}

/// The settings of the hash-shuffle read benchmark.
#[derive(Debug)]
pub struct LocalReadSettings {
    pub num_files: usize,
    pub batches_per_file: usize,
    pub iterations: usize,
    pub worker_threads: usize,
    pub readers: String,
}

impl LocalReadSettings {
    /// The settings that `BENCH_FILES`, `BENCH_BATCHES`, `BENCH_ITERS`, `BENCH_THREADS` and
    /// `BENCH_LOCAL_READERS` give.
    pub fn from_vars(
        files: Option<&str>,
        batches: Option<&str>,
        iters: Option<&str>,
        threads: Option<&str>,
        local_readers: Option<&str>,
    ) -> (r: LocalReadSettings)
        ensures
            r.num_files == number_or(files, 32),
            r.batches_per_file == number_or(batches, 16),
            r.iterations == number_or(iters, 5),
            r.worker_threads == number_or(threads, 4),
            r.readers@ == text_or(local_readers, "4"@),
    {
        LocalReadSettings {
            num_files: env_usize(files, 32),
            batches_per_file: env_usize(batches, 16),
            iterations: env_usize(iters, 5),
            worker_threads: env_usize(threads, 4),
            readers: env_text(local_readers, "4"),
        }
    }
}

/// The settings of the sort-shuffle read benchmark.
#[derive(Debug)]
pub struct SortReadSettings {
    pub map_tasks: usize,
    pub batches_per_map: usize,
    pub num_partitions: usize,
    pub iterations: usize,
    pub readers: String,
}

impl SortReadSettings {
    /// The settings that `BENCH_MAPS`, `BENCH_BATCHES`, `BENCH_PARTITIONS`, `BENCH_ITERS` and
    /// `BENCH_LOCAL_READERS` give.
    pub fn from_vars(
        maps: Option<&str>,
        batches: Option<&str>,
        partitions: Option<&str>,
        iters: Option<&str>,
        local_readers: Option<&str>,
    ) -> (r: SortReadSettings)
        ensures
            r.map_tasks == number_or(maps, 8),
            r.batches_per_map == number_or(batches, 16),
            r.num_partitions == number_or(partitions, 16),
            r.iterations == number_or(iters, 5),
            r.readers@ == text_or(local_readers, "4"@),
    {
        SortReadSettings {
            map_tasks: env_usize(maps, 8),
            batches_per_map: env_usize(batches, 16),
            num_partitions: env_usize(partitions, 16),
            iterations: env_usize(iters, 5),
            readers: env_text(local_readers, "4"),
        }
    }
}

/// The settings of the sort-shuffle write benchmark.
#[derive(Clone, Copy, Debug, PartialEq, Eq, Structural)]
pub struct SortWriteSettings {
    pub num_cols: usize,
    pub num_batches: usize,
    pub num_partitions: usize,
    pub iterations: usize,
}

impl SortWriteSettings {
    /// The settings that `BENCH_COLS`, `BENCH_BATCHES`, `BENCH_PARTITIONS` and `BENCH_ITERS` give.
    pub fn from_vars(
        cols: Option<&str>,
        batches: Option<&str>,
        partitions: Option<&str>,
        iters: Option<&str>,
    ) -> (r: SortWriteSettings)
        ensures
            r.num_cols == number_or(cols, 100),
            r.num_batches == number_or(batches, 40),
            r.num_partitions == number_or(partitions, 200),
            r.iterations == number_or(iters, 5),
    {
        SortWriteSettings {
            num_cols: env_usize(cols, 100),
            num_batches: env_usize(batches, 40),
            num_partitions: env_usize(partitions, 200),
            iterations: env_usize(iters, 5),
        }
    }
}

/// The settings of the partial aggregation benchmark.
#[derive(Clone, Copy, Debug, PartialEq, Eq, Structural)]
pub struct AggregateSettings {
    pub num_rows: usize,
    pub num_partitions: usize,
}

impl AggregateSettings {
    /// The settings that `BENCH_ROWS` and `BENCH_PARTITIONS` give.
    pub fn from_vars(rows: Option<&str>, partitions: Option<&str>) -> (r: AggregateSettings)
        ensures
            r.num_rows == number_or(rows, 4_000_000),
            r.num_partitions == number_or(partitions, 16),
    {
        AggregateSettings {
            num_rows: env_usize(rows, 4_000_000),
            num_partitions: env_usize(partitions, 16),
        }
    }
}

/// The settings of the block transport benchmark.
#[derive(Clone, Copy, Debug, PartialEq, Eq, Structural)]
pub struct BlockStreamSettings {
    pub chunk_size: usize,
    pub num_batches: usize,
    pub iterations: usize,
}

impl BlockStreamSettings {
    /// The settings that `BENCH_CHUNK`, `BENCH_BATCHES` and `BENCH_ITERS` give.
    pub fn from_vars(chunk: Option<&str>, batches: Option<&str>, iters: Option<&str>) -> (r:
        BlockStreamSettings)
        ensures
            r.chunk_size == number_or(chunk, 65_536),
            r.num_batches == number_or(batches, 64),
            r.iterations == number_or(iters, 5),
    {
        BlockStreamSettings {
            chunk_size: env_usize(chunk, 64 * 1024),
            num_batches: env_usize(batches, 64),
            iterations: env_usize(iters, 5),
        }
    }
}

/// A variable that is not set leaves the default.
pub proof fn law_unset_variables_leave_the_default(default: usize, text: Seq<char>)
    ensures
        number_or(None, default) == default,
        text_or(None, text) == text,
{
}

/// A variable that is set is the text that is set, as it is.
pub proof fn law_text_is_set_as_it_is(value: &str, default: Seq<char>)
    ensures
        text_or(Some(value), default) == value@,
{
}

/// A variable sets the number whose numeral it holds, zeros and a plus sign before it allowed, and
/// leaves the default otherwise.
pub proof fn law_numbers_are_set_or_left(value: &str, default: usize)
    ensures
        forall|n: usize, leading: nat|
            value@ == #[trigger] (zeros(leading) + decimal(n as nat)) || value@ == seq!['+']
                + zeros(leading) + decimal(n as nat) ==> number_or(Some(value), default) == n,
        (forall|n: usize, leading: nat|
            value@ != #[trigger] (zeros(leading) + decimal(n as nat)) && value@ != seq!['+']
                + zeros(leading) + decimal(n as nat)) ==> number_or(Some(value), default)
            == default,
{
    assert forall|n: usize, leading: nat|
        value@ == #[trigger] (zeros(leading) + decimal(n as nat)) || value@ == seq!['+'] + zeros(
            leading,
        ) + decimal(n as nat) implies number_or(Some(value), default) == n by {
        law_numerals_are_read(n, leading);
    }
    if let Some(n) = parsed_usize(value@) {
        law_only_numerals_are_read(value@, n);
        let leading = choose|leading: nat|
            value@ == #[trigger] zeros(leading) + decimal(n as nat) || value@ == seq!['+'] + zeros(
                leading,
            ) + decimal(n as nat);
        let numeral = zeros(leading) + decimal(n as nat);
        assert(value@ == numeral || value@ == seq!['+'] + zeros(leading) + decimal(n as nat));
    }
}

/// A number written as this library writes numbers is the number that is set.
pub proof fn law_written_number_is_set(value: &str, n: usize, default: usize)
    requires
        value@ == decimal(n as nat),
    ensures
        number_or(Some(value), default) == n,
{
    law_numeral_round_trip(n);
}

} // verus!
