//! How many bytes of a sort-shuffle data file are schema metadata.
use vstd::prelude::*;
use vstd::utf8::encode_utf8;
use crate::arrow::Compression;
use crate::arrow::fits_message;
use crate::arrow::message_bounds;
use crate::arrow::schema_message_bytes;
use crate::arrow::schema_stream;
use crate::text::decimal;
use crate::text::lemma_decimal_is_short;
use crate::totals::sum;
use crate::write_data::wide_field;
use crate::write_data::wide_model;
use crate::write_data::wide_schema;

verus! {

/// The schema streams in a file of `partitions` non-empty output partitions: the leading header,
/// and one for each partition.
pub open spec fn copies(partitions: nat) -> nat {
    partitions + 1
}

/// The schema metadata of a data file.
#[derive(Clone, Copy, Debug, PartialEq, Eq, Structural)]
pub struct Overhead {
    pub copies: usize,
    pub bytes: usize,
}

/// The schema metadata of a data file of `partitions` non-empty output partitions whose schema
/// stream takes `stream_bytes` bytes.
pub fn schema_overhead(stream_bytes: usize, partitions: usize) -> (r: Overhead)
    requires
        copies(partitions as nat) <= usize::MAX,
        stream_bytes * copies(partitions as nat) <= usize::MAX,
    ensures
        r.copies == copies(partitions as nat),
        r.bytes == stream_bytes * copies(partitions as nat),
{
    Overhead { copies: partitions + 1, bytes: stream_bytes * (partitions + 1) }
}

/// A measured schema: its columns, the output partitions of the file, and the bytes that a stream
/// of the schema takes.
#[derive(Clone, Copy, Debug, PartialEq, Eq, Structural)]
pub struct OverheadRow {
    pub num_cols: usize,
    pub partitions: usize,
    pub stream_bytes: usize,
}

/// The numbers of columns that are measured.
pub open spec fn measured_columns() -> Seq<usize> {
    seq![10usize, 50usize, 100usize, 300usize]
}

/// The numbers of output partitions that are measured for each of them.
pub open spec fn measured_partitions() -> Seq<usize> {
    seq![64usize, 200usize, 1000usize]
}

/// Measurement `i`: for each number of columns all numbers of partitions, in their order.
pub open spec fn measured(i: int) -> (usize, usize) {
    (measured_columns()[i / 3], measured_partitions()[i % 3])
}

proof fn lemma_bound_sum(numbers: Seq<nat>, bound: nat)
    requires
        forall|i: int| 0 <= i < numbers.len() ==> #[trigger] numbers[i] <= bound,
    ensures
        sum(numbers) <= numbers.len() * bound,
    decreases numbers.len(),
{
    if numbers.len() > 0 {
        lemma_bound_sum(numbers.drop_last(), bound);
        assert(numbers.len() * bound == (numbers.len() - 1) * bound + bound) by (nonlinear_arith)
            requires
                numbers.len() > 0,
        ;
    }
}

proof fn lemma_utf8_length(chars: Seq<char>)
    ensures
        encode_utf8(chars).len() <= 4 * chars.len(),
    decreases chars.len(),
{
    if chars.len() > 0 {
        lemma_utf8_length(chars.drop_first());
    }
}

proof fn lemma_wide_schema_fits(num_cols: nat)
    requires
        num_cols <= 10_000,
    ensures
        fits_message(wide_model(num_cols)),
{
    let bounds = message_bounds(wide_model(num_cols));
    reveal_strlit("column_name_");
    assert forall|i: int| 0 <= i < bounds.len() implies #[trigger] bounds[i] <= 50_000 by {
        lemma_decimal_is_short(i as nat);
        assert(wide_field(i).name == "column_name_"@ + decimal(i as nat));
        lemma_utf8_length(wide_field(i).name);
    }
    lemma_bound_sum(bounds, 50_000);
}

/// The bytes that a schema stream takes for each of the measured numbers of columns, next to each
/// of the measured numbers of output partitions.
pub fn measure_schema_overhead() -> (r: Vec<OverheadRow>)
    ensures
        r@.len() == 12,
        forall|i: int|
            #![trigger r@[i]]
            0 <= i < 12 ==> {
                &&& (r@[i].num_cols, r@[i].partitions) == measured(i)
                &&& r@[i].stream_bytes == schema_stream(
                    wide_model(r@[i].num_cols as nat),
                    Some(Compression::Lz4Frame),
                ).len()
            },
{
    let columns: Vec<usize> = vec![10usize, 50usize, 100usize, 300usize];
    let partitions: Vec<usize> = vec![64usize, 200usize, 1000usize];
    assert(columns@ =~= measured_columns());
    assert(partitions@ =~= measured_partitions());
    let mut rows: Vec<OverheadRow> = Vec::new();
    let mut c: usize = 0;
    while c < 4
        invariant
            c <= 4,
            columns@ == measured_columns(),
            partitions@ == measured_partitions(),
            rows@.len() == 3 * c,
            forall|i: int|
                #![trigger rows@[i]]
                0 <= i < rows@.len() ==> {
                    &&& (rows@[i].num_cols, rows@[i].partitions) == measured(i)
                    &&& rows@[i].stream_bytes == schema_stream(
                        wide_model(rows@[i].num_cols as nat),
                        Some(Compression::Lz4Frame),
                    ).len()
                },
        decreases 4 - c,
    {
        let num_cols: usize = columns[c];
        proof {
            lemma_wide_schema_fits(num_cols as nat);
        }
        let schema = wide_schema(num_cols);
        let stream_bytes: usize = schema_message_bytes(&schema, Some(Compression::Lz4Frame));
        let mut p: usize = 0;
        while p < 3
            invariant
                c < 4,
                p <= 3,
                columns@ == measured_columns(),
                partitions@ == measured_partitions(),
                num_cols == columns@[c as int],
                stream_bytes == schema_stream(
                    wide_model(num_cols as nat),
                    Some(Compression::Lz4Frame),
                ).len(),
                rows@.len() == 3 * c + p,
                forall|i: int|
                    #![trigger rows@[i]]
                    0 <= i < rows@.len() ==> {
                        &&& (rows@[i].num_cols, rows@[i].partitions) == measured(i)
                        &&& rows@[i].stream_bytes == schema_stream(
                            wide_model(rows@[i].num_cols as nat),
                            Some(Compression::Lz4Frame),
                        ).len()
                    },
            decreases 3 - p,
        {
            rows.push(OverheadRow { num_cols, partitions: partitions[p], stream_bytes });
            p += 1;
        }
        c += 1;
    }
    rows
}

/// A file without output partitions has the bytes of one schema stream, and one of one output
/// partition more has the bytes of one schema stream more.
pub proof fn law_overhead_per_partition(stream_bytes: nat, partitions: nat)
    ensures
        copies(0) == 1,
        copies(partitions + 1) == copies(partitions) + 1,
        stream_bytes * copies(partitions + 1) == stream_bytes * copies(partitions) + stream_bytes,
{
    assert(stream_bytes * (partitions + 2) == stream_bytes * (partitions + 1) + stream_bytes)
        by (nonlinear_arith);
}

/// All of the numbers of columns come with all of the numbers of output partitions.
pub proof fn law_all_pairs_are_measured(columns: int, partitions: int)
    requires
        0 <= columns < 4,
        0 <= partitions < 3,
    ensures
        measured(3 * columns + partitions) == (
            seq![10usize, 50usize, 100usize, 300usize][columns],
            seq![64usize, 200usize, 1000usize][partitions],
        ),
{
    assert((3 * columns + partitions) / 3 == columns);
    assert((3 * columns + partitions) % 3 == partitions);
}

} // verus!
