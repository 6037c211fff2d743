//! The lines that the benchmarks print.
use vstd::prelude::*;
use crate::elapsed::Elapsed;
use crate::elapsed::law_parts_make_up_the_time;
use crate::text::align_left;
use crate::text::align_right;
use crate::text::decimal;
use crate::text::lemma_decimal_is_digits;
use crate::text::push_decimal;
use crate::text::push_decimal_right;
use crate::text::push_left;
use crate::text::push_right;

verus! {

/// What `<std::time::Duration as std::fmt::Debug>::fmt` writes for a time of `secs` seconds and
/// `nanos` nanoseconds, with as many digits behind the point as `precision` says, or as many as
/// the time has where it says nothing.
pub uninterp spec fn duration_debug(secs: u64, nanos: u32, precision: Option<nat>) -> Seq<char>;

/// Calls `<std::time::Duration as std::fmt::Debug>::fmt` without a precision. Claimed is only that
/// the text is a function of the time.
#[verifier::external_body]
fn debug_duration(secs: u64, nanos: u32) -> (r: String)
    requires
        nanos < 1_000_000_000,
    ensures
        r@ == duration_debug(secs, nanos, None),
{
    format!("{:?}", std::time::Duration::new(secs, nanos))
}

/// Calls `<std::time::Duration as std::fmt::Debug>::fmt` with a precision, which is the number of
/// digits behind the point. Claimed is only that the text is a function of the time and the
/// precision.
#[verifier::external_body]
fn debug_duration_precise(secs: u64, nanos: u32, precision: usize) -> (r: String)
    requires
        nanos < 1_000_000_000,
        precision <= 9,
    ensures
        r@ == duration_debug(secs, nanos, Some(precision as nat)),
{
    format!("{:.*?}", precision, std::time::Duration::new(secs, nanos))
}

/// A measured time as text.
pub fn elapsed_text(elapsed: Elapsed) -> (r: String)
    requires
        elapsed.wf(),
    ensures
        r@ == duration_debug(elapsed.secs, elapsed.nanos, None),
{
    debug_duration(elapsed.secs, elapsed.nanos)
}

/// What `units` is divided by for the time of each unit: its lowest 32 bits.
pub open spec fn divisor(units: usize) -> nat {
    units as nat % 0x1_0000_0000
}

/// The time that each of `units` units took of the time of all.
pub open spec fn time_of_each(elapsed: Elapsed, units: usize) -> Elapsed {
    Elapsed::of_nanos(elapsed.total() / divisor(units))
}

/// The line of a report.
pub open spec fn report_text(
    name: Seq<char>,
    units: usize,
    elapsed: Seq<char>,
    each: Seq<char>,
) -> Seq<char> {
    align_left(name, 40) + " "@ + align_right(decimal(units as nat), 7) + " x in "@ + align_right(
        elapsed,
        10,
    ) + " ("@ + align_right(each, 8) + " each)"@
}

/// The line that says how long `units` of the work called `name` took, altogether and each.
pub fn report_line(name: &str, units: usize, elapsed: &str, each: &str) -> (r: String)
    ensures
        r@ == report_text(name@, units, elapsed@, each@),
        r@ == align_left(name@, 40) + " "@ + align_right(decimal(units as nat), 7) + " x in "@
            + align_right(elapsed@, 10) + " ("@ + align_right(each@, 8) + " each)"@,
{
    let mut out = String::new();
    push_left(&mut out, name, 40);
    assert(out@ =~= align_left(name@, 40));
    out.append(" ");
    push_decimal_right(&mut out, units as u64, 7);
    out.append(" x in ");
    push_right(&mut out, elapsed, 10);
    out.append(" (");
    push_right(&mut out, each, 8);
    out.append(" each)");
    out
}

/// The line that says how long `units` of the work called `name` took, altogether and each.
pub fn report(name: &str, units: usize, elapsed: Elapsed) -> (r: String)
    requires
        elapsed.wf(),
        divisor(units) != 0,
    ensures
        ({
            let each = time_of_each(elapsed, units);
            r@ == report_text(
                name@,
                units,
                duration_debug(elapsed.secs, elapsed.nanos, Some(3)),
                duration_debug(each.secs, each.nanos, Some(1)),
            )
        }),
        1 <= units <= u32::MAX ==> exists|each: Elapsed|
            each.wf() && units * each.total() <= elapsed.total() && elapsed.total() < units * (
            each.total() + 1) && r@ == #[trigger] report_text(
                name@,
                units,
                duration_debug(elapsed.secs, elapsed.nanos, Some(3)),
                duration_debug(each.secs, each.nanos, Some(1)),
            ),
{
    proof {
        if 1 <= units <= u32::MAX {
            law_each_unit_has_its_share(elapsed, units);
        }
    }
    let each = elapsed.divided((units as u64 % 0x1_0000_0000) as u32);
    let elapsed_text = debug_duration_precise(elapsed.secs, elapsed.nanos, 3);
    let each_text = debug_duration_precise(each.secs, each.nanos, 1);
    report_line(name, units, elapsed_text.as_str(), each_text.as_str())
}

/// The line that says how many key/value pairs a session configuration has.
pub fn session_line(pairs: usize) -> (r: String)
    ensures
        r@ == "session config has "@ + decimal(pairs as nat) + " key value pairs"@,
{
    let mut out = "session config has ".to_owned();
    push_decimal(&mut out, pairs as u64);
    out.append(" key value pairs");
    out
}

/// The line that describes the files of the hash-shuffle read benchmark. `in_memory` and `on_disk`
/// are in MiB.
pub fn local_read_line(
    num_files: usize,
    batches_per_file: usize,
    in_memory: &str,
    on_disk: &str,
    worker_threads: usize,
) -> (r: String)
    ensures
        r@ == "files="@ + decimal(num_files as nat) + " batches/file="@ + decimal(
            batches_per_file as nat,
        ) + " in_memory="@ + in_memory@ + " MiB on_disk="@ + on_disk@ + " MiB threads="@ + decimal(
            worker_threads as nat,
        ),
{
    let mut out = "files=".to_owned();
    push_decimal(&mut out, num_files as u64);
    out.append(" batches/file=");
    push_decimal(&mut out, batches_per_file as u64);
    out.append(" in_memory=");
    out.append(in_memory);
    out.append(" MiB on_disk=");
    out.append(on_disk);
    out.append(" MiB threads=");
    push_decimal(&mut out, worker_threads as u64);
    out
}

/// The line that says how many local readers there are at most.
pub fn readers_line(readers: &str) -> (r: String)
    ensures
        r@ == "max_local_readers="@ + readers@,
{
    let mut out = "max_local_readers=".to_owned();
    out.append(readers);
    out
}

/// The line of one iteration of the hash-shuffle read benchmark. `throughput` is in MiB/s.
pub fn local_read_iteration_line(
    iter: usize,
    elapsed: &str,
    rows: usize,
    batches: usize,
    throughput: &str,
) -> (r: String)
    ensures
        r@ == "iter "@ + decimal(iter as nat) + ": "@ + elapsed@ + " rows="@ + decimal(rows as nat)
            + " batches="@ + decimal(batches as nat) + " throughput="@ + throughput@
            + " MiB/s (decoded)"@,
{
    let mut out = "iter ".to_owned();
    push_decimal(&mut out, iter as u64);
    out.append(": ");
    out.append(elapsed);
    out.append(" rows=");
    push_decimal(&mut out, rows as u64);
    out.append(" batches=");
    push_decimal(&mut out, batches as u64);
    out.append(" throughput=");
    out.append(throughput);
    out.append(" MiB/s (decoded)");
    out
}

/// The last line of a read benchmark.
pub fn read_summary_line(median: &str, min: &str) -> (r: String)
    ensures
        r@ == "median: "@ + median@ + "  min: "@ + min@,
{
    let mut out = "median: ".to_owned();
    out.append(median);
    out.append("  min: ");
    out.append(min);
    out
}

/// The last line of a write benchmark.
pub fn write_summary_line(median: &str, min: &str) -> (r: String)
    ensures
        r@ == "median: "@ + median@ + " min: "@ + min@,
{
    let mut out = "median: ".to_owned();
    out.append(median);
    out.append(" min: ");
    out.append(min);
    out
}

/// The line that describes what the sort-shuffle read benchmark reads.
pub fn sort_read_line(
    map_tasks: usize,
    num_partitions: usize,
    target: usize,
    blocks: usize,
    readers: &str,
) -> (r: String)
    ensures
        r@ == "map_tasks="@ + decimal(map_tasks as nat) + " partitions="@ + decimal(
            num_partitions as nat,
        ) + " reduce_partition="@ + decimal(target as nat) + " blocks="@ + decimal(blocks as nat)
            + " max_local_readers="@ + readers@,
{
    let mut out = "map_tasks=".to_owned();
    push_decimal(&mut out, map_tasks as u64);
    out.append(" partitions=");
    push_decimal(&mut out, num_partitions as u64);
    out.append(" reduce_partition=");
    push_decimal(&mut out, target as u64);
    out.append(" blocks=");
    push_decimal(&mut out, blocks as u64);
    out.append(" max_local_readers=");
    out.append(readers);
    out
}

/// The line of one iteration of the sort-shuffle read benchmark. `decoded` is in MiB.
pub fn sort_read_iteration_line(iter: usize, elapsed: &str, rows: usize, decoded: &str) -> (r:
    String)
    ensures
        r@ == "iter "@ + decimal(iter as nat) + ": "@ + elapsed@ + " rows="@ + decimal(rows as nat)
            + " decoded="@ + decoded@ + " MiB"@,
{
    let mut out = "iter ".to_owned();
    push_decimal(&mut out, iter as u64);
    out.append(": ");
    out.append(elapsed);
    out.append(" rows=");
    push_decimal(&mut out, rows as u64);
    out.append(" decoded=");
    out.append(decoded);
    out.append(" MiB");
    out
}

/// The line of a measured schema. `overhead` is in MiB.
pub fn overhead_line(
    num_cols: usize,
    partitions: usize,
    stream_bytes: usize,
    overhead: &str,
    copies: usize,
) -> (r: String)
    ensures
        r@ == "cols="@ + align_right(decimal(num_cols as nat), 3) + " partitions="@ + align_right(
            decimal(partitions as nat),
            4,
        ) + "  schema stream = "@ + align_right(decimal(stream_bytes as nat), 6)
            + " B  per-file schema overhead = "@ + align_right(overhead@, 8) + " MiB ("@ + decimal(
            copies as nat,
        ) + " copies)"@,
{
    let mut out = "cols=".to_owned();
    push_decimal_right(&mut out, num_cols as u64, 3);
    out.append(" partitions=");
    push_decimal_right(&mut out, partitions as u64, 4);
    out.append("  schema stream = ");
    push_decimal_right(&mut out, stream_bytes as u64, 6);
    out.append(" B  per-file schema overhead = ");
    push_right(&mut out, overhead, 8);
    out.append(" MiB (");
    push_decimal(&mut out, copies as u64);
    out.append(" copies)");
    out
}

/// The line that describes what the sort-shuffle write benchmark writes. `in_memory` is in MiB.
pub fn sort_write_line(
    num_cols: usize,
    num_batches: usize,
    num_partitions: usize,
    in_memory: &str,
) -> (r: String)
    ensures
        r@ == "cols="@ + decimal(num_cols as nat) + " batches="@ + decimal(num_batches as nat)
            + " partitions="@ + decimal(num_partitions as nat) + " in_memory="@ + in_memory@
            + " MiB"@,
{
    let mut out = "cols=".to_owned();
    push_decimal(&mut out, num_cols as u64);
    out.append(" batches=");
    push_decimal(&mut out, num_batches as u64);
    out.append(" partitions=");
    push_decimal(&mut out, num_partitions as u64);
    out.append(" in_memory=");
    out.append(in_memory);
    out.append(" MiB");
    out
}

/// The line of one iteration of the sort-shuffle write benchmark. `throughput` is in MiB/s.
pub fn sort_write_iteration_line(
    iter: usize,
    total: &str,
    repart: &str,
    write: &str,
    throughput: &str,
) -> (r: String)
    ensures
        r@ == "iter "@ + decimal(iter as nat) + ": total="@ + total@ + " repart="@ + repart@
            + " write="@ + write@ + " throughput="@ + throughput@ + " MiB/s"@,
{
    let mut out = "iter ".to_owned();
    push_decimal(&mut out, iter as u64);
    out.append(": total=");
    out.append(total);
    out.append(" repart=");
    out.append(repart);
    out.append(" write=");
    out.append(write);
    out.append(" throughput=");
    out.append(throughput);
    out.append(" MiB/s");
    out
}

/// The names of the columns of the table of the partial aggregation benchmark.
pub open spec fn aggregate_columns_text() -> Seq<char> {
    align_left("layout"@, 8) + " "@ + align_left("ratio"@, 8) + " "@ + align_left(
        "skip_partial"@,
        14,
    ) + " "@ + align_right("shuffle bytes"@, 14) + " "@ + align_right("rows shuffled"@, 14) + " "@
        + align_right("time"@, 9)
}

/// The two lines at the head of the table of the partial aggregation benchmark.
pub fn aggregate_header(num_rows: usize, num_partitions: usize) -> (r: String)
    ensures
        r@ == "rows="@ + decimal(num_rows as nat) + " shuffle_partitions="@ + decimal(
            num_partitions as nat,
        ) + "\n"@ + aggregate_columns_text(),
{
    let mut out = "rows=".to_owned();
    push_decimal(&mut out, num_rows as u64);
    out.append(" shuffle_partitions=");
    push_decimal(&mut out, num_partitions as u64);
    out.append("\n");
    push_left(&mut out, "layout", 8);
    out.append(" ");
    push_left(&mut out, "ratio", 8);
    out.append(" ");
    push_left(&mut out, "skip_partial", 14);
    out.append(" ");
    push_right(&mut out, "shuffle bytes", 14);
    out.append(" ");
    push_right(&mut out, "rows shuffled", 14);
    out.append(" ");
    push_right(&mut out, "time", 9);
    assert(out@ =~= "rows="@ + decimal(num_rows as nat) + " shuffle_partitions="@ + decimal(
        num_partitions as nat,
    ) + "\n"@ + aggregate_columns_text());
    out
}

/// A truth value as text.
pub open spec fn truth_text(value: bool) -> Seq<char> {
    if value {
        "true"@
    } else {
        "false"@
    }
}

/// A row of the table of the partial aggregation benchmark.
pub open spec fn aggregate_row_text(
    layout: Seq<char>,
    ratio: Seq<char>,
    skip_partial: bool,
    shuffled: Seq<char>,
    rows: u64,
    time: Seq<char>,
) -> Seq<char> {
    align_left(layout, 8) + " "@ + align_left(ratio, 8) + " "@ + align_left(
        truth_text(skip_partial),
        14,
    ) + " "@ + align_right(shuffled, 10) + " MiB "@ + align_right(decimal(rows as nat), 14) + " "@
        + align_right(time, 8) + "s"@
}

/// A row of the table of the partial aggregation benchmark. `shuffled` is in MiB, `time` in
/// seconds.
pub fn aggregate_row(
    layout: &str,
    ratio: &str,
    skip_partial: bool,
    shuffled: &str,
    rows: u64,
    time: &str,
) -> (r: String)
    ensures
        r@ == aggregate_row_text(layout@, ratio@, skip_partial, shuffled@, rows, time@),
        r@ == align_left(layout@, 8) + " "@ + align_left(ratio@, 8) + " "@ + align_left(
            if skip_partial {
                "true"@
            } else {
                "false"@
            },
            14,
        ) + " "@ + align_right(shuffled@, 10) + " MiB "@ + align_right(decimal(rows as nat), 14)
            + " "@ + align_right(time@, 8) + "s"@,
{
    let mut out = String::new();
    push_left(&mut out, layout, 8);
    assert(out@ =~= align_left(layout@, 8));
    out.append(" ");
    push_left(&mut out, ratio, 8);
    out.append(" ");
    push_left(
        &mut out,
        if skip_partial {
            "true"
        } else {
            "false"
        },
        14,
    );
    out.append(" ");
    push_right(&mut out, shuffled, 10);
    out.append(" MiB ");
    push_decimal_right(&mut out, rows, 14);
    out.append(" ");
    push_right(&mut out, time, 8);
    out.append("s");
    out
}

/// The line that describes the stream of the block transport benchmark. `wire` and `decoded` are
/// in MiB, `chunk_size` is in bytes.
pub fn block_stream_line(wire: &str, decoded: &str, chunk_size: usize, num_batches: usize) -> (r:
    String)
    ensures
        r@ == "wire="@ + wire@ + " MiB decoded="@ + decoded@ + " MiB chunk="@ + decimal(
            (chunk_size / 1024) as nat,
        ) + " KiB batches="@ + decimal(num_batches as nat),
{
    let mut out = "wire=".to_owned();
    out.append(wire);
    out.append(" MiB decoded=");
    out.append(decoded);
    out.append(" MiB chunk=");
    push_decimal(&mut out, (chunk_size / 1024) as u64);
    out.append(" KiB batches=");
    push_decimal(&mut out, num_batches as u64);
    out
}

/// The line of one iteration of the block transport benchmark. `decode` is in MiB/s.
pub fn block_stream_iteration_line(iter: usize, elapsed: &str, rows: usize, decode: &str) -> (r:
    String)
    ensures
        r@ == "iter "@ + decimal(iter as nat) + ": "@ + elapsed@ + " rows="@ + decimal(rows as nat)
            + " decode="@ + decode@ + " MiB/s (wire)"@,
{
    let mut out = "iter ".to_owned();
    push_decimal(&mut out, iter as u64);
    out.append(": ");
    out.append(elapsed);
    out.append(" rows=");
    push_decimal(&mut out, rows as u64);
    out.append(" decode=");
    out.append(decode);
    out.append(" MiB/s (wire)");
    out
}

/// Reports line up one below the other: each part of a report has its own columns, and the words
/// between them stand in the same columns in every report, as long as what it says fits.
pub proof fn law_reports_line_up(
    name: Seq<char>,
    units: usize,
    elapsed: Seq<char>,
    each: Seq<char>,
)
    requires
        name.len() <= 40,
        units <= 9_999_999,
        elapsed.len() <= 10,
        each.len() <= 8,
    ensures
        ({
            let line = report_text(name, units, elapsed, each);
            &&& line.len() == 80
            &&& line.subrange(0, 40) == align_left(name, 40)
            &&& line.subrange(40, 41) == " "@
            &&& line.subrange(41, 48) == align_right(decimal(units as nat), 7)
            &&& line.subrange(48, 54) == " x in "@
            &&& line.subrange(54, 64) == align_right(elapsed, 10)
            &&& line.subrange(64, 66) == " ("@
            &&& line.subrange(66, 74) == align_right(each, 8)
            &&& line.subrange(74, 80) == " each)"@
        }),
{
    reveal_strlit(" ");
    reveal_strlit(" x in ");
    reveal_strlit(" (");
    reveal_strlit(" each)");
    assert(decimal(units as nat).len() <= 7) by {
        reveal_with_fuel(decimal, 7);
    }
    let line = report_text(name, units, elapsed, each);
    assert(line.subrange(0, 40) =~= align_left(name, 40));
    assert(line.subrange(40, 41) =~= " "@);
    assert(line.subrange(41, 48) =~= align_right(decimal(units as nat), 7));
    assert(line.subrange(48, 54) =~= " x in "@);
    assert(line.subrange(54, 64) =~= align_right(elapsed, 10));
    assert(line.subrange(64, 66) =~= " ("@);
    assert(line.subrange(66, 74) =~= align_right(each, 8));
    assert(line.subrange(74, 80) =~= " each)"@);
}

/// A report is one line: where neither the name nor a time breaks the line, the only line break of
/// a printed report is the one at its end.
pub proof fn law_report_is_one_line(
    name: Seq<char>,
    units: usize,
    elapsed: Seq<char>,
    each: Seq<char>,
)
    requires
        !name.contains('\n'),
        !elapsed.contains('\n'),
        !each.contains('\n'),
    ensures
        ({
            let line = report_text(name, units, elapsed, each);
            forall|i: int|
                0 <= i <= line.len() ==> (#[trigger] line.push('\n')[i] == '\n' <==> i
                    == line.len())
        }),
{
    reveal_strlit(" ");
    reveal_strlit(" x in ");
    reveal_strlit(" (");
    reveal_strlit(" each)");
    lemma_decimal_is_digits(units as nat);
    let numeral = decimal(units as nat);
    assert(forall|i: int| 0 <= i < numeral.len() ==> #[trigger] numeral[i] != '\n');
    assert(forall|i: int| 0 <= i < name.len() ==> #[trigger] name[i] != '\n');
    assert(forall|i: int| 0 <= i < elapsed.len() ==> #[trigger] elapsed[i] != '\n');
    assert(forall|i: int| 0 <= i < each.len() ==> #[trigger] each[i] != '\n');
    let line = report_text(name, units, elapsed, each);
    assert(forall|i: int| 0 <= i < line.len() ==> #[trigger] line[i] != '\n');
}

/// The rows of the table of the partial aggregation benchmark have the columns of its head, as
/// long as what they say fits. The columns are 8, 8, 14, 14, 14 and 9 characters wide, with a
/// space between two of them.
pub proof fn law_aggregate_rows_line_up(
    layout: Seq<char>,
    ratio: Seq<char>,
    skip_partial: bool,
    shuffled: Seq<char>,
    rows: u64,
    time: Seq<char>,
)
    requires
        layout.len() <= 8,
        ratio.len() <= 8,
        shuffled.len() <= 10,
        decimal(rows as nat).len() <= 14,
        time.len() <= 8,
    ensures
        ({
            let head = aggregate_columns_text();
            &&& head.len() == 72
            &&& head.subrange(0, 8) == align_left("layout"@, 8)
            &&& head.subrange(9, 17) == align_left("ratio"@, 8)
            &&& head.subrange(18, 32) == align_left("skip_partial"@, 14)
            &&& head.subrange(33, 47) == align_right("shuffle bytes"@, 14)
            &&& head.subrange(48, 62) == align_right("rows shuffled"@, 14)
            &&& head.subrange(63, 72) == align_right("time"@, 9)
            &&& head[8] == head[17] == head[32] == head[47] == head[62] == ' '
        }),
        ({
            let row = aggregate_row_text(layout, ratio, skip_partial, shuffled, rows, time);
            &&& row.len() == 72
            &&& row.subrange(0, 8) == align_left(layout, 8)
            &&& row.subrange(9, 17) == align_left(ratio, 8)
            &&& row.subrange(18, 32) == align_left(
                if skip_partial {
                    "true"@
                } else {
                    "false"@
                },
                14,
            )
            &&& row.subrange(33, 47) == align_right(shuffled, 10) + " MiB"@
            &&& row.subrange(48, 62) == align_right(decimal(rows as nat), 14)
            &&& row.subrange(63, 72) == align_right(time, 8) + "s"@
            &&& row[8] == row[17] == row[32] == row[47] == row[62] == ' '
        }),
{
    reveal_strlit(" ");
    reveal_strlit(" MiB ");
    reveal_strlit(" MiB");
    reveal_strlit("s");
    reveal_strlit("true");
    reveal_strlit("false");
    reveal_strlit("layout");
    reveal_strlit("ratio");
    reveal_strlit("skip_partial");
    reveal_strlit("shuffle bytes");
    reveal_strlit("rows shuffled");
    reveal_strlit("time");
    let head = aggregate_columns_text();
    assert(head.subrange(0, 8) =~= align_left("layout"@, 8));
    assert(head.subrange(9, 17) =~= align_left("ratio"@, 8));
    assert(head.subrange(18, 32) =~= align_left("skip_partial"@, 14));
    assert(head.subrange(33, 47) =~= align_right("shuffle bytes"@, 14));
    assert(head.subrange(48, 62) =~= align_right("rows shuffled"@, 14));
    assert(head.subrange(63, 72) =~= align_right("time"@, 9));
    let row = aggregate_row_text(layout, ratio, skip_partial, shuffled, rows, time);
    assert(row.subrange(0, 8) =~= align_left(layout, 8));
    assert(row.subrange(9, 17) =~= align_left(ratio, 8));
    assert(row.subrange(18, 32) =~= align_left(truth_text(skip_partial), 14));
    assert(row.subrange(33, 47) =~= align_right(shuffled, 10) + " MiB"@);
    assert(row.subrange(48, 62) =~= align_right(decimal(rows as nat), 14));
    assert(row.subrange(63, 72) =~= align_right(time, 8) + "s"@);
}

/// The time of each unit is the time of all divided by the number of units, without the fraction
/// of a nanosecond: as many times as there are units it is no more than the time of all, and a
/// nanosecond more for each unit is more than that.
pub proof fn law_each_unit_has_its_share(elapsed: Elapsed, units: usize)
    requires
        elapsed.wf(),
        1 <= units <= u32::MAX,
    ensures
        time_of_each(elapsed, units).wf(),
        units * time_of_each(elapsed, units).total() <= elapsed.total(),
        elapsed.total() < units * (time_of_each(elapsed, units).total() + 1),
{
    law_parts_make_up_the_time(elapsed, units as u32);
}

/// Of a number of units beyond 32 bits only the lowest 32 bits divide: multiples of 2 to the power
/// of 32 on top make no difference.
pub proof fn law_units_divide_in_32_bits(elapsed: Elapsed, units: usize, beyond: nat, low: u32)
    requires
        elapsed.wf(),
        units == beyond * 0x1_0000_0000 + low,
        low > 0,
    ensures
        low * time_of_each(elapsed, units).total() <= elapsed.total(),
        elapsed.total() < low * (time_of_each(elapsed, units).total() + 1),
{
    law_parts_make_up_the_time(elapsed, low);
}

/// A report has its parts one behind the other, however long they are: nothing is cut off.
pub proof fn law_report_has_its_parts(
    name: Seq<char>,
    units: usize,
    elapsed: Seq<char>,
    each: Seq<char>,
)
    ensures
        ({
            let line = report_text(name, units, elapsed, each);
            let numeral = decimal(units as nat);
            let units_end: int = 1 + if name.len() < 40 {
                40
            } else {
                name.len() as int
            } + if numeral.len() < 7 {
                7
            } else {
                numeral.len() as int
            };
            let elapsed_end: int = units_end + 6 + if elapsed.len() < 10 {
                10
            } else {
                elapsed.len() as int
            };
            let each_end: int = elapsed_end + 2 + if each.len() < 8 {
                8
            } else {
                each.len() as int
            };
            &&& line.len() == each_end + 6
            &&& line.subrange(0, name.len() as int) == name
            &&& line.subrange(units_end - numeral.len(), units_end) == numeral
            &&& line.subrange(units_end, units_end + 6) == " x in "@
            &&& line.subrange(elapsed_end - elapsed.len(), elapsed_end) == elapsed
            &&& line.subrange(elapsed_end, elapsed_end + 2) == " ("@
            &&& line.subrange(each_end - each.len(), each_end) == each
            &&& line.subrange(each_end, each_end + 6) == " each)"@
        }),
{
    reveal_strlit(" ");
    reveal_strlit(" x in ");
    reveal_strlit(" (");
    reveal_strlit(" each)");
}

} // verus!
