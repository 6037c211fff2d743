use std::time::Duration;

use ballista_bench::elapsed::{summary, Elapsed};
use ballista_bench::report;

fn elapsed(d: Duration) -> Elapsed {
    Elapsed { secs: d.as_secs(), nanos: d.subsec_nanos() }
}

fn durations() -> Vec<Duration> {
    vec![
        Duration::ZERO,
        Duration::from_nanos(1),
        Duration::from_nanos(999),
        Duration::from_nanos(1_500),
        Duration::from_nanos(987_654_321),
        Duration::from_micros(12_345),
        Duration::from_millis(1_250),
        Duration::from_secs(86_400),
        Duration::new(u64::MAX, 999_999_999),
    ]
}

#[test]
fn reports_are_laid_out_in_columns() {
    for d in durations() {
        for units in [1usize, 3, 4_000, 12_345_678] {
            let name = "update_task_status/batch=64";
            let each = d / units as u32;
            assert_eq!(
                report::report(name, units, elapsed(d)),
                format!("{name:<40} {units:>7} x in {d:>10.3?} ({each:>8.1?} each)"),
            );
        }
    }
}

#[test]
fn report_of_the_pops_of_a_stage() {
    let line = report::report("pop_next_task", 4_000, elapsed(Duration::from_millis(20)));
    assert_eq!(
        line,
        "pop_next_task                               4000 x in   20.000ms (   5.0\u{b5}s each)"
    );
}

fn columns(line: &str, begin: usize, end: usize) -> String {
    line.chars().skip(begin).take(end - begin).collect()
}

#[test]
fn reports_line_up_one_below_the_other() {
    let longest = "n".repeat(40);
    for name in ["", "pop_next_task", "update_task_status/batch=64", longest.as_str()] {
        for units in [1usize, 10_000, 9_999_999] {
            for d in [
                Duration::ZERO,
                Duration::from_nanos(1_500),
                Duration::from_millis(999),
                Duration::from_secs(99_999),
            ] {
                let line = report::report(name, units, elapsed(d));
                assert_eq!(line.chars().count(), 80, "{line}");
                assert_eq!(columns(&line, 0, 40), format!("{name:<40}"));
                assert_eq!(columns(&line, 41, 48), format!("{units:>7}"));
                assert_eq!(columns(&line, 48, 54), " x in ");
                assert_eq!(columns(&line, 64, 66), " (");
                assert_eq!(columns(&line, 74, 80), " each)");
                assert_eq!(format!("{line}\n").find('\n'), Some(line.len()));
            }
        }
    }
}

#[test]
fn reports_that_do_not_fit_push_their_columns_on() {
    let line = report::report_line(&"n".repeat(41), 10_000_000, "elapsed", "each");
    assert_eq!(columns(&line, 41, 50), " 10000000");
    assert_eq!(columns(&line, 50, 56), " x in ");
    let line = report::report_line("two\nlines", 1, "elapsed", "each");
    assert_eq!(line.matches('\n').count(), 1);
}

#[test]
fn units_are_divided_by_in_32_bits() {
    let units = (1usize << 32) + 2;
    let line = report::report("n", units, elapsed(Duration::from_secs(10)));
    assert!(line.ends_with("(    5.0s each)"), "{line}");
}

#[test]
fn report_lines_take_any_text() {
    assert_eq!(
        report::report_line("n", 1, "e", "each"),
        format!("{:<40} {:>7} x in {:>10} ({:>8} each)", "n", 1, "e", "each"),
    );
}

#[test]
fn times_are_written_as_std_writes_them() {
    for d in durations() {
        assert_eq!(report::elapsed_text(elapsed(d)), format!("{d:?}"));
    }
}

#[test]
fn times_divide_as_in_std() {
    for d in durations() {
        for by in [1u32, 2, 3, 7, 1_000_000_007, u32::MAX] {
            assert_eq!(elapsed(d).divided(by), elapsed(d / by));
        }
    }
    for n in [0u64, 1, 999_999_999, 1_000_000_000, u64::MAX] {
        assert_eq!(Elapsed::from_nanos(n), elapsed(Duration::from_nanos(n)));
    }
}

#[test]
fn median_and_minimum_of_times() {
    let mut times = vec![
        Duration::from_nanos(5_000_000_001),
        Duration::from_nanos(3),
        Duration::from_secs(5),
        Duration::from_nanos(3),
        Duration::from_nanos(2_000_000_000),
        Duration::from_nanos(7),
    ];
    let sum_up = |times: &[Duration]| summary(&times.iter().map(|d| elapsed(*d)).collect());
    let even = sum_up(&times);
    let odd = sum_up(&times[..5]);
    let one = sum_up(&times[..1]);
    times.reverse();
    assert_eq!(sum_up(&times), even);
    times.sort();
    assert_eq!(even.median, elapsed(times[times.len() / 2]));
    assert_eq!(even.median, elapsed(Duration::from_secs(2)));
    assert_eq!(even.min, elapsed(Duration::from_nanos(3)));
    assert_eq!(odd.median, elapsed(Duration::from_secs(2)));
    assert_eq!(one.median, elapsed(Duration::from_nanos(5_000_000_001)));
    assert_eq!(one.min, one.median);
}

#[test]
fn lines_of_the_read_benchmarks() {
    assert_eq!(report::session_line(217), "session config has 217 key value pairs");
    assert_eq!(
        report::local_read_line(32, 16, "60.5", "12.0", 4),
        "files=32 batches/file=16 in_memory=60.5 MiB on_disk=12.0 MiB threads=4"
    );
    assert_eq!(report::readers_line("4"), "max_local_readers=4");
    assert_eq!(
        report::local_read_iteration_line(0, "1.5ms", 8_192, 1, "10.0"),
        "iter 0: 1.5ms rows=8192 batches=1 throughput=10.0 MiB/s (decoded)"
    );
    assert_eq!(report::read_summary_line("2ms", "1ms"), "median: 2ms  min: 1ms");
    assert_eq!(
        report::sort_read_line(8, 16, 3, 7, "4"),
        "map_tasks=8 partitions=16 reduce_partition=3 blocks=7 max_local_readers=4"
    );
    assert_eq!(
        report::sort_read_iteration_line(2, "1ms", 10, "0.1"),
        "iter 2: 1ms rows=10 decoded=0.1 MiB"
    );
}

#[test]
fn lines_of_the_write_benchmarks() {
    let overhead = format!("{:.2}", (1_352 * 65) as f64 / 1024.0 / 1024.0);
    assert_eq!(
        report::overhead_line(10, 64, 1_352, &overhead, 65),
        format!(
            "cols={:>3} partitions={:>4}  schema stream = {:>6} B  \
             per-file schema overhead = {:>8.2} MiB ({} copies)",
            10, 64, 1_352, (1_352 * 65) as f64 / 1024.0 / 1024.0, 65
        ),
    );
    assert_eq!(
        report::sort_write_line(100, 40, 200, "3.0"),
        "cols=100 batches=40 partitions=200 in_memory=3.0 MiB"
    );
    assert_eq!(
        report::sort_write_iteration_line(1, "9ms", "4ms", "5ms", "7.5"),
        "iter 1: total=9ms repart=4ms write=5ms throughput=7.5 MiB/s"
    );
    assert_eq!(report::write_summary_line("2ms", "1ms"), "median: 2ms min: 1ms");
    assert_eq!(
        report::block_stream_line("1.0", "2.0", 65_536, 64),
        "wire=1.0 MiB decoded=2.0 MiB chunk=64 KiB batches=64"
    );
    assert_eq!(
        report::block_stream_iteration_line(0, "1ms", 5, "8.0"),
        "iter 0: 1ms rows=5 decode=8.0 MiB/s (wire)"
    );
}

#[test]
fn table_of_the_partial_aggregation() {
    assert_eq!(
        report::aggregate_header(4_000_000, 16),
        format!(
            "rows=4000000 shuffle_partitions=16\n{:<8} {:<8} {:<14} {:>14} {:>14} {:>9}",
            "layout", "ratio", "skip_partial", "shuffle bytes", "rows shuffled", "time"
        ),
    );
    for skip in [true, false] {
        assert_eq!(
            report::aggregate_row("hashed", "0.05", skip, "12.3", 200_000, "0.25"),
            format!(
                "{:<8} {:<8} {:<14} {:>10.1} MiB {:>14} {:>8.2}s",
                "hashed", 0.05, skip, 12.3, 200_000, 0.25
            ),
        );
    }
}

#[test]
fn rows_of_the_partial_aggregation_stand_below_their_heads() {
    let header = report::aggregate_header(4_000_000, 16);
    let head = header.lines().nth(1).unwrap();
    let row = report::aggregate_row("cyclic", "0.01", false, "1234567.8", 40_000, "12345.67");
    assert_eq!((head.len(), row.len()), (72, 72));
    for column in [8, 17, 32, 47, 62] {
        assert_eq!(columns(head, column, column + 1), " ");
        assert_eq!(columns(&row, column, column + 1), " ");
    }
    assert_eq!(columns(head, 33, 47), " shuffle bytes");
    assert_eq!(columns(&row, 33, 47), " 1234567.8 MiB");
    assert_eq!(columns(head, 48, 62), " rows shuffled");
    assert_eq!(columns(&row, 48, 62), "         40000");
    assert_eq!(columns(head, 63, 72), "     time");
    assert_eq!(columns(&row, 63, 72), "12345.67s");
}
