# ballista_bench

The logic of benchmarks for the scheduler and the shuffle of a distributed query engine, verified
with Verus.

- `src/` is the library. It generates the benchmark data (`read_data`, `write_data`, `aggregate`),
  decides what a benchmark does next (`scheduler`, `chunks`, `plan`, `shuffle`), counts and sums up
  (`stream`, `metrics`, `totals`, `disk`, `elapsed`, `overhead`), reads settings (`settings`) and
  lays out the lines that are printed (`report`, `text`). `arrow` holds the calls into Arrow.
- `app/` runs the benchmarks: it reads the environment, builds floating-point columns, drives an
  engine that implements `ShuffleEngine` or `ExecutionGraph`, measures time and prints.
- `tests/` runs the library on concrete values.

Proof functions whose names begin with `law_` state what holds of the library as a whole.

Settings are taken from the environment: `BENCH_FILES`, `BENCH_MAPS`, `BENCH_COLS`, `BENCH_ROWS`,
`BENCH_BATCHES`, `BENCH_PARTITIONS`, `BENCH_CHUNK`, `BENCH_ITERS`, `BENCH_THREADS` and
`BENCH_LOCAL_READERS`.
