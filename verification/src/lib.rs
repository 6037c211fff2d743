//! The logic of the scheduler and shuffle benchmarks of a distributed query engine: the data that
//! they generate, the decisions that they take between two calls of the engine, what they count,
//! and the lines that they print.

pub mod aggregate;
pub mod arrow;
pub mod chunks;
pub mod columns;
pub mod disk;
pub mod elapsed;
pub mod metrics;
pub mod overhead;
pub mod plan;
pub mod read_data;
pub mod report;
pub mod scheduler;
pub mod settings;
pub mod shuffle;
pub mod stream;
pub mod text;
pub mod totals;
pub mod write_data;
