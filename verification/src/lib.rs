//! A benchmarking harness: a pausable stopwatch, an executor that repeats a
//! workload over a list of workload points, the statistics of the measured
//! samples, and the comparison of two runs of a suite against a threshold.
//!
//! Every executable function of this crate carries a contract that Verus
//! proves. The few places where the clock of the standard library or chrono
//! is called are small wrappers whose contracts are stated, not proved; the
//! documentation of each begins with the word "Trusted". The wall clock is
//! not read: the date of a summary is handed in.
//!
//! Times are whole nanoseconds, and all arithmetic is exact: the statistics
//! are rounded down to whole nanoseconds, and a change between two medians is
//! set against the threshold as a fraction, without rounding.
//!
//! * [`stopwatch`] - the stopwatch
//! * [`clock`] - the clock text `HH:MM:SS.mmm` of a duration
//! * [`statistics`] - least, greatest and median sample, standard deviation
//! * [`run_summary`], [`series_summary`], [`summary`] - the results of a
//!   workload point, of a benchmark and of a suite
//! * [`benchmark`], [`benchmarks`] - a benchmark and a suite of benchmarks
//! * [`threshold`], [`benchmark_comparison`], [`analysis`],
//!   [`analysis_result`] - the comparison of two runs
//! * [`wide`] - whole numbers of up to 256 bits
//! * [`name_map`] - maps and sets keyed by names
//! * [`disk_usage`] - the size of data as people read it
//! * [`error`] - the errors

pub mod analysis;
pub mod analysis_result;
pub mod benchmark;
pub mod benchmark_comparison;
pub mod benchmarks;
pub mod clock;
pub mod disk_usage;
pub mod error;
pub mod name_map;
pub mod run_summary;
pub mod series_summary;
pub mod statistics;
pub mod stopwatch;
pub mod summary;
pub mod threshold;
pub mod wide;
