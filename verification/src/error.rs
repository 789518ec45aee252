//! The errors of the suite.

use vstd::prelude::*;

verus! {

/// Why a benchmark was not registered.
#[derive(Clone, Copy, Debug, PartialEq, Eq, Structural)]
pub enum ConfigError {
    /// A benchmark of the same name is registered already.
    DuplicateName,
    /// The benchmark would be measured zero times.
    ZeroRepeat,
}

/// Why two summaries were not compared.
#[derive(Clone, Copy, Debug, PartialEq, Eq, Structural)]
pub enum CompareError {
    /// The two summaries are of suites with different names.
    NameMismatch,
    /// One of the two series of a benchmark has no workload points.
    EmptySeries,
    /// The two series of a benchmark do not have the same workload points in
    /// the same order.
    DifferentPoints,
}

impl ConfigError {
    /// The message of the error.
    pub fn message(&self) -> (text: &'static str)
        ensures
            text@ == match *self {
                ConfigError::DuplicateName => "Benchmark with identical name exists"@,
                ConfigError::ZeroRepeat => "Cannot benchmark 0 runs"@,
            },
    {
        match self {
            ConfigError::DuplicateName => "Benchmark with identical name exists",
            ConfigError::ZeroRepeat => "Cannot benchmark 0 runs",
        }
    }
}

impl CompareError {
    /// The message of the error.
    pub fn message(&self) -> (text: &'static str)
        ensures
            text@ == match *self {
                CompareError::NameMismatch => "Comparing differently named benchmarks"@,
                CompareError::EmptySeries => "Can compare only non empty series"@,
                CompareError::DifferentPoints => {
                    "Can compare series with identical workload points only"@
                },
            },
    {
        match self {
            CompareError::NameMismatch => "Comparing differently named benchmarks",
            CompareError::EmptySeries => "Can compare only non empty series",
            CompareError::DifferentPoints => {
                "Can compare series with identical workload points only"
            },
        }
    }
}

} // verus!
