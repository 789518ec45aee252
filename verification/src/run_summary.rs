//! The statistics of one workload point.

use crate::clock::{clock_string_of_nanos, format_nanos};
use crate::statistics::{max_of, maximum, median, median_of, min_of, minimum, std_dev, std_dev_of};
use vstd::prelude::*;

verus! {

/// What a contract sees of a `RunSummary`.
pub struct RunSummaryView {
    /// Identity of the workload point.
    pub name: Seq<char>,
    /// Number of unmeasured runs before the measured ones.
    pub ramp_up: nat,
    /// Number of measured runs.
    pub repeat: nat,
    /// Shortest measured run, in nanoseconds.
    pub min_nanos: nat,
    /// Clock text of the shortest run.
    pub min_str: Seq<char>,
    /// Longest measured run, in nanoseconds.
    pub max_nanos: nat,
    /// Clock text of the longest run.
    pub max_str: Seq<char>,
    /// Median of the measured runs, in nanoseconds.
    pub median_nanos: nat,
    /// Clock text of the median.
    pub median_str: Seq<char>,
    /// Standard deviation of the measured runs in whole nanoseconds, where it
    /// is defined.
    pub std_dev: Option<nat>,
    /// Clock text of the standard deviation, or `null`.
    pub std_dev_str: Seq<char>,
}

/// The text that stands for a standard deviation: its clock text, or `null`
/// where there is none.
pub open spec fn std_dev_string(std_dev: Option<nat>) -> Seq<char> {
    match std_dev {
        Some(t) => clock_string_of_nanos(t as int),
        None => "null"@,
    }
}

/// The summary that is made of these values: the numbers as given, and the
/// text of each derived from its number.
pub open spec fn summary_of(
    name: Seq<char>,
    ramp_up: nat,
    repeat: nat,
    min: nat,
    max: nat,
    median: nat,
    std_dev: Option<nat>,
) -> RunSummaryView {
    RunSummaryView {
        name,
        ramp_up,
        repeat,
        min_nanos: min,
        min_str: clock_string_of_nanos(min as int),
        max_nanos: max,
        max_str: clock_string_of_nanos(max as int),
        median_nanos: median,
        median_str: clock_string_of_nanos(median as int),
        std_dev,
        std_dev_str: std_dev_string(std_dev),
    }
}

/// The standard deviation as the contracts see it.
pub open spec fn std_dev_view(std_dev: Option<u64>) -> Option<nat> {
    match std_dev {
        Some(t) => Some(t as nat),
        None => None,
    }
}

/// The standard deviation of a sample as a summary holds it.
pub open spec fn std_dev_of_samples(samples: Seq<u64>) -> Option<nat> {
    match std_dev_of(samples) {
        Some(d) => Some(d as nat),
        None => None,
    }
}

/// The summary of a non-empty sample of measured runs, each a count of
/// nanoseconds: the number of samples, their least, greatest and median
/// value, and their standard deviation.
pub open spec fn summary_of_samples(
    name: Seq<char>,
    ramp_up: nat,
    samples: Seq<u64>,
) -> RunSummaryView {
    summary_of(
        name,
        ramp_up,
        samples.len(),
        min_of(samples) as nat,
        max_of(samples) as nat,
        median_of(samples) as nat,
        std_dev_of_samples(samples),
    )
}

/// Result of the runs of a single workload point.
#[derive(Debug)]
pub struct RunSummary {
    name: String,
    ramp_up: usize,
    repeat: usize,
    min_nanos: u64,
    min_str: String,
    max_nanos: u64,
    max_str: String,
    median_nanos: u64,
    median_str: String,
    std_dev: Option<u64>,
    std_dev_str: String,
}

impl View for RunSummary {
    type V = RunSummaryView;

    closed spec fn view(&self) -> RunSummaryView {
        RunSummaryView {
            name: self.name@,
            ramp_up: self.ramp_up as nat,
            repeat: self.repeat as nat,
            min_nanos: self.min_nanos as nat,
            min_str: self.min_str@,
            max_nanos: self.max_nanos as nat,
            max_str: self.max_str@,
            median_nanos: self.median_nanos as nat,
            median_str: self.median_str@,
            std_dev: std_dev_view(self.std_dev),
            std_dev_str: self.std_dev_str@,
        }
    }
}

impl Clone for RunSummary {
    fn clone(&self) -> (copy: RunSummary)
        ensures
            copy@ == self@,
    {
        RunSummary {
            name: self.name.clone(),
            ramp_up: self.ramp_up,
            repeat: self.repeat,
            min_nanos: self.min_nanos,
            min_str: self.min_str.clone(),
            max_nanos: self.max_nanos,
            max_str: self.max_str.clone(),
            median_nanos: self.median_nanos,
            median_str: self.median_str.clone(),
            std_dev: self.std_dev,
            std_dev_str: self.std_dev_str.clone(),
        }
    }
}

impl RunSummary {
    /// Makes the summary of one workload point from its statistics, all in
    /// nanoseconds.
    pub fn new(
        name: String,
        ramp_up: usize,
        repeat: usize,
        min: u64,
        max: u64,
        median: u64,
        std_dev: Option<u64>,
    ) -> (summary: RunSummary)
        ensures
            summary@ == summary_of(
                name@,
                ramp_up as nat,
                repeat as nat,
                min as nat,
                max as nat,
                median as nat,
                std_dev_view(std_dev),
            ),
    {
        RunSummary {
            name,
            ramp_up,
            repeat,
            min_nanos: min,
            min_str: Self::format_elapsed_nanos(min),
            max_nanos: max,
            max_str: Self::format_elapsed_nanos(max),
            median_nanos: median,
            median_str: Self::format_elapsed_nanos(median),
            std_dev,
            std_dev_str: Self::format_std_dev_nanos(std_dev),
        }
    }

    /// Reduces the measured runs of one workload point, each a count of
    /// nanoseconds, to their summary.
    pub fn from_samples(name: String, ramp_up: usize, samples: &Vec<u64>) -> (summary: RunSummary)
        requires
            samples.len() > 0,
        ensures
            summary@ == summary_of_samples(name@, ramp_up as nat, samples@),
    {
        let min = minimum(samples);
        let max = maximum(samples);
        let mid = median(samples);
        let deviation = std_dev(samples);
        Self::new(name, ramp_up, samples.len(), min, max, mid, deviation)
    }

    /// Identity of the workload point.
    pub fn name(&self) -> (name: &String)
        ensures
            name@ == self@.name,
    {
        &self.name
    }

    /// Number of unmeasured runs before the measured ones.
    pub fn ramp_up(&self) -> (count: usize)
        ensures
            count == self@.ramp_up,
    {
        self.ramp_up
    }

    /// Number of measured runs.
    pub fn repeat(&self) -> (count: usize)
        ensures
            count == self@.repeat,
    {
        self.repeat
    }

    /// Shortest measured run, in nanoseconds.
    pub fn min_nanos(&self) -> (nanos: u64)
        ensures
            nanos == self@.min_nanos,
    {
        self.min_nanos
    }

    /// Longest measured run, in nanoseconds.
    pub fn max_nanos(&self) -> (nanos: u64)
        ensures
            nanos == self@.max_nanos,
    {
        self.max_nanos
    }

    /// Median of the measured runs, in nanoseconds.
    pub fn median_nanos(&self) -> (nanos: u64)
        ensures
            nanos == self@.median_nanos,
    {
        self.median_nanos
    }

    /// Standard deviation of the measured runs in whole nanoseconds, where it
    /// is defined.
    pub fn std_dev(&self) -> (std_dev: Option<u64>)
        ensures
            std_dev_view(std_dev) == self@.std_dev,
    {
        self.std_dev
    }

    /// Clock text of the shortest run.
    pub fn min_str(&self) -> (text: &String)
        ensures
            text@ == self@.min_str,
    {
        &self.min_str
    }

    /// Clock text of the longest run.
    pub fn max_str(&self) -> (text: &String)
        ensures
            text@ == self@.max_str,
    {
        &self.max_str
    }

    /// Clock text of the median.
    pub fn median_str(&self) -> (text: &String)
        ensures
            text@ == self@.median_str,
    {
        &self.median_str
    }

    /// Clock text of the standard deviation, or `null`.
    pub fn std_dev_str(&self) -> (text: &String)
        ensures
            text@ == self@.std_dev_str,
    {
        &self.std_dev_str
    }

    /// The names of the columns of a row of comma-separated values, after the
    /// workload point.
    pub fn csv_headers() -> (line: String)
        ensures
            line@ == "ramp_up,repeat,min_sec,max_sec,median_sec,std_dev_sec"@,
    {
        "ramp_up,repeat,min_sec,max_sec,median_sec,std_dev_sec".to_owned()
    }

    /// Renders a count of nanoseconds as `HH:MM:SS.mmm`.
    pub fn format_elapsed_nanos(t: u64) -> (text: String)
        ensures
            text@ == clock_string_of_nanos(t as int),
    {
        format_nanos(t)
    }

    /// Renders a standard deviation: its clock text, or `null` where there is
    /// none.
    pub fn format_std_dev_nanos(std_dev: Option<u64>) -> (text: String)
        ensures
            text@ == std_dev_string(std_dev_view(std_dev)),
    {
        match std_dev {
            None => "null".to_owned(),
            Some(t) => format_nanos(t),
        }
    }
}

} // verus!
