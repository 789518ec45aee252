//! The comparison of one workload point across two runs.

use crate::threshold::{distance, Threshold};
use vstd::arithmetic::power2::{lemma_pow2_pos, pow2};
use vstd::prelude::*;

verus! {

/// How the current run of a workload point stands to the previous one.
#[derive(Clone, Copy, Debug, PartialEq, Eq, Structural)]
pub enum Verdict {
    /// The current run is faster, by more than the threshold.
    Less,
    /// The two runs are equal, or differ by no more than the threshold.
    Equal,
    /// The current run is slower, by more than the threshold.
    Greater,
}

/// A signed change in percent, as a fraction: `numerator / denominator`. With
/// a denominator of zero the change is not a finite number.
#[derive(Clone, Copy, Debug, PartialEq, Eq, Structural)]
pub struct PercentChange {
    /// A hundred times the current value less the previous one.
    pub numerator: i128,
    /// The previous value.
    pub denominator: u64,
}

/// The change from `previous` to `current` in percent of `previous`:
/// `current / (previous / 100) - 100`, which is
/// `100 * (current - previous) / previous`.
pub open spec fn percent_change(current: int, previous: int) -> PercentChange {
    PercentChange { numerator: (100 * (current - previous)) as i128, denominator: previous as u64 }
}

/// The verdict on a workload point: equal where the medians are the same or
/// their change lies within the threshold; else less where the current median
/// is the smaller, and greater where it is the larger.
pub open spec fn classify(current: int, previous: int, threshold: Threshold) -> Verdict {
    if current == previous || threshold.admits(current, previous) {
        Verdict::Equal
    } else if current < previous {
        Verdict::Less
    } else {
        Verdict::Greater
    }
}

/// What a contract sees of a `BenchmarkComparison`.
pub struct ComparisonView {
    /// How the current run stands to the previous one.
    pub verdict: Verdict,
    /// The workload point.
    pub point: Seq<char>,
    /// Median of the previous run, in nanoseconds.
    pub previous: nat,
    /// Median of the current run, in nanoseconds.
    pub current: nat,
    /// Change from the previous median to the current one.
    pub change: PercentChange,
}

/// The comparison of the workload point `point` with these medians.
pub open spec fn comparison_of(
    point: Seq<char>,
    current: nat,
    previous: nat,
    threshold: Threshold,
) -> ComparisonView {
    ComparisonView {
        verdict: classify(current as int, previous as int, threshold),
        point,
        previous,
        current,
        change: percent_change(current as int, previous as int),
    }
}

/// Describes the equality or inequality relationship between two runs of a
/// workload point.
#[derive(Debug)]
pub enum BenchmarkComparison {
    /// The current run is faster.
    Less { point: String, previous: u64, current: u64, change: PercentChange },
    /// The two runs are equal within the threshold.
    Equal { point: String, previous: u64, current: u64, change: PercentChange },
    /// The current run is slower.
    Greater { point: String, previous: u64, current: u64, change: PercentChange },
}

impl View for BenchmarkComparison {
    type V = ComparisonView;

    open spec fn view(&self) -> ComparisonView {
        match *self {
            BenchmarkComparison::Less { point, previous, current, change } => ComparisonView {
                verdict: Verdict::Less,
                point: point@,
                previous: previous as nat,
                current: current as nat,
                change,
            },
            BenchmarkComparison::Equal { point, previous, current, change } => ComparisonView {
                verdict: Verdict::Equal,
                point: point@,
                previous: previous as nat,
                current: current as nat,
                change,
            },
            BenchmarkComparison::Greater { point, previous, current, change } => ComparisonView {
                verdict: Verdict::Greater,
                point: point@,
                previous: previous as nat,
                current: current as nat,
                change,
            },
        }
    }
}

impl Clone for BenchmarkComparison {
    fn clone(&self) -> (copy: BenchmarkComparison)
        ensures
            copy@ == self@,
    {
        match self {
            BenchmarkComparison::Less { point, previous, current, change } => {
                BenchmarkComparison::Less {
                    point: point.clone(),
                    previous: *previous,
                    current: *current,
                    change: *change,
                }
            },
            BenchmarkComparison::Equal { point, previous, current, change } => {
                BenchmarkComparison::Equal {
                    point: point.clone(),
                    previous: *previous,
                    current: *current,
                    change: *change,
                }
            },
            BenchmarkComparison::Greater { point, previous, current, change } => {
                BenchmarkComparison::Greater {
                    point: point.clone(),
                    previous: *previous,
                    current: *current,
                    change: *change,
                }
            },
        }
    }
}

impl BenchmarkComparison {
    /// How the current run stands to the previous one.
    pub fn verdict(&self) -> (verdict: Verdict)
        ensures
            verdict == self@.verdict,
    {
        match self {
            BenchmarkComparison::Less { .. } => Verdict::Less,
            BenchmarkComparison::Equal { .. } => Verdict::Equal,
            BenchmarkComparison::Greater { .. } => Verdict::Greater,
        }
    }

    /// The workload point.
    pub fn point(&self) -> (point: &String)
        ensures
            point@ == self@.point,
    {
        match self {
            BenchmarkComparison::Less { point, .. } => point,
            BenchmarkComparison::Equal { point, .. } => point,
            BenchmarkComparison::Greater { point, .. } => point,
        }
    }

    /// Median of the previous run, in nanoseconds.
    pub fn previous(&self) -> (previous: u64)
        ensures
            previous == self@.previous,
    {
        match self {
            BenchmarkComparison::Less { previous, .. } => *previous,
            BenchmarkComparison::Equal { previous, .. } => *previous,
            BenchmarkComparison::Greater { previous, .. } => *previous,
        }
    }

    /// Median of the current run, in nanoseconds.
    pub fn current(&self) -> (current: u64)
        ensures
            current == self@.current,
    {
        match self {
            BenchmarkComparison::Less { current, .. } => *current,
            BenchmarkComparison::Equal { current, .. } => *current,
            BenchmarkComparison::Greater { current, .. } => *current,
        }
    }

    /// Change from the previous median to the current one.
    pub fn change(&self) -> (change: PercentChange)
        ensures
            change == self@.change,
    {
        match self {
            BenchmarkComparison::Less { change, .. } => *change,
            BenchmarkComparison::Equal { change, .. } => *change,
            BenchmarkComparison::Greater { change, .. } => *change,
        }
    }
}

/// Compares the current median of a workload point with the previous one.
pub fn compare_median(
    point: &str,
    current: u64,
    previous: u64,
    threshold: Threshold,
) -> (comparison: BenchmarkComparison)
    ensures
        comparison@ == comparison_of(point@, current as nat, previous as nat, threshold),
{
    let difference: i128 = (current as i128) - (previous as i128);
    let change = PercentChange { numerator: 100 * difference, denominator: previous };
    let point = point.to_owned();
    if current == previous || threshold.within(current, previous) {
        BenchmarkComparison::Equal { point, previous, current, change }
    } else if current < previous {
        BenchmarkComparison::Less { point, previous, current, change }
    } else {
        BenchmarkComparison::Greater { point, previous, current, change }
    }
}

/// Equal medians give the verdict equal under every threshold.
pub proof fn lemma_same_median_is_equal(median: int, threshold: Threshold)
    ensures
        classify(median, median, threshold) == Verdict::Equal,
{
}

/// Under a threshold of zero only equal medians give the verdict equal.
pub proof fn lemma_zero_threshold_is_exact(current: int, previous: int, exponent: i32)
    requires
        0 <= current,
        0 <= previous,
    ensures
        classify(current, previous, Threshold::Finite { mantissa: 0, exponent }) == Verdict::Equal
            <==> current == previous,
{
    if current != previous {
        let far = 100 * distance(current, previous);
        if exponent >= 0 {
            assert(previous * 0 * pow2(exponent as nat) == 0) by (nonlinear_arith);
        } else {
            lemma_pow2_pos((-exponent) as nat);
            assert(far * pow2((-exponent) as nat) > 0) by (nonlinear_arith)
                requires
                    far >= 100,
                    pow2((-exponent) as nat) > 0,
            ;
        }
    }
}

/// A verdict other than equal tells which median is the smaller: less where
/// the current one is, greater where the previous one is.
pub proof fn lemma_verdict_follows_medians(current: int, previous: int, threshold: Threshold)
    ensures
        classify(current, previous, threshold) == Verdict::Less ==> current < previous,
        classify(current, previous, threshold) == Verdict::Greater ==> current > previous,
{
}

} // verus!
