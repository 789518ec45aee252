//! The comparison of two runs of a suite.
//!
//! The current summary is set against a previous one, series by series and
//! workload point by workload point. A series that the previous summary lacks
//! is new; any other is compared, and is equal where every point is equal
//! within the threshold, divergent where at least one is not.

use crate::analysis_result::{
    all_equal,
    comparisons_view,
    AnalysisResult,
    AnalysisResultView,
    Comparisons,
};
use crate::benchmark_comparison::{
    compare_median,
    comparison_of,
    BenchmarkComparison,
    ComparisonView,
    Verdict,
};
use crate::error::CompareError;
use crate::name_map::{lists, NameMap};
use crate::run_summary::{RunSummary, RunSummaryView};
use crate::series_summary::{runs_view, SeriesSummaryView};
use crate::summary::{series_view, Summary, SummaryView};
use crate::threshold::Threshold;
use vstd::prelude::*;

verus! {

/// The runs of a series: workload points with their summaries.
pub type Runs = Seq<(Seq<char>, RunSummaryView)>;

/// The workload points of the runs, in order.
pub open spec fn points_of(runs: Runs) -> Seq<Seq<char>> {
    runs.map_values(|run: (Seq<char>, RunSummaryView)| run.0)
}

/// Whether no workload point occurs twice in the runs.
pub open spec fn distinct_points(runs: Runs) -> bool {
    forall|a: int, b: int|
        0 <= a < b < runs.len() ==> (#[trigger] runs[a]).0 != (#[trigger] runs[b]).0
}

/// The comparison of the `i`-th workload point of two series.
pub open spec fn comparison_at(
    current: Runs,
    previous: Runs,
    threshold: Threshold,
    i: int,
) -> ComparisonView {
    comparison_of(current[i].0, current[i].1.median_nanos, previous[i].1.median_nanos, threshold)
}

/// The comparisons of the first `n` workload points of two series, by
/// workload point. Where a point occurs twice, its last comparison stands.
pub open spec fn comparisons_upto(
    current: Runs,
    previous: Runs,
    threshold: Threshold,
    n: nat,
) -> Comparisons
    decreases n,
{
    if n == 0 {
        Map::empty()
    } else {
        comparisons_upto(current, previous, threshold, (n - 1) as nat).insert(
            current[n - 1].0,
            comparison_at(current, previous, threshold, n - 1),
        )
    }
}

/// The comparison of two series: an error where one of them has no workload
/// points or where their workload points differ, else the comparison of each
/// workload point.
pub open spec fn series_comparison(current: Runs, previous: Runs, threshold: Threshold) -> Result<
    Comparisons,
    CompareError,
> {
    if current.len() == 0 || previous.len() == 0 {
        Err(CompareError::EmptySeries)
    } else if points_of(current) != points_of(previous) {
        Err(CompareError::DifferentPoints)
    } else {
        Ok(comparisons_upto(current, previous, threshold, current.len()))
    }
}

/// Whether two series have the same workload points in the same order.
fn same_points(current: &Vec<(String, RunSummary)>, previous: &Vec<(String, RunSummary)>) -> (same:
    bool)
    ensures
        same == (points_of(runs_view(current@)) == points_of(runs_view(previous@))),
{
    if current.len() != previous.len() {
        assert(points_of(runs_view(current@)).len() != points_of(runs_view(previous@)).len());
        return false;
    }
    let mut i: usize = 0;
    while i < current.len()
        invariant
            0 <= i <= current.len(),
            current.len() == previous.len(),
            forall|k: int| 0 <= k < i ==> (#[trigger] current[k]).0@ == previous[k].0@,
        decreases current.len() - i,
    {
        if current[i].0 != previous[i].0 {
            assert(points_of(runs_view(current@))[i as int] != points_of(
                runs_view(previous@),
            )[i as int]);
            return false;
        }
        i += 1;
    }
    assert(points_of(runs_view(current@)) =~= points_of(runs_view(previous@)));
    true
}

/// Compares two series of one benchmark, workload point by workload point.
pub fn compare_series(
    current_series: &Vec<(String, RunSummary)>,
    previous_series: &Vec<(String, RunSummary)>,
    threshold: Threshold,
) -> (outcome: Result<NameMap<BenchmarkComparison>, CompareError>)
    ensures
        match outcome {
            Ok(comparisons) => series_comparison(
                runs_view(current_series@),
                runs_view(previous_series@),
                threshold,
            ) == Ok::<Comparisons, CompareError>(comparisons_view(comparisons@)),
            Err(e) => series_comparison(
                runs_view(current_series@),
                runs_view(previous_series@),
                threshold,
            ) == Err::<Comparisons, CompareError>(e),
        },
{
    let ghost current = runs_view(current_series@);
    let ghost previous = runs_view(previous_series@);
    if current_series.len() == 0 || previous_series.len() == 0 {
        Err(CompareError::EmptySeries)
    } else if !same_points(current_series, previous_series) {
        Err(CompareError::DifferentPoints)
    } else {
        assert(points_of(current).len() == points_of(previous).len());
        let mut comparisons: NameMap<BenchmarkComparison> = NameMap::new();
        let mut i: usize = 0;
        while i < current_series.len()
            invariant
                0 <= i <= current_series.len(),
                current_series.len() == previous_series.len(),
                current == runs_view(current_series@),
                previous == runs_view(previous_series@),
                comparisons_view(comparisons@) == comparisons_upto(
                    current,
                    previous,
                    threshold,
                    i as nat,
                ),
            decreases current_series.len() - i,
        {
            let point = current_series[i].0.clone();
            let comparison = compare_median(
                point.as_str(),
                current_series[i].1.median_nanos(),
                previous_series[i].1.median_nanos(),
                threshold,
            );
            comparisons.insert(point, comparison);
            i += 1;
        }
        Ok(comparisons)
    }
}

/// The series of the baseline: those of the previous summary, or none where
/// there is no previous summary.
pub open spec fn baseline_series(previous: Option<SummaryView>) -> Map<
    Seq<char>,
    SeriesSummaryView,
> {
    match previous {
        Some(p) => p.series,
        None => Map::empty(),
    }
}

/// Whether the previous summary is of a suite with another name.
pub open spec fn names_differ(current: SummaryView, previous: Option<SummaryView>) -> bool {
    match previous {
        Some(p) => p.name != current.name,
        None => false,
    }
}

/// Whether both summaries have a series named `name`.
pub open spec fn shared(
    current: SummaryView,
    previous: Option<SummaryView>,
    name: Seq<char>,
) -> bool {
    current.series.contains_key(name) && baseline_series(previous).contains_key(name)
}

/// The comparison of the two series named `name`.
pub open spec fn comparison_named(
    current: SummaryView,
    previous: Option<SummaryView>,
    threshold: Threshold,
    name: Seq<char>,
) -> Result<Comparisons, CompareError> {
    series_comparison(
        current.series[name].runs,
        baseline_series(previous)[name].runs,
        threshold,
    )
}

/// Whether `result` is the analysis of those series of the current summary
/// whose names are in `done`.
pub open spec fn is_analysis_of(
    current: SummaryView,
    previous: Option<SummaryView>,
    threshold: Threshold,
    result: AnalysisResultView,
    done: Set<Seq<char>>,
) -> bool {
    &&& result.name == current.name
    &&& forall|name: Seq<char>| #[trigger]
        result.new_series.contains(name) <==> done.contains(name) && current.series.contains_key(
            name,
        ) && !baseline_series(previous).contains_key(name)
    &&& forall|name: Seq<char>| #[trigger]
        result.equal_series.contains_key(name) <==> done.contains(name) && shared(
            current,
            previous,
            name,
        ) && all_equal(comparison_named(current, previous, threshold, name)->Ok_0)
    &&& forall|name: Seq<char>| #[trigger]
        result.divergent_series.contains_key(name) <==> done.contains(name) && shared(
            current,
            previous,
            name,
        ) && !all_equal(comparison_named(current, previous, threshold, name)->Ok_0)
    &&& forall|name: Seq<char>|
        done.contains(name) && #[trigger] shared(current, previous, name) ==> {
            let outcome = comparison_named(current, previous, threshold, name);
            &&& outcome is Ok
            &&& all_equal(outcome->Ok_0) ==> result.equal_series[name] == outcome->Ok_0
            &&& !all_equal(outcome->Ok_0) ==> result.divergent_series[name] == outcome->Ok_0
        }
}

/// Whether `result` is the analysis of the current summary against the
/// previous one: the suites have the same name; the new series are those that
/// the previous summary lacks; every series that both have is compared, and
/// stands among the equal series where every point is equal within the
/// threshold, among the divergent ones where at least one point is not.
pub open spec fn is_analysis(
    current: SummaryView,
    previous: Option<SummaryView>,
    threshold: Threshold,
    result: AnalysisResultView,
) -> bool {
    !names_differ(current, previous) && is_analysis_of(
        current,
        previous,
        threshold,
        result,
        current.series.dom(),
    )
}

/// Whether the analysis of the current summary against the previous one fails
/// with `error`: the suites have different names, or a series that both have
/// cannot be compared.
pub open spec fn analysis_fails_with(
    current: SummaryView,
    previous: Option<SummaryView>,
    threshold: Threshold,
    error: CompareError,
) -> bool {
    if names_differ(current, previous) {
        error == CompareError::NameMismatch
    } else {
        exists|name: Seq<char>| #[trigger]
            shared(current, previous, name) && comparison_named(
                current,
                previous,
                threshold,
                name,
            ) == Err::<Comparisons, CompareError>(error)
    }
}

/// Whether the analysis of the current summary against the previous one
/// fails.
pub open spec fn analysis_fails(
    current: SummaryView,
    previous: Option<SummaryView>,
    threshold: Threshold,
) -> bool {
    names_differ(current, previous) || exists|name: Seq<char>| #[trigger]
        shared(current, previous, name) && comparison_named(
            current,
            previous,
            threshold,
            name,
        ) is Err
}

/// The previous summary as the contracts see it.
pub open spec fn baseline_view(previous: Option<&Summary>) -> Option<SummaryView> {
    match previous {
        Some(p) => Some(p@),
        None => None,
    }
}

/// Compares the current summary against a previous one, if there is one.
pub fn analyze(current: &Summary, previous: Option<&Summary>, threshold: Threshold) -> (outcome:
    Result<AnalysisResult, CompareError>)
    ensures
        match outcome {
            Ok(result) => is_analysis(current@, baseline_view(previous), threshold, result@),
            Err(e) => analysis_fails_with(current@, baseline_view(previous), threshold, e),
        },
        outcome is Err <==> analysis_fails(current@, baseline_view(previous), threshold),
{
    let ghost cur = current@;
    let ghost prev = baseline_view(previous);
    match previous {
        Some(p) => {
            if *current.name() != *p.name() {
                return Err(CompareError::NameMismatch);
            }
        },
        None => {},
    }
    let mut analysis_result = AnalysisResult::new(current.name().clone());
    let series = current.series();
    let entries = series.entries();
    let mut i: usize = 0;
    let ghost mut done: Set<Seq<char>> = Set::empty();
    while i < entries.len()
        invariant
            0 <= i <= entries.len(),
            cur == current@,
            prev == baseline_view(previous),
            !names_differ(cur, prev),
            lists(entries@, series@),
            series_view(series@) == cur.series,
            forall|name: Seq<char>|
                done.contains(name) <==> exists|k: int|
                    0 <= k < i && (#[trigger] entries[k]).0@ == name,
            is_analysis_of(cur, prev, threshold, analysis_result@, done),
        decreases entries.len() - i,
    {
        let name = &entries[i].0;
        let current_series_summary = &entries[i].1;
        let ghost key = name@;
        let found = match previous {
            Some(p) => p.series().get(name),
            None => None,
        };
        match found {
            None => {
                analysis_result.add_new(name.clone());
            },
            Some(prev_series_summary) => {
                match compare_series(
                    current_series_summary.runs(),
                    prev_series_summary.runs(),
                    threshold,
                ) {
                    Ok(comparisons) => {
                        analysis_result.add(name.clone(), comparisons);
                    },
                    Err(e) => {
                        proof {
                            assert(shared(cur, prev, key));
                        }
                        return Err(e);
                    },
                }
            },
        }
        proof {
            done = done.insert(key);
        }
        i += 1;
    }
    Ok(analysis_result)
}

/// The comparisons of the first `n` workload points hold a point exactly
/// where it is among them, and then the comparison of its last occurrence.
pub proof fn lemma_comparisons_upto(
    current: Runs,
    previous: Runs,
    threshold: Threshold,
    n: nat,
    point: Seq<char>,
)
    requires
        n <= current.len(),
    ensures
        comparisons_upto(current, previous, threshold, n).contains_key(point) <==> exists|i: int|
            0 <= i < n && (#[trigger] current[i]).0 == point,
        forall|i: int|
            0 <= i < n && (#[trigger] current[i]).0 == point && (forall|j: int|
                i < j < n ==> (#[trigger] current[j]).0 != point) ==> comparisons_upto(
                current,
                previous,
                threshold,
                n,
            )[point] == comparison_at(current, previous, threshold, i),
    decreases n,
{
    if n > 0 {
        lemma_comparisons_upto(current, previous, threshold, (n - 1) as nat, point);
    }
}

/// Where no workload point occurs twice in a series, the comparison of two
/// series holds, under each workload point, the comparison of the two runs at
/// that point.
pub proof fn lemma_comparison_of_each_point(
    current: Runs,
    previous: Runs,
    threshold: Threshold,
    i: int,
)
    requires
        0 <= i < current.len(),
        previous.len() > 0,
        points_of(current) == points_of(previous),
        distinct_points(current),
    ensures
        series_comparison(current, previous, threshold) is Ok,
        series_comparison(current, previous, threshold)->Ok_0.contains_key(current[i].0),
        series_comparison(current, previous, threshold)->Ok_0[current[i].0] == comparison_at(
            current,
            previous,
            threshold,
            i,
        ),
{
    lemma_comparisons_upto(current, previous, threshold, current.len(), current[i].0);
}

/// A series set against itself is equal at every workload point, under every
/// threshold.
pub proof fn lemma_series_against_itself(
    current: Runs,
    previous: Runs,
    threshold: Threshold,
    n: nat,
)
    requires
        n <= current.len(),
        current.len() == previous.len(),
        forall|i: int|
            0 <= i < current.len() ==> (#[trigger] current[i]).1.median_nanos
                == previous[i].1.median_nanos,
    ensures
        all_equal(comparisons_upto(current, previous, threshold, n)),
    decreases n,
{
    if n > 0 {
        lemma_series_against_itself(current, previous, threshold, (n - 1) as nat);
    }
}

/// Without a previous summary, every series of the current summary is new and
/// nothing is compared.
pub proof fn lemma_without_baseline_all_new(
    current: SummaryView,
    threshold: Threshold,
    result: AnalysisResultView,
)
    requires
        is_analysis(current, None, threshold, result),
    ensures
        result.new_series == current.series.dom(),
        result.equal_series == Map::<Seq<char>, Comparisons>::empty(),
        result.divergent_series == Map::<Seq<char>, Comparisons>::empty(),
{
}

/// Without a previous summary the analysis does not fail.
pub proof fn lemma_without_baseline_no_failure(
    current: SummaryView,
    threshold: Threshold,
    error: CompareError,
)
    ensures
        !analysis_fails_with(current, None, threshold, error),
{
}

/// The analysis of a summary against one with the same name and the same
/// series has no new and no divergent series: every series is among the equal
/// ones, and each of its points has the verdict equal.
pub proof fn lemma_against_itself_all_equal(
    current: SummaryView,
    previous: SummaryView,
    threshold: Threshold,
    result: AnalysisResultView,
)
    requires
        previous.name == current.name,
        previous.series == current.series,
        is_analysis(current, Some(previous), threshold, result),
    ensures
        result.new_series == Set::<Seq<char>>::empty(),
        result.divergent_series == Map::<Seq<char>, Comparisons>::empty(),
        result.equal_series.dom() == current.series.dom(),
        forall|name: Seq<char>, point: Seq<char>|
            result.equal_series.contains_key(name) && (
            #[trigger] result.equal_series[name].contains_key(point))
                ==> result.equal_series[name][point].verdict == Verdict::Equal,
{
    let baseline = Some(previous);
    assert forall|name: Seq<char>| #[trigger] current.series.contains_key(name) implies all_equal(
        comparison_named(current, baseline, threshold, name)->Ok_0,
    ) by {
        assert(shared(current, baseline, name));
        let runs = current.series[name].runs;
        lemma_series_against_itself(runs, runs, threshold, runs.len());
    }
}

/// The analysis of a summary against one with the same name and the same
/// series fails only where a series has no workload points.
pub proof fn lemma_against_itself_failure(
    current: SummaryView,
    previous: SummaryView,
    threshold: Threshold,
    error: CompareError,
)
    requires
        previous.name == current.name,
        previous.series == current.series,
        analysis_fails_with(current, Some(previous), threshold, error),
    ensures
        error == CompareError::EmptySeries,
        exists|name: Seq<char>| #[trigger]
            current.series.contains_key(name) && current.series[name].runs.len() == 0,
{
}

/// Two series that differ in a workload point are not compared, even where
/// both have as many: the comparison fails, and so does every analysis of
/// two summaries that hold them under one name.
pub proof fn lemma_different_points_fail(
    current: SummaryView,
    previous: SummaryView,
    threshold: Threshold,
    name: Seq<char>,
    result: AnalysisResultView,
)
    requires
        shared(current, Some(previous), name),
        current.series[name].runs.len() > 0,
        previous.series[name].runs.len() > 0,
        points_of(current.series[name].runs) != points_of(previous.series[name].runs),
    ensures
        series_comparison(current.series[name].runs, previous.series[name].runs, threshold)
            == Err::<Comparisons, CompareError>(CompareError::DifferentPoints),
        !is_analysis(current, Some(previous), threshold, result),
{
}

/// In an analysis a series is divergent exactly where at least one of its
/// points is not equal within the threshold, and equal exactly where all
/// are; no series is both.
pub proof fn lemma_divergent_iff_some_point_differs(
    current: SummaryView,
    previous: Option<SummaryView>,
    threshold: Threshold,
    result: AnalysisResultView,
    name: Seq<char>,
)
    requires
        is_analysis(current, previous, threshold, result),
        shared(current, previous, name),
    ensures
        result.divergent_series.contains_key(name) <==> exists|point: Seq<char>| #[trigger]
            comparison_named(current, previous, threshold, name)->Ok_0.contains_key(point)
                && comparison_named(current, previous, threshold, name)->Ok_0[point].verdict
                != Verdict::Equal,
        result.equal_series.contains_key(name) <==> !result.divergent_series.contains_key(name),
        result.divergent_series.contains_key(name) ==> result.divergent_series[name]
            == comparison_named(current, previous, threshold, name)->Ok_0,
        result.equal_series.contains_key(name) ==> result.equal_series[name] == comparison_named(
            current,
            previous,
            threshold,
            name,
        )->Ok_0,
{
}

} // verus!
