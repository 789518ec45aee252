//! The outcome of comparing two runs of a suite.

use crate::benchmark_comparison::{BenchmarkComparison, ComparisonView, Verdict};
use crate::name_map::{NameMap, NameSet};
use vstd::prelude::*;

verus! {

/// The comparisons of one series, by workload point.
pub type Comparisons = Map<Seq<char>, ComparisonView>;

/// What a contract sees of an `AnalysisResult`.
pub struct AnalysisResultView {
    /// Name of the suite.
    pub name: Seq<char>,
    /// Names of the series that only the current run has.
    pub new_series: Set<Seq<char>>,
    /// The series whose every point is equal within the threshold.
    pub equal_series: Map<Seq<char>, Comparisons>,
    /// The series with at least one point outside the threshold.
    pub divergent_series: Map<Seq<char>, Comparisons>,
}

/// The comparisons of a series as the contracts see them.
pub open spec fn comparisons_view(comparisons: Map<Seq<char>, BenchmarkComparison>) -> Comparisons {
    comparisons.map_values(|c: BenchmarkComparison| c@)
}

/// The compared series as the contracts see them.
pub open spec fn compared_view(series: Map<Seq<char>, NameMap<BenchmarkComparison>>) -> Map<
    Seq<char>,
    Comparisons,
> {
    series.map_values(|s: NameMap<BenchmarkComparison>| comparisons_view(s@))
}

/// Whether every point of a series is equal within the threshold.
pub open spec fn all_equal(comparisons: Comparisons) -> bool {
    forall|point: Seq<char>| #[trigger]
        comparisons.contains_key(point) ==> comparisons[point].verdict == Verdict::Equal
}

/// Result of the comparison of two runs of a suite.
#[derive(Debug)]
pub struct AnalysisResult {
    name: String,
    new_series: NameSet,
    equal_series: NameMap<NameMap<BenchmarkComparison>>,
    divergent_series: NameMap<NameMap<BenchmarkComparison>>,
}

impl View for AnalysisResult {
    type V = AnalysisResultView;

    closed spec fn view(&self) -> AnalysisResultView {
        AnalysisResultView {
            name: self.name@,
            new_series: self.new_series@,
            equal_series: compared_view(self.equal_series@),
            divergent_series: compared_view(self.divergent_series@),
        }
    }
}

/// Whether every comparison of the map has the verdict equal.
pub fn is_all_equal(comparisons: &NameMap<BenchmarkComparison>) -> (equal: bool)
    ensures
        equal == all_equal(comparisons_view(comparisons@)),
{
    let entries = comparisons.entries();
    let mut equal = true;
    let mut i: usize = 0;
    while i < entries.len()
        invariant
            0 <= i <= entries.len(),
            equal == (forall|k: int|
                0 <= k < i ==> (#[trigger] entries[k]).1@.verdict == Verdict::Equal),
        decreases entries.len() - i,
    {
        match entries[i].1.verdict() {
            Verdict::Less => {
                equal = false;
            },
            Verdict::Equal => {},
            Verdict::Greater => {
                equal = false;
            },
        }
        i += 1;
    }
    proof {
        if !equal {
            let k = choose|k: int|
                0 <= k < entries.len() && (#[trigger] entries[k]).1@.verdict != Verdict::Equal;
            assert(comparisons_view(comparisons@).contains_key(entries[k].0@));
        }
    }
    equal
}

impl AnalysisResult {
    /// Makes the result of analysing the suite `name`, with no series yet.
    pub fn new(name: String) -> (result: AnalysisResult)
        ensures
            result@ == (AnalysisResultView {
                name: name@,
                new_series: Set::empty(),
                equal_series: Map::empty(),
                divergent_series: Map::empty(),
            }),
    {
        let result = AnalysisResult {
            name,
            new_series: NameSet::new(),
            equal_series: NameMap::new(),
            divergent_series: NameMap::new(),
        };
        assert(result@.equal_series =~= Map::<Seq<char>, Comparisons>::empty());
        result
    }

    /// Records the series `name` as one that only the current run has.
    pub fn add_new(&mut self, name: String)
        ensures
            final(self)@ == (AnalysisResultView {
                new_series: old(self)@.new_series.insert(name@),
                ..old(self)@
            }),
    {
        self.new_series.insert(name);
    }

    /// Records the comparisons of the series `name`: among the equal series
    /// where every point is equal within the threshold, among the divergent
    /// ones where at least one point is not.
    pub fn add(&mut self, name: String, comparisons: NameMap<BenchmarkComparison>)
        ensures
            all_equal(comparisons_view(comparisons@)) ==> final(self)@ == (AnalysisResultView {
                equal_series: old(self)@.equal_series.insert(
                    name@,
                    comparisons_view(comparisons@),
                ),
                ..old(self)@
            }),
            !all_equal(comparisons_view(comparisons@)) ==> final(self)@ == (AnalysisResultView {
                divergent_series: old(self)@.divergent_series.insert(
                    name@,
                    comparisons_view(comparisons@),
                ),
                ..old(self)@
            }),
    {
        let equal = is_all_equal(&comparisons);
        if equal {
            self.equal_series.insert(name, comparisons);
            assert(self@.equal_series =~= old(self)@.equal_series.insert(
                name@,
                comparisons_view(comparisons@),
            ));
        } else {
            self.divergent_series.insert(name, comparisons);
            assert(self@.divergent_series =~= old(self)@.divergent_series.insert(
                name@,
                comparisons_view(comparisons@),
            ));
        }
    }

    /// Name of the suite that was analysed.
    pub fn name(&self) -> (name: &String)
        ensures
            name@ == self@.name,
    {
        &self.name
    }

    /// Names of the series that only the current run has.
    pub fn new_series(&self) -> (series: &NameSet)
        ensures
            series@ == self@.new_series,
    {
        &self.new_series
    }

    /// The series whose every point is equal within the threshold.
    pub fn equal_series(&self) -> (series: &NameMap<NameMap<BenchmarkComparison>>)
        ensures
            compared_view(series@) == self@.equal_series,
    {
        &self.equal_series
    }

    /// The series with at least one point outside the threshold.
    pub fn divergent_series(&self) -> (series: &NameMap<NameMap<BenchmarkComparison>>)
        ensures
            compared_view(series@) == self@.divergent_series,
    {
        &self.divergent_series
    }

    /// The series with at least one point outside the threshold.
    pub fn results(&self) -> (series: &NameMap<NameMap<BenchmarkComparison>>)
        ensures
            compared_view(series@) == self@.divergent_series,
    {
        self.divergent_series()
    }
}

} // verus!
