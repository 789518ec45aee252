//! The results of a whole suite.

use crate::name_map::NameMap;
use crate::series_summary::{SeriesSummary, SeriesSummaryView};
use vstd::prelude::*;

verus! {

/// What a contract sees of a `Summary`.
pub struct SummaryView {
    /// Name of the suite.
    pub name: Seq<char>,
    /// When the summary was made.
    pub created_at: Seq<char>,
    /// The series of each benchmark, by the benchmark's name.
    pub series: Map<Seq<char>, SeriesSummaryView>,
}

/// The series of a summary as the contracts see them.
pub open spec fn series_view(series: Map<Seq<char>, SeriesSummary>) -> Map<
    Seq<char>,
    SeriesSummaryView,
> {
    series.map_values(|s: SeriesSummary| s@)
}

/// Benchmark summary: the series of every benchmark of a suite.
#[derive(Debug)]
pub struct Summary {
    name: String,
    created_at: String,
    series: NameMap<SeriesSummary>,
}

impl View for Summary {
    type V = SummaryView;

    closed spec fn view(&self) -> SummaryView {
        SummaryView {
            name: self.name@,
            created_at: self.created_at@,
            series: series_view(self.series@),
        }
    }
}

impl Summary {
    /// Makes the summary of the suite `name`, dated `created_at`, with no
    /// series.
    pub fn new(name: String, created_at: String) -> (summary: Summary)
        ensures
            summary@ == (SummaryView {
                name: name@,
                created_at: created_at@,
                series: Map::empty(),
            }),
    {
        let summary = Summary { name, created_at, series: NameMap::new() };
        assert(summary@.series =~= Map::<Seq<char>, SeriesSummaryView>::empty());
        summary
    }

    /// Makes the summary of the suite `name`, dated `created_at`, with the
    /// given series.
    pub fn of_series(name: String, created_at: String, series: NameMap<SeriesSummary>) -> (summary:
        Summary)
        ensures
            summary@ == (SummaryView {
                name: name@,
                created_at: created_at@,
                series: series_view(series@),
            }),
    {
        Summary { name, created_at, series }
    }

    /// Name of the suite.
    pub fn name(&self) -> (name: &String)
        ensures
            name@ == self@.name,
    {
        &self.name
    }

    /// Puts the series of the benchmark `name` into the summary; a series that
    /// was there under that name is dropped.
    pub fn add(&mut self, name: String, series_summary: SeriesSummary)
        ensures
            final(self)@ == (SummaryView {
                series: old(self)@.series.insert(name@, series_summary@),
                ..old(self)@
            }),
    {
        self.series.insert(name, series_summary);
        assert(self@.series =~= old(self)@.series.insert(name@, series_summary@));
    }

    /// When the summary was made.
    pub fn created_at(&self) -> (created_at: &String)
        ensures
            created_at@ == self@.created_at,
    {
        &self.created_at
    }

    /// The series of each benchmark, by the benchmark's name.
    pub fn series(&self) -> (series: &NameMap<SeriesSummary>)
        ensures
            series_view(series@) == self@.series,
    {
        &self.series
    }
}

} // verus!
