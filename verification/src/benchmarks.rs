//! A suite of benchmarks.

use crate::analysis::{analysis_fails, analysis_fails_with, analyze, baseline_view, is_analysis};
use crate::analysis_result::AnalysisResult;
use crate::benchmark::{always_callable, never_fails, raised_by, Benchmark};
use crate::error::{CompareError, ConfigError};
use crate::name_map::NameMap;
use crate::series_summary::{SeriesSummary, SeriesSummaryView};
use crate::stopwatch::StopWatch;
use crate::summary::{series_view, Summary, SummaryView};
use crate::threshold::Threshold;
use std::fmt::Display;
use vstd::prelude::*;

verus! {

/// What a contract sees of a suite.
#[verifier::reject_recursive_types(E)]
pub struct BenchmarksView<C, W, E, F> where
    C: Clone + Display,
    W: Clone + Display,
    F: Fn(&mut StopWatch, C, W) -> Result<(), E>,
 {
    /// Name of the suite.
    pub name: Seq<char>,
    /// The registered benchmarks, in the order they were registered.
    pub benchmarks: Seq<Benchmark<C, W, E, F>>,
    /// The latest series of each benchmark that has run, by the benchmark's
    /// name.
    pub summaries: Map<Seq<char>, SeriesSummaryView>,
}

impl<C, W, E, F> BenchmarksView<C, W, E, F> where
    C: Clone + Display,
    W: Clone + Display,
    F: Fn(&mut StopWatch, C, W) -> Result<(), E>,
 {
    /// Whether one of the first `n` benchmarks is named `name`.
    pub open spec fn registered_among(self, name: Seq<char>, n: int) -> bool {
        exists|i: int| 0 <= i < n && (#[trigger] self.benchmarks[i]).spec_name() == name
    }

    /// Whether a benchmark named `name` is registered.
    pub open spec fn registered(self, name: Seq<char>) -> bool {
        self.registered_among(name, self.benchmarks.len() as int)
    }

    /// Whether every series that the suite holds stands under the name of a
    /// registered benchmark.
    pub open spec fn stored_are_registered(self) -> bool {
        forall|name: Seq<char>| #[trigger]
            self.summaries.contains_key(name) ==> self.registered(name)
    }

    /// Whether `summaries` is what the suite holds once its first `n`
    /// benchmarks have run: under the name of each of them a series that it
    /// produces, and under every other name what was there before.
    pub open spec fn ran(self, summaries: Map<Seq<char>, SeriesSummaryView>, n: int) -> bool {
        &&& forall|i: int|
            0 <= i < n ==> summaries.contains_key((#[trigger] self.benchmarks[i]).spec_name())
                && self.benchmarks[i].produces(summaries[self.benchmarks[i].spec_name()])
        &&& forall|name: Seq<char>|
            !self.registered_among(name, n) ==> (#[trigger] summaries.contains_key(name)
                <==> self.summaries.contains_key(name))
        &&& forall|name: Seq<char>|
            !self.registered_among(name, n) && #[trigger] summaries.contains_key(name)
                ==> summaries[name] == self.summaries[name]
    }
}

/// Runs and analyses a suite of benchmarks.
///
/// * `C` - configuration
/// * `W` - workload point
/// * `E` - error of the workload
/// * `F` - workload: a function of a stopwatch, a configuration and a
///   workload point
#[verifier::reject_recursive_types(E)]
pub struct Benchmarks<C, W, E, F> where
    C: Clone + Display,
    W: Clone + Display,
    F: Fn(&mut StopWatch, C, W) -> Result<(), E>,
 {
    name: String,
    benchmarks: Vec<Benchmark<C, W, E, F>>,
    summaries: NameMap<SeriesSummary>,
}

impl<C, W, E, F> View for Benchmarks<C, W, E, F> where
    C: Clone + Display,
    W: Clone + Display,
    F: Fn(&mut StopWatch, C, W) -> Result<(), E>,
 {
    type V = BenchmarksView<C, W, E, F>;

    closed spec fn view(&self) -> BenchmarksView<C, W, E, F> {
        BenchmarksView {
            name: self.name@,
            benchmarks: self.benchmarks@,
            summaries: series_view(self.summaries@),
        }
    }
}

impl<C, W, E, F> Benchmarks<C, W, E, F> where
    C: Clone + Display,
    W: Clone + Display,
    F: Fn(&mut StopWatch, C, W) -> Result<(), E>,
 {
    #[verifier::type_invariant]
    spec fn well_formed(self) -> bool {
        &&& forall|i: int|
            0 <= i < self.benchmarks@.len() ==> (#[trigger] self.benchmarks@[i]).runnable()
        &&& forall|i: int, j: int|
            0 <= i < j < self.benchmarks@.len() ==> (#[trigger] self.benchmarks@[i]).spec_name()
                != (#[trigger] self.benchmarks@[j]).spec_name()
        &&& self@.stored_are_registered()
    }

    /// Makes a suite with no benchmarks.
    ///
    /// * `name` - the name of the suite
    pub fn new(name: &str) -> (suite: Benchmarks<C, W, E, F>)
        ensures
            suite@ == (BenchmarksView::<C, W, E, F> {
                name: name@,
                benchmarks: Seq::empty(),
                summaries: Map::empty(),
            }),
            suite@.stored_are_registered(),
    {
        let suite = Benchmarks {
            name: name.to_owned(),
            benchmarks: Vec::new(),
            summaries: NameMap::new(),
        };
        assert(suite@.summaries =~= Map::<Seq<char>, SeriesSummaryView>::empty());
        suite
    }

    /// Runs all benchmarks, in the order they were registered, and keeps the
    /// series of each under its name, in place of one that was there. The
    /// first error of a workload ends the run and is returned as it is; the
    /// benchmarks before it have run.
    pub fn run(&mut self) -> (outcome: Result<(), E>)
        ensures
            final(self)@.name == old(self)@.name,
            final(self)@.benchmarks == old(self)@.benchmarks,
            final(self)@.stored_are_registered(),
            outcome is Ok ==> forall|name: Seq<char>|
                final(self)@.summaries.contains_key(name) <==> final(self)@.registered(name),
            old(self)@.benchmarks.len() == 0 ==> outcome is Ok,
            match outcome {
                Ok(_) => old(self)@.ran(
                    final(self)@.summaries,
                    old(self)@.benchmarks.len() as int,
                ),
                Err(e) => exists|i: int|
                    0 <= i < old(self)@.benchmarks.len() && old(self)@.ran(
                        final(self)@.summaries,
                        i,
                    ) && raised_by((#[trigger] old(self)@.benchmarks[i]).spec_workload(), e),
            },
            (forall|i: int|
                0 <= i < old(self)@.benchmarks.len() ==> never_fails(
                    (#[trigger] old(self)@.benchmarks[i]).spec_workload(),
                )) ==> outcome is Ok,
    {
        proof {
            use_type_invariant(&*self);
        }
        let mut i: usize = 0;
        while i < self.benchmarks.len()
            invariant
                0 <= i <= self.benchmarks.len(),
                self.name == old(self).name,
                self.benchmarks == old(self).benchmarks,
                self.well_formed(),
                old(self)@.stored_are_registered(),
                old(self)@.ran(self@.summaries, i as int),
            decreases self.benchmarks.len() - i,
        {
            let ghost before = self@.summaries;
            let benchmark = &self.benchmarks[i];
            match benchmark.run() {
                Ok(summary) => {
                    let name = benchmark.name().clone();
                    let mut summaries: NameMap<SeriesSummary> = NameMap::new();
                    core::mem::swap(&mut summaries, &mut self.summaries);
                    summaries.insert(name, summary);
                    proof {
                        let key = self@.benchmarks[i as int].spec_name();
                        assert(series_view(summaries@) =~= before.insert(key, summary@));
                        assert(self@.registered_among(key, self@.benchmarks.len() as int));
                        assert forall|name: Seq<char>| #[trigger]
                            series_view(summaries@).contains_key(name) implies self@.registered(
                            name,
                        ) by {
                            if name != key {
                                assert(before.contains_key(name));
                            }
                        }
                    }
                    self.summaries = summaries;
                    assert(self@.summaries =~= before.insert(
                        old(self)@.benchmarks[i as int].spec_name(),
                        summary@,
                    ));
                },
                Err(e) => {
                    return Err(e);
                },
            }
            i += 1;
        }
        proof {
            assert forall|name: Seq<char>|
                self@.registered(name) implies self@.summaries.contains_key(name) by {
                let k = choose|k: int|
                    0 <= k < old(self)@.benchmarks.len() && (
                    #[trigger] old(self)@.benchmarks[k]).spec_name() == name;
                assert(self@.summaries.contains_key(old(self)@.benchmarks[k].spec_name()));
            }
        }
        Ok(())
    }

    /// Registers a benchmark.
    ///
    /// * `name` - the name of the series; the results are found under it
    /// * `f` - the workload
    /// * `config` - the configuration that each run is given
    /// * `work` - the workload points; each run is given one of them
    /// * `repeat` - number of measured runs at each workload point
    /// * `ramp_up` - number of unmeasured runs before the measured ones
    ///
    /// A name that is registered already is refused, and so is a benchmark
    /// that would be measured zero times; the suite is then left as it was.
    pub fn add(
        &mut self,
        name: &str,
        f: F,
        config: C,
        work: Vec<W>,
        repeat: usize,
        ramp_up: usize,
    ) -> (outcome: Result<(), ConfigError>)
        requires
            always_callable(f),
        ensures
            outcome == (if old(self)@.registered(name@) {
                Err::<(), ConfigError>(ConfigError::DuplicateName)
            } else if repeat == 0 {
                Err::<(), ConfigError>(ConfigError::ZeroRepeat)
            } else {
                Ok::<(), ConfigError>(())
            }),
            outcome is Err ==> final(self)@ == old(self)@,
            final(self)@.stored_are_registered(),
            outcome is Ok ==> {
                let added = final(self)@.benchmarks.last();
                &&& final(self)@.name == old(self)@.name
                &&& final(self)@.summaries == old(self)@.summaries
                &&& final(self)@.benchmarks == old(self)@.benchmarks.push(added)
                &&& added.spec_name() == name@
                &&& added.spec_workload() == f
                &&& added.spec_config() == config
                &&& added.spec_work() == work@
                &&& added.spec_repeat() == repeat
                &&& added.spec_ramp_up() == ramp_up
            },
    {
        proof {
            use_type_invariant(&*self);
        }
        if self.is_registered(name) {
            Err(ConfigError::DuplicateName)
        } else if repeat == 0 {
            Err(ConfigError::ZeroRepeat)
        } else {
            let benchmark = Benchmark::new(name.to_owned(), f, config, work, repeat, ramp_up);
            let mut summaries: NameMap<SeriesSummary> = NameMap::new();
            core::mem::swap(&mut summaries, &mut self.summaries);
            let mut benchmarks: Vec<Benchmark<C, W, E, F>> = Vec::new();
            core::mem::swap(&mut benchmarks, &mut self.benchmarks);
            benchmarks.push(benchmark);
            self.benchmarks = benchmarks;
            proof {
                assert forall|name: Seq<char>| #[trigger]
                    series_view(summaries@).contains_key(name) implies self@.registered(name) by {
                    assert(old(self)@.summaries.contains_key(name));
                    let k = choose|k: int|
                        0 <= k < old(self)@.benchmarks.len() && (
                        #[trigger] old(self)@.benchmarks[k]).spec_name() == name;
                    assert(self@.benchmarks[k].spec_name() == name);
                }
            }
            self.summaries = summaries;
            Ok(())
        }
    }

    /// Whether a benchmark named `name` is registered.
    fn is_registered(&self, name: &str) -> (found: bool)
        ensures
            found == self@.registered(name@),
    {
        let owned = name.to_owned();
        let mut i: usize = 0;
        while i < self.benchmarks.len()
            invariant
                0 <= i <= self.benchmarks.len(),
                owned@ == name@,
                forall|k: int| 0 <= k < i ==> (#[trigger] self.benchmarks@[k]).spec_name() != name@,
            decreases self.benchmarks.len() - i,
        {
            if *self.benchmarks[i].name() == owned {
                return true;
            }
            i += 1;
        }
        false
    }

    /// The summary of all series that have run, dated `created_at`.
    pub fn summary(&self, created_at: String) -> (summary: Summary)
        ensures
            summary@ == (SummaryView {
                name: self@.name,
                created_at: created_at@,
                series: self@.summaries,
            }),
            self@.stored_are_registered(),
    {
        proof {
            use_type_invariant(self);
        }
        let copy = |series: &SeriesSummary| -> (copy: SeriesSummary)
            ensures
                copy@ == series@,
            { series.clone() };
        let series = self.summaries.map_values(copy);
        assert(series_view(series@) =~= self@.summaries);
        Summary::of_series(self.name.clone(), created_at, series)
    }

    /// The description of the configuration of each series that has run, by
    /// the name of its benchmark.
    pub fn configs(&self) -> (configs: NameMap<String>)
        ensures
            configs@.dom() == self@.summaries.dom(),
            forall|name: Seq<char>| #[trigger]
                configs@.contains_key(name) ==> configs@[name]@ == self@.summaries[name].config,
    {
        let config = |series: &SeriesSummary| -> (config: String)
            ensures
                config@ == series@.config,
            { series.config() };
        self.summaries.map_values(config)
    }

    /// Name of the suite.
    pub fn name(&self) -> (name: &String)
        ensures
            name@ == self@.name,
    {
        &self.name
    }

    /// Compares the series that have run against a previous summary, if there
    /// is one.
    ///
    /// * `previous` - the summary of a previous run
    /// * `threshold` - the change, in percent, up to which two medians count
    ///   as equal
    pub fn analyze(&self, previous: Option<&Summary>, threshold: Threshold) -> (outcome: Result<
        AnalysisResult,
        CompareError,
    >)
        ensures
            exists|current: SummaryView|
                {
                    &&& current.name == self@.name
                    &&& current.series == self@.summaries
                    &&& match outcome {
                        Ok(result) => is_analysis(
                            current,
                            baseline_view(previous),
                            threshold,
                            result@,
                        ),
                        Err(e) => analysis_fails_with(
                            current,
                            baseline_view(previous),
                            threshold,
                            e,
                        ),
                    }
                    &&& outcome is Err <==> analysis_fails(
                        current,
                        baseline_view(previous),
                        threshold,
                    )
                },
    {
        let current_summary = self.summary(String::new());
        analyze(&current_summary, previous, threshold)
    }
}

} // verus!
