//! One benchmark: a workload, its configuration and its workload points.

use crate::run_summary::{summary_of_samples, RunSummary, RunSummaryView};
use crate::series_summary::{SeriesSummary, SeriesSummaryView};
use crate::stopwatch::{accumulate, StopWatch, StopWatchView};
use std::fmt::Display;
use std::marker::PhantomData;
use vstd::prelude::*;
use vstd::string::to_string_from_display_ensures;

verus! {

/// Whether `text` is what `value` renders as.
pub open spec fn renders_as<T: Display>(value: &T, text: Seq<char>) -> bool {
    exists|s: String| s@ == text && to_string_from_display_ensures::<T>(value, s)
}

/// Whether the workload `f` can be called with any stopwatch, configuration
/// and workload point.
pub open spec fn always_callable<C, W, E, F: Fn(&mut StopWatch, C, W) -> Result<(), E>>(
    f: F,
) -> bool {
    forall|watch: &mut StopWatch, config: C, point: W| call_requires(f, (watch, config, point))
}

/// Whether the workload `f` returns `Ok` whenever it returns.
pub open spec fn never_fails<C, W, E, F: Fn(&mut StopWatch, C, W) -> Result<(), E>>(f: F) -> bool {
    forall|watch: &mut StopWatch, config: C, point: W, outcome: Result<(), E>|
        call_ensures(f, (watch, config, point), outcome) ==> outcome is Ok
}

/// Whether `error` is what some call of the workload `f` returned.
pub open spec fn raised_by<C, W, E, F: Fn(&mut StopWatch, C, W) -> Result<(), E>>(
    f: F,
    error: E,
) -> bool {
    exists|watch: &mut StopWatch, config: C, point: W|
        call_ensures(f, (watch, config, point), Err::<(), E>(error))
}

/// A workload with its configuration, its workload points and the number of
/// times it runs at each.
pub struct Benchmark<C, W, E, F> {
    name: String,
    config: C,
    work: Vec<W>,
    f: F,
    repeat: usize,
    ramp_up: usize,
    error: PhantomData<E>,
}

impl<C, W, E, F> Benchmark<C, W, E, F> where
    C: Clone + Display,
    W: Clone + Display,
    F: Fn(&mut StopWatch, C, W) -> Result<(), E>,
 {
    /// Name of the benchmark.
    pub closed spec fn spec_name(&self) -> Seq<char> {
        self.name@
    }

    /// The configuration that each run is given.
    pub closed spec fn spec_config(&self) -> C {
        self.config
    }

    /// The workload points, in the order they were declared.
    pub closed spec fn spec_work(&self) -> Seq<W> {
        self.work@
    }

    /// The workload.
    pub closed spec fn spec_workload(&self) -> F {
        self.f
    }

    /// Number of measured runs at each workload point.
    pub closed spec fn spec_repeat(&self) -> nat {
        self.repeat as nat
    }

    /// Number of unmeasured runs before the measured ones at each workload
    /// point.
    pub closed spec fn spec_ramp_up(&self) -> nat {
        self.ramp_up as nat
    }

    /// Whether the benchmark can run: it measures at least once at each
    /// workload point, and its workload can be called.
    pub open spec fn runnable(&self) -> bool {
        self.spec_repeat() > 0 && always_callable(self.spec_workload())
    }

    /// Whether `run` is a result of measuring the `i`-th workload point: it is
    /// named by the workload point as text, and holds, under that name, the
    /// summary of `repeat` samples; and the workload returned `Ok` at that
    /// point, unmeasured where there is a ramp-up, and measured.
    pub open spec fn measures(&self, i: int, run: (Seq<char>, RunSummaryView)) -> bool {
        &&& renders_as(&self.spec_work()[i], run.0)
        &&& self.spec_ramp_up() > 0 ==> self.warmed(self.spec_work()[i])
        &&& self.spec_repeat() > 0 ==> self.timed(self.spec_work()[i])
        &&& exists|samples: Seq<u64>|
            samples.len() == self.spec_repeat() && run.1 == summary_of_samples(
                run.0,
                self.spec_ramp_up(),
                samples,
            )
    }

    /// Whether `series` is a result of running the benchmark: it has the
    /// benchmark's name and its configuration as text, and one run for each
    /// workload point, in the order of the workload points.
    pub open spec fn produces(&self, series: SeriesSummaryView) -> bool {
        &&& series.name == self.spec_name()
        &&& renders_as(&self.spec_config(), series.config)
        &&& series.runs.len() == self.spec_work().len()
        &&& forall|i: int|
            0 <= i < self.spec_work().len() ==> self.measures(i, #[trigger] series.runs[i])
    }

    /// Makes a benchmark.
    pub fn new(name: String, f: F, config: C, work: Vec<W>, repeat: usize, ramp_up: usize) -> (b:
        Benchmark<C, W, E, F>)
        ensures
            b.spec_name() == name@,
            b.spec_workload() == f,
            b.spec_config() == config,
            b.spec_work() == work@,
            b.spec_repeat() == repeat,
            b.spec_ramp_up() == ramp_up,
    {
        Benchmark { name, config, work, f, repeat, ramp_up, error: PhantomData }
    }

    /// Name of the benchmark.
    pub fn name(&self) -> (name: &String)
        ensures
            name@ == self.spec_name(),
    {
        &self.name
    }

    /// Runs the workload once with a fresh stopwatch, started before the call
    /// and stopped after it, and returns the nanoseconds it recorded, at most
    /// `u64::MAX`.
    fn measure(&self, point: &W) -> (outcome: Result<u64, E>)
        requires
            always_callable(self.spec_workload()),
        ensures
            exists|watch: &mut StopWatch, config: C, work: W|
                {
                    &&& #[trigger] call_ensures(
                        self.spec_workload(),
                        (watch, config, work),
                        workload_outcome(outcome),
                    )
                    &&& self.hands(*point, watch@, config, work)
                    &&& outcome matches Ok(nanos) ==> reads(nanos, final(watch)@)
                },
            outcome matches Err(e) ==> raised_by(self.spec_workload(), e),
            never_fails(self.spec_workload()) ==> outcome is Ok,
    {
        let mut stop_watch = StopWatch::new();
        stop_watch.start();
        match (self.f)(&mut stop_watch, self.config.clone(), point.clone()) {
            Ok(unit) => {
                assert(unit == ());
                let ghost left = stop_watch@;
                stop_watch.stop();
                let nanos = stop_watch.accumulated_nanos();
                proof {
                    if left.running {
                        let elapsed = choose|elapsed: nat|
                            stop_watch@.accumulated == accumulate(left.accumulated, elapsed);
                        assert(nanos == recorded_after(left, elapsed));
                    } else {
                        assert(nanos == recorded_after(left, 0));
                    }
                }
                if nanos > 0xffff_ffff_ffff_ffff {
                    Ok(0xffff_ffff_ffff_ffff)
                } else {
                    Ok(nanos as u64)
                }
            },
            Err(e) => Err(e),
        }
    }

    /// Runs the workload at every workload point, in order: first `ramp_up`
    /// times unmeasured, then `repeat` times measured. The first error of the
    /// workload ends the run and is returned as it is. Where the run succeeds,
    /// the workload returned `Ok` at every workload point, and each sample of
    /// a workload point is what was read from the stopwatch of a measured
    /// call at that point.
    pub fn run(&self) -> (outcome: Result<SeriesSummary, E>)
        requires
            self.runnable(),
        ensures
            match outcome {
                Ok(series) => {
                    &&& self.produces(series@)
                    &&& forall|i: int|
                        0 <= i < self.spec_work().len() ==> {
                            &&& self.measures(i, #[trigger] series@.runs[i])
                            &&& exists|samples: Seq<u64>|
                                {
                                    &&& samples.len() == self.spec_repeat()
                                    &&& series@.runs[i].1 == summary_of_samples(
                                        series@.runs[i].0,
                                        self.spec_ramp_up(),
                                        samples,
                                    )
                                    &&& forall|sample: u64| #[trigger]
                                        samples.contains(sample) ==> exists|
                                            watch: &mut StopWatch,
                                            config: C,
                                            work: W,
                                        |
                                            {
                                                &&& #[trigger] call_ensures(
                                                    self.spec_workload(),
                                                    (watch, config, work),
                                                    Ok::<(), E>(()),
                                                )
                                                &&& self.hands(
                                                    self.spec_work()[i],
                                                    watch@,
                                                    config,
                                                    work,
                                                )
                                                &&& reads(sample, final(watch)@)
                                            }
                                }
                        }
                },
                Err(e) => raised_by(self.spec_workload(), e),
            },
            never_fails(self.spec_workload()) ==> outcome is Ok,
            self.spec_work().len() == 0 ==> outcome is Ok,
    {
        let mut series_summary = SeriesSummary::new(self.name.clone(), self.config.to_string());
        let mut i: usize = 0;
        while i < self.work.len()
            invariant
                0 <= i <= self.work.len(),
                self.runnable(),
                series_summary@.name == self.spec_name(),
                renders_as(&self.spec_config(), series_summary@.config),
                series_summary@.runs.len() == i,
                forall|k: int|
                    0 <= k < i ==> {
                        &&& self.measures(k, #[trigger] series_summary@.runs[k])
                        &&& exists|samples: Seq<u64>|
                            {
                                &&& samples.len() == self.spec_repeat()
                                &&& series_summary@.runs[k].1 == summary_of_samples(
                                    series_summary@.runs[k].0,
                                    self.spec_ramp_up(),
                                    samples,
                                )
                                &&& forall|sample: u64| #[trigger]
                                    samples.contains(sample) ==> exists|
                                        watch: &mut StopWatch,
                                        config: C,
                                        work: W,
                                    |
                                        {
                                            &&& #[trigger] call_ensures(
                                                self.spec_workload(),
                                                (watch, config, work),
                                                Ok::<(), E>(()),
                                            )
                                            &&& self.hands(
                                                self.spec_work()[k],
                                                watch@,
                                                config,
                                                work,
                                            )
                                            &&& reads(sample, final(watch)@)
                                        }
                            }
                    },
            decreases self.work.len() - i,
        {
            let w = &self.work[i];
            let mut warm: usize = 0;
            while warm < self.ramp_up
                invariant
                    self.runnable(),
                    self.spec_work().len() > 0,
                    warm > 0 ==> self.warmed(*w),
                decreases self.ramp_up - warm,
            {
                let mut stop_watch = StopWatch::new();
                match (self.f)(&mut stop_watch, self.config.clone(), w.clone()) {
                    Ok(unit) => {
                        assert(unit == ());
                    },
                    Err(e) => {
                        return Err(e);
                    },
                }
                warm += 1;
            }
            let mut durations: Vec<u64> = Vec::new();
            let mut trial: usize = 0;
            while trial < self.repeat
                invariant
                    self.runnable(),
                    self.spec_work().len() > 0,
                    0 <= trial <= self.repeat,
                    durations@.len() == trial,
                    trial > 0 ==> self.timed(*w),
                    forall|sample: u64| #[trigger]
                        durations@.contains(sample) ==> exists|
                            watch: &mut StopWatch,
                            config: C,
                            work: W,
                        |
                            {
                                &&& #[trigger] call_ensures(
                                    self.spec_workload(),
                                    (watch, config, work),
                                    Ok::<(), E>(()),
                                )
                                &&& self.hands(*w, watch@, config, work)
                                &&& reads(sample, final(watch)@)
                            },
                decreases self.repeat - trial,
            {
                match self.measure(w) {
                    Ok(nanos) => {
                        let ghost before = durations@;
                        durations.push(nanos);
                        assert forall|sample: u64| #[trigger]
                            durations@.contains(sample) implies before.contains(sample) || sample
                            == nanos by {
                            let k = choose|k: int|
                                0 <= k < durations@.len() && durations@[k] == sample;
                            if k < before.len() {
                                assert(before[k] == sample);
                            }
                        }
                    },
                    Err(e) => {
                        return Err(e);
                    },
                }
                trial += 1;
            }
            let point = w.to_string();
            let run_summary = RunSummary::from_samples(point.clone(), self.ramp_up, &durations);
            series_summary.add(point, run_summary);
            i += 1;
        }
        Ok(series_summary)
    }

    /// Whether the workload returned `Ok` in an unmeasured run at `point`: in
    /// a call with a stopwatch that has recorded nothing and is stopped, a
    /// clone of the configuration and a clone of the workload point.
    pub open spec fn warmed(&self, point: W) -> bool {
        exists|watch: &mut StopWatch, config: C, work: W|
            {
                &&& #[trigger] call_ensures(
                    self.spec_workload(),
                    (watch, config, work),
                    Ok::<(), E>(()),
                )
                &&& watch@ == (StopWatchView { accumulated: 0, running: false })
                &&& cloned(self.spec_config(), config)
                &&& cloned(point, work)
            }
    }

    /// Whether the workload returned `Ok` in a measured run at `point`: in a
    /// call with what such a run hands to it.
    pub open spec fn timed(&self, point: W) -> bool {
        exists|watch: &mut StopWatch, config: C, work: W|
            {
                &&& #[trigger] call_ensures(
                    self.spec_workload(),
                    (watch, config, work),
                    Ok::<(), E>(()),
                )
                &&& self.hands(point, watch@, config, work)
            }
    }

    /// Whether a measured run at `point` hands these to the workload: a
    /// stopwatch that has recorded nothing and is running, a clone of the
    /// configuration and a clone of the workload point.
    pub open spec fn hands(&self, point: W, watch: StopWatchView, config: C, work: W) -> bool {
        &&& watch == (StopWatchView { accumulated: 0, running: true })
        &&& cloned(self.spec_config(), config)
        &&& cloned(point, work)
    }
}

/// The nanoseconds that a stopwatch in the state `watch` has recorded once it
/// is stopped, where the interval under way, if there is one, lasts `elapsed`
/// nanoseconds.
pub open spec fn recorded_after(watch: StopWatchView, elapsed: nat) -> nat {
    if watch.running {
        accumulate(watch.accumulated, elapsed)
    } else {
        watch.accumulated
    }
}

/// A run succeeds only where the workload returned `Ok` at every workload
/// point: in a measured call and, where there is a ramp-up, in an unmeasured
/// one.
pub proof fn lemma_success_at_every_point<C, W, E, F>(
    benchmark: Benchmark<C, W, E, F>,
    series: SeriesSummaryView,
    i: int,
) where C: Clone + Display, W: Clone + Display, F: Fn(&mut StopWatch, C, W) -> Result<(), E>
    requires
        benchmark.produces(series),
        0 <= i < benchmark.spec_work().len(),
    ensures
        benchmark.spec_repeat() > 0 ==> benchmark.timed(benchmark.spec_work()[i]),
        benchmark.spec_ramp_up() > 0 ==> benchmark.warmed(benchmark.spec_work()[i]),
{
    assert(benchmark.measures(i, series.runs[i]));
}

/// Whether `sample` is what is read from a stopwatch that the workload left
/// in the state `left`: the time that it has recorded once it is stopped, for
/// some length of the interval under way, as a sample.
pub open spec fn reads(sample: u64, left: StopWatchView) -> bool {
    exists|elapsed: nat| sample == sample_of(#[trigger] recorded_after(left, elapsed))
}

/// The sample that stands for a recorded time: the time in nanoseconds, held
/// at `u64::MAX`.
pub open spec fn sample_of(nanos: nat) -> u64 {
    if nanos > u64::MAX {
        u64::MAX
    } else {
        nanos as u64
    }
}

/// What the workload returned where a measured run has the outcome `outcome`.
pub open spec fn workload_outcome<E>(outcome: Result<u64, E>) -> Result<(), E> {
    match outcome {
        Ok(_) => Ok(()),
        Err(e) => Err(e),
    }
}

} // verus!
