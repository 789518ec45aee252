//! The results of one benchmark over all its workload points.

use crate::run_summary::{RunSummary, RunSummaryView};
use vstd::prelude::*;
use vstd::string::StringExecFns;

verus! {

/// What a contract sees of a `SeriesSummary`.
pub struct SeriesSummaryView {
    /// Name of the benchmark.
    pub name: Seq<char>,
    /// Description of the configuration the benchmark ran with.
    pub config: Seq<char>,
    /// The workload points in the order they were declared, each with its
    /// summary.
    pub runs: Seq<(Seq<char>, RunSummaryView)>,
}

/// The runs of a series as the contracts see them.
pub open spec fn runs_view(runs: Seq<(String, RunSummary)>) -> Seq<(Seq<char>, RunSummaryView)> {
    runs.map_values(|run: (String, RunSummary)| (run.0@, run.1@))
}

/// Summary of a series of runs.
#[derive(Debug)]
pub struct SeriesSummary {
    name: String,
    config: String,
    runs: Vec<(String, RunSummary)>,
}

impl View for SeriesSummary {
    type V = SeriesSummaryView;

    closed spec fn view(&self) -> SeriesSummaryView {
        SeriesSummaryView {
            name: self.name@,
            config: self.config@,
            runs: runs_view(self.runs@),
        }
    }
}

impl Clone for SeriesSummary {
    fn clone(&self) -> (copy: SeriesSummary)
        ensures
            copy@ == self@,
    {
        let mut runs: Vec<(String, RunSummary)> = Vec::new();
        let mut i: usize = 0;
        while i < self.runs.len()
            invariant
                0 <= i <= self.runs.len(),
                runs@.len() == i,
                runs_view(runs@) == runs_view(self.runs@).subrange(0, i as int),
            decreases self.runs.len() - i,
        {
            let point = self.runs[i].0.clone();
            let summary = self.runs[i].1.clone();
            runs.push((point, summary));
            i += 1;
        }
        assert(runs_view(self.runs@).subrange(0, i as int) =~= runs_view(self.runs@));
        SeriesSummary { name: self.name.clone(), config: self.config.clone(), runs }
    }
}

impl SeriesSummary {
    /// Makes the summary of a benchmark that has no runs yet.
    pub fn new(name: String, config: String) -> (series: SeriesSummary)
        ensures
            series@ == (SeriesSummaryView { name: name@, config: config@, runs: Seq::empty() }),
    {
        let series = SeriesSummary { name, config, runs: Vec::new() };
        assert(series@.runs =~= Seq::empty());
        series
    }

    /// Appends the summary of the workload point `point`.
    pub fn add(&mut self, point: String, run_summary: RunSummary)
        ensures
            final(self)@ == (SeriesSummaryView {
                runs: old(self)@.runs.push((point@, run_summary@)),
                ..old(self)@
            }),
    {
        self.runs.push((point, run_summary));
        assert(self@.runs =~= old(self)@.runs.push((point@, run_summary@)));
    }

    /// The workload points in the order they were declared, each with its
    /// summary.
    pub fn runs(&self) -> (runs: &Vec<(String, RunSummary)>)
        ensures
            runs_view(runs@) == self@.runs,
    {
        &self.runs
    }

    /// The header row of the series as comma-separated values: the names of
    /// the columns and, where `with_config` is set, after an empty column the
    /// configuration.
    pub fn csv_headers(&self, with_config: bool) -> (line: String)
        ensures
            line@ == (if with_config {
                "point,ramp_up,repeat,min_sec,max_sec,median_sec,std_dev_sec,,configuration: "@
                    + self@.config
            } else {
                "point,ramp_up,repeat,min_sec,max_sec,median_sec,std_dev_sec"@
            }),
    {
        proof {
            reveal_strlit("point,");
            reveal_strlit("ramp_up,repeat,min_sec,max_sec,median_sec,std_dev_sec");
            reveal_strlit("point,ramp_up,repeat,min_sec,max_sec,median_sec,std_dev_sec");
            reveal_strlit(",,configuration: ");
            reveal_strlit(
                "point,ramp_up,repeat,min_sec,max_sec,median_sec,std_dev_sec,,configuration: ",
            );
        }
        let mut line = "point,".to_owned();
        let columns = RunSummary::csv_headers();
        line.append(columns.as_str());
        assert(line@ =~= "point,ramp_up,repeat,min_sec,max_sec,median_sec,std_dev_sec"@);
        if with_config {
            line.append(",,configuration: ");
            line.append(self.config.as_str());
            assert(line@
                =~= "point,ramp_up,repeat,min_sec,max_sec,median_sec,std_dev_sec,,configuration: "@
                + self@.config);
        }
        line
    }

    /// Name of the benchmark.
    pub fn name(&self) -> (name: &String)
        ensures
            name@ == self@.name,
    {
        &self.name
    }

    /// Description of the configuration the benchmark ran with.
    pub fn config(&self) -> (config: String)
        ensures
            config@ == self@.config,
    {
        self.config.clone()
    }
}

} // verus!
