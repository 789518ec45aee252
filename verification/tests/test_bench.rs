use benchmark_rs::benchmark_comparison::Verdict;
use benchmark_rs::benchmarks::Benchmarks;
use benchmark_rs::stopwatch::StopWatch;
use benchmark_rs::threshold::Threshold;
use std::fmt::{Display, Formatter};
use std::time::Duration;

#[derive(Clone)]
struct BenchConfig {
    duration: Duration,
}

impl BenchConfig {
    fn new(t: u64) -> BenchConfig {
        let duration = Duration::from_micros(t);
        BenchConfig { duration }
    }

    fn duration(&self) -> Duration {
        self.duration
    }
}

impl Display for BenchConfig {
    fn fmt(&self, f: &mut Formatter<'_>) -> std::fmt::Result {
        f.write_str(&format!("slowdown: {}", self.duration.as_micros()))
    }
}

fn scrambled(n: usize) -> Vec<u64> {
    let mut state: u64 = 0x9e37_79b9_7f4a_7c15;
    let mut v = Vec::new();
    for _ in 0..n {
        state ^= state << 13;
        state ^= state >> 7;
        state ^= state << 17;
        v.push(state);
    }
    v
}

fn percent(t: f64) -> Threshold {
    Threshold::from_bits(t.to_bits())
}

#[test]
#[should_panic]
fn test_zero_runs() {
    let mut benchmarks = Benchmarks::new("Test");
    benchmarks
        .add(
            "run zero times",
            zero_runs,
            BenchConfig::new(0),
            vec![0],
            0,
            0,
        )
        .expect("zero runs");
}

fn zero_runs(
    _stop_watch: &mut StopWatch,
    _config: BenchConfig,
    _work: i64,
) -> Result<(), anyhow::Error> {
    Ok(())
}

#[test]
#[should_panic]
fn test_benchmark_exists() {
    let mut benchmarks = Benchmarks::new("Test");
    benchmarks
        .add("exists", exists_bench, BenchConfig::new(0), vec![0], 1, 1)
        .expect("benchmark exists");
    benchmarks
        .add("exists", exists_bench, BenchConfig::new(0), vec![0], 1, 1)
        .expect("benchmark exists");
}

fn exists_bench(
    _stop_watch: &mut StopWatch,
    _config: BenchConfig,
    _work: i64,
) -> Result<(), anyhow::Error> {
    Ok(())
}

#[test]
fn test_analyze_new() {
    let work: Vec<usize> = (0..=2).map(|i| i * 100).collect();
    let mut benchmarks = Benchmarks::new("Test");
    benchmarks
        .add("sort n", bench_sort, BenchConfig::new(0), work, 2, 1)
        .unwrap();
    benchmarks.run().unwrap();

    let new_result = benchmarks.analyze(None, percent(0.0)).unwrap();
    assert!(!new_result.new_series().is_empty());
    assert!(new_result.results().is_empty());
}

#[test]
fn test_analyze_identical() {
    let work: Vec<usize> = (0..=3).map(|i| i * 100).collect();
    let mut benchmarks = Benchmarks::new("Test");
    benchmarks
        .add(
            "sort n",
            bench_sort,
            BenchConfig::new(0),
            work.clone(),
            2,
            1,
        )
        .unwrap();
    benchmarks
        .add(
            "sort n and rest",
            bench_sort,
            BenchConfig::new(10),
            work.clone(),
            2,
            1,
        )
        .unwrap();
    benchmarks.run().unwrap();

    let previous = benchmarks.summary("now".to_string());
    let equal_result = benchmarks.analyze(Some(&previous), percent(0.0)).unwrap();
    assert!(equal_result.new_series().is_empty());
    assert!(!equal_result.equal_series().is_empty());
}

#[test]
fn test_analyze_different_runs_same_configuration() {
    let work: Vec<usize> = (1..=4).map(|i| i * 100).collect();
    let mut benchmarks0 = Benchmarks::new("Test");
    benchmarks0
        .add(
            "sort n",
            bench_sort,
            BenchConfig::new(0),
            work.clone(),
            30,
            1,
        )
        .unwrap();
    benchmarks0
        .add(
            "sort n and rest",
            bench_sort,
            BenchConfig::new(10),
            work.clone(),
            2,
            1,
        )
        .unwrap();
    benchmarks0.run().unwrap();

    let mut benchmarks = Benchmarks::new("Test");
    benchmarks
        .add(
            "sort n",
            bench_sort,
            BenchConfig::new(0),
            work.clone(),
            30,
            1,
        )
        .unwrap();
    benchmarks
        .add(
            "sort n and rest",
            bench_sort,
            BenchConfig::new(10),
            work.clone(),
            2,
            1,
        )
        .unwrap();
    benchmarks.run().unwrap();

    let first_run_result = benchmarks.summary("now".to_string());

    let mut benchmarks2 = Benchmarks::new("Test");
    benchmarks2
        .add(
            "sort n",
            bench_sort,
            BenchConfig::new(0),
            work.clone(),
            30,
            1,
        )
        .unwrap();
    benchmarks2
        .add(
            "sort n and rest",
            bench_sort,
            BenchConfig::new(10),
            work.clone(),
            2,
            1,
        )
        .unwrap();
    benchmarks2.run().unwrap();

    let different_runs_result = benchmarks2
        .analyze(Some(&first_run_result), percent(10.0))
        .unwrap();
    assert!(!different_runs_result.equal_series().is_empty());
    assert!(different_runs_result.divergent_series().is_empty());
}

#[test]
fn test_analyze_different_runs_degradation() {
    let work: Vec<usize> = (1..=4).map(|i| i * 100).collect();
    let mut benchmarks = Benchmarks::new("Test");
    benchmarks
        .add(
            "sort n",
            bench_sort,
            BenchConfig::new(0),
            work.clone(),
            30,
            1,
        )
        .unwrap();
    benchmarks
        .add(
            "sort n and rest",
            bench_sort,
            BenchConfig::new(10),
            work.clone(),
            2,
            1,
        )
        .unwrap();
    benchmarks.run().unwrap();

    let first_run_result = benchmarks.summary("now".to_string());

    let mut benchmarks2 = Benchmarks::new("Test");
    benchmarks2
        .add(
            "sort n",
            bench_sort,
            BenchConfig::new(10),
            work.clone(),
            30,
            1,
        )
        .unwrap();
    benchmarks2
        .add(
            "sort n and rest",
            bench_sort,
            BenchConfig::new(100),
            work.clone(),
            2,
            1,
        )
        .unwrap();
    benchmarks2.run().unwrap();

    let different_runs_result = benchmarks2
        .analyze(Some(&first_run_result), percent(10.0))
        .unwrap();
    assert!(!different_runs_result.divergent_series().is_empty());
    for (series_name, series) in different_runs_result.divergent_series().entries() {
        for (_point, benchmark_comparison) in series.entries() {
            let point = benchmark_comparison.point();
            let previous = benchmark_comparison.previous();
            let current = benchmark_comparison.current();
            match benchmark_comparison.verdict() {
                Verdict::Less => {
                    panic!("series_name: {series_name}, point: {point}, previous: {previous}, current: {current}");
                }
                Verdict::Equal => {
                    panic!("series_name: {series_name}, point: {point}, previous: {previous}, current: {current}");
                }
                Verdict::Greater => {
                    assert!(current > previous);
                }
            }
        }
    }
}

#[test]
fn test_analyze_different_runs_improvement() {
    let work: Vec<usize> = (1..=4).map(|i| i * 100).collect();
    let mut benchmarks = Benchmarks::new("Test");
    benchmarks
        .add(
            "sort n",
            bench_sort,
            BenchConfig::new(10),
            work.clone(),
            2,
            1,
        )
        .unwrap();
    benchmarks
        .add(
            "sort n and rest",
            bench_sort,
            BenchConfig::new(100),
            work.clone(),
            2,
            1,
        )
        .unwrap();
    benchmarks.run().unwrap();

    let first_run_result = benchmarks.summary("now".to_string());

    let mut benchmarks2 = Benchmarks::new("Test");
    benchmarks2
        .add(
            "sort n",
            bench_sort,
            BenchConfig::new(0),
            work.clone(),
            2,
            1,
        )
        .unwrap();
    benchmarks2
        .add(
            "sort n and rest",
            bench_sort,
            BenchConfig::new(10),
            work.clone(),
            2,
            1,
        )
        .unwrap();
    benchmarks2.run().unwrap();

    let different_runs_result = benchmarks2
        .analyze(Some(&first_run_result), percent(10.0))
        .unwrap();
    assert!(!different_runs_result.divergent_series().is_empty());
    for (series_name, series) in different_runs_result.divergent_series().entries() {
        for (_point, benchmark_comparison) in series.entries() {
            let point = benchmark_comparison.point();
            let previous = benchmark_comparison.previous();
            let current = benchmark_comparison.current();
            match benchmark_comparison.verdict() {
                Verdict::Less => {
                    assert!(current < previous);
                }
                Verdict::Equal => {
                    panic!("series_name: {series_name}, point: {point}, previous: {previous}, current: {current}");
                }
                Verdict::Greater => {
                    panic!("series_name: {series_name}, point: {point}, previous: {previous}, current: {current}");
                }
            }
        }
    }
}

#[test]
fn test_csv() {
    let work: Vec<usize> = (0..=2).map(|i| i * 100).collect();
    let mut benchmarks = Benchmarks::new("Test");
    benchmarks
        .add("sort-n", bench_sort, BenchConfig::new(0), work, 2, 1)
        .unwrap();
    benchmarks.run().unwrap();

    let configs = benchmarks.configs();
    assert_eq!(configs.entries().len(), 1);
    for (key, value) in configs.entries() {
        assert_eq!(key, "sort-n");
        assert_eq!(value, "slowdown: 0");
    }
}

/// Sorts `work` numbers. A comparison costs a nanosecond and what the
/// configuration adds to it; the workload records that cost on the stopwatch
/// instead of waiting for it, so that the time of a run is set by its
/// configuration and not by the load of the machine.
fn bench_sort(
    stop_watch: &mut StopWatch,
    config: BenchConfig,
    work: usize,
) -> Result<(), anyhow::Error> {
    stop_watch.pause();
    let mut v: Vec<u64> = scrambled(work);
    stop_watch.resume();
    let mut comparisons: u128 = 0;
    v.sort_by(|x, y| {
        comparisons += 1;
        x.cmp(y)
    });
    stop_watch.reset();
    stop_watch.resume();
    stop_watch.stop_after(comparisons * (config.duration().as_nanos() + 1));
    Ok(())
}
