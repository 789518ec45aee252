use benchmark_rs::analysis::{analyze, compare_series};
use benchmark_rs::analysis_result::{is_all_equal, AnalysisResult};
use benchmark_rs::benchmark_comparison::{
    compare_median, BenchmarkComparison, PercentChange, Verdict,
};
use benchmark_rs::error::{CompareError, ConfigError};
use benchmark_rs::name_map::NameMap;
use benchmark_rs::run_summary::RunSummary;
use benchmark_rs::series_summary::SeriesSummary;
use benchmark_rs::summary::Summary;
use benchmark_rs::threshold::Threshold;

fn percent(t: f64) -> Threshold {
    Threshold::from_bits(t.to_bits())
}

fn run(median: u64) -> RunSummary {
    RunSummary::new("bench".to_string(), 1, 2, median, median, median, Some(0))
}

fn series(name: &str, runs: &[(&str, u64)]) -> SeriesSummary {
    let mut series = SeriesSummary::new(name.to_string(), "config".to_string());
    for (point, median) in runs {
        series.add(point.to_string(), run(*median));
    }
    series
}

fn summary(name: &str, all: Vec<SeriesSummary>) -> Summary {
    let mut summary = Summary::new(name.to_string(), "then".to_string());
    for series in all {
        summary.add(series.name().clone(), series);
    }
    summary
}

fn verdicts(comparisons: &NameMap<BenchmarkComparison>) -> Vec<(String, Verdict)> {
    comparisons
        .entries()
        .iter()
        .map(|(point, comparison)| (point.clone(), comparison.verdict()))
        .collect()
}

#[test]
fn slower_beyond_threshold_is_greater() {
    let comparison = compare_median("p", 150, 100, percent(10.0));
    assert_eq!(comparison.verdict(), Verdict::Greater);
    assert_eq!(comparison.point(), "p");
    assert_eq!(comparison.previous(), 100);
    assert_eq!(comparison.current(), 150);
    assert_eq!(
        comparison.change(),
        PercentChange {
            numerator: 5000,
            denominator: 100
        }
    );
    assert!(matches!(
        comparison,
        BenchmarkComparison::Greater {
            previous: 100,
            current: 150,
            ..
        }
    ));
}

#[test]
fn faster_beyond_threshold_is_less() {
    let comparison = compare_median("p", 60, 100, percent(10.0));
    assert_eq!(comparison.verdict(), Verdict::Less);
    assert_eq!(
        comparison.change(),
        PercentChange {
            numerator: -4000,
            denominator: 100
        }
    );
    assert!(matches!(comparison, BenchmarkComparison::Less { .. }));
}

#[test]
fn change_within_threshold_is_equal() {
    let comparison = compare_median("p", 104, 100, percent(5.0));
    assert_eq!(comparison.verdict(), Verdict::Equal);
    assert_eq!(
        comparison.change(),
        PercentChange {
            numerator: 400,
            denominator: 100
        }
    );
    assert!(matches!(comparison, BenchmarkComparison::Equal { .. }));
}

#[test]
fn change_at_the_threshold_is_equal() {
    assert_eq!(
        compare_median("p", 110, 100, percent(10.0)).verdict(),
        Verdict::Equal
    );
    assert_eq!(
        compare_median("p", 90, 100, percent(10.0)).verdict(),
        Verdict::Equal
    );
    assert_eq!(
        compare_median("p", 111, 100, percent(10.0)).verdict(),
        Verdict::Greater
    );
    assert_eq!(
        compare_median("p", 89, 100, percent(10.0)).verdict(),
        Verdict::Less
    );
    assert_eq!(
        compare_median("p", 1005, 1000, percent(0.5)).verdict(),
        Verdict::Equal
    );
    assert_eq!(
        compare_median("p", 1006, 1000, percent(0.5)).verdict(),
        Verdict::Greater
    );
}

#[test]
fn sign_of_threshold_is_ignored() {
    assert_eq!(
        compare_median("p", 104, 100, percent(-5.0)).verdict(),
        Verdict::Equal
    );
    assert_eq!(
        compare_median("p", 150, 100, percent(-10.0)).verdict(),
        Verdict::Greater
    );
    assert_eq!(
        compare_median("p", 60, 100, percent(-10.0)).verdict(),
        Verdict::Less
    );
}

#[test]
fn zero_threshold_asks_for_equal_medians() {
    assert_eq!(
        compare_median("p", 100, 100, percent(0.0)).verdict(),
        Verdict::Equal
    );
    assert_eq!(
        compare_median("p", 101, 100, percent(0.0)).verdict(),
        Verdict::Greater
    );
    assert_eq!(
        compare_median("p", 99, 100, percent(0.0)).verdict(),
        Verdict::Less
    );
    assert_eq!(
        compare_median("p", u64::MAX, u64::MAX - 1, percent(0.0)).verdict(),
        Verdict::Greater
    );
}

#[test]
fn thresholds_that_are_not_finite() {
    assert_eq!(
        compare_median("p", 1_000_000, 1, percent(f64::INFINITY)).verdict(),
        Verdict::Equal
    );
    assert_eq!(
        compare_median("p", 101, 100, percent(f64::NAN)).verdict(),
        Verdict::Greater
    );
    assert_eq!(
        compare_median("p", 100, 100, percent(f64::NAN)).verdict(),
        Verdict::Equal
    );
}

#[test]
fn previous_median_of_zero() {
    assert_eq!(
        compare_median("p", 0, 0, percent(10.0)).verdict(),
        Verdict::Equal
    );
    assert_eq!(
        compare_median("p", 5, 0, percent(10.0)).verdict(),
        Verdict::Greater
    );
    assert_eq!(
        compare_median("p", 5, 0, percent(f64::INFINITY)).verdict(),
        Verdict::Equal
    );
    assert_eq!(
        compare_median("p", 5, 0, percent(10.0)).change(),
        PercentChange {
            numerator: 500,
            denominator: 0
        }
    );
}

#[test]
fn very_small_and_very_large_thresholds() {
    assert_eq!(
        compare_median("p", u64::MAX - 1, u64::MAX, Threshold::from_bits(1)).verdict(),
        Verdict::Less
    );
    assert_eq!(
        compare_median("p", u64::MAX, 1, percent(1e300)).verdict(),
        Verdict::Equal
    );
    assert_eq!(
        compare_median("p", u64::MAX, 1, percent(1e21)).verdict(),
        Verdict::Greater
    );
    assert_eq!(
        compare_median("p", u64::MAX, 1, percent(1e22)).verdict(),
        Verdict::Equal
    );
    assert_eq!(
        compare_median("p", 3, 2, percent(49.99999999999999)).verdict(),
        Verdict::Greater
    );
    assert_eq!(
        compare_median("p", 3, 2, percent(50.0)).verdict(),
        Verdict::Equal
    );
}

#[test]
fn change_is_set_against_the_threshold_without_rounding() {
    // 100 / 7 percent lies between these two doubles.
    assert_eq!(
        compare_median("p", 8, 7, percent(14.285714285714278)).verdict(),
        Verdict::Greater
    );
    assert_eq!(
        compare_median("p", 8, 7, percent(14.285714285714286)).verdict(),
        Verdict::Equal
    );
    assert_eq!(
        compare_median("p", 6, 7, percent(14.285714285714278)).verdict(),
        Verdict::Less
    );
    assert_eq!(
        compare_median("p", 6, 7, percent(14.285714285714286)).verdict(),
        Verdict::Equal
    );
}

#[test]
fn threshold_of_bits() {
    assert_eq!(
        percent(10.0),
        Threshold::Finite {
            mantissa: 5_629_499_534_213_120,
            exponent: -49
        }
    );
    assert_eq!(percent(-10.0), percent(10.0));
    assert_eq!(
        percent(0.5),
        Threshold::Finite {
            mantissa: 4_503_599_627_370_496,
            exponent: -53
        }
    );
    assert_eq!(
        percent(0.0),
        Threshold::Finite {
            mantissa: 0,
            exponent: -1074
        }
    );
    assert_eq!(
        percent(1e300),
        Threshold::Finite {
            mantissa: 6_724_873_095_247_260,
            exponent: 944
        }
    );
    assert_eq!(
        Threshold::from_bits(1),
        Threshold::Finite {
            mantissa: 1,
            exponent: -1074
        }
    );
    assert_eq!(percent(f64::INFINITY), Threshold::Unbounded);
    assert_eq!(percent(f64::NEG_INFINITY), Threshold::Unbounded);
    assert_eq!(percent(f64::NAN), Threshold::Undefined);
    assert_eq!(
        Threshold::percent(10),
        Threshold::Finite {
            mantissa: 10,
            exponent: 0
        }
    );
}

#[test]
fn whole_percent_threshold() {
    let ten = Threshold::percent(10);
    assert!(ten.within(110, 100));
    assert!(ten.within(90, 100));
    assert!(!ten.within(111, 100));
    assert!(!ten.within(89, 100));
    assert!(!ten.within(1, 0));
    assert!(Threshold::percent(0).within(7, 7));
    assert!(!Threshold::percent(0).within(8, 7));
    assert!(Threshold::percent(u64::MAX).within(u64::MAX / 100, 1));
    assert!(!Threshold::percent(u64::MAX).within(u64::MAX, 1));
}

#[test]
fn series_are_compared_point_by_point() {
    let current = series("bench", &[("100", 150), ("200", 60), ("300", 104)]);
    let previous = series("bench", &[("100", 100), ("200", 100), ("300", 100)]);
    let comparisons = compare_series(current.runs(), previous.runs(), percent(10.0)).unwrap();
    assert_eq!(
        verdicts(&comparisons),
        vec![
            ("100".to_string(), Verdict::Greater),
            ("200".to_string(), Verdict::Less),
            ("300".to_string(), Verdict::Equal),
        ]
    );
    let at_200 = comparisons.get(&"200".to_string()).unwrap();
    assert_eq!(at_200.point(), "200");
    assert_eq!(at_200.previous(), 100);
    assert_eq!(at_200.current(), 60);
    assert!(!is_all_equal(&comparisons));
}

#[test]
fn empty_series_are_not_compared() {
    let empty = series("bench", &[]);
    let full = series("bench", &[("100", 1)]);
    assert_eq!(
        compare_series(empty.runs(), full.runs(), percent(10.0)).unwrap_err(),
        CompareError::EmptySeries
    );
    assert_eq!(
        compare_series(full.runs(), empty.runs(), percent(10.0)).unwrap_err(),
        CompareError::EmptySeries
    );
    assert_eq!(
        compare_series(empty.runs(), empty.runs(), percent(10.0)).unwrap_err(),
        CompareError::EmptySeries
    );
}

#[test]
fn series_with_different_points_are_not_compared() {
    let current = series("bench", &[("100", 1), ("200", 2)]);
    let renamed = series("bench", &[("100", 1), ("250", 2)]);
    let swapped = series("bench", &[("200", 2), ("100", 1)]);
    let longer = series("bench", &[("100", 1), ("200", 2), ("300", 3)]);
    assert_eq!(
        compare_series(current.runs(), renamed.runs(), percent(10.0)).unwrap_err(),
        CompareError::DifferentPoints
    );
    assert_eq!(
        compare_series(current.runs(), swapped.runs(), percent(10.0)).unwrap_err(),
        CompareError::DifferentPoints
    );
    assert_eq!(
        compare_series(current.runs(), longer.runs(), percent(10.0)).unwrap_err(),
        CompareError::DifferentPoints
    );
}

#[test]
fn last_comparison_of_a_repeated_point_stands() {
    let current = series("bench", &[("100", 200), ("100", 100)]);
    let previous = series("bench", &[("100", 100), ("100", 100)]);
    let comparisons = compare_series(current.runs(), previous.runs(), percent(10.0)).unwrap();
    assert_eq!(
        verdicts(&comparisons),
        vec![("100".to_string(), Verdict::Equal)]
    );
    assert!(is_all_equal(&comparisons));
}

#[test]
fn without_previous_summary_every_series_is_new() {
    let current = summary(
        "suite",
        vec![series("a", &[("1", 10)]), series("b", &[]), series("c", &[("1", 30)])],
    );
    for threshold in [percent(0.0), percent(10.0), percent(f64::NAN)] {
        let result = analyze(&current, None, threshold).unwrap();
        assert_eq!(result.name(), "suite");
        assert_eq!(
            result.new_series().names(),
            vec!["a".to_string(), "b".to_string(), "c".to_string()]
        );
        assert!(result.equal_series().is_empty());
        assert!(result.divergent_series().is_empty());
        assert!(result.results().is_empty());
    }
}

#[test]
fn summary_against_itself_is_equal_everywhere() {
    let current = summary(
        "suite",
        vec![
            series("a", &[("1", 10), ("2", 20)]),
            series("b", &[("x", 0), ("y", u64::MAX)]),
        ],
    );
    let previous = summary(
        "suite",
        vec![
            series("a", &[("1", 10), ("2", 20)]),
            series("b", &[("x", 0), ("y", u64::MAX)]),
        ],
    );
    let result = analyze(&current, Some(&previous), percent(0.0)).unwrap();
    assert!(result.new_series().is_empty());
    assert!(result.divergent_series().is_empty());
    assert_eq!(result.equal_series().entries().len(), 2);
    for (_name, comparisons) in result.equal_series().entries() {
        assert_eq!(comparisons.entries().len(), 2);
        for (_point, comparison) in comparisons.entries() {
            assert_eq!(comparison.verdict(), Verdict::Equal);
            assert_eq!(comparison.previous(), comparison.current());
        }
    }
}

#[test]
fn one_point_outside_the_threshold_makes_a_series_divergent() {
    let current = summary(
        "suite",
        vec![
            series("steady", &[("1", 100), ("2", 204), ("3", 300)]),
            series("noisy", &[("1", 100), ("2", 200), ("3", 345)]),
            series("fresh", &[("1", 1)]),
        ],
    );
    let previous = summary(
        "suite",
        vec![
            series("steady", &[("1", 100), ("2", 200), ("3", 300)]),
            series("noisy", &[("1", 100), ("2", 200), ("3", 300)]),
            series("gone", &[("1", 1)]),
        ],
    );
    let result = analyze(&current, Some(&previous), percent(10.0)).unwrap();
    assert_eq!(result.new_series().names(), vec!["fresh".to_string()]);

    assert_eq!(result.equal_series().entries().len(), 1);
    let steady = result.equal_series().get(&"steady".to_string()).unwrap();
    assert_eq!(
        verdicts(steady),
        vec![
            ("1".to_string(), Verdict::Equal),
            ("2".to_string(), Verdict::Equal),
            ("3".to_string(), Verdict::Equal),
        ]
    );

    assert_eq!(result.divergent_series().entries().len(), 1);
    let noisy = result.divergent_series().get(&"noisy".to_string()).unwrap();
    assert_eq!(
        verdicts(noisy),
        vec![
            ("1".to_string(), Verdict::Equal),
            ("2".to_string(), Verdict::Equal),
            ("3".to_string(), Verdict::Greater),
        ]
    );
    assert!(result.results().contains_key(&"noisy".to_string()));
    assert!(!result.results().contains_key(&"steady".to_string()));
    assert!(!result.equal_series().contains_key(&"fresh".to_string()));
    assert!(!result.divergent_series().contains_key(&"fresh".to_string()));
}

#[test]
fn summaries_of_different_suites_are_not_compared() {
    let current = summary("suite", vec![series("a", &[("1", 10)])]);
    let previous = summary("other", vec![series("a", &[("1", 10)])]);
    assert_eq!(
        analyze(&current, Some(&previous), percent(10.0)).unwrap_err(),
        CompareError::NameMismatch
    );
}

#[test]
fn analysis_fails_on_a_shared_series_with_different_points() {
    let current = summary(
        "suite",
        vec![series("a", &[("1", 10), ("2", 20)]), series("b", &[("1", 1)])],
    );
    let previous = summary(
        "suite",
        vec![series("a", &[("1", 10), ("3", 20)]), series("b", &[("1", 1)])],
    );
    assert_eq!(
        analyze(&current, Some(&previous), percent(10.0)).unwrap_err(),
        CompareError::DifferentPoints
    );
}

#[test]
fn analysis_fails_on_a_shared_series_without_points() {
    let current = summary("suite", vec![series("a", &[])]);
    let previous = summary("suite", vec![series("a", &[])]);
    assert_eq!(
        analyze(&current, Some(&previous), percent(0.0)).unwrap_err(),
        CompareError::EmptySeries
    );
}

#[test]
fn analysis_result_sorts_series_by_their_points() {
    let mut result = AnalysisResult::new("suite".to_string());
    assert_eq!(result.name(), "suite");
    assert!(result.new_series().is_empty());
    result.add_new("fresh".to_string());
    assert!(result.new_series().contains(&"fresh".to_string()));

    let mut equal: NameMap<BenchmarkComparison> = NameMap::new();
    equal.insert("1".to_string(), compare_median("1", 100, 100, percent(1.0)));
    equal.insert("2".to_string(), compare_median("2", 100, 100, percent(1.0)));
    assert!(is_all_equal(&equal));
    result.add("same".to_string(), equal);

    let mut mixed: NameMap<BenchmarkComparison> = NameMap::new();
    mixed.insert("1".to_string(), compare_median("1", 100, 100, percent(1.0)));
    mixed.insert("2".to_string(), compare_median("2", 50, 100, percent(1.0)));
    assert!(!is_all_equal(&mixed));
    result.add("faster".to_string(), mixed);

    let none: NameMap<BenchmarkComparison> = NameMap::new();
    assert!(is_all_equal(&none));
    result.add("nothing".to_string(), none);

    assert!(result.equal_series().contains_key(&"same".to_string()));
    assert!(result.equal_series().contains_key(&"nothing".to_string()));
    assert!(!result.equal_series().contains_key(&"faster".to_string()));
    assert!(result.divergent_series().contains_key(&"faster".to_string()));
    assert!(!result.divergent_series().contains_key(&"same".to_string()));
    assert_eq!(result.results().entries().len(), 1);
}

#[test]
fn comparison_clone_is_equal() {
    let comparison = compare_median("p", 60, 100, percent(10.0));
    let copy = comparison.clone();
    assert_eq!(copy.verdict(), Verdict::Less);
    assert_eq!(copy.point(), "p");
    assert_eq!(copy.previous(), 100);
    assert_eq!(copy.current(), 60);
    assert_eq!(copy.change(), comparison.change());
}

#[test]
fn error_messages() {
    assert_eq!(
        ConfigError::DuplicateName.message(),
        "Benchmark with identical name exists"
    );
    assert_eq!(ConfigError::ZeroRepeat.message(), "Cannot benchmark 0 runs");
    assert_eq!(
        CompareError::NameMismatch.message(),
        "Comparing differently named benchmarks"
    );
    assert_eq!(
        CompareError::EmptySeries.message(),
        "Can compare only non empty series"
    );
    assert_eq!(
        CompareError::DifferentPoints.message(),
        "Can compare series with identical workload points only"
    );
}
