use benchmark_rs::run_summary::RunSummary;
use benchmark_rs::statistics::{integer_sqrt, maximum, median, minimum, sorted, std_dev};
use benchmark_rs::wide::Wide;

#[test]
fn minimum_and_maximum_of_samples() {
    let samples: Vec<u64> = vec![5, 3, 9, 3, 7];
    assert_eq!(minimum(&samples), 3);
    assert_eq!(maximum(&samples), 9);
    assert_eq!(minimum(&vec![42]), 42);
    assert_eq!(maximum(&vec![42]), 42);
    assert_eq!(minimum(&vec![u64::MAX, 0]), 0);
    assert_eq!(maximum(&vec![u64::MAX, 0]), u64::MAX);
}

#[test]
fn sorted_is_ascending_and_keeps_every_sample() {
    assert_eq!(sorted(&vec![5, 3, 9, 3, 7]), vec![3, 3, 5, 7, 9]);
    assert_eq!(sorted(&vec![]), Vec::<u64>::new());
    assert_eq!(sorted(&vec![1, 2, 3]), vec![1, 2, 3]);
    assert_eq!(sorted(&vec![3, 2, 1]), vec![1, 2, 3]);
}

#[test]
fn median_of_odd_count_is_the_middle_sample() {
    assert_eq!(median(&vec![5, 1, 3]), 3);
    assert_eq!(median(&vec![10]), 10);
    assert_eq!(median(&vec![9, 9, 1, 1, 5]), 5);
}

#[test]
fn median_of_even_count_is_the_mean_of_the_middle_two() {
    assert_eq!(median(&vec![4, 1, 3, 2]), 2);
    assert_eq!(median(&vec![1, 2]), 1);
    assert_eq!(median(&vec![10, 20]), 15);
    assert_eq!(median(&vec![u64::MAX, u64::MAX]), u64::MAX);
    assert_eq!(median(&vec![u64::MAX, u64::MAX - 1]), u64::MAX - 1);
}

#[test]
fn std_dev_is_absent_below_two_samples() {
    assert_eq!(std_dev(&vec![]), None);
    assert_eq!(std_dev(&vec![5]), None);
}

#[test]
fn std_dev_is_the_floor_of_the_sample_deviation() {
    assert_eq!(std_dev(&vec![2, 4, 4, 4, 5, 5, 7, 9]), Some(2));
    assert_eq!(std_dev(&vec![1000, 2000]), Some(707));
    assert_eq!(std_dev(&vec![7, 7, 7]), Some(0));
    assert_eq!(std_dev(&vec![1, 2, 3, 4, 100]), Some(43));
    assert_eq!(
        std_dev(&vec![1_000_000, 1_000_500, 999_500, 1_001_000]),
        Some(645)
    );
}

#[test]
fn std_dev_of_the_largest_samples() {
    assert_eq!(
        std_dev(&vec![1 << 63, 0]),
        Some(6_521_908_912_666_391_106)
    );
    assert_eq!(
        std_dev(&vec![u64::MAX, 0]),
        Some(13_043_817_825_332_782_211)
    );
    assert_eq!(std_dev(&vec![u64::MAX, u64::MAX, u64::MAX]), Some(0));
    assert_eq!(
        std_dev(&vec![u64::MAX, 0, u64::MAX, 0]),
        Some(10_650_232_656_628_343_400)
    );
    assert_eq!(
        std_dev(&vec![u64::MAX, 0, 0]),
        Some(10_650_232_656_628_343_400)
    );
}

#[test]
fn std_dev_is_present_from_two_samples_on() {
    let mut state: u64 = 0x9e37_79b9_7f4a_7c15;
    let mut samples: Vec<u64> = Vec::new();
    for count in 0..40 {
        assert_eq!(std_dev(&samples).is_some(), count >= 2);
        state ^= state << 13;
        state ^= state >> 7;
        state ^= state << 17;
        samples.push(state);
    }
}

#[test]
fn wide_numbers() {
    let product = Wide::product(u128::MAX, u128::MAX);
    assert_eq!(product.hi, u128::MAX - 1);
    assert_eq!(product.lo, 1);
    let small = Wide::product(6, 7);
    assert_eq!((small.hi, small.lo), (0, 42));
    let shifted = Wide::product(1 << 100, 1 << 100);
    assert_eq!((shifted.hi, shifted.lo), (1 << 72, 0));
    let mixed = Wide::product(0x1_0000_0000_0000_0001, 0xffff_ffff_ffff_ffff_ffff);
    assert_eq!((mixed.hi, mixed.lo), (0x1_0000, 0xfffe_ffff_ffff_ffff_ffff));

    let sum = Wide::of(u128::MAX).plus(Wide::of(1));
    assert_eq!((sum.hi, sum.lo), (1, 0));
    let sum = Wide { hi: 5, lo: u128::MAX }.plus(Wide { hi: 7, lo: u128::MAX });
    assert_eq!((sum.hi, sum.lo), (13, u128::MAX - 1));

    let difference = Wide { hi: 1, lo: 0 }.minus(Wide::of(1));
    assert_eq!((difference.hi, difference.lo), (0, u128::MAX));
    let difference = Wide { hi: 9, lo: 5 }.minus(Wide { hi: 4, lo: 3 });
    assert_eq!((difference.hi, difference.lo), (5, 2));

    assert!(Wide::of(3).at_most(Wide::of(3)));
    assert!(Wide::of(3).at_most(Wide { hi: 1, lo: 0 }));
    assert!(!Wide { hi: 1, lo: 0 }.at_most(Wide::of(u128::MAX)));
    assert!(!Wide { hi: 2, lo: 1 }.at_most(Wide { hi: 2, lo: 0 }));
}

#[test]
fn integer_sqrt_rounds_down() {
    assert_eq!(integer_sqrt(0), 0);
    assert_eq!(integer_sqrt(1), 1);
    assert_eq!(integer_sqrt(3), 1);
    assert_eq!(integer_sqrt(4), 2);
    assert_eq!(integer_sqrt(99), 9);
    assert_eq!(integer_sqrt(100), 10);
    assert_eq!(integer_sqrt(u128::MAX), u64::MAX);
    assert_eq!(integer_sqrt(1 << 125), 6_521_908_912_666_391_106);
}

#[test]
fn summary_of_samples() {
    let samples: Vec<u64> = vec![3_000_000, 1_000_000, 2_000_000, 10_000_000];
    let summary = RunSummary::from_samples("sort".to_string(), 2, &samples);
    assert_eq!(summary.name(), "sort");
    assert_eq!(summary.ramp_up(), 2);
    assert_eq!(summary.repeat(), 4);
    assert_eq!(summary.min_nanos(), 1_000_000);
    assert_eq!(summary.max_nanos(), 10_000_000);
    assert_eq!(summary.median_nanos(), 2_500_000);
    assert_eq!(summary.std_dev(), Some(4_082_482));
    assert_eq!(summary.min_str(), "00:00:00.001");
    assert_eq!(summary.max_str(), "00:00:00.010");
    assert_eq!(summary.median_str(), "00:00:00.002");
    assert_eq!(summary.std_dev_str(), "00:00:00.004");
}

#[test]
fn summary_of_one_sample_has_no_std_dev() {
    let summary = RunSummary::from_samples("once".to_string(), 0, &vec![1_500_000_000]);
    assert_eq!(summary.repeat(), 1);
    assert_eq!(summary.min_nanos(), 1_500_000_000);
    assert_eq!(summary.max_nanos(), 1_500_000_000);
    assert_eq!(summary.median_nanos(), 1_500_000_000);
    assert_eq!(summary.std_dev(), None);
    assert_eq!(summary.std_dev_str(), "null");
    assert_eq!(summary.median_str(), "00:00:01.500");
}
