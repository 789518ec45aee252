//! Statistics of a sample of durations, each a count of nanoseconds.

use crate::wide::{full, Wide, HALF};
use vstd::prelude::*;
use vstd::relations::sorted_by;
use vstd::seq_lib::{lemma_sorted_unique, to_multiset_build, to_multiset_insert};

verus! {

/// The middle of the range of a sample: two to the power 63.
pub const MIDDLE: u64 = 0x8000_0000_0000_0000;

/// The order of the samples: smaller or equal.
pub open spec fn at_most() -> spec_fn(u64, u64) -> bool {
    |a: u64, b: u64| a <= b
}

/// Whether `m` is the least value of the non-empty sample `s`.
pub open spec fn is_minimum(s: Seq<u64>, m: u64) -> bool {
    s.contains(m) && forall|i: int| 0 <= i < s.len() ==> m <= #[trigger] s[i]
}

/// Whether `m` is the greatest value of the non-empty sample `s`.
pub open spec fn is_maximum(s: Seq<u64>, m: u64) -> bool {
    s.contains(m) && forall|i: int| 0 <= i < s.len() ==> #[trigger] s[i] <= m
}

/// The value in the middle of a sorted sample: the middle element of an odd
/// number of values, and the mean of the two middle elements, rounded down, of
/// an even number.
pub open spec fn middle_value(sorted: Seq<u64>) -> int {
    let n = sorted.len() as int;
    if n % 2 == 1 {
        sorted[n / 2] as int
    } else {
        (sorted[n / 2 - 1] + sorted[n / 2]) / 2
    }
}

/// The median of the sample `s`: the middle value of the sample in ascending
/// order.
pub open spec fn median_of(s: Seq<u64>) -> int {
    middle_value(s.sort_by(at_most()))
}

/// The least value of the non-empty sample `s`.
pub open spec fn min_of(s: Seq<u64>) -> u64 {
    choose|m: u64| is_minimum(s, m)
}

/// The greatest value of the non-empty sample `s`.
pub open spec fn max_of(s: Seq<u64>) -> u64 {
    choose|m: u64| is_maximum(s, m)
}

/// The sum of the sample.
pub open spec fn sum_of(s: Seq<u64>) -> int
    decreases s.len(),
{
    if s.len() == 0 {
        0
    } else {
        sum_of(s.drop_last()) + s.last()
    }
}

/// The sum of the squares of the sample.
pub open spec fn sum_of_squares(s: Seq<u64>) -> int
    decreases s.len(),
{
    if s.len() == 0 {
        0
    } else {
        sum_of_squares(s.drop_last()) + s.last() * s.last()
    }
}

/// The sum of the squared distances of the samples from their mean, times the
/// number of samples: `n * sum(x * x) - sum(x) * sum(x)`.
pub open spec fn scaled_squared_deviations(s: Seq<u64>) -> int {
    s.len() * sum_of_squares(s) - sum_of(s) * sum_of(s)
}

/// The sample variance, rounded down: the sum of the squared distances from
/// the mean, divided by one less than the number of samples.
pub open spec fn variance_of(s: Seq<u64>) -> int {
    scaled_squared_deviations(s) / (s.len() * (s.len() - 1))
}

/// Whether `root` is the square root of `value`, rounded down.
pub open spec fn is_floor_sqrt(value: int, root: int) -> bool {
    0 <= root && root * root <= value < (root + 1) * (root + 1)
}

/// The square root of `value`, rounded down.
pub open spec fn floor_sqrt(value: int) -> int {
    choose|root: int| is_floor_sqrt(value, root)
}

/// The sample standard deviation in whole nanoseconds, rounded down. There is
/// none of fewer than two samples.
pub open spec fn std_dev_of(s: Seq<u64>) -> Option<int> {
    if s.len() < 2 {
        None
    } else {
        Some(floor_sqrt(variance_of(s)))
    }
}

/// A least value is the only one.
pub proof fn lemma_minimum_unique(s: Seq<u64>, m: u64)
    requires
        is_minimum(s, m),
    ensures
        min_of(s) == m,
{
    let other = min_of(s);
}

/// A greatest value is the only one.
pub proof fn lemma_maximum_unique(s: Seq<u64>, m: u64)
    requires
        is_maximum(s, m),
    ensures
        max_of(s) == m,
{
    let other = max_of(s);
}

/// A floor of the square root is the only one.
pub proof fn lemma_floor_sqrt_unique(value: int, root: int)
    requires
        is_floor_sqrt(value, root),
    ensures
        floor_sqrt(value) == root,
{
    let other = floor_sqrt(value);
    if other < root {
        assert((other + 1) * (other + 1) <= root * root) by (nonlinear_arith)
            requires
                0 <= other,
                other + 1 <= root,
        ;
    } else if root < other {
        assert((root + 1) * (root + 1) <= other * other) by (nonlinear_arith)
            requires
                0 <= root,
                root + 1 <= other,
        ;
    }
}

/// The sum of the squared distances of the samples from any value `x` is not
/// negative.
proof fn lemma_squared_distances(s: Seq<u64>, x: int)
    ensures
        sum_of_squares(s) - 2 * x * sum_of(s) + s.len() * x * x >= 0,
    decreases s.len(),
{
    if s.len() > 0 {
        let head = s.drop_last();
        let y = s.last() as int;
        lemma_squared_distances(head, x);
        assert(sum_of_squares(head) + y * y - 2 * x * (sum_of(head) + y) + (head.len() + 1) * x * x
            == sum_of_squares(head) - 2 * x * sum_of(head) + head.len() * x * x + (y - x) * (y
            - x)) by (nonlinear_arith);
        assert((y - x) * (y - x) >= 0) by (nonlinear_arith);
    }
}

/// The squared sum of a sample is at most the number of samples times the sum
/// of their squares.
pub proof fn lemma_deviations_not_negative(s: Seq<u64>)
    ensures
        scaled_squared_deviations(s) >= 0,
    decreases s.len(),
{
    if s.len() > 0 {
        let head = s.drop_last();
        let y = s.last() as int;
        lemma_deviations_not_negative(head);
        lemma_squared_distances(head, y);
        let n = head.len() as int;
        let q = sum_of_squares(head);
        let t = sum_of(head);
        assert((n + 1) * (q + y * y) - (t + y) * (t + y) == (n * q - t * t) + (q - 2 * y * t + n
            * y * y)) by (nonlinear_arith);
    }
}

/// The sums of a sample are not negative, and bounded by the number of
/// samples.
proof fn lemma_sum_bounds(s: Seq<u64>)
    ensures
        0 <= sum_of(s) <= s.len() * u64::MAX,
        0 <= sum_of_squares(s),
    decreases s.len(),
{
    if s.len() > 0 {
        lemma_sum_bounds(s.drop_last());
        let y = s.last() as int;
    }
}

/// The least sample.
pub fn minimum(samples: &Vec<u64>) -> (m: u64)
    requires
        samples.len() > 0,
    ensures
        is_minimum(samples@, m),
        m == min_of(samples@),
{
    let mut m: u64 = samples[0];
    let mut i: usize = 1;
    while i < samples.len()
        invariant
            1 <= i <= samples.len(),
            exists|k: int| 0 <= k < i && samples[k] == m,
            forall|k: int| 0 <= k < i ==> m <= #[trigger] samples[k],
        decreases samples.len() - i,
    {
        if samples[i] < m {
            m = samples[i];
        }
        i += 1;
    }
    proof {
        lemma_minimum_unique(samples@, m);
    }
    m
}

/// The greatest sample.
pub fn maximum(samples: &Vec<u64>) -> (m: u64)
    requires
        samples.len() > 0,
    ensures
        is_maximum(samples@, m),
        m == max_of(samples@),
{
    let mut m: u64 = samples[0];
    let mut i: usize = 1;
    while i < samples.len()
        invariant
            1 <= i <= samples.len(),
            exists|k: int| 0 <= k < i && samples[k] == m,
            forall|k: int| 0 <= k < i ==> #[trigger] samples[k] <= m,
        decreases samples.len() - i,
    {
        if samples[i] > m {
            m = samples[i];
        }
        i += 1;
    }
    proof {
        lemma_maximum_unique(samples@, m);
    }
    m
}

/// The samples in ascending order.
pub fn sorted(samples: &Vec<u64>) -> (out: Vec<u64>)
    ensures
        out@ == samples@.sort_by(at_most()),
        out@.len() == samples@.len(),
        sorted_by(out@, at_most()),
        out@.to_multiset() == samples@.to_multiset(),
{
    let mut out: Vec<u64> = Vec::new();
    let mut i: usize = 0;
    assert(samples@.subrange(0, 0) =~= Seq::<u64>::empty());
    while i < samples.len()
        invariant
            0 <= i <= samples.len(),
            out@.len() == i,
            sorted_by(out@, at_most()),
            out@.to_multiset() == samples@.subrange(0, i as int).to_multiset(),
        decreases samples.len() - i,
    {
        let x = samples[i];
        let mut j: usize = 0;
        while j < out.len() && out[j] <= x
            invariant
                0 <= j <= out.len(),
                forall|k: int| 0 <= k < j ==> #[trigger] out[k] <= x,
            decreases out.len() - j,
        {
            j += 1;
        }
        let ghost before = out@;
        out.insert(j, x);
        proof {
            to_multiset_insert(before, j as int, x);
            to_multiset_build(samples@.subrange(0, i as int), x);
            assert(sorted_by(out@, at_most())) by {
                assert forall|a: int, b: int| 0 <= a < b < out@.len() implies #[trigger] at_most()(
                    out@[a],
                    out@[b],
                ) by {
                    if a == j && j < b - 1 {
                        assert(at_most()(before[j as int], before[b - 1]));
                    }
                }
            }
            assert(samples@.subrange(0, i + 1) =~= samples@.subrange(0, i as int).push(x));
        }
        i += 1;
    }
    proof {
        assert(samples@.subrange(0, i as int) =~= samples@);
        samples@.lemma_sort_by_ensures(at_most());
        lemma_sorted_unique(out@, samples@.sort_by(at_most()), at_most());
    }
    out
}

/// The median of the samples.
pub fn median(samples: &Vec<u64>) -> (m: u64)
    requires
        samples.len() > 0,
    ensures
        m == median_of(samples@),
{
    let ordered = sorted(samples);
    let n = ordered.len();
    if n % 2 == 1 {
        ordered[n / 2]
    } else {
        let low: u128 = ordered[n / 2 - 1] as u128;
        let high: u128 = ordered[n / 2] as u128;
        ((low + high) / 2) as u64
    }
}

/// The square root of `value`, rounded down.
pub fn integer_sqrt(value: u128) -> (root: u64)
    ensures
        is_floor_sqrt(value as int, root as int),
        root == floor_sqrt(value as int),
{
    let mut low: u128 = 0;
    let mut high: u128 = 0x1_0000_0000_0000_0000;
    while high - low > 1
        invariant
            0 <= low < high <= 0x1_0000_0000_0000_0000,
            low * low <= value,
            value < high * high,
        decreases high - low,
    {
        let mid: u128 = low + (high - low) / 2;
        assert(mid * mid <= u128::MAX) by (nonlinear_arith)
            requires
                0 <= mid <= 0xffff_ffff_ffff_ffff,
        ;
        if mid * mid <= value {
            low = mid;
        } else {
            high = mid;
        }
    }
    proof {
        lemma_floor_sqrt_unique(value as int, low as int);
    }
    low as u64
}

/// The sum of the squares of a sample is at most the number of samples times
/// the square of the greatest value that a sample can have.
proof fn lemma_sum_of_squares_bound(s: Seq<u64>)
    ensures
        0 <= sum_of_squares(s) <= s.len() * (u64::MAX * u64::MAX),
    decreases s.len(),
{
    if s.len() > 0 {
        lemma_sum_of_squares_bound(s.drop_last());
        let y = s.last() as int;
        assert(0 <= y * y <= u64::MAX * u64::MAX) by (nonlinear_arith)
            requires
                0 <= y <= u64::MAX,
        ;
        assert((s.len() - 1) * (u64::MAX * u64::MAX) + u64::MAX * u64::MAX == s.len() * (u64::MAX
            * u64::MAX)) by (nonlinear_arith);
    }
}

/// The sum of the squared distances of the samples from the middle of their
/// range, two to the power 63, is at most the number of samples times the
/// square of that middle.
proof fn lemma_distances_from_middle(s: Seq<u64>)
    ensures
        sum_of_squares(s) - 2 * MIDDLE * sum_of(s) + s.len() * MIDDLE * MIDDLE <= s.len() * (MIDDLE
            * MIDDLE),
    decreases s.len(),
{
    if s.len() > 0 {
        let head = s.drop_last();
        let y = s.last() as int;
        let c = MIDDLE as int;
        lemma_distances_from_middle(head);
        assert((y - c) * (y - c) <= c * c) by (nonlinear_arith)
            requires
                0 <= y <= 2 * c,
        ;
        assert(sum_of_squares(head) + y * y - 2 * c * (sum_of(head) + y) + (head.len() + 1) * c * c
            == sum_of_squares(head) - 2 * c * sum_of(head) + head.len() * c * c + (y - c) * (y
            - c)) by (nonlinear_arith);
        assert((head.len() + 1) * (c * c) == head.len() * (c * c) + c * c) by (nonlinear_arith);
    }
}

/// The variance of two or more samples is below two to the power 128.
proof fn lemma_variance_bound(s: Seq<u64>)
    requires
        s.len() >= 2,
    ensures
        scaled_squared_deviations(s) < full() * (s.len() * (s.len() - 1)),
{
    let n = s.len() as int;
    let c = MIDDLE as int;
    let q = sum_of_squares(s);
    let t = sum_of(s);
    lemma_distances_from_middle(s);
    let centred = q - 2 * c * t + n * c * c;
    assert(n * q - t * t == n * centred - (t - n * c) * (t - n * c)) by (nonlinear_arith)
        requires
            centred == q - 2 * c * t + n * c * c,
    ;
    assert((t - n * c) * (t - n * c) >= 0) by (nonlinear_arith);
    assert(n * centred <= n * (n * (c * c))) by (nonlinear_arith)
        requires
            centred <= n * (c * c),
            n >= 0,
    ;
    assert(n * (n * (c * c)) < full() * (n * (n - 1))) by (nonlinear_arith)
        requires
            n >= 2,
            4 * (c * c) == full(),
    ;
}

/// A whole number whose square times `divisor` is at most `value`, while the
/// square of the next times `divisor` is above it, is the square root of the
/// quotient, rounded down.
proof fn lemma_root_of_quotient(value: int, divisor: int, root: int)
    requires
        0 <= root,
        0 < divisor,
        root * root * divisor <= value,
        value < (root + 1) * (root + 1) * divisor,
    ensures
        floor_sqrt(value / divisor) == root,
{
    let quotient = value / divisor;
    assert(value == quotient * divisor + value % divisor && 0 <= value % divisor < divisor)
        by (nonlinear_arith)
        requires
            quotient == value / divisor,
            0 < divisor,
    ;
    assert(root * root <= quotient) by (nonlinear_arith)
        requires
            root * root * divisor <= quotient * divisor + value % divisor,
            value % divisor < divisor,
            0 < divisor,
    ;
    assert(quotient < (root + 1) * (root + 1)) by (nonlinear_arith)
        requires
            quotient * divisor + value % divisor < (root + 1) * (root + 1) * divisor,
            0 <= value % divisor,
            0 < divisor,
    ;
    lemma_floor_sqrt_unique(quotient, root);
}

/// The sample standard deviation in whole nanoseconds, rounded down.
pub fn std_dev(samples: &Vec<u64>) -> (deviation: Option<u64>)
    ensures
        match deviation {
            Some(d) => std_dev_of(samples@) == Some(d as int),
            None => std_dev_of(samples@) is None,
        },
{
    let n = samples.len();
    if n < 2 {
        return None;
    }
    let mut sum: u128 = 0;
    let mut squares = Wide::of(0);
    let mut i: usize = 0;
    assert(samples@.subrange(0, 0) =~= Seq::<u64>::empty());
    while i < n
        invariant
            0 <= i <= n,
            n == samples.len(),
            sum == sum_of(samples@.subrange(0, i as int)),
            squares@ == sum_of_squares(samples@.subrange(0, i as int)),
        decreases n - i,
    {
        let x: u128 = samples[i] as u128;
        proof {
            let part = samples@.subrange(0, i + 1);
            assert(part.drop_last() =~= samples@.subrange(0, i as int));
            lemma_sum_bounds(part);
            lemma_sum_of_squares_bound(part);
            assert(part.len() * (u64::MAX * u64::MAX) < full() * full()) by (nonlinear_arith)
                requires
                    part.len() <= u64::MAX,
            ;
        }
        sum = sum + x;
        squares = squares.plus(Wide::product(x, x));
        i += 1;
    }
    assert(samples@.subrange(0, n as int) =~= samples@);
    let count: u128 = n as u128;
    proof {
        lemma_sum_of_squares_bound(samples@);
        lemma_deviations_not_negative(samples@);
        lemma_variance_bound(samples@);
        assert(count * (u64::MAX * u64::MAX) < count * full()) by (nonlinear_arith)
            requires
                count >= 2,
        ;
        assert(squares.hi < count) by (nonlinear_arith)
            requires
                squares.hi * full() + squares.lo < count * full(),
                squares.lo >= 0,
                full() > 0,
        ;
        assert(count * squares.hi <= u128::MAX) by (nonlinear_arith)
            requires
                0 <= squares.hi < count <= u64::MAX,
        ;
        assert(0 < count * (count - 1) <= u128::MAX) by (nonlinear_arith)
            requires
                2 <= count <= u64::MAX,
        ;
        assert(count * (squares.hi * full() + squares.lo) == (count * squares.hi) * full() + count
            * squares.lo) by (nonlinear_arith);
        assert(count * (count * (u64::MAX * u64::MAX)) < full() * full()) by (nonlinear_arith)
            requires
                0 <= count <= u64::MAX,
        ;
        assert(count * sum_of_squares(samples@) <= count * (count * (u64::MAX * u64::MAX)))
            by (nonlinear_arith)
            requires
                sum_of_squares(samples@) <= count * (u64::MAX * u64::MAX),
                count >= 0,
        ;
    }
    let upper = Wide { hi: count * squares.hi, lo: 0 };
    let scaled = Wide::product(count, squares.lo).plus(upper);
    let deviations = scaled.minus(Wide::product(sum, sum));
    let divisor: u128 = count * (count - 1);
    let mut low: u128 = 0;
    let mut high: u128 = HALF;
    assert(0 * 0 * divisor == 0);
    assert(HALF * HALF * divisor == full() * divisor) by (nonlinear_arith);
    while high - low > 1
        invariant
            0 <= low < high <= HALF,
            0 < divisor,
            low * low * divisor <= deviations@,
            deviations@ < high * high * divisor,
        decreases high - low,
    {
        let mid: u128 = low + (high - low) / 2;
        assert(mid * mid <= u128::MAX) by (nonlinear_arith)
            requires
                0 <= mid <= 0xffff_ffff_ffff_ffff,
        ;
        if Wide::product(mid * mid, divisor).at_most(deviations) {
            low = mid;
        } else {
            high = mid;
        }
    }
    proof {
        lemma_root_of_quotient(deviations@, divisor as int, low as int);
    }
    Some(low as u64)
}

} // verus!
