//! Whole numbers of up to 256 bits, for sums and products of 128-bit numbers.

use vstd::prelude::*;

verus! {

/// Two to the power 64.
pub const HALF: u128 = 0x1_0000_0000_0000_0000;

/// Two to the power 128.
pub open spec fn full() -> int {
    0x1_0000_0000_0000_0000_0000_0000_0000_0000int
}

/// A whole number below two to the power 256, in two halves.
#[derive(Clone, Copy, Debug)]
pub struct Wide {
    /// The upper 128 bits.
    pub hi: u128,
    /// The lower 128 bits.
    pub lo: u128,
}

impl View for Wide {
    type V = int;

    open spec fn view(&self) -> int {
        self.hi * full() + self.lo
    }
}

impl Wide {
    /// The number `n`.
    pub fn of(n: u128) -> (w: Wide)
        ensures
            w@ == n,
    {
        Wide { hi: 0, lo: n }
    }

    /// The product of `a` and `b`.
    pub fn product(a: u128, b: u128) -> (w: Wide)
        ensures
            w@ == a * b,
    {
        let a1 = a / HALF;
        let a0 = a % HALF;
        let b1 = b / HALF;
        let b0 = b % HALF;
        proof {
            lemma_part_product(a0 as int, b0 as int);
            lemma_part_product(a0 as int, b1 as int);
            lemma_part_product(a1 as int, b0 as int);
            lemma_part_product(a1 as int, b1 as int);
        }
        let low = a0 * b0;
        let cross = a0 * b1;
        let other = a1 * b0;
        let high = a1 * b1;
        let middle = cross % HALF + other % HALF + low / HALF;
        let lo = (middle % HALF) * HALF + low % HALF;
        let hi = high + cross / HALF + other / HALF + middle / HALF;
        proof {
            assert(a * b == high * full() + (cross + other) * HALF + low) by (nonlinear_arith)
                requires
                    a == a1 * HALF + a0,
                    b == b1 * HALF + b0,
                    low == a0 * b0,
                    cross == a0 * b1,
                    other == a1 * b0,
                    high == a1 * b1,
                    HALF * HALF == full(),
            ;
        }
        Wide { hi, lo }
    }

    /// The sum of the two numbers, which is below two to the power 256.
    pub fn plus(self, other: Wide) -> (sum: Wide)
        requires
            self@ + other@ < full() * full(),
        ensures
            sum@ == self@ + other@,
    {
        let (lo, carry): (u128, u128) = if self.lo > u128::MAX - other.lo {
            (self.lo - (u128::MAX - other.lo) - 1, 1)
        } else {
            (self.lo + other.lo, 0)
        };
        assert(self.hi + other.hi + carry < full()) by (nonlinear_arith)
            requires
                self.hi * full() + self.lo + other.hi * full() + other.lo < full() * full(),
                self.lo + other.lo == carry * full() + lo,
                0 <= lo < full(),
        ;
        assert(self@ + other@ == (self.hi + other.hi + carry) * full() + lo) by (nonlinear_arith)
            requires
                self.lo + other.lo == carry * full() + lo,
                self@ == self.hi * full() + self.lo,
                other@ == other.hi * full() + other.lo,
        ;
        Wide { hi: self.hi + other.hi + carry, lo }
    }

    /// The difference of the two numbers, of which `other` is the smaller.
    pub fn minus(self, other: Wide) -> (difference: Wide)
        requires
            other@ <= self@,
        ensures
            difference@ == self@ - other@,
    {
        assert(other.hi <= self.hi) by (nonlinear_arith)
            requires
                other.hi * full() + other.lo <= self.hi * full() + self.lo,
                self.lo < full(),
                other.lo >= 0,
        ;
        if self.lo >= other.lo {
            assert(self@ - other@ == (self.hi - other.hi) * full() + (self.lo - other.lo))
                by (nonlinear_arith)
                requires
                    self@ == self.hi * full() + self.lo,
                    other@ == other.hi * full() + other.lo,
            ;
            Wide { hi: self.hi - other.hi, lo: self.lo - other.lo }
        } else {
            assert(other.hi < self.hi) by (nonlinear_arith)
                requires
                    other.hi * full() + other.lo <= self.hi * full() + self.lo,
                    self.lo < other.lo,
            ;
            let lo = u128::MAX - other.lo + self.lo + 1;
            assert(self@ - other@ == (self.hi - other.hi - 1) * full() + lo) by (nonlinear_arith)
                requires
                    self@ == self.hi * full() + self.lo,
                    other@ == other.hi * full() + other.lo,
                    lo == full() - other.lo + self.lo,
            ;
            Wide { hi: self.hi - other.hi - 1, lo }
        }
    }

    /// Whether the number is at most `other`.
    pub fn at_most(self, other: Wide) -> (holds: bool)
        ensures
            holds == (self@ <= other@),
    {
        if self.hi < other.hi {
            assert(self@ <= other@) by (nonlinear_arith)
                requires
                    self.hi + 1 <= other.hi,
                    self@ == self.hi * full() + self.lo,
                    other@ == other.hi * full() + other.lo,
                    self.lo < full(),
                    other.lo >= 0,
            ;
            true
        } else if self.hi > other.hi {
            assert(self@ > other@) by (nonlinear_arith)
                requires
                    other.hi + 1 <= self.hi,
                    self@ == self.hi * full() + self.lo,
                    other@ == other.hi * full() + other.lo,
                    other.lo < full(),
                    self.lo >= 0,
            ;
            false
        } else {
            self.lo <= other.lo
        }
    }
}

/// The product of two numbers below two to the power 64 is at most the square
/// of the greatest of them.
proof fn lemma_part_product(a: int, b: int)
    requires
        0 <= a < HALF,
        0 <= b < HALF,
    ensures
        0 <= a * b <= 0xffff_ffff_ffff_fffe_0000_0000_0000_0001,
{
    assert(0 <= a * b <= (HALF - 1) * (HALF - 1)) by (nonlinear_arith)
        requires
            0 <= a <= HALF - 1,
            0 <= b <= HALF - 1,
    ;
}

} // verus!
