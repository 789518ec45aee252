//! The threshold of a comparison, in percent.
//!
//! A threshold is a magnitude: its sign does not count. It is held exactly,
//! as a whole number times a power of two, so that every threshold that a
//! binary double expresses has one, and a change is set against it without
//! rounding.

use vstd::arithmetic::power2::{
    lemma2_to64,
    lemma2_to64_rest,
    lemma_pow2_adds,
    lemma_pow2_pos,
    lemma_pow2_strictly_increases,
    lemma_pow2_unfold,
    pow2,
};
use vstd::prelude::*;

verus! {

/// The distance between two counts.
pub open spec fn distance(a: int, b: int) -> int {
    if a >= b {
        a - b
    } else {
        b - a
    }
}

/// A threshold in percent.
#[derive(Clone, Copy, Debug, PartialEq, Eq, Structural)]
pub enum Threshold {
    /// `mantissa * 2^exponent` percent.
    Finite { mantissa: u64, exponent: i32 },
    /// Above every change.
    Unbounded,
    /// Not a number: no change lies within it.
    Undefined,
}

/// The threshold that the bits of a binary double stand for: the sign is
/// dropped; an exponent field of all ones is an infinity, or not a number
/// where the fraction is not zero; an exponent field of zero is the fraction
/// times `2^-1074`; any other is the fraction with its leading one, times two to
/// the exponent field less 1075.
pub open spec fn threshold_of_bits(bits: u64) -> Threshold {
    let magnitude = bits % 0x8000_0000_0000_0000;
    let field = magnitude / 0x10_0000_0000_0000;
    let fraction = magnitude % 0x10_0000_0000_0000;
    if field == 2047 {
        if fraction == 0 {
            Threshold::Unbounded
        } else {
            Threshold::Undefined
        }
    } else if field == 0 {
        Threshold::Finite { mantissa: fraction as u64, exponent: -1074i32 }
    } else {
        Threshold::Finite {
            mantissa: (0x10_0000_0000_0000 + fraction) as u64,
            exponent: (field - 1075) as i32,
        }
    }
}

/// The sign of a double does not count: the bits with and without the sign
/// bit stand for the same threshold.
pub proof fn lemma_sign_is_dropped(bits: u64)
    requires
        bits < 0x8000_0000_0000_0000,
    ensures
        threshold_of_bits((bits + 0x8000_0000_0000_0000) as u64) == threshold_of_bits(bits),
{
}

/// Two to the power `n`.
fn power_of_two(n: u32) -> (p: u128)
    requires
        n <= 127,
    ensures
        p == pow2(n as nat),
{
    proof {
        lemma2_to64();
        lemma2_to64_rest();
        lemma_pow2_adds(64, 63);
    }
    let mut p: u128 = 1;
    let mut k: u32 = 0;
    while k < n
        invariant
            0 <= k <= n <= 127,
            p == pow2(k as nat),
            pow2(127) == 0x8000_0000_0000_0000_0000_0000_0000_0000,
        decreases n - k,
    {
        proof {
            lemma_pow2_unfold((k + 1) as nat);
            if k + 1 < 127 {
                lemma_pow2_strictly_increases((k + 1) as nat, 127);
            }
        }
        p = p * 2;
        k += 1;
    }
    p
}

impl Threshold {
    /// The threshold of `whole` percent.
    pub fn percent(whole: u64) -> (t: Threshold)
        ensures
            t == (Threshold::Finite { mantissa: whole, exponent: 0 }),
    {
        Threshold::Finite { mantissa: whole, exponent: 0 }
    }

    /// The threshold that the bits of a binary double stand for.
    pub fn from_bits(bits: u64) -> (t: Threshold)
        ensures
            t == threshold_of_bits(bits),
    {
        let magnitude: u64 = bits % 0x8000_0000_0000_0000;
        let field: u64 = magnitude / 0x10_0000_0000_0000;
        let fraction: u64 = magnitude % 0x10_0000_0000_0000;
        if field == 2047 {
            if fraction == 0 {
                Threshold::Unbounded
            } else {
                Threshold::Undefined
            }
        } else if field == 0 {
            Threshold::Finite { mantissa: fraction, exponent: -1074i32 }
        } else {
            Threshold::Finite {
                mantissa: 0x10_0000_0000_0000 + fraction,
                exponent: (field as i32) - 1075,
            }
        }
    }

    /// Whether the change from `previous` to `current`, in percent of
    /// `previous`, lies within the threshold: whether a hundred times their
    /// distance is at most `previous` times the threshold. With `previous`
    /// zero the change is not a finite number, and lies within an unbounded
    /// threshold only.
    pub open spec fn admits(self, current: int, previous: int) -> bool {
        match self {
            Threshold::Undefined => false,
            Threshold::Unbounded => true,
            Threshold::Finite { mantissa, exponent } => {
                &&& previous > 0
                &&& if exponent >= 0 {
                    100 * distance(current, previous) <= previous * mantissa * pow2(
                        exponent as nat,
                    )
                } else {
                    100 * distance(current, previous) * pow2((-exponent) as nat) <= previous
                        * mantissa
                }
            },
        }
    }

    /// Whether the change from `previous` to `current` lies within the
    /// threshold.
    pub fn within(&self, current: u64, previous: u64) -> (inside: bool)
        ensures
            inside == self.admits(current as int, previous as int),
    {
        match *self {
            Threshold::Undefined => false,
            Threshold::Unbounded => true,
            Threshold::Finite { mantissa, exponent } => {
                if previous == 0 {
                    return false;
                }
                let gap: u64 = if current >= previous {
                    current - previous
                } else {
                    previous - current
                };
                let far: u128 = 100 * (gap as u128);
                assert((previous as u128) * (mantissa as u128) <= u128::MAX) by (nonlinear_arith)
                    requires
                        previous <= u64::MAX,
                        mantissa <= u64::MAX,
                ;
                let scale: u128 = (previous as u128) * (mantissa as u128);
                if exponent >= 0 {
                    if scale == 0 {
                        assert(scale * pow2(exponent as nat) == 0) by (nonlinear_arith)
                            requires
                                scale == 0,
                        ;
                        far == 0
                    } else if exponent >= 71 {
                        proof {
                            lemma_far_below_large_power(far as int, scale as int, exponent as nat);
                        }
                        true
                    } else {
                        let unit: u128 = power_of_two(exponent as u32);
                        proof {
                            lemma_pow2_pos(exponent as nat);
                            lemma_scaled_up(far as int, scale as int, unit as int);
                        }
                        if far % unit == 0 {
                            far / unit <= scale
                        } else {
                            far / unit < scale
                        }
                    }
                } else if exponent <= -128 {
                    proof {
                        lemma_large_power_above_scale(
                            far as int,
                            scale as int,
                            (-exponent) as nat,
                        );
                    }
                    far == 0
                } else {
                    let unit: u128 = power_of_two((-exponent) as u32);
                    proof {
                        lemma_pow2_pos((-exponent) as nat);
                        lemma_scaled_down(far as int, scale as int, unit as int);
                    }
                    far <= scale / unit
                }
            },
        }
    }
}

impl Threshold {
    /// Whether this threshold is at least as wide as `other`: whether it is
    /// unbounded, or both are finite and its value is at least the other's.
    pub open spec fn covers(self, other: Threshold) -> bool {
        match (self, other) {
            (Threshold::Unbounded, _) => true,
            (
                Threshold::Finite { mantissa: m1, exponent: e1 },
                Threshold::Finite { mantissa: m2, exponent: e2 },
            ) => if e1 >= e2 {
                m2 <= m1 * pow2((e1 - e2) as nat)
            } else {
                m2 * pow2((e2 - e1) as nat) <= m1
            },
            _ => false,
        }
    }
}

/// A finite threshold admits a change exactly where, with both sides scaled
/// by `2^k` for a `k` that clears the exponent, the distance is at most the
/// previous median times the mantissa.
proof fn lemma_admits_scaled(mantissa: u64, exponent: i32, current: int, previous: int, k: nat)
    requires
        k + exponent >= 0,
        previous > 0,
    ensures
        (Threshold::Finite { mantissa, exponent }).admits(current, previous) <==> 100 * distance(
            current,
            previous,
        ) * pow2(k) <= previous * mantissa * pow2((k + exponent) as nat),
{
    let far = 100 * distance(current, previous);
    let scale = previous * mantissa;
    lemma_pow2_pos(k);
    if exponent >= 0 {
        lemma_pow2_adds(exponent as nat, k);
        let unit = pow2(k) as int;
        let wide = pow2(exponent as nat) as int;
        assert(scale * pow2((k + exponent) as nat) == (scale * wide) * unit) by (nonlinear_arith)
            requires
                pow2((k + exponent) as nat) == wide * unit,
        ;
        assert(far <= scale * wide <==> far * unit <= (scale * wide) * unit) by (nonlinear_arith)
            requires
                unit > 0,
        ;
    } else {
        lemma_pow2_adds((-exponent) as nat, (k + exponent) as nat);
        lemma_pow2_pos((k + exponent) as nat);
        let unit = pow2((k + exponent) as nat) as int;
        let fine = pow2((-exponent) as nat) as int;
        assert(far * pow2(k) == (far * fine) * unit) by (nonlinear_arith)
            requires
                pow2(k) == fine * unit,
        ;
        assert(far * fine <= scale <==> (far * fine) * unit <= scale * unit) by (nonlinear_arith)
            requires
                unit > 0,
        ;
    }
}

/// A wider threshold admits what a narrower one admits.
pub proof fn lemma_wider_admits_more(
    wide: Threshold,
    narrow: Threshold,
    current: int,
    previous: int,
)
    requires
        wide.covers(narrow),
        narrow.admits(current, previous),
    ensures
        wide.admits(current, previous),
{
    match (wide, narrow) {
        (
            Threshold::Finite { mantissa: m1, exponent: e1 },
            Threshold::Finite { mantissa: m2, exponent: e2 },
        ) => {
            let k: nat = 0x1_0000_0000;
            lemma_admits_scaled(m1, e1, current, previous, k);
            lemma_admits_scaled(m2, e2, current, previous, k);
            let far = 100 * distance(current, previous);
            let a1 = pow2((k + e1) as nat) as int;
            let a2 = pow2((k + e2) as nat) as int;
            assert(m2 * a2 <= m1 * a1) by {
                if e1 >= e2 {
                    lemma_pow2_adds((e1 - e2) as nat, (k + e2) as nat);
                    let step = pow2((e1 - e2) as nat) as int;
                    assert(m2 * a2 <= (m1 * step) * a2) by (nonlinear_arith)
                        requires
                            m2 <= m1 * step,
                            a2 >= 0,
                    ;
                    assert((m1 * step) * a2 == m1 * a1) by (nonlinear_arith)
                        requires
                            a1 == step * a2,
                    ;
                } else {
                    lemma_pow2_adds((e2 - e1) as nat, (k + e1) as nat);
                    let step = pow2((e2 - e1) as nat) as int;
                    assert((m2 * step) * a1 <= m1 * a1) by (nonlinear_arith)
                        requires
                            m2 * step <= m1,
                            a1 >= 0,
                    ;
                    assert((m2 * step) * a1 == m2 * a2) by (nonlinear_arith)
                        requires
                            a2 == step * a1,
                    ;
                }
            }
            assert(previous * m2 * a2 <= previous * m1 * a1) by (nonlinear_arith)
                requires
                    m2 * a2 <= m1 * a1,
                    previous > 0,
            ;
        },
        _ => {},
    }
}

/// A threshold that admits a change admits every change that is no farther
/// from the same previous median.
pub proof fn lemma_nearer_is_admitted(
    threshold: Threshold,
    current: int,
    nearer: int,
    previous: int,
)
    requires
        threshold.admits(current, previous),
        distance(nearer, previous) <= distance(current, previous),
    ensures
        threshold.admits(nearer, previous),
{
    match threshold {
        Threshold::Finite { mantissa, exponent } => {
            if exponent < 0 {
                lemma_pow2_pos((-exponent) as nat);
                let fine = pow2((-exponent) as nat) as int;
                assert(100 * distance(nearer, previous) * fine <= 100 * distance(
                    current,
                    previous,
                ) * fine) by (nonlinear_arith)
                    requires
                        distance(nearer, previous) <= distance(current, previous),
                        fine > 0,
                ;
            }
        },
        _ => {},
    }
}

/// A distance of less than `2^71` is below any positive multiple of a power of
/// two from the 71st on.
proof fn lemma_far_below_large_power(far: int, scale: int, e: nat)
    requires
        0 <= far <= 100 * u64::MAX,
        scale >= 1,
        e >= 71,
    ensures
        far <= scale * pow2(e),
{
    lemma2_to64();
    lemma_pow2_adds(64, 7);
    if e > 71 {
        lemma_pow2_strictly_increases(71, e);
    }
    assert(scale * pow2(e) >= pow2(e)) by (nonlinear_arith)
        requires
            scale >= 1,
            pow2(e) >= 0,
    ;
}

/// A power of two from the 128th on is above any 128-bit number.
proof fn lemma_large_power_above_scale(far: int, scale: int, e: nat)
    requires
        0 <= far,
        0 <= scale <= u128::MAX,
        e >= 128,
    ensures
        (far * pow2(e) <= scale) <==> far == 0,
{
    lemma2_to64();
    lemma_pow2_adds(64, 64);
    if e > 128 {
        lemma_pow2_strictly_increases(128, e);
    }
    if far > 0 {
        assert(far * pow2(e) >= pow2(e)) by (nonlinear_arith)
            requires
                far >= 1,
                pow2(e) >= 0,
        ;
    }
}

/// Setting `far` against `scale * unit` by the quotient and remainder of
/// `far` by `unit`.
proof fn lemma_scaled_up(far: int, scale: int, unit: int)
    requires
        0 <= far,
        0 <= scale,
        0 < unit,
    ensures
        far % unit == 0 ==> (far <= scale * unit <==> far / unit <= scale),
        far % unit != 0 ==> (far <= scale * unit <==> far / unit < scale),
{
    let q = far / unit;
    let r = far % unit;
    assert(far == q * unit + r && 0 <= r < unit) by (nonlinear_arith)
        requires
            q == far / unit,
            r == far % unit,
            0 < unit,
    ;
    if q < scale {
        assert((q + 1) * unit <= scale * unit) by (nonlinear_arith)
            requires
                q + 1 <= scale,
                0 < unit,
        ;
        assert((q + 1) * unit == q * unit + unit) by (nonlinear_arith);
    } else if q > scale {
        assert(q * unit >= (scale + 1) * unit) by (nonlinear_arith)
            requires
                q >= scale + 1,
                0 < unit,
        ;
        assert((scale + 1) * unit == scale * unit + unit) by (nonlinear_arith);
    }
}

/// Setting `far * unit` against `scale` by the quotient of `scale` by `unit`.
proof fn lemma_scaled_down(far: int, scale: int, unit: int)
    requires
        0 <= far,
        0 <= scale,
        0 < unit,
    ensures
        far * unit <= scale <==> far <= scale / unit,
{
    let q = scale / unit;
    let r = scale % unit;
    assert(scale == q * unit + r && 0 <= r < unit) by (nonlinear_arith)
        requires
            q == scale / unit,
            r == scale % unit,
            0 < unit,
    ;
    if far <= q {
        assert(far * unit <= q * unit) by (nonlinear_arith)
            requires
                far <= q,
                0 < unit,
        ;
    } else {
        assert(far * unit >= (q + 1) * unit) by (nonlinear_arith)
            requires
                far >= q + 1,
                0 < unit,
        ;
        assert((q + 1) * unit == q * unit + unit) by (nonlinear_arith);
    }
}

} // verus!
