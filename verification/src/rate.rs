//! Success rates as exact fractions.
//!
//! A threshold such as "seven checks in ten" is held as the fraction 7/10 and
//! compared by cross-multiplication, so that no rounding decides whether a
//! proxy is promoted.

use vstd::prelude::*;

verus! {

/// The fraction `num / den`. A rate with a zero denominator stands for
/// nothing; thresholds are required to have a positive one.
#[derive(Debug, Clone, Copy, PartialEq, Eq, Structural)]
pub struct Rate {
    pub num: u32,
    pub den: u32,
}

impl Rate {
    /// The denominator is positive.
    pub open spec fn wf(&self) -> bool {
        self.den > 0
    }

    /// `self >= other` as fractions, for well-formed rates.
    pub open spec fn at_least(&self, other: &Rate) -> bool {
        self.num * other.den >= other.num * self.den
    }

    /// The fraction `num / den`, unless `den` is zero.
    pub fn new(num: u32, den: u32) -> (r: Option<Rate>)
        ensures
            r == if den > 0 {
                Some((Rate { num, den }))
            } else {
                None::<Rate>
            },
    {
        if den > 0 {
            Some(Rate { num, den })
        } else {
            None
        }
    }

    /// The rate 1: every check succeeded.
    pub fn one() -> (r: Rate)
        ensures
            r == (Rate { num: 1, den: 1 }),
    {
        Rate { num: 1, den: 1 }
    }

    /// The rate of `parts` in a million.
    pub fn per_million(parts: u32) -> (r: Rate)
        ensures
            r == (Rate { num: parts, den: 1_000_000 }),
    {
        Rate { num: parts, den: 1_000_000 }
    }

    /// Whether this rate is at least `threshold`.
    pub fn reaches(&self, threshold: &Rate) -> (yes: bool)
        ensures
            yes == self.at_least(threshold),
    {
        assert(self.num * threshold.den <= u64::MAX && threshold.num * self.den <= u64::MAX)
            by (nonlinear_arith)
            requires
                self.num <= u32::MAX,
                self.den <= u32::MAX,
                threshold.num <= u32::MAX,
                threshold.den <= u32::MAX,
        ;
        self.num as u64 * threshold.den as u64 >= threshold.num as u64 * self.den as u64
    }

    /// Whether this rate is less than `threshold`.
    pub fn is_below(&self, threshold: &Rate) -> (yes: bool)
        ensures
            yes == !self.at_least(threshold),
    {
        !self.reaches(threshold)
    }
}

} // verus!
