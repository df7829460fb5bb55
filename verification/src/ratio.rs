//! Exact quotients: how a count stands to its baseline, and the thresholds
//! that such a quotient is held against.
//!
//! A change is kept as the fraction it is, numerator over denominator, and
//! held against a threshold by cross-multiplication. Nothing is rounded, so
//! a verdict is the same on every machine.

use vstd::prelude::*;

verus! {

/// A signed threshold in percent: the fraction `num / den`.
#[derive(Debug, Clone, Copy, PartialEq, Eq, Structural)]
pub struct Limit {
    /// The numerator. Its sign is the sign of the threshold.
    pub num: i64,
    /// The denominator. It is not zero in a threshold that stands for a
    /// number.
    pub den: u64,
}

impl Limit {
    /// The threshold stands for a number: its denominator is not zero. What
    /// `percent` and `new` hand out does; a threshold that is written down
    /// field by field may not, and is then crossed by no change.
    pub open spec fn wf(&self) -> bool {
        self.den > 0
    }

    /// Whether the threshold stands for a number.
    pub fn is_number(&self) -> (number: bool)
        ensures
            number == self.wf(),
    {
        self.den > 0
    }

    /// The threshold of `value` percent.
    pub fn percent(value: i64) -> (limit: Limit)
        ensures
            limit == (Limit { num: value, den: 1 }),
            limit.wf(),
    {
        Limit { num: value, den: 1 }
    }

    /// The threshold of `num / den` percent; none for a denominator of zero.
    pub fn new(num: i64, den: u64) -> (limit: Option<Limit>)
        ensures
            limit == if den > 0 {
                Some(Limit { num, den })
            } else {
                None
            },
            limit matches Some(l) ==> l.wf(),
    {
        if den > 0 {
            Some(Limit { num, den })
        } else {
            None
        }
    }

    /// The threshold is below zero: it guards against a decrease.
    pub open spec fn is_negative_spec(&self) -> bool {
        self.num < 0
    }

    /// Whether the threshold is below zero: it then guards against a
    /// decrease, and otherwise against an increase.
    #[verifier::when_used_as_spec(is_negative_spec)]
    pub fn is_negative(&self) -> (negative: bool)
        ensures
            negative == self.is_negative_spec(),
    {
        self.num < 0
    }
}

/// How a new count stands to an old one: a fraction, or more than any number
/// where something is measured against nothing.
#[derive(Debug, Clone, Copy, PartialEq, Eq, Structural)]
pub enum Ratio {
    /// The fraction `num / den`, with a positive `den`.
    Finite { num: i128, den: u64 },
    /// Positive infinity. Counts have no sign, so a change from nothing is
    /// always upwards.
    PosInfinity,
}

impl Ratio {
    /// The ratio is greater than the threshold.
    pub open spec fn above(self, limit: Limit) -> bool {
        match self {
            Ratio::Finite { num, den } => num * limit.den > limit.num * den,
            Ratio::PosInfinity => true,
        }
    }

    /// The ratio is less than the threshold.
    pub open spec fn below(self, limit: Limit) -> bool {
        match self {
            Ratio::Finite { num, den } => num * limit.den < limit.num * den,
            Ratio::PosInfinity => false,
        }
    }

    /// The ratio is the number `value`.
    pub open spec fn is_integer(self, value: int) -> bool {
        match self {
            Ratio::Finite { num, den } => den > 0 && num == value * den,
            Ratio::PosInfinity => false,
        }
    }

    /// Whether the ratio is greater than the threshold, exactly.
    pub fn is_above(&self, limit: &Limit) -> (above: bool)
        ensures
            above == self.above(*limit),
    {
        match self {
            Ratio::Finite { num, den } => {
                let bound = scaled_limit(limit.num, *den);
                proof {
                    lemma_product_sign(*num as int, limit.den as int);
                }
                match num.checked_mul(limit.den as i128) {
                    Some(scaled) => scaled > bound,
                    None => *num > 0,
                }
            },
            Ratio::PosInfinity => true,
        }
    }

    /// Whether the ratio is less than the threshold, exactly.
    pub fn is_below(&self, limit: &Limit) -> (below: bool)
        ensures
            below == self.below(*limit),
    {
        match self {
            Ratio::Finite { num, den } => {
                let bound = scaled_limit(limit.num, *den);
                proof {
                    lemma_product_sign(*num as int, limit.den as int);
                }
                match num.checked_mul(limit.den as i128) {
                    Some(scaled) => scaled < bound,
                    None => *num < 0,
                }
            },
            Ratio::PosInfinity => false,
        }
    }
}

/// A product with a factor that is not negative has the sign of the other
/// factor, or is zero.
proof fn lemma_product_sign(a: int, b: int)
    by (nonlinear_arith)
    requires
        b >= 0,
    ensures
        a >= 0 ==> a * b >= 0,
        a <= 0 ==> a * b <= 0,
{
}

/// The numerator of a threshold brought to the denominator of a ratio.
fn scaled_limit(num: i64, den: u64) -> (scaled: i128)
    ensures
        scaled == num * den,
{
    assert(-0x8000_0000_0000_0000 * 0xffff_ffff_ffff_ffff <= num * den
        <= 0x7fff_ffff_ffff_ffff * 0xffff_ffff_ffff_ffff) by (nonlinear_arith)
        requires
            -0x8000_0000_0000_0000 <= num <= 0x7fff_ffff_ffff_ffff,
            0 <= den <= 0xffff_ffff_ffff_ffff,
    ;
    (num as i128) * (den as i128)
}

/// The change from `old` to `new` in percent of `old`. No change from
/// nothing to nothing; a change without bound from nothing to something.
pub open spec fn percentage_of(new: u64, old: u64) -> Ratio {
    if old != 0 {
        Ratio::Finite { num: (100 * (new - old)) as i128, den: old }
    } else if new != 0 {
        Ratio::PosInfinity
    } else {
        Ratio::Finite { num: 0, den: 1 }
    }
}

/// `new` as a multiple of `old`. One where both are nothing; without bound
/// where only `old` is.
pub open spec fn factor_of(new: u64, old: u64) -> Ratio {
    if old != 0 {
        Ratio::Finite { num: new as i128, den: old }
    } else if new != 0 {
        Ratio::PosInfinity
    } else {
        Ratio::Finite { num: 1, den: 1 }
    }
}

/// The change from `old` to `new` in percent of `old`.
pub fn percentage(new: u64, old: u64) -> (change: Ratio)
    ensures
        change == percentage_of(new, old),
{
    if old != 0 {
        Ratio::Finite { num: 100 * (new as i128 - old as i128), den: old }
    } else if new != 0 {
        Ratio::PosInfinity
    } else {
        Ratio::Finite { num: 0, den: 1 }
    }
}

/// `new` as a multiple of `old`.
pub fn factor(new: u64, old: u64) -> (multiple: Ratio)
    ensures
        multiple == factor_of(new, old),
{
    if old != 0 {
        Ratio::Finite { num: new as i128, den: old }
    } else if new != 0 {
        Ratio::PosInfinity
    } else {
        Ratio::Finite { num: 1, den: 1 }
    }
}

/// A count held against itself has not changed: zero percent, a factor of
/// one, and no threshold at or above zero is crossed upwards.
pub proof fn lemma_no_change(count: u64, limit: Limit)
    ensures
        percentage_of(count, count).is_integer(0),
        factor_of(count, count).is_integer(1),
        !limit.is_negative_spec() ==> !percentage_of(count, count).above(limit),
{
    if !limit.is_negative_spec() {
        let den: int = if count != 0 { count as int } else { 1 };
        assert(0 <= limit.num * den) by (nonlinear_arith)
            requires
                limit.num >= 0,
                den >= 0,
        ;
    }
}

} // verus!
