//! Arithmetic on binary64 numbers, written down instead of carried out.
//!
//! The library decides which operations a number is the result of, in which order and with
//! which constants. The caller evaluates the operations one by one in binary64 arithmetic.
use crate::double::Double;
use vstd::prelude::*;

verus! {

/// A number given by the operations that compute it. Operands are evaluated before the
/// operation, and each operation rounds its result to binary64.
#[derive(Debug)]
pub enum Formula {
    /// A value that is already there.
    Value(Double),
    /// An integer, converted to the nearest binary64 value.
    Int(u64),
    Neg(Box<Formula>),
    Add(Box<Formula>, Box<Formula>),
    Sub(Box<Formula>, Box<Formula>),
    Mul(Box<Formula>, Box<Formula>),
    Div(Box<Formula>, Box<Formula>),
    /// The nearest integer, halfway cases away from zero.
    Round(Box<Formula>),
    /// The first operand, moved into the closed range from the second to the third.
    Clamp(Box<Formula>, Box<Formula>, Box<Formula>),
}

/// An integer of a reading: known, or the result of a formula with its fraction cut off. A
/// result outside the integer type's range becomes the nearest end of the range, one that is
/// not a number becomes zero.
#[derive(Clone, Debug)]
pub enum Count {
    Exact(u64),
    Truncated(Formula),
}

impl Clone for Formula {
    fn clone(&self) -> (r: Formula)
        ensures
            r == *self,
        decreases self,
    {
        match self {
            Formula::Value(d) => Formula::Value(*d),
            Formula::Int(n) => Formula::Int(*n),
            Formula::Neg(a) => Formula::Neg(Box::new((&**a).clone())),
            Formula::Add(a, b) => Formula::Add(
                Box::new((&**a).clone()),
                Box::new((&**b).clone()),
            ),
            Formula::Sub(a, b) => Formula::Sub(
                Box::new((&**a).clone()),
                Box::new((&**b).clone()),
            ),
            Formula::Mul(a, b) => Formula::Mul(
                Box::new((&**a).clone()),
                Box::new((&**b).clone()),
            ),
            Formula::Div(a, b) => Formula::Div(
                Box::new((&**a).clone()),
                Box::new((&**b).clone()),
            ),
            Formula::Round(a) => Formula::Round(Box::new((&**a).clone())),
            Formula::Clamp(a, low, high) => Formula::Clamp(
                Box::new((&**a).clone()),
                Box::new((&**low).clone()),
                Box::new((&**high).clone()),
            ),
        }
    }
}

impl Count {
    /// Whether the integer is `n` in exact arithmetic, where no operation rounds.
    pub open spec fn counts(self, n: u64) -> bool {
        match self {
            Count::Exact(m) => m == n,
            Count::Truncated(formula) => n as real <= formula.value() < n as real + 1 as real,
        }
    }
}

/// The nearest integer to `x`, halfway cases away from zero.
pub open spec fn round_half_away(x: real) -> int {
    let half = 1 as real / 2 as real;
    if x >= 0 as real {
        (x + half).floor()
    } else {
        -((-x + half).floor())
    }
}

/// The point of the range from `low` to `high` that is nearest to `x`.
pub open spec fn clamped(x: real, low: real, high: real) -> real {
    if x < low {
        low
    } else if x > high {
        high
    } else {
        x
    }
}

impl Formula {
    /// The result in exact arithmetic, where no operation rounds.
    pub open spec fn value(self) -> real
        decreases self,
    {
        match self {
            Formula::Value(d) => d.value(),
            Formula::Int(n) => n as real,
            Formula::Neg(a) => -a.value(),
            Formula::Add(a, b) => a.value() + b.value(),
            Formula::Sub(a, b) => a.value() - b.value(),
            Formula::Mul(a, b) => a.value() * b.value(),
            Formula::Div(a, b) => a.value() / b.value(),
            Formula::Round(a) => round_half_away(a.value()) as real,
            Formula::Clamp(a, low, high) => clamped(a.value(), low.value(), high.value()),
        }
    }

    /// `-self`.
    #[verifier::allow_in_spec]
    pub fn negated(self) -> Formula
        returns
            Formula::Neg(Box::new(self)),
    {
        Formula::Neg(Box::new(self))
    }

    /// `self + other`.
    #[verifier::allow_in_spec]
    pub fn plus(self, other: Formula) -> Formula
        returns
            Formula::Add(Box::new(self), Box::new(other)),
    {
        Formula::Add(Box::new(self), Box::new(other))
    }

    /// `self - other`.
    #[verifier::allow_in_spec]
    pub fn minus(self, other: Formula) -> Formula
        returns
            Formula::Sub(Box::new(self), Box::new(other)),
    {
        Formula::Sub(Box::new(self), Box::new(other))
    }

    /// `self * other`.
    #[verifier::allow_in_spec]
    pub fn times(self, other: Formula) -> Formula
        returns
            Formula::Mul(Box::new(self), Box::new(other)),
    {
        Formula::Mul(Box::new(self), Box::new(other))
    }

    /// `self / other`.
    #[verifier::allow_in_spec]
    pub fn over(self, other: Formula) -> Formula
        returns
            Formula::Div(Box::new(self), Box::new(other)),
    {
        Formula::Div(Box::new(self), Box::new(other))
    }

    /// `self`, rounded to an integer.
    #[verifier::allow_in_spec]
    pub fn rounded(self) -> Formula
        returns
            Formula::Round(Box::new(self)),
    {
        Formula::Round(Box::new(self))
    }

    /// `self`, moved into the range from `low` to `high`.
    #[verifier::allow_in_spec]
    pub fn clamped_to(self, low: Formula, high: Formula) -> Formula
        returns
            Formula::Clamp(Box::new(self), Box::new(low), Box::new(high)),
    {
        Formula::Clamp(Box::new(self), Box::new(low), Box::new(high))
    }

    /// The quotient of two integers; with a power of ten below the line, the binary64 value
    /// nearest to a decimal fraction.
    #[verifier::allow_in_spec]
    pub fn ratio(numerator: u64, denominator: u64) -> Formula
        returns
            Formula::Int(numerator).over(Formula::Int(denominator)),
    {
        Formula::Int(numerator).over(Formula::Int(denominator))
    }

    /// `self`, rounded to one decimal place.
    #[verifier::allow_in_spec]
    pub fn to_tenths(self) -> Formula
        returns
            self.times(Formula::Int(10)).rounded().over(Formula::Int(10)),
    {
        self.times(Formula::Int(10)).rounded().over(Formula::Int(10))
    }
}

pub open spec fn plain(value: Option<Double>) -> Option<Formula> {
    match value {
        Some(v) => Some(Formula::Value(v)),
        None => None,
    }
}

/// A value as it is, where there is one.
pub fn plainly(value: Option<Double>) -> (r: Option<Formula>)
    ensures
        r == plain(value),
{
    match value {
        Some(v) => Some(Formula::Value(v)),
        None => None,
    }
}

pub open spec fn scaled(value: Option<Double>, divisor: u64) -> Option<Formula> {
    match value {
        Some(v) => Some(Formula::Value(v).over(Formula::Int(divisor))),
        None => None,
    }
}

/// A value divided by an integer, where there is one: a change of units.
pub fn scaled_by(value: Option<Double>, divisor: u64) -> (r: Option<Formula>)
    ensures
        r == scaled(value, divisor),
{
    match value {
        Some(v) => Some(Formula::Value(v).over(Formula::Int(divisor))),
        None => None,
    }
}

pub open spec fn exact(count: Option<u64>) -> Option<Count> {
    match count {
        Some(n) => Some(Count::Exact(n)),
        None => None,
    }
}

/// A known integer, where there is one.
pub fn exactly(count: Option<u64>) -> (r: Option<Count>)
    ensures
        r == exact(count),
{
    match count {
        Some(n) => Some(Count::Exact(n)),
        None => None,
    }
}

pub open spec fn exact_clock(clock: Option<u32>) -> Option<Count> {
    match clock {
        Some(n) => Some(Count::Exact(n as u64)),
        None => None,
    }
}

/// A known clock, where there is one.
pub fn exactly_clock(clock: Option<u32>) -> (r: Option<Count>)
    ensures
        r == exact_clock(clock),
{
    match clock {
        Some(n) => Some(Count::Exact(n as u64)),
        None => None,
    }
}

/// Rounding moves a number by no more than a half.
pub proof fn law_rounding_is_near(x: real)
    ensures
        x - 1 as real / 2 as real <= round_half_away(x) as real <= x + 1 as real / 2 as real,
{
}

/// Rounding leaves a number between two integers between them.
pub proof fn law_rounding_keeps_integers(x: real, low: int, high: int)
    requires
        low as real <= x <= high as real,
    ensures
        low <= round_half_away(x) <= high,
{
}

} // verus!
