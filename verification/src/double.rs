//! Numbers with a binary point, carried by their bit patterns.
//!
//! Temperatures, percentages and watts reach the library as IEEE 754 binary64 values. The
//! library stores, copies and compares them; arithmetic on them is written down as a
//! [`Formula`](crate::formula::Formula) and carried out by the caller.
use vstd::arithmetic::power2::{
    lemma_pow2_adds, lemma_pow2_pos, lemma_pow2_strictly_increases, lemma2_to64, pow2,
};
use vstd::prelude::*;

verus! {

/// An IEEE 754 binary64 value, held by its bit pattern: a sign bit, eleven exponent bits and
/// fifty-two fraction bits.
#[derive(Clone, Copy, Debug, PartialEq, Eq, Structural)]
pub struct Double {
    pub bits: u64,
}

/// The bit pattern of positive infinity. Larger magnitudes are not numbers.
pub const INFINITE_BITS: u64 = 0x7FF0_0000_0000_0000;

/// The sign bit, the first bit above every magnitude.
pub const SIGN_BIT: u64 = 0x8000_0000_0000_0000;

/// The first bit above the fraction.
pub const FRACTION_END: u64 = 0x10_0000_0000_0000;

/// The bit pattern of the largest finite value.
pub const LARGEST_BITS: u64 = 0x7FEF_FFFF_FFFF_FFFF;

/// How many times the smallest positive binary64 value fits into one.
pub open spec fn one() -> nat {
    pow2(1074)
}

/// The value of a magnitude pattern, counted in smallest positive values: subnormal patterns
/// count themselves, each further exponent doubles the step. The pattern of infinity counts as
/// the power of two that follows the largest finite value.
pub open spec fn magnitude_units(magnitude: nat) -> nat {
    let exponent = magnitude / (FRACTION_END as nat);
    let fraction = magnitude % (FRACTION_END as nat);
    if exponent == 0 {
        fraction
    } else {
        (FRACTION_END as nat + fraction) * pow2((exponent - 1) as nat)
    }
}

impl Double {
    pub open spec fn negative(self) -> bool {
        self.bits >= SIGN_BIT
    }

    pub open spec fn magnitude(self) -> nat {
        (self.bits % SIGN_BIT) as nat
    }

    pub open spec fn nan(self) -> bool {
        self.magnitude() > INFINITE_BITS
    }

    pub open spec fn finite(self) -> bool {
        self.magnitude() < INFINITE_BITS
    }

    /// The value as a multiple of the smallest positive binary64 value; both zeros count zero.
    pub open spec fn units(self) -> int {
        if self.negative() {
            -(magnitude_units(self.magnitude()) as int)
        } else {
            magnitude_units(self.magnitude()) as int
        }
    }

    /// The real number that a finite pattern stands for.
    pub open spec fn value(self) -> real {
        self.units() as real / one() as real
    }

    /// Numeric order: false as soon as one side is not a number.
    pub open spec fn le(self, other: Double) -> bool {
        !self.nan() && !other.nan() && self.units() <= other.units()
    }

    /// Strict numeric order: false as soon as one side is not a number.
    pub open spec fn lt(self, other: Double) -> bool {
        !self.nan() && !other.nan() && self.units() < other.units()
    }

    /// Whether the value is a number from `low` to `high`, both ends included.
    pub open spec fn between(self, low: nat, high: nat) -> bool {
        !self.nan() && low * one() <= self.units() <= high * one()
    }

    /// Whether the value is a number not below `n`.
    pub open spec fn at_least(self, n: nat) -> bool {
        !self.nan() && n * one() <= self.units()
    }

    /// Whether the value is a number below `n`.
    pub open spec fn below(self, n: nat) -> bool {
        !self.nan() && self.units() < n * one()
    }

    /// Whether the value is a number no further than `width` from zero.
    pub open spec fn within(self, width: nat) -> bool {
        !self.nan() && -(width * one()) <= self.units() <= width * one()
    }

    /// Whether `r` is the point of the range from `low` to `high` that is nearest to the value.
    /// What is no number stays as it is.
    pub open spec fn is_confined(self, low: nat, high: nat, r: Double) -> bool {
        if self.below(low) {
            r.is_whole(low)
        } else if !self.nan() && self.units() > high * one() {
            r.is_whole(high)
        } else {
            r == self
        }
    }

    /// Whether the value is the integer `n`.
    pub open spec fn is_whole(self, n: nat) -> bool {
        self.finite() && !self.negative() && self.units() == n * one()
    }

    /// Whether the pattern is that of no number.
    pub fn is_nan(self) -> (r: bool)
        ensures
            r == self.nan(),
            r == (self.bits % 0x8000_0000_0000_0000 > 0x7FF0_0000_0000_0000),
    {
        self.bits % SIGN_BIT > INFINITE_BITS
    }

    /// Whether the pattern stands for a real number.
    pub fn is_finite(self) -> (r: bool)
        ensures
            r == self.finite(),
            r == (self.bits % 0x8000_0000_0000_0000 < 0x7FF0_0000_0000_0000),
    {
        self.bits % SIGN_BIT < INFINITE_BITS
    }

    /// `self <= other`.
    pub fn at_most(self, other: Double) -> (r: bool)
        ensures
            r == self.le(other),
    {
        proof {
            lemma_units_order(self, other);
        }
        if self.is_nan() || other.is_nan() {
            return false;
        }
        let mine: u64 = self.bits % SIGN_BIT;
        let theirs: u64 = other.bits % SIGN_BIT;
        if self.bits < SIGN_BIT {
            if other.bits < SIGN_BIT {
                mine <= theirs
            } else {
                mine == 0 && theirs == 0
            }
        } else if other.bits < SIGN_BIT {
            true
        } else {
            theirs <= mine
        }
    }

    /// `self < other`.
    pub fn less(self, other: Double) -> (r: bool)
        ensures
            r == self.lt(other),
    {
        !self.is_nan() && !other.is_nan() && !other.at_most(self)
    }

    /// Whether the value lies in the closed range from `low` to `high`.
    pub fn in_range(self, low: u32, high: u32) -> (r: bool)
        ensures
            r == self.between(low as nat, high as nat),
    {
        Double::whole(low).at_most(self) && self.at_most(Double::whole(high))
    }

    /// The value, moved into the closed range from `low` to `high`.
    pub fn confined(self, low: u32, high: u32) -> (r: Double)
        ensures
            self.is_confined(low as nat, high as nat, r),
    {
        let least: Double = Double::whole(low);
        let greatest: Double = Double::whole(high);
        if self.less(least) {
            least
        } else if greatest.less(self) {
            greatest
        } else {
            self
        }
    }

    /// The value `n`, which every binary64 holds exactly.
    pub fn whole(n: u32) -> (r: Double)
        ensures
            r.is_whole(n as nat),
    {
        if n == 0 {
            return Double { bits: 0 };
        }
        let mut top: u64 = 1;
        let mut step: u64 = FRACTION_END;
        let mut exponent: u64 = 0;
        proof {
            lemma2_to64();
            lemma_pow2_adds(20, 32);
        }
        while top <= (n / 2) as u64
            invariant
                1 <= top <= n,
                exponent < 32,
                top == pow2(exponent as nat),
                step == pow2((52 - exponent) as nat),
                top * step == FRACTION_END,
            decreases n - top,
        {
            proof {
                lemma_pow2_adds(1, exponent as nat);
                lemma_pow2_adds(1, (51 - exponent) as nat);
                lemma2_to64();
                if exponent >= 31 {
                    assert(top == pow2(31));
                }
            }
            let ghost before = (top, step);
            top = top * 2;
            step = step / 2;
            exponent = exponent + 1;
            assert(top * step == before.0 * before.1) by (nonlinear_arith)
                requires
                    top == before.0 * 2,
                    before.1 == step * 2,
            ;
        }
        proof {
            let rest = (n - top) as int;
            lemma_pow2_pos((52 - exponent) as nat);
            assert(0 <= rest * step < top * step) by (nonlinear_arith)
                requires
                    0 <= rest < top,
                    step > 0,
            ;
            assert(top * step + rest * step == n * step) by (nonlinear_arith)
                requires
                    rest == n - top,
            ;
            lemma_pow2_adds((52 - exponent) as nat, (1022 + exponent) as nat);
            assert((n * step) * pow2((1022 + exponent) as nat) == n * (step * pow2(
                (1022 + exponent) as nat,
            ))) by (nonlinear_arith);
        }
        let fraction: u64 = (n as u64 - top) * step;
        Double { bits: (1023 + exponent) * FRACTION_END + fraction }
    }
}

proof fn lemma_magnitude_units_increase(a: nat, b: nat)
    requires
        a < b,
    ensures
        magnitude_units(a) < magnitude_units(b),
{
    let end = FRACTION_END as nat;
    let (ea, fa) = (a / end, a % end);
    let (eb, fb) = (b / end, b % end);
    assert(ea <= eb);
    if eb > 0 {
        lemma_pow2_pos((eb - 1) as nat);
        let step_b = pow2((eb - 1) as nat);
        assert((end + fb) * step_b >= end * step_b) by (nonlinear_arith)
            requires
                step_b > 0,
        ;
        if ea == eb {
            assert(fa < fb);
            assert((end + fa) * step_b < (end + fb) * step_b) by (nonlinear_arith)
                requires
                    step_b > 0,
                    fa < fb,
            ;
        } else if ea == 0 {
            assert(end * step_b >= end) by (nonlinear_arith)
                requires
                    step_b > 0,
            ;
        } else {
            let step_a = pow2((ea - 1) as nat);
            lemma_pow2_adds(1, (ea - 1) as nat);
            lemma2_to64();
            if ea < eb - 1 {
                lemma_pow2_strictly_increases(ea, (eb - 1) as nat);
            }
            lemma_pow2_pos((ea - 1) as nat);
            assert((end + fa) * step_a < end * step_b) by (nonlinear_arith)
                requires
                    fa < end,
                    2 * step_a <= step_b,
                    step_a > 0,
            ;
        }
    }
}

proof fn lemma_units_order(a: Double, b: Double)
    ensures
        a.magnitude() < b.magnitude() ==> magnitude_units(a.magnitude()) < magnitude_units(
            b.magnitude(),
        ),
        b.magnitude() < a.magnitude() ==> magnitude_units(b.magnitude()) < magnitude_units(
            a.magnitude(),
        ),
        a.magnitude() > 0 ==> magnitude_units(a.magnitude()) > 0,
        b.magnitude() > 0 ==> magnitude_units(b.magnitude()) > 0,
        magnitude_units(0) == 0,
{
    if a.magnitude() < b.magnitude() {
        lemma_magnitude_units_increase(a.magnitude(), b.magnitude());
    }
    if b.magnitude() < a.magnitude() {
        lemma_magnitude_units_increase(b.magnitude(), a.magnitude());
    }
    if a.magnitude() > 0 {
        lemma_magnitude_units_increase(0, a.magnitude());
    }
    if b.magnitude() > 0 {
        lemma_magnitude_units_increase(0, b.magnitude());
    }
}

/// The order of binary64 patterns that the library compares by is the order of the real numbers
/// that they stand for.
pub proof fn law_order_is_numeric(a: Double, b: Double)
    ensures
        a.units() <= b.units() ==> a.value() <= b.value(),
        a.units() < b.units() ==> a.value() < b.value(),
        a.units() == b.units() ==> a.value() == b.value(),
{
    lemma_pow2_pos(1074);
    let (x, y, n) = (a.units() as real, b.units() as real, one() as real);
    assert(n > 0 as real);
    if a.units() <= b.units() {
        assert(x / n <= y / n) by (nonlinear_arith)
            requires
                x <= y,
                n > 0 as real,
        ;
    }
    if a.units() < b.units() {
        assert(x / n < y / n) by (nonlinear_arith)
            requires
                x < y,
                n > 0 as real,
        ;
    }
}

/// A value within a range of integers is a real number within it.
pub proof fn law_whole_bounds(d: Double, low: nat, high: nat)
    requires
        d.between(low, high),
    ensures
        low as real <= d.value() <= high as real,
{
    lemma_pow2_pos(1074);
    let (x, n) = (d.units() as real, one() as real);
    let (a, b) = (low as real, high as real);
    let unit = one();
    assert((low * unit) as real == low as real * unit as real) by (nonlinear_arith);
    assert((high * unit) as real == high as real * unit as real) by (nonlinear_arith);
    assert(a <= x / n <= b) by (nonlinear_arith)
        requires
            a * n <= x <= b * n,
            n > 0 as real,
    ;
}

/// A number that is moved into a range of integers lies in it.
pub proof fn law_confined_lies_between(d: Double, low: nat, high: nat, r: Double)
    requires
        low <= high,
        !d.nan(),
        d.is_confined(low, high, r),
    ensures
        r.between(low, high),
{
    let unit = one();
    assert(low * unit <= high * unit) by (nonlinear_arith)
        requires
            low <= high,
    ;
}

/// A value no further from zero than an integer is a real number no further from it.
pub proof fn law_width_bounds(d: Double, width: nat)
    requires
        d.within(width),
    ensures
        -(width as real) <= d.value() <= width as real,
{
    lemma_pow2_pos(1074);
    let (x, n, w) = (d.units() as real, one() as real, width as real);
    let unit = one();
    assert((width * unit) as real == width as real * unit as real) by (nonlinear_arith);
    assert(-w <= x / n <= w) by (nonlinear_arith)
        requires
            -(w * n) <= x <= w * n,
            n > 0 as real,
    ;
}

/// A number is below an integer exactly if the real number that it stands for is.
pub proof fn law_below_is_numeric(d: Double, n: nat)
    requires
        !d.nan(),
    ensures
        d.below(n) <==> d.value() < n as real,
{
    lemma_pow2_pos(1074);
    let (x, k, m) = (d.units() as real, one() as real, n as real);
    let unit = one();
    assert((n * unit) as real == n as real * unit as real) by (nonlinear_arith);
    assert(x < m * k <==> x / k < m) by (nonlinear_arith)
        requires
            k > 0 as real,
    ;
}

/// Two numbers compare as the real numbers that they stand for.
pub proof fn law_comparisons_are_numeric(a: Double, b: Double)
    requires
        !a.nan(),
        !b.nan(),
    ensures
        a.le(b) <==> a.value() <= b.value(),
        a.lt(b) <==> a.value() < b.value(),
{
    law_order_is_numeric(a, b);
    law_order_is_numeric(b, a);
}

/// What is not a number compares with nothing.
pub proof fn law_no_number_compares(a: Double, b: Double)
    requires
        a.nan() || b.nan(),
    ensures
        !a.le(b),
        !a.lt(b),
{
}

/// A number lies in a range of integers exactly if the real number that it stands for does.
pub proof fn law_between_is_numeric(d: Double, low: nat, high: nat)
    ensures
        d.between(low, high) <==> !d.nan() && low as real <= d.value() <= high as real,
        d.at_least(low) <==> !d.nan() && low as real <= d.value(),
{
    if !d.nan() {
        law_below_is_numeric(d, low);
        lemma_pow2_pos(1074);
        let (x, k, m) = (d.units() as real, one() as real, high as real);
        let unit = one();
        assert((high * unit) as real == high as real * unit as real) by (nonlinear_arith);
        assert(x <= m * k <==> x / k <= m) by (nonlinear_arith)
            requires
                k > 0 as real,
        ;
    }
}

/// An integer stands for itself.
pub proof fn law_whole_is_numeric(d: Double, n: nat)
    requires
        d.is_whole(n),
    ensures
        !d.nan(),
        d.value() == n as real,
{
    lemma_pow2_pos(1074);
    let (k, m) = (one() as real, n as real);
    let unit = one();
    assert((n * unit) as real == n as real * unit as real) by (nonlinear_arith);
    assert(m * k / k == m) by (nonlinear_arith)
        requires
            k > 0 as real,
    ;
}

/// A number that is moved into a range becomes the nearest number of the range.
pub proof fn law_confined_is_nearest(d: Double, low: nat, high: nat, r: Double)
    requires
        low <= high,
        !d.nan(),
        d.is_confined(low, high, r),
    ensures
        r.value() == if d.value() < low as real {
            low as real
        } else if d.value() > high as real {
            high as real
        } else {
            d.value()
        },
{
    law_below_is_numeric(d, low);
    law_between_is_numeric(d, low, high);
    if d.below(low) {
        law_whole_is_numeric(r, low);
    } else if d.units() > high * one() {
        law_whole_is_numeric(r, high);
    }
}

/// The sign bit turns a number into its opposite.
pub proof fn law_sign_bit_negates(magnitude: u64)
    requires
        magnitude < SIGN_BIT,
    ensures
        (Double { bits: (magnitude + SIGN_BIT) as u64 }).value() == -(Double {
            bits: magnitude,
        }).value(),
        (Double { bits: 0 }).value() == 0 as real,
{
    lemma_pow2_pos(1074);
    let (a, b) = (Double { bits: (magnitude + SIGN_BIT) as u64 }, Double { bits: magnitude });
    assert(a.magnitude() == b.magnitude());
    let (x, n) = (b.units() as real, one() as real);
    assert(a.units() == -b.units());
    assert((-x) / n == -(x / n)) by (nonlinear_arith)
        requires
            n > 0 as real,
    ;
    assert(0 as real / n == 0 as real) by (nonlinear_arith)
        requires
            n > 0 as real,
    ;
}

/// The next exponent doubles a number: the numbers of one exponent are spread evenly, and those of
/// the next lie twice as far apart.
pub proof fn law_next_exponent_doubles(bits: u64)
    requires
        FRACTION_END <= bits,
        bits + FRACTION_END < INFINITE_BITS,
    ensures
        (Double { bits: (bits + FRACTION_END) as u64 }).value() == (Double { bits }).value()
            * 2 as real,
{
    let (a, b) = (Double { bits }, Double { bits: (bits + FRACTION_END) as u64 });
    let end = FRACTION_END as nat;
    let exponent = a.magnitude() / end;
    assert(b.magnitude() / end == exponent + 1);
    assert(b.magnitude() % end == a.magnitude() % end);
    lemma_pow2_adds(1, (exponent - 1) as nat);
    lemma2_to64();
    let (f, p) = ((end + a.magnitude() % end) as int, pow2((exponent - 1) as nat) as int);
    assert(f * (2 * p) == 2 * (f * p)) by (nonlinear_arith);
    assert(b.units() == 2 * a.units());
    lemma_pow2_pos(1074);
    let (x, n) = (a.units() as real, one() as real);
    assert((2 as real * x) / n == x / n * 2 as real) by (nonlinear_arith)
        requires
            n > 0 as real,
    ;
}

/// Numbers of one exponent are spread evenly: a step from one to the next is as wide as the step
/// after it.
pub proof fn law_steps_are_even(bits: u64)
    requires
        bits + 2 < INFINITE_BITS,
        bits as nat / FRACTION_END as nat == (bits + 2) as nat / FRACTION_END as nat,
    ensures
        (Double { bits: (bits + 2) as u64 }).value() - (Double {
            bits: (bits + 1) as u64,
        }).value() == (Double { bits: (bits + 1) as u64 }).value() - (Double { bits }).value(),
{
    let (a, b, c) = (
        Double { bits },
        Double { bits: (bits + 1) as u64 },
        Double { bits: (bits + 2) as u64 },
    );
    let end = FRACTION_END as nat;
    let exponent = bits as nat / end;
    assert(b.magnitude() / end == exponent);
    assert(b.magnitude() % end == a.magnitude() % end + 1);
    assert(c.magnitude() % end == a.magnitude() % end + 2);
    if exponent > 0 {
        let (f, p) = ((end + a.magnitude() % end) as int, pow2((exponent - 1) as nat) as int);
        assert((f + 1) * p == f * p + p) by (nonlinear_arith);
        assert((f + 2) * p == f * p + 2 * p) by (nonlinear_arith);
    }
    assert(c.units() - b.units() == b.units() - a.units());
    lemma_pow2_pos(1074);
    let (x, y, z, n) = (
        a.units() as real,
        b.units() as real,
        c.units() as real,
        one() as real,
    );
    assert(z / n - y / n == y / n - x / n) by (nonlinear_arith)
        requires
            n > 0 as real,
            z - y == y - x,
    ;
}

} // verus!
