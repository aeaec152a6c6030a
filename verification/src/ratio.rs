//! Exact rational scalars: a parametric distance is a `Ratio`, an integer
//! numerator over a positive integer denominator. Order and equality of two
//! ratios are decided by cross-multiplication, so no division is ever
//! performed and no precision is lost.

use vstd::prelude::*;

verus! {

/// Mathematical value of a `Ratio`: an unbounded numerator/denominator pair.
pub ghost struct RatioModel {
    pub num: int,
    pub den: int,
}

/// A rational scalar num/den with a positive denominator.
#[derive(Clone, Copy, Debug)]
pub struct Ratio {
    pub num: i128,
    pub den: i128,
}

impl View for Ratio {
    type V = RatioModel;

    open spec fn view(&self) -> RatioModel {
        RatioModel { num: self.num as int, den: self.den as int }
    }
}

/// Validity of a ratio: the denominator is positive.
pub open spec fn ratio_wf(a: RatioModel) -> bool {
    a.den >= 1
}

/// Both parts of the representation stay within `b`.
pub open spec fn ratio_bounded(a: RatioModel, b: int) -> bool {
    -b <= a.num <= b && 1 <= a.den <= b
}

/// The two ratios denote the same rational number (denominators positive).
pub open spec fn ratio_eq(a: RatioModel, b: RatioModel) -> bool {
    a.num * b.den == b.num * a.den
}

/// a < b as rational numbers (denominators positive).
pub open spec fn ratio_lt(a: RatioModel, b: RatioModel) -> bool {
    a.num * b.den < b.num * a.den
}

/// a <= b as rational numbers (denominators positive).
pub open spec fn ratio_le(a: RatioModel, b: RatioModel) -> bool {
    a.num * b.den <= b.num * a.den
}

/// The quotient a / b, with the sign moved into the numerator so the
/// denominator stays positive; meaningful when b.num is nonzero and both
/// denominators are positive.
pub open spec fn ratio_div(a: RatioModel, b: RatioModel) -> RatioModel {
    if b.num >= 0 {
        RatioModel { num: a.num * b.den, den: a.den * b.num }
    } else {
        RatioModel { num: -(a.num * b.den), den: -(a.den * b.num) }
    }
}

impl Ratio {
    /// Builds num/den; the denominator must be positive.
    pub fn new(num: i128, den: i128) -> (r: Ratio)
        requires
            den >= 1,
        ensures
            r@.num == num,
            r@.den == den,
    {
        Ratio { num, den }
    }

    /// Exact equality of the two rational values, by cross-multiplication.
    pub fn same_value(&self, other: &Ratio) -> (r: bool)
        requires
            ratio_bounded(self@, crate::common::T_BOUND as int),
            ratio_bounded(other@, crate::common::T_BOUND as int),
        ensures
            r == ratio_eq(self@, other@),
    {
        proof {
            lemma_mul_abs_bound(
                self.num as int,
                other.den as int,
                crate::common::T_BOUND as int,
                crate::common::T_BOUND as int,
            );
            lemma_mul_abs_bound(
                other.num as int,
                self.den as int,
                crate::common::T_BOUND as int,
                crate::common::T_BOUND as int,
            );
        }
        self.num * other.den == other.num * self.den
    }

    /// Exact order of the two rational values, by cross-multiplication.
    pub fn less_than(&self, other: &Ratio) -> (r: bool)
        requires
            ratio_bounded(self@, crate::common::T_BOUND as int),
            ratio_bounded(other@, crate::common::T_BOUND as int),
        ensures
            r == ratio_lt(self@, other@),
    {
        proof {
            lemma_mul_abs_bound(
                self.num as int,
                other.den as int,
                crate::common::T_BOUND as int,
                crate::common::T_BOUND as int,
            );
            lemma_mul_abs_bound(
                other.num as int,
                self.den as int,
                crate::common::T_BOUND as int,
                crate::common::T_BOUND as int,
            );
        }
        self.num * other.den < other.num * self.den
    }
}

/// |a| <= ba and |b| <= bb give |a * b| <= ba * bb.
pub proof fn lemma_mul_abs_bound(a: int, b: int, ba: int, bb: int)
    by (nonlinear_arith)
    requires
        -ba <= a <= ba,
        -bb <= b <= bb,
        0 <= ba,
        0 <= bb,
    ensures
        -(ba * bb) <= a * b <= ba * bb,
{
}

/// Strict rational order chains with non-strict order: a < b and b <= c give
/// a < c (denominators positive).
pub proof fn lemma_ratio_lt_le_trans(a: RatioModel, b: RatioModel, c: RatioModel)
    by (nonlinear_arith)
    requires
        ratio_lt(a, b),
        ratio_le(b, c),
        a.den >= 1,
        b.den >= 1,
        c.den >= 1,
    ensures
        ratio_lt(a, c),
{
}

/// Rational order is asymmetric: a < b and b < a cannot both hold, and a < b
/// excludes b <= a.
pub proof fn lemma_ratio_lt_asymmetric(a: RatioModel, b: RatioModel)
    requires
        ratio_lt(a, b),
    ensures
        !ratio_lt(b, a),
        !ratio_le(b, a),
{
}

} // verus!
