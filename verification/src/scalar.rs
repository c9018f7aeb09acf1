//! The numeric backend of the toolkit.
//!
//! Every tensor is a buffer of values of one scalar type. The toolkit never
//! looks inside such a value: it only combines values through the operations
//! of [`Scalar`]. Each operation has a specification twin (`*_spec`) that
//! names its result, so that the contracts of the toolkit can say exactly
//! which operations are applied, to what, and in which order.
use vstd::prelude::*;

verus! {

/// A text as a sequence of characters.
pub type Text = Seq<char>;

/// A scalar type the toolkit can compute with, typically a binary
/// floating-point type.
///
/// An implementation promises that every operation but [`Scalar::sample`]
/// is a function of its arguments, so that its result is the value its
/// specification twin names, and that every sample lies in the sample
/// range. For a floating-point type this takes all not-a-number values as
/// one value. No algebraic law (associativity, commutativity, neutral
/// elements) is promised or used anywhere; sums are therefore specified
/// with their order of accumulation.
///
/// Nothing in this crate implements the trait: what is proved of the
/// toolkit is proved for every scalar type that keeps this promise.
pub trait Scalar: Copy {
    /// The scalar that stands for the whole number `n`.
    spec fn from_count_spec(n: usize) -> Self;

    /// Converts a whole number, such as a row count, to a scalar.
    fn from_count(n: usize) -> (r: Self)
        ensures
            r == Self::from_count_spec(n),
    ;

    /// The value below every other one: the start of a running maximum.
    spec fn lowest_spec() -> Self;

    /// Returns the value below every other one (negative infinity).
    fn lowest() -> (r: Self)
        ensures
            r == Self::lowest_spec(),
    ;

    /// The sum `self + rhs`.
    spec fn add_spec(self, rhs: Self) -> Self;

    /// Adds two scalars.
    fn add(self, rhs: Self) -> (r: Self)
        ensures
            r == self.add_spec(rhs),
    ;

    /// The difference `self - rhs`.
    spec fn sub_spec(self, rhs: Self) -> Self;

    /// Subtracts `rhs` from `self`.
    fn sub(self, rhs: Self) -> (r: Self)
        ensures
            r == self.sub_spec(rhs),
    ;

    /// The product `self * rhs`.
    spec fn mul_spec(self, rhs: Self) -> Self;

    /// Multiplies two scalars.
    fn mul(self, rhs: Self) -> (r: Self)
        ensures
            r == self.mul_spec(rhs),
    ;

    /// The quotient `self / rhs`.
    spec fn div_spec(self, rhs: Self) -> Self;

    /// Divides `self` by `rhs`. Total: dividing by zero yields whatever the
    /// scalar type defines (an infinity or a not-a-number value).
    fn div(self, rhs: Self) -> (r: Self)
        ensures
            r == self.div_spec(rhs),
    ;

    /// The negation `-self`.
    spec fn neg_spec(self) -> Self;

    /// Negates a scalar.
    fn neg(self) -> (r: Self)
        ensures
            r == self.neg_spec(),
    ;

    /// The exponential `e^self`.
    spec fn exp_spec(self) -> Self;

    /// Raises `e` to the power `self`.
    fn exp(self) -> (r: Self)
        ensures
            r == self.exp_spec(),
    ;

    /// The natural logarithm of `self`.
    spec fn ln_spec(self) -> Self;

    /// Takes the natural logarithm.
    fn ln(self) -> (r: Self)
        ensures
            r == self.ln_spec(),
    ;

    /// The hyperbolic tangent of `self`.
    spec fn tanh_spec(self) -> Self;

    /// Takes the hyperbolic tangent.
    fn tanh(self) -> (r: Self)
        ensures
            r == self.tanh_spec(),
    ;

    /// The square root of `self`.
    spec fn sqrt_spec(self) -> Self;

    /// Takes the square root.
    fn sqrt(self) -> (r: Self)
        ensures
            r == self.sqrt_spec(),
    ;

    /// The power `self^n` for a whole exponent.
    spec fn powi_spec(self, n: i32) -> Self;

    /// Raises `self` to a whole power.
    fn powi(self, n: i32) -> (r: Self)
        ensures
            r == self.powi_spec(n),
    ;

    /// Whether `self` is strictly greater than `rhs`.
    spec fn gt_spec(self, rhs: Self) -> bool;

    /// Compares two scalars.
    fn gt(self, rhs: Self) -> (r: bool)
        ensures
            r == self.gt_spec(rhs),
    ;

    /// The larger of `self` and `rhs`.
    spec fn max_spec(self, rhs: Self) -> Self;

    /// Returns the larger of two scalars.
    fn max(self, rhs: Self) -> (r: Self)
        ensures
            r == self.max_spec(rhs),
    ;

    /// The whole number nearest to `self`, halves away from zero; zero for a
    /// value that is negative or not a number, the largest count for one
    /// that is too large.
    spec fn to_count_spec(self) -> usize;

    /// Rounds to the nearest whole number.
    fn to_count(self) -> (r: usize)
        ensures
            r == self.to_count_spec(),
    ;

    /// The scalar that `text` spells, if it spells one.
    spec fn parse_spec(text: Text) -> Option<Self>;

    /// Reads a scalar from its text.
    fn parse(text: &str) -> (r: Option<Self>)
        ensures
            r == Self::parse_spec(text@),
    ;

    /// The scalar written out with four decimals.
    spec fn show_spec(self) -> String;

    /// Writes the scalar out with four decimals.
    fn show(self) -> (r: String)
        ensures
            r@ == self.show_spec()@,
    ;

    /// Whether the scalar lies in `[-1, 1)`, the range samples are drawn
    /// from.
    spec fn in_sample_range(self) -> bool;

    /// Draws a value uniformly from `[-1, 1)`. Two calls may differ, so the
    /// result has no name; only its range is promised.
    fn sample() -> (r: Self)
        ensures
            r.in_sample_range(),
    ;
}

/// The scalar zero.
pub open spec fn zero<S: Scalar>() -> S {
    S::from_count_spec(0)
}

/// The scalar one.
pub open spec fn one<S: Scalar>() -> S {
    S::from_count_spec(1)
}

/// The scalar two.
pub open spec fn two<S: Scalar>() -> S {
    S::from_count_spec(2)
}

/// The scalar `num / den`, for example `ratio(9, 10)` for nine tenths.
pub open spec fn ratio<S: Scalar>(num: usize, den: usize) -> S {
    S::from_count_spec(num).div_spec(S::from_count_spec(den))
}

} // verus!
