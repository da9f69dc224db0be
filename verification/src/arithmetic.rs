//! The arithmetic of single precision numbers that the signal path asks of its host.
//!
//! Comparing, clamping and classifying numbers needs only their bit patterns and is
//! done by [`crate::single`]. What rounds is left to an implementation of
//! [`Arithmetic`]. Nothing is assumed of one: every contract below holds whatever the
//! operations return, and says which operation was asked of which operands.

use vstd::prelude::*;

use crate::limiter::{ONE, ZERO};
use crate::single::{single, Single};

verus! {

/// The rounding operations on single precision numbers.
pub trait Arithmetic {
    /// `a + b`.
    fn sum(a: Single, b: Single) -> Single;

    /// `a - b`.
    fn difference(a: Single, b: Single) -> Single;

    /// `a * b`.
    fn product(a: Single, b: Single) -> Single;

    /// `a / b`.
    fn quotient(a: Single, b: Single) -> Single;

    /// The square root of `a`.
    fn square_root(a: Single) -> Single;

    /// `e` to the power of `a`.
    fn exponential(a: Single) -> Single;

    /// Ten to the power of `a`.
    fn power_of_ten(a: Single) -> Single;

    /// The logarithm of `a` to base ten.
    fn logarithm(a: Single) -> Single;

    /// The number nearest to the integer `n`.
    fn from_integer(n: u64) -> Single;

    /// `a` rounded to the nearest integer and brought into the range of the result.
    fn rounded(a: Single) -> u64;

    /// `a` cut to its integer part and brought into the range of the result.
    fn truncated(a: Single) -> u64;

    /// `a` rounded to the nearest integer and brought into the range of the result.
    fn rounded_signed(a: Single) -> i32;
}

/// `r` is an answer to `a + b`.
pub open spec fn sum_is<A: Arithmetic>(a: Single, b: Single, r: Single) -> bool {
    call_ensures(A::sum, (a, b), r)
}

/// `r` is an answer to `a - b`.
pub open spec fn difference_is<A: Arithmetic>(a: Single, b: Single, r: Single) -> bool {
    call_ensures(A::difference, (a, b), r)
}

/// `r` is an answer to `a * b`.
pub open spec fn product_is<A: Arithmetic>(a: Single, b: Single, r: Single) -> bool {
    call_ensures(A::product, (a, b), r)
}

/// `r` is an answer to `a / b`.
pub open spec fn quotient_is<A: Arithmetic>(a: Single, b: Single, r: Single) -> bool {
    call_ensures(A::quotient, (a, b), r)
}

/// `r` is an answer for the square root of `a`.
pub open spec fn square_root_is<A: Arithmetic>(a: Single, r: Single) -> bool {
    call_ensures(A::square_root, (a,), r)
}

/// `r` is an answer for `e` to the power of `a`.
pub open spec fn exponential_is<A: Arithmetic>(a: Single, r: Single) -> bool {
    call_ensures(A::exponential, (a,), r)
}

/// `r` is an answer for ten to the power of `a`.
pub open spec fn power_of_ten_is<A: Arithmetic>(a: Single, r: Single) -> bool {
    call_ensures(A::power_of_ten, (a,), r)
}

/// `r` is an answer for the logarithm of `a` to base ten.
pub open spec fn logarithm_is<A: Arithmetic>(a: Single, r: Single) -> bool {
    call_ensures(A::logarithm, (a,), r)
}

/// `r` is an answer for the number nearest to `n`.
pub open spec fn integer_is<A: Arithmetic>(n: u64, r: Single) -> bool {
    call_ensures(A::from_integer, (n,), r)
}

/// `r` is an answer for `a` rounded to an integer.
pub open spec fn rounded_is<A: Arithmetic>(a: Single, r: u64) -> bool {
    call_ensures(A::rounded, (a,), r)
}

/// `r` is an answer for the integer part of `a`.
pub open spec fn truncated_is<A: Arithmetic>(a: Single, r: u64) -> bool {
    call_ensures(A::truncated, (a,), r)
}

/// `r` is an answer for `a` rounded to a signed integer.
pub open spec fn rounded_signed_is<A: Arithmetic>(a: Single, r: i32) -> bool {
    call_ensures(A::rounded_signed, (a,), r)
}

/// The host answers the same question always alike, where the answer is a single precision
/// number.
pub open spec fn answers_alike<A: Arithmetic>() -> bool {
    &&& forall|a: Single, b: Single, r: Single, q: Single| #[trigger]
        sum_is::<A>(a, b, r) && #[trigger] sum_is::<A>(a, b, q) ==> r == q
    &&& forall|a: Single, b: Single, r: Single, q: Single| #[trigger]
        difference_is::<A>(a, b, r) && #[trigger] difference_is::<A>(a, b, q) ==> r == q
    &&& forall|a: Single, b: Single, r: Single, q: Single| #[trigger]
        product_is::<A>(a, b, r) && #[trigger] product_is::<A>(a, b, q) ==> r == q
    &&& forall|a: Single, b: Single, r: Single, q: Single| #[trigger]
        quotient_is::<A>(a, b, r) && #[trigger] quotient_is::<A>(a, b, q) ==> r == q
    &&& forall|a: Single, r: Single, q: Single| #[trigger]
        square_root_is::<A>(a, r) && #[trigger] square_root_is::<A>(a, q) ==> r == q
    &&& forall|a: Single, r: Single, q: Single| #[trigger]
        exponential_is::<A>(a, r) && #[trigger] exponential_is::<A>(a, q) ==> r == q
    &&& forall|a: Single, r: Single, q: Single| #[trigger]
        power_of_ten_is::<A>(a, r) && #[trigger] power_of_ten_is::<A>(a, q) ==> r == q
    &&& forall|a: Single, r: Single, q: Single| #[trigger]
        logarithm_is::<A>(a, r) && #[trigger] logarithm_is::<A>(a, q) ==> r == q
}

/// The host answers the square of a finite number with a number that has no sign.
pub open spec fn squares_have_no_sign<A: Arithmetic>() -> bool {
    forall|a: Single, r: Single| #[trigger]
        product_is::<A>(a, a, r) && a.finite() ==> !r.nan() && !r.negative()
}

/// The host's arithmetic knows what one and zero do to a number: to multiply or divide by one,
/// to add or to take away zero leaves it as it is, zero times it and a part of zero are zero,
/// it less itself is zero, and it over itself is one.
pub open spec fn knows_one_and_zero<A: Arithmetic>() -> bool {
    let zero = single(ZERO);
    let one = single(ONE);
    &&& forall|a: Single, b: Single, r: Single| #[trigger]
        product_is::<A>(a, b, r) ==> {
            &&& b == one && !a.nan() ==> r == a
            &&& a == one && !b.nan() ==> r == b
            &&& a.finite() && b.same(zero) ==> r.same(zero)
            &&& b.finite() && a.same(zero) ==> r.same(zero)
        }
    &&& forall|a: Single, b: Single, r: Single| #[trigger]
        sum_is::<A>(a, b, r) ==> {
            &&& !a.nan() && b.same(zero) ==> r.same(a)
            &&& !b.nan() && a.same(zero) ==> r.same(b)
        }
    &&& forall|a: Single, b: Single, r: Single| #[trigger]
        difference_is::<A>(a, b, r) ==> {
            &&& !a.nan() && b.same(zero) ==> r.same(a)
            &&& a.finite() && a.same(b) ==> r.same(zero)
        }
    &&& forall|a: Single, b: Single, r: Single| #[trigger]
        quotient_is::<A>(a, b, r) ==> {
            &&& b == one && !a.nan() ==> r == a
            &&& a.same(zero) && !b.nan() && !b.same(zero) ==> r.same(zero)
            &&& a == b && a.finite() && !a.same(zero) ==> r == one
        }
}

/// The host's arithmetic keeps the order of distances from zero: of two numbers scaled alike the
/// one farther from zero stays so, and its square is the larger one. No square has a sign.
#[verifier::opaque]
pub open spec fn keeps_distances<A: Arithmetic>() -> bool {
    &&& forall|a: Single, b: Single, factor: Single, r: Single, q: Single|
        #![trigger product_is::<A>(a, factor, r), product_is::<A>(b, factor, q)]
        product_is::<A>(a, factor, r) && product_is::<A>(b, factor, q) && b.finite() && q.finite()
            && a.absolute().at_most(b.absolute()) ==> r.absolute().at_most(q.absolute())
    &&& forall|a: Single, b: Single, r: Single, q: Single|
        #![trigger product_is::<A>(a, a, r), product_is::<A>(b, b, q)]
        product_is::<A>(a, a, r) && product_is::<A>(b, b, q) && b.finite()
            && a.absolute().at_most(b.absolute()) ==> r.at_most(q) && !r.negative()
            && !q.negative()
}

/// The host's arithmetic keeps the order of numbers above zero: a positive multiple of the larger one is
/// larger, a part over it is smaller, so is what is left of one, and to add the same keeps the order.
pub open spec fn keeps_order<A: Arithmetic>() -> bool {
    let zero = single(ZERO);
    &&& forall|factor: Single, a: Single, b: Single, r: Single, q: Single|
        #![trigger product_is::<A>(factor, a, r), product_is::<A>(factor, b, q)]
        product_is::<A>(factor, a, r) && product_is::<A>(factor, b, q) && factor.finite()
            && zero.below(factor) && a.finite() && b.finite() && a.at_most(b) ==> r.at_most(q)
    &&& forall|whole: Single, a: Single, b: Single, r: Single, q: Single|
        #![trigger quotient_is::<A>(whole, a, r), quotient_is::<A>(whole, b, q)]
        quotient_is::<A>(whole, a, r) && quotient_is::<A>(whole, b, q) && whole.finite()
            && zero.below(a) && a.at_most(b) ==> (if zero.at_most(whole) {
            q.at_most(r)
        } else {
            r.at_most(q)
        })
    &&& forall|a: Single, b: Single, more: Single, r: Single, q: Single|
        #![trigger sum_is::<A>(a, more, r), sum_is::<A>(b, more, q)]
        sum_is::<A>(a, more, r) && sum_is::<A>(b, more, q) && more.finite() && a.at_most(b)
            ==> r.at_most(q)
    &&& forall|whole: Single, a: Single, b: Single, r: Single, q: Single|
        #![trigger difference_is::<A>(whole, a, r), difference_is::<A>(whole, b, q)]
        difference_is::<A>(whole, a, r) && difference_is::<A>(whole, b, q) && whole.finite()
            && a.at_most(b) ==> q.at_most(r)
    &&& forall|a: Single, b: Single, r: Single, q: Single|
        #![trigger exponential_is::<A>(a, r), exponential_is::<A>(b, q)]
        exponential_is::<A>(a, r) && exponential_is::<A>(b, q) && a.at_most(b) ==> r.at_most(q)
}

/// On the way from `a`, counted in parts of `unit`, to its power of ten and back by the logarithm
/// the host does not round.
pub open spec fn undoes_power<A: Arithmetic>(a: Single, unit: Single) -> bool {
    forall|part: Single, power: Single, log: Single, r: Single|
        #![trigger quotient_is::<A>(a, unit, part), power_of_ten_is::<A>(part, power), logarithm_is::<A>(power, log), product_is::<A>(unit, log, r)]
        quotient_is::<A>(a, unit, part) && power_of_ten_is::<A>(part, power) && logarithm_is::<A>(
            power,
            log,
        ) && product_is::<A>(unit, log, r) ==> r == a
}

} // verus!
