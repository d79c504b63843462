//! Complex arithmetic on integer components, done by `num::complex::Complex`.
//!
//! The three functions here are not verified: each states what the `num`
//! operation it calls returns, and the rest of the crate is proved from that.
use vstd::prelude::*;
use num::complex::Complex;
use crate::fixed::LIMIT;

verus! {

/// `Complex::mul` on `i128` components: the product
/// `(a_re + i a_im) * (b_re + i b_im)`, real part first.
///
/// The bound on the operands keeps every intermediate product and sum
/// inside `i128`.
#[verifier::external_body]
pub(crate) fn complex_mul(a_re: i64, a_im: i64, b_re: i64, b_im: i64) -> (r: (i128, i128))
    requires
        -LIMIT <= a_re <= LIMIT,
        -LIMIT <= a_im <= LIMIT,
        -LIMIT <= b_re <= LIMIT,
        -LIMIT <= b_im <= LIMIT,
    ensures
        r.0 == a_re * b_re - a_im * b_im,
        r.1 == a_re * b_im + a_im * b_re,
{
    let p = Complex::new(a_re as i128, a_im as i128) * Complex::new(b_re as i128, b_im as i128);
    (p.re, p.im)
}

/// `Complex::add` on `i128` components: the sum, component by component.
#[verifier::external_body]
pub(crate) fn complex_add(a_re: i64, a_im: i64, b_re: i64, b_im: i64) -> (r: (i128, i128))
    ensures
        r.0 == a_re + b_re,
        r.1 == a_im + b_im,
{
    let s = Complex::new(a_re as i128, a_im as i128) + Complex::new(b_re as i128, b_im as i128);
    (s.re, s.im)
}

/// `Complex::norm_sqr` on `i128` components: `re^2 + im^2`.
///
/// The bound on the components keeps both squares and their sum inside `i128`.
#[verifier::external_body]
pub(crate) fn complex_norm_sqr(re: i64, im: i64) -> (r: i128)
    requires
        -LIMIT <= re <= LIMIT,
        -LIMIT <= im <= LIMIT,
    ensures
        r == re * re + im * im,
{
    Complex::new(re as i128, im as i128).norm_sqr()
}

} // verus!
