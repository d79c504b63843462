//! Fixed-point numbers: an `i64` that counts units of `2^-52`.
use vstd::prelude::*;
use vstd::arithmetic::div_mod::lemma_fundamental_div_mod_converse;

verus! {

/// Number of fractional bits of a plane coordinate.
pub const FRAC_BITS: u32 = 52;

/// The fixed-point representation of `1.0`, that is `2^52`.
pub const ONE: i64 = 0x10_0000_0000_0000;

/// Largest magnitude a viewport bound may have: `2^61`, which stands for `512.0`.
/// The difference and the sum of two such bounds fit in an `i64`.
pub const LIMIT: i64 = 0x2000_0000_0000_0000;

/// Quotient of `a` by a positive `b`, rounded toward negative infinity.
pub fn floor_div(a: i128, b: i128) -> (q: i128)
    requires
        b > 0,
    ensures
        q == a as int / b as int,
        q * b <= a < q * b + b,
{
    if a >= 0 {
        let q: i128 = a / b;
        proof {
            vstd::arithmetic::div_mod::lemma_fundamental_div_mod(a as int, b as int);
            vstd::arithmetic::div_mod::lemma_mod_bound(a as int, b as int);
            assert(q * b == b * q) by (nonlinear_arith);
        }
        q
    } else {
        let m: i128 = -(a + 1);
        let p: i128 = m / b;
        proof {
            vstd::arithmetic::div_mod::lemma_fundamental_div_mod(m as int, b as int);
            vstd::arithmetic::div_mod::lemma_mod_bound(m as int, b as int);
            let r: int = m as int % b as int;
            assert(p >= 0) by (nonlinear_arith)
                requires m >= 0, b > 0, p == m as int / b as int;
            assert(p <= m) by (nonlinear_arith)
                requires m >= 0, b > 0, p >= 0, m == b * p + r, r >= 0;
            assert((-p - 1) * b + (b - 1 - r) == a) by (nonlinear_arith)
                requires m == b * p + r, m == -(a + 1);
            lemma_fundamental_div_mod_converse(a as int, b as int, -p - 1, b - 1 - r);
        }
        -p - 1
    }
}

/// Quotient of `a` by a positive `b`, rounded toward zero: the same
/// magnitude for `a` and for `-a`.
pub open spec fn trunc_div(a: int, b: int) -> int {
    if a >= 0 {
        a / b
    } else {
        -((-a) / b)
    }
}

/// Rounding toward zero commutes with negation.
pub proof fn lemma_trunc_div_is_odd(a: int, b: int)
    requires
        b > 0,
    ensures
        trunc_div(-a, b) == -trunc_div(a, b),
{
    assert(0int / b == 0) by (nonlinear_arith)
        requires b > 0;
}

/// Quotient of `a` by a positive `b`, rounded toward zero.
pub fn div_toward_zero(a: i128, b: i128) -> (q: i128)
    requires
        b > 0,
    ensures
        q == trunc_div(a as int, b as int),
        a >= 0 ==> 0 <= q * b <= a < q * b + b,
        a <= 0 ==> q * b - b < a <= q * b <= 0,
{
    proof {
        let m: int = if a >= 0 { a as int } else { -(a as int) };
        let p: int = m / (b as int);
        vstd::arithmetic::div_mod::lemma_fundamental_div_mod(m, b as int);
        vstd::arithmetic::div_mod::lemma_mod_bound(m, b as int);
        assert(p >= 0) by (nonlinear_arith)
            requires m >= 0, b > 0, p == m / (b as int);
        assert(p * b == b * p) by (nonlinear_arith);
        assert(0 <= p * b) by (nonlinear_arith)
            requires p >= 0, b > 0;
        assert((-p) * b == -(p * b)) by (nonlinear_arith);
    }
    a / b
}

} // verus!
