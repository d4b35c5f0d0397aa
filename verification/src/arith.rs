use vstd::arithmetic::div_mod::{
    lemma_fundamental_div_mod, lemma_fundamental_div_mod_converse_div, lemma_mod_bound,
};
use vstd::prelude::*;

verus! {

/// The quotient `n / d` rounded up, for `n >= 0` and `d > 0`.
pub open spec fn div_ceil(n: int, d: int) -> int {
    (n + d - 1) / d
}

/// `q` is the floor of `n / d` exactly when `q * d <= n < q * d + d`.
pub proof fn lemma_floor_bounds(n: int, d: int)
    requires
        0 <= n,
        0 < d,
    ensures
        0 <= n / d,
        (n / d) * d <= n < (n / d) * d + d,
{
    lemma_fundamental_div_mod(n, d);
    lemma_mod_bound(n, d);
    assert(d * (n / d) == (n / d) * d) by (nonlinear_arith);
    assert(0 <= n / d) by (nonlinear_arith)
        requires
            0 < d,
            0 <= n,
            n < (n / d) * d + d,
    ;
}

/// Any `q` with `q * d <= n < q * d + d` is the floor of `n / d`.
pub proof fn lemma_floor_unique(n: int, d: int, q: int)
    requires
        0 < d,
        q * d <= n < q * d + d,
    ensures
        n / d == q,
{
    assert(n == q * d + (n - q * d));
    lemma_fundamental_div_mod_converse_div(n, d, q, n - q * d);
}

/// The rounded-up quotient is the least `c` with `c * d >= n`.
pub proof fn lemma_ceil_bounds(n: int, d: int)
    requires
        0 <= n,
        0 < d,
    ensures
        0 <= div_ceil(n, d),
        n <= div_ceil(n, d) * d < n + d,
        n > 0 ==> div_ceil(n, d) > 0,
        div_ceil(n, d) == if n % d == 0 {
            n / d
        } else {
            n / d + 1
        },
{
    lemma_floor_bounds(n + d - 1, d);
    lemma_floor_bounds(n, d);
    lemma_fundamental_div_mod(n, d);
    lemma_mod_bound(n, d);
    let q = n / d;
    let r = n % d;
    assert(d * q == q * d) by (nonlinear_arith);
    if r == 0 {
        lemma_floor_unique(n + d - 1, d, q);
    } else {
        assert((q + 1) * d == q * d + d) by (nonlinear_arith);
        lemma_floor_unique(n + d - 1, d, q + 1);
    }
    if n > 0 && div_ceil(n, d) <= 0 {
        assert(div_ceil(n, d) * d <= 0) by (nonlinear_arith)
            requires
                div_ceil(n, d) <= 0,
                0 < d,
        ;
    }
}

/// The product of two sixty-four-bit amounts fits in 128 bits.
pub proof fn lemma_product_fits(a: u64, b: u64)
    ensures
        0 <= a * b <= 0xFFFF_FFFF_FFFF_FFFE_0000_0000_0000_0001,
        a * b < u128::MAX,
{
    assert(0 <= a * b <= 0xFFFF_FFFF_FFFF_FFFF * 0xFFFF_FFFF_FFFF_FFFF) by (nonlinear_arith)
        requires
            0 <= a <= 0xFFFF_FFFF_FFFF_FFFF,
            0 <= b <= 0xFFFF_FFFF_FFFF_FFFF,
    ;
}

/// `a * b / d`, rounded down, in 128-bit arithmetic.
pub fn mul_div_floor(a: u64, b: u64, d: u128) -> (q: u128)
    requires
        d > 0,
    ensures
        q == (a * b) / (d as int),
{
    proof {
        lemma_product_fits(a, b);
    }
    let n: u128 = (a as u128) * (b as u128);
    n / d
}

/// `a * b / d`, rounded up, in 128-bit arithmetic.
pub fn mul_div_ceil(a: u64, b: u64, d: u128) -> (q: u128)
    requires
        d > 0,
    ensures
        q == div_ceil(a * b, d as int),
{
    proof {
        lemma_product_fits(a, b);
        lemma_ceil_bounds(a * b, d as int);
        lemma_floor_bounds(a * b, d as int);
        assert((a * b) / (d as int) <= a * b) by (nonlinear_arith)
            requires
                0 <= a * b,
                0 < d,
                ((a * b) / (d as int)) * d <= a * b,
                0 <= (a * b) / (d as int),
        ;
    }
    let n: u128 = (a as u128) * (b as u128);
    let q: u128 = n / d;
    if n % d == 0 {
        q
    } else {
        q + 1
    }
}

} // verus!
