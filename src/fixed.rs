//! Fixed-point decimals: an amount `x` is held as the integer `x * SCALE`.

use vstd::prelude::*;

verus! {

/// Integer units in one whole unit (eight decimal places).
pub const SCALE: i128 = 100_000_000;

/// Largest price a ticker may carry, in `1 / SCALE` units.
pub const PRICE_MAX: i64 = 100_000_000_000_000;

/// Bound on the magnitude of every smoothed value.
pub const VALUE_MAX: i128 = 100_000_000_000_000_000_000_000;

/// Division rounding toward zero (Rust's `/`), for `d > 0`.
pub open spec fn div_trunc(a: int, d: int) -> int {
    if a >= 0 {
        a / d
    } else {
        -((-a) / d)
    }
}

/// Division rounding toward negative infinity, for `d > 0`.
pub open spec fn div_floor(a: int, d: int) -> int {
    a / d
}

/// Division rounding toward positive infinity, for `d > 0`.
pub open spec fn div_ceil(a: int, d: int) -> int {
    -((-a) / d)
}

pub open spec fn abs(a: int) -> int {
    if a >= 0 {
        a
    } else {
        -a
    }
}

/// `m * (n / m) <= n < m * (n / m) + m` for `m > 0`.
pub proof fn lemma_div_bracket(n: int, m: int)
    requires
        m > 0,
    ensures
        m * (n / m) <= n,
        n < m * (n / m) + m,
{
    vstd::arithmetic::div_mod::lemma_fundamental_div_mod(n, m);
}

/// For `d >= 1` and `x = t * q` with `d * x` between `lo` and `hi`, where
/// `lo <= 0 <= hi`: `x` is between them too.
pub proof fn lemma_shrink_by_factor(x: int, d: int, lo: int, hi: int)
    requires
        d >= 1,
        lo <= 0 <= hi,
        lo <= d * x <= hi,
    ensures
        lo <= x <= hi,
{
    if x >= 0 {
        assert(x <= d * x) by (nonlinear_arith)
            requires
                x >= 0,
                d >= 1,
        ;
    } else {
        assert(d * x <= x) by (nonlinear_arith)
            requires
                x < 0,
                d >= 1,
        ;
    }
}

/// A quotient of a value at most `m * d` is at most `m`.
pub proof fn lemma_quot_bound(x: int, d: int, m: int)
    requires
        0 <= x <= m * d,
        d > 0,
    ensures
        x / d <= m,
        x / d >= 0,
{
    assert(m * d == d * m) by (nonlinear_arith);
    vstd::arithmetic::div_mod::lemma_div_is_ordered(x, d * m, d);
    vstd::arithmetic::div_mod::lemma_div_multiples_vanish(m, d);
    vstd::arithmetic::div_mod::lemma_div_pos_is_pos(x, d);
}

/// Truncating division is monotone in the dividend.
pub proof fn lemma_trunc_monotone(a: int, b: int, d: int)
    requires
        a <= b,
        d > 0,
    ensures
        div_trunc(a, d) <= div_trunc(b, d),
{
    if a >= 0 {
        vstd::arithmetic::div_mod::lemma_div_is_ordered(a, b, d);
    } else if b < 0 {
        vstd::arithmetic::div_mod::lemma_div_is_ordered(-b, -a, d);
    } else {
        vstd::arithmetic::div_mod::lemma_div_pos_is_pos(-a, d);
        vstd::arithmetic::div_mod::lemma_div_pos_is_pos(b, d);
    }
}

/// Flooring division is monotone in the dividend.
pub proof fn lemma_floor_monotone(a: int, b: int, d: int)
    requires
        a <= b,
        d > 0,
    ensures
        div_floor(a, d) <= div_floor(b, d),
{
    vstd::arithmetic::div_mod::lemma_div_is_ordered(a, b, d);
}

pub fn trunc_div(a: i128, d: i128) -> (r: i128)
    requires
        d > 0,
        a > i128::MIN,
    ensures
        r == div_trunc(a as int, d as int),
        abs(r as int) <= abs(a as int),
        abs(r as int) == abs(a as int) / (d as int),
{
    if a >= 0 {
        a / d
    } else {
        let q = (-a) / d;
        -q
    }
}

pub fn floor_div(a: i128, d: i128) -> (r: i128)
    requires
        d > 0,
        a > i128::MIN,
    ensures
        r == div_floor(a as int, d as int),
        a >= 0 ==> 0 <= r <= a,
        a < 0 ==> a <= r < 0,
{
    if a >= 0 {
        a / d
    } else {
        let m = -a;
        let q = m / d;
        if m % d == 0 {
            assert(a / d == -q) by (nonlinear_arith)
                requires
                    q == (-(a as int)) / (d as int),
                    (-(a as int)) % (d as int) == 0,
                    d > 0,
            ;
            assert(q <= m) by (nonlinear_arith)
                requires
                    q == m / d,
                    m > 0,
                    d > 0,
            ;
            assert(q >= 1) by (nonlinear_arith)
                requires
                    q == m / d,
                    m % d == 0,
                    m > 0,
                    d > 0,
            ;
            -q
        } else {
            assert(a / d == -q - 1) by (nonlinear_arith)
                requires
                    q == (-(a as int)) / (d as int),
                    (-(a as int)) % (d as int) != 0,
                    d > 0,
                    a < 0,
            ;
            assert(q < m) by (nonlinear_arith)
                requires
                    q == m / d,
                    m % d != 0,
                    m > 0,
                    d > 0,
            ;
            -q - 1
        }
    }
}

pub fn ceil_div(a: i128, d: i128) -> (r: i128)
    requires
        d > 0,
        a > i128::MIN,
        a < i128::MAX,
    ensures
        r == div_ceil(a as int, d as int),
{
    let f = floor_div(-a, d);
    -f
}

} // verus!
