//! Powers of ten, and rounding a quotient of integers to the nearest integer.

use vstd::prelude::*;

verus! {

/// Ten to the power `n`.
pub open spec fn power_of_ten(n: nat) -> int
    decreases n,
{
    if n == 0 {
        1
    } else {
        10 * power_of_ten((n - 1) as nat)
    }
}

/// A power of ten is positive.
pub proof fn lemma_power_of_ten_positive(n: nat)
    ensures
        power_of_ten(n) > 0,
    decreases n,
{
    if n > 0 {
        lemma_power_of_ten_positive((n - 1) as nat);
    }
}

/// A larger exponent does not give a smaller power of ten.
pub proof fn lemma_power_of_ten_grows(a: nat, b: nat)
    requires
        a <= b,
    ensures
        0 < power_of_ten(a) <= power_of_ten(b),
    decreases b - a,
{
    lemma_power_of_ten_positive(a);
    if a < b {
        lemma_power_of_ten_grows(a, (b - 1) as nat);
    }
}

/// The quotient `n / d` rounded to the nearest integer, halves away from
/// zero; `d` is not zero.
pub open spec fn round_half_away(n: int, d: int) -> int {
    let (top, bottom) = if d < 0 {
        (-n, -d)
    } else {
        (n, d)
    };
    if top >= 0 {
        (2 * top + bottom) / (2 * bottom)
    } else {
        -((2 * (-top) + bottom) / (2 * bottom))
    }
}

/// [`round_half_away`] gives the integer nearest to the quotient: twice the
/// distance between `q * d` and `n` is at most `d`, and where it is exactly
/// `d`, `q` is the one further from zero.
pub proof fn lemma_round_half_away_is_nearest(n: int, d: int)
    requires
        d > 0,
    ensures
        ({
            let q = round_half_away(n, d);
            &&& n >= 0 ==> 2 * n - d < 2 * q * d <= 2 * n + d
            &&& n < 0 ==> 2 * n - d <= 2 * q * d < 2 * n + d
        }),
{
    let q = round_half_away(n, d);
    if n >= 0 {
        let top = 2 * n + d;
        assert(top == (2 * d) * (top / (2 * d)) + top % (2 * d) && 0 <= top % (2 * d) < 2 * d)
            by (nonlinear_arith)
            requires
                d > 0,
        ;
        assert(2 * q * d == (2 * d) * q) by (nonlinear_arith);
    } else {
        let top = 2 * (-n) + d;
        assert(top == (2 * d) * (top / (2 * d)) + top % (2 * d) && 0 <= top % (2 * d) < 2 * d)
            by (nonlinear_arith)
            requires
                d > 0,
        ;
        assert(2 * q * d == -((2 * d) * (top / (2 * d)))) by (nonlinear_arith)
            requires
                q == -(top / (2 * d)),
        ;
    }
}

/// [`round_half_away`] is the only integer that is so near: for `n` that is
/// not negative, a `q` with `2 * n - d < 2 * q * d <= 2 * n + d` is it.
pub proof fn lemma_nearest_is_round_half_away(n: int, d: int, q: int)
    requires
        d > 0,
        n >= 0,
        2 * n - d < 2 * q * d <= 2 * n + d,
    ensures
        q == round_half_away(n, d),
{
    let r = round_half_away(n, d);
    lemma_round_half_away_is_nearest(n, d);
    assert(q == r) by (nonlinear_arith)
        requires
            d > 0,
            2 * n - d < 2 * q * d <= 2 * n + d,
            2 * n - d < 2 * r * d <= 2 * n + d,
    ;
}

/// A quotient of less than a half rounds to zero.
pub proof fn lemma_round_of_small(n: int, d: int)
    requires
        0 <= n,
        2 * n < d,
    ensures
        round_half_away(n, d) == 0,
{
    assert(2 * 0 * d == 0) by (nonlinear_arith);
    lemma_nearest_is_round_half_away(n, d, 0);
}

/// Executable form of [`round_half_away`], for operands small enough that
/// twice their sum fits in `i128`.
pub(crate) fn rounded_quotient(n: i128, d: i128) -> (q: i128)
    requires
        d != 0,
        -0x4000_0000_0000_0000_0000_0000 <= n <= 0x4000_0000_0000_0000_0000_0000,
        -0x4000_0000_0000_0000_0000_0000 <= d <= 0x4000_0000_0000_0000_0000_0000,
    ensures
        q == round_half_away(n as int, d as int),
        -0x4000_0000_0000_0000_0000_0000 <= q <= 0x4000_0000_0000_0000_0000_0000,
{
    let (top, bottom): (i128, i128) = if d < 0 {
        (-n, -d)
    } else {
        (n, d)
    };
    if top >= 0 {
        let q = (2 * top + bottom) / (2 * bottom);
        assert(0 <= q <= top) by (nonlinear_arith)
            requires
                q == (2 * top + bottom) / (2 * bottom),
                top >= 0,
                bottom >= 1,
        ;
        q
    } else {
        let q = (2 * (-top) + bottom) / (2 * bottom);
        assert(0 <= q <= -top) by (nonlinear_arith)
            requires
                q == (2 * (-top) + bottom) / (2 * bottom),
                top < 0,
                bottom >= 1,
        ;
        -q
    }
}

} // verus!
