use vstd::arithmetic::div_mod::{
    lemma_div_is_ordered, lemma_div_multiples_vanish_fancy, lemma_div_pos_is_pos,
};
use vstd::prelude::*;

verus! {

/// `n / d` rounded to the nearest integer, halves away from zero, for a
/// non-negative numerator and a positive denominator.
pub open spec fn round_div(n: int, d: int) -> int {
    (2 * n + d) / (2 * d)
}

/// Rounding a quotient keeps it between 0 and any `c` with `n <= c * d`.
pub proof fn lemma_round_div_bounds(n: int, d: int, c: int)
    requires
        0 < d,
        0 <= n <= c * d,
    ensures
        0 <= round_div(n, d) <= c,
{
    lemma_div_pos_is_pos(2 * n + d, 2 * d);
    lemma_div_is_ordered(2 * n + d, 2 * (c * d) + d, 2 * d);
    assert(2 * (c * d) + d == (2 * d) * c + d) by (nonlinear_arith);
    lemma_div_multiples_vanish_fancy(c, d, 2 * d);
}

/// Rounding a quotient is monotonic in the numerator.
pub proof fn lemma_round_div_monotonic(n1: int, n2: int, d: int)
    requires
        0 < d,
        n1 <= n2,
    ensures
        round_div(n1, d) <= round_div(n2, d),
{
    lemma_div_is_ordered(2 * n1 + d, 2 * n2 + d, 2 * d);
}

/// Rounding an exact multiple of the denominator gives the exact quotient.
pub proof fn lemma_round_div_exact(c: int, d: int)
    requires
        0 < d,
    ensures
        round_div(c * d, d) == c,
{
    assert(2 * (c * d) + d == (2 * d) * c + d) by (nonlinear_arith);
    lemma_div_multiples_vanish_fancy(c, d, 2 * d);
}

/// Executable rounded division on wide unsigned integers, mirroring
/// `round_div` exactly.
pub fn round_div_u128(n: u128, d: u128) -> (r: u128)
    requires
        0 < d,
        2 * n + d <= u128::MAX,
        2 * d <= u128::MAX,
    ensures
        r == round_div(n as int, d as int),
{
    (2 * n + d) / (2 * d)
}

} // verus!
