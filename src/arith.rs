use vstd::prelude::*;
use vstd::arithmetic::div_mod::{lemma_fundamental_div_mod, lemma_fundamental_div_mod_converse};

verus! {

/// For a positive divisor, `a * d <= c` exactly when `a <= c / d`.
pub proof fn lemma_mul_le_iff_le_div(a: int, d: int, c: int)
    requires
        d > 0,
    ensures
        (a * d <= c) <==> (a <= c / d),
{
    lemma_fundamental_div_mod(c, d);
    let q = c / d;
    let r = c % d;
    assert(0 <= r < d);
    assert(c == q * d + r) by (nonlinear_arith)
        requires
            c == d * q + r,
    ;
    if a <= q {
        assert(a * d <= c) by (nonlinear_arith)
            requires
                a <= q,
                d > 0,
                c == q * d + r,
                r >= 0,
        ;
    } else {
        assert(a * d > c) by (nonlinear_arith)
            requires
                a >= q + 1,
                d > 0,
                c == q * d + r,
                r < d,
        ;
    }
}

/// Rounding a negative quotient down is rounding its magnitude up.
pub proof fn lemma_floor_div_negative(a: int, d: int)
    requires
        a > 0,
        d > 0,
    ensures
        (-a) / d == -((a + d - 1) / d),
{
    let m = a + d - 1;
    lemma_fundamental_div_mod(m, d);
    let q = m / d;
    let r = m % d;
    assert(-a == (-q) * d + (d - 1 - r)) by (nonlinear_arith)
        requires
            m == d * q + r,
            m == a + d - 1,
    ;
    lemma_fundamental_div_mod_converse(-a, d, -q, d - 1 - r);
}

/// A quotient is bounded by any `b` with `x <= b * d`.
pub proof fn lemma_div_le_bound(x: int, d: int, b: int)
    requires
        d > 0,
        x <= b * d,
    ensures
        x / d <= b,
{
    lemma_mul_le_iff_le_div(b + 1, d, x);
    assert(b * d < (b + 1) * d) by (nonlinear_arith)
        requires
            d > 0,
    ;
}

} // verus!
