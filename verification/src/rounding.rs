use vstd::prelude::*;

verus! {

/// The integer nearest to `n / d`, a tie going up, for `n >= 0` and `d > 0`.
pub open spec fn round_div(n: int, d: int) -> int {
    (2 * n + d) / (2 * d)
}

/// `round_div(n, d)` is the one integer `q` with `2 * d * q - d <= 2 * n < 2 * d * q + d`:
/// it lies within half a unit of the quotient, and a half is rounded up.
pub proof fn lemma_round_div_nearest(n: int, d: int)
    requires
        n >= 0,
        d > 0,
    ensures
        round_div(n, d) >= 0,
        2 * d * round_div(n, d) - d <= 2 * n,
        2 * n < 2 * d * round_div(n, d) + d,
{
    let q = round_div(n, d);
    assert(q >= 0 && 2 * d * q <= 2 * n + d && 2 * n + d < 2 * d * q + 2 * d) by (nonlinear_arith)
        requires
            q == (2 * n + d) / (2 * d),
            n >= 0,
            d > 0,
    ;
}

/// Any integer within half a unit of `n / d`, a tie counted up, is `round_div(n, d)`.
pub proof fn lemma_round_div_unique(n: int, d: int, q: int)
    requires
        n >= 0,
        d > 0,
        2 * d * q - d <= 2 * n,
        2 * n < 2 * d * q + d,
    ensures
        round_div(n, d) == q,
{
    lemma_round_div_nearest(n, d);
    let r = round_div(n, d);
    assert(r == q) by (nonlinear_arith)
        requires
            d > 0,
            2 * d * q - d <= 2 * n,
            2 * n < 2 * d * q + d,
            2 * d * r - d <= 2 * n,
            2 * n < 2 * d * r + d,
    ;
}

/// A larger numerator never rounds to a smaller quotient.
pub proof fn lemma_round_div_monotonic(n1: int, n2: int, d: int)
    requires
        0 <= n1 <= n2,
        d > 0,
    ensures
        round_div(n1, d) <= round_div(n2, d),
{
    lemma_round_div_nearest(n1, d);
    lemma_round_div_nearest(n2, d);
    let q1 = round_div(n1, d);
    let q2 = round_div(n2, d);
    assert(q1 <= q2) by (nonlinear_arith)
        requires
            d > 0,
            n1 <= n2,
            2 * d * q1 - d <= 2 * n1,
            2 * n2 < 2 * d * q2 + d,
    ;
}

/// Computes `round_div(n, d)`.
pub fn rounded_quotient(n: u128, d: u128) -> (q: u128)
    requires
        d > 0,
        n <= 0x3fff_ffff_ffff_ffff_ffff_ffff_ffff_ffff,
        d <= 0x3fff_ffff_ffff_ffff_ffff_ffff_ffff_ffff,
    ensures
        q == round_div(n as int, d as int),
        q <= n + 1,
{
    let q = (2 * n + d) / (2 * d);
    proof {
        lemma_round_div_nearest(n as int, d as int);
        let qi = q as int;
        let ni = n as int;
        let di = d as int;
        assert(qi <= ni + 1) by (nonlinear_arith)
            requires
                di >= 1,
                ni >= 0,
                2 * di * qi - di <= 2 * ni,
        {
            if qi >= ni + 2 {
                assert(di * qi >= di * (ni + 2));
                assert(di * ni >= ni);
            }
        }
    }
    q
}

} // verus!
