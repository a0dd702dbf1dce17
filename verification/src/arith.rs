//! Integer facts shared by the pricing proofs.

use vstd::prelude::*;

verus! {

/// `q` is `a / d` exactly when `q * d <= a < (q + 1) * d`.
pub proof fn lemma_floor_quotient(a: int, d: int, q: int)
    requires
        d > 0,
        q * d <= a < (q + 1) * d,
    ensures
        a / d == q,
        a >= 0 ==> q >= 0,
{
    assert(0 <= a - q * d < d) by (nonlinear_arith)
        requires
            q * d <= a < (q + 1) * d,
    ;
    vstd::arithmetic::div_mod::lemma_fundamental_div_mod_converse(a, d, q, a - q * d);
    if a >= 0 {
        vstd::arithmetic::div_mod::lemma_div_pos_is_pos(a, d);
    }
}

} // verus!
