//! Algebraic laws of the dimension-vector arithmetic.

use vstd::prelude::*;

use crate::unit::{dimensionless, unit_div_spec, unit_mul_spec, Unit};

verus! {

/// Inverse law: for all units `a` and `b`, dividing `a` by `b` and then
/// multiplying by `b` gives `a` back.
pub proof fn lemma_mul_div_inverse(a: Unit, b: Unit)
    requires
        a.wf(),
        b.wf(),
    ensures
        unit_mul_spec(unit_div_spec(a@, b@), b@) == a@,
{
    assert(unit_mul_spec(unit_div_spec(a@, b@), b@) =~= a@);
}

/// Identity law: for all units `a`, multiplying `a` by the dimensionless
/// unit — the all-zero vector — gives `a` back.
pub proof fn lemma_mul_identity(a: Unit)
    requires
        a.wf(),
    ensures
        unit_mul_spec(a@, dimensionless()) == a@,
{
    assert(unit_mul_spec(a@, dimensionless()) =~= a@);
}

} // verus!
