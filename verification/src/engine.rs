//! What the library holds of the planning engine: its filter expressions and
//! its session state. The library looks into neither; it hands them on.
use datafusion::execution::context::SessionState;
use datafusion::prelude::Expr;
use vstd::prelude::*;

verus! {

/// `datafusion::prelude::Expr`, a predicate or another expression of the
/// engine. Nothing is claimed of what an expression holds.
#[verifier::external_type_specification]
#[verifier::external_body]
pub struct ExExpr(datafusion::prelude::Expr);

/// `datafusion::execution::context::SessionState`, the state in which the
/// engine plans one query. Nothing is claimed of what it holds.
#[verifier::external_type_specification]
#[verifier::external_body]
pub struct ExSessionState(datafusion::execution::context::SessionState);

/// The given filters in a vector of their own. Wraps `to_vec` on a slice of
/// `Expr`, which clones each expression; the claim is that the clones are as
/// many as the given expressions and equal them one by one.
#[verifier::external_body]
pub(crate) fn clone_filters(filters: &[Expr]) -> (r: Vec<Expr>)
    ensures
        r@ == filters@,
{
    filters.to_vec()
}

} // verus!
