//! Expressions that reconstruct a dependent decision variable after solving.
use vstd::prelude::*;

verus! {

/// A deterministic expression used to reconstruct a dependent decision
/// variable: an algebraic function of type `F` at the leaves, wrapped in any
/// number of exact nonzero indicators (0 exactly when the inner value is 0,
/// and 1 otherwise).
#[derive(Debug)]
pub enum DependentExpr<F> {
    /// An algebraic function.
    Function(F),
    /// `0` exactly when the inner expression is `0`, and `1` otherwise.
    NonzeroIndicator(Box<DependentExpr<F>>),
}

impl<F> DependentExpr<F> {
    /// How many indicators wrap the function at the leaf.
    pub open spec fn indicator_depth(self) -> nat
        decreases self,
    {
        match self {
            DependentExpr::Function(_) => 0,
            DependentExpr::NonzeroIndicator(inner) => 1 + inner.indicator_depth(),
        }
    }

    /// The function at the leaf.
    pub open spec fn leaf(self) -> F
        decreases self,
    {
        match self {
            DependentExpr::Function(f) => f,
            DependentExpr::NonzeroIndicator(inner) => inner.leaf(),
        }
    }

    /// Wraps an expression in an exact nonzero indicator.
    pub fn nonzero_indicator(expr: DependentExpr<F>) -> (r: Self)
        ensures
            r == DependentExpr::NonzeroIndicator(Box::new(expr)),
            r.indicator_depth() == expr.indicator_depth() + 1,
            r.leaf() == expr.leaf(),
    {
        DependentExpr::NonzeroIndicator(Box::new(expr))
    }
}

impl<F> From<F> for DependentExpr<F> {
    fn from(function: F) -> (r: Self) {
        DependentExpr::Function(function)
    }
}

impl<F> vstd::std_specs::convert::FromSpecImpl<F> for DependentExpr<F> {
    open spec fn obeys_from_spec() -> bool {
        true
    }

    open spec fn from_spec(function: F) -> Self {
        DependentExpr::Function(function)
    }
}

} // verus!
