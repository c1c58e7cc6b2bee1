//! Lifecycle stages of a constraint and the regular constraint in its
//! definition stage.
use crate::collection::{EvaluatedConstraintStatus, SampledConstraintStatus};
use crate::constraint::Equality;
use crate::ids::{ConstraintID, IDType};
use crate::collection::{EvaluatedConstraintBehavior, SampledConstraintBehavior};
use vstd::prelude::*;

verus! {

/// Maps a lifecycle stage to the stage-specific data a constraint type `C`
/// carries in it.
pub trait Stage<C> {
    type Data;
}

/// The definition stage, before evaluation.
#[derive(Clone, Copy, PartialEq, Eq, Structural, Debug, Default)]
pub struct Created;

/// The stage after evaluation against a single state.
#[derive(Clone, Copy, PartialEq, Eq, Structural, Debug, Default)]
pub struct Evaluated;

/// The stage after evaluation against many samples.
#[derive(Clone, Copy, PartialEq, Eq, Structural, Debug, Default)]
pub struct Sampled;

/// Data carried by a regular constraint in the definition stage: its function.
#[derive(Clone, Debug, PartialEq)]
pub struct CreatedData<F> {
    pub function: F,
}

/// A regular constraint `f(x) = 0` or `f(x) <= 0` in its definition stage,
/// over a function representation `F`. The constraint's ID is held by the
/// enclosing collection.
#[derive(Clone, Debug, PartialEq)]
pub struct Constraint<F> {
    pub equality: Equality,
    pub stage: CreatedData<F>,
}

impl<F> Stage<Constraint<F>> for Created {
    type Data = CreatedData<F>;
}

impl<F> Stage<Constraint<F>> for Evaluated {
    type Data = EvaluatedConstraintStatus;
}

impl<F> Stage<Constraint<F>> for Sampled {
    type Data = SampledConstraintStatus;
}

impl<F> Constraint<F> {
    /// The constraint function.
    pub fn function(&self) -> (r: &F)
        ensures
            *r == self.stage.function,
    {
        &self.stage.function
    }

    /// Mutable access to the constraint function; the equality is kept.
    pub fn function_mut(&mut self) -> (r: &mut F)
        ensures
            *r == old(self).stage.function,
            final(self).equality == old(self).equality,
            final(self).stage.function == *final(r),
    {
        &mut self.stage.function
    }

    /// The constraint `function = 0`.
    pub fn equal_to_zero(function: F) -> (r: Self)
        ensures
            r.equality == Equality::EqualToZero,
            r.stage.function == function,
    {
        Constraint { equality: Equality::EqualToZero, stage: CreatedData { function } }
    }

    /// The constraint `function <= 0`.
    pub fn less_than_or_equal_to_zero(function: F) -> (r: Self)
        ensures
            r.equality == Equality::LessThanOrEqualToZero,
            r.stage.function == function,
    {
        Constraint { equality: Equality::LessThanOrEqualToZero, stage: CreatedData { function } }
    }
}

/// A constraint family: its ID type and the row types of its three stages.
pub trait ConstraintType {
    type ID: IDType;
    type Created;
    type Evaluated: EvaluatedConstraintBehavior;
    type Sampled: SampledConstraintBehavior;
}

impl<F> ConstraintType for Constraint<F> {
    type ID = ConstraintID;
    type Created = Constraint<F>;
    type Evaluated = EvaluatedConstraintStatus;
    type Sampled = SampledConstraintStatus;
}

} // verus!
