//! Constraint hints: one-hot and SOS1 groups of decision variables, and how
//! fixing variables simplifies them.
use crate::ids::{ConstraintID, VariableID};
use std::collections::BTreeMap;
use vstd::prelude::*;

verus! {

broadcast use vstd::std_specs::btree::group_btree_axioms;

/// How a fixed value of a variable compares with 0 and 1 under the caller's
/// absolute tolerance: approximately 0, else approximately 1, else neither.
#[derive(Clone, Copy, PartialEq, Eq, Structural, Debug)]
pub enum FixedClass {
    Zero,
    One,
    Other,
}

/// Class of the `i`-th variable, `None` when it is not fixed.
pub open spec fn class_at(vars: Seq<VariableID>, fixed: Map<u64, FixedClass>, i: int) -> Option<FixedClass> {
    if fixed.contains_key(vars[i].0) {
        Some(fixed[vars[i].0])
    } else {
        None
    }
}

pub open spec fn is_one(vars: Seq<VariableID>, fixed: Map<u64, FixedClass>, i: int) -> bool {
    class_at(vars, fixed, i) == Some(FixedClass::One)
}

pub open spec fn is_nonzero(vars: Seq<VariableID>, fixed: Map<u64, FixedClass>, i: int) -> bool {
    class_at(vars, fixed, i) == Some(FixedClass::One) || class_at(vars, fixed, i) == Some(FixedClass::Other)
}

/// The variables among the first `n` that are not fixed, in order.
pub open spec fn unfixed_prefix(vars: Seq<VariableID>, fixed: Map<u64, FixedClass>, n: int) -> Seq<VariableID>
    decreases n,
{
    if n <= 0 {
        Seq::empty()
    } else {
        unfixed_prefix(vars, fixed, n - 1) + if fixed.contains_key(vars[n - 1].0) {
            Seq::empty()
        } else {
            seq![vars[n - 1]]
        }
    }
}

/// A one-hot position is in conflict when its variable is fixed to a value that
/// is neither 0 nor 1, or to 1 after an earlier variable was fixed to 1.
pub open spec fn one_hot_bad(vars: Seq<VariableID>, fixed: Map<u64, FixedClass>, i: int) -> bool {
    class_at(vars, fixed, i) == Some(FixedClass::Other) || (is_one(vars, fixed, i) && exists|j: int|
        0 <= j < i && is_one(vars, fixed, j))
}

/// An SOS1 position is in conflict when its variable is fixed to a non-zero
/// value after an earlier variable was.
pub open spec fn sos1_bad(vars: Seq<VariableID>, fixed: Map<u64, FixedClass>, i: int) -> bool {
    is_nonzero(vars, fixed, i) && exists|j: int| 0 <= j < i && is_nonzero(vars, fixed, j)
}

/// Variables listed in strictly increasing order of their raw IDs.
pub open spec fn strictly_increasing(vars: Seq<VariableID>) -> bool {
    forall|i: int, j: int| 0 <= i < j < vars.len() ==> vars[i].0 < vars[j].0
}

/// Constraint IDs listed in strictly increasing order of their raw values.
pub open spec fn ids_strictly_increasing(ids: Seq<ConstraintID>) -> bool {
    forall|i: int, j: int| 0 <= i < j < ids.len() ==> ids[i].0 < ids[j].0
}

/// A one-hot constraint: exactly one of the variables is 1, the others 0.
/// Its variables form a set: they are kept in strictly increasing order of
/// their IDs.
#[derive(Debug, PartialEq)]
pub struct OneHot {
    pub(crate) id: ConstraintID,
    pub(crate) variables: Vec<VariableID>,
}

/// A one-hot constraint as plain values.
pub struct OneHotView {
    pub id: ConstraintID,
    pub variables: Seq<VariableID>,
}

impl View for OneHot {
    type V = OneHotView;

    closed spec fn view(&self) -> OneHotView {
        OneHotView { id: self.id, variables: self.variables@ }
    }
}

/// Whether adjacent variables strictly increase, which makes the whole list
/// strictly increasing.
fn variables_increase(vs: &Vec<VariableID>) -> (r: bool)
    ensures
        r == strictly_increasing(vs@),
{
    let n = vs.len();
    if n == 0 {
        return true;
    }
    let mut i: usize = 0;
    while i + 1 < n
        invariant
            n == vs@.len(),
            n > 0,
            i < n,
            forall|a: int, b: int| 0 <= a < b <= i ==> vs@[a].0 < vs@[b].0,
        decreases n - i,
    {
        if vs[i].0 >= vs[i + 1].0 {
            return false;
        }
        i = i + 1;
    }
    true
}

/// Whether adjacent constraint IDs strictly increase.
fn ids_increase(ids: &Vec<ConstraintID>) -> (r: bool)
    ensures
        r == ids_strictly_increasing(ids@),
{
    let n = ids.len();
    if n == 0 {
        return true;
    }
    let mut i: usize = 0;
    while i + 1 < n
        invariant
            n == ids@.len(),
            n > 0,
            i < n,
            forall|a: int, b: int| 0 <= a < b <= i ==> ids@[a].0 < ids@[b].0,
        decreases n - i,
    {
        if ids[i].0 >= ids[i + 1].0 {
            return false;
        }
        i = i + 1;
    }
    true
}

impl OneHot {
    #[verifier::type_invariant]
    closed spec fn inv(&self) -> bool {
        strictly_increasing(self.variables@)
    }

    /// The one-hot constraint over `variables`, which must be listed in
    /// strictly increasing order of their IDs; `None` otherwise.
    pub fn new(id: ConstraintID, variables: Vec<VariableID>) -> (r: Option<OneHot>)
        ensures
            match r {
                Some(h) => strictly_increasing(variables@) && h@.id == id && h@.variables == variables@,
                None => !strictly_increasing(variables@),
            },
    {
        if variables_increase(&variables) {
            Some(OneHot { id, variables })
        } else {
            None
        }
    }

    /// Builds the constraint from variables already known to increase.
    pub(crate) fn from_increasing(id: ConstraintID, variables: Vec<VariableID>) -> (r: OneHot)
        requires
            strictly_increasing(variables@),
        ensures
            r@.id == id,
            r@.variables == variables@,
    {
        OneHot { id, variables }
    }

    /// The ID of the constraint.
    pub fn id(&self) -> (r: ConstraintID)
        ensures
            r == self@.id,
    {
        self.id
    }

    /// The variables, in strictly increasing order of their IDs.
    pub fn variables(&self) -> (r: &Vec<VariableID>)
        ensures
            r@ == self@.variables,
            strictly_increasing(r@),
    {
        proof {
            use_type_invariant(self);
        }
        &self.variables
    }
}

/// Element-wise copy of a list of variable IDs.
fn copy_variables(v: &Vec<VariableID>) -> (r: Vec<VariableID>)
    ensures
        r@ == v@,
{
    let mut out: Vec<VariableID> = Vec::new();
    let mut i: usize = 0;
    while i < v.len()
        invariant
            i <= v@.len(),
            out@ == v@.subrange(0, i as int),
        decreases v@.len() - i,
    {
        out.push(v[i]);
        i = i + 1;
        assert(out@ =~= v@.subrange(0, i as int));
    }
    assert(v@.subrange(0, v@.len() as int) =~= v@);
    out
}

impl Clone for OneHot {
    fn clone(&self) -> (r: Self)
        ensures
            r@ == self@,
    {
        proof {
            use_type_invariant(self);
        }
        OneHot { id: self.id, variables: copy_variables(&self.variables) }
    }
}

/// Keeping the unfixed variables of a strictly increasing list keeps it
/// strictly increasing, and each kept variable stands before position `n`.
proof fn lemma_unfixed_prefix_increasing(vars: Seq<VariableID>, fixed: Map<u64, FixedClass>, n: int)
    requires
        strictly_increasing(vars),
        0 <= n <= vars.len(),
    ensures
        strictly_increasing(unfixed_prefix(vars, fixed, n)),
        forall|k: int| 0 <= k < unfixed_prefix(vars, fixed, n).len() ==> exists|j: int|
            0 <= j < n && #[trigger] unfixed_prefix(vars, fixed, n)[k] == vars[j],
    decreases n,
{
    if n > 0 {
        lemma_unfixed_prefix_increasing(vars, fixed, n - 1);
        let prev = unfixed_prefix(vars, fixed, n - 1);
        let cur = unfixed_prefix(vars, fixed, n);
        assert forall|k: int| 0 <= k < cur.len() implies exists|j: int| 0 <= j < n && #[trigger] cur[k] == vars[j] by {
            if k < prev.len() {
                assert(cur[k] == prev[k]);
                let j = choose|j: int| 0 <= j < n - 1 && prev[k] == vars[j];
                assert(0 <= j < n && cur[k] == vars[j]);
            } else {
                assert(cur[k] == vars[n - 1]);
            }
        }
        assert forall|a: int, b: int| 0 <= a < b < cur.len() implies cur[a].0 < cur[b].0 by {
            if b < prev.len() {
                assert(cur[a] == prev[a] && cur[b] == prev[b]);
            } else {
                assert(cur[a] == prev[a]);
                let j = choose|j: int| 0 <= j < n - 1 && prev[a] == vars[j];
                assert(cur[b] == vars[n - 1]);
                assert(vars[j].0 < vars[n - 1].0);
            }
        }
    }
}

/// Result of partially evaluating a one-hot constraint.
#[derive(Clone, Debug, PartialEq)]
pub enum OneHotPartialEvaluateResult {
    /// Variables fixed to 0 were dropped; the rest remain.
    Updated(OneHot),
    /// One variable is fixed to 1; these remaining variables must be fixed to 0.
    AdditionalFix(Vec<VariableID>),
}

/// Why a one-hot constraint cannot be satisfied by the fixed values.
#[derive(Clone, Copy, PartialEq, Eq, Structural, Debug)]
pub enum OneHotPartialEvaluateError {
    MultipleNonZeroFixed { constraint_id: ConstraintID, first: VariableID, second: VariableID },
    InvalidFixedValue { constraint_id: ConstraintID, variable_id: VariableID },
    AllVariablesFixedToZero { constraint_id: ConstraintID },
}

impl OneHot {
    /// Simplifies the constraint with the fixed values of some variables
    /// (classified by the caller). Variables fixed to 0 are dropped; one
    /// variable fixed to 1 forces the unfixed rest to 0; a value that is
    /// neither 0 nor 1, or a second variable fixed to 1, is an error reported at
    /// the first offending variable; all variables fixed to 0 is an error.
    pub fn partial_evaluate(self, fixed: &BTreeMap<u64, FixedClass>) -> (r: Result<OneHotPartialEvaluateResult, OneHotPartialEvaluateError>)
        ensures
            ({
                let vars = self@.variables;
                let f = fixed@;
                let n = vars.len() as int;
                let clean = forall|i: int| 0 <= i < n ==> !one_hot_bad(vars, f, i);
                let has_one = exists|i: int| 0 <= i < n && is_one(vars, f, i);
                match r {
                    Err(OneHotPartialEvaluateError::InvalidFixedValue { constraint_id, variable_id }) => {
                        &&& constraint_id == self@.id
                        &&& exists|i: int| 0 <= i < n && vars[i] == variable_id && class_at(vars, f, i) == Some(FixedClass::Other)
                            && forall|j: int| 0 <= j < i ==> !one_hot_bad(vars, f, j)
                    },
                    Err(OneHotPartialEvaluateError::MultipleNonZeroFixed { constraint_id, first, second }) => {
                        &&& constraint_id == self@.id
                        &&& exists|i: int, j: int| 0 <= j < i < n && vars[i] == second && vars[j] == first
                            && is_one(vars, f, i) && is_one(vars, f, j) && class_at(vars, f, i) != Some(FixedClass::Other)
                            && forall|k: int| 0 <= k < i ==> !one_hot_bad(vars, f, k)
                    },
                    Err(OneHotPartialEvaluateError::AllVariablesFixedToZero { constraint_id }) => {
                        constraint_id == self@.id && clean && !has_one && unfixed_prefix(vars, f, n).len() == 0
                    },
                    Ok(OneHotPartialEvaluateResult::AdditionalFix(v)) => clean && has_one && v@ == unfixed_prefix(vars, f, n),
                    Ok(OneHotPartialEvaluateResult::Updated(h)) => {
                        &&& clean && !has_one
                        &&& unfixed_prefix(vars, f, n).len() > 0
                        &&& h@.id == self@.id
                        &&& h@.variables == unfixed_prefix(vars, f, n)
                    },
                }
            }),
    {
        proof {
            use_type_invariant(&self);
        }
        let ghost vars = self.variables@;
        let ghost f = fixed@;
        let n = self.variables.len();
        let mut one: Option<usize> = None;
        let mut kept: Vec<VariableID> = Vec::new();
        let mut i: usize = 0;
        while i < n
            invariant
                n == vars.len(),
                vars == self.variables@,
                vars == self@.variables,
                self@.id == self.id,
                f == fixed@,
                i <= n,
                forall|j: int| 0 <= j < i ==> !one_hot_bad(vars, f, j),
                match one {
                    Some(t) => t < i && is_one(vars, f, t as int) && forall|j: int| 0 <= j < i && j != t ==> !is_one(vars, f, j),
                    None => forall|j: int| 0 <= j < i ==> !is_one(vars, f, j),
                },
                kept@ == unfixed_prefix(vars, f, i as int),
            decreases n - i,
        {
            let v = self.variables[i];
            match fixed.get(&v.0) {
                None => {
                    kept.push(v);
                    proof {
                        assert(kept@ =~= unfixed_prefix(vars, f, i as int + 1));
                    }
                },
                Some(FixedClass::Zero) => {
                    proof {
                        assert(unfixed_prefix(vars, f, i as int + 1) =~= unfixed_prefix(vars, f, i as int));
                    }
                },
                Some(FixedClass::One) => {
                    if let Some(t) = one {
                        proof {
                            assert(is_one(vars, f, t as int));
                            assert(one_hot_bad(vars, f, i as int));
                        }
                        return Err(OneHotPartialEvaluateError::MultipleNonZeroFixed {
                            constraint_id: self.id,
                            first: self.variables[t],
                            second: v,
                        });
                    }
                    one = Some(i);
                    proof {
                        assert(unfixed_prefix(vars, f, i as int + 1) =~= unfixed_prefix(vars, f, i as int));
                        assert(!one_hot_bad(vars, f, i as int));
                    }
                },
                Some(FixedClass::Other) => {
                    return Err(OneHotPartialEvaluateError::InvalidFixedValue { constraint_id: self.id, variable_id: v });
                },
            }
            i = i + 1;
        }
        if one.is_some() {
            Ok(OneHotPartialEvaluateResult::AdditionalFix(kept))
        } else if kept.len() == 0 {
            Err(OneHotPartialEvaluateError::AllVariablesFixedToZero { constraint_id: self.id })
        } else {
            proof {
                lemma_unfixed_prefix_increasing(vars, f, n as int);
            }
            Ok(OneHotPartialEvaluateResult::Updated(OneHot { id: self.id, variables: kept }))
        }
    }
}

/// An SOS1 constraint: at most one of the variables is non-zero. It was
/// encoded with one binary constraint and big-M constraints.
/// The big-M constraints and the variables form sets: each list is kept in
/// strictly increasing order of its IDs.
#[derive(Debug, PartialEq)]
pub struct Sos1 {
    pub(crate) binary_constraint_id: ConstraintID,
    pub(crate) big_m_constraint_ids: Vec<ConstraintID>,
    pub(crate) variables: Vec<VariableID>,
}

/// An SOS1 constraint as plain values.
pub struct Sos1View {
    pub binary_constraint_id: ConstraintID,
    pub big_m_constraint_ids: Seq<ConstraintID>,
    pub variables: Seq<VariableID>,
}

impl View for Sos1 {
    type V = Sos1View;

    closed spec fn view(&self) -> Sos1View {
        Sos1View {
            binary_constraint_id: self.binary_constraint_id,
            big_m_constraint_ids: self.big_m_constraint_ids@,
            variables: self.variables@,
        }
    }
}

impl Clone for Sos1 {
    fn clone(&self) -> (r: Self)
        ensures
            r@ == self@,
    {
        proof {
            use_type_invariant(self);
        }
        Sos1 {
            binary_constraint_id: self.binary_constraint_id,
            big_m_constraint_ids: copy_ids(&self.big_m_constraint_ids),
            variables: copy_variables(&self.variables),
        }
    }
}

impl Sos1 {
    #[verifier::type_invariant]
    closed spec fn inv(&self) -> bool {
        ids_strictly_increasing(self.big_m_constraint_ids@) && strictly_increasing(self.variables@)
    }

    /// The SOS1 constraint over `variables` with its encoding constraints;
    /// both lists must be in strictly increasing order of their IDs, `None`
    /// otherwise.
    pub fn new(binary_constraint_id: ConstraintID, big_m_constraint_ids: Vec<ConstraintID>, variables: Vec<VariableID>) -> (r: Option<Sos1>)
        ensures
            match r {
                Some(h) => {
                    &&& ids_strictly_increasing(big_m_constraint_ids@) && strictly_increasing(variables@)
                    &&& h@.binary_constraint_id == binary_constraint_id
                    &&& h@.big_m_constraint_ids == big_m_constraint_ids@
                    &&& h@.variables == variables@
                },
                None => !(ids_strictly_increasing(big_m_constraint_ids@) && strictly_increasing(variables@)),
            },
    {
        if ids_increase(&big_m_constraint_ids) && variables_increase(&variables) {
            Some(Sos1 { binary_constraint_id, big_m_constraint_ids, variables })
        } else {
            None
        }
    }

    /// Builds the constraint from lists already known to increase.
    pub(crate) fn from_increasing(
        binary_constraint_id: ConstraintID,
        big_m_constraint_ids: Vec<ConstraintID>,
        variables: Vec<VariableID>,
    ) -> (r: Sos1)
        requires
            ids_strictly_increasing(big_m_constraint_ids@),
            strictly_increasing(variables@),
        ensures
            r@.binary_constraint_id == binary_constraint_id,
            r@.big_m_constraint_ids == big_m_constraint_ids@,
            r@.variables == variables@,
    {
        Sos1 { binary_constraint_id, big_m_constraint_ids, variables }
    }

    /// The binary constraint of the encoding.
    pub fn binary_constraint_id(&self) -> (r: ConstraintID)
        ensures
            r == self@.binary_constraint_id,
    {
        self.binary_constraint_id
    }

    /// The big-M constraints of the encoding, in strictly increasing order.
    pub fn big_m_constraint_ids(&self) -> (r: &Vec<ConstraintID>)
        ensures
            r@ == self@.big_m_constraint_ids,
            ids_strictly_increasing(r@),
    {
        proof {
            use_type_invariant(self);
        }
        &self.big_m_constraint_ids
    }

    /// The variables, in strictly increasing order of their IDs.
    pub fn variables(&self) -> (r: &Vec<VariableID>)
        ensures
            r@ == self@.variables,
            strictly_increasing(r@),
    {
        proof {
            use_type_invariant(self);
        }
        &self.variables
    }
}

/// Result of partially evaluating an SOS1 constraint.
#[derive(Clone, Debug, PartialEq)]
pub enum Sos1PartialEvaluateResult {
    /// Variables fixed to 0 were dropped; the rest remain.
    Updated(Sos1),
    /// One variable is fixed to a non-zero value; these remaining variables must be fixed to 0.
    AdditionalFix(Vec<VariableID>),
}

/// Why an SOS1 constraint cannot be satisfied by the fixed values.
#[derive(Clone, Copy, PartialEq, Eq, Structural, Debug)]
pub enum Sos1PartialEvaluateError {
    MultipleNonZeroFixed { binary_constraint_id: ConstraintID, first: VariableID, second: VariableID },
}

/// Element-wise copy of a list of constraint IDs.
fn copy_ids(v: &Vec<ConstraintID>) -> (r: Vec<ConstraintID>)
    ensures
        r@ == v@,
{
    let mut out: Vec<ConstraintID> = Vec::new();
    let mut i: usize = 0;
    while i < v.len()
        invariant
            i <= v@.len(),
            out@ == v@.subrange(0, i as int),
        decreases v@.len() - i,
    {
        out.push(v[i]);
        i = i + 1;
        assert(out@ =~= v@.subrange(0, i as int));
    }
    assert(v@.subrange(0, v@.len() as int) =~= v@);
    out
}

impl Sos1 {
    /// Simplifies the constraint with the fixed values of some variables
    /// (classified by the caller). Variables fixed to 0 are dropped; one
    /// variable fixed to a non-zero value forces the unfixed rest to 0; a second
    /// non-zero variable is an error reported at the first such variable. All
    /// variables fixed to 0 is allowed.
    pub fn partial_evaluate(self, fixed: &BTreeMap<u64, FixedClass>) -> (r: Result<Sos1PartialEvaluateResult, Sos1PartialEvaluateError>)
        ensures
            ({
                let vars = self@.variables;
                let f = fixed@;
                let n = vars.len() as int;
                let clean = forall|i: int| 0 <= i < n ==> !sos1_bad(vars, f, i);
                let has_nonzero = exists|i: int| 0 <= i < n && is_nonzero(vars, f, i);
                match r {
                    Err(Sos1PartialEvaluateError::MultipleNonZeroFixed { binary_constraint_id, first, second }) => {
                        &&& binary_constraint_id == self@.binary_constraint_id
                        &&& exists|i: int, j: int| 0 <= j < i < n && vars[i] == second && vars[j] == first
                            && is_nonzero(vars, f, i) && is_nonzero(vars, f, j)
                            && forall|k: int| 0 <= k < i ==> !sos1_bad(vars, f, k)
                    },
                    Ok(Sos1PartialEvaluateResult::AdditionalFix(v)) => clean && has_nonzero && v@ == unfixed_prefix(vars, f, n),
                    Ok(Sos1PartialEvaluateResult::Updated(h)) => {
                        &&& clean && !has_nonzero
                        &&& h@.binary_constraint_id == self@.binary_constraint_id
                        &&& h@.big_m_constraint_ids == self@.big_m_constraint_ids
                        &&& h@.variables == unfixed_prefix(vars, f, n)
                    },
                }
            }),
    {
        proof {
            use_type_invariant(&self);
        }
        let ghost vars = self.variables@;
        let ghost f = fixed@;
        let n = self.variables.len();
        let mut nonzero: Option<usize> = None;
        let mut kept: Vec<VariableID> = Vec::new();
        let mut i: usize = 0;
        while i < n
            invariant
                n == vars.len(),
                vars == self.variables@,
                vars == self@.variables,
                self@.binary_constraint_id == self.binary_constraint_id,
                f == fixed@,
                i <= n,
                forall|j: int| 0 <= j < i ==> !sos1_bad(vars, f, j),
                match nonzero {
                    Some(t) => t < i && is_nonzero(vars, f, t as int) && forall|j: int| 0 <= j < i && j != t ==> !is_nonzero(vars, f, j),
                    None => forall|j: int| 0 <= j < i ==> !is_nonzero(vars, f, j),
                },
                kept@ == unfixed_prefix(vars, f, i as int),
            decreases n - i,
        {
            let v = self.variables[i];
            match fixed.get(&v.0) {
                None => {
                    kept.push(v);
                    proof {
                        assert(kept@ =~= unfixed_prefix(vars, f, i as int + 1));
                    }
                },
                Some(FixedClass::Zero) => {
                    proof {
                        assert(unfixed_prefix(vars, f, i as int + 1) =~= unfixed_prefix(vars, f, i as int));
                    }
                },
                Some(_) => {
                    if let Some(t) = nonzero {
                        proof {
                            assert(is_nonzero(vars, f, t as int));
                            assert(sos1_bad(vars, f, i as int));
                        }
                        return Err(Sos1PartialEvaluateError::MultipleNonZeroFixed {
                            binary_constraint_id: self.binary_constraint_id,
                            first: self.variables[t],
                            second: v,
                        });
                    }
                    nonzero = Some(i);
                    proof {
                        assert(unfixed_prefix(vars, f, i as int + 1) =~= unfixed_prefix(vars, f, i as int));
                        assert(!sos1_bad(vars, f, i as int));
                    }
                },
            }
            i = i + 1;
        }
        if nonzero.is_some() {
            Ok(Sos1PartialEvaluateResult::AdditionalFix(kept))
        } else {
            let big_m = copy_ids(&self.big_m_constraint_ids);
            proof {
                lemma_unfixed_prefix_increasing(vars, f, n as int);
            }
            Ok(Sos1PartialEvaluateResult::Updated(Sos1 {
                binary_constraint_id: self.binary_constraint_id,
                big_m_constraint_ids: big_m,
                variables: kept,
            }))
        }
    }
}

/// Hints about the structure of the constraints of an instance.
#[derive(Clone, Debug, PartialEq)]
pub struct ConstraintHints {
    pub one_hot_constraints: Vec<OneHot>,
    pub sos1_constraints: Vec<Sos1>,
}

impl ConstraintHints {
    /// Hints with no one-hot and no SOS1 constraint.
    pub fn new() -> (r: Self)
        ensures
            r.one_hot_constraints@.len() == 0,
            r.sos1_constraints@.len() == 0,
    {
        ConstraintHints { one_hot_constraints: Vec::new(), sos1_constraints: Vec::new() }
    }

    /// Whether there is no hint at all.
    pub fn is_empty(&self) -> (r: bool)
        ensures
            r == (self.one_hot_constraints@.len() == 0 && self.sos1_constraints@.len() == 0),
    {
        self.one_hot_constraints.len() == 0 && self.sos1_constraints.len() == 0
    }
}

} // verus!
