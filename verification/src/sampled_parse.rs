//! Reading a sampled regular constraint from its serialized form. The
//! feasibility that each sample's evaluated value implies is a floating-point
//! comparison; it reaches this module as one `bool` per sample.
use crate::btree_keys::keys_of;
use crate::collection::SampledConstraintStatus;
use crate::constraint::{equality_number, Equality, EqualityParseError};
use crate::ids::VariableID;
use std::collections::BTreeMap;
use vstd::prelude::*;

verus! {

broadcast use vstd::std_specs::btree::group_btree_axioms;

/// Why a serialized sampled regular constraint is refused.
#[derive(Clone, Copy, PartialEq, Eq, Structural, Debug)]
pub enum SampledParseError {
    /// The equality number names no equality.
    Equality(EqualityParseError),
    /// The evaluated values are missing.
    MissingEvaluatedValues,
    /// A sample's stored feasibility differs from what its evaluated value
    /// implies.
    InconsistentFeasibility { sample_id: u64, provided: bool, computed: bool },
}

/// The equality a wire number names, if any.
pub open spec fn equality_of_number(value: i32) -> Option<Equality> {
    if value == 1 {
        Some(Equality::EqualToZero)
    } else if value == 2 {
        Some(Equality::LessThanOrEqualToZero)
    } else {
        None
    }
}

/// The error for an equality number that names no equality.
pub open spec fn equality_error_of(value: i32) -> EqualityParseError {
    if value == 0 {
        EqualityParseError::Unspecified
    } else {
        EqualityParseError::UnknownEnumValue(value)
    }
}

/// Sample `k` has both feasibilities, and they differ.
pub open spec fn mismatch_at(provided: Map<u64, bool>, computed: Map<u64, bool>, k: u64) -> bool {
    &&& computed.contains_key(k)
    &&& provided.contains_key(k)
    &&& provided[k] != computed[k]
}

/// Some sample has both feasibilities, and they differ.
pub open spec fn has_mismatch(provided: Map<u64, bool>, computed: Map<u64, bool>) -> bool {
    exists|k: u64| #[trigger] mismatch_at(provided, computed, k)
}

/// The raw IDs as variable IDs, in order.
pub open spec fn variable_ids_of(raw: Seq<u64>) -> Seq<VariableID> {
    raw.map_values(|v: u64| VariableID(v))
}

/// The smallest sample whose stored and implied feasibility differ, if any.
fn first_mismatch(provided: &BTreeMap<u64, bool>, computed: &BTreeMap<u64, bool>) -> (r: Option<u64>)
    ensures
        match r {
            Some(k) => mismatch_at(provided@, computed@, k) && forall|j: u64| j < k ==> !mismatch_at(
                provided@,
                computed@,
                j,
            ),
            None => !has_mismatch(provided@, computed@),
        },
{
    let keys = keys_of(computed);
    let mut i: usize = 0;
    while i < keys.len()
        invariant
            i <= keys@.len(),
            forall|k: u64| computed@.contains_key(k) <==> keys@.contains(k),
            forall|a: int, b: int| 0 <= a < b < keys@.len() ==> keys@[a] < keys@[b],
            forall|j: int| 0 <= j < i ==> !mismatch_at(provided@, computed@, #[trigger] keys@[j]),
        decreases keys@.len() - i,
    {
        let k = keys[i];
        proof {
            assert(keys@.contains(k));
        }
        let c = *computed.get(&k).unwrap();
        match provided.get(&k) {
            Some(p) => {
                if *p != c {
                    proof {
                        assert forall|j: u64| j < k implies !mismatch_at(provided@, computed@, j) by {
                            if mismatch_at(provided@, computed@, j) {
                                assert(keys@.contains(j));
                                let q = choose|q: int| 0 <= q < keys@.len() && keys@[q] == j;
                                if q >= i {
                                    assert(keys@[i as int] <= keys@[q]);
                                }
                            }
                        }
                    }
                    return Some(k);
                }
            },
            None => {},
        }
        i = i + 1;
    }
    proof {
        assert forall|k: u64| !mismatch_at(provided@, computed@, k) by {
            if mismatch_at(provided@, computed@, k) {
                assert(keys@.contains(k));
                let q = choose|q: int| 0 <= q < keys@.len() && keys@[q] == k;
                assert(!mismatch_at(provided@, computed@, keys@[q]));
            }
        }
    }
    None
}

/// Reads a serialized sampled regular constraint: its equality number, the
/// feasibility each sample's evaluated value implies (`None` where the
/// evaluated values are missing), the feasibility stored with the samples,
/// and the decision variables it uses. The equality must name an equality,
/// the evaluated values must be present, and every sample with both
/// feasibilities must agree on them (the smallest disagreeing sample is
/// reported). The constraint read holds the feasibility of each evaluated
/// sample.
pub fn parse_sampled_regular_constraint(
    equality: i32,
    computed_feasible: Option<BTreeMap<u64, bool>>,
    provided_feasible: BTreeMap<u64, bool>,
    used_ids: Vec<u64>,
) -> (r: Result<SampledConstraintStatus, SampledParseError>)
    ensures
        (r matches Err(SampledParseError::Equality(e))) <==> equality_of_number(equality) is None,
        r matches Err(SampledParseError::Equality(e)) ==> e == equality_error_of(equality),
        (r matches Err(SampledParseError::MissingEvaluatedValues)) <==> (equality_of_number(equality) is Some
            && computed_feasible is None),
        (r matches Err(SampledParseError::InconsistentFeasibility { .. })) <==> (equality_of_number(
            equality,
        ) is Some && computed_feasible is Some && has_mismatch(provided_feasible@, computed_feasible->0@)),
        r matches Err(SampledParseError::InconsistentFeasibility { sample_id, provided, computed }) ==> {
            &&& computed_feasible is Some
            &&& mismatch_at(provided_feasible@, computed_feasible->0@, sample_id)
            &&& provided == provided_feasible@[sample_id]
            &&& computed == computed_feasible->0@[sample_id]
            &&& forall|j: u64| j < sample_id ==> !mismatch_at(provided_feasible@, computed_feasible->0@, j)
        },
        r matches Ok(s) ==> {
            &&& equality_of_number(equality) == Some(s.equality)
            &&& computed_feasible is Some
            &&& s.feasible@ == computed_feasible->0@
            &&& !has_mismatch(provided_feasible@, s.feasible@)
            &&& s.used_decision_variable_ids@ == variable_ids_of(used_ids@)
        },
{
    let eq = match Equality::parse(equality) {
        Ok(e) => e,
        Err(e) => {
            return Err(SampledParseError::Equality(e));
        },
    };
    let computed = match computed_feasible {
        Some(c) => c,
        None => {
            return Err(SampledParseError::MissingEvaluatedValues);
        },
    };
    match first_mismatch(&provided_feasible, &computed) {
        Some(k) => {
            let provided = *provided_feasible.get(&k).unwrap();
            let computed_k = *computed.get(&k).unwrap();
            return Err(SampledParseError::InconsistentFeasibility { sample_id: k, provided, computed: computed_k });
        },
        None => {},
    }
    let mut used: Vec<VariableID> = Vec::new();
    let mut i: usize = 0;
    while i < used_ids.len()
        invariant
            i <= used_ids@.len(),
            used@ == variable_ids_of(used_ids@.subrange(0, i as int)),
        decreases used_ids@.len() - i,
    {
        used.push(VariableID(used_ids[i]));
        i = i + 1;
        assert(used@ =~= variable_ids_of(used_ids@.subrange(0, i as int)));
    }
    assert(used_ids@.subrange(0, used_ids@.len() as int) =~= used_ids@);
    Ok(SampledConstraintStatus { equality: eq, feasible: computed, used_decision_variable_ids: used })
}

} // verus!
