use ommx::hint_parse::{HintField, HintParseError, RawConstraintHints, RawOneHot, RawSos1};
use ommx::hints::{
    ConstraintHints, FixedClass, OneHot, OneHotPartialEvaluateError, OneHotPartialEvaluateResult, Sos1,
    Sos1PartialEvaluateError, Sos1PartialEvaluateResult,
};
use ommx::ids::{ConstraintID, VariableID};
use std::collections::BTreeMap;

/// Classifies fixed values as the hint simplification reads them: within
/// `atol` of 0, else within `atol` of 1, else neither.
fn classify(state: &BTreeMap<u64, f64>, atol: f64) -> BTreeMap<u64, FixedClass> {
    state
        .iter()
        .map(|(id, value)| {
            let class = if value.abs() < atol {
                FixedClass::Zero
            } else if (value - 1.0).abs() < atol {
                FixedClass::One
            } else {
                FixedClass::Other
            };
            (*id, class)
        })
        .collect()
}

fn vars(ids: &[u64]) -> Vec<VariableID> {
    ids.iter().map(|i| VariableID(*i)).collect()
}

fn one_hot() -> OneHot {
    OneHot::new(ConstraintID(100), vars(&[1, 2, 3])).unwrap()
}

fn sos1(big_m: &[u64]) -> Sos1 {
    Sos1::new(ConstraintID(100), big_m.iter().map(|i| ConstraintID(*i)).collect(), vars(&[1, 2, 3])).unwrap()
}

#[test]
fn one_hot_test_partial_evaluate_removes_zero_variables() {
    let state = BTreeMap::from([(2u64, 0.0)]);
    let result = one_hot().partial_evaluate(&classify(&state, 1e-10)).unwrap();
    match result {
        OneHotPartialEvaluateResult::Updated(updated) => {
            assert_eq!(updated.variables().len(), 2);
            assert!(updated.variables().contains(&VariableID(1)));
            assert!(!updated.variables().contains(&VariableID(2)));
            assert!(updated.variables().contains(&VariableID(3)));
        }
        _ => panic!("Expected Updated result"),
    }
}

#[test]
fn test_partial_evaluate_fixes_others_when_one_is_fixed() {
    let state = BTreeMap::from([(2u64, 1.0)]);
    let result = one_hot().partial_evaluate(&classify(&state, 1e-10)).unwrap();
    match result {
        OneHotPartialEvaluateResult::AdditionalFix(fixes) => {
            assert_eq!(fixes.len(), 2);
            assert_eq!(fixes, vars(&[1, 3]));
        }
        _ => panic!("Expected AdditionalFix result"),
    }
}

#[test]
fn test_partial_evaluate_error_on_invalid_value() {
    let state = BTreeMap::from([(2u64, 0.5)]);
    let result = one_hot().partial_evaluate(&classify(&state, 1e-10));
    match result {
        Err(OneHotPartialEvaluateError::InvalidFixedValue { variable_id, .. }) => {
            assert_eq!(variable_id, VariableID(2));
            assert_eq!(state[&variable_id.0], 0.5);
        }
        _ => panic!("Expected InvalidFixedValue error"),
    }
}

#[test]
fn test_partial_evaluate_error_on_multiple_ones() {
    let state = BTreeMap::from([(1u64, 1.0), (2u64, 1.0)]);
    let result = one_hot().partial_evaluate(&classify(&state, 1e-10));
    match result {
        Err(OneHotPartialEvaluateError::MultipleNonZeroFixed { first, second, .. }) => {
            assert_eq!((first, second), (VariableID(1), VariableID(2)));
        }
        _ => panic!("Expected MultipleNonZeroFixed error"),
    }
}

#[test]
fn one_hot_test_partial_evaluate_with_atol() {
    let state = BTreeMap::from([(2u64, 1e-11)]);
    let result = one_hot().partial_evaluate(&classify(&state, 1e-10)).unwrap();
    match result {
        OneHotPartialEvaluateResult::Updated(updated) => {
            assert_eq!(updated.variables().len(), 2);
            assert!(!updated.variables().contains(&VariableID(2)));
        }
        _ => panic!("Expected Updated result"),
    }
}

#[test]
fn one_hot_test_partial_evaluate_empty_state() {
    let one_hot = one_hot();
    let expected_variables = one_hot.variables().clone();
    let result = one_hot.partial_evaluate(&BTreeMap::new()).unwrap();
    match result {
        OneHotPartialEvaluateResult::Updated(updated) => {
            assert_eq!(updated.variables().len(), 3);
            assert_eq!(*updated.variables(), expected_variables);
        }
        _ => panic!("Expected Updated result"),
    }
}

#[test]
fn test_partial_evaluate_all_zeros_error() {
    let state = BTreeMap::from([(1u64, 0.0), (2u64, 0.0), (3u64, 0.0)]);
    let result = one_hot().partial_evaluate(&classify(&state, 1e-10));
    match result {
        Err(OneHotPartialEvaluateError::AllVariablesFixedToZero { constraint_id }) => {
            assert_eq!(constraint_id, ConstraintID(100));
        }
        _ => panic!("Expected AllVariablesFixedToZero error when all variables are 0"),
    }
}

#[test]
fn sos1_test_partial_evaluate_removes_zero_variables() {
    let state = BTreeMap::from([(2u64, 0.0)]);
    let result = sos1(&[101, 102, 103]).partial_evaluate(&classify(&state, 1e-10)).unwrap();
    match result {
        Sos1PartialEvaluateResult::Updated(updated) => {
            assert_eq!(updated.variables().len(), 2);
            assert!(updated.variables().contains(&VariableID(1)));
            assert!(!updated.variables().contains(&VariableID(2)));
            assert!(updated.variables().contains(&VariableID(3)));
            assert_eq!(updated.binary_constraint_id(), ConstraintID(100));
            assert_eq!(updated.big_m_constraint_ids().len(), 3);
        }
        _ => panic!("Expected Updated result"),
    }
}

#[test]
fn test_partial_evaluate_fixes_others_when_one_is_nonzero() {
    let state = BTreeMap::from([(2u64, 1.0)]);
    let result = sos1(&[]).partial_evaluate(&classify(&state, 1e-10)).unwrap();
    match result {
        Sos1PartialEvaluateResult::AdditionalFix(fixes) => {
            assert_eq!(fixes.len(), 2);
            assert_eq!(fixes, vars(&[1, 3]));
        }
        _ => panic!("Expected AdditionalFix result"),
    }
}

#[test]
fn test_partial_evaluate_error_on_multiple_nonzero() {
    let state = BTreeMap::from([(1u64, 1.0), (2u64, 2.0)]);
    let result = sos1(&[]).partial_evaluate(&classify(&state, 1e-10));
    match result {
        Err(Sos1PartialEvaluateError::MultipleNonZeroFixed { first, second, .. }) => {
            assert_eq!((first, second), (VariableID(1), VariableID(2)));
        }
        _ => panic!("Expected MultipleNonZeroFixed error"),
    }
}

#[test]
fn sos1_test_partial_evaluate_with_atol() {
    let state = BTreeMap::from([(2u64, 1e-11)]);
    let result = sos1(&[]).partial_evaluate(&classify(&state, 1e-10)).unwrap();
    match result {
        Sos1PartialEvaluateResult::Updated(updated) => {
            assert_eq!(updated.variables().len(), 2);
            assert!(!updated.variables().contains(&VariableID(2)));
        }
        _ => panic!("Expected Updated result"),
    }
}

#[test]
fn sos1_test_partial_evaluate_empty_state() {
    let sos1 = sos1(&[101, 102]);
    let expected_variables = sos1.variables().clone();
    let expected_binary_id = sos1.binary_constraint_id();
    let expected_big_m_ids = sos1.big_m_constraint_ids().clone();
    let result = sos1.partial_evaluate(&BTreeMap::new()).unwrap();
    match result {
        Sos1PartialEvaluateResult::Updated(updated) => {
            assert_eq!(*updated.variables(), expected_variables);
            assert_eq!(updated.binary_constraint_id(), expected_binary_id);
            assert_eq!(*updated.big_m_constraint_ids(), expected_big_m_ids);
        }
        _ => panic!("Expected Updated result"),
    }
}

#[test]
fn test_partial_evaluate_all_zeros_valid() {
    let state = BTreeMap::from([(1u64, 0.0), (2u64, 0.0), (3u64, 0.0)]);
    let result = sos1(&[]).partial_evaluate(&classify(&state, 1e-10)).unwrap();
    match result {
        Sos1PartialEvaluateResult::Updated(updated) => {
            assert_eq!(updated.variables().len(), 0);
        }
        _ => panic!("Expected Updated result when all variables are 0"),
    }
}

fn context() -> (BTreeMap<u64, ()>, BTreeMap<u64, ()>, BTreeMap<u64, ()>) {
    let variables = BTreeMap::from([(1u64, ()), (2, ()), (3, ())]);
    let constraints = BTreeMap::from([(10u64, ()), (11, ()), (12, ())]);
    let removed = BTreeMap::from([(20u64, ())]);
    (variables, constraints, removed)
}

#[test]
fn one_hot_parse_sorts_variables_and_checks_ids() {
    let (v, c, r) = context();
    let h = OneHot::parse(&RawOneHot { constraint_id: 10, decision_variables: vec![3, 1, 2] }, &v, &c, &r).unwrap();
    assert_eq!(h.id(), ConstraintID(10));
    assert_eq!(*h.variables(), vars(&[1, 2, 3]));

    let e = OneHot::parse(&RawOneHot { constraint_id: 30, decision_variables: vec![1] }, &v, &c, &r);
    assert_eq!(e, Err(HintParseError::Undefined { field: HintField::OneHotConstraintId, id: 30 }));
    let e = OneHot::parse(&RawOneHot { constraint_id: 20, decision_variables: vec![1, 9, 1] }, &v, &c, &r);
    assert_eq!(e, Err(HintParseError::Undefined { field: HintField::OneHotDecisionVariables, id: 9 }));
    let e = OneHot::parse(&RawOneHot { constraint_id: 10, decision_variables: vec![2, 1, 2, 9] }, &v, &c, &r);
    assert_eq!(e, Err(HintParseError::NonUnique { field: HintField::OneHotDecisionVariables, id: 2 }));
}

#[test]
fn sos1_parse_checks_every_list() {
    let (v, c, r) = context();
    let raw = RawSos1 { binary_constraint_id: 10, big_m_constraint_ids: vec![12, 20, 11], decision_variables: vec![2, 1] };
    let h = Sos1::parse(&raw, &v, &c, &r).unwrap();
    assert_eq!(h.binary_constraint_id(), ConstraintID(10));
    assert_eq!(*h.big_m_constraint_ids(), vec![ConstraintID(11), ConstraintID(12), ConstraintID(20)]);
    assert_eq!(*h.variables(), vars(&[1, 2]));

    let raw = RawSos1 { binary_constraint_id: 10, big_m_constraint_ids: vec![11, 11], decision_variables: vec![7] };
    assert_eq!(Sos1::parse(&raw, &v, &c, &r), Err(HintParseError::NonUnique { field: HintField::Sos1BigMConstraintIds, id: 11 }));
    let raw = RawSos1 { binary_constraint_id: 99, big_m_constraint_ids: vec![], decision_variables: vec![] };
    assert_eq!(Sos1::parse(&raw, &v, &c, &r), Err(HintParseError::Undefined { field: HintField::Sos1BinaryConstraintId, id: 99 }));
    let raw = RawSos1 { binary_constraint_id: 10, big_m_constraint_ids: vec![], decision_variables: vec![3, 8] };
    assert_eq!(Sos1::parse(&raw, &v, &c, &r), Err(HintParseError::Undefined { field: HintField::Sos1DecisionVariables, id: 8 }));
}

#[test]
fn constraint_hints_parse_drops_hints_on_removed_constraints() {
    let (v, c, r) = context();
    let raw = RawConstraintHints {
        one_hot_constraints: vec![
            RawOneHot { constraint_id: 10, decision_variables: vec![1, 2] },
            RawOneHot { constraint_id: 20, decision_variables: vec![2, 3] },
            RawOneHot { constraint_id: 11, decision_variables: vec![3] },
        ],
        sos1_constraints: vec![
            RawSos1 { binary_constraint_id: 12, big_m_constraint_ids: vec![10, 20], decision_variables: vec![1] },
            RawSos1 { binary_constraint_id: 12, big_m_constraint_ids: vec![10, 11], decision_variables: vec![2] },
            RawSos1 { binary_constraint_id: 20, big_m_constraint_ids: vec![], decision_variables: vec![3] },
        ],
    };
    let hints = ConstraintHints::parse(&raw, &v, &c, &r).unwrap();
    assert_eq!(
        hints.one_hot_constraints,
        vec![OneHot::new(ConstraintID(10), vars(&[1, 2])).unwrap(), OneHot::new(ConstraintID(11), vars(&[3])).unwrap()]
    );
    assert_eq!(hints.sos1_constraints.len(), 1);
    assert_eq!(*hints.sos1_constraints[0].variables(), vars(&[2]));
    assert!(!hints.is_empty());
}

#[test]
fn constraint_hints_parse_reports_the_first_problem() {
    let (v, c, r) = context();
    let raw = RawConstraintHints {
        one_hot_constraints: vec![RawOneHot { constraint_id: 10, decision_variables: vec![1, 1] }],
        sos1_constraints: vec![RawSos1 { binary_constraint_id: 99, big_m_constraint_ids: vec![], decision_variables: vec![] }],
    };
    assert_eq!(
        ConstraintHints::parse(&raw, &v, &c, &r),
        Err(HintParseError::NonUnique { field: HintField::OneHotDecisionVariables, id: 1 })
    );
    let raw = RawConstraintHints {
        one_hot_constraints: vec![],
        sos1_constraints: vec![RawSos1 { binary_constraint_id: 99, big_m_constraint_ids: vec![], decision_variables: vec![] }],
    };
    assert_eq!(
        ConstraintHints::parse(&raw, &v, &c, &r),
        Err(HintParseError::Undefined { field: HintField::Sos1BinaryConstraintId, id: 99 })
    );
    assert!(ConstraintHints::new().is_empty());
}

#[test]
fn hints_keep_their_lists_strictly_increasing() {
    assert!(OneHot::new(ConstraintID(1), vars(&[1, 3, 5])).is_some());
    assert!(OneHot::new(ConstraintID(1), vars(&[3, 1])).is_none());
    assert!(OneHot::new(ConstraintID(1), vars(&[2, 2])).is_none());
    assert!(OneHot::new(ConstraintID(1), vars(&[])).is_some());
    let ids = |v: &[u64]| v.iter().map(|i| ConstraintID(*i)).collect::<Vec<_>>();
    assert!(Sos1::new(ConstraintID(1), ids(&[2, 4]), vars(&[1, 2])).is_some());
    assert!(Sos1::new(ConstraintID(1), ids(&[4, 2]), vars(&[1, 2])).is_none());
    assert!(Sos1::new(ConstraintID(1), ids(&[2, 4]), vars(&[2, 1])).is_none());
    let h = OneHot::new(ConstraintID(7), vars(&[1, 2])).unwrap();
    assert_eq!(h.id(), ConstraintID(7));
    assert_eq!(h.clone(), h);
}
