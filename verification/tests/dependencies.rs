use ommx::dependencies::{DecisionVariableDependencies, DependencyRule, SubstitutionError};
use ommx::dependent_expr::DependentExpr;
use ommx::function_ids::FunctionTerms;
use ommx::ids::VariableID;
use std::collections::BTreeSet;

/// A rule whose expression is named by `text` and reads `required`.
fn rule(text: &'static str, required: &[u64]) -> DependencyRule<&'static str> {
    DependencyRule { expression: DependentExpr::from(text), required: required.to_vec() }
}

fn indicator(text: &'static str, required: &[u64]) -> DependencyRule<&'static str> {
    DependencyRule { expression: DependentExpr::nonzero_indicator(DependentExpr::from(text)), required: required.to_vec() }
}

fn chained_dependencies() -> DecisionVariableDependencies<&'static str> {
    DecisionVariableDependencies::new(vec![(VariableID(1), indicator("x2", &[2])), (VariableID(2), rule("x3", &[3]))]).unwrap()
}

fn expect_err<T>(r: Result<T, SubstitutionError>) -> SubstitutionError {
    match r {
        Ok(_) => panic!("expected an error"),
        Err(e) => e,
    }
}

#[test]
fn rejects_recursive_and_cyclic_dependencies() {
    let recursive = expect_err(DecisionVariableDependencies::new(vec![(VariableID(1), rule("x1", &[1]))]));
    assert!(matches!(recursive, SubstitutionError::RecursiveAssignment { var_id } if var_id == VariableID(1)));

    let cyclic = expect_err(DecisionVariableDependencies::new(vec![(VariableID(1), rule("x2", &[2])), (VariableID(2), rule("x1", &[1]))]));
    assert!(matches!(cyclic, SubstitutionError::CyclicAssignmentDetected));
}

#[test]
fn evaluates_in_dependency_first_order() {
    let dependencies = chained_dependencies();
    let order = dependencies.evaluation_order().into_iter().map(|(id, _)| id).collect::<Vec<_>>();
    assert_eq!(order, vec![VariableID(2), VariableID(1)]);
}

#[test]
fn required_ids_includes_internal_dependency_references() {
    let dependencies = chained_dependencies();
    assert_eq!(dependencies.required_ids(), BTreeSet::from([2, 3]));
    assert_eq!(dependencies.keys(), vec![VariableID(1), VariableID(2)]);
}

#[test]
fn longer_chains_and_lookups() {
    let dependencies = DecisionVariableDependencies::new(vec![
        (VariableID(5), rule("x1+x4", &[1, 4])),
        (VariableID(1), rule("x7", &[7])),
        (VariableID(4), rule("x1", &[1])),
        (VariableID(9), rule("c", &[])),
    ])
    .unwrap();
    let order = dependencies.evaluation_order().into_iter().map(|(id, _)| id.0).collect::<Vec<_>>();
    let at = |x: u64| order.iter().position(|y| *y == x).unwrap();
    assert_eq!(order.len(), 4);
    assert!(at(1) < at(4) && at(4) < at(5));
    assert_eq!(dependencies.len(), 4);
    assert!(!dependencies.is_empty());
    assert!(matches!(dependencies.get(&VariableID(9)), Some(DependentExpr::Function("c"))));
    assert!(dependencies.get(&VariableID(7)).is_none());

    let cyclic = expect_err(DecisionVariableDependencies::new(vec![
        (VariableID(1), rule("x2", &[2])),
        (VariableID(2), rule("x3", &[3])),
        (VariableID(3), rule("x1", &[1])),
    ]));
    assert_eq!(cyclic, SubstitutionError::CyclicAssignmentDetected);

    let later_wins = DecisionVariableDependencies::new(vec![(VariableID(1), rule("x1", &[1])), (VariableID(1), rule("c", &[]))]).unwrap();
    assert!(matches!(later_wins.get(&VariableID(1)), Some(DependentExpr::Function("c"))));
    assert!(DecisionVariableDependencies::<&str>::new(vec![]).unwrap().is_empty());
}

#[test]
fn function_terms_give_the_variables_a_function_reads() {
    assert!(FunctionTerms::Constant.used_decision_variable_ids().is_empty());
    assert!(FunctionTerms::Unset.used_decision_variable_ids().is_empty());
    let linear = FunctionTerms::Linear { ids: vec![3, 1, 3] };
    assert_eq!(linear.used_decision_variable_ids(), BTreeSet::from([1, 3]));
    let quadratic = FunctionTerms::Quadratic { columns: vec![1, 2], rows: vec![2, 5] };
    assert_eq!(quadratic.used_decision_variable_ids(), BTreeSet::from([1, 2, 5]));
    let polynomial = FunctionTerms::Polynomial { monomials: vec![vec![4, 4, 2], vec![], vec![7]] };
    assert_eq!(polynomial.used_decision_variable_ids(), BTreeSet::from([2, 4, 7]));
    assert_eq!(polynomial.used_ids_in_order(), vec![2, 4, 7]);
}

#[test]
fn rules_built_from_function_terms_read_those_variables() {
    let r = DependencyRule::reading(DependentExpr::from("x1 + x2"), &FunctionTerms::Linear { ids: vec![2, 1, 2] });
    assert_eq!(r.required, vec![1, 2]);
    assert!(DecisionVariableDependencies::new(vec![(VariableID(3), r)]).is_ok());
}
