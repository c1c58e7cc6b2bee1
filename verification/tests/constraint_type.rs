use ommx::collection::{
    OverlapSides,
    collect_unique_rows, CollectionError, SampledConstraintBehavior, ConstraintCollection, EvaluatedCollection, EvaluatedConstraintStatus, SampledCollection,
    SampledConstraintStatus,
};
use ommx::constraint::{ConstraintContext, ConstraintContextStore, Equality, EqualityParseError, RemovedReason};
use ommx::ids::{ConstraintID, VariableID};
use ommx::sampled_parse::{parse_sampled_regular_constraint, SampledParseError};
use ommx::label::ModelingLabel;
use ommx::stage::{Constraint, ConstraintType};
use std::collections::BTreeMap;

/// A stand-in for the function representation of a constraint.
#[derive(Clone, Debug, PartialEq)]
enum Function {
    Zero,
    Linear(u64),
}

type Collection = ConstraintCollection<ConstraintID, Constraint<Function>>;

fn removed_reason() -> RemovedReason {
    RemovedReason::new("test".to_string())
}

fn expect_err<T>(r: Result<T, CollectionError>) -> CollectionError {
    match r {
        Ok(_) => panic!("expected an error"),
        Err(e) => e,
    }
}

#[test]
fn constraint_type_aliases() {
    let c = Constraint::equal_to_zero(Function::Zero);
    let _: <Constraint<Function> as ConstraintType>::Created = c;
}

#[test]
fn empty_collection() {
    let collection = Collection::new_empty();
    assert!(collection.active().is_empty());
    assert!(collection.removed().is_empty());
}

#[test]
fn collection_accessors() {
    let mut active = BTreeMap::new();
    active.insert(1u64, Constraint::equal_to_zero(Function::Zero));

    let collection = Collection::new(active, BTreeMap::new()).unwrap();
    assert_eq!(collection.active().len(), 1);
    assert_eq!(collection.removed().len(), 0);
}

#[test]
fn collection_rejects_active_removed_overlap() {
    let active = BTreeMap::from([(1u64, Constraint::equal_to_zero(Function::Zero))]);
    let removed = BTreeMap::from([(1u64, (Constraint::equal_to_zero(Function::Zero), removed_reason()))]);

    let err = expect_err(Collection::new(active, removed));
    assert_eq!(err, CollectionError::KeyOverlap { id: 1, sides: OverlapSides::ActiveAndRemoved });
    assert!(err.message().contains("appears in both active constraints and removed constraints"));
    assert_eq!(err.message(), "Constraint ID ConstraintID(1) appears in both active constraints and removed constraints");
}

#[test]
fn collection_rejects_orphan_context_id() {
    let orphan_id = ConstraintID(99);
    let active = BTreeMap::from([(1u64, Constraint::equal_to_zero(Function::Zero))]);
    let mut context = ConstraintContextStore::new();
    context.set_name(orphan_id, "orphan".to_string());

    let err = expect_err(Collection::with_context(active, BTreeMap::new(), context));
    assert_eq!(err, CollectionError::UnknownContextID(99));
}

#[test]
fn set_context_for_owner_rejects_unknown_id_without_orphan() {
    let orphan_id = ConstraintID(99);
    let active = BTreeMap::from([(1u64, Constraint::equal_to_zero(Function::Zero))]);
    let mut collection = Collection::new(active, BTreeMap::new()).unwrap();

    let mut label = ModelingLabel::new();
    label.name = Some("orphan".to_string());
    let context = ConstraintContext { label, provenance: vec![] };
    let err = expect_err(collection.set_context_for_owner(orphan_id, context));

    assert_eq!(err, CollectionError::UnknownContextID(99));
    assert!(!collection.context().contains(orphan_id));
    collection.validate_context_ids().unwrap();
}

#[test]
fn replace_and_remove_active_rows_preserves_context() {
    let removed_id = ConstraintID(1);
    let active_id = ConstraintID(2);
    let active = BTreeMap::from([
        (1u64, Constraint::equal_to_zero(Function::Zero)),
        (2u64, Constraint::equal_to_zero(Function::Linear(1))),
    ]);
    let mut context = ConstraintContextStore::new();
    context.set_name(removed_id, "original".to_string());
    let mut collection = Collection::with_context(active, BTreeMap::new(), context).unwrap();

    let removed = collection.active().get(&1).unwrap().clone();
    collection.move_active_rows_to_removed(BTreeMap::from([(1u64, (removed, removed_reason()))])).unwrap();

    assert!(!collection.active().contains_key(&removed_id.0));
    assert!(collection.active().contains_key(&active_id.0));
    assert!(collection.removed().contains_key(&removed_id.0));
    assert_eq!(collection.context().name(removed_id), Some("original"));
    collection.validate_context_ids().unwrap();
}

#[test]
fn replace_active_rows_rejects_unknown_id_before_mutation() {
    let original = Constraint::equal_to_zero(Function::Zero);
    let mut collection = Collection::new(BTreeMap::from([(1u64, original.clone())]), BTreeMap::new()).unwrap();

    let err = expect_err(collection.replace_active_rows(BTreeMap::from([
        (1u64, Constraint::less_than_or_equal_to_zero(Function::Zero)),
        (99u64, Constraint::equal_to_zero(Function::Zero)),
    ])));

    assert_eq!(err, CollectionError::ActiveNotFound(99));
    assert_eq!(collection.active().get(&1), Some(&original));
    assert!(collection.removed().is_empty());
    collection.validate_context_ids().unwrap();
}

#[test]
fn replace_rows_preserving_lifecycle_keeps_reasons_and_context() {
    let active_id = ConstraintID(1);
    let removed_id = ConstraintID(2);
    let reason = removed_reason();
    let mut context = ConstraintContextStore::new();
    context.set_name(active_id, "active".to_string());
    context.set_name(removed_id, "removed".to_string());
    let mut collection = Collection::with_context(
        BTreeMap::from([(1u64, Constraint::equal_to_zero(Function::Zero))]),
        BTreeMap::from([(2u64, (Constraint::less_than_or_equal_to_zero(Function::Zero), reason.clone()))]),
        context,
    )
    .unwrap();

    collection
        .replace_rows_preserving_lifecycle(
            BTreeMap::from([(1u64, Constraint::less_than_or_equal_to_zero(Function::Zero))]),
            BTreeMap::from([(2u64, Constraint::equal_to_zero(Function::Zero))]),
        )
        .unwrap();

    assert_eq!(collection.active().get(&1).map(|c| c.equality), Some(Equality::LessThanOrEqualToZero));
    assert_eq!(collection.removed().get(&2).map(|(c, _)| c.equality), Some(Equality::EqualToZero));
    assert_eq!(collection.removed().get(&2).map(|(_, r)| r), Some(&reason));
    assert_eq!(collection.context().name(active_id), Some("active"));
    assert_eq!(collection.context().name(removed_id), Some("removed"));
    collection.validate_context_ids().unwrap();
}

#[test]
fn replace_rows_preserving_lifecycle_rejects_unknown_removed_id_before_mutation() {
    let original_active = Constraint::equal_to_zero(Function::Zero);
    let original_removed = Constraint::less_than_or_equal_to_zero(Function::Zero);
    let reason = removed_reason();
    let mut collection = Collection::new(
        BTreeMap::from([(1u64, original_active.clone())]),
        BTreeMap::from([(2u64, (original_removed.clone(), reason.clone()))]),
    )
    .unwrap();

    let err = expect_err(collection.replace_rows_preserving_lifecycle(
        BTreeMap::from([(1u64, Constraint::less_than_or_equal_to_zero(Function::Zero))]),
        BTreeMap::from([(99u64, Constraint::equal_to_zero(Function::Zero))]),
    ));

    assert_eq!(err, CollectionError::RemovedNotFound(99));
    assert_eq!(collection.active().get(&1), Some(&original_active));
    assert_eq!(collection.removed().get(&2), Some(&(original_removed, reason)));
    collection.validate_context_ids().unwrap();
}

#[test]
fn restore_removed_row_preserves_context() {
    let id = ConstraintID(1);
    let removed = Constraint::less_than_or_equal_to_zero(Function::Zero);
    let mut context = ConstraintContextStore::new();
    context.set_name(id, "restored".to_string());
    let mut collection =
        Collection::with_context(BTreeMap::new(), BTreeMap::from([(1u64, (removed.clone(), removed_reason()))]), context)
            .unwrap();

    let mut restored = removed.clone();
    restored.equality = Equality::EqualToZero;
    let reason = collection.restore_removed_row(id, restored).unwrap();
    assert_eq!(reason.reason, "test");
    assert!(collection.active().get(&1).is_some_and(|c| c.equality == Equality::EqualToZero));
    assert!(!collection.removed().contains_key(&1));
    assert_eq!(collection.context().name(id), Some("restored"));
    collection.validate_context_ids().unwrap();
}

#[test]
fn insert_active_with_context_rejects_duplicate_ids() {
    let id = ConstraintID(1);
    let mut collection =
        Collection::new(BTreeMap::from([(1u64, Constraint::equal_to_zero(Function::Zero))]), BTreeMap::new()).unwrap();

    let err = expect_err(collection.insert_active_with_context(
        id,
        Constraint::equal_to_zero(Function::Zero),
        ConstraintContext::default(),
    ));
    assert_eq!(err, CollectionError::DuplicateActive(1));

    let removed_id = ConstraintID(2);
    let mut collection = Collection::new(
        BTreeMap::new(),
        BTreeMap::from([(2u64, (Constraint::equal_to_zero(Function::Zero), removed_reason()))]),
    )
    .unwrap();

    let err = expect_err(collection.insert_active_with_context(
        removed_id,
        Constraint::equal_to_zero(Function::Zero),
        ConstraintContext::default(),
    ));
    assert_eq!(err, CollectionError::DuplicateRemoved(2));
}

#[test]
fn evaluated_collection_rejects_removed_reason_without_constraint() {
    let constraints: BTreeMap<u64, EvaluatedConstraintStatus> = BTreeMap::new();
    let removed_reasons = BTreeMap::from([(1u64, removed_reason())]);

    let err = expect_err(EvaluatedCollection::<ConstraintID, EvaluatedConstraintStatus>::new(constraints, removed_reasons));
    assert_eq!(err, CollectionError::UnknownRemovedReason(1));
}

#[test]
fn sampled_collection_rejects_removed_reason_without_constraint() {
    let constraints: BTreeMap<u64, SampledConstraintStatus> = BTreeMap::new();
    let removed_reasons = BTreeMap::from([(1u64, removed_reason())]);

    let err = expect_err(SampledCollection::<ConstraintID, SampledConstraintStatus>::new(constraints, removed_reasons));
    assert_eq!(err, CollectionError::UnknownRemovedReason(1));
}

#[test]
fn relax_then_restore_round_trips_the_row() {
    let id = ConstraintID(3);
    let row = Constraint::equal_to_zero(Function::Linear(7));
    let mut collection = Collection::new(BTreeMap::from([(3u64, row.clone())]), BTreeMap::new()).unwrap();

    collection.relax(id, RemovedReason::new("relaxed".to_string())).unwrap();
    assert!(collection.active().is_empty());
    assert_eq!(collection.removed().get(&3).map(|(c, r)| (c.clone(), r.reason.clone())), Some((row.clone(), "relaxed".to_string())));

    let reason = collection.restore_removed_row(id, row.clone()).unwrap();
    assert_eq!(reason.reason, "relaxed");
    assert_eq!(collection.active().get(&3), Some(&row));
    assert!(collection.removed().is_empty());
}

#[test]
fn relax_and_restore_reject_missing_rows() {
    let mut collection = Collection::new_empty();
    let err = expect_err(collection.relax(ConstraintID(5), removed_reason()));
    assert_eq!(err, CollectionError::ActiveNotFound(5));
    let err = expect_err(collection.restore_removed_row(ConstraintID(5), Constraint::equal_to_zero(Function::Zero)));
    assert_eq!(err, CollectionError::RemovedNotFound(5));
}

#[test]
fn unused_id_is_one_past_the_largest_owned_id() {
    let collection = Collection::new(
        BTreeMap::from([(4u64, Constraint::equal_to_zero(Function::Zero))]),
        BTreeMap::from([(9u64, (Constraint::equal_to_zero(Function::Zero), removed_reason()))]),
    )
    .unwrap();
    let id = collection.unused_id();
    assert!(!collection.contains_id(id));
    assert_eq!(id, ConstraintID(10));
    assert_eq!(Collection::new_empty().unused_id(), ConstraintID(0));
}

#[test]
fn replace_and_remove_rejects_unknown_removal() {
    let mut collection =
        Collection::new(BTreeMap::from([(1u64, Constraint::equal_to_zero(Function::Zero))]), BTreeMap::new()).unwrap();
    let err = expect_err(collection.replace_and_remove_active_rows(
        BTreeMap::new(),
        BTreeMap::from([(8u64, (Constraint::equal_to_zero(Function::Zero), removed_reason()))]),
    ));
    assert_eq!(err, CollectionError::ActiveNotFound(8));
    assert!(collection.active().contains_key(&1));
}

#[test]
fn collect_unique_rows_rejects_repeated_ids() {
    let ok = collect_unique_rows(vec![(2u64, 'a'), (1u64, 'b')]).unwrap();
    assert_eq!(ok, BTreeMap::from([(1u64, 'b'), (2u64, 'a')]));
    let err = expect_err(collect_unique_rows(vec![(2u64, 'a'), (2u64, 'b')]));
    assert_eq!(err, CollectionError::KeyOverlap { id: 2, sides: OverlapSides::RepeatedRows });
}

fn sampled(feasible: &[(u64, bool)]) -> SampledConstraintStatus {
    SampledConstraintStatus {
        equality: Equality::EqualToZero,
        feasible: feasible.iter().copied().collect(),
        used_decision_variable_ids: vec![ommx::ids::VariableID(4)],
    }
}

#[test]
fn sampled_rows_must_cover_exactly_the_expected_samples() {
    let expected: std::collections::BTreeSet<u64> = [1u64, 2].into_iter().collect();
    assert!(sampled(&[(1, true), (2, false)]).validate_sample_ids(&expected).is_ok());
    assert_eq!(sampled(&[(1, true)]).validate_sample_ids(&expected), Err([1u64].into_iter().collect()));
    assert_eq!(sampled(&[(1, true), (2, true), (3, true)]).validate_sample_ids(&expected), Err([1u64, 2, 3].into_iter().collect()));

    let collection = SampledCollection::<ConstraintID, SampledConstraintStatus>::new(
        BTreeMap::from([(5u64, sampled(&[(1, true), (2, true)])), (7u64, sampled(&[(2, true)])), (9u64, sampled(&[]))]),
        BTreeMap::new(),
    )
    .unwrap();
    assert_eq!(collection.validate_sample_ids(&expected), Err([2u64].into_iter().collect()));
}

#[test]
fn sampled_row_for_one_sample() {
    let row = sampled(&[(1, true), (2, false)]);
    let e = row.get(ommx::ids::SampleID(2)).unwrap();
    assert!(!e.feasible);
    assert_eq!(e.equality, Equality::EqualToZero);
    assert_eq!(e.used_decision_variable_ids, vec![ommx::ids::VariableID(4)]);
    assert!(row.get(ommx::ids::SampleID(3)).is_none());
}

fn evaluated(feasible: bool) -> EvaluatedConstraintStatus {
    EvaluatedConstraintStatus { equality: Equality::EqualToZero, feasible, used_decision_variable_ids: vec![ommx::ids::VariableID(1)] }
}

#[test]
fn evaluated_collection_feasibility_ignores_removed_rows_when_relaxed() {
    let mut collection = EvaluatedCollection::<ConstraintID, EvaluatedConstraintStatus>::new(
        BTreeMap::from([(1u64, evaluated(true)), (2u64, evaluated(false))]),
        BTreeMap::from([(2u64, removed_reason())]),
    )
    .unwrap();
    assert!(!collection.is_feasible());
    assert!(collection.is_feasible_relaxed());
    assert!(collection.is_removed(ConstraintID(2)));
    assert!(!collection.is_removed(ConstraintID(1)));
    assert!(!collection.is_empty());
    let prev = collection.replace_evaluated_row(ConstraintID(2), evaluated(true)).unwrap();
    assert!(!prev.feasible);
    assert!(collection.is_feasible());
    assert!(collection.replace_evaluated_row(ConstraintID(3), evaluated(true)).is_none());
}

#[test]
fn sampled_collection_feasibility_per_sample() {
    let collection = SampledCollection::<ConstraintID, SampledConstraintStatus>::new(
        BTreeMap::from([(1u64, sampled(&[(10, true), (11, false)])), (2u64, sampled(&[(10, false), (11, false)]))]),
        BTreeMap::from([(2u64, removed_reason())]),
    )
    .unwrap();
    assert!(!collection.is_feasible_for(ommx::ids::SampleID(10)));
    assert!(collection.is_feasible_relaxed_for(ommx::ids::SampleID(10)));
    assert!(!collection.is_feasible_relaxed_for(ommx::ids::SampleID(11)));
    assert!(!collection.is_feasible_relaxed_for(ommx::ids::SampleID(12)));
    let known = BTreeMap::from([(4u64, ())]);
    assert!(collection.validate_used_decision_variable_ids(&known).is_ok());
    let none: BTreeMap<u64, ()> = BTreeMap::new();
    assert_eq!(
        collection.validate_used_decision_variable_ids(&none),
        Err((ConstraintID(1), ommx::ids::VariableID(4)))
    );
}

#[test]
fn single_row_replacements_keep_lifecycles() {
    let mut collection = Collection::new(
        BTreeMap::from([(1u64, Constraint::equal_to_zero(Function::Zero))]),
        BTreeMap::from([(2u64, (Constraint::equal_to_zero(Function::Zero), removed_reason()))]),
    )
    .unwrap();
    collection.replace_active_row(ConstraintID(1), Constraint::equal_to_zero(Function::Linear(5))).unwrap();
    assert_eq!(collection.active().get(&1), Some(&Constraint::equal_to_zero(Function::Linear(5))));
    assert_eq!(
        expect_err(collection.replace_active_row(ConstraintID(2), Constraint::equal_to_zero(Function::Zero))),
        CollectionError::ActiveNotFound(2)
    );
    let prev = collection.replace_row_preserving_lifecycle(ConstraintID(2), Constraint::less_than_or_equal_to_zero(Function::Zero));
    assert_eq!(prev, Some(Constraint::equal_to_zero(Function::Zero)));
    assert_eq!(collection.removed().get(&2).map(|(c, r)| (c.equality, r.reason.clone())), Some((Equality::LessThanOrEqualToZero, "test".to_string())));
    assert!(collection.replace_row_preserving_lifecycle(ConstraintID(3), Constraint::equal_to_zero(Function::Zero)).is_none());
    assert!(collection.active().contains_key(&1) && !collection.active().contains_key(&2));
}

#[test]
fn feasible_and_infeasible_ids_split_the_samples() {
    let row = sampled(&[(0, true), (1, false), (2, true), (5, false)]);
    let feasible: Vec<u64> = row.feasible_ids().into_iter().collect();
    let infeasible: Vec<u64> = row.infeasible_ids().into_iter().collect();
    assert_eq!(feasible, vec![0, 2]);
    assert_eq!(infeasible, vec![1, 5]);

    let empty = sampled(&[]);
    assert!(empty.feasible_ids().is_empty());
    assert!(empty.infeasible_ids().is_empty());
}

#[test]
fn sampled_regular_constraint_parse_checks_equality_values_and_feasibility() {
    let computed = BTreeMap::from([(0u64, true), (1, false), (2, true)]);

    let ok = parse_sampled_regular_constraint(2, Some(computed.clone()), BTreeMap::from([(0u64, true), (7, false)]), vec![3, 1])
        .unwrap();
    assert_eq!(ok.equality, Equality::LessThanOrEqualToZero);
    assert_eq!(ok.feasible, computed);
    assert_eq!(ok.used_decision_variable_ids, vec![VariableID(3), VariableID(1)]);

    assert_eq!(
        parse_sampled_regular_constraint(0, Some(computed.clone()), BTreeMap::new(), vec![]).err(),
        Some(SampledParseError::Equality(EqualityParseError::Unspecified))
    );
    assert_eq!(
        parse_sampled_regular_constraint(9, None, BTreeMap::new(), vec![]).err(),
        Some(SampledParseError::Equality(EqualityParseError::UnknownEnumValue(9)))
    );
    assert_eq!(
        parse_sampled_regular_constraint(1, None, BTreeMap::new(), vec![]).err(),
        Some(SampledParseError::MissingEvaluatedValues)
    );
    assert_eq!(
        parse_sampled_regular_constraint(1, Some(computed), BTreeMap::from([(2u64, false), (1, true)]), vec![]).err(),
        Some(SampledParseError::InconsistentFeasibility { sample_id: 1, provided: true, computed: false })
    );
}

#[test]
fn collection_errors_report_their_ids() {
    assert_eq!(CollectionError::ActiveNotFound(99).message(), "Active constraint with ID ConstraintID(99) not found");
    assert_eq!(CollectionError::RemovedNotFound(99).message(), "Removed constraint with ID ConstraintID(99) not found");
    let m = CollectionError::UnknownContextID(99).message();
    assert!(m.contains("unknown constraint ID") && m.contains("ConstraintID(99)"));
    assert!(CollectionError::DuplicateActive(3).message().contains("already exists in the active"));
    assert!(CollectionError::DuplicateRemoved(3).message().contains("already exists in the removed"));
    assert!(CollectionError::UnknownRemovedReason(7).message().contains("Removed reason references unknown constraint ID"));
    assert_eq!(
        CollectionError::KeyOverlap { id: 4, sides: OverlapSides::ReplacementsAndRemovals }.message(),
        "Constraint ID ConstraintID(4) appears in both active row replacements and removals"
    );
}
