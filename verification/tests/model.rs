use ommx::cli::{
    byte_unit, cleanup_mode, gc_delete_report_lines, gc_report_lines, import_legacy_report_lines, prune_outcome, push_target,
    rm_outcome, unit_label, CleanupMode, ConflictingFlags, GcSection, GcSummary, ImageRefOrPath, ImportLine, ImportSection,
    LegacyImportReport, LocalProbe, PruneOutcome, PushRefusal, RmOutcome,
};
use ommx::constraint::{Equality, EqualityParseError, Provenance};
use ommx::dependent_expr::DependentExpr;
use ommx::ids::{ConstraintID, OneHotConstraintID, Sos1ConstraintID, VariableID};
use ommx::image_ref::ImageRef;
use ommx::kind::{decision_variables_equivalent, kinds_equivalent, BoundShape, Kind, UnknownKind};
use ommx::label::ModelingLabel;
use ommx::samples::{Row, Samples, Solution};
use ommx::stage::Constraint;
use ommx::table::{DecisionVariableTable, TableError};
use std::collections::{BTreeMap, BTreeSet};

#[test]
fn kind_numbers() {
    assert_eq!(Kind::parse(1), Ok(Kind::Continuous));
    assert_eq!(Kind::parse(2), Ok(Kind::Integer));
    assert_eq!(Kind::parse(3), Ok(Kind::Binary));
    assert_eq!(Kind::parse(4), Ok(Kind::SemiContinuous));
    assert_eq!(Kind::parse(5), Ok(Kind::SemiInteger));
    assert_eq!(Kind::parse(0), Err(UnknownKind { value: 0 }));
    assert_eq!(Kind::parse(6), Err(UnknownKind { value: 6 }));
}

#[test]
fn point_bound_kinds() {
    let zero = BoundShape::Point { at_zero: true };
    let point = BoundShape::Point { at_zero: false };
    for a in [Kind::Continuous, Kind::Integer, Kind::Binary, Kind::SemiContinuous, Kind::SemiInteger] {
        for b in [Kind::Continuous, Kind::Integer, Kind::Binary, Kind::SemiContinuous, Kind::SemiInteger] {
            assert!(kinds_equivalent(a, b, zero));
        }
    }
    assert!(kinds_equivalent(Kind::Continuous, Kind::Integer, point));
    assert!(kinds_equivalent(Kind::Binary, Kind::Continuous, point));
    assert!(kinds_equivalent(Kind::SemiContinuous, Kind::SemiInteger, point));
    assert!(!kinds_equivalent(Kind::Continuous, Kind::SemiContinuous, point));
    assert!(!kinds_equivalent(Kind::Integer, Kind::SemiInteger, point));
}

#[test]
fn wide_bound_kinds() {
    assert!(kinds_equivalent(Kind::Integer, Kind::SemiInteger, BoundShape::ContainsZero));
    assert!(kinds_equivalent(Kind::Continuous, Kind::SemiContinuous, BoundShape::ContainsZero));
    assert!(!kinds_equivalent(Kind::Integer, Kind::Continuous, BoundShape::ContainsZero));
    assert!(kinds_equivalent(Kind::Binary, Kind::Integer, BoundShape::AwayFromZero));
    assert!(!kinds_equivalent(Kind::Integer, Kind::SemiInteger, BoundShape::AwayFromZero));
    assert!(kinds_equivalent(Kind::FiniteDomain, Kind::FiniteDomain, BoundShape::AwayFromZero));
    assert!(!kinds_equivalent(Kind::FiniteDomain, Kind::Integer, BoundShape::ContainsZero));
}

#[test]
fn equality_and_provenance_numbers() {
    assert_eq!(Equality::parse(1), Ok(Equality::EqualToZero));
    assert_eq!(Equality::parse(2), Ok(Equality::LessThanOrEqualToZero));
    assert!(matches!(Equality::parse(0), Err(EqualityParseError::Unspecified)));
    assert_eq!(Equality::LessThanOrEqualToZero.to_number(), 2);
    assert_eq!(Provenance::parse(Some((2, 5))), Some(Provenance::OneHotConstraint(OneHotConstraintID(5))));
    assert_eq!(Provenance::parse(Some((9, 5))), None);
    assert_eq!(Provenance::parse(None), None);
    assert_eq!(Provenance::Sos1Constraint(Sos1ConstraintID(8)).to_source(), (3, 8));
}

#[test]
fn constraint_accessors() {
    let mut c = Constraint::less_than_or_equal_to_zero(vec![1.0, 2.0]);
    assert_eq!(c.equality, Equality::LessThanOrEqualToZero);
    c.function_mut().push(3.0);
    assert_eq!(c.function(), &vec![1.0, 2.0, 3.0]);
    assert_eq!(c.equality, Equality::LessThanOrEqualToZero);
}

#[test]
fn nonzero_indicator_wraps_expressions() {
    let inner: DependentExpr<&str> = DependentExpr::from("x1");
    let once = DependentExpr::nonzero_indicator(inner);
    let twice = DependentExpr::nonzero_indicator(once);
    match twice {
        DependentExpr::NonzeroIndicator(b) => match *b {
            DependentExpr::NonzeroIndicator(c) => assert!(matches!(*c, DependentExpr::Function("x1"))),
            _ => panic!("expected a nested indicator"),
        },
        _ => panic!("expected an indicator"),
    }
}

#[test]
fn transpose_swaps_sample_and_variable() {
    let samples = Samples {
        states: BTreeMap::from([
            (10u64, BTreeMap::from([(1u64, 1.5), (2u64, 0.0)])),
            (11u64, BTreeMap::from([(2u64, 3.0)])),
            (12u64, BTreeMap::new()),
        ]),
    };
    let t = samples.transpose();
    assert_eq!(t, BTreeMap::from([(1u64, BTreeMap::from([(10u64, 1.5)])), (2u64, BTreeMap::from([(10u64, 0.0), (11u64, 3.0)]))]));
    let back = Samples { states: t }.transpose();
    assert_eq!(back, BTreeMap::from([(10u64, BTreeMap::from([(1u64, 1.5), (2u64, 0.0)])), (11u64, BTreeMap::from([(2u64, 3.0)]))]));
    let ids: Vec<u64> = samples.iter().iter().map(|(s, _)| *s).collect();
    assert_eq!(ids, vec![10, 11, 12]);
}

#[test]
fn solution_ids() {
    let solution = Solution {
        decision_variables: vec![Row { id: 3, value: 1.0 }, Row { id: 1, value: 0.0 }, Row { id: 3, value: 1.0 }],
        evaluated_constraints: vec![Row { id: 7, value: true }],
    };
    assert_eq!(solution.decision_variable_ids(), BTreeSet::from([1, 3]));
    assert_eq!(solution.constraint_ids(), BTreeSet::from([7]));
}

#[test]
fn decision_variable_table_rejects_orphan_labels() {
    let mut labels = ommx::label::ModelingLabelStore::new();
    labels.set_name(VariableID(1), "x".to_string());
    let err = DecisionVariableTable::<f64>::new(BTreeMap::new(), labels).err();
    assert_eq!(err, Some(TableError::UnknownLabelID(1)));
}

#[test]
fn default_tables_use_domain_empty_sidecars() {
    let created: DecisionVariableTable<f64> = DecisionVariableTable::new_empty();
    assert!(created.is_empty());
    assert_eq!(created.len(), 0);
    assert!(created.labels().raw_ids().is_empty());
}

#[test]
fn table_rows_and_labels() {
    let mut table = DecisionVariableTable::new(BTreeMap::from([(2u64, 'b'), (1u64, 'a')]), ommx::label::ModelingLabelStore::new()).unwrap();
    let mut label = ModelingLabel::new();
    label.name = Some("x".to_string());
    table.set_label(VariableID(2), label).unwrap();
    assert_eq!(table.labels().name(VariableID(2)), Some("x"));
    assert_eq!(table.set_label(VariableID(9), ModelingLabel::new()), Err(TableError::UnknownID(9)));
    assert_eq!(TableError::UnknownID(9).message(), "Undefined variable ID is used: VariableID(9)");
    assert_eq!(TableError::DuplicateID(1).message(), "Duplicate decision variable ID=1");
    assert_eq!(
        TableError::UnknownLabelID(5).message(),
        "Modeling label references unknown decision variable ID VariableID(5)"
    );
    assert_eq!(table.insert_labeled_row(VariableID(1), 'z', ModelingLabel::new()), Err(TableError::DuplicateID(1)));
    table.insert_labeled_row(VariableID(5), 'e', ModelingLabel::new()).unwrap();
    assert_eq!(table.keys(), vec![VariableID(1), VariableID(2), VariableID(5)]);
    assert_eq!(table.values(), vec![&'a', &'b', &'e']);
    assert_eq!(table.iter(), vec![(VariableID(1), &'a'), (VariableID(2), &'b'), (VariableID(5), &'e')]);
    assert_eq!(table.get(&VariableID(2)), Some(&'b'));
    assert!(table.contains_key(&VariableID(5)));
    assert_eq!(table.last_key_value(), Some((VariableID(5), &'e')));
    assert_eq!(table.len(), 3);
    assert_eq!(table.entries().len(), 3);
}

fn image(s: &str) -> ImageRef {
    ImageRef::parse(s).unwrap()
}

#[test]
fn routing_command_arguments() {
    let name = image("ghcr.io/jij-inc/ommx:v1");
    assert!(matches!(
        ImageRefOrPath::route("dir".to_string(), true, false, None, LocalProbe::Failed),
        Ok(ImageRefOrPath::OciDir(p)) if p == "dir"
    ));
    assert!(matches!(
        ImageRefOrPath::route("a.tar".to_string(), false, true, None, LocalProbe::Failed),
        Ok(ImageRefOrPath::OciArchive(p)) if p == "a.tar"
    ));
    assert!(matches!(
        ImageRefOrPath::route("x".to_string(), false, false, Some(name.clone()), LocalProbe::Found),
        Ok(ImageRefOrPath::Local(n)) if n == name
    ));
    assert!(matches!(
        ImageRefOrPath::route("x".to_string(), false, false, Some(name.clone()), LocalProbe::Failed),
        Ok(ImageRefOrPath::Remote(n)) if n == name
    ));
    assert!(matches!(
        ImageRefOrPath::route("!!".to_string(), false, false, None, LocalProbe::Missing),
        Err(e) if e.input == "!!"
    ));
}

#[test]
fn push_accepts_only_local_images() {
    let name = image("ghcr.io/jij-inc/ommx:v1");
    assert_eq!(push_target(ImageRefOrPath::Local(name.clone()), false).unwrap(), name);
    assert!(matches!(push_target(ImageRefOrPath::OciDir("d".to_string()), false), Err(PushRefusal::Directory(p)) if p == "d"));
    assert!(matches!(push_target(ImageRefOrPath::OciArchive("f".to_string()), false), Err(PushRefusal::Archive(p)) if p == "f"));
    assert!(matches!(push_target(ImageRefOrPath::Remote(name.clone()), true), Err(PushRefusal::LegacyOnly(_))));
    assert!(matches!(push_target(ImageRefOrPath::Remote(name), false), Err(PushRefusal::NotFoundLocally(_))));
}

#[test]
fn cleanup_modes_and_prune_outcomes() {
    assert_eq!(cleanup_mode(true, true), Err(ConflictingFlags));
    assert_eq!(ConflictingFlags.message(), "--dry-run and --delete cannot be used together");
    assert_eq!(cleanup_mode(true, false), Ok(CleanupMode::Report));
    assert_eq!(cleanup_mode(false, false), Ok(CleanupMode::Report));
    assert_eq!(cleanup_mode(false, true), Ok(CleanupMode::Delete));
    assert_eq!(prune_outcome(0, CleanupMode::Delete), PruneOutcome::Clean);
    assert_eq!(prune_outcome(3, CleanupMode::Delete), PruneOutcome::Remove);
    assert_eq!(prune_outcome(3, CleanupMode::Report), PruneOutcome::Candidates);
}

#[test]
fn byte_units() {
    assert_eq!(byte_unit(0), 0);
    assert_eq!(byte_unit(1023), 0);
    assert_eq!(byte_unit(1024), 1);
    assert_eq!(byte_unit(1024 * 1024 - 1), 1);
    assert_eq!(byte_unit(1024 * 1024), 2);
    assert_eq!(byte_unit(5 * 1024 * 1024 * 1024), 3);
    assert_eq!(byte_unit(u64::MAX), 4);
    assert_eq!(unit_label(byte_unit(2048)), "KiB");
    assert_eq!(unit_label(4), "TiB");
}

#[test]
fn gc_report_sections() {
    let summary = GcSummary {
        roots: 2,
        reachable_blobs: 5,
        reachable_size: 100,
        orphan_candidates: 1,
        orphan_candidate_size: 10,
        deferred_blobs: 0,
        deferred_size: 0,
        missing_blobs: 0,
        invalid_manifests: 3,
    };
    let lines = gc_report_lines(summary, true);
    let sections: Vec<GcSection> = lines.iter().map(|l| l.section).collect();
    assert_eq!(sections, vec![GcSection::Roots, GcSection::Reachable, GcSection::Orphans, GcSection::Deferred, GcSection::Invalid]);
    assert_eq!(lines[1].size, Some(100));
    assert!(!lines[0].list_digests && lines[2].list_digests);
    let lines = gc_delete_report_lines(summary, 1, 10, 0, false);
    assert_eq!(lines.len(), 6);
    assert_eq!(lines[5].section, GcSection::Deleted);
    assert!(!lines[2].list_digests);
    let lines = gc_delete_report_lines(summary, 1, 10, 2, false);
    assert_eq!(lines[6].section, GcSection::Skipped);
    assert_eq!(lines[6].count, 2);
}

fn same_var(a: Kind, b: Kind, bounds_close: bool, shape: BoundShape) -> bool {
    decision_variables_equivalent(VariableID(1), VariableID(1), bounds_close, a, b, shape)
}

const WIDE_WITH_ZERO: BoundShape = BoundShape::ContainsZero;
const POINT_FIVE: BoundShape = BoundShape::Point { at_zero: false };
const POINT_ZERO: BoundShape = BoundShape::Point { at_zero: true };

#[test]
fn test_different_ids_not_equal() {
    assert!(!decision_variables_equivalent(VariableID(1), VariableID(2), true, Kind::Continuous, Kind::Continuous, WIDE_WITH_ZERO));
}

#[test]
fn test_different_bounds_not_equal() {
    assert!(!same_var(Kind::Continuous, Kind::Continuous, false, WIDE_WITH_ZERO));
}

#[test]
fn test_same_kind_and_bound_equal() {
    assert!(same_var(Kind::Integer, Kind::Integer, true, WIDE_WITH_ZERO));
}

#[test]
fn test_point_bound_continuous_integer_equal() {
    assert!(same_var(Kind::Continuous, Kind::Integer, true, POINT_FIVE));
}

#[test]
fn test_point_bound_zero_all_kinds_equal() {
    assert!(same_var(Kind::Continuous, Kind::Integer, true, POINT_ZERO));
    assert!(same_var(Kind::Continuous, Kind::Binary, true, POINT_ZERO));
    assert!(same_var(Kind::Continuous, Kind::SemiContinuous, true, POINT_ZERO));
    assert!(same_var(Kind::Continuous, Kind::SemiInteger, true, POINT_ZERO));
    assert!(same_var(Kind::Integer, Kind::SemiInteger, true, POINT_ZERO));
}

#[test]
fn test_point_bound_nonzero_semi_not_equal() {
    assert!(!same_var(Kind::Continuous, Kind::SemiContinuous, true, POINT_FIVE));
}

#[test]
fn test_bound_contains_zero_semi_equal() {
    assert!(same_var(Kind::Integer, Kind::SemiInteger, true, WIDE_WITH_ZERO));
    assert!(same_var(Kind::Continuous, Kind::SemiContinuous, true, WIDE_WITH_ZERO));
    assert!(same_var(Kind::Binary, Kind::Integer, true, WIDE_WITH_ZERO));
}

#[test]
fn test_point_bound_nonzero_all_basic_kinds_equal() {
    let one = BoundShape::Point { at_zero: false };
    assert!(same_var(Kind::Binary, Kind::Integer, true, one));
    assert!(same_var(Kind::Binary, Kind::Continuous, true, one));
    assert!(same_var(Kind::Integer, Kind::Continuous, true, one));
}

#[test]
fn test_tolerance_in_point_bound() {
    // A bound [1, 1 + 1e-10] is a point within the default tolerance, and the
    // two bounds agree within it.
    assert!(same_var(Kind::Continuous, Kind::Integer, true, BoundShape::Point { at_zero: false }));
}

#[test]
fn removing_a_ref_collects_garbage_only_when_found_and_asked() {
    assert_eq!(rm_outcome(true, true), RmOutcome::Removed { run_gc: true });
    assert_eq!(rm_outcome(true, false), RmOutcome::Removed { run_gc: false });
    assert_eq!(rm_outcome(false, true), RmOutcome::NotFound);
    assert_eq!(rm_outcome(false, false), RmOutcome::NotFound);
}

#[test]
fn legacy_import_report_lists_skipped_conflicts_only_when_present() {
    let report = LegacyImportReport { imported_dirs: 3, scanned_dirs: 5, verified_dirs: 1, replaced_refs: 0, conflicted_dirs: 0 };
    let line = |section, count| ImportLine { section, count };
    assert_eq!(
        import_legacy_report_lines(report),
        vec![
            line(ImportSection::Imported, 3),
            line(ImportSection::Scanned, 5),
            line(ImportSection::Verified, 1),
            line(ImportSection::Replaced, 0),
        ]
    );
    let conflicted = LegacyImportReport { conflicted_dirs: 2, ..report };
    let lines = import_legacy_report_lines(conflicted);
    assert_eq!(lines.len(), 5);
    assert_eq!(lines[4], line(ImportSection::Skipped, 2));
}

#[test]
fn ids_are_ordered_by_their_raw_values() {
    assert!(VariableID(1) < VariableID(2));
    assert!(!(VariableID(2) < VariableID(2)));
    assert!(VariableID(3) >= VariableID(2));
    assert!(ConstraintID(10) > ConstraintID(9));
    assert_eq!(ConstraintID(4).cmp(&ConstraintID(4)), std::cmp::Ordering::Equal);
    let mut ids = vec![VariableID(5), VariableID(1), VariableID(3)];
    ids.sort();
    assert_eq!(ids, vec![VariableID(1), VariableID(3), VariableID(5)]);
}
