use ommx::constraint::{ConstraintContext, ConstraintContextStore, Provenance};
use ommx::ids::{ConstraintID, IndicatorConstraintID, VariableID};
use ommx::label::{ModelingLabel, ModelingLabelStore, Parameters};
use ommx::metadata::{ConstraintMetadata, ConstraintMetadataStore};

fn params_kv() -> Parameters {
    let mut params = Parameters::new();
    params.insert("k".to_string(), "v".to_string());
    params
}

#[test]
fn context_store_empty_store_returns_neutral_values() {
    let store: ConstraintContextStore<ConstraintID> = ConstraintContextStore::new();
    let id = ConstraintID(1);
    assert_eq!(store.name(id), None);
    assert!(store.subscripts(id).is_empty());
    assert!(store.parameters(id).is_empty());
    assert_eq!(store.description(id), None);
    assert!(store.provenance(id).is_empty());
    assert_eq!(store.collect_for(id), ConstraintContext::default());
    assert!(!store.contains(id));
    assert!(store.ids().is_empty());
}

#[test]
fn context_store_insert_then_collect_round_trip() {
    let mut store: ConstraintContextStore<ConstraintID> = ConstraintContextStore::new();
    let id = ConstraintID(7);
    let params = params_kv();
    let context = ConstraintContext {
        label: ModelingLabel {
            name: Some("c".to_string()),
            subscripts: vec![1, 2, 3],
            parameters: params.clone(),
            description: Some("d".to_string()),
        },
        provenance: vec![],
    };
    store.insert(id, context.clone());
    assert_eq!(store.name(id), Some("c"));
    assert_eq!(store.subscripts(id), &[1, 2, 3]);
    assert_eq!(store.parameters(id), &params);
    assert_eq!(store.description(id), Some("d"));
    assert!(store.provenance(id).is_empty());
    assert_eq!(store.collect_for(id), context);
    assert!(store.ids().contains(&id));
}

#[test]
fn empty_context_does_not_create_entries() {
    let mut store: ConstraintContextStore<ConstraintID> = ConstraintContextStore::new();
    let id = ConstraintID(0);
    store.insert(id, ConstraintContext::default());
    assert!(!store.contains(id));
    assert!(store.ids().is_empty());
}

#[test]
fn context_store_remove_returns_everything_and_clears() {
    let mut store: ConstraintContextStore<ConstraintID> = ConstraintContextStore::new();
    let id = ConstraintID(4);
    store.set_name(id, "n".to_string());
    store.push_provenance(id, Provenance::IndicatorConstraint(IndicatorConstraintID(2)));
    store.push_provenance(id, Provenance::IndicatorConstraint(IndicatorConstraintID(3)));
    assert_eq!(
        store.provenance(id),
        &[
            Provenance::IndicatorConstraint(IndicatorConstraintID(2)),
            Provenance::IndicatorConstraint(IndicatorConstraintID(3))
        ]
    );
    let removed = store.remove(id);
    assert_eq!(removed.label.name.as_deref(), Some("n"));
    assert_eq!(removed.provenance.len(), 2);
    assert!(!store.contains(id));
    assert!(store.ids().is_empty());
}

#[test]
fn context_store_ids_are_sorted_and_distinct() {
    let mut store: ConstraintContextStore<ConstraintID> = ConstraintContextStore::new();
    store.set_description(ConstraintID(9), "x".to_string());
    store.set_name(ConstraintID(2), "y".to_string());
    store.set_provenance(ConstraintID(5), vec![Provenance::IndicatorConstraint(IndicatorConstraintID(1))]);
    store.set_name(ConstraintID(9), "z".to_string());
    assert_eq!(store.ids(), vec![ConstraintID(2), ConstraintID(5), ConstraintID(9)]);
    store.set_provenance(ConstraintID(5), vec![]);
    assert_eq!(store.ids(), vec![ConstraintID(2), ConstraintID(9)]);
}

#[test]
fn metadata_store_empty_store_returns_neutral_values() {
    let store: ConstraintMetadataStore<ConstraintID> = ConstraintMetadataStore::new();
    let id = ConstraintID(1);
    assert_eq!(store.name(id), None);
    assert!(store.subscripts(id).is_empty());
    assert!(store.parameters(id).is_empty());
    assert_eq!(store.description(id), None);
    assert!(store.provenance(id).is_empty());
    assert_eq!(store.collect_for(id), ConstraintMetadata::default());
    assert!(!store.contains(id));
}

#[test]
fn metadata_store_insert_then_collect_round_trip() {
    let mut store: ConstraintMetadataStore<ConstraintID> = ConstraintMetadataStore::new();
    let id = ConstraintID(7);
    let params = params_kv();
    let metadata = ConstraintMetadata {
        name: Some("c".to_string()),
        subscripts: vec![1, 2, 3],
        parameters: params.clone(),
        description: Some("d".to_string()),
        provenance: vec![],
    };
    store.insert(id, metadata.clone());
    assert_eq!(store.name(id), Some("c"));
    assert_eq!(store.subscripts(id), &[1, 2, 3]);
    assert_eq!(store.parameters(id), &params);
    assert_eq!(store.description(id), Some("d"));
    assert!(store.provenance(id).is_empty());
    assert_eq!(store.collect_for(id), metadata);
}

#[test]
fn empty_metadata_does_not_create_entries() {
    let mut store: ConstraintMetadataStore<ConstraintID> = ConstraintMetadataStore::new();
    let id = ConstraintID(0);
    store.insert(id, ConstraintMetadata::default());
    assert!(!store.contains(id));
}

#[test]
fn remove_returns_owned_metadata_and_clears() {
    let mut store: ConstraintMetadataStore<ConstraintID> = ConstraintMetadataStore::new();
    let id = ConstraintID(3);
    store.set_name(id, "n".to_string());
    store.set_subscripts(id, vec![9]);
    let removed = store.remove(id);
    assert_eq!(removed.name.as_deref(), Some("n"));
    assert_eq!(removed.subscripts, vec![9]);
    assert!(!store.contains(id));
}

#[test]
fn setters_write_through() {
    let mut store: ConstraintMetadataStore<ConstraintID> = ConstraintMetadataStore::new();
    let id = ConstraintID(11);
    store.set_name(id, "demand".to_string());
    store.set_description(id, "desc".to_string());
    store.set_parameter(id, "k1".to_string(), "v1".to_string());
    store.set_parameter(id, "k2".to_string(), "v2".to_string());
    store.push_subscript(id, 1);
    store.push_subscript(id, 2);
    assert_eq!(store.name(id), Some("demand"));
    assert_eq!(store.description(id), Some("desc"));
    assert_eq!(store.subscripts(id), &[1, 2]);
    assert_eq!(store.parameters(id).len(), 2);
}

#[test]
fn metadata_store_empty_fields_clear_entries() {
    let mut store: ConstraintMetadataStore<ConstraintID> = ConstraintMetadataStore::new();
    let id = ConstraintID(6);
    store.set_subscripts(id, vec![1]);
    assert!(store.contains(id));
    store.set_subscripts(id, vec![]);
    assert!(!store.contains(id));
    store.extend_subscripts(id, vec![]);
    assert!(!store.contains(id));
    store.set_parameters(id, Parameters::new());
    assert!(!store.contains(id));
    store.set_name(id, "a".to_string());
    store.clear_name(id);
    assert!(!store.contains(id));
}

#[test]
fn parameters_keep_one_value_per_key() {
    let mut params = Parameters::new();
    params.insert("k".to_string(), "v1".to_string());
    params.insert("j".to_string(), "w".to_string());
    params.insert("k".to_string(), "v2".to_string());
    assert_eq!(params.len(), 2);
    assert_eq!(params.get("k"), Some("v2"));
    assert_eq!(params.get("j"), Some("w"));
    assert_eq!(params.get("x"), None);
}

#[test]
fn label_store_collects_what_was_set() {
    let mut store: ModelingLabelStore<VariableID> = ModelingLabelStore::new();
    let id = VariableID(3);
    store.set_name(id, "x".to_string());
    store.extend_subscripts(id, vec![4, 5]);
    let label = store.collect_for(id);
    assert_eq!(label.name.as_deref(), Some("x"));
    assert_eq!(label.subscripts, vec![4, 5]);
    assert_eq!(store.raw_ids(), vec![3]);
    let removed = store.remove(id);
    assert_eq!(removed.subscripts, vec![4, 5]);
    assert!(!store.contains(id));
}

#[test]
fn parameters_equal_regardless_of_insertion_order() {
    let mut a = Parameters::new();
    a.insert("k1".to_string(), "v1".to_string());
    a.insert("k2".to_string(), "v2".to_string());
    let mut b = Parameters::new();
    b.insert("k2".to_string(), "v2".to_string());
    b.insert("k1".to_string(), "v1".to_string());
    assert_eq!(a, b);

    let mut la = ModelingLabel::new();
    la.parameters = a.clone();
    let mut lb = ModelingLabel::new();
    lb.parameters = b.clone();
    assert_eq!(la, lb);

    b.insert("k1".to_string(), "other".to_string());
    assert_ne!(a, b);
    let mut c = a.clone();
    c.insert("k3".to_string(), "v3".to_string());
    assert_ne!(a, c);
    assert_ne!(c, a);
}
