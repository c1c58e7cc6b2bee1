//! Constraint metadata as one flat record per ID: name, subscripts,
//! parameters, description and provenance, stored sparsely.
use crate::constraint::{empty_context_view, ConstraintContext, ConstraintContextStore, ContextView, Provenance};
use crate::ids::IDType;
use crate::label::{opt_string_view, LabelView, ModelingLabel, Parameters};
use vstd::prelude::*;

verus! {

/// All metadata of one constraint as a single owned record.
#[derive(Clone, Debug, PartialEq)]
pub struct ConstraintMetadata {
    pub name: Option<String>,
    pub subscripts: Vec<i64>,
    pub parameters: Parameters,
    pub description: Option<String>,
    pub provenance: Vec<Provenance>,
}

impl View for ConstraintMetadata {
    type V = ContextView;

    open spec fn view(&self) -> ContextView {
        ContextView {
            label: LabelView {
                name: opt_string_view(self.name),
                subscripts: self.subscripts@,
                parameters: self.parameters@,
                description: opt_string_view(self.description),
            },
            provenance: self.provenance@,
        }
    }
}

impl Default for ConstraintMetadata {
    fn default() -> (r: Self)
        ensures
            r@ == empty_context_view(),
    {
        ConstraintMetadata {
            name: None,
            subscripts: Vec::new(),
            parameters: Parameters::new(),
            description: None,
            provenance: Vec::new(),
        }
    }
}

impl ConstraintMetadata {
    fn into_context(self) -> (r: ConstraintContext)
        ensures
            r@ == self@,
    {
        let ConstraintMetadata { name, subscripts, parameters, description, provenance } = self;
        ConstraintContext { label: ModelingLabel { name, subscripts, parameters, description }, provenance }
    }

    fn from_context(c: ConstraintContext) -> (r: Self)
        ensures
            r@ == c@,
    {
        let ConstraintContext { label, provenance } = c;
        let ModelingLabel { name, subscripts, parameters, description } = label;
        ConstraintMetadata { name, subscripts, parameters, description, provenance }
    }
}

/// ID-keyed sparse storage of constraint metadata: a field that is absent or
/// empty is not stored, so storing an empty record stores nothing.
pub struct ConstraintMetadataStore<ID> {
    inner: ConstraintContextStore<ID>,
}

impl<ID: IDType> ConstraintMetadataStore<ID> {
    pub closed spec fn wf(&self) -> bool {
        self.inner.wf()
    }

    /// The IDs with any field recorded.
    pub closed spec fn id_set(&self) -> Set<u64> {
        self.inner.id_set()
    }

    /// The metadata recorded for raw ID `k`, absent fields read as empty.
    pub closed spec fn metadata_of(&self, k: u64) -> ContextView {
        self.inner.context_of(k)
    }

    /// Every record other than the one of raw ID `k` is the same in `self` and `other`.
    pub open spec fn same_except(&self, other: &Self, k: u64) -> bool {
        forall|j: u64| j != k ==> #[trigger] self.metadata_of(j) == other.metadata_of(j)
    }

    /// An empty store.
    pub fn new() -> (r: Self)
        ensures
            r.wf(),
            r.id_set().is_empty(),
            forall|k: u64| #[trigger] r.metadata_of(k) == empty_context_view(),
    {
        ConstraintMetadataStore { inner: ConstraintContextStore::new() }
    }

    pub fn name(&self, id: ID) -> (r: Option<&str>)
        ensures
            match r {
                Some(s) => self.metadata_of(id.raw()).label.name == Some(s@),
                None => self.metadata_of(id.raw()).label.name is None,
            },
    {
        self.inner.name(id)
    }

    pub fn subscripts(&self, id: ID) -> (r: &[i64])
        ensures
            r@ == self.metadata_of(id.raw()).label.subscripts,
    {
        self.inner.subscripts(id)
    }

    pub fn parameters(&self, id: ID) -> (r: &Parameters)
        requires
            self.wf(),
        ensures
            r@ == self.metadata_of(id.raw()).label.parameters,
    {
        self.inner.parameters(id)
    }

    pub fn description(&self, id: ID) -> (r: Option<&str>)
        ensures
            match r {
                Some(s) => self.metadata_of(id.raw()).label.description == Some(s@),
                None => self.metadata_of(id.raw()).label.description is None,
            },
    {
        self.inner.description(id)
    }

    pub fn provenance(&self, id: ID) -> (r: &[Provenance])
        ensures
            r@ == self.metadata_of(id.raw()).provenance,
    {
        self.inner.provenance(id)
    }

    /// The whole record of one ID, as an owned value.
    pub fn collect_for(&self, id: ID) -> (r: ConstraintMetadata)
        ensures
            r@ == self.metadata_of(id.raw()),
    {
        ConstraintMetadata::from_context(self.inner.collect_for(id))
    }

    pub fn set_name(&mut self, id: ID, name: String)
        requires
            old(self).wf(),
        ensures
            final(self).wf(),
            final(self).metadata_of(id.raw()) == (ContextView {
                label: LabelView { name: Some(name@), ..old(self).metadata_of(id.raw()).label },
                ..old(self).metadata_of(id.raw())
            }),
            final(self).same_except(old(self), id.raw()),
    {
        self.inner.set_name(id, name);
    }

    pub fn clear_name(&mut self, id: ID)
        requires
            old(self).wf(),
        ensures
            final(self).wf(),
            final(self).metadata_of(id.raw()) == (ContextView {
                label: LabelView { name: None, ..old(self).metadata_of(id.raw()).label },
                ..old(self).metadata_of(id.raw())
            }),
            final(self).same_except(old(self), id.raw()),
    {
        self.inner.clear_name(id);
    }

    /// Replaces the subscripts; an empty list clears them.
    pub fn set_subscripts(&mut self, id: ID, subscripts: Vec<i64>)
        requires
            old(self).wf(),
        ensures
            final(self).wf(),
            final(self).metadata_of(id.raw()) == (ContextView {
                label: LabelView { subscripts: subscripts@, ..old(self).metadata_of(id.raw()).label },
                ..old(self).metadata_of(id.raw())
            }),
            final(self).same_except(old(self), id.raw()),
    {
        self.inner.set_subscripts(id, subscripts);
    }

    pub fn push_subscript(&mut self, id: ID, value: i64)
        requires
            old(self).wf(),
        ensures
            final(self).wf(),
            final(self).metadata_of(id.raw()) == (ContextView {
                label: LabelView {
                    subscripts: old(self).metadata_of(id.raw()).label.subscripts.push(value),
                    ..old(self).metadata_of(id.raw()).label
                },
                ..old(self).metadata_of(id.raw())
            }),
            final(self).same_except(old(self), id.raw()),
    {
        self.inner.push_subscript(id, value);
    }

    pub fn extend_subscripts(&mut self, id: ID, values: Vec<i64>)
        requires
            old(self).wf(),
        ensures
            final(self).wf(),
            final(self).metadata_of(id.raw()) == (ContextView {
                label: LabelView {
                    subscripts: old(self).metadata_of(id.raw()).label.subscripts + values@,
                    ..old(self).metadata_of(id.raw()).label
                },
                ..old(self).metadata_of(id.raw())
            }),
            final(self).same_except(old(self), id.raw()),
    {
        self.inner.extend_subscripts(id, values);
    }

    /// Sets one parameter, replacing the value of an existing key.
    pub fn set_parameter(&mut self, id: ID, key: String, value: String)
        requires
            old(self).wf(),
        ensures
            final(self).wf(),
            final(self).metadata_of(id.raw()) == (ContextView {
                label: LabelView {
                    parameters: crate::label::param_assign(old(self).metadata_of(id.raw()).label.parameters, key@, value@),
                    ..old(self).metadata_of(id.raw()).label
                },
                ..old(self).metadata_of(id.raw())
            }),
            final(self).same_except(old(self), id.raw()),
    {
        self.inner.set_parameter(id, key, value);
    }

    /// Replaces the parameters; an empty set clears them.
    pub fn set_parameters(&mut self, id: ID, parameters: Parameters)
        requires
            old(self).wf(),
        ensures
            final(self).wf(),
            final(self).metadata_of(id.raw()) == (ContextView {
                label: LabelView { parameters: parameters@, ..old(self).metadata_of(id.raw()).label },
                ..old(self).metadata_of(id.raw())
            }),
            final(self).same_except(old(self), id.raw()),
    {
        self.inner.set_parameters(id, parameters);
    }

    pub fn set_description(&mut self, id: ID, description: String)
        requires
            old(self).wf(),
        ensures
            final(self).wf(),
            final(self).metadata_of(id.raw()) == (ContextView {
                label: LabelView { description: Some(description@), ..old(self).metadata_of(id.raw()).label },
                ..old(self).metadata_of(id.raw())
            }),
            final(self).same_except(old(self), id.raw()),
    {
        self.inner.set_description(id, description);
    }

    pub fn clear_description(&mut self, id: ID)
        requires
            old(self).wf(),
        ensures
            final(self).wf(),
            final(self).metadata_of(id.raw()) == (ContextView {
                label: LabelView { description: None, ..old(self).metadata_of(id.raw()).label },
                ..old(self).metadata_of(id.raw())
            }),
            final(self).same_except(old(self), id.raw()),
    {
        self.inner.clear_description(id);
    }

    /// Appends one step to the provenance chain.
    pub fn push_provenance(&mut self, id: ID, p: Provenance)
        requires
            old(self).wf(),
        ensures
            final(self).wf(),
            final(self).metadata_of(id.raw()) == (ContextView {
                provenance: old(self).metadata_of(id.raw()).provenance.push(p),
                ..old(self).metadata_of(id.raw())
            }),
            final(self).same_except(old(self), id.raw()),
    {
        self.inner.push_provenance(id, p);
    }

    /// Replaces the provenance chain; an empty chain clears it.
    pub fn set_provenance(&mut self, id: ID, p: Vec<Provenance>)
        requires
            old(self).wf(),
        ensures
            final(self).wf(),
            final(self).metadata_of(id.raw()) == (ContextView { provenance: p@, ..old(self).metadata_of(id.raw()) }),
            final(self).same_except(old(self), id.raw()),
    {
        self.inner.set_provenance(id, p);
    }

    /// Stores the whole record of one ID, replacing what was there; absent or
    /// empty fields are not stored.
    pub fn insert(&mut self, id: ID, metadata: ConstraintMetadata)
        requires
            old(self).wf(),
        ensures
            final(self).wf(),
            final(self).metadata_of(id.raw()) == metadata@,
            final(self).same_except(old(self), id.raw()),
            final(self).id_set().contains(id.raw()) <==> metadata@ != empty_context_view(),
            forall|j: u64| j != id.raw() ==> (#[trigger] final(self).id_set().contains(j) <==> old(self).id_set().contains(j)),
    {
        self.inner.insert(id, metadata.into_context());
    }

    /// Removes and returns the whole record of one ID.
    pub fn remove(&mut self, id: ID) -> (r: ConstraintMetadata)
        requires
            old(self).wf(),
        ensures
            final(self).wf(),
            r@ == old(self).metadata_of(id.raw()),
            final(self).metadata_of(id.raw()) == empty_context_view(),
            final(self).same_except(old(self), id.raw()),
            final(self).id_set() == old(self).id_set().remove(id.raw()),
    {
        ConstraintMetadata::from_context(self.inner.remove(id))
    }

    /// Whether any field is recorded for the ID.
    pub fn contains(&self, id: ID) -> (r: bool)
        ensures
            r == self.id_set().contains(id.raw()),
    {
        self.inner.contains(id)
    }
}

} // verus!
