//! Constraint-level vocabulary: equality kinds, transformation provenance,
//! removal reasons and the ID-keyed context and metadata stores.
use crate::ids::{IDType, IndicatorConstraintID, OneHotConstraintID, Sos1ConstraintID};
use crate::label::{
    empty_label_view, LabelView, ModelingLabel, ModelingLabelStore, Parameters, ParamPairs,
};
use std::collections::BTreeMap;
use vstd::prelude::*;

verus! {

broadcast use vstd::std_specs::btree::group_btree_axioms;

/// Constraint equality.
#[derive(Clone, Copy, PartialEq, Eq, Structural, Hash, Debug)]
pub enum Equality {
    /// $f(x) = 0$ type constraint.
    EqualToZero,
    /// $f(x) \leq 0$ type constraint.
    LessThanOrEqualToZero,
}

/// Errors when reading a wire-format equality value.
#[derive(Clone, Copy, PartialEq, Eq, Structural, Debug)]
pub enum EqualityParseError {
    /// The value 0, `EQUALITY_UNSPECIFIED`.
    Unspecified,
    /// A value that names no equality at all.
    UnknownEnumValue(i32),
}

/// The wire number of an equality (`EQUAL_TO_ZERO = 1`, `LESS_THAN_OR_EQUAL_TO_ZERO = 2`).
pub open spec fn equality_number(e: Equality) -> i32 {
    match e {
        Equality::EqualToZero => 1,
        Equality::LessThanOrEqualToZero => 2,
    }
}

impl Equality {
    /// Reads the wire number of an equality.
    pub fn parse(value: i32) -> (r: Result<Equality, EqualityParseError>)
        ensures
            match r {
                Ok(e) => equality_number(e) == value,
                Err(EqualityParseError::Unspecified) => value == 0,
                Err(EqualityParseError::UnknownEnumValue(v)) => v == value && value != 0 && value != 1
                    && value != 2,
            },
    {
        if value == 1 {
            Ok(Equality::EqualToZero)
        } else if value == 2 {
            Ok(Equality::LessThanOrEqualToZero)
        } else if value == 0 {
            Err(EqualityParseError::Unspecified)
        } else {
            Err(EqualityParseError::UnknownEnumValue(value))
        }
    }

    /// The wire number of the equality.
    pub fn to_number(self) -> (r: i32)
        ensures
            r == equality_number(self),
    {
        match self {
            Equality::EqualToZero => 1,
            Equality::LessThanOrEqualToZero => 2,
        }
    }
}

/// Different equalities have different wire numbers, none of them 0, so
/// reading the number of an equality gives that equality back.
pub proof fn lemma_equality_number_round_trip(a: Equality, b: Equality)
    ensures
        equality_number(a) == equality_number(b) ==> a == b,
        equality_number(a) == 1 || equality_number(a) == 2,
{
}

/// One step in a constraint's transformation history: the identity of the
/// constraint that existed just before the transformation.
#[derive(Clone, Copy, PartialEq, Eq, Structural, Debug)]
pub enum Provenance {
    IndicatorConstraint(IndicatorConstraintID),
    OneHotConstraint(OneHotConstraintID),
    Sos1Constraint(Sos1ConstraintID),
}

/// Wire-format provenance: which kind of source (1 indicator, 2 one-hot,
/// 3 SOS1) with its raw ID; `None` when the `source` field is missing.
pub open spec fn provenance_from_source(source: Option<(u8, u64)>) -> Option<Provenance> {
    match source {
        Some((1, id)) => Some(Provenance::IndicatorConstraint(IndicatorConstraintID(id))),
        Some((2, id)) => Some(Provenance::OneHotConstraint(OneHotConstraintID(id))),
        Some((3, id)) => Some(Provenance::Sos1Constraint(Sos1ConstraintID(id))),
        _ => None,
    }
}

impl Provenance {
    /// Reads a wire-format provenance: the kind of source (1 indicator,
    /// 2 one-hot, 3 SOS1) and its raw ID. A missing or unknown source is an
    /// error (`None`).
    pub fn parse(source: Option<(u8, u64)>) -> (r: Option<Provenance>)
        ensures
            r == provenance_from_source(source),
    {
        match source {
            Some((1, id)) => Some(Provenance::IndicatorConstraint(IndicatorConstraintID(id))),
            Some((2, id)) => Some(Provenance::OneHotConstraint(OneHotConstraintID(id))),
            Some((3, id)) => Some(Provenance::Sos1Constraint(Sos1ConstraintID(id))),
            _ => None,
        }
    }

    /// The wire-format source of the provenance.
    pub fn to_source(self) -> (r: (u8, u64))
        ensures
            provenance_from_source(Some(r)) == Some(self),
    {
        match self {
            Provenance::IndicatorConstraint(id) => (1, id.0),
            Provenance::OneHotConstraint(id) => (2, id.0),
            Provenance::Sos1Constraint(id) => (3, id.0),
        }
    }
}

/// Element-wise copy of a provenance chain.
pub fn copy_provenance(v: &Vec<Provenance>) -> (r: Vec<Provenance>)
    ensures
        r@ == v@,
{
    let mut out: Vec<Provenance> = Vec::new();
    let mut i: usize = 0;
    while i < v.len()
        invariant
            i <= v@.len(),
            out@ == v@.subrange(0, i as int),
        decreases v@.len() - i,
    {
        out.push(v[i]);
        i = i + 1;
        assert(out@ =~= v@.subrange(0, i as int));
    }
    assert(v@.subrange(0, v@.len() as int) =~= v@);
    out
}

/// Plain-value picture of a [`ConstraintContext`].
pub struct ContextView {
    pub label: LabelView,
    pub provenance: Seq<Provenance>,
}

pub open spec fn empty_context_view() -> ContextView {
    ContextView { label: empty_label_view(), provenance: Seq::empty() }
}

/// Constraint context outside the intrinsic mathematical constraint: its
/// modeling label and its chain of transformations (oldest first).
#[derive(Clone, Debug, PartialEq)]
pub struct ConstraintContext {
    pub label: ModelingLabel,
    pub provenance: Vec<Provenance>,
}

impl View for ConstraintContext {
    type V = ContextView;

    open spec fn view(&self) -> ContextView {
        ContextView { label: self.label@, provenance: self.provenance@ }
    }
}

impl Default for ConstraintContext {
    fn default() -> (r: Self)
        ensures
            r@ == empty_context_view(),
    {
        ConstraintContext { label: ModelingLabel::new(), provenance: Vec::new() }
    }
}

/// Reason why a constraint was removed or relaxed: a dotted path naming the
/// code that removed it, and free-form parameters for debugging.
#[derive(Clone, Debug, PartialEq)]
pub struct RemovedReason {
    pub reason: String,
    pub parameters: Parameters,
}

impl View for RemovedReason {
    type V = (Seq<char>, ParamPairs);

    open spec fn view(&self) -> (Seq<char>, ParamPairs) {
        (self.reason@, self.parameters@)
    }
}

impl RemovedReason {
    /// A reason with no parameters.
    pub fn new(reason: String) -> (r: Self)
        ensures
            r@ == (reason@, Seq::<(Seq<char>, Seq<char>)>::empty()),
    {
        RemovedReason { reason, parameters: Parameters::new() }
    }

    /// Copies the reason.
    pub fn duplicate(&self) -> (r: Self)
        ensures
            r@ == self@,
    {
        RemovedReason { reason: self.reason.clone(), parameters: self.parameters.clone() }
    }
}

/// ID-keyed storage for constraint labels and transformation provenance.
///
/// Labels are kept in a [`ModelingLabelStore`]; provenance chains in a separate
/// sparse map (empty chains are never stored).
pub struct ConstraintContextStore<ID> {
    labels: ModelingLabelStore<ID>,
    provenance: BTreeMap<u64, Vec<Provenance>>,
}

impl<ID: IDType> ConstraintContextStore<ID> {
    pub closed spec fn label_store(&self) -> ModelingLabelStore<ID> {
        self.labels
    }

    pub closed spec fn provenance_map(&self) -> Map<u64, Seq<Provenance>> {
        self.provenance@.map_values(|v: Vec<Provenance>| v@)
    }

    pub closed spec fn wf(&self) -> bool {
        &&& self.labels.wf()
        &&& forall|k: u64| #[trigger] self.provenance@.contains_key(k) ==> self.provenance@[k]@.len() > 0
    }

    /// The IDs that have a label field or a provenance chain recorded.
    pub open spec fn id_set(&self) -> Set<u64> {
        self.label_store().id_set() + self.provenance_map().dom()
    }

    /// The context recorded for raw ID `k`, with absent fields read as neutral.
    pub open spec fn context_of(&self, k: u64) -> ContextView {
        ContextView {
            label: self.label_store().label_of(k),
            provenance: if self.provenance_map().contains_key(k) {
                self.provenance_map()[k]
            } else {
                Seq::empty()
            },
        }
    }

    /// Every context other than the one of raw ID `k` is the same in `self` and `other`.
    pub open spec fn same_except(&self, other: &Self, k: u64) -> bool {
        forall|j: u64| j != k ==> #[trigger] self.context_of(j) == other.context_of(j)
    }

    /// An empty store.
    pub fn new() -> (r: Self)
        ensures
            r.wf(),
            r.id_set().is_empty(),
            forall|k: u64| #[trigger] r.context_of(k) == empty_context_view(),
    {
        let r = ConstraintContextStore { labels: ModelingLabelStore::new(), provenance: BTreeMap::new() };
        assert(r.id_set() =~= Set::empty());
        assert forall|k: u64| #[trigger] r.context_of(k) == empty_context_view() by {
            assert(r.label_store().label_of(k) == empty_label_view());
        }
        r
    }

    /// The label store.
    pub fn labels(&self) -> (r: &ModelingLabelStore<ID>)
        ensures
            *r == self.label_store(),
    {
        &self.labels
    }

    pub fn name(&self, id: ID) -> (r: Option<&str>)
        ensures
            match r {
                Some(s) => self.context_of(id.raw()).label.name == Some(s@),
                None => self.context_of(id.raw()).label.name is None,
            },
    {
        self.labels.name(id)
    }

    pub fn subscripts(&self, id: ID) -> (r: &[i64])
        ensures
            r@ == self.context_of(id.raw()).label.subscripts,
    {
        self.labels.subscripts(id)
    }

    pub fn parameters(&self, id: ID) -> (r: &Parameters)
        requires
            self.wf(),
        ensures
            r@ == self.context_of(id.raw()).label.parameters,
    {
        self.labels.parameters(id)
    }

    pub fn description(&self, id: ID) -> (r: Option<&str>)
        ensures
            match r {
                Some(s) => self.context_of(id.raw()).label.description == Some(s@),
                None => self.context_of(id.raw()).label.description is None,
            },
    {
        self.labels.description(id)
    }

    pub fn provenance(&self, id: ID) -> (r: &[Provenance])
        ensures
            r@ == self.context_of(id.raw()).provenance,
    {
        match self.provenance.get(&id.into_inner()) {
            Some(v) => v.as_slice(),
            None => &[],
        }
    }

    /// Reconstructs the full context of one ID as an owned value.
    pub fn collect_for(&self, id: ID) -> (r: ConstraintContext)
        ensures
            r@ == self.context_of(id.raw()),
    {
        let provenance = match self.provenance.get(&id.into_inner()) {
            Some(v) => copy_provenance(v),
            None => Vec::new(),
        };
        let r = ConstraintContext { label: self.labels.collect_for(id), provenance };
        assert(r@.provenance =~= self.context_of(id.raw()).provenance);
        r
    }

    pub fn set_name(&mut self, id: ID, name: String)
        requires
            old(self).wf(),
        ensures
            final(self).wf(),
            final(self).context_of(id.raw()).label == (LabelView {
                name: Some(name@),
                ..old(self).context_of(id.raw()).label
            }),
            final(self).context_of(id.raw()).provenance == old(self).context_of(id.raw()).provenance,
            final(self).same_except(old(self), id.raw()),
    {
        self.labels.set_name(id, name);
    }

    pub fn clear_name(&mut self, id: ID)
        requires
            old(self).wf(),
        ensures
            final(self).wf(),
            final(self).context_of(id.raw()).label == (LabelView {
                name: None,
                ..old(self).context_of(id.raw()).label
            }),
            final(self).context_of(id.raw()).provenance == old(self).context_of(id.raw()).provenance,
            final(self).same_except(old(self), id.raw()),
    {
        self.labels.clear_name(id);
    }

    pub fn set_subscripts(&mut self, id: ID, subscripts: Vec<i64>)
        requires
            old(self).wf(),
        ensures
            final(self).wf(),
            final(self).context_of(id.raw()).label == (LabelView {
                subscripts: subscripts@,
                ..old(self).context_of(id.raw()).label
            }),
            final(self).context_of(id.raw()).provenance == old(self).context_of(id.raw()).provenance,
            final(self).same_except(old(self), id.raw()),
    {
        self.labels.set_subscripts(id, subscripts);
    }

    pub fn push_subscript(&mut self, id: ID, value: i64)
        requires
            old(self).wf(),
        ensures
            final(self).wf(),
            final(self).context_of(id.raw()).label == (LabelView {
                subscripts: old(self).context_of(id.raw()).label.subscripts.push(value),
                ..old(self).context_of(id.raw()).label
            }),
            final(self).context_of(id.raw()).provenance == old(self).context_of(id.raw()).provenance,
            final(self).same_except(old(self), id.raw()),
    {
        self.labels.push_subscript(id, value);
    }

    pub fn extend_subscripts(&mut self, id: ID, values: Vec<i64>)
        requires
            old(self).wf(),
        ensures
            final(self).wf(),
            final(self).context_of(id.raw()).label == (LabelView {
                subscripts: old(self).context_of(id.raw()).label.subscripts + values@,
                ..old(self).context_of(id.raw()).label
            }),
            final(self).context_of(id.raw()).provenance == old(self).context_of(id.raw()).provenance,
            final(self).same_except(old(self), id.raw()),
    {
        self.labels.extend_subscripts(id, values);
    }

    pub fn set_parameter(&mut self, id: ID, key: String, value: String)
        requires
            old(self).wf(),
        ensures
            final(self).wf(),
            final(self).context_of(id.raw()).label == (LabelView {
                parameters: crate::label::param_assign(
                    old(self).context_of(id.raw()).label.parameters,
                    key@,
                    value@,
                ),
                ..old(self).context_of(id.raw()).label
            }),
            final(self).context_of(id.raw()).provenance == old(self).context_of(id.raw()).provenance,
            final(self).same_except(old(self), id.raw()),
    {
        self.labels.set_parameter(id, key, value);
    }

    pub fn set_parameters(&mut self, id: ID, parameters: Parameters)
        requires
            old(self).wf(),
        ensures
            final(self).wf(),
            final(self).context_of(id.raw()).label == (LabelView {
                parameters: parameters@,
                ..old(self).context_of(id.raw()).label
            }),
            final(self).context_of(id.raw()).provenance == old(self).context_of(id.raw()).provenance,
            final(self).same_except(old(self), id.raw()),
    {
        self.labels.set_parameters(id, parameters);
    }

    pub fn set_description(&mut self, id: ID, description: String)
        requires
            old(self).wf(),
        ensures
            final(self).wf(),
            final(self).context_of(id.raw()).label == (LabelView {
                description: Some(description@),
                ..old(self).context_of(id.raw()).label
            }),
            final(self).context_of(id.raw()).provenance == old(self).context_of(id.raw()).provenance,
            final(self).same_except(old(self), id.raw()),
    {
        self.labels.set_description(id, description);
    }

    pub fn clear_description(&mut self, id: ID)
        requires
            old(self).wf(),
        ensures
            final(self).wf(),
            final(self).context_of(id.raw()).label == (LabelView {
                description: None,
                ..old(self).context_of(id.raw()).label
            }),
            final(self).context_of(id.raw()).provenance == old(self).context_of(id.raw()).provenance,
            final(self).same_except(old(self), id.raw()),
    {
        self.labels.clear_description(id);
    }

    /// Appends one step to the provenance chain of the ID.
    pub fn push_provenance(&mut self, id: ID, p: Provenance)
        requires
            old(self).wf(),
        ensures
            final(self).wf(),
            final(self).context_of(id.raw()) == (ContextView {
                provenance: old(self).context_of(id.raw()).provenance.push(p),
                ..old(self).context_of(id.raw())
            }),
            final(self).same_except(old(self), id.raw()),
    {
        let k = id.into_inner();
        let mut chain = match self.provenance.get(&k) {
            Some(v) => copy_provenance(v),
            None => Vec::new(),
        };
        chain.push(p);
        self.provenance.insert(k, chain);
        assert(self.context_of(k).provenance =~= old(self).context_of(k).provenance.push(p));
    }

    /// Replaces the provenance chain; an empty chain clears it.
    pub fn set_provenance(&mut self, id: ID, p: Vec<Provenance>)
        requires
            old(self).wf(),
        ensures
            final(self).wf(),
            final(self).context_of(id.raw()) == (ContextView {
                provenance: p@,
                ..old(self).context_of(id.raw())
            }),
            final(self).same_except(old(self), id.raw()),
            final(self).label_store() == old(self).label_store(),
            final(self).provenance_map().contains_key(id.raw()) <==> p@.len() > 0,
            forall|j: u64| j != id.raw() ==> (#[trigger] final(self).provenance_map().contains_key(j)
                <==> old(self).provenance_map().contains_key(j)),
    {
        let k = id.into_inner();
        if p.len() == 0 {
            self.provenance.remove(&k);
            assert(p@ =~= Seq::<Provenance>::empty());
        } else {
            self.provenance.insert(k, p);
        }
    }

    /// Stores the label and provenance of one ID, replacing what was there;
    /// empty fields are not stored.
    pub fn insert(&mut self, id: ID, context: ConstraintContext)
        requires
            old(self).wf(),
        ensures
            final(self).wf(),
            final(self).context_of(id.raw()) == context@,
            final(self).same_except(old(self), id.raw()),
            final(self).id_set().contains(id.raw()) <==> context@ != empty_context_view(),
            forall|j: u64| j != id.raw() ==> (#[trigger] final(self).id_set().contains(j) <==> old(self).id_set().contains(j)),
    {
        let ConstraintContext { label, provenance } = context;
        self.labels.insert(id, label);
        self.set_provenance(id, provenance);
        assert(self.id_set().contains(id.raw()) <==> context@ != empty_context_view()) by {
            if context@ == empty_context_view() {
                assert(!self.label_store().id_set().contains(id.raw()));
            }
            if self.id_set().contains(id.raw()) {
            } else {
                assert(context@.label == empty_label_view());
                assert(context@.provenance =~= Seq::<Provenance>::empty());
            }
        }
    }

    /// Removes and returns the label and provenance of one ID.
    pub fn remove(&mut self, id: ID) -> (r: ConstraintContext)
        requires
            old(self).wf(),
        ensures
            final(self).wf(),
            r@ == old(self).context_of(id.raw()),
            final(self).context_of(id.raw()) == empty_context_view(),
            final(self).same_except(old(self), id.raw()),
            final(self).id_set() == old(self).id_set().remove(id.raw()),
    {
        let k = id.into_inner();
        let label = self.labels.remove(id);
        let provenance = match self.provenance.remove(&k) {
            Some(v) => v,
            None => Vec::new(),
        };
        let r = ConstraintContext { label, provenance };
        assert(self.context_of(k).provenance =~= Seq::<Provenance>::empty());
        assert(r@.provenance =~= old(self).context_of(k).provenance);
        assert(self.id_set() =~= old(self).id_set().remove(k));
        r
    }

    /// Whether anything is recorded for the ID.
    pub fn contains(&self, id: ID) -> (r: bool)
        ensures
            r == self.id_set().contains(id.raw()),
    {
        self.labels.contains(id) || self.provenance.contains_key(&id.into_inner())
    }

    /// The raw IDs with anything recorded, in increasing order.
    pub fn raw_ids(&self) -> (r: Vec<u64>)
        ensures
            forall|k: u64| r@.contains(k) <==> self.id_set().contains(k),
            forall|i: int, j: int| 0 <= i < j < r@.len() ==> r@[i] < r@[j],
    {
        let mut all: BTreeMap<u64, ()> = BTreeMap::new();
        crate::label::add_keys(&mut all, &self.labels.raw_ids());
        crate::label::add_keys(&mut all, &crate::btree_keys::keys_of(&self.provenance));
        crate::btree_keys::keys_of(&all)
    }

    /// The IDs with anything recorded, in increasing order of their raw value.
    pub fn ids(&self) -> (r: Vec<ID>)
        ensures
            r@.len() == self.id_set().len(),
            forall|k: u64| self.id_set().contains(k) <==> exists|i: int| 0 <= i < r@.len() && (#[trigger] r@[i]).raw() == k,
            forall|i: int, j: int| 0 <= i < j < r@.len() ==> r@[i].raw() < r@[j].raw(),
    {
        let raw = self.raw_ids();
        let mut out: Vec<ID> = Vec::new();
        let mut i: usize = 0;
        while i < raw.len()
            invariant
                i <= raw@.len(),
                out@.len() == i,
                forall|j: int| 0 <= j < i ==> (#[trigger] out@[j]).raw() == raw@[j],
            decreases raw@.len() - i,
        {
            out.push(ID::from_raw(raw[i]));
            i = i + 1;
        }
        proof {
            assert forall|k: u64| self.id_set().contains(k) implies exists|i: int| 0 <= i < out@.len() && (#[trigger] out@[i]).raw() == k by {
                assert(raw@.contains(k));
                let i = choose|i: int| 0 <= i < raw@.len() && raw@[i] == k;
                assert(out@[i].raw() == k);
            }
            assert forall|k: u64| (exists|i: int| 0 <= i < out@.len() && (#[trigger] out@[i]).raw() == k) implies self.id_set().contains(k) by {
                let i = choose|i: int| 0 <= i < out@.len() && (#[trigger] out@[i]).raw() == k;
                assert(raw@[i] == k);
                assert(raw@.contains(k));
            }
            assert(raw@.no_duplicates());
            assert(raw@.to_set() =~= self.id_set());
            raw@.unique_seq_to_set();
        }
        out
    }
}

} // verus!
