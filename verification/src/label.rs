//! Modeling labels (name, subscripts, parameters, description) and their
//! ID-keyed sparse storage.
use crate::btree_keys::keys_of;
use crate::ids::IDType;
use std::collections::BTreeMap;
use std::marker::PhantomData;
use crate::media_types::same_text;
use vstd::prelude::*;

verus! {

broadcast use vstd::std_specs::btree::group_btree_axioms;

/// Text key/value pairs as plain character sequences.
pub type ParamPairs = Seq<(Seq<char>, Seq<char>)>;

/// Whether every key occurs at most once.
pub open spec fn keys_unique(ps: ParamPairs) -> bool {
    forall|i: int, j: int| 0 <= i < ps.len() && 0 <= j < ps.len() && i != j ==> ps[i].0 != ps[j].0
}

/// The value stored under `k`, if any.
pub open spec fn param_lookup(ps: ParamPairs, k: Seq<char>) -> Option<Seq<char>> {
    if exists|i: int| 0 <= i < ps.len() && ps[i].0 == k {
        Some(ps[choose|i: int| 0 <= i < ps.len() && ps[i].0 == k].1)
    } else {
        None
    }
}

/// `ps` with `k` mapped to `v`: an existing entry for `k` is overwritten in
/// place, otherwise the pair is appended.
pub open spec fn param_assign(ps: ParamPairs, k: Seq<char>, v: Seq<char>) -> ParamPairs {
    if exists|i: int| 0 <= i < ps.len() && ps[i].0 == k {
        ps.update(choose|i: int| 0 <= i < ps.len() && ps[i].0 == k, (k, v))
    } else {
        ps.push((k, v))
    }
}

/// The parameters as a map from key to value; the order of the entries
/// plays no part in it.
pub open spec fn param_map(ps: ParamPairs) -> Map<Seq<char>, Seq<char>> {
    Map::new(|k: Seq<char>| param_lookup(ps, k) is Some, |k: Seq<char>| param_lookup(ps, k)->0)
}

/// Where keys are unique, the key of an entry looks up that entry's value.
proof fn lemma_lookup_at(ps: ParamPairs, i: int)
    requires
        keys_unique(ps),
        0 <= i < ps.len(),
    ensures
        param_lookup(ps, ps[i].0) == Some(ps[i].1),
{
    let c = choose|j: int| 0 <= j < ps.len() && ps[j].0 == ps[i].0;
    assert(0 <= c < ps.len() && ps[c].0 == ps[i].0);
    assert(c == i);
}

/// Free-form string parameters attached to a label. Each key occurs once;
/// entries keep the order in which their keys were first set, and two
/// parameter sets are equal when they map the same keys to the same values,
/// in whatever order.
#[derive(Debug)]
pub struct Parameters {
    entries: Vec<(String, String)>,
}

impl View for Parameters {
    type V = ParamPairs;

    closed spec fn view(&self) -> ParamPairs {
        self.entries@.map_values(|p: (String, String)| (p.0@, p.1@))
    }
}

impl Clone for Parameters {
    fn clone(&self) -> (r: Self)
        ensures
            r@ == self@,
    {
        proof {
            use_type_invariant(self);
        }
        let mut entries: Vec<(String, String)> = Vec::new();
        let mut i: usize = 0;
        while i < self.entries.len()
            invariant
                i <= self.entries@.len(),
                entries@.len() == i,
                forall|j: int| 0 <= j < i ==> (#[trigger] entries@[j]).0@ == self.entries@[j].0@
                    && entries@[j].1@ == self.entries@[j].1@,
            decreases self.entries@.len() - i,
        {
            let k = self.entries[i].0.clone();
            let v = self.entries[i].1.clone();
            entries.push((k, v));
            i = i + 1;
        }
        assert(entries@.map_values(|p: (String, String)| (p.0@, p.1@)) =~= self@);
        let r = Parameters { entries };
        r
    }
}

impl Parameters {
    /// Whether every key of `self` is set to the same value in `other`.
    fn contained_in(&self, other: &Self) -> (r: bool)
        ensures
            r == (forall|k: Seq<char>| #[trigger] param_lookup(self@, k) is Some ==> param_lookup(other@, k)
                == param_lookup(self@, k)),
    {
        proof {
            use_type_invariant(self);
        }
        let mut i: usize = 0;
        while i < self.entries.len()
            invariant
                i <= self@.len(),
                self.entries@.len() == self@.len(),
                keys_unique(self@),
                forall|j: int| 0 <= j < i ==> param_lookup(other@, #[trigger] self@[j].0) == Some(self@[j].1),
            decreases self@.len() - i,
        {
            let key = self.entries[i].0.as_str();
            let value = self.entries[i].1.as_str();
            proof {
                assert(self@[i as int] == (key@, value@));
                lemma_lookup_at(self@, i as int);
            }
            match other.get(key) {
                Some(v) => {
                    if !same_text(v, value) {
                        return false;
                    }
                },
                None => {
                    return false;
                },
            }
            i = i + 1;
        }
        proof {
            assert forall|k: Seq<char>| #[trigger] param_lookup(self@, k) is Some implies param_lookup(other@, k)
                == param_lookup(self@, k) by {
                let c = choose|j: int| 0 <= j < self@.len() && self@[j].0 == k;
                lemma_lookup_at(self@, c);
                assert(param_lookup(other@, self@[c].0) == Some(self@[c].1));
            }
        }
        true
    }

    #[verifier::type_invariant]
    closed spec fn inv(&self) -> bool {
        keys_unique(self@)
    }

    /// An empty parameter set.
    pub fn new() -> (r: Self)
        ensures
            r@ == Seq::<(Seq<char>, Seq<char>)>::empty(),
    {
        let r = Parameters { entries: Vec::new() };
        assert(r@ =~= Seq::<(Seq<char>, Seq<char>)>::empty());
        r
    }

    pub fn len(&self) -> (r: usize)
        ensures
            r == self@.len(),
    {
        self.entries.len()
    }

    pub fn is_empty(&self) -> (r: bool)
        ensures
            r == (self@.len() == 0),
    {
        self.entries.len() == 0
    }

    /// The value stored under `key`, if any.
    pub fn get(&self, key: &str) -> (r: Option<&str>)
        ensures
            match r {
                Some(v) => param_lookup(self@, key@) == Some(v@),
                None => param_lookup(self@, key@) is None,
            },
    {
        proof {
            use_type_invariant(self);
        }
        let wanted: String = key.to_owned();
        let mut i: usize = 0;
        while i < self.entries.len()
            invariant
                i <= self.entries@.len(),
                wanted@ == key@,
                keys_unique(self@),
                forall|j: int| 0 <= j < i ==> self@[j].0 != key@,
            decreases self.entries@.len() - i,
        {
            if self.entries[i].0 == wanted {
                proof {
                    assert(self@[i as int].0 == key@);
                    let c = choose|j: int| 0 <= j < self@.len() && self@[j].0 == key@;
                    assert(c == i);
                }
                return Some(self.entries[i].1.as_str());
            }
            i = i + 1;
        }
        None
    }

    /// Sets `key` to `value`, overwriting an existing entry for `key` in place.
    pub fn insert(&mut self, key: String, value: String)
        ensures
            final(self)@ == param_assign(old(self)@, key@, value@),
    {
        proof {
            use_type_invariant(&*self);
        }
        let mut entries: Vec<(String, String)> = Vec::new();
        std::mem::swap(&mut entries, &mut self.entries);
        let ghost before = entries@.map_values(|p: (String, String)| (p.0@, p.1@));
        assert(before == old(self)@);
        let mut i: usize = 0;
        while i < entries.len()
            invariant
                i <= entries@.len(),
                entries@.map_values(|p: (String, String)| (p.0@, p.1@)) == before,
                before == old(self)@,
                keys_unique(before),
                forall|j: int| 0 <= j < i ==> before[j].0 != key@,
            decreases entries@.len() - i,
        {
            if entries[i].0 == key {
                proof {
                    assert(before[i as int].0 == key@);
                    let c = choose|j: int| 0 <= j < before.len() && before[j].0 == key@;
                    assert(c == i);
                    assert(param_assign(before, key@, value@) == before.update(i as int, (key@, value@)));
                }
                entries.set(i, (key, value));
                let ghost after = entries@.map_values(|p: (String, String)| (p.0@, p.1@));
                assert(after =~= before.update(i as int, (key@, value@)));
                assert(keys_unique(after));
                self.entries = entries;
                assert(self@ == after);
                return;
            }
            i = i + 1;
        }
        entries.push((key, value));
        let ghost after = entries@.map_values(|p: (String, String)| (p.0@, p.1@));
        assert(after =~= before.push((key@, value@)));
        assert(keys_unique(after));
        self.entries = entries;
    }
}

} // verus!

verus! {

impl PartialEq for Parameters {
    fn eq(&self, other: &Self) -> (r: bool) {
        let r = self.contained_in(other) && other.contained_in(self);
        proof {
            if r {
                assert(param_map(self@) =~= param_map(other@)) by {
                    assert forall|k: Seq<char>| param_map(self@).contains_key(k) implies param_map(
                        other@,
                    ).contains_key(k) && param_map(self@)[k] == param_map(other@)[k] by {
                        assert(param_lookup(self@, k) is Some);
                    }
                    assert forall|k: Seq<char>| param_map(other@).contains_key(k) implies param_map(
                        self@,
                    ).contains_key(k) by {
                        assert(param_lookup(other@, k) is Some);
                    }
                }
            } else if param_map(self@) == param_map(other@) {
                assert forall|k: Seq<char>| #[trigger] param_lookup(self@, k) is Some implies param_lookup(other@, k)
                    == param_lookup(self@, k) by {
                    assert(param_map(self@).contains_key(k));
                    assert(param_map(other@).contains_key(k));
                    assert(param_map(self@)[k] == param_map(other@)[k]);
                    assert(param_lookup(other@, k) is Some);
                }
                assert forall|k: Seq<char>| #[trigger] param_lookup(other@, k) is Some implies param_lookup(self@, k)
                    == param_lookup(other@, k) by {
                    assert(param_map(other@).contains_key(k));
                    assert(param_map(self@).contains_key(k));
                    assert(param_map(self@)[k] == param_map(other@)[k]);
                    assert(param_lookup(self@, k) is Some);
                }
            }
        }
        r
    }
}

impl vstd::std_specs::cmp::PartialEqSpecImpl for Parameters {
    open spec fn obeys_eq_spec() -> bool {
        true
    }

    open spec fn eq_spec(&self, other: &Self) -> bool {
        param_map(self@) == param_map(other@)
    }
}

/// Plain-value picture of a [`ModelingLabel`].
pub struct LabelView {
    pub name: Option<Seq<char>>,
    pub subscripts: Seq<i64>,
    pub parameters: ParamPairs,
    pub description: Option<Seq<char>>,
}

/// The label with no field set.
pub open spec fn empty_label_view() -> LabelView {
    LabelView {
        name: None,
        subscripts: Seq::empty(),
        parameters: Seq::empty(),
        description: None,
    }
}

pub open spec fn opt_string_view(o: Option<String>) -> Option<Seq<char>> {
    match o {
        Some(s) => Some(s@),
        None => None,
    }
}

/// Human-facing description of a modeled entity: the name and subscripts of the
/// family it belongs to, free-form parameters and a description.
#[derive(Clone, Debug, PartialEq)]
pub struct ModelingLabel {
    pub name: Option<String>,
    pub subscripts: Vec<i64>,
    pub parameters: Parameters,
    pub description: Option<String>,
}

impl View for ModelingLabel {
    type V = LabelView;

    open spec fn view(&self) -> LabelView {
        LabelView {
            name: opt_string_view(self.name),
            subscripts: self.subscripts@,
            parameters: self.parameters@,
            description: opt_string_view(self.description),
        }
    }
}

impl ModelingLabel {
    /// The label with no field set.
    pub fn new() -> (r: Self)
        ensures
            r@ == empty_label_view(),
    {
        ModelingLabel {
            name: None,
            subscripts: Vec::new(),
            parameters: Parameters::new(),
            description: None,
        }
    }

    /// Copies the label, field by field.
    pub fn duplicate(&self) -> (r: Self)
        ensures
            r@ == self@,
    {
        let name = match &self.name {
            Some(n) => Some(n.clone()),
            None => None,
        };
        let description = match &self.description {
            Some(d) => Some(d.clone()),
            None => None,
        };
        ModelingLabel {
            name,
            subscripts: copy_i64s(&self.subscripts),
            parameters: self.parameters.clone(),
            description,
        }
    }
}

impl Default for ModelingLabel {
    fn default() -> (r: Self)
        ensures
            r@ == empty_label_view(),
    {
        ModelingLabel::new()
    }
}

/// Element-wise copy of a list of integers.
pub fn copy_i64s(v: &Vec<i64>) -> (r: Vec<i64>)
    ensures
        r@ == v@,
{
    let mut out: Vec<i64> = Vec::new();
    let mut i: usize = 0;
    while i < v.len()
        invariant
            i <= v@.len(),
            out@ == v@.subrange(0, i as int),
        decreases v@.len() - i,
    {
        out.push(v[i]);
        i = i + 1;
        assert(out@ =~= v@.subrange(0, i as int));
    }
    assert(v@.subrange(0, v@.len() as int) =~= v@);
    out
}

/// Sparse, ID-keyed storage of modeling labels, one map per label field.
///
/// An ID absent from a field map reads as the neutral value of that field
/// (no name, no subscripts, no parameters, no description); empty subscripts and
/// parameters are never stored.
pub struct ModelingLabelStore<ID> {
    name: BTreeMap<u64, String>,
    subscripts: BTreeMap<u64, Vec<i64>>,
    parameters: BTreeMap<u64, Parameters>,
    description: BTreeMap<u64, String>,
    no_parameters: Parameters,
    id_type: PhantomData<ID>,
}

impl<ID: IDType> ModelingLabelStore<ID> {
    pub closed spec fn names(&self) -> Map<u64, Seq<char>> {
        self.name@.map_values(|s: String| s@)
    }

    pub closed spec fn subscript_map(&self) -> Map<u64, Seq<i64>> {
        self.subscripts@.map_values(|v: Vec<i64>| v@)
    }

    pub closed spec fn parameter_map(&self) -> Map<u64, ParamPairs> {
        self.parameters@.map_values(|p: Parameters| p@)
    }

    pub closed spec fn descriptions(&self) -> Map<u64, Seq<char>> {
        self.description@.map_values(|s: String| s@)
    }

    /// Internal consistency: stored subscripts and parameters are non-empty.
    pub closed spec fn wf(&self) -> bool {
        &&& forall|k: u64| #[trigger] self.subscripts@.contains_key(k) ==> self.subscripts@[k]@.len() > 0
        &&& forall|k: u64| #[trigger] self.parameters@.contains_key(k) ==> self.parameters@[k]@.len() > 0
        &&& self.no_parameters@.len() == 0
    }

    /// The IDs that have at least one label field set.
    pub open spec fn id_set(&self) -> Set<u64> {
        self.names().dom() + self.subscript_map().dom() + self.parameter_map().dom()
            + self.descriptions().dom()
    }

    /// The label recorded for raw ID `k`, with absent fields read as neutral.
    pub open spec fn label_of(&self, k: u64) -> LabelView {
        LabelView {
            name: if self.names().contains_key(k) { Some(self.names()[k]) } else { None },
            subscripts: if self.subscript_map().contains_key(k) {
                self.subscript_map()[k]
            } else {
                Seq::empty()
            },
            parameters: if self.parameter_map().contains_key(k) {
                self.parameter_map()[k]
            } else {
                Seq::empty()
            },
            description: if self.descriptions().contains_key(k) {
                Some(self.descriptions()[k])
            } else {
                None
            },
        }
    }

    /// Every label other than the one of raw ID `k` is the same in `self` and `other`.
    pub open spec fn same_except(&self, other: &Self, k: u64) -> bool {
        forall|j: u64| j != k ==> #[trigger] self.label_of(j) == other.label_of(j)
    }

    /// An empty store.
    pub fn new() -> (r: Self)
        ensures
            r.wf(),
            r.id_set().is_empty(),
            forall|k: u64| #[trigger] r.label_of(k) == empty_label_view(),
    {
        let r = ModelingLabelStore {
            name: BTreeMap::new(),
            subscripts: BTreeMap::new(),
            parameters: BTreeMap::new(),
            description: BTreeMap::new(),
            no_parameters: Parameters::new(),
            id_type: PhantomData,
        };
        assert(r.id_set() =~= Set::empty());
        r
    }

    pub fn name(&self, id: ID) -> (r: Option<&str>)
        ensures
            match r {
                Some(s) => self.label_of(id.raw()).name == Some(s@),
                None => self.label_of(id.raw()).name is None,
            },
    {
        match self.name.get(&id.into_inner()) {
            Some(s) => Some(s.as_str()),
            None => None,
        }
    }

    pub fn subscripts(&self, id: ID) -> (r: &[i64])
        ensures
            r@ == self.label_of(id.raw()).subscripts,
    {
        match self.subscripts.get(&id.into_inner()) {
            Some(v) => v.as_slice(),
            None => &[],
        }
    }

    pub fn parameters(&self, id: ID) -> (r: &Parameters)
        requires
            self.wf(),
        ensures
            r@ == self.label_of(id.raw()).parameters,
    {
        match self.parameters.get(&id.into_inner()) {
            Some(p) => p,
            None => &self.no_parameters,
        }
    }

    pub fn description(&self, id: ID) -> (r: Option<&str>)
        ensures
            match r {
                Some(s) => self.label_of(id.raw()).description == Some(s@),
                None => self.label_of(id.raw()).description is None,
            },
    {
        match self.description.get(&id.into_inner()) {
            Some(s) => Some(s.as_str()),
            None => None,
        }
    }

    /// Reconstructs the full label of one ID as an owned value.
    pub fn collect_for(&self, id: ID) -> (r: ModelingLabel)
        ensures
            r@ == self.label_of(id.raw()),
    {
        let k = id.into_inner();
        let name = match self.name.get(&k) {
            Some(s) => Some(s.clone()),
            None => None,
        };
        let subscripts = match self.subscripts.get(&k) {
            Some(v) => copy_i64s(v),
            None => Vec::new(),
        };
        let parameters = match self.parameters.get(&k) {
            Some(p) => p.clone(),
            None => Parameters::new(),
        };
        let description = match self.description.get(&k) {
            Some(s) => Some(s.clone()),
            None => None,
        };
        let r = ModelingLabel { name, subscripts, parameters, description };
        assert(r@.subscripts =~= self.label_of(k).subscripts);
        r
    }

    pub fn set_name(&mut self, id: ID, name: String)
        requires
            old(self).wf(),
        ensures
            final(self).wf(),
            final(self).label_of(id.raw()) == (LabelView { name: Some(name@), ..old(self).label_of(id.raw()) }),
            final(self).same_except(old(self), id.raw()),
            final(self).id_set() == old(self).id_set().insert(id.raw()),
    {
        self.name.insert(id.into_inner(), name);
        assert(self.id_set() =~= old(self).id_set().insert(id.raw()));
    }

    pub fn clear_name(&mut self, id: ID)
        requires
            old(self).wf(),
        ensures
            final(self).wf(),
            final(self).label_of(id.raw()) == (LabelView { name: None, ..old(self).label_of(id.raw()) }),
            final(self).same_except(old(self), id.raw()),
    {
        self.name.remove(&id.into_inner());
    }

    /// Replaces the subscripts; an empty list clears them.
    pub fn set_subscripts(&mut self, id: ID, subscripts: Vec<i64>)
        requires
            old(self).wf(),
        ensures
            final(self).wf(),
            final(self).label_of(id.raw()) == (LabelView { subscripts: subscripts@, ..old(self).label_of(id.raw()) }),
            final(self).same_except(old(self), id.raw()),
    {
        let k = id.into_inner();
        if subscripts.len() == 0 {
            self.subscripts.remove(&k);
            assert(subscripts@ =~= Seq::<i64>::empty());
        } else {
            self.subscripts.insert(k, subscripts);
        }
    }

    /// Appends one subscript.
    pub fn push_subscript(&mut self, id: ID, value: i64)
        requires
            old(self).wf(),
        ensures
            final(self).wf(),
            final(self).label_of(id.raw()) == (LabelView {
                subscripts: old(self).label_of(id.raw()).subscripts.push(value),
                ..old(self).label_of(id.raw())
            }),
            final(self).same_except(old(self), id.raw()),
    {
        let mut values: Vec<i64> = Vec::new();
        values.push(value);
        assert(values@ =~= seq![value]);
        self.extend_subscripts(id, values);
        assert(old(self).label_of(id.raw()).subscripts + seq![value] =~= old(self).label_of(id.raw()).subscripts.push(value));
    }

    /// Appends several subscripts; the subscripts stay absent when both the stored
    /// and the appended list are empty.
    pub fn extend_subscripts(&mut self, id: ID, values: Vec<i64>)
        requires
            old(self).wf(),
        ensures
            final(self).wf(),
            final(self).label_of(id.raw()) == (LabelView {
                subscripts: old(self).label_of(id.raw()).subscripts + values@,
                ..old(self).label_of(id.raw())
            }),
            final(self).same_except(old(self), id.raw()),
    {
        let k = id.into_inner();
        let mut merged: Vec<i64> = match self.subscripts.get(&k) {
            Some(v) => copy_i64s(v),
            None => Vec::new(),
        };
        let ghost start = merged@;
        let mut i: usize = 0;
        while i < values.len()
            invariant
                i <= values@.len(),
                merged@ == start + values@.subrange(0, i as int),
            decreases values@.len() - i,
        {
            merged.push(values[i]);
            i = i + 1;
            assert(merged@ =~= start + values@.subrange(0, i as int));
        }
        assert(values@.subrange(0, values@.len() as int) =~= values@);
        if merged.len() == 0 {
            self.subscripts.remove(&k);
            assert(start + values@ =~= Seq::<i64>::empty());
        } else {
            self.subscripts.insert(k, merged);
        }
    }

    /// Sets one parameter, keeping the others.
    pub fn set_parameter(&mut self, id: ID, key: String, value: String)
        requires
            old(self).wf(),
        ensures
            final(self).wf(),
            final(self).label_of(id.raw()) == (LabelView {
                parameters: param_assign(old(self).label_of(id.raw()).parameters, key@, value@),
                ..old(self).label_of(id.raw())
            }),
            final(self).same_except(old(self), id.raw()),
    {
        let k = id.into_inner();
        let mut params = match self.parameters.get(&k) {
            Some(p) => p.clone(),
            None => Parameters::new(),
        };
        params.insert(key, value);
        assert(params@.len() > 0);
        self.parameters.insert(k, params);
    }

    /// Replaces all parameters; an empty set clears them.
    pub fn set_parameters(&mut self, id: ID, parameters: Parameters)
        requires
            old(self).wf(),
        ensures
            final(self).wf(),
            final(self).label_of(id.raw()) == (LabelView { parameters: parameters@, ..old(self).label_of(id.raw()) }),
            final(self).same_except(old(self), id.raw()),
    {
        let k = id.into_inner();
        if parameters.is_empty() {
            self.parameters.remove(&k);
            assert(parameters@ =~= Seq::<(Seq<char>, Seq<char>)>::empty());
        } else {
            self.parameters.insert(k, parameters);
        }
    }

    pub fn set_description(&mut self, id: ID, description: String)
        requires
            old(self).wf(),
        ensures
            final(self).wf(),
            final(self).label_of(id.raw()) == (LabelView {
                description: Some(description@),
                ..old(self).label_of(id.raw())
            }),
            final(self).same_except(old(self), id.raw()),
    {
        self.description.insert(id.into_inner(), description);
    }

    pub fn clear_description(&mut self, id: ID)
        requires
            old(self).wf(),
        ensures
            final(self).wf(),
            final(self).label_of(id.raw()) == (LabelView { description: None, ..old(self).label_of(id.raw()) }),
            final(self).same_except(old(self), id.raw()),
    {
        self.description.remove(&id.into_inner());
    }

    /// Stores the label of one ID, replacing what was there; empty fields are
    /// not stored.
    pub fn insert(&mut self, id: ID, label: ModelingLabel)
        requires
            old(self).wf(),
        ensures
            final(self).wf(),
            final(self).label_of(id.raw()) == label@,
            final(self).same_except(old(self), id.raw()),
            final(self).id_set().contains(id.raw()) <==> label@ != empty_label_view(),
            forall|j: u64| j != id.raw() ==> (#[trigger] final(self).id_set().contains(j) <==> old(self).id_set().contains(j)),
    {
        let k = id.into_inner();
        let ModelingLabel { name, subscripts, parameters, description } = label;
        match name {
            Some(n) => { self.name.insert(k, n); },
            None => { self.name.remove(&k); },
        }
        if subscripts.len() == 0 {
            self.subscripts.remove(&k);
        } else {
            self.subscripts.insert(k, subscripts);
        }
        if parameters.is_empty() {
            self.parameters.remove(&k);
        } else {
            self.parameters.insert(k, parameters);
        }
        match description {
            Some(d) => { self.description.insert(k, d); },
            None => { self.description.remove(&k); },
        }
        assert(self.label_of(k).subscripts =~= label@.subscripts);
        assert(self.label_of(k).parameters =~= label@.parameters);
    }

    /// Removes and returns the label of one ID.
    pub fn remove(&mut self, id: ID) -> (r: ModelingLabel)
        requires
            old(self).wf(),
        ensures
            final(self).wf(),
            r@ == old(self).label_of(id.raw()),
            final(self).label_of(id.raw()) == empty_label_view(),
            !final(self).id_set().contains(id.raw()),
            final(self).same_except(old(self), id.raw()),
            final(self).id_set() == old(self).id_set().remove(id.raw()),
    {
        let k = id.into_inner();
        let name = self.name.remove(&k);
        let subscripts = match self.subscripts.remove(&k) {
            Some(v) => v,
            None => Vec::new(),
        };
        let parameters = match self.parameters.remove(&k) {
            Some(p) => p,
            None => Parameters::new(),
        };
        let description = self.description.remove(&k);
        let r = ModelingLabel { name, subscripts, parameters, description };
        assert(self.label_of(k).subscripts =~= Seq::<i64>::empty());
        assert(self.label_of(k).parameters =~= Seq::<(Seq<char>, Seq<char>)>::empty());
        assert(self.id_set() =~= old(self).id_set().remove(k));
        assert(r@.subscripts =~= old(self).label_of(k).subscripts);
        r
    }

    /// Whether any label field is recorded for the ID.
    pub fn contains(&self, id: ID) -> (r: bool)
        ensures
            r == self.id_set().contains(id.raw()),
    {
        let k = id.into_inner();
        self.name.contains_key(&k) || self.subscripts.contains_key(&k)
            || self.parameters.contains_key(&k) || self.description.contains_key(&k)
    }

    /// The raw IDs that have at least one label field set, in increasing order.
    pub fn raw_ids(&self) -> (r: Vec<u64>)
        ensures
            forall|k: u64| r@.contains(k) <==> self.id_set().contains(k),
            forall|i: int, j: int| 0 <= i < j < r@.len() ==> r@[i] < r@[j],
    {
        let mut all: BTreeMap<u64, ()> = BTreeMap::new();
        add_keys(&mut all, &keys_of(&self.name));
        add_keys(&mut all, &keys_of(&self.subscripts));
        add_keys(&mut all, &keys_of(&self.parameters));
        add_keys(&mut all, &keys_of(&self.description));
        let r = keys_of(&all);
        r
    }
}

/// Marks every key of `keys` as present in `set`.
pub fn add_keys(set: &mut BTreeMap<u64, ()>, keys: &Vec<u64>)
    ensures
        forall|k: u64| #[trigger] final(set)@.contains_key(k) <==> old(set)@.contains_key(k) || keys@.contains(k),
{
    let mut i: usize = 0;
    while i < keys.len()
        invariant
            i <= keys@.len(),
            forall|k: u64| #[trigger] set@.contains_key(k) <==> old(set)@.contains_key(k) || keys@.subrange(0, i as int).contains(k),
        decreases keys@.len() - i,
    {
        set.insert(keys[i], ());
        proof {
            let prev = keys@.subrange(0, i as int);
            let next = keys@.subrange(0, i + 1);
            assert(next =~= prev.push(keys@[i as int]));
            assert forall|k: u64| next.contains(k) <==> prev.contains(k) || k == keys@[i as int] by {
                if next.contains(k) {
                    let j = choose|j: int| 0 <= j < next.len() && next[j] == k;
                    if j < i {
                        assert(prev[j] == k);
                    }
                }
                if prev.contains(k) {
                    let j = choose|j: int| 0 <= j < prev.len() && prev[j] == k;
                    assert(next[j] == k);
                }
                if k == keys@[i as int] {
                    assert(next[i as int] == k);
                }
            }
        }
        i = i + 1;
    }
    assert(keys@.subrange(0, keys@.len() as int) =~= keys@);
}

} // verus!
