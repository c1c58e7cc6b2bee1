//! The table of decision variables: rows keyed by variable ID, with modeling
//! labels as a sidecar.
use crate::btree_keys::keys_of;
use crate::dataset::decimal;
use crate::messages::text_with_number;
use crate::collection::is_min_missing;
use crate::ids::VariableID;
use crate::label::{ModelingLabel, ModelingLabelStore};
use crate::stage::{Evaluated, Sampled};
use std::collections::BTreeMap;
use vstd::prelude::*;

verus! {

broadcast use vstd::std_specs::btree::group_btree_axioms;

/// Marker for the stages a decision-variable table can be in.
pub trait Sealed {}

/// Binds a lifecycle stage to the sparse sidecar columns a decision-variable
/// table owns in that stage.
pub trait DecisionVariableTableStage: Sealed {
    type Columns;
}

/// Column set of evaluated decision-variable tables: no extra column.
#[derive(Clone, Copy, PartialEq, Eq, Structural, Debug, Default)]
pub struct EvaluatedDecisionVariableColumns {}

/// Column set of sampled decision-variable tables: no extra column.
#[derive(Clone, Copy, PartialEq, Eq, Structural, Debug, Default)]
pub struct SampledDecisionVariableColumns {}

impl Sealed for Evaluated {}

impl Sealed for Sampled {}

impl DecisionVariableTableStage for Evaluated {
    type Columns = EvaluatedDecisionVariableColumns;
}

impl DecisionVariableTableStage for Sampled {
    type Columns = SampledDecisionVariableColumns;
}

/// Why a table operation was refused.
#[derive(Clone, Copy, PartialEq, Eq, Structural, Debug)]
pub enum TableError {
    /// A modeling label refers to an ID without a row.
    UnknownLabelID(u64),
    /// The operation needs a row with this ID.
    UnknownID(u64),
    /// A row with this ID already exists.
    DuplicateID(u64),
}

impl TableError {
    /// The text that reports the error.
    pub open spec fn message_spec(self) -> Seq<char> {
        match self {
            TableError::UnknownLabelID(id) => "Modeling label references unknown decision variable ID VariableID("@ + decimal(
                id as nat,
            ) + ")"@,
            TableError::UnknownID(id) => "Undefined variable ID is used: VariableID("@ + decimal(id as nat) + ")"@,
            TableError::DuplicateID(id) => "Duplicate decision variable ID="@ + decimal(id as nat) + ""@,
        }
    }

    /// The text that reports the error.
    pub fn message(&self) -> (r: String)
        ensures
            r@ == self.message_spec(),
    {
        match self {
            TableError::UnknownLabelID(id) => text_with_number(
                "Modeling label references unknown decision variable ID VariableID(",
                *id,
                ")",
            ),
            TableError::UnknownID(id) => text_with_number("Undefined variable ID is used: VariableID(", *id, ")"),
            TableError::DuplicateID(id) => text_with_number("Duplicate decision variable ID=", *id, ""),
        }
    }
}

/// Owner of decision-variable rows and their modeling labels. The table key is
/// the only source of truth for variable IDs; every label belongs to a row.
pub struct DecisionVariableTable<R> {
    entries: BTreeMap<u64, R>,
    labels: ModelingLabelStore<VariableID>,
}

/// Checks that every label belongs to a row; on failure returns the smallest
/// foreign ID.
pub fn validate_labels<R>(entries: &BTreeMap<u64, R>, labels: &ModelingLabelStore<VariableID>) -> (r: Result<(), TableError>)
    ensures
        match r {
            Ok(()) => forall|k: u64| labels.id_set().contains(k) ==> entries@.contains_key(k),
            Err(TableError::UnknownLabelID(k)) => is_min_missing(labels.id_set(), entries@.dom(), k),
            Err(_) => false,
        },
{
    let ids = labels.raw_ids();
    let mut i: usize = 0;
    while i < ids.len()
        invariant
            i <= ids@.len(),
            forall|k: u64| ids@.contains(k) <==> labels.id_set().contains(k),
            forall|a: int, b: int| 0 <= a < b < ids@.len() ==> ids@[a] < ids@[b],
            forall|j: int| 0 <= j < i ==> entries@.contains_key(#[trigger] ids@[j]),
        decreases ids@.len() - i,
    {
        if !entries.contains_key(&ids[i]) {
            proof {
                let k = ids@[i as int];
                assert(ids@.contains(k));
                assert forall|j: u64| j < k implies !(labels.id_set().contains(j) && !entries@.contains_key(j)) by {
                    if labels.id_set().contains(j) {
                        assert(ids@.contains(j));
                        let t = choose|t: int| 0 <= t < ids@.len() && ids@[t] == j;
                        if t >= i {
                            assert(ids@[i as int] <= ids@[t]);
                        }
                    }
                }
            }
            return Err(TableError::UnknownLabelID(ids[i]));
        }
        i = i + 1;
    }
    proof {
        assert forall|k: u64| labels.id_set().contains(k) implies entries@.contains_key(k) by {
            assert(ids@.contains(k));
            let t = choose|t: int| 0 <= t < ids@.len() && ids@[t] == k;
            assert(entries@.contains_key(ids@[t]));
        }
    }
    Ok(())
}

impl<R> DecisionVariableTable<R> {
    pub closed spec fn rows(&self) -> Map<u64, R> {
        self.entries@
    }

    pub closed spec fn label_store(&self) -> ModelingLabelStore<VariableID> {
        self.labels
    }

    pub open spec fn wf(&self) -> bool {
        &&& self.label_store().wf()
        &&& forall|k: u64| #[trigger] self.label_store().id_set().contains(k) ==> self.rows().contains_key(k)
    }

    /// An empty table.
    pub fn new_empty() -> (r: Self)
        ensures
            r.wf(),
            r.rows().is_empty(),
            r.label_store().id_set().is_empty(),
    {
        DecisionVariableTable { entries: BTreeMap::new(), labels: ModelingLabelStore::new() }
    }

    /// Builds a table from rows and labels; refused with the smallest label ID
    /// that has no row.
    pub fn new(entries: BTreeMap<u64, R>, labels: ModelingLabelStore<VariableID>) -> (r: Result<Self, TableError>)
        requires
            labels.wf(),
        ensures
            match r {
                Ok(t) => t.wf() && t.rows() == entries@ && t.label_store() == labels,
                Err(TableError::UnknownLabelID(k)) => is_min_missing(labels.id_set(), entries@.dom(), k),
                Err(_) => false,
            },
    {
        validate_labels(&entries, &labels)?;
        Ok(DecisionVariableTable { entries, labels })
    }

    /// The rows, keyed by raw variable ID.
    pub fn entries(&self) -> (r: &BTreeMap<u64, R>)
        ensures
            r@ == self.rows(),
    {
        &self.entries
    }

    /// The modeling labels.
    pub fn labels(&self) -> (r: &ModelingLabelStore<VariableID>)
        ensures
            *r == self.label_store(),
    {
        &self.labels
    }

    /// Replaces the label of an existing row; refused (with nothing changed)
    /// for an unknown ID.
    pub fn set_label(&mut self, id: VariableID, label: ModelingLabel) -> (r: Result<(), TableError>)
        requires
            old(self).wf(),
        ensures
            final(self).wf(),
            final(self).rows() == old(self).rows(),
            match r {
                Ok(()) => {
                    &&& old(self).rows().contains_key(id.0)
                    &&& final(self).label_store().label_of(id.0) == label@
                    &&& final(self).label_store().same_except(&old(self).label_store(), id.0)
                },
                Err(TableError::UnknownID(k)) => {
                    &&& k == id.0
                    &&& !old(self).rows().contains_key(id.0)
                    &&& final(self).label_store() == old(self).label_store()
                },
                Err(_) => false,
            },
    {
        if !self.entries.contains_key(&id.0) {
            return Err(TableError::UnknownID(id.0));
        }
        self.labels.insert(id, label);
        proof {
            assert forall|k: u64| #[trigger] self.label_store().id_set().contains(k) implies self.rows().contains_key(k) by {
                if k != id.0 {
                    assert(old(self).label_store().id_set().contains(k));
                }
            }
        }
        Ok(())
    }

    /// Inserts a fresh row with its label; refused (with nothing changed) when
    /// the ID already has a row.
    pub fn insert_labeled_row(&mut self, id: VariableID, row: R, label: ModelingLabel) -> (r: Result<(), TableError>)
        requires
            old(self).wf(),
        ensures
            final(self).wf(),
            match r {
                Ok(()) => {
                    &&& !old(self).rows().contains_key(id.0)
                    &&& final(self).rows() == old(self).rows().insert(id.0, row)
                    &&& final(self).label_store().label_of(id.0) == label@
                    &&& final(self).label_store().same_except(&old(self).label_store(), id.0)
                },
                Err(TableError::DuplicateID(k)) => {
                    &&& k == id.0
                    &&& old(self).rows().contains_key(id.0)
                    &&& final(self).rows() == old(self).rows()
                    &&& final(self).label_store() == old(self).label_store()
                },
                Err(_) => false,
            },
    {
        if self.entries.contains_key(&id.0) {
            return Err(TableError::DuplicateID(id.0));
        }
        self.labels.insert(id, label);
        self.entries.insert(id.0, row);
        proof {
            assert forall|k: u64| #[trigger] self.label_store().id_set().contains(k) implies self.rows().contains_key(k) by {
                if k != id.0 {
                    assert(old(self).label_store().id_set().contains(k));
                }
            }
        }
        Ok(())
    }

    pub fn contains_key(&self, id: &VariableID) -> (r: bool)
        ensures
            r == self.rows().contains_key(id.0),
    {
        self.entries.contains_key(&id.0)
    }

    pub fn get(&self, id: &VariableID) -> (r: Option<&R>)
        ensures
            match r {
                Some(v) => self.rows().contains_key(id.0) && *v == self.rows()[id.0],
                None => !self.rows().contains_key(id.0),
            },
    {
        self.entries.get(&id.0)
    }

    /// The variable IDs, in increasing order.
    pub fn keys(&self) -> (r: Vec<VariableID>)
        ensures
            r@.len() == self.rows().dom().len(),
            forall|k: u64| self.rows().contains_key(k) <==> exists|i: int| 0 <= i < r@.len() && (#[trigger] r@[i]).0 == k,
            forall|i: int, j: int| 0 <= i < j < r@.len() ==> r@[i].0 < r@[j].0,
    {
        let raw = keys_of(&self.entries);
        let mut out: Vec<VariableID> = Vec::new();
        let mut i: usize = 0;
        while i < raw.len()
            invariant
                i <= raw@.len(),
                out@.len() == i,
                forall|j: int| 0 <= j < i ==> (#[trigger] out@[j]).0 == raw@[j],
            decreases raw@.len() - i,
        {
            out.push(VariableID(raw[i]));
            i = i + 1;
        }
        proof {
            assert forall|k: u64| self.rows().contains_key(k) implies exists|i: int| 0 <= i < out@.len() && (#[trigger] out@[i]).0 == k by {
                assert(raw@.contains(k));
                let i = choose|i: int| 0 <= i < raw@.len() && raw@[i] == k;
                assert(out@[i].0 == k);
            }
            assert forall|k: u64| (exists|i: int| 0 <= i < out@.len() && (#[trigger] out@[i]).0 == k) implies self.rows().contains_key(k) by {
                let i = choose|i: int| 0 <= i < out@.len() && (#[trigger] out@[i]).0 == k;
                assert(raw@[i] == k);
                assert(raw@.contains(k));
            }
        }
        out
    }

    /// The rows with their IDs, in increasing order of ID.
    pub fn iter(&self) -> (r: Vec<(VariableID, &R)>)
        ensures
            r@.len() == self.rows().dom().len(),
            forall|i: int| 0 <= i < r@.len() ==> self.rows().contains_key((#[trigger] r@[i]).0.0) && *r@[i].1 == self.rows()[r@[i].0.0],
            forall|k: u64| self.rows().contains_key(k) ==> exists|i: int| 0 <= i < r@.len() && (#[trigger] r@[i]).0.0 == k,
            forall|i: int, j: int| 0 <= i < j < r@.len() ==> r@[i].0.0 < r@[j].0.0,
    {
        let raw = keys_of(&self.entries);
        let mut out: Vec<(VariableID, &R)> = Vec::new();
        let mut i: usize = 0;
        while i < raw.len()
            invariant
                i <= raw@.len(),
                forall|k: u64| self.rows().contains_key(k) <==> raw@.contains(k),
                out@.len() == i,
                forall|j: int| 0 <= j < i ==> (#[trigger] out@[j]).0.0 == raw@[j] && *out@[j].1 == self.rows()[raw@[j]],
            decreases raw@.len() - i,
        {
            proof {
                assert(raw@.contains(raw@[i as int]));
            }
            match self.entries.get(&raw[i]) {
                Some(v) => {
                    out.push((VariableID(raw[i]), v));
                },
                None => {
                    return out;
                },
            }
            i = i + 1;
        }
        proof {
            assert forall|i: int| 0 <= i < out@.len() implies self.rows().contains_key((#[trigger] out@[i]).0.0) by {
                assert(raw@.contains(raw@[i]));
            }
            assert forall|k: u64| self.rows().contains_key(k) implies exists|i: int| 0 <= i < out@.len() && (#[trigger] out@[i]).0.0 == k by {
                assert(raw@.contains(k));
                let i = choose|i: int| 0 <= i < raw@.len() && raw@[i] == k;
                assert(out@[i].0.0 == k);
            }
        }
        out
    }

    /// The rows, in increasing order of ID.
    pub fn values(&self) -> (r: Vec<&R>)
        ensures
            r@.len() == self.rows().dom().len(),
            forall|i: int| 0 <= i < r@.len() ==> self.rows().values().contains(*(#[trigger] r@[i])),
    {
        let pairs = self.iter();
        let mut out: Vec<&R> = Vec::new();
        let mut i: usize = 0;
        while i < pairs.len()
            invariant
                i <= pairs@.len(),
                out@.len() == i,
                forall|j: int| 0 <= j < pairs@.len() ==> self.rows().contains_key((#[trigger] pairs@[j]).0.0) && *pairs@[j].1 == self.rows()[pairs@[j].0.0],
                forall|j: int| 0 <= j < i ==> *(#[trigger] out@[j]) == *pairs@[j].1,
            decreases pairs@.len() - i,
        {
            out.push(pairs[i].1);
            i = i + 1;
        }
        proof {
            assert forall|i: int| 0 <= i < out@.len() implies self.rows().values().contains(*(#[trigger] out@[i])) by {
                let k = pairs@[i].0.0;
                assert(self.rows().contains_key(k));
                assert(*out@[i] == *pairs@[i].1);
                assert(*out@[i] == self.rows()[k]);
            }
        }
        out
    }

    pub fn len(&self) -> (r: usize)
        ensures
            r == self.rows().len(),
    {
        self.entries.len()
    }

    pub fn is_empty(&self) -> (r: bool)
        ensures
            r == self.rows().is_empty(),
    {
        let r = self.entries.is_empty();
        proof {
            if !r {
                let k = choose|k: u64| self.rows().contains_key(k);
                assert(self.rows().dom().contains(k));
            }
        }
        r
    }

    /// The row with the largest ID, if any.
    pub fn last_key_value(&self) -> (r: Option<(VariableID, &R)>)
        ensures
            match r {
                Some((id, v)) => {
                    &&& self.rows().contains_key(id.0)
                    &&& *v == self.rows()[id.0]
                    &&& forall|k: u64| #[trigger] self.rows().contains_key(k) ==> k <= id.0
                },
                None => self.rows().is_empty(),
            },
    {
        let raw = keys_of(&self.entries);
        if raw.len() == 0 {
            proof {
                assert forall|k: u64| !self.rows().contains_key(k) by {
                    if self.rows().contains_key(k) {
                        assert(raw@.contains(k));
                    }
                }
                assert(self.rows().dom() =~= Set::empty());
            }
            return None;
        }
        let last = raw[raw.len() - 1];
        proof {
            assert(raw@.contains(last));
            assert forall|k: u64| #[trigger] self.rows().contains_key(k) implies k <= last by {
                assert(raw@.contains(k));
                let t = choose|t: int| 0 <= t < raw@.len() && raw@[t] == k;
                if t < raw@.len() - 1 {
                    assert(raw@[t] < raw@[raw@.len() - 1]);
                }
            }
        }
        match self.entries.get(&last) {
            Some(v) => Some((VariableID(last), v)),
            None => None,
        }
    }
}

} // verus!
