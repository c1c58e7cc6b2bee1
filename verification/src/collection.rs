//! Lifecycle-aware constraint collections: active rows, removed rows with their
//! removal reasons, and the label/provenance sidecar keyed by the same IDs.
use crate::btree_keys::keys_of;
use crate::dataset::decimal;
use crate::messages::text_with_number;
use crate::constraint::{ConstraintContext, ConstraintContextStore, RemovedReason};
use crate::ids::IDType;
use crate::label::ParamPairs;
use std::collections::{BTreeMap, BTreeSet};
use vstd::prelude::*;
use vstd::std_specs::iter::IteratorSpec;

verus! {

broadcast use vstd::std_specs::btree::group_btree_axioms;

/// Plain-value picture of a removal reason.
pub type ReasonView = (Seq<char>, ParamPairs);

/// Why a collection operation was refused. Each variant carries the offending raw ID.
#[derive(Clone, Copy, PartialEq, Eq, Structural, Debug)]
pub enum CollectionError {
    /// The ID is a key of both maps that must be disjoint.
    KeyOverlap { id: u64, sides: OverlapSides },
    /// A label or provenance entry refers to an ID the collection does not own.
    UnknownContextID(u64),
    /// The operation needs an active row with this ID.
    ActiveNotFound(u64),
    /// The operation needs a removed row with this ID.
    RemovedNotFound(u64),
    /// The ID is already used by an active row.
    DuplicateActive(u64),
    /// The ID is already used by a removed row.
    DuplicateRemoved(u64),
    /// A removal reason refers to an ID without a row.
    UnknownRemovedReason(u64),
}

impl CollectionError {
    /// The text that reports the error.
    pub open spec fn message_spec(self) -> Seq<char> {
        match self {
            CollectionError::KeyOverlap { id, sides } => "Constraint ID ConstraintID("@ + decimal(id as nat)
                + match sides {
                OverlapSides::ActiveAndRemoved => ") appears in both active constraints and removed constraints"@,
                OverlapSides::ActiveAndRemovedReplacements => ") appears in both active row replacements and removed row replacements"@,
                OverlapSides::ReplacementsAndRemovals => ") appears in both active row replacements and removals"@,
                OverlapSides::RepeatedRows => ") appears in more than one row"@,
            },
            CollectionError::UnknownContextID(id) => "Constraint label/provenance references unknown constraint ID ConstraintID("@
                + decimal(id as nat) + ")"@,
            CollectionError::ActiveNotFound(id) => "Active constraint with ID ConstraintID("@ + decimal(id as nat) + ") not found"@,
            CollectionError::RemovedNotFound(id) => "Removed constraint with ID ConstraintID("@ + decimal(id as nat) + ") not found"@,
            CollectionError::DuplicateActive(id) => "Constraint ID ConstraintID("@ + decimal(id as nat)
                + ") already exists in the active constraint collection"@,
            CollectionError::DuplicateRemoved(id) => "Constraint ID ConstraintID("@ + decimal(id as nat)
                + ") already exists in the removed constraint collection"@,
            CollectionError::UnknownRemovedReason(id) => "Removed reason references unknown constraint ID ConstraintID("@
                + decimal(id as nat) + ")"@,
        }
    }

    /// The text that reports the error.
    pub fn message(&self) -> (r: String)
        ensures
            r@ == self.message_spec(),
    {
        match self {
            CollectionError::KeyOverlap { id, sides } => text_with_number(
                "Constraint ID ConstraintID(",
                *id,
                match sides {
                    OverlapSides::ActiveAndRemoved => ") appears in both active constraints and removed constraints",
                    OverlapSides::ActiveAndRemovedReplacements => ") appears in both active row replacements and removed row replacements",
                    OverlapSides::ReplacementsAndRemovals => ") appears in both active row replacements and removals",
                    OverlapSides::RepeatedRows => ") appears in more than one row",
                },
            ),
            CollectionError::UnknownContextID(id) => text_with_number(
                "Constraint label/provenance references unknown constraint ID ConstraintID(",
                *id,
                ")",
            ),
            CollectionError::ActiveNotFound(id) => text_with_number("Active constraint with ID ConstraintID(", *id, ") not found"),
            CollectionError::RemovedNotFound(id) => text_with_number("Removed constraint with ID ConstraintID(", *id, ") not found"),
            CollectionError::DuplicateActive(id) => text_with_number(
                "Constraint ID ConstraintID(",
                *id,
                ") already exists in the active constraint collection",
            ),
            CollectionError::DuplicateRemoved(id) => text_with_number(
                "Constraint ID ConstraintID(",
                *id,
                ") already exists in the removed constraint collection",
            ),
            CollectionError::UnknownRemovedReason(id) => text_with_number(
                "Removed reason references unknown constraint ID ConstraintID(",
                *id,
                ")",
            ),
        }
    }
}

/// Which two maps, or which list, an ID occurs twice in.
#[derive(Clone, Copy, PartialEq, Eq, Structural, Debug)]
pub enum OverlapSides {
    /// The active and the removed constraints.
    ActiveAndRemoved,
    /// The replacements for active rows and those for removed rows.
    ActiveAndRemovedReplacements,
    /// The replacements for active rows and the rows to remove.
    ReplacementsAndRemovals,
    /// The rows of one list.
    RepeatedRows,
}

/// The smallest key common to `a` and `b`, if there is one.
pub open spec fn is_min_common(a: Set<u64>, b: Set<u64>, k: u64) -> bool {
    &&& a.contains(k)
    &&& b.contains(k)
    &&& forall|j: u64| j < k ==> !(a.contains(j) && b.contains(j))
}

/// The smallest key of `a` missing from `b`, if there is one.
pub open spec fn is_min_missing(a: Set<u64>, b: Set<u64>, k: u64) -> bool {
    &&& a.contains(k)
    &&& !b.contains(k)
    &&& forall|j: u64| j < k ==> !(a.contains(j) && !b.contains(j))
}

/// The smallest key of `left` that is also a key of `right`.
pub fn first_common_key<L, R>(left: &BTreeMap<u64, L>, right: &BTreeMap<u64, R>) -> (r: Option<u64>)
    ensures
        match r {
            Some(k) => is_min_common(left@.dom(), right@.dom(), k),
            None => forall|k: u64| !(left@.contains_key(k) && right@.contains_key(k)),
        },
{
    let keys = keys_of(left);
    let mut i: usize = 0;
    while i < keys.len()
        invariant
            i <= keys@.len(),
            forall|k: u64| left@.contains_key(k) <==> keys@.contains(k),
            forall|a: int, b: int| 0 <= a < b < keys@.len() ==> keys@[a] < keys@[b],
            forall|j: int| 0 <= j < i ==> !right@.contains_key(#[trigger] keys@[j]),
        decreases keys@.len() - i,
    {
        if right.contains_key(&keys[i]) {
            proof {
                let k = keys@[i as int];
                assert(keys@.contains(k));
                assert forall|j: u64| j < k implies !(left@.contains_key(j) && right@.contains_key(j)) by {
                    if left@.contains_key(j) {
                        assert(keys@.contains(j));
                        let t = choose|t: int| 0 <= t < keys@.len() && keys@[t] == j;
                        if t >= i {
                            assert(keys@[i as int] <= keys@[t]);
                        }
                    }
                }
            }
            return Some(keys[i]);
        }
        i = i + 1;
    }
    proof {
        assert forall|k: u64| !(left@.contains_key(k) && right@.contains_key(k)) by {
            if left@.contains_key(k) {
                assert(keys@.contains(k));
                let t = choose|t: int| 0 <= t < keys@.len() && keys@[t] == k;
                assert(!right@.contains_key(keys@[t]));
            }
        }
    }
    None
}

/// The smallest key of `left` that is not a key of `right`.
pub fn first_missing_key<L, R>(left: &BTreeMap<u64, L>, right: &BTreeMap<u64, R>) -> (r: Option<u64>)
    ensures
        match r {
            Some(k) => is_min_missing(left@.dom(), right@.dom(), k),
            None => forall|k: u64| left@.contains_key(k) ==> right@.contains_key(k),
        },
{
    let keys = keys_of(left);
    let mut i: usize = 0;
    while i < keys.len()
        invariant
            i <= keys@.len(),
            forall|k: u64| left@.contains_key(k) <==> keys@.contains(k),
            forall|a: int, b: int| 0 <= a < b < keys@.len() ==> keys@[a] < keys@[b],
            forall|j: int| 0 <= j < i ==> right@.contains_key(#[trigger] keys@[j]),
        decreases keys@.len() - i,
    {
        if !right.contains_key(&keys[i]) {
            proof {
                let k = keys@[i as int];
                assert(keys@.contains(k));
                assert forall|j: u64| j < k implies !(left@.contains_key(j) && !right@.contains_key(j)) by {
                    if left@.contains_key(j) {
                        assert(keys@.contains(j));
                        let t = choose|t: int| 0 <= t < keys@.len() && keys@[t] == j;
                        if t >= i {
                            assert(keys@[i as int] <= keys@[t]);
                        }
                    }
                }
            }
            return Some(keys[i]);
        }
        i = i + 1;
    }
    proof {
        assert forall|k: u64| left@.contains_key(k) implies right@.contains_key(k) by {
            assert(keys@.contains(k));
            let t = choose|t: int| 0 <= t < keys@.len() && keys@[t] == k;
            assert(right@.contains_key(keys@[t]));
        }
    }
    None
}

/// Checks that no ID is a key of both maps, `sides` naming the two; on
/// failure returns the smallest shared ID.
pub fn validate_no_key_overlap<L, R>(left: &BTreeMap<u64, L>, right: &BTreeMap<u64, R>, sides: OverlapSides) -> (r: Result<(), CollectionError>)
    ensures
        match r {
            Ok(()) => forall|k: u64| !(left@.contains_key(k) && right@.contains_key(k)),
            Err(CollectionError::KeyOverlap { id: k, sides: s }) => s == sides && is_min_common(left@.dom(), right@.dom(), k),
            Err(_) => false,
        },
{
    match first_common_key(left, right) {
        Some(k) => Err(CollectionError::KeyOverlap { id: k, sides }),
        None => Ok(()),
    }
}

/// Checks that every removal reason belongs to a row; on failure returns the
/// smallest ID of a reason without a row.
pub fn validate_removed_reasons_reference_entries<V>(
    constraints: &BTreeMap<u64, V>,
    removed_reasons: &BTreeMap<u64, RemovedReason>,
) -> (r: Result<(), CollectionError>)
    ensures
        match r {
            Ok(()) => forall|k: u64| removed_reasons@.contains_key(k) ==> constraints@.contains_key(k),
            Err(CollectionError::UnknownRemovedReason(k)) => is_min_missing(
                removed_reasons@.dom(),
                constraints@.dom(),
                k,
            ),
            Err(_) => false,
        },
{
    match first_missing_key(removed_reasons, constraints) {
        Some(k) => Err(CollectionError::UnknownRemovedReason(k)),
        None => Ok(()),
    }
}

/// Checks that every label/provenance ID is in `owned`; on failure returns the
/// smallest foreign ID.
pub fn validate_context_reference_ids<ID: IDType>(
    context: &ConstraintContextStore<ID>,
    owned: &BTreeMap<u64, ()>,
) -> (r: Result<(), CollectionError>)
    ensures
        match r {
            Ok(()) => forall|k: u64| context.id_set().contains(k) ==> owned@.contains_key(k),
            Err(CollectionError::UnknownContextID(k)) => is_min_missing(context.id_set(), owned@.dom(), k),
            Err(_) => false,
        },
{
    let ids = context.raw_ids();
    let mut i: usize = 0;
    while i < ids.len()
        invariant
            i <= ids@.len(),
            forall|k: u64| ids@.contains(k) <==> context.id_set().contains(k),
            forall|a: int, b: int| 0 <= a < b < ids@.len() ==> ids@[a] < ids@[b],
            forall|j: int| 0 <= j < i ==> owned@.contains_key(#[trigger] ids@[j]),
        decreases ids@.len() - i,
    {
        if !owned.contains_key(&ids[i]) {
            proof {
                let k = ids@[i as int];
                assert(ids@.contains(k));
                assert forall|j: u64| j < k implies !(context.id_set().contains(j) && !owned@.contains_key(j)) by {
                    if context.id_set().contains(j) {
                        assert(ids@.contains(j));
                        let t = choose|t: int| 0 <= t < ids@.len() && ids@[t] == j;
                        if t >= i {
                            assert(ids@[i as int] <= ids@[t]);
                        }
                    }
                }
            }
            return Err(CollectionError::UnknownContextID(ids[i]));
        }
        i = i + 1;
    }
    proof {
        assert forall|k: u64| context.id_set().contains(k) implies owned@.contains_key(k) by {
            assert(ids@.contains(k));
            let t = choose|t: int| 0 <= t < ids@.len() && ids@[t] == k;
            assert(owned@.contains_key(ids@[t]));
        }
    }
    Ok(())
}


/// A key is in the first `i + 1` entries of `s` exactly when it is in the first
/// `i` entries or is entry `i`.
proof fn lemma_prefix_push_contains(s: Seq<u64>, i: int)
    requires
        0 <= i < s.len(),
    ensures
        forall|k: u64| #[trigger] s.subrange(0, i + 1).contains(k) <==> s.subrange(0, i).contains(k) || k == s[i],
{
    let prev = s.subrange(0, i);
    let next = s.subrange(0, i + 1);
    assert forall|k: u64| #[trigger] next.contains(k) <==> prev.contains(k) || k == s[i] by {
        if next.contains(k) {
            let j = choose|j: int| 0 <= j < next.len() && next[j] == k;
            if j < i {
                assert(prev[j] == k);
            }
        }
        if prev.contains(k) {
            let j = choose|j: int| 0 <= j < prev.len() && prev[j] == k;
            assert(next[j] == k);
        }
        if k == s[i] {
            assert(next[i] == k);
        }
    }
}

/// Writes every entry of `updates` into `target`, overwriting existing keys.
pub fn merge_into<V>(target: &mut BTreeMap<u64, V>, updates: BTreeMap<u64, V>)
    ensures
        final(target)@ == old(target)@.union_prefer_right(updates@),
{
    let ghost orig = updates@;
    let mut updates = updates;
    let keys = keys_of(&updates);
    let mut i: usize = 0;
    while i < keys.len()
        invariant
            i <= keys@.len(),
            forall|k: u64| orig.contains_key(k) <==> keys@.contains(k),
            forall|a: int, b: int| 0 <= a < b < keys@.len() ==> keys@[a] < keys@[b],
            forall|k: u64| #[trigger] updates@.contains_key(k) <==> (orig.contains_key(k) && !keys@.subrange(0, i as int).contains(k)),
            forall|k: u64| #[trigger] updates@.contains_key(k) ==> updates@[k] == orig[k],
            target@ == old(target)@.union_prefer_right(orig.restrict(keys@.subrange(0, i as int).to_set())),
        decreases keys@.len() - i,
    {
        let k = keys[i];
        proof {
            lemma_prefix_push_contains(keys@, i as int);
            assert(keys@.contains(k));
            assert(!keys@.subrange(0, i as int).contains(k)) by {
                if keys@.subrange(0, i as int).contains(k) {
                    let j = choose|j: int| 0 <= j < i && keys@.subrange(0, i as int)[j] == k;
                    assert(keys@[j] < keys@[i as int]);
                }
            }
        }
        match updates.remove(&k) {
            Some(v) => {
                target.insert(k, v);
            },
            None => {},
        }
        i = i + 1;
        proof {
            assert(target@ =~= old(target)@.union_prefer_right(orig.restrict(keys@.subrange(0, i as int).to_set())));
        }
    }
    proof {
        assert(keys@.subrange(0, keys@.len() as int) =~= keys@);
        assert(orig.restrict(keys@.to_set()) =~= orig);
    }
}

/// Removes every key of `keys` from `target`.
pub fn remove_all<V>(target: &mut BTreeMap<u64, V>, keys: &Vec<u64>)
    ensures
        final(target)@ == old(target)@.remove_keys(keys@.to_set()),
{
    let mut i: usize = 0;
    while i < keys.len()
        invariant
            i <= keys@.len(),
            target@ == old(target)@.remove_keys(keys@.subrange(0, i as int).to_set()),
        decreases keys@.len() - i,
    {
        target.remove(&keys[i]);
        proof {
            lemma_prefix_push_contains(keys@, i as int);
        }
        i = i + 1;
        proof {
            assert(target@ =~= old(target)@.remove_keys(keys@.subrange(0, i as int).to_set()));
        }
    }
    assert(keys@.subrange(0, keys@.len() as int) =~= keys@);
}

/// The set of keys of two maps, as a map to unit values.
pub fn union_of_keys<A, B>(a: &BTreeMap<u64, A>, b: &BTreeMap<u64, B>) -> (r: BTreeMap<u64, ()>)
    ensures
        forall|k: u64| #[trigger] r@.contains_key(k) <==> a@.contains_key(k) || b@.contains_key(k),
{
    let mut all: BTreeMap<u64, ()> = BTreeMap::new();
    crate::label::add_keys(&mut all, &keys_of(a));
    crate::label::add_keys(&mut all, &keys_of(b));
    all
}

/// The effect of moving active row `id` to the removed rows with `reason`.
pub open spec fn relax_effect<C>(
    active: Map<u64, C>,
    removed: Map<u64, (C, ReasonView)>,
    id: u64,
    reason: ReasonView,
) -> (Map<u64, C>, Map<u64, (C, ReasonView)>) {
    (active.remove(id), removed.insert(id, (active[id], reason)))
}

/// The effect of moving removed row `id` back to the active rows with payload `c`.
pub open spec fn restore_effect<C>(
    active: Map<u64, C>,
    removed: Map<u64, (C, ReasonView)>,
    id: u64,
    c: C,
) -> (Map<u64, C>, Map<u64, (C, ReasonView)>) {
    (active.insert(id, c), removed.remove(id))
}

/// Constraints of one family, split by lifecycle: active rows, removed rows with
/// their removal reason, and the label/provenance sidecar for both.
///
/// The collection owns the row IDs: the active and removed maps never share an
/// ID, and every sidecar entry belongs to an owned ID.
pub struct ConstraintCollection<ID, C> {
    active: BTreeMap<u64, C>,
    removed: BTreeMap<u64, (C, RemovedReason)>,
    context: ConstraintContextStore<ID>,
}

impl<ID: IDType, C> ConstraintCollection<ID, C> {
    pub closed spec fn active_map(&self) -> Map<u64, C> {
        self.active@
    }

    pub closed spec fn removed_map(&self) -> Map<u64, (C, ReasonView)> {
        self.removed@.map_values(|p: (C, RemovedReason)| (p.0, p.1@))
    }

    pub closed spec fn context_store(&self) -> ConstraintContextStore<ID> {
        self.context
    }

    /// Every ID owned by the collection, active or removed.
    pub open spec fn owned_ids(&self) -> Set<u64> {
        self.active_map().dom() + self.removed_map().dom()
    }

    pub open spec fn wf(&self) -> bool {
        &&& forall|k: u64| !(self.active_map().contains_key(k) && self.removed_map().contains_key(k))
        &&& self.context_store().wf()
        &&& forall|k: u64| #[trigger] self.context_store().id_set().contains(k) ==> self.owned_ids().contains(k)
    }

    /// An empty collection.
    pub fn new_empty() -> (r: Self)
        ensures
            r.wf(),
            r.active_map().is_empty(),
            r.removed_map().is_empty(),
            r.context_store().id_set().is_empty(),
    {
        let r = ConstraintCollection {
            active: BTreeMap::new(),
            removed: BTreeMap::new(),
            context: ConstraintContextStore::new(),
        };
        assert(r.removed_map() =~= Map::empty());
        r
    }

    /// Builds a collection from active and removed rows, without sidecars.
    /// Fails with the smallest ID present in both maps.
    pub fn new(active: BTreeMap<u64, C>, removed: BTreeMap<u64, (C, RemovedReason)>) -> (r: Result<Self, CollectionError>)
        ensures
            match r {
                Ok(c) => {
                    &&& c.wf()
                    &&& c.active_map() == active@
                    &&& c.removed_map() == removed@.map_values(|p: (C, RemovedReason)| (p.0, p.1@))
                    &&& c.context_store().id_set().is_empty()
                },
                Err(CollectionError::KeyOverlap { id: k, sides }) => sides == OverlapSides::ActiveAndRemoved
                    && is_min_common(active@.dom(), removed@.dom(), k),
                Err(_) => false,
            },
    {
        validate_no_key_overlap(&active, &removed, OverlapSides::ActiveAndRemoved)?;
        let r = ConstraintCollection { active, removed, context: ConstraintContextStore::new() };
        Ok(r)
    }

    /// Builds a collection together with its label/provenance sidecar. Fails with
    /// the smallest ID present in both maps, or else with the smallest sidecar ID
    /// owned by neither map.
    pub fn with_context(
        active: BTreeMap<u64, C>,
        removed: BTreeMap<u64, (C, RemovedReason)>,
        context: ConstraintContextStore<ID>,
    ) -> (r: Result<Self, CollectionError>)
        requires
            context.wf(),
        ensures
            match r {
                Ok(c) => {
                    &&& c.wf()
                    &&& c.active_map() == active@
                    &&& c.removed_map() == removed@.map_values(|p: (C, RemovedReason)| (p.0, p.1@))
                    &&& c.context_store() == context
                },
                Err(CollectionError::KeyOverlap { id: k, sides }) => sides == OverlapSides::ActiveAndRemoved
                    && is_min_common(active@.dom(), removed@.dom(), k),
                Err(CollectionError::UnknownContextID(k)) => {
                    &&& forall|j: u64| !(active@.contains_key(j) && removed@.contains_key(j))
                    &&& is_min_missing(context.id_set(), active@.dom() + removed@.dom(), k)
                },
                Err(_) => false,
            },
    {
        validate_no_key_overlap(&active, &removed, OverlapSides::ActiveAndRemoved)?;
        let owned = union_of_keys(&active, &removed);
        proof {
            assert(owned@.dom() =~= active@.dom() + removed@.dom());
        }
        validate_context_reference_ids(&context, &owned)?;
        let r = ConstraintCollection { active, removed, context };
        Ok(r)
    }

    /// The label/provenance sidecar.
    pub fn context(&self) -> (r: &ConstraintContextStore<ID>)
        ensures
            *r == self.context_store(),
    {
        &self.context
    }

    /// Checks that every sidecar ID is owned; on failure returns the smallest foreign ID.
    pub fn validate_context_ids(&self) -> (r: Result<(), CollectionError>)
        ensures
            match r {
                Ok(()) => forall|k: u64| self.context_store().id_set().contains(k) ==> self.owned_ids().contains(k),
                Err(CollectionError::UnknownContextID(k)) => is_min_missing(self.context_store().id_set(), self.owned_ids(), k),
                Err(_) => false,
            },
    {
        let owned = union_of_keys(&self.active, &self.removed);
        proof {
            assert(owned@.dom() =~= self.owned_ids());
        }
        validate_context_reference_ids(&self.context, &owned)
    }

    /// The active rows.
    pub fn active(&self) -> (r: &BTreeMap<u64, C>)
        ensures
            r@ == self.active_map(),
    {
        &self.active
    }

    /// The removed rows with their removal reasons.
    pub fn removed(&self) -> (r: &BTreeMap<u64, (C, RemovedReason)>)
        ensures
            r@.map_values(|p: (C, RemovedReason)| (p.0, p.1@)) == self.removed_map(),
    {
        &self.removed
    }

    /// Whether the ID belongs to an active or a removed row.
    pub fn contains_id(&self, id: ID) -> (r: bool)
        ensures
            r == self.owned_ids().contains(id.raw()),
    {
        let k = id.into_inner();
        self.active.contains_key(&k) || self.removed.contains_key(&k)
    }

    /// Replaces the sidecar entry of an owned ID. Unknown IDs are refused, so no
    /// orphan sidecar entry can appear.
    pub fn set_context_for_owner(&mut self, id: ID, context: ConstraintContext) -> (r: Result<(), CollectionError>)
        requires
            old(self).wf(),
        ensures
            final(self).wf(),
            final(self).active_map() == old(self).active_map(),
            final(self).removed_map() == old(self).removed_map(),
            match r {
                Ok(()) => {
                    &&& old(self).owned_ids().contains(id.raw())
                    &&& final(self).context_store().context_of(id.raw()) == context@
                    &&& final(self).context_store().same_except(&old(self).context_store(), id.raw())
                },
                Err(CollectionError::UnknownContextID(k)) => {
                    &&& k == id.raw()
                    &&& !old(self).owned_ids().contains(id.raw())
                    &&& final(self).context_store() == old(self).context_store()
                },
                Err(_) => false,
            },
    {
        if !self.contains_id(id) {
            return Err(CollectionError::UnknownContextID(id.into_inner()));
        }
        self.context.insert(id, context);
        Ok(())
    }

    /// Replaces the payload of an active row, keeping its ID and sidecar.
    /// Returns the previous payload, or `None` (and changes nothing) when the
    /// ID is not active.
    pub fn replace_active(&mut self, id: ID, constraint: C) -> (r: Option<C>)
        requires
            old(self).wf(),
        ensures
            final(self).wf(),
            final(self).removed_map() == old(self).removed_map(),
            final(self).context_store() == old(self).context_store(),
            match r {
                Some(prev) => {
                    &&& old(self).active_map().contains_key(id.raw())
                    &&& prev == old(self).active_map()[id.raw()]
                    &&& final(self).active_map() == old(self).active_map().insert(id.raw(), constraint)
                },
                None => {
                    &&& !old(self).active_map().contains_key(id.raw())
                    &&& final(self).active_map() == old(self).active_map()
                },
            },
    {
        let k = id.into_inner();
        if self.active.contains_key(&k) {
            let r = self.active.insert(k, constraint);
            assert(self.owned_ids() =~= old(self).owned_ids());
            r
        } else {
            None
        }
    }

    /// Replaces the payload of a removed row, keeping its ID, removal reason and
    /// sidecar. Returns the previous payload, or `None` (and changes nothing)
    /// when the ID is not removed.
    pub fn replace_removed(&mut self, id: ID, constraint: C) -> (r: Option<C>)
        requires
            old(self).wf(),
        ensures
            final(self).wf(),
            final(self).active_map() == old(self).active_map(),
            final(self).context_store() == old(self).context_store(),
            match r {
                Some(prev) => {
                    &&& old(self).removed_map().contains_key(id.raw())
                    &&& prev == old(self).removed_map()[id.raw()].0
                    &&& final(self).removed_map() == old(self).removed_map().insert(
                        id.raw(),
                        (constraint, old(self).removed_map()[id.raw()].1),
                    )
                },
                None => {
                    &&& !old(self).removed_map().contains_key(id.raw())
                    &&& final(self).removed_map() == old(self).removed_map()
                },
            },
    {
        let k = id.into_inner();
        if !self.removed.contains_key(&k) {
            return None;
        }
        match self.removed.remove(&k) {
            Some((prev, reason)) => {
                self.removed.insert(k, (constraint, reason));
                assert(self.removed_map() =~= old(self).removed_map().insert(
                    k,
                    (constraint, old(self).removed_map()[k].1),
                ));
                assert(self.owned_ids() =~= old(self).owned_ids());
                Some(prev)
            },
            None => None,
        }
    }

    /// Replaces an active or removed row payload without changing its lifecycle;
    /// `None` when the ID is unknown.
    pub fn replace_row_preserving_lifecycle(&mut self, id: ID, constraint: C) -> (r: Option<C>)
        requires
            old(self).wf(),
        ensures
            final(self).wf(),
            final(self).context_store() == old(self).context_store(),
            old(self).active_map().contains_key(id.raw()) ==> {
                &&& r == Some(old(self).active_map()[id.raw()])
                &&& final(self).active_map() == old(self).active_map().insert(id.raw(), constraint)
                &&& final(self).removed_map() == old(self).removed_map()
            },
            old(self).removed_map().contains_key(id.raw()) ==> {
                &&& r == Some(old(self).removed_map()[id.raw()].0)
                &&& final(self).active_map() == old(self).active_map()
                &&& final(self).removed_map() == old(self).removed_map().insert(
                    id.raw(),
                    (constraint, old(self).removed_map()[id.raw()].1),
                )
            },
            !old(self).owned_ids().contains(id.raw()) ==> {
                &&& r is None
                &&& final(self).active_map() == old(self).active_map()
                &&& final(self).removed_map() == old(self).removed_map()
            },
    {
        if self.active.contains_key(&id.into_inner()) {
            self.replace_active(id, constraint)
        } else {
            self.replace_removed(id, constraint)
        }
    }

    /// Replaces active and removed row payloads in place, keeping lifecycles,
    /// removal reasons and sidecars. Refused (with nothing changed) when an ID is
    /// in both replacement maps, when an active replacement names no active row,
    /// or when a removed replacement names no removed row; each failure reports
    /// the smallest offending ID, checked in that order.
    pub fn replace_rows_preserving_lifecycle(
        &mut self,
        active_replacements: BTreeMap<u64, C>,
        removed_replacements: BTreeMap<u64, C>,
    ) -> (r: Result<(), CollectionError>)
        requires
            old(self).wf(),
        ensures
            final(self).wf(),
            final(self).context_store() == old(self).context_store(),
            match r {
                Ok(()) => {
                    &&& forall|k: u64| active_replacements@.contains_key(k) ==> old(self).active_map().contains_key(k)
                    &&& forall|k: u64| removed_replacements@.contains_key(k) ==> old(self).removed_map().contains_key(k)
                    &&& final(self).active_map() == old(self).active_map().union_prefer_right(active_replacements@)
                    &&& final(self).removed_map() == old(self).removed_map().map_entries(
                        |k: u64, p: (C, ReasonView)|
                            if removed_replacements@.contains_key(k) {
                                (removed_replacements@[k], p.1)
                            } else {
                                p
                            },
                    )
                },
                Err(e) => {
                    &&& final(self).active_map() == old(self).active_map()
                    &&& final(self).removed_map() == old(self).removed_map()
                    &&& match e {
                        CollectionError::KeyOverlap { id: k, sides } => sides == OverlapSides::ActiveAndRemovedReplacements
                            && is_min_common(active_replacements@.dom(), removed_replacements@.dom(), k),
                        CollectionError::ActiveNotFound(k) => {
                            &&& forall|j: u64| !(active_replacements@.contains_key(j) && removed_replacements@.contains_key(j))
                            &&& is_min_missing(active_replacements@.dom(), old(self).active_map().dom(), k)
                        },
                        CollectionError::RemovedNotFound(k) => {
                            &&& forall|j: u64| !(active_replacements@.contains_key(j) && removed_replacements@.contains_key(j))
                            &&& forall|j: u64| active_replacements@.contains_key(j) ==> old(self).active_map().contains_key(j)
                            &&& is_min_missing(removed_replacements@.dom(), old(self).removed_map().dom(), k)
                        },
                        _ => false,
                    }
                },
            },
    {
        validate_no_key_overlap(&active_replacements, &removed_replacements, OverlapSides::ActiveAndRemovedReplacements)?;
        if let Some(k) = first_missing_key(&active_replacements, &self.active) {
            return Err(CollectionError::ActiveNotFound(k));
        }
        if let Some(k) = first_missing_key(&removed_replacements, &self.removed) {
            assert(self.removed_map().dom() =~= self.removed@.dom());
            return Err(CollectionError::RemovedNotFound(k));
        }
        assert(self.removed_map().dom() =~= self.removed@.dom());
        merge_into(&mut self.active, active_replacements);
        assert(self.active@.dom() =~= old(self).active@.dom());
        let ghost active_after = self.active@;
        let ghost removed_before = self.removed@;
        let ghost rep = removed_replacements@;
        let mut removed_replacements = removed_replacements;
        let keys = keys_of(&removed_replacements);
        let mut i: usize = 0;
        while i < keys.len()
            invariant
                i <= keys@.len(),
                forall|k: u64| rep.contains_key(k) <==> keys@.contains(k),
                forall|a: int, b: int| 0 <= a < b < keys@.len() ==> keys@[a] < keys@[b],
                forall|k: u64| rep.contains_key(k) ==> removed_before.contains_key(k),
                self.active@ == active_after,
                self.context == old(self).context,
                forall|k: u64| #[trigger] removed_replacements@.contains_key(k) <==> (rep.contains_key(k)
                    && !keys@.subrange(0, i as int).contains(k)),
                forall|k: u64| #[trigger] removed_replacements@.contains_key(k) ==> removed_replacements@[k] == rep[k],
                self.removed@.dom() == removed_before.dom(),
                forall|k: u64| #[trigger] self.removed@.contains_key(k) ==> self.removed@[k].1 == removed_before[k].1,
                forall|k: u64| #[trigger] self.removed@.contains_key(k) ==> self.removed@[k].0 == (
                    if keys@.subrange(0, i as int).contains(k) { rep[k] } else { removed_before[k].0 }),
            decreases keys@.len() - i,
        {
            let k = keys[i];
            proof {
                lemma_prefix_push_contains(keys@, i as int);
                assert(keys@.contains(k));
                assert(!keys@.subrange(0, i as int).contains(k)) by {
                    if keys@.subrange(0, i as int).contains(k) {
                        let j = choose|j: int| 0 <= j < i && keys@.subrange(0, i as int)[j] == k;
                        assert(keys@[j] < keys@[i as int]);
                    }
                }
            }
            if let Some(c) = removed_replacements.remove(&k) {
                if let Some((_prev, reason)) = self.removed.remove(&k) {
                    self.removed.insert(k, (c, reason));
                }
            }
            i = i + 1;
            proof {
                assert(self.removed@.dom() =~= removed_before.dom());
            }
        }
        proof {
            assert(keys@.subrange(0, keys@.len() as int) =~= keys@);
            assert(self.removed_map() =~= old(self).removed_map().map_entries(
                |k: u64, p: (C, ReasonView)|
                    if rep.contains_key(k) {
                        (rep[k], p.1)
                    } else {
                        p
                    },
            ));
            assert(self.owned_ids() =~= old(self).owned_ids());
        }
        Ok(())
    }

    /// Replaces active rows in place and moves other active rows to the removed
    /// rows with their new payloads and reasons, keeping IDs and sidecars. Refused
    /// (with nothing changed) when an ID is both replaced and removed, or when a
    /// named row is not active; each failure reports the smallest offending ID,
    /// replacements checked before removals.
    pub fn replace_and_remove_active_rows(
        &mut self,
        replacements: BTreeMap<u64, C>,
        removals: BTreeMap<u64, (C, RemovedReason)>,
    ) -> (r: Result<(), CollectionError>)
        requires
            old(self).wf(),
        ensures
            final(self).wf(),
            final(self).context_store() == old(self).context_store(),
            match r {
                Ok(()) => {
                    &&& forall|k: u64| replacements@.contains_key(k) ==> old(self).active_map().contains_key(k)
                    &&& forall|k: u64| removals@.contains_key(k) ==> old(self).active_map().contains_key(k)
                    &&& final(self).active_map() == old(self).active_map().union_prefer_right(replacements@).remove_keys(
                        removals@.dom(),
                    )
                    &&& final(self).removed_map() == old(self).removed_map().union_prefer_right(
                        removals@.map_values(|p: (C, RemovedReason)| (p.0, p.1@)),
                    )
                },
                Err(e) => {
                    &&& final(self).active_map() == old(self).active_map()
                    &&& final(self).removed_map() == old(self).removed_map()
                    &&& match e {
                        CollectionError::KeyOverlap { id: k, sides } => sides == OverlapSides::ReplacementsAndRemovals
                            && is_min_common(replacements@.dom(), removals@.dom(), k),
                        CollectionError::ActiveNotFound(k) => {
                            &&& forall|j: u64| !(replacements@.contains_key(j) && removals@.contains_key(j))
                            &&& (is_min_missing(replacements@.dom(), old(self).active_map().dom(), k) || (
                                (forall|j: u64| replacements@.contains_key(j) ==> old(self).active_map().contains_key(j))
                                && is_min_missing(removals@.dom(), old(self).active_map().dom(), k)))
                        },
                        _ => false,
                    }
                },
            },
    {
        if let Some(k) = first_common_key(&replacements, &removals) {
            return Err(CollectionError::KeyOverlap { id: k, sides: OverlapSides::ReplacementsAndRemovals });
        }
        if let Some(k) = first_missing_key(&replacements, &self.active) {
            return Err(CollectionError::ActiveNotFound(k));
        }
        if let Some(k) = first_missing_key(&removals, &self.active) {
            return Err(CollectionError::ActiveNotFound(k));
        }
        let removal_keys = keys_of(&removals);
        merge_into(&mut self.active, replacements);
        remove_all(&mut self.active, &removal_keys);
        merge_into(&mut self.removed, removals);
        proof {
            assert(removal_keys@.to_set() =~= removals@.dom());
            assert(self.removed_map() =~= old(self).removed_map().union_prefer_right(
                removals@.map_values(|p: (C, RemovedReason)| (p.0, p.1@)),
            ));
            assert(self.owned_ids() =~= old(self).owned_ids());
            assert forall|k: u64| !(self.active_map().contains_key(k) && self.removed_map().contains_key(k)) by {
                if self.removed_map().contains_key(k) && !removals@.contains_key(k) {
                    assert(old(self).removed_map().contains_key(k));
                }
            }
        }
        Ok(())
    }

    /// Replaces active rows in place, keeping IDs and sidecars; refused with the
    /// smallest ID that names no active row.
    pub fn replace_active_rows(&mut self, replacements: BTreeMap<u64, C>) -> (r: Result<(), CollectionError>)
        requires
            old(self).wf(),
        ensures
            final(self).wf(),
            final(self).context_store() == old(self).context_store(),
            final(self).removed_map() == old(self).removed_map(),
            match r {
                Ok(()) => {
                    &&& forall|k: u64| replacements@.contains_key(k) ==> old(self).active_map().contains_key(k)
                    &&& final(self).active_map() == old(self).active_map().union_prefer_right(replacements@)
                },
                Err(CollectionError::ActiveNotFound(k)) => {
                    &&& is_min_missing(replacements@.dom(), old(self).active_map().dom(), k)
                    &&& final(self).active_map() == old(self).active_map()
                },
                Err(_) => false,
            },
    {
        let no_removals: BTreeMap<u64, (C, RemovedReason)> = BTreeMap::new();
        assert(no_removals@.dom() =~= Set::<u64>::empty());
        let r = self.replace_and_remove_active_rows(replacements, no_removals);
        proof {
            if r is Ok {
                assert(old(self).active_map().union_prefer_right(replacements@).remove_keys(Set::empty()) =~= old(self).active_map().union_prefer_right(replacements@));
                assert(no_removals@.map_values(|p: (C, RemovedReason)| (p.0, p.1@)) =~= Map::<u64, (C, ReasonView)>::empty());
                assert(self.removed_map() =~= old(self).removed_map());
            }
        }
        r
    }

    /// Replaces one active row in place; refused when the ID is not active.
    pub fn replace_active_row(&mut self, id: ID, constraint: C) -> (r: Result<(), CollectionError>)
        requires
            old(self).wf(),
        ensures
            final(self).wf(),
            final(self).context_store() == old(self).context_store(),
            final(self).removed_map() == old(self).removed_map(),
            match r {
                Ok(()) => {
                    &&& old(self).active_map().contains_key(id.raw())
                    &&& final(self).active_map() == old(self).active_map().insert(id.raw(), constraint)
                },
                Err(CollectionError::ActiveNotFound(k)) => {
                    &&& k == id.raw()
                    &&& !old(self).active_map().contains_key(id.raw())
                    &&& final(self).active_map() == old(self).active_map()
                },
                Err(_) => false,
            },
    {
        let mut replacements: BTreeMap<u64, C> = BTreeMap::new();
        replacements.insert(id.into_inner(), constraint);
        let r = self.replace_active_rows(replacements);
        proof {
            assert(replacements@.dom() =~= set![id.raw()]);
            assert(replacements@ =~= Map::<u64, C>::empty().insert(id.raw(), constraint));
            assert(replacements@.contains_key(id.raw()));
            if r is Ok {
                assert(self.active_map() =~= old(self).active_map().insert(id.raw(), constraint));
            }
        }
        r
    }

    /// Moves active rows to the removed rows with precomputed payloads and
    /// reasons; refused with the smallest ID that names no active row.
    pub fn move_active_rows_to_removed(&mut self, removals: BTreeMap<u64, (C, RemovedReason)>) -> (r: Result<(), CollectionError>)
        requires
            old(self).wf(),
        ensures
            final(self).wf(),
            final(self).context_store() == old(self).context_store(),
            match r {
                Ok(()) => {
                    &&& forall|k: u64| removals@.contains_key(k) ==> old(self).active_map().contains_key(k)
                    &&& final(self).active_map() == old(self).active_map().remove_keys(removals@.dom())
                    &&& final(self).removed_map() == old(self).removed_map().union_prefer_right(
                        removals@.map_values(|p: (C, RemovedReason)| (p.0, p.1@)),
                    )
                },
                Err(CollectionError::ActiveNotFound(k)) => {
                    &&& is_min_missing(removals@.dom(), old(self).active_map().dom(), k)
                    &&& final(self).active_map() == old(self).active_map()
                    &&& final(self).removed_map() == old(self).removed_map()
                },
                Err(_) => false,
            },
    {
        let no_replacements: BTreeMap<u64, C> = BTreeMap::new();
        let r = self.replace_and_remove_active_rows(no_replacements, removals);
        proof {
            assert(old(self).active_map().union_prefer_right(no_replacements@) =~= old(self).active_map());
        }
        r
    }

    /// Inserts a new active row together with its sidecar entry. Refused when
    /// the ID is already used by an active row, or else by a removed row.
    pub fn insert_active_with_context(&mut self, id: ID, constraint: C, context: ConstraintContext) -> (r: Result<(), CollectionError>)
        requires
            old(self).wf(),
        ensures
            final(self).wf(),
            match r {
                Ok(()) => {
                    &&& !old(self).owned_ids().contains(id.raw())
                    &&& final(self).active_map() == old(self).active_map().insert(id.raw(), constraint)
                    &&& final(self).removed_map() == old(self).removed_map()
                    &&& final(self).context_store().context_of(id.raw()) == context@
                    &&& final(self).context_store().same_except(&old(self).context_store(), id.raw())
                },
                Err(e) => {
                    &&& final(self).active_map() == old(self).active_map()
                    &&& final(self).removed_map() == old(self).removed_map()
                    &&& final(self).context_store() == old(self).context_store()
                    &&& match e {
                        CollectionError::DuplicateActive(k) => k == id.raw() && old(self).active_map().contains_key(k),
                        CollectionError::DuplicateRemoved(k) => k == id.raw() && !old(self).active_map().contains_key(k)
                            && old(self).removed_map().contains_key(k),
                        _ => false,
                    }
                },
            },
    {
        let k = id.into_inner();
        if self.active.contains_key(&k) {
            return Err(CollectionError::DuplicateActive(k));
        }
        if self.removed.contains_key(&k) {
            return Err(CollectionError::DuplicateRemoved(k));
        }
        assert(!self.removed_map().contains_key(k));
        self.active.insert(k, constraint);
        self.context.insert(id, context);
        proof {
            assert forall|j: u64| #[trigger] self.context_store().id_set().contains(j) implies self.owned_ids().contains(j) by {
                if j != k {
                    assert(old(self).context_store().id_set().contains(j));
                }
            }
        }
        Ok(())
    }

    /// An ID used by no active or removed row: `0` for an empty collection,
    /// otherwise one more than the largest used ID.
    pub fn unused_id(&self) -> (r: ID)
        requires
            forall|k: u64| #[trigger] self.owned_ids().contains(k) ==> k < u64::MAX,
        ensures
            !self.owned_ids().contains(r.raw()),
            self.owned_ids().is_empty() ==> r.raw() == 0,
            !self.owned_ids().is_empty() ==> self.owned_ids().contains((r.raw() - 1) as u64)
                && forall|k: u64| #[trigger] self.owned_ids().contains(k) ==> k < r.raw(),
    {
        let all = union_of_keys(&self.active, &self.removed);
        let keys = keys_of(&all);
        if keys.len() == 0 {
            proof {
                assert(self.owned_ids() =~= Set::empty()) by {
                    assert forall|k: u64| !self.owned_ids().contains(k) by {
                        if self.owned_ids().contains(k) {
                            assert(all@.contains_key(k));
                            assert(keys@.contains(k));
                        }
                    }
                }
            }
            return ID::from_raw(0);
        }
        let last = keys[keys.len() - 1];
        proof {
            assert(keys@.contains(last));
            assert(self.owned_ids().contains(last));
            assert forall|k: u64| #[trigger] self.owned_ids().contains(k) implies k <= last by {
                assert(all@.contains_key(k));
                assert(keys@.contains(k));
                let t = choose|t: int| 0 <= t < keys@.len() && keys@[t] == k;
                if t < keys@.len() - 1 {
                    assert(keys@[t] < keys@[keys@.len() - 1]);
                }
            }
        }
        ID::from_raw(last + 1)
    }

    /// Moves an active row to the removed rows with a reason; refused (with
    /// nothing changed) when the ID is not active.
    pub fn relax(&mut self, id: ID, removed_reason: RemovedReason) -> (r: Result<(), CollectionError>)
        requires
            old(self).wf(),
        ensures
            final(self).wf(),
            final(self).context_store() == old(self).context_store(),
            final(self).owned_ids() == old(self).owned_ids(),
            match r {
                Ok(()) => {
                    &&& old(self).active_map().contains_key(id.raw())
                    &&& (final(self).active_map(), final(self).removed_map()) == relax_effect(
                        old(self).active_map(),
                        old(self).removed_map(),
                        id.raw(),
                        removed_reason@,
                    )
                },
                Err(CollectionError::ActiveNotFound(k)) => {
                    &&& k == id.raw()
                    &&& !old(self).active_map().contains_key(id.raw())
                    &&& final(self).active_map() == old(self).active_map()
                    &&& final(self).removed_map() == old(self).removed_map()
                },
                Err(_) => false,
            },
    {
        let k = id.into_inner();
        if !self.active.contains_key(&k) {
            return Err(CollectionError::ActiveNotFound(k));
        }
        match self.active.remove(&k) {
            Some(c) => {
                self.removed.insert(k, (c, removed_reason));
            },
            None => {},
        }
        proof {
            assert(self.removed_map() =~= old(self).removed_map().insert(k, (old(self).active_map()[k], removed_reason@)));
            assert(self.owned_ids() =~= old(self).owned_ids());
        }
        Ok(())
    }

    /// Moves a removed row back to the active rows with payload `constraint`,
    /// returning its removal reason; refused (with nothing changed) when the ID
    /// is not removed. The sidecar entry is kept.
    pub fn restore_removed_row(&mut self, id: ID, constraint: C) -> (r: Result<RemovedReason, CollectionError>)
        requires
            old(self).wf(),
        ensures
            final(self).wf(),
            final(self).context_store() == old(self).context_store(),
            final(self).owned_ids() == old(self).owned_ids(),
            match r {
                Ok(reason) => {
                    &&& old(self).removed_map().contains_key(id.raw())
                    &&& reason@ == old(self).removed_map()[id.raw()].1
                    &&& (final(self).active_map(), final(self).removed_map()) == restore_effect(
                        old(self).active_map(),
                        old(self).removed_map(),
                        id.raw(),
                        constraint,
                    )
                },
                Err(CollectionError::RemovedNotFound(k)) => {
                    &&& k == id.raw()
                    &&& !old(self).removed_map().contains_key(id.raw())
                    &&& final(self).active_map() == old(self).active_map()
                    &&& final(self).removed_map() == old(self).removed_map()
                },
                Err(_) => false,
            },
    {
        let k = id.into_inner();
        if !self.removed.contains_key(&k) {
            return Err(CollectionError::RemovedNotFound(k));
        }
        match self.removed.remove(&k) {
            Some((_prev, reason)) => {
                self.active.insert(k, constraint);
                proof {
                    assert(self.removed_map() =~= old(self).removed_map().remove(k));
                    assert(self.owned_ids() =~= old(self).owned_ids());
                }
                Ok(reason)
            },
            None => Err(CollectionError::RemovedNotFound(k)),
        }
    }
}

} // verus!

verus! {

/// Relaxing an active row and then restoring it with its original payload gives
/// back the original active and removed rows.
pub proof fn lemma_relax_then_restore<C>(
    active: Map<u64, C>,
    removed: Map<u64, (C, ReasonView)>,
    id: u64,
    reason: ReasonView,
)
    requires
        active.contains_key(id),
        !removed.contains_key(id),
    ensures
        ({
            let (a1, r1) = relax_effect(active, removed, id, reason);
            restore_effect(a1, r1, id, active[id])
        }) == (active, removed),
{
    let (a1, r1) = relax_effect(active, removed, id, reason);
    assert(a1.insert(id, active[id]) =~= active);
    assert(r1.remove(id) =~= removed);
}

/// Restoring a removed row with its stored payload and then relaxing it again
/// with its stored reason gives back the original active and removed rows.
pub proof fn lemma_restore_then_relax<C>(
    active: Map<u64, C>,
    removed: Map<u64, (C, ReasonView)>,
    id: u64,
)
    requires
        removed.contains_key(id),
        !active.contains_key(id),
    ensures
        ({
            let (a1, r1) = restore_effect(active, removed, id, removed[id].0);
            relax_effect(a1, r1, id, removed[id].1)
        }) == (active, removed),
{
    let (a1, r1) = restore_effect(active, removed, id, removed[id].0);
    assert(a1.remove(id) =~= active);
    assert(r1.insert(id, (a1[id], removed[id].1)) =~= removed);
}

/// What every evaluated constraint row can tell a collection.
pub trait EvaluatedConstraintBehavior {
    /// Whether the evaluated row satisfies its constraint.
    spec fn feasible(&self) -> bool;

    fn is_feasible(&self) -> (r: bool)
        ensures
            r == self.feasible(),
    ;
}

/// What every sampled constraint row can tell a collection.
pub trait SampledConstraintBehavior {
    /// Feasibility of the row for one sample; `None` when the sample is unknown.
    spec fn feasible_for(&self, sample: u64) -> Option<bool>;

    /// Decision variables recorded as used by the row.
    spec fn used_ids(&self) -> Seq<crate::ids::VariableID>;

    fn is_feasible_for(&self, sample_id: crate::ids::SampleID) -> (r: Option<bool>)
        ensures
            r == self.feasible_for(sample_id.0),
    ;

    fn used_decision_variable_ids(&self) -> (r: &Vec<crate::ids::VariableID>)
        ensures
            r@ == self.used_ids(),
    ;

    /// The samples the row has values for.
    spec fn sample_ids(&self) -> Set<u64>;

    /// Checks that the row has values for exactly the `expected` samples; on
    /// failure returns the samples it has.
    fn validate_sample_ids(&self, expected: &BTreeSet<u64>) -> (r: Result<(), BTreeSet<u64>>)
        ensures
            r is Ok <==> self.sample_ids() == expected@,
            r matches Err(s) ==> s@ == self.sample_ids(),
    ;
}

/// The outcome of evaluating one regular constraint, without the evaluated value.
#[derive(Clone, Debug, PartialEq)]
pub struct EvaluatedConstraintStatus {
    pub equality: crate::constraint::Equality,
    pub feasible: bool,
    pub used_decision_variable_ids: Vec<crate::ids::VariableID>,
}

impl EvaluatedConstraintBehavior for EvaluatedConstraintStatus {
    open spec fn feasible(&self) -> bool {
        self.feasible
    }

    fn is_feasible(&self) -> (r: bool) {
        self.feasible
    }
}

/// The outcome of evaluating one regular constraint against many samples,
/// without the evaluated values: per-sample feasibility keyed by raw sample ID.
#[derive(Debug)]
pub struct SampledConstraintStatus {
    pub equality: crate::constraint::Equality,
    pub feasible: BTreeMap<u64, bool>,
    pub used_decision_variable_ids: Vec<crate::ids::VariableID>,
}

impl SampledConstraintStatus {
    /// The outcome for one sample, or `None` when the row has no value for it.
    pub fn get(&self, sample_id: crate::ids::SampleID) -> (r: Option<EvaluatedConstraintStatus>)
        ensures
            match r {
                Some(e) => {
                    &&& self.feasible@.contains_key(sample_id.0)
                    &&& e.feasible == self.feasible@[sample_id.0]
                    &&& e.equality == self.equality
                    &&& e.used_decision_variable_ids@ == self.used_decision_variable_ids@
                },
                None => !self.feasible@.contains_key(sample_id.0),
            },
    {
        match self.feasible.get(&sample_id.0) {
            Some(f) => {
                let mut used: Vec<crate::ids::VariableID> = Vec::new();
                let mut i: usize = 0;
                while i < self.used_decision_variable_ids.len()
                    invariant
                        i <= self.used_decision_variable_ids@.len(),
                        used@ == self.used_decision_variable_ids@.subrange(0, i as int),
                    decreases self.used_decision_variable_ids@.len() - i,
                {
                    used.push(self.used_decision_variable_ids[i]);
                    i = i + 1;
                    assert(used@ =~= self.used_decision_variable_ids@.subrange(0, i as int));
                }
                assert(used@ =~= self.used_decision_variable_ids@);
                Some(EvaluatedConstraintStatus { equality: self.equality, feasible: *f, used_decision_variable_ids: used })
            },
            None => None,
        }
    }
}

impl SampledConstraintStatus {
    /// The samples whose feasibility is `want`.
    fn samples_with(&self, want: bool) -> (r: BTreeSet<u64>)
        ensures
            forall|k: u64| #[trigger] r@.contains(k) <==> self.feasible@.contains_key(k) && self.feasible@[k] == want,
    {
        let keys = keys_of(&self.feasible);
        let mut ids: BTreeSet<u64> = BTreeSet::new();
        let mut i: usize = 0;
        while i < keys.len()
            invariant
                i <= keys@.len(),
                forall|k: u64| self.feasible@.contains_key(k) <==> keys@.contains(k),
                forall|x: u64| #[trigger] ids@.contains(x) <==> exists|j: int|
                    0 <= j < i && keys@[j] == x && self.feasible@[x] == want,
            decreases keys@.len() - i,
        {
            let k = keys[i];
            proof {
                assert(keys@.contains(k));
            }
            let f = *self.feasible.get(&k).unwrap();
            if f == want {
                ids.insert(k);
            }
            proof {
                assert forall|x: u64| #[trigger] ids@.contains(x) <==> exists|j: int|
                    0 <= j < i + 1 && keys@[j] == x && self.feasible@[x] == want by {
                    if x == k && f == want {
                        assert(keys@[i as int] == x);
                    }
                    if exists|j: int| 0 <= j < i + 1 && keys@[j] == x && self.feasible@[x] == want {
                        let j = choose|j: int| 0 <= j < i + 1 && keys@[j] == x && self.feasible@[x] == want;
                        if j < i {
                            assert(exists|j2: int| 0 <= j2 < i && keys@[j2] == x && self.feasible@[x] == want);
                        }
                    }
                }
            }
            i = i + 1;
        }
        proof {
            assert forall|x: u64| #[trigger] ids@.contains(x) <==> self.feasible@.contains_key(x)
                && self.feasible@[x] == want by {
                if self.feasible@.contains_key(x) && self.feasible@[x] == want {
                    assert(keys@.contains(x));
                    let j = choose|j: int| 0 <= j < keys@.len() && keys@[j] == x;
                    assert(0 <= j < i && keys@[j] == x && self.feasible@[x] == want);
                }
                if ids@.contains(x) {
                    let j = choose|j: int| 0 <= j < i && keys@[j] == x && self.feasible@[x] == want;
                    assert(keys@.contains(x));
                }
            }
        }
        ids
    }

    /// The samples on which the constraint holds.
    pub fn feasible_ids(&self) -> (r: BTreeSet<u64>)
        ensures
            forall|k: u64| #[trigger] r@.contains(k) <==> self.feasible@.contains_key(k) && self.feasible@[k],
    {
        self.samples_with(true)
    }

    /// The samples on which the constraint fails.
    pub fn infeasible_ids(&self) -> (r: BTreeSet<u64>)
        ensures
            forall|k: u64| #[trigger] r@.contains(k) <==> self.feasible@.contains_key(k) && !self.feasible@[k],
    {
        self.samples_with(false)
    }
}

impl SampledConstraintBehavior for SampledConstraintStatus {
    open spec fn feasible_for(&self, sample: u64) -> Option<bool> {
        if self.feasible@.contains_key(sample) {
            Some(self.feasible@[sample])
        } else {
            None
        }
    }

    open spec fn used_ids(&self) -> Seq<crate::ids::VariableID> {
        self.used_decision_variable_ids@
    }

    fn is_feasible_for(&self, sample_id: crate::ids::SampleID) -> (r: Option<bool>) {
        match self.feasible.get(&sample_id.0) {
            Some(b) => Some(*b),
            None => None,
        }
    }

    fn used_decision_variable_ids(&self) -> (r: &Vec<crate::ids::VariableID>) {
        &self.used_decision_variable_ids
    }

    open spec fn sample_ids(&self) -> Set<u64> {
        self.feasible@.dom()
    }

    fn validate_sample_ids(&self, expected: &BTreeSet<u64>) -> (r: Result<(), BTreeSet<u64>>) {
        let keys = keys_of(&self.feasible);
        let mut ids: BTreeSet<u64> = BTreeSet::new();
        let mut all_expected = true;
        let mut i: usize = 0;
        while i < keys.len()
            invariant
                i <= keys@.len(),
                forall|x: u64| ids@.contains(x) <==> exists|j: int| 0 <= j < i && keys@[j] == x,
                all_expected <==> forall|j: int| 0 <= j < i ==> expected@.contains(#[trigger] keys@[j]),
            decreases keys@.len() - i,
        {
            let k = keys[i];
            if !expected.contains(&k) {
                all_expected = false;
            }
            ids.insert(k);
            proof {
                assert forall|x: u64| ids@.contains(x) <==> exists|j: int| 0 <= j < i + 1 && keys@[j] == x by {
                    if x == k {
                        assert(keys@[i as int] == x);
                    }
                    if exists|j: int| 0 <= j < i + 1 && keys@[j] == x {
                        let j = choose|j: int| 0 <= j < i + 1 && keys@[j] == x;
                        if j < i {
                            assert(exists|j2: int| 0 <= j2 < i && keys@[j2] == x);
                        }
                    }
                }
            }
            i = i + 1;
        }
        proof {
            assert(ids@ =~= self.feasible@.dom()) by {
                assert forall|x: u64| ids@.contains(x) <==> self.feasible@.dom().contains(x) by {
                    if self.feasible@.contains_key(x) {
                        assert(keys@.contains(x));
                        let j = choose|j: int| 0 <= j < keys@.len() && keys@[j] == x;
                    }
                    if ids@.contains(x) {
                        let j = choose|j: int| 0 <= j < keys@.len() && keys@[j] == x;
                        assert(keys@.contains(x));
                    }
                }
            }
            keys@.unique_seq_to_set();
            assert(keys@.no_duplicates()) by {
                assert forall|a: int, b: int| 0 <= a < keys@.len() && 0 <= b < keys@.len() && a != b implies keys@[a] != keys@[b] by {
                    if a < b {
                        assert(keys@[a] < keys@[b]);
                    } else {
                        assert(keys@[b] < keys@[a]);
                    }
                }
            }
            assert(keys@.to_set() =~= ids@);
        }
        if all_expected && ids.len() == expected.len() {
            proof {
                assert(ids@.subset_of(expected@)) by {
                    assert forall|x: u64| ids@.contains(x) implies expected@.contains(x) by {
                        let j = choose|j: int| 0 <= j < keys@.len() && keys@[j] == x;
                    }
                }
                let rest = vstd::std_specs::btree::spec_btree_keys_iter(expected).remaining().unref();
                assert(rest.to_set() == expected@);
                vstd::seq_lib::seq_to_set_is_finite(rest);
                vstd::set_lib::lemma_subset_equality(ids@, expected@);
            }
            Ok(())
        } else {
            proof {
                if ids@ == expected@ {
                    assert(all_expected) by {
                        assert forall|j: int| 0 <= j < keys@.len() implies expected@.contains(#[trigger] keys@[j]) by {
                            assert(ids@.contains(keys@[j]));
                        }
                    }
                }
            }
            Err(ids)
        }
    }
}

/// Evaluated constraints of one family: one evaluated row per constraint
/// (removed ones included), the removal reasons of the removed ones, and the
/// label/provenance sidecar.
pub struct EvaluatedCollection<ID, E> {
    constraints: BTreeMap<u64, E>,
    removed_reasons: BTreeMap<u64, RemovedReason>,
    context: ConstraintContextStore<ID>,
}

impl<ID: IDType, E: EvaluatedConstraintBehavior> EvaluatedCollection<ID, E> {
    pub closed spec fn rows(&self) -> Map<u64, E> {
        self.constraints@
    }

    pub closed spec fn reasons(&self) -> Map<u64, ReasonView> {
        self.removed_reasons@.map_values(|r: RemovedReason| r@)
    }

    pub closed spec fn context_store(&self) -> ConstraintContextStore<ID> {
        self.context
    }

    pub open spec fn wf(&self) -> bool {
        &&& forall|k: u64| self.reasons().contains_key(k) ==> #[trigger] self.rows().contains_key(k)
        &&& self.context_store().wf()
        &&& forall|k: u64| #[trigger] self.context_store().id_set().contains(k) ==> self.rows().contains_key(k)
    }

    /// An empty collection.
    pub fn new_empty() -> (r: Self)
        ensures
            r.wf(),
            r.rows().is_empty(),
            r.reasons().is_empty(),
    {
        let r = EvaluatedCollection {
            constraints: BTreeMap::new(),
            removed_reasons: BTreeMap::new(),
            context: ConstraintContextStore::new(),
        };
        assert(r.reasons() =~= Map::empty());
        r
    }

    /// Builds a collection without sidecars; refused with the smallest ID of a
    /// removal reason that has no row.
    pub fn new(constraints: BTreeMap<u64, E>, removed_reasons: BTreeMap<u64, RemovedReason>) -> (r: Result<Self, CollectionError>)
        ensures
            match r {
                Ok(c) => {
                    &&& c.wf()
                    &&& c.rows() == constraints@
                    &&& c.reasons() == removed_reasons@.map_values(|r: RemovedReason| r@)
                    &&& c.context_store().id_set().is_empty()
                },
                Err(CollectionError::UnknownRemovedReason(k)) => is_min_missing(
                    removed_reasons@.dom(),
                    constraints@.dom(),
                    k,
                ),
                Err(_) => false,
            },
    {
        validate_removed_reasons_reference_entries(&constraints, &removed_reasons)?;
        Ok(EvaluatedCollection { constraints, removed_reasons, context: ConstraintContextStore::new() })
    }

    /// Builds a collection with its sidecar; refused with the smallest ID of a
    /// removal reason that has no row, or else with the smallest sidecar ID that
    /// has no row.
    pub fn with_context(
        constraints: BTreeMap<u64, E>,
        removed_reasons: BTreeMap<u64, RemovedReason>,
        context: ConstraintContextStore<ID>,
    ) -> (r: Result<Self, CollectionError>)
        requires
            context.wf(),
        ensures
            match r {
                Ok(c) => {
                    &&& c.wf()
                    &&& c.rows() == constraints@
                    &&& c.reasons() == removed_reasons@.map_values(|r: RemovedReason| r@)
                    &&& c.context_store() == context
                },
                Err(CollectionError::UnknownRemovedReason(k)) => is_min_missing(
                    removed_reasons@.dom(),
                    constraints@.dom(),
                    k,
                ),
                Err(CollectionError::UnknownContextID(k)) => {
                    &&& forall|j: u64| removed_reasons@.contains_key(j) ==> constraints@.contains_key(j)
                    &&& is_min_missing(context.id_set(), constraints@.dom(), k)
                },
                Err(_) => false,
            },
    {
        validate_removed_reasons_reference_entries(&constraints, &removed_reasons)?;
        let no_rows: BTreeMap<u64, ()> = BTreeMap::new();
        let owned = union_of_keys(&constraints, &no_rows);
        proof {
            assert(owned@.dom() =~= constraints@.dom());
        }
        validate_context_reference_ids(&context, &owned)?;
        Ok(EvaluatedCollection { constraints, removed_reasons, context })
    }

    /// The evaluated rows.
    pub fn inner(&self) -> (r: &BTreeMap<u64, E>)
        ensures
            r@ == self.rows(),
    {
        &self.constraints
    }

    /// Replaces an evaluated row in place, keeping its removal state and sidecar;
    /// `None` (and nothing changed) when the ID is unknown.
    pub fn replace_evaluated_row(&mut self, id: ID, constraint: E) -> (r: Option<E>)
        requires
            old(self).wf(),
        ensures
            final(self).wf(),
            final(self).reasons() == old(self).reasons(),
            final(self).context_store() == old(self).context_store(),
            match r {
                Some(prev) => {
                    &&& old(self).rows().contains_key(id.raw())
                    &&& prev == old(self).rows()[id.raw()]
                    &&& final(self).rows() == old(self).rows().insert(id.raw(), constraint)
                },
                None => {
                    &&& !old(self).rows().contains_key(id.raw())
                    &&& final(self).rows() == old(self).rows()
                },
            },
    {
        let k = id.into_inner();
        if self.constraints.contains_key(&k) {
            let r = self.constraints.insert(k, constraint);
            assert(self.rows().dom() =~= old(self).rows().dom());
            r
        } else {
            None
        }
    }

    /// The removal reasons of removed constraints.
    pub fn removed_reasons(&self) -> (r: &BTreeMap<u64, RemovedReason>)
        ensures
            r@.map_values(|r: RemovedReason| r@) == self.reasons(),
    {
        &self.removed_reasons
    }

    /// The label/provenance sidecar.
    pub fn context(&self) -> (r: &ConstraintContextStore<ID>)
        ensures
            *r == self.context_store(),
    {
        &self.context
    }

    /// Checks that every sidecar ID has a row; on failure returns the smallest foreign ID.
    pub fn validate_context_ids(&self) -> (r: Result<(), CollectionError>)
        ensures
            match r {
                Ok(()) => forall|k: u64| self.context_store().id_set().contains(k) ==> self.rows().contains_key(k),
                Err(CollectionError::UnknownContextID(k)) => is_min_missing(
                    self.context_store().id_set(),
                    self.rows().dom(),
                    k,
                ),
                Err(_) => false,
            },
    {
        let no_rows: BTreeMap<u64, ()> = BTreeMap::new();
        let owned = union_of_keys(&self.constraints, &no_rows);
        proof {
            assert(owned@.dom() =~= self.rows().dom());
        }
        validate_context_reference_ids(&self.context, &owned)
    }

    /// Whether the constraint was removed before evaluation.
    pub fn is_removed(&self, id: ID) -> (r: bool)
        ensures
            r == self.reasons().contains_key(id.raw()),
    {
        self.removed_reasons.contains_key(&id.into_inner())
    }

    pub fn is_empty(&self) -> (r: bool)
        ensures
            r == self.rows().is_empty(),
    {
        let r = self.constraints.is_empty();
        proof {
            if !r {
                let k = choose|k: u64| self.rows().contains_key(k);
                assert(self.rows().dom().contains(k));
            }
        }
        r
    }

    /// Whether every evaluated row, removed ones included, is feasible.
    pub fn is_feasible(&self) -> (r: bool)
        ensures
            r == forall|k: u64| #[trigger] self.rows().contains_key(k) ==> self.rows()[k].feasible(),
    {
        let keys = keys_of(&self.constraints);
        let mut i: usize = 0;
        while i < keys.len()
            invariant
                i <= keys@.len(),
                forall|k: u64| self.rows().contains_key(k) <==> keys@.contains(k),
                forall|j: int| 0 <= j < i ==> self.rows()[#[trigger] keys@[j]].feasible(),
            decreases keys@.len() - i,
        {
            proof {
                assert(keys@.contains(keys@[i as int]));
            }
            let feasible = match self.constraints.get(&keys[i]) {
                Some(c) => c.is_feasible(),
                None => true,
            };
            if !feasible {
                return false;
            }
            i = i + 1;
        }
        proof {
            assert forall|k: u64| #[trigger] self.rows().contains_key(k) implies self.rows()[k].feasible() by {
                assert(keys@.contains(k));
                let t = choose|t: int| 0 <= t < keys@.len() && keys@[t] == k;
                assert(self.rows()[keys@[t]].feasible());
            }
        }
        true
    }

    /// Whether every evaluated row that was not removed is feasible.
    pub fn is_feasible_relaxed(&self) -> (r: bool)
        ensures
            r == forall|k: u64| #[trigger] self.rows().contains_key(k) && !self.reasons().contains_key(k)
                ==> self.rows()[k].feasible(),
    {
        let keys = keys_of(&self.constraints);
        let mut i: usize = 0;
        while i < keys.len()
            invariant
                i <= keys@.len(),
                forall|k: u64| self.rows().contains_key(k) <==> keys@.contains(k),
                forall|j: int| 0 <= j < i ==> !self.reasons().contains_key(#[trigger] keys@[j])
                    ==> self.rows()[keys@[j]].feasible(),
            decreases keys@.len() - i,
        {
            proof {
                assert(keys@.contains(keys@[i as int]));
            }
            if !self.removed_reasons.contains_key(&keys[i]) {
                let feasible = match self.constraints.get(&keys[i]) {
                    Some(c) => c.is_feasible(),
                    None => true,
                };
                if !feasible {
                    return false;
                }
            }
            i = i + 1;
        }
        proof {
            assert forall|k: u64| #[trigger] self.rows().contains_key(k) && !self.reasons().contains_key(k)
                implies self.rows()[k].feasible() by {
                assert(keys@.contains(k));
                let t = choose|t: int| 0 <= t < keys@.len() && keys@[t] == k;
                assert(!self.reasons().contains_key(keys@[t]));
            }
        }
        true
    }
}

} // verus!

verus! {

/// `v` occurs in `s`, is not in `known`, and every variable before its
/// occurrence is in `known`.
pub open spec fn is_first_unknown(s: Seq<crate::ids::VariableID>, known: Set<u64>, v: crate::ids::VariableID) -> bool {
    exists|i: int| 0 <= i < s.len() && s[i] == v && !known.contains(v.0)
        && forall|j: int| 0 <= j < i ==> known.contains(#[trigger] s[j].0)
}

/// Whether every used decision variable of `row` is a key of `known`.
pub open spec fn uses_only<S: SampledConstraintBehavior>(row: S, known: Set<u64>) -> bool {
    forall|i: int| 0 <= i < row.used_ids().len() ==> known.contains(#[trigger] row.used_ids()[i].0)
}

/// Sampled constraints of one family: one sampled row per constraint (removed
/// ones included), the removal reasons of the removed ones, and the
/// label/provenance sidecar.
pub struct SampledCollection<ID, S> {
    constraints: BTreeMap<u64, S>,
    removed_reasons: BTreeMap<u64, RemovedReason>,
    context: ConstraintContextStore<ID>,
}

impl<ID: IDType, S: SampledConstraintBehavior> SampledCollection<ID, S> {
    pub closed spec fn rows(&self) -> Map<u64, S> {
        self.constraints@
    }

    pub closed spec fn reasons(&self) -> Map<u64, ReasonView> {
        self.removed_reasons@.map_values(|r: RemovedReason| r@)
    }

    pub closed spec fn context_store(&self) -> ConstraintContextStore<ID> {
        self.context
    }

    pub open spec fn wf(&self) -> bool {
        &&& forall|k: u64| self.reasons().contains_key(k) ==> #[trigger] self.rows().contains_key(k)
        &&& self.context_store().wf()
        &&& forall|k: u64| #[trigger] self.context_store().id_set().contains(k) ==> self.rows().contains_key(k)
    }

    /// An empty collection.
    pub fn new_empty() -> (r: Self)
        ensures
            r.wf(),
            r.rows().is_empty(),
            r.reasons().is_empty(),
    {
        let r = SampledCollection {
            constraints: BTreeMap::new(),
            removed_reasons: BTreeMap::new(),
            context: ConstraintContextStore::new(),
        };
        assert(r.reasons() =~= Map::empty());
        r
    }

    /// Builds a collection without sidecars; refused with the smallest ID of a
    /// removal reason that has no row.
    pub fn new(constraints: BTreeMap<u64, S>, removed_reasons: BTreeMap<u64, RemovedReason>) -> (r: Result<Self, CollectionError>)
        ensures
            match r {
                Ok(c) => {
                    &&& c.wf()
                    &&& c.rows() == constraints@
                    &&& c.reasons() == removed_reasons@.map_values(|r: RemovedReason| r@)
                    &&& c.context_store().id_set().is_empty()
                },
                Err(CollectionError::UnknownRemovedReason(k)) => is_min_missing(
                    removed_reasons@.dom(),
                    constraints@.dom(),
                    k,
                ),
                Err(_) => false,
            },
    {
        validate_removed_reasons_reference_entries(&constraints, &removed_reasons)?;
        Ok(SampledCollection { constraints, removed_reasons, context: ConstraintContextStore::new() })
    }

    /// Builds a collection with its sidecar; refused with the smallest ID of a
    /// removal reason that has no row, or else with the smallest sidecar ID that
    /// has no row.
    pub fn with_context(
        constraints: BTreeMap<u64, S>,
        removed_reasons: BTreeMap<u64, RemovedReason>,
        context: ConstraintContextStore<ID>,
    ) -> (r: Result<Self, CollectionError>)
        requires
            context.wf(),
        ensures
            match r {
                Ok(c) => {
                    &&& c.wf()
                    &&& c.rows() == constraints@
                    &&& c.reasons() == removed_reasons@.map_values(|r: RemovedReason| r@)
                    &&& c.context_store() == context
                },
                Err(CollectionError::UnknownRemovedReason(k)) => is_min_missing(
                    removed_reasons@.dom(),
                    constraints@.dom(),
                    k,
                ),
                Err(CollectionError::UnknownContextID(k)) => {
                    &&& forall|j: u64| removed_reasons@.contains_key(j) ==> constraints@.contains_key(j)
                    &&& is_min_missing(context.id_set(), constraints@.dom(), k)
                },
                Err(_) => false,
            },
    {
        validate_removed_reasons_reference_entries(&constraints, &removed_reasons)?;
        let no_rows: BTreeMap<u64, ()> = BTreeMap::new();
        let owned = union_of_keys(&constraints, &no_rows);
        proof {
            assert(owned@.dom() =~= constraints@.dom());
        }
        validate_context_reference_ids(&context, &owned)?;
        Ok(SampledCollection { constraints, removed_reasons, context })
    }

    /// The sampled rows.
    pub fn inner(&self) -> (r: &BTreeMap<u64, S>)
        ensures
            r@ == self.rows(),
    {
        &self.constraints
    }

    /// The removal reasons of removed constraints.
    pub fn removed_reasons(&self) -> (r: &BTreeMap<u64, RemovedReason>)
        ensures
            r@.map_values(|r: RemovedReason| r@) == self.reasons(),
    {
        &self.removed_reasons
    }

    /// The label/provenance sidecar.
    pub fn context(&self) -> (r: &ConstraintContextStore<ID>)
        ensures
            *r == self.context_store(),
    {
        &self.context
    }

    /// Checks that every sidecar ID has a row; on failure returns the smallest foreign ID.
    pub fn validate_context_ids(&self) -> (r: Result<(), CollectionError>)
        ensures
            match r {
                Ok(()) => forall|k: u64| self.context_store().id_set().contains(k) ==> self.rows().contains_key(k),
                Err(CollectionError::UnknownContextID(k)) => is_min_missing(
                    self.context_store().id_set(),
                    self.rows().dom(),
                    k,
                ),
                Err(_) => false,
            },
    {
        let no_rows: BTreeMap<u64, ()> = BTreeMap::new();
        let owned = union_of_keys(&self.constraints, &no_rows);
        proof {
            assert(owned@.dom() =~= self.rows().dom());
        }
        validate_context_reference_ids(&self.context, &owned)
    }

    /// Checks that every sampled row uses only decision variables in `known`.
    /// On failure returns the smallest constraint ID with a foreign variable,
    /// and the first such variable in that row's list.
    pub fn validate_used_decision_variable_ids(&self, known: &BTreeMap<u64, ()>) -> (r: Result<(), (ID, crate::ids::VariableID)>)
        ensures
            r is Ok ==> forall|k: u64| #[trigger] self.rows().contains_key(k) ==> uses_only(self.rows()[k], known@.dom()),
            r matches Err((cid, vid)) ==> self.rows().contains_key(cid.raw()),
            r matches Err((cid, vid)) ==> !known@.contains_key(vid.0),
            r matches Err((cid, vid)) ==> is_first_unknown(self.rows()[cid.raw()].used_ids(), known@.dom(), vid),
            r matches Err((cid, vid)) ==> forall|k: u64| #[trigger] self.rows().contains_key(k) && k < cid.raw() ==> uses_only(self.rows()[k], known@.dom()),
    {
        let keys = keys_of(&self.constraints);
        let mut i: usize = 0;
        while i < keys.len()
            invariant
                i <= keys@.len(),
                forall|k: u64| self.rows().contains_key(k) <==> keys@.contains(k),
                forall|a: int, b: int| 0 <= a < b < keys@.len() ==> keys@[a] < keys@[b],
                forall|j: int| 0 <= j < i ==> uses_only(self.rows()[#[trigger] keys@[j]], known@.dom()),
            decreases keys@.len() - i,
        {
            let k = keys[i];
            proof {
                assert(keys@.contains(k));
            }
            if let Some(row) = self.constraints.get(&k) {
                let used = row.used_decision_variable_ids();
                if let Some(t) = first_unknown_variable(used, known) {
                    proof {
                        assert forall|kk: u64| #[trigger] self.rows().contains_key(kk) && kk < k
                            implies uses_only(self.rows()[kk], known@.dom()) by {
                            assert(keys@.contains(kk));
                            let p = choose|p: int| 0 <= p < keys@.len() && keys@[p] == kk;
                            if p >= i {
                                assert(keys@[i as int] <= keys@[p]);
                            }
                        }
                    }
                    let cid = ID::from_raw(k);
                    let vid = used[t];
                    proof {
                        assert(cid.raw() == k);
                        assert(used@ == self.rows()[cid.raw()].used_ids());
                        let ti = t as int;
                        assert(is_first_unknown(self.rows()[cid.raw()].used_ids(), known@.dom(), vid)) by {
                            assert(0 <= ti < self.rows()[cid.raw()].used_ids().len()
                                && self.rows()[cid.raw()].used_ids()[ti] == vid
                                && forall|j: int| 0 <= j < ti ==> known@.contains_key(#[trigger] self.rows()[cid.raw()].used_ids()[j].0));
                        }
                    }
                    return Err((cid, vid));
                }
            }
            i = i + 1;
        }
        proof {
            assert forall|k: u64| #[trigger] self.rows().contains_key(k) implies uses_only(self.rows()[k], known@.dom()) by {
                assert(keys@.contains(k));
                let p = choose|p: int| 0 <= p < keys@.len() && keys@[p] == k;
                assert(uses_only(self.rows()[keys@[p]], known@.dom()));
            }
        }
        Ok(())
    }

    /// Checks that every sampled row has values for exactly the `expected`
    /// samples. On failure returns the samples of the row with the smallest
    /// ID that differs.
    pub fn validate_sample_ids(&self, expected: &BTreeSet<u64>) -> (r: Result<(), BTreeSet<u64>>)
        ensures
            r is Ok <==> forall|k: u64| #[trigger] self.rows().contains_key(k) ==> self.rows()[k].sample_ids() == expected@,
            r matches Err(s) ==> exists|k: u64| {
                &&& #[trigger] self.rows().contains_key(k)
                &&& self.rows()[k].sample_ids() != expected@
                &&& s@ == self.rows()[k].sample_ids()
                &&& forall|j: u64| #[trigger] self.rows().contains_key(j) && j < k ==> self.rows()[j].sample_ids() == expected@
            },
    {
        let keys = keys_of(&self.constraints);
        let mut i: usize = 0;
        while i < keys.len()
            invariant
                i <= keys@.len(),
                forall|k: u64| self.rows().contains_key(k) <==> keys@.contains(k),
                forall|a: int, b: int| 0 <= a < b < keys@.len() ==> keys@[a] < keys@[b],
                forall|j: int| 0 <= j < i ==> self.rows()[#[trigger] keys@[j]].sample_ids() == expected@,
            decreases keys@.len() - i,
        {
            let k = keys[i];
            proof {
                assert(keys@.contains(k));
            }
            if let Some(row) = self.constraints.get(&k) {
                match row.validate_sample_ids(expected) {
                    Ok(()) => {},
                    Err(s) => {
                        proof {
                            assert forall|j: u64| #[trigger] self.rows().contains_key(j) && j < k
                                implies self.rows()[j].sample_ids() == expected@ by {
                                assert(keys@.contains(j));
                                let p = choose|p: int| 0 <= p < keys@.len() && keys@[p] == j;
                                if p >= i {
                                    assert(keys@[i as int] <= keys@[p]);
                                }
                            }
                            assert(self.rows().contains_key(k));
                        }
                        return Err(s);
                    },
                }
            }
            i = i + 1;
        }
        proof {
            assert forall|k: u64| #[trigger] self.rows().contains_key(k) implies self.rows()[k].sample_ids() == expected@ by {
                assert(keys@.contains(k));
                let p = choose|p: int| 0 <= p < keys@.len() && keys@[p] == k;
                assert(self.rows()[keys@[p]].sample_ids() == expected@);
            }
        }
        Ok(())
    }

    /// Whether the constraint was removed before evaluation.
    pub fn is_removed(&self, id: ID) -> (r: bool)
        ensures
            r == self.reasons().contains_key(id.raw()),
    {
        self.removed_reasons.contains_key(&id.into_inner())
    }

    pub fn is_empty(&self) -> (r: bool)
        ensures
            r == self.rows().is_empty(),
    {
        let r = self.constraints.is_empty();
        proof {
            if !r {
                let k = choose|k: u64| self.rows().contains_key(k);
                assert(self.rows().dom().contains(k));
            }
        }
        r
    }

    /// Whether every sampled row, removed ones included, is known and feasible
    /// for the sample.
    pub fn is_feasible_for(&self, sample_id: crate::ids::SampleID) -> (r: bool)
        ensures
            r == forall|k: u64| #[trigger] self.rows().contains_key(k) ==> self.rows()[k].feasible_for(sample_id.0) == Some(true),
    {
        let keys = keys_of(&self.constraints);
        let mut i: usize = 0;
        while i < keys.len()
            invariant
                i <= keys@.len(),
                forall|k: u64| self.rows().contains_key(k) <==> keys@.contains(k),
                forall|j: int| 0 <= j < i ==> self.rows()[#[trigger] keys@[j]].feasible_for(sample_id.0) == Some(true),
            decreases keys@.len() - i,
        {
            proof {
                assert(keys@.contains(keys@[i as int]));
            }
            let feasible = match self.constraints.get(&keys[i]) {
                Some(c) => match c.is_feasible_for(sample_id) {
                    Some(b) => b,
                    None => false,
                },
                None => true,
            };
            if !feasible {
                return false;
            }
            i = i + 1;
        }
        proof {
            assert forall|k: u64| #[trigger] self.rows().contains_key(k) implies self.rows()[k].feasible_for(sample_id.0) == Some(true) by {
                assert(keys@.contains(k));
                let t = choose|t: int| 0 <= t < keys@.len() && keys@[t] == k;
                assert(self.rows()[keys@[t]].feasible_for(sample_id.0) == Some(true));
            }
        }
        true
    }

    /// Whether every sampled row that was not removed is known and feasible for
    /// the sample.
    pub fn is_feasible_relaxed_for(&self, sample_id: crate::ids::SampleID) -> (r: bool)
        ensures
            r == forall|k: u64| #[trigger] self.rows().contains_key(k) && !self.reasons().contains_key(k)
                ==> self.rows()[k].feasible_for(sample_id.0) == Some(true),
    {
        let keys = keys_of(&self.constraints);
        let mut i: usize = 0;
        while i < keys.len()
            invariant
                i <= keys@.len(),
                forall|k: u64| self.rows().contains_key(k) <==> keys@.contains(k),
                forall|j: int| 0 <= j < i ==> !self.reasons().contains_key(#[trigger] keys@[j])
                    ==> self.rows()[keys@[j]].feasible_for(sample_id.0) == Some(true),
            decreases keys@.len() - i,
        {
            proof {
                assert(keys@.contains(keys@[i as int]));
            }
            if !self.removed_reasons.contains_key(&keys[i]) {
                let feasible = match self.constraints.get(&keys[i]) {
                    Some(c) => match c.is_feasible_for(sample_id) {
                        Some(b) => b,
                        None => false,
                    },
                    None => true,
                };
                if !feasible {
                    return false;
                }
            }
            i = i + 1;
        }
        proof {
            assert forall|k: u64| #[trigger] self.rows().contains_key(k) && !self.reasons().contains_key(k)
                implies self.rows()[k].feasible_for(sample_id.0) == Some(true) by {
                assert(keys@.contains(k));
                let t = choose|t: int| 0 <= t < keys@.len() && keys@[t] == k;
                assert(!self.reasons().contains_key(keys@[t]));
            }
        }
        true
    }
}

/// Position of the first variable of `used` that is not a key of `known`.
pub fn first_unknown_variable(used: &Vec<crate::ids::VariableID>, known: &BTreeMap<u64, ()>) -> (r: Option<usize>)
    ensures
        match r {
            Some(t) => t < used@.len() && !known@.contains_key(used@[t as int].0) && forall|j: int|
                0 <= j < t ==> known@.contains_key(#[trigger] used@[j].0),
            None => forall|j: int| 0 <= j < used@.len() ==> known@.contains_key(#[trigger] used@[j].0),
        },
{
    let mut t: usize = 0;
    while t < used.len()
        invariant
            t <= used@.len(),
            forall|j: int| 0 <= j < t ==> known@.contains_key(#[trigger] used@[j].0),
        decreases used@.len() - t,
    {
        if !known.contains_key(&used[t].0) {
            return Some(t);
        }
        t = t + 1;
    }
    None
}

/// Collects `(id, row)` pairs into a map, refusing the first repeated ID.
pub fn collect_unique_rows<C>(rows: Vec<(u64, C)>) -> (r: Result<BTreeMap<u64, C>, CollectionError>)
    ensures
        match r {
            Ok(m) => {
                &&& forall|i: int, j: int| 0 <= i < j < rows@.len() ==> rows@[i].0 != rows@[j].0
                &&& forall|i: int| 0 <= i < rows@.len() ==> #[trigger] m@.contains_key(rows@[i].0) && m@[rows@[i].0] == rows@[i].1
                &&& forall|k: u64| m@.contains_key(k) ==> exists|i: int| 0 <= i < rows@.len() && rows@[i].0 == k
            },
            Err(CollectionError::KeyOverlap { id: k, sides }) => sides == OverlapSides::RepeatedRows && exists|i: int, j: int| 0 <= i < j < rows@.len() && rows@[i].0 == k
                && rows@[j].0 == k && forall|a: int, b: int| 0 <= a < b < j ==> rows@[a].0 != rows@[b].0,
            Err(_) => false,
        },
{
    let ghost input = rows@;
    let mut m: BTreeMap<u64, C> = BTreeMap::new();
    let mut pending = rows;
    let n = pending.len();
    let mut j: usize = 0;
    while j < n
        invariant
            n == input.len(),
            j <= n,
            input == rows@,
            pending@ == input.subrange(j as int, n as int),
            forall|a: int, b: int| 0 <= a < b < j ==> input[a].0 != input[b].0,
            forall|t: int| 0 <= t < j ==> #[trigger] m@.contains_key(input[t].0) && m@[input[t].0] == input[t].1,
            forall|k: u64| m@.contains_key(k) ==> exists|t: int| 0 <= t < j && input[t].0 == k,
        decreases n - j,
    {
        let (k, c) = pending.remove(0);
        assert((k, c) == input[j as int]);
        if m.contains_key(&k) {
            let ghost a = choose|t: int| 0 <= t < j && input[t].0 == k;
            assert(input[a].0 == k && input[j as int].0 == k);
            assert(exists|i: int, jj: int| 0 <= i < jj < input.len() && input[i].0 == k
                && input[jj].0 == k && forall|x: int, y: int| 0 <= x < y < jj ==> input[x].0 != input[y].0) by {
                assert(0 <= a < j < input.len() && input[a].0 == k && input[j as int].0 == k
                    && forall|x: int, y: int| 0 <= x < y < j ==> input[x].0 != input[y].0);
            }
            return Err(CollectionError::KeyOverlap { id: k, sides: OverlapSides::RepeatedRows });
        }
        assert forall|a: int| 0 <= a < j implies input[a].0 != k by {
            assert(m@.contains_key(input[a].0));
        }
        m.insert(k, c);
        j = j + 1;
        assert(pending@ =~= input.subrange(j as int, n as int));
    }
    Ok(m)
}

} // verus!
