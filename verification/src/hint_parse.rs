//! Reading constraint hints from their serialized form: every referenced ID
//! must be defined and listed once, and hints that point at removed
//! constraints are dropped.
use crate::btree_keys::keys_of;
use crate::hints::{ids_strictly_increasing, strictly_increasing, ConstraintHints, OneHot, Sos1};
use crate::ids::{ConstraintID, VariableID};
use crate::label::add_keys;
use std::collections::BTreeMap;
use vstd::prelude::*;

verus! {

broadcast use vstd::std_specs::btree::group_btree_axioms;

/// A one-hot hint as serialized: raw IDs, possibly unchecked.
pub struct RawOneHot {
    pub constraint_id: u64,
    pub decision_variables: Vec<u64>,
}

/// An SOS1 hint as serialized: raw IDs, possibly unchecked.
pub struct RawSos1 {
    pub binary_constraint_id: u64,
    pub big_m_constraint_ids: Vec<u64>,
    pub decision_variables: Vec<u64>,
}

/// All hints of an instance as serialized.
pub struct RawConstraintHints {
    pub one_hot_constraints: Vec<RawOneHot>,
    pub sos1_constraints: Vec<RawSos1>,
}

/// The field of a serialized hint that an error points at.
#[derive(Clone, Copy, PartialEq, Eq, Structural, Debug)]
pub enum HintField {
    OneHotConstraintId,
    OneHotDecisionVariables,
    Sos1BinaryConstraintId,
    Sos1BigMConstraintIds,
    Sos1DecisionVariables,
}

/// Why a serialized hint was rejected. The field tells whether `id` is a
/// decision variable ID or a constraint ID.
#[derive(Clone, Copy, PartialEq, Eq, Structural, Debug)]
pub enum HintParseError {
    /// The ID is neither a known decision variable nor a known (active or removed) constraint.
    Undefined { field: HintField, id: u64 },
    /// The ID occurs more than once in a list that must hold each ID once.
    NonUnique { field: HintField, id: u64 },
}

/// The first problem among the first `n` IDs of a list, if any: an unknown ID
/// is reported as undefined, a repeated one as non-unique.
pub open spec fn ids_issue(ids: Seq<u64>, known: Set<u64>, field: HintField, n: int) -> Option<HintParseError>
    decreases n,
{
    if n <= 0 {
        None
    } else {
        match ids_issue(ids, known, field, n - 1) {
            Some(e) => Some(e),
            None => if !known.contains(ids[n - 1]) {
                Some(HintParseError::Undefined { field, id: ids[n - 1] })
            } else if exists|j: int| 0 <= j < n - 1 && #[trigger] ids[j] == ids[n - 1] {
                Some(HintParseError::NonUnique { field, id: ids[n - 1] })
            } else {
                None
            },
        }
    }
}

/// A list of IDs has no problem exactly when every ID is known and none is
/// repeated; an undefined-ID problem names an unknown ID of the list, and a
/// non-unique problem names a known ID that occurs twice.
pub proof fn lemma_ids_issue_meaning(ids: Seq<u64>, known: Set<u64>, field: HintField, n: int)
    requires
        0 <= n <= ids.len(),
    ensures
        ids_issue(ids, known, field, n) is None <==> (forall|i: int| 0 <= i < n ==> known.contains(#[trigger] ids[i]))
            && (forall|i: int, j: int| 0 <= i < j < n ==> #[trigger] ids[i] != #[trigger] ids[j]),
        ids_issue(ids, known, field, n) matches Some(HintParseError::Undefined { field: f, id }) ==> f == field
            && !known.contains(id) && exists|i: int| 0 <= i < n && #[trigger] ids[i] == id,
        ids_issue(ids, known, field, n) matches Some(HintParseError::NonUnique { field: f, id }) ==> f == field
            && known.contains(id) && exists|i: int, j: int| 0 <= i < j < n && #[trigger] ids[i] == id && #[trigger] ids[j]
            == id,
    decreases n,
{
    if n > 0 {
        lemma_ids_issue_meaning(ids, known, field, n - 1);
        if ids_issue(ids, known, field, n - 1) is None {
            if !known.contains(ids[n - 1]) {
            } else if exists|j: int| 0 <= j < n - 1 && #[trigger] ids[j] == ids[n - 1] {
                let j = choose|j: int| 0 <= j < n - 1 && #[trigger] ids[j] == ids[n - 1];
                assert(ids[j] == ids[n - 1]);
            } else {
                assert forall|i: int, j: int| 0 <= i < j < n implies #[trigger] ids[i] != #[trigger] ids[j] by {
                    if j == n - 1 {
                        if ids[i] == ids[j] {
                            assert(0 <= i < n - 1 && ids[i] == ids[n - 1]);
                        }
                    }
                }
            }
        } else {
            match ids_issue(ids, known, field, n - 1) {
                Some(HintParseError::Undefined { field: f, id }) => {
                    let i = choose|i: int| 0 <= i < n - 1 && #[trigger] ids[i] == id;
                    assert(0 <= i < n && ids[i] == id);
                },
                Some(HintParseError::NonUnique { field: f, id }) => {
                    let (i, j) = choose|i: int, j: int| 0 <= i < j < n - 1 && #[trigger] ids[i] == id && #[trigger] ids[j] == id;
                    assert(0 <= i < j < n && ids[i] == id && ids[j] == id);
                },
                None => {},
            }
        }
    }
}

/// The problem of a whole list of IDs, if any.
pub open spec fn list_issue(ids: Seq<u64>, known: Set<u64>, field: HintField) -> Option<HintParseError> {
    ids_issue(ids, known, field, ids.len() as int)
}

/// `out` lists the distinct IDs of `ids` in strictly increasing order.
pub open spec fn sorted_distinct_of(out: Seq<u64>, ids: Seq<u64>) -> bool {
    &&& forall|i: int, j: int| 0 <= i < j < out.len() ==> out[i] < out[j]
    &&& forall|x: u64| out.contains(x) <==> ids.contains(x)
}

pub open spec fn variable_raws(vs: Seq<VariableID>) -> Seq<u64> {
    vs.map_values(|v: VariableID| v.0)
}

pub open spec fn constraint_raws(cs: Seq<ConstraintID>) -> Seq<u64> {
    cs.map_values(|c: ConstraintID| c.0)
}

/// The problem of a serialized one-hot hint, given the known decision
/// variable IDs and the known constraint IDs.
pub open spec fn one_hot_issue(raw: RawOneHot, vk: Set<u64>, ck: Set<u64>) -> Option<HintParseError> {
    if !ck.contains(raw.constraint_id) {
        Some(HintParseError::Undefined { field: HintField::OneHotConstraintId, id: raw.constraint_id })
    } else {
        list_issue(raw.decision_variables@, vk, HintField::OneHotDecisionVariables)
    }
}

/// The problem of a serialized SOS1 hint, given the known decision variable
/// IDs and the known constraint IDs.
pub open spec fn sos1_issue(raw: RawSos1, vk: Set<u64>, ck: Set<u64>) -> Option<HintParseError> {
    if !ck.contains(raw.binary_constraint_id) {
        Some(HintParseError::Undefined { field: HintField::Sos1BinaryConstraintId, id: raw.binary_constraint_id })
    } else if list_issue(raw.big_m_constraint_ids@, ck, HintField::Sos1BigMConstraintIds) is Some {
        list_issue(raw.big_m_constraint_ids@, ck, HintField::Sos1BigMConstraintIds)
    } else {
        list_issue(raw.decision_variables@, vk, HintField::Sos1DecisionVariables)
    }
}

/// `h` is what a valid serialized one-hot hint reads as.
pub open spec fn one_hot_reads_as(raw: RawOneHot, h: OneHot) -> bool {
    &&& h@.id.0 == raw.constraint_id
    &&& sorted_distinct_of(variable_raws(h@.variables), raw.decision_variables@)
}

/// `h` is what a valid serialized SOS1 hint reads as.
pub open spec fn sos1_reads_as(raw: RawSos1, h: Sos1) -> bool {
    &&& h@.binary_constraint_id.0 == raw.binary_constraint_id
    &&& sorted_distinct_of(constraint_raws(h@.big_m_constraint_ids), raw.big_m_constraint_ids@)
    &&& sorted_distinct_of(variable_raws(h@.variables), raw.decision_variables@)
}

/// The first problem among the first `n` one-hot hints.
pub open spec fn one_hots_issue(raws: Seq<RawOneHot>, vk: Set<u64>, ck: Set<u64>, n: int) -> Option<HintParseError>
    decreases n,
{
    if n <= 0 {
        None
    } else {
        match one_hots_issue(raws, vk, ck, n - 1) {
            Some(e) => Some(e),
            None => one_hot_issue(raws[n - 1], vk, ck),
        }
    }
}

/// The first problem among the first `n` SOS1 hints.
pub open spec fn sos1s_issue(raws: Seq<RawSos1>, vk: Set<u64>, ck: Set<u64>, n: int) -> Option<HintParseError>
    decreases n,
{
    if n <= 0 {
        None
    } else {
        match sos1s_issue(raws, vk, ck, n - 1) {
            Some(e) => Some(e),
            None => sos1_issue(raws[n - 1], vk, ck),
        }
    }
}

/// A one-hot hint is kept when its constraint is active and not removed.
pub open spec fn keeps_one_hot(raw: RawOneHot, active: Set<u64>, removed: Set<u64>) -> bool {
    !removed.contains(raw.constraint_id) && active.contains(raw.constraint_id)
}

/// An SOS1 hint is kept when neither its binary constraint nor any of its
/// big-M constraints is removed.
pub open spec fn keeps_sos1(raw: RawSos1, removed: Set<u64>) -> bool {
    !removed.contains(raw.binary_constraint_id) && forall|i: int|
        0 <= i < raw.big_m_constraint_ids@.len() ==> !removed.contains(#[trigger] raw.big_m_constraint_ids@[i])
}

/// The kept one-hot hints among the first `n`, in order.
pub open spec fn kept_one_hots(raws: Seq<RawOneHot>, active: Set<u64>, removed: Set<u64>, n: int) -> Seq<RawOneHot>
    decreases n,
{
    if n <= 0 {
        Seq::empty()
    } else if keeps_one_hot(raws[n - 1], active, removed) {
        kept_one_hots(raws, active, removed, n - 1).push(raws[n - 1])
    } else {
        kept_one_hots(raws, active, removed, n - 1)
    }
}

/// The kept SOS1 hints among the first `n`, in order.
pub open spec fn kept_sos1s(raws: Seq<RawSos1>, removed: Set<u64>, n: int) -> Seq<RawSos1>
    decreases n,
{
    if n <= 0 {
        Seq::empty()
    } else if keeps_sos1(raws[n - 1], removed) {
        kept_sos1s(raws, removed, n - 1).push(raws[n - 1])
    } else {
        kept_sos1s(raws, removed, n - 1)
    }
}

/// The SOS1 hints kept among the first `n` are exactly those whose binary
/// constraint and whose big-M constraints, at every position of the list,
/// are all outside the removed constraints.
pub proof fn lemma_kept_sos1s_exact(raws: Seq<RawSos1>, removed: Set<u64>, n: int)
    requires
        0 <= n <= raws.len(),
    ensures
        forall|i: int| #![trigger kept_sos1s(raws, removed, n)[i]] 0 <= i < kept_sos1s(raws, removed, n).len() ==> {
            &&& raws.subrange(0, n).contains(kept_sos1s(raws, removed, n)[i])
            &&& !removed.contains(kept_sos1s(raws, removed, n)[i].binary_constraint_id)
            &&& forall|j: int| 0 <= j < kept_sos1s(raws, removed, n)[i].big_m_constraint_ids@.len() ==> !removed.contains(
                #[trigger] kept_sos1s(raws, removed, n)[i].big_m_constraint_ids@[j],
            )
        },
        forall|k: int| {
            &&& 0 <= k < n
            &&& !removed.contains(#[trigger] raws[k].binary_constraint_id)
            &&& forall|j: int| 0 <= j < raws[k].big_m_constraint_ids@.len() ==> !removed.contains(
                #[trigger] raws[k].big_m_constraint_ids@[j],
            )
        } ==> kept_sos1s(raws, removed, n).contains(raws[k]),
    decreases n,
{
    if n > 0 {
        lemma_kept_sos1s_exact(raws, removed, n - 1);
        let prev = kept_sos1s(raws, removed, n - 1);
        assert forall|i: int| 0 <= i < kept_sos1s(raws, removed, n).len() implies {
            &&& raws.subrange(0, n).contains(kept_sos1s(raws, removed, n)[i])
            &&& !removed.contains(kept_sos1s(raws, removed, n)[i].binary_constraint_id)
            &&& forall|j: int| 0 <= j < kept_sos1s(raws, removed, n)[i].big_m_constraint_ids@.len() ==> !removed.contains(
                #[trigger] kept_sos1s(raws, removed, n)[i].big_m_constraint_ids@[j],
            )
        } by {
            if i < prev.len() {
                assert(kept_sos1s(raws, removed, n)[i] == prev[i]);
                assert(raws.subrange(0, n - 1).contains(prev[i]));
                let k = choose|k: int| 0 <= k < n - 1 && #[trigger] raws.subrange(0, n - 1)[k] == prev[i];
                assert(raws.subrange(0, n)[k] == prev[i]);
            } else {
                assert(keeps_sos1(raws[n - 1], removed));
                assert(kept_sos1s(raws, removed, n)[i] == raws[n - 1]);
                assert(raws.subrange(0, n)[n - 1] == raws[n - 1]);
            }
        }
        assert forall|k: int| {
            &&& 0 <= k < n
            &&& !removed.contains(#[trigger] raws[k].binary_constraint_id)
            &&& forall|j: int| 0 <= j < raws[k].big_m_constraint_ids@.len() ==> !removed.contains(
                #[trigger] raws[k].big_m_constraint_ids@[j],
            )
        } implies kept_sos1s(raws, removed, n).contains(raws[k]) by {
            if k < n - 1 {
                assert(prev.contains(raws[k]));
                let i = choose|i: int| 0 <= i < prev.len() && #[trigger] prev[i] == raws[k];
                if keeps_sos1(raws[n - 1], removed) {
                    assert(kept_sos1s(raws, removed, n)[i] == raws[k]);
                } else {
                    assert(kept_sos1s(raws, removed, n) == prev);
                }
            } else {
                assert(keeps_sos1(raws[n - 1], removed));
                assert(kept_sos1s(raws, removed, n)[kept_sos1s(raws, removed, n).len() - 1] == raws[k]);
            }
        }
    }
}

/// The one-hot hints kept among the first `n` are exactly those whose
/// constraint is active and not removed.
pub proof fn lemma_kept_one_hots_exact(raws: Seq<RawOneHot>, active: Set<u64>, removed: Set<u64>, n: int)
    requires
        0 <= n <= raws.len(),
    ensures
        forall|i: int| #![trigger kept_one_hots(raws, active, removed, n)[i]] 0 <= i < kept_one_hots(raws, active, removed, n).len() ==> {
            &&& raws.subrange(0, n).contains(kept_one_hots(raws, active, removed, n)[i])
            &&& active.contains(kept_one_hots(raws, active, removed, n)[i].constraint_id)
            &&& !removed.contains(kept_one_hots(raws, active, removed, n)[i].constraint_id)
        },
        forall|k: int| 0 <= k < n && active.contains(#[trigger] raws[k].constraint_id) && !removed.contains(
            raws[k].constraint_id,
        ) ==> kept_one_hots(raws, active, removed, n).contains(raws[k]),
    decreases n,
{
    if n > 0 {
        lemma_kept_one_hots_exact(raws, active, removed, n - 1);
        let prev = kept_one_hots(raws, active, removed, n - 1);
        assert forall|i: int| 0 <= i < kept_one_hots(raws, active, removed, n).len() implies {
            &&& raws.subrange(0, n).contains(kept_one_hots(raws, active, removed, n)[i])
            &&& active.contains(kept_one_hots(raws, active, removed, n)[i].constraint_id)
            &&& !removed.contains(kept_one_hots(raws, active, removed, n)[i].constraint_id)
        } by {
            if i < prev.len() {
                assert(kept_one_hots(raws, active, removed, n)[i] == prev[i]);
                assert(raws.subrange(0, n - 1).contains(prev[i]));
                let k = choose|k: int| 0 <= k < n - 1 && #[trigger] raws.subrange(0, n - 1)[k] == prev[i];
                assert(raws.subrange(0, n)[k] == prev[i]);
            } else {
                assert(keeps_one_hot(raws[n - 1], active, removed));
                assert(kept_one_hots(raws, active, removed, n)[i] == raws[n - 1]);
                assert(raws.subrange(0, n)[n - 1] == raws[n - 1]);
            }
        }
        assert forall|k: int| 0 <= k < n && active.contains(#[trigger] raws[k].constraint_id) && !removed.contains(
            raws[k].constraint_id,
        ) implies kept_one_hots(raws, active, removed, n).contains(raws[k]) by {
            if k < n - 1 {
                assert(prev.contains(raws[k]));
                let i = choose|i: int| 0 <= i < prev.len() && #[trigger] prev[i] == raws[k];
                if keeps_one_hot(raws[n - 1], active, removed) {
                    assert(kept_one_hots(raws, active, removed, n)[i] == raws[k]);
                } else {
                    assert(kept_one_hots(raws, active, removed, n) == prev);
                }
            } else {
                assert(kept_one_hots(raws, active, removed, n)[kept_one_hots(raws, active, removed, n).len() - 1] == raws[k]);
            }
        }
    }
}

proof fn lemma_ids_issue_stable(ids: Seq<u64>, known: Set<u64>, field: HintField, m: int, n: int)
    requires
        0 <= m <= n,
        ids_issue(ids, known, field, m) is Some,
    ensures
        ids_issue(ids, known, field, n) == ids_issue(ids, known, field, m),
    decreases n - m,
{
    if m < n {
        lemma_ids_issue_stable(ids, known, field, m, n - 1);
    }
}

proof fn lemma_one_hots_issue_stable(raws: Seq<RawOneHot>, vk: Set<u64>, ck: Set<u64>, m: int, n: int)
    requires
        0 <= m <= n,
        one_hots_issue(raws, vk, ck, m) is Some,
    ensures
        one_hots_issue(raws, vk, ck, n) == one_hots_issue(raws, vk, ck, m),
    decreases n - m,
{
    if m < n {
        lemma_one_hots_issue_stable(raws, vk, ck, m, n - 1);
    }
}

proof fn lemma_sos1s_issue_stable(raws: Seq<RawSos1>, vk: Set<u64>, ck: Set<u64>, m: int, n: int)
    requires
        0 <= m <= n,
        sos1s_issue(raws, vk, ck, m) is Some,
    ensures
        sos1s_issue(raws, vk, ck, n) == sos1s_issue(raws, vk, ck, m),
    decreases n - m,
{
    if m < n {
        lemma_sos1s_issue_stable(raws, vk, ck, m, n - 1);
    }
}

/// Checks a list of IDs against the known ones and returns its distinct IDs
/// in increasing order, or the first problem.
fn check_ids(ids: &Vec<u64>, known: &BTreeMap<u64, ()>, field: HintField) -> (r: Result<Vec<u64>, HintParseError>)
    ensures
        match r {
            Ok(out) => list_issue(ids@, known@.dom(), field) is None && sorted_distinct_of(out@, ids@),
            Err(e) => list_issue(ids@, known@.dom(), field) == Some(e),
        },
{
    let ghost k = known@.dom();
    let mut seen: BTreeMap<u64, ()> = BTreeMap::new();
    let mut i: usize = 0;
    while i < ids.len()
        invariant
            i <= ids@.len(),
            k == known@.dom(),
            ids_issue(ids@, k, field, i as int) is None,
            forall|x: u64| seen@.contains_key(x) <==> exists|j: int| 0 <= j < i && ids@[j] == x,
        decreases ids@.len() - i,
    {
        let x = ids[i];
        if !known.contains_key(&x) {
            proof {
                lemma_ids_issue_stable(ids@, k, field, i + 1, ids@.len() as int);
            }
            return Err(HintParseError::Undefined { field, id: x });
        }
        if seen.contains_key(&x) {
            proof {
                let j = choose|j: int| 0 <= j < i && ids@[j] == x;
                assert(ids@[j] == ids@[i as int]);
                lemma_ids_issue_stable(ids@, k, field, i + 1, ids@.len() as int);
            }
            return Err(HintParseError::NonUnique { field, id: x });
        }
        let ghost prev = seen@;
        seen.insert(x, ());
        proof {
            assert(!(exists|j: int| 0 <= j < i && ids@[j] == ids@[i as int]));
            assert forall|y: u64| seen@.contains_key(y) <==> exists|j: int| 0 <= j < i + 1 && ids@[j] == y by {
                if y == x {
                    assert(ids@[i as int] == y);
                }
                if exists|j: int| 0 <= j < i + 1 && ids@[j] == y {
                    let j = choose|j: int| 0 <= j < i + 1 && ids@[j] == y;
                    if j < i {
                        assert(prev.contains_key(y));
                    }
                }
            }
        }
        i = i + 1;
    }
    let out = keys_of(&seen);
    proof {
        assert forall|x: u64| out@.contains(x) <==> ids@.contains(x) by {
            if ids@.contains(x) {
                let j = choose|j: int| 0 <= j < ids@.len() && ids@[j] == x;
                assert(seen@.contains_key(x));
            }
            if out@.contains(x) {
                assert(seen@.contains_key(x));
                let j = choose|j: int| 0 <= j < ids@.len() && ids@[j] == x;
                assert(ids@[j] == x);
            }
        }
    }
    Ok(out)
}

fn to_variable_ids(raw: Vec<u64>) -> (r: Vec<VariableID>)
    ensures
        variable_raws(r@) == raw@,
{
    let mut out: Vec<VariableID> = Vec::new();
    let mut i: usize = 0;
    while i < raw.len()
        invariant
            i <= raw@.len(),
            out@.len() == i,
            forall|j: int| 0 <= j < i ==> (#[trigger] out@[j]).0 == raw@[j],
        decreases raw@.len() - i,
    {
        out.push(VariableID(raw[i]));
        i = i + 1;
    }
    assert(variable_raws(out@) =~= raw@);
    out
}

fn to_constraint_ids(raw: Vec<u64>) -> (r: Vec<ConstraintID>)
    ensures
        constraint_raws(r@) == raw@,
{
    let mut out: Vec<ConstraintID> = Vec::new();
    let mut i: usize = 0;
    while i < raw.len()
        invariant
            i <= raw@.len(),
            out@.len() == i,
            forall|j: int| 0 <= j < i ==> (#[trigger] out@[j]).0 == raw@[j],
        decreases raw@.len() - i,
    {
        out.push(ConstraintID(raw[i]));
        i = i + 1;
    }
    assert(constraint_raws(out@) =~= raw@);
    out
}

proof fn lemma_sorted_raws_increasing(vs: Seq<VariableID>, ids: Seq<u64>)
    requires
        sorted_distinct_of(variable_raws(vs), ids),
    ensures
        strictly_increasing(vs),
{
    assert forall|i: int, j: int| 0 <= i < j < vs.len() implies vs[i].0 < vs[j].0 by {
        assert(variable_raws(vs)[i] == vs[i].0);
        assert(variable_raws(vs)[j] == vs[j].0);
    }
}

proof fn lemma_sorted_constraint_raws_increasing(ids: Seq<ConstraintID>, raws: Seq<u64>)
    requires
        sorted_distinct_of(constraint_raws(ids), raws),
    ensures
        ids_strictly_increasing(ids),
{
    assert forall|i: int, j: int| 0 <= i < j < ids.len() implies ids[i].0 < ids[j].0 by {
        assert(constraint_raws(ids)[i] == ids[i].0);
        assert(constraint_raws(ids)[j] == ids[j].0);
    }
}

/// The keys of a map, as a key set with unit values.
fn key_set<V>(m: &BTreeMap<u64, V>) -> (r: BTreeMap<u64, ()>)
    ensures
        r@.dom() == m@.dom(),
{
    let mut r: BTreeMap<u64, ()> = BTreeMap::new();
    add_keys(&mut r, &keys_of(m));
    assert(r@.dom() =~= m@.dom());
    r
}

/// The keys present in either of two maps.
fn union_key_set<A, B>(a: &BTreeMap<u64, A>, b: &BTreeMap<u64, B>) -> (r: BTreeMap<u64, ()>)
    ensures
        r@.dom() == a@.dom() + b@.dom(),
{
    let mut r: BTreeMap<u64, ()> = BTreeMap::new();
    add_keys(&mut r, &keys_of(a));
    add_keys(&mut r, &keys_of(b));
    assert(r@.dom() =~= a@.dom() + b@.dom());
    r
}

fn read_one_hot(raw: &RawOneHot, vk: &BTreeMap<u64, ()>, ck: &BTreeMap<u64, ()>) -> (r: Result<OneHot, HintParseError>)
    ensures
        match r {
            Ok(h) => one_hot_issue(*raw, vk@.dom(), ck@.dom()) is None && one_hot_reads_as(*raw, h) && strictly_increasing(
                h@.variables,
            ),
            Err(e) => one_hot_issue(*raw, vk@.dom(), ck@.dom()) == Some(e),
        },
{
    if !ck.contains_key(&raw.constraint_id) {
        return Err(HintParseError::Undefined { field: HintField::OneHotConstraintId, id: raw.constraint_id });
    }
    let vars = check_ids(&raw.decision_variables, vk, HintField::OneHotDecisionVariables)?;
    let variables = to_variable_ids(vars);
    proof {
        lemma_sorted_raws_increasing(variables@, raw.decision_variables@);
    }
    Ok(OneHot::from_increasing(ConstraintID(raw.constraint_id), variables))
}

fn read_sos1(raw: &RawSos1, vk: &BTreeMap<u64, ()>, ck: &BTreeMap<u64, ()>) -> (r: Result<Sos1, HintParseError>)
    ensures
        match r {
            Ok(h) => sos1_issue(*raw, vk@.dom(), ck@.dom()) is None && sos1_reads_as(*raw, h) && strictly_increasing(h@.variables),
            Err(e) => sos1_issue(*raw, vk@.dom(), ck@.dom()) == Some(e),
        },
{
    if !ck.contains_key(&raw.binary_constraint_id) {
        return Err(HintParseError::Undefined { field: HintField::Sos1BinaryConstraintId, id: raw.binary_constraint_id });
    }
    let big_m = check_ids(&raw.big_m_constraint_ids, ck, HintField::Sos1BigMConstraintIds)?;
    let vars = check_ids(&raw.decision_variables, vk, HintField::Sos1DecisionVariables)?;
    let variables = to_variable_ids(vars);
    let big_m_ids = to_constraint_ids(big_m);
    proof {
        lemma_sorted_raws_increasing(variables@, raw.decision_variables@);
        lemma_sorted_constraint_raws_increasing(big_m_ids@, raw.big_m_constraint_ids@);
    }
    Ok(Sos1::from_increasing(ConstraintID(raw.binary_constraint_id), big_m_ids, variables))
}

impl OneHot {
    /// Reads a serialized one-hot hint. Its constraint must be a known
    /// constraint, active or removed, and its decision variables known and
    /// distinct; the variables come out in increasing order of their IDs.
    pub fn parse<V, C, R>(
        raw: &RawOneHot,
        variables: &BTreeMap<u64, V>,
        constraints: &BTreeMap<u64, C>,
        removed: &BTreeMap<u64, R>,
    ) -> (r: Result<OneHot, HintParseError>)
        ensures
            match r {
                Ok(h) => one_hot_issue(*raw, variables@.dom(), constraints@.dom() + removed@.dom()) is None
                    && one_hot_reads_as(*raw, h),
                Err(e) => one_hot_issue(*raw, variables@.dom(), constraints@.dom() + removed@.dom()) == Some(e),
            },
    {
        let vk = key_set(variables);
        let ck = union_key_set(constraints, removed);
        read_one_hot(raw, &vk, &ck)
    }
}

impl Sos1 {
    /// Reads a serialized SOS1 hint. Its binary constraint and big-M
    /// constraints must be known constraints, active or removed, and its
    /// decision variables known; the big-M constraints and the variables must
    /// each be distinct, and come out in increasing order of their IDs.
    pub fn parse<V, C, R>(
        raw: &RawSos1,
        variables: &BTreeMap<u64, V>,
        constraints: &BTreeMap<u64, C>,
        removed: &BTreeMap<u64, R>,
    ) -> (r: Result<Sos1, HintParseError>)
        ensures
            match r {
                Ok(h) => sos1_issue(*raw, variables@.dom(), constraints@.dom() + removed@.dom()) is None
                    && sos1_reads_as(*raw, h),
                Err(e) => sos1_issue(*raw, variables@.dom(), constraints@.dom() + removed@.dom()) == Some(e),
            },
    {
        let vk = key_set(variables);
        let ck = union_key_set(constraints, removed);
        read_sos1(raw, &vk, &ck)
    }
}

/// Whether no big-M constraint of the hint is among the removed ones.
fn no_big_m_removed<R>(raw: &RawSos1, removed: &BTreeMap<u64, R>) -> (r: bool)
    ensures
        r == forall|i: int|
            0 <= i < raw.big_m_constraint_ids@.len() ==> !removed@.contains_key(#[trigger] raw.big_m_constraint_ids@[i]),
{
    let mut i: usize = 0;
    while i < raw.big_m_constraint_ids.len()
        invariant
            i <= raw.big_m_constraint_ids@.len(),
            forall|j: int| 0 <= j < i ==> !removed@.contains_key(#[trigger] raw.big_m_constraint_ids@[j]),
        decreases raw.big_m_constraint_ids@.len() - i,
    {
        if removed.contains_key(&raw.big_m_constraint_ids[i]) {
            return false;
        }
        i = i + 1;
    }
    true
}

impl ConstraintHints {
    /// Reads all serialized hints: every one-hot hint, then every SOS1 hint,
    /// must read without error (the first problem is returned). Hints whose
    /// constraints were removed are then dropped: a one-hot hint survives when
    /// its constraint is active and not removed, an SOS1 hint when neither its
    /// binary constraint nor any big-M constraint is removed. Order is kept.
    pub fn parse<V, C, R>(
        raw: &RawConstraintHints,
        variables: &BTreeMap<u64, V>,
        constraints: &BTreeMap<u64, C>,
        removed: &BTreeMap<u64, R>,
    ) -> (r: Result<ConstraintHints, HintParseError>)
        ensures
            ({
                let vk = variables@.dom();
                let ck = constraints@.dom() + removed@.dom();
                let oh = raw.one_hot_constraints@;
                let ss = raw.sos1_constraints@;
                let oh_issue = one_hots_issue(oh, vk, ck, oh.len() as int);
                let ss_issue = sos1s_issue(ss, vk, ck, ss.len() as int);
                match r {
                    Err(e) => if oh_issue is Some {
                        oh_issue == Some(e)
                    } else {
                        ss_issue == Some(e)
                    },
                    Ok(h) => {
                        let ko = kept_one_hots(oh, constraints@.dom(), removed@.dom(), oh.len() as int);
                        let ks = kept_sos1s(ss, removed@.dom(), ss.len() as int);
                        &&& oh_issue is None
                        &&& ss_issue is None
                        &&& h.one_hot_constraints@.len() == ko.len()
                        &&& forall|i: int| 0 <= i < ko.len() ==> one_hot_reads_as(ko[i], #[trigger] h.one_hot_constraints@[i])
                        &&& h.sos1_constraints@.len() == ks.len()
                        &&& forall|i: int| 0 <= i < ks.len() ==> sos1_reads_as(ks[i], #[trigger] h.sos1_constraints@[i])
                        &&& forall|i: int| #![trigger h.sos1_constraints@[i]] 0 <= i < h.sos1_constraints@.len() ==> {
                            &&& !removed@.contains_key(h.sos1_constraints@[i]@.binary_constraint_id.0)
                            &&& forall|j: int| 0 <= j < h.sos1_constraints@[i]@.big_m_constraint_ids.len() ==> !removed@.contains_key(
                                (#[trigger] h.sos1_constraints@[i]@.big_m_constraint_ids[j]).0,
                            )
                        }
                        &&& forall|k: int| {
                            &&& 0 <= k < ss.len()
                            &&& !removed@.contains_key(#[trigger] ss[k].binary_constraint_id)
                            &&& forall|j: int| 0 <= j < ss[k].big_m_constraint_ids@.len() ==> !removed@.contains_key(
                                #[trigger] ss[k].big_m_constraint_ids@[j],
                            )
                        } ==> exists|i: int| 0 <= i < h.sos1_constraints@.len() && sos1_reads_as(ss[k], #[trigger] h.sos1_constraints@[i])
                        &&& forall|i: int| #![trigger h.one_hot_constraints@[i]] 0 <= i < h.one_hot_constraints@.len() ==> {
                            &&& constraints@.contains_key(h.one_hot_constraints@[i]@.id.0)
                            &&& !removed@.contains_key(h.one_hot_constraints@[i]@.id.0)
                        }
                        &&& forall|k: int| 0 <= k < oh.len() && constraints@.contains_key(#[trigger] oh[k].constraint_id)
                            && !removed@.contains_key(oh[k].constraint_id) ==> exists|i: int| 0 <= i < h.one_hot_constraints@.len()
                            && one_hot_reads_as(oh[k], #[trigger] h.one_hot_constraints@[i])
                    },
                }
            }),
    {
        let vk = key_set(variables);
        let ck = union_key_set(constraints, removed);
        let ghost vks = variables@.dom();
        let ghost cks = constraints@.dom() + removed@.dom();
        let ghost act = constraints@.dom();
        let ghost rem = removed@.dom();
        let ghost oh = raw.one_hot_constraints@;
        let ghost ss = raw.sos1_constraints@;
        let mut one_hots: Vec<OneHot> = Vec::new();
        let mut i: usize = 0;
        while i < raw.one_hot_constraints.len()
            invariant
                i <= oh.len(),
                oh == raw.one_hot_constraints@,
                vk@.dom() == vks,
                ck@.dom() == cks,
                vks == variables@.dom(),
                cks == constraints@.dom() + removed@.dom(),
                act == constraints@.dom(),
                rem == removed@.dom(),
                one_hots_issue(oh, vks, cks, i as int) is None,
                one_hots@.len() == kept_one_hots(oh, act, rem, i as int).len(),
                forall|j: int|
                    0 <= j < one_hots@.len() ==> one_hot_reads_as(
                        kept_one_hots(oh, act, rem, i as int)[j],
                        #[trigger] one_hots@[j],
                    ),
            decreases oh.len() - i,
        {
            let item = &raw.one_hot_constraints[i];
            match read_one_hot(item, &vk, &ck) {
                Err(e) => {
                    proof {
                        assert(one_hots_issue(oh, vks, cks, i + 1) == Some(e));
                        lemma_one_hots_issue_stable(oh, vks, cks, i + 1, oh.len() as int);
                    }
                    return Err(e);
                },
                Ok(h) => {
                    if !removed.contains_key(&item.constraint_id) && constraints.contains_key(&item.constraint_id) {
                        one_hots.push(h);
                    }
                },
            }
            i = i + 1;
        }
        let mut sos1s: Vec<Sos1> = Vec::new();
        let mut i: usize = 0;
        while i < raw.sos1_constraints.len()
            invariant
                i <= ss.len(),
                ss == raw.sos1_constraints@,
                oh == raw.one_hot_constraints@,
                vk@.dom() == vks,
                ck@.dom() == cks,
                vks == variables@.dom(),
                cks == constraints@.dom() + removed@.dom(),
                rem == removed@.dom(),
                one_hots_issue(oh, vks, cks, oh.len() as int) is None,
                sos1s_issue(ss, vks, cks, i as int) is None,
                sos1s@.len() == kept_sos1s(ss, rem, i as int).len(),
                forall|j: int| 0 <= j < sos1s@.len() ==> sos1_reads_as(kept_sos1s(ss, rem, i as int)[j], #[trigger] sos1s@[j]),
            decreases ss.len() - i,
        {
            let item = &raw.sos1_constraints[i];
            match read_sos1(item, &vk, &ck) {
                Err(e) => {
                    proof {
                        assert(sos1s_issue(ss, vks, cks, i + 1) == Some(e));
                        lemma_sos1s_issue_stable(ss, vks, cks, i + 1, ss.len() as int);
                    }
                    return Err(e);
                },
                Ok(h) => {
                    if !removed.contains_key(&item.binary_constraint_id) && no_big_m_removed(item, removed) {
                        sos1s.push(h);
                    }
                },
            }
            i = i + 1;
        }
        proof {
            let ks = kept_sos1s(ss, rem, ss.len() as int);
            let ko = kept_one_hots(oh, act, rem, oh.len() as int);
            lemma_kept_sos1s_exact(ss, rem, ss.len() as int);
            lemma_kept_one_hots_exact(oh, act, rem, oh.len() as int);
            assert forall|i: int| #![trigger sos1s@[i]] 0 <= i < sos1s@.len() implies {
                &&& !removed@.contains_key(sos1s@[i]@.binary_constraint_id.0)
                &&& forall|j: int| 0 <= j < sos1s@[i]@.big_m_constraint_ids.len() ==> !removed@.contains_key(
                    (#[trigger] sos1s@[i]@.big_m_constraint_ids[j]).0,
                )
            } by {
                assert(sos1_reads_as(ks[i], sos1s@[i]));
                assert(!rem.contains(ks[i].binary_constraint_id));
                assert forall|j: int| 0 <= j < sos1s@[i]@.big_m_constraint_ids.len() implies !removed@.contains_key(
                    (#[trigger] sos1s@[i]@.big_m_constraint_ids[j]).0,
                ) by {
                    let ids = sos1s@[i]@.big_m_constraint_ids;
                    assert(constraint_raws(ids)[j] == ids[j].0);
                    assert(constraint_raws(ids).contains(ids[j].0));
                    assert(ks[i].big_m_constraint_ids@.contains(ids[j].0));
                    let q = choose|q: int| 0 <= q < ks[i].big_m_constraint_ids@.len() && ks[i].big_m_constraint_ids@[q] == ids[j].0;
                    assert(!rem.contains(ks[i].big_m_constraint_ids@[q]));
                }
            }
            assert forall|k: int| {
                &&& 0 <= k < ss.len()
                &&& !removed@.contains_key(#[trigger] ss[k].binary_constraint_id)
                &&& forall|j: int| 0 <= j < ss[k].big_m_constraint_ids@.len() ==> !removed@.contains_key(
                    #[trigger] ss[k].big_m_constraint_ids@[j],
                )
            } implies exists|i: int| 0 <= i < sos1s@.len() && sos1_reads_as(ss[k], #[trigger] sos1s@[i]) by {
                assert(ks.contains(ss[k]));
                let i = choose|i: int| 0 <= i < ks.len() && ks[i] == ss[k];
                assert(sos1_reads_as(ks[i], sos1s@[i]));
            }
            assert forall|i: int| #![trigger one_hots@[i]] 0 <= i < one_hots@.len() implies {
                &&& constraints@.contains_key(one_hots@[i]@.id.0)
                &&& !removed@.contains_key(one_hots@[i]@.id.0)
            } by {
                assert(one_hot_reads_as(ko[i], one_hots@[i]));
            }
            assert forall|k: int| 0 <= k < oh.len() && constraints@.contains_key(#[trigger] oh[k].constraint_id)
                && !removed@.contains_key(oh[k].constraint_id) implies exists|i: int| 0 <= i < one_hots@.len()
                && one_hot_reads_as(oh[k], #[trigger] one_hots@[i]) by {
                assert(ko.contains(oh[k]));
                let i = choose|i: int| 0 <= i < ko.len() && ko[i] == oh[k];
                assert(one_hot_reads_as(ko[i], one_hots@[i]));
            }
        }
        Ok(ConstraintHints { one_hot_constraints: one_hots, sos1_constraints: sos1s })
    }
}

} // verus!
