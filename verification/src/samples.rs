//! Sampled states (`sample ID -> variable ID -> value`) and solutions, and
//! the transposition of samples into per-variable values.
use crate::btree_keys::keys_of;
use std::collections::{BTreeMap, BTreeSet};
use vstd::prelude::*;

verus! {

broadcast use vstd::std_specs::btree::group_btree_axioms;

/// A two-level map has an entry at `a` then `b`.
pub open spec fn holds<V>(m: Map<u64, BTreeMap<u64, V>>, a: u64, b: u64) -> bool {
    m.contains_key(a) && m[a]@.contains_key(b)
}

/// The value of a two-level map at `a` then `b`.
pub open spec fn at<V>(m: Map<u64, BTreeMap<u64, V>>, a: u64, b: u64) -> V {
    m[a]@[b]
}

/// `out` holds the entries of `input` with the two levels swapped: `out[v][s]`
/// is `input[s][v]`, and `out` has no empty inner map.
#[verifier::opaque]
pub open spec fn is_transpose<V>(input: Map<u64, BTreeMap<u64, V>>, out: Map<u64, BTreeMap<u64, V>>) -> bool {
    &&& forall|v: u64, s: u64|
        #![trigger holds(out, v, s)]
        #![trigger holds(input, s, v)]
        holds(out, v, s) <==> holds(input, s, v)
    &&& forall|v: u64, s: u64| #[trigger] holds(out, v, s) ==> at(out, v, s) == at(input, s, v)
    &&& forall|v: u64| #[trigger] out.contains_key(v) ==> exists|s: u64| #[trigger] holds(out, v, s)
}

/// States of decision variables, one per sample.
pub struct Samples<V> {
    pub states: BTreeMap<u64, BTreeMap<u64, V>>,
}

impl<V: Copy> Samples<V> {
    /// The samples with their states, in increasing order of sample ID.
    pub fn iter(&self) -> (r: Vec<(u64, &BTreeMap<u64, V>)>)
        ensures
            r@.len() == self.states@.dom().len(),
            forall|i: int|
                0 <= i < r@.len() ==> self.states@.contains_key((#[trigger] r@[i]).0) && *r@[i].1 == self.states@[r@[i].0],
            forall|s: u64| self.states@.contains_key(s) ==> exists|i: int| 0 <= i < r@.len() && (#[trigger] r@[i]).0 == s,
            forall|i: int, j: int| 0 <= i < j < r@.len() ==> r@[i].0 < r@[j].0,
    {
        let raw = keys_of(&self.states);
        let mut out: Vec<(u64, &BTreeMap<u64, V>)> = Vec::new();
        let mut i: usize = 0;
        while i < raw.len()
            invariant
                i <= raw@.len(),
                forall|k: u64| self.states@.contains_key(k) <==> raw@.contains(k),
                out@.len() == i,
                forall|j: int| 0 <= j < i ==> (#[trigger] out@[j]).0 == raw@[j] && *out@[j].1 == self.states@[raw@[j]],
            decreases raw@.len() - i,
        {
            proof {
                assert(raw@.contains(raw@[i as int]));
            }
            match self.states.get(&raw[i]) {
                Some(state) => {
                    out.push((raw[i], state));
                },
                None => {
                    return out;
                },
            }
            i = i + 1;
        }
        proof {
            assert forall|i: int| 0 <= i < out@.len() implies self.states@.contains_key((#[trigger] out@[i]).0) by {
                assert(raw@.contains(raw@[i]));
            }
            assert forall|k: u64| self.states@.contains_key(k) implies exists|i: int|
                0 <= i < out@.len() && (#[trigger] out@[i]).0 == k by {
                assert(raw@.contains(k));
                let i = choose|i: int| 0 <= i < raw@.len() && raw@[i] == k;
                assert(out@[i].0 == k);
            }
        }
        out
    }

    /// Transposes `sample ID -> variable ID -> value` into
    /// `variable ID -> sample ID -> value`.
    pub fn transpose(&self) -> (r: BTreeMap<u64, BTreeMap<u64, V>>)
        ensures
            is_transpose(self.states@, r@),
    {
        let ghost input = self.states@;
        let sample_ids = keys_of(&self.states);
        let mut out: BTreeMap<u64, BTreeMap<u64, V>> = BTreeMap::new();
        let ghost mut done: Set<u64> = Set::empty();
        let mut i: usize = 0;
        while i < sample_ids.len()
            invariant
                i <= sample_ids@.len(),
                input == self.states@,
                forall|k: u64| input.contains_key(k) <==> sample_ids@.contains(k),
                forall|a: int, b: int| 0 <= a < b < sample_ids@.len() ==> sample_ids@[a] < sample_ids@[b],
                forall|s: u64| done.contains(s) <==> exists|k: int| 0 <= k < i && sample_ids@[k] == s,
                forall|v: u64, s: u64|
                    #![trigger holds(out@, v, s)]
                    #![trigger holds(input, s, v)]
                    holds(out@, v, s) <==> (done.contains(s) && holds(input, s, v)),
                forall|v: u64, s: u64| #[trigger] holds(out@, v, s) ==> at(out@, v, s) == at(input, s, v),
                forall|v: u64| #[trigger] out@.contains_key(v) ==> exists|s: u64| #[trigger] holds(out@, v, s),
            decreases sample_ids@.len() - i,
        {
            let s = sample_ids[i];
            proof {
                assert(sample_ids@.contains(s));
                assert(!done.contains(s)) by {
                    if done.contains(s) {
                        let k = choose|k: int| 0 <= k < i && sample_ids@[k] == s;
                        assert(sample_ids@[k] < sample_ids@[i as int]);
                    }
                }
            }
            let state = match self.states.get(&s) {
                Some(st) => st,
                None => {
                    return out;
                },
            };
            let var_ids = keys_of(state);
            let ghost mut vdone: Set<u64> = Set::empty();
            let mut j: usize = 0;
            while j < var_ids.len()
                invariant
                    j <= var_ids@.len(),
                    input == self.states@,
                    input.contains_key(s),
                    *state == input[s],
                    !done.contains(s),
                    forall|k: u64| state@.contains_key(k) <==> var_ids@.contains(k),
                    forall|v: u64| vdone.contains(v) <==> exists|k: int| 0 <= k < j && var_ids@[k] == v,
                    forall|v: u64, t: u64|
                        #![trigger holds(out@, v, t)]
                        #![trigger holds(input, t, v)]
                        holds(out@, v, t) <==> ((done.contains(t) && holds(input, t, v)) || (t == s && vdone.contains(v))),
                    forall|v: u64, t: u64| #[trigger] holds(out@, v, t) ==> at(out@, v, t) == at(input, t, v),
                    forall|v: u64| #[trigger] out@.contains_key(v) ==> exists|t: u64| #[trigger] holds(out@, v, t),
                decreases var_ids@.len() - j,
            {
                let v = var_ids[j];
                proof {
                    assert(var_ids@.contains(v));
                }
                let value = match state.get(&v) {
                    Some(x) => *x,
                    None => {
                        return out;
                    },
                };
                let ghost before = out@;
                let mut inner = match out.remove(&v) {
                    Some(m) => m,
                    None => BTreeMap::new(),
                };
                let ghost inner_before = inner@;
                inner.insert(s, value);
                out.insert(v, inner);
                proof {
                    vdone = vdone.insert(v);
                    assert forall|w: u64, t: u64|
                        #![trigger holds(out@, w, t)]
                        #![trigger holds(input, t, w)]
                        holds(out@, w, t) <==> ((done.contains(t) && holds(input, t, w)) || (t == s && vdone.contains(w))) by {
                        if w == v {
                            assert(holds(out@, w, t) <==> (holds(before, w, t) || t == s));
                        } else {
                            assert(holds(out@, w, t) <==> holds(before, w, t));
                        }
                    }
                    assert forall|w: u64, t: u64| #[trigger] holds(out@, w, t) implies at(out@, w, t) == at(input, t, w) by {
                        if w == v {
                            if t != s {
                                assert(holds(before, w, t));
                            }
                        } else {
                            assert(holds(before, w, t));
                        }
                    }
                    assert forall|w: u64| #[trigger] out@.contains_key(w) implies exists|t: u64| #[trigger] holds(out@, w, t) by {
                        if w == v {
                            assert(holds(out@, w, s));
                        } else {
                            assert(before.contains_key(w));
                            let t = choose|t: u64| #[trigger] holds(before, w, t);
                            assert(holds(out@, w, t));
                        }
                    }
                    assert forall|x: u64| vdone.contains(x) <==> exists|k: int| 0 <= k < j + 1 && var_ids@[k] == x by {
                        if x == v {
                            assert(var_ids@[j as int] == x);
                        }
                        if exists|k: int| 0 <= k < j + 1 && var_ids@[k] == x {
                            let k = choose|k: int| 0 <= k < j + 1 && var_ids@[k] == x;
                            if k < j {
                                assert(exists|k2: int| 0 <= k2 < j && var_ids@[k2] == x);
                            }
                        }
                    }
                }
                j = j + 1;
            }
            proof {
                assert forall|v: u64| vdone.contains(v) <==> holds(input, s, v) by {
                    if holds(input, s, v) {
                        assert(var_ids@.contains(v));
                        let k = choose|k: int| 0 <= k < var_ids@.len() && var_ids@[k] == v;
                    }
                    if vdone.contains(v) {
                        let k = choose|k: int| 0 <= k < var_ids@.len() && var_ids@[k] == v;
                        assert(var_ids@.contains(v));
                    }
                }
                let ghost old_done = done;
                done = done.insert(s);
                assert forall|x: u64| done.contains(x) <==> exists|k: int| 0 <= k < i + 1 && sample_ids@[k] == x by {
                    if x == s {
                        assert(sample_ids@[i as int] == x);
                    }
                    if exists|k: int| 0 <= k < i + 1 && sample_ids@[k] == x {
                        let k = choose|k: int| 0 <= k < i + 1 && sample_ids@[k] == x;
                        if k < i {
                            assert(old_done.contains(x));
                        }
                    }
                }
            }
            i = i + 1;
        }
        proof {
            reveal(is_transpose);
            assert forall|v: u64, s: u64|
                #![trigger holds(out@, v, s)]
                #![trigger holds(input, s, v)]
                holds(out@, v, s) <==> holds(input, s, v) by {
                if holds(input, s, v) {
                    assert(sample_ids@.contains(s));
                    let k = choose|k: int| 0 <= k < sample_ids@.len() && sample_ids@[k] == s;
                    assert(done.contains(s));
                }
            }
        }
        out
    }
}

/// Transposing twice gives back the samples that have at least one value,
/// each with the same values.
pub proof fn lemma_transpose_twice<V>(
    a: Map<u64, BTreeMap<u64, V>>,
    b: Map<u64, BTreeMap<u64, V>>,
    c: Map<u64, BTreeMap<u64, V>>,
)
    requires
        is_transpose(a, b),
        is_transpose(b, c),
    ensures
        forall|s: u64, v: u64| #[trigger] holds(c, s, v) <==> holds(a, s, v),
        forall|s: u64, v: u64| #[trigger] holds(c, s, v) ==> at(c, s, v) == at(a, s, v),
        forall|s: u64| #[trigger] c.contains_key(s) <==> exists|v: u64| #[trigger] holds(a, s, v),
{
    assert forall|s: u64, v: u64| #[trigger] holds(c, s, v) <==> holds(a, s, v) by {
        lemma_transpose_pair(a, b, v, s);
        lemma_transpose_pair(b, c, s, v);
    }
    assert forall|s: u64, v: u64| #[trigger] holds(c, s, v) implies at(c, s, v) == at(a, s, v) by {
        lemma_transpose_pair(a, b, v, s);
        lemma_transpose_pair(b, c, s, v);
    }
    assert forall|s: u64| #[trigger] c.contains_key(s) implies exists|v: u64| #[trigger] holds(a, s, v) by {
        lemma_transpose_nonempty(b, c, s);
        let v = choose|v: u64| #[trigger] holds(c, s, v);
        lemma_transpose_pair(a, b, v, s);
        lemma_transpose_pair(b, c, s, v);
    }
    assert forall|s: u64| (exists|v: u64| #[trigger] holds(a, s, v)) implies c.contains_key(s) by {
        let v = choose|v: u64| #[trigger] holds(a, s, v);
        lemma_transpose_pair(a, b, v, s);
        lemma_transpose_pair(b, c, s, v);
    }
}

proof fn lemma_transpose_pair<V>(input: Map<u64, BTreeMap<u64, V>>, out: Map<u64, BTreeMap<u64, V>>, v: u64, s: u64)
    requires
        is_transpose(input, out),
    ensures
        holds(out, v, s) <==> holds(input, s, v),
        holds(out, v, s) ==> at(out, v, s) == at(input, s, v),
{
    reveal(is_transpose);
}

proof fn lemma_transpose_nonempty<V>(input: Map<u64, BTreeMap<u64, V>>, out: Map<u64, BTreeMap<u64, V>>, v: u64)
    requires
        is_transpose(input, out),
        out.contains_key(v),
    ensures
        exists|s: u64| #[trigger] holds(out, v, s),
{
    reveal(is_transpose);
}

/// A row of a solution: its ID and what else the solution records for it.
pub struct Row<T> {
    pub id: u64,
    pub value: T,
}

/// A solution: its decision variables and its evaluated constraints.
pub struct Solution<D, C> {
    pub decision_variables: Vec<Row<D>>,
    pub evaluated_constraints: Vec<Row<C>>,
}

/// The set of IDs of a list of rows.
fn ids_of_rows<T>(rows: &Vec<Row<T>>) -> (r: BTreeSet<u64>)
    ensures
        forall|k: u64| r@.contains(k) <==> exists|i: int| 0 <= i < rows@.len() && (#[trigger] rows@[i]).id == k,
{
    let mut out: BTreeSet<u64> = BTreeSet::new();
    let mut i: usize = 0;
    while i < rows.len()
        invariant
            i <= rows@.len(),
            forall|k: u64| out@.contains(k) <==> exists|j: int| 0 <= j < i && (#[trigger] rows@[j]).id == k,
        decreases rows@.len() - i,
    {
        out.insert(rows[i].id);
        proof {
            assert forall|k: u64| out@.contains(k) <==> exists|j: int| 0 <= j < i + 1 && (#[trigger] rows@[j]).id == k by {
                if k == rows@[i as int].id {
                    assert(rows@[i as int].id == k);
                }
                if exists|j: int| 0 <= j < i + 1 && (#[trigger] rows@[j]).id == k {
                    let j = choose|j: int| 0 <= j < i + 1 && (#[trigger] rows@[j]).id == k;
                    if j < i {
                        assert(exists|j2: int| 0 <= j2 < i && (#[trigger] rows@[j2]).id == k);
                    }
                }
            }
        }
        i = i + 1;
    }
    out
}

impl<D, C> Solution<D, C> {
    /// The IDs of the decision variables of the solution.
    pub fn decision_variable_ids(&self) -> (r: BTreeSet<u64>)
        ensures
            forall|k: u64| r@.contains(k) <==> exists|i: int|
                0 <= i < self.decision_variables@.len() && (#[trigger] self.decision_variables@[i]).id == k,
    {
        ids_of_rows(&self.decision_variables)
    }

    /// The IDs of the evaluated constraints of the solution.
    pub fn constraint_ids(&self) -> (r: BTreeSet<u64>)
        ensures
            forall|k: u64| r@.contains(k) <==> exists|i: int|
                0 <= i < self.evaluated_constraints@.len() && (#[trigger] self.evaluated_constraints@[i]).id == k,
    {
        ids_of_rows(&self.evaluated_constraints)
    }
}

} // verus!
