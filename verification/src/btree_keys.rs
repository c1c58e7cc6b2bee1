use std::collections::BTreeMap;
use vstd::prelude::*;
use vstd::std_specs::cmp::OrdSpec;
use vstd::std_specs::iter::IteratorSpec;

verus! {

broadcast use vstd::std_specs::btree::group_btree_axioms;

/// The keys of a map keyed by raw integer IDs, in strictly increasing order.
pub fn keys_of<V>(m: &BTreeMap<u64, V>) -> (r: Vec<u64>)
    ensures
        forall|k: u64| m@.contains_key(k) <==> r@.contains(k),
        forall|i: int, j: int| 0 <= i < j < r@.len() ==> r@[i] < r@[j],
        r@.len() == m@.dom().len(),
{
    let mut out: Vec<u64> = Vec::new();
    let iter = m.iter();
    let ghost full = iter.remaining();
    proof {
        let ks = full.map_values(|kv: (&u64, &V)| *kv.0);
        vstd::std_specs::btree::axiom_increasing_seq_meaning(ks);
    }
    for kv in it: iter
        invariant
            it.seq() == full,
            out@.len() == it.index(),
            forall|i: int| 0 <= i < it.index() ==> out@[i] == *(#[trigger] it.seq()[i]).0,
    {
        let (k, _v) = kv;
        out.push(*k);
    }
    proof {
        let ks = full.map_values(|kv: (&u64, &V)| *kv.0);
        assert forall|i: int, j: int| 0 <= i < j < out@.len() implies out@[i] < out@[j] by {
            assert(ks[i].cmp_spec(&ks[j]) is Less);
        }
        assert forall|k: u64| m@.contains_key(k) implies out@.contains(k) by {
            assert(full.contains((&k, &m@[k])));
            let i = choose|i: int| 0 <= i < full.len() && full[i] == (&k, &m@[k]);
            assert(out@[i] == k);
        }
        assert forall|k: u64| out@.contains(k) implies m@.contains_key(k) by {
            let i = choose|i: int| 0 <= i < out@.len() && out@[i] == k;
            assert(m@.contains_key(*full[i].0));
        }
    }
    out
}

} // verus!
