//! Which decision variables a function reads, from the IDs in its terms. The
//! coefficients do not decide it, so they are left out here.
use crate::btree_keys::keys_of;
use std::collections::{BTreeMap, BTreeSet};
use vstd::prelude::*;

verus! {

broadcast use vstd::std_specs::btree::group_btree_axioms;

/// The variable IDs in the terms of a function.
#[derive(Clone, Debug, PartialEq)]
pub enum FunctionTerms {
    /// No function was set.
    Unset,
    Constant,
    /// The variable ID of each linear term.
    Linear { ids: Vec<u64> },
    /// The column and row variable IDs of each quadratic term.
    Quadratic { columns: Vec<u64>, rows: Vec<u64> },
    /// The variable IDs of each monomial.
    Polynomial { monomials: Vec<Vec<u64>> },
}

/// The variables a function reads: those of its linear terms; the columns
/// and rows of its quadratic terms; those of its monomials; none for a
/// constant or an unset function.
pub open spec fn used_ids_spec(f: FunctionTerms) -> Set<u64> {
    match f {
        FunctionTerms::Linear { ids } => ids@.to_set(),
        FunctionTerms::Quadratic { columns, rows } => columns@.to_set() + rows@.to_set(),
        FunctionTerms::Polynomial { monomials } => Set::new(
            |x: u64| exists|i: int| 0 <= i < monomials@.len() && (#[trigger] monomials@[i])@.contains(x),
        ),
        _ => Set::empty(),
    }
}

/// Adds the IDs of a list to a key set.
fn add_ids(keys: &mut BTreeMap<u64, ()>, ids: &Vec<u64>)
    ensures
        final(keys)@.dom() == old(keys)@.dom() + ids@.to_set(),
{
    let mut i: usize = 0;
    while i < ids.len()
        invariant
            i <= ids@.len(),
            keys@.dom() == old(keys)@.dom() + ids@.subrange(0, i as int).to_set(),
        decreases ids@.len() - i,
    {
        keys.insert(ids[i], ());
        proof {
            assert(ids@.subrange(0, i + 1).to_set() =~= ids@.subrange(0, i as int).to_set().insert(ids@[i as int]))
                by {
                assert forall|x: u64| ids@.subrange(0, i + 1).to_set().contains(x) implies ids@.subrange(
                    0,
                    i as int,
                ).to_set().insert(ids@[i as int]).contains(x) by {
                    let j = choose|j: int| 0 <= j < i + 1 && #[trigger] ids@.subrange(0, i + 1)[j] == x;
                    if j < i {
                        assert(ids@.subrange(0, i as int)[j] == x);
                    }
                }
                assert forall|x: u64| ids@.subrange(0, i as int).to_set().insert(ids@[i as int]).contains(x) implies ids@.subrange(
                    0,
                    i + 1,
                ).to_set().contains(x) by {
                    if x == ids@[i as int] {
                        assert(ids@.subrange(0, i + 1)[i as int] == x);
                    } else {
                        let j = choose|j: int| 0 <= j < i && #[trigger] ids@.subrange(0, i as int)[j] == x;
                        assert(ids@.subrange(0, i + 1)[j] == x);
                    }
                }
            }
            assert(keys@.dom() =~= old(keys)@.dom() + ids@.subrange(0, i + 1).to_set());
        }
        i = i + 1;
    }
    assert(ids@.subrange(0, ids@.len() as int) =~= ids@);
}

impl FunctionTerms {
    /// The variables the function reads, as a key set.
    fn used_id_keys(&self) -> (r: BTreeMap<u64, ()>)
        ensures
            r@.dom() == used_ids_spec(*self),
    {
        let mut keys: BTreeMap<u64, ()> = BTreeMap::new();
        match self {
            FunctionTerms::Linear { ids } => {
                add_ids(&mut keys, ids);
                assert(keys@.dom() =~= used_ids_spec(*self));
            },
            FunctionTerms::Quadratic { columns, rows } => {
                add_ids(&mut keys, columns);
                add_ids(&mut keys, rows);
                assert(keys@.dom() =~= used_ids_spec(*self));
            },
            FunctionTerms::Polynomial { monomials } => {
                let mut i: usize = 0;
                while i < monomials.len()
                    invariant
                        i <= monomials@.len(),
                        forall|x: u64| keys@.dom().contains(x) <==> exists|j: int|
                            0 <= j < i && (#[trigger] monomials@[j])@.contains(x),
                    decreases monomials@.len() - i,
                {
                    let ghost before = keys@.dom();
                    add_ids(&mut keys, &monomials[i]);
                    proof {
                        assert forall|x: u64| keys@.dom().contains(x) <==> exists|j: int|
                            0 <= j < i + 1 && (#[trigger] monomials@[j])@.contains(x) by {
                            if keys@.dom().contains(x) && !before.contains(x) {
                                assert(monomials@[i as int]@.to_set().contains(x));
                                assert(monomials@[i as int]@.contains(x));
                            }
                            if exists|j: int| 0 <= j < i + 1 && (#[trigger] monomials@[j])@.contains(x) {
                                let j = choose|j: int| 0 <= j < i + 1 && (#[trigger] monomials@[j])@.contains(x);
                                if j == i {
                                    assert(monomials@[i as int]@.to_set().contains(x));
                                }
                            }
                        }
                    }
                    i = i + 1;
                }
                assert(keys@.dom() =~= used_ids_spec(*self));
            },
            _ => {
                assert(keys@.dom() =~= used_ids_spec(*self));
            },
        }
        keys
    }

    /// The variables the function reads.
    pub fn used_decision_variable_ids(&self) -> (r: BTreeSet<u64>)
        ensures
            r@ == used_ids_spec(*self),
    {
        let keys = keys_of(&self.used_id_keys());
        let mut out: BTreeSet<u64> = BTreeSet::new();
        let mut i: usize = 0;
        while i < keys.len()
            invariant
                i <= keys@.len(),
                out@ == keys@.subrange(0, i as int).to_set(),
            decreases keys@.len() - i,
        {
            out.insert(keys[i]);
            proof {
                assert forall|x: u64| out@.contains(x) <==> keys@.subrange(0, i + 1).to_set().contains(x) by {
                    if out@.contains(x) && x != keys@[i as int] {
                        let j = choose|j: int| 0 <= j < i && #[trigger] keys@.subrange(0, i as int)[j] == x;
                        assert(keys@.subrange(0, i + 1)[j] == x);
                    }
                    if x == keys@[i as int] {
                        assert(keys@.subrange(0, i + 1)[i as int] == x);
                    }
                    if keys@.subrange(0, i + 1).to_set().contains(x) && x != keys@[i as int] {
                        let j = choose|j: int| 0 <= j < i + 1 && #[trigger] keys@.subrange(0, i + 1)[j] == x;
                        assert(j < i);
                        assert(keys@.subrange(0, i as int)[j] == x);
                    }
                }
                assert(out@ =~= keys@.subrange(0, i + 1).to_set());
            }
            i = i + 1;
        }
        proof {
            assert(keys@.subrange(0, keys@.len() as int) =~= keys@);
            assert(out@ =~= used_ids_spec(*self));
        }
        out
    }

    /// The variables the function reads, in increasing order.
    pub fn used_ids_in_order(&self) -> (r: Vec<u64>)
        ensures
            r@.to_set() == used_ids_spec(*self),
            forall|i: int, j: int| 0 <= i < j < r@.len() ==> r@[i] < r@[j],
    {
        let r = keys_of(&self.used_id_keys());
        assert(r@.to_set() =~= used_ids_spec(*self));
        r
    }
}

} // verus!
