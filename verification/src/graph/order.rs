//! Ordered views of integer sets.

use vstd::prelude::*;
use std::collections::BTreeSet;
use vstd::std_specs::iter::IteratorSpec;
use vstd::std_specs::btree::spec_btree_keys_iter;
use vstd::std_specs::cmp::OrdSpec;

verus! {

broadcast use {vstd::std_specs::btree::group_btree_axioms, vstd::laws_cmp::group_laws_cmp};

/// Each element is smaller than every later one.
pub open spec fn strictly_increasing(s: Seq<u32>) -> bool {
    forall|i: int, j: int| 0 <= i < j < s.len() ==> s[i] < s[j]
}

/// The elements of a set in increasing order.
pub fn sorted_keys(s: &BTreeSet<u32>) -> (r: Vec<u32>)
    ensures
        r@.to_set() == s@,
        strictly_increasing(r@),
{
    let mut r: Vec<u32> = Vec::new();
    let ghost rem = spec_btree_keys_iter(s).remaining();
    let ghost all = rem.map_values(|x: &u32| *x);
    proof {
        vstd::std_specs::btree::axiom_spec_btree_keys_iter(s);
        assert(all =~= rem.unref());
        assert(vstd::laws_cmp::obeys_cmp::<&u32>());
        vstd::std_specs::btree::axiom_increasing_seq_meaning::<&u32>(rem);
        assert forall|i: int, j: int| 0 <= i < j < all.len() implies all[i] < all[j] by {
            assert(OrdSpec::cmp_spec(&rem[i], &rem[j]) is Less);
        }
    }
    for k in it: s.iter()
        invariant
            it.seq().map_values(|x: &u32| *x) == all,
            r@ == all.take(it.index()),
    {
        r.push(*k);
        assert(r@ =~= all.take(it.index() + 1));
    }
    assert(r@ =~= all);
    r
}

} // verus!
