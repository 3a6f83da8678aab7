//! The selected positions of the list, and the orders they are walked in.

use vstd::prelude::*;
use std::collections::HashSet;
use vstd::std_specs::hash::spec_hash_keys_iter;
use vstd::std_specs::iter::IteratorSpec;

verus! {

broadcast use vstd::std_specs::hash::group_hash_axioms;

/// `w` lists each position of `sel` once: an order the set can be walked
/// in. Which of these orders a walk takes is up to the set's hasher.
pub open spec fn walks(sel: Set<usize>, w: Seq<usize>) -> bool {
    &&& w.no_duplicates()
    &&& w.to_set() == sel
}

/// The selected positions, in the order the set is walked.
pub fn selection_list(sel: &HashSet<usize>) -> (r: Vec<usize>)
    ensures
        walks(sel@, r@),
        r@.len() == sel@.len(),
        r@ == spec_hash_keys_iter(sel).remaining().unref(),
{
    let mut r: Vec<usize> = Vec::new();
    for x in it: sel.iter()
        invariant
            it.seq() == spec_hash_keys_iter(sel).remaining(),
            r@ == it.seq().take(it.index()).unref(),
    {
        r.push(*x);
        proof {
            assert(r@ =~= it.seq().take(it.index() + 1).unref());
        }
    }
    proof {
        assert(r@ =~= spec_hash_keys_iter(sel).remaining().unref());
    }
    r
}

/// A walk lists as many positions as the set holds.
pub proof fn lemma_walk_len(sel: Set<usize>, w: Seq<usize>)
    requires
        walks(sel, w),
    ensures
        w.len() == sel.len(),
{
    w.unique_seq_to_set();
}

} // verus!
