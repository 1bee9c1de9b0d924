//! Walking the keys of the hash maps that the library keeps.  The
//! order of the walk is the map's own and is not known; what is stated holds
//! for every order.

use vstd::prelude::*;
use std::collections::HashMap;
use vstd::std_specs::iter::IteratorSpec;

verus! {

broadcast use vstd::std_specs::hash::group_hash_axioms;

/// The keys of `m`, each once, in the map's walking order.
pub fn keys_of<V>(m: &HashMap<i32, V>) -> (r: Vec<i32>)
    ensures
        r@.to_set() == m@.dom(),
        r@.no_duplicates(),
        r@.len() == m@.dom().len(),
{
    let mut out: Vec<i32> = Vec::new();
    let ghost all = m.keys().remaining();
    for k in iter: m.keys()
        invariant
            all == iter.seq(),
            out@.len() == iter.index(),
            out@ == all.take(out@.len() as int).map_values(|x: &i32| *x),
    {
        out.push(*k);
        proof {
            assert(out@ =~= all.take(out@.len() as int).map_values(|x: &i32| *x));
        }
    }
    proof {
        assert(out@.len() == all.len());
        assert(all.take(all.len() as int) =~= all);
        assert(out@ =~= all.unref());
        assert(all.unref().to_set() == m@.dom());
        assert(all.no_duplicates());
        assert(out@.no_duplicates()) by {
            assert forall|i: int, j: int|
                0 <= i < out@.len() && 0 <= j < out@.len() && i != j implies out@[i] != out@[j] by {
                assert(out@[i] == *all[i]);
                assert(out@[j] == *all[j]);
            }
        }
        out@.unique_seq_to_set();
    }
    out
}

} // verus!
