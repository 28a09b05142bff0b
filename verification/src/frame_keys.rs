//! Frame indices as keys of an ordered map: the oldest pending frame.

use std::collections::BTreeMap;
use vstd::prelude::*;
use vstd::std_specs::iter::IteratorSpec;

verus! {

/// The smallest key of a finite set of frame indices.
pub open spec fn min_key(s: Set<u32>) -> u32 {
    choose|k: u32| s.contains(k) && forall|j: u32| s.contains(j) ==> k <= j
}

/// The smallest key of a nonempty map.
pub fn oldest_key<V>(m: &BTreeMap<u32, V>) -> (k: u32)
    requires
        m@.dom().len() > 0,
    ensures
        m@.contains_key(k),
        k == min_key(m@.dom()),
{
    broadcast use vstd::std_specs::btree::group_btree_axioms, vstd::laws_cmp::group_laws_cmp;

    let keys = m.keys();
    let ghost rem = keys.remaining();
    assert(rem.unref().to_set() == m@.dom());
    let mut best: u32 = 0;
    let mut found = false;
    for k in it: keys
        invariant
            it.seq() == rem,
            found <==> it.index() > 0,
            found ==> exists|j: int| 0 <= j < it.index() && *rem[j] == best,
            forall|j: int| 0 <= j < it.index() ==> best <= *rem[j],
    {
        if !found || *k < best {
            best = *k;
        }
        found = true;
    }
    proof {
        if rem.len() == 0 {
            assert(rem.unref().to_set() =~= Set::<u32>::empty());
        }
        let j = choose|j: int| 0 <= j < rem.len() && *rem[j] == best;
        assert(rem.unref()[j] == best);
        assert(m@.dom().contains(best));
        assert forall|x: u32| m@.dom().contains(x) implies best <= x by {
            assert(rem.unref().to_set().contains(x));
            let idx = choose|idx: int| 0 <= idx < rem.len() && rem.unref()[idx] == x;
            assert(best <= *rem[idx]);
        }
        assert(m@.dom().contains(best) && forall|x: u32| m@.dom().contains(x) ==> best <= x);
        let c = min_key(m@.dom());
        assert(m@.dom().contains(c) && forall|x: u32| m@.dom().contains(x) ==> c <= x);
        assert(c <= best && best <= c);
    }
    best
}

/// Frame indices are ordered as the map needs.
pub proof fn lemma_frame_keys_ordered()
    ensures
        vstd::laws_cmp::obeys_cmp::<u32>(),
        vstd::std_specs::btree::key_obeys_cmp_spec::<u32>(),
{
    broadcast use vstd::std_specs::btree::group_btree_axioms, vstd::laws_cmp::group_laws_cmp;

}

} // verus!
