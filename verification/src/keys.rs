use vstd::prelude::*;
use std::collections::HashMap;
use vstd::std_specs::iter::IteratorSpec;

verus! {

/// The keys of `m`, each once, in the map's iteration order.
pub fn map_keys<K: Copy, V>(m: &HashMap<K, V>) -> (keys: Vec<K>)
    requires
        vstd::std_specs::hash::obeys_key_model::<K>(),
    ensures
        keys@ == vstd::std_specs::hash::spec_keys_iter(m).remaining().unref(),
        keys@.to_set() == m@.dom(),
        keys@.no_duplicates(),
        keys@.len() == m@.len(),
{
    broadcast use vstd::std_specs::hash::group_hash_axioms;

    let mut keys: Vec<K> = Vec::new();
    for k in it: m.keys()
        invariant
            keys@ == it.seq().take(it.index() as int).unref(),
            it.seq() == vstd::std_specs::hash::spec_keys_iter(m).remaining(),
    {
        proof {
            assert(it.seq().take(it.index() + 1).unref() =~= keys@.push(*k));
        }
        keys.push(*k);
    }
    proof {
        let all = vstd::std_specs::hash::spec_keys_iter(m).remaining();
        assert(keys@ =~= all.unref());
    }
    keys
}

} // verus!
