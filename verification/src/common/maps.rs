//! Helpers for `HashMap`s keyed by integers.
use vstd::prelude::*;
use std::collections::HashMap;
use vstd::std_specs::hash::*;
use vstd::std_specs::iter::IteratorSpec;

verus! {

broadcast use vstd::std_specs::hash::group_hash_axioms;

/// The keys of a map, each once, in the order the map is walked.
pub fn keys_of<K: Copy + std::hash::Hash + Eq, V>(m: &HashMap<K, V>) -> (r: Vec<K>)
    requires
        obeys_key_model::<K>(),
    ensures
        r@.to_set() == m@.dom(),
        r@.no_duplicates(),
        r@.len() == m@.dom().len(),
{
    let mut r: Vec<K> = Vec::new();
    let ghost items = spec_hash_map_iter(m).remaining();
    for (k, v) in it: m.iter()
        invariant
            r@ == it.seq().take(it.index() as int).map_values(|p: (&K, &V)| *p.0),
            it.seq() == items,
    {
        r.push(*k);
    }
    assert(r@ =~= items.map_values(|p: (&K, &V)| *p.0));
    assert forall|i: int, j: int|
        0 <= i < r@.len() && 0 <= j < r@.len() && i != j implies r@[i] != r@[j] by {
        if r@[i] == r@[j] {
            assert(m@.contains_key(*items[i].0));
            assert(m@.contains_key(*items[j].0));
            assert(items[i] == items[j]);
        }
    }
    assert forall|k: K| m@.dom().contains(k) implies r@.contains(k) by {
        assert(items.contains((&k, &m@[k])));
        let i = choose|i: int| 0 <= i < items.len() && items[i] == (&k, &m@[k]);
        assert(r@[i] == k);
    }
    assert forall|k: K| r@.contains(k) implies m@.dom().contains(k) by {
        let i = choose|i: int| 0 <= i < r@.len() && r@[i] == k;
        assert(m@.contains_key(*items[i].0));
    }
    assert(r@.to_set() =~= m@.dom());
    proof {
        r@.unique_seq_to_set();
    }
    r
}

/// `HashMap::get_mut` from std: a mutable reference to the value of `k`, if
/// the map has one; what is written through it becomes the value of `k`.
#[verifier::external_body]
pub fn hash_map_get_mut<'a, K: std::hash::Hash + Eq, V>(m: &'a mut HashMap<K, V>, k: &K) -> (r:
    Option<&'a mut V>)
    ensures
        obeys_key_model::<K>() ==> match r {
            Some(v) => old(m)@.contains_key(*k) && *v == old(m)@[*k] && final(m)@ == old(
                m,
            )@.insert(*k, *final(v)),
            None => !old(m)@.contains_key(*k) && final(m)@ == old(m)@,
        },
{
    m.get_mut(k)
}

} // verus!
