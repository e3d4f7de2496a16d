//! Walking and thinning hash maps.
use std::collections::HashMap;
use vstd::prelude::*;

verus! {

/// The keys of a map, each once, in no particular order.
pub fn keys_of<V>(map: &HashMap<u128, V>) -> (r: Vec<u128>)
    ensures
        r@.to_set() == map@.dom(),
        r@.no_duplicates(),
        r@.len() == map@.dom().len(),
{
    let mut out: Vec<u128> = Vec::new();
    for key in iter: map.keys()
        invariant
            iter.seq().unref().to_set() == map@.dom(),
            iter.seq().no_duplicates(),
            iter.seq().len() == map@.dom().len(),
            out@.len() == iter.index(),
            forall|j: int| 0 <= j < iter.index() ==> out@[j] == *#[trigger] iter.seq()[j],
            out@.no_duplicates(),
            forall|j: int| 0 <= j < out@.len() ==> map@.dom().contains(#[trigger] out@[j]),
            forall|j: int|
                0 <= j < iter.index() ==> out@.contains(*#[trigger] iter.seq()[j]),
    {
        assert(iter.seq().unref()[iter.index()] == *key);
        assert(iter.seq().unref().to_set().contains(*key));
        let ghost before = out@;
        out.push(*key);
        assert(out@[before.len() as int] == *key);
        assert forall|j: int| 0 <= j < before.len() implies out@.contains(
            *#[trigger] iter.seq()[j],
        ) by {
            assert(out@[j] == *iter.seq()[j]);
        }
        assert forall|i: int, j: int| 0 <= i < j < out@.len() implies out@[i] != out@[j] by {
            if j == before.len() {
                assert(iter.seq()[i] != iter.seq()[j]);
            }
        }
    }
    assert forall|k: u128| map@.dom().contains(k) implies out@.contains(k) by {}
    assert(out@.to_set() =~= map@.dom());
    out
}

/// Removes keys from a map.
pub fn remove_all<V>(map: &mut HashMap<u128, V>, keys: &Vec<u128>)
    ensures
        final(map)@ == old(map)@.remove_keys(keys@.to_set()),
{
    let ghost before = map@;
    let n = keys.len();
    let mut i: usize = 0;
    assert(map@ =~= before.remove_keys(keys@.take(0).to_set()));
    while i < n
        invariant
            i <= n,
            n == keys@.len(),
            map@ == before.remove_keys(keys@.take(i as int).to_set()),
        decreases n - i,
    {
        let ghost gone = keys@.take(i as int);
        let ghost next = keys@.take(i + 1);
        assert(next == gone.push(keys@[i as int]));
        let key = keys[i];
        map.remove(&key);
        assert(next.to_set() =~= gone.to_set().insert(key)) by {
            assert forall|k: u128| next.to_set().contains(k) <==> gone.to_set().insert(
                key,
            ).contains(k) by {
                if gone.contains(k) {
                    let j = choose|j: int| 0 <= j < gone.len() && gone[j] == k;
                    assert(next[j] == k);
                }
                if k == key {
                    assert(next[i as int] == k);
                }
                if next.contains(k) {
                    let j = choose|j: int| 0 <= j < next.len() && next[j] == k;
                    if j < i {
                        assert(gone[j] == k);
                    }
                }
            }
        }
        assert(map@ =~= before.remove_keys(next.to_set()));
        i += 1;
    }
    assert(keys@.take(n as int) == keys@);
}

} // verus!
