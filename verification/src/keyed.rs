//! Values kept under text keys in a vector of pairs, read as a map from key
//! text to value.

use vstd::prelude::*;

verus! {

/// Some entry has the key text `k`.
pub open spec fn has_key<V>(entries: Seq<(String, V)>, k: Seq<char>) -> bool {
    exists|i: int| 0 <= i < entries.len() && entries[i].0@ == k
}

/// No key occurs twice.
pub open spec fn distinct_keys<V>(entries: Seq<(String, V)>) -> bool {
    forall|i: int, j: int|
        0 <= i < entries.len() && 0 <= j < entries.len() && i != j ==> entries[i].0@ != entries[j].0@
}

/// The map from key text to value that `entries` stands for.
pub open spec fn keyed<V>(entries: Seq<(String, V)>) -> Map<Seq<char>, V> {
    Map::new(
        |k: Seq<char>| has_key(entries, k),
        |k: Seq<char>| entries[choose|i: int| 0 <= i < entries.len() && entries[i].0@ == k].1,
    )
}

/// An entry of a list without repeated keys is what the map holds at its key.
pub proof fn lemma_keyed_at<V>(entries: Seq<(String, V)>, i: int)
    requires
        distinct_keys(entries),
        0 <= i < entries.len(),
    ensures
        keyed(entries).dom().contains(entries[i].0@),
        keyed(entries)[entries[i].0@] == entries[i].1,
{
    let k = entries[i].0@;
    assert(has_key(entries, k));
    let j = choose|j: int| 0 <= j < entries.len() && entries[j].0@ == k;
    assert(j == i);
}

/// Replacing the value of an entry replaces it in the map.
pub proof fn lemma_keyed_update<V>(entries: Seq<(String, V)>, i: int, key: String, v: V)
    requires
        distinct_keys(entries),
        0 <= i < entries.len(),
        key@ == entries[i].0@,
    ensures
        distinct_keys(entries.update(i, (key, v))),
        keyed(entries.update(i, (key, v))) == keyed(entries).insert(key@, v),
{
    let q = entries.update(i, (key, v));
    assert forall|x: Seq<char>| has_key(q, x) <==> has_key(entries, x) by {
        if has_key(q, x) {
            let k = choose|k: int| 0 <= k < q.len() && q[k].0@ == x;
            assert(entries[k].0@ == x);
        }
        if has_key(entries, x) {
            let k = choose|k: int| 0 <= k < entries.len() && entries[k].0@ == x;
            assert(q[k].0@ == x);
        }
    }
    assert forall|x: Seq<char>| #[trigger] keyed(q).dom().contains(x) implies keyed(q)[x]
        == keyed(entries).insert(key@, v)[x] by {
        let k = choose|k: int| 0 <= k < q.len() && q[k].0@ == x;
        lemma_keyed_at(q, k);
        lemma_keyed_at(entries, k);
    }
    assert(keyed(q) =~= keyed(entries).insert(key@, v));
}

/// Adding an entry under a new key adds it to the map.
pub proof fn lemma_keyed_push<V>(entries: Seq<(String, V)>, key: String, v: V)
    requires
        distinct_keys(entries),
        !has_key(entries, key@),
    ensures
        distinct_keys(entries.push((key, v))),
        keyed(entries.push((key, v))) == keyed(entries).insert(key@, v),
{
    let q = entries.push((key, v));
    assert forall|a: int, b: int| 0 <= a < q.len() && 0 <= b < q.len() && a != b implies q[a].0@
        != q[b].0@ by {
        if a < entries.len() && b < entries.len() {
            assert(q[a] == entries[a] && q[b] == entries[b]);
        } else if a < entries.len() {
            assert(q[a] == entries[a]);
            assert(!(entries[a].0@ == key@));
        } else {
            assert(q[b] == entries[b]);
            assert(!(entries[b].0@ == key@));
        }
    }
    assert forall|x: Seq<char>| has_key(q, x) <==> (has_key(entries, x) || x == key@) by {
        if has_key(entries, x) {
            let k = choose|k: int| 0 <= k < entries.len() && entries[k].0@ == x;
            assert(q[k] == entries[k]);
        }
        if x == key@ {
            assert(q[entries.len() as int].0@ == x);
        }
        if has_key(q, x) && x != key@ {
            let k = choose|k: int| 0 <= k < q.len() && q[k].0@ == x;
            assert(k < entries.len());
            assert(q[k] == entries[k]);
        }
    }
    assert forall|x: Seq<char>| #[trigger] keyed(q).dom().contains(x) implies keyed(q)[x]
        == keyed(entries).insert(key@, v)[x] by {
        let k = choose|k: int| 0 <= k < q.len() && q[k].0@ == x;
        lemma_keyed_at(q, k);
        if k < entries.len() {
            assert(q[k] == entries[k]);
            lemma_keyed_at(entries, k);
        }
    }
    assert(keyed(q) =~= keyed(entries).insert(key@, v));
}

/// The position of the entry with key text `key`, if any.
pub fn key_position<V>(entries: &Vec<(String, V)>, key: &str) -> (r: Option<usize>)
    ensures
        match r {
            Some(i) => i < entries@.len() && entries@[i as int].0@ == key@,
            None => !has_key(entries@, key@),
        },
{
    let mut i: usize = 0;
    while i < entries.len()
        invariant
            i <= entries@.len(),
            forall|j: int| 0 <= j < i ==> entries@[j].0@ != key@,
        decreases entries.len() - i,
    {
        if crate::text::same_text(entries[i].0.as_str(), key) {
            return Some(i);
        }
        i = i + 1;
    }
    None
}

/// Stores `v` under `key`, replacing what was there.
pub fn put<V>(entries: &mut Vec<(String, V)>, key: String, v: V)
    requires
        distinct_keys(old(entries)@),
    ensures
        distinct_keys(final(entries)@),
        keyed(final(entries)@) == keyed(old(entries)@).insert(key@, v),
{
    match key_position(entries, key.as_str()) {
        Some(i) => {
            let ghost before = entries@;
            let ghost k = key;
            let _ = entries.remove(i);
            entries.insert(i, (key, v));
            proof {
                assert(entries@ =~= before.update(i as int, (k, v)));
                lemma_keyed_update(before, i as int, k, v);
            }
        },
        None => {
            let ghost before = entries@;
            let ghost k = key;
            entries.push((key, v));
            proof {
                lemma_keyed_push(before, k, v);
            }
        },
    }
}

} // verus!
