use vstd::prelude::*;

verus! {

/// The position of the first key at or after `from` that equals `key`, or -1
/// when there is none.
pub open spec fn key_index(keys: Seq<Seq<char>>, key: Seq<char>, from: int) -> int
    decreases keys.len() - from,
{
    if from < 0 || from >= keys.len() {
        -1
    } else if keys[from] == key {
        from
    } else {
        key_index(keys, key, from + 1)
    }
}

/// The keys of a sequence of key/value entries, in order.
pub open spec fn keys_of<V>(entries: Seq<(Seq<char>, V)>) -> Seq<Seq<char>> {
    entries.map_values(|e: (Seq<char>, V)| e.0)
}

/// The keys of a vector of entries keyed by strings, in order.
pub open spec fn string_keys<V>(entries: Seq<(String, V)>) -> Seq<Seq<char>> {
    entries.map_values(|e: (String, V)| e.0@)
}

/// The value of the first entry whose key is `key`.
pub open spec fn first_value<V>(entries: Seq<(Seq<char>, V)>, key: Seq<char>) -> Option<V> {
    let i = key_index(keys_of(entries), key, 0);
    if i >= 0 {
        Some(entries[i].1)
    } else {
        None
    }
}

pub(crate) proof fn lemma_key_index_bounds(keys: Seq<Seq<char>>, key: Seq<char>, from: int)
    ensures
        key_index(keys, key, from) == -1 || (from <= key_index(keys, key, from) < keys.len()
            && keys[key_index(keys, key, from)] == key),
    decreases keys.len() - from,
{
    if 0 <= from < keys.len() && keys[from] != key {
        lemma_key_index_bounds(keys, key, from + 1);
    }
}

/// Keys among which `key` does not occur have no position for it.
pub proof fn lemma_key_index_absent(keys: Seq<Seq<char>>, key: Seq<char>, from: int)
    requires
        forall|i: int| 0 <= i < keys.len() ==> keys[i] != key,
    ensures
        key_index(keys, key, from) == -1,
    decreases keys.len() - from,
{
    if 0 <= from < keys.len() {
        lemma_key_index_absent(keys, key, from + 1);
    }
}

/// Where `key` has no position from `from` on, no key from there on is `key`.
pub(crate) proof fn lemma_key_index_none(keys: Seq<Seq<char>>, key: Seq<char>, from: int)
    requires
        0 <= from,
        key_index(keys, key, from) == -1,
    ensures
        forall|i: int| from <= i < keys.len() ==> keys[i] != key,
    decreases keys.len() - from,
{
    if from < keys.len() {
        lemma_key_index_none(keys, key, from + 1);
    }
}

/// No key occurs twice.
pub open spec fn unique_keys(keys: Seq<Seq<char>>) -> bool {
    forall|i: int, j: int| 0 <= i < j < keys.len() ==> keys[i] != keys[j]
}

/// Appending `key` to keys that lack it from `from` on puts its first
/// position there at the end.
pub(crate) proof fn lemma_key_index_push(keys: Seq<Seq<char>>, key: Seq<char>, from: int)
    requires
        0 <= from <= keys.len(),
        key_index(keys, key, from) == -1,
    ensures
        key_index(keys.push(key), key, from) == keys.len(),
    decreases keys.len() - from,
{
    if from < keys.len() {
        lemma_key_index_push(keys, key, from + 1);
    }
}

/// The first position of an entry whose key is `key`.
pub fn find_key<V>(entries: &Vec<(String, V)>, key: &String) -> (r: Option<usize>)
    ensures
        match r {
            Some(i) => i < entries@.len() && i as int == key_index(string_keys(entries@), key@, 0),
            None => key_index(string_keys(entries@), key@, 0) == -1,
        },
{
    let ghost keys = string_keys(entries@);
    let mut i: usize = 0;
    while i < entries.len()
        invariant
            i <= entries@.len(),
            keys == string_keys(entries@),
            key_index(keys, key@, 0) == key_index(keys, key@, i as int),
        decreases entries.len() - i,
    {
        assert(keys[i as int] == entries@[i as int].0@);
        if entries[i].0 == *key {
            return Some(i);
        }
        i += 1;
    }
    None
}

} // verus!
