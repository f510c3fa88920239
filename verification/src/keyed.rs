//! A list of records, each named by a key that no other record shares, read
//! as the map from each key to its record.
use vstd::prelude::*;

verus! {

/// Whether no two records of the list share a key.
pub open spec fn keys_unique<T>(s: Seq<T>, key: spec_fn(T) -> Seq<char>) -> bool {
    forall|i: int, j: int|
        0 <= i < s.len() && 0 <= j < s.len() && i != j ==> #[trigger] key(s[i]) != #[trigger] key(
            s[j],
        )
}

/// Whether some record of the list has the key.
pub open spec fn has_key<T>(s: Seq<T>, key: spec_fn(T) -> Seq<char>, k: Seq<char>) -> bool {
    exists|i: int| 0 <= i < s.len() && #[trigger] key(s[i]) == k
}

/// The position of the record with the key.
pub open spec fn key_position<T>(s: Seq<T>, key: spec_fn(T) -> Seq<char>, k: Seq<char>) -> int {
    choose|i: int| 0 <= i < s.len() && #[trigger] key(s[i]) == k
}

/// The map from each key of the list to the value of its record.
pub open spec fn keyed_map<T, V>(
    s: Seq<T>,
    key: spec_fn(T) -> Seq<char>,
    val: spec_fn(T) -> V,
) -> Map<Seq<char>, V> {
    Map::new(|k: Seq<char>| has_key(s, key, k), |k: Seq<char>| val(s[key_position(s, key, k)]))
}

/// The record at a position is what the map holds under its key.
pub proof fn lemma_keyed_index<T, V>(
    s: Seq<T>,
    key: spec_fn(T) -> Seq<char>,
    val: spec_fn(T) -> V,
    i: int,
)
    requires
        keys_unique(s, key),
        0 <= i < s.len(),
    ensures
        keyed_map(s, key, val).contains_key(key(s[i])),
        keyed_map(s, key, val)[key(s[i])] == val(s[i]),
{
    let k = key(s[i]);
    assert(has_key(s, key, k));
    let j = key_position(s, key, k);
    assert(key(s[j]) == k);
}

/// A key that no record has is not in the map.
pub proof fn lemma_keyed_absent<T, V>(
    s: Seq<T>,
    key: spec_fn(T) -> Seq<char>,
    val: spec_fn(T) -> V,
    k: Seq<char>,
)
    requires
        forall|i: int| 0 <= i < s.len() ==> key(#[trigger] s[i]) != k,
    ensures
        !keyed_map(s, key, val).contains_key(k),
{
}

/// Replacing a record by one with the same key writes that key in the map.
pub proof fn lemma_keyed_update<T, V>(
    s: Seq<T>,
    key: spec_fn(T) -> Seq<char>,
    val: spec_fn(T) -> V,
    i: int,
    t: T,
)
    requires
        keys_unique(s, key),
        0 <= i < s.len(),
        key(t) == key(s[i]),
    ensures
        keys_unique(s.update(i, t), key),
        keyed_map(s.update(i, t), key, val) == keyed_map(s, key, val).insert(key(t), val(t)),
{
    let s2 = s.update(i, t);
    assert forall|a: int, b: int| 0 <= a < s2.len() && 0 <= b < s2.len() && a != b implies #[trigger] key(
        s2[a],
    ) != #[trigger] key(s2[b]) by {
        assert(key(s2[a]) == key(s[a]));
        assert(key(s2[b]) == key(s[b]));
    }
    let m1 = keyed_map(s2, key, val);
    let m2 = keyed_map(s, key, val).insert(key(t), val(t));
    assert forall|k: Seq<char>| #[trigger] m1.contains_key(k) == m2.contains_key(k) by {
        if has_key(s2, key, k) {
            let j = choose|j: int| 0 <= j < s2.len() && #[trigger] key(s2[j]) == k;
            assert(key(s[j]) == k);
        }
        if has_key(s, key, k) {
            let j = choose|j: int| 0 <= j < s.len() && #[trigger] key(s[j]) == k;
            assert(key(s2[j]) == k);
        }
        if k == key(t) {
            assert(key(s2[i]) == k);
        }
    }
    assert forall|k: Seq<char>| m1.contains_key(k) implies #[trigger] m1[k] == m2[k] by {
        let j = key_position(s2, key, k);
        assert(key(s2[j]) == k);
        if k == key(t) {
            assert(key(s2[i]) == k);
            assert(j == i);
        } else {
            assert(j != i);
            assert(key(s[j]) == k);
            let j2 = key_position(s, key, k);
            assert(key(s[j2]) == k);
            assert(j2 == j);
        }
    }
    assert(m1 =~= m2);
}

/// Appending a record with a new key adds that key to the map.
pub proof fn lemma_keyed_push<T, V>(
    s: Seq<T>,
    key: spec_fn(T) -> Seq<char>,
    val: spec_fn(T) -> V,
    t: T,
)
    requires
        keys_unique(s, key),
        forall|i: int| 0 <= i < s.len() ==> key(#[trigger] s[i]) != key(t),
    ensures
        keys_unique(s.push(t), key),
        keyed_map(s.push(t), key, val) == keyed_map(s, key, val).insert(key(t), val(t)),
{
    let s2 = s.push(t);
    let n = s.len() as int;
    assert forall|a: int, b: int| 0 <= a < s2.len() && 0 <= b < s2.len() && a != b implies #[trigger] key(
        s2[a],
    ) != #[trigger] key(s2[b]) by {
        if a < n {
            assert(s2[a] == s[a]);
        }
        if b < n {
            assert(s2[b] == s[b]);
        }
    }
    let m1 = keyed_map(s2, key, val);
    let m2 = keyed_map(s, key, val).insert(key(t), val(t));
    assert forall|k: Seq<char>| #[trigger] m1.contains_key(k) == m2.contains_key(k) by {
        if has_key(s2, key, k) {
            let j = choose|j: int| 0 <= j < s2.len() && #[trigger] key(s2[j]) == k;
            if j < n {
                assert(s2[j] == s[j]);
                assert(key(s[j]) == k);
            }
        }
        if has_key(s, key, k) {
            let j = choose|j: int| 0 <= j < s.len() && #[trigger] key(s[j]) == k;
            assert(s2[j] == s[j]);
            assert(key(s2[j]) == k);
        }
        if k == key(t) {
            assert(s2[n] == t);
            assert(key(s2[n]) == k);
        }
    }
    assert forall|k: Seq<char>| m1.contains_key(k) implies #[trigger] m1[k] == m2[k] by {
        let j = key_position(s2, key, k);
        assert(key(s2[j]) == k);
        if k == key(t) {
            assert(s2[n] == t);
            assert(key(s2[n]) == k);
            assert(j == n);
        } else {
            assert(j != n);
            assert(s2[j] == s[j]);
            assert(key(s[j]) == k);
            let j2 = key_position(s, key, k);
            assert(key(s[j2]) == k);
            assert(j2 == j);
        }
    }
    assert(m1 =~= m2);
}

} // verus!
