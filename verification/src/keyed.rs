//! Sequences of records keyed by an identifier: lookup, uniqueness, and how
//! pushing or replacing a record changes them.
use vstd::prelude::*;

verus! {

/// No two records share a key.
pub open spec fn keys_unique<T, K>(s: Seq<T>, key: spec_fn(T) -> K) -> bool {
    forall|i: int, j: int| 0 <= i < s.len() && 0 <= j < s.len() && i != j ==> key(#[trigger] s[i]) != key(#[trigger] s[j])
}

/// Some record has key `k`.
pub open spec fn has_key<T, K>(s: Seq<T>, key: spec_fn(T) -> K, k: K) -> bool {
    exists|i: int| 0 <= i < s.len() && key(#[trigger] s[i]) == k
}

/// The position of the record with key `k`.
pub open spec fn key_index<T, K>(s: Seq<T>, key: spec_fn(T) -> K, k: K) -> int {
    choose|i: int| 0 <= i < s.len() && key(#[trigger] s[i]) == k
}

/// The record with key `k`, if any.
pub open spec fn find_key<T, K>(s: Seq<T>, key: spec_fn(T) -> K, k: K) -> Option<T> {
    if has_key(s, key, k) {
        Some(s[key_index(s, key, k)])
    } else {
        None
    }
}

pub proof fn lemma_find_at<T, K>(s: Seq<T>, key: spec_fn(T) -> K, i: int)
    requires
        keys_unique(s, key),
        0 <= i < s.len(),
    ensures
        has_key(s, key, key(s[i])),
        key_index(s, key, key(s[i])) == i,
        find_key(s, key, key(s[i])) == Some(s[i]),
{
    assert(has_key(s, key, key(s[i])));
    let j = key_index(s, key, key(s[i]));
    assert(key(s[j]) == key(s[i]));
}

pub proof fn lemma_find_some<T, K>(s: Seq<T>, key: spec_fn(T) -> K, k: K)
    requires
        has_key(s, key, k),
    ensures
        0 <= key_index(s, key, k) < s.len(),
        key(s[key_index(s, key, k)]) == k,
        find_key(s, key, k) == Some(s[key_index(s, key, k)]),
{
}

pub proof fn lemma_push<T, K>(s: Seq<T>, key: spec_fn(T) -> K, x: T)
    requires
        keys_unique(s, key),
        !has_key(s, key, key(x)),
    ensures
        keys_unique(s.push(x), key),
        forall|k: K| #[trigger] has_key(s.push(x), key, k) == (has_key(s, key, k) || k == key(x)),
        forall|k: K| #[trigger] find_key(s.push(x), key, k) == (if k == key(x) { Some(x) } else { find_key(s, key, k) }),
{
    let t = s.push(x);
    assert forall|i: int, j: int| 0 <= i < t.len() && 0 <= j < t.len() && i != j implies key(#[trigger] t[i]) != key(#[trigger] t[j]) by {
        if i < s.len() && j < s.len() {
            assert(t[i] == s[i] && t[j] == s[j]);
        } else if i < s.len() {
            assert(t[i] == s[i]);
        } else {
            assert(t[j] == s[j]);
        }
    }
    assert forall|k: K| #[trigger] has_key(t, key, k) == (has_key(s, key, k) || k == key(x)) by {
        if has_key(s, key, k) {
            let i = key_index(s, key, k);
            assert(t[i] == s[i]);
        }
        if k == key(x) {
            assert(t[s.len() as int] == x);
        }
        if has_key(t, key, k) {
            let i = key_index(t, key, k);
            if i < s.len() {
                assert(t[i] == s[i]);
            }
        }
    }
    assert forall|k: K| #[trigger] find_key(t, key, k) == (if k == key(x) { Some(x) } else { find_key(s, key, k) }) by {
        if k == key(x) {
            lemma_find_at(t, key, s.len() as int);
        } else if has_key(s, key, k) {
            let i = key_index(s, key, k);
            assert(t[i] == s[i]);
            lemma_find_at(t, key, i);
        }
    }
}

pub proof fn lemma_update<T, K>(s: Seq<T>, key: spec_fn(T) -> K, i: int, x: T)
    requires
        keys_unique(s, key),
        0 <= i < s.len(),
        key(x) == key(s[i]),
    ensures
        keys_unique(s.update(i, x), key),
        forall|k: K| #[trigger] has_key(s.update(i, x), key, k) == has_key(s, key, k),
        forall|k: K| #[trigger] find_key(s.update(i, x), key, k) == (if k == key(x) { Some(x) } else { find_key(s, key, k) }),
{
    let t = s.update(i, x);
    assert forall|a: int, b: int| 0 <= a < t.len() && 0 <= b < t.len() && a != b implies key(#[trigger] t[a]) != key(#[trigger] t[b]) by {
        assert(key(t[a]) == key(s[a]));
        assert(key(t[b]) == key(s[b]));
    }
    assert forall|k: K| #[trigger] has_key(t, key, k) == has_key(s, key, k) by {
        if has_key(s, key, k) {
            let j = key_index(s, key, k);
            assert(key(t[j]) == key(s[j]));
        }
        if has_key(t, key, k) {
            let j = key_index(t, key, k);
            assert(key(t[j]) == key(s[j]));
        }
    }
    assert forall|k: K| #[trigger] find_key(t, key, k) == (if k == key(x) { Some(x) } else { find_key(s, key, k) }) by {
        if k == key(x) {
            lemma_find_at(t, key, i);
        } else if has_key(s, key, k) {
            let j = key_index(s, key, k);
            assert(j != i);
            assert(t[j] == s[j]);
            lemma_find_at(t, key, j);
        }
    }
}

/// A record whose key an earlier record already has breaks uniqueness.
pub proof fn lemma_prefix_collision<T, K>(s: Seq<T>, key: spec_fn(T) -> K, i: int)
    requires
        0 <= i < s.len(),
        has_key(s.take(i), key, key(s[i])),
    ensures
        !keys_unique(s, key),
{
    lemma_find_some(s.take(i), key, key(s[i]));
    let k = key_index(s.take(i), key, key(s[i]));
    assert(s.take(i)[k] == s[k]);
    assert(key(s[k]) == key(s[i]) && k != i);
}

} // verus!
