//! Records kept in insertion order and looked up like a map: the record that
//! answers for a key is the last one recorded under it, so a later record
//! replaces an earlier one.
use vstd::prelude::*;

verus! {

/// The position of the last element of `s` that satisfies `p`.
pub open spec fn last_match<T>(s: Seq<T>, p: spec_fn(T) -> bool) -> Option<int>
    decreases s.len(),
{
    if s.len() == 0 {
        None
    } else if p(s.last()) {
        Some(s.len() - 1)
    } else {
        last_match(s.drop_last(), p)
    }
}

pub proof fn lemma_last_match_at<T>(s: Seq<T>, p: spec_fn(T) -> bool, i: int)
    requires
        0 <= i < s.len(),
        p(s[i]),
        forall|j: int| i < j < s.len() ==> !p(#[trigger] s[j]),
    ensures
        last_match(s, p) == Some(i),
    decreases s.len(),
{
    if i < s.len() - 1 {
        assert(!p(s[s.len() - 1]));
        let d = s.drop_last();
        assert forall|j: int| i < j < d.len() implies !p(#[trigger] d[j]) by {
            assert(d[j] == s[j]);
        }
        lemma_last_match_at(d, p, i);
    }
}

pub proof fn lemma_last_match_none<T>(s: Seq<T>, p: spec_fn(T) -> bool)
    requires
        forall|j: int| 0 <= j < s.len() ==> !p(#[trigger] s[j]),
    ensures
        last_match(s, p) is None,
    decreases s.len(),
{
    if s.len() > 0 {
        let d = s.drop_last();
        assert(!p(s[s.len() - 1]));
        assert forall|j: int| 0 <= j < d.len() implies !p(#[trigger] d[j]) by {
            assert(d[j] == s[j]);
        }
        lemma_last_match_none(d, p);
    }
}

pub proof fn lemma_last_match_facts<T>(s: Seq<T>, p: spec_fn(T) -> bool)
    ensures
        match last_match(s, p) {
            Some(i) => 0 <= i < s.len() && p(s[i]) && forall|j: int| i < j < s.len() ==> !p(#[trigger] s[j]),
            None => forall|j: int| 0 <= j < s.len() ==> !p(#[trigger] s[j]),
        },
    decreases s.len(),
{
    if s.len() > 0 {
        let d = s.drop_last();
        lemma_last_match_facts(d, p);
        assert forall|j: int| 0 <= j < d.len() implies #[trigger] d[j] == s[j] by {}
        if !p(s.last()) {
            match last_match(d, p) {
                Some(i) => {
                    assert forall|j: int| i < j < s.len() implies !p(#[trigger] s[j]) by {
                        if j < d.len() {
                            assert(d[j] == s[j]);
                        }
                    }
                },
                None => {
                    assert forall|j: int| 0 <= j < s.len() implies !p(#[trigger] s[j]) by {
                        if j < d.len() {
                            assert(d[j] == s[j]);
                        }
                    }
                },
            }
        }
    }
}

pub proof fn lemma_last_match_push<T>(s: Seq<T>, x: T, p: spec_fn(T) -> bool)
    ensures
        last_match(s.push(x), p) == if p(x) { Some(s.len() as int) } else { last_match(s, p) },
{
    assert(s.push(x).drop_last() =~= s);
}

/// Replacing an element by one that answers `p` alike leaves the answer's
/// position unchanged.
pub proof fn lemma_last_match_update<T>(s: Seq<T>, i: int, x: T, p: spec_fn(T) -> bool)
    requires
        0 <= i < s.len(),
        p(x) == p(s[i]),
    ensures
        last_match(s.update(i, x), p) == last_match(s, p),
{
    let t = s.update(i, x);
    lemma_last_match_facts(s, p);
    match last_match(s, p) {
        Some(k) => {
            assert forall|j: int| k < j < t.len() implies !p(#[trigger] t[j]) by {
                assert(!p(s[j]));
            }
            lemma_last_match_at(t, p, k);
        },
        None => {
            assert forall|j: int| 0 <= j < t.len() implies !p(#[trigger] t[j]) by {
                assert(!p(s[j]));
            }
            lemma_last_match_none(t, p);
        },
    }
}

/// Position `i` holds the last record under its key, the one that answers
/// for it.
pub open spec fn is_current<T, K>(s: Seq<T>, key: spec_fn(T) -> K, i: int) -> bool {
    forall|j: int| i < j < s.len() ==> key(#[trigger] s[j]) != key(s[i])
}

/// How many of the first `n` positions answer for their key: the number of
/// distinct keys among them that no later record replaces.
pub open spec fn current_count<T, K>(s: Seq<T>, key: spec_fn(T) -> K, n: int) -> nat
    decreases n,
{
    if n <= 0 {
        0
    } else {
        current_count(s, key, n - 1) + if is_current(s, key, n - 1) { 1nat } else { 0nat }
    }
}

} // verus!
