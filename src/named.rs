//! Lists of values keyed by unique names, kept in insertion order.

use vstd::prelude::*;

verus! {

pub open spec fn has_key<T>(s: Seq<(String, T)>, k: Seq<char>) -> bool {
    exists|i: int| 0 <= i < s.len() && #[trigger] s[i].0@ == k
}

pub open spec fn unique_keys<T>(s: Seq<(String, T)>) -> bool {
    forall|i: int, j: int| 0 <= i < j < s.len() ==> #[trigger] s[i].0@ != #[trigger] s[j].0@
}

/// The position of key `k`, where it is present.
pub open spec fn key_index<T>(s: Seq<(String, T)>, k: Seq<char>) -> int {
    choose|i: int| 0 <= i < s.len() && #[trigger] s[i].0@ == k
}

/// The value under key `k`.
pub open spec fn lookup<T>(s: Seq<(String, T)>, k: Seq<char>) -> Option<T> {
    if has_key(s, k) {
        Some(s[key_index(s, k)].1)
    } else {
        None
    }
}

/// `s` with the value under `k` replaced in place, or appended when absent.
pub open spec fn upserted<T>(s: Seq<(String, T)>, k: String, v: T) -> Seq<(String, T)> {
    if has_key(s, k@) {
        s.update(key_index(s, k@), (k, v))
    } else {
        s.push((k, v))
    }
}

/// `s` without key `k`.
pub open spec fn without_key<T>(s: Seq<(String, T)>, k: Seq<char>) -> Seq<(String, T)> {
    if has_key(s, k) {
        s.remove(key_index(s, k))
    } else {
        s
    }
}

/// With unique keys, the entry that holds a key is the one `key_index` names.
pub proof fn lemma_key_index_unique<T>(s: Seq<(String, T)>, i: int)
    requires
        unique_keys(s),
        0 <= i < s.len(),
    ensures
        has_key(s, s[i].0@),
        key_index(s, s[i].0@) == i,
{
    let k = s[i].0@;
    assert(has_key(s, k));
    let j = key_index(s, k);
    if j != i {
        if j < i {
            assert(s[j].0@ != s[i].0@);
        } else {
            assert(s[i].0@ != s[j].0@);
        }
    }
}

/// Upserting keeps keys unique, stores `v` under `k`, and leaves every other
/// key's value alone.
pub proof fn lemma_upserted<T>(s: Seq<(String, T)>, k: String, v: T)
    requires
        unique_keys(s),
    ensures
        unique_keys(upserted(s, k, v)),
        lookup(upserted(s, k, v), k@) == Some(v),
        forall|o: Seq<char>| o != k@ ==> lookup(upserted(s, k, v), o) == lookup(s, o),
{
    let r = upserted(s, k, v);
    if has_key(s, k@) {
        let i = key_index(s, k@);
        assert forall|a: int, b: int| 0 <= a < b < r.len() implies #[trigger] r[a].0@ != #[trigger] r[b].0@ by {
            if a != i && b != i {
                assert(s[a].0@ != s[b].0@);
            }
        }
        lemma_key_index_unique(r, i);
        assert forall|o: Seq<char>| o != k@ implies lookup(r, o) == lookup(s, o) by {
            if has_key(s, o) {
                let j = key_index(s, o);
                assert(r[j].0@ == o);
                lemma_key_index_unique(r, j);
            }
            if has_key(r, o) {
                let j = key_index(r, o);
                assert(s[j].0@ == o);
            }
        }
    } else {
        let n = s.len() as int;
        assert forall|a: int, b: int| 0 <= a < b < r.len() implies #[trigger] r[a].0@ != #[trigger] r[b].0@ by {
            if b == n {
                assert(s[a].0@ != k@);
            } else {
                assert(s[a].0@ != s[b].0@);
            }
        }
        lemma_key_index_unique(r, n);
        assert forall|o: Seq<char>| o != k@ implies lookup(r, o) == lookup(s, o) by {
            if has_key(s, o) {
                let j = key_index(s, o);
                assert(r[j].0@ == o);
                lemma_key_index_unique(r, j);
            }
            if has_key(r, o) {
                let j = key_index(r, o);
                assert(j != n);
                assert(s[j].0@ == o);
            }
        }
    }
}

/// Removing a key keeps the others unique and their values unchanged.
pub proof fn lemma_without_key<T>(s: Seq<(String, T)>, k: Seq<char>)
    requires
        unique_keys(s),
    ensures
        unique_keys(without_key(s, k)),
        lookup(without_key(s, k), k) is None,
        forall|o: Seq<char>| o != k ==> lookup(without_key(s, k), o) == lookup(s, o),
{
    let r = without_key(s, k);
    if has_key(s, k) {
        let i = key_index(s, k);
        assert forall|a: int, b: int| 0 <= a < b < r.len() implies #[trigger] r[a].0@ != #[trigger] r[b].0@ by {
            let sa = if a < i { a } else { a + 1 };
            let sb = if b < i { b } else { b + 1 };
            assert(s[sa].0@ != s[sb].0@);
        }
        if has_key(r, k) {
            let j = key_index(r, k);
            let sj = if j < i { j } else { j + 1 };
            assert(s[sj].0@ == k);
            lemma_key_index_unique(s, sj);
        }
        assert forall|o: Seq<char>| o != k implies lookup(r, o) == lookup(s, o) by {
            if has_key(s, o) {
                let j = key_index(s, o);
                let rj = if j < i { j } else { j - 1 };
                assert(r[rj].0@ == o);
                lemma_key_index_unique(r, rj);
            }
            if has_key(r, o) {
                let j = key_index(r, o);
                let sj = if j < i { j } else { j + 1 };
                assert(s[sj].0@ == o);
                lemma_key_index_unique(s, sj);
            }
        }
    }
}

/// The position of key `k`.
pub fn position<T>(s: &Vec<(String, T)>, k: &String) -> (r: Option<usize>)
    requires
        unique_keys(s@),
    ensures
        r is None <==> !has_key(s@, k@),
        r matches Some(i) ==> i < s@.len() && i == key_index(s@, k@) && s@[i as int].0@ == k@,
{
    let mut i: usize = 0;
    while i < s.len()
        invariant
            0 <= i <= s@.len(),
            unique_keys(s@),
            forall|j: int| 0 <= j < i ==> #[trigger] s@[j].0@ != k@,
        decreases s@.len() - i,
    {
        if s[i].0 == *k {
            proof {
                lemma_key_index_unique(s@, i as int);
            }
            return Some(i);
        }
        i = i + 1;
    }
    None
}

/// Stores `v` under `k`, in place of a value already there.
pub fn upsert<T>(s: &mut Vec<(String, T)>, k: String, v: T)
    requires
        unique_keys(old(s)@),
    ensures
        final(s)@ == upserted(old(s)@, k, v),
        unique_keys(final(s)@),
{
    proof {
        lemma_upserted(s@, k, v);
    }
    match position(s, &k) {
        Some(i) => {
            s.set(i, (k, v));
        },
        None => {
            s.push((k, v));
        },
    }
}

/// Takes out the value under `k`, if any.
pub fn take_key<T>(s: &mut Vec<(String, T)>, k: &String) -> (r: Option<T>)
    requires
        unique_keys(old(s)@),
    ensures
        final(s)@ == without_key(old(s)@, k@),
        r == lookup(old(s)@, k@),
        r is None ==> *final(s) == *old(s),
        unique_keys(final(s)@),
{
    proof {
        lemma_without_key(s@, k@);
    }
    match position(s, k) {
        Some(i) => {
            let (_, v) = s.remove(i);
            Some(v)
        },
        None => None,
    }
}

} // verus!
