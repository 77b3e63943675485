//! Small verified operations on lists of slot keys.

use vstd::prelude::*;

use crate::ids::RawKey;

verus! {

broadcast use vstd::seq_lib::group_seq_properties;

/// The predicate "differs from `key`".
pub open spec fn differs_from(key: RawKey) -> spec_fn(RawKey) -> bool {
    |x: RawKey| x != key
}

/// `keys` with `key` appended unless it already occurs.
pub open spec fn pushed_unique(keys: Seq<RawKey>, key: RawKey) -> Seq<RawKey> {
    if keys.contains(key) {
        keys
    } else {
        keys.push(key)
    }
}

/// After a unique push, `key` occurs.
pub proof fn lemma_pushed_unique_contains(keys: Seq<RawKey>, key: RawKey)
    ensures
        pushed_unique(keys, key).contains(key),
{
    if !keys.contains(key) {
        assert(keys.push(key)[keys.len() as int] == key);
    }
}

/// Filtering a sequence whose elements all satisfy `p` leaves it unchanged.
pub proof fn lemma_filter_keeps_all(s: Seq<RawKey>, p: spec_fn(RawKey) -> bool)
    requires
        forall|i: int| 0 <= i < s.len() ==> #[trigger] p(s[i]),
    ensures
        s.filter(p) == s,
    decreases s.len(),
{
    reveal(Seq::filter);
    if s.len() > 0 {
        lemma_filter_keeps_all(s.drop_last(), p);
        assert(s.drop_last().push(s.last()) =~= s);
    }
}

/// Filtering by `p` and then by `q` is filtering by both at once.
pub proof fn lemma_filter_filter(s: Seq<RawKey>, p: spec_fn(RawKey) -> bool, q: spec_fn(RawKey) -> bool)
    ensures
        s.filter(p).filter(q) == s.filter(|x: RawKey| p(x) && q(x)),
    decreases s.len(),
{
    let pq = |x: RawKey| p(x) && q(x);
    reveal(Seq::filter);
    if s.len() == 0 {
        assert(s.filter(p).filter(q) =~= s.filter(pq));
    } else {
        let t = s.drop_last();
        lemma_filter_filter(t, p, q);
        assert(t.push(s.last()) =~= s);
        t.lemma_filter_push(s.last(), p);
        t.filter(p).lemma_filter_push(s.last(), q);
        t.lemma_filter_push(s.last(), pq);
    }
}

/// Removing `key` twice is removing it once.
pub proof fn lemma_without_key_idempotent(s: Seq<RawKey>, key: RawKey)
    ensures
        s.filter(differs_from(key)).filter(differs_from(key)) == s.filter(differs_from(key)),
{
    let f = s.filter(differs_from(key));
    assert forall|i: int| 0 <= i < f.len() implies #[trigger] differs_from(key)(f[i]) by {
        s.lemma_filter_pred(differs_from(key), i);
    }
    lemma_filter_keeps_all(f, differs_from(key));
}

/// Whether `key` occurs in `keys`.
pub fn contains_key(keys: &Vec<RawKey>, key: RawKey) -> (r: bool)
    ensures
        r == keys@.contains(key),
{
    let mut i: usize = 0;
    while i < keys.len()
        invariant
            i <= keys.len(),
            forall|j: int| 0 <= j < i ==> keys@[j] != key,
        decreases keys.len() - i,
    {
        if keys[i] == key {
            return true;
        }
        i = i + 1;
    }
    false
}

/// `keys` without any occurrence of `key`, order preserved.
pub fn without_key(keys: &Vec<RawKey>, key: RawKey) -> (r: Vec<RawKey>)
    ensures
        r@ == keys@.filter(differs_from(key)),
{
    let mut out: Vec<RawKey> = Vec::new();
    let mut i: usize = 0;
    while i < keys.len()
        invariant
            i <= keys.len(),
            out@ == keys@.subrange(0, i as int).filter(differs_from(key)),
        decreases keys.len() - i,
    {
        let k = keys[i];
        proof {
            assert(keys@.subrange(0, i + 1) == keys@.subrange(0, i as int).push(k));
            keys@.subrange(0, i as int).lemma_filter_push(k, differs_from(key));
        }
        if k != key {
            out.push(k);
        }
        i = i + 1;
    }
    assert(keys@.subrange(0, keys@.len() as int) == keys@);
    out
}

/// Remove every occurrence of `key` from `keys` in place, order preserved.
pub fn remove_key(keys: &mut Vec<RawKey>, key: RawKey)
    ensures
        final(keys)@ == old(keys)@.filter(differs_from(key)),
{
    let filtered = without_key(keys, key);
    *keys = filtered;
}

/// Append `key` unless it already occurs.
pub fn push_unique(keys: &mut Vec<RawKey>, key: RawKey)
    ensures
        final(keys)@ == pushed_unique(old(keys)@, key),
{
    if !contains_key(keys, key) {
        keys.push(key);
    }
}

/// A copy of `keys`.
pub fn copy_keys(keys: &Vec<RawKey>) -> (r: Vec<RawKey>)
    ensures
        r@ == keys@,
{
    let mut out: Vec<RawKey> = Vec::new();
    let mut i: usize = 0;
    while i < keys.len()
        invariant
            i <= keys.len(),
            out@ == keys@.subrange(0, i as int),
        decreases keys.len() - i,
    {
        out.push(keys[i]);
        i = i + 1;
    }
    assert(keys@.subrange(0, keys@.len() as int) == keys@);
    out
}

} // verus!
