//! Whole-table operations on registration tables keyed by slot code: copying a table and
//! rebuilding one from a snapshot with preserved or fresh nonces.

use std::collections::HashMap;

use vstd::prelude::*;
use vstd::std_specs::hash::spec_hash_map_iter;
use vstd::std_specs::iter::IteratorSpec;

use crate::error::{Error, Result};
use crate::ids::RegistrationNonce;
use crate::reserve::try_reserve_map;

verus! {

broadcast use vstd::std_specs::hash::group_hash_axioms;

/// A registration: a nonce plus whatever else the table records about a slot.
pub trait Registration: Sized {
    spec fn nonce_of(&self) -> RegistrationNonce;

    /// `self` and `other` record the same relations; their nonces may differ.
    spec fn matches(&self, other: &Self) -> bool;

    fn nonce(&self) -> (n: RegistrationNonce)
        ensures
            n == self.nonce_of(),
    ;

    /// A copy of `self` carrying `nonce`.
    fn renonced(&self, nonce: RegistrationNonce) -> (r: Self)
        ensures
            r.nonce_of() == nonce,
            self.matches(&r),
    ;
}

/// Whether `snapshot` entry `k` no longer names the exact registration in `current`.
pub open spec fn changed<T: Registration>(current: Map<u64, T>, snapshot: Map<u64, T>) -> spec_fn(u64) -> bool {
    |k: u64| !(current.contains_key(k) && current[k].nonce_of() == snapshot[k].nonce_of())
}

/// The number of snapshot entries whose registration is not current.
pub open spec fn changed_count<T: Registration>(current: Map<u64, T>, snapshot: Map<u64, T>) -> nat {
    snapshot.dom().filter(changed(current, snapshot)).len()
}

/// Keys of a duplicate-free sequence counted through a predicate are the keys of its set.
pub proof fn lemma_filter_count_as_set(keys: Seq<u64>, p: spec_fn(u64) -> bool)
    requires
        keys.no_duplicates(),
    ensures
        keys.filter(p).len() == keys.to_set().filter(p).len(),
        keys.to_set().filter(p).finite(),
    decreases keys.len(),
{
    reveal(Seq::filter);
    if keys.len() == 0 {
        assert(keys.to_set() =~= Set::empty());
        assert(keys.to_set().filter(p) =~= Set::empty());
    } else {
        let rest = keys.drop_last();
        let x = keys.last();
        assert(rest.no_duplicates()) by {
            assert forall|i: int, j: int| 0 <= i < rest.len() && 0 <= j < rest.len() && i != j implies rest[i] != rest[j] by {
                assert(rest[i] == keys[i] && rest[j] == keys[j]);
            }
        }
        lemma_filter_count_as_set(rest, p);
        assert(keys == rest.push(x));
        assert(keys.to_set() =~= rest.to_set().insert(x)) by {
            assert forall|y: u64| keys.to_set().contains(y) implies rest.to_set().insert(x).contains(y) by {
                let i = choose|i: int| 0 <= i < keys.len() && keys[i] == y;
                if i < keys.len() - 1 {
                    assert(rest[i] == y);
                }
            }
            assert forall|y: u64| rest.to_set().insert(x).contains(y) implies keys.to_set().contains(y) by {
                if y == x {
                    assert(keys[keys.len() - 1] == x);
                } else {
                    let i = choose|i: int| 0 <= i < rest.len() && rest[i] == y;
                    assert(keys[i] == y);
                }
            }
        }
        assert(!rest.to_set().contains(x)) by {
            if rest.to_set().contains(x) {
                let i = choose|i: int| 0 <= i < rest.len() && rest[i] == x;
                assert(keys[i] == keys[keys.len() - 1]);
            }
        }
        if p(x) {
            assert(keys.to_set().filter(p) =~= rest.to_set().filter(p).insert(x));
        } else {
            assert(keys.to_set().filter(p) =~= rest.to_set().filter(p));
        }
    }
}

/// A copy of every entry of `table`.
pub fn copy_table<T: Registration>(table: &HashMap<u64, T>) -> (r: Result<HashMap<u64, T>>)
    ensures
        r matches Ok(t) ==> t@.dom() == table@.dom() && forall|k: u64| #[trigger] t@.contains_key(k) ==> table@[k].matches(&t@[k])
            && t@[k].nonce_of() == table@[k].nonce_of(),
        r matches Err(e) ==> e == Error::IdentityTrackingAllocationFailed,
{
    let mut out: HashMap<u64, T> = HashMap::new();
    if !try_reserve_map(&mut out, table.len()) {
        return Err(Error::IdentityTrackingAllocationFailed);
    }
    let ghost all = spec_hash_map_iter(table).remaining();
    for (k, v) in it: table.iter()
        invariant
            it.seq() == all,
            all.len() == table@.dom().len(),
            forall|i: int| 0 <= i < all.len() ==> table@.contains_key(*#[trigger] all[i].0) && table@[*all[i].0] == *all[i].1,
            forall|q: u64| #[trigger] table@.contains_key(q) ==> all.contains((&q, &table@[q])),
            forall|q: u64| #[trigger] out@.contains_key(q) <==> exists|i: int| 0 <= i < it.index() && *#[trigger] all[i].0 == q,
            forall|q: u64| #[trigger] out@.contains_key(q) ==> table@.contains_key(q) && table@[q].matches(&out@[q])
                && out@[q].nonce_of() == table@[q].nonce_of(),
    {
        let copy = v.renonced(v.nonce());
        out.insert(*k, copy);
        proof {
            assert forall|q: u64| #[trigger] out@.contains_key(q) <==> exists|i: int| 0 <= i < it.index() + 1 && *#[trigger] all[i].0 == q by {
                if q == *k {
                    assert(*all[it.index()].0 == q);
                }
            }
        }
    }
    proof {
        assert forall|q: u64| table@.contains_key(q) implies out@.contains_key(q) by {
            let i = choose|i: int| 0 <= i < all.len() && all[i] == (&q, &table@[q]);
            assert(*all[i].0 == q);
        }
        assert(out@.dom() =~= table@.dom());
    }
    Ok(out)
}

/// The keys of a hash-map iteration sequence.
pub open spec fn iter_keys<T>(items: Seq<(&u64, &T)>) -> Seq<u64> {
    items.map_values(|p: (&u64, &T)| *p.0)
}

pub proof fn lemma_iter_keys<T>(table: Map<u64, T>, all: Seq<(&u64, &T)>)
    requires
        all.no_duplicates(),
        forall|i: int| 0 <= i < all.len() ==> table.contains_key(*#[trigger] all[i].0) && table[*all[i].0] == *all[i].1,
        forall|q: u64| #[trigger] table.contains_key(q) ==> all.contains((&q, &table[q])),
    ensures
        iter_keys(all).no_duplicates(),
        iter_keys(all).to_set() == table.dom(),
        iter_keys(all).len() == all.len(),
{
    let keys = iter_keys(all);
    assert forall|i: int, j: int| 0 <= i < keys.len() && 0 <= j < keys.len() && i != j implies keys[i] != keys[j] by {
        if keys[i] == keys[j] {
            assert(*all[i].0 == *all[j].0);
            assert(all[i] == all[j]);
        }
    }
    assert forall|q: u64| keys.to_set().contains(q) <==> table.dom().contains(q) by {
        if table.contains_key(q) {
            let i = choose|i: int| 0 <= i < all.len() && all[i] == (&q, &table[q]);
            assert(keys[i] == q);
        }
        if keys.to_set().contains(q) {
            let i = choose|i: int| 0 <= i < keys.len() && keys[i] == q;
            assert(*all[i].0 == q);
        }
    }
    assert(keys.to_set() =~= table.dom());
}

/// The number of entries of `snapshot` whose registration is no longer the current one.
pub fn count_changed<T: Registration>(current: &HashMap<u64, T>, snapshot: &HashMap<u64, T>) -> (n: usize)
    ensures
        n == changed_count(current@, snapshot@),
{
    let total = snapshot.len();
    let iter = snapshot.iter();
    let ghost all = iter.remaining();
    let ghost p = changed(current@, snapshot@);
    let mut count: usize = 0;
    for (k, v) in it: iter
        invariant
            it.seq() == all,
            all == spec_hash_map_iter(snapshot).remaining(),
            all.no_duplicates(),
            p == changed(current@, snapshot@),
            all.len() == snapshot@.dom().len(),
            all.len() == total,
            forall|i: int| 0 <= i < all.len() ==> snapshot@.contains_key(*#[trigger] all[i].0) && snapshot@[*all[i].0] == *all[i].1,
            count == iter_keys(all).take(it.index()).filter(p).len(),
            count <= it.index(),
    {
        proof {
            assert(iter_keys(all).take(it.index() + 1) =~= iter_keys(all).take(it.index()).push(*k));
            iter_keys(all).take(it.index()).lemma_filter_push(*k, p);
            assert(all[it.index()] == (k, v));
        }
        let same = match current.get(k) {
            Some(cur) => cur.nonce() == v.nonce(),
            None => false,
        };
        if !same {
            count = count + 1;
        }
    }
    proof {
        lemma_iter_keys(snapshot@, all);
        assert(iter_keys(all).take(all.len() as int) =~= iter_keys(all));
        lemma_filter_count_as_set(iter_keys(all), p);
    }
    count
}

/// Rebuild `snapshot` for a restore: an entry naming the exact current registration keeps its
/// nonce; every other entry takes the next nonce of `fresh`, starting at `start`.
pub fn restore_table<T: Registration>(
    current: &HashMap<u64, T>,
    snapshot: &HashMap<u64, T>,
    fresh: &Vec<RegistrationNonce>,
    start: usize,
) -> (r: Result<(HashMap<u64, T>, usize)>)
    requires
        start + changed_count(current@, snapshot@) <= fresh@.len(),
        forall|i: int, j: int| 0 <= i < j < fresh@.len() ==> #[trigger] fresh@[i].value_spec() != #[trigger] fresh@[j].value_spec(),
    ensures
        r matches Ok((t, end)) ==> {
            &&& end == start + changed_count(current@, snapshot@)
            &&& t@.dom() == snapshot@.dom()
            &&& forall|k: u64| #[trigger] t@.contains_key(k) ==> snapshot@[k].matches(&t@[k])
            &&& forall|k: u64| #[trigger] t@.contains_key(k) && !changed(current@, snapshot@)(k)
                ==> t@[k].nonce_of() == snapshot@[k].nonce_of()
            &&& forall|k: u64| #[trigger] t@.contains_key(k) && changed(current@, snapshot@)(k)
                ==> exists|i: int| start <= i < end && t@[k].nonce_of() == #[trigger] fresh@[i]
            &&& forall|k1: u64, k2: u64| #[trigger] t@.contains_key(k1) && #[trigger] t@.contains_key(k2) && k1 != k2
                && changed(current@, snapshot@)(k1) && changed(current@, snapshot@)(k2)
                ==> t@[k1].nonce_of().value_spec() != t@[k2].nonce_of().value_spec()
        },
        r matches Err(e) ==> e == Error::IdentityTrackingAllocationFailed,
{
    let mut out: HashMap<u64, T> = HashMap::new();
    if !try_reserve_map(&mut out, snapshot.len()) {
        return Err(Error::IdentityTrackingAllocationFailed);
    }
    let total = snapshot.len();
    let iter = snapshot.iter();
    let ghost all = iter.remaining();
    let ghost p = changed(current@, snapshot@);
    let ghost mut slot: Map<u64, int> = Map::empty();
    proof {
        lemma_iter_keys(snapshot@, all);
        lemma_filter_count_as_set(iter_keys(all), p);
        assert(iter_keys(all).take(all.len() as int) =~= iter_keys(all));
    }
    let flen = fresh.len();
    let mut next: usize = start;
    for (k, v) in it: iter
        invariant
            fresh@.len() == flen,
            it.seq() == all,
            all == spec_hash_map_iter(snapshot).remaining(),
            all.no_duplicates(),
            iter_keys(all).no_duplicates(),
            iter_keys(all).len() == all.len(),
            p == changed(current@, snapshot@),
            all.len() == total,
            start + iter_keys(all).filter(p).len() <= fresh@.len(),
            forall|i: int, j: int| 0 <= i < j < fresh@.len() ==> #[trigger] fresh@[i].value_spec() != #[trigger] fresh@[j].value_spec(),
            forall|i: int| 0 <= i < all.len() ==> snapshot@.contains_key(*#[trigger] all[i].0) && snapshot@[*all[i].0] == *all[i].1,
            next == start + iter_keys(all).take(it.index()).filter(p).len(),
            forall|q: u64| #[trigger] out@.contains_key(q) <==> iter_keys(all).take(it.index()).contains(q),
            forall|q: u64| #[trigger] out@.contains_key(q) ==> snapshot@.contains_key(q) && snapshot@[q].matches(&out@[q]),
            forall|q: u64| #[trigger] out@.contains_key(q) && !p(q) ==> out@[q].nonce_of() == snapshot@[q].nonce_of(),
            forall|q: u64| #[trigger] out@.contains_key(q) && p(q) ==> slot.contains_key(q) && start <= slot[q] < next
                && out@[q].nonce_of() == fresh@[slot[q]],
            forall|q1: u64, q2: u64| #[trigger] out@.contains_key(q1) && #[trigger] out@.contains_key(q2) && q1 != q2 && p(q1) && p(q2)
                ==> slot[q1] != slot[q2],
    {
        let ghost idx = it.index();
        proof {
            assert(iter_keys(all).take(idx + 1) =~= iter_keys(all).take(idx).push(*k));
            iter_keys(all).take(idx).lemma_filter_push(*k, p);
            assert(all[idx] == (k, v));
            assert(iter_keys(all)[idx] == *k);
            assert(!iter_keys(all).take(idx).contains(*k)) by {
                if iter_keys(all).take(idx).contains(*k) {
                    let j = choose|j: int| 0 <= j < idx && #[trigger] iter_keys(all).take(idx)[j] == *k;
                    assert(iter_keys(all)[j] == iter_keys(all)[idx]);
                }
            }
            iter_keys(all).take(idx + 1).lemma_filter_len(p);
            lemma_filter_prefix_len(iter_keys(all), p, idx + 1);
        }
        let same = match current.get(k) {
            Some(cur) => cur.nonce() == v.nonce(),
            None => false,
        };
        if same {
            let entry = v.renonced(v.nonce());
            out.insert(*k, entry);
        } else {
            proof {
                assert(snapshot@[*k] == *v);
                assert(p(*k));
                assert(iter_keys(all).take(idx + 1).filter(p) == iter_keys(all).take(idx).filter(p).push(*k));
            }
            let entry = v.renonced(fresh[next]);
            proof {
                slot = slot.insert(*k, next as int);
            }
            out.insert(*k, entry);
            next = next + 1;
        }
        proof {
            assert forall|q: u64| #[trigger] out@.contains_key(q) <==> iter_keys(all).take(idx + 1).contains(q) by {
                if q == *k {
                    assert(iter_keys(all).take(idx + 1)[idx] == q);
                } else if iter_keys(all).take(idx + 1).contains(q) {
                    let j = choose|j: int| 0 <= j < idx + 1 && #[trigger] iter_keys(all).take(idx + 1)[j] == q;
                    assert(iter_keys(all).take(idx)[j] == q);
                } else if iter_keys(all).take(idx).contains(q) {
                    let j = choose|j: int| 0 <= j < idx && #[trigger] iter_keys(all).take(idx)[j] == q;
                    assert(iter_keys(all).take(idx + 1)[j] == q);
                }
            }
        }
    }
    proof {
        assert forall|q: u64| out@.contains_key(q) <==> snapshot@.dom().contains(q) by {
            assert(iter_keys(all).take(all.len() as int) =~= iter_keys(all));
        }
        assert(out@.dom() =~= snapshot@.dom());
        assert(iter_keys(all).take(all.len() as int) =~= iter_keys(all));
        assert forall|k: u64| #[trigger] out@.contains_key(k) && p(k)
            implies exists|i: int| start <= i < next && out@[k].nonce_of() == #[trigger] fresh@[i] by {
            assert(out@[k].nonce_of() == fresh@[slot[k]]);
        }
    }
    Ok((out, next))
}

/// A prefix filters to no more than the whole sequence.
proof fn lemma_filter_prefix_len(s: Seq<u64>, p: spec_fn(u64) -> bool, n: int)
    requires
        0 <= n <= s.len(),
    ensures
        s.take(n).filter(p).len() <= s.filter(p).len(),
    decreases s.len() - n,
{
    if n < s.len() {
        lemma_filter_prefix_len(s, p, n + 1);
        assert(s.take(n + 1) =~= s.take(n).push(s[n]));
        s.take(n).lemma_filter_push(s[n], p);
    } else {
        assert(s.take(n) =~= s);
    }
}

} // verus!
