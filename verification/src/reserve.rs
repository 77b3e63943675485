//! Fallible reservation of hash-table storage.
//!
//! Whether an allocation succeeds depends on the allocator and the machine, so these items state
//! only that a reservation never changes the contents of the table.

use std::collections::HashMap;

use vstd::prelude::*;

verus! {

/// Calls [`HashMap::try_reserve`]; reports whether the reservation succeeded.
///
/// Trusted: the map's contents are unchanged whatever the outcome. Nothing is stated about when
/// the allocator refuses.
#[verifier::external_body]
pub(crate) fn try_reserve_map<K: core::hash::Hash + Eq, V>(m: &mut HashMap<K, V>, additional: usize) -> (ok: bool)
    ensures
        final(m)@ == old(m)@,
{
    m.try_reserve(additional).is_ok()
}

/// Calls [`Vec::try_reserve_exact`]; reports whether the reservation succeeded.
///
/// Trusted: the vector's contents are unchanged whatever the outcome. Nothing is stated about when
/// the allocator refuses.
#[verifier::external_body]
pub(crate) fn try_reserve_exact_vec<T>(v: &mut Vec<T>, additional: usize) -> (ok: bool)
    ensures
        final(v)@ == old(v)@,
{
    v.try_reserve_exact(additional).is_ok()
}

} // verus!
