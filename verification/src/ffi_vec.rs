//! Checks on the counts a native output-pointer API reports, and the mapping of its raw outputs to
//! safe values.
//!
//! A native call is handed room for `requested` elements and reports how many it initialized; only
//! a count within that room may become visible.

use vstd::prelude::*;

use crate::error::{Error, Result};
use crate::reserve::try_reserve_exact_vec;

verus! {

/// The room to hand a native output call, refusing a negative request.
pub fn ffi_output_capacity(requested: i32) -> (r: Result<usize>)
    ensures
        requested < 0 ==> r == Err::<usize, Error>(Error::NegativeFfiOutputCapacity { capacity: requested }),
        requested >= 0 ==> r == Ok::<usize, Error>(requested as usize),
{
    if requested < 0 {
        Err(Error::NegativeFfiOutputCapacity { capacity: requested })
    } else {
        Ok(requested as usize)
    }
}

/// The number of initialized outputs a native call reported, refusing a negative count and one
/// beyond the room it was given.
pub fn ffi_output_count(initialized: i32, requested: i32) -> (r: Result<usize>)
    ensures
        initialized < 0 ==> r == Err::<usize, Error>(Error::NegativeFfiOutputCount { count: initialized }),
        0 <= initialized && initialized > requested ==> r == Err::<usize, Error>(
            Error::FfiOutputCountExceedsCapacity { count: initialized, capacity: requested },
        ),
        0 <= initialized <= requested ==> r == Ok::<usize, Error>(initialized as usize),
{
    if initialized < 0 {
        return Err(Error::NegativeFfiOutputCount { count: initialized });
    }
    if initialized > requested {
        return Err(Error::FfiOutputCountExceedsCapacity { count: initialized, capacity: requested });
    }
    Ok(initialized as usize)
}

/// Whether `map` can map `x` to some value.
pub open spec fn maps_to_some<Raw, Safe, F: Fn(Raw) -> Result<Safe>>(map: F, x: Raw) -> bool {
    exists|v: Safe| map.ensures((x,), Ok(v))
}

/// Whether mapping `raw` with `map` first fails at element `i`, with `e`: every earlier element
/// mapped to some value and element `i` was refused.
pub open spec fn first_refusal<Raw, Safe, F: Fn(Raw) -> Result<Safe>>(raw: Seq<Raw>, map: F, i: int, e: Error) -> bool {
    &&& 0 <= i < raw.len()
    &&& forall|j: int| 0 <= j < i ==> #[trigger] maps_to_some(map, raw[j])
    &&& map.ensures((raw[i],), Err(e))
}

/// Appends the mapping of every raw output to `out`, in order, stopping at the first value that
/// cannot be mapped. This step allocates nothing beyond reserved room and has no failure of its
/// own: it fails exactly with the first refusal of `map`, and otherwise appends one mapped value
/// per raw value.
pub fn map_each<Raw: Copy, Safe, F: Fn(Raw) -> Result<Safe>>(raw: &Vec<Raw>, map: F, out: &mut Vec<Safe>) -> (r: Result<()>)
    requires
        forall|x: Raw| #[trigger] map.requires((x,)),
    ensures
        final(out)@.len() >= old(out)@.len(),
        final(out)@.subrange(0, old(out)@.len() as int) == old(out)@,
        r is Ok ==> final(out)@.len() == old(out)@.len() + raw@.len() && forall|i: int| 0 <= i < raw@.len()
            ==> map.ensures((raw@[i],), Ok(#[trigger] final(out)@[old(out)@.len() + i])),
        r matches Err(e) ==> exists|i: int| #[trigger] first_refusal(raw@, map, i, e),
{
    let ghost base = out@;
    let mut i: usize = 0;
    while i < raw.len()
        invariant
            forall|x: Raw| #[trigger] map.requires((x,)),
            i <= raw@.len(),
            base == old(out)@,
            out@.len() == base.len() + i,
            out@.subrange(0, base.len() as int) == base,
            forall|j: int| 0 <= j < i ==> map.ensures((raw@[j],), Ok(#[trigger] out@[base.len() + j])),
        decreases raw@.len() - i,
    {
        match map(raw[i]) {
            Ok(value) => {
                let ghost before = out@;
                out.push(value);
                proof {
                    assert forall|j: int| 0 <= j < i + 1 implies map.ensures((raw@[j],), Ok(#[trigger] out@[base.len() + j])) by {
                        if j < i {
                            assert(out@[base.len() + j] == before[base.len() + j]);
                        }
                    }
                    assert(out@.subrange(0, base.len() as int) =~= before.subrange(0, base.len() as int));
                }
            },
            Err(error) => {
                proof {
                    assert forall|j: int| 0 <= j < i implies #[trigger] maps_to_some(map, raw@[j]) by {
                        assert(map.ensures((raw@[j],), Ok(out@[base.len() + j])));
                    }
                    assert(map.ensures((raw@[i as int],), Err(error)));
                    assert(0 <= i < raw@.len());
                    assert(first_refusal(raw@, map, i as int, error));
                }
                return Err(error);
            },
        }
        i = i + 1;
    }
    Ok(())
}

/// Maps every raw output to a safe value, stopping at the first value that cannot be mapped.
///
/// Besides a refusal of `map`, the only failure is the allocator refusing room for `raw.len()`
/// values; once the room is reserved the mapping is [`map_each`], which has no failure of its own.
pub fn try_map_outputs<Raw: Copy, Safe, F: Fn(Raw) -> Result<Safe>>(raw: &Vec<Raw>, map: F) -> (r: Result<Vec<Safe>>)
    requires
        forall|x: Raw| #[trigger] map.requires((x,)),
    ensures
        r matches Ok(out) ==> out@.len() == raw@.len() && forall|i: int| 0 <= i < raw@.len() ==> map.ensures(
            (raw@[i],),
            Ok(#[trigger] out@[i]),
        ),
        r matches Err(e) ==> e == Error::FfiOutputAllocationFailed || exists|i: int| 0 <= i < raw@.len()
            && map.ensures((#[trigger] raw@[i],), Err(e)),
        r matches Err(e) ==> e == Error::FfiOutputAllocationFailed || exists|i: int| #[trigger] first_refusal(raw@, map, i, e),
{
    let mut out: Vec<Safe> = Vec::new();
    if !try_reserve_exact_vec(&mut out, raw.len()) {
        return Err(Error::FfiOutputAllocationFailed);
    }
    match map_each(raw, map, &mut out) {
        Ok(()) => {
            proof {
                assert forall|i: int| 0 <= i < raw@.len() implies map.ensures((raw@[i],), Ok(#[trigger] out@[i])) by {
                    assert(out@[0 + i] == out@[i]);
                }
            }
            Ok(out)
        },
        Err(e) => {
            proof {
                let i = choose|i: int| #[trigger] first_refusal(raw@, map, i, e);
                assert(map.ensures((raw@[i],), Err(e)));
            }
            Err(e)
        },
    }
}

} // verus!
