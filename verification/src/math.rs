//! Plain math-side values: the linked Box2D version, the checks applied to the integer outputs
//! and inputs of native helpers, and the errors of converting rotations and transforms from other
//! math libraries.

use vstd::prelude::*;

use crate::error::{Error, Result};

verus! {

/// Box2D runtime version.
#[derive(Clone, Copy, Debug, PartialEq, Eq, Structural)]
pub struct Version {
    pub major: i32,
    pub minor: i32,
    pub revision: i32,
}

/// The byte count Box2D reports as allocated, which is never negative.
pub fn checked_allocated_byte_count(count: i64) -> (r: Result<i64>)
    ensures
        count >= 0 ==> r == Ok::<i64, Error>(count),
        count < 0 ==> r == Err::<i64, Error>(Error::NegativeAllocatedByteCount { count }),
{
    if count < 0 {
        Err(Error::NegativeAllocatedByteCount { count })
    } else {
        Ok(count)
    }
}

/// The error of a byte slice too long for the native hash helper.
pub open spec fn hash_length_error() -> Error {
    Error::InvalidArgument {
        operation: "hash_bytes",
        argument: "data",
        constraint: "a byte slice whose length is representable by a native int",
    }
}

/// The length of the bytes to hash, as the native `int` the hash helper takes.
pub fn hash_length(len: usize) -> (r: Result<i32>)
    ensures
        len <= i32::MAX ==> r == Ok::<i32, Error>(len as i32),
        len > i32::MAX ==> r == Err::<i32, Error>(hash_length_error()),
{
    if len > 0x7fff_ffff {
        Err(Error::invalid_argument(
            "hash_bytes",
            "data",
            "a byte slice whose length is representable by a native int",
        ))
    } else {
        Ok(len as i32)
    }
}

/// Failure to convert a `mint` rotation matrix.
#[derive(Clone, Copy, Debug, PartialEq, Eq, Structural)]
pub enum RotFromMintError {
    NonFinite,
    NotPureRotation,
}

/// Failure to convert a `glam` rotation matrix.
#[derive(Clone, Copy, Debug, PartialEq, Eq, Structural)]
pub enum RotFromGlamError {
    NonFinite,
    NotPureRotation,
}

/// Failure to convert a `glam` affine transform.
#[derive(Clone, Copy, Debug, PartialEq, Eq, Structural)]
pub enum TransformFromGlamError {
    NonFinite,
    NotPureRotation,
}

/// Failure to convert a `mint` transform matrix.
#[derive(Clone, Copy, Debug, PartialEq, Eq, Structural)]
pub enum TransformFromMintError {
    NonFinite,
    NotPureRotation,
}

} // verus!
