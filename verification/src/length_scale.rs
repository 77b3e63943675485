//! The process-global length scale that definitions are derived from.
//!
//! The scale is kept as the exact bits of its `f32` value, so that nearby scales are never treated
//! as interchangeable. Whether a value is a safe scale is a floating-point question decided before
//! a scale is made.

use vstd::prelude::*;

use crate::error::{Error, Result};

verus! {

/// The length scale a definition was built for.
#[derive(Clone, Copy, Debug, PartialEq, Eq, Structural)]
pub struct LengthScale {
    bits: u32,
}

impl LengthScale {
    /// The bits of the scale's `f32` value.
    pub closed spec fn bits_spec(self) -> u32 {
        self.bits
    }

    /// The scale whose `f32` value has these bits; the value must already be known to be safe.
    pub fn from_bits(bits: u32) -> (s: Self)
        ensures
            s.bits_spec() == bits,
    {
        LengthScale { bits }
    }

    /// The bits of the scale's `f32` value.
    pub fn bits(self) -> (b: u32)
        ensures
            b == self.bits_spec(),
    {
        self.bits
    }

    /// Refuses a definition built for a different scale.
    pub fn check_definition(self, operation: &'static str, definition: Self) -> (r: Result<()>)
        ensures
            self.bits_spec() == definition.bits_spec() ==> r is Ok,
            self.bits_spec() != definition.bits_spec() ==> r == Err::<(), Error>(
                Error::LengthScaleMismatch { operation, expected: self.bits_spec(), actual: definition.bits_spec() },
            ),
    {
        if self.bits == definition.bits {
            Ok(())
        } else {
            Err(Error::LengthScaleMismatch { operation, expected: self.bits, actual: definition.bits })
        }
    }
}

} // verus!
