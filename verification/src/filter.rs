//! Collision filtering data of a shape.

use vstd::prelude::*;

verus! {

/// Collision category, mask and group of a shape.
#[derive(Clone, Copy, Debug, PartialEq, Eq, Structural)]
pub struct Filter {
    pub category_bits: u64,
    pub mask_bits: u64,
    pub group_index: i32,
}

impl Default for Filter {
    /// Box2D's default filter: category one, every mask bit, no group.
    fn default() -> (f: Self)
        ensures
            f == (Filter { category_bits: 1, mask_bits: u64::MAX, group_index: 0 }),
    {
        Filter { category_bits: 1, mask_bits: u64::MAX, group_index: 0 }
    }
}

} // verus!
