//! Verified core of a safe Box2D binding: object identity, activity and lifecycle state,
//! dynamic-tree bookkeeping, event buffers and callback boundaries.

mod reserve;
pub mod error;

pub use error::{Error, Result};
pub mod ids;
mod keys;
pub mod tables;
pub mod identity;
pub mod snapshot_entries;
pub mod activity;
pub mod dynamic_tree;
pub mod events;
pub mod callback;
pub mod material_mix;
pub mod user_data;
pub mod debug_draw;
pub mod filter;
pub mod math;
pub mod length_scale;
pub mod serialize_registry;
pub mod world_state;
pub mod world_core;
pub mod foundation;
pub mod ffi_vec;
