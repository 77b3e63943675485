# boxdd

The verified core of a safe Rust binding to the Box2D physics engine.

`src/` is checked by Verus. It holds the bookkeeping that keeps the binding safe:

- `identity`, `ids`, `tables`, `snapshot_entries`: the identities a world issues for bodies,
  shapes, joints and chains, nonces that are never reused, and snapshot manifests and restores
  that never revive a stale id;
- `world_core`, `world_state`: a world's lifecycle and exclusive activities, the claim, binding,
  publication and rollback of natively created objects, and the publication of step outputs;
- `activity`, `foundation`, `length_scale`: process-global activity accounting, the decisions of
  one-time foundation initialization, and the fixed length scale;
- `dynamic_tree`: proxy ids of standalone dynamic trees and the validation of every native tree
  output;
- `events`, `ffi_vec`: event buffers fetched at most once per step and checked native outputs;
- `callback`: callback depth, panic slots, the worker-callback failure state with its queued
  panics, and owner frames whose deferred cleanups run after the outermost callback returns;
- `material_mix`, `user_data`, `serialize_registry`: callback slots for material mixing,
  user-data stores and their restore, and the registries kept for serialization;
- `debug_draw`, `filter`, `math`, `error`: plain values and the error type.

`app/` holds what Verus does not see: the process-global statics, the calls into the native
library through `boxdd-sys`, floating-point validation, panic containment at native callback
boundaries, type-erased user data, and copies of library types carrying `serde` and `thiserror`
derives.

`tests/` exercises the library from outside.
