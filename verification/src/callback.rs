//! Decisions of the Rust boundary around native calls that may invoke Rust callbacks.
//!
//! The boundary keeps the first panic of a call and hands every later one back for disposal,
//! counts callback nesting so owner operations can be refused from inside a callback, and keeps
//! one frame per active owner call in which cleanups are deferred until the root call returns.

use vstd::prelude::*;

use crate::error::{Error, Result};

verus! {

/// Named callback-capable native boundaries covered by the shared owner scope.
#[derive(Clone, Copy, Debug, PartialEq, Eq, Structural)]
pub enum CallbackBoundary {
    WorldStep,
    Query,
    DebugDraw,
    DynamicTreeQuery,
    DynamicTreeQueryAll,
    DynamicTreeRayCast,
    DynamicTreeBoxCast,
    ReplayStep,
    ReplaySeek,
    ReplayRestart,
    ReplayDraw,
}

/// The boundaries in catalog order.
pub open spec fn boundary_catalog() -> Seq<CallbackBoundary> {
    seq![
        CallbackBoundary::WorldStep,
        CallbackBoundary::Query,
        CallbackBoundary::DebugDraw,
        CallbackBoundary::DynamicTreeQuery,
        CallbackBoundary::DynamicTreeQueryAll,
        CallbackBoundary::DynamicTreeRayCast,
        CallbackBoundary::DynamicTreeBoxCast,
        CallbackBoundary::ReplayStep,
        CallbackBoundary::ReplaySeek,
        CallbackBoundary::ReplayRestart,
        CallbackBoundary::ReplayDraw,
    ]
}

impl CallbackBoundary {
    /// Every boundary, in catalog order.
    pub fn all() -> (v: Vec<CallbackBoundary>)
        ensures
            v@ == boundary_catalog(),
    {
        let v = vec![
            CallbackBoundary::WorldStep,
            CallbackBoundary::Query,
            CallbackBoundary::DebugDraw,
            CallbackBoundary::DynamicTreeQuery,
            CallbackBoundary::DynamicTreeQueryAll,
            CallbackBoundary::DynamicTreeRayCast,
            CallbackBoundary::DynamicTreeBoxCast,
            CallbackBoundary::ReplayStep,
            CallbackBoundary::ReplaySeek,
            CallbackBoundary::ReplayRestart,
            CallbackBoundary::ReplayDraw,
        ];
        assert(v@ =~= boundary_catalog());
        v
    }

    /// The stable label of the boundary.
    pub fn as_str(self) -> (s: &'static str)
        ensures
            s == match self {
                CallbackBoundary::WorldStep => "world-step",
                CallbackBoundary::Query => "query",
                CallbackBoundary::DebugDraw => "debug-draw",
                CallbackBoundary::DynamicTreeQuery => "dynamic-tree-query",
                CallbackBoundary::DynamicTreeQueryAll => "dynamic-tree-query-all",
                CallbackBoundary::DynamicTreeRayCast => "dynamic-tree-ray-cast",
                CallbackBoundary::DynamicTreeBoxCast => "dynamic-tree-box-cast",
                CallbackBoundary::ReplayStep => "replay-step",
                CallbackBoundary::ReplaySeek => "replay-seek",
                CallbackBoundary::ReplayRestart => "replay-restart",
                CallbackBoundary::ReplayDraw => "replay-draw",
            },
    {
        match self {
            CallbackBoundary::WorldStep => "world-step",
            CallbackBoundary::Query => "query",
            CallbackBoundary::DebugDraw => "debug-draw",
            CallbackBoundary::DynamicTreeQuery => "dynamic-tree-query",
            CallbackBoundary::DynamicTreeQueryAll => "dynamic-tree-query-all",
            CallbackBoundary::DynamicTreeRayCast => "dynamic-tree-ray-cast",
            CallbackBoundary::DynamicTreeBoxCast => "dynamic-tree-box-cast",
            CallbackBoundary::ReplayStep => "replay-step",
            CallbackBoundary::ReplaySeek => "replay-seek",
            CallbackBoundary::ReplayRestart => "replay-restart",
            CallbackBoundary::ReplayDraw => "replay-draw",
        }
    }
}

/// Stable identity of the native owner whose call may synchronously invoke Rust.
#[derive(Copy, Clone, Debug, PartialEq, Eq, Structural)]
pub enum CallbackOwnerToken {
    /// A world, by its world token value.
    World(u64),
    /// A dynamic tree, by its tree token value.
    DynamicTree(u64),
}

impl CallbackOwnerToken {
    /// The owner token of a world.
    pub fn world(token: crate::ids::WorldToken) -> (t: Self)
        ensures
            t == CallbackOwnerToken::World(token.value_spec()),
    {
        CallbackOwnerToken::World(token.value())
    }

    /// The owner token of a dynamic tree.
    pub fn dynamic_tree(token: crate::dynamic_tree::TreeToken) -> (t: Self)
        ensures
            t == CallbackOwnerToken::DynamicTree(token.value_spec()),
    {
        CallbackOwnerToken::DynamicTree(token.value())
    }
}

/// The first panic owned by a Rust call boundary.
pub struct PanicSlot<P> {
    first: Option<P>,
}

impl<P> PanicSlot<P> {
    pub closed spec fn first_spec(&self) -> Option<P> {
        self.first
    }

    /// No panic.
    pub fn new() -> (s: Self)
        ensures
            s.first_spec() is None,
    {
        PanicSlot { first: None }
    }

    /// Whether a panic was captured.
    pub fn has_panicked(&self) -> (b: bool)
        ensures
            b == self.first_spec() is Some,
    {
        self.first.is_some()
    }

    /// Keep `payload` if it is the first panic; otherwise hand it back for disposal.
    pub fn capture(&mut self, payload: P) -> (suppressed: Option<P>)
        ensures
            match old(self).first_spec() {
                None => final(self).first_spec() == Some(payload) && suppressed is None,
                Some(first) => final(self).first_spec() == Some(first) && suppressed == Some(payload),
            },
    {
        if self.first.is_none() {
            self.first = Some(payload);
            None
        } else {
            Some(payload)
        }
    }

    /// Merge another slot; a panic it holds becomes first here unless this slot already holds
    /// one, in which case it is handed back for disposal.
    pub fn absorb_deferred(&mut self, other: Self) -> (suppressed: Option<P>)
        ensures
            match (old(self).first_spec(), other.first_spec()) {
                (_, None) => final(self).first_spec() == old(self).first_spec() && suppressed is None,
                (None, Some(p)) => final(self).first_spec() == Some(p) && suppressed is None,
                (Some(f), Some(p)) => final(self).first_spec() == Some(f) && suppressed == Some(p),
            },
    {
        match other.first {
            None => None,
            Some(payload) => self.capture(payload),
        }
    }

    /// Take the first panic, leaving the slot empty.
    pub fn take(&mut self) -> (first: Option<P>)
        ensures
            first == old(self).first_spec(),
            final(self).first_spec() is None,
    {
        let first = self.first.take();
        first
    }

    /// `value` when no panic was captured, otherwise the first panic.
    pub fn into_result<T>(self, value: T) -> (r: core::result::Result<T, P>)
        ensures
            match self.first_spec() {
                Some(p) => r == Err::<T, P>(p),
                None => r == Ok::<T, P>(value),
            },
    {
        match self.first {
            Some(payload) => Err(payload),
            None => Ok(value),
        }
    }
}

/// Nesting depth of active callbacks on one thread.
pub struct CallbackDepth {
    depth: usize,
}

impl CallbackDepth {
    pub closed spec fn depth_spec(&self) -> usize {
        self.depth
    }

    /// No active callback.
    pub fn new() -> (d: Self)
        ensures
            d.depth_spec() == 0,
    {
        CallbackDepth { depth: 0 }
    }

    /// The number of active callbacks.
    pub fn depth(&self) -> (n: usize)
        ensures
            n == self.depth_spec(),
    {
        self.depth
    }

    /// Enter one more callback.
    pub fn enter(&mut self)
        requires
            old(self).depth_spec() < usize::MAX,
        ensures
            final(self).depth_spec() == old(self).depth_spec() + 1,
    {
        self.depth = self.depth + 1;
    }

    /// Leave the innermost callback; leaving at depth zero keeps zero.
    pub fn exit(&mut self)
        ensures
            final(self).depth_spec() == if old(self).depth_spec() == 0 {
                0
            } else {
                old(self).depth_spec() - 1
            },
    {
        self.depth = self.depth.saturating_sub(1);
    }

    /// Whether a callback is active.
    pub fn in_callback(&self) -> (b: bool)
        ensures
            b == (self.depth_spec() > 0),
    {
        self.depth > 0
    }

    /// Refuse an owner operation from inside a callback.
    pub fn check_not_in_callback(&self) -> (r: Result<()>)
        ensures
            r is Ok <==> self.depth_spec() == 0,
            r is Err ==> r == Err::<(), Error>(Error::InCallback),
    {
        if self.depth > 0 {
            Err(Error::InCallback)
        } else {
            Ok(())
        }
    }
}

/// The failure flag, queued panics and first error shared by the worker callbacks of one native
/// call.
pub struct WorkerCallbackState<P> {
    failed: bool,
    panics: Vec<P>,
    error: Option<Error>,
}

/// The first payload of `queued`, if any.
pub open spec fn first_queued<P>(queued: Seq<P>) -> Option<P> {
    if queued.len() > 0 {
        Some(queued[0])
    } else {
        None
    }
}

/// What the draining of `queued` into a slot that held `held` hands back for disposal: every
/// payload when the slot already held a panic, else every payload after the first.
pub open spec fn drained_leftovers<P>(held: Option<P>, queued: Seq<P>) -> Seq<P> {
    if held is Some {
        queued
    } else if queued.len() > 0 {
        queued.drop_first()
    } else {
        Seq::empty()
    }
}

impl<P> WorkerCallbackState<P> {
    pub closed spec fn failed_spec(&self) -> bool {
        self.failed
    }

    /// The panic payloads recorded by worker callbacks and not yet drained, in order.
    pub closed spec fn panics_spec(&self) -> Seq<P> {
        self.panics@
    }

    pub closed spec fn error_spec(&self) -> Option<Error> {
        self.error
    }

    /// No failure.
    pub fn new() -> (s: Self)
        ensures
            !s.failed_spec(),
            s.panics_spec().len() == 0,
            s.error_spec() is None,
    {
        WorkerCallbackState { failed: false, panics: Vec::new(), error: None }
    }

    /// Whether a worker callback failed during the current call.
    pub fn has_failed(&self) -> (b: bool)
        ensures
            b == self.failed_spec(),
    {
        self.failed
    }

    /// Record that a worker callback panicked, queueing its payload for the owner boundary.
    pub fn record_panic(&mut self, payload: P)
        ensures
            final(self).failed_spec(),
            final(self).panics_spec() == old(self).panics_spec().push(payload),
            final(self).error_spec() == old(self).error_spec(),
    {
        self.failed = true;
        self.panics.push(payload);
    }

    /// Record a worker callback error; only the first error of a call is kept.
    pub fn record_error(&mut self, error: Error)
        ensures
            final(self).failed_spec(),
            final(self).panics_spec() == old(self).panics_spec(),
            final(self).error_spec() == match old(self).error_spec() {
                None => Some(error),
                Some(first) => Some(first),
            },
    {
        self.failed = true;
        if self.error.is_none() {
            self.error = Some(error);
        }
    }

    /// Take the recorded error.
    pub fn take_error(&mut self) -> (e: Option<Error>)
        ensures
            e == old(self).error_spec(),
            final(self).error_spec() is None,
            final(self).failed_spec() == old(self).failed_spec(),
            final(self).panics_spec() == old(self).panics_spec(),
    {
        let e = self.error.take();
        e
    }

    /// Move every queued panic into `target`: the first becomes `target`'s panic unless it
    /// already holds one; the payloads that lose are handed back for disposal, in order.
    pub fn drain_panics(&mut self, target: &mut PanicSlot<P>) -> (leftovers: Vec<P>)
        ensures
            final(self).panics_spec().len() == 0,
            final(self).failed_spec() == old(self).failed_spec(),
            final(self).error_spec() == old(self).error_spec(),
            final(target).first_spec() == first_panic(old(target).first_spec(), first_queued(old(self).panics_spec())),
            leftovers@ == drained_leftovers(old(target).first_spec(), old(self).panics_spec()),
    {
        let mut payloads: Vec<P> = Vec::new();
        core::mem::swap(&mut payloads, &mut self.panics);
        if payloads.len() == 0 {
            assert(payloads@ =~= Seq::<P>::empty());
            return payloads;
        }
        let first = payloads.remove(0);
        match target.capture(first) {
            None => payloads,
            Some(payload) => {
                payloads.insert(0, payload);
                assert(payloads@ =~= old(self).panics_spec());
                payloads
            },
        }
    }

    /// Prepare a new native call after the previous one joined every worker: clear the failure,
    /// and hand back the error and the first undrained panic the previous call left, so that the
    /// panic is resumed rather than discarded. The other undrained payloads come back for
    /// disposal.
    pub fn begin_call(&mut self) -> (r: (Result<()>, Option<P>, Vec<P>))
        ensures
            !final(self).failed_spec(),
            final(self).error_spec() is None,
            final(self).panics_spec().len() == 0,
            match old(self).error_spec() {
                Some(e) => r.0 == Err::<(), Error>(e),
                None => r.0 is Ok,
            },
            r.1 == first_queued(old(self).panics_spec()),
            r.2@ == drained_leftovers(None, old(self).panics_spec()),
    {
        let error = self.take_error();
        let mut panic = PanicSlot::new();
        let leftovers = self.drain_panics(&mut panic);
        self.failed = false;
        let resume = panic.take();
        let result = match error {
            Some(error) => Err(error),
            None => Ok(()),
        };
        (result, resume, leftovers)
    }
}

/// Generation of one owner call frame; never zero.
#[derive(Copy, Clone, Debug, PartialEq, Eq, Structural)]
pub struct OwnerFrameGeneration {
    value: u64,
}

impl OwnerFrameGeneration {
    pub closed spec fn value_spec(self) -> u64 {
        self.value
    }

    /// Take the next generation of a thread's counter `next`.
    pub fn next(next: &mut u64) -> (g: Self)
        requires
            0 < *old(next) < u64::MAX,
        ensures
            g.value_spec() == *old(next),
            *final(next) == *old(next) + 1,
    {
        let g = OwnerFrameGeneration { value: *next };
        *next = *next + 1;
        g
    }
}

/// Resources deferred to the root of the active owner calls, and the first panic among them.
pub struct OwnerFrame<C, W, P> {
    generation: OwnerFrameGeneration,
    owner: CallbackOwnerToken,
    cleanups: Vec<C>,
    worlds: Vec<W>,
    panic: PanicSlot<P>,
}

impl<C, W, P> OwnerFrame<C, W, P> {
    pub closed spec fn generation_spec(&self) -> OwnerFrameGeneration {
        self.generation
    }

    pub closed spec fn owner_spec(&self) -> CallbackOwnerToken {
        self.owner
    }

    pub closed spec fn cleanups_spec(&self) -> Seq<C> {
        self.cleanups@
    }

    pub closed spec fn worlds_spec(&self) -> Seq<W> {
        self.worlds@
    }

    pub closed spec fn panic_spec(&self) -> Option<P> {
        self.panic.first_spec()
    }

    /// An empty frame.
    pub fn new(generation: OwnerFrameGeneration, owner: CallbackOwnerToken) -> (f: Self)
        ensures
            f.generation_spec() == generation,
            f.owner_spec() == owner,
            f.cleanups_spec().len() == 0,
            f.worlds_spec().len() == 0,
            f.panic_spec() is None,
    {
        OwnerFrame { generation, owner, cleanups: Vec::new(), worlds: Vec::new(), panic: PanicSlot::new() }
    }

    /// Defer a cleanup to this frame.
    pub fn push_cleanup(&mut self, cleanup: C)
        ensures
            final(self).cleanups_spec() == old(self).cleanups_spec().push(cleanup),
            final(self).worlds_spec() == old(self).worlds_spec(),
            final(self).panic_spec() == old(self).panic_spec(),
            final(self).generation_spec() == old(self).generation_spec(),
            final(self).owner_spec() == old(self).owner_spec(),
    {
        self.cleanups.push(cleanup);
    }

    /// Defer a world teardown to this frame.
    pub fn push_world(&mut self, world: W)
        ensures
            final(self).worlds_spec() == old(self).worlds_spec().push(world),
            final(self).cleanups_spec() == old(self).cleanups_spec(),
            final(self).panic_spec() == old(self).panic_spec(),
            final(self).generation_spec() == old(self).generation_spec(),
            final(self).owner_spec() == old(self).owner_spec(),
    {
        self.worlds.push(world);
    }

    /// Capture a panic into this frame; a later panic is handed back for disposal.
    pub fn capture_panic(&mut self, payload: P) -> (suppressed: Option<P>)
        ensures
            final(self).cleanups_spec() == old(self).cleanups_spec(),
            final(self).worlds_spec() == old(self).worlds_spec(),
            final(self).generation_spec() == old(self).generation_spec(),
            final(self).owner_spec() == old(self).owner_spec(),
            match old(self).panic_spec() {
                None => final(self).panic_spec() == Some(payload) && suppressed is None,
                Some(first) => final(self).panic_spec() == Some(first) && suppressed == Some(payload),
            },
    {
        self.panic.capture(payload)
    }

    /// Take the frame's panic, leaving it empty.
    pub fn take_panic(&mut self) -> (p: Option<P>)
        ensures
            p == old(self).panic_spec(),
            final(self).panic_spec() is None,
            final(self).cleanups_spec() == old(self).cleanups_spec(),
            final(self).worlds_spec() == old(self).worlds_spec(),
            final(self).generation_spec() == old(self).generation_spec(),
            final(self).owner_spec() == old(self).owner_spec(),
    {
        self.panic.take()
    }

    /// Append a nested frame's resources and panic to this frame; a nested panic after this
    /// frame's own first panic is handed back for disposal.
    pub fn merge(&mut self, nested: Self) -> (suppressed: Option<P>)
        ensures
            final(self).cleanups_spec() == old(self).cleanups_spec() + nested.cleanups_spec(),
            final(self).worlds_spec() == old(self).worlds_spec() + nested.worlds_spec(),
            final(self).generation_spec() == old(self).generation_spec(),
            final(self).owner_spec() == old(self).owner_spec(),
            match (old(self).panic_spec(), nested.panic_spec()) {
                (_, None) => final(self).panic_spec() == old(self).panic_spec() && suppressed is None,
                (None, Some(p)) => final(self).panic_spec() == Some(p) && suppressed is None,
                (Some(f), Some(p)) => final(self).panic_spec() == Some(f) && suppressed == Some(p),
            },
    {
        let OwnerFrame { generation: _, owner: _, cleanups: mut nested_cleanups, worlds: mut nested_worlds, panic: nested_panic } = nested;
        self.cleanups.append(&mut nested_cleanups);
        self.worlds.append(&mut nested_worlds);
        self.panic.absorb_deferred(nested_panic)
    }

    /// Append a nested frame's resources, keeping this frame's panic; the nested frame's panic is
    /// returned to its caller.
    pub fn merge_resources(&mut self, nested: Self) -> (nested_panic: Option<P>)
        ensures
            final(self).cleanups_spec() == old(self).cleanups_spec() + nested.cleanups_spec(),
            final(self).worlds_spec() == old(self).worlds_spec() + nested.worlds_spec(),
            final(self).generation_spec() == old(self).generation_spec(),
            final(self).owner_spec() == old(self).owner_spec(),
            final(self).panic_spec() == old(self).panic_spec(),
            nested_panic == nested.panic_spec(),
    {
        let OwnerFrame { generation: _, owner: _, cleanups: mut nested_cleanups, worlds: mut nested_worlds, panic: mut nested_slot } = nested;
        self.cleanups.append(&mut nested_cleanups);
        self.worlds.append(&mut nested_worlds);
        nested_slot.take()
    }

    /// Split the frame into its deferred cleanups, world teardowns and first panic, in order.
    pub fn into_parts(self) -> (parts: (Vec<C>, Vec<W>, Option<P>))
        ensures
            parts.0@ == self.cleanups_spec(),
            parts.1@ == self.worlds_spec(),
            parts.2 == self.panic_spec(),
    {
        let OwnerFrame { generation: _, owner: _, cleanups, worlds, panic: mut slot } = self;
        let p = slot.take();
        (cleanups, worlds, p)
    }
}

/// The first of two panics in order: `earlier` when there is one, else `later`.
pub open spec fn first_panic<P>(earlier: Option<P>, later: Option<P>) -> Option<P> {
    if earlier is Some {
        earlier
    } else {
        later
    }
}

/// The panic handed back for disposal when `later` arrives after `earlier`: `later`, when
/// `earlier` already holds one.
pub open spec fn suppressed_panic<P>(earlier: Option<P>, later: Option<P>) -> Option<P> {
    if earlier is Some {
        later
    } else {
        None
    }
}

/// What finishing the innermost owner call left to do.
pub enum FinishOutcome<C, W, P> {
    /// The call was the root: drain this frame's cleanups and world teardowns, then resume its
    /// panic, if any.
    Root(OwnerFrame<C, W, P>),
    /// The call was nested and produced a value: its resources and panic moved to the parent; a
    /// panic the parent already preceded is handed back for disposal.
    Merged { suppressed: Option<P> },
    /// The call was nested and produced no value: its resources moved to the parent and its panic
    /// must be resumed by the caller.
    Unwound { nested_panic: Option<P> },
}

/// The owner call frames active on one thread, innermost last.
pub struct OwnerFrames<C, W, P> {
    frames: Vec<OwnerFrame<C, W, P>>,
}

impl<C, W, P> OwnerFrames<C, W, P> {
    pub closed spec fn len_spec(&self) -> nat {
        self.frames@.len()
    }

    /// The generation of frame `i`, outermost first.
    pub closed spec fn generation_at(&self, i: int) -> OwnerFrameGeneration {
        self.frames@[i].generation_spec()
    }

    /// The deferred cleanups of frame `i`, outermost first.
    pub closed spec fn cleanups_at(&self, i: int) -> Seq<C> {
        self.frames@[i].cleanups_spec()
    }

    /// The deferred world teardowns of frame `i`, outermost first.
    pub closed spec fn worlds_at(&self, i: int) -> Seq<W> {
        self.frames@[i].worlds_spec()
    }

    /// The first panic of frame `i`, outermost first.
    pub closed spec fn panic_at(&self, i: int) -> Option<P> {
        self.frames@[i].panic_spec()
    }

    /// No active owner call.
    pub fn new() -> (f: Self)
        ensures
            f.len_spec() == 0,
    {
        OwnerFrames { frames: Vec::new() }
    }

    /// The number of active owner calls.
    pub fn len(&self) -> (n: usize)
        ensures
            n == self.len_spec(),
    {
        self.frames.len()
    }

    /// The generation of the innermost active owner call, if any.
    pub fn innermost_generation(&self) -> (g: Option<OwnerFrameGeneration>)
        ensures
            g == if self.len_spec() == 0 {
                None
            } else {
                Some(self.generation_at(self.len_spec() - 1))
            },
    {
        let n = self.frames.len();
        if n == 0 {
            None
        } else {
            Some(self.frames[n - 1].generation)
        }
    }

    /// Begin an owner call with a fresh frame.
    pub fn enter(&mut self, generation: OwnerFrameGeneration, owner: CallbackOwnerToken)
        ensures
            final(self).len_spec() == old(self).len_spec() + 1,
            final(self).generation_at(old(self).len_spec() as int) == generation,
            final(self).cleanups_at(old(self).len_spec() as int).len() == 0,
            final(self).worlds_at(old(self).len_spec() as int).len() == 0,
            final(self).panic_at(old(self).len_spec() as int) is None,
            forall|i: int| 0 <= i < old(self).len_spec() ==> final(self).generation_at(i) == old(self).generation_at(i)
                && final(self).cleanups_at(i) == old(self).cleanups_at(i) && final(self).worlds_at(i) == old(self).worlds_at(i)
                && final(self).panic_at(i) == old(self).panic_at(i),
    {
        self.frames.push(OwnerFrame::new(generation, owner));
    }

    /// Defer `cleanup` to the innermost frame; without an active owner call it is handed back,
    /// since no boundary could run it safely.
    pub fn defer_cleanup(&mut self, cleanup: C) -> (unregistered: Option<C>)
        ensures
            final(self).len_spec() == old(self).len_spec(),
            unregistered == if old(self).len_spec() == 0 {
                Some(cleanup)
            } else {
                None
            },
            old(self).len_spec() > 0 ==> final(self).cleanups_at(old(self).len_spec() - 1) == old(self).cleanups_at(
                old(self).len_spec() - 1,
            ).push(cleanup),
            forall|i: int| 0 <= i < old(self).len_spec() ==> final(self).generation_at(i) == old(self).generation_at(i)
                && final(self).worlds_at(i) == old(self).worlds_at(i) && final(self).panic_at(i) == old(self).panic_at(i),
            forall|i: int| 0 <= i < old(self).len_spec() - 1 ==> final(self).cleanups_at(i) == old(self).cleanups_at(i),
    {
        match self.frames.pop() {
            Some(mut frame) => {
                frame.push_cleanup(cleanup);
                self.frames.push(frame);
                None
            },
            None => Some(cleanup),
        }
    }

    /// Defer a world teardown to the innermost frame; without an active owner call it is handed
    /// back.
    pub fn defer_world(&mut self, world: W) -> (unregistered: Option<W>)
        ensures
            final(self).len_spec() == old(self).len_spec(),
            unregistered == if old(self).len_spec() == 0 {
                Some(world)
            } else {
                None
            },
            old(self).len_spec() > 0 ==> final(self).worlds_at(old(self).len_spec() - 1) == old(self).worlds_at(
                old(self).len_spec() - 1,
            ).push(world),
            forall|i: int| 0 <= i < old(self).len_spec() ==> final(self).generation_at(i) == old(self).generation_at(i)
                && final(self).cleanups_at(i) == old(self).cleanups_at(i) && final(self).panic_at(i) == old(self).panic_at(i),
            forall|i: int| 0 <= i < old(self).len_spec() - 1 ==> final(self).worlds_at(i) == old(self).worlds_at(i),
    {
        match self.frames.pop() {
            Some(mut frame) => {
                frame.push_world(world);
                self.frames.push(frame);
                None
            },
            None => Some(world),
        }
    }

    /// Finish the innermost owner call, which began with `generation`, after capturing `panic`
    /// from it; `value_present` says whether the native protocol produced a usable value.
    ///
    /// The first panic of the call joins the frame's own; a nested call's frame moves to its
    /// parent, and the root frame is handed back to be drained.
    pub fn finish(&mut self, generation: OwnerFrameGeneration, panic: PanicSlot<P>, value_present: bool) -> (r: (
        FinishOutcome<C, W, P>,
        Option<P>,
    ))
        requires
            old(self).len_spec() > 0,
            old(self).generation_at(old(self).len_spec() - 1) == generation,
        ensures
            final(self).len_spec() == old(self).len_spec() - 1,
            forall|i: int| 0 <= i < old(self).len_spec() - 2 ==> final(self).generation_at(i) == old(self).generation_at(i)
                && final(self).cleanups_at(i) == old(self).cleanups_at(i) && final(self).worlds_at(i) == old(self).worlds_at(i)
                && final(self).panic_at(i) == old(self).panic_at(i),
            old(self).len_spec() == 1 <==> r.0 is Root,
            r.1 == suppressed_panic(old(self).panic_at(old(self).len_spec() - 1), panic.first_spec()),
            r.0 matches FinishOutcome::Root(frame) ==> frame.cleanups_spec() == old(self).cleanups_at(0)
                && frame.worlds_spec() == old(self).worlds_at(0) && frame.generation_spec() == generation
                && frame.panic_spec() == first_panic(old(self).panic_at(0), panic.first_spec()),
            old(self).len_spec() > 1 ==> ({
                let p = old(self).len_spec() - 2;
                let top = old(self).len_spec() - 1;
                let call_panic = first_panic(old(self).panic_at(top), panic.first_spec());
                &&& final(self).generation_at(p) == old(self).generation_at(p)
                &&& final(self).cleanups_at(p) == old(self).cleanups_at(p) + old(self).cleanups_at(top)
                &&& final(self).worlds_at(p) == old(self).worlds_at(p) + old(self).worlds_at(top)
                &&& (value_present <==> r.0 is Merged)
                &&& (!value_present ==> final(self).panic_at(p) == old(self).panic_at(p))
                &&& (r.0 matches FinishOutcome::Merged { suppressed } ==> final(self).panic_at(p)
                    == first_panic(old(self).panic_at(p), call_panic) && suppressed == suppressed_panic(
                    old(self).panic_at(p),
                    call_panic,
                ))
                &&& (r.0 matches FinishOutcome::Unwound { nested_panic } ==> nested_panic == call_panic)
            }),
    {
        let mut frame = match self.frames.pop() {
            Some(f) => f,
            None => {
                return (FinishOutcome::Merged { suppressed: None }, None);
            },
        };
        let mut panic = panic;
        let suppressed_call = match panic.take() {
            Some(p) => frame.capture_panic(p),
            None => None,
        };
        match self.frames.pop() {
            None => (FinishOutcome::Root(frame), suppressed_call),
            Some(mut parent) => {
                if value_present {
                    let suppressed = parent.merge(frame);
                    self.frames.push(parent);
                    (FinishOutcome::Merged { suppressed }, suppressed_call)
                } else {
                    let nested_panic = parent.merge_resources(frame);
                    self.frames.push(parent);
                    (FinishOutcome::Unwound { nested_panic }, suppressed_call)
                }
            },
        }
    }
}

} // verus!
