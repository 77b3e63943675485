//! The bookkeeping of one world: its lifecycle and exclusive activity, the identities it has
//! issued, and the claim and rollback of native objects created for it.
//!
//! Native calls (object validity, destruction, reading an object's parent) are made by the
//! caller; the checks here consult them through closures, in the order in which they matter:
//! identity first, native state only for an identity that passed.

use vstd::prelude::*;

use crate::error::{Error, JointType, Result};
use crate::identity::{
    reservation_failure, BoundBody, BoundChain, PendingChain, BoundJoint, BoundShape, IdentityManifest, IdentityRegistry, PendingBody, PendingJoint, PendingShape,
    PreparedIdentityRestore,
};
use crate::ids::{BodyId, ChainId, IdBrand, JointId, RawId, ShapeId};
use crate::world_state::{lifecycle_error, ActivityState, ExclusiveActivityLease, LifecycleState, WorldState};

verus! {

/// A native object that a creation call produced and that no Rust identity names yet.
#[derive(Clone, Copy, Debug, PartialEq, Eq, Structural)]
pub enum NativeCreation {
    Body(RawId),
    Shape { raw: RawId, update_body_mass: bool },
    Joint(RawId),
    Chain(RawId),
}

/// The native id of a creation.
pub open spec fn creation_raw(native: NativeCreation) -> RawId {
    match native {
        NativeCreation::Body(raw) => raw,
        NativeCreation::Shape { raw, .. } => raw,
        NativeCreation::Joint(raw) => raw,
        NativeCreation::Chain(raw) => raw,
    }
}

/// The native constructor a creation came from, as named in errors.
pub open spec fn creation_operation(native: NativeCreation) -> &'static str {
    match native {
        NativeCreation::Body(_) => "b2CreateBody",
        NativeCreation::Shape { .. } => "b2Create*Shape",
        NativeCreation::Joint(_) => "b2Create*Joint",
        NativeCreation::Chain(_) => "b2CreateChain",
    }
}

/// The kind of id a creation produced, as named in errors.
pub open spec fn creation_output(native: NativeCreation) -> &'static str {
    match native {
        NativeCreation::Body(_) => "body ID",
        NativeCreation::Shape { .. } => "shape ID",
        NativeCreation::Joint(_) => "joint ID",
        NativeCreation::Chain(_) => "chain ID",
    }
}

/// The error that refuses a claimed native output which is foreign or already owned.
pub open spec fn claim_error(native: NativeCreation) -> Error {
    Error::InvalidNativeOutput {
        operation: creation_operation(native),
        output: creation_output(native),
        constraint: "a new, unowned identifier in this world",
    }
}

impl NativeCreation {
    /// The native id.
    pub fn raw(self) -> (r: RawId)
        ensures
            r == creation_raw(self),
    {
        match self {
            NativeCreation::Body(raw) => raw,
            NativeCreation::Shape { raw, .. } => raw,
            NativeCreation::Joint(raw) => raw,
            NativeCreation::Chain(raw) => raw,
        }
    }

    fn refusal(self) -> (e: Error)
        ensures
            e == claim_error(self),
    {
        let constraint = "a new, unowned identifier in this world";
        match self {
            NativeCreation::Body(_) => Error::InvalidNativeOutput {
                operation: "b2CreateBody",
                output: "body ID",
                constraint,
            },
            NativeCreation::Shape { .. } => Error::InvalidNativeOutput {
                operation: "b2Create*Shape",
                output: "shape ID",
                constraint,
            },
            NativeCreation::Joint(_) => Error::InvalidNativeOutput {
                operation: "b2Create*Joint",
                output: "joint ID",
                constraint,
            },
            NativeCreation::Chain(_) => Error::InvalidNativeOutput {
                operation: "b2CreateChain",
                output: "chain ID",
                constraint,
            },
        }
    }
}

/// `r` answers what `native_valid` said of `raw`: `Ok` when it confirmed the native object, the
/// error `invalid` when it did not.
pub open spec fn native_check<F: FnOnce(RawId) -> bool>(r: Result<()>, native_valid: F, raw: RawId, invalid: Error) -> bool {
    ||| r == Ok::<(), Error>(()) && native_valid.ensures((raw,), true)
    ||| r == Err::<(), Error>(invalid) && native_valid.ensures((raw,), false)
}

/// `r` is what binding the native body `raw` to `pending` in `registry` answers.
pub open spec fn body_binding(r: Result<BoundBody>, registry: IdentityRegistry, pending: PendingBody, raw: RawId) -> bool {
    &&& r is Ok <==> registry.revision() == pending.base_revision_spec() && !registry.body_slot_taken(raw.key_spec().code_spec())
    &&& r matches Ok(b) ==> b.raw_spec() == raw && b.nonce_spec() == pending.nonce_spec()
        && b.base_revision_spec() == pending.base_revision_spec()
    &&& r matches Err(e) ==> if registry.revision() != pending.base_revision_spec() {
        e == Error::WorldBusy
    } else {
        e == Error::ObjectIdentityExhausted
    }
}

/// `r` is what binding the native shape `raw` to `pending` in `registry` answers.
pub open spec fn shape_binding(r: Result<BoundShape>, registry: IdentityRegistry, pending: PendingShape, raw: RawId) -> bool {
    &&& r is Ok <==> registry.revision() == pending.base_revision_spec() && registry.body_registered(pending.body_spec())
        && !registry.shape_slot_taken(raw.key_spec().code_spec())
    &&& r matches Ok(b) ==> b.raw_spec() == raw && b.nonce_spec() == pending.nonce_spec() && b.body_spec() == pending.body_spec()
        && b.base_revision_spec() == pending.base_revision_spec()
    &&& r matches Err(e) ==> if registry.revision() != pending.base_revision_spec() {
        e == Error::WorldBusy
    } else if !registry.body_registered(pending.body_spec()) {
        e == Error::InvalidBodyId
    } else {
        e == Error::ObjectIdentityExhausted
    }
}

/// `r` is what binding the native joint `raw` to `pending` in `registry` answers.
pub open spec fn joint_binding(r: Result<BoundJoint>, registry: IdentityRegistry, pending: PendingJoint, raw: RawId) -> bool {
    &&& r is Ok <==> registry.revision() == pending.base_revision_spec() && registry.body_registered(pending.bodies_spec().0)
        && registry.body_registered(pending.bodies_spec().1) && !registry.joint_slot_taken(raw.key_spec().code_spec())
    &&& r matches Ok(b) ==> b.raw_spec() == raw && b.nonce_spec() == pending.nonce_spec()
        && b.bodies_spec() == pending.bodies_spec() && b.kind_spec() == pending.kind_spec()
        && b.base_revision_spec() == pending.base_revision_spec()
    &&& r matches Err(e) ==> if registry.revision() != pending.base_revision_spec() {
        e == Error::WorldBusy
    } else if !registry.body_registered(pending.bodies_spec().0) || !registry.body_registered(pending.bodies_spec().1) {
        e == Error::InvalidBodyId
    } else {
        e == Error::ObjectIdentityExhausted
    }
}

/// The refusals of a chain binding once the native chain was confirmed: one for each check
/// [`WorldCore::bind_created_chain`] makes after that, with what the callbacks answered.
pub open spec fn chain_binding_refusal<
    C: FnOnce(RawId) -> i32,
    L: FnOnce(RawId, usize) -> (Vec<RawId>, i32),
    S: Fn(RawId) -> bool,
>(
    e: Error,
    registry: IdentityRegistry,
    pending: PendingChain,
    raw: RawId,
    segment_count: C,
    fill: L,
    segment_ok: S,
) -> bool {
    let n = pending.segment_nonces_spec().len();
    ||| e == Error::ObjectIdentityExhausted && n > i32::MAX
    ||| n <= i32::MAX && exists|c: i32| #[trigger] segment_count.ensures((raw,), c) && {
        ||| c < 0 && e == (Error::NegativeFfiOutputCapacity { capacity: c })
        ||| c >= 0 && c != n && e == Error::InvalidChainId
        ||| c == n && exists|out: (Vec<RawId>, i32)| #[trigger] fill.ensures((raw, n as usize), out) && {
            ||| out.1 < 0 && e == (Error::NegativeFfiOutputCount { count: out.1 })
            ||| out.1 > n && e == (Error::FfiOutputCountExceedsCapacity { count: out.1, capacity: n as i32 })
            ||| 0 <= out.1 <= n && (out.1 != n || out.0@.len() != n) && e == Error::InvalidChainId
            ||| out.1 == n && out.0@.len() == n && exists|f: int| 0 <= f < n && {
                &&& forall|j: int| 0 <= j < f ==> registry.brand_spec().owns_raw(#[trigger] out.0@[j])
                    && segment_ok.ensures((out.0@[j],), true)
                &&& {
                    ||| !registry.brand_spec().owns_raw(#[trigger] out.0@[f]) && e == Error::WrongWorld
                    ||| registry.brand_spec().owns_raw(out.0@[f]) && segment_ok.ensures((out.0@[f],), false)
                        && e == Error::InvalidShapeId
                }
            }
            ||| out.1 == n && out.0@.len() == n && (forall|j: int| 0 <= j < n ==> registry.brand_spec().owns_raw(
                #[trigger] out.0@[j]) && segment_ok.ensures((out.0@[j],), true))
                && PendingChain::bind_spec_refusal(pending, registry, raw, out.0@, e)
        }
    }
}

/// The rollback of a claimed native creation; armed until the creation's identity is published.
#[derive(Debug)]
pub struct NativeCreationGuard {
    native: NativeCreation,
    armed: bool,
}

impl NativeCreationGuard {
    pub closed spec fn native_spec(&self) -> NativeCreation {
        self.native
    }

    pub closed spec fn armed_spec(&self) -> bool {
        self.armed
    }

    /// The claimed creation.
    pub fn native(&self) -> (n: NativeCreation)
        ensures
            n == self.native_spec(),
    {
        self.native
    }

    /// Whether the creation will still be rolled back.
    pub fn is_armed(&self) -> (b: bool)
        ensures
            b == self.armed_spec(),
    {
        self.armed
    }

    /// The creation's identity was published: it is no longer rolled back.
    pub fn commit(&mut self)
        ensures
            !final(self).armed_spec(),
            final(self).native_spec() == old(self).native_spec(),
    {
        self.armed = false;
    }
}

/// The lifecycle, activity and identities of one world.
pub struct WorldCore {
    state: WorldState,
    identities: IdentityRegistry,
    native_destroyed: bool,
}

impl WorldCore {
    pub closed spec fn state_spec(&self) -> WorldState {
        self.state
    }

    pub closed spec fn identities_spec(&self) -> IdentityRegistry {
        self.identities
    }

    pub closed spec fn native_destroyed_spec(&self) -> bool {
        self.native_destroyed
    }

    /// The registry is well formed and issues ids under the world's brand.
    pub open spec fn wf(&self) -> bool {
        &&& self.identities_spec().wf()
        &&& self.identities_spec().brand_spec() == self.state_spec().brand
    }

    /// Whether the world owns a native object with this id and none of its identities names it.
    pub open spec fn claimable(&self, native: NativeCreation) -> bool {
        let raw = creation_raw(native);
        let c = raw.key_spec().code_spec();
        &&& self.state_spec().brand.owns_raw(raw)
        &&& match native {
            NativeCreation::Body(_) => !self.identities_spec().bodies().contains_key(c),
            NativeCreation::Shape { .. } => !self.identities_spec().shapes().contains_key(c),
            NativeCreation::Joint(_) => !self.identities_spec().joints().contains_key(c),
            NativeCreation::Chain(_) => !self.identities_spec().chains().contains_key(c),
        }
    }

    /// What [`check_available`](Self::check_available) answers.
    pub open spec fn check_available_spec(&self) -> Result<()> {
        match lifecycle_error(self.state_spec().lifecycle) {
            Some(e) => Err(e),
            None => if self.state_spec().activity == ActivityState::Idle {
                Ok(())
            } else {
                Err(Error::WorldBusy)
            },
        }
    }

    /// What [`check_restoring`](Self::check_restoring) answers.
    pub open spec fn check_restoring_spec(&self) -> Result<()> {
        match lifecycle_error(self.state_spec().lifecycle) {
            Some(e) => Err(e),
            None => if self.state_spec().activity == ActivityState::Restoring {
                Ok(())
            } else {
                Err(Error::WorldBusy)
            },
        }
    }

    /// The world state after poisoning.
    pub open spec fn poisoned(state: WorldState) -> WorldState {
        if state.lifecycle == LifecycleState::Live {
            WorldState { lifecycle: LifecycleState::Poisoned, ..state }
        } else {
            state
        }
    }

    /// A live, idle world branded `brand` that has issued no identity.
    pub fn new(brand: IdBrand) -> (w: Self)
        ensures
            w.wf(),
            w.state_spec() == (WorldState { lifecycle: LifecycleState::Live, activity: ActivityState::Idle, brand }),
            w.identities_spec().bodies().is_empty(),
            w.identities_spec().shapes().is_empty(),
            w.identities_spec().joints().is_empty(),
            w.identities_spec().chains().is_empty(),
            w.identities_spec().last_nonce() == 0,
            !w.native_destroyed_spec(),
    {
        WorldCore { state: WorldState::new(brand), identities: IdentityRegistry::new(brand), native_destroyed: false }
    }

    /// The brand of the world's ids.
    pub fn brand(&self) -> (b: IdBrand)
        ensures
            b == self.state_spec().brand,
    {
        self.state.brand
    }

    /// The lifecycle and activity.
    pub fn state(&self) -> (s: WorldState)
        ensures
            s == self.state_spec(),
    {
        self.state
    }

    /// The identities the world has issued.
    pub fn identities(&self) -> (r: &IdentityRegistry)
        ensures
            *r == self.identities_spec(),
    {
        &self.identities
    }

    /// Refuses a world that cannot take an ordinary operation now.
    pub fn check_available(&self) -> (r: Result<()>)
        ensures
            r == match lifecycle_error(self.state_spec().lifecycle) {
                Some(e) => Err::<(), Error>(e),
                None => if self.state_spec().activity == ActivityState::Idle {
                    Ok(())
                } else {
                    Err(Error::WorldBusy)
                },
            },
    {
        self.state.check_available()
    }

    /// Refuses a world that is not live or is not restoring.
    pub fn check_restoring(&self) -> (r: Result<()>)
        ensures
            r == match lifecycle_error(self.state_spec().lifecycle) {
                Some(e) => Err::<(), Error>(e),
                None => if self.state_spec().activity == ActivityState::Restoring {
                    Ok(())
                } else {
                    Err(Error::WorldBusy)
                },
            },
    {
        self.state.check_activity(ActivityState::Restoring)
    }

    /// Refuses an id of another world, then an id that names no active body.
    pub fn check_body_identity_after_preflight(&self, id: BodyId) -> (r: Result<()>)
        requires
            self.wf(),
        ensures
            r == if id.brand_spec() != self.state_spec().brand {
                Err::<(), Error>(Error::WrongWorld)
            } else if !self.identities_spec().body_active(id) {
                Err(Error::InvalidBodyId)
            } else {
                Ok(())
            },
    {
        self.state.check_brand_identity(id.brand())?;
        if !self.identities.contains_body(id) {
            return Err(Error::InvalidBodyId);
        }
        Ok(())
    }

    /// Refuses an unavailable world, then a body id as
    /// [`check_body_identity_after_preflight`](Self::check_body_identity_after_preflight) does.
    pub fn check_body_identity(&self, id: BodyId) -> (r: Result<()>)
        requires
            self.wf(),
        ensures
            r == match self.check_available_spec() {
                Err(e) => Err::<(), Error>(e),
                Ok(()) => if id.brand_spec() != self.state_spec().brand {
                    Err(Error::WrongWorld)
                } else if !self.identities_spec().body_active(id) {
                    Err(Error::InvalidBodyId)
                } else {
                    Ok(())
                },
            },
    {
        self.check_available()?;
        self.check_body_identity_after_preflight(id)
    }

    /// Checks a body id, then asks `native_valid` whether the native body still exists.
    pub fn check_body_after_preflight<F: FnOnce(RawId) -> bool>(&self, id: BodyId, native_valid: F) -> (r: Result<()>)
        requires
            self.wf(),
            native_valid.requires((id.raw_spec(),)),
        ensures
            id.brand_spec() != self.state_spec().brand ==> r == Err::<(), Error>(Error::WrongWorld),
            id.brand_spec() == self.state_spec().brand && !self.identities_spec().body_active(id)
                ==> r == Err::<(), Error>(Error::InvalidBodyId),
            self.identities_spec().body_active(id) ==> native_check(r, native_valid, id.raw_spec(), Error::InvalidBodyId),
    {
        self.check_body_identity_after_preflight(id)?;
        if native_valid(id.into_raw()) {
            Ok(())
        } else {
            Err(Error::InvalidBodyId)
        }
    }

    /// Refuses an unavailable world, then checks a body id and its native body.
    pub fn check_body<F: FnOnce(RawId) -> bool>(&self, id: BodyId, native_valid: F) -> (r: Result<()>)
        requires
            self.wf(),
            native_valid.requires((id.raw_spec(),)),
        ensures
            self.check_available_spec() matches Err(e) ==> r == Err::<(), Error>(e),
            self.check_available_spec() is Ok && id.brand_spec() != self.state_spec().brand
                ==> r == Err::<(), Error>(Error::WrongWorld),
            self.check_available_spec() is Ok && id.brand_spec() == self.state_spec().brand
                && !self.identities_spec().body_active(id) ==> r == Err::<(), Error>(Error::InvalidBodyId),
            self.check_available_spec() is Ok && self.identities_spec().body_active(id)
                ==> native_check(r, native_valid, id.raw_spec(), Error::InvalidBodyId),
    {
        self.check_available()?;
        self.check_body_after_preflight(id, native_valid)
    }

    /// Checks a shape id, then asks `native_valid` whether the native shape still exists.
    pub fn check_shape_after_preflight<F: FnOnce(RawId) -> bool>(&self, id: ShapeId, native_valid: F) -> (r: Result<()>)
        requires
            self.wf(),
            native_valid.requires((id.raw_spec(),)),
        ensures
            id.brand_spec() != self.state_spec().brand ==> r == Err::<(), Error>(Error::WrongWorld),
            id.brand_spec() == self.state_spec().brand && !self.identities_spec().shape_active(id)
                ==> r == Err::<(), Error>(Error::InvalidShapeId),
            self.identities_spec().shape_active(id) ==> native_check(r, native_valid, id.raw_spec(), Error::InvalidShapeId),
    {
        self.state.check_brand_identity(id.brand())?;
        if !self.identities.contains_shape(id) {
            return Err(Error::InvalidShapeId);
        }
        if native_valid(id.into_raw()) {
            Ok(())
        } else {
            Err(Error::InvalidShapeId)
        }
    }

    /// Checks a joint id and returns its registered type once `native_valid` confirms the native
    /// joint still exists.
    pub fn check_joint_after_preflight<F: FnOnce(RawId) -> bool>(&self, id: JointId, native_valid: F) -> (r: Result<JointType>)
        requires
            self.wf(),
            native_valid.requires((id.raw_spec(),)),
        ensures
            id.brand_spec() != self.state_spec().brand ==> r == Err::<JointType, Error>(Error::WrongWorld),
            id.brand_spec() == self.state_spec().brand && !self.identities_spec().joint_active(id)
                ==> r == Err::<JointType, Error>(Error::InvalidJointId),
            self.identities_spec().joint_active(id) ==> {
                let kind = self.identities_spec().joints()[id.raw_spec().key_spec().code_spec()].kind;
                ||| r == Ok::<JointType, Error>(kind) && native_valid.ensures((id.raw_spec(),), true)
                ||| r == Err::<JointType, Error>(Error::InvalidJointId) && native_valid.ensures((id.raw_spec(),), false)
            },
    {
        self.state.check_brand_identity(id.brand())?;
        let kind = self.identities.joint_type(id)?;
        if native_valid(id.into_raw()) {
            Ok(kind)
        } else {
            Err(Error::InvalidJointId)
        }
    }

    /// Checks a chain id, then asks `native_valid` whether the native chain still exists.
    pub fn check_chain_after_preflight<F: FnOnce(RawId) -> bool>(&self, id: ChainId, native_valid: F) -> (r: Result<()>)
        requires
            self.wf(),
            native_valid.requires((id.raw_spec(),)),
        ensures
            id.brand_spec() != self.state_spec().brand ==> r == Err::<(), Error>(Error::WrongWorld),
            id.brand_spec() == self.state_spec().brand && !self.identities_spec().chain_active(id)
                ==> r == Err::<(), Error>(Error::InvalidChainId),
            self.identities_spec().chain_active(id) ==> native_check(r, native_valid, id.raw_spec(), Error::InvalidChainId),
    {
        self.state.check_brand_identity(id.brand())?;
        if !self.identities.contains_chain(id) {
            return Err(Error::InvalidChainId);
        }
        if native_valid(id.into_raw()) {
            Ok(())
        } else {
            Err(Error::InvalidChainId)
        }
    }

    /// Starts the world's exclusive recording and leases it.
    pub fn begin_recording_activity(&mut self) -> (r: Result<ExclusiveActivityLease>)
        requires
            old(self).wf(),
        ensures
            final(self).wf(),
            final(self).identities_spec() == old(self).identities_spec(),
            final(self).native_destroyed_spec() == old(self).native_destroyed_spec(),
            r matches Ok(lease) ==> old(self).check_available_spec() is Ok && lease.armed_spec()
                && lease.activity_spec() == ActivityState::Recording
                && final(self).state_spec() == (WorldState { activity: ActivityState::Recording, ..old(self).state_spec() }),
            r matches Err(e) ==> old(self).check_available_spec() == Err::<(), Error>(e)
                && final(self).state_spec() == old(self).state_spec(),
    {
        ExclusiveActivityLease::begin(&mut self.state, ActivityState::Recording)
    }

    /// Starts the world's exclusive restore and leases it.
    pub fn begin_restore_activity(&mut self) -> (r: Result<ExclusiveActivityLease>)
        requires
            old(self).wf(),
        ensures
            final(self).wf(),
            final(self).identities_spec() == old(self).identities_spec(),
            final(self).native_destroyed_spec() == old(self).native_destroyed_spec(),
            r matches Ok(lease) ==> old(self).check_available_spec() is Ok && lease.armed_spec()
                && lease.activity_spec() == ActivityState::Restoring
                && final(self).state_spec() == (WorldState { activity: ActivityState::Restoring, ..old(self).state_spec() }),
            r matches Err(e) ==> old(self).check_available_spec() == Err::<(), Error>(e)
                && final(self).state_spec() == old(self).state_spec(),
    {
        ExclusiveActivityLease::begin(&mut self.state, ActivityState::Restoring)
    }

    /// Ends the activity `lease` holds; a disarmed or finished lease does nothing.
    pub fn finish_activity(&mut self, lease: &mut ExclusiveActivityLease) -> (r: Result<()>)
        requires
            old(self).wf(),
        ensures
            final(self).wf(),
            final(self).identities_spec() == old(self).identities_spec(),
            final(self).native_destroyed_spec() == old(self).native_destroyed_spec(),
            final(lease).activity_spec() == old(lease).activity_spec(),
            !old(lease).armed_spec() ==> r is Ok && final(self).state_spec() == old(self).state_spec()
                && !final(lease).armed_spec(),
            old(lease).armed_spec() && old(self).state_spec().activity == old(lease).activity_spec()
                && old(lease).activity_spec() != ActivityState::Idle ==> {
                &&& r is Ok
                &&& final(self).state_spec() == (WorldState { activity: ActivityState::Idle, ..old(self).state_spec() })
                &&& !final(lease).armed_spec()
            },
            old(lease).armed_spec() && (old(self).state_spec().activity != old(lease).activity_spec()
                || old(lease).activity_spec() == ActivityState::Idle) ==> {
                &&& r == Err::<(), Error>(Error::WorldBusy)
                &&& final(self).state_spec() == old(self).state_spec()
                &&& final(lease).armed_spec()
            },
    {
        lease.finish(&mut self.state)
    }

    /// The identity manifest, for the world's own restore.
    pub fn identity_manifest_while_restoring(&self) -> (r: Result<IdentityManifest>)
        requires
            self.wf(),
        ensures
            self.check_restoring_spec() matches Err(e) ==> r == Err::<IdentityManifest, Error>(e),
            self.check_restoring_spec() is Ok ==> match r {
                Ok(m) => m.brand_spec() == self.state_spec().brand
                    && crate::identity::same_registrations(self.identities_spec().bodies(), m.bodies())
                    && crate::identity::same_registrations(self.identities_spec().shapes(), m.shapes())
                    && crate::identity::same_registrations(self.identities_spec().joints(), m.joints())
                    && crate::identity::same_registrations(self.identities_spec().chains(), m.chains()),
                Err(e) => e == Error::IdentityTrackingAllocationFailed,
            },
    {
        self.check_restoring()?;
        self.identities.snapshot_manifest()
    }

    /// Prepares the identities of a restore from `manifest`, during the world's own restore.
    pub fn prepare_identity_restore(&mut self, manifest: &IdentityManifest) -> (r: Result<PreparedIdentityRestore>)
        requires
            old(self).wf(),
        ensures
            final(self).wf(),
            final(self).state_spec() == old(self).state_spec(),
            final(self).native_destroyed_spec() == old(self).native_destroyed_spec(),
            final(self).identities_spec().same_tables(&old(self).identities_spec()),
            IdentityRegistry::evolves(&old(self).identities_spec(), &final(self).identities_spec()),
            old(self).check_restoring_spec() matches Err(e) ==> r == Err::<PreparedIdentityRestore, Error>(e)
                && final(self).identities_spec() == old(self).identities_spec(),
            r matches Ok(p) ==> old(self).check_restoring_spec() is Ok
                && p.prepared_from(&old(self).identities_spec(), manifest)
                && p.bound_spec() == final(self).identities_spec().last_nonce(),
            old(self).check_restoring_spec() is Ok && manifest.brand_spec() != old(self).state_spec().brand
                ==> r == Err::<PreparedIdentityRestore, Error>(Error::WrongWorld),
            old(self).check_restoring_spec() is Ok && manifest.brand_spec() == old(self).state_spec().brand
                && (crate::identity::restore_fresh_count(&old(self).identities_spec(), manifest) > usize::MAX
                || old(self).identities_spec().last_nonce() + crate::identity::restore_fresh_count(
                    &old(self).identities_spec(),
                    manifest,
                ) > u64::MAX) ==> r == Err::<PreparedIdentityRestore, Error>(Error::ObjectIdentityExhausted),
    {
        self.check_restoring()?;
        self.identities.prepare_restore(manifest)
    }

    /// Commits prepared restore identities, during the world's own restore.
    pub fn commit_identity_restore(&mut self, prepared: PreparedIdentityRestore) -> (r: Result<()>)
        requires
            old(self).wf(),
            prepared.brand_spec() == old(self).state_spec().brand ==> old(self).identities_spec().last_nonce() >= prepared.bound_spec(),
        ensures
            final(self).wf(),
            final(self).state_spec() == old(self).state_spec(),
            final(self).native_destroyed_spec() == old(self).native_destroyed_spec(),
            old(self).check_restoring_spec() matches Err(e) ==> r == Err::<(), Error>(e)
                && final(self).identities_spec() == old(self).identities_spec(),
            old(self).check_restoring_spec() is Ok ==> (r is Ok <==> prepared.brand_spec() == old(self).state_spec().brand
                && prepared.base_revision_spec() == old(self).identities_spec().revision()),
            r matches Err(e) ==> final(self).identities_spec().same_tables(&old(self).identities_spec()),
    {
        self.check_restoring()?;
        self.identities.commit_restore(prepared)
    }

    /// Reserves an identity for a body about to be created natively.
    pub fn reserve_body_creation(&mut self) -> (r: Result<PendingBody>)
        requires
            old(self).wf(),
        ensures
            final(self).wf(),
            final(self).state_spec() == old(self).state_spec(),
            final(self).native_destroyed_spec() == old(self).native_destroyed_spec(),
            final(self).identities_spec().same_tables(&old(self).identities_spec()),
            IdentityRegistry::evolves(&old(self).identities_spec(), &final(self).identities_spec()),
            r matches Ok(p) ==> p.nonce_spec().value_spec() == old(self).identities_spec().last_nonce() + 1
                && final(self).identities_spec().reserved().contains(p.nonce_spec().value_spec())
                && p.base_revision_spec() == old(self).identities_spec().revision(),
            r matches Err(e) ==> final(self).identities_spec().last_nonce() == old(self).identities_spec().last_nonce()
                && final(self).identities_spec().reserved() == old(self).identities_spec().reserved()
                && reservation_failure(e, old(self).identities_spec().last_nonce(),
                    old(self).identities_spec().bodies().len() + 1 > usize::MAX),
            old(self).identities_spec().last_nonce() < u64::MAX && old(self).identities_spec().bodies().len() + 1 <= usize::MAX
                ==> r is Ok || r == Err::<PendingBody, Error>(Error::IdentityTrackingAllocationFailed),
    {
        self.identities.reserve_body()
    }

    /// Reserves an identity for a shape about to be attached to `body`.
    pub fn reserve_shape_creation(&mut self, body: BodyId) -> (r: Result<PendingShape>)
        requires
            old(self).wf(),
        ensures
            final(self).wf(),
            final(self).state_spec() == old(self).state_spec(),
            final(self).native_destroyed_spec() == old(self).native_destroyed_spec(),
            final(self).identities_spec().same_tables(&old(self).identities_spec()),
            IdentityRegistry::evolves(&old(self).identities_spec(), &final(self).identities_spec()),
            r matches Ok(p) ==> old(self).identities_spec().body_active(body) && p.body_spec() == body
                && p.nonce_spec().value_spec() == old(self).identities_spec().last_nonce() + 1
                && final(self).identities_spec().reserved().contains(p.nonce_spec().value_spec())
                && p.base_revision_spec() == old(self).identities_spec().revision(),
            r matches Err(e) ==> final(self).identities_spec().last_nonce() == old(self).identities_spec().last_nonce()
                && final(self).identities_spec().reserved() == old(self).identities_spec().reserved() && (
                if body.brand_spec() != old(self).state_spec().brand {
                    e == Error::WrongWorld
                } else if !old(self).identities_spec().body_active(body) {
                    e == Error::InvalidBodyId
                } else {
                    reservation_failure(e, old(self).identities_spec().last_nonce(),
                        old(self).identities_spec().shapes().len() + 1 > usize::MAX)
                }),
            old(self).identities_spec().body_active(body) && old(self).identities_spec().last_nonce() < u64::MAX
                && old(self).identities_spec().shapes().len() + 1 <= usize::MAX
                ==> r is Ok || r == Err::<PendingShape, Error>(Error::IdentityTrackingAllocationFailed),
    {
        self.identities.reserve_shape(body)
    }

    /// Reserves an identity for a joint about to connect `body_a` and `body_b`.
    pub fn reserve_joint_creation(&mut self, body_a: BodyId, body_b: BodyId, kind: JointType) -> (r: Result<PendingJoint>)
        requires
            old(self).wf(),
        ensures
            final(self).wf(),
            final(self).state_spec() == old(self).state_spec(),
            final(self).native_destroyed_spec() == old(self).native_destroyed_spec(),
            final(self).identities_spec().same_tables(&old(self).identities_spec()),
            IdentityRegistry::evolves(&old(self).identities_spec(), &final(self).identities_spec()),
            r matches Ok(p) ==> old(self).identities_spec().body_active(body_a)
                && old(self).identities_spec().body_active(body_b) && p.bodies_spec() == (body_a, body_b)
                && p.kind_spec() == kind && p.nonce_spec().value_spec() == old(self).identities_spec().last_nonce() + 1
                && final(self).identities_spec().reserved().contains(p.nonce_spec().value_spec())
                && p.base_revision_spec() == old(self).identities_spec().revision(),
            r matches Err(e) ==> final(self).identities_spec().last_nonce() == old(self).identities_spec().last_nonce()
                && final(self).identities_spec().reserved() == old(self).identities_spec().reserved() && (
                if body_a.brand_spec() != old(self).state_spec().brand || body_b.brand_spec() != old(self).state_spec().brand {
                    e == Error::WrongWorld
                } else if !old(self).identities_spec().body_active(body_a) || !old(self).identities_spec().body_active(body_b) {
                    e == Error::InvalidBodyId
                } else {
                    reservation_failure(e, old(self).identities_spec().last_nonce(),
                        old(self).identities_spec().joints().len() + 1 > usize::MAX)
                }),
            old(self).identities_spec().body_active(body_a) && old(self).identities_spec().body_active(body_b)
                && old(self).identities_spec().last_nonce() < u64::MAX && old(self).identities_spec().joints().len() + 1 <= usize::MAX
                ==> r is Ok || r == Err::<PendingJoint, Error>(Error::IdentityTrackingAllocationFailed),
    {
        self.identities.reserve_joint(body_a, body_b, kind)
    }

    /// Reserves identities for a chain of `segment_count` segments about to be attached to `body`.
    pub fn reserve_chain_creation(&mut self, body: BodyId, segment_count: usize) -> (r: Result<PendingChain>)
        requires
            old(self).wf(),
        ensures
            final(self).wf(),
            final(self).state_spec() == old(self).state_spec(),
            final(self).native_destroyed_spec() == old(self).native_destroyed_spec(),
            final(self).identities_spec().same_tables(&old(self).identities_spec()),
            IdentityRegistry::evolves(&old(self).identities_spec(), &final(self).identities_spec()),
            r matches Ok(p) ==> old(self).identities_spec().body_active(body) && p.body_spec() == body
                && p.segment_nonces_spec().len() == segment_count
                && p.chain_nonce_spec().value_spec() == old(self).identities_spec().last_nonce() + 1
                && p.base_revision_spec() == old(self).identities_spec().revision(),
            r matches Err(e) ==> final(self).identities_spec().last_nonce() == old(self).identities_spec().last_nonce()
                && final(self).identities_spec().reserved() == old(self).identities_spec().reserved() && (
                if body.brand_spec() != old(self).state_spec().brand {
                    e == Error::WrongWorld
                } else if !old(self).identities_spec().body_active(body) {
                    e == Error::InvalidBodyId
                } else {
                    e == Error::IdentityTrackingAllocationFailed || e == Error::ObjectIdentityExhausted
                }),
    {
        self.identities.reserve_chain(body, segment_count)
    }

    /// Validates a native body output against its reservation: it must belong to this world,
    /// `native_valid` must confirm it, and its slot must be free.
    pub fn bind_created_body<F: FnOnce(RawId) -> bool>(&self, pending: PendingBody, raw: RawId, native_valid: F) -> (r: Result<BoundBody>)
        requires
            self.wf(),
            native_valid.requires((raw,)),
        ensures
            !self.state_spec().brand.owns_raw(raw) ==> r == Err::<BoundBody, Error>(Error::WrongWorld),
            self.state_spec().brand.owns_raw(raw) ==> {
                ||| r == Err::<BoundBody, Error>(Error::InvalidBodyId) && native_valid.ensures((raw,), false)
                ||| native_valid.ensures((raw,), true) && body_binding(r, self.identities_spec(), pending, raw)
            },
    {
        self.state.brand.check_raw(raw)?;
        if !native_valid(raw) {
            return Err(Error::InvalidBodyId);
        }
        pending.bind(&self.identities, raw)
    }

    /// Validates a native shape output against its reservation: it must belong to this world,
    /// `native_valid` must confirm it, `native_body` must report the reserved body as its parent,
    /// and its slot must be free.
    pub fn bind_created_shape<F: FnOnce(RawId) -> bool, G: FnOnce(RawId) -> RawId>(
        &self,
        pending: PendingShape,
        raw: RawId,
        native_valid: F,
        native_body: G,
    ) -> (r: Result<BoundShape>)
        requires
            self.wf(),
            native_valid.requires((raw,)),
            native_body.requires((raw,)),
        ensures
            !self.state_spec().brand.owns_raw(raw) ==> r == Err::<BoundShape, Error>(Error::WrongWorld),
            self.state_spec().brand.owns_raw(raw) ==> {
                ||| r == Err::<BoundShape, Error>(Error::InvalidShapeId) && native_valid.ensures((raw,), false)
                ||| r == Err::<BoundShape, Error>(Error::InvalidShapeId) && native_valid.ensures((raw,), true)
                    && exists|b: RawId| native_body.ensures((raw,), b) && b != pending.body_spec().raw_spec()
                ||| native_valid.ensures((raw,), true) && native_body.ensures((raw,), pending.body_spec().raw_spec())
                    && shape_binding(r, self.identities_spec(), pending, raw)
            },
    {
        self.state.brand.check_raw(raw)?;
        if !native_valid(raw) {
            return Err(Error::InvalidShapeId);
        }
        let expected = pending.body().into_raw();
        let actual = native_body(raw);
        if actual != expected {
            return Err(Error::InvalidShapeId);
        }
        pending.bind(&self.identities, raw)
    }

    /// Validates a native joint output against its reservation: it must belong to this world,
    /// `native_valid` must confirm it, `native_body_a` and then `native_body_b` must report the
    /// reserved bodies, and its slot must be free.
    pub fn bind_created_joint<F: FnOnce(RawId) -> bool, A: FnOnce(RawId) -> RawId, B: FnOnce(RawId) -> RawId>(
        &self,
        pending: PendingJoint,
        raw: RawId,
        native_valid: F,
        native_body_a: A,
        native_body_b: B,
    ) -> (r: Result<BoundJoint>)
        requires
            self.wf(),
            native_valid.requires((raw,)),
            native_body_a.requires((raw,)),
            native_body_b.requires((raw,)),
        ensures
            !self.state_spec().brand.owns_raw(raw) ==> r == Err::<BoundJoint, Error>(Error::WrongWorld),
            self.state_spec().brand.owns_raw(raw) ==> {
                ||| r == Err::<BoundJoint, Error>(Error::InvalidJointId) && native_valid.ensures((raw,), false)
                ||| r == Err::<BoundJoint, Error>(Error::InvalidJointId) && native_valid.ensures((raw,), true)
                    && exists|a: RawId| native_body_a.ensures((raw,), a) && a != pending.bodies_spec().0.raw_spec()
                ||| r == Err::<BoundJoint, Error>(Error::InvalidJointId) && native_valid.ensures((raw,), true)
                    && native_body_a.ensures((raw,), pending.bodies_spec().0.raw_spec())
                    && exists|b: RawId| native_body_b.ensures((raw,), b) && b != pending.bodies_spec().1.raw_spec()
                ||| native_valid.ensures((raw,), true) && native_body_a.ensures((raw,), pending.bodies_spec().0.raw_spec())
                    && native_body_b.ensures((raw,), pending.bodies_spec().1.raw_spec())
                    && joint_binding(r, self.identities_spec(), pending, raw)
            },
    {
        self.state.brand.check_raw(raw)?;
        if !native_valid(raw) {
            return Err(Error::InvalidJointId);
        }
        let (body_a, body_b) = pending.bodies();
        let actual_a = native_body_a(raw);
        if actual_a != body_a.into_raw() {
            return Err(Error::InvalidJointId);
        }
        let actual_b = native_body_b(raw);
        if actual_b != body_b.into_raw() {
            return Err(Error::InvalidJointId);
        }
        pending.bind(&self.identities, raw)
    }

    /// Validates a native chain output against its reservation, in the order the native calls
    /// are safe to make: the chain must belong to this world and `native_valid` must confirm it;
    /// `segment_count` must report the reserved number of segments; `fill`, given that room,
    /// returns the segment ids and how many it initialized, which must be all of them; every
    /// segment must belong to this world and `segment_ok` must confirm it (alive, on the reserved
    /// body, in this chain); then the chain and its segments are bound as
    /// [`PendingChain::bind`] does.
    pub fn bind_created_chain<
        F: FnOnce(RawId) -> bool,
        C: FnOnce(RawId) -> i32,
        L: FnOnce(RawId, usize) -> (Vec<RawId>, i32),
        S: Fn(RawId) -> bool,
    >(
        &self,
        pending: PendingChain,
        raw: RawId,
        native_valid: F,
        segment_count: C,
        fill: L,
        segment_ok: S,
    ) -> (r: Result<BoundChain>)
        requires
            self.wf(),
            native_valid.requires((raw,)),
            segment_count.requires((raw,)),
            pending.segment_nonces_spec().len() <= usize::MAX ==> fill.requires((raw, pending.segment_nonces_spec().len() as usize)),
            forall|seg: RawId| #[trigger] segment_ok.requires((seg,)),
        ensures
            !self.state_spec().brand.owns_raw(raw) ==> r == Err::<BoundChain, Error>(Error::WrongWorld),
            r matches Ok(b) ==> {
                let n = pending.segment_nonces_spec().len();
                &&& self.state_spec().brand.owns_raw(raw)
                &&& native_valid.ensures((raw,), true)
                &&& n <= i32::MAX
                &&& segment_count.ensures((raw,), n as i32)
                &&& exists|out: (Vec<RawId>, i32)| #[trigger] fill.ensures((raw, n as usize), out)
                    && out.1 == n && out.0@ == b.segment_raws_spec()
                &&& forall|i: int| 0 <= i < n ==> segment_ok.ensures((#[trigger] b.segment_raws_spec()[i],), true)
                &&& PendingChain::bind_spec_ok(pending, self.identities_spec(), raw, b.segment_raws_spec())
                &&& b.raw_spec() == raw && b.chain_nonce_spec() == pending.chain_nonce_spec()
                &&& b.segment_nonces_spec() == pending.segment_nonces_spec() && b.body_spec() == pending.body_spec()
                &&& b.base_revision_spec() == pending.base_revision_spec()
            },
            r matches Err(e) ==> self.state_spec().brand.owns_raw(raw) ==> {
                ||| e == Error::InvalidChainId && native_valid.ensures((raw,), false)
                ||| native_valid.ensures((raw,), true) && chain_binding_refusal(e, self.identities_spec(), pending, raw,
                    segment_count, fill, segment_ok)
            },
    {
        self.state.brand.check_raw(raw)?;
        if !native_valid(raw) {
            return Err(Error::InvalidChainId);
        }
        let reported = segment_count(raw);
        let expected = pending.segment_count();
        if expected > 0x7fff_ffff {
            return Err(Error::ObjectIdentityExhausted);
        }
        let expected_count = expected as i32;
        if reported < 0 {
            return Err(Error::NegativeFfiOutputCapacity { capacity: reported });
        }
        if reported != expected_count {
            return Err(Error::InvalidChainId);
        }
        let (segments, initialized) = fill(raw, expected);
        if initialized < 0 {
            return Err(Error::NegativeFfiOutputCount { count: initialized });
        }
        if initialized > expected_count {
            return Err(Error::FfiOutputCountExceedsCapacity { count: initialized, capacity: expected_count });
        }
        if initialized != expected_count || segments.len() != expected {
            return Err(Error::InvalidChainId);
        }
        let ghost out = (segments, initialized);
        let mut i: usize = 0;
        while i < segments.len()
            invariant
                self.wf(),
                i <= segments@.len(),
                segments@.len() == expected,
                out == (segments, initialized),
                self.state_spec().brand.owns_raw(raw),
                native_valid.ensures((raw,), true),
                expected == pending.segment_nonces_spec().len(),
                expected <= i32::MAX,
                segment_count.ensures((raw,), reported),
                reported == expected,
                initialized == expected,
                fill.ensures((raw, expected), out),
                forall|seg: RawId| #[trigger] segment_ok.requires((seg,)),
                forall|j: int| 0 <= j < i ==> self.state_spec().brand.owns_raw(#[trigger] segments@[j])
                    && segment_ok.ensures((segments@[j],), true),
            decreases segments@.len() - i,
        {
            let seg = segments[i];
            if self.state.brand.check_raw(seg).is_err() {
                proof {
                    let n = pending.segment_nonces_spec().len();
                    assert(!self.state_spec().brand.owns_raw(out.0@[i as int]));
                    assert(n as usize == expected);
                    assert(chain_binding_refusal(Error::WrongWorld, self.identities_spec(), pending, raw,
                        segment_count, fill, segment_ok));
                }
                return Err(Error::WrongWorld);
            }
            if !segment_ok(seg) {
                proof {
                    let n = pending.segment_nonces_spec().len();
                    assert(self.state_spec().brand.owns_raw(out.0@[i as int]));
                    assert(n as usize == expected);
                    assert(chain_binding_refusal(Error::InvalidShapeId, self.identities_spec(), pending, raw,
                        segment_count, fill, segment_ok));
                }
                return Err(Error::InvalidShapeId);
            }
            i = i + 1;
        }
        pending.bind(&self.identities, raw, &segments)
    }

    /// Publishes a bound body whose native creation `guard` holds, and disarms the guard: a
    /// published object is never rolled back.
    pub fn publish_created_body(&mut self, bound: BoundBody, guard: &mut NativeCreationGuard) -> (id: BodyId)
        requires
            old(self).wf(),
            old(self).identities_spec().revision() == bound.base_revision_spec(),
            !old(self).identities_spec().bodies().contains_key(bound.raw_spec().key_spec().code_spec()),
            old(self).identities_spec().reserved().contains(bound.nonce_spec().value_spec()),
        ensures
            final(self).wf(),
            final(self).state_spec() == old(self).state_spec(),
            final(self).native_destroyed_spec() == old(self).native_destroyed_spec(),
            IdentityRegistry::evolves(&old(self).identities_spec(), &final(self).identities_spec()),
            id.raw_spec() == bound.raw_spec() && id.nonce_spec() == bound.nonce_spec(),
            final(self).identities_spec().body_active(id),
            !final(guard).armed_spec(),
            final(guard).native_spec() == old(guard).native_spec(),
    {
        let id = bound.publish(&mut self.identities);
        guard.commit();
        id
    }

    /// Publishes a bound shape whose native creation `guard` holds, and disarms the guard.
    pub fn publish_created_shape(&mut self, bound: BoundShape, guard: &mut NativeCreationGuard) -> (id: ShapeId)
        requires
            old(self).wf(),
            old(self).identities_spec().revision() == bound.base_revision_spec(),
            !old(self).identities_spec().shapes().contains_key(bound.raw_spec().key_spec().code_spec()),
            old(self).identities_spec().body_registered(bound.body_spec()),
            old(self).identities_spec().reserved().contains(bound.nonce_spec().value_spec()),
        ensures
            final(self).wf(),
            final(self).state_spec() == old(self).state_spec(),
            final(self).native_destroyed_spec() == old(self).native_destroyed_spec(),
            IdentityRegistry::evolves(&old(self).identities_spec(), &final(self).identities_spec()),
            id.raw_spec() == bound.raw_spec() && id.nonce_spec() == bound.nonce_spec(),
            final(self).identities_spec().shape_active(id),
            !final(guard).armed_spec(),
            final(guard).native_spec() == old(guard).native_spec(),
    {
        let id = bound.publish(&mut self.identities);
        guard.commit();
        id
    }

    /// Publishes a bound joint whose native creation `guard` holds, and disarms the guard.
    pub fn publish_created_joint(&mut self, bound: BoundJoint, guard: &mut NativeCreationGuard) -> (id: JointId)
        requires
            old(self).wf(),
            old(self).identities_spec().revision() == bound.base_revision_spec(),
            !old(self).identities_spec().joints().contains_key(bound.raw_spec().key_spec().code_spec()),
            old(self).identities_spec().body_registered(bound.bodies_spec().0),
            old(self).identities_spec().body_registered(bound.bodies_spec().1),
            old(self).identities_spec().reserved().contains(bound.nonce_spec().value_spec()),
        ensures
            final(self).wf(),
            final(self).state_spec() == old(self).state_spec(),
            final(self).native_destroyed_spec() == old(self).native_destroyed_spec(),
            IdentityRegistry::evolves(&old(self).identities_spec(), &final(self).identities_spec()),
            id.raw_spec() == bound.raw_spec() && id.nonce_spec() == bound.nonce_spec(),
            final(self).identities_spec().joint_active(id),
            !final(guard).armed_spec(),
            final(guard).native_spec() == old(guard).native_spec(),
    {
        let id = bound.publish(&mut self.identities);
        guard.commit();
        id
    }

    /// Publishes a bound chain and its segments whose native creation `guard` holds, and disarms
    /// the guard.
    pub fn publish_created_chain(&mut self, bound: BoundChain, guard: &mut NativeCreationGuard) -> (r: (ChainId, Vec<ShapeId>))
        requires
            old(self).wf(),
            old(self).identities_spec().revision() == bound.base_revision_spec(),
            old(self).identities_spec().body_registered(bound.body_spec()),
            !old(self).identities_spec().chains().contains_key(bound.raw_spec().key_spec().code_spec()),
            bound.segment_raws_spec().len() == bound.segment_nonces_spec().len(),
            forall|i: int, j: int| 0 <= i < j < bound.segment_raws_spec().len()
                ==> #[trigger] bound.segment_raws_spec()[i].key_spec().code_spec() != #[trigger] bound.segment_raws_spec()[j].key_spec().code_spec(),
            forall|i: int, j: int| 0 <= i < j < bound.segment_nonces_spec().len()
                ==> #[trigger] bound.segment_nonces_spec()[i].value_spec() != #[trigger] bound.segment_nonces_spec()[j].value_spec(),
            forall|i: int| 0 <= i < bound.segment_raws_spec().len()
                ==> !old(self).identities_spec().shapes().contains_key(#[trigger] bound.segment_raws_spec()[i].key_spec().code_spec()),
            old(self).identities_spec().reserved().contains(bound.chain_nonce_spec().value_spec()),
            forall|i: int| 0 <= i < bound.segment_nonces_spec().len()
                ==> old(self).identities_spec().reserved().contains(#[trigger] bound.segment_nonces_spec()[i].value_spec()),
            !crate::identity::nonce_values(bound.segment_nonces_spec()).contains(bound.chain_nonce_spec().value_spec()),
        ensures
            final(self).wf(),
            final(self).state_spec() == old(self).state_spec(),
            final(self).native_destroyed_spec() == old(self).native_destroyed_spec(),
            IdentityRegistry::evolves(&old(self).identities_spec(), &final(self).identities_spec()),
            r.0.raw_spec() == bound.raw_spec() && r.0.nonce_spec() == bound.chain_nonce_spec(),
            final(self).identities_spec().chain_active(r.0),
            r.1@.len() == bound.segment_raws_spec().len(),
            forall|i: int| 0 <= i < r.1@.len() ==> (#[trigger] r.1@[i]).raw_spec() == bound.segment_raws_spec()[i]
                && r.1@[i].nonce_spec() == bound.segment_nonces_spec()[i]
                && final(self).identities_spec().shape_active(r.1@[i]),
            !final(guard).armed_spec(),
            final(guard).native_spec() == old(guard).native_spec(),
    {
        let r = bound.publish_with_segments(&mut self.identities);
        guard.commit();
        r
    }

    /// Forgets the body `id` names after its native body was destroyed, with the shapes, joints
    /// and chains attached to it; `false` when it names no active body.
    pub fn unregister_destroyed_body(&mut self, id: BodyId) -> (r: bool)
        requires
            old(self).wf(),
        ensures
            final(self).wf(),
            final(self).state_spec() == old(self).state_spec(),
            final(self).native_destroyed_spec() == old(self).native_destroyed_spec(),
            IdentityRegistry::narrows(&old(self).identities_spec(), &final(self).identities_spec()),
            r == old(self).identities_spec().body_active(id),
            !r ==> final(self).identities_spec().same_tables(&old(self).identities_spec()),
            !final(self).identities_spec().body_active(id),
    {
        self.identities.unregister_body(id)
    }

    /// Forgets the shape `id` names after its native shape was destroyed; `false` when it names no
    /// active shape.
    pub fn unregister_destroyed_shape(&mut self, id: ShapeId) -> (r: bool)
        requires
            old(self).wf(),
        ensures
            final(self).wf(),
            final(self).state_spec() == old(self).state_spec(),
            final(self).native_destroyed_spec() == old(self).native_destroyed_spec(),
            IdentityRegistry::narrows(&old(self).identities_spec(), &final(self).identities_spec()),
            r == old(self).identities_spec().shape_active(id),
            !r ==> final(self).identities_spec().same_tables(&old(self).identities_spec()),
            !final(self).identities_spec().shape_active(id),
    {
        self.identities.unregister_shape(id)
    }

    /// Forgets the joint `id` names after its native joint was destroyed; `false` when it names no
    /// active joint.
    pub fn unregister_destroyed_joint(&mut self, id: JointId) -> (r: bool)
        requires
            old(self).wf(),
        ensures
            final(self).wf(),
            final(self).state_spec() == old(self).state_spec(),
            final(self).native_destroyed_spec() == old(self).native_destroyed_spec(),
            IdentityRegistry::narrows(&old(self).identities_spec(), &final(self).identities_spec()),
            r == old(self).identities_spec().joint_active(id),
            !r ==> final(self).identities_spec().same_tables(&old(self).identities_spec()),
            !final(self).identities_spec().joint_active(id),
    {
        self.identities.unregister_joint(id)
    }

    /// Forgets the chain `id` names after its native chain was destroyed, with its segments;
    /// `false` when it names no active chain.
    pub fn unregister_destroyed_chain(&mut self, id: ChainId) -> (r: bool)
        requires
            old(self).wf(),
        ensures
            final(self).wf(),
            final(self).state_spec() == old(self).state_spec(),
            final(self).native_destroyed_spec() == old(self).native_destroyed_spec(),
            IdentityRegistry::narrows(&old(self).identities_spec(), &final(self).identities_spec()),
            r == old(self).identities_spec().chain_active(id),
            !r ==> final(self).identities_spec().same_tables(&old(self).identities_spec()),
            !final(self).identities_spec().chain_active(id),
    {
        self.identities.unregister_chain(id)
    }

    /// Forgets the retired slots that kept the last step's outputs resolvable.
    pub fn release_completed_step_outputs(&mut self)
        requires
            old(self).wf(),
        ensures
            final(self).wf(),
            final(self).state_spec() == old(self).state_spec(),
            final(self).native_destroyed_spec() == old(self).native_destroyed_spec(),
            final(self).identities_spec().bodies() == old(self).identities_spec().bodies(),
            final(self).identities_spec().shapes() == old(self).identities_spec().shapes(),
            final(self).identities_spec().joints() == old(self).identities_spec().joints(),
            final(self).identities_spec().chains() == old(self).identities_spec().chains(),
            final(self).identities_spec().retired_bodies().is_empty(),
            final(self).identities_spec().retired_shapes().is_empty(),
            final(self).identities_spec().retired_joints().is_empty(),
            final(self).identities_spec().retired_chains().is_empty(),
    {
        self.identities.clear_retired_outputs();
    }

    /// Ends the world's lifetime: the first call marks it destroyed and idle and answers `true`,
    /// after which the caller destroys the native world and calls
    /// [`finish_shutdown`](Self::finish_shutdown); every later call answers `false` and changes
    /// nothing.
    pub fn begin_shutdown(&mut self) -> (first: bool)
        requires
            old(self).wf(),
        ensures
            final(self).wf(),
            first == !old(self).native_destroyed_spec(),
            final(self).native_destroyed_spec(),
            final(self).identities_spec() == old(self).identities_spec(),
            first ==> final(self).state_spec() == (WorldState {
                lifecycle: LifecycleState::Destroyed,
                activity: ActivityState::Idle,
                ..old(self).state_spec()
            }),
            !first ==> final(self).state_spec() == old(self).state_spec(),
    {
        if self.native_destroyed {
            return false;
        }
        self.native_destroyed = true;
        self.state.lifecycle = LifecycleState::Destroyed;
        self.state.activity = ActivityState::Idle;
        true
    }

    /// Retires every identity once the native world is gone.
    pub fn finish_shutdown(&mut self)
        requires
            old(self).wf(),
            old(self).native_destroyed_spec(),
        ensures
            final(self).wf(),
            final(self).state_spec() == old(self).state_spec(),
            final(self).native_destroyed_spec(),
            final(self).identities_spec().bodies().is_empty(),
            final(self).identities_spec().shapes().is_empty(),
            final(self).identities_spec().joints().is_empty(),
            final(self).identities_spec().chains().is_empty(),
            IdentityRegistry::narrows(&old(self).identities_spec(), &final(self).identities_spec()),
    {
        self.identities.clear();
    }

    /// Rolls back the creation `guard` still holds: a native object of this world that
    /// `native_valid` confirms is handed to `destroy`, and the rollback succeeded when
    /// `still_valid` then denies it (or when `native_valid` already denied it). A foreign object is
    /// never destroyed. When the rollback fails the world is poisoned. A disarmed guard does
    /// nothing and answers `true`.
    pub fn settle_creation<V: FnOnce(NativeCreation) -> bool, D: FnOnce(NativeCreation), W: FnOnce(NativeCreation) -> bool>(
        &mut self,
        guard: NativeCreationGuard,
        native_valid: V,
        destroy: D,
        still_valid: W,
    ) -> (compensated: bool)
        requires
            old(self).wf(),
            native_valid.requires((guard.native_spec(),)),
            destroy.requires((guard.native_spec(),)),
            still_valid.requires((guard.native_spec(),)),
        ensures
            final(self).wf(),
            final(self).identities_spec() == old(self).identities_spec(),
            final(self).native_destroyed_spec() == old(self).native_destroyed_spec(),
            final(self).state_spec() == if compensated {
                old(self).state_spec()
            } else {
                Self::poisoned(old(self).state_spec())
            },
            !guard.armed_spec() ==> compensated,
            guard.armed_spec() && !old(self).state_spec().brand.owns_raw(creation_raw(guard.native_spec())) ==> !compensated,
            guard.armed_spec() && old(self).state_spec().brand.owns_raw(creation_raw(guard.native_spec())) ==> {
                ||| compensated && native_valid.ensures((guard.native_spec(),), false)
                ||| native_valid.ensures((guard.native_spec(),), true) && destroy.ensures((guard.native_spec(),), ())
                    && still_valid.ensures((guard.native_spec(),), !compensated)
            },
    {
        if !guard.armed {
            return true;
        }
        let native = guard.native;
        let compensated = if self.state.brand.check_raw(native.raw()).is_err() {
            false
        } else if native_valid(native) {
            destroy(native);
            !still_valid(native)
        } else {
            true
        };
        if !compensated {
            self.poison();
        }
        compensated
    }

    /// Marks a live world unusable.
    pub fn poison(&mut self)
        requires
            old(self).wf(),
        ensures
            final(self).wf(),
            final(self).state_spec() == Self::poisoned(old(self).state_spec()),
            final(self).identities_spec() == old(self).identities_spec(),
            final(self).native_destroyed_spec() == old(self).native_destroyed_spec(),
    {
        self.state.poison();
    }

    /// Claims a native output for rollback until its identity is published.
    ///
    /// An output of another world, or one that an identity of this world already names, was not
    /// made by this creation call: rolling it back could destroy an older object. Such an output
    /// is refused, nothing is armed, and the world is poisoned.
    pub fn claim_native_creation(&mut self, native: NativeCreation) -> (r: Result<NativeCreationGuard>)
        requires
            old(self).wf(),
        ensures
            final(self).wf(),
            final(self).identities_spec() == old(self).identities_spec(),
            final(self).native_destroyed_spec() == old(self).native_destroyed_spec(),
            r is Ok <==> old(self).claimable(native),
            r matches Ok(g) ==> g.native_spec() == native && g.armed_spec()
                && final(self).state_spec() == old(self).state_spec(),
            r matches Err(e) ==> e == claim_error(native)
                && final(self).state_spec() == Self::poisoned(old(self).state_spec()),
    {
        let raw = native.raw();
        let belongs = self.state.brand.check_raw(raw).is_ok();
        let already_owned = match native {
            NativeCreation::Body(_) => self.identities.contains_body_raw(raw),
            NativeCreation::Shape { .. } => self.identities.contains_shape_raw(raw),
            NativeCreation::Joint(_) => self.identities.contains_joint_raw(raw),
            NativeCreation::Chain(_) => self.identities.contains_chain_raw(raw),
        };
        if !belongs || already_owned {
            self.poison();
            return Err(native.refusal());
        }
        Ok(NativeCreationGuard { native, armed: true })
    }
}

/// The step generation that contact ids are bound to: it advances with every step whose contacts
/// become visible, so a contact id of an earlier step is refused.
#[derive(Clone, Copy, Debug, PartialEq, Eq, Structural)]
pub struct ContactEpoch {
    value: u64,
}

impl ContactEpoch {
    pub closed spec fn value_spec(self) -> u64 {
        self.value
    }

    /// The epoch of a world that has not stepped.
    pub fn initial() -> (e: Self)
        ensures
            e.value_spec() == 0,
    {
        ContactEpoch { value: 0 }
    }

    /// The epoch numbered `value`; lets a test reach the end of the epoch space.
    pub fn new_for_test(value: u64) -> (e: Self)
        ensures
            e.value_spec() == value,
    {
        ContactEpoch { value }
    }

    /// The epoch's number.
    pub fn value(self) -> (v: u64)
        ensures
            v == self.value_spec(),
    {
        self.value
    }

    /// The following epoch, unless the epoch space is exhausted.
    pub fn checked_next(self) -> (r: Result<ContactEpoch>)
        ensures
            self.value_spec() < u64::MAX ==> (r matches Ok(n) && n.value_spec() == self.value_spec() + 1),
            self.value_spec() == u64::MAX ==> r == Err::<ContactEpoch, Error>(Error::ObjectIdentityExhausted),
    {
        if self.value == u64::MAX {
            Err(Error::ObjectIdentityExhausted)
        } else {
            Ok(ContactEpoch { value: self.value + 1 })
        }
    }

    /// Advances to the following epoch; when the epoch space is exhausted the world is poisoned,
    /// since no later contact could be told from an earlier one.
    pub fn advance(&mut self, core: &mut WorldCore) -> (r: Result<ContactEpoch>)
        requires
            old(core).wf(),
        ensures
            final(core).wf(),
            final(core).identities_spec() == old(core).identities_spec(),
            final(core).native_destroyed_spec() == old(core).native_destroyed_spec(),
            r matches Ok(n) ==> n.value_spec() == old(self).value_spec() + 1 && *final(self) == n
                && final(core).state_spec() == old(core).state_spec(),
            r matches Err(e) ==> e == Error::ObjectIdentityExhausted && old(self).value_spec() == u64::MAX
                && *final(self) == *old(self) && final(core).state_spec() == WorldCore::poisoned(old(core).state_spec()),
            r is Ok <==> old(self).value_spec() < u64::MAX,
    {
        match self.checked_next() {
            Ok(next) => {
                *self = next;
                Ok(next)
            },
            Err(e) => {
                core.poison();
                Err(e)
            },
        }
    }

    /// Moves to `next`, which must be the epoch following this one; otherwise the world is busy
    /// with another step.
    pub fn commit(&mut self, next: ContactEpoch) -> (r: Result<()>)
        ensures
            old(self).value_spec() == u64::MAX ==> r == Err::<(), Error>(Error::ObjectIdentityExhausted),
            old(self).value_spec() < u64::MAX && next.value_spec() != old(self).value_spec() + 1
                ==> r == Err::<(), Error>(Error::WorldBusy),
            r is Ok <==> old(self).value_spec() < u64::MAX && next.value_spec() == old(self).value_spec() + 1,
            r is Ok ==> *final(self) == next,
            r is Err ==> *final(self) == *old(self),
    {
        let expected = self.checked_next()?;
        if expected != next {
            return Err(Error::WorldBusy);
        }
        *self = next;
        Ok(())
    }
}

/// Where the outputs of the last native step stand.
#[derive(Clone, Copy, Debug, PartialEq, Eq, Structural)]
pub enum PublicationPhase {
    /// No step outputs are visible.
    Idle,
    /// A step ran natively; its outputs are not yet visible through the safe API.
    Pending,
    /// A completed step is visible through the safe API.
    Published,
}

/// The publication of one world's completed step. Publishing the step and keeping the retired
/// identities its outputs may name are one transaction: retiring the step releases both.
pub struct StepPublication {
    phase: PublicationPhase,
}

impl StepPublication {
    pub closed spec fn phase_spec(&self) -> PublicationPhase {
        self.phase
    }

    /// Nothing published.
    pub fn new() -> (p: Self)
        ensures
            p.phase_spec() == PublicationPhase::Idle,
    {
        StepPublication { phase: PublicationPhase::Idle }
    }

    /// The current phase.
    pub fn phase(&self) -> (p: PublicationPhase)
        ensures
            p == self.phase_spec(),
    {
        self.phase
    }

    /// Whether step outputs are pending or published.
    pub fn is_active(&self) -> (b: bool)
        ensures
            b == (self.phase_spec() != PublicationPhase::Idle),
    {
        self.phase != PublicationPhase::Idle
    }

    /// A native step ran: its outputs are pending.
    pub fn publish_pending(&mut self)
        requires
            old(self).phase_spec() == PublicationPhase::Idle,
        ensures
            final(self).phase_spec() == PublicationPhase::Pending,
    {
        self.phase = PublicationPhase::Pending;
    }

    /// The pending outputs become visible as a completed step.
    pub fn commit(&mut self)
        requires
            old(self).phase_spec() == PublicationPhase::Pending,
        ensures
            final(self).phase_spec() == PublicationPhase::Published,
    {
        self.phase = PublicationPhase::Published;
    }

    /// Ends the step's visibility and releases the retired identities its outputs could name;
    /// nothing happens when no step is active.
    pub fn retire(&mut self, core: &mut WorldCore)
        requires
            old(core).wf(),
        ensures
            final(self).phase_spec() == PublicationPhase::Idle,
            final(core).wf(),
            final(core).state_spec() == old(core).state_spec(),
            final(core).native_destroyed_spec() == old(core).native_destroyed_spec(),
            old(self).phase_spec() == PublicationPhase::Idle ==> final(core).identities_spec() == old(core).identities_spec(),
            old(self).phase_spec() != PublicationPhase::Idle ==> {
                &&& final(core).identities_spec().bodies() == old(core).identities_spec().bodies()
                &&& final(core).identities_spec().shapes() == old(core).identities_spec().shapes()
                &&& final(core).identities_spec().joints() == old(core).identities_spec().joints()
                &&& final(core).identities_spec().chains() == old(core).identities_spec().chains()
                &&& final(core).identities_spec().retired_bodies().is_empty()
                &&& final(core).identities_spec().retired_shapes().is_empty()
                &&& final(core).identities_spec().retired_joints().is_empty()
                &&& final(core).identities_spec().retired_chains().is_empty()
            },
    {
        if self.phase == PublicationPhase::Idle {
            return;
        }
        self.phase = PublicationPhase::Idle;
        core.release_completed_step_outputs();
    }
}

/// A claim is never armed for an object that an identity of the world already names, so rolling
/// back a claimed creation never destroys a published object: a claimable output names no active
/// body, shape, joint or chain of its kind.
pub proof fn lemma_claim_never_targets_a_published_object(world: WorldCore, native: NativeCreation)
    requires
        world.wf(),
        world.claimable(native),
    ensures
        forall|id: BodyId| #![trigger world.identities_spec().body_active(id)]
            native is Body && id.raw_spec() == creation_raw(native) ==> !world.identities_spec().body_active(id),
        forall|id: ShapeId| #![trigger world.identities_spec().shape_active(id)]
            native is Shape && id.raw_spec() == creation_raw(native) ==> !world.identities_spec().shape_active(id),
        forall|id: JointId| #![trigger world.identities_spec().joint_active(id)]
            native is Joint && id.raw_spec() == creation_raw(native) ==> !world.identities_spec().joint_active(id),
        forall|id: ChainId| #![trigger world.identities_spec().chain_active(id)]
            native is Chain && id.raw_spec() == creation_raw(native) ==> !world.identities_spec().chain_active(id),
{
}

} // verus!
