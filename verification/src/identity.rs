//! Rust-side object identity registration for one Box2D world.
//!
//! Native generations are not a sufficient safe identity boundary because snapshot restore may
//! deliberately reintroduce an older native tuple. Every active object therefore receives a
//! monotonic registration nonce which is never restored or rolled back.
//!
//! Tables are keyed by [`RawKey::code`]. A registration is *active* while its key is in an active
//! table; removing it records the key as *retired* until the owner releases the outputs of the
//! step in which the object may still be named by native events.

use std::collections::{HashMap, HashSet};

use vstd::prelude::*;
use vstd::std_specs::hash::spec_hash_map_iter;
use vstd::std_specs::iter::IteratorSpec;

use crate::error::{Error, JointType, Result};
use crate::ids::{
    BodyId, ChainId, IdBrand, JointId, RawId, RawKey, RegistrationNonce, ShapeId, KEY_CODE_LIMIT,
};
use crate::keys::{
    copy_keys, differs_from, lemma_filter_filter, lemma_filter_keeps_all, lemma_pushed_unique_contains, lemma_without_key_idempotent, push_unique, pushed_unique, remove_key,
};
use crate::reserve::try_reserve_map;
use crate::tables::{changed, changed_count, copy_table, count_changed, restore_table, Registration};

verus! {

broadcast use vstd::std_specs::hash::group_hash_axioms;

/// The nonce a retired key was last registered with, or `Ambiguous` once two distinct
/// registrations of the key have retired without an intervening release.
#[derive(Copy, Clone, Debug, PartialEq, Eq, Structural)]
pub enum RetiredNonce {
    Unique(RegistrationNonce),
    Ambiguous,
}

/// Registration of one body and the objects attached to it.
pub struct BodyRegistration {
    pub nonce: RegistrationNonce,
    pub shapes: Vec<RawKey>,
    pub joints: Vec<RawKey>,
    pub chains: Vec<RawKey>,
}

/// Registration of one shape: its body and, for a chain segment, its chain.
#[derive(Copy, Clone, Debug, PartialEq, Eq, Structural)]
pub struct ShapeRegistration {
    pub nonce: RegistrationNonce,
    pub body: RawKey,
    pub chain: Option<RawKey>,
}

/// Registration of one joint: its two bodies and its kind.
#[derive(Copy, Clone, Debug, PartialEq, Eq, Structural)]
pub struct JointRegistration {
    pub nonce: RegistrationNonce,
    pub body_a: RawKey,
    pub body_b: RawKey,
    pub kind: JointType,
}

/// Registration of one chain: its body and its segments in native order.
pub struct ChainRegistration {
    pub nonce: RegistrationNonce,
    pub body: RawKey,
    pub segments: Vec<RawKey>,
}

impl BodyRegistration {
    fn fresh(nonce: RegistrationNonce) -> (r: Self)
        ensures
            r.nonce == nonce,
            r.shapes@ == Seq::<RawKey>::empty(),
            r.joints@ == Seq::<RawKey>::empty(),
            r.chains@ == Seq::<RawKey>::empty(),
    {
        BodyRegistration { nonce, shapes: Vec::new(), joints: Vec::new(), chains: Vec::new() }
    }

    /// A copy with the same nonce and relation lists.
    pub fn duplicate(&self) -> (r: Self)
        ensures
            r.nonce == self.nonce,
            r.shapes@ == self.shapes@,
            r.joints@ == self.joints@,
            r.chains@ == self.chains@,
    {
        BodyRegistration {
            nonce: self.nonce,
            shapes: copy_keys(&self.shapes),
            joints: copy_keys(&self.joints),
            chains: copy_keys(&self.chains),
        }
    }
}

impl ChainRegistration {
    /// A copy with the same nonce, body and segments.
    pub fn duplicate(&self) -> (r: Self)
        ensures
            r.nonce == self.nonce,
            r.body == self.body,
            r.segments@ == self.segments@,
    {
        ChainRegistration {
            nonce: self.nonce,
            body: self.body,
            segments: copy_keys(&self.segments),
        }
    }
}

/// Whether a retired entry is bounded by `last` and disjoint from the reserved nonces.
pub open spec fn retired_ok(r: RetiredNonce, last: u64, reserved: Set<u64>) -> bool {
    match r {
        RetiredNonce::Unique(n) => n.value_spec() <= last && !reserved.contains(n.value_spec()),
        RetiredNonce::Ambiguous => true,
    }
}

/// Whether a stored nonce is bounded by `last` and disjoint from the reserved nonces.
pub open spec fn stored_ok(n: RegistrationNonce, last: u64, reserved: Set<u64>) -> bool {
    0 < n.value_spec() <= last && !reserved.contains(n.value_spec())
}

/// The retired table after retiring `nonce` under key code `c`.
pub open spec fn retain_retired_spec(
    retired: Map<u64, RetiredNonce>,
    c: u64,
    nonce: RegistrationNonce,
) -> Map<u64, RetiredNonce> {
    if !retired.contains_key(c) {
        retired.insert(c, RetiredNonce::Unique(nonce))
    } else if retired[c] == RetiredNonce::Unique(nonce) {
        retired
    } else {
        retired.insert(c, RetiredNonce::Ambiguous)
    }
}

/// The retired table after retiring, under each code of `removed` that `active` registers, the
/// nonce `active` gives it.
pub open spec fn retire_all<T: Registration>(
    retired: Map<u64, RetiredNonce>,
    active: Map<u64, T>,
    removed: Set<u64>,
) -> Map<u64, RetiredNonce> {
    Map::new(
        |c: u64| retired.contains_key(c) || (removed.contains(c) && active.contains_key(c)),
        |c: u64|
            if removed.contains(c) && active.contains_key(c) {
                retain_retired_spec(retired, c, active[c].nonce_of())[c]
            } else {
                retired[c]
            },
    )
}

/// Retiring nothing leaves the retired table as it is.
proof fn lemma_retire_none<T: Registration>(retired: Map<u64, RetiredNonce>, active: Map<u64, T>)
    ensures
        retire_all(retired, active, Set::empty()) == retired,
{
    assert(retire_all(retired, active, Set::empty()) =~= retired);
}

/// Retiring `removed` and then, from what stays active, `more` is retiring both at once.
proof fn lemma_retire_all_compose<T: Registration>(
    retired: Map<u64, RetiredNonce>,
    active: Map<u64, T>,
    removed: Set<u64>,
    more: Set<u64>,
)
    ensures
        retire_all(retire_all(retired, active, removed), active.remove_keys(removed), more)
            == retire_all(retired, active, removed.union(more)),
{
    assert(retire_all(retire_all(retired, active, removed), active.remove_keys(removed), more)
        =~= retire_all(retired, active, removed.union(more)));
}

/// Retiring one active code is one retirement.
proof fn lemma_retire_one<T: Registration>(retired: Map<u64, RetiredNonce>, active: Map<u64, T>, c: u64)
    ensures
        retire_all(retired, active, set![c]) == if active.contains_key(c) {
            retain_retired_spec(retired, c, active[c].nonce_of())
        } else {
            retired
        },
{
    assert(retire_all(retired, active, set![c]) =~= if active.contains_key(c) {
        retain_retired_spec(retired, c, active[c].nonce_of())
    } else {
        retired
    });
}

/// Retiring one code after `removed` extends the removed set by that code.
proof fn lemma_retire_step<T: Registration>(
    retired: Map<u64, RetiredNonce>,
    active: Map<u64, T>,
    removed: Set<u64>,
    c: u64,
)
    ensures
        (if active.remove_keys(removed).contains_key(c) {
            retain_retired_spec(retire_all(retired, active, removed), c, active[c].nonce_of())
        } else {
            retire_all(retired, active, removed)
        }) == retire_all(retired, active, removed.insert(c)),
{
    lemma_retire_one(retire_all(retired, active, removed), active.remove_keys(removed), c);
    lemma_retire_all_compose(retired, active, removed, set![c]);
    assert(removed.union(set![c]) =~= removed.insert(c));
}

/// The nonce an output naming a slot resolves to, given its active and retired registrations.
pub open spec fn observed_nonce_spec(
    active: Option<RegistrationNonce>,
    retired: Option<RetiredNonce>,
) -> Option<RegistrationNonce> {
    match (active, retired) {
        (Some(a), None) => Some(a),
        (Some(a), Some(RetiredNonce::Unique(r))) => if a == r {
            Some(a)
        } else {
            None
        },
        (None, Some(RetiredNonce::Unique(r))) => Some(r),
        _ => None,
    }
}

/// Resolve the registration an output names: the active one, or the unique retired one.
///
/// A key whose active and retired registrations disagree, or which retired ambiguously, is
/// rejected with `invalid`.
pub fn resolve_observed_nonce(
    active: Option<RegistrationNonce>,
    retired: Option<RetiredNonce>,
    invalid: Error,
) -> (r: Result<RegistrationNonce>)
    ensures
        r matches Ok(n) ==> observed_nonce_spec(active, retired) == Some(n),
        r matches Err(e) ==> observed_nonce_spec(active, retired) is None && e == invalid,
        observed_nonce_spec(active, retired) is Some ==> r is Ok,
{
    match (active, retired) {
        (Some(active), None) => Ok(active),
        (Some(active), Some(RetiredNonce::Unique(retired))) => {
            if active == retired {
                Ok(active)
            } else {
                Err(invalid)
            }
        },
        (None, Some(RetiredNonce::Unique(retired))) => Ok(retired),
        _ => Err(invalid),
    }
}

/// Retire `nonce` under key code `c`.
fn retain_retired(retired: &mut HashMap<u64, RetiredNonce>, c: u64, nonce: RegistrationNonce)
    ensures
        final(retired)@ == retain_retired_spec(old(retired)@, c, nonce),
{
    match retired.get(&c) {
        None => {
            retired.insert(c, RetiredNonce::Unique(nonce));
        },
        Some(current) => {
            let same = match current {
                RetiredNonce::Unique(n) => *n == nonce,
                RetiredNonce::Ambiguous => false,
            };
            if !same {
                retired.insert(c, RetiredNonce::Ambiguous);
            }
        },
    }
}

/// Reserve room for `additional` active entries and for retiring every active entry.
fn reserve_table<V>(
    active: &mut HashMap<u64, V>,
    retired: &mut HashMap<u64, RetiredNonce>,
    additional: usize,
) -> (r: Result<()>)
    ensures
        final(active)@ == old(active)@,
        final(retired)@ == old(retired)@,
        old(active)@.len() + additional > usize::MAX ==> r == Err::<(), Error>(
            Error::ObjectIdentityExhausted,
        ),
        r matches Err(e) ==> (e == Error::ObjectIdentityExhausted && old(active)@.len()
            + additional > usize::MAX) || e == Error::IdentityTrackingAllocationFailed,
{
    let active_after = match active.len().checked_add(additional) {
        Some(n) => n,
        None => return Err(Error::ObjectIdentityExhausted),
    };
    if !try_reserve_map(active, additional) {
        return Err(Error::IdentityTrackingAllocationFailed);
    }
    if !try_reserve_map(retired, active_after) {
        return Err(Error::IdentityTrackingAllocationFailed);
    }
    Ok(())
}

/// Identity capacity and provenance reserved before a native body is created.
///
/// Dropping a reservation burns its nonce but does not publish any identity.
pub struct PendingBody {
    nonce: RegistrationNonce,
    base_revision: u128,
}

/// Identity capacity and provenance reserved before a native shape is created.
pub struct PendingShape {
    nonce: RegistrationNonce,
    body: BodyId,
    base_revision: u128,
}

/// Identity capacity and provenance reserved before a native joint is created.
pub struct PendingJoint {
    nonce: RegistrationNonce,
    body_a: BodyId,
    body_b: BodyId,
    kind: JointType,
    base_revision: u128,
}

/// A native body output validated against a reservation.
pub struct BoundBody {
    raw: RawId,
    nonce: RegistrationNonce,
    base_revision: u128,
}

/// A native shape output validated against a reservation.
pub struct BoundShape {
    raw: RawId,
    nonce: RegistrationNonce,
    body: BodyId,
    base_revision: u128,
}

/// A native joint output validated against a reservation.
pub struct BoundJoint {
    raw: RawId,
    nonce: RegistrationNonce,
    body_a: BodyId,
    body_b: BodyId,
    kind: JointType,
    base_revision: u128,
}

/// Owner-side identity registry for one world.
pub struct IdentityRegistry {
    brand: IdBrand,
    last_nonce: u64,
    revision: u128,
    bodies: HashMap<u64, BodyRegistration>,
    shapes: HashMap<u64, ShapeRegistration>,
    joints: HashMap<u64, JointRegistration>,
    chains: HashMap<u64, ChainRegistration>,
    retired_bodies: HashMap<u64, RetiredNonce>,
    retired_shapes: HashMap<u64, RetiredNonce>,
    retired_joints: HashMap<u64, RetiredNonce>,
    retired_chains: HashMap<u64, RetiredNonce>,
    reserved: Ghost<Set<u64>>,
}

impl PendingBody {
    pub closed spec fn nonce_spec(&self) -> RegistrationNonce {
        self.nonce
    }

    pub closed spec fn base_revision_spec(&self) -> u128 {
        self.base_revision
    }

    /// The nonce this reservation will publish.
    pub fn nonce(&self) -> (n: RegistrationNonce)
        ensures
            n == self.nonce_spec(),
    {
        self.nonce
    }
}

impl PendingShape {
    pub closed spec fn nonce_spec(&self) -> RegistrationNonce {
        self.nonce
    }

    pub closed spec fn body_spec(&self) -> BodyId {
        self.body
    }

    pub closed spec fn base_revision_spec(&self) -> u128 {
        self.base_revision
    }

    /// The body the shape will be attached to.
    pub fn body(&self) -> (b: BodyId)
        ensures
            b == self.body_spec(),
    {
        self.body
    }
}

impl PendingJoint {
    pub closed spec fn nonce_spec(&self) -> RegistrationNonce {
        self.nonce
    }

    pub closed spec fn kind_spec(&self) -> JointType {
        self.kind
    }

    pub closed spec fn bodies_spec(&self) -> (BodyId, BodyId) {
        (self.body_a, self.body_b)
    }

    pub closed spec fn base_revision_spec(&self) -> u128 {
        self.base_revision
    }

    /// The two bodies the joint will connect.
    pub fn bodies(&self) -> (b: (BodyId, BodyId))
        ensures
            b == self.bodies_spec(),
    {
        (self.body_a, self.body_b)
    }
}

impl BoundBody {
    pub closed spec fn raw_spec(&self) -> RawId {
        self.raw
    }

    pub closed spec fn nonce_spec(&self) -> RegistrationNonce {
        self.nonce
    }

    pub closed spec fn base_revision_spec(&self) -> u128 {
        self.base_revision
    }
}

impl BoundShape {
    pub closed spec fn raw_spec(&self) -> RawId {
        self.raw
    }

    pub closed spec fn nonce_spec(&self) -> RegistrationNonce {
        self.nonce
    }

    pub closed spec fn body_spec(&self) -> BodyId {
        self.body
    }

    pub closed spec fn base_revision_spec(&self) -> u128 {
        self.base_revision
    }
}

impl BoundJoint {
    pub closed spec fn raw_spec(&self) -> RawId {
        self.raw
    }

    pub closed spec fn nonce_spec(&self) -> RegistrationNonce {
        self.nonce
    }

    pub closed spec fn bodies_spec(&self) -> (BodyId, BodyId) {
        (self.body_a, self.body_b)
    }

    pub closed spec fn kind_spec(&self) -> JointType {
        self.kind
    }

    pub closed spec fn base_revision_spec(&self) -> u128 {
        self.base_revision
    }
}

impl IdentityRegistry {
    pub closed spec fn brand_spec(&self) -> IdBrand {
        self.brand
    }

    pub closed spec fn last_nonce(&self) -> u64 {
        self.last_nonce
    }

    pub closed spec fn revision(&self) -> u128 {
        self.revision
    }

    pub closed spec fn bodies(&self) -> Map<u64, BodyRegistration> {
        self.bodies@
    }

    pub closed spec fn shapes(&self) -> Map<u64, ShapeRegistration> {
        self.shapes@
    }

    pub closed spec fn joints(&self) -> Map<u64, JointRegistration> {
        self.joints@
    }

    pub closed spec fn chains(&self) -> Map<u64, ChainRegistration> {
        self.chains@
    }

    pub closed spec fn retired_bodies(&self) -> Map<u64, RetiredNonce> {
        self.retired_bodies@
    }

    pub closed spec fn retired_shapes(&self) -> Map<u64, RetiredNonce> {
        self.retired_shapes@
    }

    pub closed spec fn retired_joints(&self) -> Map<u64, RetiredNonce> {
        self.retired_joints@
    }

    pub closed spec fn retired_chains(&self) -> Map<u64, RetiredNonce> {
        self.retired_chains@
    }

    /// Nonces handed to reservations that have not been published yet.
    pub closed spec fn reserved(&self) -> Set<u64> {
        self.reserved@
    }

    /// The registry invariant: every stored nonce was allocated, no reserved nonce is stored,
    /// and every key code is a valid code.
    pub closed spec fn wf(&self) -> bool {
        &&& forall|c: u64| #[trigger]
            self.bodies@.contains_key(c) ==> c < KEY_CODE_LIMIT && stored_ok(
                self.bodies@[c].nonce,
                self.last_nonce,
                self.reserved@,
            )
        &&& forall|c: u64| #[trigger]
            self.shapes@.contains_key(c) ==> c < KEY_CODE_LIMIT && stored_ok(
                self.shapes@[c].nonce,
                self.last_nonce,
                self.reserved@,
            )
        &&& forall|c: u64| #[trigger]
            self.joints@.contains_key(c) ==> c < KEY_CODE_LIMIT && stored_ok(
                self.joints@[c].nonce,
                self.last_nonce,
                self.reserved@,
            )
        &&& forall|c: u64| #[trigger]
            self.chains@.contains_key(c) ==> c < KEY_CODE_LIMIT && stored_ok(
                self.chains@[c].nonce,
                self.last_nonce,
                self.reserved@,
            )
        &&& forall|c: u64| #[trigger]
            self.retired_bodies@.contains_key(c) ==> retired_ok(
                self.retired_bodies@[c],
                self.last_nonce,
                self.reserved@,
            )
        &&& forall|c: u64| #[trigger]
            self.retired_shapes@.contains_key(c) ==> retired_ok(
                self.retired_shapes@[c],
                self.last_nonce,
                self.reserved@,
            )
        &&& forall|c: u64| #[trigger]
            self.retired_joints@.contains_key(c) ==> retired_ok(
                self.retired_joints@[c],
                self.last_nonce,
                self.reserved@,
            )
        &&& forall|c: u64| #[trigger]
            self.retired_chains@.contains_key(c) ==> retired_ok(
                self.retired_chains@[c],
                self.last_nonce,
                self.reserved@,
            )
        &&& forall|n: u64| #[trigger] self.reserved@.contains(n) ==> 0 < n <= self.last_nonce
    }

    /// Whether `id` names the active registration of its slot in this registry.
    pub open spec fn body_active(&self, id: BodyId) -> bool {
        &&& id.brand_spec() == self.brand_spec()
        &&& self.bodies().contains_key(id.raw_spec().key_spec().code_spec())
        &&& self.bodies()[id.raw_spec().key_spec().code_spec()].nonce == id.nonce_spec()
    }

    pub open spec fn shape_active(&self, id: ShapeId) -> bool {
        &&& id.brand_spec() == self.brand_spec()
        &&& self.shapes().contains_key(id.raw_spec().key_spec().code_spec())
        &&& self.shapes()[id.raw_spec().key_spec().code_spec()].nonce == id.nonce_spec()
    }

    pub open spec fn joint_active(&self, id: JointId) -> bool {
        &&& id.brand_spec() == self.brand_spec()
        &&& self.joints().contains_key(id.raw_spec().key_spec().code_spec())
        &&& self.joints()[id.raw_spec().key_spec().code_spec()].nonce == id.nonce_spec()
    }

    pub open spec fn chain_active(&self, id: ChainId) -> bool {
        &&& id.brand_spec() == self.brand_spec()
        &&& self.chains().contains_key(id.raw_spec().key_spec().code_spec())
        &&& self.chains()[id.raw_spec().key_spec().code_spec()].nonce == id.nonce_spec()
    }

    /// Whether the slot of `id` holds a registration with `id`'s nonce (the brand is not compared).
    pub open spec fn body_registered(&self, id: BodyId) -> bool {
        &&& self.bodies().contains_key(id.raw_spec().key_spec().code_spec())
        &&& self.bodies()[id.raw_spec().key_spec().code_spec()].nonce == id.nonce_spec()
    }

    /// Whether slot code `c` is active or retired in the body tables.
    pub open spec fn body_slot_taken(&self, c: u64) -> bool {
        self.bodies().contains_key(c) || self.retired_bodies().contains_key(c)
    }

    pub open spec fn shape_slot_taken(&self, c: u64) -> bool {
        self.shapes().contains_key(c) || self.retired_shapes().contains_key(c)
    }

    pub open spec fn joint_slot_taken(&self, c: u64) -> bool {
        self.joints().contains_key(c) || self.retired_joints().contains_key(c)
    }

    pub open spec fn chain_slot_taken(&self, c: u64) -> bool {
        self.chains().contains_key(c) || self.retired_chains().contains_key(c)
    }

    /// Every table, the revision and the brand are unchanged.
    pub open spec fn same_tables(&self, other: &Self) -> bool {
        &&& self.brand_spec() == other.brand_spec()
        &&& self.revision() == other.revision()
        &&& self.bodies() == other.bodies()
        &&& self.shapes() == other.shapes()
        &&& self.joints() == other.joints()
        &&& self.chains() == other.chains()
        &&& self.retired_bodies() == other.retired_bodies()
        &&& self.retired_shapes() == other.retired_shapes()
        &&& self.retired_joints() == other.retired_joints()
        &&& self.retired_chains() == other.retired_chains()
    }

    /// `new` is a successor of `old`: nonces only grow, new reservations are fresh, and every
    /// active registration of `new` was active under the same nonce in `old`, was reserved in
    /// `old`, or carries a nonce `old` had not allocated yet.
    pub open spec fn evolves(old: &Self, new: &Self) -> bool {
        &&& old.brand_spec() == new.brand_spec()
        &&& old.last_nonce() <= new.last_nonce()
        &&& forall|n: u64| #[trigger]
            new.reserved().contains(n) ==> old.reserved().contains(n) || n > old.last_nonce()
        &&& forall|c: u64| #[trigger]
            new.bodies().contains_key(c) ==> {
                let n = new.bodies()[c].nonce;
                (old.bodies().contains_key(c) && old.bodies()[c].nonce == n) || old.reserved().contains(
                    n.value_spec(),
                ) || n.value_spec() > old.last_nonce()
            }
        &&& forall|c: u64| #[trigger]
            new.shapes().contains_key(c) ==> {
                let n = new.shapes()[c].nonce;
                (old.shapes().contains_key(c) && old.shapes()[c].nonce == n) || old.reserved().contains(
                    n.value_spec(),
                ) || n.value_spec() > old.last_nonce()
            }
        &&& forall|c: u64| #[trigger]
            new.joints().contains_key(c) ==> {
                let n = new.joints()[c].nonce;
                (old.joints().contains_key(c) && old.joints()[c].nonce == n) || old.reserved().contains(
                    n.value_spec(),
                ) || n.value_spec() > old.last_nonce()
            }
        &&& forall|c: u64| #[trigger]
            new.chains().contains_key(c) ==> {
                let n = new.chains()[c].nonce;
                (old.chains().contains_key(c) && old.chains()[c].nonce == n) || old.reserved().contains(
                    n.value_spec(),
                ) || n.value_spec() > old.last_nonce()
            }
    }

    /// An empty registry for the world branded `brand`.
    pub fn new(brand: IdBrand) -> (r: Self)
        ensures
            r.wf(),
            r.brand_spec() == brand,
            r.last_nonce() == 0,
            r.revision() == 0,
            r.bodies().is_empty(),
            r.shapes().is_empty(),
            r.joints().is_empty(),
            r.chains().is_empty(),
            r.retired_bodies().is_empty(),
            r.retired_shapes().is_empty(),
            r.retired_joints().is_empty(),
            r.retired_chains().is_empty(),
            r.reserved().is_empty(),
    {
        IdentityRegistry {
            brand,
            last_nonce: 0,
            revision: 0,
            bodies: HashMap::new(),
            shapes: HashMap::new(),
            joints: HashMap::new(),
            chains: HashMap::new(),
            retired_bodies: HashMap::new(),
            retired_shapes: HashMap::new(),
            retired_joints: HashMap::new(),
            retired_chains: HashMap::new(),
            reserved: Ghost(Set::empty()),
        }
    }

    /// The brand of the world this registry belongs to.
    pub fn brand(&self) -> (b: IdBrand)
        ensures
            b == self.brand_spec(),
    {
        self.brand
    }

    /// The last nonce allocated; every issued nonce is at most this value.
    pub fn last_allocated_nonce(&self) -> (n: u64)
        ensures
            n == self.last_nonce(),
    {
        self.last_nonce
    }

    /// Set the last allocated nonce; lets a test exercise nonce exhaustion.
    pub fn set_last_nonce_for_test(&mut self, value: u64)
        requires
            old(self).wf(),
            old(self).last_nonce() <= value,
        ensures
            final(self).wf(),
            final(self).last_nonce() == value,
            final(self).same_tables(old(self)),
            final(self).reserved() == old(self).reserved(),
            Self::evolves(old(self), final(self)),
    {
        self.last_nonce = value;
    }

    fn advance_revision(&mut self)
        ensures
            final(self).revision() == old(self).revision().wrapping_add(1),
            final(self).brand_spec() == old(self).brand_spec(),
            final(self).last_nonce() == old(self).last_nonce(),
            final(self).reserved() == old(self).reserved(),
            final(self).bodies() == old(self).bodies(),
            final(self).shapes() == old(self).shapes(),
            final(self).joints() == old(self).joints(),
            final(self).chains() == old(self).chains(),
            final(self).retired_bodies() == old(self).retired_bodies(),
            final(self).retired_shapes() == old(self).retired_shapes(),
            final(self).retired_joints() == old(self).retired_joints(),
            final(self).retired_chains() == old(self).retired_chains(),
    {
        self.revision = self.revision.wrapping_add(1);
    }

    /// Reserve `count` consecutive nonces; returns the last nonce allocated before them.
    fn reserve_nonce_range(&mut self, count: u64) -> (r: Result<u64>)
        requires
            old(self).wf(),
            count > 0,
        ensures
            final(self).wf(),
            final(self).same_tables(old(self)),
            r matches Ok(previous) ==> previous == old(self).last_nonce() && final(self).last_nonce() == old(self).last_nonce() + count && final(self).reserved()
                == old(self).reserved().union(
                Set::new(|n: u64| old(self).last_nonce() < n <= old(self).last_nonce() + count),
            ),
            r matches Err(e) ==> e == Error::ObjectIdentityExhausted && final(self).last_nonce()
                == old(self).last_nonce() && final(self).reserved() == old(self).reserved(),
            r is Ok <==> old(self).last_nonce() + count <= u64::MAX,
            Self::evolves(old(self), final(self)),
    {
        match self.last_nonce.checked_add(count) {
            Some(next) => {
                let previous = self.last_nonce;
                self.last_nonce = next;
                proof {
                    self.reserved@ = self.reserved@.union(
                        Set::new(|n: u64| previous < n <= previous + count),
                    );
                }
                Ok(previous)
            },
            None => Err(Error::ObjectIdentityExhausted),
        }
    }

    /// Allocate the next nonce of this registry's single monotonic sequence.
    pub fn allocate_nonce(&mut self) -> (r: Result<RegistrationNonce>)
        requires
            old(self).wf(),
        ensures
            final(self).wf(),
            final(self).same_tables(old(self)),
            r matches Ok(n) ==> n.value_spec() == old(self).last_nonce() + 1 && final(self).last_nonce() == n.value_spec() && final(self).reserved() == old(self).reserved().insert(n.value_spec()),
            r matches Err(e) ==> e == Error::ObjectIdentityExhausted && final(self).last_nonce()
                == old(self).last_nonce() && final(self).reserved() == old(self).reserved(),
            r is Ok <==> old(self).last_nonce() < u64::MAX,
            Self::evolves(old(self), final(self)),
    {
        let previous = self.reserve_nonce_range(1)?;
        proof {
            assert(self.reserved@ =~= old(self).reserved().insert((previous + 1) as u64));
        }
        Ok(RegistrationNonce::from_positive(previous + 1))
    }

    /// Allocate `count` consecutive nonces from the same sequence as [`Self::allocate_nonce`].
    pub fn allocate_nonces(&mut self, count: usize) -> (r: Result<Vec<RegistrationNonce>>)
        requires
            old(self).wf(),
        ensures
            final(self).wf(),
            final(self).same_tables(old(self)),
            r matches Ok(v) ==> v@.len() == count && (forall|i: int|
                0 <= i < count ==> #[trigger] v@[i].value_spec() == old(self).last_nonce() + 1
                    + i) && final(self).last_nonce() == old(self).last_nonce() + count && final(self).reserved() == old(self).reserved().union(
                Set::new(|n: u64| old(self).last_nonce() < n <= old(self).last_nonce() + count),
            ),
            r matches Err(e) ==> e == Error::ObjectIdentityExhausted && final(self).last_nonce()
                == old(self).last_nonce() && final(self).reserved() == old(self).reserved(),
            r is Ok <==> old(self).last_nonce() + count <= u64::MAX,
            Self::evolves(old(self), final(self)),
    {
        if count as u64 > u64::MAX {
            return Err(Error::ObjectIdentityExhausted);
        }
        let count64 = count as u64;
        if count64 == 0 {
            proof {
                assert(self.reserved@ =~= old(self).reserved().union(
                    Set::new(|n: u64| old(self).last_nonce() < n <= old(self).last_nonce() + 0),
                ));
            }
            return Ok(Vec::new());
        }
        let previous = self.reserve_nonce_range(count64)?;
        let mut nonces: Vec<RegistrationNonce> = Vec::new();
        let mut done: u64 = 0;
        while done < count64
            invariant
                done <= count64,
                previous + count64 <= u64::MAX,
                nonces@.len() == done,
                forall|i: int|
                    0 <= i < nonces@.len() ==> #[trigger] nonces@[i].value_spec() == previous + 1
                        + i,
            decreases count64 - done,
        {
            nonces.push(RegistrationNonce::from_positive(previous + done + 1));
            done = done + 1;
        }
        Ok(nonces)
    }

    /// Whether the active table holds the body slot of `raw`.
    pub fn contains_body_raw(&self, raw: RawId) -> (r: bool)
        ensures
            r == self.bodies().contains_key(raw.key_spec().code_spec()),
    {
        self.bodies.contains_key(&raw.key().code())
    }

    pub fn contains_shape_raw(&self, raw: RawId) -> (r: bool)
        ensures
            r == self.shapes().contains_key(raw.key_spec().code_spec()),
    {
        self.shapes.contains_key(&raw.key().code())
    }

    pub fn contains_joint_raw(&self, raw: RawId) -> (r: bool)
        ensures
            r == self.joints().contains_key(raw.key_spec().code_spec()),
    {
        self.joints.contains_key(&raw.key().code())
    }

    pub fn contains_chain_raw(&self, raw: RawId) -> (r: bool)
        ensures
            r == self.chains().contains_key(raw.key_spec().code_spec()),
    {
        self.chains.contains_key(&raw.key().code())
    }

    /// Whether `id` names the active registration of its body slot.
    pub fn contains_body(&self, id: BodyId) -> (r: bool)
        ensures
            r == self.body_active(id),
    {
        if id.brand() != self.brand {
            return false;
        }
        match self.bodies.get(&id.into_raw().key().code()) {
            Some(entry) => entry.nonce == id.registration_nonce(),
            None => false,
        }
    }

    pub fn contains_shape(&self, id: ShapeId) -> (r: bool)
        ensures
            r == self.shape_active(id),
    {
        if id.brand() != self.brand {
            return false;
        }
        match self.shapes.get(&id.into_raw().key().code()) {
            Some(entry) => entry.nonce == id.registration_nonce(),
            None => false,
        }
    }

    pub fn contains_joint(&self, id: JointId) -> (r: bool)
        ensures
            r == self.joint_active(id),
    {
        if id.brand() != self.brand {
            return false;
        }
        match self.joints.get(&id.into_raw().key().code()) {
            Some(entry) => entry.nonce == id.registration_nonce(),
            None => false,
        }
    }

    pub fn contains_chain(&self, id: ChainId) -> (r: bool)
        ensures
            r == self.chain_active(id),
    {
        if id.brand() != self.brand {
            return false;
        }
        match self.chains.get(&id.into_raw().key().code()) {
            Some(entry) => entry.nonce == id.registration_nonce(),
            None => false,
        }
    }

    /// The kind of the joint `id` names.
    pub fn joint_type(&self, id: JointId) -> (r: Result<JointType>)
        ensures
            r matches Ok(k) ==> self.joint_active(id) && k == self.joints()[id.raw_spec().key_spec().code_spec()].kind,
            r matches Err(e) ==> !self.joint_active(id) && (if id.brand_spec()
                != self.brand_spec() {
                e == Error::WrongWorld
            } else {
                e == Error::InvalidJointId
            }),
    {
        check_brand(self.brand, id.brand())?;
        match self.joints.get(&id.into_raw().key().code()) {
            Some(entry) => {
                if entry.nonce != id.registration_nonce() {
                    Err(Error::InvalidJointId)
                } else {
                    Ok(entry.kind)
                }
            },
            None => Err(Error::InvalidJointId),
        }
    }
}


/// Which relation list of a body registration.
#[derive(Copy, Clone, Debug, PartialEq, Eq, Structural)]
pub enum BodyList {
    Shapes,
    Joints,
    Chains,
}

/// The relation list `l` of body registration `r`.
pub open spec fn body_list(r: BodyRegistration, l: BodyList) -> Seq<RawKey> {
    match l {
        BodyList::Shapes => r.shapes@,
        BodyList::Joints => r.joints@,
        BodyList::Chains => r.chains@,
    }
}

/// `new` is `old` with list `l` of body `bc` replaced by `after` (when `bc` is registered).
pub open spec fn body_list_updated(
    old: Map<u64, BodyRegistration>,
    new: Map<u64, BodyRegistration>,
    bc: u64,
    l: BodyList,
    after: Seq<RawKey>,
) -> bool {
    &&& new.dom() == old.dom()
    &&& forall|c: u64| #[trigger] new.contains_key(c) && c != bc ==> new[c] == old[c]
    &&& old.contains_key(bc) ==> {
        &&& new[bc].nonce == old[bc].nonce
        &&& body_list(new[bc], l) == after
        &&& forall|l2: BodyList| l2 != l ==> #[trigger] body_list(new[bc], l2) == body_list(old[bc], l2)
    }
}

/// The classification of a failed identity reservation.
pub open spec fn reservation_failure(e: Error, last: u64, table_full: bool) -> bool {
    e == Error::IdentityTrackingAllocationFailed || (e == Error::ObjectIdentityExhausted && (
    last == u64::MAX || table_full))
}

impl IdentityRegistry {
    /// Replace relation list `l` of body `bc` by its image under the given update.
    fn update_body_list(&mut self, bc: u64, l: BodyList, key: RawKey, push: bool)
        ensures
            body_list_updated(
                old(self).bodies(),
                final(self).bodies(),
                bc,
                l,
                if old(self).bodies().contains_key(bc) {
                    if push {
                        pushed_unique(body_list(old(self).bodies()[bc], l), key)
                    } else {
                        body_list(old(self).bodies()[bc], l).filter(differs_from(key))
                    }
                } else {
                    Seq::empty()
                },
            ),
            final(self).brand_spec() == old(self).brand_spec(),
            final(self).revision() == old(self).revision(),
            final(self).last_nonce() == old(self).last_nonce(),
            final(self).reserved() == old(self).reserved(),
            final(self).shapes() == old(self).shapes(),
            final(self).joints() == old(self).joints(),
            final(self).chains() == old(self).chains(),
            final(self).retired_bodies() == old(self).retired_bodies(),
            final(self).retired_shapes() == old(self).retired_shapes(),
            final(self).retired_joints() == old(self).retired_joints(),
            final(self).retired_chains() == old(self).retired_chains(),
    {
        match self.bodies.remove(&bc) {
            Some(mut reg) => {
                match l {
                    BodyList::Shapes => {
                        if push {
                            push_unique(&mut reg.shapes, key);
                        } else {
                            remove_key(&mut reg.shapes, key);
                        }
                    },
                    BodyList::Joints => {
                        if push {
                            push_unique(&mut reg.joints, key);
                        } else {
                            remove_key(&mut reg.joints, key);
                        }
                    },
                    BodyList::Chains => {
                        if push {
                            push_unique(&mut reg.chains, key);
                        } else {
                            remove_key(&mut reg.chains, key);
                        }
                    },
                }
                self.bodies.insert(bc, reg);
                proof {
                    assert(self.bodies@.dom() =~= old(self).bodies().dom());
                    assert forall|l2: BodyList| l2 != l implies #[trigger] body_list(self.bodies@[bc], l2)
                        == body_list(old(self).bodies()[bc], l2) by {}
                }
            },
            None => {
                assert(self.bodies@ =~= old(self).bodies());
            },
        }
    }

    /// Require that `id` names the active registration of body slot `key`.
    fn require_body(&self, key: RawKey, id: BodyId) -> (r: Result<()>)
        ensures
            r is Ok <==> (self.bodies().contains_key(key.code_spec()) && self.bodies()[key.code_spec()].nonce == id.nonce_spec()),
            r matches Err(e) ==> e == Error::InvalidBodyId,
    {
        match self.bodies.get(&key.code()) {
            Some(reg) => {
                if reg.nonce == id.registration_nonce() {
                    Ok(())
                } else {
                    Err(Error::InvalidBodyId)
                }
            },
            None => Err(Error::InvalidBodyId),
        }
    }

    /// Reserve identity capacity and a nonce for a body about to be created natively.
    pub fn reserve_body(&mut self) -> (r: Result<PendingBody>)
        requires
            old(self).wf(),
        ensures
            final(self).wf(),
            final(self).same_tables(old(self)),
            Self::evolves(old(self), final(self)),
            r matches Ok(p) ==> p.nonce_spec().value_spec() == old(self).last_nonce() + 1
                && final(self).last_nonce() == old(self).last_nonce() + 1
                && final(self).reserved() == old(self).reserved().insert(p.nonce_spec().value_spec())
                && p.base_revision_spec() == old(self).revision(),
            r matches Err(e) ==> final(self).last_nonce() == old(self).last_nonce()
                && final(self).reserved() == old(self).reserved()
                && reservation_failure(e, old(self).last_nonce(), old(self).bodies().len() + 1 > usize::MAX),
            old(self).last_nonce() < u64::MAX && old(self).bodies().len() + 1 <= usize::MAX ==>
                r is Ok || r == Err::<PendingBody, Error>(Error::IdentityTrackingAllocationFailed),
    {
        reserve_table(&mut self.bodies, &mut self.retired_bodies, 1)?;
        let nonce = self.allocate_nonce()?;
        Ok(PendingBody { nonce, base_revision: self.revision })
    }

    /// Reserve identity capacity and a nonce for a shape about to be attached to `body`.
    pub fn reserve_shape(&mut self, body: BodyId) -> (r: Result<PendingShape>)
        requires
            old(self).wf(),
        ensures
            final(self).wf(),
            final(self).same_tables(old(self)),
            Self::evolves(old(self), final(self)),
            r matches Ok(p) ==> old(self).body_active(body)
                && p.nonce_spec().value_spec() == old(self).last_nonce() + 1
                && final(self).last_nonce() == old(self).last_nonce() + 1
                && final(self).reserved() == old(self).reserved().insert(p.nonce_spec().value_spec())
                && p.body_spec() == body && p.base_revision_spec() == old(self).revision(),
            r matches Err(e) ==> final(self).last_nonce() == old(self).last_nonce()
                && final(self).reserved() == old(self).reserved() && (
                if body.brand_spec() != old(self).brand_spec() {
                    e == Error::WrongWorld
                } else if !old(self).body_active(body) {
                    e == Error::InvalidBodyId
                } else {
                    reservation_failure(e, old(self).last_nonce(), old(self).shapes().len() + 1 > usize::MAX)
                }),
            old(self).body_active(body) && old(self).last_nonce() < u64::MAX
                && old(self).shapes().len() + 1 <= usize::MAX ==> r is Ok || r
                == Err::<PendingShape, Error>(Error::IdentityTrackingAllocationFailed),
    {
        check_brand(self.brand, body.brand())?;
        let body_key = body.into_raw().key();
        self.require_body(body_key, body)?;
        reserve_table(&mut self.shapes, &mut self.retired_shapes, 1)?;
        let nonce = self.allocate_nonce()?;
        Ok(PendingShape { nonce, body, base_revision: self.revision })
    }

    /// Reserve identity capacity and a nonce for a joint about to connect two bodies.
    pub fn reserve_joint(&mut self, body_a: BodyId, body_b: BodyId, kind: JointType) -> (r: Result<PendingJoint>)
        requires
            old(self).wf(),
        ensures
            final(self).wf(),
            final(self).same_tables(old(self)),
            Self::evolves(old(self), final(self)),
            r matches Ok(p) ==> old(self).body_active(body_a) && old(self).body_active(body_b)
                && p.nonce_spec().value_spec() == old(self).last_nonce() + 1
                && final(self).last_nonce() == old(self).last_nonce() + 1
                && final(self).reserved() == old(self).reserved().insert(p.nonce_spec().value_spec())
                && p.bodies_spec() == (body_a, body_b) && p.kind_spec() == kind
                && p.base_revision_spec() == old(self).revision(),
            r matches Err(e) ==> final(self).last_nonce() == old(self).last_nonce()
                && final(self).reserved() == old(self).reserved() && (
                if body_a.brand_spec() != old(self).brand_spec() || body_b.brand_spec() != old(self).brand_spec() {
                    e == Error::WrongWorld
                } else if !old(self).body_active(body_a) || !old(self).body_active(body_b) {
                    e == Error::InvalidBodyId
                } else {
                    reservation_failure(e, old(self).last_nonce(), old(self).joints().len() + 1 > usize::MAX)
                }),
            old(self).body_active(body_a) && old(self).body_active(body_b) && old(self).last_nonce() < u64::MAX
                && old(self).joints().len() + 1 <= usize::MAX ==> r is Ok || r
                == Err::<PendingJoint, Error>(Error::IdentityTrackingAllocationFailed),
    {
        check_brand(self.brand, body_a.brand())?;
        check_brand(self.brand, body_b.brand())?;
        let key_a = body_a.into_raw().key();
        let key_b = body_b.into_raw().key();
        self.require_body(key_a, body_a)?;
        self.require_body(key_b, body_b)?;
        reserve_table(&mut self.joints, &mut self.retired_joints, 1)?;
        let nonce = self.allocate_nonce()?;
        Ok(PendingJoint { nonce, body_a, body_b, kind, base_revision: self.revision })
    }
}

impl PendingBody {
    /// Validate a native body output against this reservation.
    pub fn bind(self, registry: &IdentityRegistry, raw: RawId) -> (r: Result<BoundBody>)
        ensures
            r matches Ok(b) ==> b.raw_spec() == raw && b.nonce_spec() == self.nonce_spec()
                && b.base_revision_spec() == self.base_revision_spec(),
            r is Ok <==> registry.brand_spec().owns_raw(raw) && registry.revision() == self.base_revision_spec()
                && !registry.body_slot_taken(raw.key_spec().code_spec()),
            r matches Err(e) ==> if !registry.brand_spec().owns_raw(raw) {
                e == Error::WrongWorld
            } else if registry.revision() != self.base_revision_spec() {
                e == Error::WorldBusy
            } else {
                e == Error::ObjectIdentityExhausted
            },
    {
        registry.brand.check_raw(raw)?;
        let c = raw.key().code();
        ensure_revision(registry.revision, self.base_revision)?;
        if registry.bodies.contains_key(&c) || registry.retired_bodies.contains_key(&c) {
            return Err(Error::ObjectIdentityExhausted);
        }
        Ok(BoundBody { raw, nonce: self.nonce, base_revision: self.base_revision })
    }
}

impl PendingShape {
    /// Validate a native shape output against this reservation.
    pub fn bind(self, registry: &IdentityRegistry, raw: RawId) -> (r: Result<BoundShape>)
        ensures
            r matches Ok(b) ==> b.raw_spec() == raw && b.nonce_spec() == self.nonce_spec()
                && b.body_spec() == self.body_spec() && b.base_revision_spec() == self.base_revision_spec(),
            r is Ok <==> registry.brand_spec().owns_raw(raw) && registry.revision() == self.base_revision_spec()
                && registry.body_registered(self.body_spec()) && !registry.shape_slot_taken(raw.key_spec().code_spec()),
            r matches Err(e) ==> if !registry.brand_spec().owns_raw(raw) {
                e == Error::WrongWorld
            } else if registry.revision() != self.base_revision_spec() {
                e == Error::WorldBusy
            } else if !registry.body_registered(self.body_spec()) {
                e == Error::InvalidBodyId
            } else {
                e == Error::ObjectIdentityExhausted
            },
    {
        registry.brand.check_raw(raw)?;
        let c = raw.key().code();
        ensure_revision(registry.revision, self.base_revision)?;
        registry.require_body(self.body.into_raw().key(), self.body)?;
        if registry.shapes.contains_key(&c) || registry.retired_shapes.contains_key(&c) {
            return Err(Error::ObjectIdentityExhausted);
        }
        Ok(BoundShape {
            raw,
            nonce: self.nonce,
            body: self.body,
            base_revision: self.base_revision,
        })
    }
}


impl PendingJoint {
    /// Validate a native joint output against this reservation.
    pub fn bind(self, registry: &IdentityRegistry, raw: RawId) -> (r: Result<BoundJoint>)
        ensures
            r matches Ok(b) ==> b.raw_spec() == raw && b.nonce_spec() == self.nonce_spec()
                && b.bodies_spec() == self.bodies_spec() && b.kind_spec() == self.kind_spec()
                && b.base_revision_spec() == self.base_revision_spec(),
            r is Ok <==> registry.brand_spec().owns_raw(raw) && registry.revision() == self.base_revision_spec()
                && registry.body_registered(self.bodies_spec().0) && registry.body_registered(self.bodies_spec().1)
                && !registry.joint_slot_taken(raw.key_spec().code_spec()),
            r matches Err(e) ==> if !registry.brand_spec().owns_raw(raw) {
                e == Error::WrongWorld
            } else if registry.revision() != self.base_revision_spec() {
                e == Error::WorldBusy
            } else if !registry.body_registered(self.bodies_spec().0) || !registry.body_registered(self.bodies_spec().1) {
                e == Error::InvalidBodyId
            } else {
                e == Error::ObjectIdentityExhausted
            },
    {
        registry.brand.check_raw(raw)?;
        let c = raw.key().code();
        ensure_revision(registry.revision, self.base_revision)?;
        registry.require_body(self.body_a.into_raw().key(), self.body_a)?;
        registry.require_body(self.body_b.into_raw().key(), self.body_b)?;
        if registry.joints.contains_key(&c) || registry.retired_joints.contains_key(&c) {
            return Err(Error::ObjectIdentityExhausted);
        }
        Ok(BoundJoint {
            raw,
            nonce: self.nonce,
            body_a: self.body_a,
            body_b: self.body_b,
            kind: self.kind,
            base_revision: self.base_revision,
        })
    }
}

impl BoundBody {
    /// Publish the bound body and return its safe id.
    pub fn publish(self, registry: &mut IdentityRegistry) -> (id: BodyId)
        requires
            old(registry).wf(),
            old(registry).revision() == self.base_revision_spec(),
            !old(registry).bodies().contains_key(self.raw_spec().key_spec().code_spec()),
            old(registry).reserved().contains(self.nonce_spec().value_spec()),
        ensures
            final(registry).wf(),
            IdentityRegistry::evolves(old(registry), final(registry)),
            id.raw_spec() == self.raw_spec() && id.nonce_spec() == self.nonce_spec()
                && id.brand_spec() == old(registry).brand_spec(),
            final(registry).body_active(id),
            !final(registry).reserved().contains(id.nonce_spec().value_spec()),
            id.nonce_spec().value_spec() <= final(registry).last_nonce(),
            final(registry).bodies().dom() == old(registry).bodies().dom().insert(self.raw_spec().key_spec().code_spec()),
            forall|c: u64| #[trigger] old(registry).bodies().contains_key(c) ==> final(registry).bodies()[c] == old(registry).bodies()[c],
            final(registry).bodies()[self.raw_spec().key_spec().code_spec()].shapes@.len() == 0,
            final(registry).bodies()[self.raw_spec().key_spec().code_spec()].joints@.len() == 0,
            final(registry).bodies()[self.raw_spec().key_spec().code_spec()].chains@.len() == 0,
            final(registry).shapes() == old(registry).shapes(),
            final(registry).joints() == old(registry).joints(),
            final(registry).chains() == old(registry).chains(),
            final(registry).retired_bodies() == old(registry).retired_bodies(),
            final(registry).retired_shapes() == old(registry).retired_shapes(),
            final(registry).retired_joints() == old(registry).retired_joints(),
            final(registry).retired_chains() == old(registry).retired_chains(),
            final(registry).last_nonce() == old(registry).last_nonce(),
            final(registry).reserved() == old(registry).reserved().remove(self.nonce_spec().value_spec()),
            final(registry).revision() == old(registry).revision().wrapping_add(1),
    {
        let c = self.raw.key().code();
        registry.bodies.insert(c, BodyRegistration::fresh(self.nonce));
        proof {
            registry.reserved@ = registry.reserved@.remove(self.nonce.value_spec());
        }
        registry.advance_revision();
        BodyId::issue(registry.brand, self.raw, self.nonce)
    }
}

impl BoundShape {
    /// Publish the bound shape, attach it to its body and return its safe id.
    pub fn publish(self, registry: &mut IdentityRegistry) -> (id: ShapeId)
        requires
            old(registry).wf(),
            old(registry).revision() == self.base_revision_spec(),
            !old(registry).shapes().contains_key(self.raw_spec().key_spec().code_spec()),
            old(registry).body_registered(self.body_spec()),
            old(registry).reserved().contains(self.nonce_spec().value_spec()),
        ensures
            final(registry).wf(),
            IdentityRegistry::evolves(old(registry), final(registry)),
            id.raw_spec() == self.raw_spec() && id.nonce_spec() == self.nonce_spec()
                && id.brand_spec() == old(registry).brand_spec(),
            final(registry).shape_active(id),
            !final(registry).reserved().contains(id.nonce_spec().value_spec()),
            id.nonce_spec().value_spec() <= final(registry).last_nonce(),
            final(registry).shapes() == old(registry).shapes().insert(
                self.raw_spec().key_spec().code_spec(),
                ShapeRegistration { nonce: self.nonce_spec(), body: self.body_spec().raw_spec().key_spec(), chain: None },
            ),
            body_list_updated(
                old(registry).bodies(),
                final(registry).bodies(),
                self.body_spec().raw_spec().key_spec().code_spec(),
                BodyList::Shapes,
                pushed_unique(
                    body_list(old(registry).bodies()[self.body_spec().raw_spec().key_spec().code_spec()], BodyList::Shapes),
                    self.raw_spec().key_spec(),
                ),
            ),
            final(registry).joints() == old(registry).joints(),
            final(registry).chains() == old(registry).chains(),
            final(registry).retired_bodies() == old(registry).retired_bodies(),
            final(registry).retired_shapes() == old(registry).retired_shapes(),
            final(registry).retired_joints() == old(registry).retired_joints(),
            final(registry).retired_chains() == old(registry).retired_chains(),
            final(registry).last_nonce() == old(registry).last_nonce(),
            final(registry).reserved() == old(registry).reserved().remove(self.nonce_spec().value_spec()),
            final(registry).revision() == old(registry).revision().wrapping_add(1),
    {
        let key = self.raw.key();
        let c = key.code();
        let body_key = self.body.into_raw().key();
        registry.shapes.insert(c, ShapeRegistration { nonce: self.nonce, body: body_key, chain: None });
        registry.update_body_list(body_key.code(), BodyList::Shapes, key, true);
        proof {
            registry.reserved@ = registry.reserved@.remove(self.nonce.value_spec());
        }
        registry.advance_revision();
        ShapeId::issue(registry.brand, self.raw, self.nonce)
    }
}

impl BoundJoint {
    /// Publish the bound joint, attach it to both bodies and return its safe id.
    pub fn publish(self, registry: &mut IdentityRegistry) -> (id: JointId)
        requires
            old(registry).wf(),
            old(registry).revision() == self.base_revision_spec(),
            !old(registry).joints().contains_key(self.raw_spec().key_spec().code_spec()),
            old(registry).body_registered(self.bodies_spec().0),
            old(registry).body_registered(self.bodies_spec().1),
            old(registry).reserved().contains(self.nonce_spec().value_spec()),
        ensures
            final(registry).wf(),
            IdentityRegistry::evolves(old(registry), final(registry)),
            id.raw_spec() == self.raw_spec() && id.nonce_spec() == self.nonce_spec()
                && id.brand_spec() == old(registry).brand_spec(),
            final(registry).joint_active(id),
            !final(registry).reserved().contains(id.nonce_spec().value_spec()),
            id.nonce_spec().value_spec() <= final(registry).last_nonce(),
            final(registry).joints() == old(registry).joints().insert(
                self.raw_spec().key_spec().code_spec(),
                JointRegistration {
                    nonce: self.nonce_spec(),
                    body_a: self.bodies_spec().0.raw_spec().key_spec(),
                    body_b: self.bodies_spec().1.raw_spec().key_spec(),
                    kind: self.kind_spec(),
                },
            ),
            final(registry).bodies().dom() == old(registry).bodies().dom(),
            forall|c: u64| #[trigger] final(registry).bodies().contains_key(c)
                && c != self.bodies_spec().0.raw_spec().key_spec().code_spec()
                && c != self.bodies_spec().1.raw_spec().key_spec().code_spec()
                ==> final(registry).bodies()[c] == old(registry).bodies()[c],
            forall|c: u64| #[trigger] final(registry).bodies().contains_key(c)
                && (c == self.bodies_spec().0.raw_spec().key_spec().code_spec()
                || c == self.bodies_spec().1.raw_spec().key_spec().code_spec()) ==> {
                &&& final(registry).bodies()[c].nonce == old(registry).bodies()[c].nonce
                &&& final(registry).bodies()[c].shapes@ == old(registry).bodies()[c].shapes@
                &&& final(registry).bodies()[c].chains@ == old(registry).bodies()[c].chains@
                &&& final(registry).bodies()[c].joints@ == pushed_unique(old(registry).bodies()[c].joints@, self.raw_spec().key_spec())
            },
            final(registry).shapes() == old(registry).shapes(),
            final(registry).chains() == old(registry).chains(),
            final(registry).retired_bodies() == old(registry).retired_bodies(),
            final(registry).retired_shapes() == old(registry).retired_shapes(),
            final(registry).retired_joints() == old(registry).retired_joints(),
            final(registry).retired_chains() == old(registry).retired_chains(),
            final(registry).last_nonce() == old(registry).last_nonce(),
            final(registry).reserved() == old(registry).reserved().remove(self.nonce_spec().value_spec()),
            final(registry).revision() == old(registry).revision().wrapping_add(1),
    {
        let key = self.raw.key();
        let c = key.code();
        let key_a = self.body_a.into_raw().key();
        let key_b = self.body_b.into_raw().key();
        registry.joints.insert(c, JointRegistration { nonce: self.nonce, body_a: key_a, body_b: key_b, kind: self.kind });
        registry.update_body_list(key_a.code(), BodyList::Joints, key, true);
        let ghost mid = registry.bodies();
        registry.update_body_list(key_b.code(), BodyList::Joints, key, true);
        proof {
            registry.reserved@ = registry.reserved@.remove(self.nonce.value_spec());
            let ca = key_a.code_spec();
            let cb = key_b.code_spec();
            lemma_pushed_unique_contains(body_list(old(registry).bodies()[ca], BodyList::Joints), key);
            lemma_pushed_unique_contains(body_list(mid[cb], BodyList::Joints), key);
            if ca != cb {
                assert(registry.bodies@[ca] == mid[ca]);
            }
            assert forall|x: u64| #[trigger] registry.bodies().contains_key(x) && (x == ca || x == cb) implies {
                &&& registry.bodies()[x].nonce == old(registry).bodies()[x].nonce
                &&& registry.bodies()[x].shapes@ == old(registry).bodies()[x].shapes@
                &&& registry.bodies()[x].chains@ == old(registry).bodies()[x].chains@
                &&& registry.bodies()[x].joints@ == pushed_unique(old(registry).bodies()[x].joints@, key)
            } by {
                assert(body_list(registry.bodies()[x], BodyList::Shapes) == registry.bodies()[x].shapes@);
                assert(body_list(registry.bodies()[x], BodyList::Chains) == registry.bodies()[x].chains@);
                assert(body_list(mid[x], BodyList::Shapes) == mid[x].shapes@);
                assert(body_list(mid[x], BodyList::Chains) == mid[x].chains@);
                assert(body_list(old(registry).bodies()[x], BodyList::Shapes) == old(registry).bodies()[x].shapes@);
                assert(body_list(old(registry).bodies()[x], BodyList::Chains) == old(registry).bodies()[x].chains@);
                assert(body_list(mid[x], BodyList::Joints) == mid[x].joints@);
            }
        }
        registry.advance_revision();
        JointId::issue(registry.brand, self.raw, self.nonce)
    }
}

impl IdentityRegistry {
    /// Retire shape slot `key`, detaching it from its body and chain. Absent keys are ignored.
    fn remove_shape(&mut self, key: RawKey)
        requires
            old(self).wf(),
        ensures
            final(self).wf(),
            IdentityRegistry::narrows(old(self), final(self)),
            final(self).shapes() == old(self).shapes().remove(key.code_spec()),
            old(self).shapes().contains_key(key.code_spec()) ==> final(self).retired_shapes()
                == retain_retired_spec(old(self).retired_shapes(), key.code_spec(), old(self).shapes()[key.code_spec()].nonce),
            !old(self).shapes().contains_key(key.code_spec()) ==> final(self).retired_shapes() == old(self).retired_shapes()
                && final(self).bodies() == old(self).bodies() && final(self).chains() == old(self).chains(),
            old(self).shapes().contains_key(key.code_spec()) ==> body_list_updated(
                old(self).bodies(),
                final(self).bodies(),
                old(self).shapes()[key.code_spec()].body.code_spec(),
                BodyList::Shapes,
                if old(self).bodies().contains_key(old(self).shapes()[key.code_spec()].body.code_spec()) {
                    old(self).bodies()[old(self).shapes()[key.code_spec()].body.code_spec()].shapes@.filter(differs_from(key))
                } else {
                    Seq::empty()
                },
            ),
            final(self).chains().dom() == old(self).chains().dom(),
            forall|c: u64| #[trigger] final(self).chains().contains_key(c) ==> final(self).chains()[c].nonce == old(self).chains()[c].nonce
                && final(self).chains()[c].body == old(self).chains()[c].body,
            forall|c: u64| #[trigger] final(self).chains().contains_key(c) ==> final(self).chains()[c].segments@
                == if old(self).shapes().contains_key(key.code_spec()) && old(self).shapes()[key.code_spec()].chain is Some
                    && old(self).shapes()[key.code_spec()].chain->0.code_spec() == c {
                    old(self).chains()[c].segments@.filter(differs_from(key))
                } else {
                    old(self).chains()[c].segments@
                },
            final(self).joints() == old(self).joints(),
            final(self).retired_bodies() == old(self).retired_bodies(),
            final(self).retired_joints() == old(self).retired_joints(),
            final(self).retired_chains() == old(self).retired_chains(),
            final(self).brand_spec() == old(self).brand_spec(),
            final(self).revision() == old(self).revision(),
            final(self).last_nonce() == old(self).last_nonce(),
            final(self).reserved() == old(self).reserved(),
    {
        let c = key.code();
        let shape = match self.shapes.remove(&c) {
            Some(shape) => shape,
            None => {
                assert(self.shapes@ =~= old(self).shapes().remove(c));
                return;
            },
        };
        self.update_body_list(shape.body.code(), BodyList::Shapes, key, false);
        match shape.chain {
            Some(chain_key) => {
                let cc = chain_key.code();
                match self.chains.remove(&cc) {
                    Some(mut chain) => {
                        remove_key(&mut chain.segments, key);
                        self.chains.insert(cc, chain);
                        proof {
                            assert(self.chains@.dom() =~= old(self).chains().dom());
                        }
                    },
                    None => {
                        assert(self.chains@ =~= old(self).chains());
                    },
                }
            },
            None => {},
        }
        retain_retired(&mut self.retired_shapes, c, shape.nonce);
    }
}

/// The codes of `keys`.
pub open spec fn key_codes(keys: Seq<RawKey>) -> Set<u64> {
    Set::new(|c: u64| exists|i: int| 0 <= i < keys.len() && #[trigger] keys[i].code_spec() == c)
}

/// The codes of every segment of every chain in `list` that `chains` registers.
pub open spec fn chain_segment_codes(chains: Map<u64, ChainRegistration>, list: Seq<RawKey>) -> Set<u64> {
    Set::new(
        |s: u64|
            exists|j: int|
                0 <= j < list.len() && chains.contains_key(#[trigger] list[j].code_spec())
                    && key_codes(chains[list[j].code_spec()].segments@).contains(s),
    )
}

/// The predicate "is not a segment of chain `chain` according to `shapes`".
pub open spec fn not_segment_of(shapes: Map<u64, ShapeRegistration>, chain: RawKey) -> spec_fn(RawKey) -> bool {
    |k: RawKey| !(shapes.contains_key(k.code_spec()) && shapes[k.code_spec()].chain == Some(chain))
}

proof fn lemma_key_codes_take(keys: Seq<RawKey>, i: int)
    requires
        0 <= i < keys.len(),
    ensures
        key_codes(keys.take(i + 1)) == key_codes(keys.take(i)).insert(keys[i].code_spec()),
{
    let a = key_codes(keys.take(i + 1));
    let b = key_codes(keys.take(i)).insert(keys[i].code_spec());
    assert forall|c: u64| a.contains(c) implies b.contains(c) by {
        let j = choose|j: int| 0 <= j < keys.take(i + 1).len() && #[trigger] keys.take(i + 1)[j].code_spec() == c;
        if j < i {
            assert(keys.take(i)[j] == keys.take(i + 1)[j]);
        }
    }
    assert forall|c: u64| b.contains(c) implies a.contains(c) by {
        if c == keys[i].code_spec() {
            assert(keys.take(i + 1)[i] == keys[i]);
        } else {
            let j = choose|j: int| 0 <= j < keys.take(i).len() && #[trigger] keys.take(i)[j].code_spec() == c;
            assert(keys.take(i + 1)[j] == keys.take(i)[j]);
        }
    }
    assert(a =~= b);
}

proof fn lemma_chain_segment_codes_take(chains: Map<u64, ChainRegistration>, list: Seq<RawKey>, i: int)
    requires
        0 <= i < list.len(),
    ensures
        chain_segment_codes(chains, list.take(i + 1)) == chain_segment_codes(chains, list.take(i)).union(
            if chains.contains_key(list[i].code_spec()) {
                key_codes(chains[list[i].code_spec()].segments@)
            } else {
                Set::empty()
            },
        ),
{
    let a = chain_segment_codes(chains, list.take(i + 1));
    let b = chain_segment_codes(chains, list.take(i)).union(
        if chains.contains_key(list[i].code_spec()) {
            key_codes(chains[list[i].code_spec()].segments@)
        } else {
            Set::empty()
        },
    );
    assert forall|s: u64| a.contains(s) implies b.contains(s) by {
        let j = choose|j: int|
            0 <= j < list.take(i + 1).len() && chains.contains_key(#[trigger] list.take(i + 1)[j].code_spec())
                && key_codes(chains[list.take(i + 1)[j].code_spec()].segments@).contains(s);
        if j < i {
            assert(list.take(i)[j] == list.take(i + 1)[j]);
        }
    }
    assert forall|s: u64| b.contains(s) implies a.contains(s) by {
        if chains.contains_key(list[i].code_spec()) && key_codes(chains[list[i].code_spec()].segments@).contains(s) {
            assert(list.take(i + 1)[i] == list[i]);
        } else {
            let j = choose|j: int|
                0 <= j < list.take(i).len() && chains.contains_key(#[trigger] list.take(i)[j].code_spec())
                    && key_codes(chains[list.take(i)[j].code_spec()].segments@).contains(s);
            assert(list.take(i + 1)[j] == list.take(i)[j]);
        }
    }
    assert(a =~= b);
}

/// `keys` without the segments of chain `chain`, order preserved.
fn keys_without_segments(
    keys: &Vec<RawKey>,
    shapes: &HashMap<u64, ShapeRegistration>,
    chain: RawKey,
) -> (r: Vec<RawKey>)
    ensures
        r@ == keys@.filter(not_segment_of(shapes@, chain)),
{
    let mut out: Vec<RawKey> = Vec::new();
    let mut i: usize = 0;
    while i < keys.len()
        invariant
            i <= keys.len(),
            out@ == keys@.subrange(0, i as int).filter(not_segment_of(shapes@, chain)),
        decreases keys.len() - i,
    {
        let k = keys[i];
        proof {
            assert(keys@.subrange(0, i + 1) == keys@.subrange(0, i as int).push(k));
            keys@.subrange(0, i as int).lemma_filter_push(k, not_segment_of(shapes@, chain));
        }
        let segment = match shapes.get(&k.code()) {
            Some(reg) => reg.chain == Some(chain),
            None => false,
        };
        if !segment {
            out.push(k);
        }
        i = i + 1;
    }
    assert(keys@.subrange(0, keys@.len() as int) == keys@);
    out
}

impl IdentityRegistry {
    /// `new` keeps the nonce bookkeeping of `old`, and every registration active in `new` was
    /// active in `old` under the same nonce.
    pub open spec fn narrows(old: &Self, new: &Self) -> bool {
        &&& old.brand_spec() == new.brand_spec()
        &&& old.last_nonce() == new.last_nonce()
        &&& old.reserved() == new.reserved()
        &&& forall|c: u64| #[trigger] new.bodies().contains_key(c) ==> old.bodies().contains_key(c)
            && old.bodies()[c].nonce == new.bodies()[c].nonce
        &&& forall|c: u64| #[trigger] new.shapes().contains_key(c) ==> old.shapes().contains_key(c)
            && old.shapes()[c].nonce == new.shapes()[c].nonce
        &&& forall|c: u64| #[trigger] new.joints().contains_key(c) ==> old.joints().contains_key(c)
            && old.joints()[c].nonce == new.joints()[c].nonce
        &&& forall|c: u64| #[trigger] new.chains().contains_key(c) ==> old.chains().contains_key(c)
            && old.chains()[c].nonce == new.chains()[c].nonce
    }

    /// Retire joint slot `key`, detaching it from both bodies. Absent keys are ignored.
    fn remove_joint(&mut self, key: RawKey)
        requires
            old(self).wf(),
        ensures
            final(self).wf(),
            Self::narrows(old(self), final(self)),
            final(self).joints() == old(self).joints().remove(key.code_spec()),
            final(self).retired_joints() == if old(self).joints().contains_key(key.code_spec()) {
                retain_retired_spec(old(self).retired_joints(), key.code_spec(), old(self).joints()[key.code_spec()].nonce)
            } else {
                old(self).retired_joints()
            },
            final(self).bodies().dom() == old(self).bodies().dom(),
            forall|b: u64| #[trigger] final(self).bodies().contains_key(b) ==> {
                &&& final(self).bodies()[b].nonce == old(self).bodies()[b].nonce
                &&& final(self).bodies()[b].shapes@ == old(self).bodies()[b].shapes@
                &&& final(self).bodies()[b].chains@ == old(self).bodies()[b].chains@
                &&& final(self).bodies()[b].joints@ == if old(self).joints().contains_key(key.code_spec())
                    && (b == old(self).joints()[key.code_spec()].body_a.code_spec()
                    || b == old(self).joints()[key.code_spec()].body_b.code_spec()) {
                    old(self).bodies()[b].joints@.filter(differs_from(key))
                } else {
                    old(self).bodies()[b].joints@
                }
            },
            final(self).shapes() == old(self).shapes(),
            final(self).chains() == old(self).chains(),
            final(self).retired_bodies() == old(self).retired_bodies(),
            final(self).retired_shapes() == old(self).retired_shapes(),
            final(self).retired_chains() == old(self).retired_chains(),
            final(self).revision() == old(self).revision(),
    {
        let c = key.code();
        let joint = match self.joints.remove(&c) {
            Some(joint) => joint,
            None => {
                assert(self.joints@ =~= old(self).joints().remove(c));
                return;
            },
        };
        let ca = joint.body_a.code();
        let cb = joint.body_b.code();
        self.update_body_list(ca, BodyList::Joints, key, false);
        let ghost mid = self.bodies();
        self.update_body_list(cb, BodyList::Joints, key, false);
        proof {
            assert forall|b: u64| #[trigger] self.bodies().contains_key(b) implies {
                &&& self.bodies()[b].nonce == old(self).bodies()[b].nonce
                &&& self.bodies()[b].shapes@ == old(self).bodies()[b].shapes@
                &&& self.bodies()[b].chains@ == old(self).bodies()[b].chains@
                &&& self.bodies()[b].joints@ == if b == ca || b == cb {
                    old(self).bodies()[b].joints@.filter(differs_from(key))
                } else {
                    old(self).bodies()[b].joints@
                }
            } by {
                assert(body_list(self.bodies()[b], BodyList::Shapes) == self.bodies()[b].shapes@);
                assert(body_list(self.bodies()[b], BodyList::Chains) == self.bodies()[b].chains@);
                assert(body_list(mid[b], BodyList::Shapes) == mid[b].shapes@);
                assert(body_list(mid[b], BodyList::Chains) == mid[b].chains@);
                assert(body_list(old(self).bodies()[b], BodyList::Shapes) == old(self).bodies()[b].shapes@);
                assert(body_list(old(self).bodies()[b], BodyList::Chains) == old(self).bodies()[b].chains@);
                if b == ca && b == cb {
                    lemma_without_key_idempotent(old(self).bodies()[b].joints@, key);
                }
            }
        }
        retain_retired(&mut self.retired_joints, c, joint.nonce);
    }
}

impl IdentityRegistry {
    /// Drop chain `key` from the chain list of body `bc`, and its segments from the shape list.
    fn detach_chain_from_body(&mut self, bc: u64, key: RawKey)
        requires
            old(self).wf(),
        ensures
            final(self).wf(),
            Self::narrows(old(self), final(self)),
            final(self).bodies().dom() == old(self).bodies().dom(),
            forall|b: u64| #[trigger] final(self).bodies().contains_key(b) ==> {
                &&& final(self).bodies()[b].nonce == old(self).bodies()[b].nonce
                &&& final(self).bodies()[b].joints@ == old(self).bodies()[b].joints@
                &&& final(self).bodies()[b].chains@ == if b == bc {
                    old(self).bodies()[b].chains@.filter(differs_from(key))
                } else {
                    old(self).bodies()[b].chains@
                }
                &&& final(self).bodies()[b].shapes@ == if b == bc {
                    old(self).bodies()[b].shapes@.filter(not_segment_of(old(self).shapes(), key))
                } else {
                    old(self).bodies()[b].shapes@
                }
            },
            final(self).shapes() == old(self).shapes(),
            final(self).joints() == old(self).joints(),
            final(self).chains() == old(self).chains(),
            final(self).retired_bodies() == old(self).retired_bodies(),
            final(self).retired_shapes() == old(self).retired_shapes(),
            final(self).retired_joints() == old(self).retired_joints(),
            final(self).retired_chains() == old(self).retired_chains(),
            final(self).revision() == old(self).revision(),
    {
        match self.bodies.remove(&bc) {
            Some(mut reg) => {
                remove_key(&mut reg.chains, key);
                let shapes = keys_without_segments(&reg.shapes, &self.shapes, key);
                reg.shapes = shapes;
                self.bodies.insert(bc, reg);
                assert(self.bodies@.dom() =~= old(self).bodies().dom());
            },
            None => {
                assert(self.bodies@ =~= old(self).bodies());
            },
        }
    }

    /// Retire chain slot `key` and every segment shape it registers. Absent keys are ignored.
    fn remove_chain(&mut self, key: RawKey)
        requires
            old(self).wf(),
        ensures
            final(self).wf(),
            Self::narrows(old(self), final(self)),
            final(self).chains() == old(self).chains().remove(key.code_spec()),
            final(self).shapes() == old(self).shapes().remove_keys(
                if old(self).chains().contains_key(key.code_spec()) {
                    key_codes(old(self).chains()[key.code_spec()].segments@)
                } else {
                    Set::empty()
                },
            ),
            final(self).retired_chains() == if old(self).chains().contains_key(key.code_spec()) {
                retain_retired_spec(old(self).retired_chains(), key.code_spec(), old(self).chains()[key.code_spec()].nonce)
            } else {
                old(self).retired_chains()
            },
            forall|c: u64| #[trigger] old(self).retired_shapes().contains_key(c) ==> final(self).retired_shapes().contains_key(c),
            forall|c: u64| #[trigger] final(self).retired_shapes().contains_key(c) ==> old(self).retired_shapes().contains_key(c)
                || (old(self).shapes().contains_key(c) && !final(self).shapes().contains_key(c)),
            forall|c: u64| #[trigger] old(self).shapes().contains_key(c) && !final(self).shapes().contains_key(c)
                ==> final(self).retired_shapes().contains_key(c),
            final(self).retired_shapes() == retire_all(
                old(self).retired_shapes(),
                old(self).shapes(),
                if old(self).chains().contains_key(key.code_spec()) {
                    key_codes(old(self).chains()[key.code_spec()].segments@)
                } else {
                    Set::empty()
                },
            ),
            final(self).bodies().dom() == old(self).bodies().dom(),
            forall|b: u64| #[trigger] final(self).bodies().contains_key(b) ==> {
                &&& final(self).bodies()[b].nonce == old(self).bodies()[b].nonce
                &&& final(self).bodies()[b].joints@ == old(self).bodies()[b].joints@
                &&& final(self).bodies()[b].chains@ == if old(self).chains().contains_key(key.code_spec())
                    && b == old(self).chains()[key.code_spec()].body.code_spec() {
                    old(self).bodies()[b].chains@.filter(differs_from(key))
                } else {
                    old(self).bodies()[b].chains@
                }
                &&& final(self).bodies()[b].shapes@ == if old(self).chains().contains_key(key.code_spec())
                    && b == old(self).chains()[key.code_spec()].body.code_spec() {
                    old(self).bodies()[b].shapes@.filter(not_segment_of(old(self).shapes(), key))
                } else {
                    old(self).bodies()[b].shapes@
                }
            },
            final(self).joints() == old(self).joints(),
            final(self).retired_bodies() == old(self).retired_bodies(),
            final(self).retired_joints() == old(self).retired_joints(),
            final(self).revision() == old(self).revision(),
    {
        let c = key.code();
        let chain = match self.chains.remove(&c) {
            Some(chain) => chain,
            None => {
                assert(self.chains@ =~= old(self).chains().remove(c));
                assert(self.shapes@ =~= old(self).shapes().remove_keys(Set::empty()));
                proof {
                    lemma_retire_none(old(self).retired_shapes(), old(self).shapes());
                }
                return;
            },
        };
        self.detach_chain_from_body(chain.body.code(), key);
        let ghost pre = self.shapes();
        let mut i: usize = 0;
        assert(pre.remove_keys(key_codes(chain.segments@.take(0))) =~= pre);
        proof {
            assert(key_codes(chain.segments@.take(0)) =~= Set::empty());
            lemma_retire_none(old(self).retired_shapes(), pre);
        }
        while i < chain.segments.len()
            invariant
                i <= chain.segments@.len(),
                self.wf(),
                Self::narrows(old(self), self),
                pre == old(self).shapes(),
                chain.segments@ == old(self).chains()[c].segments@,
                old(self).chains().contains_key(c),
                self.shapes() == pre.remove_keys(key_codes(chain.segments@.take(i as int))),
                forall|x: u64| #[trigger] old(self).retired_shapes().contains_key(x) ==> self.retired_shapes().contains_key(x),
                forall|x: u64| #[trigger] self.retired_shapes().contains_key(x) ==> old(self).retired_shapes().contains_key(x)
                    || (pre.contains_key(x) && !self.shapes().contains_key(x)),
                forall|x: u64| #[trigger] pre.contains_key(x) && !self.shapes().contains_key(x)
                    ==> self.retired_shapes().contains_key(x),
                self.retired_shapes() == retire_all(old(self).retired_shapes(), pre, key_codes(chain.segments@.take(i as int))),
                self.chains() == old(self).chains().remove(c),
                self.joints() == old(self).joints(),
                self.retired_bodies() == old(self).retired_bodies(),
                self.retired_joints() == old(self).retired_joints(),
                self.retired_chains() == old(self).retired_chains(),
                self.revision() == old(self).revision(),
                self.bodies().dom() == old(self).bodies().dom(),
                forall|b: u64| #[trigger] self.bodies().contains_key(b) ==> {
                    &&& self.bodies()[b].nonce == old(self).bodies()[b].nonce
                    &&& self.bodies()[b].joints@ == old(self).bodies()[b].joints@
                    &&& self.bodies()[b].chains@ == if b == old(self).chains()[c].body.code_spec() {
                        old(self).bodies()[b].chains@.filter(differs_from(key))
                    } else {
                        old(self).bodies()[b].chains@
                    }
                    &&& self.bodies()[b].shapes@ == if b == old(self).chains()[c].body.code_spec() {
                        old(self).bodies()[b].shapes@.filter(not_segment_of(old(self).shapes(), key))
                    } else {
                        old(self).bodies()[b].shapes@
                    }
                },
            decreases chain.segments@.len() - i,
        {
            let seg = chain.segments[i];
            let sc = seg.code();
            proof {
                lemma_key_codes_take(chain.segments@, i as int);
            }
            let ghost prev_retired = self.retired_shapes();
            let ghost prev_shapes = self.shapes();
            proof {
                lemma_retire_step(old(self).retired_shapes(), pre, key_codes(chain.segments@.take(i as int)), sc);
            }
            match self.shapes.remove(&sc) {
                Some(shape) => {
                    retain_retired(&mut self.retired_shapes, sc, shape.nonce);
                },
                None => {},
            }
            proof {
                assert(self.shapes@ =~= pre.remove_keys(key_codes(chain.segments@.take(i + 1))));
                assert forall|x: u64| #[trigger] self.retired_shapes().contains_key(x) implies old(self).retired_shapes().contains_key(x)
                    || (pre.contains_key(x) && !self.shapes().contains_key(x)) by {
                    if x != sc {
                        assert(prev_retired.contains_key(x));
                        if !old(self).retired_shapes().contains_key(x) {
                            assert(!prev_shapes.contains_key(x));
                        }
                    }
                }
            }
            i = i + 1;
        }
        proof {
            assert(chain.segments@.take(chain.segments@.len() as int) =~= chain.segments@);
        }
        let ghost before = self.retired_shapes();
        let ghost before_shapes = self.shapes();
        retain_retired(&mut self.retired_chains, c, chain.nonce);
        assert(self.retired_shapes() == before && self.shapes() == before_shapes);
    }
}

impl IdentityRegistry {
    /// Narrowing a registry is one way of evolving it.
    pub proof fn lemma_narrows_evolves(old: &Self, new: &Self)
        requires
            Self::narrows(old, new),
        ensures
            Self::evolves(old, new),
    {
    }

    /// Unregister the shape `id` names; `false` when it names no active registration.
    pub fn unregister_shape(&mut self, id: ShapeId) -> (r: bool)
        requires
            old(self).wf(),
        ensures
            final(self).wf(),
            Self::narrows(old(self), final(self)),
            Self::evolves(old(self), final(self)),
            r == old(self).shape_active(id),
            !r ==> final(self).same_tables(old(self)),
            r ==> final(self).shapes() == old(self).shapes().remove(id.raw_spec().key_spec().code_spec())
                && final(self).retired_shapes() == retain_retired_spec(
                old(self).retired_shapes(),
                id.raw_spec().key_spec().code_spec(),
                id.nonce_spec(),
            ) && final(self).joints() == old(self).joints() && final(self).chains().dom() == old(self).chains().dom()
                && final(self).bodies().dom() == old(self).bodies().dom()
                && final(self).retired_bodies() == old(self).retired_bodies()
                && final(self).retired_joints() == old(self).retired_joints()
                && final(self).retired_chains() == old(self).retired_chains()
                && final(self).revision() == old(self).revision().wrapping_add(1),
    {
        if !self.contains_shape(id) {
            return false;
        }
        self.remove_shape(id.into_raw().key());
        self.advance_revision();
        true
    }

    /// Unregister the joint `id` names; `false` when it names no active registration.
    pub fn unregister_joint(&mut self, id: JointId) -> (r: bool)
        requires
            old(self).wf(),
        ensures
            final(self).wf(),
            Self::narrows(old(self), final(self)),
            Self::evolves(old(self), final(self)),
            r == old(self).joint_active(id),
            !r ==> final(self).same_tables(old(self)),
            r ==> final(self).joints() == old(self).joints().remove(id.raw_spec().key_spec().code_spec())
                && final(self).retired_joints() == retain_retired_spec(
                old(self).retired_joints(),
                id.raw_spec().key_spec().code_spec(),
                id.nonce_spec(),
            ) && final(self).shapes() == old(self).shapes() && final(self).chains() == old(self).chains()
                && final(self).bodies().dom() == old(self).bodies().dom()
                && final(self).retired_bodies() == old(self).retired_bodies()
                && final(self).retired_shapes() == old(self).retired_shapes()
                && final(self).retired_chains() == old(self).retired_chains()
                && final(self).revision() == old(self).revision().wrapping_add(1),
    {
        if !self.contains_joint(id) {
            return false;
        }
        self.remove_joint(id.into_raw().key());
        self.advance_revision();
        true
    }

    /// Unregister the chain `id` names and all its segments; `false` when it names no active
    /// registration.
    pub fn unregister_chain(&mut self, id: ChainId) -> (r: bool)
        requires
            old(self).wf(),
        ensures
            final(self).wf(),
            Self::narrows(old(self), final(self)),
            Self::evolves(old(self), final(self)),
            r == old(self).chain_active(id),
            !r ==> final(self).same_tables(old(self)),
            r ==> final(self).chains() == old(self).chains().remove(id.raw_spec().key_spec().code_spec())
                && final(self).retired_chains() == retain_retired_spec(
                old(self).retired_chains(),
                id.raw_spec().key_spec().code_spec(),
                id.nonce_spec(),
            ) && final(self).shapes() == old(self).shapes().remove_keys(
                key_codes(old(self).chains()[id.raw_spec().key_spec().code_spec()].segments@),
            ) && final(self).retired_shapes() == retire_all(
                old(self).retired_shapes(),
                old(self).shapes(),
                key_codes(old(self).chains()[id.raw_spec().key_spec().code_spec()].segments@),
            ) && (forall|b: u64| #[trigger] final(self).bodies().contains_key(b) ==> {
                let key = id.raw_spec().key_spec();
                let parent = old(self).chains()[key.code_spec()].body.code_spec();
                &&& final(self).bodies()[b].nonce == old(self).bodies()[b].nonce
                &&& final(self).bodies()[b].joints@ == old(self).bodies()[b].joints@
                &&& final(self).bodies()[b].chains@ == if b == parent {
                    old(self).bodies()[b].chains@.filter(differs_from(key))
                } else {
                    old(self).bodies()[b].chains@
                }
                &&& final(self).bodies()[b].shapes@ == if b == parent {
                    old(self).bodies()[b].shapes@.filter(not_segment_of(old(self).shapes(), key))
                } else {
                    old(self).bodies()[b].shapes@
                }
            }) && final(self).joints() == old(self).joints()
                && final(self).bodies().dom() == old(self).bodies().dom()
                && final(self).retired_bodies() == old(self).retired_bodies()
                && final(self).retired_joints() == old(self).retired_joints()
                && final(self).revision() == old(self).revision().wrapping_add(1),
    {
        if !self.contains_chain(id) {
            return false;
        }
        self.remove_chain(id.into_raw().key());
        self.advance_revision();
        true
    }

    /// Forget every retired key; called once the outputs of the previous step are released.
    pub fn clear_retired_outputs(&mut self)
        requires
            old(self).wf(),
        ensures
            final(self).wf(),
            Self::narrows(old(self), final(self)),
            final(self).bodies() == old(self).bodies(),
            final(self).shapes() == old(self).shapes(),
            final(self).joints() == old(self).joints(),
            final(self).chains() == old(self).chains(),
            final(self).retired_bodies().is_empty(),
            final(self).retired_shapes().is_empty(),
            final(self).retired_joints().is_empty(),
            final(self).retired_chains().is_empty(),
            final(self).revision() == old(self).revision(),
    {
        self.retired_bodies.clear();
        self.retired_shapes.clear();
        self.retired_joints.clear();
        self.retired_chains.clear();
    }

    /// Forget every registration, active and retired.
    pub fn clear(&mut self)
        requires
            old(self).wf(),
        ensures
            final(self).wf(),
            Self::narrows(old(self), final(self)),
            final(self).bodies().is_empty(),
            final(self).shapes().is_empty(),
            final(self).joints().is_empty(),
            final(self).chains().is_empty(),
            final(self).retired_bodies().is_empty(),
            final(self).retired_shapes().is_empty(),
            final(self).retired_joints().is_empty(),
            final(self).retired_chains().is_empty(),
            final(self).revision() == old(self).revision().wrapping_add(1),
    {
        self.bodies.clear();
        self.shapes.clear();
        self.joints.clear();
        self.chains.clear();
        self.clear_retired_outputs();
        self.advance_revision();
    }
}

/// The predicate "is not a joint of `removed` that `joints` attaches to body `b`".
pub open spec fn keeps_joint(joints: Map<u64, JointRegistration>, removed: Seq<RawKey>, b: u64) -> spec_fn(RawKey) -> bool {
    |k: RawKey|
        !(removed.contains(k) && joints.contains_key(k.code_spec()) && (joints[k.code_spec()].body_a.code_spec() == b
            || joints[k.code_spec()].body_b.code_spec() == b))
}

/// Detaching joint `k` from body `b`, once the joints of `done` are gone, extends `done` by `k`.
proof fn lemma_keeps_joint_step(
    m: Seq<RawKey>,
    joints: Map<u64, JointRegistration>,
    done: Seq<RawKey>,
    k: RawKey,
    b: u64,
)
    ensures
        (if joints.remove_keys(key_codes(done)).contains_key(k.code_spec()) && (b == joints[k.code_spec()].body_a.code_spec()
            || b == joints[k.code_spec()].body_b.code_spec()) {
            m.filter(keeps_joint(joints, done, b)).filter(differs_from(k))
        } else {
            m.filter(keeps_joint(joints, done, b))
        }) == m.filter(keeps_joint(joints, done.push(k), b)),
{
    let p = keeps_joint(joints, done, b);
    let q = keeps_joint(joints, done.push(k), b);
    assert forall|x: RawKey| done.push(k).contains(x) <==> done.contains(x) || x == k by {
        if done.push(k).contains(x) {
            let j = choose|j: int| 0 <= j < done.push(k).len() && done.push(k)[j] == x;
            if j < done.len() {
                assert(done[j] == x);
            }
        }
        if done.contains(x) {
            let j = choose|j: int| 0 <= j < done.len() && done[j] == x;
            assert(done.push(k)[j] == x);
        }
        if x == k {
            assert(done.push(k)[done.len() as int] == x);
        }
    }
    if joints.remove_keys(key_codes(done)).contains_key(k.code_spec()) && (b == joints[k.code_spec()].body_a.code_spec()
        || b == joints[k.code_spec()].body_b.code_spec()) {
        assert(!done.contains(k)) by {
            if done.contains(k) {
                let j = choose|j: int| 0 <= j < done.len() && done[j] == k;
                assert(done[j].code_spec() == k.code_spec());
                assert(key_codes(done).contains(k.code_spec()));
            }
        }
        lemma_filter_filter(m, p, differs_from(k));
        assert((|x: RawKey| p(x) && differs_from(k)(x)) =~= q);
    } else {
        if key_codes(done).contains(k.code_spec()) {
            let j = choose|j: int| 0 <= j < done.len() && #[trigger] done[j].code_spec() == k.code_spec();
            RawKey::lemma_code_injective(done[j], k);
            assert(done.contains(k));
        }
        assert(p =~= q);
    }
}

impl IdentityRegistry {
    /// Unregister the body `id` names together with every chain, joint and shape it lists;
    /// `false` when it names no active registration.
    pub fn unregister_body(&mut self, id: BodyId) -> (r: bool)
        requires
            old(self).wf(),
        ensures
            final(self).wf(),
            Self::narrows(old(self), final(self)),
            Self::evolves(old(self), final(self)),
            r == old(self).body_active(id),
            !r ==> final(self).same_tables(old(self)),
            r ==> ({
                let c = id.raw_spec().key_spec().code_spec();
                let body = old(self).bodies()[c];
                &&& final(self).bodies().dom() == old(self).bodies().dom().remove(c)
                &&& final(self).retired_bodies() == retain_retired_spec(old(self).retired_bodies(), c, body.nonce)
                &&& final(self).chains().dom() == old(self).chains().dom().difference(key_codes(body.chains@))
                &&& final(self).joints() == old(self).joints().remove_keys(key_codes(body.joints@))
                &&& final(self).shapes() == old(self).shapes().remove_keys(
                    chain_segment_codes(old(self).chains(), body.chains@).union(key_codes(body.shapes@)),
                )
                &&& final(self).retired_chains() == retire_all(old(self).retired_chains(), old(self).chains(), key_codes(body.chains@))
                &&& final(self).retired_joints() == retire_all(old(self).retired_joints(), old(self).joints(), key_codes(body.joints@))
                &&& final(self).retired_shapes() == retire_all(
                    old(self).retired_shapes(),
                    old(self).shapes(),
                    chain_segment_codes(old(self).chains(), body.chains@).union(key_codes(body.shapes@)),
                )
                &&& forall|b: u64| #[trigger] final(self).bodies().contains_key(b) ==> final(self).bodies()[b].nonce
                    == old(self).bodies()[b].nonce && final(self).bodies()[b].joints@
                    == old(self).bodies()[b].joints@.filter(keeps_joint(old(self).joints(), body.joints@, b))
                &&& final(self).revision() == old(self).revision().wrapping_add(1)
            }),
    {
        if !self.contains_body(id) {
            return false;
        }
        let key = id.into_raw().key();
        let c = key.code();
        let body = match self.bodies.remove(&c) {
            Some(body) => body,
            None => {
                return false;
            },
        };
        let ghost pre = *self;
        let mut i: usize = 0;
        proof {
            assert(pre.chains().remove_keys(key_codes(body.chains@.take(0))) =~= pre.chains());
            assert(pre.shapes().remove_keys(chain_segment_codes(pre.chains(), body.chains@.take(0))) =~= pre.shapes());
            assert(key_codes(body.chains@.take(0)) =~= Set::empty());
            assert(chain_segment_codes(pre.chains(), body.chains@.take(0)) =~= Set::empty());
            lemma_retire_none(pre.retired_chains(), pre.chains());
            lemma_retire_none(pre.retired_shapes(), pre.shapes());
        }
        while i < body.chains.len()
            invariant
                i <= body.chains@.len(),
                self.wf(),
                Self::narrows(&pre, self),
                self.bodies().dom() == pre.bodies().dom(),
                forall|b: u64| #[trigger] self.bodies().contains_key(b) ==> self.bodies()[b].nonce == pre.bodies()[b].nonce
                    && self.bodies()[b].joints@ == pre.bodies()[b].joints@,
                self.chains() == pre.chains().remove_keys(key_codes(body.chains@.take(i as int))),
                self.shapes() == pre.shapes().remove_keys(chain_segment_codes(pre.chains(), body.chains@.take(i as int))),
                self.joints() == pre.joints(),
                self.retired_bodies() == pre.retired_bodies(),
                self.retired_joints() == pre.retired_joints(),
                self.retired_chains() == retire_all(pre.retired_chains(), pre.chains(), key_codes(body.chains@.take(i as int))),
                self.retired_shapes() == retire_all(
                    pre.retired_shapes(),
                    pre.shapes(),
                    chain_segment_codes(pre.chains(), body.chains@.take(i as int)),
                ),
                self.revision() == pre.revision(),
            decreases body.chains@.len() - i,
        {
            let k = body.chains[i];
            proof {
                lemma_key_codes_take(body.chains@, i as int);
                lemma_chain_segment_codes_take(pre.chains(), body.chains@, i as int);
                if key_codes(body.chains@.take(i as int)).contains(k.code_spec()) && pre.chains().contains_key(k.code_spec()) {
                    let j = choose|j: int| 0 <= j < body.chains@.take(i as int).len() && #[trigger] body.chains@.take(i as int)[j].code_spec() == k.code_spec();
                    assert(body.chains@.take(i as int)[j] == body.chains@.take(i as int)[j]);
                    assert forall|x: u64| key_codes(pre.chains()[k.code_spec()].segments@).contains(x)
                        implies chain_segment_codes(pre.chains(), body.chains@.take(i as int)).contains(x) by {
                        assert(pre.chains().contains_key(body.chains@.take(i as int)[j].code_spec()));
                    }
                }
            }
            let ghost before_chain = *self;
            proof {
                lemma_retire_step(pre.retired_chains(), pre.chains(), key_codes(body.chains@.take(i as int)), k.code_spec());
                lemma_retire_all_compose(
                    pre.retired_shapes(),
                    pre.shapes(),
                    chain_segment_codes(pre.chains(), body.chains@.take(i as int)),
                    if before_chain.chains().contains_key(k.code_spec()) {
                        key_codes(before_chain.chains()[k.code_spec()].segments@)
                    } else {
                        Set::empty()
                    },
                );
                assert(chain_segment_codes(pre.chains(), body.chains@.take(i as int)).union(
                    if before_chain.chains().contains_key(k.code_spec()) {
                        key_codes(before_chain.chains()[k.code_spec()].segments@)
                    } else {
                        Set::empty()
                    },
                ) =~= chain_segment_codes(pre.chains(), body.chains@.take(i + 1)));
            }
            self.remove_chain(k);
            proof {
                assert(self.chains() =~= pre.chains().remove_keys(key_codes(body.chains@.take(i + 1))));
                assert(self.shapes() =~= pre.shapes().remove_keys(chain_segment_codes(pre.chains(), body.chains@.take(i + 1))));
            }
            i = i + 1;
        }
        proof {
            assert(body.chains@.take(body.chains@.len() as int) =~= body.chains@);
        }
        let ghost mid = *self;
        let mut i: usize = 0;
        proof {
            assert(mid.joints().remove_keys(key_codes(body.joints@.take(0))) =~= mid.joints());
            assert(key_codes(body.joints@.take(0)) =~= Set::empty());
            lemma_retire_none(mid.retired_joints(), mid.joints());
            assert forall|b: u64| #[trigger] mid.bodies().contains_key(b) implies mid.bodies()[b].joints@
                == mid.bodies()[b].joints@.filter(keeps_joint(mid.joints(), body.joints@.take(0), b)) by {
                lemma_filter_keeps_all(mid.bodies()[b].joints@, keeps_joint(mid.joints(), body.joints@.take(0), b));
            }
        }
        while i < body.joints.len()
            invariant
                i <= body.joints@.len(),
                self.wf(),
                Self::narrows(&mid, self),
                self.bodies().dom() == mid.bodies().dom(),
                forall|b: u64| #[trigger] self.bodies().contains_key(b) ==> self.bodies()[b].nonce == mid.bodies()[b].nonce
                    && self.bodies()[b].joints@ == mid.bodies()[b].joints@.filter(
                    keeps_joint(mid.joints(), body.joints@.take(i as int), b),
                ),
                self.joints() == mid.joints().remove_keys(key_codes(body.joints@.take(i as int))),
                self.chains() == mid.chains(),
                self.shapes() == mid.shapes(),
                self.retired_bodies() == mid.retired_bodies(),
                self.retired_shapes() == mid.retired_shapes(),
                self.retired_chains() == mid.retired_chains(),
                self.retired_joints() == retire_all(mid.retired_joints(), mid.joints(), key_codes(body.joints@.take(i as int))),
                self.revision() == mid.revision(),
            decreases body.joints@.len() - i,
        {
            let k = body.joints[i];
            proof {
                lemma_key_codes_take(body.joints@, i as int);
                lemma_retire_step(mid.retired_joints(), mid.joints(), key_codes(body.joints@.take(i as int)), k.code_spec());
                assert(body.joints@.take(i + 1) =~= body.joints@.take(i as int).push(k));
            }
            self.remove_joint(k);
            proof {
                assert(self.joints() =~= mid.joints().remove_keys(key_codes(body.joints@.take(i + 1))));
                assert forall|b: u64| #[trigger] self.bodies().contains_key(b) implies self.bodies()[b].joints@
                    == mid.bodies()[b].joints@.filter(keeps_joint(mid.joints(), body.joints@.take(i + 1), b)) by {
                    lemma_keeps_joint_step(mid.bodies()[b].joints@, mid.joints(), body.joints@.take(i as int), k, b);
                }
            }
            i = i + 1;
        }
        proof {
            assert(body.joints@.take(body.joints@.len() as int) =~= body.joints@);
        }
        let ghost late = *self;
        let mut i: usize = 0;
        proof {
            assert(late.shapes().remove_keys(key_codes(body.shapes@.take(0))) =~= late.shapes());
            assert(key_codes(body.shapes@.take(0)) =~= Set::empty());
            lemma_retire_none(late.retired_shapes(), late.shapes());
        }
        while i < body.shapes.len()
            invariant
                i <= body.shapes@.len(),
                self.wf(),
                Self::narrows(&late, self),
                self.bodies().dom() == late.bodies().dom(),
                forall|b: u64| #[trigger] self.bodies().contains_key(b) ==> self.bodies()[b].nonce == late.bodies()[b].nonce
                    && self.bodies()[b].joints@ == late.bodies()[b].joints@,
                self.shapes() == late.shapes().remove_keys(key_codes(body.shapes@.take(i as int))),
                self.joints() == late.joints(),
                self.chains().dom() == late.chains().dom(),
                self.retired_bodies() == late.retired_bodies(),
                self.retired_joints() == late.retired_joints(),
                self.retired_chains() == late.retired_chains(),
                self.retired_shapes() == retire_all(late.retired_shapes(), late.shapes(), key_codes(body.shapes@.take(i as int))),
                self.revision() == late.revision(),
            decreases body.shapes@.len() - i,
        {
            let k = body.shapes[i];
            proof {
                lemma_key_codes_take(body.shapes@, i as int);
                lemma_retire_step(late.retired_shapes(), late.shapes(), key_codes(body.shapes@.take(i as int)), k.code_spec());
            }
            let ghost before_shape = *self;
            self.remove_shape(k);
            proof {
                assert forall|b: u64| #[trigger] self.bodies().contains_key(b) implies self.bodies()[b].nonce == late.bodies()[b].nonce
                    && self.bodies()[b].joints@ == late.bodies()[b].joints@ by {
                    assert(body_list(self.bodies()[b], BodyList::Joints) == self.bodies()[b].joints@);
                    assert(body_list(before_shape.bodies()[b], BodyList::Joints) == before_shape.bodies()[b].joints@);
                }
            }
            proof {
                assert(self.shapes() =~= late.shapes().remove_keys(key_codes(body.shapes@.take(i + 1))));
            }
            i = i + 1;
        }
        proof {
            assert(body.shapes@.take(body.shapes@.len() as int) =~= body.shapes@);
        }
        retain_retired(&mut self.retired_bodies, c, body.nonce);
        self.advance_revision();
        proof {
            lemma_retire_all_compose(
                old(self).retired_shapes(),
                old(self).shapes(),
                chain_segment_codes(old(self).chains(), body.chains@),
                key_codes(body.shapes@),
            );
            assert(self.chains().dom() =~= old(self).chains().dom().difference(key_codes(body.chains@)));
            assert(self.shapes() =~= old(self).shapes().remove_keys(
                chain_segment_codes(old(self).chains(), body.chains@).union(key_codes(body.shapes@)),
            ));
            assert(self.bodies().dom() =~= old(self).bodies().dom().remove(c));
        }
        true
    }
}

/// Identity capacity and provenance reserved before a native chain and its segments are created.
pub struct PendingChain {
    chain_nonce: RegistrationNonce,
    segment_nonces: Vec<RegistrationNonce>,
    body: BodyId,
    base_revision: u128,
}

/// A native chain output and its segment outputs validated against one reservation.
pub struct BoundChain {
    raw: RawId,
    chain_nonce: RegistrationNonce,
    segment_nonces: Vec<RegistrationNonce>,
    segment_raws: Vec<RawId>,
    body: BodyId,
    base_revision: u128,
}

/// Whether segment `i` of `segs` is rejected: foreign, or a repeat of an earlier slot.
pub open spec fn bad_segment(brand: IdBrand, segs: Seq<RawId>, i: int) -> bool {
    !brand.owns_raw(segs[i]) || exists|j: int| 0 <= j < i && #[trigger] segs[j].key_spec().code_spec() == segs[i].key_spec().code_spec()
}

/// Whether every segment of `segs` is accepted.
pub open spec fn segments_ok(brand: IdBrand, segs: Seq<RawId>) -> bool {
    forall|i: int| 0 <= i < segs.len() ==> !#[trigger] bad_segment(brand, segs, i)
}

impl PendingChain {
    pub closed spec fn chain_nonce_spec(&self) -> RegistrationNonce {
        self.chain_nonce
    }

    pub closed spec fn segment_nonces_spec(&self) -> Seq<RegistrationNonce> {
        self.segment_nonces@
    }

    pub closed spec fn body_spec(&self) -> BodyId {
        self.body
    }

    pub closed spec fn base_revision_spec(&self) -> u128 {
        self.base_revision
    }

    /// The body the chain will be attached to.
    pub fn body(&self) -> (b: BodyId)
        ensures
            b == self.body_spec(),
    {
        self.body
    }

    /// The number of segments reserved.
    pub fn segment_count(&self) -> (n: usize)
        ensures
            n == self.segment_nonces_spec().len(),
    {
        self.segment_nonces.len()
    }

    /// Whether binding `raw` with segments `segs` in `registry` succeeds.
    pub open spec fn bind_spec_ok(self, registry: IdentityRegistry, raw: RawId, segs: Seq<RawId>) -> bool {
        &&& registry.brand_spec().owns_raw(raw)
        &&& segs.len() == self.segment_nonces_spec().len()
        &&& segments_ok(registry.brand_spec(), segs)
        &&& registry.revision() == self.base_revision_spec()
        &&& registry.body_registered(self.body_spec())
        &&& !registry.chain_slot_taken(raw.key_spec().code_spec())
        &&& forall|i: int| 0 <= i < segs.len() ==> !registry.shape_slot_taken(#[trigger] segs[i].key_spec().code_spec())
    }

    /// Whether `e` is the error binding `raw` with segments `segs` in `registry` refuses with.
    pub open spec fn bind_spec_refusal(self, registry: IdentityRegistry, raw: RawId, segs: Seq<RawId>, e: Error) -> bool {
        if !registry.brand_spec().owns_raw(raw) {
            e == Error::WrongWorld
        } else if segs.len() != self.segment_nonces_spec().len() {
            e == Error::InvalidChainId
        } else if !segments_ok(registry.brand_spec(), segs) {
            forall|f: int| 0 <= f < segs.len() && #[trigger] bad_segment(registry.brand_spec(), segs, f)
                && (forall|j: int| 0 <= j < f ==> !bad_segment(registry.brand_spec(), segs, j))
                ==> e == if !registry.brand_spec().owns_raw(segs[f]) {
                Error::WrongWorld
            } else {
                Error::ObjectIdentityExhausted
            }
        } else if registry.revision() != self.base_revision_spec() {
            e == Error::WorldBusy
        } else if !registry.body_registered(self.body_spec()) {
            e == Error::InvalidBodyId
        } else {
            e == Error::ObjectIdentityExhausted
        }
    }

    /// Validate a native chain output and its segment outputs against this reservation.
    pub fn bind(self, registry: &IdentityRegistry, raw: RawId, raw_segments: &Vec<RawId>) -> (r: Result<BoundChain>)
        ensures
            r matches Ok(b) ==> b.raw_spec() == raw && b.chain_nonce_spec() == self.chain_nonce_spec()
                && b.segment_nonces_spec() == self.segment_nonces_spec()
                && b.segment_raws_spec() == raw_segments@ && b.body_spec() == self.body_spec()
                && b.base_revision_spec() == self.base_revision_spec(),
            r is Ok <==> self.bind_spec_ok(*registry, raw, raw_segments@),
            r matches Err(e) ==> self.bind_spec_refusal(*registry, raw, raw_segments@, e),
    {
        registry.brand.check_raw(raw)?;
        if raw_segments.len() != self.segment_nonces.len() {
            return Err(Error::InvalidChainId);
        }
        let mut seen: HashSet<u64> = HashSet::new();
        let mut i: usize = 0;
        while i < raw_segments.len()
            invariant
                i <= raw_segments@.len(),
                registry.brand_spec().owns_raw(raw),
                raw_segments@.len() == self.segment_nonces_spec().len(),
                forall|j: int| 0 <= j < i ==> !#[trigger] bad_segment(registry.brand_spec(), raw_segments@, j),
                forall|c: u64| #[trigger] seen@.contains(c) <==> exists|j: int| 0 <= j < i && #[trigger] raw_segments@[j].key_spec().code_spec() == c,
            decreases raw_segments@.len() - i,
        {
            let seg = raw_segments[i];
            if registry.brand.check_raw(seg).is_err() {
                proof {
                    assert(bad_segment(registry.brand_spec(), raw_segments@, i as int));
                    assert forall|f: int| 0 <= f < raw_segments@.len() && #[trigger] bad_segment(registry.brand_spec(), raw_segments@, f)
                        && (forall|j: int| 0 <= j < f ==> !bad_segment(registry.brand_spec(), raw_segments@, j))
                        implies f == i by {
                        if f > i {
                            assert(!bad_segment(registry.brand_spec(), raw_segments@, i as int));
                        }
                    }
                }
                return Err(Error::WrongWorld);
            }
            let c = seg.key().code();
            if !seen.insert(c) {
                proof {
                    let j = choose|j: int| 0 <= j < i && #[trigger] raw_segments@[j].key_spec().code_spec() == c;
                    assert(bad_segment(registry.brand_spec(), raw_segments@, i as int));
                    assert forall|f: int| 0 <= f < raw_segments@.len() && #[trigger] bad_segment(registry.brand_spec(), raw_segments@, f)
                        && (forall|j: int| 0 <= j < f ==> !bad_segment(registry.brand_spec(), raw_segments@, j))
                        implies f == i by {
                        if f > i {
                            assert(!bad_segment(registry.brand_spec(), raw_segments@, i as int));
                        }
                    }
                }
                return Err(Error::ObjectIdentityExhausted);
            }
            proof {
                assert(!bad_segment(registry.brand_spec(), raw_segments@, i as int));
                assert forall|x: u64| #[trigger] seen@.contains(x) <==> exists|j: int| 0 <= j < i + 1 && #[trigger] raw_segments@[j].key_spec().code_spec() == x by {
                    if x == c {
                        assert(raw_segments@[i as int].key_spec().code_spec() == x);
                    }
                }
            }
            i = i + 1;
        }
        ensure_revision(registry.revision, self.base_revision)?;
        registry.require_body(self.body.into_raw().key(), self.body)?;
        let cc = raw.key().code();
        if registry.chains.contains_key(&cc) || registry.retired_chains.contains_key(&cc) {
            return Err(Error::ObjectIdentityExhausted);
        }
        let mut i: usize = 0;
        while i < raw_segments.len()
            invariant
                i <= raw_segments@.len(),
                registry.brand_spec().owns_raw(raw),
                raw_segments@.len() == self.segment_nonces_spec().len(),
                segments_ok(registry.brand_spec(), raw_segments@),
                registry.revision() == self.base_revision_spec(),
                registry.body_registered(self.body_spec()),
                !registry.chain_slot_taken(raw.key_spec().code_spec()),
                forall|j: int| 0 <= j < i ==> !registry.shape_slot_taken(#[trigger] raw_segments@[j].key_spec().code_spec()),
            decreases raw_segments@.len() - i,
        {
            let c = raw_segments[i].key().code();
            if registry.shapes.contains_key(&c) || registry.retired_shapes.contains_key(&c) {
                return Err(Error::ObjectIdentityExhausted);
            }
            i = i + 1;
        }
        let mut segment_raws: Vec<RawId> = Vec::new();
        let mut i: usize = 0;
        while i < raw_segments.len()
            invariant
                i <= raw_segments@.len(),
                segment_raws@ == raw_segments@.take(i as int),
            decreases raw_segments@.len() - i,
        {
            segment_raws.push(raw_segments[i]);
            i = i + 1;
        }
        assert(raw_segments@.take(raw_segments@.len() as int) =~= raw_segments@);
        Ok(BoundChain {
            raw,
            chain_nonce: self.chain_nonce,
            segment_nonces: self.segment_nonces,
            segment_raws,
            body: self.body,
            base_revision: self.base_revision,
        })
    }
}

impl BoundChain {
    pub closed spec fn raw_spec(&self) -> RawId {
        self.raw
    }

    pub closed spec fn chain_nonce_spec(&self) -> RegistrationNonce {
        self.chain_nonce
    }

    pub closed spec fn segment_nonces_spec(&self) -> Seq<RegistrationNonce> {
        self.segment_nonces@
    }

    pub closed spec fn segment_raws_spec(&self) -> Seq<RawId> {
        self.segment_raws@
    }

    pub closed spec fn body_spec(&self) -> BodyId {
        self.body
    }

    pub closed spec fn base_revision_spec(&self) -> u128 {
        self.base_revision
    }
}

/// The nonce values of `nonces`.
pub open spec fn nonce_values(nonces: Seq<RegistrationNonce>) -> Set<u64> {
    Set::new(|v: u64| exists|i: int| 0 <= i < nonces.len() && #[trigger] nonces[i].value_spec() == v)
}

/// The registrations a published chain adds to the shape table.
pub open spec fn segment_registrations(
    shapes: Map<u64, ShapeRegistration>,
    segs: Seq<RawId>,
    nonces: Seq<RegistrationNonce>,
    body: RawKey,
    chain: RawKey,
    n: int,
) -> Map<u64, ShapeRegistration>
    decreases n,
{
    if n <= 0 {
        shapes
    } else {
        segment_registrations(shapes, segs, nonces, body, chain, n - 1).insert(
            segs[n - 1].key_spec().code_spec(),
            ShapeRegistration { nonce: nonces[n - 1], body, chain: Some(chain) },
        )
    }
}

/// The keys of `raws`.
pub open spec fn raw_keys(raws: Seq<RawId>) -> Seq<RawKey> {
    raws.map_values(|r: RawId| r.key_spec())
}

impl IdentityRegistry {
    /// Register every segment of a chain; the nonces leave the reserved set.
    fn insert_segments(
        &mut self,
        segs: &Vec<RawId>,
        nonces: &Vec<RegistrationNonce>,
        body_key: RawKey,
        chain_key: RawKey,
    ) -> (r: (Vec<ShapeId>, Vec<RawKey>))
        requires
            old(self).wf(),
            segs@.len() == nonces@.len(),
            forall|i: int, j: int| 0 <= i < j < segs@.len()
                ==> #[trigger] segs@[i].key_spec().code_spec() != #[trigger] segs@[j].key_spec().code_spec(),
            forall|i: int, j: int| 0 <= i < j < nonces@.len()
                ==> #[trigger] nonces@[i].value_spec() != #[trigger] nonces@[j].value_spec(),
            forall|i: int| 0 <= i < segs@.len() ==> !old(self).shapes().contains_key(#[trigger] segs@[i].key_spec().code_spec()),
            forall|i: int| 0 <= i < nonces@.len() ==> old(self).reserved().contains(#[trigger] nonces@[i].value_spec()),
        ensures
            final(self).wf(),
            final(self).shapes() == segment_registrations(old(self).shapes(), segs@, nonces@, body_key, chain_key, segs@.len() as int),
            forall|a: int| 0 <= a < segs@.len() ==> final(self).shapes().contains_key(#[trigger] segs@[a].key_spec().code_spec())
                && final(self).shapes()[segs@[a].key_spec().code_spec()].nonce == nonces@[a],
            forall|c: u64| #[trigger] final(self).shapes().contains_key(c) ==> (old(self).shapes().contains_key(c)
                && final(self).shapes()[c] == old(self).shapes()[c]) || old(self).reserved().contains(final(self).shapes()[c].nonce.value_spec()),
            final(self).reserved() == old(self).reserved().difference(nonce_values(nonces@)),
            final(self).brand_spec() == old(self).brand_spec(),
            final(self).last_nonce() == old(self).last_nonce(),
            final(self).revision() == old(self).revision(),
            final(self).bodies() == old(self).bodies(),
            final(self).joints() == old(self).joints(),
            final(self).chains() == old(self).chains(),
            final(self).retired_bodies() == old(self).retired_bodies(),
            final(self).retired_shapes() == old(self).retired_shapes(),
            final(self).retired_joints() == old(self).retired_joints(),
            final(self).retired_chains() == old(self).retired_chains(),
            r.0@.len() == segs@.len(),
            forall|a: int| 0 <= a < r.0@.len() ==> (#[trigger] r.0@[a]).raw_spec() == segs@[a]
                && r.0@[a].nonce_spec() == nonces@[a] && r.0@[a].brand_spec() == old(self).brand_spec(),
            r.1@ == raw_keys(segs@),
    {
        let n = segs.len();
        let mut ids: Vec<ShapeId> = Vec::new();
        let mut keys: Vec<RawKey> = Vec::new();
        let mut i: usize = 0;
        proof {
            assert(old(self).reserved().difference(nonce_values(nonces@.take(0))) =~= old(self).reserved());
        }
        while i < n
            invariant
                i <= n,
                n == segs@.len(),
                n == nonces@.len(),
                self.wf(),
                forall|a: int, b: int| 0 <= a < b < n
                    ==> #[trigger] segs@[a].key_spec().code_spec() != #[trigger] segs@[b].key_spec().code_spec(),
                forall|a: int, b: int| 0 <= a < b < n
                    ==> #[trigger] nonces@[a].value_spec() != #[trigger] nonces@[b].value_spec(),
                forall|a: int| 0 <= a < n ==> !old(self).shapes().contains_key(#[trigger] segs@[a].key_spec().code_spec()),
                forall|a: int| 0 <= a < n ==> old(self).reserved().contains(#[trigger] nonces@[a].value_spec()),
                self.shapes() == segment_registrations(old(self).shapes(), segs@, nonces@, body_key, chain_key, i as int),
                self.reserved() == old(self).reserved().difference(nonce_values(nonces@.take(i as int))),
                self.brand_spec() == old(self).brand_spec(),
                self.last_nonce() == old(self).last_nonce(),
                self.revision() == old(self).revision(),
                self.bodies() == old(self).bodies(),
                self.joints() == old(self).joints(),
                self.chains() == old(self).chains(),
                self.retired_bodies() == old(self).retired_bodies(),
                self.retired_shapes() == old(self).retired_shapes(),
                self.retired_joints() == old(self).retired_joints(),
                self.retired_chains() == old(self).retired_chains(),
                ids@.len() == i,
                keys@ == raw_keys(segs@).take(i as int),
                forall|a: int| 0 <= a < i ==> (#[trigger] ids@[a]).raw_spec() == segs@[a]
                    && ids@[a].nonce_spec() == nonces@[a] && ids@[a].brand_spec() == old(self).brand_spec(),
                forall|a: int| 0 <= a < i ==> self.shapes().contains_key(#[trigger] segs@[a].key_spec().code_spec())
                    && self.shapes()[segs@[a].key_spec().code_spec()].nonce == nonces@[a],
                forall|a: int| i <= a < n ==> !self.shapes().contains_key(#[trigger] segs@[a].key_spec().code_spec()),
                forall|c: u64| #[trigger] self.shapes().contains_key(c) ==> (old(self).shapes().contains_key(c)
                    && self.shapes()[c] == old(self).shapes()[c]) || old(self).reserved().contains(self.shapes()[c].nonce.value_spec()),
            decreases n - i,
        {
            let seg = segs[i];
            let nonce = nonces[i];
            let k = seg.key();
            let c = k.code();
            proof {
                assert(nonces@.take(i + 1) =~= nonces@.take(i as int).push(nonce));
                assert(nonce_values(nonces@.take(i + 1)) =~= nonce_values(nonces@.take(i as int)).insert(nonce.value_spec())) by {
                    assert forall|v: u64| nonce_values(nonces@.take(i + 1)).contains(v) implies
                        nonce_values(nonces@.take(i as int)).insert(nonce.value_spec()).contains(v) by {
                        let j = choose|j: int| 0 <= j < nonces@.take(i + 1).len() && #[trigger] nonces@.take(i + 1)[j].value_spec() == v;
                        if j < i {
                            assert(nonces@.take(i as int)[j] == nonces@.take(i + 1)[j]);
                        }
                    }
                    assert forall|v: u64| nonce_values(nonces@.take(i as int)).insert(nonce.value_spec()).contains(v) implies
                        nonce_values(nonces@.take(i + 1)).contains(v) by {
                        if v == nonce.value_spec() {
                            assert(nonces@.take(i + 1)[i as int] == nonce);
                        } else {
                            let j = choose|j: int| 0 <= j < nonces@.take(i as int).len() && #[trigger] nonces@.take(i as int)[j].value_spec() == v;
                            assert(nonces@.take(i + 1)[j] == nonces@.take(i as int)[j]);
                        }
                    }
                }
                assert(!nonce_values(nonces@.take(i as int)).contains(nonce.value_spec())) by {
                    if nonce_values(nonces@.take(i as int)).contains(nonce.value_spec()) {
                        let j = choose|j: int| 0 <= j < nonces@.take(i as int).len() && #[trigger] nonces@.take(i as int)[j].value_spec() == nonce.value_spec();
                        assert(nonces@[j] == nonces@.take(i as int)[j]);
                    }
                }
                assert(self.reserved().contains(nonce.value_spec()));
            }
            self.shapes.insert(c, ShapeRegistration { nonce, body: body_key, chain: Some(chain_key) });
            proof {
                self.reserved@ = self.reserved@.remove(nonce.value_spec());
                assert(self.reserved@ =~= old(self).reserved().difference(nonce_values(nonces@.take(i + 1))));
                assert(raw_keys(segs@).take(i + 1) =~= raw_keys(segs@).take(i as int).push(k));
            }
            ids.push(ShapeId::issue(self.brand, seg, nonce));
            keys.push(k);
            i = i + 1;
        }
        proof {
            assert(raw_keys(segs@).take(n as int) =~= raw_keys(segs@));
            assert(nonces@.take(n as int) =~= nonces@);
        }
        (ids, keys)
    }

    /// Append chain `chain_key` and its segment keys to the lists of body `bc`.
    fn attach_chain_to_body(&mut self, bc: u64, chain_key: RawKey, keys: &Vec<RawKey>)
        requires
            old(self).bodies().contains_key(bc),
        ensures
            final(self).bodies().dom() == old(self).bodies().dom(),
            final(self).bodies()[bc].nonce == old(self).bodies()[bc].nonce,
            final(self).bodies()[bc].joints@ == old(self).bodies()[bc].joints@,
            final(self).bodies()[bc].chains@ == old(self).bodies()[bc].chains@.push(chain_key),
            final(self).bodies()[bc].shapes@ == old(self).bodies()[bc].shapes@ + keys@,
            forall|c: u64| #[trigger] final(self).bodies().contains_key(c) && c != bc ==> final(self).bodies()[c] == old(self).bodies()[c],
            final(self).brand_spec() == old(self).brand_spec(),
            final(self).last_nonce() == old(self).last_nonce(),
            final(self).reserved() == old(self).reserved(),
            final(self).revision() == old(self).revision(),
            final(self).shapes() == old(self).shapes(),
            final(self).joints() == old(self).joints(),
            final(self).chains() == old(self).chains(),
            final(self).retired_bodies() == old(self).retired_bodies(),
            final(self).retired_shapes() == old(self).retired_shapes(),
            final(self).retired_joints() == old(self).retired_joints(),
            final(self).retired_chains() == old(self).retired_chains(),
    {
        let mut reg = match self.bodies.remove(&bc) {
            Some(reg) => reg,
            None => {
                return;
            },
        };
        reg.chains.push(chain_key);
        let ghost shapes_before = reg.shapes@;
        let mut j: usize = 0;
        while j < keys.len()
            invariant
                j <= keys@.len(),
                reg.shapes@ == shapes_before + keys@.take(j as int),
                reg.nonce == old(self).bodies()[bc].nonce,
                reg.joints@ == old(self).bodies()[bc].joints@,
                reg.chains@ == old(self).bodies()[bc].chains@.push(chain_key),
            decreases keys@.len() - j,
        {
            reg.shapes.push(keys[j]);
            proof {
                assert(shapes_before + keys@.take(j + 1) =~= (shapes_before + keys@.take(j as int)).push(keys@[j as int]));
            }
            j = j + 1;
        }
        assert(keys@.take(keys@.len() as int) =~= keys@);
        self.bodies.insert(bc, reg);
        assert(self.bodies@.dom() =~= old(self).bodies().dom());
    }
}

impl BoundChain {
    /// Publish the chain and its segments; returns the chain id and the segment ids in order.
    pub fn publish_with_segments(self, registry: &mut IdentityRegistry) -> (r: (ChainId, Vec<ShapeId>))
        requires
            old(registry).wf(),
            old(registry).revision() == self.base_revision_spec(),
            old(registry).body_registered(self.body_spec()),
            !old(registry).chains().contains_key(self.raw_spec().key_spec().code_spec()),
            self.segment_raws_spec().len() == self.segment_nonces_spec().len(),
            forall|i: int, j: int| 0 <= i < j < self.segment_raws_spec().len()
                ==> #[trigger] self.segment_raws_spec()[i].key_spec().code_spec() != #[trigger] self.segment_raws_spec()[j].key_spec().code_spec(),
            forall|i: int, j: int| 0 <= i < j < self.segment_nonces_spec().len()
                ==> #[trigger] self.segment_nonces_spec()[i].value_spec() != #[trigger] self.segment_nonces_spec()[j].value_spec(),
            forall|i: int| 0 <= i < self.segment_raws_spec().len()
                ==> !old(registry).shapes().contains_key(#[trigger] self.segment_raws_spec()[i].key_spec().code_spec()),
            old(registry).reserved().contains(self.chain_nonce_spec().value_spec()),
            forall|i: int| 0 <= i < self.segment_nonces_spec().len()
                ==> old(registry).reserved().contains(#[trigger] self.segment_nonces_spec()[i].value_spec()),
            !nonce_values(self.segment_nonces_spec()).contains(self.chain_nonce_spec().value_spec()),
        ensures
            final(registry).wf(),
            IdentityRegistry::evolves(old(registry), final(registry)),
            r.0.raw_spec() == self.raw_spec() && r.0.nonce_spec() == self.chain_nonce_spec()
                && r.0.brand_spec() == old(registry).brand_spec(),
            final(registry).chain_active(r.0),
            r.1@.len() == self.segment_raws_spec().len(),
            forall|i: int| 0 <= i < r.1@.len() ==> (#[trigger] r.1@[i]).raw_spec() == self.segment_raws_spec()[i]
                && r.1@[i].nonce_spec() == self.segment_nonces_spec()[i]
                && r.1@[i].brand_spec() == old(registry).brand_spec()
                && final(registry).shape_active(r.1@[i]),
            final(registry).shapes() == segment_registrations(
                old(registry).shapes(),
                self.segment_raws_spec(),
                self.segment_nonces_spec(),
                self.body_spec().raw_spec().key_spec(),
                self.raw_spec().key_spec(),
                self.segment_raws_spec().len() as int,
            ),
            final(registry).chains().dom() == old(registry).chains().dom().insert(self.raw_spec().key_spec().code_spec()),
            final(registry).chains()[self.raw_spec().key_spec().code_spec()].nonce == self.chain_nonce_spec(),
            final(registry).chains()[self.raw_spec().key_spec().code_spec()].body == self.body_spec().raw_spec().key_spec(),
            final(registry).chains()[self.raw_spec().key_spec().code_spec()].segments@ == raw_keys(self.segment_raws_spec()),
            forall|c: u64| #[trigger] old(registry).chains().contains_key(c) ==> final(registry).chains()[c] == old(registry).chains()[c],
            final(registry).bodies().dom() == old(registry).bodies().dom(),
            ({
                let b = self.body_spec().raw_spec().key_spec().code_spec();
                &&& final(registry).bodies()[b].nonce == old(registry).bodies()[b].nonce
                &&& final(registry).bodies()[b].joints@ == old(registry).bodies()[b].joints@
                &&& final(registry).bodies()[b].chains@ == old(registry).bodies()[b].chains@.push(self.raw_spec().key_spec())
                &&& final(registry).bodies()[b].shapes@ == old(registry).bodies()[b].shapes@ + raw_keys(self.segment_raws_spec())
            }),
            forall|c: u64| #[trigger] final(registry).bodies().contains_key(c)
                && c != self.body_spec().raw_spec().key_spec().code_spec()
                ==> final(registry).bodies()[c] == old(registry).bodies()[c],
            final(registry).joints() == old(registry).joints(),
            final(registry).retired_bodies() == old(registry).retired_bodies(),
            final(registry).retired_shapes() == old(registry).retired_shapes(),
            final(registry).retired_joints() == old(registry).retired_joints(),
            final(registry).retired_chains() == old(registry).retired_chains(),
            final(registry).last_nonce() == old(registry).last_nonce(),
            final(registry).reserved() == old(registry).reserved().remove(self.chain_nonce_spec().value_spec()).difference(
                nonce_values(self.segment_nonces_spec()),
            ),
            final(registry).revision() == old(registry).revision().wrapping_add(1),
    {
        let chain_key = self.raw.key();
        let cc = chain_key.code();
        let body_key = self.body.into_raw().key();
        let bc = body_key.code();
        let (ids, keys) = registry.insert_segments(&self.segment_raws, &self.segment_nonces, body_key, chain_key);
        registry.attach_chain_to_body(bc, chain_key, &keys);
        let ghost mid = *registry;
        registry.chains.insert(cc, ChainRegistration { nonce: self.chain_nonce, body: body_key, segments: keys });
        proof {
            registry.reserved@ = registry.reserved@.remove(self.chain_nonce.value_spec());
            assert(registry.reserved@ =~= old(registry).reserved().remove(self.chain_nonce.value_spec()).difference(
                nonce_values(self.segment_nonces@),
            ));
            assert(mid.reserved().contains(self.chain_nonce.value_spec()));
        }
        registry.advance_revision();
        (ChainId::issue(registry.brand, self.raw, self.chain_nonce), ids)
    }
}

/// Whether reserving a chain of `n` segments overflows a table or the nonces of `registry`.
pub open spec fn chain_reservation_overflows(registry: IdentityRegistry, n: nat) -> bool {
    ||| registry.chains().len() + 1 > usize::MAX
    ||| registry.shapes().len() + n > usize::MAX
    ||| n + 1 > usize::MAX
    ||| registry.last_nonce() + n + 1 > u64::MAX
}

/// Whether native chain `raw` with segments `segs` can be registered on a registered body: both
/// belong to the world, no segment is foreign or repeated, and no slot is active or retired.
pub open spec fn chain_registration_ok(registry: IdentityRegistry, raw: RawId, segs: Seq<RawId>) -> bool {
    &&& registry.brand_spec().owns_raw(raw)
    &&& segments_ok(registry.brand_spec(), segs)
    &&& !registry.chain_slot_taken(raw.key_spec().code_spec())
    &&& forall|i: int| 0 <= i < segs.len() ==> !registry.shape_slot_taken(#[trigger] segs[i].key_spec().code_spec())
}

/// Whether `e` is what registering native chain `raw` with segments `segs` on a registered body
/// is refused with, once its identities were reserved.
pub open spec fn chain_registration_refusal(registry: IdentityRegistry, raw: RawId, segs: Seq<RawId>, e: Error) -> bool {
    if !registry.brand_spec().owns_raw(raw) {
        e == Error::WrongWorld
    } else if !segments_ok(registry.brand_spec(), segs) {
        forall|f: int| 0 <= f < segs.len() && #[trigger] bad_segment(registry.brand_spec(), segs, f)
            && (forall|j: int| 0 <= j < f ==> !bad_segment(registry.brand_spec(), segs, j))
            ==> e == if !registry.brand_spec().owns_raw(segs[f]) {
            Error::WrongWorld
        } else {
            Error::ObjectIdentityExhausted
        }
    } else {
        e == Error::ObjectIdentityExhausted && !chain_registration_ok(registry, raw, segs)
    }
}

impl IdentityRegistry {
    /// Reserve identity capacity and nonces for a chain of `segment_count` segments on `body`.
    pub fn reserve_chain(&mut self, body: BodyId, segment_count: usize) -> (r: Result<PendingChain>)
        requires
            old(self).wf(),
        ensures
            final(self).wf(),
            final(self).same_tables(old(self)),
            Self::evolves(old(self), final(self)),
            r matches Ok(p) ==> {
                &&& old(self).body_active(body)
                &&& p.chain_nonce_spec().value_spec() == old(self).last_nonce() + 1
                &&& p.segment_nonces_spec().len() == segment_count
                &&& forall|i: int| 0 <= i < segment_count ==> #[trigger] p.segment_nonces_spec()[i].value_spec()
                    == old(self).last_nonce() + 2 + i
                &&& final(self).last_nonce() == old(self).last_nonce() + segment_count + 1
                &&& final(self).reserved() == old(self).reserved().union(
                    Set::new(|n: u64| old(self).last_nonce() < n <= old(self).last_nonce() + segment_count + 1),
                )
                &&& p.body_spec() == body
                &&& p.base_revision_spec() == old(self).revision()
            },
            r matches Err(e) ==> final(self).last_nonce() == old(self).last_nonce()
                && final(self).reserved() == old(self).reserved() && (
                if body.brand_spec() != old(self).brand_spec() {
                    e == Error::WrongWorld
                } else if !old(self).body_active(body) {
                    e == Error::InvalidBodyId
                } else {
                    e == Error::IdentityTrackingAllocationFailed || (e == Error::ObjectIdentityExhausted && (
                        old(self).chains().len() + 1 > usize::MAX || old(self).shapes().len() + segment_count > usize::MAX
                        || segment_count + 1 > usize::MAX || old(self).last_nonce() + segment_count + 1 > u64::MAX))
                }),
            old(self).body_active(body) && old(self).chains().len() + 1 <= usize::MAX
                && old(self).shapes().len() + segment_count <= usize::MAX && segment_count + 1 <= usize::MAX
                && old(self).last_nonce() + segment_count + 1 <= u64::MAX ==> r is Ok || r
                == Err::<PendingChain, Error>(Error::IdentityTrackingAllocationFailed),
    {
        check_brand(self.brand, body.brand())?;
        let body_key = body.into_raw().key();
        self.require_body(body_key, body)?;
        reserve_table(&mut self.chains, &mut self.retired_chains, 1)?;
        reserve_table(&mut self.shapes, &mut self.retired_shapes, segment_count)?;
        let total = match segment_count.checked_add(1) {
            Some(total) => total,
            None => return Err(Error::ObjectIdentityExhausted),
        };
        let nonces = self.allocate_nonces(total)?;
        let chain_nonce = nonces[0];
        let mut segment_nonces: Vec<RegistrationNonce> = Vec::new();
        let mut i: usize = 1;
        while i < nonces.len()
            invariant
                1 <= i <= nonces@.len(),
                nonces@.len() == total,
                segment_nonces@.len() == i - 1,
                forall|j: int| 0 <= j < segment_nonces@.len() ==> #[trigger] segment_nonces@[j] == nonces@[j + 1],
            decreases nonces@.len() - i,
        {
            segment_nonces.push(nonces[i]);
            i = i + 1;
        }
        Ok(PendingChain { chain_nonce, segment_nonces, body, base_revision: self.revision })
    }

    /// Reserve, bind and publish a chain with its segments in one step.
    pub fn register_chain(&mut self, raw: RawId, body: BodyId, raw_segments: &Vec<RawId>) -> (r: Result<(ChainId, Vec<ShapeId>)>)
        requires
            old(self).wf(),
        ensures
            final(self).wf(),
            Self::evolves(old(self), final(self)),
            r matches Ok(p) ==> final(self).chain_active(p.0) && p.0.raw_spec() == raw && p.1@.len() == raw_segments@.len()
                && forall|i: int| 0 <= i < p.1@.len() ==> final(self).shape_active(#[trigger] p.1@[i]) && p.1@[i].raw_spec() == raw_segments@[i],
            r is Ok ==> ({
                let b = body.raw_spec().key_spec().code_spec();
                let c = raw.key_spec().code_spec();
                &&& final(self).chains()[c].body == body.raw_spec().key_spec()
                &&& final(self).chains()[c].segments@ == raw_keys(raw_segments@)
                &&& final(self).bodies().dom() == old(self).bodies().dom()
                &&& final(self).bodies()[b].nonce == old(self).bodies()[b].nonce
                &&& final(self).bodies()[b].joints@ == old(self).bodies()[b].joints@
                &&& final(self).bodies()[b].chains@ == old(self).bodies()[b].chains@.push(raw.key_spec())
                &&& final(self).bodies()[b].shapes@ == old(self).bodies()[b].shapes@ + raw_keys(raw_segments@)
                &&& forall|x: u64| #[trigger] final(self).bodies().contains_key(x) && x != b ==> final(self).bodies()[x]
                    == old(self).bodies()[x]
                &&& final(self).joints() == old(self).joints()
            }),
            r is Err ==> final(self).same_tables(old(self)),
            r is Ok ==> old(self).body_active(body) && chain_registration_ok(*old(self), raw, raw_segments@),
            r matches Err(e) ==> if body.brand_spec() != old(self).brand_spec() {
                e == Error::WrongWorld
            } else if !old(self).body_active(body) {
                e == Error::InvalidBodyId
            } else {
                e == Error::IdentityTrackingAllocationFailed
                    || (e == Error::ObjectIdentityExhausted && chain_reservation_overflows(*old(self), raw_segments@.len()))
                    || chain_registration_refusal(*old(self), raw, raw_segments@, e)
            },
            old(self).body_active(body) && !chain_reservation_overflows(*old(self), raw_segments@.len())
                && chain_registration_ok(*old(self), raw, raw_segments@)
                ==> r is Ok || r == Err::<(ChainId, Vec<ShapeId>), Error>(Error::IdentityTrackingAllocationFailed),
    {
        let pending = self.reserve_chain(body, raw_segments.len())?;
        let ghost reserved_chain = pending.chain_nonce_spec();
        let bound = pending.bind(self, raw, raw_segments)?;
        proof {
            assert forall|i: int, j: int| 0 <= i < j < bound.segment_raws_spec().len()
                implies #[trigger] bound.segment_raws_spec()[i].key_spec().code_spec() != #[trigger] bound.segment_raws_spec()[j].key_spec().code_spec() by {
                assert(!bad_segment(self.brand_spec(), raw_segments@, j));
            }
            assert(!nonce_values(bound.segment_nonces_spec()).contains(bound.chain_nonce_spec().value_spec())) by {
                if nonce_values(bound.segment_nonces_spec()).contains(bound.chain_nonce_spec().value_spec()) {
                    let j = choose|j: int| 0 <= j < bound.segment_nonces_spec().len()
                        && #[trigger] bound.segment_nonces_spec()[j].value_spec() == bound.chain_nonce_spec().value_spec();
                }
            }
        }
        Ok(bound.publish_with_segments(self))
    }
}

impl IdentityRegistry {
    /// Reserve, bind and publish a body in one step.
    pub fn register_body(&mut self, raw: RawId) -> (r: Result<BodyId>)
        requires
            old(self).wf(),
        ensures
            final(self).wf(),
            Self::evolves(old(self), final(self)),
            r matches Ok(id) ==> final(self).body_active(id) && id.raw_spec() == raw
                && id.nonce_spec().value_spec() == old(self).last_nonce() + 1
                && final(self).bodies().dom() == old(self).bodies().dom().insert(raw.key_spec().code_spec()),
            r is Err ==> final(self).same_tables(old(self)),
            r is Ok ==> old(self).brand_spec().owns_raw(raw) && !old(self).body_slot_taken(raw.key_spec().code_spec()),
            r matches Err(e) ==> reservation_failure(e, old(self).last_nonce(), old(self).bodies().len() + 1 > usize::MAX)
                || (!old(self).brand_spec().owns_raw(raw) && e == Error::WrongWorld)
                || (old(self).brand_spec().owns_raw(raw) && old(self).body_slot_taken(raw.key_spec().code_spec())
                    && e == Error::ObjectIdentityExhausted),
            old(self).last_nonce() < u64::MAX && old(self).bodies().len() + 1 <= usize::MAX ==> {
                &&& !old(self).brand_spec().owns_raw(raw) ==> r == Err::<BodyId, Error>(Error::WrongWorld)
                    || r == Err::<BodyId, Error>(Error::IdentityTrackingAllocationFailed)
                &&& old(self).brand_spec().owns_raw(raw) && old(self).body_slot_taken(raw.key_spec().code_spec())
                    ==> r == Err::<BodyId, Error>(Error::ObjectIdentityExhausted)
                    || r == Err::<BodyId, Error>(Error::IdentityTrackingAllocationFailed)
                &&& old(self).brand_spec().owns_raw(raw) && !old(self).body_slot_taken(raw.key_spec().code_spec())
                    ==> r is Ok || r == Err::<BodyId, Error>(Error::IdentityTrackingAllocationFailed)
            },
    {
        let pending = self.reserve_body()?;
        let bound = pending.bind(self, raw)?;
        Ok(bound.publish(self))
    }

    /// Reserve, bind and publish a shape on `body` in one step.
    pub fn register_shape(&mut self, raw: RawId, body: BodyId) -> (r: Result<ShapeId>)
        requires
            old(self).wf(),
        ensures
            final(self).wf(),
            Self::evolves(old(self), final(self)),
            r matches Ok(id) ==> final(self).shape_active(id) && id.raw_spec() == raw
                && id.nonce_spec().value_spec() == old(self).last_nonce() + 1,
            r is Err ==> final(self).same_tables(old(self)),
            r is Ok ==> old(self).body_active(body) && old(self).brand_spec().owns_raw(raw)
                && !old(self).shape_slot_taken(raw.key_spec().code_spec()),
            r matches Err(e) ==> if body.brand_spec() != old(self).brand_spec() {
                e == Error::WrongWorld
            } else if !old(self).body_active(body) {
                e == Error::InvalidBodyId
            } else {
                reservation_failure(e, old(self).last_nonce(), old(self).shapes().len() + 1 > usize::MAX)
                    || (!old(self).brand_spec().owns_raw(raw) && e == Error::WrongWorld)
                    || (old(self).brand_spec().owns_raw(raw) && old(self).shape_slot_taken(raw.key_spec().code_spec())
                        && e == Error::ObjectIdentityExhausted)
            },
            old(self).body_active(body) && old(self).last_nonce() < u64::MAX && old(self).shapes().len() + 1 <= usize::MAX ==> {
                &&& !old(self).brand_spec().owns_raw(raw) ==> r == Err::<ShapeId, Error>(Error::WrongWorld)
                    || r == Err::<ShapeId, Error>(Error::IdentityTrackingAllocationFailed)
                &&& old(self).brand_spec().owns_raw(raw) && old(self).shape_slot_taken(raw.key_spec().code_spec())
                    ==> r == Err::<ShapeId, Error>(Error::ObjectIdentityExhausted)
                    || r == Err::<ShapeId, Error>(Error::IdentityTrackingAllocationFailed)
                &&& old(self).brand_spec().owns_raw(raw) && !old(self).shape_slot_taken(raw.key_spec().code_spec())
                    ==> r is Ok || r == Err::<ShapeId, Error>(Error::IdentityTrackingAllocationFailed)
            },
    {
        let pending = self.reserve_shape(body)?;
        let bound = pending.bind(self, raw)?;
        Ok(bound.publish(self))
    }

    /// Reserve, bind and publish a joint between two bodies in one step.
    pub fn register_joint(&mut self, raw: RawId, body_a: BodyId, body_b: BodyId, kind: JointType) -> (r: Result<JointId>)
        requires
            old(self).wf(),
        ensures
            final(self).wf(),
            Self::evolves(old(self), final(self)),
            r matches Ok(id) ==> final(self).joint_active(id) && id.raw_spec() == raw
                && id.nonce_spec().value_spec() == old(self).last_nonce() + 1
                && final(self).joints()[raw.key_spec().code_spec()].kind == kind,
            r is Err ==> final(self).same_tables(old(self)),
            r is Ok ==> old(self).body_active(body_a) && old(self).body_active(body_b) && old(self).brand_spec().owns_raw(raw)
                && !old(self).joint_slot_taken(raw.key_spec().code_spec()),
            r matches Err(e) ==> if body_a.brand_spec() != old(self).brand_spec() || body_b.brand_spec() != old(self).brand_spec() {
                e == Error::WrongWorld
            } else if !old(self).body_active(body_a) || !old(self).body_active(body_b) {
                e == Error::InvalidBodyId
            } else {
                reservation_failure(e, old(self).last_nonce(), old(self).joints().len() + 1 > usize::MAX)
                    || (!old(self).brand_spec().owns_raw(raw) && e == Error::WrongWorld)
                    || (old(self).brand_spec().owns_raw(raw) && old(self).joint_slot_taken(raw.key_spec().code_spec())
                        && e == Error::ObjectIdentityExhausted)
            },
            old(self).body_active(body_a) && old(self).body_active(body_b) && old(self).last_nonce() < u64::MAX
                && old(self).joints().len() + 1 <= usize::MAX ==> {
                &&& !old(self).brand_spec().owns_raw(raw) ==> r == Err::<JointId, Error>(Error::WrongWorld)
                    || r == Err::<JointId, Error>(Error::IdentityTrackingAllocationFailed)
                &&& old(self).brand_spec().owns_raw(raw) && old(self).joint_slot_taken(raw.key_spec().code_spec())
                    ==> r == Err::<JointId, Error>(Error::ObjectIdentityExhausted)
                    || r == Err::<JointId, Error>(Error::IdentityTrackingAllocationFailed)
                &&& old(self).brand_spec().owns_raw(raw) && !old(self).joint_slot_taken(raw.key_spec().code_spec())
                    ==> r is Ok || r == Err::<JointId, Error>(Error::IdentityTrackingAllocationFailed)
            },
    {
        let pending = self.reserve_joint(body_a, body_b, kind)?;
        let bound = pending.bind(self, raw)?;
        Ok(bound.publish(self))
    }
}

impl Registration for BodyRegistration {
    open spec fn nonce_of(&self) -> RegistrationNonce {
        self.nonce
    }

    open spec fn matches(&self, other: &Self) -> bool {
        &&& self.shapes@ == other.shapes@
        &&& self.joints@ == other.joints@
        &&& self.chains@ == other.chains@
    }

    fn nonce(&self) -> (n: RegistrationNonce) {
        self.nonce
    }

    fn renonced(&self, nonce: RegistrationNonce) -> (r: Self) {
        BodyRegistration {
            nonce,
            shapes: copy_keys(&self.shapes),
            joints: copy_keys(&self.joints),
            chains: copy_keys(&self.chains),
        }
    }
}

impl Registration for ShapeRegistration {
    open spec fn nonce_of(&self) -> RegistrationNonce {
        self.nonce
    }

    open spec fn matches(&self, other: &Self) -> bool {
        self.body == other.body && self.chain == other.chain
    }

    fn nonce(&self) -> (n: RegistrationNonce) {
        self.nonce
    }

    fn renonced(&self, nonce: RegistrationNonce) -> (r: Self) {
        ShapeRegistration { nonce, body: self.body, chain: self.chain }
    }
}

impl Registration for JointRegistration {
    open spec fn nonce_of(&self) -> RegistrationNonce {
        self.nonce
    }

    open spec fn matches(&self, other: &Self) -> bool {
        self.body_a == other.body_a && self.body_b == other.body_b && self.kind == other.kind
    }

    fn nonce(&self) -> (n: RegistrationNonce) {
        self.nonce
    }

    fn renonced(&self, nonce: RegistrationNonce) -> (r: Self) {
        JointRegistration { nonce, body_a: self.body_a, body_b: self.body_b, kind: self.kind }
    }
}

impl Registration for ChainRegistration {
    open spec fn nonce_of(&self) -> RegistrationNonce {
        self.nonce
    }

    open spec fn matches(&self, other: &Self) -> bool {
        self.body == other.body && self.segments@ == other.segments@
    }

    fn nonce(&self) -> (n: RegistrationNonce) {
        self.nonce
    }

    fn renonced(&self, nonce: RegistrationNonce) -> (r: Self) {
        ChainRegistration { nonce, body: self.body, segments: copy_keys(&self.segments) }
    }
}

/// Whether every key code of `m` is a valid code.
pub open spec fn codes_valid<T>(m: Map<u64, T>) -> bool {
    forall|c: u64| #[trigger] m.contains_key(c) ==> c < KEY_CODE_LIMIT
}

/// `copy` holds the same registrations as `table`.
pub open spec fn same_registrations<T: Registration>(table: Map<u64, T>, copy: Map<u64, T>) -> bool {
    &&& copy.dom() == table.dom()
    &&& forall|c: u64| #[trigger] copy.contains_key(c) ==> table[c].matches(&copy[c]) && copy[c].nonce_of() == table[c].nonce_of()
}

/// In-process snapshot of an identity table, taken together with a native world snapshot.
pub struct IdentityManifest {
    brand: IdBrand,
    bodies: HashMap<u64, BodyRegistration>,
    shapes: HashMap<u64, ShapeRegistration>,
    joints: HashMap<u64, JointRegistration>,
    chains: HashMap<u64, ChainRegistration>,
}

impl IdentityManifest {
    #[verifier::type_invariant]
    spec fn keys_valid(&self) -> bool {
        &&& codes_valid(self.bodies@)
        &&& codes_valid(self.shapes@)
        &&& codes_valid(self.joints@)
        &&& codes_valid(self.chains@)
    }

    pub closed spec fn brand_spec(&self) -> IdBrand {
        self.brand
    }

    pub closed spec fn bodies(&self) -> Map<u64, BodyRegistration> {
        self.bodies@
    }

    pub closed spec fn shapes(&self) -> Map<u64, ShapeRegistration> {
        self.shapes@
    }

    pub closed spec fn joints(&self) -> Map<u64, JointRegistration> {
        self.joints@
    }

    pub closed spec fn chains(&self) -> Map<u64, ChainRegistration> {
        self.chains@
    }

    pub(crate) fn body_table(&self) -> (t: &HashMap<u64, BodyRegistration>)
        ensures
            t@ == self.bodies(),
            codes_valid(t@),
    {
        proof {
            use_type_invariant(self);
        }
        &self.bodies
    }

    pub(crate) fn shape_table(&self) -> (t: &HashMap<u64, ShapeRegistration>)
        ensures
            t@ == self.shapes(),
            codes_valid(t@),
    {
        proof {
            use_type_invariant(self);
        }
        &self.shapes
    }

    pub(crate) fn joint_table(&self) -> (t: &HashMap<u64, JointRegistration>)
        ensures
            t@ == self.joints(),
            codes_valid(t@),
    {
        proof {
            use_type_invariant(self);
        }
        &self.joints
    }

    pub(crate) fn chain_table(&self) -> (t: &HashMap<u64, ChainRegistration>)
        ensures
            t@ == self.chains(),
            codes_valid(t@),
    {
        proof {
            use_type_invariant(self);
        }
        &self.chains
    }
}

/// A fully allocated replacement identity table; inert until committed.
pub struct PreparedIdentityRestore {
    brand: IdBrand,
    base_revision: u128,
    bodies: HashMap<u64, BodyRegistration>,
    shapes: HashMap<u64, ShapeRegistration>,
    joints: HashMap<u64, JointRegistration>,
    chains: HashMap<u64, ChainRegistration>,
    bound: Ghost<u64>,
}

/// Every nonce of `m` is positive and at most `bound`.
pub open spec fn nonces_bounded<T: Registration>(m: Map<u64, T>, bound: u64) -> bool {
    forall|c: u64| #[trigger] m.contains_key(c) ==> 0 < m[c].nonce_of().value_spec() <= bound
}

/// `target` rebuilds `snapshot`: same slots and relations; an entry keeps its nonce exactly when
/// it names the current registration, and otherwise takes a distinct nonce in `(low, high]`.
pub open spec fn rebuilt<T: Registration>(
    current: Map<u64, T>,
    snapshot: Map<u64, T>,
    target: Map<u64, T>,
    low: int,
    high: int,
) -> bool {
    &&& target.dom() == snapshot.dom()
    &&& forall|c: u64| #[trigger] target.contains_key(c) ==> snapshot[c].matches(&target[c])
    &&& forall|c: u64| #[trigger] target.contains_key(c) && !changed(current, snapshot)(c)
        ==> target[c].nonce_of() == snapshot[c].nonce_of()
    &&& forall|c: u64| #[trigger] target.contains_key(c) && changed(current, snapshot)(c)
        ==> low < target[c].nonce_of().value_spec() <= high
    &&& forall|c1: u64, c2: u64| #[trigger] target.contains_key(c1) && #[trigger] target.contains_key(c2) && c1 != c2
        && changed(current, snapshot)(c1) && changed(current, snapshot)(c2)
        ==> target[c1].nonce_of().value_spec() != target[c2].nonce_of().value_spec()
}

impl PreparedIdentityRestore {
    #[verifier::type_invariant]
    spec fn bounded(&self) -> bool {
        &&& codes_valid(self.bodies@)
        &&& codes_valid(self.shapes@)
        &&& codes_valid(self.joints@)
        &&& codes_valid(self.chains@)
        &&& nonces_bounded(self.bodies@, self.bound@)
        &&& nonces_bounded(self.shapes@, self.bound@)
        &&& nonces_bounded(self.joints@, self.bound@)
        &&& nonces_bounded(self.chains@, self.bound@)
    }

    pub closed spec fn brand_spec(&self) -> IdBrand {
        self.brand
    }

    pub closed spec fn base_revision_spec(&self) -> u128 {
        self.base_revision
    }

    /// The last nonce allocated when the table was prepared.
    pub closed spec fn bound_spec(&self) -> u64 {
        self.bound@
    }

    pub closed spec fn bodies(&self) -> Map<u64, BodyRegistration> {
        self.bodies@
    }

    pub closed spec fn shapes(&self) -> Map<u64, ShapeRegistration> {
        self.shapes@
    }

    pub closed spec fn joints(&self) -> Map<u64, JointRegistration> {
        self.joints@
    }

    pub closed spec fn chains(&self) -> Map<u64, ChainRegistration> {
        self.chains@
    }

    /// This table was prepared by `registry` (as it stood before preparing) from `manifest`.
    pub open spec fn prepared_from(&self, registry: &IdentityRegistry, manifest: &IdentityManifest) -> bool {
        &&& self.brand_spec() == registry.brand_spec()
        &&& self.base_revision_spec() == registry.revision()
        &&& self.bound_spec() == registry.last_nonce() + restore_fresh_count(registry, manifest)
        &&& rebuilt(registry.bodies(), manifest.bodies(), self.bodies(), registry.last_nonce() as int, fresh_end(registry, manifest, 1))
        &&& rebuilt(registry.shapes(), manifest.shapes(), self.shapes(), fresh_end(registry, manifest, 1), fresh_end(registry, manifest, 2))
        &&& rebuilt(registry.joints(), manifest.joints(), self.joints(), fresh_end(registry, manifest, 2), fresh_end(registry, manifest, 3))
        &&& rebuilt(registry.chains(), manifest.chains(), self.chains(), fresh_end(registry, manifest, 3), self.bound_spec() as int)
    }

    /// The nonces this table took afresh for its body entries.
    pub open spec fn fresh_body_nonces(&self, registry: &IdentityRegistry, manifest: &IdentityManifest) -> Set<u64> {
        fresh_nonces(registry.bodies(), manifest.bodies(), self.bodies())
    }

    /// The nonces this table took afresh for its shape entries.
    pub open spec fn fresh_shape_nonces(&self, registry: &IdentityRegistry, manifest: &IdentityManifest) -> Set<u64> {
        fresh_nonces(registry.shapes(), manifest.shapes(), self.shapes())
    }

    /// The nonces this table took afresh for its joint entries.
    pub open spec fn fresh_joint_nonces(&self, registry: &IdentityRegistry, manifest: &IdentityManifest) -> Set<u64> {
        fresh_nonces(registry.joints(), manifest.joints(), self.joints())
    }

    /// The nonces this table took afresh for its chain entries.
    pub open spec fn fresh_chain_nonces(&self, registry: &IdentityRegistry, manifest: &IdentityManifest) -> Set<u64> {
        fresh_nonces(registry.chains(), manifest.chains(), self.chains())
    }

    /// All fresh nonces of a restore come from one allocation, so no nonce is given to entries of
    /// two different kinds: the fresh body, shape, joint and chain nonces are pairwise disjoint.
    pub proof fn lemma_fresh_nonces_disjoint_across_kinds(&self, registry: &IdentityRegistry, manifest: &IdentityManifest)
        requires
            self.prepared_from(registry, manifest),
        ensures
            self.fresh_body_nonces(registry, manifest).disjoint(self.fresh_shape_nonces(registry, manifest)),
            self.fresh_body_nonces(registry, manifest).disjoint(self.fresh_joint_nonces(registry, manifest)),
            self.fresh_body_nonces(registry, manifest).disjoint(self.fresh_chain_nonces(registry, manifest)),
            self.fresh_shape_nonces(registry, manifest).disjoint(self.fresh_joint_nonces(registry, manifest)),
            self.fresh_shape_nonces(registry, manifest).disjoint(self.fresh_chain_nonces(registry, manifest)),
            self.fresh_joint_nonces(registry, manifest).disjoint(self.fresh_chain_nonces(registry, manifest)),
    {
        let l = registry.last_nonce() as int;
        let e1 = fresh_end(registry, manifest, 1);
        let e2 = fresh_end(registry, manifest, 2);
        let e3 = fresh_end(registry, manifest, 3);
        let h = self.bound_spec() as int;
        lemma_fresh_nonces_in_range(registry.bodies(), manifest.bodies(), self.bodies(), l, e1);
        lemma_fresh_nonces_in_range(registry.shapes(), manifest.shapes(), self.shapes(), e1, e2);
        lemma_fresh_nonces_in_range(registry.joints(), manifest.joints(), self.joints(), e2, e3);
        lemma_fresh_nonces_in_range(registry.chains(), manifest.chains(), self.chains(), e3, h);
    }
}

/// How many fresh nonces restoring `manifest` into `registry` takes.
pub open spec fn restore_fresh_count(registry: &IdentityRegistry, manifest: &IdentityManifest) -> nat {
    changed_count(registry.bodies(), manifest.bodies()) + changed_count(registry.shapes(), manifest.shapes())
        + changed_count(registry.joints(), manifest.joints()) + changed_count(registry.chains(), manifest.chains())
}

/// Where the fresh nonces of the first `kinds` tables (bodies, shapes, joints, in that order) end.
pub open spec fn fresh_end(registry: &IdentityRegistry, manifest: &IdentityManifest, kinds: int) -> int {
    registry.last_nonce() + changed_count(registry.bodies(), manifest.bodies())
        + if kinds >= 2 { changed_count(registry.shapes(), manifest.shapes()) as int } else { 0 }
        + if kinds >= 3 { changed_count(registry.joints(), manifest.joints()) as int } else { 0 }
}

/// The nonce values that `target` gave afresh to entries of `snapshot` that are no longer current.
pub open spec fn fresh_nonces<T: Registration>(current: Map<u64, T>, snapshot: Map<u64, T>, target: Map<u64, T>) -> Set<u64> {
    Set::new(|v: u64| exists|c: u64| #[trigger] target.contains_key(c) && changed(current, snapshot)(c) && target[c].nonce_of().value_spec() == v)
}

/// A table rebuilt within `(low, high]` takes its fresh nonces from that range.
pub proof fn lemma_fresh_nonces_in_range<T: Registration>(
    current: Map<u64, T>,
    snapshot: Map<u64, T>,
    target: Map<u64, T>,
    low: int,
    high: int,
)
    requires
        rebuilt(current, snapshot, target, low, high),
    ensures
        forall|v: u64| #[trigger] fresh_nonces(current, snapshot, target).contains(v) ==> low < v <= high,
{
    assert forall|v: u64| #[trigger] fresh_nonces(current, snapshot, target).contains(v) implies low < v <= high by {
        let c = choose|c: u64| #[trigger] target.contains_key(c) && changed(current, snapshot)(c) && target[c].nonce_of().value_spec() == v;
    }
}

impl IdentityRegistry {
    /// Copy the active identity table for a snapshot.
    pub fn snapshot_manifest(&self) -> (r: Result<IdentityManifest>)
        requires
            self.wf(),
        ensures
            r matches Ok(m) ==> m.brand_spec() == self.brand_spec() && same_registrations(self.bodies(), m.bodies())
                && same_registrations(self.shapes(), m.shapes()) && same_registrations(self.joints(), m.joints())
                && same_registrations(self.chains(), m.chains()),
            r matches Err(e) ==> e == Error::IdentityTrackingAllocationFailed,
    {
        let bodies = copy_table(&self.bodies)?;
        let shapes = copy_table(&self.shapes)?;
        let joints = copy_table(&self.joints)?;
        let chains = copy_table(&self.chains)?;
        Ok(IdentityManifest { brand: self.brand, bodies, shapes, joints, chains })
    }

    /// Preallocate a complete replacement identity table without changing the active one.
    ///
    /// A snapshot entry keeps its nonce only when it names the exact current registration of its
    /// slot; every other entry receives a fresh nonce, so an id that went stale cannot become valid
    /// again through a restore.
    pub fn prepare_restore(&mut self, manifest: &IdentityManifest) -> (r: Result<PreparedIdentityRestore>)
        requires
            old(self).wf(),
        ensures
            final(self).wf(),
            final(self).same_tables(old(self)),
            Self::evolves(old(self), final(self)),
            r matches Ok(p) ==> p.prepared_from(old(self), manifest) && p.bound_spec() == final(self).last_nonce()
                && final(self).last_nonce() == old(self).last_nonce() + restore_fresh_count(old(self), manifest),
            r matches Err(e) ==> final(self).last_nonce() == old(self).last_nonce() && final(self).reserved() == old(self).reserved()
                || e == Error::IdentityTrackingAllocationFailed,
            manifest.brand_spec() != old(self).brand_spec() <==> r == Err::<PreparedIdentityRestore, Error>(Error::WrongWorld),
            r matches Err(e) ==> manifest.brand_spec() == old(self).brand_spec() ==> e == Error::IdentityTrackingAllocationFailed
                || (e == Error::ObjectIdentityExhausted && (restore_fresh_count(old(self), manifest) > usize::MAX
                || old(self).last_nonce() + restore_fresh_count(old(self), manifest) > u64::MAX)),
            manifest.brand_spec() == old(self).brand_spec() && (restore_fresh_count(old(self), manifest) > usize::MAX
                || old(self).last_nonce() + restore_fresh_count(old(self), manifest) > u64::MAX)
                ==> r == Err::<PreparedIdentityRestore, Error>(Error::ObjectIdentityExhausted),
    {
        if manifest.brand != self.brand {
            return Err(Error::WrongWorld);
        }
        proof {
            use_type_invariant(manifest);
        }
        let nb = count_changed(&self.bodies, &manifest.bodies);
        let ns = count_changed(&self.shapes, &manifest.shapes);
        let nj = count_changed(&self.joints, &manifest.joints);
        let nc = count_changed(&self.chains, &manifest.chains);
        let total = match nb.checked_add(ns) {
            Some(t) => match t.checked_add(nj) {
                Some(t) => match t.checked_add(nc) {
                    Some(t) => t,
                    None => return Err(Error::ObjectIdentityExhausted),
                },
                None => return Err(Error::ObjectIdentityExhausted),
            },
            None => return Err(Error::ObjectIdentityExhausted),
        };
        let ghost before = *self;
        let fresh = self.allocate_nonces(total)?;
        proof {
            assert forall|i: int, j: int| 0 <= i < j < fresh@.len() implies #[trigger] fresh@[i].value_spec() != #[trigger] fresh@[j].value_spec() by {}
        }
        let (bodies, e1) = restore_table(&self.bodies, &manifest.bodies, &fresh, 0)?;
        let (shapes, e2) = restore_table(&self.shapes, &manifest.shapes, &fresh, e1)?;
        let (joints, e3) = restore_table(&self.joints, &manifest.joints, &fresh, e2)?;
        let (chains, e4) = restore_table(&self.chains, &manifest.chains, &fresh, e3)?;
        proof {
            let l = before.last_nonce() as int;
            assert forall|c: u64| #[trigger] bodies@.contains_key(c) && changed(before.bodies(), manifest.bodies())(c)
                implies l < bodies@[c].nonce_of().value_spec() <= l + e1 by {
                let i = choose|i: int| 0 <= i < e1 && bodies@[c].nonce_of() == #[trigger] fresh@[i];
            }
            assert forall|c: u64| #[trigger] shapes@.contains_key(c) && changed(before.shapes(), manifest.shapes())(c)
                implies l + e1 < shapes@[c].nonce_of().value_spec() <= l + e2 by {
                let i = choose|i: int| e1 <= i < e2 && shapes@[c].nonce_of() == #[trigger] fresh@[i];
            }
            assert forall|c: u64| #[trigger] joints@.contains_key(c) && changed(before.joints(), manifest.joints())(c)
                implies l + e2 < joints@[c].nonce_of().value_spec() <= l + e3 by {
                let i = choose|i: int| e2 <= i < e3 && joints@[c].nonce_of() == #[trigger] fresh@[i];
            }
            assert forall|c: u64| #[trigger] chains@.contains_key(c) && changed(before.chains(), manifest.chains())(c)
                implies l + e3 < chains@[c].nonce_of().value_spec() <= l + e4 by {
                let i = choose|i: int| e3 <= i < e4 && chains@[c].nonce_of() == #[trigger] fresh@[i];
            }
            assert forall|c: u64| #[trigger] bodies@.contains_key(c) implies 0 < bodies@[c].nonce_of().value_spec() <= self.last_nonce() by {
                if changed(before.bodies(), manifest.bodies())(c) {
                    let i = choose|i: int| 0 <= i < e1 && bodies@[c].nonce_of() == #[trigger] fresh@[i];
                }
            }
            assert forall|c: u64| #[trigger] shapes@.contains_key(c) implies 0 < shapes@[c].nonce_of().value_spec() <= self.last_nonce() by {
                if changed(before.shapes(), manifest.shapes())(c) {
                    let i = choose|i: int| e1 <= i < e2 && shapes@[c].nonce_of() == #[trigger] fresh@[i];
                }
            }
            assert forall|c: u64| #[trigger] joints@.contains_key(c) implies 0 < joints@[c].nonce_of().value_spec() <= self.last_nonce() by {
                if changed(before.joints(), manifest.joints())(c) {
                    let i = choose|i: int| e2 <= i < e3 && joints@[c].nonce_of() == #[trigger] fresh@[i];
                }
            }
            assert forall|c: u64| #[trigger] chains@.contains_key(c) implies 0 < chains@[c].nonce_of().value_spec() <= self.last_nonce() by {
                if changed(before.chains(), manifest.chains())(c) {
                    let i = choose|i: int| e3 <= i < e4 && chains@[c].nonce_of() == #[trigger] fresh@[i];
                }
            }
        }
        Ok(PreparedIdentityRestore {
            brand: self.brand,
            base_revision: self.revision,
            bodies,
            shapes,
            joints,
            chains,
            bound: Ghost(self.last_nonce),
        })
    }
}

/// The nonce values stored in `m`.
pub open spec fn stored_nonces<T: Registration>(m: Map<u64, T>) -> Set<u64> {
    Set::new(|v: u64| exists|c: u64| #[trigger] m.contains_key(c) && m[c].nonce_of().value_spec() == v)
}

impl IdentityRegistry {
    /// Whether the active tables are exactly those of `prepared`, with nothing retired.
    pub open spec fn holds(&self, prepared: &PreparedIdentityRestore) -> bool {
        &&& self.bodies() == prepared.bodies()
        &&& self.shapes() == prepared.shapes()
        &&& self.joints() == prepared.joints()
        &&& self.chains() == prepared.chains()
        &&& self.retired_bodies().is_empty()
        &&& self.retired_shapes().is_empty()
        &&& self.retired_joints().is_empty()
        &&& self.retired_chains().is_empty()
    }

    /// What committing `prepared` into `before` answers and leaves: a table of another world is
    /// refused with `WrongWorld`, one prepared before the registry last changed with `WorldBusy`,
    /// both leaving the tables as they were; otherwise the tables become the prepared ones, nothing
    /// stays retired, and the revision advances by one.
    pub open spec fn commit_outcome(before: &Self, prepared: &PreparedIdentityRestore, after: &Self, r: Result<()>) -> bool {
        &&& after.brand_spec() == before.brand_spec()
        &&& after.last_nonce() == before.last_nonce()
        &&& (r is Ok <==> prepared.brand_spec() == before.brand_spec() && prepared.base_revision_spec() == before.revision())
        &&& (r matches Err(e) ==> after.same_tables(before) && after.reserved() == before.reserved()
            && if prepared.brand_spec() != before.brand_spec() {
            e == Error::WrongWorld
        } else {
            e == Error::WorldBusy
        })
        &&& (r is Ok ==> after.holds(prepared) && after.revision() == before.revision().wrapping_add(1)
            && after.reserved() == before.reserved().difference(stored_nonces(prepared.bodies()))
            .difference(stored_nonces(prepared.shapes())).difference(stored_nonces(prepared.joints()))
            .difference(stored_nonces(prepared.chains())))
    }

    /// Preparing a restore and committing it later. Whatever the registry did in between, the
    /// commit's precondition holds; a table prepared by another world is refused with
    /// `WrongWorld`; if the registry changed since the restore was prepared, the commit answers
    /// `WorldBusy` and leaves the tables as they are; otherwise the active tables become exactly
    /// the prepared ones and the revision advances by one.
    pub proof fn lemma_prepare_then_commit(
        preparer: &Self,
        manifest: &IdentityManifest,
        prepared: &PreparedIdentityRestore,
        prepared_in: &Self,
        current: &Self,
        r: Result<()>,
        after: &Self,
    )
        requires
            prepared.prepared_from(preparer, manifest),
            prepared.bound_spec() == prepared_in.last_nonce(),
            Self::evolves(preparer, prepared_in),
            prepared_in.brand_spec() == current.brand_spec() ==> Self::evolves(prepared_in, current),
            Self::commit_outcome(current, prepared, after, r),
        ensures
            prepared.brand_spec() == current.brand_spec() ==> current.last_nonce() >= prepared.bound_spec(),
            prepared.brand_spec() != current.brand_spec() ==> r == Err::<(), Error>(Error::WrongWorld) && after.same_tables(current),
            prepared.brand_spec() == current.brand_spec() && current.revision() != prepared.base_revision_spec()
                ==> r == Err::<(), Error>(Error::WorldBusy) && after.same_tables(current),
            prepared.brand_spec() == current.brand_spec() && current.revision() == prepared.base_revision_spec() ==> r is Ok
                && after.holds(prepared) && after.revision() == current.revision().wrapping_add(1),
    {
    }

    /// Atomically replace the identity table by a previously prepared one.
    pub fn commit_restore(&mut self, prepared: PreparedIdentityRestore) -> (r: Result<()>)
        requires
            old(self).wf(),
            prepared.brand_spec() == old(self).brand_spec() ==> old(self).last_nonce() >= prepared.bound_spec(),
        ensures
            final(self).wf(),
            Self::commit_outcome(old(self), &prepared, final(self), r),
            final(self).brand_spec() == old(self).brand_spec(),
            final(self).last_nonce() == old(self).last_nonce(),
            r is Ok <==> prepared.brand_spec() == old(self).brand_spec() && prepared.base_revision_spec() == old(self).revision(),
            r matches Err(e) ==> final(self).same_tables(old(self)) && final(self).reserved() == old(self).reserved()
                && if prepared.brand_spec() != old(self).brand_spec() {
                e == Error::WrongWorld
            } else {
                e == Error::WorldBusy
            },
            r is Ok ==> final(self).holds(&prepared) && final(self).revision() == old(self).revision().wrapping_add(1)
                && final(self).reserved() == old(self).reserved().difference(stored_nonces(prepared.bodies()))
                .difference(stored_nonces(prepared.shapes())).difference(stored_nonces(prepared.joints()))
                .difference(stored_nonces(prepared.chains())),
    {
        if prepared.brand != self.brand {
            return Err(Error::WrongWorld);
        }
        if prepared.base_revision != self.revision {
            return Err(Error::WorldBusy);
        }
        proof {
            use_type_invariant(&prepared);
        }
        let ghost target = prepared;
        let PreparedIdentityRestore { brand: _, base_revision: _, bodies, shapes, joints, chains, bound: _ } = prepared;
        self.bodies = bodies;
        self.shapes = shapes;
        self.joints = joints;
        self.chains = chains;
        self.retired_bodies = HashMap::new();
        self.retired_shapes = HashMap::new();
        self.retired_joints = HashMap::new();
        self.retired_chains = HashMap::new();
        proof {
            self.reserved@ = self.reserved@.difference(stored_nonces(target.bodies())).difference(stored_nonces(target.shapes()))
                .difference(stored_nonces(target.joints())).difference(stored_nonces(target.chains()));
            assert forall|c: u64| #[trigger] self.bodies@.contains_key(c) implies !self.reserved@.contains(self.bodies@[c].nonce.value_spec()) by {
                assert(stored_nonces(target.bodies()).contains(self.bodies@[c].nonce.value_spec()));
            }
            assert forall|c: u64| #[trigger] self.shapes@.contains_key(c) implies !self.reserved@.contains(self.shapes@[c].nonce.value_spec()) by {
                assert(stored_nonces(target.shapes()).contains(self.shapes@[c].nonce.value_spec()));
            }
            assert forall|c: u64| #[trigger] self.joints@.contains_key(c) implies !self.reserved@.contains(self.joints@[c].nonce.value_spec()) by {
                assert(stored_nonces(target.joints()).contains(self.joints@[c].nonce.value_spec()));
            }
            assert forall|c: u64| #[trigger] self.chains@.contains_key(c) implies !self.reserved@.contains(self.chains@[c].nonce.value_spec()) by {
                assert(stored_nonces(target.chains()).contains(self.chains@[c].nonce.value_spec()));
            }
        }
        self.advance_revision();
        Ok(())
    }

    /// A restore never revives a stale body id: an id active once a prepared restore is committed
    /// was active under the same nonce before the restore was prepared, or carries a nonce that
    /// the restore itself allocated.
    pub proof fn lemma_restore_never_revives_body(
        before: &Self,
        manifest: &IdentityManifest,
        prepared: &PreparedIdentityRestore,
        after: &Self,
        id: BodyId,
    )
        requires
            prepared.prepared_from(before, manifest),
            after.holds(prepared),
            after.brand_spec() == before.brand_spec(),
            after.body_active(id),
        ensures
            before.body_active(id) || id.nonce_spec().value_spec() > before.last_nonce(),
    {
        let c = id.raw_spec().key_spec().code_spec();
        assert(prepared.bodies().contains_key(c));
    }

    /// A restore never revives a stale shape id; see [`Self::lemma_restore_never_revives_body`].
    pub proof fn lemma_restore_never_revives_shape(
        before: &Self,
        manifest: &IdentityManifest,
        prepared: &PreparedIdentityRestore,
        after: &Self,
        id: ShapeId,
    )
        requires
            prepared.prepared_from(before, manifest),
            after.holds(prepared),
            after.brand_spec() == before.brand_spec(),
            after.shape_active(id),
        ensures
            before.shape_active(id) || id.nonce_spec().value_spec() > before.last_nonce(),
    {
        let c = id.raw_spec().key_spec().code_spec();
        assert(prepared.shapes().contains_key(c));
    }

    /// A restore never revives a stale joint id; see [`Self::lemma_restore_never_revives_body`].
    pub proof fn lemma_restore_never_revives_joint(
        before: &Self,
        manifest: &IdentityManifest,
        prepared: &PreparedIdentityRestore,
        after: &Self,
        id: JointId,
    )
        requires
            prepared.prepared_from(before, manifest),
            after.holds(prepared),
            after.brand_spec() == before.brand_spec(),
            after.joint_active(id),
        ensures
            before.joint_active(id) || id.nonce_spec().value_spec() > before.last_nonce(),
    {
        let c = id.raw_spec().key_spec().code_spec();
        assert(prepared.joints().contains_key(c));
    }

    /// A restore never revives a stale chain id; see [`Self::lemma_restore_never_revives_body`].
    pub proof fn lemma_restore_never_revives_chain(
        before: &Self,
        manifest: &IdentityManifest,
        prepared: &PreparedIdentityRestore,
        after: &Self,
        id: ChainId,
    )
        requires
            prepared.prepared_from(before, manifest),
            after.holds(prepared),
            after.brand_spec() == before.brand_spec(),
            after.chain_active(id),
        ensures
            before.chain_active(id) || id.nonce_spec().value_spec() > before.last_nonce(),
    {
        let c = id.raw_spec().key_spec().code_spec();
        assert(prepared.chains().contains_key(c));
    }

    /// A restore keeps every snapshot entry that still names the exact current registration: the
    /// body id recorded in the snapshot stays valid across the restore.
    pub proof fn lemma_restore_preserves_current_body(
        before: &Self,
        manifest: &IdentityManifest,
        prepared: &PreparedIdentityRestore,
        after: &Self,
        id: BodyId,
    )
        requires
            prepared.prepared_from(before, manifest),
            after.holds(prepared),
            after.brand_spec() == before.brand_spec(),
            before.body_active(id),
            manifest.bodies().contains_key(id.raw_spec().key_spec().code_spec()),
            manifest.bodies()[id.raw_spec().key_spec().code_spec()].nonce == id.nonce_spec(),
        ensures
            after.body_active(id),
    {
        let c = id.raw_spec().key_spec().code_spec();
        assert(!changed(before.bodies(), manifest.bodies())(c));
        assert(prepared.bodies().contains_key(c));
    }
}

impl PreparedIdentityRestore {
    /// The id a snapshot body id takes after this restore, if its registration is restored.
    pub fn body_after_restore(&self, manifest: &IdentityManifest, snapshot_id: BodyId) -> (r: Option<BodyId>)
        ensures
            r is Some <==> snapshot_id.brand_spec() == self.brand_spec() && manifest.brand_spec() == self.brand_spec()
                && manifest.bodies().contains_key(snapshot_id.raw_spec().key_spec().code_spec())
                && manifest.bodies()[snapshot_id.raw_spec().key_spec().code_spec()].nonce == snapshot_id.nonce_spec()
                && self.bodies().contains_key(snapshot_id.raw_spec().key_spec().code_spec()),
            r matches Some(id) ==> id.raw_spec() == snapshot_id.raw_spec() && id.brand_spec() == self.brand_spec()
                && id.nonce_spec() == self.bodies()[snapshot_id.raw_spec().key_spec().code_spec()].nonce,
    {
        if snapshot_id.brand() != self.brand || manifest.brand != self.brand {
            return None;
        }
        let c = snapshot_id.into_raw().key().code();
        match manifest.bodies.get(&c) {
            Some(entry) => {
                if entry.nonce != snapshot_id.registration_nonce() {
                    return None;
                }
            },
            None => return None,
        }
        match self.bodies.get(&c) {
            Some(entry) => Some(BodyId::issue(self.brand, snapshot_id.into_raw(), entry.nonce)),
            None => None,
        }
    }

    /// The id a snapshot shape id takes after this restore, if its registration is restored.
    pub fn shape_after_restore(&self, manifest: &IdentityManifest, snapshot_id: ShapeId) -> (r: Option<ShapeId>)
        ensures
            r is Some <==> snapshot_id.brand_spec() == self.brand_spec() && manifest.brand_spec() == self.brand_spec()
                && manifest.shapes().contains_key(snapshot_id.raw_spec().key_spec().code_spec())
                && manifest.shapes()[snapshot_id.raw_spec().key_spec().code_spec()].nonce == snapshot_id.nonce_spec()
                && self.shapes().contains_key(snapshot_id.raw_spec().key_spec().code_spec()),
            r matches Some(id) ==> id.raw_spec() == snapshot_id.raw_spec() && id.brand_spec() == self.brand_spec()
                && id.nonce_spec() == self.shapes()[snapshot_id.raw_spec().key_spec().code_spec()].nonce,
    {
        if snapshot_id.brand() != self.brand || manifest.brand != self.brand {
            return None;
        }
        let c = snapshot_id.into_raw().key().code();
        match manifest.shapes.get(&c) {
            Some(entry) => {
                if entry.nonce != snapshot_id.registration_nonce() {
                    return None;
                }
            },
            None => return None,
        }
        match self.shapes.get(&c) {
            Some(entry) => Some(ShapeId::issue(self.brand, snapshot_id.into_raw(), entry.nonce)),
            None => None,
        }
    }

    /// The id a snapshot joint id takes after this restore, if its registration is restored.
    pub fn joint_after_restore(&self, manifest: &IdentityManifest, snapshot_id: JointId) -> (r: Option<JointId>)
        ensures
            r is Some <==> snapshot_id.brand_spec() == self.brand_spec() && manifest.brand_spec() == self.brand_spec()
                && manifest.joints().contains_key(snapshot_id.raw_spec().key_spec().code_spec())
                && manifest.joints()[snapshot_id.raw_spec().key_spec().code_spec()].nonce == snapshot_id.nonce_spec()
                && self.joints().contains_key(snapshot_id.raw_spec().key_spec().code_spec()),
            r matches Some(id) ==> id.raw_spec() == snapshot_id.raw_spec() && id.brand_spec() == self.brand_spec()
                && id.nonce_spec() == self.joints()[snapshot_id.raw_spec().key_spec().code_spec()].nonce,
    {
        if snapshot_id.brand() != self.brand || manifest.brand != self.brand {
            return None;
        }
        let c = snapshot_id.into_raw().key().code();
        match manifest.joints.get(&c) {
            Some(entry) => {
                if entry.nonce != snapshot_id.registration_nonce() {
                    return None;
                }
            },
            None => return None,
        }
        match self.joints.get(&c) {
            Some(entry) => Some(JointId::issue(self.brand, snapshot_id.into_raw(), entry.nonce)),
            None => None,
        }
    }

    /// The id a snapshot chain id takes after this restore, if its registration is restored.
    pub fn chain_after_restore(&self, manifest: &IdentityManifest, snapshot_id: ChainId) -> (r: Option<ChainId>)
        ensures
            r is Some <==> snapshot_id.brand_spec() == self.brand_spec() && manifest.brand_spec() == self.brand_spec()
                && manifest.chains().contains_key(snapshot_id.raw_spec().key_spec().code_spec())
                && manifest.chains()[snapshot_id.raw_spec().key_spec().code_spec()].nonce == snapshot_id.nonce_spec()
                && self.chains().contains_key(snapshot_id.raw_spec().key_spec().code_spec()),
            r matches Some(id) ==> id.raw_spec() == snapshot_id.raw_spec() && id.brand_spec() == self.brand_spec()
                && id.nonce_spec() == self.chains()[snapshot_id.raw_spec().key_spec().code_spec()].nonce,
    {
        if snapshot_id.brand() != self.brand || manifest.brand != self.brand {
            return None;
        }
        let c = snapshot_id.into_raw().key().code();
        match manifest.chains.get(&c) {
            Some(entry) => {
                if entry.nonce != snapshot_id.registration_nonce() {
                    return None;
                }
            },
            None => return None,
        }
        match self.chains.get(&c) {
            Some(entry) => Some(ChainId::issue(self.brand, snapshot_id.into_raw(), entry.nonce)),
            None => None,
        }
    }
}

/// The nonce of the registration of slot `c`, if active.
pub open spec fn active_nonce<T: Registration>(m: Map<u64, T>, c: u64) -> Option<RegistrationNonce> {
    if m.contains_key(c) {
        Some(m[c].nonce_of())
    } else {
        None
    }
}

/// The retired entry of slot `c`, if any.
pub open spec fn retired_entry(m: Map<u64, RetiredNonce>, c: u64) -> Option<RetiredNonce> {
    if m.contains_key(c) {
        Some(m[c])
    } else {
        None
    }
}

impl IdentityRegistry {
    /// Evolution composes: a successor of a successor is a successor.
    pub proof fn lemma_evolves_transitive(a: &Self, b: &Self, c: &Self)
        requires
            Self::evolves(a, b),
            Self::evolves(b, c),
        ensures
            Self::evolves(a, c),
    {
        assert forall|k: u64| #[trigger] c.bodies().contains_key(k) implies {
            let n = c.bodies()[k].nonce;
            (a.bodies().contains_key(k) && a.bodies()[k].nonce == n) || a.reserved().contains(n.value_spec())
                || n.value_spec() > a.last_nonce()
        } by {
            if b.bodies().contains_key(k) && b.bodies()[k].nonce == c.bodies()[k].nonce {
                assert(b.bodies().contains_key(k));
            }
            if b.reserved().contains(c.bodies()[k].nonce.value_spec()) {
            }
        }
        assert forall|k: u64| #[trigger] c.shapes().contains_key(k) implies {
            let n = c.shapes()[k].nonce;
            (a.shapes().contains_key(k) && a.shapes()[k].nonce == n) || a.reserved().contains(n.value_spec())
                || n.value_spec() > a.last_nonce()
        } by {
            if b.shapes().contains_key(k) && b.shapes()[k].nonce == c.shapes()[k].nonce {
                assert(b.shapes().contains_key(k));
            }
            if b.reserved().contains(c.shapes()[k].nonce.value_spec()) {
            }
        }
        assert forall|k: u64| #[trigger] c.joints().contains_key(k) implies {
            let n = c.joints()[k].nonce;
            (a.joints().contains_key(k) && a.joints()[k].nonce == n) || a.reserved().contains(n.value_spec())
                || n.value_spec() > a.last_nonce()
        } by {
            if b.joints().contains_key(k) && b.joints()[k].nonce == c.joints()[k].nonce {
                assert(b.joints().contains_key(k));
            }
            if b.reserved().contains(c.joints()[k].nonce.value_spec()) {
            }
        }
        assert forall|k: u64| #[trigger] c.chains().contains_key(k) implies {
            let n = c.chains()[k].nonce;
            (a.chains().contains_key(k) && a.chains()[k].nonce == n) || a.reserved().contains(n.value_spec())
                || n.value_spec() > a.last_nonce()
        } by {
            if b.chains().contains_key(k) && b.chains()[k].nonce == c.chains()[k].nonce {
                assert(b.chains().contains_key(k));
            }
            if b.reserved().contains(c.chains()[k].nonce.value_spec()) {
            }
        }
    }

    /// A stale body id stays stale: once an issued id no longer names the active registration
    /// of its slot, no later state of the registry makes it valid again.
    pub proof fn lemma_stale_body_stays_stale(old: &Self, new: &Self, id: BodyId)
        requires
            Self::evolves(old, new),
            !old.body_active(id),
            id.nonce_spec().value_spec() <= old.last_nonce(),
            !old.reserved().contains(id.nonce_spec().value_spec()),
        ensures
            !new.body_active(id),
    {
    }

    /// A stale shape id stays stale; see [`Self::lemma_stale_body_stays_stale`].
    pub proof fn lemma_stale_shape_stays_stale(old: &Self, new: &Self, id: ShapeId)
        requires
            Self::evolves(old, new),
            !old.shape_active(id),
            id.nonce_spec().value_spec() <= old.last_nonce(),
            !old.reserved().contains(id.nonce_spec().value_spec()),
        ensures
            !new.shape_active(id),
    {
    }

    /// A stale joint id stays stale; see [`Self::lemma_stale_body_stays_stale`].
    pub proof fn lemma_stale_joint_stays_stale(old: &Self, new: &Self, id: JointId)
        requires
            Self::evolves(old, new),
            !old.joint_active(id),
            id.nonce_spec().value_spec() <= old.last_nonce(),
            !old.reserved().contains(id.nonce_spec().value_spec()),
        ensures
            !new.joint_active(id),
    {
    }

    /// A stale chain id stays stale; see [`Self::lemma_stale_body_stays_stale`].
    pub proof fn lemma_stale_chain_stays_stale(old: &Self, new: &Self, id: ChainId)
        requires
            Self::evolves(old, new),
            !old.chain_active(id),
            id.nonce_spec().value_spec() <= old.last_nonce(),
            !old.reserved().contains(id.nonce_spec().value_spec()),
        ensures
            !new.chain_active(id),
    {
    }

    /// The active body id of native output `raw`.
    pub fn active_body(&self, raw: RawId) -> (r: Result<BodyId>)
        ensures
            r matches Ok(id) ==> self.body_active(id) && id.raw_spec() == raw,
            r is Ok <==> self.brand_spec().owns_raw(raw) && self.bodies().contains_key(raw.key_spec().code_spec()),
            r matches Err(e) ==> e == if !self.brand_spec().owns_raw(raw) {
                Error::WrongWorld
            } else {
                Error::InvalidBodyId
            },
    {
        self.brand.check_raw(raw)?;
        match self.bodies.get(&raw.key().code()) {
            Some(entry) => Ok(BodyId::issue(self.brand, raw, entry.nonce)),
            None => Err(Error::InvalidBodyId),
        }
    }

    /// The active shape id of native output `raw`.
    pub fn active_shape(&self, raw: RawId) -> (r: Result<ShapeId>)
        ensures
            r matches Ok(id) ==> self.shape_active(id) && id.raw_spec() == raw,
            r is Ok <==> self.brand_spec().owns_raw(raw) && self.shapes().contains_key(raw.key_spec().code_spec()),
            r matches Err(e) ==> e == if !self.brand_spec().owns_raw(raw) {
                Error::WrongWorld
            } else {
                Error::InvalidShapeId
            },
    {
        self.brand.check_raw(raw)?;
        match self.shapes.get(&raw.key().code()) {
            Some(entry) => Ok(ShapeId::issue(self.brand, raw, entry.nonce)),
            None => Err(Error::InvalidShapeId),
        }
    }

    /// The active joint id of native output `raw`.
    pub fn active_joint(&self, raw: RawId) -> (r: Result<JointId>)
        ensures
            r matches Ok(id) ==> self.joint_active(id) && id.raw_spec() == raw,
            r is Ok <==> self.brand_spec().owns_raw(raw) && self.joints().contains_key(raw.key_spec().code_spec()),
            r matches Err(e) ==> e == if !self.brand_spec().owns_raw(raw) {
                Error::WrongWorld
            } else {
                Error::InvalidJointId
            },
    {
        self.brand.check_raw(raw)?;
        match self.joints.get(&raw.key().code()) {
            Some(entry) => Ok(JointId::issue(self.brand, raw, entry.nonce)),
            None => Err(Error::InvalidJointId),
        }
    }

    /// The active chain id of native output `raw`.
    pub fn active_chain(&self, raw: RawId) -> (r: Result<ChainId>)
        ensures
            r matches Ok(id) ==> self.chain_active(id) && id.raw_spec() == raw,
            r is Ok <==> self.brand_spec().owns_raw(raw) && self.chains().contains_key(raw.key_spec().code_spec()),
            r matches Err(e) ==> e == if !self.brand_spec().owns_raw(raw) {
                Error::WrongWorld
            } else {
                Error::InvalidChainId
            },
    {
        self.brand.check_raw(raw)?;
        match self.chains.get(&raw.key().code()) {
            Some(entry) => Ok(ChainId::issue(self.brand, raw, entry.nonce)),
            None => Err(Error::InvalidChainId),
        }
    }

    /// The body id a step output names: the active registration, or the one retired during the
    /// step that produced the output.
    pub fn observed_body(&self, raw: RawId) -> (r: Result<BodyId>)
        ensures
            r matches Ok(id) ==> id.raw_spec() == raw && id.brand_spec() == self.brand_spec() && Some(id.nonce_spec())
                == observed_nonce_spec(active_nonce(self.bodies(), raw.key_spec().code_spec()),
                retired_entry(self.retired_bodies(), raw.key_spec().code_spec())),
            r is Ok <==> self.brand_spec().owns_raw(raw) && observed_nonce_spec(
                active_nonce(self.bodies(), raw.key_spec().code_spec()),
                retired_entry(self.retired_bodies(), raw.key_spec().code_spec()),
            ) is Some,
            r matches Err(e) ==> e == if !self.brand_spec().owns_raw(raw) {
                Error::WrongWorld
            } else {
                Error::InvalidBodyId
            },
    {
        self.brand.check_raw(raw)?;
        let c = raw.key().code();
        let active = match self.bodies.get(&c) {
            Some(entry) => Some(entry.nonce),
            None => None,
        };
        let retired = match self.retired_bodies.get(&c) {
            Some(r) => Some(*r),
            None => None,
        };
        let nonce = resolve_observed_nonce(active, retired, Error::InvalidBodyId)?;
        Ok(BodyId::issue(self.brand, raw, nonce))
    }

    /// The shape id a step output names; see [`Self::observed_body`].
    pub fn observed_shape(&self, raw: RawId) -> (r: Result<ShapeId>)
        ensures
            r matches Ok(id) ==> id.raw_spec() == raw && id.brand_spec() == self.brand_spec() && Some(id.nonce_spec())
                == observed_nonce_spec(active_nonce(self.shapes(), raw.key_spec().code_spec()),
                retired_entry(self.retired_shapes(), raw.key_spec().code_spec())),
            r is Ok <==> self.brand_spec().owns_raw(raw) && observed_nonce_spec(
                active_nonce(self.shapes(), raw.key_spec().code_spec()),
                retired_entry(self.retired_shapes(), raw.key_spec().code_spec()),
            ) is Some,
            r matches Err(e) ==> e == if !self.brand_spec().owns_raw(raw) {
                Error::WrongWorld
            } else {
                Error::InvalidShapeId
            },
    {
        self.brand.check_raw(raw)?;
        let c = raw.key().code();
        let active = match self.shapes.get(&c) {
            Some(entry) => Some(entry.nonce),
            None => None,
        };
        let retired = match self.retired_shapes.get(&c) {
            Some(r) => Some(*r),
            None => None,
        };
        let nonce = resolve_observed_nonce(active, retired, Error::InvalidShapeId)?;
        Ok(ShapeId::issue(self.brand, raw, nonce))
    }

    /// The joint id a step output names; see [`Self::observed_body`].
    pub fn observed_joint(&self, raw: RawId) -> (r: Result<JointId>)
        ensures
            r matches Ok(id) ==> id.raw_spec() == raw && id.brand_spec() == self.brand_spec() && Some(id.nonce_spec())
                == observed_nonce_spec(active_nonce(self.joints(), raw.key_spec().code_spec()),
                retired_entry(self.retired_joints(), raw.key_spec().code_spec())),
            r is Ok <==> self.brand_spec().owns_raw(raw) && observed_nonce_spec(
                active_nonce(self.joints(), raw.key_spec().code_spec()),
                retired_entry(self.retired_joints(), raw.key_spec().code_spec()),
            ) is Some,
            r matches Err(e) ==> e == if !self.brand_spec().owns_raw(raw) {
                Error::WrongWorld
            } else {
                Error::InvalidJointId
            },
    {
        self.brand.check_raw(raw)?;
        let c = raw.key().code();
        let active = match self.joints.get(&c) {
            Some(entry) => Some(entry.nonce),
            None => None,
        };
        let retired = match self.retired_joints.get(&c) {
            Some(r) => Some(*r),
            None => None,
        };
        let nonce = resolve_observed_nonce(active, retired, Error::InvalidJointId)?;
        Ok(JointId::issue(self.brand, raw, nonce))
    }
}

/// Reject an id issued under another brand.
pub fn check_brand(expected: IdBrand, actual: IdBrand) -> (r: Result<()>)
    ensures
        r is Ok <==> expected == actual,
        r matches Err(e) ==> e == Error::WrongWorld,
{
    if expected == actual {
        Ok(())
    } else {
        Err(Error::WrongWorld)
    }
}

/// Reject a reservation made at another revision.
fn ensure_revision(current: u128, expected: u128) -> (r: Result<()>)
    ensures
        r is Ok <==> current == expected,
        r matches Err(e) ==> e == Error::WorldBusy,
{
    if current == expected {
        Ok(())
    } else {
        Err(Error::WorldBusy)
    }
}

/// The shapes of a world as they were when a native step began, for resolving the step's
/// outputs without the registry while the step runs.
pub struct StepShapeResolver {
    brand: IdBrand,
    entries: HashMap<u64, ShapeRegistration>,
}

impl StepShapeResolver {
    /// The brand of the world.
    pub closed spec fn brand_spec(&self) -> IdBrand {
        self.brand
    }

    /// The shape registrations captured, by key code.
    pub closed spec fn shapes(&self) -> Map<u64, ShapeRegistration> {
        self.entries@
    }

    /// The id of native shape `raw` as captured.
    pub fn shape(&self, raw: RawId) -> (r: Result<ShapeId>)
        ensures
            r is Ok <==> self.brand_spec().owns_raw(raw) && self.shapes().contains_key(raw.key_spec().code_spec()),
            r matches Ok(id) ==> id.raw_spec() == raw && id.brand_spec() == self.brand_spec()
                && id.nonce_spec() == self.shapes()[raw.key_spec().code_spec()].nonce,
            r matches Err(e) ==> e == if !self.brand_spec().owns_raw(raw) {
                Error::WrongWorld
            } else {
                Error::InvalidShapeId
            },
    {
        self.brand.check_raw(raw)?;
        match self.entries.get(&raw.key().code()) {
            Some(entry) => Ok(ShapeId::issue(self.brand, raw, entry.nonce)),
            None => Err(Error::InvalidShapeId),
        }
    }
}

impl IdentityRegistry {
    /// Captures the current shapes for resolving the outputs of a native step.
    pub fn step_shape_resolver(&self) -> (r: Result<StepShapeResolver>)
        ensures
            r matches Ok(resolver) ==> resolver.brand_spec() == self.brand_spec()
                && resolver.shapes().dom() == self.shapes().dom()
                && forall|k: u64| #[trigger] resolver.shapes().contains_key(k) ==> resolver.shapes()[k] == self.shapes()[k],
            r matches Err(e) ==> e == Error::IdentityTrackingAllocationFailed,
    {
        let entries = copy_table(&self.shapes)?;
        Ok(StepShapeResolver { brand: self.brand, entries })
    }
}

impl IdentityManifest {
    /// `ids` lists exactly the body registrations of the manifest, each issued under the
    /// manifest's brand with its registered nonce.
    pub open spec fn body_ids_listed(&self, ids: Seq<BodyId>) -> bool {
        &&& forall|i: int| 0 <= i < ids.len() ==> {
            let c = (#[trigger] ids[i]).raw_spec().key_spec().code_spec();
            &&& self.bodies().contains_key(c)
            &&& ids[i].raw_spec() == RawId::from_key_spec(RawKey::decode_spec(c), self.brand_spec().world0_spec())
            &&& ids[i].brand_spec() == self.brand_spec()
            &&& ids[i].nonce_spec() == self.bodies()[c].nonce
        }
        &&& forall|k: u64| #[trigger] self.bodies().contains_key(k) ==> exists|i: int| 0 <= i < ids.len()
            && (#[trigger] ids[i]).raw_spec().key_spec().code_spec() == k
    }

    /// The ids of every body registration in the manifest.
    pub fn body_ids(&self) -> (ids: Vec<BodyId>)
        ensures
            self.body_ids_listed(ids@),
    {
        let mut ids: Vec<BodyId> = Vec::new();
        proof {
            use_type_invariant(self);
        }
        let world0 = self.brand.world0();
        let iter = self.bodies.iter();
        let ghost all = iter.remaining();
        for (k, entry) in it: iter
            invariant
                it.seq() == all,
                all == spec_hash_map_iter(&self.bodies).remaining(),
                world0 == self.brand_spec().world0_spec(),
                codes_valid(self.bodies@),
                forall|i: int| 0 <= i < all.len() ==> self.bodies@.contains_key(*#[trigger] all[i].0) && self.bodies@[*all[i].0] == *all[i].1,
                forall|q: u64| #[trigger] self.bodies@.contains_key(q) ==> all.contains((&q, &self.bodies@[q])),
                ids@.len() == it.index(),
                forall|i: int| 0 <= i < ids@.len() ==> (#[trigger] ids@[i]).raw_spec().key_spec().code_spec() == *all[i].0
                    && ids@[i].raw_spec() == RawId::from_key_spec(RawKey::decode_spec(*all[i].0), world0)
                    && ids@[i].brand_spec() == self.brand_spec() && ids@[i].nonce_spec() == all[i].1.nonce,
        {
            let key = RawKey::decode(*k);
            let raw = RawId::from_key(key, world0);
            let ghost before = ids@;
            ids.push(BodyId::issue(self.brand, raw, entry.nonce));
            proof {
                assert(all[it.index()] == (k, entry));
                assert(raw.key_spec() == key);
                assert forall|i: int| 0 <= i < ids@.len() implies (#[trigger] ids@[i]).raw_spec().key_spec().code_spec() == *all[i].0
                    && ids@[i].raw_spec() == RawId::from_key_spec(RawKey::decode_spec(*all[i].0), world0)
                    && ids@[i].brand_spec() == self.brand_spec() && ids@[i].nonce_spec() == all[i].1.nonce by {
                    if i < before.len() {
                        assert(ids@[i] == before[i]);
                    }
                }
            }
        }
        proof {
            assert forall|i: int| 0 <= i < ids@.len() implies {
                let c = (#[trigger] ids@[i]).raw_spec().key_spec().code_spec();
                &&& self.bodies().contains_key(c)
                &&& ids@[i].raw_spec() == RawId::from_key_spec(RawKey::decode_spec(c), self.brand_spec().world0_spec())
                &&& ids@[i].brand_spec() == self.brand_spec()
                &&& ids@[i].nonce_spec() == self.bodies()[c].nonce
            } by {
                assert(self.bodies@.contains_key(*all[i].0));
            }
            assert forall|k: u64| #[trigger] self.bodies().contains_key(k) implies exists|i: int| 0 <= i < ids@.len()
                && (#[trigger] ids@[i]).raw_spec().key_spec().code_spec() == k by {
                assert(all.contains((&k, &self.bodies@[k])));
                let i = choose|i: int| 0 <= i < all.len() && all[i] == (&k, &self.bodies@[k]);
                assert(*all[i].0 == k);
                assert(ids@[i].raw_spec().key_spec().code_spec() == k);
            }
        }
        ids
    }
}

impl IdentityManifest {
    /// `ids` lists exactly the shape registrations of the manifest, each issued under the
    /// manifest's brand with its registered nonce.
    pub open spec fn shape_ids_listed(&self, ids: Seq<ShapeId>) -> bool {
        &&& forall|i: int| 0 <= i < ids.len() ==> {
            let c = (#[trigger] ids[i]).raw_spec().key_spec().code_spec();
            &&& self.shapes().contains_key(c)
            &&& ids[i].raw_spec() == RawId::from_key_spec(RawKey::decode_spec(c), self.brand_spec().world0_spec())
            &&& ids[i].brand_spec() == self.brand_spec()
            &&& ids[i].nonce_spec() == self.shapes()[c].nonce
        }
        &&& forall|k: u64| #[trigger] self.shapes().contains_key(k) ==> exists|i: int| 0 <= i < ids.len()
            && (#[trigger] ids[i]).raw_spec().key_spec().code_spec() == k
    }

    /// The ids of every shape registration in the manifest.
    pub fn shape_ids(&self) -> (ids: Vec<ShapeId>)
        ensures
            self.shape_ids_listed(ids@),
    {
        let mut ids: Vec<ShapeId> = Vec::new();
        proof {
            use_type_invariant(self);
        }
        let world0 = self.brand.world0();
        let iter = self.shapes.iter();
        let ghost all = iter.remaining();
        for (k, entry) in it: iter
            invariant
                it.seq() == all,
                all == spec_hash_map_iter(&self.shapes).remaining(),
                world0 == self.brand_spec().world0_spec(),
                codes_valid(self.shapes@),
                forall|i: int| 0 <= i < all.len() ==> self.shapes@.contains_key(*#[trigger] all[i].0) && self.shapes@[*all[i].0] == *all[i].1,
                forall|q: u64| #[trigger] self.shapes@.contains_key(q) ==> all.contains((&q, &self.shapes@[q])),
                ids@.len() == it.index(),
                forall|i: int| 0 <= i < ids@.len() ==> (#[trigger] ids@[i]).raw_spec().key_spec().code_spec() == *all[i].0
                    && ids@[i].raw_spec() == RawId::from_key_spec(RawKey::decode_spec(*all[i].0), world0)
                    && ids@[i].brand_spec() == self.brand_spec() && ids@[i].nonce_spec() == all[i].1.nonce,
        {
            let key = RawKey::decode(*k);
            let raw = RawId::from_key(key, world0);
            let ghost before = ids@;
            ids.push(ShapeId::issue(self.brand, raw, entry.nonce));
            proof {
                assert(all[it.index()] == (k, entry));
                assert(raw.key_spec() == key);
                assert forall|i: int| 0 <= i < ids@.len() implies (#[trigger] ids@[i]).raw_spec().key_spec().code_spec() == *all[i].0
                    && ids@[i].raw_spec() == RawId::from_key_spec(RawKey::decode_spec(*all[i].0), world0)
                    && ids@[i].brand_spec() == self.brand_spec() && ids@[i].nonce_spec() == all[i].1.nonce by {
                    if i < before.len() {
                        assert(ids@[i] == before[i]);
                    }
                }
            }
        }
        proof {
            assert forall|i: int| 0 <= i < ids@.len() implies {
                let c = (#[trigger] ids@[i]).raw_spec().key_spec().code_spec();
                &&& self.shapes().contains_key(c)
                &&& ids@[i].raw_spec() == RawId::from_key_spec(RawKey::decode_spec(c), self.brand_spec().world0_spec())
                &&& ids@[i].brand_spec() == self.brand_spec()
                &&& ids@[i].nonce_spec() == self.shapes()[c].nonce
            } by {
                assert(self.shapes@.contains_key(*all[i].0));
            }
            assert forall|k: u64| #[trigger] self.shapes().contains_key(k) implies exists|i: int| 0 <= i < ids@.len()
                && (#[trigger] ids@[i]).raw_spec().key_spec().code_spec() == k by {
                assert(all.contains((&k, &self.shapes@[k])));
                let i = choose|i: int| 0 <= i < all.len() && all[i] == (&k, &self.shapes@[k]);
                assert(*all[i].0 == k);
                assert(ids@[i].raw_spec().key_spec().code_spec() == k);
            }
        }
        ids
    }
}

impl IdentityManifest {
    /// `ids` lists exactly the joint registrations of the manifest, each issued under the
    /// manifest's brand with its registered nonce.
    pub open spec fn joint_ids_listed(&self, ids: Seq<JointId>) -> bool {
        &&& forall|i: int| 0 <= i < ids.len() ==> {
            let c = (#[trigger] ids[i]).raw_spec().key_spec().code_spec();
            &&& self.joints().contains_key(c)
            &&& ids[i].raw_spec() == RawId::from_key_spec(RawKey::decode_spec(c), self.brand_spec().world0_spec())
            &&& ids[i].brand_spec() == self.brand_spec()
            &&& ids[i].nonce_spec() == self.joints()[c].nonce
        }
        &&& forall|k: u64| #[trigger] self.joints().contains_key(k) ==> exists|i: int| 0 <= i < ids.len()
            && (#[trigger] ids[i]).raw_spec().key_spec().code_spec() == k
    }

    /// The ids of every joint registration in the manifest.
    pub fn joint_ids(&self) -> (ids: Vec<JointId>)
        ensures
            self.joint_ids_listed(ids@),
    {
        let mut ids: Vec<JointId> = Vec::new();
        proof {
            use_type_invariant(self);
        }
        let world0 = self.brand.world0();
        let iter = self.joints.iter();
        let ghost all = iter.remaining();
        for (k, entry) in it: iter
            invariant
                it.seq() == all,
                all == spec_hash_map_iter(&self.joints).remaining(),
                world0 == self.brand_spec().world0_spec(),
                codes_valid(self.joints@),
                forall|i: int| 0 <= i < all.len() ==> self.joints@.contains_key(*#[trigger] all[i].0) && self.joints@[*all[i].0] == *all[i].1,
                forall|q: u64| #[trigger] self.joints@.contains_key(q) ==> all.contains((&q, &self.joints@[q])),
                ids@.len() == it.index(),
                forall|i: int| 0 <= i < ids@.len() ==> (#[trigger] ids@[i]).raw_spec().key_spec().code_spec() == *all[i].0
                    && ids@[i].raw_spec() == RawId::from_key_spec(RawKey::decode_spec(*all[i].0), world0)
                    && ids@[i].brand_spec() == self.brand_spec() && ids@[i].nonce_spec() == all[i].1.nonce,
        {
            let key = RawKey::decode(*k);
            let raw = RawId::from_key(key, world0);
            let ghost before = ids@;
            ids.push(JointId::issue(self.brand, raw, entry.nonce));
            proof {
                assert(all[it.index()] == (k, entry));
                assert(raw.key_spec() == key);
                assert forall|i: int| 0 <= i < ids@.len() implies (#[trigger] ids@[i]).raw_spec().key_spec().code_spec() == *all[i].0
                    && ids@[i].raw_spec() == RawId::from_key_spec(RawKey::decode_spec(*all[i].0), world0)
                    && ids@[i].brand_spec() == self.brand_spec() && ids@[i].nonce_spec() == all[i].1.nonce by {
                    if i < before.len() {
                        assert(ids@[i] == before[i]);
                    }
                }
            }
        }
        proof {
            assert forall|i: int| 0 <= i < ids@.len() implies {
                let c = (#[trigger] ids@[i]).raw_spec().key_spec().code_spec();
                &&& self.joints().contains_key(c)
                &&& ids@[i].raw_spec() == RawId::from_key_spec(RawKey::decode_spec(c), self.brand_spec().world0_spec())
                &&& ids@[i].brand_spec() == self.brand_spec()
                &&& ids@[i].nonce_spec() == self.joints()[c].nonce
            } by {
                assert(self.joints@.contains_key(*all[i].0));
            }
            assert forall|k: u64| #[trigger] self.joints().contains_key(k) implies exists|i: int| 0 <= i < ids@.len()
                && (#[trigger] ids@[i]).raw_spec().key_spec().code_spec() == k by {
                assert(all.contains((&k, &self.joints@[k])));
                let i = choose|i: int| 0 <= i < all.len() && all[i] == (&k, &self.joints@[k]);
                assert(*all[i].0 == k);
                assert(ids@[i].raw_spec().key_spec().code_spec() == k);
            }
        }
        ids
    }
}

impl IdentityManifest {
    /// `ids` lists exactly the chain registrations of the manifest, each issued under the
    /// manifest's brand with its registered nonce.
    pub open spec fn chain_ids_listed(&self, ids: Seq<ChainId>) -> bool {
        &&& forall|i: int| 0 <= i < ids.len() ==> {
            let c = (#[trigger] ids[i]).raw_spec().key_spec().code_spec();
            &&& self.chains().contains_key(c)
            &&& ids[i].raw_spec() == RawId::from_key_spec(RawKey::decode_spec(c), self.brand_spec().world0_spec())
            &&& ids[i].brand_spec() == self.brand_spec()
            &&& ids[i].nonce_spec() == self.chains()[c].nonce
        }
        &&& forall|k: u64| #[trigger] self.chains().contains_key(k) ==> exists|i: int| 0 <= i < ids.len()
            && (#[trigger] ids[i]).raw_spec().key_spec().code_spec() == k
    }

    /// The ids of every chain registration in the manifest.
    pub fn chain_ids(&self) -> (ids: Vec<ChainId>)
        ensures
            self.chain_ids_listed(ids@),
    {
        let mut ids: Vec<ChainId> = Vec::new();
        proof {
            use_type_invariant(self);
        }
        let world0 = self.brand.world0();
        let iter = self.chains.iter();
        let ghost all = iter.remaining();
        for (k, entry) in it: iter
            invariant
                it.seq() == all,
                all == spec_hash_map_iter(&self.chains).remaining(),
                world0 == self.brand_spec().world0_spec(),
                codes_valid(self.chains@),
                forall|i: int| 0 <= i < all.len() ==> self.chains@.contains_key(*#[trigger] all[i].0) && self.chains@[*all[i].0] == *all[i].1,
                forall|q: u64| #[trigger] self.chains@.contains_key(q) ==> all.contains((&q, &self.chains@[q])),
                ids@.len() == it.index(),
                forall|i: int| 0 <= i < ids@.len() ==> (#[trigger] ids@[i]).raw_spec().key_spec().code_spec() == *all[i].0
                    && ids@[i].raw_spec() == RawId::from_key_spec(RawKey::decode_spec(*all[i].0), world0)
                    && ids@[i].brand_spec() == self.brand_spec() && ids@[i].nonce_spec() == all[i].1.nonce,
        {
            let key = RawKey::decode(*k);
            let raw = RawId::from_key(key, world0);
            let ghost before = ids@;
            ids.push(ChainId::issue(self.brand, raw, entry.nonce));
            proof {
                assert(all[it.index()] == (k, entry));
                assert(raw.key_spec() == key);
                assert forall|i: int| 0 <= i < ids@.len() implies (#[trigger] ids@[i]).raw_spec().key_spec().code_spec() == *all[i].0
                    && ids@[i].raw_spec() == RawId::from_key_spec(RawKey::decode_spec(*all[i].0), world0)
                    && ids@[i].brand_spec() == self.brand_spec() && ids@[i].nonce_spec() == all[i].1.nonce by {
                    if i < before.len() {
                        assert(ids@[i] == before[i]);
                    }
                }
            }
        }
        proof {
            assert forall|i: int| 0 <= i < ids@.len() implies {
                let c = (#[trigger] ids@[i]).raw_spec().key_spec().code_spec();
                &&& self.chains().contains_key(c)
                &&& ids@[i].raw_spec() == RawId::from_key_spec(RawKey::decode_spec(c), self.brand_spec().world0_spec())
                &&& ids@[i].brand_spec() == self.brand_spec()
                &&& ids@[i].nonce_spec() == self.chains()[c].nonce
            } by {
                assert(self.chains@.contains_key(*all[i].0));
            }
            assert forall|k: u64| #[trigger] self.chains().contains_key(k) implies exists|i: int| 0 <= i < ids@.len()
                && (#[trigger] ids@[i]).raw_spec().key_spec().code_spec() == k by {
                assert(all.contains((&k, &self.chains@[k])));
                let i = choose|i: int| 0 <= i < all.len() && all[i] == (&k, &self.chains@[k]);
                assert(*all[i].0 == k);
                assert(ids@[i].raw_spec().key_spec().code_spec() == k);
            }
        }
        ids
    }
}

} // verus!
