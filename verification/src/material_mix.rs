//! Slot registry for per-world friction and restitution mixing callbacks.
//!
//! Box2D takes plain function pointers for material mixing, so each world that installs a mixer
//! leases one of a fixed number of slots. A lease carries a generation that no later lease of the
//! same slot repeats, and every publication of a lease carries a strictly increasing publication
//! generation. A stale lease can therefore neither replace nor release a slot that was reused,
//! and a publication that a running native call observes cannot change until that call ends.

use std::sync::Arc;
use vstd::prelude::*;

verus! {

/// Number of material-mix slots, and therefore of native trampolines per mixing kind.
pub const MATERIAL_MIX_SLOT_COUNT: usize = 64;

/// Failures of the material-mix slot registry.
#[derive(Clone, Copy, Debug, PartialEq, Eq, Structural)]
pub enum MaterialMixRegistryError {
    SlotsExhausted,
    InvalidSlot,
    SlotPoisoned,
    StaleLease,
    InvalidOwnerState,
    PublicationGenerationExhausted,
}

/// Which coefficient a mixer combines.
#[derive(Clone, Copy, Debug, PartialEq, Eq, Structural)]
pub enum MaterialMixKind {
    Friction,
    Restitution,
}

/// Makes another owning handle to the same shared allocation.
#[verifier::external_body]
fn share<T>(value: &Arc<T>) -> (shared: Arc<T>)
    ensures
        shared == *value,
{
    Arc::clone(value)
}

/// One installed mixer: its recording identity and the callback context shared with native calls.
pub struct MaterialMixerRegistration<I, C> {
    pub identity: I,
    pub context: Arc<C>,
}

impl<I: Copy, C> Clone for MaterialMixerRegistration<I, C> {
    fn clone(&self) -> (copy: Self)
        ensures
            copy == *self,
    {
        MaterialMixerRegistration { identity: self.identity, context: share(&self.context) }
    }
}

impl<I: Copy, C> MaterialMixerRegistration<I, C> {
    pub fn new(identity: I, context: Arc<C>) -> (r: Self)
        ensures
            r.identity == identity,
            r.context == context,
    {
        MaterialMixerRegistration { identity, context }
    }
}

/// An immutable set of mixers published by one lease.
pub struct MaterialMixPublication<I, C> {
    pub lease_generation: u64,
    pub publication_generation: u64,
    pub friction: Option<MaterialMixerRegistration<I, C>>,
    pub restitution: Option<MaterialMixerRegistration<I, C>>,
}

/// The registration of one kind in a publication.
pub open spec fn registration_of<I, C>(
    publication: MaterialMixPublication<I, C>,
    kind: MaterialMixKind,
) -> Option<MaterialMixerRegistration<I, C>> {
    match kind {
        MaterialMixKind::Friction => publication.friction,
        MaterialMixKind::Restitution => publication.restitution,
    }
}

/// The registration of one kind in an optional publication.
pub open spec fn current_registration<I, C>(
    publication: Option<Arc<MaterialMixPublication<I, C>>>,
    kind: MaterialMixKind,
) -> Option<MaterialMixerRegistration<I, C>> {
    match publication {
        Some(p) => registration_of(*p, kind),
        None => None,
    }
}

impl<I: Copy, C> MaterialMixPublication<I, C> {
    /// The registration of one kind.
    pub fn registration(&self, kind: MaterialMixKind) -> (r: Option<&MaterialMixerRegistration<I, C>>)
        ensures
            r == match registration_of(*self, kind) {
                Some(reg) => Some(&reg),
                None => None::<&MaterialMixerRegistration<I, C>>,
            },
    {
        match kind {
            MaterialMixKind::Friction => self.friction.as_ref(),
            MaterialMixKind::Restitution => self.restitution.as_ref(),
        }
    }

    /// The recording identities of the friction and restitution mixers.
    pub fn identities(&self) -> (ids: (Option<I>, Option<I>))
        ensures
            ids.0 == (match self.friction {
                Some(reg) => Some(reg.identity),
                None => None::<I>,
            }),
            ids.1 == (match self.restitution {
                Some(reg) => Some(reg.identity),
                None => None::<I>,
            }),
    {
        let friction = match &self.friction {
            Some(reg) => Some(reg.identity),
            None => None,
        };
        let restitution = match &self.restitution {
            Some(reg) => Some(reg.identity),
            None => None,
        };
        (friction, restitution)
    }
}

/// Copies an optional registration.
fn clone_registration<I: Copy, C>(
    reg: &Option<MaterialMixerRegistration<I, C>>,
) -> (copy: Option<MaterialMixerRegistration<I, C>>)
    ensures
        copy == *reg,
{
    match reg {
        Some(r) => Some(r.clone()),
        None => None,
    }
}

/// The registry-side state of one slot.
pub struct MaterialMixSlot<I, C> {
    active_generation: Option<u64>,
    next_generation: Option<u64>,
    last_publication_generation: Option<u64>,
    publication: Option<Arc<MaterialMixPublication<I, C>>>,
    call_active: bool,
}

/// A lease of one slot, held by the world that installed mixers in it.
#[derive(Debug, PartialEq, Eq, Structural)]
pub struct MaterialMixLease {
    pub slot: usize,
    pub generation: u64,
    pub next_publication_generation: Option<u64>,
    pub released: bool,
}

impl<I: Copy, C> MaterialMixSlot<I, C> {
    /// The lease generation that currently owns the slot.
    pub closed spec fn active_generation_spec(self) -> Option<u64> {
        self.active_generation
    }

    /// The generation that the next lease will get, if any is left.
    pub closed spec fn next_generation_spec(self) -> Option<u64> {
        self.next_generation
    }

    /// The publication generation last accepted from the active lease.
    pub closed spec fn last_publication_spec(self) -> Option<u64> {
        self.last_publication_generation
    }

    /// The publication that native mixing callbacks currently observe.
    pub closed spec fn publication_spec(self) -> Option<Arc<MaterialMixPublication<I, C>>> {
        self.publication
    }

    /// Whether a native call is running against the current publication.
    pub closed spec fn call_active_spec(self) -> bool {
        self.call_active
    }

    /// The slot's invariant: generations are positive, the next lease generation exceeds the
    /// active one, a publication belongs to the active lease and is the last it published, and a
    /// running call observes a present publication.
    pub closed spec fn wf(self) -> bool {
        &&& (self.next_generation matches Some(n) ==> n >= 1)
        &&& (self.active_generation matches Some(a) ==> a >= 1 && (self.next_generation matches Some(n) ==> a < n))
        &&& (self.active_generation is None ==> self.publication is None && self.last_publication_generation is None)
        &&& (self.publication matches Some(p) ==> self.active_generation == Some(p.lease_generation)
            && self.last_publication_generation == Some(p.publication_generation))
        &&& (self.call_active ==> self.publication is Some)
    }

    /// The error with which the slot refuses a publication of the given generations, if any.
    pub open spec fn publish_refusal(self, lease_generation: u64, publication_generation: u64) -> Option<
        MaterialMixRegistryError,
    > {
        if self.active_generation_spec() != Some(lease_generation) {
            Some(MaterialMixRegistryError::StaleLease)
        } else if self.last_publication_spec() matches Some(g) && g >= publication_generation {
            Some(MaterialMixRegistryError::StaleLease)
        } else if self.call_active_spec() {
            Some(MaterialMixRegistryError::InvalidOwnerState)
        } else {
            None
        }
    }

    /// Whether a new lease can be taken from the slot.
    pub open spec fn acquirable(self) -> bool {
        &&& self.active_generation_spec() is None
        &&& self.publication_spec() is None
        &&& !self.call_active_spec()
        &&& self.next_generation_spec() is Some
    }

    /// A fresh slot whose first lease gets generation one.
    pub fn new() -> (s: Self)
        ensures
            s.wf(),
            s.active_generation_spec() is None,
            s.next_generation_spec() == Some(1u64),
            s.publication_spec() is None,
            !s.call_active_spec(),
    {
        MaterialMixSlot {
            active_generation: None,
            next_generation: Some(1),
            last_publication_generation: None,
            publication: None,
            call_active: false,
        }
    }

    /// Takes a lease of the slot if it is free and a generation is left.
    pub fn try_acquire(&mut self, slot: usize) -> (lease: Option<MaterialMixLease>)
        requires
            old(self).wf(),
        ensures
            final(self).wf(),
            old(self).acquirable() ==> {
                &&& lease == Some(MaterialMixLease {
                    slot,
                    generation: old(self).next_generation_spec().unwrap(),
                    next_publication_generation: Some(1u64),
                    released: false,
                })
                &&& final(self).active_generation_spec() == old(self).next_generation_spec()
                &&& final(self).next_generation_spec() == (if old(self).next_generation_spec().unwrap() < u64::MAX {
                    Some((old(self).next_generation_spec().unwrap() + 1) as u64)
                } else {
                    None::<u64>
                })
                &&& final(self).publication_spec() is None
                &&& final(self).last_publication_spec() is None
                &&& !final(self).call_active_spec()
            },
            !old(self).acquirable() ==> lease is None && *final(self) == *old(self),
    {
        if self.active_generation.is_some() || self.publication.is_some() || self.call_active {
            return None;
        }
        let next = match self.next_generation {
            Some(n) => n,
            None => return None,
        };
        self.next_generation = next.checked_add(1);
        self.active_generation = Some(next);
        self.last_publication_generation = None;
        Some(MaterialMixLease { slot, generation: next, next_publication_generation: Some(1), released: false })
    }

    /// Installs a publication of the active lease, handing back the one it replaces.
    pub fn publish(
        &mut self,
        lease_generation: u64,
        publication: Arc<MaterialMixPublication<I, C>>,
    ) -> (r: Result<Option<Arc<MaterialMixPublication<I, C>>>, MaterialMixRegistryError>)
        requires
            old(self).wf(),
            publication.publication_generation >= 1,
        ensures
            final(self).wf(),
            (old(self).active_generation_spec() != Some(lease_generation)
                || publication.lease_generation != lease_generation
                || (old(self).last_publication_spec() matches Some(g) && g >= publication.publication_generation))
                ==> r == Err::<Option<Arc<MaterialMixPublication<I, C>>>, MaterialMixRegistryError>(MaterialMixRegistryError::StaleLease)
                    && *final(self) == *old(self),
            !(old(self).active_generation_spec() != Some(lease_generation)
                || publication.lease_generation != lease_generation
                || (old(self).last_publication_spec() matches Some(g) && g >= publication.publication_generation))
                && old(self).call_active_spec()
                ==> r == Err::<Option<Arc<MaterialMixPublication<I, C>>>, MaterialMixRegistryError>(MaterialMixRegistryError::InvalidOwnerState)
                    && *final(self) == *old(self),
            publication.lease_generation == lease_generation ==> match r {
                Ok(_) => old(self).publish_refusal(lease_generation, publication.publication_generation) is None,
                Err(e) => old(self).publish_refusal(lease_generation, publication.publication_generation) == Some(e),
            },
            r is Ok ==> {
                &&& r == Ok::<Option<Arc<MaterialMixPublication<I, C>>>, MaterialMixRegistryError>(old(self).publication_spec())
                &&& final(self).publication_spec() == Some(publication)
                &&& final(self).last_publication_spec() == Some(publication.publication_generation)
                &&& final(self).active_generation_spec() == old(self).active_generation_spec()
                &&& final(self).next_generation_spec() == old(self).next_generation_spec()
                &&& !final(self).call_active_spec()
            },
    {
        if self.active_generation != Some(lease_generation) || publication.lease_generation != lease_generation {
            return Err(MaterialMixRegistryError::StaleLease);
        }
        if let Some(g) = self.last_publication_generation {
            if g >= publication.publication_generation {
                return Err(MaterialMixRegistryError::StaleLease);
            }
        }
        if self.call_active {
            return Err(MaterialMixRegistryError::InvalidOwnerState);
        }
        self.last_publication_generation = Some(publication.publication_generation);
        let retired = self.publication.take();
        self.publication = Some(publication);
        Ok(retired)
    }

    /// Ends the active lease, handing back its publication.
    pub fn release(&mut self, lease_generation: u64) -> (r: Result<
        Option<Arc<MaterialMixPublication<I, C>>>,
        MaterialMixRegistryError,
    >)
        requires
            old(self).wf(),
        ensures
            final(self).wf(),
            old(self).active_generation_spec() != Some(lease_generation) ==> r == Err::<
                Option<Arc<MaterialMixPublication<I, C>>>,
                MaterialMixRegistryError,
            >(MaterialMixRegistryError::StaleLease) && *final(self) == *old(self),
            old(self).active_generation_spec() == Some(lease_generation) && old(self).call_active_spec()
                ==> r == Err::<Option<Arc<MaterialMixPublication<I, C>>>, MaterialMixRegistryError>(
                MaterialMixRegistryError::InvalidOwnerState,
            ) && *final(self) == *old(self),
            old(self).active_generation_spec() == Some(lease_generation) && !old(self).call_active_spec()
                ==> {
                &&& r == Ok::<Option<Arc<MaterialMixPublication<I, C>>>, MaterialMixRegistryError>(old(self).publication_spec())
                &&& final(self).active_generation_spec() is None
                &&& final(self).publication_spec() is None
                &&& final(self).last_publication_spec() is None
                &&& !final(self).call_active_spec()
                &&& final(self).next_generation_spec() == old(self).next_generation_spec()
            },
    {
        if self.active_generation != Some(lease_generation) {
            return Err(MaterialMixRegistryError::StaleLease);
        }
        if self.call_active {
            return Err(MaterialMixRegistryError::InvalidOwnerState);
        }
        let retired = self.publication.take();
        self.active_generation = None;
        self.last_publication_generation = None;
        Ok(retired)
    }

    /// The registration of one kind in the current publication.
    pub fn callback(&self, kind: MaterialMixKind) -> (r: Option<MaterialMixerRegistration<I, C>>)
        ensures
            r == current_registration(self.publication_spec(), kind),
    {
        match &self.publication {
            Some(p) => clone_registration(match kind {
                MaterialMixKind::Friction => &p.friction,
                MaterialMixKind::Restitution => &p.restitution,
            }),
            None => None,
        }
    }

    /// Pins the current publication for the duration of one native call.
    pub fn activate(
        &mut self,
        lease_generation: u64,
        publication: &MaterialMixPublication<I, C>,
    ) -> (r: Result<(), MaterialMixRegistryError>)
        requires
            old(self).wf(),
        ensures
            final(self).wf(),
            (old(self).active_generation_spec() != Some(lease_generation)
                || publication.lease_generation != lease_generation
                || !(old(self).publication_spec() matches Some(p)
                    && p.publication_generation == publication.publication_generation))
                ==> r == Err::<(), MaterialMixRegistryError>(MaterialMixRegistryError::StaleLease)
                    && *final(self) == *old(self),
            (old(self).active_generation_spec() == Some(lease_generation)
                && publication.lease_generation == lease_generation
                && (old(self).publication_spec() matches Some(p)
                    && p.publication_generation == publication.publication_generation))
                ==> (if old(self).call_active_spec() {
                    r == Err::<(), MaterialMixRegistryError>(MaterialMixRegistryError::InvalidOwnerState)
                        && *final(self) == *old(self)
                } else {
                    r is Ok && final(self).call_active_spec()
                        && final(self).publication_spec() == old(self).publication_spec()
                        && final(self).active_generation_spec() == old(self).active_generation_spec()
                        && final(self).next_generation_spec() == old(self).next_generation_spec()
                        && final(self).last_publication_spec() == old(self).last_publication_spec()
                }),
    {
        if self.active_generation != Some(lease_generation) || publication.lease_generation != lease_generation {
            return Err(MaterialMixRegistryError::StaleLease);
        }
        let matches = match &self.publication {
            Some(current) => current.publication_generation == publication.publication_generation,
            None => false,
        };
        if !matches {
            return Err(MaterialMixRegistryError::StaleLease);
        }
        if self.call_active {
            return Err(MaterialMixRegistryError::InvalidOwnerState);
        }
        self.call_active = true;
        Ok(())
    }

    /// Ends the native call that pinned the publication of the given generations.
    pub fn finish_call(&mut self, lease_generation: u64, publication_generation: u64)
        requires
            old(self).wf(),
        ensures
            final(self).wf(),
            final(self).publication_spec() == old(self).publication_spec(),
            final(self).active_generation_spec() == old(self).active_generation_spec(),
            final(self).next_generation_spec() == old(self).next_generation_spec(),
            final(self).last_publication_spec() == old(self).last_publication_spec(),
            final(self).call_active_spec() == (old(self).call_active_spec() && !(old(
                self,
            ).publication_spec() matches Some(p) && p.lease_generation == lease_generation
                && p.publication_generation == publication_generation)),
    {
        let pinned = match &self.publication {
            Some(p) => p.lease_generation == lease_generation && p.publication_generation == publication_generation,
            None => false,
        };
        if self.call_active && pinned {
            self.call_active = false;
        }
    }
}

/// All slots of the process, indexed by the trampoline that routes to them.
pub struct MaterialMixRegistry<I, C> {
    slots: Vec<MaterialMixSlot<I, C>>,
}

impl<I: Copy, C> MaterialMixRegistry<I, C> {
    /// The slot at an index.
    pub closed spec fn slot(self, index: int) -> MaterialMixSlot<I, C> {
        self.slots@[index]
    }

    /// Every slot is well formed and there is one per trampoline.
    pub closed spec fn wf(self) -> bool {
        &&& self.slots@.len() == MATERIAL_MIX_SLOT_COUNT
        &&& forall|i: int| 0 <= i < MATERIAL_MIX_SLOT_COUNT ==> #[trigger] self.slots@[i].wf()
    }

    /// The registry differs from another at most in the slot at `index`.
    pub open spec fn same_except(self, other: Self, index: int) -> bool {
        forall|i: int| 0 <= i < MATERIAL_MIX_SLOT_COUNT && i != index ==> #[trigger] self.slot(i) == other.slot(i)
    }

    /// Whether some slot can be leased.
    pub open spec fn has_acquirable(self) -> bool {
        exists|i: int| 0 <= i < MATERIAL_MIX_SLOT_COUNT && #[trigger] self.slot(i).acquirable()
    }

    /// A registry of fresh slots.
    pub fn new() -> (r: Self)
        ensures
            r.wf(),
            forall|i: int| 0 <= i < MATERIAL_MIX_SLOT_COUNT ==> #[trigger] r.slot(i).acquirable()
                && r.slot(i).next_generation_spec() == Some(1u64),
    {
        let mut slots: Vec<MaterialMixSlot<I, C>> = Vec::new();
        let mut i: usize = 0;
        while i < MATERIAL_MIX_SLOT_COUNT
            invariant
                i <= MATERIAL_MIX_SLOT_COUNT,
                slots@.len() == i,
                forall|j: int| 0 <= j < i ==> #[trigger] slots@[j].wf() && slots@[j].acquirable()
                    && slots@[j].next_generation_spec() == Some(1u64),
            decreases MATERIAL_MIX_SLOT_COUNT - i,
        {
            let ghost before = slots@;
            let fresh = MaterialMixSlot::new();
            slots.push(fresh);
            assert forall|j: int| 0 <= j < i + 1 implies #[trigger] slots@[j].wf() && slots@[j].acquirable()
                && slots@[j].next_generation_spec() == Some(1u64) by {
                if j < i {
                    assert(slots@[j] == before[j]);
                    assert(before[j].wf());
                } else {
                    assert(slots@[j] == fresh);
                }
            }
            i = i + 1;
        }
        let r = MaterialMixRegistry { slots };
        assert forall|i: int| 0 <= i < MATERIAL_MIX_SLOT_COUNT implies #[trigger] r.slot(i).acquirable()
            && r.slot(i).next_generation_spec() == Some(1u64) by {
            assert(slots@[i].wf());
            assert(r.slot(i) == slots@[i]);
        }
        r
    }

    /// Leases the first free slot.
    pub fn acquire_slot(&mut self) -> (r: Result<MaterialMixLease, MaterialMixRegistryError>)
        requires
            old(self).wf(),
        ensures
            final(self).wf(),
            !old(self).has_acquirable() ==> r == Err::<MaterialMixLease, MaterialMixRegistryError>(
                MaterialMixRegistryError::SlotsExhausted,
            ) && final(self).same_except(*old(self), -1),
            old(self).has_acquirable() ==> r is Ok,
            r matches Ok(lease) ==> {
                &&& lease.slot < MATERIAL_MIX_SLOT_COUNT
                &&& old(self).slot(lease.slot as int).acquirable()
                &&& forall|j: int| 0 <= j < lease.slot ==> !(#[trigger] old(self).slot(j)).acquirable()
                &&& lease.generation == old(self).slot(lease.slot as int).next_generation_spec().unwrap()
                &&& lease.next_publication_generation == Some(1u64)
                &&& !lease.released
                &&& final(self).slot(lease.slot as int).active_generation_spec() == Some(lease.generation)
                &&& final(self).slot(lease.slot as int).publication_spec() is None
                &&& final(self).slot(lease.slot as int).last_publication_spec() is None
                &&& !final(self).slot(lease.slot as int).call_active_spec()
                &&& final(self).slot(lease.slot as int).next_generation_spec() == (if lease.generation < u64::MAX {
                    Some((lease.generation + 1) as u64)
                } else {
                    None::<u64>
                })
                &&& final(self).same_except(*old(self), lease.slot as int)
            },
    {
        let mut i: usize = 0;
        while i < self.slots.len()
            invariant
                self.wf(),
                self.slots@ == old(self).slots@,
                i <= MATERIAL_MIX_SLOT_COUNT,
                forall|j: int| 0 <= j < i ==> !(#[trigger] old(self).slot(j)).acquirable(),
            decreases MATERIAL_MIX_SLOT_COUNT - i,
        {
            let ghost before = self.slots@[i as int];
            let acquired = self.slots[i].try_acquire(i);
            if let Some(lease) = acquired {
                assert(self.slots@[i as int].wf());
                assert forall|j: int| 0 <= j < MATERIAL_MIX_SLOT_COUNT implies #[trigger] self.slots@[j].wf() by {
                    if j != i as int {
                        assert(self.slots@[j] == old(self).slots@[j]);
                    }
                }
                assert(final(self).same_except(*old(self), i as int)) by {
                    assert forall|j: int| 0 <= j < MATERIAL_MIX_SLOT_COUNT && j != i as int implies #[trigger] self.slot(j)
                        == old(self).slot(j) by {
                        assert(self.slots@[j] == old(self).slots@[j]);
                    }
                }
                return Ok(lease);
            }
            assert(self.slots@ =~= old(self).slots@);
            i = i + 1;
        }
        assert(!old(self).has_acquirable());
        assert(final(self).same_except(*old(self), -1)) by {
            assert forall|j: int| 0 <= j < MATERIAL_MIX_SLOT_COUNT && j != -1 implies #[trigger] self.slot(j)
                == old(self).slot(j) by {
                assert(self.slots@[j] == old(self).slots@[j]);
            }
        }
        Err(MaterialMixRegistryError::SlotsExhausted)
    }
}

impl<I: Copy, C> MaterialMixRegistry<I, C> {
    /// Installs a publication in a slot (see [`MaterialMixSlot::publish`]).
    pub fn publish_at(
        &mut self,
        slot: usize,
        lease_generation: u64,
        publication: Arc<MaterialMixPublication<I, C>>,
    ) -> (r: Result<Option<Arc<MaterialMixPublication<I, C>>>, MaterialMixRegistryError>)
        requires
            old(self).wf(),
            publication.publication_generation >= 1,
            publication.lease_generation == lease_generation,
        ensures
            final(self).wf(),
            slot >= MATERIAL_MIX_SLOT_COUNT ==> r == Err::<Option<Arc<MaterialMixPublication<I, C>>>, MaterialMixRegistryError>(
                MaterialMixRegistryError::InvalidSlot,
            ),
            r is Err ==> final(self).same_except(*old(self), -1),
            slot < MATERIAL_MIX_SLOT_COUNT ==> match r {
                Ok(retired) => {
                    &&& old(self).slot(slot as int).publish_refusal(lease_generation, publication.publication_generation) is None
                    &&& retired == old(self).slot(slot as int).publication_spec()
                    &&& final(self).slot(slot as int).publication_spec() == Some(publication)
                    &&& final(self).slot(slot as int).last_publication_spec() == Some(publication.publication_generation)
                    &&& final(self).slot(slot as int).active_generation_spec() == old(self).slot(slot as int).active_generation_spec()
                    &&& final(self).slot(slot as int).next_generation_spec() == old(self).slot(slot as int).next_generation_spec()
                    &&& !final(self).slot(slot as int).call_active_spec()
                    &&& final(self).same_except(*old(self), slot as int)
                },
                Err(e) => old(self).slot(slot as int).publish_refusal(lease_generation, publication.publication_generation)
                    == Some(e),
            },
    {
        if slot >= self.slots.len() {
            return Err(MaterialMixRegistryError::InvalidSlot);
        }
        let r = self.slots[slot].publish(lease_generation, publication);
        proof { self.lemma_updated_slot(*old(self), slot as int); }
        if r.is_err() {
            assert(self.slots@ =~= old(self).slots@);
        }
        r
    }

    /// Ends a lease in a slot (see [`MaterialMixSlot::release`]).
    pub fn release_at(&mut self, slot: usize, lease_generation: u64) -> (r: Result<
        Option<Arc<MaterialMixPublication<I, C>>>,
        MaterialMixRegistryError,
    >)
        requires
            old(self).wf(),
        ensures
            final(self).wf(),
            slot >= MATERIAL_MIX_SLOT_COUNT ==> r == Err::<Option<Arc<MaterialMixPublication<I, C>>>, MaterialMixRegistryError>(
                MaterialMixRegistryError::InvalidSlot,
            ),
            r is Err ==> final(self).same_except(*old(self), -1),
            slot < MATERIAL_MIX_SLOT_COUNT && old(self).slot(slot as int).active_generation_spec() != Some(lease_generation)
                ==> r == Err::<Option<Arc<MaterialMixPublication<I, C>>>, MaterialMixRegistryError>(
                MaterialMixRegistryError::StaleLease,
            ),
            slot < MATERIAL_MIX_SLOT_COUNT && old(self).slot(slot as int).active_generation_spec() == Some(lease_generation)
                && old(self).slot(slot as int).call_active_spec() ==> r == Err::<
                Option<Arc<MaterialMixPublication<I, C>>>,
                MaterialMixRegistryError,
            >(MaterialMixRegistryError::InvalidOwnerState),
            slot < MATERIAL_MIX_SLOT_COUNT && old(self).slot(slot as int).active_generation_spec() == Some(lease_generation)
                && !old(self).slot(slot as int).call_active_spec() ==> {
                &&& r == Ok::<Option<Arc<MaterialMixPublication<I, C>>>, MaterialMixRegistryError>(
                    old(self).slot(slot as int).publication_spec(),
                )
                &&& final(self).slot(slot as int).active_generation_spec() is None
                &&& final(self).slot(slot as int).publication_spec() is None
                &&& final(self).slot(slot as int).last_publication_spec() is None
                &&& !final(self).slot(slot as int).call_active_spec()
                &&& final(self).slot(slot as int).next_generation_spec() == old(self).slot(slot as int).next_generation_spec()
                &&& final(self).same_except(*old(self), slot as int)
            },
    {
        if slot >= self.slots.len() {
            return Err(MaterialMixRegistryError::InvalidSlot);
        }
        let r = self.slots[slot].release(lease_generation);
        proof { self.lemma_updated_slot(*old(self), slot as int); }
        if r.is_err() {
            assert(self.slots@ =~= old(self).slots@);
        }
        r
    }

    /// Pins a slot's publication for one native call (see [`MaterialMixSlot::activate`]).
    pub fn activate_at(
        &mut self,
        slot: usize,
        lease_generation: u64,
        publication: &MaterialMixPublication<I, C>,
    ) -> (r: Result<(), MaterialMixRegistryError>)
        requires
            old(self).wf(),
        ensures
            final(self).wf(),
            slot >= MATERIAL_MIX_SLOT_COUNT ==> r == Err::<(), MaterialMixRegistryError>(MaterialMixRegistryError::InvalidSlot),
            r is Err ==> final(self).same_except(*old(self), -1),
            slot < MATERIAL_MIX_SLOT_COUNT ==> (r is Ok <==> {
                &&& old(self).slot(slot as int).active_generation_spec() == Some(lease_generation)
                &&& publication.lease_generation == lease_generation
                &&& old(self).slot(slot as int).publication_spec() matches Some(p)
                &&& p.publication_generation == publication.publication_generation
                &&& !old(self).slot(slot as int).call_active_spec()
            }),
            slot < MATERIAL_MIX_SLOT_COUNT && old(self).slot(slot as int).active_generation_spec() == Some(lease_generation)
                && publication.lease_generation == lease_generation
                && (old(self).slot(slot as int).publication_spec() matches Some(p)
                && p.publication_generation == publication.publication_generation)
                && old(self).slot(slot as int).call_active_spec()
                ==> r == Err::<(), MaterialMixRegistryError>(MaterialMixRegistryError::InvalidOwnerState),
            r is Ok ==> {
                &&& final(self).slot(slot as int).call_active_spec()
                &&& final(self).slot(slot as int).publication_spec() == old(self).slot(slot as int).publication_spec()
                &&& final(self).slot(slot as int).active_generation_spec() == old(self).slot(slot as int).active_generation_spec()
                &&& final(self).slot(slot as int).next_generation_spec() == old(self).slot(slot as int).next_generation_spec()
                &&& final(self).slot(slot as int).last_publication_spec() == old(self).slot(slot as int).last_publication_spec()
                &&& final(self).same_except(*old(self), slot as int)
            },
    {
        if slot >= self.slots.len() {
            return Err(MaterialMixRegistryError::InvalidSlot);
        }
        let r = self.slots[slot].activate(lease_generation, publication);
        proof { self.lemma_updated_slot(*old(self), slot as int); }
        if r.is_err() {
            assert(self.slots@ =~= old(self).slots@);
        }
        r
    }

    /// Ends the native call that pinned a slot's publication.
    pub fn finish_call_at(&mut self, slot: usize, lease_generation: u64, publication_generation: u64)
        requires
            old(self).wf(),
        ensures
            final(self).wf(),
            slot >= MATERIAL_MIX_SLOT_COUNT ==> final(self).same_except(*old(self), -1),
            slot < MATERIAL_MIX_SLOT_COUNT ==> {
                &&& final(self).same_except(*old(self), slot as int)
                &&& final(self).slot(slot as int).publication_spec() == old(self).slot(slot as int).publication_spec()
                &&& final(self).slot(slot as int).active_generation_spec() == old(self).slot(slot as int).active_generation_spec()
                &&& final(self).slot(slot as int).next_generation_spec() == old(self).slot(slot as int).next_generation_spec()
                &&& final(self).slot(slot as int).last_publication_spec() == old(self).slot(slot as int).last_publication_spec()
                &&& final(self).slot(slot as int).call_active_spec() == (old(self).slot(slot as int).call_active_spec()
                    && !(old(self).slot(slot as int).publication_spec() matches Some(p) && p.lease_generation
                    == lease_generation && p.publication_generation == publication_generation))
            },
    {
        if slot >= self.slots.len() {
            assert(final(self).same_except(*old(self), -1));
            return;
        }
        self.slots[slot].finish_call(lease_generation, publication_generation);
        proof { self.lemma_updated_slot(*old(self), slot as int); }
    }

    /// The registration of one kind in a slot's current publication; none for an unknown slot.
    pub fn callback_at(&self, slot: usize, kind: MaterialMixKind) -> (r: Option<MaterialMixerRegistration<I, C>>)
        requires
            self.wf(),
        ensures
            slot >= MATERIAL_MIX_SLOT_COUNT ==> r is None,
            slot < MATERIAL_MIX_SLOT_COUNT ==> r == current_registration(self.slot(slot as int).publication_spec(), kind),
    {
        if slot >= self.slots.len() {
            return None;
        }
        self.slots[slot].callback(kind)
    }

    /// Each slot of a well-formed registry is well formed.
    pub proof fn lemma_slot_wf(self, index: int)
        requires
            self.wf(),
            0 <= index < MATERIAL_MIX_SLOT_COUNT,
        ensures
            self.slot(index).wf(),
    {
        assert(self.slots@[index].wf());
    }

    proof fn lemma_updated_slot(self, before: Self, index: int)
        requires
            before.wf(),
            0 <= index < MATERIAL_MIX_SLOT_COUNT,
            self.slots@ == before.slots@.update(index, self.slots@[index]),
            self.slots@[index].wf(),
        ensures
            self.wf(),
            self.same_except(before, index),
    {
        assert forall|i: int| 0 <= i < MATERIAL_MIX_SLOT_COUNT implies #[trigger] self.slots@[i].wf() by {
            if i != index {
                assert(self.slots@[i] == before.slots@[i]);
            }
        }
        assert forall|i: int| 0 <= i < MATERIAL_MIX_SLOT_COUNT && i != index implies #[trigger] self.slot(i) == before.slot(i) by {
            assert(self.slots@[i] == before.slots@[i]);
        }
    }
}

/// Publications and registrations that an operation took out of the owner or the registry.
///
/// The caller drops them only after it has released the registry and updated the native callback,
/// so that arbitrary user destructors never run while the registry is borrowed.
pub struct RetiredMaterialMixPublications<I, C> {
    pub owner: Option<Arc<MaterialMixPublication<I, C>>>,
    pub registry: Option<Arc<MaterialMixPublication<I, C>>>,
    pub attempted: Option<Arc<MaterialMixPublication<I, C>>>,
    pub unpublished_friction: Option<MaterialMixerRegistration<I, C>>,
    pub unpublished_restitution: Option<MaterialMixerRegistration<I, C>>,
}

/// Nothing was retired.
pub open spec fn retired_nothing<I, C>(r: RetiredMaterialMixPublications<I, C>) -> bool {
    &&& r.owner is None
    &&& r.registry is None
    &&& r.attempted is None
    &&& r.unpublished_friction is None
    &&& r.unpublished_restitution is None
}

impl<I: Copy, C> RetiredMaterialMixPublications<I, C> {
    /// An empty set.
    pub fn new() -> (r: Self)
        ensures
            retired_nothing(r),
    {
        RetiredMaterialMixPublications {
            owner: None,
            registry: None,
            attempted: None,
            unpublished_friction: None,
            unpublished_restitution: None,
        }
    }

    /// The same set with the owner's previous publication added.
    pub fn with_owner(self, owner: Option<Arc<MaterialMixPublication<I, C>>>) -> (r: Self)
        ensures
            r.owner == owner,
            r.registry == self.registry,
            r.attempted == self.attempted,
            r.unpublished_friction == self.unpublished_friction,
            r.unpublished_restitution == self.unpublished_restitution,
    {
        RetiredMaterialMixPublications { owner, ..self }
    }
}

/// A failed registry operation, with what it must still retire.
pub struct MaterialMixOperationFailure<I, C> {
    pub error: MaterialMixRegistryError,
    pub retired: RetiredMaterialMixPublications<I, C>,
}

impl<I: Copy, C> MaterialMixOperationFailure<I, C> {
    /// A failure that retires registrations that were never published.
    pub fn with_registrations(
        error: MaterialMixRegistryError,
        friction: Option<MaterialMixerRegistration<I, C>>,
        restitution: Option<MaterialMixerRegistration<I, C>>,
    ) -> (f: Self)
        ensures
            f.error == error,
            f.retired.unpublished_friction == friction,
            f.retired.unpublished_restitution == restitution,
            f.retired.owner is None && f.retired.registry is None && f.retired.attempted is None,
    {
        MaterialMixOperationFailure {
            error,
            retired: RetiredMaterialMixPublications {
                owner: None,
                registry: None,
                attempted: None,
                unpublished_friction: friction,
                unpublished_restitution: restitution,
            },
        }
    }

    /// A failure that retires a publication the registry refused.
    pub fn with_attempted(error: MaterialMixRegistryError, attempted: Arc<MaterialMixPublication<I, C>>) -> (f: Self)
        ensures
            f.error == error,
            f.retired.attempted == Some(attempted),
            f.retired.owner is None && f.retired.registry is None,
            f.retired.unpublished_friction is None && f.retired.unpublished_restitution is None,
    {
        MaterialMixOperationFailure {
            error,
            retired: RetiredMaterialMixPublications {
                owner: None,
                registry: None,
                attempted: Some(attempted),
                unpublished_friction: None,
                unpublished_restitution: None,
            },
        }
    }

    /// The registry error.
    pub fn error(&self) -> (e: MaterialMixRegistryError)
        ensures
            e == self.error,
    {
        self.error
    }

    /// What the failed operation must still retire.
    pub fn into_retired(self) -> (r: RetiredMaterialMixPublications<I, C>)
        ensures
            r == self.retired,
    {
        self.retired
    }
}

/// A publication accepted by the registry.
pub struct MaterialMixPublicationUpdate<I, C> {
    pub slot: usize,
    pub publication: Arc<MaterialMixPublication<I, C>>,
    pub retired: RetiredMaterialMixPublications<I, C>,
}

/// The publication a lease makes of the given registrations.
pub open spec fn next_publication<I, C>(
    lease: MaterialMixLease,
    friction: Option<MaterialMixerRegistration<I, C>>,
    restitution: Option<MaterialMixerRegistration<I, C>>,
) -> MaterialMixPublication<I, C> {
    MaterialMixPublication {
        lease_generation: lease.generation,
        publication_generation: lease.next_publication_generation.unwrap(),
        friction,
        restitution,
    }
}

/// The error with which a registry refuses the next publication of a lease, if any.
pub open spec fn lease_publish_refusal<I: Copy, C>(
    lease: MaterialMixLease,
    registry: MaterialMixRegistry<I, C>,
) -> Option<MaterialMixRegistryError> {
    if lease.next_publication_generation is None {
        Some(MaterialMixRegistryError::PublicationGenerationExhausted)
    } else if lease.slot >= MATERIAL_MIX_SLOT_COUNT {
        Some(MaterialMixRegistryError::InvalidSlot)
    } else {
        registry.slot(lease.slot as int).publish_refusal(lease.generation, lease.next_publication_generation.unwrap())
    }
}

/// The publication generation that follows `g`, if any is left.
pub open spec fn successor(g: u64) -> Option<u64> {
    if g < u64::MAX {
        Some((g + 1) as u64)
    } else {
        None
    }
}

impl MaterialMixLease {
    /// Publishes the given registrations in the leased slot.
    pub fn publish<I: Copy, C>(
        &mut self,
        registry: &mut MaterialMixRegistry<I, C>,
        friction: Option<MaterialMixerRegistration<I, C>>,
        restitution: Option<MaterialMixerRegistration<I, C>>,
    ) -> (r: Result<MaterialMixPublicationUpdate<I, C>, MaterialMixOperationFailure<I, C>>)
        requires
            old(registry).wf(),
            old(self).next_publication_generation matches Some(n) ==> n >= 1,
        ensures
            final(registry).wf(),
            match r {
                Ok(update) => {
                    &&& lease_publish_refusal(*old(self), *old(registry)) is None
                    &&& update.slot == old(self).slot
                    &&& *update.publication == next_publication(*old(self), friction, restitution)
                    &&& update.retired.registry == old(registry).slot(old(self).slot as int).publication_spec()
                    &&& update.retired.owner is None && update.retired.attempted is None
                    &&& update.retired.unpublished_friction is None && update.retired.unpublished_restitution is None
                    &&& final(registry).slot(old(self).slot as int).publication_spec() == Some(update.publication)
                    &&& final(registry).slot(old(self).slot as int).last_publication_spec()
                        == old(self).next_publication_generation
                    &&& final(registry).slot(old(self).slot as int).active_generation_spec()
                        == old(registry).slot(old(self).slot as int).active_generation_spec()
                    &&& final(registry).slot(old(self).slot as int).next_generation_spec()
                        == old(registry).slot(old(self).slot as int).next_generation_spec()
                    &&& !final(registry).slot(old(self).slot as int).call_active_spec()
                    &&& final(registry).same_except(*old(registry), old(self).slot as int)
                    &&& *final(self) == MaterialMixLease {
                        next_publication_generation: successor(old(self).next_publication_generation.unwrap()),
                        ..*old(self)
                    }
                },
                Err(failure) => {
                    &&& lease_publish_refusal(*old(self), *old(registry)) == Some(failure.error)
                    &&& final(registry).same_except(*old(registry), -1)
                    &&& *final(self) == *old(self)
                    &&& if failure.error == MaterialMixRegistryError::PublicationGenerationExhausted {
                        &&& failure.retired.unpublished_friction == friction
                        &&& failure.retired.unpublished_restitution == restitution
                        &&& failure.retired.owner is None && failure.retired.registry is None
                        &&& failure.retired.attempted is None
                    } else {
                        &&& failure.retired.attempted matches Some(a) && *a == next_publication(*old(self), friction, restitution)
                        &&& failure.retired.owner is None && failure.retired.registry is None
                        &&& failure.retired.unpublished_friction is None && failure.retired.unpublished_restitution is None
                    }
                },
            },
    {
        let next_generation = match self.next_publication_generation {
            Some(n) => n,
            None => {
                assert(final(registry).same_except(*old(registry), -1));
                return Err(MaterialMixOperationFailure::with_registrations(
                    MaterialMixRegistryError::PublicationGenerationExhausted,
                    friction,
                    restitution,
                ));
            },
        };
        let publication = Arc::new(MaterialMixPublication {
            lease_generation: self.generation,
            publication_generation: next_generation,
            friction,
            restitution,
        });
        let published = share(&publication);
        let retired_registry = match registry.publish_at(self.slot, self.generation, publication) {
            Ok(retired) => retired,
            Err(error) => {
                return Err(MaterialMixOperationFailure::with_attempted(error, published));
            },
        };
        self.next_publication_generation = next_generation.checked_add(1);
        Ok(MaterialMixPublicationUpdate {
            slot: self.slot,
            publication: published,
            retired: RetiredMaterialMixPublications {
                owner: None,
                registry: retired_registry,
                attempted: None,
                unpublished_friction: None,
                unpublished_restitution: None,
            },
        })
    }

    /// Ends the lease, handing back the slot's publication.
    pub fn release<I: Copy, C>(&mut self, registry: &mut MaterialMixRegistry<I, C>) -> (r: Result<
        Option<Arc<MaterialMixPublication<I, C>>>,
        MaterialMixRegistryError,
    >)
        requires
            old(registry).wf(),
        ensures
            final(registry).wf(),
            old(self).released ==> r == Err::<Option<Arc<MaterialMixPublication<I, C>>>, MaterialMixRegistryError>(
                MaterialMixRegistryError::StaleLease,
            ) && *final(self) == *old(self) && final(registry).same_except(*old(registry), -1),
            !old(self).released ==> {
                &&& r is Ok ==> *final(self) == MaterialMixLease { released: true, ..*old(self) }
                &&& r is Err ==> *final(self) == *old(self) && final(registry).same_except(*old(registry), -1)
                &&& old(self).slot >= MATERIAL_MIX_SLOT_COUNT ==> r == Err::<
                    Option<Arc<MaterialMixPublication<I, C>>>,
                    MaterialMixRegistryError,
                >(MaterialMixRegistryError::InvalidSlot)
                &&& old(self).slot < MATERIAL_MIX_SLOT_COUNT ==> {
                    let before = old(registry).slot(old(self).slot as int);
                    &&& before.active_generation_spec() != Some(old(self).generation) ==> r == Err::<
                        Option<Arc<MaterialMixPublication<I, C>>>,
                        MaterialMixRegistryError,
                    >(MaterialMixRegistryError::StaleLease)
                    &&& before.active_generation_spec() == Some(old(self).generation) && before.call_active_spec()
                        ==> r == Err::<Option<Arc<MaterialMixPublication<I, C>>>, MaterialMixRegistryError>(
                        MaterialMixRegistryError::InvalidOwnerState,
                    )
                    &&& before.active_generation_spec() == Some(old(self).generation) && !before.call_active_spec()
                        ==> {
                        &&& r == Ok::<Option<Arc<MaterialMixPublication<I, C>>>, MaterialMixRegistryError>(
                            before.publication_spec(),
                        )
                        &&& final(registry).slot(old(self).slot as int).active_generation_spec() is None
                        &&& final(registry).slot(old(self).slot as int).publication_spec() is None
                        &&& final(registry).slot(old(self).slot as int).last_publication_spec() is None
                        &&& !final(registry).slot(old(self).slot as int).call_active_spec()
                        &&& final(registry).slot(old(self).slot as int).next_generation_spec()
                            == before.next_generation_spec()
                        &&& final(registry).same_except(*old(registry), old(self).slot as int)
                    }
                }
            },
    {
        if self.released {
            assert(final(registry).same_except(*old(registry), -1));
            return Err(MaterialMixRegistryError::StaleLease);
        }
        let retired = registry.release_at(self.slot, self.generation)?;
        self.released = true;
        Ok(retired)
    }
}

/// An owner's mixer publication together with its lease of a registry slot.
pub struct OwnedMaterialMixSlot<I, C> {
    lease: Option<MaterialMixLease>,
    publication: Option<Arc<MaterialMixPublication<I, C>>>,
}

/// A published mixer change, with what it retired.
pub struct MaterialMixOwnerUpdate<I, C> {
    pub slot: usize,
    pub retired: RetiredMaterialMixPublications<I, C>,
}

impl<I: Copy, C> MaterialMixOwnerUpdate<I, C> {
    /// The slot whose trampolines route to the published mixers.
    pub fn slot(&self) -> (s: usize)
        ensures
            s == self.slot,
    {
        self.slot
    }

    /// What the update retired.
    pub fn into_retired(self) -> (r: RetiredMaterialMixPublications<I, C>)
        ensures
            r == self.retired,
    {
        self.retired
    }
}

/// The pair of registrations after one kind is replaced by `registration`.
pub open spec fn with_registration<I, C>(
    current: Option<Arc<MaterialMixPublication<I, C>>>,
    kind: MaterialMixKind,
    registration: MaterialMixerRegistration<I, C>,
) -> (Option<MaterialMixerRegistration<I, C>>, Option<MaterialMixerRegistration<I, C>>) {
    match kind {
        MaterialMixKind::Friction => (Some(registration), current_registration(current, MaterialMixKind::Restitution)),
        MaterialMixKind::Restitution => (current_registration(current, MaterialMixKind::Friction), Some(registration)),
    }
}

/// The pair of registrations after one kind is removed.
pub open spec fn without_registration<I, C>(
    current: Option<Arc<MaterialMixPublication<I, C>>>,
    kind: MaterialMixKind,
) -> (Option<MaterialMixerRegistration<I, C>>, Option<MaterialMixerRegistration<I, C>>) {
    match kind {
        MaterialMixKind::Friction => (None, current_registration(current, MaterialMixKind::Restitution)),
        MaterialMixKind::Restitution => (current_registration(current, MaterialMixKind::Friction), None),
    }
}

/// The registration pair of a new owner when only `registration` is given.
pub open spec fn alone<I, C>(
    kind: MaterialMixKind,
    registration: MaterialMixerRegistration<I, C>,
) -> (Option<MaterialMixerRegistration<I, C>>, Option<MaterialMixerRegistration<I, C>>) {
    with_registration(None, kind, registration)
}

impl<I: Copy, C> OwnedMaterialMixSlot<I, C> {
    /// The owner's lease.
    pub closed spec fn lease_spec(self) -> Option<MaterialMixLease> {
        self.lease
    }

    /// The owner's current publication.
    pub closed spec fn publication_spec(self) -> Option<Arc<MaterialMixPublication<I, C>>> {
        self.publication
    }

    /// The owner agrees with the registry: without a lease it has no publication; with one, the
    /// leased slot is active under the lease's generation, publishes exactly the owner's
    /// publication, and has accepted no publication generation at or past the lease's next one.
    pub open spec fn consistent(self, registry: MaterialMixRegistry<I, C>) -> bool {
        &&& registry.wf()
        &&& match self.lease_spec() {
            None => self.publication_spec() is None,
            Some(l) => {
                &&& l.slot < MATERIAL_MIX_SLOT_COUNT
                &&& !l.released
                &&& registry.slot(l.slot as int).active_generation_spec() == Some(l.generation)
                &&& registry.slot(l.slot as int).publication_spec() == self.publication_spec()
                &&& (l.next_publication_generation matches Some(n) ==> n >= 1
                    && (registry.slot(l.slot as int).last_publication_spec() matches Some(g) ==> g < n))
            },
        }
    }

    /// An owner with no mixers and no slot.
    pub fn new() -> (o: Self)
        ensures
            o.lease_spec() is None,
            o.publication_spec() is None,
    {
        OwnedMaterialMixSlot { lease: None, publication: None }
    }

    /// The outcome of releasing everything: see [`OwnedMaterialMixSlot::release_all`].
    pub open spec fn released_all(
        self,
        registry: MaterialMixRegistry<I, C>,
        after: Self,
        registry_after: MaterialMixRegistry<I, C>,
        r: Result<RetiredMaterialMixPublications<I, C>, MaterialMixOperationFailure<I, C>>,
    ) -> bool {
        match self.lease_spec() {
            None => {
                &&& r matches Ok(retired) && retired.owner == self.publication_spec() && retired.registry is None
                    && retired.attempted is None && retired.unpublished_friction is None
                    && retired.unpublished_restitution is None
                &&& after.lease_spec() is None && after.publication_spec() is None
                &&& registry_after.same_except(registry, -1)
            },
            Some(l) => if registry.slot(l.slot as int).call_active_spec() {
                &&& r matches Err(failure) && failure.error == MaterialMixRegistryError::InvalidOwnerState
                    && retired_nothing(failure.retired)
                &&& after == self
                &&& registry_after.same_except(registry, -1)
            } else {
                &&& r matches Ok(retired) && retired.owner == self.publication_spec()
                    && retired.registry == self.publication_spec() && retired.attempted is None
                    && retired.unpublished_friction is None && retired.unpublished_restitution is None
                &&& after.lease_spec() is None && after.publication_spec() is None
                &&& registry_after.slot(l.slot as int).active_generation_spec() is None
                &&& registry_after.slot(l.slot as int).publication_spec() is None
                &&& registry_after.slot(l.slot as int).last_publication_spec() is None
                &&& !registry_after.slot(l.slot as int).call_active_spec()
                &&& registry_after.slot(l.slot as int).next_generation_spec()
                    == registry.slot(l.slot as int).next_generation_spec()
                &&& registry_after.same_except(registry, l.slot as int)
            },
        }
    }

    /// Ends the owner's lease and hands back every publication it held.
    pub fn release_all(&mut self, registry: &mut MaterialMixRegistry<I, C>) -> (r: Result<
        RetiredMaterialMixPublications<I, C>,
        MaterialMixOperationFailure<I, C>,
    >)
        requires
            old(self).consistent(*old(registry)),
        ensures
            final(self).consistent(*final(registry)),
            old(self).released_all(*old(registry), *final(self), *final(registry), r),
    {
        let mut lease = match self.lease.take() {
            Some(lease) => lease,
            None => {
                assert(final(registry).same_except(*old(registry), -1));
                return Ok(RetiredMaterialMixPublications::new().with_owner(self.publication.take()));
            },
        };
        match lease.release(registry) {
            Ok(retired_registry) => {
                let owner = self.publication.take();
                Ok(RetiredMaterialMixPublications {
                    owner,
                    registry: retired_registry,
                    attempted: None,
                    unpublished_friction: None,
                    unpublished_restitution: None,
                })
            },
            Err(error) => {
                if error == MaterialMixRegistryError::InvalidOwnerState {
                    self.lease = Some(lease);
                    return Err(MaterialMixOperationFailure { error, retired: RetiredMaterialMixPublications::new() });
                }
                let owner = self.publication.take();
                Err(MaterialMixOperationFailure {
                    error,
                    retired: RetiredMaterialMixPublications::new().with_owner(owner),
                })
            },
        }
    }

    /// Releases everything after the native world is gone, whatever the registry answers.
    pub fn detach_after_native_destroyed(&mut self, registry: &mut MaterialMixRegistry<I, C>) -> (r: RetiredMaterialMixPublications<I, C>)
        requires
            old(self).consistent(*old(registry)),
        ensures
            final(self).consistent(*final(registry)),
            exists|res| old(self).released_all(*old(registry), *final(self), *final(registry), res)
                && r == match res {
                Ok(retired) => retired,
                Err(failure) => failure.retired,
            },
    {
        let res = self.release_all(registry);
        match res {
            Ok(retired) => retired,
            Err(failure) => failure.retired,
        }
    }
}

impl<I: Copy, C> OwnedMaterialMixSlot<I, C> {
    /// Installs a friction mixer, keeping the restitution mixer.
    pub fn set_friction(
        &mut self,
        registry: &mut MaterialMixRegistry<I, C>,
        registration: MaterialMixerRegistration<I, C>,
    ) -> (r: Result<MaterialMixOwnerUpdate<I, C>, MaterialMixOperationFailure<I, C>>)
        requires
            old(self).consistent(*old(registry)),
        ensures
            final(self).consistent(*final(registry)),
            old(self).set_outcome(*old(registry), MaterialMixKind::Friction, registration, *final(self), *final(registry), r),
    {
        self.set(registry, MaterialMixKind::Friction, registration)
    }

    /// Installs a restitution mixer, keeping the friction mixer.
    pub fn set_restitution(
        &mut self,
        registry: &mut MaterialMixRegistry<I, C>,
        registration: MaterialMixerRegistration<I, C>,
    ) -> (r: Result<MaterialMixOwnerUpdate<I, C>, MaterialMixOperationFailure<I, C>>)
        requires
            old(self).consistent(*old(registry)),
        ensures
            final(self).consistent(*final(registry)),
            old(self).set_outcome(*old(registry), MaterialMixKind::Restitution, registration, *final(self), *final(registry), r),
    {
        self.set(registry, MaterialMixKind::Restitution, registration)
    }

    /// What installing `registration` as the mixer of `kind` does.
    ///
    /// Without a lease, the owner leases the first free slot and publishes the registration there
    /// as publication generation one, or fails with `SlotsExhausted` and changes nothing. With a
    /// lease, it publishes the registration together with the other kind's current mixer as the
    /// lease's next publication, or fails with the registry's refusal and changes nothing. After a
    /// success the leased slot publishes exactly the owner's new publication and runs no native
    /// call, so a further change through the same lease is not refused for an active call.
    pub open spec fn set_outcome(
        self,
        registry: MaterialMixRegistry<I, C>,
        kind: MaterialMixKind,
        registration: MaterialMixerRegistration<I, C>,
        after: Self,
        registry_after: MaterialMixRegistry<I, C>,
        r: Result<MaterialMixOwnerUpdate<I, C>, MaterialMixOperationFailure<I, C>>,
    ) -> bool {
        &&& r matches Ok(update) ==> {
            &&& after.lease_spec() matches Some(l) && l.slot == update.slot
            &&& after.publication_spec() matches Some(p)
            &&& registration_of(*p, kind) == Some(registration)
            &&& forall|other: MaterialMixKind| other != kind ==> current_registration(after.publication_spec(), other)
                == #[trigger] current_registration(self.publication_spec(), other)
            &&& registry_after.slot(update.slot as int).publication_spec() == after.publication_spec()
            &&& !registry_after.slot(update.slot as int).call_active_spec()
            &&& registry_after.same_except(registry, update.slot as int)
        }
        &&& match self.lease_spec() {
            None => if !registry.has_acquirable() {
                &&& r matches Err(failure) && failure.error == MaterialMixRegistryError::SlotsExhausted
                    && failure.retired.unpublished_friction == alone(kind, registration).0
                    && failure.retired.unpublished_restitution == alone(kind, registration).1
                    && failure.retired.owner is None && failure.retired.registry is None
                    && failure.retired.attempted is None
                &&& after == self
                &&& registry_after.same_except(registry, -1)
            } else {
                &&& r matches Ok(update)
                &&& registry.slot(update.slot as int).acquirable()
                &&& forall|j: int| 0 <= j < update.slot ==> !(#[trigger] registry.slot(j)).acquirable()
                &&& retired_nothing(update.retired)
                &&& after.lease_spec() == Some(MaterialMixLease {
                    slot: update.slot,
                    generation: registry.slot(update.slot as int).next_generation_spec().unwrap(),
                    next_publication_generation: Some(2u64),
                    released: false,
                })
                &&& after.publication_spec() matches Some(p) && *p == MaterialMixPublication {
                    lease_generation: registry.slot(update.slot as int).next_generation_spec().unwrap(),
                    publication_generation: 1u64,
                    friction: alone(kind, registration).0,
                    restitution: alone(kind, registration).1,
                }
                &&& registry_after.slot(update.slot as int).next_generation_spec() == successor(
                    registry.slot(update.slot as int).next_generation_spec().unwrap(),
                )
            },
            Some(l) => {
                let pair = with_registration(self.publication_spec(), kind, registration);
                match lease_publish_refusal(l, registry) {
                    Some(e) => {
                        &&& r matches Err(failure) && failure.error == e
                            && failure.retired.owner is None && failure.retired.registry is None
                            && (if e == MaterialMixRegistryError::PublicationGenerationExhausted {
                                failure.retired.unpublished_friction == pair.0
                                    && failure.retired.unpublished_restitution == pair.1
                                    && failure.retired.attempted is None
                            } else {
                                failure.retired.attempted matches Some(a) && *a == next_publication(l, pair.0, pair.1)
                                    && failure.retired.unpublished_friction is None
                                    && failure.retired.unpublished_restitution is None
                            })
                        &&& after == self
                        &&& registry_after.same_except(registry, -1)
                    },
                    None => {
                        &&& r matches Ok(update)
                        &&& update.slot == l.slot
                        &&& update.retired.owner == self.publication_spec()
                        &&& update.retired.registry == self.publication_spec()
                        &&& update.retired.attempted is None
                        &&& update.retired.unpublished_friction is None
                        &&& update.retired.unpublished_restitution is None
                        &&& after.lease_spec() == Some(MaterialMixLease {
                            next_publication_generation: successor(l.next_publication_generation.unwrap()),
                            ..l
                        })
                        &&& after.publication_spec() matches Some(p) && *p == next_publication(l, pair.0, pair.1)
                    },
                }
            },
        }
    }

    /// An owner that holds a lease whose slot runs no native call can publish through it again
    /// unless the lease's publication generations are used up: after one successful `set`, a
    /// `set` of the other kind publishes in the same slot.
    pub proof fn lemma_leased_owner_can_publish_again(self, registry: MaterialMixRegistry<I, C>)
        requires
            self.consistent(registry),
            self.lease_spec() matches Some(l) && l.next_publication_generation is Some
                && !registry.slot(l.slot as int).call_active_spec(),
        ensures
            lease_publish_refusal(self.lease_spec().unwrap(), registry) is None,
    {
    }

    /// Installing one kind of mixer in an owner without a slot and then the other kind: when the
    /// registry has a free slot, both calls succeed, the second keeps the slot the first leased,
    /// which is the lowest free one, and the owner then publishes both mixers.
    pub proof fn lemma_set_both_kinds(
        self,
        registry: MaterialMixRegistry<I, C>,
        first_kind: MaterialMixKind,
        first: MaterialMixerRegistration<I, C>,
        middle: Self,
        registry_middle: MaterialMixRegistry<I, C>,
        first_result: Result<MaterialMixOwnerUpdate<I, C>, MaterialMixOperationFailure<I, C>>,
        second_kind: MaterialMixKind,
        second: MaterialMixerRegistration<I, C>,
        last: Self,
        registry_last: MaterialMixRegistry<I, C>,
        second_result: Result<MaterialMixOwnerUpdate<I, C>, MaterialMixOperationFailure<I, C>>,
    )
        requires
            self.consistent(registry),
            self.lease_spec() is None,
            registry.has_acquirable(),
            self.set_outcome(registry, first_kind, first, middle, registry_middle, first_result),
            middle.consistent(registry_middle),
            middle.set_outcome(registry_middle, second_kind, second, last, registry_last, second_result),
            second_kind != first_kind,
        ensures
            first_result is Ok,
            second_result is Ok,
            second_result->Ok_0.slot == first_result->Ok_0.slot,
            registry.slot(first_result->Ok_0.slot as int).acquirable(),
            forall|j: int| 0 <= j < first_result->Ok_0.slot ==> !(#[trigger] registry.slot(j)).acquirable(),
            current_registration(last.publication_spec(), first_kind) == Some(first),
            current_registration(last.publication_spec(), second_kind) == Some(second),
    {
        let u1 = first_result->Ok_0;
        let l = middle.lease_spec().unwrap();
        assert(l.next_publication_generation == Some(2u64));
        assert(!registry_middle.slot(u1.slot as int).call_active_spec());
        middle.lemma_leased_owner_can_publish_again(registry_middle);
        assert(current_registration(middle.publication_spec(), first_kind) == Some(first));
    }

    fn set(
        &mut self,
        registry: &mut MaterialMixRegistry<I, C>,
        kind: MaterialMixKind,
        registration: MaterialMixerRegistration<I, C>,
    ) -> (r: Result<MaterialMixOwnerUpdate<I, C>, MaterialMixOperationFailure<I, C>>)
        requires
            old(self).consistent(*old(registry)),
        ensures
            final(self).consistent(*final(registry)),
            old(self).set_outcome(*old(registry), kind, registration, *final(self), *final(registry), r),
    {
        let ghost registration_spec = registration;
        let acquired = if self.lease.is_none() {
            match registry.acquire_slot() {
                Ok(lease) => {
                    self.lease = Some(lease);
                    true
                },
                Err(error) => {
                    let (friction, restitution) = match kind {
                        MaterialMixKind::Friction => (Some(registration), None),
                        MaterialMixKind::Restitution => (None, Some(registration)),
                    };
                    return Err(MaterialMixOperationFailure::with_registrations(error, friction, restitution));
                },
            }
        } else {
            false
        };
        let ghost registry_mid = *registry;
        let current_friction = match &self.publication {
            Some(p) => clone_registration(&p.friction),
            None => None,
        };
        let current_restitution = match &self.publication {
            Some(p) => clone_registration(&p.restitution),
            None => None,
        };
        let (friction, restitution) = match kind {
            MaterialMixKind::Friction => (Some(registration), current_restitution),
            MaterialMixKind::Restitution => (current_friction, Some(registration)),
        };
        let mut lease = match self.lease.take() {
            Some(lease) => lease,
            None => {
                return Err(MaterialMixOperationFailure::with_registrations(
                    MaterialMixRegistryError::InvalidOwnerState,
                    friction,
                    restitution,
                ));
            },
        };
        let result = lease.publish(registry, friction, restitution);
        let update = match result {
            Ok(update) => update,
            Err(failure) => {
                if acquired {
                    let retired_registry = match lease.release(registry) {
                        Ok(retired) => retired,
                        Err(_) => None,
                    };
                    let failure = MaterialMixOperationFailure {
                        error: failure.error,
                        retired: RetiredMaterialMixPublications { registry: retired_registry, ..failure.retired },
                    };
                    return Err(failure);
                }
                self.lease = Some(lease);
                return Err(failure);
            },
        };
        self.lease = Some(lease);
        let MaterialMixPublicationUpdate { slot, publication, retired } = update;
        let previous = self.publication.take();
        self.publication = Some(publication);
        Ok(MaterialMixOwnerUpdate { slot, retired: retired.with_owner(previous) })
    }
}

/// The publication that one native call observes, pinned in its slot until the call finishes.
pub struct ActiveMaterialMixSnapshot<I, C> {
    slot: usize,
    publication: Option<Arc<MaterialMixPublication<I, C>>>,
}

impl<I: Copy, C> ActiveMaterialMixSnapshot<I, C> {
    /// The slot the snapshot pins.
    pub closed spec fn slot_spec(self) -> usize {
        self.slot
    }

    /// The pinned publication.
    pub closed spec fn publication_spec(self) -> Option<Arc<MaterialMixPublication<I, C>>> {
        self.publication
    }

    /// Unpins the publication once the native call has returned, handing it back for disposal.
    pub fn finish(self, registry: &mut MaterialMixRegistry<I, C>) -> (r: Option<Arc<MaterialMixPublication<I, C>>>)
        requires
            old(registry).wf(),
        ensures
            final(registry).wf(),
            r == self.publication_spec(),
            self.publication_spec() is None ==> final(registry).same_except(*old(registry), -1),
            self.publication_spec() matches Some(p) ==> {
                let s = self.slot_spec() as int;
                &&& self.slot_spec() >= MATERIAL_MIX_SLOT_COUNT ==> final(registry).same_except(*old(registry), -1)
                &&& self.slot_spec() < MATERIAL_MIX_SLOT_COUNT ==> {
                    &&& final(registry).same_except(*old(registry), s)
                    &&& final(registry).slot(s).publication_spec() == old(registry).slot(s).publication_spec()
                    &&& final(registry).slot(s).active_generation_spec() == old(registry).slot(s).active_generation_spec()
                    &&& final(registry).slot(s).next_generation_spec() == old(registry).slot(s).next_generation_spec()
                    &&& final(registry).slot(s).last_publication_spec() == old(registry).slot(s).last_publication_spec()
                    &&& final(registry).slot(s).call_active_spec() == (old(registry).slot(s).call_active_spec()
                        && !(old(registry).slot(s).publication_spec() matches Some(q)
                        && q.lease_generation == p.lease_generation
                        && q.publication_generation == p.publication_generation))
                }
            },
    {
        match &self.publication {
            Some(p) => registry.finish_call_at(self.slot, p.lease_generation, p.publication_generation),
            None => {
                assert(final(registry).same_except(*old(registry), -1));
            },
        }
        self.publication
    }
}

impl<I: Copy, C> OwnedMaterialMixSlot<I, C> {
    /// Removes the friction mixer, releasing the slot if no mixer remains.
    pub fn clear_friction(&mut self, registry: &mut MaterialMixRegistry<I, C>) -> (r: Result<
        RetiredMaterialMixPublications<I, C>,
        MaterialMixOperationFailure<I, C>,
    >)
        requires
            old(self).consistent(*old(registry)),
        ensures
            final(self).consistent(*final(registry)),
            old(self).clear_outcome(*old(registry), MaterialMixKind::Friction, *final(self), *final(registry), r),
    {
        self.clear(registry, MaterialMixKind::Friction)
    }

    /// Removes the restitution mixer, releasing the slot if no mixer remains.
    pub fn clear_restitution(&mut self, registry: &mut MaterialMixRegistry<I, C>) -> (r: Result<
        RetiredMaterialMixPublications<I, C>,
        MaterialMixOperationFailure<I, C>,
    >)
        requires
            old(self).consistent(*old(registry)),
        ensures
            final(self).consistent(*final(registry)),
            old(self).clear_outcome(*old(registry), MaterialMixKind::Restitution, *final(self), *final(registry), r),
    {
        self.clear(registry, MaterialMixKind::Restitution)
    }

    /// What removing the mixer of `kind` does: nothing when there is none; releasing everything
    /// when it was the last one; otherwise publishing the other mixer alone as the lease's next
    /// publication, or failing with the registry's refusal and changing nothing.
    pub open spec fn clear_outcome(
        self,
        registry: MaterialMixRegistry<I, C>,
        kind: MaterialMixKind,
        after: Self,
        registry_after: MaterialMixRegistry<I, C>,
        r: Result<RetiredMaterialMixPublications<I, C>, MaterialMixOperationFailure<I, C>>,
    ) -> bool {
        let pair = without_registration(self.publication_spec(), kind);
        &&& r is Ok ==> current_registration(after.publication_spec(), kind) is None
        &&& r is Ok ==> forall|other: MaterialMixKind| other != kind ==> #[trigger] current_registration(
            after.publication_spec(),
            other,
        ) == current_registration(self.publication_spec(), other)
        &&& if current_registration(self.publication_spec(), kind) is None {
            &&& r matches Ok(retired) && retired_nothing(retired)
            &&& after == self
            &&& registry_after.same_except(registry, -1)
        } else if pair.0 is None && pair.1 is None {
            self.released_all(registry, after, registry_after, r)
        } else {
            let l = self.lease_spec().unwrap();
            match lease_publish_refusal(l, registry) {
                Some(e) => {
                    &&& r matches Err(failure) && failure.error == e
                        && failure.retired.owner is None && failure.retired.registry is None
                        && (if e == MaterialMixRegistryError::PublicationGenerationExhausted {
                            failure.retired.unpublished_friction == pair.0
                                && failure.retired.unpublished_restitution == pair.1
                                && failure.retired.attempted is None
                        } else {
                            failure.retired.attempted matches Some(a) && *a == next_publication(l, pair.0, pair.1)
                                && failure.retired.unpublished_friction is None
                                && failure.retired.unpublished_restitution is None
                        })
                    &&& after == self
                    &&& registry_after.same_except(registry, -1)
                },
                None => {
                    &&& r matches Ok(retired) && retired.owner == self.publication_spec()
                        && retired.registry == self.publication_spec() && retired.attempted is None
                        && retired.unpublished_friction is None && retired.unpublished_restitution is None
                    &&& after.lease_spec() == Some(MaterialMixLease {
                        next_publication_generation: successor(l.next_publication_generation.unwrap()),
                        ..l
                    })
                    &&& after.publication_spec() matches Some(p) && *p == next_publication(l, pair.0, pair.1)
                    &&& registry_after.slot(l.slot as int).publication_spec() == after.publication_spec()
                    &&& registry_after.same_except(registry, l.slot as int)
                },
            }
        }
    }

    fn clear(&mut self, registry: &mut MaterialMixRegistry<I, C>, kind: MaterialMixKind) -> (r: Result<
        RetiredMaterialMixPublications<I, C>,
        MaterialMixOperationFailure<I, C>,
    >)
        requires
            old(self).consistent(*old(registry)),
        ensures
            final(self).consistent(*final(registry)),
            old(self).clear_outcome(*old(registry), kind, *final(self), *final(registry), r),
    {
        let (present, friction, restitution) = match &self.publication {
            None => (false, None, None),
            Some(p) => {
                let present = match kind {
                    MaterialMixKind::Friction => p.friction.is_some(),
                    MaterialMixKind::Restitution => p.restitution.is_some(),
                };
                let friction = match kind {
                    MaterialMixKind::Friction => None,
                    MaterialMixKind::Restitution => clone_registration(&p.friction),
                };
                let restitution = match kind {
                    MaterialMixKind::Friction => clone_registration(&p.restitution),
                    MaterialMixKind::Restitution => None,
                };
                (present, friction, restitution)
            },
        };
        if !present {
            assert(final(registry).same_except(*old(registry), -1));
            return Ok(RetiredMaterialMixPublications::new());
        }
        if friction.is_none() && restitution.is_none() {
            return self.release_all(registry);
        }
        let mut lease = match self.lease.take() {
            Some(lease) => lease,
            None => {
                return Err(MaterialMixOperationFailure::with_registrations(
                    MaterialMixRegistryError::InvalidOwnerState,
                    friction,
                    restitution,
                ));
            },
        };
        let result = lease.publish(registry, friction, restitution);
        self.lease = Some(lease);
        let update = match result {
            Ok(update) => update,
            Err(failure) => return Err(failure),
        };
        let MaterialMixPublicationUpdate { slot: _, publication, retired } = update;
        let previous = self.publication.take();
        self.publication = Some(publication);
        Ok(retired.with_owner(previous))
    }

    /// Pins the owner's publication for one native call; none when the owner has no mixers.
    pub fn activate_snapshot(&self, registry: &mut MaterialMixRegistry<I, C>) -> (r: Result<
        Option<ActiveMaterialMixSnapshot<I, C>>,
        MaterialMixRegistryError,
    >)
        requires
            self.consistent(*old(registry)),
        ensures
            self.consistent(*final(registry)),
            self.lease_spec() is None ==> (r matches Ok(None)) && final(registry).same_except(*old(registry), -1),
            self.lease_spec() matches Some(l) ==> {
                let s = l.slot as int;
                if self.publication_spec() is None {
                    r == Err::<Option<ActiveMaterialMixSnapshot<I, C>>, MaterialMixRegistryError>(
                        MaterialMixRegistryError::InvalidOwnerState,
                    ) && final(registry).same_except(*old(registry), -1)
                } else if old(registry).slot(s).call_active_spec() {
                    r == Err::<Option<ActiveMaterialMixSnapshot<I, C>>, MaterialMixRegistryError>(
                        MaterialMixRegistryError::InvalidOwnerState,
                    ) && final(registry).same_except(*old(registry), -1)
                } else {
                    &&& r matches Ok(Some(snapshot)) && snapshot.slot_spec() == l.slot
                        && snapshot.publication_spec() == self.publication_spec()
                    &&& final(registry).slot(s).call_active_spec()
                    &&& final(registry).slot(s).publication_spec() == old(registry).slot(s).publication_spec()
                    &&& final(registry).slot(s).active_generation_spec() == old(registry).slot(s).active_generation_spec()
                    &&& final(registry).slot(s).next_generation_spec() == old(registry).slot(s).next_generation_spec()
                    &&& final(registry).slot(s).last_publication_spec() == old(registry).slot(s).last_publication_spec()
                    &&& final(registry).same_except(*old(registry), s)
                }
            },
    {
        match (&self.lease, &self.publication) {
            (Some(lease), Some(publication)) => {
                proof { old(registry).lemma_slot_wf(lease.slot as int); }
                let publication = share(publication);
                match registry.activate_at(lease.slot, lease.generation, &publication) {
                    Ok(()) => {},
                    Err(error) => return Err(error),
                }
                Ok(Some(ActiveMaterialMixSnapshot { slot: lease.slot, publication: Some(publication) }))
            },
            (None, None) => {
                assert(final(registry).same_except(*old(registry), -1));
                Ok(None)
            },
            _ => {
                assert(final(registry).same_except(*old(registry), -1));
                Err(MaterialMixRegistryError::InvalidOwnerState)
            },
        }
    }

    /// Whether a friction and a restitution mixer are installed.
    pub fn presence(&self) -> (p: (bool, bool))
        ensures
            p.0 == current_registration(self.publication_spec(), MaterialMixKind::Friction) is Some,
            p.1 == current_registration(self.publication_spec(), MaterialMixKind::Restitution) is Some,
    {
        match &self.publication {
            Some(publication) => (publication.friction.is_some(), publication.restitution.is_some()),
            None => (false, false),
        }
    }

    /// The recording identities of the installed mixers.
    pub fn identities(&self) -> (ids: (Option<I>, Option<I>))
        ensures
            ids.0 == (match current_registration(self.publication_spec(), MaterialMixKind::Friction) {
                Some(reg) => Some(reg.identity),
                None => None::<I>,
            }),
            ids.1 == (match current_registration(self.publication_spec(), MaterialMixKind::Restitution) {
                Some(reg) => Some(reg.identity),
                None => None::<I>,
            }),
    {
        match &self.publication {
            Some(publication) => publication.identities(),
            None => (None, None),
        }
    }

    /// Whether clearing the friction mixer would release the slot.
    pub fn clearing_friction_releases_slot(&self) -> (b: bool)
        ensures
            b == (current_registration(self.publication_spec(), MaterialMixKind::Friction) is Some
                && current_registration(self.publication_spec(), MaterialMixKind::Restitution) is None),
    {
        let (friction, restitution) = self.presence();
        friction && !restitution
    }

    /// Whether clearing the restitution mixer would release the slot.
    pub fn clearing_restitution_releases_slot(&self) -> (b: bool)
        ensures
            b == (current_registration(self.publication_spec(), MaterialMixKind::Friction) is None
                && current_registration(self.publication_spec(), MaterialMixKind::Restitution) is Some),
    {
        let (friction, restitution) = self.presence();
        !friction && restitution
    }

    /// The leased slot, if any.
    pub fn slot(&self) -> (s: Option<usize>)
        ensures
            s == match self.lease_spec() {
                Some(l) => Some(l.slot),
                None => None::<usize>,
            },
    {
        match &self.lease {
            Some(lease) => Some(lease.slot),
            None => None,
        }
    }
}

/// All generations a slot has handed out are below this bound; it never decreases.
pub open spec fn issued_bound<I: Copy, C>(slot: MaterialMixSlot<I, C>) -> int {
    match slot.next_generation_spec() {
        Some(n) => n as int,
        None => u64::MAX as int + 1,
    }
}

/// Lease generations of a slot never repeat: once a lease of generation `stale` was handed out,
/// any lease the slot hands out later (from any state whose bound is at least the one after that
/// handout) has a greater generation, and a slot whose active lease is newer refuses the stale
/// generation both for publishing and for releasing.
pub proof fn lemma_stale_lease_never_returns<I: Copy, C>(
    after_handout: MaterialMixSlot<I, C>,
    later: MaterialMixSlot<I, C>,
    stale: u64,
    publication_generation: u64,
)
    requires
        after_handout.wf(),
        later.wf(),
        stale < issued_bound(after_handout),
        issued_bound(later) >= issued_bound(after_handout),
    ensures
        later.acquirable() ==> later.next_generation_spec().unwrap() > stale,
        later.active_generation_spec() matches Some(a) && a >= issued_bound(after_handout)
            ==> later.publish_refusal(stale, publication_generation) == Some(MaterialMixRegistryError::StaleLease)
            && later.active_generation_spec() != Some(stale),
{
}

} // verus!
