//! Lifecycle and exclusive-activity state of one world.
//!
//! A world is live until a failed native operation poisons it or it is destroyed; only a live
//! world accepts operations. Recording and restoring are exclusive activities: at most one runs at
//! a time, every ordinary operation is refused while one runs, and an activity ends only through
//! the lease that began it.

use vstd::prelude::*;

use crate::error::{Error, Result};
use crate::ids::IdBrand;

verus! {

/// Whether a world can still be used.
#[derive(Clone, Copy, Debug, PartialEq, Eq, Structural)]
pub enum LifecycleState {
    Live,
    Poisoned,
    Destroyed,
}

/// The exclusive activity a world is running, if any.
#[derive(Clone, Copy, Debug, PartialEq, Eq, Structural)]
pub enum ActivityState {
    Idle,
    Recording,
    Restoring,
}

/// The error a lifecycle state answers every operation with, if any.
pub open spec fn lifecycle_error(lifecycle: LifecycleState) -> Option<Error> {
    match lifecycle {
        LifecycleState::Live => None,
        LifecycleState::Poisoned => Some(Error::WorldPoisoned),
        LifecycleState::Destroyed => Some(Error::WorldDestroyed),
    }
}

/// The lifecycle and activity of one world, with the brand of its ids.
#[derive(Clone, Copy, Debug, PartialEq, Eq, Structural)]
pub struct WorldState {
    pub lifecycle: LifecycleState,
    pub activity: ActivityState,
    pub brand: IdBrand,
}

impl WorldState {
    /// A live, idle world.
    pub fn new(brand: IdBrand) -> (s: Self)
        ensures
            s == (WorldState { lifecycle: LifecycleState::Live, activity: ActivityState::Idle, brand }),
    {
        WorldState { lifecycle: LifecycleState::Live, activity: ActivityState::Idle, brand }
    }

    /// Refuses a world that is not live.
    pub fn check_live(&self) -> (r: Result<()>)
        ensures
            r == match lifecycle_error(self.lifecycle) {
                Some(e) => Err::<(), Error>(e),
                None => Ok(()),
            },
    {
        match self.lifecycle {
            LifecycleState::Live => Ok(()),
            LifecycleState::Poisoned => Err(Error::WorldPoisoned),
            LifecycleState::Destroyed => Err(Error::WorldDestroyed),
        }
    }

    /// Refuses a world that is not live or is not running exactly the expected activity.
    pub fn check_activity(&self, expected: ActivityState) -> (r: Result<()>)
        ensures
            r == match lifecycle_error(self.lifecycle) {
                Some(e) => Err::<(), Error>(e),
                None => if self.activity == expected {
                    Ok(())
                } else {
                    Err(Error::WorldBusy)
                },
            },
    {
        match self.check_live() {
            Ok(()) => {},
            Err(e) => return Err(e),
        }
        if self.activity == expected {
            Ok(())
        } else {
            Err(Error::WorldBusy)
        }
    }

    /// Refuses a world that cannot take an ordinary operation now.
    pub fn check_available(&self) -> (r: Result<()>)
        ensures
            r == match lifecycle_error(self.lifecycle) {
                Some(e) => Err::<(), Error>(e),
                None => if self.activity == ActivityState::Idle {
                    Ok(())
                } else {
                    Err(Error::WorldBusy)
                },
            },
    {
        self.check_activity(ActivityState::Idle)
    }

    /// Refuses an id of another world.
    pub fn check_brand_identity(&self, brand: IdBrand) -> (r: Result<()>)
        ensures
            r == if brand == self.brand {
                Ok::<(), Error>(())
            } else {
                Err(Error::WrongWorld)
            },
    {
        if brand == self.brand {
            Ok(())
        } else {
            Err(Error::WrongWorld)
        }
    }

    /// Refuses an unavailable world, then an id of another world.
    pub fn check_brand(&self, brand: IdBrand) -> (r: Result<()>)
        ensures
            r == match lifecycle_error(self.lifecycle) {
                Some(e) => Err::<(), Error>(e),
                None => if self.activity != ActivityState::Idle {
                    Err(Error::WorldBusy)
                } else if brand != self.brand {
                    Err(Error::WrongWorld)
                } else {
                    Ok(())
                },
            },
    {
        match self.check_available() {
            Ok(()) => {},
            Err(e) => return Err(e),
        }
        self.check_brand_identity(brand)
    }

    /// Starts an exclusive activity on a live, idle world.
    pub fn begin_activity(&mut self, next: ActivityState) -> (r: Result<()>)
        ensures
            r == match lifecycle_error(old(self).lifecycle) {
                Some(e) => Err::<(), Error>(e),
                None => if old(self).activity != ActivityState::Idle || next == ActivityState::Idle {
                    Err(Error::WorldBusy)
                } else {
                    Ok(())
                },
            },
            r is Ok ==> *final(self) == (WorldState { activity: next, ..*old(self) }),
            r is Err ==> *final(self) == *old(self),
    {
        match self.check_live() {
            Ok(()) => {},
            Err(e) => return Err(e),
        }
        if self.activity != ActivityState::Idle || next == ActivityState::Idle {
            return Err(Error::WorldBusy);
        }
        self.activity = next;
        Ok(())
    }

    /// Ends the expected exclusive activity.
    pub fn release_activity(&mut self, expected: ActivityState) -> (r: Result<()>)
        ensures
            r == if expected == ActivityState::Idle || old(self).activity != expected {
                Err::<(), Error>(Error::WorldBusy)
            } else {
                Ok(())
            },
            r is Ok ==> *final(self) == (WorldState { activity: ActivityState::Idle, ..*old(self) }),
            r is Err ==> *final(self) == *old(self),
    {
        if expected == ActivityState::Idle || self.activity != expected {
            return Err(Error::WorldBusy);
        }
        self.activity = ActivityState::Idle;
        Ok(())
    }

    /// Marks a live world as unusable after a failed native operation.
    pub fn poison(&mut self)
        ensures
            *final(self) == if old(self).lifecycle == LifecycleState::Live {
                WorldState { lifecycle: LifecycleState::Poisoned, ..*old(self) }
            } else {
                *old(self)
            },
    {
        if self.lifecycle == LifecycleState::Live {
            self.lifecycle = LifecycleState::Poisoned;
        }
    }
}

/// The lease of one exclusive activity, which alone can end it.
#[derive(Debug)]
pub struct ExclusiveActivityLease {
    activity: ActivityState,
    armed: bool,
}

impl ExclusiveActivityLease {
    /// The leased activity.
    pub closed spec fn activity_spec(&self) -> ActivityState {
        self.activity
    }

    /// Whether the lease will still end its activity.
    pub closed spec fn armed_spec(&self) -> bool {
        self.armed
    }

    /// Starts an exclusive activity and leases it.
    pub fn begin(world: &mut WorldState, activity: ActivityState) -> (r: Result<Self>)
        ensures
            match r {
                Ok(lease) => {
                    &&& old(world).lifecycle == LifecycleState::Live
                    &&& old(world).activity == ActivityState::Idle
                    &&& activity != ActivityState::Idle
                    &&& lease.activity_spec() == activity && lease.armed_spec()
                    &&& *final(world) == (WorldState { activity, ..*old(world) })
                },
                Err(e) => {
                    &&& *final(world) == *old(world)
                    &&& e == match lifecycle_error(old(world).lifecycle) {
                        Some(le) => le,
                        None => Error::WorldBusy,
                    }
                    &&& lifecycle_error(old(world).lifecycle) is None ==> (old(world).activity != ActivityState::Idle
                        || activity == ActivityState::Idle)
                },
            },
    {
        match world.begin_activity(activity) {
            Ok(()) => Ok(ExclusiveActivityLease { activity, armed: true }),
            Err(e) => Err(e),
        }
    }

    /// Ends the leased activity; a disarmed or finished lease does nothing.
    pub fn finish(&mut self, world: &mut WorldState) -> (r: Result<()>)
        ensures
            !old(self).armed_spec() ==> r is Ok && *final(world) == *old(world) && *final(self) == *old(self),
            old(self).armed_spec() && old(world).activity == old(self).activity_spec()
                && old(self).activity_spec() != ActivityState::Idle ==> {
                &&& r is Ok
                &&& *final(world) == (WorldState { activity: ActivityState::Idle, ..*old(world) })
                &&& !final(self).armed_spec()
                &&& final(self).activity_spec() == old(self).activity_spec()
            },
            old(self).armed_spec() && (old(world).activity != old(self).activity_spec()
                || old(self).activity_spec() == ActivityState::Idle) ==> {
                &&& r == Err::<(), Error>(Error::WorldBusy)
                &&& *final(world) == *old(world)
                &&& *final(self) == *old(self)
            },
    {
        if !self.armed {
            return Ok(());
        }
        match world.release_activity(self.activity) {
            Ok(()) => {},
            Err(e) => return Err(e),
        }
        self.armed = false;
        Ok(())
    }

    /// Gives up ending the activity, for a restore that leaves the world to its new owner.
    pub fn disarm(&mut self)
        ensures
            !final(self).armed_spec(),
            final(self).activity_spec() == old(self).activity_spec(),
    {
        self.armed = false;
    }

    /// Whether the lease will still end its activity.
    pub fn is_armed(&self) -> (b: bool)
        ensures
            b == self.armed_spec(),
    {
        self.armed
    }
}

/// Beginning an activity and finishing its lease leaves a live, idle world live and idle, with
/// the same brand.
pub proof fn lemma_activity_round_trip(
    before: WorldState,
    during: WorldState,
    after: WorldState,
    activity: ActivityState,
)
    requires
        before.lifecycle == LifecycleState::Live,
        before.activity == ActivityState::Idle,
        activity != ActivityState::Idle,
        during == (WorldState { activity, ..before }),
        after == (WorldState { activity: ActivityState::Idle, ..during }),
    ensures
        after == before,
{
}

/// Poisoning is permanent: a world that is not live never becomes live again by poisoning, and a
/// poisoned or destroyed world refuses every check with its lifecycle error.
pub proof fn lemma_poison_is_sticky(world: WorldState, poisoned: WorldState, expected: ActivityState)
    requires
        poisoned == (if world.lifecycle == LifecycleState::Live {
            WorldState { lifecycle: LifecycleState::Poisoned, ..world }
        } else {
            world
        }),
    ensures
        poisoned.lifecycle != LifecycleState::Live,
        lifecycle_error(poisoned.lifecycle) is Some,
        world.lifecycle == LifecycleState::Destroyed ==> poisoned.lifecycle == LifecycleState::Destroyed,
{
}

} // verus!
