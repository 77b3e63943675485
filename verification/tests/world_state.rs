use boxdd::ids::{IdBrand, RawWorldId, WorldToken};
use boxdd::world_state::{ActivityState, ExclusiveActivityLease, LifecycleState, WorldState};
use boxdd::Error;

fn brand(token: u64) -> IdBrand {
    IdBrand::new(RawWorldId { index1: 1, generation: 1 }, WorldToken::new(token).unwrap()).unwrap()
}

#[test]
fn lifecycle_and_activity_are_orthogonal() {
    let mut core = WorldState::new(brand(1));

    assert_eq!(core.lifecycle, LifecycleState::Live);
    assert_eq!(core.activity, ActivityState::Idle);
    let mut recording = ExclusiveActivityLease::begin(&mut core, ActivityState::Recording).unwrap();
    assert_eq!(core.check_available(), Err(Error::WorldBusy));
    assert_eq!(
        ExclusiveActivityLease::begin(&mut core, ActivityState::Restoring).err(),
        Some(Error::WorldBusy)
    );
    assert_eq!(recording.finish(&mut core), Ok(()));
    let mut restoring = ExclusiveActivityLease::begin(&mut core, ActivityState::Restoring).unwrap();
    assert_eq!(core.check_available(), Err(Error::WorldBusy));
    assert_eq!(restoring.finish(&mut core), Ok(()));

    core.poison();
    assert_eq!(core.lifecycle, LifecycleState::Poisoned);
    assert_eq!(core.activity, ActivityState::Idle);
    assert_eq!(core.check_available(), Err(Error::WorldPoisoned));
}

#[test]
fn leases_end_only_their_own_activity_once() {
    let mut core = WorldState::new(brand(2));
    let mut lease = ExclusiveActivityLease::begin(&mut core, ActivityState::Restoring).unwrap();
    assert!(lease.is_armed());
    assert_eq!(core.release_activity(ActivityState::Recording), Err(Error::WorldBusy));
    assert_eq!(lease.finish(&mut core), Ok(()));
    assert!(!lease.is_armed());
    assert_eq!(lease.finish(&mut core), Ok(()));
    assert_eq!(core.activity, ActivityState::Idle);

    let mut disarmed = ExclusiveActivityLease::begin(&mut core, ActivityState::Recording).unwrap();
    disarmed.disarm();
    assert_eq!(disarmed.finish(&mut core), Ok(()));
    assert_eq!(core.activity, ActivityState::Recording);
    assert_eq!(ExclusiveActivityLease::begin(&mut core, ActivityState::Idle).err(), Some(Error::WorldBusy));
}

#[test]
fn brands_are_checked_after_availability() {
    let mut core = WorldState::new(brand(3));
    assert_eq!(core.check_brand(brand(3)), Ok(()));
    assert_eq!(core.check_brand(brand(4)), Err(Error::WrongWorld));
    core.lifecycle = LifecycleState::Destroyed;
    assert_eq!(core.check_brand(brand(4)), Err(Error::WorldDestroyed));
    core.poison();
    assert_eq!(core.lifecycle, LifecycleState::Destroyed);
}
