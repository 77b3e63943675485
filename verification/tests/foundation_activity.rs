use boxdd::activity::{FoundationActivityState, ORDINARY_MASK, TRANSIENT_SHIFT};
use boxdd::error::{FoundationActivity, FoundationActivityError};

fn fields(a: FoundationActivity) -> (u32, u32, bool) {
    (a.ordinary_worlds, a.transient_calls, a.replay_active)
}

fn leaked_activity() -> &'static FoundationActivityState {
    Box::leak(Box::new(FoundationActivityState::new()))
}

#[test]
fn shared_activity_blocks_replay_until_all_leases_drop() {
    let activity = leaked_activity();
    let ordinary = activity.acquire_ordinary().unwrap();
    let transient = activity.acquire_transient().unwrap();

    assert_eq!(fields(activity.snapshot()), (1, 1, false));
    assert!(matches!(
        activity.acquire_replay(),
        Err(FoundationActivityError::ReplayUnavailable { .. })
    ));

    ordinary.release();
    transient.release();
    let replay = activity.acquire_replay().unwrap();
    assert_eq!(
        activity.acquire_ordinary().err(),
        Some(FoundationActivityError::ReplayActive)
    );
    assert_eq!(
        activity.acquire_transient().err(),
        Some(FoundationActivityError::ReplayActive)
    );
    replay.release();
    assert_eq!(activity.snapshot(), FoundationActivity::default());
}

#[test]
fn activity_counter_exhaustion_does_not_wrap() {
    let activity = leaked_activity();
    activity.set_packed_for_test(ORDINARY_MASK);
    assert_eq!(
        activity.acquire_ordinary().err(),
        Some(FoundationActivityError::OrdinaryWorldCapacityExhausted)
    );

    activity.set_packed_for_test(ORDINARY_MASK << TRANSIENT_SHIFT);
    assert_eq!(
        activity.acquire_transient().err(),
        Some(FoundationActivityError::TransientCallCapacityExhausted)
    );
}

#[test]
fn replay_unavailable_reports_the_blocking_activity() {
    let activity = leaked_activity();
    let first = activity.acquire_ordinary().unwrap();
    let second = activity.acquire_ordinary().unwrap();
    match activity.acquire_replay() {
        Err(FoundationActivityError::ReplayUnavailable { activity: seen }) => {
            assert_eq!(seen.ordinary_worlds, 2);
            assert_eq!(seen.transient_calls, 0);
            assert!(!seen.replay_active);
        }
        _ => panic!("replay must be refused while worlds are active"),
    }
    first.release();
    second.release();
    assert_eq!(activity.snapshot(), FoundationActivity::default());
}

#[test]
fn unpack_reads_each_counter_field() {
    let packed = 3u64 | (5u64 << TRANSIENT_SHIFT) | boxdd::activity::REPLAY_BIT;
    assert_eq!(fields(boxdd::activity::unpack(packed)), (3, 5, true));
}
