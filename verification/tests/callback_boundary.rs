use boxdd::callback::{CallbackBoundary, PanicSlot, WorkerCallbackState};
use boxdd::error::Error;

#[test]
fn callback_boundary_catalog_is_exact() {
    let boundaries = CallbackBoundary::all()
        .iter()
        .copied()
        .map(CallbackBoundary::as_str)
        .collect::<Vec<_>>();
    assert_eq!(
        boundaries,
        [
            "world-step",
            "query",
            "debug-draw",
            "dynamic-tree-query",
            "dynamic-tree-query-all",
            "dynamic-tree-ray-cast",
            "dynamic-tree-box-cast",
            "replay-step",
            "replay-seek",
            "replay-restart",
            "replay-draw",
        ]
    );
}

#[test]
fn callback_and_owner_state_have_distinct_threading_contracts() {
    // The owner-side frames and the worker-side state are distinct types; nothing to run.
}

#[test]
fn begin_call_resumes_an_undrained_worker_panic() {
    let mut worker: WorkerCallbackState<String> = WorkerCallbackState::new();
    worker.record_panic("undrained worker panic".to_string());
    assert!(worker.has_failed());
    let (result, resume, leftovers) = worker.begin_call();
    assert!(result.is_ok());
    assert_eq!(resume.as_deref(), Some("undrained worker panic"));
    assert!(leftovers.is_empty());
    assert!(!worker.has_failed());
    let mut remaining = PanicSlot::new();
    assert!(worker.drain_panics(&mut remaining).is_empty());
    assert!(!remaining.has_panicked());
}

#[test]
fn concurrent_worker_panics_drop_every_payload_only_on_the_owner_boundary() {
    let mut worker: WorkerCallbackState<usize> = WorkerCallbackState::new();
    for i in 0..32 {
        worker.record_panic(i);
    }
    let mut panic = PanicSlot::new();
    let leftovers = worker.drain_panics(&mut panic);
    assert_eq!(leftovers, (1..32).collect::<Vec<_>>());
    assert_eq!(panic.into_result(()), Err(0));
    let (result, resume, leftovers) = worker.begin_call();
    assert!(result.is_ok());
    assert!(resume.is_none());
    assert!(leftovers.is_empty());
    assert!(!worker.has_failed());
}

#[test]
fn begin_call_reports_the_first_worker_error() {
    let mut worker: WorkerCallbackState<String> = WorkerCallbackState::new();
    worker.record_error(Error::InCallback);
    worker.record_error(Error::WorldBusy);
    worker.record_panic("first".to_string());
    worker.record_panic("second".to_string());
    let (result, resume, leftovers) = worker.begin_call();
    assert_eq!(result, Err(Error::InCallback));
    assert_eq!(resume.as_deref(), Some("first"));
    assert_eq!(leftovers, vec!["second".to_string()]);
    assert!(worker.begin_call().0.is_ok());
}

#[test]
fn draining_into_a_slot_that_already_panicked_hands_every_payload_back() {
    let mut worker: WorkerCallbackState<u8> = WorkerCallbackState::new();
    worker.record_panic(7);
    worker.record_panic(8);
    let mut slot = PanicSlot::new();
    slot.capture(1);
    assert_eq!(worker.drain_panics(&mut slot), vec![7, 8]);
    assert_eq!(slot.into_result(()), Err(1));
}
