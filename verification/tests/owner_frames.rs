use std::sync::atomic::{AtomicUsize, Ordering};
use std::sync::Arc;

use boxdd::callback::{
    CallbackDepth, CallbackOwnerToken, FinishOutcome, OwnerFrameGeneration, OwnerFrames, PanicSlot,
};

type Cleanup = Box<dyn FnOnce()>;
type Frames = OwnerFrames<Cleanup, u32, String>;

struct DropProbe(Arc<AtomicUsize>);

impl Drop for DropProbe {
    fn drop(&mut self) {
        self.0.fetch_add(1, Ordering::SeqCst);
    }
}

fn run_root(outcome: FinishOutcome<Cleanup, u32, String>) {
    match outcome {
        FinishOutcome::Root(frame) => {
            let (cleanups, _worlds, _panic) = frame.into_parts();
            for cleanup in cleanups {
                cleanup();
            }
        }
        _ => panic!("the outermost owner call must finish as the root"),
    }
}

#[test]
fn owner_cleanup_runs_only_after_the_callback_returns() {
    let calls = Arc::new(AtomicUsize::new(0));
    let drops = Arc::new(AtomicUsize::new(0));
    let mut counter = 1u64;
    let mut frames = Frames::new();
    let generation = OwnerFrameGeneration::next(&mut counter);
    frames.enter(generation, CallbackOwnerToken::World(1));

    {
        let mut depth = CallbackDepth::new();
        depth.enter();
        let cleanup_calls = Arc::clone(&calls);
        let probe = DropProbe(Arc::clone(&drops));
        let unregistered = frames.defer_cleanup(Box::new(move || {
            cleanup_calls.fetch_add(1, Ordering::SeqCst);
            drop(probe);
        }));
        assert!(unregistered.is_none());
        assert_eq!(calls.load(Ordering::SeqCst), 0);
        assert_eq!(drops.load(Ordering::SeqCst), 0);
        depth.exit();
    }

    let (outcome, suppressed) = frames.finish(generation, PanicSlot::new(), true);
    assert!(suppressed.is_none());
    run_root(outcome);
    assert_eq!(calls.load(Ordering::SeqCst), 1);
    assert_eq!(drops.load(Ordering::SeqCst), 1);
}

#[test]
fn nested_owner_frames_merge_cleanup_into_the_root_once() {
    let calls = Arc::new(AtomicUsize::new(0));
    let mut counter = 1u64;
    let mut frames = Frames::new();
    let outer = OwnerFrameGeneration::next(&mut counter);
    frames.enter(outer, CallbackOwnerToken::World(1));
    let inner = OwnerFrameGeneration::next(&mut counter);
    frames.enter(inner, CallbackOwnerToken::World(2));
    {
        let calls = Arc::clone(&calls);
        assert!(frames
            .defer_cleanup(Box::new(move || {
                calls.fetch_add(1, Ordering::SeqCst);
            }))
            .is_none());
    }

    let (outcome, _) = frames.finish(inner, PanicSlot::new(), true);
    assert!(matches!(outcome, FinishOutcome::Merged { suppressed: None }));
    assert_eq!(calls.load(Ordering::SeqCst), 0);
    assert_eq!(frames.len(), 1);
    let (outcome, _) = frames.finish(outer, PanicSlot::new(), true);
    run_root(outcome);
    assert_eq!(calls.load(Ordering::SeqCst), 1);
    assert_eq!(frames.len(), 0);
}

#[test]
fn callback_without_owner_frame_retains_cleanup_without_running_or_dropping_it() {
    let calls = Arc::new(AtomicUsize::new(0));
    let drops = Arc::new(AtomicUsize::new(0));
    let mut frames = Frames::new();

    {
        let calls = Arc::clone(&calls);
        let probe = DropProbe(Arc::clone(&drops));
        let unregistered = frames.defer_cleanup(Box::new(move || {
            calls.fetch_add(1, Ordering::SeqCst);
            drop(probe);
        }));
        let retained = unregistered.expect("without an owner call the cleanup is handed back");
        std::mem::forget(retained);
    }

    assert_eq!(calls.load(Ordering::SeqCst), 0);
    assert_eq!(drops.load(Ordering::SeqCst), 0);
}

#[test]
fn nested_panic_without_a_value_unwinds_to_the_caller() {
    let mut counter = 1u64;
    let mut frames = Frames::new();
    let outer = OwnerFrameGeneration::next(&mut counter);
    frames.enter(outer, CallbackOwnerToken::World(1));
    let inner = OwnerFrameGeneration::next(&mut counter);
    frames.enter(inner, CallbackOwnerToken::DynamicTree(3));
    let mut panic = PanicSlot::new();
    panic.capture("inner".to_string());
    let (outcome, suppressed) = frames.finish(inner, panic, false);
    assert!(suppressed.is_none());
    match outcome {
        FinishOutcome::Unwound { nested_panic } => assert_eq!(nested_panic.as_deref(), Some("inner")),
        _ => panic!("a nested call without a value must unwind"),
    }
    assert_eq!(frames.len(), 1);
}

#[test]
fn nested_callback_panic_resumes_only_after_the_root_drains() {
    let mut counter = 1u64;
    let mut frames = Frames::new();
    let outer = OwnerFrameGeneration::next(&mut counter);
    frames.enter(outer, CallbackOwnerToken::World(1));
    let inner = OwnerFrameGeneration::next(&mut counter);
    frames.enter(inner, CallbackOwnerToken::World(2));
    let mut panic = PanicSlot::new();
    assert!(panic.capture("nested callback panic".to_string()).is_none());
    let (outcome, suppressed) = frames.finish(inner, panic, true);
    assert!(suppressed.is_none());
    match outcome {
        FinishOutcome::Merged { suppressed } => assert!(suppressed.is_none()),
        _ => panic!("a nested call with a value must merge into its parent"),
    }
    assert_eq!(frames.len(), 1);
    let (outcome, suppressed) = frames.finish(outer, PanicSlot::new(), true);
    assert!(suppressed.is_none());
    match outcome {
        FinishOutcome::Root(frame) => {
            let (_cleanups, _worlds, panic) = frame.into_parts();
            assert_eq!(panic.as_deref(), Some("nested callback panic"));
        }
        _ => panic!("the outermost owner call must finish as the root"),
    }
    assert_eq!(frames.len(), 0);
}

#[test]
fn suppressed_nested_panic_keeps_the_first_panic_authoritative() {
    let mut counter = 1u64;
    let mut frames = Frames::new();
    let outer = OwnerFrameGeneration::next(&mut counter);
    frames.enter(outer, CallbackOwnerToken::World(1));
    let first = OwnerFrameGeneration::next(&mut counter);
    frames.enter(first, CallbackOwnerToken::World(2));
    let mut panic = PanicSlot::new();
    panic.capture("first nested callback panic".to_string());
    let (_outcome, _) = frames.finish(first, panic, true);
    let second = OwnerFrameGeneration::next(&mut counter);
    frames.enter(second, CallbackOwnerToken::World(3));
    let mut panic = PanicSlot::new();
    panic.capture("second nested callback panic".to_string());
    let (outcome, suppressed) = frames.finish(second, panic, true);
    assert!(suppressed.is_none());
    match outcome {
        FinishOutcome::Merged { suppressed } => {
            assert_eq!(suppressed.as_deref(), Some("second nested callback panic"))
        }
        _ => panic!("a nested call with a value must merge into its parent"),
    }
    let (outcome, _) = frames.finish(outer, PanicSlot::new(), true);
    match outcome {
        FinishOutcome::Root(frame) => {
            let (_cleanups, _worlds, panic) = frame.into_parts();
            assert_eq!(panic.as_deref(), Some("first nested callback panic"));
        }
        _ => panic!("the outermost owner call must finish as the root"),
    }
}

#[test]
fn a_later_panic_of_the_same_call_is_handed_back() {
    let mut counter = 1u64;
    let mut frames = Frames::new();
    let root = OwnerFrameGeneration::next(&mut counter);
    frames.enter(root, CallbackOwnerToken::World(1));
    let inner = OwnerFrameGeneration::next(&mut counter);
    frames.enter(inner, CallbackOwnerToken::World(2));
    let mut earlier = PanicSlot::new();
    earlier.capture("early".to_string());
    let (_, _) = frames.finish(inner, earlier, true);
    let mut late = PanicSlot::new();
    late.capture("late".to_string());
    let (outcome, suppressed) = frames.finish(root, late, true);
    assert_eq!(suppressed.as_deref(), Some("late"));
    match outcome {
        FinishOutcome::Root(frame) => {
            let (_cleanups, _worlds, panic) = frame.into_parts();
            assert_eq!(panic.as_deref(), Some("early"));
        }
        _ => panic!("the outermost owner call must finish as the root"),
    }
}
