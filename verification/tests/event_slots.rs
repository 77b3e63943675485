use std::cell::Cell;

use boxdd::callback::CallbackDepth;
use boxdd::events::{Admission, CompletedStep, EventSlot, Materialization, SensorEvents};
use boxdd::Error;

#[test]
fn failed_materialization_is_cached() {
    let mut slot: EventSlot<Vec<u32>> = EventSlot::new(Vec::new());
    let mut calls = 0;

    let first = match slot.begin() {
        Ok(Admission::Fetch) => {
            calls += 1;
            let result = Err(Error::InvalidNativeEventBuffer);
            slot.finish(result);
            result
        }
        other => other.map(|_| ()),
    };
    let second = match slot.begin() {
        Ok(Admission::Fetch) => panic!("a failed slot must not be fetched twice"),
        other => other.map(|_| ()),
    };

    assert_eq!(first.unwrap_err(), Error::InvalidNativeEventBuffer);
    assert_eq!(second.unwrap_err(), Error::InvalidNativeEventBuffer);
    assert_eq!(calls, 1);
}

#[test]
fn panicked_materialization_can_be_retried() {
    let mut slot: EventSlot<Vec<u32>> = EventSlot::new(Vec::new());
    assert_eq!(slot.begin(), Ok(Admission::Fetch));
    slot.abandon();
    assert_eq!(slot.state(), Materialization::Unfetched);
    assert_eq!(slot.begin(), Ok(Admission::Fetch));
    slot.storage().push(7);
    slot.finish(Ok(()));
    assert_eq!(slot.begin(), Ok(Admission::Cached));
    assert_eq!(slot.value(), &vec![7]);
}

#[test]
fn reentrant_fetch_is_rejected_and_reset_forgets_the_step() {
    let mut slot: EventSlot<Vec<u32>> = EventSlot::new(vec![1, 2]);
    assert_eq!(slot.begin(), Ok(Admission::Fetch));
    assert_eq!(slot.begin(), Err(Error::ReentrantAccess));
    slot.finish(Ok(()));
    slot.reset();
    assert_eq!(slot.state(), Materialization::Unfetched);
    assert_eq!(slot.value(), &vec![1, 2]);
}

fn step_registry() -> (boxdd::ids::IdBrand, boxdd::identity::IdentityRegistry) {
    let brand = boxdd::ids::IdBrand::new(
        boxdd::ids::RawWorldId { index1: 2, generation: 1 },
        boxdd::ids::WorldToken::new(5).unwrap(),
    )
    .unwrap();
    (brand, boxdd::identity::IdentityRegistry::new(brand))
}

fn new_step() -> CompletedStep {
    CompletedStep::after_validated_step(
        EventSlot::new(Vec::new()),
        EventSlot::new(SensorEvents::new()),
        None,
    )
}

#[test]
fn each_requested_family_is_fetched_once() {
    let (_, registry) = step_registry();
    let depth = CallbackDepth::new();
    let mut step = new_step();
    let joint_calls = Cell::new(0);
    let sensor_calls = Cell::new(0);
    for _ in 0..2 {
        let events = step
            .joint_events(&depth, &registry, || {
                joint_calls.set(joint_calls.get() + 1);
                Ok(Vec::new())
            })
            .unwrap();
        assert!(events.is_empty());
        let sensors = step
            .sensor_events(&depth, &registry, || {
                sensor_calls.set(sensor_calls.get() + 1);
                Ok((Vec::new(), Vec::new()))
            })
            .unwrap();
        assert!(sensors.is_empty());
    }
    assert_eq!(joint_calls.get(), 1);
    assert_eq!(sensor_calls.get(), 1);
}

#[test]
fn event_materialization_is_rejected_inside_an_unrelated_callback() {
    let (_, registry) = step_registry();
    let mut depth = CallbackDepth::new();
    let mut step = new_step();
    let calls = Cell::new(0);
    depth.enter();
    assert!(matches!(
        step.sensor_events(&depth, &registry, || {
            calls.set(calls.get() + 1);
            Ok((Vec::new(), Vec::new()))
        }),
        Err(Error::InCallback)
    ));
    assert_eq!(calls.get(), 0);
    depth.exit();
    assert!(step.sensor_events(&depth, &registry, || Ok((Vec::new(), Vec::new()))).is_ok());
}

#[test]
fn joint_events_resolve_through_the_registry_and_a_failed_fetch_is_sticky() {
    let (brand, mut registry) = step_registry();
    let a = registry.register_body(boxdd::ids::RawId { index1: 1, world0: brand.world0(), generation: 0 }).unwrap();
    let b = registry.register_body(boxdd::ids::RawId { index1: 2, world0: brand.world0(), generation: 0 }).unwrap();
    let joint_raw = boxdd::ids::RawId { index1: 1, world0: brand.world0(), generation: 0 };
    let joint = registry
        .register_joint(joint_raw, a, b, boxdd::error::JointType::Weld)
        .unwrap();
    let depth = CallbackDepth::new();
    let mut step = new_step();
    let events = step.joint_events(&depth, &registry, || Ok(vec![joint_raw])).unwrap();
    assert_eq!(events.len(), 1);
    assert_eq!(events.get(0).map(|e| e.joint_id), Some(joint));

    let mut failing = new_step();
    assert!(matches!(
        failing.joint_events(&depth, &registry, || Err(Error::FfiOutputAllocationFailed)),
        Err(Error::FfiOutputAllocationFailed)
    ));
    assert!(matches!(
        failing.joint_events(&depth, &registry, || Ok(Vec::new())),
        Err(Error::FfiOutputAllocationFailed)
    ));
}
