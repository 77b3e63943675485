use std::cell::Cell;

use boxdd::error::JointType;
use boxdd::ids::{IdBrand, RawId, RawWorldId, WorldToken};
use boxdd::world_core::{ContactEpoch, NativeCreation, PublicationPhase, StepPublication, WorldCore};
use boxdd::world_state::{ActivityState, LifecycleState};
use boxdd::Error;

fn brand(index1: u16, token: u64) -> IdBrand {
    IdBrand::new(RawWorldId { index1, generation: 3 }, WorldToken::new(token).unwrap()).unwrap()
}

fn raw(brand: IdBrand, index1: i32, generation: u16) -> RawId {
    RawId { index1, world0: brand.world0(), generation }
}

fn err<T>(r: Result<T, Error>) -> Error {
    match r {
        Err(e) => e,
        Ok(_) => panic!("expected an error"),
    }
}

fn claim_error(operation: &'static str, output: &'static str) -> Error {
    Error::InvalidNativeOutput { operation, output, constraint: "a new, unowned identifier in this world" }
}

/// A world holding one published body at slot 1.
fn world_with_body() -> (IdBrand, WorldCore, boxdd::ids::BodyId) {
    let brand = brand(1, 1);
    let mut world = WorldCore::new(brand);
    let pending = world.reserve_body_creation().unwrap();
    let body_raw = raw(brand, 1, 1);
    let mut guard = world.claim_native_creation(NativeCreation::Body(body_raw)).unwrap();
    let bound = world.bind_created_body(pending, body_raw, |_| true).unwrap();
    let body = world.publish_created_body(bound, &mut guard);
    assert!(!guard.is_armed());
    (brand, world, body)
}

#[test]
fn a_fresh_world_is_live_idle_and_empty() {
    let brand = brand(2, 9);
    let world = WorldCore::new(brand);
    assert_eq!(world.brand(), brand);
    assert_eq!(world.state().lifecycle, LifecycleState::Live);
    assert_eq!(world.state().activity, ActivityState::Idle);
    assert_eq!(world.check_available(), Ok(()));
    assert_eq!(world.check_restoring(), Err(Error::WorldBusy));
}

#[test]
fn claiming_an_output_that_an_identity_already_names_poisons_without_arming() {
    let (brand, mut world, body) = world_with_body();

    assert_eq!(
        err(world.claim_native_creation(NativeCreation::Body(body.into_raw()))),
        claim_error("b2CreateBody", "body ID")
    );
    assert_eq!(world.state().lifecycle, LifecycleState::Poisoned);
    assert!(world.identities().contains_body(body));
    assert_eq!(world.check_available(), Err(Error::WorldPoisoned));

    let mut other = WorldCore::new(brand);
    let foreign = RawId { index1: 4, world0: brand.world0() + 1, generation: 1 };
    assert_eq!(
        err(other.claim_native_creation(NativeCreation::Shape { raw: foreign, update_body_mass: true })),
        claim_error("b2Create*Shape", "shape ID")
    );
    assert_eq!(other.state().lifecycle, LifecycleState::Poisoned);
}

#[test]
fn a_fresh_output_is_claimed_armed() {
    let brand = brand(1, 1);
    let mut world = WorldCore::new(brand);
    let native = NativeCreation::Joint(raw(brand, 5, 2));
    let guard = world.claim_native_creation(native).unwrap();
    assert!(guard.is_armed());
    assert_eq!(guard.native(), native);
    assert_eq!(world.state().lifecycle, LifecycleState::Live);
}

#[test]
fn rolling_back_a_creation_destroys_only_a_live_object_of_this_world() {
    let brand = brand(1, 1);
    let native = NativeCreation::Body(raw(brand, 2, 1));

    // Confirmed, destroyed and then gone: compensated, the world stays live.
    let mut world = WorldCore::new(brand);
    let guard = world.claim_native_creation(native).unwrap();
    let destroyed = Cell::new(false);
    assert!(world.settle_creation(guard, |_| true, |_| destroyed.set(true), |_| false));
    assert!(destroyed.get());
    assert_eq!(world.state().lifecycle, LifecycleState::Live);

    // Already gone: compensated without destroying anything.
    let mut world = WorldCore::new(brand);
    let guard = world.claim_native_creation(native).unwrap();
    let destroyed = Cell::new(false);
    assert!(world.settle_creation(guard, |_| false, |_| destroyed.set(true), |_| false));
    assert!(!destroyed.get());
    assert_eq!(world.state().lifecycle, LifecycleState::Live);

    // Still alive after destruction: the rollback failed and the world is poisoned.
    let mut world = WorldCore::new(brand);
    let guard = world.claim_native_creation(native).unwrap();
    assert!(!world.settle_creation(guard, |_| true, |_| {}, |_| true));
    assert_eq!(world.state().lifecycle, LifecycleState::Poisoned);
}

#[test]
fn a_published_creation_is_never_rolled_back() {
    let brand = brand(1, 1);
    let mut world = WorldCore::new(brand);
    let pending = world.reserve_body_creation().unwrap();
    let body_raw = raw(brand, 3, 1);
    let mut guard = world.claim_native_creation(NativeCreation::Body(body_raw)).unwrap();
    let bound = world.bind_created_body(pending, body_raw, |_| true).unwrap();
    let body = world.publish_created_body(bound, &mut guard);

    let destroyed = Cell::new(false);
    assert!(world.settle_creation(guard, |_| true, |_| destroyed.set(true), |_| true));
    assert!(!destroyed.get());
    assert!(world.identities().contains_body(body));
    assert_eq!(world.state().lifecycle, LifecycleState::Live);
}

#[test]
fn binding_checks_the_world_then_the_native_object_then_the_slot() {
    let (brand, mut world, body) = world_with_body();

    let pending = world.reserve_body_creation().unwrap();
    let foreign = RawId { index1: 9, world0: brand.world0() + 1, generation: 1 };
    let asked = Cell::new(false);
    assert_eq!(
        err(world.bind_created_body(pending, foreign, |_| {
            asked.set(true);
            true
        })),
        Error::WrongWorld
    );
    assert!(!asked.get());

    let pending = world.reserve_body_creation().unwrap();
    assert_eq!(err(world.bind_created_body(pending, raw(brand, 9, 1), |_| false)), Error::InvalidBodyId);

    // A raw identity that is already active is refused, and binding does not poison.
    let pending = world.reserve_body_creation().unwrap();
    assert_eq!(
        err(world.bind_created_body(pending, body.into_raw(), |_| true)),
        Error::ObjectIdentityExhausted
    );
    assert_eq!(world.state().lifecycle, LifecycleState::Live);
}

#[test]
fn a_shape_binds_only_to_its_reserved_body() {
    let (brand, mut world, body) = world_with_body();
    let shape_raw = raw(brand, 1, 1);

    let pending = world.reserve_shape_creation(body).unwrap();
    assert_eq!(
        err(world.bind_created_shape(pending, shape_raw, |_| true, |_| raw(brand, 7, 1))),
        Error::InvalidShapeId
    );

    let pending = world.reserve_shape_creation(body).unwrap();
    let mut guard = world
        .claim_native_creation(NativeCreation::Shape { raw: shape_raw, update_body_mass: false })
        .unwrap();
    let bound = world.bind_created_shape(pending, shape_raw, |_| true, |_| body.into_raw()).unwrap();
    let shape = world.publish_created_shape(bound, &mut guard);
    assert!(world.identities().contains_shape(shape));
    assert_eq!(world.check_shape_after_preflight(shape, |_| true), Ok(()));
    assert_eq!(world.check_shape_after_preflight(shape, |_| false), Err(Error::InvalidShapeId));
}

#[test]
fn a_joint_binds_only_to_its_reserved_bodies_in_order() {
    let (brand, mut world, body_a) = world_with_body();
    let pending = world.reserve_body_creation().unwrap();
    let body_b_raw = raw(brand, 2, 1);
    let mut guard = world.claim_native_creation(NativeCreation::Body(body_b_raw)).unwrap();
    let bound = world.bind_created_body(pending, body_b_raw, |_| true).unwrap();
    let body_b = world.publish_created_body(bound, &mut guard);

    let joint_raw = raw(brand, 1, 1);
    let pending = world.reserve_joint_creation(body_a, body_b, JointType::Revolute).unwrap();
    let asked_b = Cell::new(false);
    assert_eq!(
        err(world
            .bind_created_joint(pending, joint_raw, |_| true, |_| body_b.into_raw(), |_| {
                asked_b.set(true);
                body_b.into_raw()
            })),
        Error::InvalidJointId
    );
    assert!(!asked_b.get());

    let pending = world.reserve_joint_creation(body_a, body_b, JointType::Revolute).unwrap();
    let mut guard = world.claim_native_creation(NativeCreation::Joint(joint_raw)).unwrap();
    let bound = world
        .bind_created_joint(pending, joint_raw, |_| true, |_| body_a.into_raw(), |_| body_b.into_raw())
        .unwrap();
    let joint = world.publish_created_joint(bound, &mut guard);
    assert_eq!(world.check_joint_after_preflight(joint, |_| true), Ok(JointType::Revolute));
    assert_eq!(world.check_joint_after_preflight(joint, |_| false), Err(Error::InvalidJointId));

    assert!(world.unregister_destroyed_joint(joint));
    assert!(!world.unregister_destroyed_joint(joint));
    assert_eq!(world.check_joint_after_preflight(joint, |_| true), Err(Error::InvalidJointId));
}

#[test]
fn a_chain_binds_after_its_native_segments_are_confirmed() {
    let (brand, mut world, body) = world_with_body();
    let chain_raw = raw(brand, 1, 1);
    let segments = vec![raw(brand, 10, 1), raw(brand, 11, 1)];

    let pending = world.reserve_chain_creation(body, 2).unwrap();
    assert_eq!(
        err(world
            .bind_created_chain(pending, chain_raw, |_| true, |_| -1, |_, _| (Vec::new(), 0), |_| true)),
        Error::NegativeFfiOutputCapacity { capacity: -1 }
    );

    let pending = world.reserve_chain_creation(body, 2).unwrap();
    assert_eq!(
        err(world
            .bind_created_chain(pending, chain_raw, |_| true, |_| 3, |_, _| (Vec::new(), 0), |_| true)),
        Error::InvalidChainId
    );

    let pending = world.reserve_chain_creation(body, 2).unwrap();
    assert_eq!(
        err(world
            .bind_created_chain(pending, chain_raw, |_| true, |_| 2, |_, _| (segments.clone(), 3), |_| true)),
        Error::FfiOutputCountExceedsCapacity { count: 3, capacity: 2 }
    );

    let pending = world.reserve_chain_creation(body, 2).unwrap();
    let second = segments[1];
    assert_eq!(
        err(world
            .bind_created_chain(pending, chain_raw, |_| true, |_| 2, |_, _| (segments.clone(), 2), |s| s != second)),
        Error::InvalidShapeId
    );

    let pending = world.reserve_chain_creation(body, 2).unwrap();
    let mut guard = world.claim_native_creation(NativeCreation::Chain(chain_raw)).unwrap();
    let bound = world
        .bind_created_chain(pending, chain_raw, |_| true, |_| 2, |_, capacity| {
            assert_eq!(capacity, 2);
            (segments.clone(), 2)
        }, |_| true)
        .unwrap();
    let (chain, shapes) = world.publish_created_chain(bound, &mut guard);
    assert!(!guard.is_armed());
    assert_eq!(shapes.len(), 2);
    assert_eq!(shapes[0].into_raw(), segments[0]);
    assert_eq!(world.check_chain_after_preflight(chain, |_| true), Ok(()));

    assert!(world.unregister_destroyed_body(body));
    assert_eq!(world.check_chain_after_preflight(chain, |_| true), Err(Error::InvalidChainId));
    assert_eq!(world.check_shape_after_preflight(shapes[1], |_| true), Err(Error::InvalidShapeId));
}

#[test]
fn body_checks_answer_availability_then_identity_then_native_state() {
    let (_, mut world, body) = world_with_body();
    let other_world_body = {
        let other = brand(2, 2);
        let mut world = WorldCore::new(other);
        let pending = world.reserve_body_creation().unwrap();
        let r = raw(other, 1, 1);
        let mut guard = world.claim_native_creation(NativeCreation::Body(r)).unwrap();
        let bound = world.bind_created_body(pending, r, |_| true).unwrap();
        world.publish_created_body(bound, &mut guard)
    };

    assert_eq!(world.check_body(body, |_| true), Ok(()));
    assert_eq!(world.check_body(body, |_| false), Err(Error::InvalidBodyId));
    assert_eq!(world.check_body_identity(other_world_body), Err(Error::WrongWorld));

    let mut lease = world.begin_recording_activity().unwrap();
    let asked = Cell::new(false);
    assert_eq!(
        world.check_body(body, |_| {
            asked.set(true);
            true
        }),
        Err(Error::WorldBusy)
    );
    assert!(!asked.get());
    assert_eq!(world.check_body_after_preflight(body, |_| true), Ok(()));
    assert_eq!(world.finish_activity(&mut lease), Ok(()));
    assert_eq!(world.check_body(body, |_| true), Ok(()));
}

#[test]
fn identity_restore_is_served_only_while_restoring() {
    let (_, mut world, body) = world_with_body();

    assert_eq!(err(world.identity_manifest_while_restoring()), Error::WorldBusy);

    let mut lease = world.begin_restore_activity().unwrap();
    assert_eq!(err(world.begin_recording_activity()), Error::WorldBusy);
    let manifest = world.identity_manifest_while_restoring().unwrap();
    assert_eq!(manifest.body_ids(), vec![body]);
    let prepared = world.prepare_identity_restore(&manifest).unwrap();
    assert_eq!(world.commit_identity_restore(prepared), Ok(()));
    assert!(world.identities().contains_body(body));
    assert_eq!(world.finish_activity(&mut lease), Ok(()));
    assert_eq!(world.state().activity, ActivityState::Idle);
}

#[test]
fn shutdown_runs_once_and_retires_every_identity() {
    let (_, mut world, body) = world_with_body();

    assert!(world.begin_shutdown());
    assert_eq!(world.state().lifecycle, LifecycleState::Destroyed);
    assert_eq!(world.check_available(), Err(Error::WorldDestroyed));
    world.finish_shutdown();
    assert!(!world.identities().contains_body(body));
    assert!(!world.begin_shutdown());
    assert_eq!(world.state().lifecycle, LifecycleState::Destroyed);
}

fn create_body(world: &mut WorldCore, body_raw: RawId) -> boxdd::ids::BodyId {
    let pending = world.reserve_body_creation().unwrap();
    let mut guard = world.claim_native_creation(NativeCreation::Body(body_raw)).unwrap();
    let bound = world.bind_created_body(pending, body_raw, |_| true).unwrap();
    world.publish_created_body(bound, &mut guard)
}

fn create_shape(world: &mut WorldCore, body: boxdd::ids::BodyId, shape_raw: RawId) -> boxdd::ids::ShapeId {
    let pending = world.reserve_shape_creation(body).unwrap();
    let mut guard = world
        .claim_native_creation(NativeCreation::Shape { raw: shape_raw, update_body_mass: true })
        .unwrap();
    let bound = world.bind_created_shape(pending, shape_raw, |_| true, |_| body.into_raw()).unwrap();
    world.publish_created_shape(bound, &mut guard)
}

#[test]
fn binding_rejects_an_active_raw_identity_without_poisoning() {
    let brand = brand(1, 1);
    let mut world = WorldCore::new(brand);
    let body = create_body(&mut world, raw(brand, 1, 1));

    let pending = world.reserve_body_creation().unwrap();
    assert_eq!(err(world.bind_created_body(pending, body.into_raw(), |_| true)), Error::ObjectIdentityExhausted);
    assert_eq!(world.state().lifecycle, LifecycleState::Live);
}

#[test]
fn creation_claim_never_compensates_an_active_native_identity() {
    let brand = brand(1, 1);
    {
        let mut world = WorldCore::new(brand);
        let body = create_body(&mut world, raw(brand, 1, 1));

        assert_eq!(
            err(world.claim_native_creation(NativeCreation::Body(body.into_raw()))),
            claim_error("b2CreateBody", "body ID")
        );
        assert!(world.identities().contains_body(body));
        assert_eq!(world.state().lifecycle, LifecycleState::Poisoned);
    }
    {
        let mut world = WorldCore::new(brand);
        let body = create_body(&mut world, raw(brand, 1, 1));
        let shape = create_shape(&mut world, body, raw(brand, 1, 1));

        assert_eq!(
            err(world.claim_native_creation(NativeCreation::Shape { raw: shape.into_raw(), update_body_mass: true })),
            claim_error("b2Create*Shape", "shape ID")
        );
        assert!(world.identities().contains_shape(shape));
        assert_eq!(world.state().lifecycle, LifecycleState::Poisoned);
    }
    {
        let mut world = WorldCore::new(brand);
        let body_a = create_body(&mut world, raw(brand, 1, 1));
        let body_b = create_body(&mut world, raw(brand, 2, 1));
        let joint_raw = raw(brand, 1, 1);
        let pending = world.reserve_joint_creation(body_a, body_b, JointType::Distance).unwrap();
        let mut guard = world.claim_native_creation(NativeCreation::Joint(joint_raw)).unwrap();
        let bound = world
            .bind_created_joint(pending, joint_raw, |_| true, |_| body_a.into_raw(), |_| body_b.into_raw())
            .unwrap();
        let joint = world.publish_created_joint(bound, &mut guard);

        assert_eq!(
            err(world.claim_native_creation(NativeCreation::Joint(joint.into_raw()))),
            claim_error("b2Create*Joint", "joint ID")
        );
        assert!(world.identities().contains_joint(joint));
        assert_eq!(world.state().lifecycle, LifecycleState::Poisoned);
    }
    {
        let mut world = WorldCore::new(brand);
        let body = create_body(&mut world, raw(brand, 1, 1));
        let chain_raw = raw(brand, 1, 1);
        let segments = vec![raw(brand, 1, 1), raw(brand, 2, 1), raw(brand, 3, 1)];
        let pending = world.reserve_chain_creation(body, 3).unwrap();
        let mut guard = world.claim_native_creation(NativeCreation::Chain(chain_raw)).unwrap();
        let bound = world
            .bind_created_chain(pending, chain_raw, |_| true, |_| 3, |_, _| (segments.clone(), 3), |_| true)
            .unwrap();
        let (chain, _) = world.publish_created_chain(bound, &mut guard);

        assert_eq!(
            err(world.claim_native_creation(NativeCreation::Chain(chain.into_raw()))),
            claim_error("b2CreateChain", "chain ID")
        );
        assert!(world.identities().contains_chain(chain));
        assert_eq!(world.state().lifecycle, LifecycleState::Poisoned);
    }
}

#[test]
fn invalid_native_creation_outputs_are_rejected_without_publication() {
    let brand = brand(1, 1);
    let empty = RawId { index1: 0, world0: brand.world0(), generation: 0 };

    let mut world = WorldCore::new(brand);
    let pending = world.reserve_body_creation().unwrap();
    assert_eq!(err(world.bind_created_body(pending, empty, |_| false)), Error::InvalidBodyId);
    assert_eq!(world.state().lifecycle, LifecycleState::Live);

    let mut world = WorldCore::new(brand);
    let body = create_body(&mut world, raw(brand, 1, 1));
    let pending = world.reserve_shape_creation(body).unwrap();
    assert_eq!(
        err(world.bind_created_shape(pending, empty, |_| false, |_| body.into_raw())),
        Error::InvalidShapeId
    );
    assert_eq!(world.state().lifecycle, LifecycleState::Live);

    let mut world = WorldCore::new(brand);
    let body_a = create_body(&mut world, raw(brand, 1, 1));
    let body_b = create_body(&mut world, raw(brand, 2, 1));
    let pending = world.reserve_joint_creation(body_a, body_b, JointType::Distance).unwrap();
    assert_eq!(
        err(world.bind_created_joint(pending, empty, |_| false, |_| body_a.into_raw(), |_| body_b.into_raw())),
        Error::InvalidJointId
    );
    assert_eq!(world.state().lifecycle, LifecycleState::Live);

    let mut world = WorldCore::new(brand);
    let body = create_body(&mut world, raw(brand, 1, 1));
    let pending = world.reserve_chain_creation(body, 1).unwrap();
    assert_eq!(
        err(world.bind_created_chain(pending, empty, |_| false, |_| 1, |_, _| (Vec::new(), 0), |_| true)),
        Error::InvalidChainId
    );
    assert_eq!(world.state().lifecycle, LifecycleState::Live);
}

/// A destroyed shape keeps its key until the step outputs that may name it are released; a native
/// shape that reuses exactly that key is refused before publication.
fn retained_shape_key_rejects_a_recycled_raw_id() {
    let brand = brand(1, 1);
    let mut world = WorldCore::new(brand);
    let static_body = create_body(&mut world, raw(brand, 1, 1));
    let dynamic_body = create_body(&mut world, raw(brand, 2, 1));
    let static_shape = create_shape(&mut world, static_body, raw(brand, 1, 1));
    let retired = create_shape(&mut world, dynamic_body, raw(brand, 2, 1));
    assert_ne!(static_shape, retired);

    assert!(world.unregister_destroyed_shape(retired));
    assert_eq!(world.identities().observed_shape(retired.into_raw()), Ok(retired));

    let conflicting_raw = retired.into_raw();
    let pending = world.reserve_shape_creation(dynamic_body).unwrap();
    assert_eq!(
        err(world.bind_created_shape(pending, conflicting_raw, |_| true, |_| dynamic_body.into_raw())),
        Error::ObjectIdentityExhausted
    );
    assert_eq!(world.identities().observed_shape(conflicting_raw), Ok(retired));
    assert_eq!(world.state().lifecycle, LifecycleState::Live);
}

#[test]
fn retained_contact_end_shape_key_rejects_u16_generation_wrap_before_publication() {
    retained_shape_key_rejects_a_recycled_raw_id();
}

#[test]
fn retained_sensor_end_shape_key_rejects_u16_generation_wrap_before_publication() {
    retained_shape_key_rejects_a_recycled_raw_id();
}

#[test]
fn destroy_checks_identity_and_native_validity_before_unrelated_user_data() {
    let source_brand = brand(1, 1);
    let mut source = WorldCore::new(source_brand);
    let foreign = create_body(&mut source, raw(source_brand, 1, 1));

    let target_brand = brand(2, 2);
    let mut target = WorldCore::new(target_brand);
    assert_eq!(target.check_body(foreign, |_| true), Err(Error::WrongWorld));
    assert_eq!(source.check_body(foreign, |_| true), Ok(()));

    let stale = create_body(&mut target, raw(target_brand, 1, 1));
    assert!(target.unregister_destroyed_body(stale));
    assert_eq!(target.check_body(stale, |_| true), Err(Error::InvalidBodyId));
}

#[test]
fn dropped_completed_step_is_retired_immediately() {
    let brand = brand(1, 1);
    let mut world = WorldCore::new(brand);
    let body = create_body(&mut world, raw(brand, 1, 1));
    let shape = create_shape(&mut world, body, raw(brand, 1, 1));
    assert!(world.unregister_destroyed_shape(shape));
    assert_eq!(world.identities().observed_shape(shape.into_raw()), Ok(shape));

    let mut publication = StepPublication::new();
    publication.publish_pending();
    publication.commit();
    assert!(publication.is_active());

    publication.retire(&mut world);

    assert!(!publication.is_active());
    assert_eq!(world.identities().observed_shape(shape.into_raw()), Err(Error::InvalidShapeId));
}

#[test]
fn forgotten_completed_step_is_retired_by_the_next_owner_boundary() {
    let brand = brand(1, 1);
    let mut world = WorldCore::new(brand);
    let mut publication = StepPublication::new();
    publication.publish_pending();
    publication.commit();
    assert_eq!(publication.phase(), PublicationPhase::Published);

    // The next step's owner boundary retires the forgotten step before publishing its own.
    publication.retire(&mut world);
    publication.publish_pending();
    publication.commit();
    publication.retire(&mut world);
    assert!(!publication.is_active());
}

#[test]
fn retiring_an_idle_publication_changes_nothing() {
    let brand = brand(1, 1);
    let mut world = WorldCore::new(brand);
    let body = create_body(&mut world, raw(brand, 1, 1));
    let shape = create_shape(&mut world, body, raw(brand, 1, 1));
    assert!(world.unregister_destroyed_shape(shape));

    let mut publication = StepPublication::new();
    publication.retire(&mut world);
    assert_eq!(world.identities().observed_shape(shape.into_raw()), Ok(shape));

    // A pending publication that never commits is retired by its owner on failure.
    publication.publish_pending();
    assert_eq!(publication.phase(), PublicationPhase::Pending);
    publication.retire(&mut world);
    assert_eq!(world.identities().observed_shape(shape.into_raw()), Err(Error::InvalidShapeId));
}

#[test]
fn contact_epoch_exhaustion_poisons_the_world() {
    let mut world = WorldCore::new(brand(1, 1));
    let mut epoch = ContactEpoch::new_for_test(u64::MAX);

    assert_eq!(epoch.advance(&mut world), Err(Error::ObjectIdentityExhausted));
    assert_eq!(world.state().lifecycle, LifecycleState::Poisoned);
}

#[test]
fn a_contact_epoch_commits_only_its_successor() {
    let mut world = WorldCore::new(brand(1, 1));
    let mut epoch = ContactEpoch::initial();
    let next = epoch.checked_next().unwrap();
    assert_eq!(next.value(), 1);

    assert_eq!(epoch.commit(ContactEpoch::new_for_test(5)), Err(Error::WorldBusy));
    assert_eq!(epoch.value(), 0);
    assert_eq!(epoch.commit(next), Ok(()));
    assert_eq!(epoch, next);
    assert_eq!(epoch.advance(&mut world).map(ContactEpoch::value), Ok(2));
    assert_eq!(world.state().lifecycle, LifecycleState::Live);
}
