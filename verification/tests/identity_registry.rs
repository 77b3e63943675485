use std::collections::HashMap;

use boxdd::error::JointType;
use boxdd::identity::IdentityRegistry;
use boxdd::ids::{IdBrand, RawId, RawKey, RawWorldId, RegistrationNonce, WorldToken};
use boxdd::Error;

fn fixture() -> (IdBrand, IdentityRegistry) {
    let brand = IdBrand::new(
        RawWorldId {
            index1: 1,
            generation: 7,
        },
        WorldToken::new(1).unwrap(),
    )
    .unwrap();
    (brand, IdentityRegistry::new(brand))
}

fn raw(brand: IdBrand, index1: i32, generation: u16) -> RawId {
    RawId {
        index1,
        world0: brand.world0(),
        generation,
    }
}

#[test]
fn raw_key_keeps_generations_distinct_in_hash_maps() {
    let first = RawKey::new(7, 1);
    let second = RawKey::new(7, 2);
    let mut keys = HashMap::new();

    keys.insert(first, "first");
    keys.insert(second, "second");

    assert_eq!(keys.len(), 2);
    assert_eq!(keys.get(&first), Some(&"first"));
    assert_eq!(keys.get(&second), Some(&"second"));
    assert_ne!(first.code(), second.code());
    assert_eq!(RawKey::decode(first.code()), first);
}

#[test]
fn scalar_and_batch_nonce_allocations_share_one_monotonic_sequence() {
    let (_, mut registry) = fixture();

    assert_eq!(registry.allocate_nonce(), RegistrationNonce::new(1));
    assert_eq!(
        registry.allocate_nonces(3),
        Ok(vec![
            RegistrationNonce::new(2).unwrap(),
            RegistrationNonce::new(3).unwrap(),
            RegistrationNonce::new(4).unwrap(),
        ])
    );
    assert_eq!(registry.allocate_nonce(), RegistrationNonce::new(5));
}

#[test]
fn dropped_creation_reservation_burns_its_nonce() {
    let (_, mut registry) = fixture();
    let first = registry.reserve_body().unwrap();
    let first_nonce = first.nonce();
    drop(first);

    let second = registry.reserve_body().unwrap();

    assert!(second.nonce() > first_nonce);
}

#[test]
fn slot_reuse_gets_a_new_registration_nonce_after_retired_outputs_are_released() {
    let (brand, mut registry) = fixture();
    let raw = raw(brand, 1, 0);
    let first = registry.register_body(raw).unwrap();
    assert!(registry.unregister_body(first));
    registry.clear_retired_outputs();
    let second = registry.register_body(raw).unwrap();

    assert_ne!(first, second);
    assert!(!registry.contains_body(first));
    assert!(registry.contains_body(second));
    assert_eq!(registry.active_body(raw), Ok(second));
}

#[test]
fn retained_retired_keys_block_registration_until_outputs_are_released() {
    let (brand, mut registry) = fixture();
    let body = registry.register_body(raw(brand, 1, 0)).unwrap();
    let shape_raw = raw(brand, 1, 7);
    let retired = registry.register_shape(shape_raw, body).unwrap();
    assert!(registry.unregister_shape(retired));

    assert_eq!(
        registry.register_shape(shape_raw, body),
        Err(Error::ObjectIdentityExhausted)
    );
    assert_eq!(registry.observed_shape(shape_raw), Ok(retired));

    let adjacent_raw = raw(brand, 1, 8);
    let adjacent = registry.register_shape(adjacent_raw, body).unwrap();
    assert!(registry.contains_shape(adjacent));

    registry.clear_retired_outputs();
    let replacement = registry.register_shape(shape_raw, body).unwrap();
    assert_ne!(replacement, retired);
    assert!(registry.contains_shape(replacement));
}

#[test]
fn every_object_kind_rejects_an_exact_retired_raw_key() {
    let (brand, mut registry) = fixture();
    let body_raw = raw(brand, 1, 0);
    let retired_body = registry.register_body(body_raw).unwrap();
    assert!(registry.unregister_body(retired_body));
    assert_eq!(
        registry.register_body(body_raw),
        Err(Error::ObjectIdentityExhausted)
    );

    let owner = registry.register_body(raw(brand, 2, 0)).unwrap();
    let joint_raw = raw(brand, 1, 3);
    let retired_joint = registry
        .register_joint(joint_raw, owner, owner, JointType::Distance)
        .unwrap();
    assert!(registry.unregister_joint(retired_joint));
    assert_eq!(
        registry.register_joint(joint_raw, owner, owner, JointType::Distance),
        Err(Error::ObjectIdentityExhausted)
    );

    let chain_raw = raw(brand, 1, 5);
    let segment_raw = raw(brand, 1, 8);
    let (retired_chain, _) = registry
        .register_chain(chain_raw, owner, &vec![segment_raw])
        .unwrap();
    assert!(registry.unregister_chain(retired_chain));
    assert_eq!(
        registry.register_chain(chain_raw, owner, &vec![raw(brand, 2, 0)]),
        Err(Error::ObjectIdentityExhausted)
    );
}

#[test]
fn owner_lookup_uses_only_the_active_registration() {
    let (brand, mut registry) = fixture();
    let body = registry.register_body(raw(brand, 1, 0)).unwrap();
    let shape_raw = raw(brand, 1, 0);
    let shape = registry.register_shape(shape_raw, body).unwrap();

    assert_eq!(registry.active_shape(shape_raw), Ok(shape));
    assert!(registry.unregister_shape(shape));
    assert_eq!(registry.active_shape(shape_raw), Err(Error::InvalidShapeId));
}

#[test]
fn step_shape_resolver_is_an_independent_concurrent_snapshot() {
    let (brand, mut registry) = fixture();
    let body = registry.register_body(raw(brand, 1, 0)).unwrap();
    let raw_shapes = [raw(brand, 90, 4), raw(brand, 2, 9), raw(brand, 2, 1), raw(brand, 500, 0)];
    let shapes = raw_shapes.map(|raw| registry.register_shape(raw, body).unwrap());
    let resolver = registry.step_shape_resolver().unwrap();

    assert!(registry.unregister_shape(shapes[0]));
    assert_eq!(registry.active_shape(raw_shapes[0]), Err(Error::InvalidShapeId));
    assert_eq!(resolver.shape(raw_shapes[0]), Ok(shapes[0]));
    let refreshed = registry.step_shape_resolver().unwrap();
    assert_eq!(refreshed.shape(raw_shapes[0]), Err(Error::InvalidShapeId));
    for (&raw, &shape) in raw_shapes.iter().zip(&shapes) {
        assert_eq!(resolver.shape(raw), Ok(shape));
    }
}

#[test]
fn nonce_exhaustion_does_not_mutate_the_active_table() {
    let (brand, mut registry) = fixture();
    registry.set_last_nonce_for_test(u64::MAX);
    let body_raw = raw(brand, 1, 0);

    assert_eq!(
        registry.register_body(body_raw),
        Err(Error::ObjectIdentityExhausted)
    );
    assert_eq!(registry.active_body(body_raw), Err(Error::InvalidBodyId));
}

#[test]
fn chain_registration_is_atomic_on_duplicate_segments() {
    let (brand, mut registry) = fixture();
    let body = registry.register_body(raw(brand, 1, 0)).unwrap();
    let chain_raw = raw(brand, 1, 0);
    let segment = raw(brand, 1, 0);

    assert_eq!(
        registry.register_chain(chain_raw, body, &vec![segment, segment]),
        Err(Error::ObjectIdentityExhausted)
    );
    assert_eq!(registry.active_chain(chain_raw), Err(Error::InvalidChainId));
    assert_eq!(registry.active_shape(segment), Err(Error::InvalidShapeId));
    assert!(registry.contains_body(body));
}

#[test]
fn chain_registration_is_atomic_on_retired_chain_or_segment_conflicts() {
    let (brand, mut registry) = fixture();
    let body = registry.register_body(raw(brand, 1, 0)).unwrap();
    let retired_chain_raw = raw(brand, 1, 4);
    let retired_segment_raw = raw(brand, 1, 9);
    let (retired_chain, _) = registry
        .register_chain(retired_chain_raw, body, &vec![retired_segment_raw])
        .unwrap();
    assert!(registry.unregister_chain(retired_chain));

    let fresh_chain_raw = raw(brand, 2, 0);
    let fresh_segment_raw = raw(brand, 2, 0);
    assert_eq!(
        registry.register_chain(fresh_chain_raw, body, &vec![retired_segment_raw]),
        Err(Error::ObjectIdentityExhausted)
    );
    assert_eq!(registry.active_chain(fresh_chain_raw), Err(Error::InvalidChainId));
    assert_eq!(registry.active_shape(fresh_segment_raw), Err(Error::InvalidShapeId));

    assert_eq!(
        registry.register_chain(retired_chain_raw, body, &vec![fresh_segment_raw]),
        Err(Error::ObjectIdentityExhausted)
    );
    assert_eq!(registry.active_shape(fresh_segment_raw), Err(Error::InvalidShapeId));
    assert!(registry.contains_body(body));
}

#[test]
fn chain_registration_preserves_order_and_batch_removal_keeps_unrelated_shapes() {
    let (brand, mut registry) = fixture();
    let body = registry.register_body(raw(brand, 1, 0)).unwrap();
    let unrelated_raw = raw(brand, 99, 0);
    let unrelated = registry.register_shape(unrelated_raw, body).unwrap();
    let chain_raw = raw(brand, 1, 0);
    let raw_segments = vec![raw(brand, 3, 1), raw(brand, 1, 0), raw(brand, 3, 2), raw(brand, 2, 0)];
    let expected_segment_keys = raw_segments.iter().map(|r| r.key()).collect::<Vec<_>>();

    let (chain, segments) = registry.register_chain(chain_raw, body, &raw_segments).unwrap();
    assert_eq!(
        segments.iter().map(|s| s.into_raw().key()).collect::<Vec<_>>(),
        expected_segment_keys
    );

    assert!(registry.unregister_chain(chain));
    assert!(registry.contains_body(body));
    assert!(registry.contains_shape(unrelated));
    for (&raw_segment, &segment) in raw_segments.iter().zip(&segments) {
        assert!(!registry.contains_shape(segment));
        assert_eq!(registry.active_shape(raw_segment), Err(Error::InvalidShapeId));
        assert_eq!(registry.observed_shape(raw_segment), Ok(segment));
    }
    assert_eq!(registry.active_chain(chain_raw), Err(Error::InvalidChainId));

    registry.clear_retired_outputs();
    let (replacement_chain, replacement_segments) =
        registry.register_chain(chain_raw, body, &raw_segments).unwrap();
    assert_ne!(replacement_chain, chain);
    for (&stale, &replacement) in segments.iter().zip(&replacement_segments) {
        assert_ne!(replacement, stale);
        assert!(!registry.contains_shape(stale));
        assert!(registry.contains_shape(replacement));
    }
}

#[test]
fn dropped_restore_plan_leaves_active_state_but_consumes_nonces() {
    let (brand, mut registry) = fixture();
    let body_raw = raw(brand, 1, 0);
    let snapshot_id = registry.register_body(body_raw).unwrap();
    let manifest = registry.snapshot_manifest().unwrap();
    assert!(registry.unregister_body(snapshot_id));
    registry.clear_retired_outputs();
    let replacement = registry.register_body(body_raw).unwrap();

    let prepared = registry.prepare_restore(&manifest).unwrap();
    let restored = prepared.body_after_restore(&manifest, snapshot_id).unwrap();
    assert_ne!(restored, snapshot_id);
    assert_ne!(restored, replacement);
    drop(prepared);

    assert!(registry.contains_body(replacement));
    assert!(!registry.contains_body(snapshot_id));
    assert!(!registry.contains_body(restored));
    let later = registry.register_body(raw(brand, 2, 0)).unwrap();
    assert!(later.registration_nonce() > restored.registration_nonce());
}

#[test]
fn restore_preserves_only_the_exact_registration_intersection() {
    let (brand, mut registry) = fixture();
    let raw_a = raw(brand, 1, 0);
    let raw_b = raw(brand, 2, 0);
    let a = registry.register_body(raw_a).unwrap();
    let b = registry.register_body(raw_b).unwrap();
    let manifest = registry.snapshot_manifest().unwrap();

    assert!(registry.unregister_body(b));
    registry.clear_retired_outputs();
    let replacement_b = registry.register_body(raw_b).unwrap();
    let post_snapshot = registry.register_body(raw(brand, 3, 0)).unwrap();
    let prepared = registry.prepare_restore(&manifest).unwrap();
    let restored_a = prepared.body_after_restore(&manifest, a).unwrap();
    let restored_b = prepared.body_after_restore(&manifest, b).unwrap();
    assert_eq!(restored_a, a);
    assert_ne!(restored_b, b);
    assert_ne!(restored_b, replacement_b);

    registry.commit_restore(prepared).unwrap();
    assert!(registry.contains_body(a));
    assert!(registry.contains_body(restored_b));
    assert!(!registry.contains_body(b));
    assert!(!registry.contains_body(replacement_b));
    assert!(!registry.contains_body(post_snapshot));
}

#[test]
fn registration_property_holds_across_many_reuses() {
    let (brand, mut registry) = fixture();
    let body_raw = raw(brand, 1, 0);
    let mut previous = None;
    for _ in 0..1_024 {
        let current = registry.register_body(body_raw).unwrap();
        if let Some(previous) = previous {
            assert_ne!(current, previous);
            assert!(!registry.contains_body(previous));
        }
        assert!(registry.contains_body(current));
        assert!(registry.unregister_body(current));
        registry.clear_retired_outputs();
        previous = Some(current);
    }
}

#[test]
fn manifest_lists_every_registered_id() {
    let (brand, mut registry) = fixture();
    let a = registry.register_body(raw(brand, 1, 0)).unwrap();
    let b = registry.register_body(raw(brand, 2, 0)).unwrap();
    let shape = registry.register_shape(raw(brand, 5, 1), a).unwrap();
    let manifest = registry.snapshot_manifest().unwrap();
    let mut bodies = manifest.body_ids();
    bodies.sort_by_key(|id| id.into_raw().key());
    assert_eq!(bodies, vec![a, b]);
    assert_eq!(manifest.shape_ids(), vec![shape]);
    assert!(manifest.joint_ids().is_empty());
    assert!(manifest.chain_ids().is_empty());
}

#[test]
fn joint_type_is_reported_for_active_joints_only() {
    let (brand, mut registry) = fixture();
    let a = registry.register_body(raw(brand, 1, 0)).unwrap();
    let b = registry.register_body(raw(brand, 2, 0)).unwrap();
    let joint = registry.register_joint(raw(brand, 1, 0), a, b, JointType::Revolute).unwrap();
    assert_eq!(registry.joint_type(joint), Ok(JointType::Revolute));
    assert!(registry.unregister_joint(joint));
    assert_eq!(registry.joint_type(joint), Err(Error::InvalidJointId));
}

#[test]
fn restore_reports_nonce_exhaustion_before_reserving_anything() {
    let (brand, mut registry) = fixture();
    let body_raw = raw(brand, 1, 0);
    let snapshot_id = registry.register_body(body_raw).unwrap();
    let manifest = registry.snapshot_manifest().unwrap();
    assert!(registry.unregister_body(snapshot_id));
    registry.clear_retired_outputs();
    registry.set_last_nonce_for_test(u64::MAX);

    assert!(matches!(
        registry.prepare_restore(&manifest),
        Err(Error::ObjectIdentityExhausted)
    ));
    assert_eq!(registry.last_allocated_nonce(), u64::MAX);
}

#[test]
fn restore_fresh_nonces_are_distinct_across_object_kinds() {
    let (brand, mut registry) = fixture();
    let a = registry.register_body(raw(brand, 1, 0)).unwrap();
    let b = registry.register_body(raw(brand, 2, 0)).unwrap();
    let shape = registry.register_shape(raw(brand, 1, 0), a).unwrap();
    let joint = registry
        .register_joint(raw(brand, 1, 0), a, b, JointType::Distance)
        .unwrap();
    let (chain, _) = registry
        .register_chain(raw(brand, 1, 0), b, &vec![raw(brand, 5, 0)])
        .unwrap();
    let manifest = registry.snapshot_manifest().unwrap();
    assert!(registry.unregister_body(a));
    assert!(registry.unregister_body(b));
    registry.clear_retired_outputs();
    let before = registry.last_allocated_nonce();

    let prepared = registry.prepare_restore(&manifest).unwrap();
    let nonces = vec![
        prepared.body_after_restore(&manifest, a).unwrap().registration_nonce(),
        prepared.body_after_restore(&manifest, b).unwrap().registration_nonce(),
        prepared.shape_after_restore(&manifest, shape).unwrap().registration_nonce(),
        prepared.joint_after_restore(&manifest, joint).unwrap().registration_nonce(),
        prepared.chain_after_restore(&manifest, chain).unwrap().registration_nonce(),
    ];
    for (i, first) in nonces.iter().enumerate() {
        assert!(first.value() > before);
        for second in &nonces[i + 1..] {
            assert_ne!(first, second);
        }
    }
    assert_eq!(registry.last_allocated_nonce(), before + 6);
}

#[test]
fn commit_refuses_a_restore_prepared_for_another_world() {
    let (brand, mut registry) = fixture();
    registry.register_body(raw(brand, 1, 0)).unwrap();
    let other_brand = IdBrand::new(
        RawWorldId {
            index1: 2,
            generation: 1,
        },
        WorldToken::new(2).unwrap(),
    )
    .unwrap();
    let mut other = IdentityRegistry::new(other_brand);
    other.register_body(raw(other_brand, 1, 0)).unwrap();
    let manifest = other.snapshot_manifest().unwrap();
    let prepared = other.prepare_restore(&manifest).unwrap();

    assert_eq!(registry.commit_restore(prepared), Err(Error::WrongWorld));
    assert!(registry.contains_body_raw(raw(brand, 1, 0)));
}

#[test]
fn unregistering_a_body_retires_its_joints_for_both_bodies() {
    let (brand, mut registry) = fixture();
    let a = registry.register_body(raw(brand, 1, 0)).unwrap();
    let b = registry.register_body(raw(brand, 2, 0)).unwrap();
    let joint_raw = raw(brand, 1, 0);
    let joint = registry
        .register_joint(joint_raw, a, b, JointType::Revolute)
        .unwrap();
    let shape_raw = raw(brand, 4, 0);
    let shape = registry.register_shape(shape_raw, a).unwrap();

    assert!(registry.unregister_body(a));
    assert!(registry.contains_body(b));
    assert!(!registry.contains_joint(joint));
    assert_eq!(registry.observed_joint(joint_raw), Ok(joint));
    assert_eq!(registry.observed_shape(shape_raw), Ok(shape));
    assert!(registry.unregister_body(b));
    assert!(!registry.contains_body(b));
}
