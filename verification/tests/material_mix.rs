use std::sync::Arc;

use boxdd::material_mix::{
    MaterialMixKind, MaterialMixPublication, MaterialMixRegistry, MaterialMixRegistryError,
    MaterialMixSlot, MaterialMixerRegistration, OwnedMaterialMixSlot, MATERIAL_MIX_SLOT_COUNT,
};

type Registration = MaterialMixerRegistration<u32, u32>;

fn registration(identity: u32) -> Registration {
    MaterialMixerRegistration::new(identity, Arc::new(identity))
}

fn publication(
    lease_generation: u64,
    generation: u64,
    friction: Option<Registration>,
    restitution: Option<Registration>,
) -> Arc<MaterialMixPublication<u32, u32>> {
    Arc::new(MaterialMixPublication {
        lease_generation,
        publication_generation: generation,
        friction,
        restitution,
    })
}

#[test]
fn stale_generation_cannot_release_or_replace_a_reused_slot() {
    let mut slot: MaterialMixSlot<u32, u32> = MaterialMixSlot::new();
    let first = slot.try_acquire(0).unwrap();
    let first_generation = first.generation;
    assert!(slot.try_acquire(0).is_none());
    assert!(slot.release(first_generation).unwrap().is_none());

    let second = slot.try_acquire(0).unwrap();
    assert_ne!(second.generation, first_generation);
    assert!(matches!(
        slot.release(first_generation),
        Err(MaterialMixRegistryError::StaleLease)
    ));
    let stale_publication = publication(first_generation, 1, Some(registration(25)), None);
    assert!(matches!(
        slot.publish(first_generation, stale_publication),
        Err(MaterialMixRegistryError::StaleLease)
    ));
    assert!(slot.callback(MaterialMixKind::Friction).is_none());
    assert!(slot.release(second.generation).unwrap().is_none());
}

#[test]
fn active_call_pins_generation_until_snapshot_finishes() {
    let mut slot: MaterialMixSlot<u32, u32> = MaterialMixSlot::new();
    let old_lease = slot.try_acquire(0).unwrap();
    let old_generation = old_lease.generation;
    let old_owner = publication(old_generation, 1, Some(registration(25)), None);
    assert!(slot.publish(old_generation, Arc::clone(&old_owner)).unwrap().is_none());
    slot.activate(old_generation, &old_owner).unwrap();

    assert!(matches!(
        slot.release(old_generation),
        Err(MaterialMixRegistryError::InvalidOwnerState)
    ));
    let replacement = publication(old_generation, 2, Some(registration(81)), None);
    assert!(matches!(
        slot.publish(old_generation, replacement),
        Err(MaterialMixRegistryError::InvalidOwnerState)
    ));

    for _ in 0..2 {
        assert_eq!(slot.callback(MaterialMixKind::Friction).map(|r| r.identity), Some(25));
    }

    slot.finish_call(old_generation, 1);
    let old_registry = slot.release(old_generation).unwrap().unwrap();
    assert_eq!(old_registry.publication_generation, 1);

    let new_lease = slot.try_acquire(0).unwrap();
    assert_ne!(new_lease.generation, old_generation);
    let new_owner = publication(new_lease.generation, 1, Some(registration(81)), None);
    assert!(slot.publish(new_lease.generation, Arc::clone(&new_owner)).unwrap().is_none());
    slot.activate(new_lease.generation, &new_owner).unwrap();
    assert_eq!(slot.callback(MaterialMixKind::Friction).map(|r| r.identity), Some(81));
    slot.finish_call(new_lease.generation, 1);
    assert!(slot.release(new_lease.generation).unwrap().is_some());
}

#[test]
fn every_material_mix_trampoline_routes_to_its_array_index() {
    let mut registry: MaterialMixRegistry<u32, u32> = MaterialMixRegistry::new();
    let mut owners = Vec::with_capacity(MATERIAL_MIX_SLOT_COUNT);

    for expected_slot in 0..MATERIAL_MIX_SLOT_COUNT {
        let mut owner = OwnedMaterialMixSlot::new();
        let update = match owner.set_friction(&mut registry, registration(expected_slot as u32)) {
            Ok(update) => update,
            Err(failure) => panic!("failed to register friction slot: {:?}", failure.error()),
        };
        assert_eq!(update.slot(), expected_slot);

        let update = match owner.set_restitution(&mut registry, registration(1000 + expected_slot as u32)) {
            Ok(update) => update,
            Err(failure) => panic!("failed to register restitution slot: {:?}", failure.error()),
        };
        assert_eq!(update.slot(), expected_slot);
        let active = owner
            .activate_snapshot(&mut registry)
            .unwrap_or_else(|error| panic!("failed to activate material-mix slot: {error:?}"))
            .expect("a configured material-mix slot must publish a native-call snapshot");
        owners.push((owner, active));
    }

    for slot in 0..MATERIAL_MIX_SLOT_COUNT {
        let friction = registry.callback_at(slot, MaterialMixKind::Friction).unwrap();
        let restitution = registry.callback_at(slot, MaterialMixKind::Restitution).unwrap();
        assert_eq!(friction.identity, slot as u32);
        assert_eq!(restitution.identity, 1000 + slot as u32);
    }

    let mut spare = OwnedMaterialMixSlot::new();
    match spare.set_friction(&mut registry, registration(7)) {
        Err(failure) => {
            assert_eq!(failure.error(), MaterialMixRegistryError::SlotsExhausted);
            assert_eq!(failure.into_retired().unpublished_friction.map(|r| r.identity), Some(7));
        }
        Ok(_) => panic!("every slot is leased"),
    }

    for (mut owner, active) in owners {
        let unpinned = active.finish(&mut registry);
        assert!(unpinned.is_some());
        let retired = match owner.release_all(&mut registry) {
            Ok(retired) => retired,
            Err(failure) => panic!("failed to release material-mix slot: {:?}", failure.error()),
        };
        assert!(retired.owner.is_some());
        assert_eq!(owner.slot(), None);
    }
}

#[test]
fn clearing_keeps_the_other_mixer_and_the_last_clear_releases_the_slot() {
    let mut registry: MaterialMixRegistry<u32, u32> = MaterialMixRegistry::new();
    let mut owner = OwnedMaterialMixSlot::new();
    assert!(owner.set_friction(&mut registry, registration(1)).is_ok());
    assert!(owner.set_restitution(&mut registry, registration(2)).is_ok());
    assert_eq!(owner.presence(), (true, true));
    assert_eq!(owner.identities(), (Some(1), Some(2)));
    assert!(!owner.clearing_friction_releases_slot());

    let retired = match owner.clear_friction(&mut registry) {
        Ok(retired) => retired,
        Err(_) => panic!("clearing one of two mixers republishes the other"),
    };
    assert!(retired.owner.is_some());
    assert_eq!(owner.presence(), (false, true));
    assert_eq!(registry.callback_at(0, MaterialMixKind::Friction).map(|r| r.identity), None);
    assert_eq!(registry.callback_at(0, MaterialMixKind::Restitution).map(|r| r.identity), Some(2));
    assert!(owner.clearing_restitution_releases_slot());

    assert!(owner.clear_restitution(&mut registry).is_ok());
    assert_eq!(owner.presence(), (false, false));
    assert_eq!(owner.slot(), None);
    assert!(registry.callback_at(0, MaterialMixKind::Restitution).is_none());

    let mut next = OwnedMaterialMixSlot::new();
    let update = match next.set_friction(&mut registry, registration(3)) {
        Ok(update) => update,
        Err(_) => panic!("a released slot can be leased again"),
    };
    assert_eq!(update.slot(), 0);
}

#[test]
fn release_is_refused_while_a_native_call_observes_the_publication() {
    let mut registry: MaterialMixRegistry<u32, u32> = MaterialMixRegistry::new();
    let mut owner = OwnedMaterialMixSlot::new();
    assert!(owner.set_friction(&mut registry, registration(9)).is_ok());
    let active = owner.activate_snapshot(&mut registry).unwrap().unwrap();
    match owner.release_all(&mut registry) {
        Err(failure) => assert_eq!(failure.error(), MaterialMixRegistryError::InvalidOwnerState),
        Ok(_) => panic!("a pinned publication cannot be released"),
    }
    match owner.set_restitution(&mut registry, registration(10)) {
        Err(failure) => assert_eq!(failure.error(), MaterialMixRegistryError::InvalidOwnerState),
        Ok(_) => panic!("a pinned publication cannot be replaced"),
    }
    active.finish(&mut registry);
    assert!(owner.release_all(&mut registry).is_ok());
    assert_eq!(owner.detach_after_native_destroyed(&mut registry).owner.is_none(), true);
}
