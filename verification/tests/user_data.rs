use std::cell::RefCell;
use std::rc::Rc;

use boxdd::identity::IdentityRegistry;
use boxdd::ids::{IdBrand, RawId, RawWorldId, WorldToken};
use boxdd::user_data::{UserDataAttachment, UserDataStore, UserDataVersion};
use boxdd::Error;

type Entry = RefCell<Option<(u64, u32)>>;

fn entry(version: u64, payload: u32) -> Rc<Entry> {
    Rc::new(RefCell::new(Some((version, payload))))
}

fn version_if_present(e: &Entry) -> boxdd::Result<Option<UserDataVersion>> {
    match e.try_borrow() {
        Ok(value) => Ok(value.map(|(version, _)| UserDataVersion(version))),
        Err(_) => Err(Error::ReentrantAccess),
    }
}

fn pointer_if_version(e: &Entry, version: UserDataVersion) -> boxdd::Result<Option<u32>> {
    match e.try_borrow() {
        Ok(value) => Ok(match *value {
            Some((current, payload)) if current == version.0 => Some(payload),
            _ => None,
        }),
        Err(_) => Err(Error::ReentrantAccess),
    }
}

fn fixture() -> (IdBrand, IdentityRegistry) {
    let brand = IdBrand::new(RawWorldId { index1: 3, generation: 1 }, WorldToken::new(9).unwrap()).unwrap();
    (brand, IdentityRegistry::new(brand))
}

fn raw(brand: IdBrand, index1: i32) -> RawId {
    RawId { index1, world0: brand.world0(), generation: 0 }
}

#[test]
fn versions_advance_and_exhaust_without_wrapping() {
    let mut store: UserDataStore<Entry> = UserDataStore::new();
    let before = store.revision();
    assert_eq!(store.next_version(), Ok(UserDataVersion(1)));
    assert_eq!(store.next_version(), Ok(UserDataVersion(2)));
    assert_eq!(store.revision(), before + 2);
    store.mark_changed();
    assert_eq!(store.revision(), before + 3);
}

#[test]
fn restore_reattaches_only_values_that_still_carry_their_snapshot_version() {
    let (brand, mut registry) = fixture();
    let a = registry.register_body(raw(brand, 1)).unwrap();
    let b = registry.register_body(raw(brand, 2)).unwrap();

    let mut store: UserDataStore<Entry> = UserDataStore::new();
    let world_entry = entry(5, 500);
    let a_entry = entry(1, 100);
    let b_entry = entry(2, 200);
    assert!(store.set_world(Some(Rc::clone(&world_entry))).is_none());
    assert!(store.insert_body(a, Rc::clone(&a_entry)).is_none());
    assert!(store.insert_body(b, Rc::clone(&b_entry)).is_none());

    let user_manifest = store.snapshot_manifest(version_if_present).unwrap();
    assert_eq!(user_manifest.world, Some(UserDataVersion(5)));
    assert_eq!(user_manifest.bodies.len(), 2);
    let identity_manifest = registry.snapshot_manifest().unwrap();

    *a_entry.borrow_mut() = Some((7, 700));

    let identities = registry.prepare_restore(&identity_manifest).unwrap();
    let prepared = store
        .prepare_restore(&user_manifest, &identity_manifest, &identities, pointer_if_version)
        .unwrap();
    let committed = prepared.commit(&mut store).unwrap();
    let (attachments, retired) = committed.into_parts();

    let mut world_pointers = Vec::new();
    let mut body_pointers = Vec::new();
    for attachment in &attachments {
        match attachment {
            UserDataAttachment::World(p) => world_pointers.push(*p),
            UserDataAttachment::Body(id, p) => body_pointers.push((*id, *p)),
            _ => panic!("no shape or joint data was attached"),
        }
    }
    assert_eq!(world_pointers, vec![500]);
    assert_eq!(body_pointers, vec![(b, 200)]);
    assert_eq!(retired.len(), 1);
    assert!(Rc::ptr_eq(&retired[0], &a_entry));
    assert!(store.remove_body(a).is_none());
    assert!(Rc::ptr_eq(&store.remove_body(b).unwrap(), &b_entry));
}

#[test]
fn restore_prepared_against_a_changed_store_is_refused() {
    let (brand, mut registry) = fixture();
    let a = registry.register_body(raw(brand, 1)).unwrap();
    let mut store: UserDataStore<Entry> = UserDataStore::new();
    assert!(store.insert_body(a, entry(1, 10)).is_none());
    let user_manifest = store.snapshot_manifest(version_if_present).unwrap();
    let identity_manifest = registry.snapshot_manifest().unwrap();
    let identities = registry.prepare_restore(&identity_manifest).unwrap();
    let prepared = store
        .prepare_restore(&user_manifest, &identity_manifest, &identities, pointer_if_version)
        .unwrap();
    store.mark_changed();
    assert!(matches!(prepared.commit(&mut store), Err(Error::WorldBusy)));
}

#[test]
fn a_borrowed_entry_makes_the_restore_fail_with_reentrant_access() {
    let (brand, mut registry) = fixture();
    let a = registry.register_body(raw(brand, 1)).unwrap();
    let mut store: UserDataStore<Entry> = UserDataStore::new();
    let a_entry = entry(1, 10);
    assert!(store.insert_body(a, Rc::clone(&a_entry)).is_none());
    let user_manifest = store.snapshot_manifest(version_if_present).unwrap();
    let identity_manifest = registry.snapshot_manifest().unwrap();
    let identities = registry.prepare_restore(&identity_manifest).unwrap();
    let _held = a_entry.borrow_mut();
    assert!(matches!(
        store.prepare_restore(&user_manifest, &identity_manifest, &identities, pointer_if_version),
        Err(Error::ReentrantAccess)
    ));
}

#[test]
fn draining_hands_back_every_entry() {
    let (brand, mut registry) = fixture();
    let a = registry.register_body(raw(brand, 1)).unwrap();
    let mut store: UserDataStore<Entry> = UserDataStore::new();
    store.set_world(Some(entry(1, 1)));
    store.insert_body(a, entry(2, 2));
    let drained = store.drain_entries();
    assert_eq!(drained.len(), 2);
    assert!(store.remove_body(a).is_none());
    assert!(store.set_world(None).is_none());
}

#[test]
fn restore_attaches_each_restored_entry_exactly_once() {
    let (brand, mut registry) = fixture();
    let a = registry.register_body(raw(brand, 1)).unwrap();
    let b = registry.register_body(raw(brand, 2)).unwrap();
    let s = registry.register_shape(raw(brand, 1), a).unwrap();

    let mut store: UserDataStore<Entry> = UserDataStore::new();
    assert!(store.insert_body(a, entry(1, 10)).is_none());
    assert!(store.insert_body(b, entry(2, 20)).is_none());
    assert!(store.insert_shape(s, entry(3, 30)).is_none());

    let user_manifest = store.snapshot_manifest(version_if_present).unwrap();
    let identity_manifest = registry.snapshot_manifest().unwrap();
    let identities = registry.prepare_restore(&identity_manifest).unwrap();
    let prepared = store
        .prepare_restore(&user_manifest, &identity_manifest, &identities, pointer_if_version)
        .unwrap();
    let committed = prepared.commit(&mut store).unwrap();
    let (attachments, retired) = committed.into_parts();
    assert!(retired.is_empty());

    let mut bodies = Vec::new();
    let mut shapes = Vec::new();
    for attachment in &attachments {
        match attachment {
            UserDataAttachment::Body(id, p) => bodies.push((*id, *p)),
            UserDataAttachment::Shape(id, p) => shapes.push((*id, *p)),
            _ => panic!("no world or joint data was attached"),
        }
    }
    bodies.sort_by_key(|(_, p)| *p);
    assert_eq!(bodies, vec![(a, 10), (b, 20)]);
    assert_eq!(shapes, vec![(s, 30)]);
}
