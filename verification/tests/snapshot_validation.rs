use boxdd::identity::IdentityRegistry;
use boxdd::ids::{IdBrand, RawId, RawWorldId, WorldToken};
use boxdd::snapshot_entries::{
    SnapshotEntry, SNAPSHOT_ENTRY_BODY, SNAPSHOT_ENTRY_LIVE, SNAPSHOT_ENTRY_VERSION,
};
use boxdd::Error;

fn fixture() -> (IdBrand, IdentityRegistry) {
    let brand = IdBrand::new(RawWorldId { index1: 1, generation: 3 }, WorldToken::new(4).unwrap()).unwrap();
    (brand, IdentityRegistry::new(brand))
}

fn body_entry(index: i32, generation: u32) -> SnapshotEntry {
    SnapshotEntry {
        struct_size: core::mem::size_of::<boxdd_sys::adapter::SnapshotEntry>() as u32,
        version: SNAPSHOT_ENTRY_VERSION,
        kind: SNAPSHOT_ENTRY_BODY,
        flags: SNAPSHOT_ENTRY_LIVE,
        index,
        owner_a: 0,
        owner_b: 0,
        generation,
        subtype: 0,
        owner_b_order: 0,
    }
}

#[test]
fn a_live_native_body_missing_from_the_manifest_is_a_mismatch() {
    let (_, registry) = fixture();
    let manifest = registry.snapshot_manifest().unwrap();
    assert_eq!(
        manifest.validate_snapshot_entries(&vec![body_entry(0, 0)]),
        Err(Error::SnapshotManifestMismatch)
    );
}

#[test]
fn an_empty_snapshot_matches_an_empty_manifest() {
    let (_, registry) = fixture();
    let manifest = registry.snapshot_manifest().unwrap();
    assert_eq!(manifest.validate_snapshot_entries(&vec![]), Ok(()));
}

#[test]
fn a_registered_body_matches_its_live_native_entry() {
    let (brand, mut registry) = fixture();
    registry
        .register_body(RawId { index1: 1, world0: brand.world0(), generation: 0 })
        .unwrap();
    let manifest = registry.snapshot_manifest().unwrap();
    assert_eq!(manifest.validate_snapshot_entries(&vec![body_entry(0, 0)]), Ok(()));
    assert_eq!(
        manifest.validate_snapshot_entries(&vec![]),
        Err(Error::SnapshotManifestMismatch)
    );
}

#[test]
fn an_entry_of_another_version_is_a_mismatch() {
    let (_, registry) = fixture();
    let manifest = registry.snapshot_manifest().unwrap();
    let mut entry = body_entry(0, 0);
    entry.version = SNAPSHOT_ENTRY_VERSION + 1;
    entry.flags = 0;
    assert_eq!(
        manifest.validate_snapshot_entries(&vec![entry]),
        Err(Error::SnapshotManifestMismatch)
    );
}

#[test]
fn the_native_entry_size_is_the_stated_one() {
    assert_eq!(
        boxdd::snapshot_entries::NATIVE_SNAPSHOT_ENTRY_SIZE,
        core::mem::size_of::<boxdd_sys::adapter::SnapshotEntry>()
    );
    let (_, registry) = fixture();
    let manifest = registry.snapshot_manifest().unwrap();
    let mut entry = body_entry(0, 0);
    entry.struct_size = 71;
    entry.flags = 0;
    assert_eq!(
        manifest.validate_snapshot_entries(&vec![entry]),
        Err(Error::SnapshotManifestMismatch)
    );
}
