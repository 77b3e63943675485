use boxdd::filter::Filter;
use boxdd::identity::IdentityRegistry;
use boxdd::ids::{BodyId, ChainId, IdBrand, RawId, RawWorldId, ShapeId, WorldToken};
use boxdd::serialize_registry::{
    ChainCreateMeta, ChainMaterialsRecord, Registries, ShapeFlagsRecord,
};

fn fixture() -> (IdBrand, IdentityRegistry) {
    let brand = IdBrand::new(RawWorldId { index1: 2, generation: 4 }, WorldToken::new(3).unwrap()).unwrap();
    (brand, IdentityRegistry::new(brand))
}

fn raw(brand: IdBrand, index1: i32) -> RawId {
    RawId { index1, world0: brand.world0(), generation: 0 }
}

fn flags(sensor: bool) -> ShapeFlagsRecord {
    ShapeFlagsRecord {
        enable_custom_filtering: false,
        enable_sensor_events: sensor,
        enable_contact_events: true,
        enable_hit_events: false,
        enable_pre_solve_events: false,
        invoke_contact_creation: false,
    }
}

fn meta(body: BodyId, points: Vec<[f32; 2]>, materials: ChainMaterialsRecord<u32>) -> ChainCreateMeta<[f32; 2], u32> {
    ChainCreateMeta {
        body,
        is_loop: true,
        filter: Filter::default(),
        enable_sensor_events: false,
        points,
        materials,
    }
}

#[test]
fn chain_materials_record_the_number_of_materials_given() {
    assert!(matches!(ChainMaterialsRecord::<u32>::from_raw_slice(&[]), ChainMaterialsRecord::Default));
    assert!(matches!(ChainMaterialsRecord::from_raw_slice(&[4u32]), ChainMaterialsRecord::Single(4)));
    match ChainMaterialsRecord::from_raw_slice(&[4u32, 5, 6]) {
        ChainMaterialsRecord::Multiple(v) => assert_eq!(v, vec![4, 5, 6]),
        _ => panic!("several materials are recorded per segment"),
    }
}

#[test]
fn bodies_are_listed_in_creation_order_while_alive() {
    let (brand, mut identities) = fixture();
    let a = identities.register_body(raw(brand, 1)).unwrap();
    let b = identities.register_body(raw(brand, 2)).unwrap();
    let c = identities.register_body(raw(brand, 3)).unwrap();
    let mut registries: Registries<[f32; 2], u32> = Registries::new();
    registries.record_body(a);
    registries.record_body(b);
    registries.record_body(c);
    assert_eq!(registries.body_ids(|_| true), vec![a, b, c]);
    assert_eq!(registries.body_ids(|id: BodyId| id != b), vec![a, c]);
    registries.remove_body(a);
    assert_eq!(registries.body_ids(|_| true), vec![b, c]);
}

#[test]
fn shape_flags_are_replaced_per_shape_and_removed_per_body() {
    let (brand, mut identities) = fixture();
    let body = identities.register_body(raw(brand, 1)).unwrap();
    let s1: ShapeId = identities.register_shape(raw(brand, 1), body).unwrap();
    let s2: ShapeId = identities.register_shape(raw(brand, 2), body).unwrap();
    let mut registries: Registries<[f32; 2], u32> = Registries::new();
    registries.record_shape_flags(s1, flags(false));
    registries.record_shape_flags(s2, flags(false));
    registries.record_shape_flags(s1, flags(true));
    assert_eq!(registries.shape_flags(s1), Some(flags(true)));
    assert_eq!(registries.shape_flags(s2), Some(flags(false)));
    registries.remove_shape_flags_for_body(&[s1]);
    assert_eq!(registries.shape_flags(s1), None);
    assert_eq!(registries.shape_flags(s2), Some(flags(false)));
    registries.remove_shape_flags(s2);
    assert_eq!(registries.shape_flags(s2), None);
}

#[test]
fn chain_records_describe_live_chains_and_follow_their_body() {
    let (brand, mut identities) = fixture();
    let body = identities.register_body(raw(brand, 1)).unwrap();
    let other = identities.register_body(raw(brand, 2)).unwrap();
    let (c1, _) = identities.register_chain(raw(brand, 1), body, &vec![raw(brand, 10)]).unwrap();
    let (c2, _) = identities.register_chain(raw(brand, 2), other, &vec![raw(brand, 11)]).unwrap();
    let mut registries: Registries<[f32; 2], u32> = Registries::new();
    registries.record_chain(c1, meta(body, vec![[0.0, 0.0], [1.0, 0.0]], ChainMaterialsRecord::Single(3)));
    registries.record_chain(c2, meta(other, vec![[2.0, 2.0]], ChainMaterialsRecord::Default));

    let records = registries.chain_records(|_| true);
    assert_eq!(records.len(), 2);
    assert_eq!(records[0].body, body);
    assert_eq!(records[0].points, vec![[0.0, 0.0], [1.0, 0.0]]);
    assert!(matches!(records[0].materials, ChainMaterialsRecord::Single(3)));
    assert_eq!(records[1].body, other);
    assert_eq!(records[1].filter, Filter { category_bits: 1, mask_bits: u64::MAX, group_index: 0 });

    let only_second = registries.chain_records(|id: ChainId| id == c2);
    assert_eq!(only_second.len(), 1);
    assert_eq!(only_second[0].body, other);

    registries.remove_chains_for_body(body);
    assert_eq!(registries.chain_records(|_| true).len(), 1);
    registries.remove_chain(c2);
    assert!(registries.chain_records(|_| true).is_empty());
}
