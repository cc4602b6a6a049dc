use standards::id::Id;
use std::collections::HashSet;

#[derive(Debug)]
struct Item;

type ItemId = Id<Item>;

const SAMPLE: u128 = 0xa1a2a3a4b1b2c1c2d1d2d3d4d5d6d7d8;

#[test]
fn from_uuid_and_as_uuid_round_trip() {
    let id = ItemId::from_uuid(SAMPLE);
    assert_eq!(id.as_uuid(), SAMPLE);
    assert_eq!(ItemId::from_uuid(0).as_uuid(), 0);
    assert_eq!(ItemId::from_uuid(u128::MAX).as_uuid(), u128::MAX);
}

#[test]
fn text_is_hyphenated_lower_case() {
    let id = ItemId::from_uuid(SAMPLE);
    assert_eq!(id.to_text(), "a1a2a3a4-b1b2-c1c2-d1d2-d3d4d5d6d7d8");
    assert_eq!(ItemId::from_uuid(0).to_text(), "00000000-0000-0000-0000-000000000000");
    assert_eq!(uuid::Uuid::from_u128(SAMPLE).to_string(), id.to_text());
}

#[test]
fn parse_reads_back_the_text() {
    for bits in [0u128, 1, SAMPLE, u128::MAX] {
        let id = ItemId::from_uuid(bits);
        let back = ItemId::parse(&id.to_text()).unwrap();
        assert!(back == id);
    }
}

#[test]
fn parse_takes_other_uuid_forms() {
    let upper = ItemId::parse("A1A2A3A4-B1B2-C1C2-D1D2-D3D4D5D6D7D8").unwrap();
    assert_eq!(upper.as_uuid(), SAMPLE);
    let simple = ItemId::parse("a1a2a3a4b1b2c1c2d1d2d3d4d5d6d7d8").unwrap();
    assert_eq!(simple.as_uuid(), SAMPLE);
    let braced = ItemId::parse("{a1a2a3a4-b1b2-c1c2-d1d2-d3d4d5d6d7d8}").unwrap();
    assert_eq!(braced.as_uuid(), SAMPLE);
    let from_str: ItemId = "urn:uuid:a1a2a3a4-b1b2-c1c2-d1d2-d3d4d5d6d7d8".parse().unwrap();
    assert_eq!(from_str.as_uuid(), SAMPLE);
}

#[test]
fn parse_rejects_other_text() {
    assert!(ItemId::parse("").is_err());
    assert!(ItemId::parse("not-a-uuid").is_err());
    assert!(ItemId::parse("a1a2a3a4-b1b2-c1c2-d1d2-d3d4d5d6d7dg").is_err());
    let err = ItemId::parse("a1a2a3a4_b1b2_c1c2_d1d2_d3d4d5d6d7d8").unwrap_err();
    assert!(!err.0.to_string().is_empty());
}

#[test]
fn new_mints_version_7_uuids_in_creation_order() {
    let a = ItemId::new();
    let b = ItemId::new();
    let d = ItemId::default();
    for id in [a, b, d] {
        let u = uuid::Uuid::from_u128(id.as_uuid());
        assert_eq!(u.get_version_num(), 7);
        assert_eq!(u.get_variant(), uuid::Variant::RFC4122);
        assert_eq!((id.as_uuid() >> 76) & 0xf, 7);
        assert_eq!((id.as_uuid() >> 62) & 0x3, 2);
    }
    assert!(a < b);
    assert!(b < d);
}

#[test]
fn ids_compare_and_hash_by_uuid() {
    let a = ItemId::from_uuid(1);
    let b = ItemId::from_uuid(2);
    assert!(a < b);
    assert!(a == ItemId::from_uuid(1));
    assert!(a != b);
    assert_eq!(b.cmp(&a), std::cmp::Ordering::Greater);
    assert_eq!(a.partial_cmp(&a), Some(std::cmp::Ordering::Equal));
    let c = a;
    assert!(c.clone() == a);
    let mut set = HashSet::new();
    set.insert(a);
    set.insert(c);
    set.insert(b);
    assert_eq!(set.len(), 2);
}

#[test]
fn debug_text_wraps_the_uuid() {
    let id = ItemId::from_uuid(uuid::Uuid::nil().as_u128());
    assert_eq!(id.to_text(), "00000000-0000-0000-0000-000000000000");
    assert_eq!(id.debug_text(), "Id(00000000-0000-0000-0000-000000000000)");
}

#[test]
fn cmp_is_numeric_on_the_uuid() {
    let a = ItemId::from_uuid(SAMPLE);
    let b = ItemId::from_uuid(SAMPLE + 1);
    assert_eq!(a.cmp(&b), a.as_uuid().cmp(&b.as_uuid()));
    assert_eq!(a.partial_cmp(&b), Some(a.cmp(&b)));
    assert_eq!(b.cmp(&a), std::cmp::Ordering::Greater);
}
