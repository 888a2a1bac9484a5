use digi_pass::helpers::{decimal_string, get_current_time, indexed_id, str_eq};
use digi_pass::object_id::{ObjectId, ObjectIdError};

#[test]
fn parse_reads_two_digits_to_a_byte() {
    let id = ObjectId::parse_str("000102030405060708090a0b").unwrap();
    assert_eq!(id.bytes(), [0, 1, 2, 3, 4, 5, 6, 7, 8, 9, 10, 11]);
    let id = ObjectId::parse_str("65F0a1B2c3D4e5F60718293A").unwrap();
    assert_eq!(
        id.bytes(),
        [0x65, 0xf0, 0xa1, 0xb2, 0xc3, 0xd4, 0xe5, 0xf6, 0x07, 0x18, 0x29, 0x3a]
    );
}

#[test]
fn parse_refuses_what_is_not_24_hex_digits() {
    assert_eq!(ObjectId::parse_str(""), Err(ObjectIdError::Malformed));
    assert_eq!(ObjectId::parse_str("1"), Err(ObjectIdError::Malformed));
    assert_eq!(ObjectId::parse_str("65f0a1b2c3d4e5f60718293"), Err(ObjectIdError::Malformed));
    assert_eq!(ObjectId::parse_str("65f0a1b2c3d4e5f60718293a0"), Err(ObjectIdError::Malformed));
    assert_eq!(ObjectId::parse_str("65f0a1b2c3d4e5f60718293g"), Err(ObjectIdError::Malformed));
    assert_eq!(ObjectId::parse_str("65f0a1b2c3d4e5f6071829é"), Err(ObjectIdError::Malformed));
}

#[test]
fn to_hex_spells_bytes_in_lower_case() {
    let id = ObjectId::from_bytes([0x65, 0xf0, 0xa1, 0xb2, 0xc3, 0xd4, 0xe5, 0xf6, 0x07, 0x18, 0x29, 0x3a]);
    assert_eq!(id.to_hex(), "65f0a1b2c3d4e5f60718293a");
    assert_eq!(ObjectId::from_bytes([0; 12]).to_hex(), "000000000000000000000000");
    assert_eq!(ObjectId::from_bytes([255; 12]).to_hex(), "ffffffffffffffffffffffff");
}

#[test]
fn identifiers_survive_the_trip_through_text() {
    let id = ObjectId::new();
    assert_eq!(ObjectId::parse_str(&id.to_hex()), Ok(id));
    let outside = bson::oid::ObjectId::new();
    let inside = ObjectId::from_bytes(outside.bytes());
    assert_eq!(inside.to_hex(), outside.to_hex());
}

#[test]
fn identifiers_compare_by_bytes() {
    assert_eq!(ObjectId::from_bytes([1; 12]), ObjectId::from_bytes([1; 12]));
    let mut other = [1; 12];
    other[11] = 2;
    assert_ne!(ObjectId::from_bytes([1; 12]), ObjectId::from_bytes(other));
}

#[test]
fn new_identifiers_differ() {
    assert_ne!(ObjectId::new(), ObjectId::new());
}

#[test]
fn the_clock_reports_a_time_of_this_century() {
    let now = get_current_time();
    assert!(now > 1_600_000_000_000);
    assert!(now < 4_102_444_800_000);
}

#[test]
fn numerals_have_no_leading_zeros() {
    assert_eq!(decimal_string(0), "0");
    assert_eq!(decimal_string(7), "7");
    assert_eq!(decimal_string(10), "10");
    assert_eq!(decimal_string(1203), "1203");
    assert_eq!(decimal_string(u128::MAX), "340282366920938463463374607431768211455");
    assert_eq!(indexed_id("abc", 12), "abc-12");
}

#[test]
fn string_slices_compare_by_characters() {
    assert!(str_eq("paid", "paid"));
    assert!(!str_eq("paid", "Paid"));
    assert!(!str_eq("paid", "pai"));
    assert!(str_eq("", ""));
}
