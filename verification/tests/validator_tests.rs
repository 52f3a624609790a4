use graffiti_store::generate_asset_id;
use graffiti_store::hex_string;
use graffiti_store::is_valid_asset_id;
use graffiti_store::strip_slashes;
use graffiti_store::get_timestamp;
use graffiti_store::StoreError;
use graffiti_store::WebError;
use graffiti_store::ShiftTime;
use graffiti_store::Handedness;

#[test]
fn accepts_canonical_ids() {
    let id: String = "0123456789abcdef".repeat(4);
    assert_eq!(id.len(), 64);
    assert!(is_valid_asset_id(&id));
    let all_a: String = "a".repeat(64);
    assert!(is_valid_asset_id(&all_a));
}

#[test]
fn rejects_wrong_length() {
    assert!(!is_valid_asset_id(""));
    assert!(!is_valid_asset_id(&"a".repeat(63)));
    assert!(!is_valid_asset_id(&"a".repeat(65)));
}

#[test]
fn rejects_wrong_characters() {
    let upper: String = "A".repeat(64);
    assert!(!is_valid_asset_id(&upper));
    let mut with_g: String = "a".repeat(63);
    with_g.push('g');
    assert!(!is_valid_asset_id(&with_g));
    let mut with_space: String = "a".repeat(63);
    with_space.push(' ');
    assert!(!is_valid_asset_id(&with_space));
}

#[test]
fn generated_ids_are_canonical_and_distinct() {
    let a = generate_asset_id();
    let b = generate_asset_id();
    assert_eq!(a.len(), 64);
    assert!(is_valid_asset_id(&a));
    assert!(is_valid_asset_id(&b));
    assert_ne!(a, b);
}

#[test]
fn hex_encoding_exact_values() {
    assert_eq!(hex_string(&vec![]), "");
    assert_eq!(hex_string(&vec![0xbe, 0xef]), "beef");
    assert_eq!(hex_string(&vec![0x00, 0x0f, 0xf0, 0xff]), "000ff0ff");
}

#[test]
fn strip_slashes_normalizes() {
    assert_eq!(strip_slashes("abc/".to_string()), "/abc");
    assert_eq!(strip_slashes("abc".to_string()), "/abc");
    assert_eq!(strip_slashes("".to_string()), "/");
    assert_eq!(strip_slashes("/".to_string()), "/");
    assert_eq!(strip_slashes("a/b/".to_string()), "/a/b");
}

#[test]
fn timestamps_do_not_go_backward() {
    let t1 = get_timestamp();
    let t2 = get_timestamp();
    assert!(t2 >= t1);
}

#[test]
fn error_names_and_web_codes() {
    assert_eq!(StoreError::Validation.name(), "validation");
    assert_eq!(StoreError::Decode.name(), "decode");
    assert_eq!(StoreError::Io.name(), "io");
    assert_eq!(StoreError::Database.name(), "database");
    assert_eq!(WebError::Success.code(), 0);
    assert_eq!(WebError::InternalError { d: "x".to_string() }.code(), 100);
    assert_eq!(WebError::InvalidLogin.code(), 101);
    assert_eq!(WebError::InvalidRequest.code(), 102);
    assert_eq!(WebError::from_store_error(&StoreError::Validation).code(), 102);
    assert_eq!(WebError::from_store_error(&StoreError::Decode).code(), 102);
    assert_eq!(WebError::from_store_error(&StoreError::Io).code(), 100);
    assert_eq!(WebError::from_store_error(&StoreError::Database).code(), 100);
}

#[test]
fn schema_wire_codes_round_trip() {
    assert_eq!(ShiftTime::Morning.code(), 0);
    assert_eq!(ShiftTime::Afternoon.code(), 1);
    assert_eq!(ShiftTime::Night.code(), 2);
    for c in 0u8..3 {
        assert_eq!(ShiftTime::from_code(c).unwrap().code(), c);
    }
    assert!(ShiftTime::from_code(3).is_none());
    assert_eq!(Handedness::RightHanded.code(), 0);
    assert_eq!(Handedness::LeftHanded.code(), 1);
    assert_eq!(Handedness::Ambidextrous.code(), 2);
    for c in 0u8..3 {
        assert_eq!(Handedness::from_code(c).unwrap().code(), c);
    }
    assert!(Handedness::from_code(200).is_none());
}
