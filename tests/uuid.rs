use rode::uuid::{
    generate_uuid_v1, generate_uuid_v4, generate_uuid_v7, get_uuid_version, parse_uuid,
    uuid_v1_from_nanos, uuid_v4_from_seed, uuid_v7_from_millis, validate_uuid,
};

#[test]
fn validates_canonical_layout() {
    assert!(validate_uuid("123e4567-e89b-12d3-a456-426614174000"));
    assert!(validate_uuid("00000000-0000-0000-0000-000000000000"));
    assert!(!validate_uuid("123e4567e89b-12d3-a456-426614174000-"));
    assert!(!validate_uuid("123e4567-e89b-12d3-a456-42661417400"));
    assert!(!validate_uuid("123e4567-e89b-12d3-a456-42661417400g"));
    assert!(!validate_uuid(""));
}

#[test]
fn parse_normalizes_to_upper_case() {
    assert_eq!(
        parse_uuid("123e4567-e89b-12d3-a456-426614174000"),
        Ok("123E4567-E89B-12D3-A456-426614174000".to_string())
    );
    assert_eq!(parse_uuid("not-a-uuid"), Err("Invalid UUID format".to_string()));
}

#[test]
fn version_is_the_fifteenth_character() {
    assert_eq!(get_uuid_version("123e4567-e89b-12d3-a456-426614174000"), Ok(1));
    assert_eq!(get_uuid_version("123e4567-e89b-f2d3-a456-426614174000"), Ok(15));
    assert_eq!(get_uuid_version("123e4567-e89b-12d3"), Err("Invalid UUID format".to_string()));
}

#[test]
fn seeded_generation_is_exact() {
    assert_eq!(uuid_v4_from_seed(0), "391604d6-4eff-40a4-b177-e5694d5a8f81");
    assert_eq!(uuid_v4_from_seed(123456789), "2ad6c832-f1d0-4f15-82ed-7e4bab73262d");
    assert_eq!(uuid_v1_from_nanos(1700000000123456789), "04c29687-833b-11ee-8d15-0123456789ab");
    assert_eq!(uuid_v7_from_millis(1700000000123), "018bcfe5-687b-7698-b1d6-57442d62f3b0");
}

#[test]
fn generated_uuids_validate_with_their_version() {
    let a = generate_uuid_v4();
    assert!(validate_uuid(&a));
    assert_eq!(get_uuid_version(&a), Ok(4));
    let b = generate_uuid_v1();
    assert!(validate_uuid(&b));
    assert_eq!(get_uuid_version(&b), Ok(1));
    let c = generate_uuid_v7();
    assert!(validate_uuid(&c));
    assert_eq!(get_uuid_version(&c), Ok(7));
}
