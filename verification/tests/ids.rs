use spout_core::ids::{GroupId, NodeId, ParseError, PostId, ProfileId, TopicId, UserId};
use uuid::Uuid;

#[test]
fn test_profile_id_creation() {
    let id1 = ProfileId::new();
    let id2 = ProfileId::new();
    assert_ne!(id1, id2);
}

#[test]
fn test_id_conversion() {
    let uuid = Uuid::now_v7();
    let profile_id = ProfileId::from_u128(uuid.as_u128());
    assert_eq!(profile_id.as_u128(), uuid.as_u128());
    assert_eq!(Uuid::from_u128(profile_id.as_u128()), uuid);
}

#[test]
fn test_id_string_conversion() {
    let id = GroupId::new();
    let s = id.to_string();
    let parsed = GroupId::parse_str(&s).unwrap();
    assert_eq!(id, parsed);
}

#[test]
fn test_type_safety() {
    let profile_id = ProfileId::new();
    let group_id = GroupId::new();

    let _same: ProfileId = profile_id;

    let value: u128 = profile_id.as_u128();
    let as_group: GroupId = GroupId::from_u128(value);
    assert_eq!(as_group.as_u128(), profile_id.as_u128());
    assert_ne!(as_group, group_id);
}

#[test]
fn to_string_is_the_hyphenated_lower_case_form() {
    let id = TopicId::from_u128(0x0191_8f3c_a1b2_7c3d_8e4f_0123_4567_89ab);
    assert_eq!(id.to_string(), "01918f3c-a1b2-7c3d-8e4f-0123456789ab");
    assert_eq!(PostId::from_u128(0).to_string(), "00000000-0000-0000-0000-000000000000");
    assert_eq!(
        UserId::from_u128(u128::MAX).to_string(),
        "ffffffff-ffff-ffff-ffff-ffffffffffff"
    );
}

#[test]
fn parse_str_reads_every_form_of_a_uuid() {
    let want = PostId::from_u128(0x550e8400_e29b_41d4_a716_446655440000);
    assert_eq!(PostId::parse_str("550e8400-e29b-41d4-a716-446655440000"), Ok(want));
    assert_eq!(PostId::parse_str("550e8400e29b41d4a716446655440000"), Ok(want));
    assert_eq!(PostId::parse_str("{550e8400-e29b-41d4-a716-446655440000}"), Ok(want));
    assert_eq!(
        PostId::parse_str("urn:uuid:550E8400-E29B-41D4-A716-446655440000"),
        Ok(want)
    );
}

#[test]
fn parse_str_refuses_what_is_no_uuid() {
    assert_eq!(ProfileId::parse_str(""), Err(ParseError));
    assert_eq!(ProfileId::parse_str("not-a-uuid"), Err(ParseError));
    assert_eq!(
        ProfileId::parse_str("550e8400-e29b-41d4-a716-44665544000"),
        Err(ParseError)
    );
    assert_eq!(
        ProfileId::parse_str("550e8400-e29b-41d4-a716-44665544000g"),
        Err(ParseError)
    );
}

#[test]
fn fresh_ids_are_version_seven() {
    let value = UserId::new().as_u128();
    assert_eq!((value >> 76) & 0xf, 7);
    assert_eq!((value >> 62) & 0x3, 2);
}

#[test]
fn fresh_ids_rise_with_time() {
    let first = PostId::new();
    let second = PostId::new();
    assert!(first < second);
}

#[test]
fn node_id_from_slice_wants_thirty_two_bytes() {
    let bytes: Vec<u8> = (0u8..32).collect();
    let id = NodeId::from_slice(&bytes).unwrap();
    assert_eq!(id.as_bytes().to_vec(), bytes);
    assert_eq!(NodeId::from_slice(&bytes[..31]), None);
    let longer: Vec<u8> = (0u8..33).collect();
    assert_eq!(NodeId::from_slice(&longer), None);
    assert_eq!(NodeId::from_slice(&[]), None);
}

#[test]
fn node_ids_compare_byte_by_byte() {
    let a = NodeId::from_bytes([7u8; 32]);
    let mut other = [7u8; 32];
    other[31] = 8;
    let b = NodeId::from_bytes(other);
    assert!(a.same(&a));
    assert!(!a.same(&b));
    assert_eq!(a, NodeId::from_bytes([7u8; 32]));
}
