use tranquil::custom_id::{
    custom_id_decode, custom_id_encode, custom_id_for, parse_custom_id, CustomId,
    CustomIdAssignment, CustomIdError,
};

#[test]
fn uuid_text_is_thirty_two_lowercase_hex_digits() {
    assert_eq!(custom_id_for(0x1234, &[]), "00000000000000000000000000001234 ");
    assert_eq!(
        custom_id_for(0x0123456789abcdef0123456789ABCDEF, &[]),
        "0123456789abcdef0123456789abcdef "
    );
}

#[test]
fn fresh_uuids_are_version_four() {
    let id = CustomId::new().value();
    assert_eq!((id >> 76) & 0xf, 4);
    assert_eq!((id >> 62) & 0x3, 2);
    assert_ne!(id, 0);
}

#[test]
fn state_encoding_round_trips_and_holds_no_space() {
    let state: Vec<u8> = vec![0, 1, 2, 255, 32, 32, 7];
    let text = custom_id_encode(&state);
    assert!(!text.contains(' '));
    assert_ne!(text.as_bytes(), &state[..]);
    assert_eq!(custom_id_decode(&text), state);
    assert_eq!(custom_id_encode(&[]), "");
    assert_eq!(custom_id_decode(""), Vec::<u8>::new());
}

#[test]
fn custom_id_gives_back_its_uuid_and_state() {
    let id: u128 = 0x0011_2233_4455_6677_8899_aabb_ccdd_eeff;
    let state: Vec<u8> = b"hello world".to_vec();
    let custom_id = custom_id_for(id, &state);
    assert!(custom_id.starts_with("00112233445566778899aabbccddeeff "));
    let (parsed_id, parsed_state) = parse_custom_id(&custom_id).unwrap();
    assert_eq!(parsed_id, id);
    assert_eq!(custom_id_decode(&parsed_state), state);
}

#[test]
fn custom_id_without_space_is_invalid() {
    assert_eq!(
        parse_custom_id("nospace"),
        Err(CustomIdError::Invalid { custom_id: "nospace".to_string() })
    );
}

#[test]
fn custom_id_with_bad_uuid_is_invalid() {
    assert_eq!(
        parse_custom_id("zz abc"),
        Err(CustomIdError::InvalidUuid { uuid: "zz".to_string() })
    );
}

#[test]
fn custom_ids_are_never_nil() {
    assert!(CustomId::from_value(0).is_none());
    assert_eq!(CustomId::from_value(5).unwrap().value(), 5);
    assert_ne!(CustomId::new().value(), 0);
    let fixed = CustomId::from_value(42).unwrap();
    assert_eq!(CustomIdAssignment::Fixed(fixed).get().value(), 42);
    assert_ne!(CustomIdAssignment::OnStart.get().value(), 0);
}
