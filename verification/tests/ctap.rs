use sanzu::cbor::{decode_map, CborMap, CborValue};
use sanzu::ctap::{
    advertise, advertise_local_pin_broker, ctap_error, ctap_success, encode_client_pin,
    get_assertion_tests_presence, make_credential_rp_id, map_bytes, map_of, map_text, map_u8,
    map_value, require_protocol_one, successful_map, with_first,
};
use sanzu::error::FidoError;

#[test]
fn get_info_hides_remote_pin_and_advertises_local_uv() {
    let mut options = CborMap::new();
    options.insert_text("clientPin", CborValue::Bool(true));
    options.insert_text("uv", CborValue::Bool(false));
    let mut payload = ctap_success(map_of(vec![(4, CborValue::Table(options))])).unwrap();
    advertise_local_pin_broker(&mut payload).unwrap();
    let info = successful_map(&payload).unwrap();
    let Some(options) = map_value(&info, 4).unwrap().as_map() else {
        panic!("options should be a map");
    };
    assert!(options.get_text("clientPin").is_none());
    assert_eq!(options.get_text("uv").unwrap().as_bool(), Some(true));
    assert_eq!(
        options.get_text("pinUvAuthToken").unwrap().as_bool(),
        Some(true)
    );
}

#[test]
fn keeps_token_for_silent_get_assertion_only() {
    let mut options = CborMap::new();
    options.insert_text("up", CborValue::Bool(false));
    let silent = map_of(vec![(5, CborValue::Table(options))]);
    assert!(!get_assertion_tests_presence(&silent).unwrap());
    assert!(get_assertion_tests_presence(&CborMap::new()).unwrap());
}

#[test]
fn presence_option_has_to_be_boolean() {
    let mut options = CborMap::new();
    options.insert_text("up", CborValue::Integer(0));
    assert_eq!(
        get_assertion_tests_presence(&map_of(vec![(5, CborValue::Table(options))])),
        Err(FidoError::PresenceNotBoolean)
    );
    assert_eq!(
        get_assertion_tests_presence(&map_of(vec![(5, CborValue::Integer(1))])),
        Err(FidoError::AssertionOptionsNotAMap)
    );
    assert_eq!(
        get_assertion_tests_presence(&map_of(vec![(5, CborValue::Table(CborMap::new()))])),
        Ok(true)
    );
}

#[test]
fn announcing_the_broker_keeps_the_rest() {
    let mut options = CborMap::new();
    options.insert_text("rk", CborValue::Bool(true));
    let info = map_of(vec![
        (1, CborValue::Text("FIDO_2_0".to_owned())),
        (4, CborValue::Table(options)),
        (6, CborValue::Array(vec![CborValue::Integer(2)])),
    ]);
    let info = advertise(advertise(info).unwrap()).unwrap();
    assert_eq!(map_text(&info, 1), Ok("FIDO_2_0"));
    let options = map_value(&info, 4).unwrap().as_map().unwrap();
    assert_eq!(options.get_text("rk").unwrap().as_bool(), Some(true));
    let payload = ctap_success(map_of(vec![])).unwrap();
    assert_eq!(payload, [0x00, 0xa0]);
    let mut payload = payload;
    advertise_local_pin_broker(&mut payload).unwrap();
    assert_eq!(payload[..3], [0x00, 0xa2, 0x04]);
    assert_eq!(payload[payload.len() - 3..], [0x06, 0x81, 0x01]);
}

#[test]
fn failed_get_info_is_left_alone() {
    let mut payload = vec![0x01];
    assert_eq!(advertise_local_pin_broker(&mut payload), Ok(()));
    assert_eq!(payload, [0x01]);
    let mut payload = vec![];
    assert_eq!(advertise_local_pin_broker(&mut payload), Ok(()));
    assert!(payload.is_empty());
    let mut payload = vec![0x00, 0xff];
    assert_eq!(
        advertise_local_pin_broker(&mut payload),
        Err(FidoError::InvalidCbor)
    );
    assert_eq!(payload, [0x00, 0xff]);
    let mut payload = ctap_success(map_of(vec![(4, CborValue::Integer(1))])).unwrap();
    let before = payload.clone();
    assert_eq!(
        advertise_local_pin_broker(&mut payload),
        Err(FidoError::InfoOptionsNotAMap)
    );
    assert_eq!(payload, before);
}

#[test]
fn fields_are_read_by_kind() {
    let map = map_of(vec![
        (1, CborValue::Integer(255)),
        (2, CborValue::Integer(256)),
        (3, CborValue::Integer(-1)),
        (4, CborValue::Bytes(vec![1, 2])),
        (5, CborValue::Text("x".to_owned())),
        (1, CborValue::Integer(7)),
    ]);
    assert_eq!(map_u8(&map, 1), Ok(7));
    assert_eq!(map_u8(&map, 2), Err(FidoError::NotUnsignedByte(2)));
    assert_eq!(map_u8(&map, 3), Err(FidoError::NotUnsignedByte(3)));
    assert_eq!(map_u8(&map, 4), Err(FidoError::NotInteger(4)));
    assert_eq!(map_u8(&map, 9), Err(FidoError::MissingKey(9)));
    assert_eq!(map_bytes(&map, 4), Ok(&[1u8, 2][..]));
    assert_eq!(map_bytes(&map, 5), Err(FidoError::NotBytes(5)));
    assert_eq!(map_text(&map, 5), Ok("x"));
    assert_eq!(map_text(&map, 4), Err(FidoError::NotText(4)));
}

#[test]
fn only_the_first_protocol_is_supported() {
    assert_eq!(
        require_protocol_one(&map_of(vec![(1, CborValue::Integer(1))])),
        Ok(())
    );
    assert_eq!(
        require_protocol_one(&map_of(vec![(1, CborValue::Integer(2))])),
        Err(FidoError::UnsupportedProtocol)
    );
    assert_eq!(
        require_protocol_one(&map_of(vec![])),
        Err(FidoError::MissingKey(1))
    );
}

#[test]
fn responses_start_with_a_status() {
    assert_eq!(ctap_error(0x27), [0x27]);
    assert_eq!(
        successful_map(&[]).err(),
        Some(FidoError::EmptyResponse)
    );
    assert_eq!(
        successful_map(&[0x31]).err(),
        Some(FidoError::Rejected(0x31))
    );
    assert_eq!(
        encode_client_pin(map_of(vec![(1, CborValue::Integer(1))])).unwrap(),
        [0x06, 0xa1, 0x01, 0x01]
    );
    assert!(successful_map(&[0x00, 0xa0]).is_ok());
}

#[test]
fn relying_party_id_is_read() {
    let request = [
        0xa1, 0x02, 0xa1, 0x62, 0x69, 0x64, 0x63, 0x61, 0x62, 0x63,
    ];
    let map = decode_map(&request).unwrap();
    assert_eq!(make_credential_rp_id(&map), Ok("abc".to_owned()));
    assert_eq!(
        make_credential_rp_id(&map_of(vec![(2, CborValue::Integer(1))])),
        Err(FidoError::RelyingPartyNotAMap)
    );
    assert_eq!(
        make_credential_rp_id(&map_of(vec![(2, CborValue::Table(CborMap::new()))])),
        Err(FidoError::RelyingPartyWithoutId)
    );
    assert_eq!(
        make_credential_rp_id(&CborMap::new()),
        Err(FidoError::MissingKey(2))
    );
}

#[test]
fn a_leading_byte_is_put_in_front() {
    assert_eq!(with_first(6, vec![]), [6]);
    assert_eq!(with_first(6, vec![1, 2]), [6, 1, 2]);
}

#[test]
fn announcing_keeps_what_is_not_looked_into() {
    // { 1: null, 2: 1.5, 5: [-0.0, NaN], [7]: {"a": 1}, 0.5: h'01' }
    let mut payload = vec![
        0x00, 0xa5, 0x01, 0xf6, 0x02, 0xf9, 0x3e, 0x00, 0x05, 0x82, 0xf9, 0x80, 0x00, 0xf9, 0x7e,
        0x00, 0x81, 0x07, 0xa1, 0x61, 0x61, 0x01, 0xf9, 0x38, 0x00, 0x41, 0x01,
    ];
    let parts: [&[u8]; 5] = [
        &[0x01, 0xf6],
        &[0x02, 0xf9, 0x3e, 0x00],
        &[0x05, 0x82, 0xf9, 0x80, 0x00, 0xf9, 0x7e, 0x00],
        &[0x81, 0x07, 0xa1, 0x61, 0x61, 0x01],
        &[0xf9, 0x38, 0x00, 0x41, 0x01],
    ];
    advertise_local_pin_broker(&mut payload).unwrap();
    assert_eq!(payload[..2], [0x00, 0xa7]);
    for part in parts {
        assert!(payload.windows(part.len()).any(|window| window == part));
    }
    let info = successful_map(&payload).unwrap();
    assert!(map_value(&info, 4).unwrap().as_map().is_some());
    let once = payload.clone();
    advertise_local_pin_broker(&mut payload).unwrap();
    assert_eq!(payload, once);
}
