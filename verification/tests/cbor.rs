use sanzu::cbor::{decode_map, encode_map, expect_map, CborMap, CborValue};
use sanzu::error::FidoError;

#[test]
fn maps_are_written_in_canonical_order() {
    let mut map = CborMap::new();
    map.insert_text("b", CborValue::Bool(true));
    map.insert(-1, CborValue::Bytes(vec![0xff]));
    map.insert(2, CborValue::Integer(-25));
    map.insert(1, CborValue::Array(vec![CborValue::Integer(1)]));
    let bytes = encode_map(map).unwrap();
    assert_eq!(
        bytes,
        [0xa4, 0x01, 0x81, 0x01, 0x02, 0x38, 0x18, 0x20, 0x41, 0xff, 0x61, 0x62, 0xf5]
    );
}

#[test]
fn maps_read_back() {
    let mut inner = CborMap::new();
    inner.insert_text("id", CborValue::Text("example.org".to_owned()));
    let mut map = CborMap::new();
    map.insert(2, CborValue::Table(inner));
    map.insert(3, CborValue::Integer(1 << 40));
    let map = decode_map(&encode_map(map).unwrap()).unwrap();
    assert_eq!(map.get(3).unwrap().as_integer(), Some(1 << 40));
    let inner = map.get(2).unwrap().as_map().unwrap();
    assert_eq!(
        inner.get_text("id").unwrap().as_text(),
        Some("example.org")
    );
    assert!(inner.get_text("name").is_none());
    assert!(map.get(4).is_none());
}

#[test]
fn unknown_kinds_are_carried_through() {
    // {1: null, 2: 1.5, false: [1.0]}
    let bytes = [
        0xa3, 0x01, 0xf6, 0x02, 0xf9, 0x3e, 0x00, 0xf4, 0x81, 0xf9, 0x3c, 0x00,
    ];
    let map = decode_map(&bytes).unwrap();
    assert!(map.get(1).unwrap().as_bool().is_none());
    assert!(map.get(2).unwrap().as_integer().is_none());
    let mut again = decode_map(&encode_map(map).unwrap()).unwrap();
    assert!(again.remove(1).is_some());
    assert!(again.remove(1).is_none());
    assert!(again.get(2).is_some());
}

#[test]
fn entries_are_replaced_and_removed() {
    let mut map = CborMap::new();
    map.insert(1, CborValue::Integer(1));
    map.insert(1, CborValue::Integer(2));
    assert_eq!(map.get(1).unwrap().as_integer(), Some(2));
    map.insert_text("a", CborValue::Bool(false));
    assert_eq!(map.remove_text("a").unwrap().as_bool(), Some(false));
    assert!(map.remove_text("a").is_none());
    assert_eq!(encode_map(map).unwrap(), [0xa1, 0x01, 0x02]);
}

#[test]
fn malformed_cbor_is_refused() {
    assert_eq!(decode_map(&[]).err(), Some(FidoError::InvalidCbor));
    assert_eq!(decode_map(&[0xa1, 0x01]).err(), Some(FidoError::InvalidCbor));
    assert_eq!(
        decode_map(&[0xa0, 0x00]).err(),
        Some(FidoError::InvalidCbor)
    );
    assert_eq!(decode_map(&[0x01]).err(), Some(FidoError::NotAMap));
    assert_eq!(
        expect_map(CborValue::Bool(true)).err(),
        Some(FidoError::NotAMap)
    );
}

#[test]
fn integers_beyond_cbor_are_refused() {
    let mut map = CborMap::new();
    map.insert(
        1,
        CborValue::Array(vec![CborValue::Integer(1 << 64)]),
    );
    assert_eq!(encode_map(map).err(), Some(FidoError::IntegerOutOfRange));
    let mut map = CborMap::new();
    map.insert(-(1 << 64) - 1, CborValue::Integer(0));
    assert_eq!(encode_map(map).err(), Some(FidoError::IntegerOutOfRange));
    let mut map = CborMap::new();
    map.insert(-(1 << 64), CborValue::Integer((1 << 64) - 1));
    assert!(encode_map(map).is_ok());
}

#[test]
fn maps_are_read_back_up_to_the_depth_that_is_read() {
    let nested = |depth: usize| {
        let mut bytes = vec![0xa1, 0x01];
        bytes.extend(vec![0x81; depth - 1]);
        bytes.push(0xf6);
        bytes
    };
    let deepest = nested(127);
    assert_eq!(encode_map(decode_map(&deepest).unwrap()), Ok(deepest));
    assert_eq!(decode_map(&nested(128)).err(), Some(FidoError::InvalidCbor));
}
