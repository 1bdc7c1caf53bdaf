use sanzu::cbor::{CborMap, CborValue};
use sanzu::crypto::{cose_public_key, hmac_16, shared_secret, Hidden, SecretKey};
use sanzu::ctap::{encode_client_pin, map_bytes, map_of, map_text};
use sanzu::error::FidoError;
use sanzu::pin::{
    check_scope, end_session, expire_session, read_ask, read_claim, read_client_pin, read_grant,
    translate_map, translate_pin_proof, ClientPinAsk, PinSession, PIN_TOKEN_LIFETIME,
};

fn session(now: u64) -> Option<PinSession> {
    Some(PinSession::new(
        Hidden::new(vec![1; 32]),
        Hidden::new(vec![2; 32]),
        2,
        "example.org".to_owned(),
        now,
    ))
}

fn assertion(entries: Vec<(i128, CborValue)>) -> Vec<u8> {
    let mut payload = encode_client_pin(map_of(entries)).unwrap();
    payload[0] = 2;
    payload
}

fn proven(protocol: i128, proof: Vec<u8>) -> Vec<u8> {
    assertion(vec![
        (1, CborValue::Text("example.org".to_owned())),
        (2, CborValue::Bytes(vec![3; 32])),
        (6, CborValue::Bytes(proof)),
        (7, CborValue::Integer(protocol)),
    ])
}

fn refusal(now: u64, mut payload: Vec<u8>) -> FidoError {
    let before = payload.clone();
    let mut session = session(0);
    let error = translate_pin_proof(&mut session, now, &mut payload).unwrap_err();
    assert_eq!(payload, before);
    error
}

#[test]
fn refused_proofs_say_why() {
    let proof = hmac_16(&[1; 32], &[3; 32]).unwrap();
    assert_eq!(refusal(0, vec![2, 0xff]), FidoError::InvalidCbor);
    assert_eq!(refusal(0, vec![3, 0xa0]), FidoError::UnsupportedCommand);
    assert_eq!(
        refusal(PIN_TOKEN_LIFETIME, proven(1, proof.clone())),
        FidoError::NoPinSession
    );
    assert_eq!(
        refusal(0, proven(2, proof.clone())),
        FidoError::UnsupportedProtocol
    );
    assert_eq!(refusal(0, proven(1, vec![0; 16])), FidoError::ProofMismatch);
    assert_eq!(refusal(0, proven(1, vec![0; 32])), FidoError::ProofSize);
    let other = assertion(vec![
        (1, CborValue::Text("other.org".to_owned())),
        (6, CborValue::Bytes(proof.clone())),
    ]);
    assert_eq!(refusal(0, other), FidoError::TokenScope);
    let silent = assertion(vec![(5, CborValue::Integer(0)), (6, CborValue::Integer(0))]);
    assert_eq!(refusal(0, silent), FidoError::AssertionOptionsNotAMap);
}

#[test]
fn tokens_last_two_minutes() {
    let mut open = session(5);
    expire_session(&mut open, 4 + PIN_TOKEN_LIFETIME);
    assert!(open.is_some());
    expire_session(&mut open, 5 + PIN_TOKEN_LIFETIME);
    assert!(open.is_none());
    let mut open = session(u64::MAX);
    expire_session(&mut open, u64::MAX);
    assert!(open.is_some());
    end_session(&mut open);
    assert!(open.is_none());
}

#[test]
fn token_requests_are_read() {
    let secret = SecretKey::random();
    let remote = SecretKey::random();
    let key = || cose_public_key(&remote.public_key());
    let map = map_of(vec![
        (3, key()),
        (9, CborValue::Integer(3)),
        (10, CborValue::Text("rp".to_owned())),
    ]);
    let grant = read_grant(&secret, &map).unwrap();
    assert_eq!(grant.permissions, 3);
    assert_eq!(grant.rp_id, "rp");
    assert_eq!(
        grant.remote_secret.as_slice(),
        shared_secret(&remote, &secret.public_key()).as_slice()
    );
    let refused = |permissions| {
        read_grant(
            &secret,
            &map_of(vec![(9, CborValue::Integer(permissions))]),
        )
        .err()
    };
    for permissions in [0, 4, 7, 0x80] {
        assert_eq!(refused(permissions), Some(FidoError::UnsupportedPermissions));
    }
    assert_eq!(refused(1), Some(FidoError::MissingKey(10)));
    assert_eq!(refused(256), Some(FidoError::NotUnsignedByte(9)));
}

#[test]
fn subcommands_are_told_apart() {
    let secret = SecretKey::random();
    let ask = |subcommand| {
        let payload = encode_client_pin(map_of(vec![
            (1, CborValue::Integer(1)),
            (2, CborValue::Integer(subcommand)),
        ]))
        .unwrap();
        read_client_pin(&secret, &payload[1..])
    };
    assert!(matches!(ask(2), Ok(ClientPinAsk::KeyAgreement)));
    assert!(matches!(ask(5), Ok(ClientPinAsk::Unknown)));
    assert!(matches!(ask(6), Err(FidoError::MissingKey(9))));
}

fn silent_request(proof: Vec<u8>) -> CborMap {
    let mut options = CborMap::new();
    options.insert_text("up", CborValue::Bool(false));
    map_of(vec![
        (1, CborValue::Text("example.org".to_owned())),
        (2, CborValue::Bytes(vec![3; 32])),
        (5, CborValue::Table(options)),
        (6, CborValue::Bytes(proof)),
        (7, CborValue::Integer(1)),
    ])
}

#[test]
fn requests_say_what_they_need_of_a_token() {
    let needs = read_claim(2, &silent_request(vec![])).unwrap();
    assert!(!needs.consumes);
    assert_eq!(needs.permission, 2);
    assert_eq!((needs.hash_key, needs.protocol_key), (2, 7));
    assert_eq!(needs.rp_id, "example.org");

    let mut rp = CborMap::new();
    rp.insert_text("id", CborValue::Text("rp".to_owned()));
    let needs = read_claim(1, &map_of(vec![(2, CborValue::Table(rp))])).unwrap();
    assert!(needs.consumes);
    assert_eq!(needs.permission, 1);
    assert_eq!((needs.hash_key, needs.protocol_key), (1, 9));
    assert_eq!(needs.rp_id, "rp");
}

#[test]
fn the_scope_of_a_token_is_checked_apart_from_the_proof() {
    let open = session(0).unwrap();
    let map = silent_request(vec![9; 5]);
    let mut needs = read_claim(2, &map).unwrap();
    assert_eq!(
        check_scope(&open, &needs, 6, &map),
        Ok((&[3; 32][..], &[9; 5][..]))
    );
    assert_eq!(
        check_scope(&open, &needs, 8, &map),
        Err(FidoError::MissingKey(8))
    );
    needs.permission = 1;
    assert_eq!(check_scope(&open, &needs, 6, &map), Err(FidoError::TokenScope));
    needs.permission = 2;
    needs.rp_id = "example.com".to_owned();
    assert_eq!(check_scope(&open, &needs, 6, &map), Err(FidoError::TokenScope));
}

#[test]
fn a_silent_assertion_is_translated_and_keeps_the_token() {
    let mut open = session(0);
    let proof = hmac_16(&[1; 32], &[3; 32]).unwrap();
    let forwarded = translate_map(&mut open, 1, 2, silent_request(proof))
        .unwrap()
        .unwrap();
    assert!(open.is_some());
    assert_eq!(
        map_bytes(&forwarded, 6),
        Ok(&hmac_16(&[2; 32], &[3; 32]).unwrap()[..])
    );
    assert_eq!(map_text(&forwarded, 1), Ok("example.org"));

    let bare = map_of(vec![(1, CborValue::Integer(0))]);
    assert!(matches!(translate_map(&mut None, 1, 2, bare), Ok(None)));
    let error = translate_map(&mut open, 1, 2, silent_request(vec![0; 16])).err();
    assert_eq!(error, Some(FidoError::ProofMismatch));
    assert!(open.is_some());
}

#[test]
fn asks_need_the_first_protocol() {
    let secret = SecretKey::random();
    let ask = |protocol| {
        read_ask(
            &secret,
            &map_of(vec![
                (1, CborValue::Integer(protocol)),
                (2, CborValue::Integer(2)),
            ]),
        )
    };
    assert!(matches!(ask(1), Ok(ClientPinAsk::KeyAgreement)));
    assert!(matches!(ask(2), Err(FidoError::UnsupportedProtocol)));
}
