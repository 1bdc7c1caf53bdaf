use sanzu::cbor::CborValue;
use sanzu::crypto::{
    aes_cbc_decrypt, aes_cbc_encrypt, cose_public_key, first_half, hmac_16, parse_cose_public,
    pin_hash, proof_outcome, shared_secret, verify_hmac, SecretKey,
};
use sanzu::ctap::{map_bytes, map_of, map_u8};
use sanzu::error::FidoError;

fn bytes(hex: &str) -> Vec<u8> {
    (0..hex.len())
        .step_by(2)
        .map(|at| u8::from_str_radix(&hex[at..at + 2], 16).unwrap())
        .collect()
}

#[test]
fn pin_protocol_crypto_round_trips() {
    let first = SecretKey::random();
    let second = SecretKey::random();
    let first_shared = shared_secret(&first, &second.public_key());
    let second_shared = shared_secret(&second, &first.public_key());
    assert_eq!(first_shared.as_slice(), second_shared.as_slice());

    let plaintext = [0x42; 32];
    let encrypted = aes_cbc_encrypt(first_shared.as_slice(), &plaintext).unwrap();
    assert_ne!(encrypted, plaintext);
    assert_eq!(
        aes_cbc_decrypt(second_shared.as_slice(), &encrypted).unwrap(),
        plaintext
    );

    let proof = hmac_16(first_shared.as_slice(), b"client-data").unwrap();
    assert!(verify_hmac(second_shared.as_slice(), b"client-data", &proof).is_ok());
    assert!(verify_hmac(second_shared.as_slice(), b"other-data", &proof).is_err());
}

#[test]
fn different_secrets_agree_on_different_keys() {
    let first = SecretKey::random();
    let second = SecretKey::random();
    let third = SecretKey::random();
    assert_ne!(
        shared_secret(&first, &second.public_key()).as_slice(),
        shared_secret(&first, &third.public_key()).as_slice()
    );
}

#[test]
fn aes_matches_the_standard_vector() {
    let key = bytes("603deb1015ca71be2b73aef0857d77811f352c073b6108d72d9810a30914dff4");
    let plaintext = bytes("6bc1bee22e409f96e93d7e117393172a");
    let ciphertext = bytes("f3eed1bdb5d2a03c064b5a7e3db181f8");
    assert_eq!(aes_cbc_encrypt(&key, &plaintext).unwrap(), ciphertext);
    assert_eq!(aes_cbc_decrypt(&key, &ciphertext).unwrap(), plaintext);
}

#[test]
fn only_whole_blocks_and_full_keys_are_taken() {
    assert_eq!(aes_cbc_encrypt(&[0; 32], &[]), Err(FidoError::Unaligned));
    assert_eq!(
        aes_cbc_encrypt(&[0; 32], &[0; 15]),
        Err(FidoError::Unaligned)
    );
    assert_eq!(aes_cbc_encrypt(&[0; 16], &[0; 16]), Err(FidoError::KeySize));
    assert_eq!(aes_cbc_decrypt(&[0; 32], &[]), Err(FidoError::Unaligned));
    assert_eq!(
        aes_cbc_decrypt(&[0; 32], &[0; 17]),
        Err(FidoError::Unaligned)
    );
    assert_eq!(aes_cbc_decrypt(&[0; 31], &[0; 16]), Err(FidoError::KeySize));
}

#[test]
fn hmac_matches_the_standard_vector() {
    assert_eq!(
        hmac_16(b"Jefe", b"what do ya want for nothing?").unwrap(),
        bytes("5bdcc146bf60754e6a042426089575c7")
    );
}

#[test]
fn proofs_of_the_wrong_size_or_message_are_refused() {
    let proof = hmac_16(&[7; 32], b"hash").unwrap();
    assert_eq!(verify_hmac(&[7; 32], b"hash", &proof), Ok(()));
    assert_eq!(
        verify_hmac(&[7; 32], b"hash", &proof[..15]),
        Err(FidoError::ProofSize)
    );
    assert_eq!(
        verify_hmac(&[8; 32], b"hash", &proof),
        Err(FidoError::ProofMismatch)
    );
}

#[test]
fn pin_hash_is_half_a_digest() {
    assert_eq!(
        pin_hash("1234").as_slice(),
        bytes("03ac674216f3e15c761ee1a5e255f067")
    );
}

#[test]
fn cose_keys_round_trip() {
    let secret = SecretKey::random();
    let public = secret.public_key();
    let value = cose_public_key(&public);
    let map = value.as_map().unwrap();
    assert_eq!(map_u8(map, 1), Ok(2));
    assert_eq!(map.get(3).unwrap().as_integer(), Some(-25));
    assert_eq!(map_u8(map, -1), Ok(1));
    assert_eq!(map_bytes(map, -2).unwrap().len(), 32);
    let parsed = parse_cose_public(&value).unwrap();
    let other = SecretKey::random();
    assert_eq!(
        shared_secret(&other, &parsed).as_slice(),
        shared_secret(&secret, &other.public_key()).as_slice()
    );
}

fn key(kind: i128, curve: i128, x: Vec<u8>, y: Vec<u8>) -> CborValue {
    CborValue::Table(map_of(vec![
        (1, CborValue::Integer(kind)),
        (-1, CborValue::Integer(curve)),
        (-2, CborValue::Bytes(x)),
        (-3, CborValue::Bytes(y)),
    ]))
}

#[test]
fn only_points_on_the_curve_are_keys() {
    let x = bytes("6b17d1f2e12c4247f8bce6e563a440f277037d812deb33a0f4a13945d898c296");
    let y = bytes("4fe342e2fe1a7f9b8ee7eb4a7c0f9e162bce33576b315ececbb6406837bf51f5");
    assert!(parse_cose_public(&key(2, 1, x.clone(), y.clone())).is_ok());
    let mut off = y.clone();
    off[31] ^= 1;
    assert_eq!(
        parse_cose_public(&key(2, 1, x.clone(), off)).err(),
        Some(FidoError::NotOnCurve)
    );
    assert_eq!(
        parse_cose_public(&key(1, 1, x.clone(), y.clone())).err(),
        Some(FidoError::NotP256Key)
    );
    assert_eq!(
        parse_cose_public(&key(2, 2, x.clone(), y.clone())).err(),
        Some(FidoError::NotP256Key)
    );
    assert_eq!(
        parse_cose_public(&key(2, 1, x[1..].to_vec(), y.clone())).err(),
        Some(FidoError::CoordinateSize)
    );
    assert_eq!(
        parse_cose_public(&CborValue::Integer(1)).err(),
        Some(FidoError::KeyAgreementNotAMap)
    );
    assert_eq!(
        parse_cose_public(&CborValue::Table(map_of(vec![]))).err(),
        Some(FidoError::MissingKey(1))
    );
}

#[test]
fn proofs_are_judged_by_length_and_then_by_content() {
    let whole: Vec<u8> = (0..32).collect();
    assert_eq!(first_half(&whole), whole[..16]);
    assert_eq!(proof_outcome(16, true), Ok(()));
    assert_eq!(proof_outcome(16, false), Err(FidoError::ProofMismatch));
    assert_eq!(proof_outcome(32, true), Err(FidoError::ProofSize));
}
