//! The first PIN/UV protocol: P-256 key agreement, AES-256-CBC with a zero
//! initialisation vector, and truncated HMAC-SHA-256.
//!
//! The primitives come from `p256`, `sha2`, `aes`, `cbc`, `hmac` and `rand_core`. What
//! they compute has a name here, and the names carry the few laws that the protocol
//! rests on: both ends agree on a secret, and decryption undoes encryption.

use vstd::array::array_as_slice;
use vstd::prelude::*;
use vstd::slice::slice_to_vec;
use vstd::utf8::encode_utf8;

use crate::cbor::{in_range, integer_in_range, shallow, Cbor, CborKey, CborValue};
use crate::ctap::{bytes_at, leads, map_bytes, map_of, map_u8, table_of, u8_at};
use crate::error::FidoError;
use crate::framing::copy_range;

verus! {

/// COSE label of the key type.
pub const COSE_KEY_TYPE: i128 = 1;

/// COSE label of the algorithm.
pub const COSE_ALGORITHM: i128 = 3;

/// COSE label of the curve.
pub const COSE_CURVE: i128 = -1;

/// COSE label of the x coordinate.
pub const COSE_X: i128 = -2;

/// COSE label of the y coordinate.
pub const COSE_Y: i128 = -3;

/// The COSE key type with two coordinates.
pub const COSE_EC2: u8 = 2;

/// The COSE algorithm of key agreement with HKDF-256.
pub const COSE_ECDH_ES_HKDF_256: i128 = -25;

/// The COSE curve P-256.
pub const COSE_P256: u8 = 1;

/// The unsigned integer that bytes write, most significant first.
pub open spec fn big_endian(bytes: Seq<u8>) -> int
    decreases bytes.len(),
{
    if bytes.len() == 0 {
        0
    } else {
        big_endian(bytes.drop_last()) * 0x100 + bytes.last()
    }
}

/// The prime of the field that P-256 is defined over.
pub open spec fn p256_modulus() -> int {
    0xffffffff00000001000000000000000000000000ffffffffffffffffffffffffint
}

/// The constant term of the P-256 equation.
pub open spec fn p256_constant() -> int {
    0x5ac635d8aa3a93e7b3ebbd55769886bc651d06b0cc53b0f63bce3c3e27d2604bint
}

/// The order of the P-256 group.
pub open spec fn p256_order() -> int {
    0xffffffff00000000ffffffffffffffffbce6faada7179e84f3b9cac2fc632551int
}

/// Thirty-two bytes that write a scalar from 1 to the order, exclusive.
pub open spec fn is_secret(bytes: Seq<u8>) -> bool {
    bytes.len() == 32 && 0 < big_endian(bytes) < p256_order()
}

/// An uncompressed point with the given tag and length.
pub open spec fn is_uncompressed(point: Seq<u8>) -> bool {
    point.len() == 65 && point[0] == 4
}

/// The coordinates of an uncompressed point are field elements that satisfy
/// `y^2 = x^3 - 3 x + b`.
pub open spec fn on_curve(point: Seq<u8>) -> bool {
    let x = big_endian(point.subrange(1, 33));
    let y = big_endian(point.subrange(33, 65));
    &&& x < p256_modulus()
    &&& y < p256_modulus()
    &&& (y * y - (x * x * x - 3 * x + p256_constant())) % p256_modulus() == 0
}

/// The uncompressed public point of a secret.
pub uninterp spec fn public_point_of(secret: Seq<u8>) -> Seq<u8>;

/// The x coordinate of the secret's multiple of the point.
pub uninterp spec fn agreed_coordinate(secret: Seq<u8>, point: Seq<u8>) -> Seq<u8>;

/// The SHA-256 digest.
pub uninterp spec fn sha256(bytes: Seq<u8>) -> Seq<u8>;

/// The AES-256-CBC encryption, without padding.
pub uninterp spec fn cbc_encrypted(key: Seq<u8>, iv: Seq<u8>, plaintext: Seq<u8>) -> Seq<u8>;

/// The AES-256-CBC decryption, without padding.
pub uninterp spec fn cbc_decrypted(key: Seq<u8>, iv: Seq<u8>, ciphertext: Seq<u8>) -> Seq<u8>;

/// The HMAC-SHA-256 tag.
pub uninterp spec fn hmac_sha256(key: Seq<u8>, message: Seq<u8>) -> Seq<u8>;

/// `p256::SecretKey::random` on the operating system's random generator: a scalar from
/// 1 to the order, exclusive. Nothing more is said of a random value.
#[verifier::external_body]
fn draw_secret() -> (secret: Vec<u8>)
    ensures
        is_secret(secret@),
{
    p256::SecretKey::random(&mut rand_core::OsRng).to_bytes().to_vec()
}

/// `p256::SecretKey::public_key`: the secret's multiple of the base point, which is a
/// point of the curve other than the point at infinity, written uncompressed.
#[verifier::external_body]
fn derive_point(secret: &[u8]) -> (point: Vec<u8>)
    requires
        is_secret(secret@),
    ensures
        point@ == public_point_of(secret@),
        is_uncompressed(point@),
        on_curve(point@),
{
    let key = p256::SecretKey::from_slice(secret).expect("a scalar in range");
    p256::elliptic_curve::sec1::ToEncodedPoint::to_encoded_point(&key.public_key(), false)
        .as_bytes()
        .to_vec()
}

/// `p256::PublicKey::from_sec1_bytes`: an uncompressed point is accepted exactly when it
/// lies on the curve.
#[verifier::external_body]
fn accepts_point(point: &[u8]) -> (accepted: bool)
    requires
        is_uncompressed(point@),
    ensures
        accepted == on_curve(point@),
{
    p256::PublicKey::from_sec1_bytes(point).is_ok()
}

/// `p256::ecdh::diffie_hellman`: the x coordinate of the secret's multiple of the point.
/// Where the point is the public point of another secret, that secret and the public
/// point of this one give the same.
#[verifier::external_body]
fn agree(secret: &[u8], point: &[u8]) -> (coordinate: Vec<u8>)
    requires
        is_secret(secret@),
        is_uncompressed(point@),
        on_curve(point@),
    ensures
        coordinate@ == agreed_coordinate(secret@, point@),
        coordinate@.len() == 32,
        forall|other: Seq<u8>|
            is_secret(other) && #[trigger] public_point_of(other) == point@ ==> coordinate@
                == agreed_coordinate(other, public_point_of(secret@)),
{
    let secret = p256::SecretKey::from_slice(secret).expect("a scalar in range");
    let point = p256::PublicKey::from_sec1_bytes(point).expect("a point of the curve");
    let shared = p256::ecdh::diffie_hellman(secret.to_nonzero_scalar(), point.as_affine());
    shared.raw_secret_bytes().to_vec()
}

/// `sha2::Sha256::digest`.
#[verifier::external_body]
fn digest(bytes: &[u8]) -> (digest: Vec<u8>)
    ensures
        digest@ == sha256(bytes@),
        digest@.len() == 32,
{
    <sha2::Sha256 as sha2::Digest>::digest(bytes).to_vec()
}

/// `cbc::Encryptor::<aes::Aes256>` without padding: with a whole initialisation vector it
/// exists exactly for keys of 32 bytes, keeps the length, and decryption under the same key
/// and vector gives the plaintext back.
#[verifier::external_body]
fn cbc_encrypt(key: &[u8], iv: &[u8], plaintext: &[u8]) -> (result: Option<Vec<u8>>)
    requires
        iv@.len() == 16,
        plaintext@.len() % 16 == 0,
    ensures
        match result {
            Some(ciphertext) => key@.len() == 32 && ciphertext@ == cbc_encrypted(
                key@,
                iv@,
                plaintext@,
            ) && ciphertext@.len() == plaintext@.len() && cbc_decrypted(key@, iv@, ciphertext@)
                == plaintext@,
            None => key@.len() != 32,
        },
{
    let cipher: cbc::Encryptor<aes::Aes256> =
        cbc::cipher::KeyIvInit::new_from_slices(key, iv).ok()?;
    let mut buffer = plaintext.to_vec();
    cbc::cipher::BlockEncryptMut::encrypt_padded_mut::<cbc::cipher::block_padding::NoPadding>(
        cipher,
        &mut buffer,
        plaintext.len(),
    ).ok()?;
    Some(buffer)
}

/// `cbc::Decryptor::<aes::Aes256>` without padding: with a whole initialisation vector it
/// exists exactly for keys of 32 bytes, keeps the length, and encryption under the same key
/// and vector gives the ciphertext back.
#[verifier::external_body]
fn cbc_decrypt(key: &[u8], iv: &[u8], ciphertext: &[u8]) -> (result: Option<Vec<u8>>)
    requires
        iv@.len() == 16,
        ciphertext@.len() % 16 == 0,
    ensures
        match result {
            Some(plaintext) => key@.len() == 32 && plaintext@ == cbc_decrypted(
                key@,
                iv@,
                ciphertext@,
            ) && plaintext@.len() == ciphertext@.len() && cbc_encrypted(key@, iv@, plaintext@)
                == ciphertext@,
            None => key@.len() != 32,
        },
{
    let cipher: cbc::Decryptor<aes::Aes256> =
        cbc::cipher::KeyIvInit::new_from_slices(key, iv).ok()?;
    let mut buffer = ciphertext.to_vec();
    cbc::cipher::BlockDecryptMut::decrypt_padded_mut::<cbc::cipher::block_padding::NoPadding>(
        cipher,
        &mut buffer,
    ).ok()?;
    Some(buffer)
}

/// `hmac::Hmac::<sha2::Sha256>`: keys of any length are taken, and the tag has 32 bytes.
#[verifier::external_body]
fn mac(key: &[u8], message: &[u8]) -> (tag: Vec<u8>)
    ensures
        tag@ == hmac_sha256(key@, message@),
        tag@.len() == 32,
{
    let mut mac = <hmac::Hmac<sha2::Sha256> as hmac::Mac>::new_from_slice(key).expect(
        "keys of any length",
    );
    hmac::Mac::update(&mut mac, message);
    hmac::Mac::finalize(mac).into_bytes().to_vec()
}

/// `hmac::Mac::verify_slice` on `hmac::Hmac::<sha2::Sha256>`: whether the tag is that of
/// the message, compared in constant time.
#[verifier::external_body]
fn mac_matches(key: &[u8], message: &[u8], tag: &[u8]) -> (matching: bool)
    ensures
        matching == (hmac_sha256(key@, message@) == tag@),
{
    let mut mac = <hmac::Hmac<sha2::Sha256> as hmac::Mac>::new_from_slice(key).expect(
        "keys of any length",
    );
    hmac::Mac::update(&mut mac, message);
    hmac::Mac::verify_slice(mac, tag).is_ok()
}

/// `rand_core::OsRng::fill_bytes` on so many bytes. Nothing is said of what they hold.
#[verifier::external_body]
fn draw_bytes(count: usize) -> (bytes: Vec<u8>)
    requires
        count <= isize::MAX,
    ensures
        bytes@.len() == count,
{
    let mut bytes = vec![0u8; count];
    rand_core::RngCore::fill_bytes(&mut rand_core::OsRng, &mut bytes);
    bytes
}

/// `zeroize::Zeroize::zeroize` on a `Vec<u8>`: overwrites the bytes and empties it.
#[verifier::external_body]
fn wipe(bytes: &mut Vec<u8>)
    ensures
        final(bytes)@ == Seq::<u8>::empty(),
    opens_invariants none
    no_unwind
{
    zeroize::Zeroize::zeroize(bytes)
}

/// `zeroize::Zeroize::zeroize` on a `String`: overwrites the characters and empties it.
#[verifier::external_body]
fn wipe_text(text: &mut String)
    ensures
        final(text)@ == Seq::<char>::empty(),
    opens_invariants none
    no_unwind
{
    zeroize::Zeroize::zeroize(text)
}

/// Bytes that are wiped when they go out of use.
pub struct Hidden {
    bytes: Vec<u8>,
}

impl View for Hidden {
    type V = Seq<u8>;

    closed spec fn view(&self) -> Seq<u8> {
        self.bytes@
    }
}

impl Drop for Hidden {
    fn drop(&mut self)
        ensures
            final(self)@ == Seq::<u8>::empty(),
        opens_invariants none
        no_unwind
    {
        wipe(&mut self.bytes);
    }
}

impl Hidden {
    /// Takes bytes over.
    pub fn new(bytes: Vec<u8>) -> (hidden: Self)
        ensures
            hidden@ == bytes@,
    {
        Hidden { bytes }
    }

    /// No bytes yet, with room for so many.
    pub fn with_capacity(capacity: usize) -> (hidden: Self)
        ensures
            hidden@ == Seq::<u8>::empty(),
    {
        Hidden { bytes: Vec::with_capacity(capacity) }
    }

    /// Draws 32 random bytes.
    pub fn random() -> (hidden: Self)
        ensures
            hidden@.len() == 32,
    {
        Hidden { bytes: draw_bytes(32) }
    }

    /// Appends a byte.
    pub fn push(&mut self, byte: u8)
        ensures
            final(self)@ == old(self)@.push(byte),
    {
        self.bytes.push(byte);
    }

    /// The bytes.
    pub fn as_slice(&self) -> (bytes: &[u8])
        ensures
            bytes@ == self@,
    {
        self.bytes.as_slice()
    }
}

/// A text that is wiped when it goes out of use.
pub struct HiddenText {
    text: String,
}

impl View for HiddenText {
    type V = Seq<char>;

    closed spec fn view(&self) -> Seq<char> {
        self.text@
    }
}

impl Drop for HiddenText {
    fn drop(&mut self)
        ensures
            final(self)@ == Seq::<char>::empty(),
        opens_invariants none
        no_unwind
    {
        wipe_text(&mut self.text);
    }
}

impl HiddenText {
    /// Takes a text over.
    pub fn new(text: String) -> (hidden: Self)
        ensures
            hidden@ == text@,
    {
        HiddenText { text }
    }

    /// The text.
    pub fn as_str(&self) -> (text: &str)
        ensures
            text@ == self@,
    {
        self.text.as_str()
    }
}

/// A P-256 secret.
pub struct SecretKey {
    bytes: Hidden,
}

/// A P-256 public point.
#[derive(Debug)]
pub struct PublicKey {
    point: Vec<u8>,
}

impl View for SecretKey {
    type V = Seq<u8>;

    closed spec fn view(&self) -> Seq<u8> {
        self.bytes@
    }
}

impl View for PublicKey {
    type V = Seq<u8>;

    closed spec fn view(&self) -> Seq<u8> {
        self.point@
    }
}

impl SecretKey {
    #[verifier::type_invariant]
    spec fn valid(&self) -> bool {
        is_secret(self.bytes@)
    }

    /// Draws a secret.
    pub fn random() -> (secret: Self)
        ensures
            is_secret(secret@),
    {
        SecretKey { bytes: Hidden::new(draw_secret()) }
    }

    /// The public point of the secret.
    pub fn public_key(&self) -> (public: PublicKey)
        ensures
            public@ == public_point_of(self@),
            is_uncompressed(public@),
            on_curve(public@),
            is_secret(self@),
    {
        proof {
            use_type_invariant(self);
        }
        PublicKey { point: derive_point(self.bytes.as_slice()) }
    }
}

impl PublicKey {
    #[verifier::type_invariant]
    spec fn valid(&self) -> bool {
        is_uncompressed(self.point@) && on_curve(self.point@)
    }
}

/// The secret that the holder of `secret` shares with the owner of `point`.
pub open spec fn shared(secret: Seq<u8>, point: Seq<u8>) -> Seq<u8> {
    sha256(agreed_coordinate(secret, point))
}

/// The secret shared with the owner of a public point. The owner of that point computes
/// the same from its own secret and this side's public point.
pub fn shared_secret(secret: &SecretKey, public: &PublicKey) -> (key: Hidden)
    ensures
        key@ == shared(secret@, public@),
        key@.len() == 32,
        forall|other: Seq<u8>|
            is_secret(other) && #[trigger] public_point_of(other) == public@ ==> key@ == shared(
                other,
                public_point_of(secret@),
            ),
{
    proof {
        use_type_invariant(secret);
        use_type_invariant(public);
    }
    let raw = Hidden::new(agree(secret.bytes.as_slice(), public.point.as_slice()));
    Hidden::new(digest(raw.as_slice()))
}

/// The first 16 bytes of a digest or a tag.
pub fn first_half(whole: &[u8]) -> (half: Vec<u8>)
    requires
        whole@.len() >= 16,
    ensures
        half@ == whole@.take(16),
{
    let half = copy_range(whole, 0, 16);
    assert(half@ =~= whole@.take(16));
    half
}

/// The first half of the SHA-256 digest of a PIN.
pub fn pin_hash(pin: &str) -> (hash: Hidden)
    ensures
        hash@ == sha256(encode_utf8(pin@)).take(16),
        hash@.len() == 16,
{
    let whole = Hidden::new(digest(pin.as_bytes()));
    Hidden::new(first_half(whole.as_slice()))
}

/// The initialisation vector of the protocol: sixteen zeros.
pub open spec fn zero_iv() -> Seq<u8> {
    Seq::new(16, |i: int| 0u8)
}

/// The encryption of the protocol: AES-256-CBC under the zero vector.
pub open spec fn encrypted(key: Seq<u8>, plaintext: Seq<u8>) -> Seq<u8> {
    cbc_encrypted(key, zero_iv(), plaintext)
}

/// The decryption of the protocol.
pub open spec fn decrypted(key: Seq<u8>, ciphertext: Seq<u8>) -> Seq<u8> {
    cbc_decrypted(key, zero_iv(), ciphertext)
}

/// Encrypts whole blocks. It fails exactly when there is no block, when the last one is
/// not full, or when the key is not 32 bytes long.
pub fn aes_cbc_encrypt(key: &[u8], plaintext: &[u8]) -> (result: Result<Vec<u8>, FidoError>)
    ensures
        match result {
            Ok(ciphertext) => plaintext@.len() > 0 && plaintext@.len() % 16 == 0 && key@.len() == 32
                && ciphertext@ == encrypted(key@, plaintext@) && ciphertext@.len()
                == plaintext@.len() && decrypted(key@, ciphertext@) == plaintext@,
            Err(FidoError::Unaligned) => plaintext@.len() == 0 || plaintext@.len() % 16 != 0,
            Err(err) => plaintext@.len() > 0 && plaintext@.len() % 16 == 0 && key@.len() != 32
                && err == FidoError::KeySize,
        },
{
    if plaintext.len() == 0 || plaintext.len() % 16 != 0 {
        return Err(FidoError::Unaligned);
    }
    let iv = [0u8; 16];
    assert(iv@ =~= zero_iv());
    match cbc_encrypt(key, array_as_slice(&iv), plaintext) {
        Some(ciphertext) => Ok(ciphertext),
        None => Err(FidoError::KeySize),
    }
}

/// Decrypts whole blocks. It fails exactly when there is no block, when the last one is
/// not full, or when the key is not 32 bytes long.
pub fn aes_cbc_decrypt(key: &[u8], ciphertext: &[u8]) -> (result: Result<Vec<u8>, FidoError>)
    ensures
        match result {
            Ok(plaintext) => ciphertext@.len() > 0 && ciphertext@.len() % 16 == 0 && key@.len()
                == 32 && plaintext@ == decrypted(key@, ciphertext@) && plaintext@.len()
                == ciphertext@.len() && encrypted(key@, plaintext@) == ciphertext@,
            Err(FidoError::Unaligned) => ciphertext@.len() == 0 || ciphertext@.len() % 16 != 0,
            Err(err) => ciphertext@.len() > 0 && ciphertext@.len() % 16 == 0 && key@.len() != 32
                && err == FidoError::KeySize,
        },
{
    if ciphertext.len() == 0 || ciphertext.len() % 16 != 0 {
        return Err(FidoError::Unaligned);
    }
    let iv = [0u8; 16];
    assert(iv@ =~= zero_iv());
    match cbc_decrypt(key, array_as_slice(&iv), ciphertext) {
        Some(plaintext) => Ok(plaintext),
        None => Err(FidoError::KeySize),
    }
}

/// The authentication parameter for a message: the first half of its tag.
pub open spec fn authentication(key: Seq<u8>, message: Seq<u8>) -> Seq<u8> {
    hmac_sha256(key, message).take(16)
}

/// The authentication parameter for a message.
pub fn hmac_16(key: &[u8], message: &[u8]) -> (result: Result<Vec<u8>, FidoError>)
    ensures
        result matches Ok(proof_bytes) && proof_bytes@ == authentication(key@, message@)
            && proof_bytes@.len() == 16,
{
    Ok(first_half(mac(key, message).as_slice()))
}

/// What a proof and an expected proof are compared under: the tag of a fixed message
/// with the proof as the key.
pub open spec fn fingerprint(proof_bytes: Seq<u8>) -> Seq<u8> {
    hmac_sha256(proof_bytes, encode_utf8("sanzu-fido-proof"@))
}

/// Whether an authentication parameter is accepted for a message.
pub open spec fn authenticated(key: Seq<u8>, message: Seq<u8>, supplied: Seq<u8>) -> Result<
    (),
    FidoError,
> {
    if supplied.len() != 16 {
        Err(FidoError::ProofSize)
    } else if fingerprint(supplied) != fingerprint(authentication(key, message)) {
        Err(FidoError::ProofMismatch)
    } else {
        Ok(())
    }
}

/// What the length of an authentication parameter and its comparison with the expected one
/// lead to.
pub fn proof_outcome(length: usize, matching: bool) -> (result: Result<(), FidoError>)
    ensures
        result == (if length != 16 {
            Err::<(), _>(FidoError::ProofSize)
        } else if !matching {
            Err(FidoError::ProofMismatch)
        } else {
            Ok(())
        }),
{
    if length != 16 {
        Err(FidoError::ProofSize)
    } else if !matching {
        Err(FidoError::ProofMismatch)
    } else {
        Ok(())
    }
}

/// Checks an authentication parameter. The right one is always accepted. That no other
/// is accepted rests on HMAC-SHA-256 telling its keys apart.
pub fn verify_hmac(key: &[u8], message: &[u8], supplied: &[u8]) -> (result: Result<(), FidoError>)
    ensures
        result == authenticated(key@, message@, supplied@),
        supplied@ == authentication(key@, message@) ==> result is Ok,
{
    let expected = hmac_16(key, message)?;
    if supplied.len() != expected.len() {
        return proof_outcome(supplied.len(), false);
    }
    let tag = mac(expected.as_slice(), "sanzu-fido-proof".as_bytes());
    let matching = mac_matches(supplied, "sanzu-fido-proof".as_bytes(), tag.as_slice());
    proof_outcome(supplied.len(), matching)
}

/// The COSE map of a P-256 key-agreement key.
pub open spec fn cose(point: Seq<u8>) -> Map<CborKey, Cbor> {
    map![
        CborKey::Integer(COSE_KEY_TYPE) => Cbor::Integer(COSE_EC2 as i128),
        CborKey::Integer(COSE_ALGORITHM) => Cbor::Integer(COSE_ECDH_ES_HKDF_256),
        CborKey::Integer(COSE_CURVE) => Cbor::Integer(COSE_P256 as i128),
        CborKey::Integer(COSE_X) => Cbor::Bytes(point.subrange(1, 33)),
        CborKey::Integer(COSE_Y) => Cbor::Bytes(point.subrange(33, 65)),
    ]
}

/// The point in a COSE key, or why there is none.
pub open spec fn cose_point(value: Cbor) -> Result<Seq<u8>, FidoError> {
    match value {
        Cbor::Table(map) => match (u8_at(map, COSE_KEY_TYPE), u8_at(map, COSE_CURVE)) {
            (Err(err), _) => Err(err),
            (Ok(kind), curve) => if kind != COSE_EC2 {
                Err(FidoError::NotP256Key)
            } else {
                match curve {
                    Err(err) => Err(err),
                    Ok(number) => if number != COSE_P256 {
                        Err(FidoError::NotP256Key)
                    } else {
                        match (bytes_at(map, COSE_X), bytes_at(map, COSE_Y)) {
                            (Err(err), _) => Err(err),
                            (_, Err(err)) => Err(err),
                            (Ok(x), Ok(y)) => if x.len() != 32 || y.len() != 32 {
                                Err(FidoError::CoordinateSize)
                            } else if !on_curve(seq![4u8] + x + y) {
                                Err(FidoError::NotOnCurve)
                            } else {
                                Ok(seq![4u8] + x + y)
                            },
                        }
                    },
                }
            },
        },
        _ => Err(FidoError::KeyAgreementNotAMap),
    }
}

/// A COSE key is shallow and within the range of CBOR.
pub(crate) proof fn lemma_cose_shallow(point: Seq<u8>)
    ensures
        in_range(Cbor::Table(cose(point))),
        shallow(Cbor::Table(cose(point)), 1),
{
    let value = Cbor::Table(cose(point));
    assert forall|key: CborKey| #[trigger] value->Table_0.dom().contains(key) implies (
    key matches CborKey::Integer(number) ==> integer_in_range(number)) && in_range(
        value->Table_0[key],
    ) && !(key is Other) && shallow(value->Table_0[key], 0) by {}
}

/// Writes a public point as a COSE key.
pub fn cose_public_key(public: &PublicKey) -> (value: CborValue)
    ensures
        value@ == Cbor::Table(cose(public@)),
{
    proof {
        use_type_invariant(public);
    }
    let x = copy_range(public.point.as_slice(), 1, 32);
    let y = copy_range(public.point.as_slice(), 33, 32);
    let entries: Vec<(i128, CborValue)> = vec![
        (COSE_KEY_TYPE, CborValue::Integer(COSE_EC2 as i128)),
        (COSE_ALGORITHM, CborValue::Integer(COSE_ECDH_ES_HKDF_256)),
        (COSE_CURVE, CborValue::Integer(COSE_P256 as i128)),
        (COSE_X, CborValue::Bytes(x)),
        (COSE_Y, CborValue::Bytes(y)),
    ];
    proof {
        reveal_with_fuel(table_of, 6);
        let all = entries@;
        assert(all.drop_last().drop_last().drop_last().drop_last().drop_last() =~= seq![]);
        assert(table_of(all) =~= cose(public@));
    }
    CborValue::Table(map_of(entries))
}

/// Reads the public point in a COSE key.
pub fn parse_cose_public(value: &CborValue) -> (result: Result<PublicKey, FidoError>)
    ensures
        match result {
            Ok(public) => cose_point(value@) == Ok::<_, FidoError>(public@),
            Err(err) => cose_point(value@) == Err::<Seq<u8>, _>(err),
        },
{
    let map = match value.as_map() {
        Some(map) => map,
        None => {
            return Err(FidoError::KeyAgreementNotAMap);
        },
    };
    if map_u8(map, COSE_KEY_TYPE)? != COSE_EC2 || map_u8(map, COSE_CURVE)? != COSE_P256 {
        return Err(FidoError::NotP256Key);
    }
    let x = map_bytes(map, COSE_X)?;
    let y = map_bytes(map, COSE_Y)?;
    if x.len() != 32 || y.len() != 32 {
        return Err(FidoError::CoordinateSize);
    }
    let mut point: Vec<u8> = vec![4];
    let mut x_bytes = slice_to_vec(x);
    let mut y_bytes = slice_to_vec(y);
    point.append(&mut x_bytes);
    point.append(&mut y_bytes);
    assert(point@ =~= seq![4u8] + x@ + y@);
    if accepts_point(point.as_slice()) {
        Ok(PublicKey { point })
    } else {
        Err(FidoError::NotOnCurve)
    }
}

/// A public point written as a COSE key reads back.
pub proof fn cose_key_reads_back(point: Seq<u8>)
    requires
        is_uncompressed(point),
        on_curve(point),
    ensures
        cose_point(Cbor::Table(cose(point))) == Ok::<_, FidoError>(point),
{
    let x = point.subrange(1, 33);
    let y = point.subrange(33, 65);
    assert(seq![4u8] + x + y =~= point);
}

/// A shared secret is the digest of the agreed coordinate, encryption and decryption run
/// under a vector of sixteen zeros, and a proof is the first sixteen bytes of a tag.
pub proof fn protocol_one_is_followed(
    key: Seq<u8>,
    bytes: Seq<u8>,
    iv: Seq<u8>,
)
    requires
        iv.len() == 16,
        forall|i: int| 0 <= i < 16 ==> iv[i] == 0,
    ensures
        shared(key, bytes) == sha256(agreed_coordinate(key, bytes)),
        encrypted(key, bytes) == cbc_encrypted(key, iv, bytes),
        decrypted(key, bytes) == cbc_decrypted(key, iv, bytes),
        hmac_sha256(key, bytes).len() >= 16 ==> {
            &&& authentication(key, bytes).len() == 16
            &&& authentication(key, bytes).is_prefix_of(hmac_sha256(key, bytes))
        },
{
    assert(zero_iv() =~= iv);
}

/// The first half of the tag is accepted as a proof, whatever the key and the message. What
/// is accepted has sixteen bytes, and as a key it gives some message the tag that the first
/// half of the tag gives it. What has another length is refused for its length.
pub proof fn proofs_are_the_first_half_of_the_tag(
    key: Seq<u8>,
    message: Seq<u8>,
    supplied: Seq<u8>,
)
    ensures
        supplied.len() == 16 && supplied == hmac_sha256(key, message).take(16) ==> authenticated(
            key,
            message,
            supplied,
        ) is Ok,
        authenticated(key, message, supplied) is Ok ==> supplied.len() == 16 && exists|fixed: Seq<u8>|
            #[trigger] hmac_sha256(supplied, fixed) == hmac_sha256(
                hmac_sha256(key, message).take(16),
                fixed,
            ),
        supplied.len() != 16 ==> authenticated(key, message, supplied) == Err::<(), _>(
            FidoError::ProofSize,
        ),
        supplied.len() == 16 && (forall|fixed: Seq<u8>| #[trigger]
            hmac_sha256(supplied, fixed) != hmac_sha256(hmac_sha256(key, message).take(16), fixed))
            ==> authenticated(key, message, supplied) == Err::<(), _>(FidoError::ProofMismatch),
{
    let fixed = encode_utf8("sanzu-fido-proof"@);
    assert(hmac_sha256(supplied, fixed) == fingerprint(supplied));
}

/// The entries of a public key: key type 2, algorithm -25, curve 1, and the two coordinates.
pub open spec fn public_key_entries(map: Map<CborKey, Cbor>, point: Seq<u8>) -> bool {
    &&& leads(map, 1, Cbor::Integer(2))
    &&& leads(map, 3, Cbor::Integer((-25) as i128))
    &&& leads(map, (-1) as i128, Cbor::Integer(1))
    &&& leads(map, (-2) as i128, Cbor::Bytes(point.skip(1).take(32)))
    &&& leads(map, (-3) as i128, Cbor::Bytes(point.skip(33)))
    &&& forall|key: CborKey| #[trigger]
        map.dom().contains(key) ==> key == CborKey::Integer(1) || key == CborKey::Integer(3) || key
            == CborKey::Integer((-1) as i128) || key == CborKey::Integer((-2) as i128) || key
            == CborKey::Integer((-3) as i128)
}

/// A public key is written with key type 2, algorithm -25 and curve 1, its coordinates under
/// -2 and -3, and nothing else.
pub proof fn public_keys_are_written_as_cose(point: Seq<u8>)
    requires
        is_uncompressed(point),
    ensures
        public_key_entries(cose(point), point),
{
    assert(point.subrange(1, 33) =~= point.skip(1).take(32));
    assert(point.subrange(33, 65) =~= point.skip(33));
}

/// A public key is read exactly where a map says key type 2 and curve 1, holds two
/// coordinates of 32 bytes under -2 and -3, and these make a point of the curve: that point.
/// Coordinates of another length, and points elsewhere, are refused as such.
pub proof fn public_keys_are_read_from_cose(map: Map<CborKey, Cbor>, x: Seq<u8>, y: Seq<u8>)
    ensures
        ({
            let stands = leads(map, 1, Cbor::Integer(2)) && leads(map, (-1) as i128, Cbor::Integer(1))
                && leads(map, (-2) as i128, Cbor::Bytes(x)) && leads(map, (-3) as i128, Cbor::Bytes(y));
            let sized = x.len() == 32 && y.len() == 32;
            &&& stands && sized && on_curve(seq![4u8] + x + y) ==> cose_point(Cbor::Table(map))
                == Ok::<_, FidoError>(seq![4u8] + x + y)
            &&& stands && sized && !on_curve(seq![4u8] + x + y) ==> cose_point(Cbor::Table(map))
                == Err::<Seq<u8>, _>(FidoError::NotOnCurve)
            &&& stands && !sized ==> cose_point(Cbor::Table(map)) == Err::<Seq<u8>, _>(
                FidoError::CoordinateSize,
            )
        }),
        cose_point(Cbor::Table(map)) matches Ok(point) ==> {
            &&& point.len() == 65 && point[0] == 4 && on_curve(point)
            &&& leads(map, 1, Cbor::Integer(2))
            &&& leads(map, (-1) as i128, Cbor::Integer(1))
            &&& leads(map, (-2) as i128, Cbor::Bytes(point.skip(1).take(32)))
            &&& leads(map, (-3) as i128, Cbor::Bytes(point.skip(33)))
        },
{
    if let Ok(point) = cose_point(Cbor::Table(map)) {
        let found_x = bytes_at(map, (-2) as i128)->Ok_0;
        let found_y = bytes_at(map, (-3) as i128)->Ok_0;
        assert(point.skip(1).take(32) =~= found_x);
        assert(point.skip(33) =~= found_y);
    }
}

/// What is not a map, and a map of another key type or curve, holds no P-256 key.
pub proof fn other_keys_are_refused(value: Cbor, map: Map<CborKey, Cbor>, kind: u8, curve: u8)
    ensures
        !(value is Table) ==> cose_point(value) == Err::<Seq<u8>, _>(
            FidoError::KeyAgreementNotAMap,
        ),
        leads(map, 1, Cbor::Integer(kind as i128)) && leads(map, (-1) as i128, Cbor::Integer(curve as i128))
            && (kind != 2 || curve != 1) ==> cose_point(Cbor::Table(map)) == Err::<Seq<u8>, _>(
            FidoError::NotP256Key,
        ),
{
}

} // verus!
