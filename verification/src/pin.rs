//! PIN/UV tokens: the token that the remote side holds, the authenticator's own token
//! that it stands for, and the exchange of one proof for the other.

use vstd::prelude::*;
use vstd::slice::slice_subrange;

use crate::cbor::{
    decode_map, decoded, decoded_map, encode_map, encoded_map, in_range, integer_in_range,
    readable, shallow, Cbor, CborKey, CborMap, CborValue,
};
use crate::crypto::{
    authenticated, authentication, cose_point, hmac_16, is_secret, parse_cose_public,
    public_point_of, shared, shared_secret, verify_hmac, Hidden, SecretKey,
};
use crate::ctap::{
    bytes_at, credential_rp_id, entry, get_assertion_tests_presence, make_credential_rp_id,
    map_bytes, map_text, map_u8, map_value, protocol_one, require_protocol_one, tests_presence,
    text_at, u8_at, with_first, CTAP_GET_ASSERTION, CTAP_MAKE_CREDENTIAL,
};
use crate::error::FidoError;
use crate::text::same_text;

verus! {

/// A token may be used for MakeCredential.
pub const PIN_PERMISSION_MAKE_CREDENTIAL: u8 = 0x01;

/// A token may be used for GetAssertion.
pub const PIN_PERMISSION_GET_ASSERTION: u8 = 0x02;

/// How long a token lasts, in nanoseconds: two minutes.
pub const PIN_TOKEN_LIFETIME: u64 = 120_000_000_000;

/// A token handed to the remote side, as a mathematical value.
pub struct Session {
    pub proxy_token: Seq<u8>,
    pub physical_token: Seq<u8>,
    pub permissions: u8,
    pub rp_id: Seq<char>,
    pub expires_at: int,
}

/// A token handed to the remote side: what stands for what, for which operations of
/// which relying party, and until when.
pub struct PinSession {
    proxy_token: Hidden,
    physical_token: Hidden,
    permissions: u8,
    rp_id: String,
    expires_at: u128,
}

impl View for PinSession {
    type V = Session;

    closed spec fn view(&self) -> Session {
        Session {
            proxy_token: self.proxy_token@,
            physical_token: self.physical_token@,
            permissions: self.permissions,
            rp_id: self.rp_id@,
            expires_at: self.expires_at as int,
        }
    }
}

/// The session, if there is one.
pub open spec fn session_of(session: Option<PinSession>) -> Option<Session> {
    match session {
        Some(session) => Some(session@),
        None => None,
    }
}

impl PinSession {
    /// A session that starts now and lasts for the lifetime of a token.
    pub fn new(
        proxy_token: Hidden,
        physical_token: Hidden,
        permissions: u8,
        rp_id: String,
        now: u64,
    ) -> (session: Self)
        ensures
            session@ == (Session {
                proxy_token: proxy_token@,
                physical_token: physical_token@,
                permissions,
                rp_id: rp_id@,
                expires_at: now + PIN_TOKEN_LIFETIME,
            }),
    {
        PinSession {
            proxy_token,
            physical_token,
            permissions,
            rp_id,
            expires_at: now as u128 + PIN_TOKEN_LIFETIME as u128,
        }
    }
}

/// What is left of a session at the given time.
pub open spec fn live(session: Option<Session>, now: u64) -> Option<Session> {
    match session {
        Some(open) => if open.expires_at <= now {
            None
        } else {
            session
        },
        None => None,
    }
}

/// Ends a session; its tokens are wiped.
pub fn end_session(session: &mut Option<PinSession>)
    ensures
        session_of(*final(session)) is None,
{
    *session = None;
}

/// Ends a session that has expired.
pub fn expire_session(session: &mut Option<PinSession>, now: u64)
    ensures
        session_of(*final(session)) == live(session_of(*old(session)), now),
{
    let expired = match session {
        Some(open) => open.expires_at <= now as u128,
        None => false,
    };
    if expired {
        end_session(session);
    }
}

/// Under which key a command carries its proof, if it can carry one.
pub open spec fn proof_key(command: u8) -> Option<i128> {
    if command == CTAP_MAKE_CREDENTIAL {
        Some(8)
    } else if command == CTAP_GET_ASSERTION {
        Some(6)
    } else {
        None
    }
}

/// What a command needs of a token, as a mathematical value.
pub struct Claim {
    pub consumes: bool,
    pub permission: u8,
    pub hash_key: i128,
    pub protocol_key: i128,
    pub rp_id: Seq<char>,
}

/// What a command needs of a token: whether it uses it up, for which permission, under
/// which keys its hash and its protocol stand, and for which relying party.
#[derive(Debug)]
pub struct TokenClaim {
    pub consumes: bool,
    pub permission: u8,
    pub hash_key: i128,
    pub protocol_key: i128,
    pub rp_id: String,
}

impl View for TokenClaim {
    type V = Claim;

    open spec fn view(&self) -> Claim {
        Claim {
            consumes: self.consumes,
            permission: self.permission,
            hash_key: self.hash_key,
            protocol_key: self.protocol_key,
            rp_id: self.rp_id@,
        }
    }
}

/// What a MakeCredential or GetAssertion request needs of a token. The token is used up
/// by an operation that tests user presence.
pub open spec fn claim(command: u8, map: Map<CborKey, Cbor>) -> Result<Claim, FidoError> {
    if command == CTAP_MAKE_CREDENTIAL {
        match credential_rp_id(map) {
            Err(err) => Err(err),
            Ok(rp_id) => Ok(
                Claim {
                    consumes: true,
                    permission: PIN_PERMISSION_MAKE_CREDENTIAL,
                    hash_key: 1,
                    protocol_key: 9,
                    rp_id,
                },
            ),
        }
    } else {
        match (tests_presence(map), text_at(map, 1)) {
            (Err(err), _) => Err(err),
            (_, Err(err)) => Err(err),
            (Ok(consumes), Ok(rp_id)) => Ok(
                Claim {
                    consumes,
                    permission: PIN_PERMISSION_GET_ASSERTION,
                    hash_key: 2,
                    protocol_key: 7,
                    rp_id,
                },
            ),
        }
    }
}

/// Reads what a MakeCredential or GetAssertion request needs of a token.
pub fn read_claim(command: u8, map: &CborMap) -> (result: Result<TokenClaim, FidoError>)
    ensures
        match result {
            Ok(found) => claim(command, map@) == Ok::<_, FidoError>(found@),
            Err(err) => claim(command, map@) == Err::<Claim, _>(err),
        },
{
    if command == CTAP_MAKE_CREDENTIAL {
        let rp_id = make_credential_rp_id(map)?;
        Ok(
            TokenClaim {
                consumes: true,
                permission: PIN_PERMISSION_MAKE_CREDENTIAL,
                hash_key: 1,
                protocol_key: 9,
                rp_id,
            },
        )
    } else {
        let consumes = get_assertion_tests_presence(map)?;
        let rp_id = map_text(map, 1)?.to_owned();
        Ok(
            TokenClaim {
                consumes,
                permission: PIN_PERMISSION_GET_ASSERTION,
                hash_key: 2,
                protocol_key: 7,
                rp_id,
            },
        )
    }
}

/// The hash that a request proves and the proof that it carries, or why they do not count:
/// the token is for other operations or another relying party, the protocol is not the
/// first, or a field is missing.
pub open spec fn in_scope(session: Session, claim: Claim, key: i128, map: Map<CborKey, Cbor>) -> Result<
    (Seq<u8>, Seq<u8>),
    FidoError,
> {
    if session.permissions & claim.permission == 0 || session.rp_id != claim.rp_id {
        Err(FidoError::TokenScope)
    } else {
        match (u8_at(map, claim.protocol_key), bytes_at(map, claim.hash_key), bytes_at(map, key)) {
            (Err(err), _, _) => Err(err),
            (Ok(protocol), hash, supplied) => if protocol != 1 {
                Err(FidoError::UnsupportedProtocol)
            } else {
                match (hash, supplied) {
                    (Err(err), _) => Err(err),
                    (_, Err(err)) => Err(err),
                    (Ok(hash), Ok(supplied)) => Ok((hash, supplied)),
                }
            },
        }
    }
}

/// The hash that a request proves under the session's token, or why the proof does not
/// count: it is not in the scope of the token, or it is wrong.
pub open spec fn vetted(session: Session, claim: Claim, key: i128, map: Map<CborKey, Cbor>) -> Result<
    Seq<u8>,
    FidoError,
> {
    match in_scope(session, claim, key, map) {
        Err(err) => Err(err),
        Ok((hash, supplied)) => match authenticated(session.proxy_token, hash, supplied) {
            Err(err) => Err(err),
            Ok(()) => Ok(hash),
        },
    }
}

/// Checks that a request is in the scope of a token.
pub fn check_scope<'a>(
    session: &PinSession,
    claim: &TokenClaim,
    key: i128,
    map: &'a CborMap,
) -> (result: Result<(&'a [u8], &'a [u8]), FidoError>)
    ensures
        match result {
            Ok((hash, supplied)) => in_scope(session@, claim@, key, map@) == Ok::<_, FidoError>(
                (hash@, supplied@),
            ),
            Err(err) => in_scope(session@, claim@, key, map@) == Err::<(Seq<u8>, Seq<u8>), _>(err),
        },
{
    if session.permissions & claim.permission == 0 || !same_text(
        session.rp_id.as_str(),
        claim.rp_id.as_str(),
    ) {
        return Err(FidoError::TokenScope);
    }
    if map_u8(map, claim.protocol_key)? != 1 {
        return Err(FidoError::UnsupportedProtocol);
    }
    let hash = map_bytes(map, claim.hash_key)?;
    let supplied = map_bytes(map, key)?;
    Ok((hash, supplied))
}

/// Checks a request's proof and makes the authenticator's proof for the same hash.
fn exchange_proof(session: &PinSession, claim: &TokenClaim, key: i128, map: &CborMap) -> (result:
    Result<Vec<u8>, FidoError>)
    ensures
        match result {
            Ok(proof_bytes) => vetted(session@, claim@, key, map@) is Ok && proof_bytes@
                == authentication(
                session@.physical_token,
                vetted(session@, claim@, key, map@)->Ok_0,
            ),
            Err(err) => vetted(session@, claim@, key, map@) == Err::<Seq<u8>, _>(err),
        },
{
    let (hash, supplied) = check_scope(session, claim, key, map)?;
    verify_hmac(session.proxy_token.as_slice(), hash, supplied)?;
    hmac_16(session.physical_token.as_slice(), hash)
}

/// A request with its proof replaced.
pub open spec fn with_proof(map: Map<CborKey, Cbor>, key: i128, proof_bytes: Seq<u8>) -> Map<
    CborKey,
    Cbor,
> {
    map.insert(CborKey::Integer(key), Cbor::Bytes(proof_bytes))
}

/// Whether a request uses the token up, and the request with the authenticator's own
/// proof in place of the remote side's.
pub open spec fn exchanged(
    session: Session,
    command: u8,
    key: i128,
    map: Map<CborKey, Cbor>,
) -> Result<(bool, Map<CborKey, Cbor>), FidoError> {
    match claim(command, map) {
        Err(err) => Err(err),
        Ok(needs) => match vetted(session, needs, key, map) {
            Err(err) => Err(err),
            Ok(hash) => Ok(
                (
                    needs.consumes,
                    with_proof(map, key, authentication(session.physical_token, hash)),
                ),
            ),
        },
    }
}

/// What becomes of the session when a MakeCredential or GetAssertion request arrives, and
/// the request that is forwarded in its place or why it is refused. A request without a
/// proof is forwarded as it is, which stands as `None`, and needs no session.
pub open spec fn translated_map(
    session: Option<Session>,
    now: u64,
    command: u8,
    map: Map<CborKey, Cbor>,
) -> (Option<Session>, Result<Option<Map<CborKey, Cbor>>, FidoError>) {
    match proof_key(command) {
        None => (session, Err(FidoError::UnsupportedCommand)),
        Some(key) => if entry(map, key) is None {
            (session, Ok(None))
        } else {
            match live(session, now) {
                None => (None, Err(FidoError::NoPinSession)),
                Some(open) => match exchanged(open, command, key, map) {
                    Err(err) => (Some(open), Err(err)),
                    Ok((consumes, request)) => (
                        if consumes {
                            None
                        } else {
                            Some(open)
                        },
                        Ok(Some(request)),
                    ),
                },
            }
        },
    }
}

/// What becomes of the session when the bytes of a MakeCredential or GetAssertion request
/// arrive, and the bytes that are forwarded in their place or why they are refused.
pub open spec fn translated(session: Option<Session>, now: u64, payload: Seq<u8>) -> (
    Option<Session>,
    Result<Seq<u8>, FidoError>,
) {
    match decoded_map(payload.skip(1)) {
        Err(err) => (session, Err(err)),
        Ok(map) => match translated_map(session, now, payload[0], map) {
            (left, Err(err)) => (left, Err(err)),
            (left, Ok(None)) => (left, Ok(payload)),
            (left, Ok(Some(request))) => (
                left,
                Ok(seq![payload[0]] + encoded_map(request)->0),
            ),
        },
    }
}

/// A request that can be read can still be read with its proof replaced.
proof fn lemma_with_proof_readable(map: Map<CborKey, Cbor>, key: i128, proof_bytes: Seq<u8>)
    requires
        readable(map),
        integer_in_range(key),
    ensures
        readable(with_proof(map, key, proof_bytes)),
{
    let before = Cbor::Table(map);
    let after = Cbor::Table(with_proof(map, key, proof_bytes));
    assert forall|other: CborKey| #[trigger] after->Table_0.dom().contains(other) implies (
    other matches CborKey::Integer(number) ==> integer_in_range(number)) && (
    other matches CborKey::Other(bytes) ==> decoded(bytes) is Some && shallow(
        decoded(bytes)->0,
        126,
    )) && in_range(after->Table_0[other]) && shallow(after->Table_0[other], 126) by {
        if other != CborKey::Integer(key) {
            assert(before->Table_0.dom().contains(other));
            assert(in_range(before->Table_0[other]));
            assert(shallow(before->Table_0[other], 126));
        }
    }
}

/// What a translated request holds.
pub open spec fn request_of(result: Result<Option<CborMap>, FidoError>) -> Result<
    Option<Map<CborKey, Cbor>>,
    FidoError,
> {
    match result {
        Ok(Some(map)) => Ok(Some(map@)),
        Ok(None) => Ok(None),
        Err(err) => Err(err),
    }
}

/// Exchanges the remote side's proof in a request for the authenticator's own.
pub fn translate_map(
    session: &mut Option<PinSession>,
    now: u64,
    command: u8,
    map: CborMap,
) -> (result: Result<Option<CborMap>, FidoError>)
    ensures
        (session_of(*final(session)), request_of(result)) == translated_map(
            session_of(*old(session)),
            now,
            command,
            map@,
        ),
        readable(map@) ==> (result matches Ok(Some(request)) ==> readable(request@)),
{
    let mut map = map;
    let key: i128 = if command == CTAP_MAKE_CREDENTIAL {
        8
    } else if command == CTAP_GET_ASSERTION {
        6
    } else {
        return Err(FidoError::UnsupportedCommand);
    };
    if map.get(key).is_none() {
        return Ok(None);
    }
    expire_session(session, now);
    let (consumes, proof_bytes) = match session {
        None => {
            return Err(FidoError::NoPinSession);
        },
        Some(open) => {
            let needs = read_claim(command, &map)?;
            let proof_bytes = exchange_proof(open, &needs, key, &map)?;
            (needs.consumes, proof_bytes)
        },
    };
    proof {
        if readable(map@) {
            lemma_with_proof_readable(map@, key, proof_bytes@);
        }
    }
    map.insert(key, CborValue::Bytes(proof_bytes));
    if consumes {
        end_session(session);
    }
    Ok(Some(map))
}

/// Exchanges the remote side's proof in the bytes of a request for the authenticator's own.
/// A refused request is left as it was. What a translated request holds can be read back
/// from the result.
pub fn translate_pin_proof(
    session: &mut Option<PinSession>,
    now: u64,
    payload: &mut Vec<u8>,
) -> (result: Result<(), FidoError>)
    requires
        old(payload)@.len() > 0,
    ensures
        match result {
            Ok(()) => translated(session_of(*old(session)), now, old(payload)@) == (
                session_of(*final(session)),
                Ok::<_, FidoError>(final(payload)@),
            ),
            Err(err) => translated(session_of(*old(session)), now, old(payload)@) == (
                session_of(*final(session)),
                Err::<Seq<u8>, _>(err),
            ) && final(payload)@ == old(payload)@,
        },
        match decoded_map(old(payload)@.skip(1)) {
            Ok(map) => translated_map(
                session_of(*old(session)),
                now,
                old(payload)@[0],
                map,
            ).1 matches Ok(Some(request)) ==> decoded_map(final(payload)@.skip(1)) == Ok::<
                _,
                FidoError,
            >(request),
            Err(_) => true,
        },
{
    let command: u8 = payload[0];
    let map = decode_map(slice_subrange(payload.as_slice(), 1, payload.len()))?;
    assert(payload@.subrange(1, payload@.len() as int) =~= payload@.skip(1));
    match translate_map(session, now, command, map)? {
        None => {},
        Some(request) => {
            *payload = with_first(command, encode_map(request)?);
        },
    }
    Ok(())
}

/// The map of a request and the key that its proof stands under, where it carries one.
pub open spec fn proven(payload: Seq<u8>) -> Option<(i128, Map<CborKey, Cbor>)> {
    match (decoded_map(payload.skip(1)), proof_key(payload[0])) {
        (Ok(map), Some(key)) => if entry(map, key) is Some {
            Some((key, map))
        } else {
            None
        },
        _ => None,
    }
}

/// A proof is exchanged only under a token that has not expired, for an operation that
/// the token permits, for the token's relying party, under the first protocol, and when
/// it is the proof for the request's own hash. What is forwarded then differs from the
/// request in the proof alone, which is the authenticator's for the same hash.
pub proof fn proof_counts_only_in_scope(session: Option<Session>, now: u64, payload: Seq<u8>)
    ensures
        match (proven(payload), translated(session, now, payload).1) {
            (Some((key, map)), Ok(forwarded)) => {
                let open = session->0;
                let needs = claim(payload[0], map)->Ok_0;
                let hash = bytes_at(map, needs.hash_key)->Ok_0;
                &&& session is Some
                &&& now < open.expires_at
                &&& claim(payload[0], map) is Ok
                &&& open.permissions & needs.permission != 0
                &&& open.rp_id == needs.rp_id
                &&& u8_at(map, needs.protocol_key) == Ok::<u8, FidoError>(1)
                &&& bytes_at(map, needs.hash_key) is Ok
                &&& bytes_at(map, key) matches Ok(supplied) && authenticated(
                    open.proxy_token,
                    hash,
                    supplied,
                ) is Ok
                &&& forwarded == seq![payload[0]] + encoded_map(
                    with_proof(map, key, authentication(open.physical_token, hash)),
                )->0
                &&& forall|other: CborKey|
                    other != CborKey::Integer(key) && map.dom().contains(other)
                        ==> #[trigger] with_proof(
                        map,
                        key,
                        authentication(open.physical_token, hash),
                    )[other] == map[other]
            },
            _ => true,
        },
{
}

/// A MakeCredential, and a GetAssertion that tests user presence, uses the token up: no
/// later proof counts until a new token is issued. A silent GetAssertion leaves the token
/// as it is.
pub proof fn token_is_used_up_by_presence(
    session: Option<Session>,
    now: u64,
    payload: Seq<u8>,
    later: u64,
    next: Seq<u8>,
)
    ensures
        match (proven(payload), translated(session, now, payload)) {
            (Some((_, map)), (left, Ok(_))) => if payload[0] == CTAP_MAKE_CREDENTIAL
                || tests_presence(map) == Ok::<bool, FidoError>(true) {
                left is None && (proven(next) is Some ==> translated(left, later, next) == (
                    None::<Session>,
                    Err::<Seq<u8>, _>(FidoError::NoPinSession),
                ))
            } else {
                left == session
            },
            _ => true,
        },
{
}

/// A request that carries no proof is forwarded as it is, whether or not a token is out,
/// and a refused request uses no token up.
pub proof fn only_accepted_proofs_touch_the_token(
    session: Option<Session>,
    now: u64,
    payload: Seq<u8>,
)
    ensures
        match (decoded_map(payload.skip(1)), proof_key(payload[0])) {
            (Ok(map), Some(key)) => entry(map, key) is None ==> translated(session, now, payload)
                == (session, Ok::<_, FidoError>(payload)),
            _ => true,
        },
        translated(session, now, payload).1 is Err ==> live(
            translated(session, now, payload).0,
            now,
        ) == live(session, now),
{
}

/// No proof counts once the token has expired.
pub proof fn expired_token_is_refused(session: Session, now: u64, payload: Seq<u8>)
    requires
        session.expires_at <= now,
    ensures
        proven(payload) is Some ==> translated(Some(session), now, payload) == (
            None::<Session>,
            Err::<Seq<u8>, _>(FidoError::NoPinSession),
        ),
{
}

/// What a ClientPIN request asks for, as a mathematical value.
pub enum Ask {
    /// The broker's key-agreement key.
    KeyAgreement,
    /// A token.
    Token(Grant),
    /// Anything else.
    Unknown,
}

/// A token to be issued, as a mathematical value: for which operations of which relying
/// party, and the secret shared with whoever asked.
pub struct Grant {
    pub permissions: u8,
    pub rp_id: Seq<char>,
    pub remote_secret: Seq<u8>,
}

/// What a ClientPIN request asks for.
pub enum ClientPinAsk {
    KeyAgreement,
    Token(TokenGrant),
    Unknown,
}

/// A token to be issued.
pub struct TokenGrant {
    pub permissions: u8,
    pub rp_id: String,
    pub remote_secret: Hidden,
}

impl View for TokenGrant {
    type V = Grant;

    open spec fn view(&self) -> Grant {
        Grant {
            permissions: self.permissions,
            rp_id: self.rp_id@,
            remote_secret: self.remote_secret@,
        }
    }
}

impl View for ClientPinAsk {
    type V = Ask;

    open spec fn view(&self) -> Ask {
        match self {
            ClientPinAsk::KeyAgreement => Ask::KeyAgreement,
            ClientPinAsk::Token(grant) => Ask::Token(grant@),
            ClientPinAsk::Unknown => Ask::Unknown,
        }
    }
}

/// Permissions are for MakeCredential, GetAssertion, or both, and nothing else.
pub open spec fn permissions_supported(permissions: u8) -> bool {
    1 <= permissions <= 3
}

/// The token that a request asks for, or why it cannot have one.
pub open spec fn grant(secret: Seq<u8>, map: Map<CborKey, Cbor>) -> Result<Grant, FidoError> {
    match (u8_at(map, 9), text_at(map, 10), entry(map, 3)) {
        (Err(err), _, _) => Err(err),
        (Ok(permissions), rp_id, key) => if !permissions_supported(permissions) {
            Err(FidoError::UnsupportedPermissions)
        } else {
            match (rp_id, key) {
                (Err(err), _) => Err(err),
                (Ok(_), None) => Err(FidoError::MissingKey(3)),
                (Ok(rp_id), Some(key)) => match cose_point(key) {
                    Err(err) => Err(err),
                    Ok(point) => Ok(
                        Grant { permissions, rp_id, remote_secret: shared(secret, point) },
                    ),
                },
            }
        },
    }
}

/// Reads the token that a request asks for. The secret is the one that the remote side
/// computes from its own secret and the broker's public point.
pub fn read_grant(secret: &SecretKey, map: &CborMap) -> (result: Result<TokenGrant, FidoError>)
    ensures
        match result {
            Ok(found) => grant(secret@, map@) == Ok::<_, FidoError>(found@)
                && found.remote_secret@.len() == 32,
            Err(err) => grant(secret@, map@) == Err::<Grant, _>(err),
        },
        forall|remote: Seq<u8>|
            result is Ok && is_secret(remote) && cose_point(entry(map@, 3)->0) == Ok::<
                _,
                FidoError,
            >(#[trigger] public_point_of(remote)) ==> result->Ok_0.remote_secret@ == shared(
                remote,
                public_point_of(secret@),
            ),
{
    let permissions: u8 = map_u8(map, 9)?;
    if permissions == 0 || permissions & !(PIN_PERMISSION_MAKE_CREDENTIAL
        | PIN_PERMISSION_GET_ASSERTION) != 0 {
        assert(permissions == 0 || permissions & !(0x01u8 | 0x02u8) != 0 ==> permissions == 0
            || permissions > 3) by (bit_vector);
        return Err(FidoError::UnsupportedPermissions);
    }
    assert(permissions != 0 && permissions & !(0x01u8 | 0x02u8) == 0 ==> 1 <= permissions <= 3)
        by (bit_vector);
    let rp_id = map_text(map, 10)?.to_owned();
    let remote_key = parse_cose_public(map_value(map, 3)?)?;
    let remote_secret = shared_secret(secret, &remote_key);
    Ok(TokenGrant { permissions, rp_id, remote_secret })
}

/// What a ClientPIN request asks for, or why it is not understood.
pub open spec fn asked_map(secret: Seq<u8>, map: Map<CborKey, Cbor>) -> Result<Ask, FidoError> {
    match (protocol_one(map), u8_at(map, 2)) {
        (Err(err), _) => Err(err),
        (_, Err(err)) => Err(err),
        (Ok(()), Ok(subcommand)) => if subcommand == 0x02 {
            Ok(Ask::KeyAgreement)
        } else if subcommand == 0x06 {
            match grant(secret, map) {
                Ok(grant) => Ok(Ask::Token(grant)),
                Err(err) => Err(err),
            }
        } else {
            Ok(Ask::Unknown)
        },
    }
}

/// What the bytes of a ClientPIN request ask for, or why they are not understood.
pub open spec fn asked(secret: Seq<u8>, request: Seq<u8>) -> Result<Ask, FidoError> {
    match decoded_map(request) {
        Err(err) => Err(err),
        Ok(map) => asked_map(secret, map),
    }
}

/// Reads what a ClientPIN request asks for.
pub fn read_ask(secret: &SecretKey, map: &CborMap) -> (result: Result<ClientPinAsk, FidoError>)
    ensures
        match result {
            Ok(ask) => asked_map(secret@, map@) == Ok::<_, FidoError>(ask@) && (
            ask matches ClientPinAsk::Token(grant) ==> grant.remote_secret@.len() == 32),
            Err(err) => asked_map(secret@, map@) == Err::<Ask, _>(err),
        },
{
    require_protocol_one(map)?;
    match map_u8(map, 2)? {
        0x02 => Ok(ClientPinAsk::KeyAgreement),
        0x06 => Ok(ClientPinAsk::Token(read_grant(secret, map)?)),
        _ => Ok(ClientPinAsk::Unknown),
    }
}

/// Reads what the bytes of a ClientPIN request ask for.
pub fn read_client_pin(secret: &SecretKey, request: &[u8]) -> (result: Result<
    ClientPinAsk,
    FidoError,
>)
    ensures
        match result {
            Ok(ask) => asked(secret@, request@) == Ok::<_, FidoError>(ask@) && (
            ask matches ClientPinAsk::Token(grant) ==> grant.remote_secret@.len() == 32),
            Err(err) => asked(secret@, request@) == Err::<Ask, _>(err),
        },
{
    let map = decode_map(request)?;
    read_ask(secret, &map)
}

} // verus!
