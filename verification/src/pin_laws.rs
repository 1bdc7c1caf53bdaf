//! What the exchange of proofs and the requests for tokens come to, on the entries of the
//! requests themselves.

use vstd::prelude::*;

use crate::cbor::{decoded_map, encoded_map, Cbor, CborKey};
use crate::crypto::{
    agreed_coordinate, cose_point, hmac_sha256, on_curve, proofs_are_the_first_half_of_the_tag,
    sha256,
};
use crate::ctap::{leads, leads_text};
use crate::error::FidoError;
use crate::pin::{asked, asked_map, live, translated, translated_map, Ask, Grant, Session};

verus! {

/// A GetAssertion request declines the test of user presence: its options lead "up" to
/// false.
pub open spec fn declines_presence(map: Map<CborKey, Cbor>) -> bool {
    &&& map.dom().contains(CborKey::Integer(5))
    &&& map[CborKey::Integer(5)] matches Cbor::Table(options) && leads_text(
        options,
        "up"@,
        Cbor::Bool(false),
    )
}

/// A GetAssertion request has options that can be read: none, or a map in which "up" is
/// missing or leads to a truth value.
pub open spec fn presence_readable(map: Map<CborKey, Cbor>) -> bool {
    map.dom().contains(CborKey::Integer(5)) ==> {
        &&& map[CborKey::Integer(5)] matches Cbor::Table(options)
        &&& options.dom().contains(CborKey::Text("up"@)) ==> options[CborKey::Text("up"@)] is Bool
    }
}

/// A token lasts until its time comes, and not at that time.
pub proof fn tokens_end_at_their_time(session: Session, now: u64)
    ensures
        now < session.expires_at ==> live(Some(session), now) == Some(session),
        now >= session.expires_at ==> live(Some(session), now) is None,
        live(None, now) is None,
{
}

/// A MakeCredential request whose proof is exchanged came under a token that has not ended,
/// that permits MakeCredential and that is for the relying party under 2 and "id". It leads
/// 9 to 1, and its proof under 8 has sixteen bytes and is accepted for the hash under 1. It
/// is forwarded with the authenticator's proof for that hash under 8 and with nothing else
/// changed, and the token is used up.
pub proof fn make_credential_proofs_are_exchanged(
    session: Option<Session>,
    now: u64,
    map: Map<CborKey, Cbor>,
)
    ensures
        translated_map(session, now, 1, map).1 matches Ok(Some(request)) ==> {
            let open = session->0;
            let hash = map[CborKey::Integer(1)]->Bytes_0;
            let supplied = map[CborKey::Integer(8)]->Bytes_0;
            let rp = map[CborKey::Integer(2)]->Table_0;
            &&& session is Some
            &&& now < open.expires_at
            &&& open.permissions & 1 != 0
            &&& leads(map, 2, Cbor::Table(rp))
            &&& leads_text(rp, "id"@, Cbor::Text(open.rp_id))
            &&& leads(map, 9, Cbor::Integer(1))
            &&& leads(map, 1, Cbor::Bytes(hash))
            &&& leads(map, 8, Cbor::Bytes(supplied))
            &&& supplied.len() == 16
            &&& exists|fixed: Seq<u8>| #[trigger]
                hmac_sha256(supplied, fixed) == hmac_sha256(
                    hmac_sha256(open.proxy_token, hash).take(16),
                    fixed,
                )
            &&& request == map.insert(
                CborKey::Integer(8),
                Cbor::Bytes(hmac_sha256(open.physical_token, hash).take(16)),
            )
            &&& translated_map(session, now, 1, map).0 is None
        },
{
    if let Ok(Some(_)) = translated_map(session, now, 1, map).1 {
        proofs_are_the_first_half_of_the_tag(
            session->0.proxy_token,
            map[CborKey::Integer(1)]->Bytes_0,
            map[CborKey::Integer(8)]->Bytes_0,
        );
    }
}

/// The right proof in a MakeCredential request in the scope of a token that has not ended
/// is exchanged.
pub proof fn make_credential_proofs_are_accepted(
    session: Session,
    now: u64,
    map: Map<CborKey, Cbor>,
    rp: Map<CborKey, Cbor>,
    hash: Seq<u8>,
    supplied: Seq<u8>,
)
    requires
        now < session.expires_at,
        session.permissions & 1 != 0,
        leads(map, 2, Cbor::Table(rp)),
        leads_text(rp, "id"@, Cbor::Text(session.rp_id)),
        leads(map, 9, Cbor::Integer(1)),
        leads(map, 1, Cbor::Bytes(hash)),
        leads(map, 8, Cbor::Bytes(supplied)),
        supplied.len() == 16,
        supplied == hmac_sha256(session.proxy_token, hash).take(16),
    ensures
        translated_map(Some(session), now, 1, map) == (
            None::<Session>,
            Ok::<_, FidoError>(
                Some(
                    map.insert(
                        CborKey::Integer(8),
                        Cbor::Bytes(hmac_sha256(session.physical_token, hash).take(16)),
                    ),
                ),
            ),
        ),
{
}

/// A GetAssertion request whose proof is exchanged came under a token that has not ended,
/// that permits GetAssertion and that is for the relying party under 1. It leads 7 to 1, and
/// its proof under 6 has sixteen bytes and is accepted for the hash under 2. It is forwarded
/// with the authenticator's proof for that hash under 6 and with nothing else changed. The
/// token stays exactly when the options under 5 lead "up" to false, and is used up
/// otherwise.
pub proof fn get_assertion_proofs_are_exchanged(
    session: Option<Session>,
    now: u64,
    map: Map<CborKey, Cbor>,
)
    ensures
        translated_map(session, now, 2, map).1 matches Ok(Some(request)) ==> {
            let open = session->0;
            let hash = map[CborKey::Integer(2)]->Bytes_0;
            let supplied = map[CborKey::Integer(6)]->Bytes_0;
            let left = translated_map(session, now, 2, map).0;
            &&& session is Some
            &&& now < open.expires_at
            &&& open.permissions & 2 != 0
            &&& leads(map, 1, Cbor::Text(open.rp_id))
            &&& leads(map, 7, Cbor::Integer(1))
            &&& leads(map, 2, Cbor::Bytes(hash))
            &&& leads(map, 6, Cbor::Bytes(supplied))
            &&& supplied.len() == 16
            &&& exists|fixed: Seq<u8>| #[trigger]
                hmac_sha256(supplied, fixed) == hmac_sha256(
                    hmac_sha256(open.proxy_token, hash).take(16),
                    fixed,
                )
            &&& request == map.insert(
                CborKey::Integer(6),
                Cbor::Bytes(hmac_sha256(open.physical_token, hash).take(16)),
            )
            &&& presence_readable(map)
            &&& declines_presence(map) ==> left == session
            &&& !declines_presence(map) ==> left is None
        },
{
    if let Ok(Some(_)) = translated_map(session, now, 2, map).1 {
        proofs_are_the_first_half_of_the_tag(
            session->0.proxy_token,
            map[CborKey::Integer(2)]->Bytes_0,
            map[CborKey::Integer(6)]->Bytes_0,
        );
    }
}

/// The right proof in a GetAssertion request in the scope of a token that has not ended is
/// exchanged.
pub proof fn get_assertion_proofs_are_accepted(
    session: Session,
    now: u64,
    map: Map<CborKey, Cbor>,
    hash: Seq<u8>,
    supplied: Seq<u8>,
)
    requires
        now < session.expires_at,
        session.permissions & 2 != 0,
        leads(map, 1, Cbor::Text(session.rp_id)),
        leads(map, 7, Cbor::Integer(1)),
        leads(map, 2, Cbor::Bytes(hash)),
        leads(map, 6, Cbor::Bytes(supplied)),
        presence_readable(map),
        supplied.len() == 16,
        supplied == hmac_sha256(session.proxy_token, hash).take(16),
    ensures
        translated_map(Some(session), now, 2, map).1 == Ok::<_, FidoError>(
            Some(
                map.insert(
                    CborKey::Integer(6),
                    Cbor::Bytes(hmac_sha256(session.physical_token, hash).take(16)),
                ),
            ),
        ),
        declines_presence(map) <==> translated_map(Some(session), now, 2, map).0 == Some(session),
        !declines_presence(map) <==> translated_map(Some(session), now, 2, map).0 is None,
{
}

/// A request without a proof passes with any token, and leaves it as it is: a MakeCredential
/// without an entry under 8, a GetAssertion without one under 6. Any other command is
/// refused. A proof without a token that lasts is refused for that; a refused request leaves
/// a token that lasts as it is.
pub proof fn other_requests_leave_the_token(
    session: Option<Session>,
    now: u64,
    command: u8,
    map: Map<CborKey, Cbor>,
)
    ensures
        ({
            let (left, result) = translated_map(session, now, command, map);
            let lasting = session is Some && now < session->0.expires_at;
            let bare = (command == 1 && !map.dom().contains(CborKey::Integer(8))) || (command == 2
                && !map.dom().contains(CborKey::Integer(6)));
            &&& command != 1 && command != 2 ==> left == session && result == Err::<
                Option<Map<CborKey, Cbor>>,
                _,
            >(FidoError::UnsupportedCommand)
            &&& bare <==> result == Ok::<Option<Map<CborKey, Cbor>>, FidoError>(None)
            &&& bare ==> left == session
            &&& (command == 1 || command == 2) && !bare && !lasting ==> left is None && result
                == Err::<Option<Map<CborKey, Cbor>>, _>(FidoError::NoPinSession)
            &&& result is Err && lasting ==> left == session
        }),
{
}

/// A proof that a token does not cover is refused for its scope: the token does not permit
/// the operation, or is for another relying party.
pub proof fn proofs_out_of_scope_are_refused(
    session: Session,
    now: u64,
    map: Map<CborKey, Cbor>,
    rp: Map<CborKey, Cbor>,
    rp_id: Seq<char>,
)
    requires
        now < session.expires_at,
    ensures
        map.dom().contains(CborKey::Integer(8)) && leads(map, 2, Cbor::Table(rp)) && leads_text(
            rp,
            "id"@,
            Cbor::Text(rp_id),
        ) && (session.permissions & 1 == 0 || session.rp_id != rp_id) ==> translated_map(
            Some(session),
            now,
            1,
            map,
        ) == (Some(session), Err::<Option<Map<CborKey, Cbor>>, _>(FidoError::TokenScope)),
        map.dom().contains(CborKey::Integer(6)) && leads(map, 1, Cbor::Text(rp_id))
            && presence_readable(map) && (session.permissions & 2 == 0 || session.rp_id != rp_id)
            ==> translated_map(Some(session), now, 2, map) == (
            Some(session),
            Err::<Option<Map<CborKey, Cbor>>, _>(FidoError::TokenScope),
        ),
{
}

/// What holds of the map of a request holds of its bytes: the command stays, the map that is
/// forwarded is the exchanged one, what carries no proof passes byte for byte, and what
/// encodes no map is refused with the token left as it is.
pub proof fn bytes_follow_their_map(session: Option<Session>, now: u64, payload: Seq<u8>)
    requires
        payload.len() > 0,
    ensures
        match decoded_map(payload.skip(1)) {
            Err(err) => translated(session, now, payload) == (session, Err::<Seq<u8>, _>(err)),
            Ok(map) => {
                let (left, result) = translated_map(session, now, payload[0], map);
                &&& translated(session, now, payload).0 == left
                &&& match (result, translated(session, now, payload).1) {
                    (Err(err), refused) => refused == Err::<Seq<u8>, _>(err),
                    (Ok(None), Ok(forwarded)) => forwarded == payload,
                    (Ok(Some(request)), Ok(forwarded)) => forwarded.len() > 0 && forwarded[0]
                        == payload[0] && forwarded.skip(1) == encoded_map(request)->0,
                    _ => false,
                }
            },
        },
{
    if let Ok(map) = decoded_map(payload.skip(1)) {
        if let Ok(Some(request)) = translated_map(session, now, payload[0], map).1 {
            assert((seq![payload[0]] + encoded_map(request)->0).skip(1) =~= encoded_map(request)->0);
        }
    }
}

/// A forwarded GetAssertion with a proof leaves a token behind only if its options lead "up"
/// to false, and a forwarded MakeCredential with a proof never does.
pub proof fn only_silent_assertions_keep_the_token(
    session: Option<Session>,
    now: u64,
    payload: Seq<u8>,
    map: Map<CborKey, Cbor>,
)
    requires
        payload.len() > 0,
        decoded_map(payload.skip(1)) == Ok::<_, FidoError>(map),
        translated(session, now, payload).1 is Ok,
        (payload[0] == 1 && map.dom().contains(CborKey::Integer(8))) || (payload[0] == 2
            && map.dom().contains(CborKey::Integer(6))),
    ensures
        translated(session, now, payload).0 is Some <==> payload[0] == 2 && declines_presence(map),
        translated(session, now, payload).0 is Some ==> translated(session, now, payload).0
            == session,
{
    make_credential_proofs_are_exchanged(session, now, map);
    get_assertion_proofs_are_exchanged(session, now, map);
    other_requests_leave_the_token(session, now, payload[0], map);
}

/// A ClientPIN request asks for the broker's key where it leads 1 to 1 and 2 to 2, and for
/// a token where it leads 1 to 1 and 2 to 6. With any other subcommand it asks for nothing
/// that the broker knows.
pub proof fn subcommands_are_told_apart(secret: Seq<u8>, map: Map<CborKey, Cbor>, subcommand: u8)
    ensures
        asked_map(secret, map) == Ok::<_, FidoError>(Ask::KeyAgreement) <==> leads(
            map,
            1,
            Cbor::Integer(1),
        ) && leads(map, 2, Cbor::Integer(2)),
        asked_map(secret, map) matches Ok(Ask::Token(_)) ==> leads(map, 1, Cbor::Integer(1))
            && leads(map, 2, Cbor::Integer(6)),
        leads(map, 1, Cbor::Integer(1)) && leads(map, 2, Cbor::Integer(subcommand as i128))
            && subcommand != 2 && subcommand != 6 <==> asked_map(secret, map) == Ok::<
            _,
            FidoError,
        >(Ask::Unknown) && leads(map, 2, Cbor::Integer(subcommand as i128)),
        asked_map(secret, map) is Ok ==> leads(map, 1, Cbor::Integer(1)),
{
}

/// A token is asked for with permissions from 1 to 3 under 9, a relying party under 10 and a
/// P-256 key under 3. It is for those permissions and that relying party, and the secret
/// shared with whoever asked is the digest of what the broker's secret and that key agree on.
pub proof fn tokens_are_what_was_asked_for(
    secret: Seq<u8>,
    map: Map<CborKey, Cbor>,
    permissions: u8,
    rp_id: Seq<char>,
    key: Map<CborKey, Cbor>,
    x: Seq<u8>,
    y: Seq<u8>,
)
    requires
        leads(map, 1, Cbor::Integer(1)),
        leads(map, 2, Cbor::Integer(6)),
    ensures
        1 <= permissions <= 3 && leads(map, 9, Cbor::Integer(permissions as i128)) && leads(
            map,
            10,
            Cbor::Text(rp_id),
        ) && leads(map, 3, Cbor::Table(key)) && leads(key, 1, Cbor::Integer(2)) && leads(
            key,
            (-1) as i128,
            Cbor::Integer(1),
        ) && leads(key, (-2) as i128, Cbor::Bytes(x)) && leads(key, (-3) as i128, Cbor::Bytes(y)) && x.len() == 32
            && y.len() == 32 && on_curve(seq![4u8] + x + y) ==> asked_map(secret, map) == Ok::<
            _,
            FidoError,
        >(
            Ask::Token(
                Grant {
                    permissions,
                    rp_id,
                    remote_secret: sha256(agreed_coordinate(secret, seq![4u8] + x + y)),
                },
            ),
        ),
        asked_map(secret, map) matches Ok(Ask::Token(found)) ==> {
            &&& 1 <= found.permissions <= 3
            &&& leads(map, 9, Cbor::Integer(found.permissions as i128))
            &&& leads(map, 10, Cbor::Text(found.rp_id))
            &&& map.dom().contains(CborKey::Integer(3)) && map[CborKey::Integer(3)] is Table
        },
        (permissions == 0 || permissions > 3) && leads(map, 9, Cbor::Integer(permissions as i128))
            ==> asked_map(secret, map) == Err::<Ask, _>(FidoError::UnsupportedPermissions),
{
}

/// What the bytes of a ClientPIN request ask for is what the map in them asks for.
pub proof fn asks_are_read_from_their_map(secret: Seq<u8>, request: Seq<u8>)
    ensures
        match decoded_map(request) {
            Ok(map) => asked(secret, request) == asked_map(secret, map),
            Err(err) => asked(secret, request) == Err::<Ask, _>(err),
        },
{
}

/// A proof within the scope of a token that has not ended is still refused, with the token
/// left as it is: under another protocol, without a protocol or a hash, or where it is no byte
/// string of sixteen bytes. The reason is told.
pub proof fn malformed_proofs_are_refused(
    session: Session,
    now: u64,
    command: u8,
    map: Map<CborKey, Cbor>,
    rp: Map<CborKey, Cbor>,
    protocol: u8,
    hash: Seq<u8>,
    value: Cbor,
)
    requires
        now < session.expires_at,
        command == 1 || command == 2,
        command == 1 ==> session.permissions & 1 != 0 && leads(map, 2, Cbor::Table(rp))
            && leads_text(rp, "id"@, Cbor::Text(session.rp_id)),
        command == 2 ==> session.permissions & 2 != 0 && leads(map, 1, Cbor::Text(session.rp_id))
            && presence_readable(map),
    ensures
        ({
            let (proof_key, protocol_key, hash_key): (i128, i128, i128) = if command == 1 {
                (8, 9, 1)
            } else {
                (6, 7, 2)
            };
            let refused = |reason: FidoError|
                translated_map(Some(session), now, command, map) == (
                    Some(session),
                    Err::<Option<Map<CborKey, Cbor>>, _>(reason),
                );
            let proven = map.dom().contains(CborKey::Integer(proof_key));
            let settled = leads(map, protocol_key, Cbor::Integer(1));
            &&& proven && protocol != 1 && leads(map, protocol_key, Cbor::Integer(protocol as i128))
                ==> refused(FidoError::UnsupportedProtocol)
            &&& proven && !map.dom().contains(CborKey::Integer(protocol_key)) ==> refused(
                FidoError::MissingKey(protocol_key),
            )
            &&& proven && settled && !map.dom().contains(CborKey::Integer(hash_key)) ==> refused(
                FidoError::MissingKey(hash_key),
            )
            &&& settled && leads(map, hash_key, Cbor::Bytes(hash)) && leads(map, proof_key, value)
                && !(value is Bytes) ==> refused(FidoError::NotBytes(proof_key))
            &&& settled && leads(map, hash_key, Cbor::Bytes(hash)) && leads(map, proof_key, value)
                && (value matches Cbor::Bytes(supplied) && supplied.len() != 16) ==> refused(
                FidoError::ProofSize,
            )
        }),
{
}

/// A token request that lacks its permissions, its relying party or its key is refused for
/// what it lacks, and one whose key is none for what its key lacks.
pub proof fn incomplete_token_requests_are_refused(
    secret: Seq<u8>,
    map: Map<CborKey, Cbor>,
    permissions: u8,
    rp_id: Seq<char>,
    key: Cbor,
)
    requires
        leads(map, 1, Cbor::Integer(1)),
        leads(map, 2, Cbor::Integer(6)),
    ensures
        !map.dom().contains(CborKey::Integer(9)) ==> asked_map(secret, map) == Err::<Ask, _>(
            FidoError::MissingKey(9),
        ),
        1 <= permissions <= 3 && leads(map, 9, Cbor::Integer(permissions as i128)) ==> {
            &&& !map.dom().contains(CborKey::Integer(10)) ==> asked_map(secret, map) == Err::<
                Ask,
                _,
            >(FidoError::MissingKey(10))
            &&& leads(map, 10, Cbor::Text(rp_id)) && !map.dom().contains(CborKey::Integer(3))
                ==> asked_map(secret, map) == Err::<Ask, _>(FidoError::MissingKey(3))
            &&& leads(map, 10, Cbor::Text(rp_id)) && leads(map, 3, key) ==> (cose_point(
                key,
            ) matches Err(err) ==> asked_map(secret, map) == Err::<Ask, _>(err))
        },
{
}

} // verus!
