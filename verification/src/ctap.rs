//! The fields of CTAP requests and responses.

use vstd::prelude::*;
use vstd::slice::slice_subrange;

use crate::cbor::{
    array_model, decode_map, decoded, decoded_map, encode_map, encoded_map, expect_map, in_range,
    integer_in_range, readable, shallow, Cbor, CborKey, CborMap, CborValue,
};
use crate::error::FidoError;

verus! {

pub const CTAPHID_CBOR: u8 = 0x10;

pub const CTAP_GET_INFO: u8 = 0x04;

pub const CTAP_CLIENT_PIN: u8 = 0x06;

pub const CTAP_MAKE_CREDENTIAL: u8 = 0x01;

pub const CTAP_GET_ASSERTION: u8 = 0x02;

pub const CTAP2_OK: u8 = 0x00;

pub const CTAP2_ERR_OPERATION_DENIED: u8 = 0x27;

pub const CTAP2_ERR_PIN_INVALID: u8 = 0x31;

pub const CTAP2_ERR_PIN_AUTH_INVALID: u8 = 0x33;

pub const CTAP2_ERR_INVALID_SUBCOMMAND: u8 = 0x3e;

/// What an integer key leads to.
pub open spec fn entry(map: Map<CborKey, Cbor>, key: i128) -> Option<Cbor> {
    if map.dom().contains(CborKey::Integer(key)) {
        Some(map[CborKey::Integer(key)])
    } else {
        None
    }
}

/// What a text key leads to.
pub open spec fn text_entry(map: Map<CborKey, Cbor>, key: Seq<char>) -> Option<Cbor> {
    if map.dom().contains(CborKey::Text(key)) {
        Some(map[CborKey::Text(key)])
    } else {
        None
    }
}

/// The unsigned byte under a key.
pub open spec fn u8_at(map: Map<CborKey, Cbor>, key: i128) -> Result<u8, FidoError> {
    match entry(map, key) {
        None => Err(FidoError::MissingKey(key)),
        Some(Cbor::Integer(value)) => if 0 <= value <= u8::MAX {
            Ok(value as u8)
        } else {
            Err(FidoError::NotUnsignedByte(key))
        },
        Some(_) => Err(FidoError::NotInteger(key)),
    }
}

/// The byte string under a key.
pub open spec fn bytes_at(map: Map<CborKey, Cbor>, key: i128) -> Result<Seq<u8>, FidoError> {
    match entry(map, key) {
        None => Err(FidoError::MissingKey(key)),
        Some(Cbor::Bytes(bytes)) => Ok(bytes),
        Some(_) => Err(FidoError::NotBytes(key)),
    }
}

/// The text under a key.
pub open spec fn text_at(map: Map<CborKey, Cbor>, key: i128) -> Result<Seq<char>, FidoError> {
    match entry(map, key) {
        None => Err(FidoError::MissingKey(key)),
        Some(Cbor::Text(text)) => Ok(text),
        Some(_) => Err(FidoError::NotText(key)),
    }
}

/// The map with the given integer keys; where a key comes twice, the later entry
/// counts.
pub open spec fn table_of(entries: Seq<(i128, CborValue)>) -> Map<CborKey, Cbor>
    decreases entries.len(),
{
    if entries.len() == 0 {
        Map::empty()
    } else {
        table_of(entries.drop_last()).insert(
            CborKey::Integer(entries.last().0),
            entries.last().1@,
        )
    }
}

/// Builds a map with integer keys.
pub fn map_of(entries: Vec<(i128, CborValue)>) -> (map: CborMap)
    ensures
        map@ == table_of(entries@),
{
    let mut left = entries;
    let ghost all = entries@;
    let mut map = CborMap::new();
    let ghost mut done: int = 0;
    while left.len() > 0
        invariant
            0 <= done <= all.len(),
            left@ == all.skip(done),
            map@ == table_of(all.take(done)),
        decreases left@.len(),
    {
        let (key, value) = left.remove(0);
        map.insert(key, value);
        proof {
            assert(all.take(done + 1).drop_last() =~= all.take(done));
            assert(left@ =~= all.skip(done + 1));
            done = done + 1;
        }
    }
    assert(all.take(done) =~= all);
    map
}

/// What an integer key leads to.
pub fn map_value(map: &CborMap, key: i128) -> (result: Result<&CborValue, FidoError>)
    ensures
        match result {
            Ok(value) => entry(map@, key) == Some(value@),
            Err(err) => entry(map@, key) is None && err == FidoError::MissingKey(key),
        },
{
    match map.get(key) {
        Some(value) => Ok(value),
        None => Err(FidoError::MissingKey(key)),
    }
}

/// The unsigned byte under a key.
pub fn map_u8(map: &CborMap, key: i128) -> (result: Result<u8, FidoError>)
    ensures
        result == u8_at(map@, key),
{
    let value = map_value(map, key)?;
    match value.as_integer() {
        Some(number) => {
            if 0 <= number && number <= 255 {
                Ok(number as u8)
            } else {
                Err(FidoError::NotUnsignedByte(key))
            }
        },
        None => Err(FidoError::NotInteger(key)),
    }
}

/// The byte string under a key.
pub fn map_bytes(map: &CborMap, key: i128) -> (result: Result<&[u8], FidoError>)
    ensures
        match result {
            Ok(bytes) => bytes_at(map@, key) == Ok::<_, FidoError>(bytes@),
            Err(err) => bytes_at(map@, key) == Err::<Seq<u8>, _>(err),
        },
{
    let value = map_value(map, key)?;
    match value.as_bytes() {
        Some(bytes) => Ok(bytes),
        None => Err(FidoError::NotBytes(key)),
    }
}

/// The text under a key.
pub fn map_text(map: &CborMap, key: i128) -> (result: Result<&str, FidoError>)
    ensures
        match result {
            Ok(text) => text_at(map@, key) == Ok::<_, FidoError>(text@),
            Err(err) => text_at(map@, key) == Err::<Seq<char>, _>(err),
        },
{
    let value = map_value(map, key)?;
    match value.as_text() {
        Some(text) => Ok(text),
        None => Err(FidoError::NotText(key)),
    }
}

/// A request under the first PIN/UV protocol, or why it is not one.
pub open spec fn protocol_one(map: Map<CborKey, Cbor>) -> Result<(), FidoError> {
    match u8_at(map, 1) {
        Ok(protocol) => if protocol == 1 {
            Ok(())
        } else {
            Err(FidoError::UnsupportedProtocol)
        },
        Err(err) => Err(err),
    }
}

/// Accepts a request only under the first PIN/UV protocol.
pub fn require_protocol_one(map: &CborMap) -> (result: Result<(), FidoError>)
    ensures
        result == protocol_one(map@),
{
    if map_u8(map, 1)? != 1 {
        Err(FidoError::UnsupportedProtocol)
    } else {
        Ok(())
    }
}

/// A response that is a status alone.
pub fn ctap_error(status: u8) -> (response: Vec<u8>)
    ensures
        response@ == seq![status],
{
    vec![status]
}

/// A leading byte and the bytes that follow it.
pub fn with_first(first: u8, rest: Vec<u8>) -> (bytes: Vec<u8>)
    ensures
        bytes@ == seq![first] + rest@,
        bytes@.skip(1) == rest@,
{
    let mut bytes: Vec<u8> = vec![first];
    let mut rest = rest;
    let ghost tail = rest@;
    bytes.append(&mut rest);
    assert(bytes@ =~= seq![first] + tail);
    assert(bytes@.skip(1) =~= tail);
    bytes
}

/// A leading byte and the encoding of a map.
fn prefixed(first: u8, map: CborMap) -> (result: Result<Vec<u8>, FidoError>)
    ensures
        match result {
            Ok(bytes) => encoded_map(map@) is Some && bytes@ == seq![first] + encoded_map(map@)->0
                && (shallow(Cbor::Table(map@), 127) ==> decoded_map(bytes@.skip(1)) == Ok::<
                _,
                FidoError,
            >(map@)),
            Err(err) => encoded_map(map@) is None && !in_range(Cbor::Table(map@)) && err
                == FidoError::IntegerOutOfRange,
        },
{
    Ok(with_first(first, encode_map(map)?))
}

/// A successful response that carries a map. It fails exactly when the map holds an
/// integer that CBOR cannot. The map can be read back from it, unless it is deeper than is
/// read.
pub fn ctap_success(map: CborMap) -> (result: Result<Vec<u8>, FidoError>)
    ensures
        match result {
            Ok(response) => encoded_map(map@) is Some && response@ == seq![CTAP2_OK]
                + encoded_map(map@)->0 && (shallow(Cbor::Table(map@), 127) ==> successful(response@)
                == Ok::<_, FidoError>(map@)),
            Err(err) => !in_range(Cbor::Table(map@)) && err == FidoError::IntegerOutOfRange,
        },
{
    prefixed(CTAP2_OK, map)
}

/// A ClientPIN request that carries a map.
pub fn encode_client_pin(map: CborMap) -> (result: Result<Vec<u8>, FidoError>)
    ensures
        match result {
            Ok(request) => encoded_map(map@) is Some && request@ == seq![CTAP_CLIENT_PIN]
                + encoded_map(map@)->0 && (shallow(Cbor::Table(map@), 127) ==> decoded_map(
                request@.skip(1),
            ) == Ok::<_, FidoError>(map@)),
            Err(err) => !in_range(Cbor::Table(map@)) && err == FidoError::IntegerOutOfRange,
        },
{
    prefixed(CTAP_CLIENT_PIN, map)
}

/// The map in a successful response, or why there is none.
pub open spec fn successful(response: Seq<u8>) -> Result<Map<CborKey, Cbor>, FidoError> {
    if response.len() == 0 {
        Err(FidoError::EmptyResponse)
    } else if response[0] != CTAP2_OK {
        Err(FidoError::Rejected(response[0]))
    } else {
        decoded_map(response.skip(1))
    }
}

/// Everything but the first byte.
fn after_first(bytes: &[u8]) -> (rest: &[u8])
    requires
        bytes@.len() > 0,
    ensures
        rest@ == bytes@.skip(1),
{
    slice_subrange(bytes, 1, bytes.len())
}

/// Reads the map in a successful response.
pub fn successful_map(response: &[u8]) -> (result: Result<CborMap, FidoError>)
    ensures
        match result {
            Ok(map) => successful(response@) == Ok::<_, FidoError>(map@) && readable(map@),
            Err(err) => successful(response@) == Err::<Map<CborKey, Cbor>, _>(err),
        },
{
    if response.len() == 0 {
        return Err(FidoError::EmptyResponse);
    }
    if response[0] != CTAP2_OK {
        return Err(FidoError::Rejected(response[0]));
    }
    decode_map(after_first(response))
}

/// The relying party id of a MakeCredential request.
pub open spec fn credential_rp_id(map: Map<CborKey, Cbor>) -> Result<Seq<char>, FidoError> {
    match entry(map, 2) {
        None => Err(FidoError::MissingKey(2)),
        Some(Cbor::Table(rp)) => match text_entry(rp, "id"@) {
            Some(Cbor::Text(id)) => Ok(id),
            _ => Err(FidoError::RelyingPartyWithoutId),
        },
        Some(_) => Err(FidoError::RelyingPartyNotAMap),
    }
}

/// Reads the relying party id of a MakeCredential request.
pub fn make_credential_rp_id(map: &CborMap) -> (result: Result<String, FidoError>)
    ensures
        match result {
            Ok(id) => credential_rp_id(map@) == Ok::<_, FidoError>(id@),
            Err(err) => credential_rp_id(map@) == Err::<Seq<char>, _>(err),
        },
{
    match map_value(map, 2)?.as_map() {
        None => Err(FidoError::RelyingPartyNotAMap),
        Some(rp) => match rp.get_text("id") {
            None => Err(FidoError::RelyingPartyWithoutId),
            Some(value) => match value.as_text() {
                Some(id) => Ok(id.to_owned()),
                None => Err(FidoError::RelyingPartyWithoutId),
            },
        },
    }
}

/// Whether a GetAssertion request asks for a test of user presence: it does unless
/// the `up` option says otherwise.
pub open spec fn tests_presence(map: Map<CborKey, Cbor>) -> Result<bool, FidoError> {
    match entry(map, 5) {
        None => Ok(true),
        Some(Cbor::Table(options)) => match text_entry(options, "up"@) {
            Some(Cbor::Bool(flag)) => Ok(flag),
            Some(_) => Err(FidoError::PresenceNotBoolean),
            None => Ok(true),
        },
        Some(_) => Err(FidoError::AssertionOptionsNotAMap),
    }
}

/// Tells whether a GetAssertion request asks for a test of user presence.
pub fn get_assertion_tests_presence(map: &CborMap) -> (result: Result<bool, FidoError>)
    ensures
        result == tests_presence(map@),
{
    match map.get(5) {
        None => Ok(true),
        Some(value) => match value.as_map() {
            None => Err(FidoError::AssertionOptionsNotAMap),
            Some(options) => match options.get_text("up") {
                None => Ok(true),
                Some(value) => match value.as_bool() {
                    Some(flag) => Ok(flag),
                    None => Err(FidoError::PresenceNotBoolean),
                },
            },
        },
    }
}

/// The options that the broker announces: local user verification and PIN/UV tokens,
/// and no client PIN. Absence of a client PIN means unsupported, whereas `false` would
/// mean that one could be set up.
pub open spec fn broker_options(options: Map<CborKey, Cbor>) -> Map<CborKey, Cbor> {
    options.insert(CborKey::Text("uv"@), Cbor::Bool(true)).remove(
        CborKey::Text("clientPin"@),
    ).insert(CborKey::Text("pinUvAuthToken"@), Cbor::Bool(true))
}

/// The authenticator's description of itself with the broker announced in it.
pub open spec fn advertised(info: Map<CborKey, Cbor>) -> Result<Map<CborKey, Cbor>, FidoError> {
    match entry(info, 4) {
        None => Ok(announcement(info, Map::empty())),
        Some(Cbor::Table(options)) => Ok(announcement(info, options)),
        Some(_) => Err(FidoError::InfoOptionsNotAMap),
    }
}

/// The description with the broker's options in place of `options`, and the first
/// PIN/UV protocol as the only one.
pub open spec fn announcement(info: Map<CborKey, Cbor>, options: Map<CborKey, Cbor>) -> Map<
    CborKey,
    Cbor,
> {
    info.insert(CborKey::Integer(4), Cbor::Table(broker_options(options))).insert(
        CborKey::Integer(6),
        Cbor::Array(seq![Cbor::Integer(1)]),
    )
}

/// A GetInfo response with the broker announced in it. A response that reports a
/// failure stays as it is.
pub open spec fn announced(response: Seq<u8>) -> Result<Seq<u8>, FidoError> {
    if response.len() == 0 || response[0] != CTAP2_OK {
        Ok(response)
    } else {
        match decoded_map(response.skip(1)) {
            Err(err) => Err(err),
            Ok(info) => match advertised(info) {
                Err(err) => Err(err),
                Ok(brokered) => Ok(seq![CTAP2_OK] + encoded_map(brokered)->0),
            },
        }
    }
}

/// A description that can be read can still be read with the broker announced in it.
proof fn lemma_announcement_readable(info: Map<CborKey, Cbor>, options: Map<CborKey, Cbor>)
    requires
        readable(info),
        in_range(Cbor::Table(options)),
        shallow(Cbor::Table(options), 126),
    ensures
        readable(announcement(info, options)),
{
    let whole = Cbor::Table(info);
    let old_options = Cbor::Table(options);
    let new_options = Cbor::Table(broker_options(options));
    let protocols = Cbor::Array(seq![Cbor::Integer(1)]);
    assert forall|key: CborKey| #[trigger] new_options->Table_0.dom().contains(key) implies (
    key matches CborKey::Integer(value) ==> integer_in_range(value)) && (
    key matches CborKey::Other(bytes) ==> decoded(bytes) is Some && shallow(
        decoded(bytes)->0,
        125,
    )) && in_range(new_options->Table_0[key]) && shallow(new_options->Table_0[key], 125) by {
        if old_options->Table_0.dom().contains(key) {
            assert(in_range(old_options->Table_0[key]));
            assert(shallow(old_options->Table_0[key], 125));
        }
    }
    assert(in_range(new_options) && shallow(new_options, 126));
    assert(in_range(Cbor::Integer(1)) && shallow(Cbor::Integer(1), 125));
    assert(in_range(protocols) && shallow(protocols, 126));
    let result = Cbor::Table(announcement(info, options));
    assert forall|key: CborKey| #[trigger] result->Table_0.dom().contains(key) implies (
    key matches CborKey::Integer(value) ==> integer_in_range(value)) && (
    key matches CborKey::Other(bytes) ==> decoded(bytes) is Some && shallow(
        decoded(bytes)->0,
        126,
    )) && in_range(result->Table_0[key]) && shallow(result->Table_0[key], 126) by {
        if whole->Table_0.dom().contains(key) {
            assert(in_range(whole->Table_0[key]));
            assert(shallow(whole->Table_0[key], 126));
        }
    }
}

/// Announces the broker in the authenticator's description of itself.
pub fn advertise(info: CborMap) -> (result: Result<CborMap, FidoError>)
    ensures
        match result {
            Ok(brokered) => advertised(info@) == Ok::<_, FidoError>(brokered@) && (readable(info@)
                ==> readable(brokered@)),
            Err(err) => advertised(info@) == Err::<Map<CborKey, Cbor>, _>(err),
        },
{
    let mut info = info;
    let ghost before = info@;
    let mut options = match info.remove(4) {
        None => CborMap::new(),
        Some(value) => match expect_map(value) {
            Ok(options) => options,
            Err(_) => {
                return Err(FidoError::InfoOptionsNotAMap);
            },
        },
    };
    let ghost old_options = options@;
    options.insert_text("uv", CborValue::Bool(true));
    let _ = options.remove_text("clientPin");
    options.insert_text("pinUvAuthToken", CborValue::Bool(true));
    info.insert(4, CborValue::Table(options));
    let protocols = CborValue::Array(vec![CborValue::Integer(1)]);
    proof {
        reveal_with_fuel(array_model, 2);
        reveal_with_fuel(CborValue::model, 2);
        let list = protocols->Array_0@;
        assert(list.drop_last() =~= Seq::<CborValue>::empty());
        assert(protocols@ == Cbor::Array(array_model(list)));
        assert(array_model(list) =~= seq![Cbor::Integer(1)]);
    }
    info.insert(6, protocols);
    proof {
        assert(info@ =~= announcement(before, old_options));
        if readable(before) {
            if entry(before, 4) is Some {
                let whole = Cbor::Table(before);
                assert(whole->Table_0.dom().contains(CborKey::Integer(4)));
                assert(in_range(whole->Table_0[CborKey::Integer(4)]));
                assert(shallow(whole->Table_0[CborKey::Integer(4)], 126));
            } else {
                assert(in_range(Cbor::Table(old_options)));
                assert(shallow(Cbor::Table(old_options), 126));
            }
            lemma_announcement_readable(before, old_options);
        }
    }
    Ok(info)
}

/// Announces the broker in a GetInfo response. A refused response is left as it was. The
/// description with the broker in it can be read back from the result, and announcing the
/// broker again changes nothing.
pub fn advertise_local_pin_broker(payload: &mut Vec<u8>) -> (result: Result<(), FidoError>)
    ensures
        match result {
            Ok(()) => {
                &&& announced(old(payload)@) == Ok::<_, FidoError>(final(payload)@)
                &&& announced(final(payload)@) == Ok::<_, FidoError>(final(payload)@)
                &&& successful(old(payload)@) matches Ok(info) ==> advertised(info) is Ok
                    && successful(final(payload)@) == advertised(info)
            },
            Err(err) => announced(old(payload)@) == Err::<Seq<u8>, _>(err) && final(payload)@
                == old(payload)@,
        },
{
    if payload.len() == 0 || payload[0] != CTAP2_OK {
        return Ok(());
    }
    let info = decode_map(after_first(payload.as_slice()))?;
    let ghost before = info@;
    let brokered = advertise(info)?;
    proof {
        broker_is_announced(before);
    }
    let response = ctap_success(brokered)?;
    *payload = response;
    Ok(())
}

/// The broker is announced once and for all: local user verification and PIN/UV tokens
/// are offered, a client PIN is not, the first PIN/UV protocol is the only one, and
/// nothing else in the description changes. Announcing it again changes nothing.
pub proof fn broker_is_announced(info: Map<CborKey, Cbor>)
    requires
        advertised(info) is Ok,
    ensures
        ({
            let brokered = advertised(info)->Ok_0;
            &&& entry(brokered, 4) matches Some(Cbor::Table(options)) && {
                &&& text_entry(options, "uv"@) == Some(Cbor::Bool(true))
                &&& text_entry(options, "clientPin"@) is None
                &&& text_entry(options, "pinUvAuthToken"@) == Some(Cbor::Bool(true))
                &&& forall|key: CborKey|
                    key != CborKey::Text("uv"@) && key != CborKey::Text("clientPin"@) && key
                        != CborKey::Text("pinUvAuthToken"@) ==> {
                        &&& #[trigger] options.dom().contains(key) == (entry(info, 4) is Some
                            && entry(info, 4)->0->Table_0.dom().contains(key))
                        &&& options.dom().contains(key) ==> options[key] == entry(
                            info,
                            4,
                        )->0->Table_0[key]
                    }
            }
            &&& entry(brokered, 6) == Some(Cbor::Array(seq![Cbor::Integer(1)]))
            &&& forall|key: CborKey|
                key != CborKey::Integer(4) && key != CborKey::Integer(6) ==> {
                    &&& #[trigger] brokered.dom().contains(key) == info.dom().contains(key)
                    &&& brokered.dom().contains(key) ==> brokered[key] == info[key]
                }
            &&& advertised(brokered) == advertised(info)
        }),
{
    reveal_strlit("uv");
    reveal_strlit("clientPin");
    reveal_strlit("pinUvAuthToken");
    assert("uv"@.len() != "clientPin"@.len());
    assert("uv"@.len() != "pinUvAuthToken"@.len());
    assert("clientPin"@.len() != "pinUvAuthToken"@.len());
    let options = if entry(info, 4) is Some {
        entry(info, 4)->0->Table_0
    } else {
        Map::empty()
    };
    let brokered = advertised(info)->Ok_0;
    assert(brokered == announcement(info, options));
    assert(broker_options(broker_options(options)) =~= broker_options(options));
    assert(announcement(brokered, broker_options(options)) =~= brokered);
}

/// A map leads an integer key to a value.
pub open spec fn leads(map: Map<CborKey, Cbor>, key: i128, value: Cbor) -> bool {
    map.dom().contains(CborKey::Integer(key)) && map[CborKey::Integer(key)] == value
}

/// A map leads a text key to a value.
pub open spec fn leads_text(map: Map<CborKey, Cbor>, key: Seq<char>, value: Cbor) -> bool {
    map.dom().contains(CborKey::Text(key)) && map[CborKey::Text(key)] == value
}

/// A field is what its own key leads to: what is put under a key is found there, what is
/// put under another key does not matter, and what is taken away is missing.
pub proof fn fields_are_what_their_keys_lead_to(
    map: Map<CborKey, Cbor>,
    key: i128,
    other: CborKey,
    value: Cbor,
)
    requires
        other != CborKey::Integer(key),
    ensures
        entry(map.insert(CborKey::Integer(key), value), key) == Some(value),
        entry(map.insert(other, value), key) == entry(map, key),
        entry(map.remove(CborKey::Integer(key)), key) is None,
        entry(map.remove(other), key) == entry(map, key),
        forall|found: Cbor| entry(map, key) == Some(found) <==> #[trigger] leads(map, key, found),
{
}

/// The same of what a text key leads to.
pub proof fn text_fields_are_what_their_keys_lead_to(
    map: Map<CborKey, Cbor>,
    key: Seq<char>,
    other: CborKey,
    value: Cbor,
)
    requires
        other != CborKey::Text(key),
    ensures
        text_entry(map.insert(CborKey::Text(key), value), key) == Some(value),
        text_entry(map.insert(other, value), key) == text_entry(map, key),
        text_entry(map.remove(CborKey::Text(key)), key) is None,
        text_entry(map.remove(other), key) == text_entry(map, key),
        forall|found: Cbor|
            text_entry(map, key) == Some(found) <==> #[trigger] leads_text(map, key, found),
{
}

/// Whatever number stands under a key, it is read as an unsigned byte exactly when it is
/// one, and then it is that number. Anything but a number, and a missing key, is refused.
pub proof fn unsigned_bytes_are_read_as_they_are(
    map: Map<CborKey, Cbor>,
    key: i128,
    number: i128,
    value: Cbor,
)
    ensures
        ({
            let read = u8_at(map.insert(CborKey::Integer(key), Cbor::Integer(number)), key);
            &&& 0 <= number < 256 ==> read is Ok && read->Ok_0 == number
            &&& !(0 <= number < 256) ==> read == Err::<u8, _>(FidoError::NotUnsignedByte(key))
        }),
        !(value is Integer) ==> u8_at(map.insert(CborKey::Integer(key), value), key) == Err::<u8, _>(
            FidoError::NotInteger(key),
        ),
        u8_at(map.remove(CborKey::Integer(key)), key) == Err::<u8, _>(FidoError::MissingKey(key)),
        forall|byte: u8|
            u8_at(map, key) == Ok::<u8, FidoError>(byte) <==> #[trigger] leads(
                map,
                key,
                Cbor::Integer(byte as i128),
            ),
{
    assert forall|byte: u8|
        u8_at(map, key) == Ok::<u8, FidoError>(byte) <==> #[trigger] leads(
            map,
            key,
            Cbor::Integer(byte as i128),
        ) by {
        if let Some(Cbor::Integer(found)) = entry(map, key) {
            assert(leads(map, key, Cbor::Integer(found)));
        }
    }
}

/// Byte strings and texts are read as they stand under their key; anything else, and a
/// missing key, is refused.
pub proof fn strings_are_read_as_they_are(
    map: Map<CborKey, Cbor>,
    key: i128,
    bytes: Seq<u8>,
    text: Seq<char>,
    value: Cbor,
)
    ensures
        bytes_at(map.insert(CborKey::Integer(key), Cbor::Bytes(bytes)), key) == Ok::<_, FidoError>(
            bytes,
        ),
        !(value is Bytes) ==> bytes_at(map.insert(CborKey::Integer(key), value), key) == Err::<
            Seq<u8>,
            _,
        >(FidoError::NotBytes(key)),
        bytes_at(map.remove(CborKey::Integer(key)), key) == Err::<Seq<u8>, _>(
            FidoError::MissingKey(key),
        ),
        text_at(map.insert(CborKey::Integer(key), Cbor::Text(text)), key) == Ok::<_, FidoError>(
            text,
        ),
        !(value is Text) ==> text_at(map.insert(CborKey::Integer(key), value), key) == Err::<
            Seq<char>,
            _,
        >(FidoError::NotText(key)),
        text_at(map.remove(CborKey::Integer(key)), key) == Err::<Seq<char>, _>(
            FidoError::MissingKey(key),
        ),
        forall|found: Seq<u8>|
            bytes_at(map, key) == Ok::<_, FidoError>(found) <==> #[trigger] leads(
                map,
                key,
                Cbor::Bytes(found),
            ),
        forall|found: Seq<char>|
            text_at(map, key) == Ok::<_, FidoError>(found) <==> #[trigger] leads(
                map,
                key,
                Cbor::Text(found),
            ),
{
}

/// A map made of a list leads each key to the last value that the list has for it, and has
/// no other keys.
pub proof fn lists_make_maps(entries: Seq<(i128, CborValue)>, at: int)
    requires
        0 <= at < entries.len(),
        forall|later: int| at < later < entries.len() ==> (#[trigger] entries[later]).0 != entries[at].0,
    ensures
        leads(table_of(entries), entries[at].0, entries[at].1@),
        forall|key: CborKey| #[trigger]
            table_of(entries).dom().contains(key) ==> exists|i: int|
                0 <= i < entries.len() && key == CborKey::Integer((#[trigger] entries[i]).0),
    decreases entries.len(),
{
    let rest = entries.drop_last();
    if at < entries.len() - 1 {
        assert forall|later: int| at < later < rest.len() implies (#[trigger] rest[later]).0
            != rest[at].0 by {
            assert(rest[later] == entries[later]);
        }
        lists_make_maps(rest, at);
        assert(entries[entries.len() - 1].0 != entries[at].0);
    } else if rest.len() > 0 {
        lemma_table_keys(rest);
    }
    assert forall|key: CborKey| #[trigger] table_of(entries).dom().contains(key) implies exists|
        i: int,
    |
        0 <= i < entries.len() && key == CborKey::Integer((#[trigger] entries[i]).0) by {
        if key == CborKey::Integer(entries.last().0) {
            assert(key == CborKey::Integer(entries[entries.len() - 1].0));
        } else {
            lemma_table_keys(rest);
            assert(table_of(rest).dom().contains(key));
            let i = choose|i: int|
                0 <= i < rest.len() && key == CborKey::Integer((#[trigger] rest[i]).0);
            assert(entries[i] == rest[i]);
        }
    }
}

proof fn lemma_table_keys(entries: Seq<(i128, CborValue)>)
    ensures
        forall|key: CborKey| #[trigger]
            table_of(entries).dom().contains(key) ==> exists|i: int|
                0 <= i < entries.len() && key == CborKey::Integer((#[trigger] entries[i]).0),
    decreases entries.len(),
{
    if entries.len() > 0 {
        let rest = entries.drop_last();
        lemma_table_keys(rest);
        assert forall|key: CborKey| #[trigger] table_of(entries).dom().contains(key) implies exists|
            i: int,
        |
            0 <= i < entries.len() && key == CborKey::Integer((#[trigger] entries[i]).0) by {
            if key == CborKey::Integer(entries.last().0) {
                assert(key == CborKey::Integer(entries[entries.len() - 1].0));
            } else {
                assert(table_of(rest).dom().contains(key));
                let i = choose|i: int|
                    0 <= i < rest.len() && key == CborKey::Integer((#[trigger] rest[i]).0);
                assert(entries[i] == rest[i]);
            }
        }
    }
}

/// A request is under the first protocol exactly when it leads 1 to 1. Any other number of
/// a protocol is refused as such.
pub proof fn only_the_first_protocol_is_taken(map: Map<CborKey, Cbor>)
    ensures
        protocol_one(map) is Ok <==> leads(map, 1, Cbor::Integer(1)),
        forall|number: i128|
            2 <= number < 256 && #[trigger] leads(map, 1, Cbor::Integer(number)) ==> protocol_one(
                map,
            ) == Err::<(), _>(FidoError::UnsupportedProtocol),
        leads(map, 1, Cbor::Integer(0)) ==> protocol_one(map) == Err::<(), _>(
            FidoError::UnsupportedProtocol,
        ),
{
}

/// A response is successful exactly when its first byte is zero: then it holds the map that
/// the other bytes encode. Any other first byte is the reason of the authenticator.
pub proof fn only_a_zero_is_success(status: u8, body: Seq<u8>)
    ensures
        status == 0 ==> successful(seq![status] + body) == decoded_map(body),
        status != 0 ==> successful(seq![status] + body) == Err::<Map<CborKey, Cbor>, _>(
            FidoError::Rejected(status),
        ),
        successful(Seq::empty()) == Err::<Map<CborKey, Cbor>, _>(FidoError::EmptyResponse),
{
    assert((seq![status] + body).skip(1) =~= body);
}

/// The relying party of a MakeCredential request is the text under "id" in the map under 2,
/// and there is none without it.
pub proof fn credentials_name_their_relying_party(
    map: Map<CborKey, Cbor>,
    rp: Map<CborKey, Cbor>,
    id: Seq<char>,
    value: Cbor,
)
    ensures
        leads(map, 2, Cbor::Table(rp)) && leads_text(rp, "id"@, Cbor::Text(id))
            ==> credential_rp_id(map) == Ok::<_, FidoError>(id),
        !map.dom().contains(CborKey::Integer(2)) ==> credential_rp_id(map) == Err::<Seq<char>, _>(
            FidoError::MissingKey(2),
        ),
        leads(map, 2, value) && !(value is Table) ==> credential_rp_id(map) == Err::<Seq<char>, _>(
            FidoError::RelyingPartyNotAMap,
        ),
        leads(map, 2, Cbor::Table(rp)) && (!rp.dom().contains(CborKey::Text("id"@)) || !(
        rp[CborKey::Text("id"@)] is Text)) ==> credential_rp_id(map) == Err::<Seq<char>, _>(
            FidoError::RelyingPartyWithoutId,
        ),
        credential_rp_id(map) == Ok::<_, FidoError>(id) ==> {
            &&& map.dom().contains(CborKey::Integer(2))
            &&& map[CborKey::Integer(2)] matches Cbor::Table(found)
            &&& leads_text(found, "id"@, Cbor::Text(id))
        },
{
}

/// A GetAssertion request whose options lead "up" to a truth value tests user presence
/// exactly when that value is true. One without options, or without that option, tests it.
/// Anything else there is refused.
pub proof fn presence_is_tested_unless_declined(
    map: Map<CborKey, Cbor>,
    options: Map<CborKey, Cbor>,
    flag: bool,
    value: Cbor,
)
    ensures
        leads(map, 5, Cbor::Table(options)) && leads_text(options, "up"@, Cbor::Bool(flag))
            ==> tests_presence(map) == Ok::<bool, FidoError>(flag),
        leads(map, 5, Cbor::Table(options)) && !options.dom().contains(CborKey::Text("up"@))
            ==> tests_presence(map) == Ok::<bool, FidoError>(true),
        !map.dom().contains(CborKey::Integer(5)) ==> tests_presence(map) == Ok::<bool, FidoError>(
            true,
        ),
        leads(map, 5, value) && !(value is Table) ==> tests_presence(map) == Err::<bool, _>(
            FidoError::AssertionOptionsNotAMap,
        ),
        leads(map, 5, Cbor::Table(options)) && leads_text(options, "up"@, value) && !(value is Bool)
            ==> tests_presence(map) == Err::<bool, _>(FidoError::PresenceNotBoolean),
        tests_presence(map) == Ok::<bool, FidoError>(false) ==> {
            &&& map.dom().contains(CborKey::Integer(5))
            &&& map[CborKey::Integer(5)] matches Cbor::Table(found)
            &&& leads_text(found, "up"@, Cbor::Bool(false))
        },
{
}

/// The broker is announced in every description whose options are a map or missing, and in
/// no other. A response that does not report success stays as it is; in one that does, the
/// status stays, and what does not encode a map is refused.
pub proof fn descriptions_are_announced_or_refused(
    info: Map<CborKey, Cbor>,
    status: u8,
    body: Seq<u8>,
)
    ensures
        advertised(info) matches Err(err) ==> err == FidoError::InfoOptionsNotAMap,
        advertised(info) is Ok <==> (!info.dom().contains(CborKey::Integer(4))
            || info[CborKey::Integer(4)] is Table),
        status != 0 ==> announced(seq![status] + body) == Ok::<_, FidoError>(seq![status] + body),
        announced(Seq::empty()) == Ok::<Seq<u8>, FidoError>(Seq::empty()),
        match decoded_map(body) {
            Err(err) => announced(seq![0u8] + body) == Err::<Seq<u8>, _>(err),
            Ok(found) => match (advertised(found), announced(seq![0u8] + body)) {
                (Ok(brokered), Ok(response)) => response == seq![0u8] + encoded_map(brokered)->0,
                (Err(err), outcome) => outcome == Err::<Seq<u8>, _>(err),
                _ => false,
            },
        },
{
    assert((seq![0u8] + body).skip(1) =~= body);
}


} // verus!
