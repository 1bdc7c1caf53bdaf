//! The local end of the forwarding: an authenticator's reports are passed on, and the
//! PIN is kept local. The remote side gets tokens of the broker's own in exchange for a
//! PIN that is entered here, and its proofs are exchanged for the authenticator's.
//!
//! The broker does no I/O. [`FidoClient::write_reports`] and [`FidoClient::resume`] say
//! what to do next, and [`FidoClient::resume`] is told what came of it.

use std::collections::{HashSet, VecDeque};

use vstd::prelude::*;
use vstd::slice::slice_subrange;
use vstd::utf8::encode_utf8;

use crate::cbor::{
    decoded, encoded_map, in_range, integer_in_range, shallow, Cbor, CborKey, CborValue,
};
use crate::crypto::{
    aes_cbc_decrypt, aes_cbc_encrypt, cose, cose_key_reads_back, cose_point, cose_public_key,
    decrypted, encrypted, is_secret, lemma_cose_shallow, parse_cose_public, pin_hash,
    public_point_of, sha256, shared, shared_secret, Hidden, HiddenText, PublicKey, SecretKey,
};
use crate::ctap::{
    advertise_local_pin_broker, announced, bytes_at, ctap_error, ctap_success, encode_client_pin,
    entry, map_bytes, map_of, map_value, successful, successful_map, table_of,
    CTAP2_ERR_INVALID_SUBCOMMAND, CTAP2_ERR_OPERATION_DENIED, CTAP2_ERR_PIN_AUTH_INVALID,
    CTAP2_ERR_PIN_INVALID, CTAP2_OK, CTAPHID_CBOR, CTAP_CLIENT_PIN, CTAP_GET_ASSERTION,
    CTAP_GET_INFO, CTAP_MAKE_CREDENTIAL,
};
use crate::error::FidoError;
use crate::framing::{
    accepted, fragment_message, fragments, pending_wf, views, CtapAssembler, CtapMessage, Message,
    Partial, MAX_CTAPHID_PAYLOAD,
};
use crate::hid::{input_report, read_hid_report, read_views, HidRead};
use crate::pin::{
    asked, expire_session, live, read_client_pin, session_of, translate_pin_proof, translated, Ask,
    ClientPinAsk, Grant, PinSession, Session, TokenGrant, PIN_TOKEN_LIFETIME,
};
use crate::selector::{
    candidate_views, choose_candidate, chosen, name_of, request_of, Candidate, HidCandidate,
    SelectionError, Unselected, PRODUCT_NAME_LENGTH,
};
use crate::text::at_most;

verus! {

/// How many reports are taken in or handed out at a time.
pub const MAX_REPORTS_PER_CYCLE: usize = 64;

/// How often the PIN is asked for before a request is denied.
pub const PIN_ATTEMPTS: u8 = 3;

/// How long the authenticator may take to answer, in nanoseconds: ten seconds.
pub const EXCHANGE_TIMEOUT: u64 = 10_000_000_000;

/// What is under way with the authenticator on the broker's own account, as a
/// mathematical value.
pub enum Phase {
    /// Agreeing on a secret for a PIN that was entered.
    Agreement { pin_hash: Seq<u8>, secret: Seq<u8> },
    /// Getting the authenticator's token under an agreed secret.
    Token { shared: Seq<u8> },
}

/// What the broker waits for, as a mathematical value.
pub enum Stage {
    /// Nothing.
    Idle,
    /// A forwarded message to be written.
    Forwarding,
    /// A PIN.
    Prompting { cid: u32, grant: Grant, attempts: u8 },
    /// The authenticator: a request to be written, or an answer before the deadline.
    Exchanging { cid: u32, grant: Grant, attempts: u8, phase: Phase, deadline: Option<int> },
}

/// The authenticator that is forwarded, as a mathematical value.
pub struct Device {
    pub vendor_id: u32,
    pub product_id: u32,
    pub product_name: Seq<char>,
}

/// What the user should know of a request that the broker did not grant, and why.
#[derive(Clone, Copy, Debug, PartialEq, Eq, Structural)]
pub enum Notice {
    /// A ClientPIN request was denied.
    Denied(FidoError),
    /// A proof of the remote side was rejected.
    Rejected(FidoError),
}

/// The broker, as a mathematical value.
#[verifier::ext_equal]
pub struct Broker {
    pub device: Device,
    pub requests: Map<u32, Partial>,
    pub responses: Map<u32, Partial>,
    pub output: Seq<Seq<u8>>,
    pub pending_get_info: Set<u32>,
    pub secret: Seq<u8>,
    pub session: Option<Session>,
    pub inbox: Seq<Seq<u8>>,
    pub stage: Stage,
    pub notices: Seq<Notice>,
}

/// What to do next, as a mathematical value.
pub enum Act {
    /// Nothing: all reports have been dealt with.
    Done,
    /// Write these reports to the authenticator.
    Write(Seq<Seq<u8>>),
    /// Ask for the PIN.
    Prompt,
    /// Read from the authenticator.
    Listen,
}

/// What came of it, as a mathematical value.
pub enum Signal {
    /// The reports were written.
    Written,
    /// Writing or reading failed.
    Failed,
    /// What a read gave, which may be nothing.
    Heard(Seq<u8>),
    /// The PIN.
    Pin(Seq<char>),
    /// No PIN was entered, and why.
    PinRefused(FidoError),
}

/// Gives up what is under way and what was still to be dealt with.
pub open spec fn abandoned(broker: Broker) -> Broker {
    Broker { inbox: seq![], stage: Stage::Idle, ..broker }
}

/// A CBOR message on a channel.
pub open spec fn cbor_message(cid: u32, payload: Seq<u8>) -> Message {
    Message { cid, command: CTAPHID_CBOR, payload }
}

/// Answers the remote side on a channel.
pub open spec fn queued(broker: Broker, cid: u32, payload: Seq<u8>) -> (
    Broker,
    Result<Option<Act>, FidoError>,
) {
    if payload.len() > MAX_CTAPHID_PAYLOAD {
        (broker, Err(FidoError::PayloadTooLarge))
    } else {
        (
            Broker { output: broker.output + fragments(cbor_message(cid, payload)), ..broker },
            Ok(None),
        )
    }
}

/// Adds a notice.
pub open spec fn noticed(broker: Broker, notice: Notice) -> Broker {
    Broker { notices: broker.notices.push(notice), ..broker }
}

/// Answers that the operation is denied, and notes why.
pub open spec fn denied(broker: Broker, cid: u32, reason: FidoError) -> (
    Broker,
    Result<Option<Act>, FidoError>,
) {
    queued(noticed(broker, Notice::Denied(reason)), cid, seq![CTAP2_ERR_OPERATION_DENIED])
}

/// Passes a message on to the authenticator.
pub open spec fn forwarded(broker: Broker, message: Message) -> (
    Broker,
    Result<Option<Act>, FidoError>,
) {
    if message.payload.len() > MAX_CTAPHID_PAYLOAD {
        (broker, Err(FidoError::PayloadTooLarge))
    } else {
        (
            Broker { stage: Stage::Forwarding, ..broker },
            Ok(Some(Act::Write(fragments(message)))),
        )
    }
}

/// The broker's key-agreement key, as it is handed to the remote side.
pub open spec fn key_agreement(secret: Seq<u8>) -> Map<CborKey, Cbor> {
    map![CborKey::Integer(1) => Cbor::Table(cose(public_point_of(secret)))]
}

/// Answers what a ClientPIN request asks for. One that is not understood is denied.
pub open spec fn responded(broker: Broker, cid: u32, ask: Result<Ask, FidoError>) -> (
    Broker,
    Result<Option<Act>, FidoError>,
) {
    match ask {
        Err(err) => denied(broker, cid, err),
        Ok(Ask::KeyAgreement) => queued(
            broker,
            cid,
            seq![CTAP2_OK] + encoded_map(key_agreement(broker.secret))->0,
        ),
        Ok(Ask::Unknown) => queued(broker, cid, seq![CTAP2_ERR_INVALID_SUBCOMMAND]),
        Ok(Ask::Token(grant)) => (
            Broker { stage: Stage::Prompting { cid, grant, attempts: PIN_ATTEMPTS }, ..broker },
            Ok(Some(Act::Prompt)),
        ),
    }
}

/// Deals with a ClientPIN request: the broker answers it, and the authenticator does not
/// see it.
pub open spec fn answered(broker: Broker, cid: u32, request: Seq<u8>) -> (
    Broker,
    Result<Option<Act>, FidoError>,
) {
    responded(broker, cid, asked(broker.secret, request))
}

/// Passes a request on whose proof has been exchanged. One whose proof does not count is
/// refused, and the reason is noted.
pub open spec fn vouched(broker: Broker, message: Message, checked: Result<(), FidoError>) -> (
    Broker,
    Result<Option<Act>, FidoError>,
) {
    match checked {
        Ok(()) => forwarded(broker, message),
        Err(err) => queued(
            noticed(broker, Notice::Rejected(err)),
            message.cid,
            seq![CTAP2_ERR_PIN_AUTH_INVALID],
        ),
    }
}

/// Deals with a message of the remote side.
pub open spec fn dispatched(broker: Broker, now: u64, message: Message) -> (
    Broker,
    Result<Option<Act>, FidoError>,
) {
    if message.command != CTAPHID_CBOR || message.payload.len() == 0 {
        forwarded(broker, message)
    } else if message.payload[0] == CTAP_GET_INFO {
        forwarded(
            Broker { pending_get_info: broker.pending_get_info.insert(message.cid), ..broker },
            message,
        )
    } else if message.payload[0] == CTAP_CLIENT_PIN {
        answered(broker, message.cid, message.payload.skip(1))
    } else if message.payload[0] == CTAP_MAKE_CREDENTIAL || message.payload[0]
        == CTAP_GET_ASSERTION {
        let (session, result) = translated(broker.session, now, message.payload);
        let next = Broker { session, ..broker };
        match result {
            Ok(payload) => vouched(next, Message { payload, ..message }, Ok(())),
            Err(err) => vouched(next, message, Err(err)),
        }
    } else {
        forwarded(broker, message)
    }
}

/// Deals with the reports still to be dealt with, up to the first that takes outside
/// work.
pub open spec fn driven(broker: Broker, now: u64) -> (Broker, Result<Act, FidoError>)
    decreases broker.inbox.len(),
{
    if broker.inbox.len() == 0 {
        (Broker { stage: Stage::Idle, ..broker }, Ok(Act::Done))
    } else {
        let (requests, result) = accepted(broker.requests, broker.inbox[0]);
        let next = Broker { requests, inbox: broker.inbox.skip(1), ..broker };
        match result {
            Err(err) => (abandoned(next), Err(err)),
            Ok(None) => driven(next, now),
            Ok(Some(message)) => match dispatched(next, now, message) {
                (last, Err(err)) => (abandoned(last), Err(err)),
                (last, Ok(Some(act))) => (last, Ok(act)),
                (last, Ok(None)) => driven(last, now),
            },
        }
    }
}

/// Goes on after a step: with outside work if it asks for some, else with the reports
/// still to be dealt with.
pub open spec fn settled(step: (Broker, Result<Option<Act>, FidoError>), now: u64) -> (
    Broker,
    Result<Act, FidoError>,
) {
    match step {
        (broker, Err(err)) => (abandoned(broker), Err(err)),
        (broker, Ok(Some(act))) => (broker, Ok(act)),
        (broker, Ok(None)) => driven(broker, now),
    }
}

/// The request for the authenticator's key-agreement key.
pub open spec fn agreement_request() -> Map<CborKey, Cbor> {
    map![
        CborKey::Integer(1) => Cbor::Integer(1),
        CborKey::Integer(2) => Cbor::Integer(2),
    ]
}

/// The request for the authenticator's token in exchange for an encrypted PIN hash.
pub open spec fn token_request(secret: Seq<u8>, encrypted_hash: Seq<u8>) -> Map<CborKey, Cbor> {
    map![
        CborKey::Integer(1) => Cbor::Integer(1),
        CborKey::Integer(2) => Cbor::Integer(5),
        CborKey::Integer(3) => Cbor::Table(cose(public_point_of(secret))),
        CborKey::Integer(6) => Cbor::Bytes(encrypted_hash),
    ]
}

/// A ClientPIN request.
pub open spec fn client_pin_request(map: Map<CborKey, Cbor>) -> Seq<u8> {
    seq![CTAP_CLIENT_PIN] + encoded_map(map)->0
}

/// Asks the authenticator on the broker's own account.
pub open spec fn transacted(
    broker: Broker,
    cid: u32,
    grant: Grant,
    attempts: u8,
    phase: Phase,
    payload: Seq<u8>,
) -> (Broker, Result<Option<Act>, FidoError>) {
    if payload.len() > MAX_CTAPHID_PAYLOAD {
        denied(broker, cid, FidoError::PayloadTooLarge)
    } else {
        (
            Broker {
                stage: Stage::Exchanging { cid, grant, attempts, phase, deadline: None },
                ..broker
            },
            Ok(Some(Act::Write(fragments(cbor_message(cid, payload))))),
        )
    }
}

/// Goes on waiting for the authenticator, unless it has had its time.
pub open spec fn awaited(
    broker: Broker,
    now: u64,
    cid: u32,
    grant: Grant,
    attempts: u8,
    phase: Phase,
    deadline: int,
) -> (Broker, Result<Option<Act>, FidoError>) {
    if now < deadline {
        (
            Broker {
                stage: Stage::Exchanging { cid, grant, attempts, phase, deadline: Some(deadline) },
                ..broker
            },
            Ok(Some(Act::Listen)),
        )
    } else {
        denied(broker, cid, FidoError::Timeout)
    }
}

/// The public point in the authenticator's answer, or why there is none.
pub open spec fn authenticator_point(response: Seq<u8>) -> Result<Seq<u8>, FidoError> {
    match successful(response) {
        Err(err) => Err(err),
        Ok(map) => match entry(map, 1) {
            None => Err(FidoError::MissingKey(1)),
            Some(key) => cose_point(key),
        },
    }
}

/// The authenticator's token in its answer, or why there is none.
pub open spec fn physical_token(shared: Seq<u8>, response: Seq<u8>) -> Result<Seq<u8>, FidoError> {
    match successful(response) {
        Err(err) => Err(err),
        Ok(map) => match bytes_at(map, 2) {
            Err(err) => Err(err),
            Ok(ciphertext) => if ciphertext.len() == 0 || ciphertext.len() % 16 != 0 {
                Err(FidoError::Unaligned)
            } else {
                Ok(decrypted(shared, ciphertext))
            },
        },
    }
}

/// The broker's token, as it is handed to the remote side.
pub open spec fn token_response(remote_secret: Seq<u8>, token: Seq<u8>) -> Map<CborKey, Cbor> {
    map![CborKey::Integer(2) => Cbor::Bytes(encrypted(remote_secret, token))]
}

/// Issues a token of the broker's own that stands for the authenticator's.
pub open spec fn issued(
    broker: Broker,
    now: u64,
    cid: u32,
    grant: Grant,
    physical: Seq<u8>,
    token: Seq<u8>,
) -> (Broker, Result<Option<Act>, FidoError>) {
    queued(
        Broker {
            session: Some(
                Session {
                    proxy_token: token,
                    physical_token: physical,
                    permissions: grant.permissions,
                    rp_id: grant.rp_id,
                    expires_at: now + PIN_TOKEN_LIFETIME,
                },
            ),
            ..broker
        },
        cid,
        seq![CTAP2_OK] + encoded_map(token_response(grant.remote_secret, token))->0,
    )
}

/// Goes on with the authenticator's public point: asks for its token under the secret
/// that the point gives. Without a point the request is denied.
pub open spec fn agreed(
    broker: Broker,
    cid: u32,
    grant: Grant,
    attempts: u8,
    pin_hash: Seq<u8>,
    secret: Seq<u8>,
    point: Result<Seq<u8>, FidoError>,
) -> (Broker, Result<Option<Act>, FidoError>) {
    match point {
        Err(err) => denied(broker, cid, err),
        Ok(point) => {
            let key = shared(secret, point);
            let request = token_request(secret, encrypted(key, pin_hash));
            transacted(
                broker,
                cid,
                grant,
                attempts,
                Phase::Token { shared: key },
                client_pin_request(request),
            )
        },
    }
}

/// Goes on after a wrong PIN: it is asked for again while attempts are left.
pub open spec fn mistyped(broker: Broker, cid: u32, grant: Grant, attempts: u8) -> (
    Broker,
    Result<Option<Act>, FidoError>,
) {
    if attempts <= 1 {
        denied(broker, cid, FidoError::PinRejected)
    } else {
        (
            Broker {
                stage: Stage::Prompting { cid, grant, attempts: (attempts - 1) as u8 },
                ..broker
            },
            Ok(Some(Act::Prompt)),
        )
    }
}

/// Goes on with the authenticator's token: issues the broker's own. Without a token the
/// request is denied.
pub open spec fn obtained(
    broker: Broker,
    now: u64,
    cid: u32,
    grant: Grant,
    physical: Result<Seq<u8>, FidoError>,
    token: Seq<u8>,
) -> (Broker, Result<Option<Act>, FidoError>) {
    match physical {
        Err(err) => denied(broker, cid, err),
        Ok(physical) => issued(broker, now, cid, grant, physical, token),
    }
}

/// Goes on with the authenticator's answer: from the agreed secret to the request for its
/// token, and from its token to the broker's own.
pub open spec fn replied(
    broker: Broker,
    now: u64,
    cid: u32,
    grant: Grant,
    attempts: u8,
    phase: Phase,
    response: Seq<u8>,
    token: Seq<u8>,
) -> (Broker, Result<Option<Act>, FidoError>) {
    match phase {
        Phase::Agreement { pin_hash, secret } => agreed(
            broker,
            cid,
            grant,
            attempts,
            pin_hash,
            secret,
            authenticator_point(response),
        ),
        Phase::Token { shared } => if response.len() > 0 && response[0]
            == CTAP2_ERR_PIN_INVALID {
            mistyped(broker, cid, grant, attempts)
        } else {
            obtained(broker, now, cid, grant, physical_token(shared, response), token)
        },
    }
}

/// Goes on with what was read from the authenticator. Messages that do not answer the
/// broker are passed on.
pub open spec fn heard(
    broker: Broker,
    now: u64,
    cid: u32,
    grant: Grant,
    attempts: u8,
    phase: Phase,
    deadline: int,
    bytes: Seq<u8>,
    token: Seq<u8>,
) -> (Broker, Result<Option<Act>, FidoError>) {
    match input_report(bytes) {
        Err(err) => denied(broker, cid, err),
        Ok(None) => awaited(broker, now, cid, grant, attempts, phase, deadline),
        Ok(Some(report)) => {
            let (responses, result) = accepted(broker.responses, report);
            let next = Broker { responses, ..broker };
            match result {
                Err(err) => denied(next, cid, err),
                Ok(None) => awaited(next, now, cid, grant, attempts, phase, deadline),
                Ok(Some(message)) => if message.cid == cid && message.command == CTAPHID_CBOR {
                    replied(next, now, cid, grant, attempts, phase, message.payload, token)
                } else {
                    awaited(
                        Broker { output: next.output + fragments(message), ..next },
                        now,
                        cid,
                        grant,
                        attempts,
                        phase,
                        deadline,
                    )
                },
            }
        },
    }
}

/// Goes on with what came of the outside work. `secret` and `token` are fresh; at most one
/// of them is used.
pub open spec fn resumed(
    broker: Broker,
    now: u64,
    signal: Signal,
    secret: Seq<u8>,
    token: Seq<u8>,
) -> (Broker, Result<Act, FidoError>) {
    let idle = Broker { stage: Stage::Idle, ..broker };
    match (broker.stage, signal) {
        (Stage::Forwarding, Signal::Written) => driven(idle, now),
        (Stage::Forwarding, Signal::Failed) => (abandoned(idle), Err(FidoError::Device)),
        (Stage::Prompting { cid, grant, attempts }, Signal::Pin(pin)) => settled(
            transacted(
                idle,
                cid,
                grant,
                attempts,
                Phase::Agreement { pin_hash: sha256(encode_utf8(pin)).take(16), secret },
                client_pin_request(agreement_request()),
            ),
            now,
        ),
        (Stage::Prompting { cid, grant, attempts }, Signal::PinRefused(reason)) => settled(
            denied(idle, cid, reason),
            now,
        ),
        (
            Stage::Exchanging { cid, grant, attempts, phase, deadline: None },
            Signal::Written,
        ) => settled(
            awaited(idle, now, cid, grant, attempts, phase, now + EXCHANGE_TIMEOUT),
            now,
        ),
        (Stage::Exchanging { cid, grant, attempts, phase, deadline }, Signal::Failed) => settled(
            denied(idle, cid, FidoError::Device),
            now,
        ),
        (
            Stage::Exchanging { cid, grant, attempts, phase, deadline: Some(deadline) },
            Signal::Heard(bytes),
        ) => settled(
            heard(idle, now, cid, grant, attempts, phase, deadline, bytes, token),
            now,
        ),
        _ => (broker, Err(FidoError::UnexpectedSignal)),
    }
}

/// Takes in a packet of the remote side's reports, unless it is too large or the last one
/// has not been dealt with yet.
pub open spec fn started(broker: Broker, now: u64, reports: Seq<Seq<u8>>) -> (
    Broker,
    Result<Act, FidoError>,
) {
    if !(broker.stage is Idle) {
        (broker, Err(FidoError::UnexpectedSignal))
    } else if reports.len() > MAX_REPORTS_PER_CYCLE {
        (broker, Err(FidoError::TooManyReports))
    } else {
        driven(Broker { inbox: reports, ..broker }, now)
    }
}

/// Passes a message of the authenticator on to the remote side.
pub open spec fn emitted(broker: Broker, message: Message) -> (Broker, Result<(), FidoError>) {
    if message.payload.len() > MAX_CTAPHID_PAYLOAD {
        (broker, Err(FidoError::PayloadTooLarge))
    } else {
        (Broker { output: broker.output + fragments(message), ..broker }, Ok(()))
    }
}

/// Deals with a report of the authenticator. The broker is announced in the answer to a
/// GetInfo request.
pub open spec fn returned(broker: Broker, report: Seq<u8>) -> (Broker, Result<(), FidoError>) {
    let (responses, result) = accepted(broker.responses, report);
    let next = Broker { responses, ..broker };
    match result {
        Err(err) => (next, Err(err)),
        Ok(None) => (next, Ok(())),
        Ok(Some(message)) => if message.command == CTAPHID_CBOR && next.pending_get_info.contains(
            message.cid,
        ) {
            let last = Broker {
                pending_get_info: next.pending_get_info.remove(message.cid),
                ..next
            };
            match announced(message.payload) {
                Err(err) => (last, Err(err)),
                Ok(payload) => emitted(last, Message { payload, ..message }),
            }
        } else {
            emitted(next, message)
        },
    }
}

/// Deals with device reads in turn, up to the first that gave nothing.
pub open spec fn collected(broker: Broker, reads: Seq<Option<Seq<u8>>>) -> (
    Broker,
    Result<(), FidoError>,
)
    decreases reads.len(),
{
    if reads.len() == 0 {
        (broker, Ok(()))
    } else {
        match reads[0] {
            None => (broker, Err(FidoError::Device)),
            Some(bytes) => match input_report(bytes) {
                Err(err) => (broker, Err(err)),
                Ok(None) => (broker, Ok(())),
                Ok(Some(report)) => match returned(broker, report) {
                    (next, Err(err)) => (next, Err(err)),
                    (next, Ok(())) => collected(next, reads.skip(1)),
                },
            },
        }
    }
}

/// How many of so many are taken at a time.
pub open spec fn cycle(length: nat) -> int {
    if length < MAX_REPORTS_PER_CYCLE {
        length as int
    } else {
        MAX_REPORTS_PER_CYCLE as int
    }
}

/// Hands out the oldest reports for the remote side, as many as are handed out at a time.
pub open spec fn drained(broker: Broker) -> (Broker, Seq<Seq<u8>>) {
    let count = cycle(broker.output.len());
    (Broker { output: broker.output.skip(count), ..broker }, broker.output.take(count))
}

/// Ends an expired session, deals with device reads, and hands reports out.
pub open spec fn polled(broker: Broker, now: u64, reads: Seq<Option<Seq<u8>>>) -> (
    Broker,
    Result<Seq<Seq<u8>>, FidoError>,
) {
    let fresh = Broker { session: live(broker.session, now), ..broker };
    match collected(fresh, reads.take(cycle(reads.len()))) {
        (next, Err(err)) => (next, Err(err)),
        (next, Ok(())) => (drained(next).0, Ok(drained(next).1)),
    }
}

/// The authenticator that is forwarded, as it is announced to the server.
#[derive(Clone, Debug, PartialEq)]
pub struct FidoDevice {
    pub vendor_id: u32,
    pub product_id: u32,
    pub product_name: String,
}

impl View for FidoDevice {
    type V = Device;

    open spec fn view(&self) -> Device {
        Device {
            vendor_id: self.vendor_id,
            product_id: self.product_id,
            product_name: self.product_name@,
        }
    }
}

/// What to do next.
#[derive(Debug)]
pub enum Action {
    /// Nothing: all reports have been dealt with.
    Done,
    /// Write these reports to the authenticator, and tell whether that worked.
    Write(Vec<Vec<u8>>),
    /// Ask for the PIN, and tell it.
    Prompt,
    /// Read from the authenticator for a short while, and tell what came.
    Listen,
}

/// What came of it.
pub enum Event {
    /// The reports were written.
    Written,
    /// Writing or reading failed.
    Failed,
    /// What a read gave, which may be nothing.
    Heard(Vec<u8>),
    /// The PIN.
    Pin(HiddenText),
    /// No PIN was entered, and why.
    PinRefused(FidoError),
}

impl View for Action {
    type V = Act;

    open spec fn view(&self) -> Act {
        match self {
            Action::Done => Act::Done,
            Action::Write(reports) => Act::Write(views(reports@)),
            Action::Prompt => Act::Prompt,
            Action::Listen => Act::Listen,
        }
    }
}

impl View for Event {
    type V = Signal;

    open spec fn view(&self) -> Signal {
        match self {
            Event::Written => Signal::Written,
            Event::Failed => Signal::Failed,
            Event::Heard(bytes) => Signal::Heard(bytes@),
            Event::Pin(pin) => Signal::Pin(pin@),
            Event::PinRefused(reason) => Signal::PinRefused(*reason),
        }
    }
}

/// What a step asks for.
pub open spec fn act_of(result: Result<Action, FidoError>) -> Result<Act, FidoError> {
    match result {
        Ok(action) => Ok(action@),
        Err(err) => Err(err),
    }
}

/// What a step asks for, if it asks for anything.
pub open spec fn step_of(result: Result<Option<Action>, FidoError>) -> Result<
    Option<Act>,
    FidoError,
> {
    match result {
        Ok(None) => Ok(None),
        Ok(Some(action)) => Ok(Some(action@)),
        Err(err) => Err(err),
    }
}

/// A token request under way: on which channel, for what, and how many prompts are left,
/// the current one counted.
pub struct Asking {
    pub cid: u32,
    pub grant: TokenGrant,
    pub attempts: u8,
}

/// What a ClientPIN request asks for, if it is understood.
pub open spec fn ask_of(ask: Result<ClientPinAsk, FidoError>) -> Result<Ask, FidoError> {
    match ask {
        Ok(ask) => Ok(ask@),
        Err(err) => Err(err),
    }
}

/// The authenticator's public point, if it gave one.
pub open spec fn point_of(key: Result<PublicKey, FidoError>) -> Result<Seq<u8>, FidoError> {
    match key {
        Ok(key) => Ok(key@),
        Err(err) => Err(err),
    }
}

/// The authenticator's token, if it gave one.
pub open spec fn token_of(token: Result<Hidden, FidoError>) -> Result<Seq<u8>, FidoError> {
    match token {
        Ok(token) => Ok(token@),
        Err(err) => Err(err),
    }
}

/// What is under way with the authenticator on the broker's own account.
enum ExchangePhase {
    Agreement { pin_hash: Hidden, secret: SecretKey },
    Token { shared: Hidden },
}

impl View for ExchangePhase {
    type V = Phase;

    closed spec fn view(&self) -> Phase {
        match self {
            ExchangePhase::Agreement { pin_hash, secret } => Phase::Agreement {
                pin_hash: pin_hash@,
                secret: secret@,
            },
            ExchangePhase::Token { shared } => Phase::Token { shared: shared@ },
        }
    }
}

/// What the broker waits for.
enum BrokerStage {
    Idle,
    Forwarding,
    Prompting(Asking),
    Exchanging(Asking, ExchangePhase, Option<u128>),
}

impl View for BrokerStage {
    type V = Stage;

    closed spec fn view(&self) -> Stage {
        match self {
            BrokerStage::Idle => Stage::Idle,
            BrokerStage::Forwarding => Stage::Forwarding,
            BrokerStage::Prompting(asking) => Stage::Prompting {
                cid: asking.cid,
                grant: asking.grant@,
                attempts: asking.attempts,
            },
            BrokerStage::Exchanging(asking, phase, deadline) => Stage::Exchanging {
                cid: asking.cid,
                grant: asking.grant@,
                attempts: asking.attempts,
                phase: phase@,
                deadline: match deadline {
                    Some(deadline) => Some(*deadline as int),
                    None => None,
                },
            },
        }
    }
}

/// The secrets of a token request have the lengths that the cipher takes.
pub open spec fn stage_wf(stage: Stage) -> bool {
    match stage {
        Stage::Prompting { grant, .. } => grant.remote_secret.len() == 32,
        Stage::Exchanging { grant, phase, .. } => grant.remote_secret.len() == 32 && (match phase {
            Phase::Agreement { pin_hash, .. } => pin_hash.len() == 16,
            Phase::Token { shared } => shared.len() == 32,
        }),
        _ => true,
    }
}

/// The local end of the forwarding of one authenticator.
pub struct FidoClient {
    info: FidoDevice,
    requests: CtapAssembler,
    responses: CtapAssembler,
    output: VecDeque<Vec<u8>>,
    pending_get_info: HashSet<u32>,
    proxy_secret: SecretKey,
    pin_session: Option<PinSession>,
    inbox: VecDeque<Vec<u8>>,
    stage: BrokerStage,
    notices: Vec<Notice>,
}

impl View for FidoClient {
    type V = Broker;

    closed spec fn view(&self) -> Broker {
        Broker {
            device: self.info@,
            requests: self.requests@,
            responses: self.responses@,
            output: views(self.output@),
            pending_get_info: self.pending_get_info@,
            secret: self.proxy_secret@,
            session: session_of(self.pin_session),
            inbox: views(self.inbox@),
            stage: self.stage@,
            notices: self.notices@,
        }
    }
}

/// Fresh randomness for one step: a secret, and a token of 32 bytes. A step uses at most one
/// of the two.
pub struct Fresh {
    pub secret: SecretKey,
    pub token: Hidden,
}

impl Fresh {
    /// Draws both.
    pub fn draw() -> (fresh: Self)
        ensures
            is_secret(fresh.secret@),
            fresh.token@.len() == 32,
    {
        Fresh { secret: SecretKey::random(), token: Hidden::random() }
    }
}

/// Appends reports to a queue.
fn enqueue(queue: &mut VecDeque<Vec<u8>>, reports: Vec<Vec<u8>>)
    ensures
        views(final(queue)@) == views(old(queue)@) + views(reports@),
{
    let mut left = reports;
    let ghost all = reports@;
    let ghost start = queue@;
    while left.len() > 0
        invariant
            left@.len() <= all.len(),
            left@ == all.skip(all.len() - left@.len()),
            queue@ == start + all.take(all.len() - left@.len()),
        decreases left@.len(),
    {
        let ghost done = all.len() - left@.len();
        let report = left.remove(0);
        queue.push_back(report);
        assert(left@ =~= all.skip(done + 1));
        assert(queue@ =~= start + all.take(done + 1));
    }
    assert(all.take(all.len() as int) =~= all);
    assert(views(queue@) =~= views(start) + views(all));
}

/// A map is within the range of CBOR, and shallow, when its keys are small integers and
/// its values are.
proof fn lemma_small_table(map: Map<CborKey, Cbor>)
    requires
        forall|key: CborKey| #[trigger]
            map.dom().contains(key) ==> key is Integer && integer_in_range(key->Integer_0)
                && in_range(map[key]) && shallow(map[key], 1),
    ensures
        in_range(Cbor::Table(map)),
        shallow(Cbor::Table(map), 127),
{
    let value = Cbor::Table(map);
    assert forall|key: CborKey| #[trigger] value->Table_0.dom().contains(key) implies (
    key matches CborKey::Integer(number) ==> integer_in_range(number)) && in_range(
        value->Table_0[key],
    ) && !(key is Other) && shallow(value->Table_0[key], 126) by {
        lemma_deeper(map[key], 1, 126);
    }
}

/// What is within some depth is within a greater one.
proof fn lemma_deeper(value: Cbor, depth: nat, more: nat)
    requires
        shallow(value, depth),
        depth <= more,
    ensures
        shallow(value, more),
    decreases depth,
{
    match value {
        Cbor::Array(items) => {
            assert forall|i: int| 0 <= i < value->Array_0.len() implies shallow(
                #[trigger] value->Array_0[i],
                (more - 1) as nat,
            ) by {
                assert(shallow(value->Array_0[i], (depth - 1) as nat));
                lemma_deeper(value->Array_0[i], (depth - 1) as nat, (more - 1) as nat);
            }
        },
        Cbor::Table(entries) => {
            assert forall|key: CborKey| #[trigger] value->Table_0.dom().contains(key) implies (
            key matches CborKey::Other(bytes) ==> decoded(bytes) is Some && shallow(
                decoded(bytes)->0,
                (more - 1) as nat,
            )) && shallow(value->Table_0[key], (more - 1) as nat) by {
                assert(shallow(value->Table_0[key], (depth - 1) as nat));
                lemma_deeper(value->Table_0[key], (depth - 1) as nat, (more - 1) as nat);
                if let CborKey::Other(bytes) = key {
                    lemma_deeper(decoded(bytes)->0, (depth - 1) as nat, (more - 1) as nat);
                }
            }
        },
        _ => {},
    }
}

/// The answer to a request for the broker's key-agreement key. The key can be read back
/// from it.
pub fn key_agreement_response(secret: &SecretKey) -> (result: Result<Vec<u8>, FidoError>)
    ensures
        result matches Ok(response) && response@ == seq![CTAP2_OK] + encoded_map(
            key_agreement(secret@),
        )->0 && authenticator_point(response@) == Ok::<_, FidoError>(public_point_of(secret@)),
{
    let public = secret.public_key();
    let key = cose_public_key(&public);
    let entries: Vec<(i128, CborValue)> = vec![(1, key)];
    proof {
        reveal_with_fuel(table_of, 2);
        assert(entries@.drop_last() =~= seq![]);
        assert(table_of(entries@) =~= key_agreement(secret@));
        lemma_cose_shallow(public@);
        lemma_small_table(key_agreement(secret@));
        cose_key_reads_back(public@);
    }
    ctap_success(map_of(entries))
}

/// The answer to a token request: the token, encrypted under the secret shared with
/// whoever asked, who can read it back.
pub fn token_answer(remote_secret: &[u8], token: &[u8]) -> (result: Result<Vec<u8>, FidoError>)
    requires
        remote_secret@.len() == 32,
        token@.len() == 32,
    ensures
        result matches Ok(response) && response@ == seq![CTAP2_OK] + encoded_map(
            token_response(remote_secret@, token@),
        )->0 && physical_token(remote_secret@, response@) == Ok::<_, FidoError>(token@),
{
    let encrypted = aes_cbc_encrypt(remote_secret, token)?;
    let entries: Vec<(i128, CborValue)> = vec![(2, CborValue::Bytes(encrypted))];
    proof {
        reveal_with_fuel(table_of, 2);
        assert(entries@.drop_last() =~= seq![]);
        assert(table_of(entries@) =~= token_response(remote_secret@, token@));
        lemma_small_table(token_response(remote_secret@, token@));
    }
    ctap_success(map_of(entries))
}

/// The request for the authenticator's key-agreement key.
fn agreement_payload() -> (result: Result<Vec<u8>, FidoError>)
    ensures
        result matches Ok(request) && request@ == client_pin_request(agreement_request()),
{
    let entries: Vec<(i128, CborValue)> = vec![
        (1, CborValue::Integer(1)),
        (2, CborValue::Integer(2)),
    ];
    proof {
        reveal_with_fuel(table_of, 3);
        assert(entries@.drop_last().drop_last() =~= seq![]);
        assert(table_of(entries@) =~= agreement_request());
        lemma_small_table(agreement_request());
    }
    encode_client_pin(map_of(entries))
}

/// The request for the authenticator's token in exchange for an encrypted PIN hash.
fn token_payload(secret: &SecretKey, encrypted_hash: Vec<u8>) -> (result: Result<
    Vec<u8>,
    FidoError,
>)
    ensures
        result matches Ok(request) && request@ == client_pin_request(
            token_request(secret@, encrypted_hash@),
        ),
{
    let public = secret.public_key();
    let entries: Vec<(i128, CborValue)> = vec![
        (1, CborValue::Integer(1)),
        (2, CborValue::Integer(5)),
        (3, cose_public_key(&public)),
        (6, CborValue::Bytes(encrypted_hash)),
    ];
    proof {
        reveal_with_fuel(table_of, 5);
        assert(entries@.drop_last().drop_last().drop_last().drop_last() =~= seq![]);
        assert(table_of(entries@) =~= token_request(secret@, encrypted_hash@));
        lemma_cose_shallow(public@);
        lemma_small_table(token_request(secret@, encrypted_hash@));
    }
    encode_client_pin(map_of(entries))
}

/// What holds of a broker between any two steps: what is pending on its channels is
/// consistent, and so are the secrets of a token request under way.
pub open spec fn broker_wf(broker: Broker) -> bool {
    &&& pending_wf(broker.requests)
    &&& pending_wf(broker.responses)
    &&& stage_wf(broker.stage)
}

impl FidoClient {
    /// What holds between any two calls.
    pub open spec fn wf(&self) -> bool {
        broker_wf(self@)
    }

    /// Answers the remote side on a channel.
    fn queue_cbor_response(&mut self, cid: u32, payload: Vec<u8>) -> (result: Result<
        Option<Action>,
        FidoError,
    >)
        requires
            old(self).wf(),
        ensures
            final(self).wf(),
            (final(self)@, step_of(result)) == queued(old(self)@, cid, payload@),
    {
        let message = CtapMessage { cid, command: CTAPHID_CBOR, payload };
        let reports = fragment_message(&message)?;
        enqueue(&mut self.output, reports);
        Ok(None)
    }

    /// Answers that the operation is denied, and notes why.
    fn deny(&mut self, cid: u32, reason: FidoError) -> (result: Result<Option<Action>, FidoError>)
        requires
            old(self).wf(),
        ensures
            final(self).wf(),
            (final(self)@, step_of(result)) == denied(old(self)@, cid, reason),
    {
        self.notices.push(Notice::Denied(reason));
        self.queue_cbor_response(cid, ctap_error(CTAP2_ERR_OPERATION_DENIED))
    }

    /// Passes a message on to the authenticator.
    fn write_message(&mut self, message: &CtapMessage) -> (result: Result<
        Option<Action>,
        FidoError,
    >)
        requires
            old(self).wf(),
        ensures
            final(self).wf(),
            (final(self)@, step_of(result)) == forwarded(old(self)@, message@),
    {
        let reports = fragment_message(message)?;
        self.stage = BrokerStage::Forwarding;
        Ok(Some(Action::Write(reports)))
    }

    /// Answers what a ClientPIN request asks for.
    pub fn answer_client_pin(&mut self, cid: u32, ask: Result<ClientPinAsk, FidoError>) -> (result:
        Result<Option<Action>, FidoError>)
        requires
            old(self).wf(),
            ask matches Ok(ClientPinAsk::Token(grant)) ==> grant.remote_secret@.len() == 32,
        ensures
            final(self).wf(),
            (final(self)@, step_of(result)) == responded(old(self)@, cid, ask_of(ask)),
    {
        match ask {
            Err(err) => self.deny(cid, err),
            Ok(ClientPinAsk::KeyAgreement) => {
                let response = key_agreement_response(&self.proxy_secret)?;
                self.queue_cbor_response(cid, response)
            },
            Ok(ClientPinAsk::Unknown) => self.queue_cbor_response(
                cid,
                ctap_error(CTAP2_ERR_INVALID_SUBCOMMAND),
            ),
            Ok(ClientPinAsk::Token(grant)) => {
                self.stage = BrokerStage::Prompting(Asking { cid, grant, attempts: PIN_ATTEMPTS });
                Ok(Some(Action::Prompt))
            },
        }
    }

    /// Deals with a ClientPIN request.
    fn handle_client_pin(&mut self, cid: u32, request: &[u8]) -> (result: Result<
        Option<Action>,
        FidoError,
    >)
        requires
            old(self).wf(),
        ensures
            final(self).wf(),
            (final(self)@, step_of(result)) == answered(old(self)@, cid, request@),
    {
        let ask = read_client_pin(&self.proxy_secret, request);
        self.answer_client_pin(cid, ask)
    }

    /// Passes a request on whose proof has been exchanged, or refuses it.
    pub fn forward_checked(&mut self, message: &CtapMessage, checked: Result<(), FidoError>) -> (
    result: Result<Option<Action>, FidoError>)
        requires
            old(self).wf(),
        ensures
            final(self).wf(),
            (final(self)@, step_of(result)) == vouched(old(self)@, message@, checked),
    {
        match checked {
            Ok(()) => self.write_message(message),
            Err(err) => {
                self.notices.push(Notice::Rejected(err));
                self.queue_cbor_response(message.cid, ctap_error(CTAP2_ERR_PIN_AUTH_INVALID))
            },
        }
    }

    /// Deals with a message of the remote side.
    fn handle_remote_message(&mut self, now: u64, message: CtapMessage) -> (result: Result<
        Option<Action>,
        FidoError,
    >)
        requires
            old(self).wf(),
        ensures
            final(self).wf(),
            (final(self)@, step_of(result)) == dispatched(old(self)@, now, message@),
    {
        broadcast use vstd::std_specs::hash::group_hash_axioms;

        let mut message = message;
        if message.command != CTAPHID_CBOR || message.payload.len() == 0 {
            return self.write_message(&message);
        }
        let command: u8 = message.payload[0];
        if command == CTAP_GET_INFO {
            self.pending_get_info.insert(message.cid);
            self.write_message(&message)
        } else if command == CTAP_CLIENT_PIN {
            let request = slice_subrange(message.payload.as_slice(), 1, message.payload.len());
            assert(request@ =~= message.payload@.skip(1));
            self.handle_client_pin(message.cid, request)
        } else if command == CTAP_MAKE_CREDENTIAL || command == CTAP_GET_ASSERTION {
            let checked = translate_pin_proof(&mut self.pin_session, now, &mut message.payload);
            self.forward_checked(&message, checked)
        } else {
            self.write_message(&message)
        }
    }

    /// Gives up what is under way and what was still to be dealt with.
    fn abandon(&mut self)
        requires
            old(self).wf(),
        ensures
            final(self).wf(),
            final(self)@ == abandoned(old(self)@),
    {
        self.inbox.clear();
        self.stage = BrokerStage::Idle;
        assert(self@ =~= abandoned(old(self)@));
    }

    /// Deals with the reports still to be dealt with, up to the first that takes outside
    /// work.
    fn drive(&mut self, now: u64) -> (result: Result<Action, FidoError>)
        requires
            old(self).wf(),
        ensures
            final(self).wf(),
            (final(self)@, act_of(result)) == driven(old(self)@, now),
    {
        loop
            invariant
                self.wf(),
                driven(self@, now) == driven(old(self)@, now),
            decreases self.inbox@.len(),
        {
            let ghost before = self@;
            match self.inbox.pop_front() {
                None => {
                    self.stage = BrokerStage::Idle;
                    assert(self@ =~= (Broker { stage: Stage::Idle, ..before }));
                    return Ok(Action::Done);
                },
                Some(report) => {
                    assert(before.inbox[0] == report@);
                    assert(self@.inbox =~= before.inbox.skip(1));
                    match self.requests.push(report.as_slice()) {
                        Err(err) => {
                            self.abandon();
                            return Err(err);
                        },
                        Ok(None) => {},
                        Ok(Some(message)) => {
                            let ghost next = self@;
                            match self.handle_remote_message(now, message) {
                                Err(err) => {
                                    self.abandon();
                                    return Err(err);
                                },
                                Ok(Some(action)) => {
                                    return Ok(action);
                                },
                                Ok(None) => {
                                    assert(self@.inbox == next.inbox);
                                },
                            }
                        },
                    }
                },
            }
        }
    }

    /// Goes on after a step.
    fn settle(&mut self, step: Result<Option<Action>, FidoError>, now: u64) -> (result: Result<
        Action,
        FidoError,
    >)
        requires
            old(self).wf(),
        ensures
            final(self).wf(),
            (final(self)@, act_of(result)) == settled((old(self)@, step_of(step)), now),
    {
        match step {
            Err(err) => {
                self.abandon();
                Err(err)
            },
            Ok(Some(action)) => Ok(action),
            Ok(None) => self.drive(now),
        }
    }

    /// Asks the authenticator on the broker's own account.
    fn physical_transact(
        &mut self,
        asking: Asking,
        phase: ExchangePhase,
        payload: Vec<u8>,
    ) -> (result: Result<Option<Action>, FidoError>)
        requires
            old(self).wf(),
            stage_wf(BrokerStage::Exchanging(asking, phase, None)@),
        ensures
            final(self).wf(),
            (final(self)@, step_of(result)) == transacted(
                old(self)@,
                asking.cid,
                asking.grant@,
                asking.attempts,
                phase@,
                payload@,
            ),
    {
        let message = CtapMessage { cid: asking.cid, command: CTAPHID_CBOR, payload };
        match fragment_message(&message) {
            Err(err) => self.deny(asking.cid, err),
            Ok(reports) => {
                self.stage = BrokerStage::Exchanging(asking, phase, None);
                Ok(Some(Action::Write(reports)))
            },
        }
    }

    /// Goes on waiting for the authenticator, unless it has had its time.
    fn keep_listening(
        &mut self,
        now: u64,
        asking: Asking,
        phase: ExchangePhase,
        deadline: u128,
    ) -> (result: Result<Option<Action>, FidoError>)
        requires
            old(self).wf(),
            stage_wf(BrokerStage::Exchanging(asking, phase, None)@),
        ensures
            final(self).wf(),
            (final(self)@, step_of(result)) == awaited(
                old(self)@,
                now,
                asking.cid,
                asking.grant@,
                asking.attempts,
                phase@,
                deadline as int,
            ),
    {
        if (now as u128) < deadline {
            self.stage = BrokerStage::Exchanging(asking, phase, Some(deadline));
            Ok(Some(Action::Listen))
        } else {
            self.deny(asking.cid, FidoError::Timeout)
        }
    }

    /// Issues a token of the broker's own that stands for the authenticator's.
    fn issue_proxy_token(
        &mut self,
        now: u64,
        asking: Asking,
        physical: Hidden,
        token: Hidden,
    ) -> (result: Result<Option<Action>, FidoError>)
        requires
            old(self).wf(),
            asking.grant.remote_secret@.len() == 32,
            token@.len() == 32,
        ensures
            final(self).wf(),
            (final(self)@, step_of(result)) == issued(
                old(self)@,
                now,
                asking.cid,
                asking.grant@,
                physical@,
                token@,
            ),
    {
        let Asking { cid, grant, .. } = asking;
        let TokenGrant { permissions, rp_id, remote_secret } = grant;
        let response = token_answer(remote_secret.as_slice(), token.as_slice())?;
        self.pin_session = Some(PinSession::new(token, physical, permissions, rp_id, now));
        self.queue_cbor_response(cid, response)
    }

    /// Goes on with the authenticator's public point.
    pub fn agree_with(
        &mut self,
        asking: Asking,
        pin_hash: Hidden,
        secret: SecretKey,
        key: Result<PublicKey, FidoError>,
    ) -> (result: Result<Option<Action>, FidoError>)
        requires
            old(self).wf(),
            asking.grant.remote_secret@.len() == 32,
            pin_hash@.len() == 16,
        ensures
            final(self).wf(),
            (final(self)@, step_of(result)) == agreed(
                old(self)@,
                asking.cid,
                asking.grant@,
                asking.attempts,
                pin_hash@,
                secret@,
                point_of(key),
            ),
    {
        let shared = match key {
            Err(err) => {
                return self.deny(asking.cid, err);
            },
            Ok(public) => shared_secret(&secret, &public),
        };
        let encrypted_hash = aes_cbc_encrypt(shared.as_slice(), pin_hash.as_slice())?;
        let request = token_payload(&secret, encrypted_hash)?;
        self.physical_transact(asking, ExchangePhase::Token { shared }, request)
    }

    /// Goes on after a wrong PIN.
    pub fn prompt_again(&mut self, asking: Asking) -> (result: Result<Option<Action>, FidoError>)
        requires
            old(self).wf(),
            asking.grant.remote_secret@.len() == 32,
        ensures
            final(self).wf(),
            (final(self)@, step_of(result)) == mistyped(
                old(self)@,
                asking.cid,
                asking.grant@,
                asking.attempts,
            ),
    {
        if asking.attempts <= 1 {
            return self.deny(asking.cid, FidoError::PinRejected);
        }
        let attempts: u8 = asking.attempts - 1;
        self.stage = BrokerStage::Prompting(Asking { attempts, ..asking });
        Ok(Some(Action::Prompt))
    }

    /// Goes on with the authenticator's token.
    pub fn exchange_token(
        &mut self,
        now: u64,
        asking: Asking,
        physical: Result<Hidden, FidoError>,
        token: Hidden,
    ) -> (result: Result<Option<Action>, FidoError>)
        requires
            old(self).wf(),
            asking.grant.remote_secret@.len() == 32,
            token@.len() == 32,
        ensures
            final(self).wf(),
            (final(self)@, step_of(result)) == obtained(
                old(self)@,
                now,
                asking.cid,
                asking.grant@,
                token_of(physical),
                token@,
            ),
    {
        match physical {
            Err(err) => self.deny(asking.cid, err),
            Ok(physical) => self.issue_proxy_token(now, asking, physical, token),
        }
    }

    /// Goes on with the authenticator's answer.
    fn obtain_physical_pin_token(
        &mut self,
        now: u64,
        asking: Asking,
        phase: ExchangePhase,
        response: &[u8],
        token: Hidden,
    ) -> (result: Result<Option<Action>, FidoError>)
        requires
            old(self).wf(),
            stage_wf(BrokerStage::Exchanging(asking, phase, None)@),
            token@.len() == 32,
        ensures
            final(self).wf(),
            (final(self)@, step_of(result)) == replied(
                old(self)@,
                now,
                asking.cid,
                asking.grant@,
                asking.attempts,
                phase@,
                response@,
                token@,
            ),
    {
        match phase {
            ExchangePhase::Agreement { pin_hash, secret } => self.agree_with(
                asking,
                pin_hash,
                secret,
                read_authenticator_key(response),
            ),
            ExchangePhase::Token { shared } => {
                if response.len() > 0 && response[0] == CTAP2_ERR_PIN_INVALID {
                    self.prompt_again(asking)
                } else {
                    let physical = open_physical_token(shared.as_slice(), response);
                    self.exchange_token(now, asking, physical, token)
                }
            },
        }
    }

    /// Goes on with what was read from the authenticator.
    fn hear(
        &mut self,
        now: u64,
        asking: Asking,
        phase: ExchangePhase,
        deadline: u128,
        bytes: &[u8],
        token: Hidden,
    ) -> (result: Result<Option<Action>, FidoError>)
        requires
            old(self).wf(),
            stage_wf(BrokerStage::Exchanging(asking, phase, None)@),
            token@.len() == 32,
        ensures
            final(self).wf(),
            (final(self)@, step_of(result)) == heard(
                old(self)@,
                now,
                asking.cid,
                asking.grant@,
                asking.attempts,
                phase@,
                deadline as int,
                bytes@,
                token@,
            ),
    {
        match read_hid_report(bytes) {
            Err(err) => self.deny(asking.cid, err),
            Ok(None) => self.keep_listening(now, asking, phase, deadline),
            Ok(Some(report)) => match self.responses.push(report.as_slice()) {
                Err(err) => self.deny(asking.cid, err),
                Ok(None) => self.keep_listening(now, asking, phase, deadline),
                Ok(Some(message)) => {
                    if message.cid == asking.cid && message.command == CTAPHID_CBOR {
                        self.obtain_physical_pin_token(
                            now,
                            asking,
                            phase,
                            message.payload.as_slice(),
                            token,
                        )
                    } else {
                        let reports = fragment_message(&message)?;
                        enqueue(&mut self.output, reports);
                        self.keep_listening(now, asking, phase, deadline)
                    }
                },
            },
        }
    }

    /// Goes on with what came of the outside work, on the given randomness. A call that
    /// was not asked for changes nothing.
    pub fn resume_with(&mut self, now: u64, event: Event, fresh: Fresh) -> (result: Result<
        Action,
        FidoError,
    >)
        requires
            old(self).wf(),
            fresh.token@.len() == 32,
        ensures
            final(self).wf(),
            (final(self)@, act_of(result)) == resumed(
                old(self)@,
                now,
                event@,
                fresh.secret@,
                fresh.token@,
            ),
    {
        let mut stage = BrokerStage::Idle;
        core::mem::swap(&mut stage, &mut self.stage);
        assert(self@ =~= (Broker { stage: Stage::Idle, ..old(self)@ }));
        match (stage, event) {
            (BrokerStage::Forwarding, Event::Written) => self.drive(now),
            (BrokerStage::Forwarding, Event::Failed) => {
                self.abandon();
                Err(FidoError::Device)
            },
            (BrokerStage::Prompting(asking), Event::Pin(pin)) => {
                let phase = ExchangePhase::Agreement {
                    pin_hash: pin_hash(pin.as_str()),
                    secret: fresh.secret,
                };
                let request = agreement_payload()?;
                let step = self.physical_transact(asking, phase, request);
                self.settle(step, now)
            },
            (BrokerStage::Prompting(asking), Event::PinRefused(reason)) => {
                let step = self.deny(asking.cid, reason);
                self.settle(step, now)
            },
            (BrokerStage::Exchanging(asking, phase, None), Event::Written) => {
                let deadline: u128 = now as u128 + EXCHANGE_TIMEOUT as u128;
                let step = self.keep_listening(now, asking, phase, deadline);
                self.settle(step, now)
            },
            (BrokerStage::Exchanging(asking, _, _), Event::Failed) => {
                let step = self.deny(asking.cid, FidoError::Device);
                self.settle(step, now)
            },
            (BrokerStage::Exchanging(asking, phase, Some(deadline)), Event::Heard(bytes)) => {
                let step = self.hear(now, asking, phase, deadline, bytes.as_slice(), fresh.token);
                self.settle(step, now)
            },
            (stage, _) => {
                self.stage = stage;
                assert(self@ =~= old(self)@);
                Err(FidoError::UnexpectedSignal)
            },
        }
    }

    /// Goes on with what came of the outside work.
    pub fn resume(&mut self, now: u64, event: Event) -> (result: Result<Action, FidoError>)
        requires
            old(self).wf(),
        ensures
            final(self).wf(),
            exists|secret: Seq<u8>, token: Seq<u8>|
                is_secret(secret) && token.len() == 32 && (final(self)@, act_of(result))
                    == #[trigger] resumed(old(self)@, now, event@, secret, token),
    {
        self.resume_with(now, event, Fresh::draw())
    }
}

/// What a poll hands out.
pub open spec fn reports_of(result: Result<Vec<Vec<u8>>, FidoError>) -> Result<
    Seq<Seq<u8>>,
    FidoError,
> {
    match result {
        Ok(reports) => Ok(views(reports@)),
        Err(err) => Err(err),
    }
}

/// What is left when the notices are handed out, and the notices.
pub open spec fn notices_taken(broker: Broker) -> (Broker, Seq<Notice>) {
    (Broker { notices: seq![], ..broker }, broker.notices)
}

/// What is announced of a candidate.
pub open spec fn device_of(candidate: Candidate) -> Device {
    Device {
        vendor_id: candidate.vendor_id as u32,
        product_id: candidate.product_id as u32,
        product_name: at_most(name_of(candidate.product), PRODUCT_NAME_LENGTH as nat),
    }
}

/// A broker that has not done anything yet.
pub open spec fn unused(device: Device, secret: Seq<u8>) -> Broker {
    Broker {
        device,
        requests: Map::empty(),
        responses: Map::empty(),
        output: seq![],
        pending_get_info: Set::empty(),
        secret,
        session: None,
        inbox: seq![],
        stage: Stage::Idle,
        notices: seq![],
    }
}

impl FidoClient {
    /// A broker for a device, with the given secret.
    pub fn new(info: FidoDevice, proxy_secret: SecretKey) -> (client: Self)
        ensures
            client.wf(),
            client@ == unused(info@, proxy_secret@),
    {
        let client = FidoClient {
            info,
            requests: CtapAssembler::default(),
            responses: CtapAssembler::default(),
            output: VecDeque::new(),
            pending_get_info: HashSet::new(),
            proxy_secret,
            pin_session: None,
            inbox: VecDeque::new(),
            stage: BrokerStage::Idle,
            notices: Vec::new(),
        };
        assert(client@ =~= unused(info@, proxy_secret@));
        client
    }

    /// Chooses the authenticator to forward, and gives a broker for it with a secret of
    /// its own, and the authenticator's place among the candidates.
    pub fn open(candidates: &Vec<HidCandidate>, requested_path: Option<&str>) -> (result: Result<
        (Self, usize),
        SelectionError,
    >)
        ensures
            match result {
                Ok((client, at)) => chosen(candidate_views(candidates@), request_of(requested_path))
                    == Ok::<_, Unselected>(at as int) && at < candidates@.len() && client.wf()
                    && is_secret(client@.secret) && client@ == unused(
                    device_of(candidates@[at as int]@),
                    client@.secret,
                ),
                Err(err) => chosen(candidate_views(candidates@), request_of(requested_path))
                    == Err::<int, _>(err@),
            },
    {
        let at: usize = choose_candidate(candidates, requested_path)?;
        let candidate = &candidates[at];
        let info = FidoDevice {
            vendor_id: candidate.vendor_id as u32,
            product_id: candidate.product_id as u32,
            product_name: candidate.product_name(),
        };
        Ok((FidoClient::new(info, SecretKey::random()), at))
    }

    /// The authenticator that is forwarded.
    pub fn info(&self) -> (info: FidoDevice)
        ensures
            info@ == self@.device,
    {
        FidoDevice {
            vendor_id: self.info.vendor_id,
            product_id: self.info.product_id,
            product_name: self.info.product_name.clone(),
        }
    }

    /// Hands out what the user should know, in order.
    pub fn take_notices(&mut self) -> (notices: Vec<Notice>)
        requires
            old(self).wf(),
        ensures
            final(self).wf(),
            (final(self)@, notices@) == notices_taken(old(self)@),
    {
        let mut notices: Vec<Notice> = Vec::new();
        core::mem::swap(&mut notices, &mut self.notices);
        assert(self@ =~= (Broker { notices: seq![], ..old(self)@ }));
        notices
    }

    /// Starts to deal with a packet of the remote side's reports.
    pub fn write_reports(&mut self, now: u64, reports: Vec<Vec<u8>>) -> (result: Result<
        Action,
        FidoError,
    >)
        requires
            old(self).wf(),
        ensures
            final(self).wf(),
            (final(self)@, act_of(result)) == started(old(self)@, now, views(reports@)),
    {
        match self.stage {
            BrokerStage::Idle => {},
            _ => {
                return Err(FidoError::UnexpectedSignal);
            },
        }
        if reports.len() > MAX_REPORTS_PER_CYCLE {
            return Err(FidoError::TooManyReports);
        }
        self.inbox.clear();
        enqueue(&mut self.inbox, reports);
        assert(self@ =~= (Broker { inbox: views(reports@), ..old(self)@ }));
        self.drive(now)
    }

    /// Ends a session that has expired.
    fn expire_pin_session(&mut self, now: u64)
        requires
            old(self).wf(),
        ensures
            final(self).wf(),
            final(self)@ == (Broker { session: live(old(self)@.session, now), ..old(self)@ }),
    {
        expire_session(&mut self.pin_session, now);
    }

    /// Deals with a report of the authenticator.
    fn handle_response(&mut self, report: &[u8]) -> (result: Result<(), FidoError>)
        requires
            old(self).wf(),
        ensures
            final(self).wf(),
            (final(self)@, result) == returned(old(self)@, report@),
    {
        broadcast use vstd::std_specs::hash::group_hash_axioms;

        match self.responses.push(report)? {
            None => Ok(()),
            Some(message) => {
                let mut message = message;
                if message.command == CTAPHID_CBOR && self.pending_get_info.remove(&message.cid) {
                    advertise_local_pin_broker(&mut message.payload)?;
                } else {
                    assert(message.command == CTAPHID_CBOR ==> self@.pending_get_info
                        =~= old(self)@.pending_get_info);
                }
                let reports = fragment_message(&message)?;
                enqueue(&mut self.output, reports);
                Ok(())
            },
        }
    }

    /// Hands out the oldest reports for the remote side.
    fn drain_output(&mut self) -> (reports: Vec<Vec<u8>>)
        requires
            old(self).wf(),
        ensures
            final(self).wf(),
            (final(self)@, views(reports@)) == drained(old(self)@),
    {
        let count: usize = if self.output.len() < MAX_REPORTS_PER_CYCLE {
            self.output.len()
        } else {
            MAX_REPORTS_PER_CYCLE
        };
        let ghost all = self.output@;
        let mut reports: Vec<Vec<u8>> = Vec::new();
        while reports.len() < count
            invariant
                self.wf(),
                count <= all.len(),
                reports@.len() <= count,
                reports@ == all.take(reports@.len() as int),
                self.output@ == all.skip(reports@.len() as int),
                self@ == (Broker { output: views(self.output@), ..old(self)@ }),
            decreases count - reports@.len(),
        {
            let ghost done = reports@.len() as int;
            match self.output.pop_front() {
                Some(report) => {
                    reports.push(report);
                },
                None => {},
            }
            assert(reports@ =~= all.take(done + 1));
            assert(self.output@ =~= all.skip(done + 1));
        }
        assert(views(all.take(count as int)) =~= views(all).take(count as int));
        assert(views(all.skip(count as int)) =~= views(all).skip(count as int));
        reports
    }

    /// Deals with what was read from the authenticator since the last poll, and hands out
    /// reports for the remote side.
    pub fn poll_reports(&mut self, now: u64, reads: Vec<HidRead>) -> (result: Result<
        Vec<Vec<u8>>,
        FidoError,
    >)
        requires
            old(self).wf(),
        ensures
            final(self).wf(),
            (final(self)@, reports_of(result)) == polled(old(self)@, now, read_views(reads@)),
    {
        self.expire_pin_session(now);
        let ghost start = self@;
        let ghost all = read_views(reads@).take(cycle(reads@.len()));
        assert(all.skip(0) =~= all);
        let mut at: usize = 0;
        while at < reads.len() && at < MAX_REPORTS_PER_CYCLE
            invariant_except_break
                collected(self@, all.skip(at as int)) == collected(start, all),
            invariant
                self.wf(),
                at <= all.len(),
                all == read_views(reads@).take(cycle(reads@.len())),
                start == (Broker { session: live(old(self)@.session, now), ..old(self)@ }),
            ensures
                (self@, Ok::<(), FidoError>(())) == collected(start, all),
            decreases reads@.len() - at,
        {
            assert(all.skip(at as int)[0] == reads@[at as int]@);
            assert(all.skip(at as int).skip(1) =~= all.skip(at as int + 1));
            match &reads[at] {
                HidRead::Failed => {
                    return Err(FidoError::Device);
                },
                HidRead::Bytes(bytes) => match read_hid_report(bytes.as_slice())? {
                    None => {
                        break;
                    },
                    Some(report) => {
                        self.handle_response(report.as_slice())?;
                    },
                },
            }
            at += 1;
        }
        Ok(self.drain_output())
    }
}

/// Reads the public point in the authenticator's answer.
fn read_authenticator_key(response: &[u8]) -> (result: Result<PublicKey, FidoError>)
    ensures
        match result {
            Ok(public) => authenticator_point(response@) == Ok::<_, FidoError>(public@),
            Err(err) => authenticator_point(response@) == Err::<Seq<u8>, _>(err),
        },
{
    let agreement = successful_map(response)?;
    parse_cose_public(map_value(&agreement, 1)?)
}

/// Decrypts the authenticator's token in its answer.
fn open_physical_token(shared: &[u8], response: &[u8]) -> (result: Result<Hidden, FidoError>)
    requires
        shared@.len() == 32,
    ensures
        match result {
            Ok(token) => physical_token(shared@, response@) == Ok::<_, FidoError>(token@),
            Err(err) => physical_token(shared@, response@) == Err::<Seq<u8>, _>(err),
        },
{
    let map = successful_map(response)?;
    let encrypted = map_bytes(&map, 2)?;
    Ok(Hidden::new(aes_cbc_decrypt(shared, encrypted)?))
}

} // verus!
