//! What the broker writes, answers and keeps, on the messages and their entries themselves.

use vstd::prelude::*;
use vstd::utf8::encode_utf8;

use crate::broker::{
    collected, device_of, dispatched, driven, notices_taken, polled, resumed, returned, settled,
    started, unused, Act, Broker, Device, Notice, Phase, Signal, Stage,
};
use crate::broker_laws::output_is_handed_out_in_order;
use crate::cbor::{decoded_map, encoded_map, Cbor, CborKey};
use crate::crypto::{
    agreed_coordinate, cbc_decrypted, cbc_encrypted, cose, cose_point, is_uncompressed,
    public_key_entries, public_keys_are_written_as_cose, public_point_of, sha256, zero_iv,
};
use crate::ctap::{announced, leads};
use crate::error::FidoError;
use crate::framing::{
    accepted, accepted_all, fragments, fragments_are_reports, fragments_reassemble,
    report_validity, Message, Partial,
};
use crate::hid::input_report;
use crate::pin::{asked, live, translated, Ask, Session};
use crate::pin_laws::{declines_presence, only_silent_assertions_keep_the_token};
use crate::selector::Candidate;

verus! {

/// A one-byte answer on a channel.
pub open spec fn status_reports(cid: u32, status: u8) -> Seq<Seq<u8>> {
    fragments(Message { cid, command: 0x10, payload: seq![status] })
}

/// Sixteen zeros.
pub open spec fn zeros() -> Seq<u8> {
    Seq::new(16, |i: int| 0u8)
}

/// Of the CTAP commands, which CBOR messages carry in their first byte, only 1, 2 and 6
/// concern the broker. Any other message is written to the authenticator as it came, and
/// nothing changes but that a GetInfo, which is 4, is remembered by its channel.
pub proof fn messages_go_by_their_command(broker: Broker, now: u64, message: Message)
    ensures
        ({
            let bare = message.command != 0x10 || message.payload.len() == 0;
            let (next, result) = dispatched(broker, now, message);
            let other = bare || (message.payload[0] != 1 && message.payload[0] != 2
                && message.payload[0] != 6);
            &&& other && message.payload.len() <= 4096 ==> {
                &&& result == Ok::<_, FidoError>(Some(Act::Write(fragments(message))))
                &&& next.stage is Forwarding
                &&& next.output == broker.output
                &&& next.session == broker.session
                &&& next.requests == broker.requests
                &&& next.responses == broker.responses
                &&& next.inbox == broker.inbox
                &&& next.secret == broker.secret
                &&& next.notices == broker.notices
                &&& !bare && message.payload[0] == 4 ==> next.pending_get_info
                    == broker.pending_get_info.insert(message.cid)
                &&& bare || message.payload[0] != 4 ==> next.pending_get_info
                    == broker.pending_get_info
            }
            &&& other && message.payload.len() > 4096 ==> result == Err::<Option<Act>, _>(
                FidoError::PayloadTooLarge,
            )
        }),
{
}

/// A ClientPIN request is answered on its channel. One that is not understood gets 0x27, and
/// the reason is noted; one with an unknown subcommand gets 0x3e. The request for the broker's
/// key gets zero and a map that leads 1 to the key that belongs to the broker's secret, and
/// nothing else. The request for a token has the PIN asked for, up to three times.
pub proof fn client_pin_requests_are_answered(broker: Broker, now: u64, message: Message)
    requires
        message.command == 0x10,
        message.payload.len() > 0,
        message.payload[0] == 6,
    ensures
        ({
            let (next, result) = dispatched(broker, now, message);
            match asked(broker.secret, message.payload.skip(1)) {
                Err(reason) => {
                    &&& result == Ok::<_, FidoError>(None::<Act>)
                    &&& next.output == broker.output + status_reports(message.cid, 0x27)
                    &&& next.notices == broker.notices.push(Notice::Denied(reason))
                    &&& next.session == broker.session
                    &&& next.stage == broker.stage
                },
                Ok(Ask::Unknown) => {
                    &&& result == Ok::<_, FidoError>(None::<Act>)
                    &&& next.output == broker.output + status_reports(message.cid, 0x3e)
                    &&& next.notices == broker.notices
                    &&& next.session == broker.session
                },
                Ok(Ask::KeyAgreement) => {
                    let key = cose(public_point_of(broker.secret));
                    let payload = seq![0u8] + encoded_map(
                        map![CborKey::Integer(1) => Cbor::Table(key)],
                    )->0;
                    &&& payload.len() <= 4096 ==> result == Ok::<_, FidoError>(None::<Act>)
                        && next.output == broker.output + fragments(
                        Message { cid: message.cid, command: 0x10, payload },
                    ) && next.notices == broker.notices && next.session == broker.session
                    &&& is_uncompressed(public_point_of(broker.secret)) ==> public_key_entries(
                        key,
                        public_point_of(broker.secret),
                    )
                },
                Ok(Ask::Token(grant)) => {
                    &&& result == Ok::<_, FidoError>(Some(Act::Prompt))
                    &&& next.stage == (Stage::Prompting { cid: message.cid, grant, attempts: 3 })
                    &&& next.output == broker.output
                    &&& next.session == broker.session
                },
            }
        }),
{
    if is_uncompressed(public_point_of(broker.secret)) {
        public_keys_are_written_as_cose(public_point_of(broker.secret));
    }
}

/// A MakeCredential or GetAssertion request whose proof is exchanged, or that carries none, is
/// written to the authenticator on its channel. One that is refused is answered with 0x33, and
/// the reason is noted. A token that there was is left behind by a request with a proof only
/// where it is a GetAssertion whose options lead "up" to false.
pub proof fn proofs_are_vouched_for(
    broker: Broker,
    now: u64,
    message: Message,
    map: Map<CborKey, Cbor>,
)
    requires
        message.command == 0x10,
        message.payload.len() > 0,
        message.payload[0] == 1 || message.payload[0] == 2,
    ensures
        ({
            let (next, result) = dispatched(broker, now, message);
            let (session, outcome) = translated(broker.session, now, message.payload);
            &&& next.session == session
            &&& match outcome {
                Ok(payload) => payload.len() <= 4096 ==> result == Ok::<_, FidoError>(
                    Some(
                        Act::Write(
                            fragments(Message { cid: message.cid, command: 0x10, payload }),
                        ),
                    ),
                ) && next.stage is Forwarding && next.output == broker.output && next.notices
                    == broker.notices,
                Err(reason) => result == Ok::<_, FidoError>(None::<Act>) && next.output
                    == broker.output + status_reports(message.cid, 0x33) && next.notices
                    == broker.notices.push(Notice::Rejected(reason)) && next.stage
                    == broker.stage,
            }
            &&& decoded_map(message.payload.skip(1)) == Ok::<_, FidoError>(map) && ((
            message.payload[0] == 1 && map.dom().contains(CborKey::Integer(8))) || (
            message.payload[0] == 2 && map.dom().contains(CborKey::Integer(6)))) && outcome is Ok
                && next.session is Some ==> message.payload[0] == 2 && declines_presence(map)
        }),
{
    let outcome = translated(broker.session, now, message.payload).1;
    if decoded_map(message.payload.skip(1)) == Ok::<_, FidoError>(map) && ((message.payload[0] == 1
        && map.dom().contains(CborKey::Integer(8))) || (message.payload[0] == 2
        && map.dom().contains(CborKey::Integer(6)))) && outcome is Ok {
        only_silent_assertions_keep_the_token(broker.session, now, message.payload, map);
    }
}

/// A PIN that is entered has the authenticator asked for its key, with the map that leads 1
/// to 1 and 2 to 2, on the channel that the token was asked for on. What is kept of the PIN
/// is the first half of the digest of its text.
pub proof fn entered_pins_start_an_agreement(
    broker: Broker,
    now: u64,
    pin: Seq<char>,
    secret: Seq<u8>,
    token: Seq<u8>,
)
    ensures
        broker.stage matches Stage::Prompting { cid, grant, attempts } ==> {
            let (next, result) = resumed(broker, now, Signal::Pin(pin), secret, token);
            let payload = seq![6u8] + encoded_map(
                map![
                    CborKey::Integer(1) => Cbor::Integer(1),
                    CborKey::Integer(2) => Cbor::Integer(2),
                ],
            )->0;
            payload.len() <= 4096 ==> {
                &&& result == Ok::<_, FidoError>(
                    Act::Write(fragments(Message { cid, command: 0x10, payload })),
                )
                &&& next.stage == (Stage::Exchanging {
                    cid,
                    grant,
                    attempts,
                    phase: Phase::Agreement {
                        pin_hash: sha256(encode_utf8(pin)).take(16),
                        secret,
                    },
                    deadline: None,
                })
                &&& next == (Broker { stage: next.stage, ..broker })
            }
        },
{
}

/// Once a request of the broker's own is written, the authenticator has ten seconds to
/// answer. Until then a read that gives nothing has the broker read again, and changes
/// nothing.
pub proof fn the_authenticator_has_ten_seconds(
    broker: Broker,
    now: u64,
    secret: Seq<u8>,
    token: Seq<u8>,
)
    ensures
        match broker.stage {
            Stage::Exchanging { cid, grant, attempts, phase, deadline: None } => resumed(
                broker,
                now,
                Signal::Written,
                secret,
                token,
            ) == (
                Broker {
                    stage: Stage::Exchanging {
                        cid,
                        grant,
                        attempts,
                        phase,
                        deadline: Some(now + 10_000_000_000),
                    },
                    ..broker
                },
                Ok::<_, FidoError>(Act::Listen),
            ),
            Stage::Exchanging { deadline: Some(deadline), .. } => now < deadline ==> resumed(
                broker,
                now,
                Signal::Heard(seq![]),
                secret,
                token,
            ) == (broker, Ok::<_, FidoError>(Act::Listen)),
            _ => true,
        },
{
}

/// While the broker waits for an answer, a message of the authenticator on another channel,
/// or of another kind, is handed to the remote side as it came, and the broker goes on
/// waiting.
pub proof fn other_messages_are_handed_on(
    broker: Broker,
    now: u64,
    report: Seq<u8>,
    message: Message,
    secret: Seq<u8>,
    token: Seq<u8>,
)
    requires
        report.len() == 64,
        accepted(broker.responses, report).1 == Ok::<_, FidoError>(Some(message)),
    ensures
        broker.stage matches Stage::Exchanging { cid, deadline: Some(deadline), .. } ==> now
            < deadline && (message.cid != cid || message.command != 0x10) ==> resumed(
            broker,
            now,
            Signal::Heard(report),
            secret,
            token,
        ) == (
            Broker {
                responses: accepted(broker.responses, report).0,
                output: broker.output + fragments(message),
                ..broker
            },
            Ok::<_, FidoError>(Act::Listen),
        ),
{
}

/// The authenticator's key has it asked for its token: with the map that leads 1 to 1, 2 to 5,
/// 3 to the key of the broker's fresh secret and 6 to the hash of the PIN, encrypted under the
/// digest of what that secret and the authenticator's key agree on. That digest is kept.
pub proof fn keys_lead_to_the_token_request(
    broker: Broker,
    now: u64,
    report: Seq<u8>,
    response: Seq<u8>,
    map: Map<CborKey, Cbor>,
    point: Seq<u8>,
    fresh: Seq<u8>,
    token: Seq<u8>,
)
    requires
        report.len() == 64,
        response.len() > 0,
        response[0] == 0,
        decoded_map(response.skip(1)) == Ok::<_, FidoError>(map),
        map.dom().contains(CborKey::Integer(1)),
        cose_point(map[CborKey::Integer(1)]) == Ok::<_, FidoError>(point),
    ensures
        broker.stage matches Stage::Exchanging {
            cid,
            grant,
            attempts,
            phase: Phase::Agreement { pin_hash, secret },
            deadline: Some(_),
        } ==> accepted(broker.responses, report).1 == Ok::<_, FidoError>(
            Some(Message { cid, command: 0x10, payload: response }),
        ) ==> {
            let key = sha256(agreed_coordinate(secret, point));
            let payload = seq![6u8] + encoded_map(
                map![
                    CborKey::Integer(1) => Cbor::Integer(1),
                    CborKey::Integer(2) => Cbor::Integer(5),
                    CborKey::Integer(3) => Cbor::Table(cose(public_point_of(secret))),
                    CborKey::Integer(6) => Cbor::Bytes(cbc_encrypted(key, zeros(), pin_hash)),
                ],
            )->0;
            payload.len() <= 4096 ==> resumed(broker, now, Signal::Heard(report), fresh, token) == (
                Broker {
                    responses: accepted(broker.responses, report).0,
                    stage: Stage::Exchanging {
                        cid,
                        grant,
                        attempts,
                        phase: Phase::Token { shared: key },
                        deadline: None,
                    },
                    ..broker
                },
                Ok::<_, FidoError>(
                    Act::Write(fragments(Message { cid, command: 0x10, payload })),
                ),
            )
        },
{
    assert(zeros() =~= zero_iv());
}

/// A wrong PIN, which the authenticator answers with 0x31, has the PIN asked for again while
/// more than one attempt is left, with one less; else the request is denied with 0x27.
pub proof fn wrong_pins_are_asked_for_again(
    broker: Broker,
    now: u64,
    report: Seq<u8>,
    response: Seq<u8>,
    secret: Seq<u8>,
    token: Seq<u8>,
)
    requires
        report.len() == 64,
        response.len() > 0,
        response[0] == 0x31,
    ensures
        broker.stage matches Stage::Exchanging {
            cid,
            grant,
            attempts,
            phase: Phase::Token { .. },
            deadline: Some(_),
        } ==> accepted(broker.responses, report).1 == Ok::<_, FidoError>(
            Some(Message { cid, command: 0x10, payload: response }),
        ) ==> {
            let heard = Broker {
                responses: accepted(broker.responses, report).0,
                stage: Stage::Idle,
                ..broker
            };
            &&& attempts > 1 ==> resumed(broker, now, Signal::Heard(report), secret, token) == (
                Broker {
                    stage: Stage::Prompting { cid, grant, attempts: (attempts - 1) as u8 },
                    ..heard
                },
                Ok::<_, FidoError>(Act::Prompt),
            )
            &&& attempts <= 1 ==> resumed(broker, now, Signal::Heard(report), secret, token)
                == driven(
                Broker {
                    output: broker.output + status_reports(cid, 0x27),
                    notices: broker.notices.push(Notice::Denied(FidoError::PinRejected)),
                    ..heard
                },
                now,
            )
        },
{
}

/// The authenticator's token, which stands encrypted under 2 in its answer, has a token of the
/// broker's own issued: for two minutes, for the permissions and the relying party that were
/// asked for. The remote side gets zero and a map that leads 2 to the broker's token,
/// encrypted under the secret that it shares with the broker.
pub proof fn tokens_are_issued_for_what_was_asked(
    broker: Broker,
    now: u64,
    report: Seq<u8>,
    response: Seq<u8>,
    map: Map<CborKey, Cbor>,
    ciphertext: Seq<u8>,
    secret: Seq<u8>,
    token: Seq<u8>,
)
    requires
        report.len() == 64,
        response.len() > 0,
        response[0] == 0,
        decoded_map(response.skip(1)) == Ok::<_, FidoError>(map),
        leads(map, 2, Cbor::Bytes(ciphertext)),
        ciphertext.len() > 0,
        ciphertext.len() % 16 == 0,
    ensures
        broker.stage matches Stage::Exchanging {
            cid,
            grant,
            attempts,
            phase: Phase::Token { shared },
            deadline: Some(_),
        } ==> accepted(broker.responses, report).1 == Ok::<_, FidoError>(
            Some(Message { cid, command: 0x10, payload: response }),
        ) ==> {
            let payload = seq![0u8] + encoded_map(
                map![
                    CborKey::Integer(2) => Cbor::Bytes(
                        cbc_encrypted(grant.remote_secret, zeros(), token),
                    ),
                ],
            )->0;
            payload.len() <= 4096 ==> resumed(broker, now, Signal::Heard(report), secret, token)
                == driven(
                Broker {
                    responses: accepted(broker.responses, report).0,
                    stage: Stage::Idle,
                    session: Some(
                        Session {
                            proxy_token: token,
                            physical_token: cbc_decrypted(shared, zeros(), ciphertext),
                            permissions: grant.permissions,
                            rp_id: grant.rp_id,
                            expires_at: now + 120_000_000_000,
                        },
                    ),
                    output: broker.output + fragments(Message { cid, command: 0x10, payload }),
                    ..broker
                },
                now,
            )
        },
{
    assert(zeros() =~= zero_iv());
}

/// An answer of the authenticator that is an error, or that does not hold what was asked for,
/// denies the request with 0x27 on its channel, notes the reason, and issues no token.
pub proof fn bad_answers_are_denied(
    broker: Broker,
    now: u64,
    report: Seq<u8>,
    response: Seq<u8>,
    secret: Seq<u8>,
    token: Seq<u8>,
)
    requires
        report.len() == 64,
        response.len() == 0 || (response[0] != 0 && response[0] != 0x31),
    ensures
        broker.stage matches Stage::Exchanging { cid, deadline: Some(_), .. } ==> accepted(
            broker.responses,
            report,
        ).1 == Ok::<_, FidoError>(Some(Message { cid, command: 0x10, payload: response })) ==> {
            let reason = if response.len() == 0 {
                FidoError::EmptyResponse
            } else {
                FidoError::Rejected(response[0])
            };
            resumed(broker, now, Signal::Heard(report), secret, token) == driven(
                Broker {
                    responses: accepted(broker.responses, report).0,
                    stage: Stage::Idle,
                    output: broker.output + status_reports(cid, 0x27),
                    notices: broker.notices.push(Notice::Denied(reason)),
                    ..broker
                },
                now,
            )
        },
{
}

/// A PIN that is refused, a device that fails and an authenticator that stays silent until its
/// time is over have the request denied with 0x27 on its channel; the broker then goes on with
/// the reports that wait. A device that fails while a message is passed on ends that packet.
/// What the broker did not ask for changes nothing.
pub proof fn failures_end_what_was_under_way(
    broker: Broker,
    now: u64,
    signal: Signal,
    secret: Seq<u8>,
    token: Seq<u8>,
)
    ensures
        ({
            let outcome = resumed(broker, now, signal, secret, token);
            let denied = |cid: u32, reason: FidoError|
                driven(
                    Broker {
                        stage: Stage::Idle,
                        output: broker.output + status_reports(cid, 0x27),
                        notices: broker.notices.push(Notice::Denied(reason)),
                        ..broker
                    },
                    now,
                );
            match (broker.stage, signal) {
                (Stage::Prompting { cid, .. }, Signal::PinRefused(reason)) => outcome == denied(
                    cid,
                    reason,
                ),
                (Stage::Exchanging { cid, .. }, Signal::Failed) => outcome == denied(
                    cid,
                    FidoError::Device,
                ),
                (
                    Stage::Exchanging { cid, deadline: Some(deadline), .. },
                    Signal::Heard(bytes),
                ) => bytes.len() == 0 && now >= deadline ==> outcome == denied(
                    cid,
                    FidoError::Timeout,
                ),
                (Stage::Forwarding, Signal::Written) => outcome == driven(
                    Broker { stage: Stage::Idle, ..broker },
                    now,
                ),
                (Stage::Forwarding, Signal::Failed) => outcome == (
                    Broker { stage: Stage::Idle, inbox: seq![], ..broker },
                    Err::<Act, _>(FidoError::Device),
                ),
                (Stage::Idle, _) => outcome == (
                    broker,
                    Err::<Act, _>(FidoError::UnexpectedSignal),
                ),
                (Stage::Forwarding, _) => outcome == (
                    broker,
                    Err::<Act, _>(FidoError::UnexpectedSignal),
                ),
                (Stage::Prompting { .. }, Signal::Written) => outcome == (
                    broker,
                    Err::<Act, _>(FidoError::UnexpectedSignal),
                ),
                _ => true,
            }
        }),
{
}

/// Reports are dealt with one after the other: dealing with two lists of them is dealing with
/// the first and then, where that left nothing under way, with the second. Where the first
/// leads to outside work, the rest of it and the second list wait; where it is refused, both
/// are given up.
pub proof fn reports_are_dealt_with_in_order(
    broker: Broker,
    now: u64,
    first: Seq<Seq<u8>>,
    second: Seq<Seq<u8>>,
)
    requires
        broker.stage is Idle,
    ensures
        ({
            let part = driven(Broker { inbox: first, ..broker }, now);
            let whole = driven(Broker { inbox: first + second, ..broker }, now);
            match part.1 {
                Ok(Act::Done) => part.0.inbox.len() == 0 && part.0.stage is Idle && whole == driven(
                    Broker { inbox: second, ..part.0 },
                    now,
                ),
                Ok(_) => whole == (
                    Broker { inbox: part.0.inbox + second, ..part.0 },
                    part.1,
                ),
                Err(_) => whole == part && part.0.inbox.len() == 0 && part.0.stage is Idle,
            }
        }),
    decreases first.len(),
{
    let alone = Broker { inbox: first, ..broker };
    let both = Broker { inbox: first + second, ..broker };
    if first.len() == 0 {
        assert(first + second =~= second);
        assert(alone.inbox =~= seq![]);
        assert(both == (Broker { inbox: second, ..driven(alone, now).0 }));
    } else {
        assert((first + second)[0] == first[0]);
        assert((first + second).skip(1) =~= first.skip(1) + second);
        let (requests, result) = accepted(broker.requests, first[0]);
        let next = Broker { requests, ..broker };
        let rest = first.skip(1);
        match result {
            Ok(None) => {
                reports_are_dealt_with_in_order(next, now, rest, second);
            },
            Ok(Some(message)) => {
                lemma_dispatched_keeps_the_inbox(next, now, message, rest, rest + second);
                let (last, outcome) = dispatched(Broker { inbox: rest, ..next }, now, message);
                if outcome matches Ok(None) {
                    reports_are_dealt_with_in_order(
                        Broker { inbox: seq![], ..last },
                        now,
                        rest,
                        second,
                    );
                }
            },
            Err(_) => {},
        }
    }
}

/// What waits does not matter to how a message is dealt with.
proof fn lemma_dispatched_keeps_the_inbox(
    broker: Broker,
    now: u64,
    message: Message,
    one: Seq<Seq<u8>>,
    other: Seq<Seq<u8>>,
)
    ensures
        ({
            let left = dispatched(Broker { inbox: one, ..broker }, now, message);
            let right = dispatched(Broker { inbox: other, ..broker }, now, message);
            &&& left.0.inbox == one
            &&& right == (Broker { inbox: other, ..left.0 }, left.1)
            &&& left.1 matches Ok(None) ==> left.0.stage == broker.stage
            &&& left.1 != Ok::<_, FidoError>(Some(Act::Done))
        }),
{
}

/// A message that arrives whole, in the reports that it is cut into, is dealt with as that
/// message, whatever was pending on its channel.
pub proof fn whole_messages_are_dealt_with(broker: Broker, now: u64, message: Message)
    requires
        broker.stage is Idle,
        message.command < 0x80,
        message.payload.len() <= 4096,
        fragments(message).len() <= 64,
    ensures
        started(broker, now, fragments(message)) == settled(
            dispatched(
                Broker {
                    requests: broker.requests.remove(message.cid),
                    inbox: seq![],
                    ..broker
                },
                now,
                message,
            ),
            now,
        ),
{
    lemma_last_report_completes(broker.requests, message);
    lemma_all_but_the_last_request(broker, now, fragments(message), message);
}

/// Reports of which the last alone completes a message are dealt with as that message.
proof fn lemma_all_but_the_last_request(
    broker: Broker,
    now: u64,
    reports: Seq<Seq<u8>>,
    message: Message,
)
    requires
        reports.len() > 0,
        forall|i: int|
            0 <= i < accepted_all(broker.requests, reports.drop_last()).1.len()
                ==> #[trigger] accepted_all(broker.requests, reports.drop_last()).1[i] == Ok::<
                _,
                FidoError,
            >(None::<Message>),
        accepted(accepted_all(broker.requests, reports.drop_last()).0, reports.last()).1 == Ok::<
            _,
            FidoError,
        >(Some(message)),
    ensures
        driven(Broker { inbox: reports, ..broker }, now) == settled(
            dispatched(
                Broker {
                    requests: accepted(
                        accepted_all(broker.requests, reports.drop_last()).0,
                        reports.last(),
                    ).0,
                    inbox: seq![],
                    ..broker
                },
                now,
                message,
            ),
            now,
        ),
{
    let start = reports.drop_last();
    lemma_parts_are_taken_in(broker, now, start, seq![reports.last()]);
    assert(start + seq![reports.last()] =~= reports);
    assert(seq![reports.last()].skip(1) =~= seq![]);
}

/// Reports none of which completes a message leave their parts pending, and nothing else.
proof fn lemma_parts_are_taken_in(
    broker: Broker,
    now: u64,
    parts: Seq<Seq<u8>>,
    rest: Seq<Seq<u8>>,
)
    requires
        forall|i: int|
            0 <= i < accepted_all(broker.requests, parts).1.len() ==> #[trigger] accepted_all(
                broker.requests,
                parts,
            ).1[i] == Ok::<_, FidoError>(None::<Message>),
    ensures
        accepted_all(broker.requests, parts).1.len() == parts.len(),
        driven(Broker { inbox: parts + rest, ..broker }, now) == driven(
            Broker { requests: accepted_all(broker.requests, parts).0, inbox: rest, ..broker },
            now,
        ),
    decreases parts.len(),
{
    if parts.len() == 0 {
        assert(parts + rest =~= rest);
    } else {
        let before = parts.drop_last();
        let last = parts.last();
        let all = accepted_all(broker.requests, parts).1;
        let earlier = accepted_all(broker.requests, before);
        assert(all == earlier.1.push(accepted(earlier.0, last).1));
        assert forall|i: int| 0 <= i < earlier.1.len() implies #[trigger] earlier.1[i] == Ok::<
            _,
            FidoError,
        >(None::<Message>) by {
            assert(earlier.1[i] == all[i]);
        }
        assert(all[all.len() - 1] == accepted(earlier.0, last).1);
        lemma_parts_are_taken_in(broker, now, before, seq![last] + rest);
        assert(before + (seq![last] + rest) =~= parts + rest);
        let middle = Broker { requests: earlier.0, inbox: seq![last] + rest, ..broker };
        assert(middle.inbox[0] == last);
        assert(middle.inbox.skip(1) =~= rest);
    }
}

/// A packet is taken in while nothing is under way, and refused otherwise with nothing
/// changed; so is one of more than 64 reports.
pub proof fn packets_wait_for_their_turn(broker: Broker, now: u64, reports: Seq<Seq<u8>>)
    ensures
        !(broker.stage is Idle) ==> started(broker, now, reports) == (
            broker,
            Err::<Act, _>(FidoError::UnexpectedSignal),
        ),
        broker.stage is Idle && reports.len() > 64 ==> started(broker, now, reports) == (
            broker,
            Err::<Act, _>(FidoError::TooManyReports),
        ),
        broker.stage is Idle && reports.len() == 0 ==> started(broker, now, reports) == (
            Broker { inbox: reports, ..broker },
            Ok::<_, FidoError>(Act::Done),
        ),
{
}

/// Reads of the authenticator are dealt with in turn. They end at the first that gives
/// nothing: what comes after it does not matter. A read that fails ends them with an error.
pub proof fn reads_end_at_silence(
    broker: Broker,
    reads: Seq<Option<Seq<u8>>>,
    rest: Seq<Option<Seq<u8>>>,
)
    ensures
        collected(broker, reads + seq![Some(Seq::<u8>::empty())] + rest) == collected(
            broker,
            reads,
        ),
        collected(broker, seq![None::<Seq<u8>>] + rest) == (
            broker,
            Err::<(), _>(FidoError::Device),
        ),
    decreases reads.len(),
{
    let silent = seq![Some(Seq::<u8>::empty())];
    let whole = reads + silent + rest;
    assert((seq![None::<Seq<u8>>] + rest)[0] is None);
    if reads.len() == 0 {
        assert(whole[0] == Some(Seq::<u8>::empty()));
    } else {
        assert(whole[0] == reads[0]);
        assert(whole.skip(1) =~= reads.skip(1) + silent + rest);
        if let Some(bytes) = reads[0] {
            if let Ok(Some(report)) = input_report(bytes) {
                let (next, outcome) = returned(broker, report);
                if outcome is Ok {
                    reads_end_at_silence(next, reads.skip(1), rest);
                }
            }
        }
    }
}

/// What each read of these reports gives.
pub open spec fn read_of(reports: Seq<Seq<u8>>) -> Seq<Option<Seq<u8>>> {
    reports.map_values(|report: Seq<u8>| Some(report))
}

/// A message of the authenticator that is read whole, in the reports that it is cut into, is
/// handed to the remote side as it came, behind what waits; but in the answer to a GetInfo of
/// its channel the broker is announced, once.
pub proof fn whole_responses_are_handed_on(broker: Broker, message: Message)
    requires
        message.command < 0x80,
        message.payload.len() <= 4096,
    ensures
        message.command != 0x10 || !broker.pending_get_info.contains(message.cid) ==> collected(
            broker,
            read_of(fragments(message)),
        ) == (
            Broker {
                responses: broker.responses.remove(message.cid),
                output: broker.output + fragments(message),
                ..broker
            },
            Ok::<(), FidoError>(()),
        ),
        message.command == 0x10 && broker.pending_get_info.contains(message.cid) ==> match announced(
            message.payload,
        ) {
            Err(err) => collected(broker, read_of(fragments(message))).1 == Err::<(), _>(err),
            Ok(payload) => payload.len() <= 4096 ==> collected(broker, read_of(fragments(message)))
                == (
                Broker {
                    responses: broker.responses.remove(message.cid),
                    pending_get_info: broker.pending_get_info.remove(message.cid),
                    output: broker.output + fragments(Message { payload, ..message }),
                    ..broker
                },
                Ok::<(), FidoError>(()),
            ),
        },
{
    lemma_whole_response(broker, message);
    let reports = fragments(message);
    let last = reports.last();
    let middle = Broker {
        responses: accepted_all(broker.responses, reports.drop_last()).0,
        ..broker
    };
    let reads = read_of(seq![last]);
    assert(reads[0] == Some(last));
    assert(reads.skip(1) =~= seq![]);
    let after = returned(middle, last);
    assert(collected(after.0, seq![]) == (after.0, Ok::<(), FidoError>(())));
    assert(collected(middle, reads) == after);
}

/// A message that is read whole is completed by its last report.
proof fn lemma_whole_response(broker: Broker, message: Message)
    requires
        message.command < 0x80,
        message.payload.len() <= 4096,
    ensures
        ({
            let reports = fragments(message);
            let last = reports.last();
            let pending = accepted_all(broker.responses, reports.drop_last()).0;
            &&& last.len() == 64
            &&& accepted(pending, last) == (
                broker.responses.remove(message.cid),
                Ok::<_, FidoError>(Some(message)),
            )
            &&& collected(broker, read_of(reports)) == collected(
                Broker { responses: pending, ..broker },
                read_of(seq![last]),
            )
        }),
{
    lemma_last_report_completes(broker.responses, message);
    lemma_all_but_the_last_response(broker, fragments(message));
}

/// Reads none of which but the last completes a message leave their parts pending.
proof fn lemma_all_but_the_last_response(broker: Broker, reports: Seq<Seq<u8>>)
    requires
        reports.len() > 0,
        forall|i: int|
            0 <= i < reports.drop_last().len() ==> (#[trigger] reports.drop_last()[i]).len() == 64,
        forall|i: int|
            0 <= i < accepted_all(broker.responses, reports.drop_last()).1.len()
                ==> #[trigger] accepted_all(broker.responses, reports.drop_last()).1[i] == Ok::<
                _,
                FidoError,
            >(None::<Message>),
    ensures
        collected(broker, read_of(reports)) == collected(
            Broker {
                responses: accepted_all(broker.responses, reports.drop_last()).0,
                ..broker
            },
            read_of(seq![reports.last()]),
        ),
{
    let start = reports.drop_last();
    lemma_responses_are_taken_in(broker, start, read_of(seq![reports.last()]));
    assert(read_of(start) + read_of(seq![reports.last()]) =~= read_of(reports));
}

/// All but the last of the reports that a message is cut into complete nothing, and the last
/// completes the message.
proof fn lemma_last_report_completes(pending: Map<u32, Partial>, message: Message)
    requires
        message.command < 0x80,
        message.payload.len() <= 4096,
    ensures
        ({
            let reports = fragments(message);
            let before = accepted_all(pending, reports.drop_last());
            &&& reports.len() > 0
            &&& reports.last().len() == 64
            &&& accepted(before.0, reports.last()) == (
                pending.remove(message.cid),
                Ok::<_, FidoError>(Some(message)),
            )
            &&& forall|i: int|
                0 <= i < reports.drop_last().len() ==> (#[trigger] reports.drop_last()[i]).len()
                    == 64
            &&& forall|i: int|
                0 <= i < before.1.len() ==> #[trigger] before.1[i] == Ok::<_, FidoError>(
                    None::<Message>,
                )
        }),
{
    let reports = fragments(message);
    fragments_reassemble(pending, message);
    fragments_are_reports(message);
    let before = accepted_all(pending, reports.drop_last());
    let all = accepted_all(pending, reports).1;
    assert(all == before.1.push(accepted(before.0, reports.last()).1));
    assert(all.last() == Ok::<_, FidoError>(Some(message)));
    assert forall|i: int| 0 <= i < before.1.len() implies #[trigger] before.1[i] == Ok::<
        _,
        FidoError,
    >(None::<Message>) by {
        assert(before.1[i] == all[i]);
    }
    assert forall|i: int| 0 <= i < reports.drop_last().len() implies (
    #[trigger] reports.drop_last()[i]).len() == 64 by {
        assert(reports.drop_last()[i] == reports[i]);
        assert(report_validity(reports[i]) is Ok);
    }
    assert(report_validity(reports[reports.len() - 1]) is Ok);
}

proof fn lemma_responses_are_taken_in(
    broker: Broker,
    parts: Seq<Seq<u8>>,
    rest: Seq<Option<Seq<u8>>>,
)
    requires
        forall|i: int| 0 <= i < parts.len() ==> (#[trigger] parts[i]).len() == 64,
        forall|i: int|
            0 <= i < accepted_all(broker.responses, parts).1.len() ==> #[trigger] accepted_all(
                broker.responses,
                parts,
            ).1[i] == Ok::<_, FidoError>(None::<Message>),
    ensures
        accepted_all(broker.responses, parts).1.len() == parts.len(),
        collected(broker, read_of(parts) + rest) == collected(
            Broker { responses: accepted_all(broker.responses, parts).0, ..broker },
            rest,
        ),
    decreases parts.len(),
{
    if parts.len() == 0 {
        assert(read_of(parts) + rest =~= rest);
    } else {
        let before = parts.drop_last();
        let last = parts.last();
        let all = accepted_all(broker.responses, parts).1;
        let earlier = accepted_all(broker.responses, before);
        assert(all == earlier.1.push(accepted(earlier.0, last).1));
        assert forall|i: int| 0 <= i < earlier.1.len() implies #[trigger] earlier.1[i] == Ok::<
            _,
            FidoError,
        >(None::<Message>) by {
            assert(earlier.1[i] == all[i]);
        }
        assert(all[all.len() - 1] == accepted(earlier.0, last).1);
        assert forall|i: int| 0 <= i < before.len() implies (#[trigger] before[i]).len() == 64 by {
            assert(before[i] == parts[i]);
        }
        assert(parts[parts.len() - 1].len() == 64);
        lemma_responses_are_taken_in(broker, before, read_of(seq![last]) + rest);
        assert(read_of(before) + (read_of(seq![last]) + rest) =~= read_of(parts) + rest);
        let reads = read_of(seq![last]) + rest;
        assert(reads[0] == Some(last));
        assert(reads.skip(1) =~= rest);
    }
}

/// A poll ends a token whose time has come, deals with at most 64 reads, and hands out what
/// waits for the remote side, the oldest first and at most 64 reports.
pub proof fn polls_hand_out_what_was_read(
    broker: Broker,
    now: u64,
    reads: Seq<Option<Seq<u8>>>,
)
    ensures
        ({
            let kept = Broker {
                session: match broker.session {
                    Some(session) => if now < session.expires_at {
                        Some(session)
                    } else {
                        None
                    },
                    None => None,
                },
                ..broker
            };
            let taken = if reads.len() <= 64 {
                reads
            } else {
                reads.take(64)
            };
            let (read, outcome) = collected(kept, taken);
            match outcome {
                Err(err) => polled(broker, now, reads) == (read, Err::<Seq<Seq<u8>>, _>(err)),
                Ok(()) => {
                    let (next, result) = polled(broker, now, reads);
                    &&& result matches Ok(packet)
                    &&& packet + next.output == read.output
                    &&& packet.len() <= 64
                    &&& next.output.len() > 0 ==> packet.len() == 64
                    &&& next == (Broker { output: next.output, ..read })
                },
            }
        }),
{
    assert(live(broker.session, now) == match broker.session {
        Some(session) => if now < session.expires_at {
            Some(session)
        } else {
            None
        },
        None => None,
    });
    if reads.len() <= 64 {
        assert(reads.take(reads.len() as int) =~= reads);
    }
    let kept = Broker { session: live(broker.session, now), ..broker };
    let taken = if reads.len() <= 64 {
        reads
    } else {
        reads.take(64)
    };
    let read = collected(kept, taken).0;
    output_is_handed_out_in_order(read);
}

/// An authenticator is announced with its own vendor and product, and with at most 80
/// characters of its name, or of another where it has none. A broker for it starts with
/// nothing under way, nothing pending and no token.
pub proof fn brokers_start_empty(candidate: Candidate, device: Device, secret: Seq<u8>)
    ensures
        ({
            let announced = device_of(candidate);
            let name = match candidate.product {
                Some(name) => name,
                None => "FIDO authenticator"@,
            };
            &&& announced.vendor_id == candidate.vendor_id
            &&& announced.product_id == candidate.product_id
            &&& announced.product_name.is_prefix_of(name)
            &&& name.len() <= 80 ==> announced.product_name == name
            &&& name.len() > 80 ==> announced.product_name.len() == 80
        }),
        ({
            let broker = unused(device, secret);
            &&& broker.device == device
            &&& broker.secret == secret
            &&& broker.session is None
            &&& broker.stage is Idle
            &&& broker.output.len() == 0
            &&& broker.inbox.len() == 0
            &&& broker.notices.len() == 0
            &&& broker.requests.dom() =~= Set::<u32>::empty()
            &&& broker.responses.dom() =~= Set::<u32>::empty()
            &&& broker.pending_get_info =~= Set::<u32>::empty()
        }),
{
}

/// Every notice is handed out once, in its order, and nothing else changes.
pub proof fn notices_are_handed_out_once(broker: Broker)
    ensures
        notices_taken(broker).1 == broker.notices,
        notices_taken(broker).0.notices.len() == 0,
        notices_taken(notices_taken(broker).0).1.len() == 0,
        notices_taken(broker).0 == (Broker {
            notices: notices_taken(broker).0.notices,
            ..broker
        }),
{
}

/// An answer of the authenticator with success that does not hold what was asked for denies
/// the request with 0x27 on its channel, and issues no token: one that encodes no map, one
/// without a key under 1 or with one that is none, and one whose token under 2 is missing,
/// empty, or not made of whole blocks.
pub proof fn answers_without_content_are_denied(
    broker: Broker,
    now: u64,
    report: Seq<u8>,
    response: Seq<u8>,
    map: Map<CborKey, Cbor>,
    ciphertext: Seq<u8>,
    fresh: Seq<u8>,
    token: Seq<u8>,
)
    requires
        report.len() == 64,
        response.len() > 0,
        response[0] == 0,
    ensures
        broker.stage matches Stage::Exchanging { cid, phase, deadline: Some(_), .. } ==> accepted(
            broker.responses,
            report,
        ).1 == Ok::<_, FidoError>(Some(Message { cid, command: 0x10, payload: response })) ==> {
            let outcome = resumed(broker, now, Signal::Heard(report), fresh, token);
            let denied = |reason: FidoError|
                driven(
                    Broker {
                        responses: accepted(broker.responses, report).0,
                        stage: Stage::Idle,
                        output: broker.output + status_reports(cid, 0x27),
                        notices: broker.notices.push(Notice::Denied(reason)),
                        ..broker
                    },
                    now,
                );
            let readable = decoded_map(response.skip(1)) == Ok::<_, FidoError>(map);
            &&& decoded_map(response.skip(1)) matches Err(err) ==> outcome == denied(err)
            &&& phase is Agreement && readable ==> {
                &&& !map.dom().contains(CborKey::Integer(1)) ==> outcome == denied(
                    FidoError::MissingKey(1),
                )
                &&& map.dom().contains(CborKey::Integer(1)) ==> (cose_point(
                    map[CborKey::Integer(1)],
                ) matches Err(err) ==> outcome == denied(err))
            }
            &&& phase is Token && readable ==> {
                &&& !map.dom().contains(CborKey::Integer(2)) ==> outcome == denied(
                    FidoError::MissingKey(2),
                )
                &&& leads(map, 2, Cbor::Bytes(ciphertext)) && (ciphertext.len() == 0
                    || ciphertext.len() % 16 != 0) ==> outcome == denied(FidoError::Unaligned)
            }
        },
{
}

/// While the broker waits for an answer, a report that completes no message is kept with the
/// others of its channel, and the broker goes on waiting until the same time. A read that is
/// no report, and a report that is refused, have the request denied with 0x27 on its channel
/// for that reason.
pub proof fn parts_of_answers_are_waited_for(
    broker: Broker,
    now: u64,
    bytes: Seq<u8>,
    secret: Seq<u8>,
    token: Seq<u8>,
)
    ensures
        broker.stage matches Stage::Exchanging { cid, deadline: Some(deadline), .. } ==> {
            let outcome = resumed(broker, now, Signal::Heard(bytes), secret, token);
            let (responses, result) = accepted(broker.responses, bytes);
            &&& bytes.len() == 64 && result == Ok::<_, FidoError>(None::<Message>) && now < deadline
                ==> outcome == (Broker { responses, ..broker }, Ok::<_, FidoError>(Act::Listen))
            &&& bytes.len() == 64 ==> (result matches Err(reason) ==> outcome == driven(
                Broker {
                    responses,
                    stage: Stage::Idle,
                    output: broker.output + status_reports(cid, 0x27),
                    notices: broker.notices.push(Notice::Denied(reason)),
                    ..broker
                },
                now,
            ))
            &&& bytes.len() != 0 && bytes.len() != 64 && bytes.len() != 65 ==> outcome == driven(
                Broker {
                    stage: Stage::Idle,
                    output: broker.output + status_reports(cid, 0x27),
                    notices: broker.notices.push(
                        Notice::Denied(FidoError::InputReportSize(bytes.len() as usize)),
                    ),
                    ..broker
                },
                now,
            )
        },
{
}

} // verus!
