//! What holds of the broker as a whole.

use vstd::prelude::*;

use crate::broker::{
    answered, authenticator_point, cbor_message, collected, cycle, denied, dispatched, drained,
    driven, heard, issued, key_agreement, noticed, physical_token, polled, queued, replied,
    resumed, returned, settled, started, token_response, Act, Broker, Notice, Phase, Signal,
    Stage, MAX_REPORTS_PER_CYCLE, PIN_ATTEMPTS,
};
use crate::cbor::encoded_map;
use crate::crypto::authentication;
use crate::ctap::{
    announced, bytes_at, u8_at, CTAP2_ERR_INVALID_SUBCOMMAND, CTAP2_ERR_OPERATION_DENIED,
    CTAP2_ERR_PIN_AUTH_INVALID, CTAP2_OK, CTAPHID_CBOR, CTAP_CLIENT_PIN, CTAP_GET_ASSERTION,
    CTAP_GET_INFO, CTAP_MAKE_CREDENTIAL,
};
use crate::error::FidoError;
use crate::framing::{
    accepted, assembled_messages_pass_on, fragments, fragments_are_reports, pending_wf,
    report_validity, Message, MAX_CTAPHID_PAYLOAD,
};
use crate::hid::input_report;
use crate::pin::{
    asked, claim, live, permissions_supported, proven, translated, with_proof, Ask, Grant,
    PIN_TOKEN_LIFETIME,
};
use crate::server::{valid_count, whole_reports_are_written};

verus! {

/// The message carries a CTAP command.
pub open spec fn carries(message: Message, command: u8) -> bool {
    message.command == CTAPHID_CBOR && message.payload.len() > 0 && message.payload[0] == command
}

/// A one-byte status on a channel.
pub open spec fn status_message(cid: u32, status: u8) -> Message {
    Message { cid, command: CTAPHID_CBOR, payload: seq![status] }
}

/// A ClientPIN request of the remote side is never written to the authenticator: it is
/// answered on its own channel, or the user is asked for the PIN. It uses no token up.
pub proof fn client_pin_stays_local(broker: Broker, now: u64, message: Message)
    requires
        carries(message, CTAP_CLIENT_PIN),
    ensures
        match dispatched(broker, now, message) {
            (next, Ok(Some(act))) => act is Prompt && next.output == broker.output && next.session
                == broker.session,
            (next, Ok(None)) => next.session == broker.session && exists|payload: Seq<u8>|
                next.output == broker.output + #[trigger] fragments(
                    Message { cid: message.cid, command: CTAPHID_CBOR, payload },
                ),
            (next, Err(err)) => next == broker && err == FidoError::PayloadTooLarge,
        },
{
    let request = message.payload.skip(1);
    assert(dispatched(broker, now, message) == answered(broker, message.cid, request));
    match asked(broker.secret, request) {
        Err(_) => {
            let reply = Message {
                cid: message.cid,
                command: CTAPHID_CBOR,
                payload: seq![CTAP2_ERR_OPERATION_DENIED],
            };
            assert(dispatched(broker, now, message).0.output == broker.output + fragments(reply));
        },
        _ => {},
    }
}

/// The user is asked for the PIN only for a token request that is understood: under the
/// first protocol, for permissions that are offered, with a relying party and a valid
/// key. The prompt is the first of three at most.
pub proof fn prompt_needs_a_token_request(broker: Broker, now: u64, message: Message)
    ensures
        dispatched(broker, now, message) matches (next, Ok(Some(Act::Prompt))) ==> {
            &&& carries(message, CTAP_CLIENT_PIN)
            &&& asked(broker.secret, message.payload.skip(1)) matches Ok(Ask::Token(grant))
            &&& permissions_supported(grant.permissions)
            &&& next.stage == (Stage::Prompting {
                cid: message.cid,
                grant,
                attempts: PIN_ATTEMPTS,
            })
        },
{
}

/// What is refused is answered, on the channel that it came on, and is not written to the
/// authenticator: a ClientPIN request that is not understood with "operation denied", and
/// a proof that does not count with "PIN auth invalid". The user can be told why.
pub proof fn refusals_are_answered(broker: Broker, now: u64, message: Message)
    ensures
        carries(message, CTAP_CLIENT_PIN) && asked(broker.secret, message.payload.skip(1)) is Err
            ==> dispatched(broker, now, message) == (
            Broker {
                output: broker.output + fragments(
                    status_message(message.cid, CTAP2_ERR_OPERATION_DENIED),
                ),
                notices: broker.notices.push(
                    Notice::Denied(asked(broker.secret, message.payload.skip(1))->Err_0),
                ),
                ..broker
            },
            Ok::<_, FidoError>(None::<Act>),
        ),
        (carries(message, CTAP_MAKE_CREDENTIAL) || carries(message, CTAP_GET_ASSERTION))
            && translated(broker.session, now, message.payload).1 is Err ==> dispatched(
            broker,
            now,
            message,
        ) == (
            Broker {
                output: broker.output + fragments(
                    status_message(message.cid, CTAP2_ERR_PIN_AUTH_INVALID),
                ),
                session: translated(broker.session, now, message.payload).0,
                notices: broker.notices.push(
                    Notice::Rejected(translated(broker.session, now, message.payload).1->Err_0),
                ),
                ..broker
            },
            Ok::<_, FidoError>(None::<Act>),
        ),
{
}

/// Every message that is neither a ClientPIN request nor carries a proof is written to
/// the authenticator as it came. Of these a GetInfo request alone is remembered.
pub proof fn other_messages_pass_unchanged(broker: Broker, now: u64, message: Message)
    requires
        message.payload.len() <= MAX_CTAPHID_PAYLOAD,
        !carries(message, CTAP_CLIENT_PIN),
        !carries(message, CTAP_MAKE_CREDENTIAL),
        !carries(message, CTAP_GET_ASSERTION),
    ensures
        dispatched(broker, now, message) == (
            Broker {
                stage: Stage::Forwarding,
                pending_get_info: if carries(message, CTAP_GET_INFO) {
                    broker.pending_get_info.insert(message.cid)
                } else {
                    broker.pending_get_info
                },
                ..broker
            },
            Ok::<_, FidoError>(Some(Act::Write(fragments(message)))),
        ),
{
}

/// A wrong PIN is asked for again only while attempts are left, and each prompt takes one.
pub proof fn prompts_are_limited(
    broker: Broker,
    now: u64,
    cid: u32,
    grant: Grant,
    attempts: u8,
    phase: Phase,
    response: Seq<u8>,
    token: Seq<u8>,
)
    ensures
        replied(broker, now, cid, grant, attempts, phase, response, token) matches (
            next,
            Ok(Some(Act::Prompt)),
        ) ==> attempts >= 2 && next.stage == (Stage::Prompting {
            cid,
            grant,
            attempts: (attempts - 1) as u8,
        }),
{
}

/// A PIN prompt that is refused, a device that fails, and an authenticator that stays
/// silent until the deadline all lead to the answer "operation denied" on the channel
/// that the token was asked for on.
pub proof fn failures_are_denied(
    broker: Broker,
    now: u64,
    signal: Signal,
    secret: Seq<u8>,
    token: Seq<u8>,
)
    ensures
        ({
            let idle = Broker { stage: Stage::Idle, ..broker };
            match (broker.stage, signal) {
                (Stage::Prompting { cid, .. }, Signal::PinRefused(reason)) => resumed(
                    broker,
                    now,
                    signal,
                    secret,
                    token,
                ) == settled(denied(idle, cid, reason), now),
                (Stage::Exchanging { cid, .. }, Signal::Failed) => resumed(
                    broker,
                    now,
                    signal,
                    secret,
                    token,
                ) == settled(denied(idle, cid, FidoError::Device), now),
                (
                    Stage::Exchanging { cid, deadline: Some(deadline), .. },
                    Signal::Heard(bytes),
                ) => bytes.len() == 0 && deadline <= now ==> resumed(
                    broker,
                    now,
                    signal,
                    secret,
                    token,
                ) == settled(denied(idle, cid, FidoError::Timeout), now),
                _ => true,
            }
        }),
        forall|cid: u32, reason: FidoError| #[trigger]
            denied(broker, cid, reason) == (
                Broker {
                    output: broker.output + fragments(
                        status_message(cid, CTAP2_ERR_OPERATION_DENIED),
                    ),
                    notices: broker.notices.push(Notice::Denied(reason)),
                    ..broker
                },
                Ok::<_, FidoError>(None::<Act>),
            ),
{
}

/// Dealing with waiting reports issues no token: the session is the one that there was,
/// or none. The broker's secret and the device stay what they are.
proof fn lemma_driven_keeps(broker: Broker, now: u64)
    ensures
        driven(broker, now).0.session is Some ==> driven(broker, now).0.session == broker.session,
        driven(broker, now).0.secret == broker.secret,
        driven(broker, now).0.device == broker.device,
    decreases broker.inbox.len(),
{
    if broker.inbox.len() > 0 {
        let (requests, result) = accepted(broker.requests, broker.inbox[0]);
        let next = Broker { requests, inbox: broker.inbox.skip(1), ..broker };
        match result {
            Ok(None) => {
                lemma_driven_keeps(next, now);
            },
            Ok(Some(message)) => {
                let (last, outcome) = dispatched(next, now, message);
                if outcome matches Ok(None) {
                    lemma_driven_keeps(last, now);
                }
            },
            Err(_) => {},
        }
    }
}

/// A token is issued only when the authenticator has handed out its own for the PIN: in
/// every other step the session stays as it was or ends. The broker's secret and the
/// device never change.
pub proof fn token_needs_the_authenticator(
    broker: Broker,
    now: u64,
    signal: Signal,
    secret: Seq<u8>,
    token: Seq<u8>,
)
    ensures
        ({
            let next = resumed(broker, now, signal, secret, token).0;
            &&& next.session is Some ==> next.session == broker.session || (signal is Heard && (
            broker.stage matches Stage::Exchanging { phase, deadline, .. } && phase is Token
                && deadline is Some))
            &&& next.secret == broker.secret
            &&& next.device == broker.device
        }),
{
    let idle = Broker { stage: Stage::Idle, ..broker };
    lemma_driven_keeps(idle, now);
    match (broker.stage, signal) {
        (Stage::Prompting { cid, grant, attempts }, Signal::Pin(pin)) => {
            lemma_driven_keeps(denied(idle, cid, FidoError::PayloadTooLarge).0, now);
        },
        (Stage::Prompting { cid, .. }, Signal::PinRefused(reason)) => {
            lemma_driven_keeps(denied(idle, cid, reason).0, now);
        },
        (
            Stage::Exchanging { cid, grant, attempts, phase, deadline: None },
            Signal::Written,
        ) => {
            lemma_driven_keeps(denied(idle, cid, FidoError::Timeout).0, now);
        },
        (Stage::Exchanging { cid, .. }, Signal::Failed) => {
            lemma_driven_keeps(denied(idle, cid, FidoError::Device).0, now);
        },
        (
            Stage::Exchanging { cid, grant, attempts, phase, deadline: Some(deadline) },
            Signal::Heard(bytes),
        ) => {
            let step = heard(
                idle,
                now,
                cid,
                grant,
                attempts,
                phase,
                deadline,
                bytes,
                token,
            );
            lemma_driven_keeps(step.0, now);
        },
        _ => {},
    }
}

/// What the remote side is told when a token is issued does not depend on the
/// authenticator's own token.
pub proof fn physical_token_stays_local(
    broker: Broker,
    now: u64,
    cid: u32,
    grant: Grant,
    one: Seq<u8>,
    other: Seq<u8>,
    token: Seq<u8>,
)
    ensures
        issued(broker, now, cid, grant, one, token).0.output == issued(
            broker,
            now,
            cid,
            grant,
            other,
            token,
        ).0.output,
        issued(broker, now, cid, grant, one, token).1 == issued(
            broker,
            now,
            cid,
            grant,
            other,
            token,
        ).1,
{
}

/// The PIN stays local: which PIN is entered changes neither what the remote side is told
/// nor what is asked of the authenticator next. It leaves its mark on the hash alone that
/// is kept for the agreement with the authenticator.
pub proof fn pin_stays_local(
    broker: Broker,
    now: u64,
    one: Seq<char>,
    other: Seq<char>,
    secret: Seq<u8>,
    token: Seq<u8>,
)
    ensures
        ({
            let (left, left_result) = resumed(broker, now, Signal::Pin(one), secret, token);
            let (right, right_result) = resumed(broker, now, Signal::Pin(other), secret, token);
            &&& left_result == right_result
            &&& left == (Broker { stage: left.stage, ..right })
            &&& left.stage == right.stage || {
                &&& left.stage matches Stage::Exchanging { cid, grant, attempts, deadline, .. }
                &&& right.stage matches Stage::Exchanging { phase, .. }
                &&& right.stage == (Stage::Exchanging { cid, grant, attempts, phase, deadline })
                &&& phase is Agreement
            }
        }),
{
}

/// Reports for the remote side are handed out in order, at most 64 at a time, and none is
/// lost.
pub proof fn output_is_handed_out_in_order(broker: Broker)
    ensures
        drained(broker).1.len() <= MAX_REPORTS_PER_CYCLE,
        drained(broker).1 + drained(broker).0.output == broker.output,
        drained(broker).0.output.len() > 0 ==> drained(broker).1.len() == MAX_REPORTS_PER_CYCLE,
{
    assert(drained(broker).1 + drained(broker).0.output =~= broker.output);
}

/// A message of the authenticator is passed on as it came, unless it answers a GetInfo
/// request of its channel: then the broker is announced in it.
pub proof fn responses_pass_unchanged(broker: Broker, report: Seq<u8>, message: Message)
    requires
        accepted(broker.responses, report).1 == Ok::<_, FidoError>(Some(message)),
        message.payload.len() <= MAX_CTAPHID_PAYLOAD,
    ensures
        !(message.command == CTAPHID_CBOR && broker.pending_get_info.contains(message.cid))
            ==> returned(broker, report) == (
            Broker {
                responses: accepted(broker.responses, report).0,
                output: broker.output + fragments(message),
                ..broker
            },
            Ok::<(), FidoError>(()),
        ),
        message.command == CTAPHID_CBOR && broker.pending_get_info.contains(message.cid) ==> match (
            announced(message.payload),
            returned(broker, report).1,
        ) {
            (Ok(payload), Ok(())) => returned(broker, report).0.output == broker.output + fragments(
                Message { payload, ..message },
            ) && !returned(broker, report).0.pending_get_info.contains(message.cid),
            (Ok(payload), Err(err)) => payload.len() > MAX_CTAPHID_PAYLOAD && err
                == FidoError::PayloadTooLarge,
            (Err(err), outcome) => outcome == Err::<(), _>(err),
        },
{
}

/// Too many reports in one packet are refused as a whole, and nothing changes.
pub proof fn oversized_packets_are_refused(broker: Broker, now: u64, reports: Seq<Seq<u8>>)
    requires
        broker.stage is Idle,
        reports.len() > MAX_REPORTS_PER_CYCLE,
    ensures
        started(broker, now, reports) == (
            broker,
            Err::<Act, _>(FidoError::TooManyReports),
        ),
{
}

/// A token that was issued is honoured for its lifetime: a request that it covers, with the
/// proof made under it, is forwarded with the authenticator's own proof.
pub proof fn issued_token_is_honoured(
    broker: Broker,
    now: u64,
    cid: u32,
    grant: Grant,
    physical: Seq<u8>,
    token: Seq<u8>,
    later: u64,
    payload: Seq<u8>,
)
    requires
        later < now + PIN_TOKEN_LIFETIME,
    ensures
        ({
            let session = issued(broker, now, cid, grant, physical, token).0.session;
            match proven(payload) {
                Some((key, map)) => match claim(payload[0], map) {
                    Ok(needs) => match (bytes_at(map, needs.hash_key), bytes_at(map, key)) {
                        (Ok(hash), Ok(supplied)) => {
                            ({
                                &&& grant.permissions & needs.permission != 0
                                &&& grant.rp_id == needs.rp_id
                                &&& u8_at(map, needs.protocol_key) == Ok::<u8, FidoError>(1)
                                &&& supplied == authentication(token, hash)
                                &&& supplied.len() == 16
                            }) ==> translated(session, later, payload).1 == Ok::<_, FidoError>(
                                seq![payload[0]] + encoded_map(
                                    with_proof(map, key, authentication(physical, hash)),
                                )->0,
                            )
                        },
                        _ => true,
                    },
                    Err(_) => true,
                },
                None => true,
            }
        }),
{
}

/// Every report that waits to be handed out is a whole report.
pub open spec fn output_whole(broker: Broker) -> bool {
    forall|i: int| 0 <= i < broker.output.len() ==> report_validity(#[trigger] broker.output[i]) is Ok
}

/// Nothing but whole reports joins the output.
proof fn lemma_extended(broker: Broker, message: Message)
    requires
        output_whole(broker),
        message.payload.len() <= MAX_CTAPHID_PAYLOAD,
    ensures
        output_whole(Broker { output: broker.output + fragments(message), ..broker }),
{
    let after = broker.output + fragments(message);
    fragments_are_reports(message);
    assert forall|i: int| 0 <= i < after.len() implies report_validity(#[trigger] after[i]) is Ok by {
        if i < broker.output.len() {
            assert(after[i] == broker.output[i]);
        } else {
            assert(after[i] == fragments(message)[i - broker.output.len()]);
        }
    }
}

proof fn lemma_queued(broker: Broker, cid: u32, payload: Seq<u8>)
    requires
        output_whole(broker),
    ensures
        output_whole(queued(broker, cid, payload).0),
{
    if payload.len() <= MAX_CTAPHID_PAYLOAD {
        lemma_extended(broker, cbor_message(cid, payload));
    }
}

proof fn lemma_denied(broker: Broker, cid: u32, reason: FidoError)
    requires
        output_whole(broker),
    ensures
        output_whole(denied(broker, cid, reason).0),
{
    let noted = noticed(broker, Notice::Denied(reason));
    assert(noted.output == broker.output);
    lemma_queued(noted, cid, seq![CTAP2_ERR_OPERATION_DENIED]);
}

proof fn lemma_dispatched(broker: Broker, now: u64, message: Message)
    requires
        output_whole(broker),
    ensures
        output_whole(dispatched(broker, now, message).0),
{
    let (session, result) = translated(broker.session, now, message.payload);
    if let Err(err) = result {
        let noted = noticed(Broker { session, ..broker }, Notice::Rejected(err));
        assert(noted.output == broker.output);
        lemma_queued(noted, message.cid, seq![CTAP2_ERR_PIN_AUTH_INVALID]);
    }
    match asked(broker.secret, message.payload.skip(1)) {
        Err(err) => {
            lemma_denied(broker, message.cid, err);
        },
        Ok(Ask::KeyAgreement) => {
            lemma_queued(
                broker,
                message.cid,
                seq![CTAP2_OK] + encoded_map(key_agreement(broker.secret))->0,
            );
        },
        _ => {
            lemma_queued(broker, message.cid, seq![CTAP2_ERR_INVALID_SUBCOMMAND]);
        },
    }
}

proof fn lemma_driven(broker: Broker, now: u64)
    requires
        output_whole(broker),
    ensures
        output_whole(driven(broker, now).0),
    decreases broker.inbox.len(),
{
    if broker.inbox.len() > 0 {
        let (requests, result) = accepted(broker.requests, broker.inbox[0]);
        let next = Broker { requests, inbox: broker.inbox.skip(1), ..broker };
        match result {
            Ok(None) => {
                lemma_driven(next, now);
            },
            Ok(Some(message)) => {
                lemma_dispatched(next, now, message);
                let (last, outcome) = dispatched(next, now, message);
                if outcome matches Ok(None) {
                    lemma_driven(last, now);
                }
            },
            Err(_) => {},
        }
    }
}

proof fn lemma_replied(
    broker: Broker,
    now: u64,
    cid: u32,
    grant: Grant,
    attempts: u8,
    phase: Phase,
    response: Seq<u8>,
    token: Seq<u8>,
)
    requires
        output_whole(broker),
    ensures
        output_whole(replied(broker, now, cid, grant, attempts, phase, response, token).0),
{
    match phase {
        Phase::Agreement { pin_hash, secret } => match authenticator_point(response) {
            Err(err) => {
                lemma_denied(broker, cid, err);
            },
            Ok(_) => {
                lemma_denied(broker, cid, FidoError::PayloadTooLarge);
            },
        },
        Phase::Token { shared } => {
            lemma_denied(broker, cid, FidoError::PinRejected);
            match physical_token(shared, response) {
                Err(err) => {
                    lemma_denied(broker, cid, err);
                },
                Ok(physical) => {
                    let session = issued(broker, now, cid, grant, physical, token).0.session;
                    lemma_queued(
                        Broker { session, ..broker },
                        cid,
                        seq![CTAP2_OK] + encoded_map(
                            token_response(grant.remote_secret, token),
                        )->0,
                    );
                },
            }
        },
    }
}

proof fn lemma_heard(
    broker: Broker,
    now: u64,
    cid: u32,
    grant: Grant,
    attempts: u8,
    phase: Phase,
    deadline: int,
    bytes: Seq<u8>,
    token: Seq<u8>,
)
    requires
        output_whole(broker),
        pending_wf(broker.responses),
    ensures
        output_whole(heard(broker, now, cid, grant, attempts, phase, deadline, bytes, token).0),
{
    match input_report(bytes) {
        Err(err) => {
            lemma_denied(broker, cid, err);
        },
        Ok(None) => {
            lemma_denied(broker, cid, FidoError::Timeout);
        },
        Ok(Some(report)) => {
            let (responses, result) = accepted(broker.responses, report);
            let next = Broker { responses, ..broker };
            assembled_messages_pass_on(broker.responses, report, Map::empty());
            assert(output_whole(next));
            match result {
                Err(err) => {
                    lemma_denied(next, cid, err);
                },
                Ok(None) => {
                    lemma_denied(next, cid, FidoError::Timeout);
                },
                Ok(Some(message)) => {
                    if message.cid == cid && message.command == CTAPHID_CBOR {
                        lemma_replied(
                            next,
                            now,
                            cid,
                            grant,
                            attempts,
                            phase,
                            message.payload,
                            token,
                        );
                    } else {
                        lemma_extended(next, message);
                        lemma_denied(
                            Broker { output: next.output + fragments(message), ..next },
                            cid,
                            FidoError::Timeout,
                        );
                    }
                },
            }
        },
    }
}

proof fn lemma_collected(broker: Broker, reads: Seq<Option<Seq<u8>>>)
    requires
        output_whole(broker),
        pending_wf(broker.responses),
    ensures
        output_whole(collected(broker, reads).0),
    decreases reads.len(),
{
    if reads.len() > 0 {
        if let Some(bytes) = reads[0] {
            if let Ok(Some(report)) = input_report(bytes) {
                let (responses, result) = accepted(broker.responses, report);
                let next = Broker { responses, ..broker };
                assembled_messages_pass_on(broker.responses, report, Map::empty());
                if let Ok(Some(message)) = result {
                    let last = Broker {
                        pending_get_info: next.pending_get_info.remove(message.cid),
                        ..next
                    };
                    if let Ok(payload) = announced(message.payload) {
                        if payload.len() <= MAX_CTAPHID_PAYLOAD {
                            lemma_extended(last, Message { payload, ..message });
                        }
                    }
                    lemma_extended(next, message);
                }
                let (after, outcome) = returned(broker, report);
                if outcome is Ok {
                    lemma_collected(after, reads.skip(1));
                }
            }
        }
    }
}

/// What the client hands out, the server takes: every report of the broker's output is
/// whole, at every step, and a poll hands out no more of them than the server writes to its
/// virtual authenticator in one packet.
pub proof fn server_takes_what_the_client_hands_out(
    broker: Broker,
    now: u64,
    signal: Signal,
    secret: Seq<u8>,
    token: Seq<u8>,
    reports: Seq<Seq<u8>>,
    reads: Seq<Option<Seq<u8>>>,
)
    requires
        output_whole(broker),
        pending_wf(broker.responses),
    ensures
        output_whole(started(broker, now, reports).0),
        output_whole(resumed(broker, now, signal, secret, token).0),
        output_whole(polled(broker, now, reads).0),
        polled(broker, now, reads).1 matches Ok(packet) ==> packet.len() <= MAX_REPORTS_PER_CYCLE
            && valid_count(packet) == packet.len(),
{
    lemma_driven(Broker { inbox: reports, ..broker }, now);
    let idle = Broker { stage: Stage::Idle, ..broker };
    lemma_driven(idle, now);
    match broker.stage {
        Stage::Prompting { cid, .. } => {
            lemma_denied(idle, cid, FidoError::PayloadTooLarge);
            lemma_driven(denied(idle, cid, FidoError::PayloadTooLarge).0, now);
            if let Signal::PinRefused(reason) = signal {
                lemma_denied(idle, cid, reason);
                lemma_driven(denied(idle, cid, reason).0, now);
            }
        },
        Stage::Exchanging { cid, grant, attempts, phase, deadline } => {
            lemma_denied(idle, cid, FidoError::Timeout);
            lemma_denied(idle, cid, FidoError::Device);
            lemma_driven(denied(idle, cid, FidoError::Timeout).0, now);
            lemma_driven(denied(idle, cid, FidoError::Device).0, now);
            if let (Some(deadline), Signal::Heard(bytes)) = (deadline, signal) {
                lemma_heard(idle, now, cid, grant, attempts, phase, deadline, bytes, token);
                lemma_driven(
                    heard(idle, now, cid, grant, attempts, phase, deadline, bytes, token).0,
                    now,
                );
            }
        },
        _ => {},
    }
    let fresh = Broker { session: live(broker.session, now), ..broker };
    let taken = reads.take(cycle(reads.len()));
    lemma_collected(fresh, taken);
    let after = collected(fresh, taken).0;
    let count = cycle(after.output.len());
    assert forall|i: int| 0 <= i < drained(after).0.output.len() implies report_validity(
        #[trigger] drained(after).0.output[i],
    ) is Ok by {
        assert(drained(after).0.output[i] == after.output[i + count]);
    }
    let packet = drained(after).1;
    assert forall|i: int| 0 <= i < packet.len() implies report_validity(#[trigger] packet[i]) is Ok by {
        assert(packet[i] == after.output[i]);
    }
    whole_reports_are_written(packet);
}

} // verus!
