//! CTAPHID framing: cutting a message into 64-byte HID reports and putting the
//! reports of several logical channels back together.

use std::collections::HashMap;

use vstd::prelude::*;
use vstd::slice::{slice_subrange, slice_to_vec};

use crate::error::FidoError;

verus! {

/// Length of a CTAPHID report.
pub const FIDO_REPORT_SIZE: usize = 64;

/// Largest payload that is framed or assembled.
pub const MAX_CTAPHID_PAYLOAD: usize = 4096;

/// Payload bytes in the first report of a message.
pub const INIT_DATA: usize = 57;

/// Payload bytes in each continuation report.
pub const CONTINUATION_DATA: usize = 59;

/// The contents of a list of byte strings.
pub open spec fn views(list: Seq<Vec<u8>>) -> Seq<Seq<u8>> {
    list.map_values(|bytes: Vec<u8>| bytes@)
}

/// A complete CTAPHID message, as a mathematical value.
pub struct Message {
    pub cid: u32,
    pub command: u8,
    pub payload: Seq<u8>,
}

/// A message of which only a prefix has arrived, as a mathematical value.
pub struct Partial {
    pub command: u8,
    pub expected: nat,
    pub next_sequence: u8,
    pub payload: Seq<u8>,
}

/// A complete CTAPHID message.
#[derive(Clone, Debug, PartialEq)]
pub struct CtapMessage {
    pub cid: u32,
    pub command: u8,
    pub payload: Vec<u8>,
}

impl View for CtapMessage {
    type V = Message;

    open spec fn view(&self) -> Message {
        Message { cid: self.cid, command: self.command, payload: self.payload@ }
    }
}

/// A message of which only a prefix has arrived.
pub struct PartialCtapMessage {
    command: u8,
    expected: usize,
    next_sequence: u8,
    payload: Vec<u8>,
}

impl View for PartialCtapMessage {
    type V = Partial;

    closed spec fn view(&self) -> Partial {
        Partial {
            command: self.command,
            expected: self.expected as nat,
            next_sequence: self.next_sequence,
            payload: self.payload@,
        }
    }
}

/// What a stored prefix always satisfies: it is shorter than the announced length,
/// which is within bounds, its length tells how many continuations have come, and its
/// command is one that a first report can carry.
pub open spec fn partial_wf(partial: Partial) -> bool {
    &&& partial.command < 0x80
    &&& partial.expected <= MAX_CTAPHID_PAYLOAD
    &&& partial.payload.len() == INIT_DATA + CONTINUATION_DATA * partial.next_sequence
    &&& partial.payload.len() < partial.expected
}

/// Every stored prefix is as it should be.
pub open spec fn pending_wf(pending: Map<u32, Partial>) -> bool {
    forall|cid: u32| #[trigger] pending.dom().contains(cid) ==> partial_wf(pending[cid])
}

/// Checks that a HID report has the fixed CTAPHID length.
pub fn validate_report(report: &[u8]) -> (result: Result<(), FidoError>)
    ensures
        result == report_validity(report@),
{
    if report.len() != FIDO_REPORT_SIZE {
        Err(FidoError::ReportSize(report.len()))
    } else {
        Ok(())
    }
}

/// A report is valid exactly when it is 64 bytes long.
pub open spec fn report_validity(report: Seq<u8>) -> Result<(), FidoError> {
    if report.len() == FIDO_REPORT_SIZE {
        Ok(())
    } else {
        Err(FidoError::ReportSize(report.len() as usize))
    }
}

/// The four bytes of a channel identifier, most significant first.
pub open spec fn cid_bytes(cid: u32) -> Seq<u8> {
    seq![
        (cid / 0x100_0000) as u8,
        (cid / 0x1_0000 % 0x100) as u8,
        (cid / 0x100 % 0x100) as u8,
        (cid % 0x100) as u8,
    ]
}

/// The channel identifier in the first four bytes of a report.
pub open spec fn report_cid(report: Seq<u8>) -> u32 {
    (report[0] * 0x100_0000 + report[1] * 0x1_0000 + report[2] * 0x100 + report[3]) as u32
}

/// The payload length announced by the first report of a message.
pub open spec fn announced_length(report: Seq<u8>) -> nat {
    (report[5] * 0x100 + report[6]) as nat
}

/// The length of the next piece when `left` bytes are still to be carried by a
/// report with room for `room`.
pub open spec fn piece(left: int, room: int) -> int {
    if left < room {
        left
    } else {
        room
    }
}

/// What becomes of the pending messages when a report arrives, and what the report
/// completes or why it is refused.
pub open spec fn accepted(pending: Map<u32, Partial>, report: Seq<u8>) -> (
    Map<u32, Partial>,
    Result<Option<Message>, FidoError>,
) {
    let cid = report_cid(report);
    if report.len() != FIDO_REPORT_SIZE {
        (pending, Err(FidoError::ReportSize(report.len() as usize)))
    } else if report[4] >= 0x80 {
        let command = (report[4] - 0x80) as u8;
        let expected = announced_length(report);
        if expected > MAX_CTAPHID_PAYLOAD {
            (pending, Err(FidoError::PayloadTooLarge))
        } else if expected <= INIT_DATA {
            (
                pending.remove(cid),
                Ok(Some(Message { cid, command, payload: report.subrange(7, 7 + expected as int) })),
            )
        } else {
            let payload = report.subrange(7, FIDO_REPORT_SIZE as int);
            (
                pending.insert(cid, Partial { command, expected, next_sequence: 0, payload }),
                Ok(None),
            )
        }
    } else if !pending.dom().contains(cid) {
        (pending, Err(FidoError::UnexpectedContinuation))
    } else if report[4] != pending[cid].next_sequence {
        (pending.remove(cid), Err(FidoError::OutOfOrderContinuation))
    } else {
        let partial = pending[cid];
        let copied = piece(partial.expected - partial.payload.len(), CONTINUATION_DATA as int);
        let payload = partial.payload + report.subrange(5, 5 + copied);
        if payload.len() == partial.expected {
            (pending.remove(cid), Ok(Some(Message { cid, command: partial.command, payload })))
        } else {
            let next_sequence = (partial.next_sequence + 1) as u8;
            (pending.insert(cid, Partial { next_sequence, payload, ..partial }), Ok(None))
        }
    }
}

/// Puts the reports of any number of channels back together.
pub struct CtapAssembler {
    pending: HashMap<u32, PartialCtapMessage>,
}

impl View for CtapAssembler {
    type V = Map<u32, Partial>;

    closed spec fn view(&self) -> Map<u32, Partial> {
        self.pending@.map_values(|partial: PartialCtapMessage| partial@)
    }
}

impl Default for CtapAssembler {
    fn default() -> (assembler: Self)
        ensures
            assembler@ == Map::<u32, Partial>::empty(),
            assembler.wf(),
    {
        let assembler = CtapAssembler { pending: HashMap::new() };
        assert(assembler@ =~= Map::<u32, Partial>::empty());
        assembler
    }
}

/// Copies `source[from..from + count]`.
pub(crate) fn copy_range(source: &[u8], from: usize, count: usize) -> (copy: Vec<u8>)
    requires
        from + count <= source@.len(),
    ensures
        copy@ == source@.subrange(from as int, from + count),
{
    let length: usize = source.len();
    assert(from + count <= length);
    slice_to_vec(slice_subrange(source, from, from + count))
}

impl CtapAssembler {
    /// Every pending prefix is consistent with the reports that built it.
    pub open spec fn wf(&self) -> bool {
        pending_wf(self@)
    }

    /// Takes in one report and returns the message it completes, if it does.
    pub fn push(&mut self, report: &[u8]) -> (result: Result<Option<CtapMessage>, FidoError>)
        requires
            old(self).wf(),
        ensures
            final(self).wf(),
            final(self)@ == accepted(old(self)@, report@).0,
            match result {
                Ok(None) => accepted(old(self)@, report@).1 == Ok::<_, FidoError>(None::<Message>),
                Ok(Some(message)) => accepted(old(self)@, report@).1 == Ok::<_, FidoError>(
                    Some(message@),
                ),
                Err(err) => accepted(old(self)@, report@).1 == Err::<Option<Message>, _>(err),
            },
            result matches Ok(Some(message)) ==> message.payload@.len() <= MAX_CTAPHID_PAYLOAD
                && message.command < 0x80,
    {
        broadcast use vstd::std_specs::hash::group_hash_axioms;

        match validate_report(report) {
            Ok(()) => {},
            Err(err) => {
                return Err(err);
            },
        }
        let cid: u32 = report[0] as u32 * 0x100_0000 + report[1] as u32 * 0x1_0000
            + report[2] as u32 * 0x100 + report[3] as u32;
        assert(cid == report_cid(report@));
        if report[4] >= 0x80 {
            let command: u8 = report[4] - 0x80;
            let expected: usize = report[5] as usize * 0x100 + report[6] as usize;
            if expected > MAX_CTAPHID_PAYLOAD {
                return Err(FidoError::PayloadTooLarge);
            }
            self.pending.remove(&cid);
            if expected <= INIT_DATA {
                let payload = copy_range(report, 7, expected);
                assert(self@ =~= accepted(old(self)@, report@).0);
                return Ok(Some(CtapMessage { cid, command, payload }));
            }
            let payload = copy_range(report, 7, INIT_DATA);
            self.pending.insert(
                cid,
                PartialCtapMessage { command, expected, next_sequence: 0, payload },
            );
            assert(self@ =~= accepted(old(self)@, report@).0);
            Ok(None)
        } else {
            let found = self.pending.remove(&cid);
            match found {
                None => {
                    assert(self@ =~= old(self)@);
                    Err(FidoError::UnexpectedContinuation)
                },
                Some(mut partial) => {
                    assert(old(self)@[cid] == partial@);
                    assert(partial_wf(old(self)@[cid]));
                    if report[4] != partial.next_sequence {
                        assert(self@ =~= accepted(old(self)@, report@).0);
                        return Err(FidoError::OutOfOrderContinuation);
                    }
                    let left: usize = partial.expected - partial.payload.len();
                    let copied: usize = if left < CONTINUATION_DATA {
                        left
                    } else {
                        CONTINUATION_DATA
                    };
                    let mut bytes = copy_range(report, 5, copied);
                    partial.payload.append(&mut bytes);
                    if partial.payload.len() == partial.expected {
                        assert(self@ =~= accepted(old(self)@, report@).0);
                        Ok(
                            Some(
                                CtapMessage {
                                    cid,
                                    command: partial.command,
                                    payload: partial.payload,
                                },
                            ),
                        )
                    } else {
                        partial.next_sequence = partial.next_sequence.wrapping_add(1);
                        self.pending.insert(cid, partial);
                        assert(self@ =~= accepted(old(self)@, report@).0);
                        Ok(None)
                    }
                },
            }
        }
    }
}

/// Appends zero bytes up to the length of a report.
pub open spec fn padded(bytes: Seq<u8>) -> Seq<u8> {
    bytes + Seq::new((FIDO_REPORT_SIZE - bytes.len()) as nat, |i: int| 0u8)
}

/// The command byte of a first report: the command with the top bit set.
pub open spec fn command_byte(command: u8) -> u8 {
    if command < 0x80 {
        (command + 0x80) as u8
    } else {
        command
    }
}

/// The first report of a message.
pub open spec fn init_report(message: Message) -> Seq<u8> {
    let length = message.payload.len();
    padded(
        cid_bytes(message.cid) + seq![
            command_byte(message.command),
            (length / 0x100) as u8,
            (length % 0x100) as u8,
        ] + message.payload.take(piece(length as int, INIT_DATA as int)),
    )
}

/// Where the payload piece of continuation number `sequence` begins.
pub open spec fn continuation_start(sequence: int) -> int {
    INIT_DATA + CONTINUATION_DATA * sequence
}

/// Continuation report number `sequence` of a message.
pub open spec fn continuation_report(message: Message, sequence: int) -> Seq<u8> {
    let start = continuation_start(sequence);
    let copied = piece(message.payload.len() - start, CONTINUATION_DATA as int);
    padded(
        cid_bytes(message.cid) + seq![sequence as u8] + message.payload.subrange(
            start,
            start + copied,
        ),
    )
}

/// How many continuation reports a payload of the given length needs.
pub open spec fn continuation_count(length: nat) -> nat {
    if length <= INIT_DATA {
        0
    } else {
        ((length - INIT_DATA + CONTINUATION_DATA - 1) / (CONTINUATION_DATA as int)) as nat
    }
}

/// The reports that carry a message, in order.
pub open spec fn fragments(message: Message) -> Seq<Seq<u8>> {
    seq![init_report(message)] + Seq::new(
        continuation_count(message.payload.len()),
        |sequence: int| continuation_report(message, sequence),
    )
}

/// Fills up a report that starts with the given bytes.
fn pad_report(bytes: Vec<u8>) -> (report: Vec<u8>)
    requires
        bytes@.len() <= FIDO_REPORT_SIZE,
    ensures
        report@ == padded(bytes@),
{
    let mut report = bytes;
    let ghost head = bytes@;
    while report.len() < FIDO_REPORT_SIZE
        invariant
            head.len() <= report@.len() <= FIDO_REPORT_SIZE,
            report@ == head + Seq::new((report@.len() - head.len()) as nat, |i: int| 0u8),
        decreases FIDO_REPORT_SIZE - report@.len(),
    {
        report.push(0);
    }
    report
}

/// The four bytes of a channel identifier, most significant first.
fn cid_to_bytes(cid: u32) -> (bytes: Vec<u8>)
    ensures
        bytes@ == cid_bytes(cid),
{
    vec![
        (cid / 0x100_0000) as u8,
        (cid / 0x1_0000 % 0x100) as u8,
        (cid / 0x100 % 0x100) as u8,
        (cid % 0x100) as u8,
    ]
}

/// Cuts a message into HID reports. It fails exactly when the payload is too long.
pub fn fragment_message(message: &CtapMessage) -> (result: Result<Vec<Vec<u8>>, FidoError>)
    ensures
        match result {
            Ok(reports) => message.payload@.len() <= MAX_CTAPHID_PAYLOAD && views(reports@)
                == fragments(message@),
            Err(err) => message.payload@.len() > MAX_CTAPHID_PAYLOAD && err
                == FidoError::PayloadTooLarge,
        },
{
    let length: usize = message.payload.len();
    if length > MAX_CTAPHID_PAYLOAD {
        return Err(FidoError::PayloadTooLarge);
    }
    let mut first = cid_to_bytes(message.cid);
    first.push(
        if message.command < 0x80 {
            message.command + 0x80
        } else {
            message.command
        },
    );
    first.push((length / 0x100) as u8);
    first.push((length % 0x100) as u8);
    let copied: usize = if length < INIT_DATA {
        length
    } else {
        INIT_DATA
    };
    let mut bytes = copy_range(message.payload.as_slice(), 0, copied);
    first.append(&mut bytes);
    let mut reports: Vec<Vec<u8>> = Vec::new();
    let first = pad_report(first);
    assert(first@ =~= init_report(message@));
    reports.push(first);
    let mut offset: usize = copied;
    let mut sequence: u8 = 0;
    while offset < length
        invariant
            length == message.payload@.len() <= MAX_CTAPHID_PAYLOAD,
            sequence <= 69,
            offset <= length,
            offset == length || offset == continuation_start(sequence as int),
            offset == length ==> sequence == continuation_count(length as nat),
            offset < length ==> sequence < continuation_count(length as nat),
            reports@.len() == 1 + sequence,
            reports@[0]@ == init_report(message@),
            forall|k: int|
                0 <= k < sequence ==> (#[trigger] reports@[k + 1])@ == continuation_report(
                    message@,
                    k,
                ),
        decreases length - offset,
    {
        let left: usize = length - offset;
        let copied: usize = if left < CONTINUATION_DATA {
            left
        } else {
            CONTINUATION_DATA
        };
        let mut report = cid_to_bytes(message.cid);
        report.push(sequence);
        let mut bytes = copy_range(message.payload.as_slice(), offset, copied);
        report.append(&mut bytes);
        let report = pad_report(report);
        assert(report@ =~= continuation_report(message@, sequence as int));
        reports.push(report);
        offset += copied;
        sequence += 1;
    }
    assert(views(reports@) =~= fragments(message@)) by {
        assert forall|i: int| 0 <= i < reports@.len() implies views(reports@)[i] == fragments(
            message@,
        )[i] by {
            if i > 0 {
                assert(reports@[(i - 1) + 1]@ == continuation_report(message@, i - 1));
            }
        }
    }
    Ok(reports)
}

/// What becomes of the pending messages when reports arrive one after another, and
/// what each of them gives.
pub open spec fn accepted_all(pending: Map<u32, Partial>, reports: Seq<Seq<u8>>) -> (
    Map<u32, Partial>,
    Seq<Result<Option<Message>, FidoError>>,
)
    decreases reports.len(),
{
    if reports.len() == 0 {
        (pending, seq![])
    } else {
        let before = accepted_all(pending, reports.drop_last());
        let last = accepted(before.0, reports.last());
        (last.0, before.1.push(last.1))
    }
}

/// The channel identifier that a report carries is the one it was written with.
proof fn lemma_cid_round_trip(cid: u32, rest: Seq<u8>)
    ensures
        report_cid(cid_bytes(cid) + rest) == cid,
{
    let bytes = cid_bytes(cid) + rest;
    assert(bytes[0] == cid / 0x100_0000);
    assert(bytes[1] == cid / 0x1_0000 % 0x100);
    assert(bytes[2] == cid / 0x100 % 0x100);
    assert(bytes[3] == cid % 0x100);
    assert(cid / 0x100_0000 * 0x100_0000 + cid / 0x1_0000 % 0x100 * 0x1_0000 + cid / 0x100 % 0x100
        * 0x100 + cid % 0x100 == cid) by (bit_vector);
}

/// The state of the assembly after the first report and `count` continuations.
spec fn assembly(message: Message, count: int) -> Partial {
    Partial {
        command: message.command,
        expected: message.payload.len(),
        next_sequence: count as u8,
        payload: message.payload.take(continuation_start(count)),
    }
}

proof fn lemma_init_accepted(pending: Map<u32, Partial>, message: Message)
    requires
        message.command < 0x80,
        message.payload.len() <= MAX_CTAPHID_PAYLOAD,
    ensures
        message.payload.len() <= INIT_DATA ==> accepted(pending, init_report(message)) == (
            pending.remove(message.cid),
            Ok::<_, FidoError>(Some(message)),
        ),
        message.payload.len() > INIT_DATA ==> accepted(pending, init_report(message)) == (
            pending.insert(message.cid, assembly(message, 0)),
            Ok::<_, FidoError>(None::<Message>),
        ),
{
    let report = init_report(message);
    let length = message.payload.len();
    let copied = piece(length as int, INIT_DATA as int);
    let head = seq![
        command_byte(message.command),
        (length / 0x100) as u8,
        (length % 0x100) as u8,
    ];
    let zeros = Seq::new((FIDO_REPORT_SIZE - 7 - copied) as nat, |i: int| 0u8);
    assert(report =~= cid_bytes(message.cid) + (head + message.payload.take(copied) + zeros));
    lemma_cid_round_trip(message.cid, head + message.payload.take(copied) + zeros);
    assert(report.len() == FIDO_REPORT_SIZE);
    assert(report[4] == head[0]);
    assert(report[5] == head[1]);
    assert(report[6] == head[2]);
    assert(announced_length(report) == length);
    if length <= INIT_DATA {
        assert(report.subrange(7, 7 + length as int) =~= message.payload);
    } else {
        assert(report.subrange(7, FIDO_REPORT_SIZE as int) =~= message.payload.take(
            continuation_start(0),
        ));
    }
}

proof fn lemma_continuation_accepted(pending: Map<u32, Partial>, message: Message, sequence: int)
    requires
        message.command < 0x80,
        message.payload.len() <= MAX_CTAPHID_PAYLOAD,
        0 <= sequence < continuation_count(message.payload.len()),
        pending.dom().contains(message.cid),
        pending[message.cid] == assembly(message, sequence),
    ensures
        sequence + 1 == continuation_count(message.payload.len()) ==> accepted(
            pending,
            continuation_report(message, sequence),
        ) == (pending.remove(message.cid), Ok::<_, FidoError>(Some(message))),
        sequence + 1 < continuation_count(message.payload.len()) ==> accepted(
            pending,
            continuation_report(message, sequence),
        ) == (
            pending.insert(message.cid, assembly(message, sequence + 1)),
            Ok::<_, FidoError>(None::<Message>),
        ),
{
    let report = continuation_report(message, sequence);
    let length = message.payload.len();
    let start = continuation_start(sequence);
    assert(start < length);
    assert(sequence < 69);
    let copied = piece(length - start, CONTINUATION_DATA as int);
    let data = message.payload.subrange(start, start + copied);
    let zeros = Seq::new((FIDO_REPORT_SIZE - 5 - copied) as nat, |i: int| 0u8);
    assert(report =~= cid_bytes(message.cid) + (seq![sequence as u8] + data + zeros));
    lemma_cid_round_trip(message.cid, seq![sequence as u8] + data + zeros);
    assert(report.len() == FIDO_REPORT_SIZE);
    assert(report[4] == sequence as u8);
    assert(report.subrange(5, 5 + copied) =~= data);
    let payload = message.payload.take(start) + report.subrange(5, 5 + copied);
    assert(payload =~= message.payload.take(start + copied));
    if sequence + 1 == continuation_count(length) {
        assert(start + copied == length);
        assert(payload =~= message.payload);
    } else {
        assert(copied == CONTINUATION_DATA);
        assert(start + copied == continuation_start(sequence + 1));
        assert(start + copied < length);
    }
}

/// After the first `count + 1` of a message's reports, none of which is its last,
/// the channel holds exactly what they carried.
proof fn lemma_prefix_accepted(pending: Map<u32, Partial>, message: Message, count: nat)
    requires
        message.command < 0x80,
        message.payload.len() <= MAX_CTAPHID_PAYLOAD,
        count < continuation_count(message.payload.len()),
    ensures
        accepted_all(pending, fragments(message).take(count as int + 1)) == (
            pending.insert(message.cid, assembly(message, count as int)),
            Seq::new(count + 1, |i: int| Ok::<_, FidoError>(None::<Message>)),
        ),
    decreases count,
{
    let reports = fragments(message).take(count as int + 1);
    assert(reports.last() == fragments(message)[count as int]);
    lemma_init_accepted(pending, message);
    if count == 0 {
        assert(reports.drop_last() =~= Seq::<Seq<u8>>::empty());
        assert(accepted_all(pending, reports.drop_last()) == (
            pending,
            Seq::<Result<Option<Message>, FidoError>>::empty(),
        ));
    } else {
        lemma_prefix_accepted(pending, message, (count - 1) as nat);
        assert(reports.drop_last() =~= fragments(message).take(count as int));
        let before = accepted_all(pending, reports.drop_last());
        lemma_continuation_accepted(before.0, message, count - 1);
        assert(before.0.insert(message.cid, assembly(message, count as int)) =~= pending.insert(
            message.cid,
            assembly(message, count as int),
        ));
    }
    assert(accepted_all(pending, reports).1 =~= Seq::new(
        count + 1,
        |i: int| Ok::<_, FidoError>(None::<Message>),
    ));
}

/// Whatever is pending on the channels, the reports that a message is cut into,
/// taken in order, give nothing until the last of them, which gives the message
/// back; the message's own channel is then idle and the others are as before.
pub proof fn fragments_reassemble(pending: Map<u32, Partial>, message: Message)
    requires
        message.command < 0x80,
        message.payload.len() <= MAX_CTAPHID_PAYLOAD,
    ensures
        accepted_all(pending, fragments(message)) == (
            pending.remove(message.cid),
            Seq::new(
                continuation_count(message.payload.len()),
                |i: int| Ok::<_, FidoError>(None::<Message>),
            ).push(Ok::<_, FidoError>(Some(message))),
        ),
{
    let count = continuation_count(message.payload.len());
    let reports = fragments(message);
    lemma_init_accepted(pending, message);
    if count == 0 {
        assert(reports.drop_last() =~= Seq::<Seq<u8>>::empty());
        assert(accepted_all(pending, reports.drop_last()) == (
            pending,
            Seq::<Result<Option<Message>, FidoError>>::empty(),
        ));
    } else {
        lemma_prefix_accepted(pending, message, (count - 1) as nat);
        assert(reports.drop_last() =~= reports.take(count as int));
        let before = accepted_all(pending, reports.drop_last());
        lemma_continuation_accepted(before.0, message, count - 1);
        assert(before.0.remove(message.cid) =~= pending.remove(message.cid));
    }
    assert(accepted_all(pending, reports).1 =~= Seq::new(
        count,
        |i: int| Ok::<_, FidoError>(None::<Message>),
    ).push(Ok::<_, FidoError>(Some(message))));
}

/// A message that was put together can be passed on: it can be cut into reports, and the
/// reports give it back wherever they are taken in.
pub proof fn assembled_messages_pass_on(
    pending: Map<u32, Partial>,
    report: Seq<u8>,
    remote: Map<u32, Partial>,
)
    requires
        pending_wf(pending),
    ensures
        pending_wf(accepted(pending, report).0),
        accepted(pending, report).1 matches Ok(Some(message)) ==> {
            &&& message.payload.len() <= MAX_CTAPHID_PAYLOAD
            &&& accepted_all(remote, fragments(message)).0 == remote.remove(message.cid)
            &&& accepted_all(remote, fragments(message)).1.last() == Ok::<_, FidoError>(
                Some(message),
            )
        },
{
    let cid = report_cid(report);
    if pending.dom().contains(cid) {
        assert(partial_wf(pending[cid]));
    }
    if let Ok(Some(message)) = accepted(pending, report).1 {
        fragments_reassemble(remote, message);
    }
}

/// Every report that a message is cut into has the length of a report.
pub proof fn fragments_are_reports(message: Message)
    requires
        message.payload.len() <= MAX_CTAPHID_PAYLOAD,
    ensures
        forall|i: int|
            0 <= i < fragments(message).len() ==> report_validity(#[trigger] fragments(message)[i])
                is Ok,
{
    assert forall|i: int| 0 <= i < fragments(message).len() implies report_validity(
        #[trigger] fragments(message)[i],
    ) is Ok by {
        if i > 0 {
            assert(fragments(message)[i] == continuation_report(message, i - 1));
            assert(continuation_start(i - 1) < message.payload.len());
        }
    }
}

/// Channels are independent: what a report gives, and what it leaves pending on its
/// own channel, depends on that channel alone, and no other channel is touched.
pub proof fn channels_are_independent(
    one: Map<u32, Partial>,
    other: Map<u32, Partial>,
    report: Seq<u8>,
    channel: u32,
)
    requires
        one.dom().contains(report_cid(report)) == other.dom().contains(report_cid(report)),
        one.dom().contains(report_cid(report)) ==> one[report_cid(report)] == other[report_cid(
            report,
        )],
    ensures
        accepted(one, report).1 == accepted(other, report).1,
        ({
            let cid = report_cid(report);
            let (left, right) = (accepted(one, report).0, accepted(other, report).0);
            &&& left.dom().contains(cid) == right.dom().contains(cid)
            &&& left.dom().contains(cid) ==> left[cid] == right[cid]
        }),
        channel != report_cid(report) ==> {
            let left = accepted(one, report).0;
            &&& left.dom().contains(channel) == one.dom().contains(channel)
            &&& left.dom().contains(channel) ==> left[channel] == one[channel]
        },
{
}

/// A first report on a channel starts over: whatever was pending there is dropped,
/// and the outcome is the same as on an idle channel.
pub proof fn first_report_starts_over(pending: Map<u32, Partial>, report: Seq<u8>)
    requires
        report.len() == FIDO_REPORT_SIZE,
        report[4] >= 0x80,
        announced_length(report) <= MAX_CTAPHID_PAYLOAD,
    ensures
        accepted(pending, report) == accepted(pending.remove(report_cid(report)), report),
{
    let cid = report_cid(report);
    assert(pending.remove(cid).remove(cid) =~= pending.remove(cid));
    let partial = accepted(pending, report).0[cid];
    assert(pending.remove(cid).insert(cid, partial) =~= pending.insert(cid, partial));
}

/// The number that the first four bytes of a report write, most significant first.
pub open spec fn channel_number(report: Seq<u8>) -> int {
    report[0] * 0x100_0000 + report[1] * 0x1_0000 + report[2] * 0x100 + report[3]
}

/// The first report of a message has 64 bytes: the channel, the command with the top bit set,
/// the length of the payload, all with the most significant byte first, the first 57 bytes of
/// the payload, and zeros.
pub proof fn first_reports_are_laid_out(message: Message)
    requires
        message.command < 0x80,
        message.payload.len() <= 4096,
    ensures
        ({
            let report = fragments(message)[0];
            &&& fragments(message).len() > 0
            &&& report.len() == 64
            &&& channel_number(report) == message.cid
            &&& report[4] == message.command + 0x80
            &&& report[5] * 0x100 + report[6] == message.payload.len()
            &&& forall|i: int|
                0 <= i < 57 ==> #[trigger] report[7 + i] == (if i < message.payload.len() {
                    message.payload[i]
                } else {
                    0
                })
        }),
{
    let report = init_report(message);
    let length = message.payload.len();
    let copied = piece(length as int, INIT_DATA as int);
    let head = seq![
        command_byte(message.command),
        (length / 0x100) as u8,
        (length % 0x100) as u8,
    ];
    let zeros = Seq::new((FIDO_REPORT_SIZE - 7 - copied) as nat, |i: int| 0u8);
    let rest = head + message.payload.take(copied) + zeros;
    assert(report =~= cid_bytes(message.cid) + rest);
    lemma_cid_round_trip(message.cid, rest);
    lemma_channel_number(report);
    assert forall|i: int| 0 <= i < 57 implies #[trigger] report[7 + i] == (if i
        < message.payload.len() {
        message.payload[i]
    } else {
        0
    }) by {
        assert(report[7 + i] == rest[3 + i]);
    }
}

/// Every further report has 64 bytes too: the channel, the number of the report from zero
/// on, the next 59 bytes of the payload, and zeros. There are as many as the payload needs.
pub proof fn further_reports_are_laid_out(message: Message, at: int)
    requires
        message.command < 0x80,
        message.payload.len() <= 4096,
        0 < at < fragments(message).len(),
    ensures
        ({
            let report = fragments(message)[at];
            let start = 57 + 59 * (at - 1);
            &&& report.len() == 64
            &&& channel_number(report) == message.cid
            &&& report[4] == at - 1
            &&& start < message.payload.len()
            &&& forall|i: int|
                0 <= i < 59 ==> #[trigger] report[5 + i] == (if start + i < message.payload.len() {
                    message.payload[start + i]
                } else {
                    0
                })
        }),
        message.payload.len() <= 57 + 59 * (fragments(message).len() - 1),
{
    let sequence = at - 1;
    let report = continuation_report(message, sequence);
    let length = message.payload.len();
    let start = continuation_start(sequence);
    assert(start < length);
    assert(sequence < 69);
    let copied = piece(length - start, CONTINUATION_DATA as int);
    let data = message.payload.subrange(start, start + copied);
    let zeros = Seq::new((FIDO_REPORT_SIZE - 5 - copied) as nat, |i: int| 0u8);
    let rest = seq![sequence as u8] + data + zeros;
    assert(report =~= cid_bytes(message.cid) + rest);
    lemma_cid_round_trip(message.cid, rest);
    lemma_channel_number(report);
    assert forall|i: int| 0 <= i < 59 implies #[trigger] report[5 + i] == (if start + i
        < message.payload.len() {
        message.payload[start + i]
    } else {
        0
    }) by {
        assert(report[5 + i] == rest[1 + i]);
    }
}

/// A command that has the top bit set already is written as it is.
pub proof fn marked_commands_stay(message: Message)
    requires
        message.command >= 0x80,
        message.payload.len() <= 4096,
    ensures
        fragments(message)[0][4] == message.command,
{
    let report = init_report(message);
    assert(report == fragments(message)[0]);
    assert(report[4] == command_byte(message.command));
}

/// A message whose payload fits in its first report has no other.
pub proof fn short_messages_have_one_report(message: Message)
    ensures
        message.payload.len() <= 57 <==> fragments(message).len() == 1,
{
}

proof fn lemma_channel_number(report: Seq<u8>)
    ensures
        report_cid(report) == channel_number(report),
{
}

/// A report that is refused changes nothing on other channels, and says why: its length is
/// not 64, the payload that it announces is beyond 4096 bytes, no first report came on its
/// channel, or it is not the next. In the last case what was pending is dropped.
pub proof fn refused_reports_say_why(pending: Map<u32, Partial>, report: Seq<u8>, cid: u32)
    ensures
        report.len() != 64 <==> accepted(pending, report).1 == Err::<Option<Message>, _>(
            FidoError::ReportSize(report.len() as usize),
        ),
        report.len() != 64 ==> accepted(pending, report).0 == pending,
        report.len() == 64 && report[4] >= 0x80 ==> {
            &&& report[5] * 0x100 + report[6] > 4096 <==> accepted(pending, report).1 is Err
            &&& accepted(pending, report).1 matches Err(err) ==> err == FidoError::PayloadTooLarge
                && accepted(pending, report).0 == pending
        },
        report.len() == 64 && report[4] < 0x80 && cid == channel_number(report) ==> {
            &&& !pending.dom().contains(cid) ==> accepted(pending, report) == (
                pending,
                Err::<Option<Message>, _>(FidoError::UnexpectedContinuation),
            )
            &&& pending.dom().contains(cid) && report[4] != pending[cid].next_sequence ==> accepted(
                pending,
                report,
            ) == (
                pending.remove(cid),
                Err::<Option<Message>, _>(FidoError::OutOfOrderContinuation),
            )
            &&& pending.dom().contains(cid) && report[4] == pending[cid].next_sequence ==> accepted(
                pending,
                report,
            ).1 is Ok
        },
{
    lemma_channel_number(report);
}

} // verus!
