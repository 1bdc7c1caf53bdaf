use sanzu::ctap::CTAPHID_CBOR;
use sanzu::error::FidoError;
use sanzu::framing::{
    fragment_message, validate_report, CtapAssembler, CtapMessage, FIDO_REPORT_SIZE,
};

#[test]
fn accepts_only_complete_ctaphid_reports() {
    assert!(validate_report(&[0; FIDO_REPORT_SIZE]).is_ok());
    assert!(validate_report(&[0; FIDO_REPORT_SIZE - 1]).is_err());
    assert!(validate_report(&[0; FIDO_REPORT_SIZE + 1]).is_err());
}

#[test]
fn fragments_and_reassembles_ctaphid_messages() {
    for size in [0, 1, 57, 58, 116, 512] {
        let message = CtapMessage {
            cid: 0x1020_3040,
            command: CTAPHID_CBOR,
            payload: (0..size).map(|index| index as u8).collect(),
        };
        let reports = fragment_message(&message).unwrap();
        let mut assembler = CtapAssembler::default();
        let mut rebuilt = None;
        for report in reports {
            rebuilt = assembler.push(&report).unwrap().or(rebuilt);
        }
        assert_eq!(rebuilt, Some(message));
    }
}

#[test]
fn rejects_out_of_order_ctaphid_continuations() {
    let message = CtapMessage {
        cid: 7,
        command: CTAPHID_CBOR,
        payload: vec![0xaa; 100],
    };
    let mut reports = fragment_message(&message).unwrap();
    reports[1][4] = 1;
    let mut assembler = CtapAssembler::default();
    assert!(assembler.push(&reports[0]).unwrap().is_none());
    assert!(assembler.push(&reports[1]).is_err());
}

fn cbor(cid: u32, payload: Vec<u8>) -> CtapMessage {
    CtapMessage {
        cid,
        command: CTAPHID_CBOR,
        payload,
    }
}

#[test]
fn first_report_has_the_ctaphid_layout() {
    let reports = fragment_message(&cbor(0x0102_0304, vec![0xaa; 60])).unwrap();
    assert_eq!(reports.len(), 2);
    assert_eq!(reports[0][..7], [1, 2, 3, 4, 0x90, 0, 60]);
    assert_eq!(reports[0][7..], [0xaa; 57]);
    assert_eq!(reports[1][..8], [1, 2, 3, 4, 0, 0xaa, 0xaa, 0xaa]);
    assert_eq!(reports[1][8..], [0; 56]);
}

#[test]
fn payloads_are_limited() {
    assert_eq!(fragment_message(&cbor(1, vec![0; 4096])).unwrap().len(), 70);
    assert_eq!(
        fragment_message(&cbor(1, vec![0; 4097])),
        Err(FidoError::PayloadTooLarge)
    );
    let mut report = vec![0u8; 64];
    report[4] = 0x90;
    report[5] = 0x10;
    report[6] = 0x01;
    let mut assembler = CtapAssembler::default();
    assert_eq!(assembler.push(&report), Err(FidoError::PayloadTooLarge));
}

#[test]
fn interleaved_channels_do_not_mix() {
    let one = cbor(1, vec![0x11; 100]);
    let other = cbor(2, vec![0x22; 100]);
    let left = fragment_message(&one).unwrap();
    let right = fragment_message(&other).unwrap();
    let mut assembler = CtapAssembler::default();
    assert_eq!(assembler.push(&left[0]), Ok(None));
    assert_eq!(assembler.push(&right[0]), Ok(None));
    assert_eq!(assembler.push(&left[1]), Ok(Some(one)));
    assert_eq!(assembler.push(&right[1]), Ok(Some(other)));
}

#[test]
fn a_first_report_drops_what_was_pending() {
    let long = fragment_message(&cbor(5, vec![0x11; 100])).unwrap();
    let short = cbor(5, vec![0x22; 3]);
    let mut assembler = CtapAssembler::default();
    assert_eq!(assembler.push(&long[0]), Ok(None));
    assert_eq!(
        assembler.push(&fragment_message(&short).unwrap()[0]),
        Ok(Some(short))
    );
    assert_eq!(
        assembler.push(&long[1]),
        Err(FidoError::UnexpectedContinuation)
    );
}

#[test]
fn wrong_sequence_drops_the_message() {
    let long = fragment_message(&cbor(5, vec![0x11; 300])).unwrap();
    let mut assembler = CtapAssembler::default();
    assert_eq!(assembler.push(&long[0]), Ok(None));
    assert_eq!(
        assembler.push(&long[2]),
        Err(FidoError::OutOfOrderContinuation)
    );
    assert_eq!(
        assembler.push(&long[1]),
        Err(FidoError::UnexpectedContinuation)
    );
    assert_eq!(assembler.push(&[0; 63]), Err(FidoError::ReportSize(63)));
}

#[test]
fn assembled_messages_can_be_passed_on() {
    let sent = CtapMessage {
        cid: 9,
        command: 0x7f,
        payload: (0..300u32).map(|index| index as u8).collect(),
    };
    let mut hop = sent.clone();
    for _ in 0..3 {
        let mut assembler = CtapAssembler::default();
        let mut given = None;
        for report in fragment_message(&hop).unwrap() {
            given = assembler.push(&report).unwrap();
        }
        hop = given.unwrap();
        assert!(hop.command < 0x80);
    }
    assert_eq!(hop, sent);
}
