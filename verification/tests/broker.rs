use sanzu::broker::{Action, Asking, Event, FidoClient, FidoDevice, Fresh, Notice};
use sanzu::cbor::{decode_map, encode_map, CborMap, CborValue};
use sanzu::crypto::{
    aes_cbc_decrypt, aes_cbc_encrypt, cose_public_key, hmac_16, parse_cose_public, pin_hash,
    shared_secret, Hidden, HiddenText, SecretKey,
};
use sanzu::ctap::{
    ctap_success, encode_client_pin, map_bytes, map_of, map_u8, map_value, successful_map,
    CTAPHID_CBOR,
};
use sanzu::error::FidoError;
use sanzu::framing::{fragment_message, CtapAssembler, CtapMessage};
use sanzu::hid::HidRead;
use sanzu::pin::{ClientPinAsk, TokenGrant};
use sanzu::selector::{HidCandidate, SelectionError};

const CID: u32 = 0x0a0b_0c0d;
const SECOND: u64 = 1_000_000_000;

fn client() -> FidoClient {
    FidoClient::new(
        FidoDevice {
            vendor_id: 0x1050,
            product_id: 0x0407,
            product_name: "YubiKey".to_owned(),
        },
        SecretKey::random(),
    )
}

fn message(payload: Vec<u8>) -> CtapMessage {
    CtapMessage {
        cid: CID,
        command: CTAPHID_CBOR,
        payload,
    }
}

fn reports(payload: Vec<u8>) -> Vec<Vec<u8>> {
    fragment_message(&message(payload)).unwrap()
}

fn assemble(reports: &[Vec<u8>]) -> Vec<CtapMessage> {
    let mut assembler = CtapAssembler::default();
    reports
        .iter()
        .filter_map(|report| assembler.push(report).unwrap())
        .collect()
}

fn written(action: Result<Action, FidoError>) -> CtapMessage {
    let Ok(Action::Write(reports)) = action else {
        panic!("a message should be written");
    };
    assemble(&reports).remove(0)
}

fn handed_out(client: &mut FidoClient, now: u64) -> Vec<CtapMessage> {
    assemble(&client.poll_reports(now, vec![]).unwrap())
}

fn client_pin(entries: Vec<(i128, CborValue)>) -> Vec<u8> {
    encode_client_pin(map_of(entries)).unwrap()
}

fn integer(number: i128) -> CborValue {
    CborValue::Integer(number)
}

/// An authenticator with a PIN, as far as ClientPIN goes.
struct Authenticator {
    secret: SecretKey,
    shared: Vec<u8>,
    token: Vec<u8>,
    pin: &'static str,
}

impl Authenticator {
    fn new(pin: &'static str) -> Self {
        Authenticator {
            secret: SecretKey::random(),
            shared: vec![],
            token: vec![0x77; 32],
            pin,
        }
    }

    fn answer(&mut self, request: &CtapMessage) -> Vec<u8> {
        assert_eq!(request.cid, CID);
        assert_eq!(request.payload[0], 0x06);
        let map = decode_map(&request.payload[1..]).unwrap();
        assert_eq!(map_u8(&map, 1), Ok(1));
        if map_u8(&map, 2) == Ok(2) {
            let key = cose_public_key(&self.secret.public_key());
            return ctap_success(map_of(vec![(1, key)])).unwrap();
        }
        assert_eq!(map_u8(&map, 2), Ok(5));
        let platform = parse_cose_public(map_value(&map, 3).unwrap()).unwrap();
        self.shared = shared_secret(&self.secret, &platform).as_slice().to_vec();
        let hash = aes_cbc_decrypt(&self.shared, map_bytes(&map, 6).unwrap()).unwrap();
        if hash != pin_hash(self.pin).as_slice() {
            return vec![0x31];
        }
        let encrypted = aes_cbc_encrypt(&self.shared, &self.token).unwrap();
        ctap_success(map_of(vec![(2, CborValue::Bytes(encrypted))])).unwrap()
    }
}

/// Lets the authenticator answer one request of the broker.
fn exchange(
    client: &mut FidoClient,
    now: u64,
    action: Result<Action, FidoError>,
    authenticator: &mut Authenticator,
) -> Result<Action, FidoError> {
    let request = written(action);
    assert!(matches!(
        client.resume(now, Event::Written),
        Ok(Action::Listen)
    ));
    assert!(matches!(
        client.resume(now, Event::Heard(vec![])),
        Ok(Action::Listen)
    ));
    let mut next = Err(FidoError::Device);
    for report in reports(authenticator.answer(&request)) {
        next = client.resume(now, Event::Heard(report));
    }
    next
}

/// Asks for the broker's key-agreement key, and agrees on a secret.
fn agree(client: &mut FidoClient, remote: &SecretKey) -> Vec<u8> {
    let request = client_pin(vec![(1, integer(1)), (2, integer(2))]);
    assert!(matches!(
        client.write_reports(0, reports(request)),
        Ok(Action::Done)
    ));
    let answer = handed_out(client, 0).remove(0);
    assert_eq!(answer.cid, CID);
    let map = successful_map(&answer.payload).unwrap();
    let key = parse_cose_public(map_value(&map, 1).unwrap()).unwrap();
    shared_secret(remote, &key).as_slice().to_vec()
}

fn token_request(remote: &SecretKey, permissions: i128, rp_id: &str) -> Vec<u8> {
    client_pin(vec![
        (1, integer(1)),
        (2, integer(6)),
        (3, cose_public_key(&remote.public_key())),
        (9, integer(permissions)),
        (10, CborValue::Text(rp_id.to_owned())),
    ])
}

/// Gets a token for the remote side.
fn token(
    client: &mut FidoClient,
    now: u64,
    authenticator: &mut Authenticator,
    permissions: i128,
) -> Vec<u8> {
    let remote = SecretKey::random();
    let shared = agree(client, &remote);
    let request = token_request(&remote, permissions, "example.org");
    assert!(matches!(
        client.write_reports(now, reports(request)),
        Ok(Action::Prompt)
    ));
    let action = client.resume(now, Event::Pin(HiddenText::new(authenticator.pin.to_owned())));
    let action = exchange(client, now, action, authenticator);
    let action = exchange(client, now, action, authenticator);
    assert!(matches!(action, Ok(Action::Done)));
    let answer = handed_out(client, now).remove(0);
    let map = successful_map(&answer.payload).unwrap();
    aes_cbc_decrypt(&shared, map_bytes(&map, 2).unwrap()).unwrap()
}

fn request(command: u8, map: CborMap) -> Vec<u8> {
    let mut payload = vec![command];
    payload.extend(encode_map(map).unwrap());
    payload
}

fn make_credential(token: &[u8], rp_id: &str) -> Vec<u8> {
    let mut rp = CborMap::new();
    rp.insert_text("id", CborValue::Text(rp_id.to_owned()));
    request(
        1,
        map_of(vec![
            (1, CborValue::Bytes(vec![0x11; 32])),
            (2, CborValue::Table(rp)),
            (8, CborValue::Bytes(hmac_16(token, &[0x11; 32]).unwrap())),
            (9, integer(1)),
        ]),
    )
}

fn get_assertion(token: &[u8], up: Option<bool>) -> Vec<u8> {
    let mut options = CborMap::new();
    if let Some(up) = up {
        options.insert_text("up", CborValue::Bool(up));
    }
    request(
        2,
        map_of(vec![
            (1, CborValue::Text("example.org".to_owned())),
            (2, CborValue::Bytes(vec![0x22; 32])),
            (5, CborValue::Table(options)),
            (6, CborValue::Bytes(hmac_16(token, &[0x22; 32]).unwrap())),
            (7, integer(1)),
        ]),
    )
}

/// Writes a request that should be refused, and gives the answer.
fn refused(client: &mut FidoClient, now: u64, payload: Vec<u8>) -> Vec<u8> {
    assert!(matches!(
        client.write_reports(now, reports(payload)),
        Ok(Action::Done)
    ));
    let mut answers = handed_out(client, now);
    assert_eq!(answers.len(), 1);
    assert_eq!(answers[0].cid, CID);
    answers.remove(0).payload
}

#[test]
fn proofs_are_exchanged_for_the_authenticators() {
    let mut client = client();
    let mut authenticator = Authenticator::new("1234");
    let token = token(&mut client, 0, &mut authenticator, 1);
    let payload = make_credential(&token, "example.org");
    let forwarded = written(client.write_reports(SECOND, reports(payload)));
    assert_eq!(forwarded.payload[0], 1);
    let map = decode_map(&forwarded.payload[1..]).unwrap();
    assert_eq!(
        map_bytes(&map, 8).unwrap(),
        hmac_16(&[0x77; 32], &[0x11; 32]).unwrap()
    );
    assert_eq!(map_bytes(&map, 1).unwrap(), [0x11; 32]);
    assert!(matches!(
        client.resume(SECOND, Event::Written),
        Ok(Action::Done)
    ));
    let again = make_credential(&token, "example.org");
    assert_eq!(refused(&mut client, SECOND, again), [0x33]);
}

#[test]
fn silent_assertions_keep_the_token() {
    let mut client = client();
    let mut authenticator = Authenticator::new("1234");
    let token = token(&mut client, 0, &mut authenticator, 2);
    for _ in 0..2 {
        let silent = get_assertion(&token, Some(false));
        let forwarded = written(client.write_reports(0, reports(silent)));
        let map = decode_map(&forwarded.payload[1..]).unwrap();
        assert_eq!(
            map_bytes(&map, 6).unwrap(),
            hmac_16(&[0x77; 32], &[0x22; 32]).unwrap()
        );
        client.resume(0, Event::Written).unwrap();
    }
    written(client.write_reports(0, reports(get_assertion(&token, None))));
    client.resume(0, Event::Written).unwrap();
    let again = get_assertion(&token, Some(false));
    assert_eq!(refused(&mut client, 0, again), [0x33]);
}

#[test]
fn tokens_are_scoped_and_expire() {
    let mut client = client();
    let mut authenticator = Authenticator::new("1234");
    let token = token(&mut client, 0, &mut authenticator, 1);
    let other = make_credential(&token, "other.org");
    assert_eq!(refused(&mut client, 0, other), [0x33]);
    let assertion = get_assertion(&token, None);
    assert_eq!(refused(&mut client, 0, assertion), [0x33]);
    let forged = make_credential(&[0; 32], "example.org");
    assert_eq!(refused(&mut client, 0, forged), [0x33]);
    let late = make_credential(&token, "example.org");
    assert_eq!(refused(&mut client, 120 * SECOND, late), [0x33]);
    let early = make_credential(&token, "example.org");
    assert_eq!(refused(&mut client, 0, early), [0x33]);
}

#[test]
fn requests_without_a_proof_need_no_session() {
    let mut client = client();
    let payload = request(
        2,
        map_of(vec![(1, CborValue::Text("example.org".to_owned()))]),
    );
    assert_eq!(
        written(client.write_reports(0, reports(payload.clone()))),
        message(payload)
    );
    client.resume(0, Event::Written).unwrap();
    assert_eq!(refused(&mut client, 0, vec![0x01, 0xff]), [0x33]);
}

#[test]
fn wrong_pins_are_asked_for_three_times() {
    let mut client = client();
    let mut authenticator = Authenticator::new("1234");
    let remote = SecretKey::random();
    let request = token_request(&remote, 3, "example.org");
    let mut action = client.write_reports(0, reports(request));
    for _ in 0..3 {
        assert!(matches!(action, Ok(Action::Prompt)));
        let asked = client.resume(0, Event::Pin(HiddenText::new("0000".to_owned())));
        let asked = exchange(&mut client, 0, asked, &mut authenticator);
        action = exchange(&mut client, 0, asked, &mut authenticator);
    }
    assert!(matches!(action, Ok(Action::Done)));
    assert_eq!(handed_out(&mut client, 0)[0].payload, [0x27]);
}

#[test]
fn client_pin_requests_are_denied_locally() {
    let mut client = client();
    let remote = SecretKey::random();
    for payload in [
        vec![0x06],
        client_pin(vec![(1, integer(2)), (2, integer(2))]),
        client_pin(vec![(1, integer(1))]),
        token_request(&remote, 0, "example.org"),
        token_request(&remote, 4, "example.org"),
        client_pin(vec![
            (1, integer(1)),
            (2, integer(6)),
            (9, integer(1)),
            (10, CborValue::Text("x".to_owned())),
        ]),
    ] {
        assert_eq!(refused(&mut client, 0, payload), [0x27]);
    }
    let unknown = client_pin(vec![(1, integer(1)), (2, integer(1))]);
    assert_eq!(refused(&mut client, 0, unknown), [0x3e]);
}

#[test]
fn failures_of_the_prompt_and_the_device_deny() {
    let mut client = client();
    let remote = SecretKey::random();
    let request = token_request(&remote, 1, "example.org");
    client.write_reports(0, reports(request.clone())).unwrap();
    assert!(matches!(
        client.resume(0, Event::PinRefused(FidoError::PinCancelled)),
        Ok(Action::Done)
    ));
    client.write_reports(0, reports(request.clone())).unwrap();
    client.resume(0, Event::Pin(HiddenText::new("1".to_owned()))).unwrap();
    assert!(matches!(client.resume(0, Event::Failed), Ok(Action::Done)));
    client.write_reports(0, reports(request.clone())).unwrap();
    client.resume(0, Event::Pin(HiddenText::new("1".to_owned()))).unwrap();
    client.resume(0, Event::Written).unwrap();
    assert!(matches!(
        client.resume(10 * SECOND - 1, Event::Heard(vec![])),
        Ok(Action::Listen)
    ));
    assert!(matches!(
        client.resume(10 * SECOND, Event::Heard(vec![])),
        Ok(Action::Done)
    ));
    client.write_reports(0, reports(request.clone())).unwrap();
    client.resume(0, Event::Pin(HiddenText::new("1".to_owned()))).unwrap();
    client.resume(0, Event::Written).unwrap();
    assert!(matches!(
        client.resume(0, Event::Heard(vec![1, 2, 3])),
        Ok(Action::Done)
    ));
    let answers = handed_out(&mut client, 0);
    assert_eq!(answers.len(), 4);
    assert!(answers.iter().all(|answer| answer.payload == [0x27]));
}

#[test]
fn other_messages_pass_while_the_authenticator_is_asked() {
    let mut client = client();
    let remote = SecretKey::random();
    let request = token_request(&remote, 1, "example.org");
    client.write_reports(0, reports(request)).unwrap();
    client.resume(0, Event::Pin(HiddenText::new("1".to_owned()))).unwrap();
    client.resume(0, Event::Written).unwrap();
    let keepalive = CtapMessage {
        cid: CID,
        command: 0x3b,
        payload: vec![1],
    };
    let report = fragment_message(&keepalive).unwrap().remove(0);
    assert!(matches!(
        client.resume(0, Event::Heard(report)),
        Ok(Action::Listen)
    ));
    assert_eq!(handed_out(&mut client, 0), [keepalive]);
}

#[test]
fn get_info_answers_announce_the_broker() {
    let mut client = client();
    let request = message(vec![0x04]);
    assert_eq!(
        written(client.write_reports(0, reports(vec![0x04]))),
        request
    );
    client.resume(0, Event::Written).unwrap();
    let mut options = CborMap::new();
    options.insert_text("clientPin", CborValue::Bool(true));
    let info = ctap_success(map_of(vec![(4, CborValue::Table(options))])).unwrap();
    let mut reads: Vec<HidRead> = vec![];
    for report in reports(info.clone()).into_iter().chain(reports(info.clone())) {
        let mut numbered = vec![0];
        numbered.extend(report);
        reads.push(HidRead::Bytes(numbered));
    }
    let answers = assemble(&client.poll_reports(0, reads).unwrap());
    let map = successful_map(&answers[0].payload).unwrap();
    let options = map_value(&map, 4).unwrap().as_map().unwrap();
    assert_eq!(options.get_text("uv").unwrap().as_bool(), Some(true));
    assert!(options.get_text("clientPin").is_none());
    assert_eq!(answers[1].payload, info);
}

#[test]
fn reports_are_handed_out_64_at_a_time() {
    let mut client = client();
    let reads = |count: usize| -> Vec<HidRead> {
        let mut report = reports(vec![0x00]).remove(0);
        report[7] = 0x55;
        (0..count).map(|_| HidRead::Bytes(report.clone())).collect()
    };
    assert_eq!(client.poll_reports(0, reads(70)).unwrap().len(), 64);
    assert_eq!(client.poll_reports(0, vec![]).unwrap().len(), 0);
    let long: Vec<HidRead> = reports(vec![0x01; 4000])
        .into_iter()
        .map(HidRead::Bytes)
        .collect();
    let (first, second) = (long.len().min(64), long.len() - 64);
    assert_eq!((first, second), (64, 4));
    assert_eq!(client.poll_reports(0, long).unwrap().len(), 0);
    assert_eq!(
        client
            .poll_reports(0, vec![HidRead::Bytes(vec![]), HidRead::Failed])
            .unwrap()
            .len(),
        0
    );
    assert_eq!(
        client.poll_reports(0, vec![HidRead::Failed]),
        Err(FidoError::Device)
    );
    assert_eq!(
        client.poll_reports(0, vec![HidRead::Bytes(vec![1; 65])]),
        Err(FidoError::InputReportSize(65))
    );
}

#[test]
fn packets_are_limited_and_checked() {
    let mut client = client();
    assert_eq!(
        client.write_reports(0, vec![vec![0; 64]; 65]).err(),
        Some(FidoError::TooManyReports)
    );
    assert_eq!(
        client.write_reports(0, vec![vec![0; 65]]).err(),
        Some(FidoError::ReportSize(65))
    );
    assert_eq!(
        client.write_reports(0, vec![vec![0; 64]]).err(),
        Some(FidoError::UnexpectedContinuation)
    );
    assert_eq!(
        client.resume(0, Event::Written).err(),
        Some(FidoError::UnexpectedSignal)
    );
    client.write_reports(0, reports(vec![0x04])).unwrap();
    assert_eq!(
        client.write_reports(0, vec![]).err(),
        Some(FidoError::UnexpectedSignal)
    );
    assert_eq!(
        client.resume(0, Event::Failed).err(),
        Some(FidoError::Device)
    );
    assert!(matches!(client.write_reports(0, vec![]), Ok(Action::Done)));
}

#[test]
fn several_messages_in_one_packet_are_dealt_with_in_turn() {
    let mut client = client();
    let mut packet = reports(vec![0x0b]);
    packet.extend(reports(vec![0x06]));
    packet.extend(reports(vec![0x0c]));
    assert_eq!(
        written(client.write_reports(0, packet)),
        message(vec![0x0b])
    );
    assert_eq!(
        written(client.resume(0, Event::Written)),
        message(vec![0x0c])
    );
    assert!(matches!(client.resume(0, Event::Written), Ok(Action::Done)));
    assert_eq!(handed_out(&mut client, 0)[0].payload, [0x27]);
}

#[test]
fn the_given_token_is_issued() {
    let mut client = client();
    let mut authenticator = Authenticator::new("1234");
    let remote = SecretKey::random();
    let shared = agree(&mut client, &remote);
    let request = token_request(&remote, 1, "example.org");
    client.write_reports(0, reports(request)).unwrap();
    let action = client.resume(0, Event::Pin(HiddenText::new("1234".to_owned())));
    let action = exchange(&mut client, 0, action, &mut authenticator);
    let request = written(action);
    client.resume(0, Event::Written).unwrap();
    for report in reports(authenticator.answer(&request)) {
        let fresh = Fresh {
            secret: SecretKey::random(),
            token: Hidden::new(vec![0x5a; 32]),
        };
        client.resume_with(0, Event::Heard(report), fresh).unwrap();
    }
    let answer = handed_out(&mut client, 0).remove(0);
    let map = successful_map(&answer.payload).unwrap();
    assert_eq!(
        aes_cbc_decrypt(&shared, map_bytes(&map, 2).unwrap()).unwrap(),
        [0x5a; 32]
    );
}

#[test]
fn opening_chooses_and_announces_a_device() {
    let candidates = vec![HidCandidate {
        path: "/dev/hidraw7".to_owned(),
        usage_page: 0xf1d0,
        usage: 1,
        vendor_id: 0x1050,
        product_id: 0x0407,
        manufacturer: None,
        product: Some("YubiKey 5".to_owned()),
        serial_number: None,
    }];
    let (client, at) = FidoClient::open(&candidates, Some("yubikey 5")).unwrap();
    assert_eq!(at, 0);
    assert_eq!(
        client.info(),
        FidoDevice {
            vendor_id: 0x1050,
            product_id: 0x0407,
            product_name: "YubiKey 5".to_owned(),
        }
    );
    assert!(matches!(
        FidoClient::open(&vec![], None),
        Err(SelectionError::NotFound)
    ));
}

fn asking(attempts: u8) -> Asking {
    Asking {
        cid: CID,
        grant: TokenGrant {
            permissions: 1,
            rp_id: "example.org".to_owned(),
            remote_secret: Hidden::new(vec![5; 32]),
        },
        attempts,
    }
}

fn sole_answer(client: &mut FidoClient) -> Vec<u8> {
    let mut messages = handed_out(client, 0);
    assert_eq!(messages.len(), 1);
    assert_eq!(messages[0].cid, CID);
    messages.remove(0).payload
}

#[test]
fn asks_are_answered_on_their_channel() {
    let mut client = client();
    let misread = client.answer_client_pin(CID, Err(FidoError::InvalidCbor));
    assert!(matches!(misread, Ok(None)));
    assert_eq!(sole_answer(&mut client), [0x27]);
    let unknown = client.answer_client_pin(CID, Ok(ClientPinAsk::Unknown));
    assert!(matches!(unknown, Ok(None)));
    assert_eq!(sole_answer(&mut client), [0x3e]);
    let token = client.answer_client_pin(CID, Ok(ClientPinAsk::Token(asking(3).grant)));
    assert!(matches!(token, Ok(Some(Action::Prompt))));
}

#[test]
fn requests_are_forwarded_as_they_were_checked() {
    let mut client = client();
    let refused = client.forward_checked(&message(vec![1]), Err(FidoError::TokenScope));
    assert!(matches!(refused, Ok(None)));
    assert_eq!(sole_answer(&mut client), [0x33]);
    match client.forward_checked(&message(vec![1, 2]), Ok(())) {
        Ok(Some(Action::Write(written))) => assert_eq!(written, reports(vec![1, 2])),
        _ => panic!("the request should be written"),
    }
}

#[test]
fn a_pin_hash_is_sent_only_under_an_agreed_secret() {
    let mut client = client();
    let hash = || Hidden::new(vec![7; 16]);
    let failed = client.agree_with(
        asking(3),
        hash(),
        SecretKey::random(),
        Err(FidoError::InvalidCbor),
    );
    assert!(matches!(failed, Ok(None)));
    assert_eq!(sole_answer(&mut client), [0x27]);

    let authenticator = SecretKey::random();
    let step = client.agree_with(
        asking(3),
        hash(),
        SecretKey::random(),
        Ok(authenticator.public_key()),
    );
    let Ok(Some(Action::Write(written))) = step else {
        panic!("the token should be asked for");
    };
    let request = assemble(&written).remove(0);
    let map = decode_map(&request.payload[1..]).unwrap();
    assert_eq!(map_u8(&map, 2), Ok(5));
    let platform = parse_cose_public(map_value(&map, 3).unwrap()).unwrap();
    let shared = shared_secret(&authenticator, &platform);
    assert_eq!(
        aes_cbc_decrypt(shared.as_slice(), map_bytes(&map, 6).unwrap()).unwrap(),
        [7; 16]
    );
}

#[test]
fn a_wrong_pin_is_asked_for_again_while_attempts_are_left() {
    let mut client = client();
    assert!(matches!(
        client.prompt_again(asking(2)),
        Ok(Some(Action::Prompt))
    ));
    assert!(matches!(
        client.resume(0, Event::PinRefused(FidoError::PinCancelled)),
        Ok(Action::Done)
    ));
    assert_eq!(sole_answer(&mut client), [0x27]);
    assert!(matches!(client.prompt_again(asking(1)), Ok(None)));
    assert_eq!(sole_answer(&mut client), [0x27]);
}

#[test]
fn only_the_brokers_own_token_is_handed_out() {
    let mut client = client();
    let missing = client.exchange_token(0, asking(3), Err(FidoError::Unaligned), Hidden::new(vec![4; 32]));
    assert!(matches!(missing, Ok(None)));
    assert_eq!(sole_answer(&mut client), [0x27]);

    let physical = Hidden::new(vec![6; 32]);
    let issued = client.exchange_token(0, asking(3), Ok(physical), Hidden::new(vec![4; 32]));
    assert!(matches!(issued, Ok(None)));
    let answer = successful_map(&sole_answer(&mut client)).unwrap();
    assert_eq!(
        aes_cbc_decrypt(&[5; 32], map_bytes(&answer, 2).unwrap()).unwrap(),
        [4; 32]
    );
}

#[test]
fn the_pin_stays_local() {
    let asked = |pin: &str| {
        let mut client = client();
        let token = client.answer_client_pin(CID, Ok(ClientPinAsk::Token(asking(3).grant)));
        assert!(matches!(token, Ok(Some(Action::Prompt))));
        let action = client.resume(0, Event::Pin(HiddenText::new(pin.to_owned())));
        (written(action), handed_out(&mut client, 0))
    };
    assert_eq!(asked("1234"), asked("another PIN"));
}

#[test]
fn the_user_learns_why_something_was_not_granted() {
    let mut client = client();
    assert!(client.take_notices().is_empty());
    client
        .answer_client_pin(CID, Err(FidoError::InvalidCbor))
        .unwrap();
    client
        .forward_checked(&message(vec![1]), Err(FidoError::TokenScope))
        .unwrap();
    client.prompt_again(asking(1)).unwrap();
    client.prompt_again(asking(2)).unwrap();
    client
        .resume(0, Event::PinRefused(FidoError::PinCancelled))
        .unwrap();
    assert_eq!(
        client.take_notices(),
        [
            Notice::Denied(FidoError::InvalidCbor),
            Notice::Rejected(FidoError::TokenScope),
            Notice::Denied(FidoError::PinRejected),
            Notice::Denied(FidoError::PinCancelled),
        ]
    );
    assert!(client.take_notices().is_empty());
}

#[test]
fn a_silent_authenticator_is_noted() {
    let mut client = client();
    client.prompt_again(asking(3)).unwrap();
    let pin = Event::Pin(HiddenText::new("1".to_owned()));
    assert!(matches!(client.resume(0, pin), Ok(Action::Write(_))));
    assert!(matches!(
        client.resume(0, Event::Written),
        Ok(Action::Listen)
    ));
    assert!(matches!(
        client.resume(10 * SECOND, Event::Heard(vec![])),
        Ok(Action::Done)
    ));
    assert_eq!(client.take_notices(), [Notice::Denied(FidoError::Timeout)]);
    assert_eq!(sole_answer(&mut client), [0x27]);
}
