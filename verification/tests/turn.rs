use std::collections::VecDeque;

use sanzu::client_loop::{AreaUpdate, ClientLoop, Effect, ServerMessage};
use sanzu::error::ClientError;
use sanzu::geometry::{ClientEvent, Limits};
use sanzu::interface::Stop;
use sanzu::turn::{ClientTurn, TurnAction, TurnEvent};

type Turn = ClientTurn<char, u8>;

type Event = TurnEvent<char, u8>;

/// Goes on with a zoom of two.
fn step(turn: &mut Turn, event: Event) -> Result<TurnAction<char, u8>, Stop> {
    turn.step(event, |dimension| dimension / 2)
}

fn nothing_polled() -> Event {
    TurnEvent::Polled {
        events: vec![],
        display_size: (1600, 1200),
    }
}

fn turn(fido: bool, shared_images: bool, source_is_xwd: bool) -> Turn {
    let limits = Limits {
        window_width: 4000,
        window_height: 3000,
        cursor_width: 64,
        cursor_height: 64,
        bytes_per_line: 16000,
    };
    ClientTurn::new(ClientLoop::new(
        limits,
        false,
        fido,
        shared_images,
        source_is_xwd,
        (800, 600),
    ))
}

fn received(messages: Vec<ServerMessage>, fido_reports: Vec<Vec<u8>>) -> Event {
    TurnEvent::Received {
        messages: VecDeque::from(messages),
        fido_reports,
    }
}

fn image(width: u32, height: u32) -> ServerMessage {
    ServerMessage::ImgEncoded {
        data: vec![1],
        width,
        height,
    }
}

fn raw() -> ServerMessage {
    ServerMessage::ImgRaw {
        data: vec![],
        width: 800,
        height: 600,
        bytes_per_line: 3200,
    }
}

fn clipboard() -> ServerMessage {
    ServerMessage::Clipboard("copied".to_owned())
}

fn stop(error: ClientError, notify: bool) -> Option<Stop> {
    Some(Stop { error, notify })
}

/// Goes on to the server's messages.
fn to_receiving(turn: &mut Turn) {
    turn.begin().unwrap();
    let mut action = step(turn, nothing_polled()).unwrap();
    if let TurnAction::PollFido = action {
        action = step(turn, TurnEvent::FidoPolled(vec![])).unwrap();
    }
    assert!(matches!(
        action,
        TurnAction::Send { events, fido_reports } if events.is_empty() && fido_reports.is_empty()
    ));
    assert!(matches!(
        step(turn, TurnEvent::Done),
        Ok(TurnAction::Receive)
    ));
}

/// Goes on to the first message.
fn to_handling(turn: &mut Turn, messages: Vec<ServerMessage>) {
    to_receiving(turn);
    assert!(matches!(
        step(turn, received(messages, vec![])),
        Ok(TurnAction::Proceed)
    ));
}

#[test]
fn a_turn_goes_through_its_steps_in_order() {
    let mut turn = turn(true, false, false);
    assert!(matches!(turn.begin(), Ok(TurnAction::PollEvents)));
    let polled = TurnEvent::Polled {
        events: vec![
            ClientEvent::Move { x: 1599, y: 600 },
            ClientEvent::Button {
                x: 2,
                y: 4,
                button: 'l',
            },
            ClientEvent::Display {
                width: 1603,
                height: 1,
            },
            ClientEvent::Other(9),
        ],
        display_size: (1600, 1200),
    };
    let mapped = [
        ClientEvent::Move { x: 799, y: 300 },
        ClientEvent::Button {
            x: 1,
            y: 2,
            button: 'l',
        },
        ClientEvent::Display {
            width: 800,
            height: 2,
        },
        ClientEvent::Other(9),
    ];
    assert!(matches!(
        step(&mut turn, polled),
        Ok(TurnAction::PollFido)
    ));
    assert!(matches!(
        step(&mut turn, TurnEvent::FidoPolled(vec![vec![7; 64]])),
        Ok(TurnAction::Send { events, fido_reports })
            if events == mapped && fido_reports == [vec![7; 64]]
    ));
    assert!(matches!(
        step(&mut turn, TurnEvent::Done),
        Ok(TurnAction::Receive)
    ));
    let window = ServerMessage::AreaUpdt(AreaUpdate {
        id: 3,
        x: 10,
        y: 20,
        width: 30,
        height: 40,
        mapped: true,
        is_app: false,
        name: "window".to_owned(),
    });
    let stats = ServerMessage::Stats("5µs".to_owned());
    let messages = vec![clipboard(), image(400, 300), window, stats];
    assert!(matches!(
        step(&mut turn, received(messages, vec![vec![9; 64]])),
        Ok(TurnAction::WriteFido(reports)) if reports == [vec![9; 64]]
    ));
    assert!(matches!(
        step(&mut turn, TurnEvent::Done),
        Ok(TurnAction::Proceed)
    ));
    assert!(matches!(
        step(&mut turn, TurnEvent::Done),
        Ok(TurnAction::Perform(Effect::SetClipboard(_)))
    ));
    for _ in 0..4 {
        assert!(matches!(
            step(&mut turn, TurnEvent::Done),
            Ok(TurnAction::Proceed)
        ));
    }
    assert!(matches!(step(&mut turn, TurnEvent::Done), Ok(TurnAction::Reload)));
    assert!(matches!(
        step(&mut turn, TurnEvent::Done),
        Ok(TurnAction::Decode(showing)) if showing.size == (400, 300)
    ));
    assert!(matches!(
        step(&mut turn, TurnEvent::Decoded(true)),
        Ok(TurnAction::Show { text, height: 250, length: 480_000 }) if text == "5us"
    ));
    assert!(matches!(
        step(&mut turn, TurnEvent::Done),
        Ok(TurnAction::Measure)
    ));
    assert!(matches!(
        step(&mut turn, TurnEvent::Measured(800, 600)),
        Ok(TurnAction::Update)
    ));
    assert_eq!(turn.state.areas[&3].position, (20, 40));
    assert!(matches!(
        step(&mut turn, TurnEvent::Done),
        Ok(TurnAction::PollEvents)
    ));
    assert!(turn.state.areas.is_empty());
}

#[test]
fn a_turn_without_an_image_only_updates_the_windows() {
    let mut turn = turn(false, false, false);
    to_handling(&mut turn, vec![]);
    assert!(matches!(
        step(&mut turn, TurnEvent::Done),
        Ok(TurnAction::Measure)
    ));
    assert!(matches!(
        step(&mut turn, TurnEvent::Measured(1, 1)),
        Ok(TurnAction::Update)
    ));
}

#[test]
fn an_image_that_is_not_decoded_is_not_shown() {
    let mut turn = turn(false, false, false);
    to_handling(&mut turn, vec![image(800, 600)]);
    step(&mut turn, TurnEvent::Done).unwrap();
    assert!(matches!(
        step(&mut turn, TurnEvent::Done),
        Ok(TurnAction::Decode(_))
    ));
    assert!(matches!(
        step(&mut turn, TurnEvent::Decoded(false)),
        Ok(TurnAction::Measure)
    ));
}

#[test]
fn reports_without_negotiation_are_refused_before_any_message() {
    let mut turn = turn(false, false, false);
    to_receiving(&mut turn);
    let packet = received(vec![image(9, 9)], vec![vec![0; 64]]);
    assert_eq!(
        step(&mut turn, packet).err(),
        stop(ClientError::FidoNotNegotiated, false)
    );
    assert_eq!(turn.state.image, None);
}

#[test]
fn raw_images_are_read_from_where_they_are() {
    let mut shared = turn(false, true, false);
    to_handling(&mut shared, vec![raw()]);
    assert!(matches!(
        step(&mut shared, TurnEvent::Done),
        Ok(TurnAction::Perform(Effect::ReadShared {
            length: 1_920_000,
            ..
        }))
    ));
    assert!(matches!(
        step(&mut shared, TurnEvent::SharedRead(vec![4])),
        Ok(TurnAction::Proceed)
    ));
    assert!(matches!(
        step(&mut shared, TurnEvent::Done),
        Ok(TurnAction::Decode(showing))
            if showing.data == [4] && showing.bytes_per_line == Some(3200)
    ));

    let mut dumped = turn(false, true, true);
    to_handling(&mut dumped, vec![raw()]);
    step(&mut dumped, TurnEvent::Done).unwrap();
    let read = TurnEvent::XwdRead {
        data: vec![],
        bytes_per_line: 16001,
    };
    assert_eq!(
        step(&mut dumped, read).err(),
        stop(ClientError::BytesPerLine, false)
    );
}

#[test]
fn only_what_a_message_asks_for_may_fail() {
    let mut performed = turn(false, false, false);
    to_handling(&mut performed, vec![clipboard()]);
    step(&mut performed, TurnEvent::Done).unwrap();
    assert!(matches!(
        step(&mut performed, TurnEvent::Failed),
        Ok(TurnAction::Proceed)
    ));
    let failure = |steps: Vec<Event>, fido, xwd| {
        let mut turn = turn(fido, xwd, xwd);
        turn.begin().unwrap();
        for event in steps {
            step(&mut turn, event).unwrap();
        }
        step(&mut turn, TurnEvent::Failed).err()
    };
    let done = || TurnEvent::Done;
    let polled = nothing_polled;
    assert_eq!(
        failure(vec![], false, false),
        stop(ClientError::Display, false)
    );
    assert_eq!(
        failure(vec![polled()], true, false),
        stop(ClientError::Fido, false)
    );
    assert_eq!(
        failure(vec![polled()], false, false),
        stop(ClientError::Exchange, false)
    );
    let raw_image = vec![polled(), done(), received(vec![raw()], vec![]), done()];
    assert_eq!(
        failure(raw_image, false, true),
        stop(ClientError::ImageSource, false)
    );
    let other_size = received(vec![image(2, 2)], vec![]);
    assert_eq!(
        failure(vec![polled(), done(), other_size, done(), done()], false, false),
        stop(ClientError::Codec, false)
    );
    let mut unasked = turn(false, false, false);
    assert_eq!(
        step(&mut unasked, TurnEvent::Done).err(),
        stop(ClientError::UnexpectedEvent, false)
    );
}
