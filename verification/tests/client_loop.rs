use sanzu::client_loop::{
    collect_notification, AreaUpdate, ClientLoop, Effect, Icon, Image, Notification,
    NotificationPart, ServerMessage, Showing,
};
use sanzu::error::ClientError;
use sanzu::geometry::Limits;
use sanzu::interface::Stop;

fn state(sound: bool, shared_images: bool, source_is_xwd: bool) -> ClientLoop {
    let limits = Limits {
        window_width: 4000,
        window_height: 3000,
        cursor_width: 64,
        cursor_height: 64,
        bytes_per_line: 16000,
    };
    ClientLoop::new(limits, sound, false, shared_images, source_is_xwd, (800, 600))
}

fn stop(error: ClientError, notify: bool) -> Option<Stop> {
    Some(Stop { error, notify })
}

fn raw(width: u32, height: u32, bytes_per_line: u32) -> ServerMessage {
    ServerMessage::ImgRaw {
        data: vec![1, 2],
        width,
        height,
        bytes_per_line,
    }
}

fn encoded(width: u32, height: u32) -> ServerMessage {
    ServerMessage::ImgEncoded {
        data: vec![3],
        width,
        height,
    }
}

#[test]
fn the_last_image_of_a_turn_is_shown() {
    let mut state = state(false, false, false);
    state.begin_turn();
    assert!(state.take_image().is_none());
    assert!(matches!(state.handle(encoded(800, 600)), Ok(None)));
    assert_eq!(
        state.take_image(),
        Some(Showing {
            reload: false,
            data: vec![3],
            size: (800, 600),
            bytes_per_line: None
        })
    );
    assert!(matches!(state.handle(encoded(800, 600)), Ok(None)));
    assert!(matches!(state.handle(raw(1024, 768, 4096)), Ok(None)));
    assert_eq!(
        state.take_image(),
        Some(Showing {
            reload: true,
            data: vec![1, 2],
            size: (1024, 768),
            bytes_per_line: Some(4096)
        })
    );
    assert_eq!(state.size, (1024, 768));
    assert_eq!(state.shown_length(), 1024 * 768 * 4);
    assert!(matches!(state.handle(encoded(1, 1)), Ok(None)));
    state.begin_turn();
    assert!(state.take_image().is_none());
}

#[test]
fn oversized_images_end_the_session() {
    let mut state = state(false, false, false);
    assert_eq!(
        state.handle(encoded(4001, 1)).err(),
        stop(ClientError::ImageTooBig(4001, 1), true)
    );
    assert_eq!(
        state.handle(raw(1, 3001, 1)).err(),
        stop(ClientError::ImageTooBig(1, 3001), true)
    );
    assert_eq!(state.image, None);
    assert_eq!(
        state.handle(raw(1, 1, 16001)).err(),
        stop(ClientError::BytesPerLine, false)
    );
    assert_eq!(state.bytes_per_line, None);
}

#[test]
fn raw_images_come_from_where_they_are() {
    let mut shared = state(false, true, false);
    assert!(matches!(
        shared.handle(raw(100, 50, u32::MAX)),
        Ok(Some(Effect::ReadShared {
            length: 0x31_ffff_ffce,
            width: 100,
            height: 50,
            bytes_per_line: u32::MAX
        }))
    ));
    let mut dumped = state(false, true, true);
    assert!(matches!(
        dumped.handle(raw(100, 50, 400)),
        Ok(Some(Effect::ReadXwd {
            width: 100,
            height: 50
        }))
    ));
    assert_eq!(dumped.keep_raw(vec![9], 100, 50, 512), Ok(()));
    assert_eq!(dumped.bytes_per_line, Some(512));
    assert_eq!(
        dumped.image,
        Some(Image {
            data: vec![9],
            width: 100,
            height: 50
        })
    );
}

#[test]
fn sound_is_played_where_it_was_set_up() {
    let packets = vec![vec![1], vec![2]];
    assert!(matches!(
        state(false, false, false).handle(ServerMessage::SoundEncoded(packets.clone())),
        Ok(None)
    ));
    assert!(matches!(
        state(true, false, false).handle(ServerMessage::SoundEncoded(packets.clone())),
        Ok(Some(Effect::PlaySound(played))) if played == packets
    ));
}

#[test]
fn cursors_out_of_bounds_are_ignored() {
    let mut state = state(false, false, false);
    let mut cursor = |width, xhot| {
        state.handle(ServerMessage::Cursor {
            data: vec![7],
            width,
            height: 2,
            xhot,
            yhot: 1,
        })
    };
    assert!(matches!(cursor(65, 0), Ok(None)));
    assert!(matches!(
        cursor(64, 3),
        Ok(Some(Effect::SetCursor {
            data,
            size: (64, 2),
            hot: (3, 1)
        })) if data == [7]
    ));
}

fn update(id: u32, x: i32, width: u32) -> ServerMessage {
    ServerMessage::AreaUpdt(AreaUpdate {
        id,
        x,
        y: -1,
        width,
        height: 10,
        mapped: true,
        is_app: true,
        name: format!("w{id}"),
    })
}

#[test]
fn windows_are_replaced_cut_and_scaled() {
    let mut state = state(false, false, false);
    state.begin_turn();
    for message in [
        update(1, 5, 20),
        update(2, 0x1_8000, 0x1_0014),
        update(1, -40, 30),
    ] {
        assert!(matches!(state.handle(message), Ok(None)));
    }
    assert_eq!(state.areas.len(), 2);
    assert_eq!(state.areas[&2].id, 2);
    assert_eq!(state.areas[&2].position, (-32768, -1));
    assert_eq!(state.areas[&2].size, (20, 10));
    assert_eq!(state.areas[&1].name, "w1");
    assert_eq!(state.areas[&1].position, (-40, -1));
    state.scale_areas((1600, 1200));
    assert_eq!(state.areas.len(), 2);
    assert_eq!(state.areas[&1].position, (-80, -2));
    assert_eq!(state.areas[&1].size, (60, 20));
}

fn text(text: &str) -> String {
    text.to_owned()
}

#[test]
fn notifications_are_put_together() {
    let icon = |width, height, length| NotificationPart::Icon {
        width,
        height,
        data: vec![5; length],
    };
    let parts = vec![
        NotificationPart::Title(text("first")),
        NotificationPart::Message(text("one")),
        icon(1, 2, 8),
        NotificationPart::Other,
        NotificationPart::Message(text("")),
        NotificationPart::Title(text("last")),
        icon(1, 2, 9),
        icon(0x2000_0000, 0, 0),
        icon(0x8000_0000, 0x8000_0000, 0),
        icon(0x8000_0000, 0, 0),
        icon(0xdfff_ffff, 0, 0),
        NotificationPart::Message(text("two")),
    ];
    assert_eq!(
        collect_notification(parts),
        Notification {
            title: Some(text("last")),
            body: text("one\n\ntwo"),
            icon: Some(Icon {
                width: 1,
                height: 2,
                data: vec![5; 8]
            })
        }
    );
    let mut state = state(false, false, false);
    assert!(matches!(
        state.handle(ServerMessage::Notifications(vec![])),
        Ok(None)
    ));
    assert!(matches!(
        state.handle(ServerMessage::Notifications(vec![NotificationPart::Other])),
        Ok(Some(Effect::Notify(Notification { title: None, body, icon: None }))) if body.is_empty()
    ));
}

#[test]
fn the_rest_is_passed_on() {
    let mut state = state(false, false, false);
    assert!(matches!(
        state.handle(ServerMessage::Clipboard(text("copied"))),
        Ok(Some(Effect::SetClipboard(copied))) if copied == "copied"
    ));
    assert!(matches!(
        state.handle(ServerMessage::Printfile(text("/tmp/a.pdf"))),
        Ok(Some(Effect::PrintFile(path))) if path == "/tmp/a.pdf"
    ));
    assert!(matches!(
        state.handle(ServerMessage::Stats(text("12µs 3µ"))),
        Ok(None)
    ));
    assert_eq!(state.stats_text(), (text("12us 3u"), 550));
    assert!(matches!(state.handle(ServerMessage::Other), Ok(None)));
}

#[test]
fn fido_reports_have_to_be_negotiated() {
    let mut state = state(false, false, false);
    assert_eq!(state.check_fido_reports(&vec![]), Ok(()));
    assert_eq!(
        state.check_fido_reports(&vec![vec![0; 64]]).err(),
        stop(ClientError::FidoNotNegotiated, false)
    );
    state.fido = true;
    assert_eq!(state.check_fido_reports(&vec![vec![0; 64]]), Ok(()));
}

#[test]
fn rows_of_icons_are_bounded() {
    let icon = |width| {
        collect_notification(vec![NotificationPart::Icon {
            width,
            height: 0,
            data: vec![],
        }])
        .icon
        .map(|icon| icon.width)
    };
    assert_eq!(icon(0xe000_0000), Some(-0x2000_0000));
    assert_eq!(icon(0xdfff_ffff), None);
    assert_eq!(icon(0x8000_0000), None);
    assert_eq!(icon(0x0fff_ffff), Some(0x0fff_ffff));
    assert_eq!(icon(0x1000_0000), None);
}
