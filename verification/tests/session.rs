use sanzu::broker::FidoDevice;
use sanzu::error::ClientError;
use sanzu::interface::Stop;
use sanzu::numbers::{push_decimal, read_decimal};
use sanzu::session::{
    Arguments, ClientHello, ClientSession, Connection, ServerHello, ServerScreen, SetupAction,
    SetupEvent, SetupStage, Zoom,
};

fn arguments() -> Arguments {
    Arguments {
        zoom: Zoom::One,
        audio: false,
        proxycommand: None,
        vsock: false,
        server_addr: "server".to_owned(),
        server_port: 1122,
        extern_img_source: None,
        tls_server_name: None,
        server_cname: None,
        login: false,
        decoder: None,
        fido: false,
        fido_device: None,
    }
}

fn session(arguments: Arguments) -> ClientSession {
    ClientSession::new(arguments, "v1".to_owned())
}

fn hello(fido: bool, screen: ServerScreen) -> SetupEvent {
    SetupEvent::Hello(ServerHello {
        codec_name: "libx264".to_owned(),
        fido,
        screen,
    })
}

const ADAPT: ServerScreen = ServerScreen::Adapt { seamless: true };

/// Goes on to the server's greeting.
fn to_hello(session: &mut ClientSession) {
    session.begin().unwrap();
    session.step(SetupEvent::Done).unwrap();
    session.step(SetupEvent::Done).unwrap();
    assert!(matches!(
        session.step(SetupEvent::Version("v1".to_owned())),
        Ok(SetupAction::ReceiveHello)
    ));
}

fn stop(error: ClientError, notify: bool) -> Option<Stop> {
    Some(Stop { error, notify })
}

#[test]
fn a_plain_session_is_set_up() {
    let mut session = session(arguments());
    assert!(matches!(
        session.begin(),
        Ok(SetupAction::Connect(Connection::Tcp(destination))) if destination == "server:1122"
    ));
    assert!(matches!(
        session.step(SetupEvent::Done),
        Ok(SetupAction::Secure { server_name, tls: false }) if server_name == "no_server_name"
    ));
    assert!(matches!(
        session.step(SetupEvent::Done),
        Ok(SetupAction::ExchangeVersions)
    ));
    assert!(matches!(
        session.step(SetupEvent::Version("v1".to_owned())),
        Ok(SetupAction::ReceiveHello)
    ));
    assert!(matches!(
        session.step(hello(true, ADAPT)),
        Ok(SetupAction::OpenDisplay {
            seamless: true,
            server_size: None
        })
    ));
    assert!(matches!(
        session.step(SetupEvent::DisplayOpened(1921, 1)),
        Ok(SetupAction::SendHello(ClientHello::Resolution {
            audio: None,
            fido: None,
            width: 1920,
            height: 2
        }))
    ));
    assert_eq!(session.size, (1920, 2));
    assert!(matches!(
        session.step(SetupEvent::Done),
        Ok(SetupAction::OpenCodec(name)) if name == "libx264"
    ));
    assert!(matches!(
        session.step(SetupEvent::Done),
        Ok(SetupAction::Run)
    ));
    assert_eq!(session.stage, SetupStage::Running);
}

#[test]
fn everything_that_is_asked_for_is_set_up() {
    let mut session = session(Arguments {
        audio: true,
        proxycommand: Some("nc server 1".to_owned()),
        extern_img_source: Some("/dev/shm/x".to_owned()),
        tls_server_name: Some("localhost".to_owned()),
        server_cname: Some("host@REALM".to_owned()),
        login: true,
        decoder: Some("h264_qsv".to_owned()),
        fido: true,
        fido_device: Some("yubikey".to_owned()),
        ..arguments()
    });
    assert!(matches!(session.begin(), Ok(SetupAction::OpenSound)));
    assert!(matches!(
        session.step(SetupEvent::SoundOpened(48000)),
        Ok(SetupAction::Connect(Connection::Proxy(command))) if command == "nc server 1"
    ));
    assert!(matches!(
        session.step(SetupEvent::Done),
        Ok(SetupAction::MapImages(path)) if path == "/dev/shm/x"
    ));
    assert!(matches!(
        session.step(SetupEvent::Done),
        Ok(SetupAction::Secure { server_name, tls: true }) if server_name == "localhost"
    ));
    session.step(SetupEvent::Done).unwrap();
    assert!(matches!(
        session.step(SetupEvent::Version("v1".to_owned())),
        Ok(SetupAction::Kerberos(cname)) if cname == "host@REALM"
    ));
    assert!(matches!(
        session.step(SetupEvent::Done),
        Ok(SetupAction::Login { clear_text: false })
    ));
    assert!(matches!(
        session.step(SetupEvent::Done),
        Ok(SetupAction::ReceiveHello)
    ));
    let screen = ServerScreen::Fullscreen {
        width: 0x1_0320,
        height: 600,
    };
    assert!(matches!(
        session.step(hello(true, screen)),
        Ok(SetupAction::OpenFido(Some(selector))) if selector == "yubikey"
    ));
    let device = FidoDevice {
        vendor_id: 1,
        product_id: 2,
        product_name: "key".to_owned(),
    };
    assert!(matches!(
        session.step(SetupEvent::FidoOpened(device.clone())),
        Ok(SetupAction::OpenDisplay {
            seamless: false,
            server_size: Some((800, 600))
        })
    ));
    let Ok(SetupAction::SendHello(greeting)) = session.step(SetupEvent::DisplayOpened(5, 5))
    else {
        panic!("the greeting should be sent");
    };
    assert_eq!(
        greeting,
        ClientHello::Fullscreen {
            audio: Some(48000),
            fido: Some(device)
        }
    );
    assert_eq!(session.size, (800, 600));
    assert!(matches!(
        session.step(SetupEvent::Done),
        Ok(SetupAction::OpenCodec(name)) if name == "h264_qsv"
    ));
    assert!(matches!(
        session.step(SetupEvent::Done),
        Ok(SetupAction::StartSound)
    ));
    assert!(matches!(
        session.step(SetupEvent::Done),
        Ok(SetupAction::Run)
    ));
}

#[test]
fn fido_has_to_be_enabled_on_both_ends() {
    let wanting = || {
        let mut session = session(Arguments {
            fido: true,
            ..arguments()
        });
        to_hello(&mut session);
        session
    };
    assert_eq!(
        wanting().step(hello(false, ADAPT)).err(),
        stop(ClientError::FidoNotAllowed, false)
    );
    let mut open = wanting();
    assert!(matches!(
        open.step(hello(true, ADAPT)),
        Ok(SetupAction::OpenFido(None))
    ));
    assert_eq!(
        open.step(SetupEvent::Failed).err(),
        stop(ClientError::Fido, true)
    );
    let mut plain = session(arguments());
    to_hello(&mut plain);
    assert!(matches!(
        plain.step(hello(true, ADAPT)),
        Ok(SetupAction::OpenDisplay { .. })
    ));
}

#[test]
fn zoom_needs_a_server_that_adapts() {
    let mut session = session(Arguments {
        zoom: Zoom::More,
        ..arguments()
    });
    to_hello(&mut session);
    let screen = ServerScreen::Fullscreen {
        width: 800,
        height: 600,
    };
    assert_eq!(
        session.step(hello(false, screen)).err(),
        stop(ClientError::ZoomNeedsAdaptiveServer, false)
    );
}

#[test]
fn invalid_zoom_versions_and_names_end_the_session() {
    let mut zoomed = session(Arguments {
        zoom: Zoom::Invalid,
        audio: true,
        ..arguments()
    });
    assert_eq!(zoomed.begin().err(), stop(ClientError::Zoom, false));
    let mut versioned = session(arguments());
    versioned.begin().unwrap();
    versioned.step(SetupEvent::Done).unwrap();
    versioned.step(SetupEvent::Done).unwrap();
    assert_eq!(
        versioned.step(SetupEvent::Version("v2".to_owned())).err(),
        stop(ClientError::VersionMismatch, false)
    );
    let mut named = session(Arguments {
        tls_server_name: Some("not a name".to_owned()),
        ..arguments()
    });
    named.begin().unwrap();
    assert_eq!(
        named.step(SetupEvent::Done).err(),
        stop(ClientError::ServerName, false)
    );
}

#[test]
fn failures_end_the_session_stage_by_stage() {
    let failing = |stage: SetupStage| {
        let mut session = session(arguments());
        session.stage = stage;
        session.step(SetupEvent::Failed).err()
    };
    for (stage, error, notify) in [
        (SetupStage::Sound, ClientError::Sound, false),
        (SetupStage::Connecting, ClientError::Connection, false),
        (SetupStage::MappingImages, ClientError::ImageSource, false),
        (SetupStage::Securing, ClientError::Tls, false),
        (SetupStage::Versions, ClientError::Exchange, false),
        (SetupStage::Kerberos, ClientError::Kerberos, true),
        (SetupStage::Login, ClientError::Exchange, false),
        (SetupStage::Hello, ClientError::Exchange, false),
        (SetupStage::Fido, ClientError::Fido, true),
        (SetupStage::Display, ClientError::Display, true),
        (SetupStage::Greeting, ClientError::Exchange, false),
        (SetupStage::Codec, ClientError::Codec, true),
        (SetupStage::StartingSound, ClientError::Sound, true),
        (SetupStage::Running, ClientError::UnexpectedEvent, false),
    ] {
        assert_eq!(failing(stage), stop(error, notify));
    }
    let mut early = session(arguments());
    assert_eq!(
        early.step(SetupEvent::Done).err(),
        stop(ClientError::UnexpectedEvent, false)
    );
}

#[test]
fn vsock_addresses_are_numbers() {
    let vsock = |address: &str| Arguments {
        vsock: true,
        server_addr: address.to_owned(),
        ..arguments()
    };
    assert!(vsock("3").connectable());
    assert_eq!(vsock("3").connection(), Connection::Vsock(3, 1122));
    assert!(!vsock("server").connectable());
    assert!(arguments().connectable());
    let proxied = Arguments {
        proxycommand: Some("cat".to_owned()),
        ..vsock("server")
    };
    assert!(proxied.connectable());
    assert_eq!(proxied.connection(), Connection::Proxy("cat".to_owned()));
}

#[test]
fn decimal_numbers_are_read_and_written() {
    assert_eq!(read_decimal("4294967295"), Some(u32::MAX));
    assert_eq!(read_decimal("4294967296"), None);
    assert_eq!(read_decimal("+007"), Some(7));
    for text in ["", "+", "-1", "1 ", "0x1", "１"] {
        assert_eq!(read_decimal(text), None);
    }
    let mut text = "n".to_owned();
    push_decimal(&mut text, 0);
    push_decimal(&mut text, 65535);
    assert_eq!(text, "n065535");
}

#[test]
fn tls_takes_the_given_name_where_it_is_accepted() {
    assert_eq!(arguments().tls_name(), "no_server_name");
    let named = || Arguments {
        tls_server_name: Some("example.org".to_owned()),
        ..arguments()
    };
    assert_eq!(named().tls_name(), "example.org");
    match session(named()).secure_accepted(true) {
        Ok(SetupAction::Secure { server_name, tls }) => {
            assert_eq!(server_name, "example.org");
            assert!(tls);
        }
        _ => panic!("TLS should be set up"),
    }
    assert_eq!(
        session(named()).secure_accepted(false).err().map(|stop| stop.error),
        Some(ClientError::ServerName)
    );
}

#[test]
fn a_bad_zoom_is_refused_before_the_address_is_looked_at() {
    let mut session = session(Arguments {
        zoom: Zoom::Invalid,
        vsock: true,
        ..arguments()
    });
    assert_eq!(session.begin().err(), stop(ClientError::Zoom, false));
}

#[test]
fn a_selector_alone_does_not_enable_forwarding() {
    for allowed in [false, true] {
        let mut session = session(Arguments {
            fido_device: Some("yubikey".to_owned()),
            ..arguments()
        });
        to_hello(&mut session);
        assert!(matches!(
            session.step(hello(allowed, ADAPT)),
            Ok(SetupAction::OpenDisplay { .. })
        ));
        assert!(matches!(
            session.step(SetupEvent::DisplayOpened(8, 6)),
            Ok(SetupAction::SendHello(ClientHello::Resolution { fido: None, .. }))
        ));
    }
}
