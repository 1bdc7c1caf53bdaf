//! What the steps of the set-up of a session come to, on the arguments and on what came of
//! the outside work.

use vstd::prelude::*;

use crate::broker::FidoDevice;
use crate::error::ClientError;
use crate::geometry::even_dimension;
use crate::interface::{password_step, shown_step, user_step, PamStep, Stop};
use crate::numbers::{
    cut_numbers_lose_whole_multiples, decimal_number, decimal_text, decimals_read_back,
};
use crate::session::{
    begun, connectable, is_server_name, link_of, not_begun, secured, stepped, tls_name, Arguments,
    ClientHello, ClientSession, Connection, Greeting, Link, ServerHello, ServerScreen,
    SetupAct, SetupAction, SetupEvent, SetupStage, Zoom,
};

verus! {

/// Whatever greeting is sent, in either form, its sample rate is the one of the sound device
/// that was opened in this session, if one was, and its authenticator is the one that was
/// opened, absent only if none was.
pub proof fn greetings_tell_what_was_opened(session: ClientSession, event: SetupEvent)
    ensures
        stepped(session, event).1 matches Ok(SetupAct::SendHello(greeting)) ==> {
            let (audio, fido) = match greeting {
                Greeting::Fullscreen { audio, fido } => (audio, fido),
                Greeting::Resolution { audio, fido, .. } => (audio, fido),
            };
            &&& audio == session.audio
            &&& match session.fido {
                Some(device) => fido matches Some(told) && told.vendor_id == device.vendor_id
                    && told.product_id == device.product_id && told.product_name
                    == device.product_name@,
                None => fido is None,
            }
        },
{
}

/// An authenticator that is opened is the one that the greeting tells of.
pub proof fn opened_authenticators_are_announced(
    session: ClientSession,
    device: FidoDevice,
    across: u32,
    down: u32,
)
    requires
        session.stage == SetupStage::Fido,
    ensures
        ({
            let (opened, first) = stepped(session, SetupEvent::FidoOpened(device));
            let (_, second) = stepped(opened, SetupEvent::DisplayOpened(across, down));
            &&& first is Ok
            &&& second matches Ok(SetupAct::SendHello(greeting))
            &&& match greeting {
                Greeting::Fullscreen { fido, .. } => fido == Some(device@),
                Greeting::Resolution { fido, .. } => fido == Some(device@),
            }
        }),
{
}

/// The authenticator and the sample rate of a session change only where a device is opened,
/// and then to what was opened. The arguments and the version never change, the codec and the
/// way in which the server shows its desktop change with its greeting alone, and the size
/// with the display alone.
pub proof fn only_openings_change_the_session(session: ClientSession, event: SetupEvent)
    ensures
        ({
            let after = stepped(session, event).0;
            &&& after.arguments == session.arguments
            &&& after.version == session.version
            &&& after.fido == match (session.stage, event) {
                (SetupStage::Fido, SetupEvent::FidoOpened(device)) => Some(device),
                _ => session.fido,
            }
            &&& after.audio == match (session.stage, event) {
                (SetupStage::Sound, SetupEvent::SoundOpened(rate)) => Some(rate),
                _ => session.audio,
            }
            &&& session.stage != SetupStage::Hello ==> after.codec_name == session.codec_name
                && after.seamless == session.seamless && after.server_size == session.server_size
            &&& session.stage != SetupStage::Display ==> after.size == session.size
            &&& begun(session).0.fido == session.fido
            &&& begun(session).0.audio == session.audio
        }),
{
}

/// A connection goes through the command where one is given; else to the number of the vsock
/// address, where vsock is wanted, and else to the address and the port in decimal with a
/// colon between them. Only a vsock address that is no number rules a connection out.
pub proof fn connections_follow_the_arguments(arguments: Arguments)
    ensures
        arguments.proxycommand matches Some(command) ==> link_of(arguments) == Link::Proxy(
            command@,
        ) && connectable(arguments),
        arguments.proxycommand is None && arguments.vsock ==> {
            &&& connectable(arguments) <==> decimal_number(arguments.server_addr@) is Some
            &&& connectable(arguments) ==> (link_of(arguments) matches Link::Vsock(address, port)
                && decimal_number(arguments.server_addr@) == Some(address) && port
                == arguments.server_port)
        },
        arguments.proxycommand is None && !arguments.vsock ==> {
            &&& connectable(arguments)
            &&& link_of(arguments) matches Link::Tcp(destination)
            &&& destination == arguments.server_addr@ + seq![':'] + destination.skip(
                arguments.server_addr@.len() as int + 1,
            )
            &&& decimal_number(destination.skip(arguments.server_addr@.len() as int + 1)) == Some(
                arguments.server_port as u32,
            )
        },
{
    reveal_strlit(":");
    assert(":"@ =~= seq![':']);
    let port = decimal_text(arguments.server_port as nat);
    let destination = arguments.server_addr@ + ":"@ + port;
    assert(destination.skip(arguments.server_addr@.len() as int + 1) =~= port);
    assert(destination =~= arguments.server_addr@ + seq![':'] + port);
    decimals_read_back(arguments.server_port as nat);
}

/// A set-up begins with a zoom that is finite and at least one, or not at all. Sound is opened
/// first where it is wanted; else the server is connected to, as it is once sound is open.
pub proof fn sound_comes_before_the_connection(session: ClientSession, rate: u32)
    ensures
        begun(session).1 matches Err(stop) ==> stop.error == ClientError::Zoom && !stop.notify,
        begun(session).1 is Err <==> session.arguments.zoom == Zoom::Invalid,
        session.arguments.zoom != Zoom::Invalid && session.arguments.audio ==> begun(session).1
            == Ok::<_, Stop>(SetupAct::OpenSound) && begun(session).0.stage == SetupStage::Sound,
        session.arguments.zoom != Zoom::Invalid && !session.arguments.audio ==> begun(session).1
            == Ok::<_, Stop>(SetupAct::Connect(link_of(session.arguments))) && begun(
            session,
        ).0.stage == SetupStage::Connecting,
        session.stage == SetupStage::Sound ==> stepped(session, SetupEvent::SoundOpened(rate)).1
            == Ok::<_, Stop>(SetupAct::Connect(link_of(session.arguments))) && stepped(
            session,
            SetupEvent::SoundOpened(rate),
        ).0.stage == SetupStage::Connecting,
{
}

/// Once connected, shared memory is mapped where its path is given. TLS is then set up under
/// the name that was given, and used; without a name it is set up under another and not used.
/// A name that is neither a host name nor an address ends the session.
pub proof fn tls_is_used_where_a_name_is_given(session: ClientSession, accepted: bool)
    requires
        session.stage == SetupStage::Connecting || session.stage == SetupStage::MappingImages,
    ensures
        ({
            let (after, result) = stepped(session, SetupEvent::Done);
            let mapping = session.stage == SetupStage::Connecting
                && session.arguments.extern_img_source is Some;
            &&& mapping ==> result == Ok::<_, Stop>(
                SetupAct::MapImages(session.arguments.extern_img_source->0@),
            ) && after.stage == SetupStage::MappingImages
            &&& !mapping ==> match session.arguments.tls_server_name {
                Some(name) => if is_server_name(name@) {
                    result == Ok::<_, Stop>(
                        SetupAct::Secure { server_name: name@, tls: true },
                    ) && after.stage == SetupStage::Securing
                } else {
                    result == Err::<SetupAct, _>(
                        Stop { error: ClientError::ServerName, notify: false },
                    )
                },
                None => result matches Ok(SetupAct::Secure { tls, .. }) ==> !tls && after.stage
                    == SetupStage::Securing,
            }
        }),
        secured(session, accepted).1 is Ok <==> accepted,
        secured(session, accepted).1 matches Ok(act) ==> (act matches SetupAct::Secure {
            server_name,
            tls,
        } && tls == (session.arguments.tls_server_name is Some) && (tls ==> server_name
            == session.arguments.tls_server_name->0@) && (!tls ==> server_name
            == "no_server_name"@)),
        secured(session, accepted).1 matches Err(stop) ==> stop.error == ClientError::ServerName
            && !stop.notify,
        session.arguments.tls_server_name matches Some(name) ==> tls_name(session.arguments)
            == name@,
        session.arguments.tls_server_name is None ==> tls_name(session.arguments)
            == "no_server_name"@,
{
}

/// Once TLS is settled the versions are exchanged. The session goes on only where the
/// server's is the client's own: with Kerberos where a name is given for it, then with the
/// login conversation where it is wanted, in clear text exactly where TLS is not used, and
/// then with the server's greeting.
pub proof fn versions_come_before_authentication(session: ClientSession, version: String)
    ensures
        session.stage == SetupStage::Securing ==> stepped(session, SetupEvent::Done).1 == Ok::<
            _,
            Stop,
        >(SetupAct::ExchangeVersions) && stepped(session, SetupEvent::Done).0.stage
            == SetupStage::Versions,
        session.stage == SetupStage::Versions ==> {
            let (after, result) = stepped(session, SetupEvent::Version(version));
            &&& version@ != session.version@ <==> result is Err
            &&& result matches Err(stop) ==> stop.error == ClientError::VersionMismatch
                && !stop.notify
            &&& version@ == session.version@ ==> match session.arguments.server_cname {
                Some(cname) => result == Ok::<_, Stop>(SetupAct::Kerberos(cname@)) && after.stage
                    == SetupStage::Kerberos,
                None => result matches Ok(act) && logs_in(session, act, after.stage),
            }
        },
        session.stage == SetupStage::Kerberos ==> (stepped(session, SetupEvent::Done).1 matches Ok(
            act,
        ) && logs_in(session, act, stepped(session, SetupEvent::Done).0.stage)),
        session.stage == SetupStage::Login ==> stepped(session, SetupEvent::Done).1 == Ok::<
            _,
            Stop,
        >(SetupAct::ReceiveHello) && stepped(session, SetupEvent::Done).0.stage
            == SetupStage::Hello,
{
}

/// The login conversation is held where it is wanted, in clear text without TLS; else the
/// server's greeting is received.
pub open spec fn logs_in(session: ClientSession, act: SetupAct, stage: SetupStage) -> bool {
    if session.arguments.login {
        &&& act matches SetupAct::Login { clear_text }
        &&& clear_text <==> session.arguments.tls_server_name is None
        &&& stage == SetupStage::Login
    } else {
        act is ReceiveHello && stage == SetupStage::Hello
    }
}

/// The server's greeting settles the codec, which is the user's own choice where there is
/// one, and how the desktop is shown: seamless where the server adapts and says so, and in
/// the server's own size, cut to 16 bits, where it does not adapt. A zoom then ends the
/// session. Forwarding that is wanted ends it where the server does not allow it, and opens
/// the chosen authenticator where it does; else the display is opened.
pub proof fn server_greetings_are_followed(session: ClientSession, hello: ServerHello)
    requires
        session.stage == SetupStage::Hello,
    ensures
        ({
            let (after, result) = stepped(session, SetupEvent::Hello(hello));
            let keeps_size = hello.screen is Fullscreen;
            let zoomed = session.arguments.zoom != Zoom::One;
            &&& session.arguments.decoder matches Some(decoder) ==> after.codec_name == decoder
            &&& session.arguments.decoder is None ==> after.codec_name == hello.codec_name
            &&& match hello.screen {
                ServerScreen::Adapt { seamless } => after.seamless == seamless && after.server_size
                    is None,
                ServerScreen::Fullscreen { width, height } => {
                    &&& !after.seamless
                    &&& after.server_size matches Some(size)
                    &&& (width - size.0) % 0x1_0000 == 0
                    &&& (height - size.1) % 0x1_0000 == 0
                },
            }
            &&& keeps_size && zoomed ==> result == Err::<SetupAct, _>(
                Stop { error: ClientError::ZoomNeedsAdaptiveServer, notify: false },
            )
            &&& !(keeps_size && zoomed) && session.arguments.fido && !hello.fido ==> result
                == Err::<SetupAct, _>(Stop { error: ClientError::FidoNotAllowed, notify: false })
            &&& !(keeps_size && zoomed) && session.arguments.fido && hello.fido ==> {
                &&& after.stage == SetupStage::Fido
                &&& result matches Ok(SetupAct::OpenFido(selector))
                &&& match session.arguments.fido_device {
                    Some(chosen) => selector == Some(chosen@),
                    None => selector is None,
                }
            }
            &&& !(keeps_size && zoomed) && !session.arguments.fido ==> {
                &&& after.stage == SetupStage::Display
                &&& result matches Ok(SetupAct::OpenDisplay { seamless, server_size })
                &&& seamless == after.seamless
                &&& server_size == after.server_size
            }
        }),
{
    if let ServerScreen::Fullscreen { width, height } = hello.screen {
        cut_numbers_lose_whole_multiples(width, 0);
        cut_numbers_lose_whole_multiples(height, 0);
    }
}

/// The display is opened as the server shows its desktop, also once an authenticator was
/// opened. The greeting then asks for the display's own dimensions, made even, the width
/// across and the height down, unless the server keeps its size, which becomes the session's.
pub proof fn displays_are_announced(
    session: ClientSession,
    device: FidoDevice,
    across: u32,
    down: u32,
)
    ensures
        session.stage == SetupStage::Fido ==> {
            let (after, result) = stepped(session, SetupEvent::FidoOpened(device));
            &&& after.stage == SetupStage::Display
            &&& result matches Ok(SetupAct::OpenDisplay { seamless, server_size })
            &&& seamless == session.seamless
            &&& server_size == session.server_size
        },
        session.stage == SetupStage::Display ==> {
            let (after, result) = stepped(session, SetupEvent::DisplayOpened(across, down));
            &&& after.stage == SetupStage::Greeting
            &&& result matches Ok(SetupAct::SendHello(greeting))
            &&& match (session.server_size, greeting) {
                (Some(size), Greeting::Fullscreen { .. }) => after.size == size,
                (None, Greeting::Resolution { width, height, .. }) => {
                    &&& across >= 2 ==> across - 1 <= width <= across
                    &&& down >= 2 ==> down - 1 <= height <= down
                    &&& across < 2 ==> width == 2
                    &&& down < 2 ==> height == 2
                    &&& width % 2 == 0 && height % 2 == 0
                    &&& (width - after.size.0) % 0x1_0000 == 0
                    &&& (height - after.size.1) % 0x1_0000 == 0
                },
                _ => false,
            }
        },
{
    cut_numbers_lose_whole_multiples(even_dimension(across), 0);
    cut_numbers_lose_whole_multiples(even_dimension(down), 0);
}

/// After the greeting the decoder is set up for the codec that was settled, then sound is
/// started where its device was opened, and then the session runs.
pub proof fn sessions_run_after_codec_and_sound(session: ClientSession)
    ensures
        ({
            let (after, result) = stepped(session, SetupEvent::Done);
            &&& session.stage == SetupStage::Greeting ==> result == Ok::<_, Stop>(
                SetupAct::OpenCodec(session.codec_name@),
            ) && after.stage == SetupStage::Codec
            &&& session.stage == SetupStage::Codec && session.audio is Some ==> result == Ok::<
                _,
                Stop,
            >(SetupAct::StartSound) && after.stage == SetupStage::StartingSound
            &&& session.stage == SetupStage::Codec && session.audio is None ==> result == Ok::<
                _,
                Stop,
            >(SetupAct::Run) && after.stage == SetupStage::Running
            &&& session.stage == SetupStage::StartingSound ==> result == Ok::<_, Stop>(
                SetupAct::Run,
            ) && after.stage == SetupStage::Running
        }),
{
}

/// What fails ends the session with its own error. The server is told of a failure of
/// Kerberos, of the authenticator, of the display, of the codec and of the start of sound,
/// and of no other.
pub proof fn failures_end_the_set_up(session: ClientSession)
    ensures
        stepped(session, SetupEvent::Failed).0 == session,
        stepped(session, SetupEvent::Failed).1 matches Err(stop) && {
            let stage = session.stage;
            &&& stop.notify <==> (stage == SetupStage::Kerberos || stage == SetupStage::Fido
                || stage == SetupStage::Display || stage == SetupStage::Codec || stage
                == SetupStage::StartingSound)
            &&& (stage == SetupStage::Sound || stage == SetupStage::StartingSound) <==> stop.error
                is Sound
            &&& stage == SetupStage::Connecting <==> stop.error is Connection
            &&& stage == SetupStage::MappingImages <==> stop.error is ImageSource
            &&& stage == SetupStage::Securing <==> stop.error is Tls
            &&& (stage == SetupStage::Versions || stage == SetupStage::Login || stage
                == SetupStage::Hello || stage == SetupStage::Greeting) <==> stop.error is Exchange
            &&& stage == SetupStage::Kerberos <==> stop.error is Kerberos
            &&& stage == SetupStage::Fido <==> stop.error is Fido
            &&& stage == SetupStage::Display <==> stop.error is Display
            &&& stage == SetupStage::Codec <==> stop.error is Codec
            &&& (stage == SetupStage::Beginning || stage == SetupStage::Running) <==> stop.error
                is UnexpectedEvent
        },
{
}

/// What each stage of the set-up asks for.
pub open spec fn asks_for(stage: SetupStage, event: SetupEvent) -> bool {
    match event {
        SetupEvent::Done => stage == SetupStage::Connecting || stage == SetupStage::MappingImages
            || stage == SetupStage::Securing || stage == SetupStage::Kerberos || stage
            == SetupStage::Login || stage == SetupStage::Greeting || stage == SetupStage::Codec
            || stage == SetupStage::StartingSound,
        SetupEvent::Failed => false,
        SetupEvent::SoundOpened(_) => stage == SetupStage::Sound,
        SetupEvent::Version(_) => stage == SetupStage::Versions,
        SetupEvent::Hello(_) => stage == SetupStage::Hello,
        SetupEvent::FidoOpened(_) => stage == SetupStage::Fido,
        SetupEvent::DisplayOpened(..) => stage == SetupStage::Display,
    }
}

/// What was not asked for ends the session, leaves it as it is, and tells the server nothing:
/// at each stage only what that stage asks for goes on.
pub proof fn only_what_was_asked_for_goes_on(session: ClientSession, event: SetupEvent)
    ensures
        stepped(session, event).1 is Ok ==> asks_for(session.stage, event),
        !asks_for(session.stage, event) && !(event is Failed) ==> stepped(session, event).1 == Err::<
            SetupAct,
            _,
        >(Stop { error: ClientError::UnexpectedEvent, notify: false }),
        stepped(session, event).1 matches Err(stop) ==> {
            &&& stop.error is UnexpectedEvent ==> stepped(session, event).0 == session
                && !stop.notify
            &&& stepped(session, event).0.stage == session.stage
        },
{
}

/// What a step asks for, as it is told, holds what it is made of.
pub proof fn steps_are_told_as_they_are(
    action: SetupAction,
    connection: Connection,
    hello: ClientHello,
)
    ensures
        match action {
            SetupAction::Connect(link) => action@ == SetupAct::Connect(link@),
            SetupAction::MapImages(path) => action@ == SetupAct::MapImages(path@),
            SetupAction::Secure { server_name, tls } => action@ == (SetupAct::Secure {
                server_name: server_name@,
                tls,
            }),
            SetupAction::Kerberos(name) => action@ == SetupAct::Kerberos(name@),
            SetupAction::Login { clear_text } => action@ == (SetupAct::Login { clear_text }),
            SetupAction::OpenFido(Some(selector)) => action@ == SetupAct::OpenFido(
                Some(selector@),
            ),
            SetupAction::OpenFido(None) => action@ == SetupAct::OpenFido(None),
            SetupAction::OpenDisplay { seamless, server_size } => action@ == (
            SetupAct::OpenDisplay { seamless, server_size }),
            SetupAction::SendHello(greeting) => action@ == SetupAct::SendHello(greeting@),
            SetupAction::OpenCodec(name) => action@ == SetupAct::OpenCodec(name@),
            SetupAction::OpenSound => action@ is OpenSound,
            SetupAction::ExchangeVersions => action@ is ExchangeVersions,
            SetupAction::ReceiveHello => action@ is ReceiveHello,
            SetupAction::StartSound => action@ is StartSound,
            SetupAction::Run => action@ is Run,
        },
        match connection {
            Connection::Vsock(address, port) => connection@ == Link::Vsock(address, port),
            Connection::Tcp(destination) => connection@ == Link::Tcp(destination@),
            Connection::Proxy(command) => connection@ == Link::Proxy(command@),
        },
        match hello {
            ClientHello::Fullscreen { audio, fido } => {
                &&& hello@ matches Greeting::Fullscreen { audio: rate, fido: told }
                &&& rate == audio
                &&& match fido {
                    Some(device) => told == Some(device@),
                    None => told is None,
                }
            },
            ClientHello::Resolution { audio, fido, width, height } => {
                &&& hello@ matches Greeting::Resolution {
                    audio: rate,
                    fido: told,
                    width: across,
                    height: down,
                }
                &&& rate == audio && across == width && down == height
                &&& match fido {
                    Some(device) => told == Some(device@),
                    None => told is None,
                }
            },
        },
{
}

/// The user's answers go to the server as what they answer: a line that may be seen as the
/// login, one that may not as the password. The server is told where the user could not be
/// asked, and not where something could not be shown.
pub proof fn answers_go_where_they_belong(
    answer: Result<String, ClientError>,
    shown: Result<(), ClientError>,
    next: PamStep,
)
    ensures
        match answer {
            Ok(line) => user_step(answer) == Ok::<_, Stop>(PamStep::User(line)) && password_step(
                answer,
            ) == Ok::<_, Stop>(PamStep::Password(line)),
            Err(error) => {
                &&& user_step(answer) matches Err(stop)
                &&& stop.notify && stop.error == error
                &&& password_step(answer) == user_step(answer)
            },
        },
        match shown {
            Ok(()) => shown_step(shown, next) == Ok::<_, Stop>(next),
            Err(error) => shown_step(shown, next) matches Err(stop) && !stop.notify && stop.error
                == error,
        },
{
}

/// A session starts at the beginning, with its arguments and its version, and with nothing
/// opened and nothing settled.
pub proof fn sessions_start_empty(session: ClientSession, arguments: Arguments, version: String)
    requires
        not_begun(session, arguments, version),
    ensures
        session.arguments == arguments,
        session.version@ == version@,
        session.stage == SetupStage::Beginning,
        session.audio is None && session.fido is None && session.server_size is None,
        session.codec_name@ =~= Seq::<char>::empty(),
        !session.seamless,
        session.size.0 == 0 && session.size.1 == 0,
{
}

} // verus!
