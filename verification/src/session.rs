//! The set-up of a client session, from the command line to the first frame.
//!
//! Sockets, devices and windows are opened from outside: [`ClientSession::begin`] and
//! [`ClientSession::step`] say what to do next, and [`ClientSession::step`] is told what
//! came of it.

use vstd::prelude::*;

use crate::broker::{Device, FidoDevice};
use crate::error::ClientError;
use crate::geometry::{even_dimension, to_even_dimension};
use crate::interface::Stop;
use crate::numbers::{
    decimal_number, decimal_text, low_half, push_decimal, read_decimal, to_low_half,
};
use crate::text::{same_text, text_of};

verus! {

/// What is known of the zoom.
#[derive(Clone, Copy, Debug, PartialEq, Eq, Structural)]
pub enum Zoom {
    /// Not finite, or below one.
    Invalid,
    /// Exactly one.
    One,
    /// Above one.
    More,
}

/// What the user asked for.
#[derive(Debug)]
pub struct Arguments {
    pub zoom: Zoom,
    pub audio: bool,
    pub proxycommand: Option<String>,
    pub vsock: bool,
    pub server_addr: String,
    pub server_port: u16,
    pub extern_img_source: Option<String>,
    pub tls_server_name: Option<String>,
    pub server_cname: Option<String>,
    pub login: bool,
    pub decoder: Option<String>,
    pub fido: bool,
    pub fido_device: Option<String>,
}

/// A connection to be made, as a mathematical value.
pub enum Link {
    Vsock(u32, u32),
    Tcp(Seq<char>),
    Proxy(Seq<char>),
}

/// A connection to be made.
#[derive(Debug, PartialEq)]
pub enum Connection {
    /// To a vsock address and port.
    Vsock(u32, u32),
    /// To a TCP destination.
    Tcp(String),
    /// Through a command.
    Proxy(String),
}

impl View for Connection {
    type V = Link;

    open spec fn view(&self) -> Link {
        match self {
            Connection::Vsock(address, port) => Link::Vsock(*address, *port),
            Connection::Tcp(destination) => Link::Tcp(destination@),
            Connection::Proxy(command) => Link::Proxy(command@),
        }
    }
}

/// A vsock connection without a proxy command needs a numeric address.
pub open spec fn connectable(arguments: Arguments) -> bool {
    arguments.proxycommand is None && arguments.vsock ==> decimal_number(arguments.server_addr@)
        is Some
}

/// The connection that the arguments ask for.
pub open spec fn link_of(arguments: Arguments) -> Link {
    match arguments.proxycommand {
        Some(command) => Link::Proxy(command@),
        None => if arguments.vsock {
            Link::Vsock(
                decimal_number(arguments.server_addr@)->0,
                arguments.server_port as u32,
            )
        } else {
            Link::Tcp(
                arguments.server_addr@ + ":"@ + decimal_text(arguments.server_port as nat),
            )
        },
    }
}

impl Arguments {
    /// Tells whether a connection can be made at all.
    pub fn connectable(&self) -> (possible: bool)
        ensures
            possible == connectable(*self),
    {
        if self.proxycommand.is_none() && self.vsock {
            read_decimal(self.server_addr.as_str()).is_some()
        } else {
            true
        }
    }

    /// The connection that the arguments ask for.
    pub fn connection(&self) -> (connection: Connection)
        requires
            connectable(*self),
        ensures
            connection@ == link_of(*self),
    {
        match &self.proxycommand {
            Some(command) => Connection::Proxy(command.clone()),
            None => {
                if self.vsock {
                    match read_decimal(self.server_addr.as_str()) {
                        Some(address) => {
                            return Connection::Vsock(address, self.server_port as u32);
                        },
                        None => {},
                    }
                }
                let mut destination = self.server_addr.clone();
                destination.append(":");
                push_decimal(&mut destination, self.server_port as u32);
                Connection::Tcp(destination)
            },
        }
    }

    /// The name that TLS is set up with.
    pub fn tls_name(&self) -> (name: String)
        ensures
            name@ == tls_name(*self),
    {
        match &self.tls_server_name {
            Some(name) => name.clone(),
            None => "no_server_name".to_owned(),
        }
    }

    /// FIDO forwarding is asked for. It has to be asked for explicitly: a selector alone
    /// says which authenticator to take, and does not ask for forwarding.
    pub open spec fn wants_fido(&self) -> bool {
        self.fido
    }
}

/// Whether `rustls::ServerName` takes a name.
pub uninterp spec fn is_server_name(name: Seq<char>) -> bool;

/// `rustls::ServerName::try_from`: whether the name is a host name or an address.
#[verifier::external_body]
fn accepts_server_name(name: &str) -> (accepted: bool)
    ensures
        accepted == is_server_name(name@),
{
    rustls::ServerName::try_from(name).is_ok()
}

/// The name that TLS is set up with, whether or not it is used.
pub open spec fn tls_name(arguments: Arguments) -> Seq<char> {
    match arguments.tls_server_name {
        Some(name) => name@,
        None => "no_server_name"@,
    }
}

/// How the server shows its desktop.
#[derive(Clone, Copy, Debug, PartialEq, Eq, Structural)]
pub enum ServerScreen {
    /// It adapts to the client.
    Adapt { seamless: bool },
    /// It keeps its own size.
    Fullscreen { width: u32, height: u32 },
}

/// What the server says of itself.
#[derive(Debug)]
pub struct ServerHello {
    pub codec_name: String,
    pub fido: bool,
    pub screen: ServerScreen,
}

/// What the client says of itself, as a mathematical value. `audio` is the sample rate,
/// where sound is wanted.
pub enum Greeting {
    Fullscreen { audio: Option<u32>, fido: Option<Device> },
    Resolution { audio: Option<u32>, fido: Option<Device>, width: u32, height: u32 },
}

/// What the client says of itself. `audio` is the sample rate, where sound is wanted.
#[derive(Debug, PartialEq)]
pub enum ClientHello {
    Fullscreen { audio: Option<u32>, fido: Option<FidoDevice> },
    Resolution { audio: Option<u32>, fido: Option<FidoDevice>, width: u32, height: u32 },
}

/// The device, if there is one.
pub open spec fn device_of(fido: Option<FidoDevice>) -> Option<Device> {
    match fido {
        Some(device) => Some(device@),
        None => None,
    }
}

impl View for ClientHello {
    type V = Greeting;

    open spec fn view(&self) -> Greeting {
        match self {
            ClientHello::Fullscreen { audio, fido } => Greeting::Fullscreen {
                audio: *audio,
                fido: device_of(*fido),
            },
            ClientHello::Resolution { audio, fido, width, height } => Greeting::Resolution {
                audio: *audio,
                fido: device_of(*fido),
                width: *width,
                height: *height,
            },
        }
    }
}

/// What to do next, as a mathematical value.
pub enum SetupAct {
    OpenSound,
    Connect(Link),
    MapImages(Seq<char>),
    Secure { server_name: Seq<char>, tls: bool },
    ExchangeVersions,
    Kerberos(Seq<char>),
    Login { clear_text: bool },
    ReceiveHello,
    OpenFido(Option<Seq<char>>),
    OpenDisplay { seamless: bool, server_size: Option<(u16, u16)> },
    SendHello(Greeting),
    OpenCodec(Seq<char>),
    StartSound,
    Run,
}

/// What to do next.
#[derive(Debug)]
pub enum SetupAction {
    /// Open the sound device, and tell its sample rate.
    OpenSound,
    /// Connect to the server.
    Connect(Connection),
    /// Map the shared memory with the images.
    MapImages(String),
    /// Set TLS up for the name, and use it if so told.
    Secure { server_name: String, tls: bool },
    /// Send the version, and tell the server's.
    ExchangeVersions,
    /// Authenticate with Kerberos.
    Kerberos(String),
    /// Hold the login conversation; without TLS the password is sent in clear text.
    Login { clear_text: bool },
    /// Receive the server's greeting, and tell it.
    ReceiveHello,
    /// Open the authenticator, and tell what it is.
    OpenFido(Option<String>),
    /// Open the display, and tell its size divided by the zoom.
    OpenDisplay { seamless: bool, server_size: Option<(u16, u16)> },
    /// Send the client's greeting.
    SendHello(ClientHello),
    /// Set the video decoder up.
    OpenCodec(String),
    /// Start the sound.
    StartSound,
    /// Nothing: the session is set up.
    Run,
}

impl View for SetupAction {
    type V = SetupAct;

    open spec fn view(&self) -> SetupAct {
        match self {
            SetupAction::OpenSound => SetupAct::OpenSound,
            SetupAction::Connect(connection) => SetupAct::Connect(connection@),
            SetupAction::MapImages(path) => SetupAct::MapImages(path@),
            SetupAction::Secure { server_name, tls } => SetupAct::Secure {
                server_name: server_name@,
                tls: *tls,
            },
            SetupAction::ExchangeVersions => SetupAct::ExchangeVersions,
            SetupAction::Kerberos(cname) => SetupAct::Kerberos(cname@),
            SetupAction::Login { clear_text } => SetupAct::Login { clear_text: *clear_text },
            SetupAction::ReceiveHello => SetupAct::ReceiveHello,
            SetupAction::OpenFido(selector) => SetupAct::OpenFido(text_of(*selector)),
            SetupAction::OpenDisplay { seamless, server_size } => SetupAct::OpenDisplay {
                seamless: *seamless,
                server_size: *server_size,
            },
            SetupAction::SendHello(hello) => SetupAct::SendHello(hello@),
            SetupAction::OpenCodec(name) => SetupAct::OpenCodec(name@),
            SetupAction::StartSound => SetupAct::StartSound,
            SetupAction::Run => SetupAct::Run,
        }
    }
}

/// What came of it.
#[derive(Debug)]
pub enum SetupEvent {
    /// It worked.
    Done,
    /// It failed.
    Failed,
    /// The sound device was opened, with this sample rate.
    SoundOpened(u32),
    /// The server's version.
    Version(String),
    /// The server's greeting.
    Hello(ServerHello),
    /// The authenticator was opened.
    FidoOpened(FidoDevice),
    /// The display was opened; its width and height divided by the zoom, rounded.
    DisplayOpened(u32, u32),
}

/// How far the set-up is.
#[derive(Clone, Copy, Debug, PartialEq, Eq, Structural)]
pub enum SetupStage {
    Beginning,
    Sound,
    Connecting,
    MappingImages,
    Securing,
    Versions,
    Kerberos,
    Login,
    Hello,
    Fido,
    Display,
    Greeting,
    Codec,
    StartingSound,
    Running,
}

/// A client session.
#[derive(Debug)]
pub struct ClientSession {
    pub arguments: Arguments,
    pub version: String,
    pub stage: SetupStage,
    pub audio: Option<u32>,
    pub codec_name: String,
    pub seamless: bool,
    pub server_size: Option<(u16, u16)>,
    pub fido: Option<FidoDevice>,
    pub size: (u16, u16),
}

/// The session ends with an error that the server is not told of.
pub open spec fn ended(session: ClientSession, error: ClientError) -> (
    ClientSession,
    Result<SetupAct, Stop>,
) {
    (session, Err(Stop { error, notify: false }))
}

/// The session goes on to a stage.
pub open spec fn proceeded(session: ClientSession, stage: SetupStage, act: SetupAct) -> (
    ClientSession,
    Result<SetupAct, Stop>,
) {
    (ClientSession { stage, ..session }, Ok(act))
}

/// The set-up begins: the zoom is checked, and sound comes first where it is wanted.
pub open spec fn begun(session: ClientSession) -> (ClientSession, Result<SetupAct, Stop>) {
    if session.arguments.zoom == Zoom::Invalid {
        ended(session, ClientError::Zoom)
    } else if session.arguments.audio {
        proceeded(session, SetupStage::Sound, SetupAct::OpenSound)
    } else {
        connecting(session)
    }
}

/// The server is connected to.
pub open spec fn connecting(session: ClientSession) -> (ClientSession, Result<SetupAct, Stop>) {
    proceeded(session, SetupStage::Connecting, SetupAct::Connect(link_of(session.arguments)))
}

/// Shared memory is mapped, where images come through it.
pub open spec fn mapping_images(session: ClientSession) -> (
    ClientSession,
    Result<SetupAct, Stop>,
) {
    match session.arguments.extern_img_source {
        Some(path) => proceeded(session, SetupStage::MappingImages, SetupAct::MapImages(path@)),
        None => securing(session),
    }
}

/// TLS is set up, and used where a server name was given.
pub open spec fn securing(session: ClientSession) -> (ClientSession, Result<SetupAct, Stop>) {
    secured(session, is_server_name(tls_name(session.arguments)))
}

/// TLS is set up where the server name is accepted.
pub open spec fn secured(session: ClientSession, accepted: bool) -> (
    ClientSession,
    Result<SetupAct, Stop>,
) {
    if !accepted {
        ended(session, ClientError::ServerName)
    } else {
        proceeded(
            session,
            SetupStage::Securing,
            SetupAct::Secure {
                server_name: tls_name(session.arguments),
                tls: session.arguments.tls_server_name is Some,
            },
        )
    }
}

/// Kerberos comes next, where it is wanted.
pub open spec fn authenticating(session: ClientSession) -> (
    ClientSession,
    Result<SetupAct, Stop>,
) {
    match session.arguments.server_cname {
        Some(cname) => proceeded(session, SetupStage::Kerberos, SetupAct::Kerberos(cname@)),
        None => logging_in(session),
    }
}

/// The login conversation comes next, where it is wanted.
pub open spec fn logging_in(session: ClientSession) -> (ClientSession, Result<SetupAct, Stop>) {
    if session.arguments.login {
        proceeded(
            session,
            SetupStage::Login,
            SetupAct::Login { clear_text: session.arguments.tls_server_name is None },
        )
    } else {
        proceeded(session, SetupStage::Hello, SetupAct::ReceiveHello)
    }
}

/// What the server's greeting settles: the codec, and how its desktop is shown. Sizes are
/// taken to 16 bits.
pub open spec fn greeted(session: ClientSession, hello: ServerHello) -> ClientSession {
    let codec_name = match session.arguments.decoder {
        Some(decoder) => decoder,
        None => hello.codec_name,
    };
    match hello.screen {
        ServerScreen::Adapt { seamless } => ClientSession {
            codec_name,
            seamless,
            server_size: None,
            ..session
        },
        ServerScreen::Fullscreen { width, height } => ClientSession {
            codec_name,
            seamless: false,
            server_size: Some((low_half(width), low_half(height))),
            ..session
        },
    }
}

/// The server's greeting is answered: zoom needs a server that adapts, and FIDO forwarding
/// a server that allows it.
pub open spec fn welcomed(session: ClientSession, hello: ServerHello) -> (
    ClientSession,
    Result<SetupAct, Stop>,
) {
    let next = greeted(session, hello);
    if next.server_size is Some && session.arguments.zoom != Zoom::One {
        ended(next, ClientError::ZoomNeedsAdaptiveServer)
    } else if session.arguments.wants_fido() && !hello.fido {
        ended(next, ClientError::FidoNotAllowed)
    } else if session.arguments.wants_fido() {
        proceeded(
            next,
            SetupStage::Fido,
            SetupAct::OpenFido(text_of(session.arguments.fido_device)),
        )
    } else {
        opening_display(next)
    }
}

/// The display is opened.
pub open spec fn opening_display(session: ClientSession) -> (
    ClientSession,
    Result<SetupAct, Stop>,
) {
    proceeded(
        session,
        SetupStage::Display,
        SetupAct::OpenDisplay { seamless: session.seamless, server_size: session.server_size },
    )
}

/// The client's greeting: the server's own size is taken over, or the server is asked for
/// even dimensions.
pub open spec fn greeting(session: ClientSession, across: u32, down: u32) -> (
    ClientSession,
    Result<SetupAct, Stop>,
) {
    let (width, height) = (even_dimension(across), even_dimension(down));
    match session.server_size {
        Some(size) => proceeded(
            ClientSession { size, ..session },
            SetupStage::Greeting,
            SetupAct::SendHello(
                Greeting::Fullscreen { audio: session.audio, fido: device_of(session.fido) },
            ),
        ),
        None => proceeded(
            ClientSession {
                size: (low_half(width), low_half(height)),
                ..session
            },
            SetupStage::Greeting,
            SetupAct::SendHello(
                Greeting::Resolution {
                    audio: session.audio,
                    fido: device_of(session.fido),
                    width,
                    height,
                },
            ),
        ),
    }
}

/// Sound is started, where it is wanted.
pub open spec fn starting_sound(session: ClientSession) -> (
    ClientSession,
    Result<SetupAct, Stop>,
) {
    if session.audio is Some {
        proceeded(session, SetupStage::StartingSound, SetupAct::StartSound)
    } else {
        proceeded(session, SetupStage::Running, SetupAct::Run)
    }
}

/// Why the session ends when a stage fails. The server is told of what fails after the
/// versions were exchanged and outside of the exchange with it.
pub open spec fn failure(stage: SetupStage) -> Option<Stop> {
    match stage {
        SetupStage::Sound => Some(Stop { error: ClientError::Sound, notify: false }),
        SetupStage::Connecting => Some(Stop { error: ClientError::Connection, notify: false }),
        SetupStage::MappingImages => Some(Stop { error: ClientError::ImageSource, notify: false }),
        SetupStage::Securing => Some(Stop { error: ClientError::Tls, notify: false }),
        SetupStage::Versions => Some(Stop { error: ClientError::Exchange, notify: false }),
        SetupStage::Kerberos => Some(Stop { error: ClientError::Kerberos, notify: true }),
        SetupStage::Login => Some(Stop { error: ClientError::Exchange, notify: false }),
        SetupStage::Hello => Some(Stop { error: ClientError::Exchange, notify: false }),
        SetupStage::Fido => Some(Stop { error: ClientError::Fido, notify: true }),
        SetupStage::Display => Some(Stop { error: ClientError::Display, notify: true }),
        SetupStage::Greeting => Some(Stop { error: ClientError::Exchange, notify: false }),
        SetupStage::Codec => Some(Stop { error: ClientError::Codec, notify: true }),
        SetupStage::StartingSound => Some(Stop { error: ClientError::Sound, notify: true }),
        SetupStage::Beginning => None,
        SetupStage::Running => None,
    }
}

/// Goes on with what came of the outside work.
pub open spec fn stepped(session: ClientSession, event: SetupEvent) -> (
    ClientSession,
    Result<SetupAct, Stop>,
) {
    match (session.stage, event) {
        (SetupStage::Sound, SetupEvent::SoundOpened(rate)) => connecting(
            ClientSession { audio: Some(rate), ..session },
        ),
        (SetupStage::Connecting, SetupEvent::Done) => mapping_images(session),
        (SetupStage::MappingImages, SetupEvent::Done) => securing(session),
        (SetupStage::Securing, SetupEvent::Done) => proceeded(
            session,
            SetupStage::Versions,
            SetupAct::ExchangeVersions,
        ),
        (SetupStage::Versions, SetupEvent::Version(version)) => if version@ != session.version@ {
            ended(session, ClientError::VersionMismatch)
        } else {
            authenticating(session)
        },
        (SetupStage::Kerberos, SetupEvent::Done) => logging_in(session),
        (SetupStage::Login, SetupEvent::Done) => proceeded(
            session,
            SetupStage::Hello,
            SetupAct::ReceiveHello,
        ),
        (SetupStage::Hello, SetupEvent::Hello(hello)) => welcomed(session, hello),
        (SetupStage::Fido, SetupEvent::FidoOpened(device)) => opening_display(
            ClientSession { fido: Some(device), ..session },
        ),
        (SetupStage::Display, SetupEvent::DisplayOpened(across, down)) => greeting(
            session,
            across,
            down,
        ),
        (SetupStage::Greeting, SetupEvent::Done) => proceeded(
            session,
            SetupStage::Codec,
            SetupAct::OpenCodec(session.codec_name@),
        ),
        (SetupStage::Codec, SetupEvent::Done) => starting_sound(session),
        (SetupStage::StartingSound, SetupEvent::Done) => proceeded(
            session,
            SetupStage::Running,
            SetupAct::Run,
        ),
        (stage, SetupEvent::Failed) => match failure(stage) {
            Some(stop) => (session, Err(stop)),
            None => ended(session, ClientError::UnexpectedEvent),
        },
        _ => ended(session, ClientError::UnexpectedEvent),
    }
}

/// What a step asks for.
pub open spec fn setup_act_of(result: Result<SetupAction, Stop>) -> Result<SetupAct, Stop> {
    match result {
        Ok(action) => Ok(action@),
        Err(stop) => Err(stop),
    }
}

fn stop(error: ClientError) -> (result: Result<SetupAction, Stop>)
    ensures
        setup_act_of(result) == Err::<SetupAct, _>(Stop { error, notify: false }),
{
    Err(Stop { error, notify: false })
}

/// A session for these arguments and this version, of which nothing is settled yet.
pub open spec fn not_begun(session: ClientSession, arguments: Arguments, version: String) -> bool {
    &&& session.arguments == arguments
    &&& session.version == version
    &&& session.stage == SetupStage::Beginning
    &&& session.audio is None
    &&& session.codec_name@.len() == 0
    &&& !session.seamless
    &&& session.server_size is None
    &&& session.fido is None
    &&& session.size == (0u16, 0u16)
}

impl ClientSession {
    /// A session that has not begun.
    pub fn new(arguments: Arguments, version: String) -> (session: Self)
        ensures
            not_begun(session, arguments, version),
            setup_wf(session),
    {
        ClientSession {
            arguments,
            version,
            stage: SetupStage::Beginning,
            audio: None,
            codec_name: String::new(),
            seamless: false,
            server_size: None,
            fido: None,
            size: (0, 0),
        }
    }

    fn connect(&mut self) -> (result: Result<SetupAction, Stop>)
        requires
            connectable(old(self).arguments),
        ensures
            (*final(self), setup_act_of(result)) == connecting(*old(self)),
    {
        self.stage = SetupStage::Connecting;
        Ok(SetupAction::Connect(self.arguments.connection()))
    }

    fn map_images(&mut self) -> (result: Result<SetupAction, Stop>)
        ensures
            (*final(self), setup_act_of(result)) == mapping_images(*old(self)),
    {
        match &self.arguments.extern_img_source {
            Some(path) => {
                let path = path.clone();
                self.stage = SetupStage::MappingImages;
                Ok(SetupAction::MapImages(path))
            },
            None => self.secure(),
        }
    }

    fn secure(&mut self) -> (result: Result<SetupAction, Stop>)
        ensures
            (*final(self), setup_act_of(result)) == securing(*old(self)),
    {
        let accepted = accepts_server_name(self.arguments.tls_name().as_str());
        self.secure_accepted(accepted)
    }

    /// Sets TLS up where the server name is accepted.
    pub fn secure_accepted(&mut self, accepted: bool) -> (result: Result<SetupAction, Stop>)
        ensures
            (*final(self), setup_act_of(result)) == secured(*old(self), accepted),
    {
        if !accepted {
            return stop(ClientError::ServerName);
        }
        let server_name = self.arguments.tls_name();
        let tls = self.arguments.tls_server_name.is_some();
        self.stage = SetupStage::Securing;
        Ok(SetupAction::Secure { server_name, tls })
    }

    fn authenticate(&mut self) -> (result: Result<SetupAction, Stop>)
        ensures
            (*final(self), setup_act_of(result)) == authenticating(*old(self)),
    {
        match &self.arguments.server_cname {
            Some(cname) => {
                let cname = cname.clone();
                self.stage = SetupStage::Kerberos;
                Ok(SetupAction::Kerberos(cname))
            },
            None => self.log_in(),
        }
    }

    fn log_in(&mut self) -> (result: Result<SetupAction, Stop>)
        ensures
            (*final(self), setup_act_of(result)) == logging_in(*old(self)),
    {
        if self.arguments.login {
            self.stage = SetupStage::Login;
            Ok(SetupAction::Login { clear_text: self.arguments.tls_server_name.is_none() })
        } else {
            self.stage = SetupStage::Hello;
            Ok(SetupAction::ReceiveHello)
        }
    }

    fn welcome(&mut self, hello: ServerHello) -> (result: Result<SetupAction, Stop>)
        ensures
            (*final(self), setup_act_of(result)) == welcomed(*old(self), hello),
    {
        let ServerHello { codec_name, fido, screen } = hello;
        self.codec_name = match &self.arguments.decoder {
            Some(decoder) => decoder.clone(),
            None => codec_name,
        };
        match screen {
            ServerScreen::Adapt { seamless } => {
                self.seamless = seamless;
                self.server_size = None;
            },
            ServerScreen::Fullscreen { width, height } => {
                self.seamless = false;
                self.server_size = Some((to_low_half(width), to_low_half(height)));
            },
        }
        if self.server_size.is_some() && self.arguments.zoom != Zoom::One {
            return stop(ClientError::ZoomNeedsAdaptiveServer);
        }
        if self.arguments.fido {
            if !fido {
                return stop(ClientError::FidoNotAllowed);
            }
            let selector = match &self.arguments.fido_device {
                Some(selector) => Some(selector.clone()),
                None => None,
            };
            self.stage = SetupStage::Fido;
            return Ok(SetupAction::OpenFido(selector));
        }
        self.open_display()
    }

    fn open_display(&mut self) -> (result: Result<SetupAction, Stop>)
        ensures
            (*final(self), setup_act_of(result)) == opening_display(*old(self)),
    {
        self.stage = SetupStage::Display;
        Ok(SetupAction::OpenDisplay { seamless: self.seamless, server_size: self.server_size })
    }

    /// The forwarded authenticator, for the greeting.
    fn announced_fido(&self) -> (fido: Option<FidoDevice>)
        ensures
            device_of(fido) == device_of(self.fido),
    {
        match &self.fido {
            Some(device) => Some(
                FidoDevice {
                    vendor_id: device.vendor_id,
                    product_id: device.product_id,
                    product_name: device.product_name.clone(),
                },
            ),
            None => None,
        }
    }

    fn greet(&mut self, across: u32, down: u32) -> (result: Result<SetupAction, Stop>)
        ensures
            (*final(self), setup_act_of(result)) == greeting(*old(self), across, down),
    {
        let fido = self.announced_fido();
        let audio = self.audio;
        self.stage = SetupStage::Greeting;
        match self.server_size {
            Some(size) => {
                self.size = size;
                Ok(SetupAction::SendHello(ClientHello::Fullscreen { audio, fido }))
            },
            None => {
                let width: u32 = to_even_dimension(across);
                let height: u32 = to_even_dimension(down);
                self.size = (to_low_half(width), to_low_half(height));
                Ok(
                    SetupAction::SendHello(
                        ClientHello::Resolution { audio, fido, width, height },
                    ),
                )
            },
        }
    }

    fn start_sound(&mut self) -> (result: Result<SetupAction, Stop>)
        ensures
            (*final(self), setup_act_of(result)) == starting_sound(*old(self)),
    {
        if self.audio.is_some() {
            self.stage = SetupStage::StartingSound;
            Ok(SetupAction::StartSound)
        } else {
            self.stage = SetupStage::Running;
            Ok(SetupAction::Run)
        }
    }

    fn fail(&self) -> (result: Result<SetupAction, Stop>)
        ensures
            setup_act_of(result) == Err::<SetupAct, _>(
                match failure(self.stage) {
                    Some(stop) => stop,
                    None => Stop { error: ClientError::UnexpectedEvent, notify: false },
                },
            ),
    {
        let (error, notify) = match self.stage {
            SetupStage::Sound => (ClientError::Sound, false),
            SetupStage::Connecting => (ClientError::Connection, false),
            SetupStage::MappingImages => (ClientError::ImageSource, false),
            SetupStage::Securing => (ClientError::Tls, false),
            SetupStage::Versions => (ClientError::Exchange, false),
            SetupStage::Kerberos => (ClientError::Kerberos, true),
            SetupStage::Login => (ClientError::Exchange, false),
            SetupStage::Hello => (ClientError::Exchange, false),
            SetupStage::Fido => (ClientError::Fido, true),
            SetupStage::Display => (ClientError::Display, true),
            SetupStage::Greeting => (ClientError::Exchange, false),
            SetupStage::Codec => (ClientError::Codec, true),
            SetupStage::StartingSound => (ClientError::Sound, true),
            SetupStage::Beginning => (ClientError::UnexpectedEvent, false),
            SetupStage::Running => (ClientError::UnexpectedEvent, false),
        };
        Err(Stop { error, notify })
    }

    /// Begins the set-up.
    pub fn begin(&mut self) -> (result: Result<SetupAction, Stop>)
        requires
            old(self).arguments.zoom != Zoom::Invalid && !old(self).arguments.audio ==> connectable(
                old(self).arguments,
            ),
        ensures
            (*final(self), setup_act_of(result)) == begun(*old(self)),
    {
        if self.arguments.zoom == Zoom::Invalid {
            return stop(ClientError::Zoom);
        }
        if self.arguments.audio {
            self.stage = SetupStage::Sound;
            Ok(SetupAction::OpenSound)
        } else {
            self.connect()
        }
    }

    /// Goes on with what came of the outside work. What was not asked for ends the
    /// session.
    pub fn step(&mut self, event: SetupEvent) -> (result: Result<SetupAction, Stop>)
        requires
            old(self).stage == SetupStage::Sound && event is SoundOpened ==> connectable(
                old(self).arguments,
            ),
        ensures
            (*final(self), setup_act_of(result)) == stepped(*old(self), event),
    {
        match (self.stage, event) {
            (SetupStage::Sound, SetupEvent::SoundOpened(rate)) => {
                self.audio = Some(rate);
                self.connect()
            },
            (SetupStage::Connecting, SetupEvent::Done) => self.map_images(),
            (SetupStage::MappingImages, SetupEvent::Done) => self.secure(),
            (SetupStage::Securing, SetupEvent::Done) => {
                self.stage = SetupStage::Versions;
                Ok(SetupAction::ExchangeVersions)
            },
            (SetupStage::Versions, SetupEvent::Version(version)) => {
                if !same_text(version.as_str(), self.version.as_str()) {
                    return stop(ClientError::VersionMismatch);
                }
                self.authenticate()
            },
            (SetupStage::Kerberos, SetupEvent::Done) => self.log_in(),
            (SetupStage::Login, SetupEvent::Done) => {
                self.stage = SetupStage::Hello;
                Ok(SetupAction::ReceiveHello)
            },
            (SetupStage::Hello, SetupEvent::Hello(hello)) => self.welcome(hello),
            (SetupStage::Fido, SetupEvent::FidoOpened(device)) => {
                self.fido = Some(device);
                self.open_display()
            },
            (SetupStage::Display, SetupEvent::DisplayOpened(across, down)) => self.greet(
                across,
                down,
            ),
            (SetupStage::Greeting, SetupEvent::Done) => {
                self.stage = SetupStage::Codec;
                Ok(SetupAction::OpenCodec(self.codec_name.clone()))
            },
            (SetupStage::Codec, SetupEvent::Done) => self.start_sound(),
            (SetupStage::StartingSound, SetupEvent::Done) => {
                self.stage = SetupStage::Running;
                Ok(SetupAction::Run)
            },
            (_, SetupEvent::Failed) => self.fail(),
            _ => stop(ClientError::UnexpectedEvent),
        }
    }
}

/// What holds at every stage: an authenticator is only there where forwarding was asked
/// for, and past the greeting a zoom goes with a server that adapts.
pub open spec fn setup_wf(session: ClientSession) -> bool {
    &&& session.fido is Some ==> session.arguments.wants_fido()
    &&& session.stage == SetupStage::Fido ==> session.arguments.wants_fido()
    &&& (session.stage == SetupStage::Fido || session.stage == SetupStage::Display || session.stage
        == SetupStage::Greeting || session.stage == SetupStage::Codec || session.stage
        == SetupStage::StartingSound || session.stage == SetupStage::Running)
        && session.arguments.zoom != Zoom::One ==> session.server_size is None
}

/// Every step of the set-up keeps what holds at every stage, and the arguments.
pub proof fn setup_keeps_its_promises(session: ClientSession, event: SetupEvent)
    requires
        setup_wf(session),
    ensures
        setup_wf(stepped(session, event).0),
        stepped(session, event).0.arguments == session.arguments,
        session.stage == SetupStage::Beginning ==> setup_wf(begun(session).0) && begun(
            session,
        ).0.arguments == session.arguments,
{
}

/// FIDO forwarding has to be enabled on both ends: an authenticator is opened only on a
/// greeting of a server that allows it, and only where it was asked for. Where it was
/// asked for and the server does not allow it, the session ends. Where it was not asked
/// for, no authenticator is announced.
pub proof fn fido_needs_both_ends(session: ClientSession, event: SetupEvent)
    requires
        setup_wf(session),
    ensures
        stepped(session, event).1 matches Ok(SetupAct::OpenFido(_)) ==> {
            &&& session.stage == SetupStage::Hello
            &&& session.arguments.wants_fido()
            &&& event matches SetupEvent::Hello(hello)
            &&& hello.fido
        },
        session.fido is None && stepped(session, event).0.fido is Some ==> session.stage
            == SetupStage::Fido,
        stepped(session, event).0.stage == SetupStage::Fido && session.stage != SetupStage::Fido
            ==> stepped(session, event).1 matches Ok(SetupAct::OpenFido(_)),
        session.stage == SetupStage::Hello && session.arguments.wants_fido() ==> (
        event matches SetupEvent::Hello(hello) ==> !hello.fido ==> stepped(session, event).1
            is Err),
        begun(session).1 matches Ok(act) ==> !(act is OpenFido),
        !session.arguments.wants_fido() ==> (stepped(session, event).1 matches Ok(
            SetupAct::SendHello(greeting),
        ) ==> match greeting {
            Greeting::Fullscreen { fido, .. } => fido is None,
            Greeting::Resolution { fido, .. } => fido is None,
        }),
{
}

/// The server is asked for even dimensions of at least two, which are the session's own up
/// to 16 bits; the size of a server that keeps its own is taken over.
pub proof fn session_size_is_announced(session: ClientSession, across: u32, down: u32)
    requires
        session.stage == SetupStage::Display,
    ensures
        ({
            let (next, result) = stepped(session, SetupEvent::DisplayOpened(across, down));
            match session.server_size {
                Some(size) => next.size == size,
                None => {
                    &&& result matches Ok(SetupAct::SendHello(greeting))
                    &&& greeting matches Greeting::Resolution { width, height, .. }
                    &&& width % 2 == 0
                    &&& height % 2 == 0
                    &&& width >= 2
                    &&& height >= 2
                    &&& width <= 0xffff ==> next.size.0 == width
                    &&& height <= 0xffff ==> next.size.1 == height
                },
            }
        }),
{
}

} // verus!
