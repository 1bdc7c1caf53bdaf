//! The user that a client runs for: the login conversation, and the end of the session.

use vstd::prelude::*;

use crate::error::ClientError;
use crate::text::{is_white_space, trim, trimmed, trimmed_end, trimmed_start};

verus! {

/// Why a session ends, and whether the server is told.
#[derive(Clone, Copy, Debug, PartialEq, Eq, Structural)]
pub struct Stop {
    pub error: ClientError,
    pub notify: bool,
}

/// What a client asks of the user it runs for.
pub trait ClientInterface {
    /// Asks for a line that may be seen.
    fn pam_echo(&mut self, echo: String) -> Result<String, ClientError>;

    /// Asks for a line that may not be seen.
    fn pam_blind(&mut self, blind: String) -> Result<String, ClientError>;

    /// Shows information.
    fn pam_info(&mut self, info: String) -> Result<(), ClientError>;

    /// Shows an error.
    fn pam_error(&mut self, error: String) -> Result<(), ClientError>;

    /// Tells how the login conversation ended.
    fn pam_end(&mut self, end: bool) -> Result<(), ClientError>;

    /// Tells how the session ended.
    fn client_exit(&mut self, status: &Result<(), ClientError>);
}

/// Ends a session: tells the interface how it ended, once, and hands the outcome on.
pub fn run<I: ClientInterface>(
    outcome: Result<(), ClientError>,
    client_interface: &mut I,
) -> (result: Result<(), ClientError>)
    ensures
        result == outcome,
        exists|told: &mut I| #[trigger]
            call_ensures(I::client_exit, (told, &outcome), ()) && *told == *old(client_interface)
                && *final(told) == *final(client_interface),
{
    client_interface.client_exit(&outcome);
    outcome
}

/// A turn of the server's login conversation.
#[derive(Debug)]
pub enum PamMessage {
    Echo(String),
    Blind(String),
    Info(String),
    Error(String),
    End(bool),
    Missing,
}

/// What a turn of the login conversation leads to.
#[derive(Debug)]
pub enum PamStep {
    /// Send the login.
    User(String),
    /// Send the password.
    Password(String),
    /// Wait for the next turn.
    Continue,
    /// The conversation is over.
    End,
}

/// What the user's login leads to. The server is told of a failure.
pub open spec fn user_step(answer: Result<String, ClientError>) -> Result<PamStep, Stop> {
    match answer {
        Ok(user) => Ok(PamStep::User(user)),
        Err(error) => Err(Stop { error, notify: true }),
    }
}

/// What the user's password leads to. The server is told of a failure.
pub open spec fn password_step(answer: Result<String, ClientError>) -> Result<PamStep, Stop> {
    match answer {
        Ok(password) => Ok(PamStep::Password(password)),
        Err(error) => Err(Stop { error, notify: true }),
    }
}

/// What showing something leads to. The server is not told of a failure.
pub open spec fn shown_step(shown: Result<(), ClientError>, next: PamStep) -> Result<
    PamStep,
    Stop,
> {
    match shown {
        Ok(()) => Ok(next),
        Err(error) => Err(Stop { error, notify: false }),
    }
}

/// What the user's login leads to.
pub fn send_user(answer: Result<String, ClientError>) -> (result: Result<PamStep, Stop>)
    ensures
        result == user_step(answer),
{
    match answer {
        Ok(user) => Ok(PamStep::User(user)),
        Err(error) => Err(Stop { error, notify: true }),
    }
}

/// What the user's password leads to.
pub fn send_password(answer: Result<String, ClientError>) -> (result: Result<PamStep, Stop>)
    ensures
        result == password_step(answer),
{
    match answer {
        Ok(password) => Ok(PamStep::Password(password)),
        Err(error) => Err(Stop { error, notify: true }),
    }
}

/// What showing something leads to.
pub fn after_showing(shown: Result<(), ClientError>, next: PamStep) -> (result: Result<
    PamStep,
    Stop,
>)
    ensures
        result == shown_step(shown, next),
{
    match shown {
        Ok(()) => Ok(next),
        Err(error) => Err(Stop { error, notify: false }),
    }
}

/// Takes one turn of the login conversation: the interface is asked or told exactly what
/// the server says, and its answer decides. A turn without content ends the session.
pub fn pam_turn<I: ClientInterface>(message: PamMessage, client_interface: &mut I) -> (result:
    Result<PamStep, Stop>)
    ensures
        match message {
            PamMessage::Echo(echo) => exists|asked: &mut I, answer: Result<String, ClientError>|
                {
                    &&& #[trigger] call_ensures(I::pam_echo, (asked, echo), answer)
                    &&& *asked == *old(client_interface)
                    &&& *final(asked) == *final(client_interface)
                    &&& result == user_step(answer)
                },
            PamMessage::Blind(blind) => exists|asked: &mut I, answer: Result<String, ClientError>|
                {
                    &&& #[trigger] call_ensures(I::pam_blind, (asked, blind), answer)
                    &&& *asked == *old(client_interface)
                    &&& *final(asked) == *final(client_interface)
                    &&& result == password_step(answer)
                },
            PamMessage::Info(info) => exists|told: &mut I, shown: Result<(), ClientError>|
                {
                    &&& #[trigger] call_ensures(I::pam_info, (told, info), shown)
                    &&& *told == *old(client_interface)
                    &&& *final(told) == *final(client_interface)
                    &&& result == shown_step(shown, PamStep::Continue)
                },
            PamMessage::Error(error) => exists|told: &mut I, shown: Result<(), ClientError>|
                {
                    &&& #[trigger] call_ensures(I::pam_error, (told, error), shown)
                    &&& *told == *old(client_interface)
                    &&& *final(told) == *final(client_interface)
                    &&& result == shown_step(shown, PamStep::Continue)
                },
            PamMessage::End(end) => exists|told: &mut I, shown: Result<(), ClientError>|
                {
                    &&& #[trigger] call_ensures(I::pam_end, (told, end), shown)
                    &&& *told == *old(client_interface)
                    &&& *final(told) == *final(client_interface)
                    &&& result == shown_step(shown, PamStep::End)
                },
            PamMessage::Missing => *final(client_interface) == *old(client_interface) && result
                == Err::<PamStep, _>(
                Stop { error: ClientError::LoginConversation, notify: false },
            ),
        },
{
    match message {
        PamMessage::Echo(echo) => send_user(client_interface.pam_echo(echo)),
        PamMessage::Blind(blind) => send_password(client_interface.pam_blind(blind)),
        PamMessage::Info(info) => after_showing(
            client_interface.pam_info(info),
            PamStep::Continue,
        ),
        PamMessage::Error(error) => after_showing(
            client_interface.pam_error(error),
            PamStep::Continue,
        ),
        PamMessage::End(end) => after_showing(client_interface.pam_end(end), PamStep::End),
        PamMessage::Missing => Err(Stop { error: ClientError::LoginConversation, notify: false }),
    }
}

/// The user at a terminal.
#[derive(Default)]
pub struct StdioClientInterface {}

impl StdioClientInterface {
    /// The login in a line that was entered: the line without the white space at either
    /// end.
    pub fn login(&self, line: &str) -> (login: String)
        ensures
            login@ == trimmed(line@),
    {
        trim(line).to_owned()
    }
}

/// A login neither begins nor ends with white space, and a login that is entered as it is
/// stays as it is.
pub proof fn logins_are_trimmed(line: Seq<char>)
    ensures
        trimmed(line).len() > 0 ==> !is_white_space(trimmed(line)[0]) && !is_white_space(
            trimmed(line).last(),
        ),
        trimmed(trimmed(line)) == trimmed(line),
        line.len() > 0 && !is_white_space(line[0]) && !is_white_space(line.last()) ==> trimmed(line)
            == line,
{
    lemma_trimmed_start(line);
    lemma_trimmed_end(trimmed_start(line));
}

/// What is left after taking white space off the start does not begin with any.
proof fn lemma_trimmed_start(text: Seq<char>)
    ensures
        trimmed_start(text).len() > 0 ==> !is_white_space(trimmed_start(text)[0]),
    decreases text.len(),
{
    if text.len() > 0 && is_white_space(text[0]) {
        lemma_trimmed_start(text.skip(1));
    }
}

/// What is left after taking white space off the end is a start of the text and does not
/// end with any.
proof fn lemma_trimmed_end(text: Seq<char>)
    ensures
        trimmed_end(text).len() > 0 ==> !is_white_space(trimmed_end(text).last())
            && trimmed_end(text)[0] == text[0],
        trimmed_end(text).len() <= text.len(),
    decreases text.len(),
{
    if text.len() > 0 && is_white_space(text.last()) {
        lemma_trimmed_end(text.drop_last());
    }
}

} // verus!
