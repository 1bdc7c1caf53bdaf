use sanzu::error::ClientError;
use sanzu::interface::{
    pam_turn, run, ClientInterface, PamMessage, PamStep, StdioClientInterface, Stop,
};

#[derive(Default)]
struct Script {
    log: Vec<String>,
    fails: bool,
}

impl Script {
    fn note<T>(&mut self, what: String, answer: T) -> Result<T, ClientError> {
        self.log.push(what);
        if self.fails {
            Err(ClientError::Interface)
        } else {
            Ok(answer)
        }
    }
}

impl ClientInterface for Script {
    fn pam_echo(&mut self, echo: String) -> Result<String, ClientError> {
        self.note(format!("echo {echo}"), "fred".to_owned())
    }

    fn pam_blind(&mut self, blind: String) -> Result<String, ClientError> {
        self.note(format!("blind {blind}"), "secret".to_owned())
    }

    fn pam_info(&mut self, info: String) -> Result<(), ClientError> {
        self.note(format!("info {info}"), ())
    }

    fn pam_error(&mut self, error: String) -> Result<(), ClientError> {
        self.note(format!("error {error}"), ())
    }

    fn pam_end(&mut self, end: bool) -> Result<(), ClientError> {
        self.note(format!("end {end}"), ())
    }

    fn client_exit(&mut self, status: &Result<(), ClientError>) {
        self.log.push(format!("exit {status:?}"));
    }
}

#[test]
fn the_interface_is_told_how_the_session_ended() {
    let mut script = Script::default();
    assert_eq!(run(Err(ClientError::Zoom), &mut script), Err(ClientError::Zoom));
    assert_eq!(script.log, ["exit Err(Zoom)"]);
    let mut script = Script::default();
    assert_eq!(run(Ok(()), &mut script), Ok(()));
    assert_eq!(script.log, ["exit Ok(())"]);
}

#[test]
fn login_turns_ask_the_interface() {
    let mut script = Script::default();
    assert!(matches!(
        pam_turn(PamMessage::Echo("login:".to_owned()), &mut script),
        Ok(PamStep::User(user)) if user == "fred"
    ));
    assert!(matches!(
        pam_turn(PamMessage::Blind("password:".to_owned()), &mut script),
        Ok(PamStep::Password(password)) if password == "secret"
    ));
    assert!(matches!(
        pam_turn(PamMessage::Info("hi".to_owned()), &mut script),
        Ok(PamStep::Continue)
    ));
    assert!(matches!(
        pam_turn(PamMessage::Error("no".to_owned()), &mut script),
        Ok(PamStep::Continue)
    ));
    assert!(matches!(
        pam_turn(PamMessage::End(true), &mut script),
        Ok(PamStep::End)
    ));
    assert_eq!(
        script.log,
        ["echo login:", "blind password:", "info hi", "error no", "end true"]
    );
}

#[test]
fn the_server_is_told_of_a_failed_prompt_only() {
    let mut script = Script {
        fails: true,
        ..Script::default()
    };
    let stop = |notify| Stop {
        error: ClientError::Interface,
        notify,
    };
    assert_eq!(
        pam_turn(PamMessage::Echo(String::new()), &mut script).err(),
        Some(stop(true))
    );
    assert_eq!(
        pam_turn(PamMessage::Blind(String::new()), &mut script).err(),
        Some(stop(true))
    );
    assert_eq!(
        pam_turn(PamMessage::Info(String::new()), &mut script).err(),
        Some(stop(false))
    );
    assert_eq!(
        pam_turn(PamMessage::End(false), &mut script).err(),
        Some(stop(false))
    );
    assert_eq!(
        pam_turn(PamMessage::Missing, &mut script).err(),
        Some(Stop {
            error: ClientError::LoginConversation,
            notify: false
        })
    );
}

#[test]
fn logins_lose_the_white_space_around_them() {
    let stdio = StdioClientInterface::default();
    assert_eq!(stdio.login("fred\n"), "fred");
    assert_eq!(stdio.login("fréd \t\r\n"), "fréd");
    assert_eq!(stdio.login("\n"), "");
    assert_eq!(stdio.login(" fred\n"), "fred");
    assert_eq!(stdio.login(" b c\n"), "b c");
    assert_eq!(stdio.login(" éé\n"), "éé");
}
