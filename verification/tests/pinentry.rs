use sanzu::crypto::HiddenText;
use sanzu::error::FidoError;
use sanzu::pinentry::{
    decode_assuan_data, next_prompt, pinentry_program, pinentry_script, prompt_step, read_pin,
    Attempt, PromptStep,
};

fn pin_in(succeeded: bool, output: &str) -> Result<String, FidoError> {
    read_pin(succeeded, output).map(|pin| pin.as_str().to_owned())
}

#[test]
fn parses_pinentry_assuan_escaping() {
    assert_eq!(decode_assuan_data("12%2034%25").unwrap(), "12 34%");
    assert!(decode_assuan_data("12%2").is_err());
}

#[test]
fn malformed_escapes_are_refused() {
    for data in ["%", "%2", "%zz", "%-1", "%1+", "%é", "%+é"] {
        assert_eq!(
            decode_assuan_data(data),
            Err(FidoError::PinentryResponse)
        );
    }
    assert_eq!(decode_assuan_data("%ff"), Err(FidoError::PinNotUtf8));
    assert_eq!(decode_assuan_data("%C3%a9é"), Ok("éé".to_owned()));
    assert_eq!(decode_assuan_data("%+A"), Ok("\n".to_owned()));
}

#[test]
fn pin_is_the_first_data_line() {
    assert_eq!(
        pin_in(true, "OK Pleased to meet you\nOK\r\nD 12%2534\nD other\nOK\n"),
        Ok("12%34".to_owned())
    );
    assert_eq!(pin_in(true, "D 123\r\nOK"), Ok("123".to_owned()));
    assert_eq!(pin_in(true, "OK\nD 123\r"), Ok("123\r".to_owned()));
    assert_eq!(pin_in(true, "\n\nD  \n"), Ok(" ".to_owned()));
}

#[test]
fn no_pin_is_no_pin() {
    assert_eq!(pin_in(false, "D 123\n"), Err(FidoError::PinCancelled));
    assert_eq!(
        pin_in(true, "OK\nERR 83886179 cancelled\n"),
        Err(FidoError::PinCancelled)
    );
    assert_eq!(pin_in(true, ""), Err(FidoError::PinCancelled));
    assert_eq!(pin_in(true, "D \n"), Err(FidoError::EmptyPin));
    assert_eq!(pin_in(true, "D\n"), Err(FidoError::PinCancelled));
    assert_eq!(pin_in(true, "D %2\n"), Err(FidoError::PinentryResponse));
}

#[test]
fn prompt_programs_are_tried_in_order() {
    assert_eq!(pinentry_program(0), Some("/usr/bin/pinentry-gnome3"));
    assert_eq!(pinentry_program(1), Some("/usr/bin/pinentry"));
    assert_eq!(pinentry_program(2), None);
    assert!(pinentry_script().ends_with("GETPIN\nBYE\n"));
}

#[test]
fn the_next_program_is_tried_only_where_the_last_is_missing() {
    let ended = |succeeded, output: &str| Attempt::Ended {
        succeeded,
        output: HiddenText::new(output.to_owned()),
    };
    let starts = |step, path| matches!(step, PromptStep::Start(program) if program == path);
    let refused = |step, error| matches!(step, PromptStep::Refused(err) if err == error);
    assert!(starts(next_prompt(0), "/usr/bin/pinentry-gnome3"));
    assert!(starts(
        prompt_step(1, Attempt::NotFound),
        "/usr/bin/pinentry"
    ));
    assert!(refused(
        prompt_step(2, Attempt::NotFound),
        FidoError::NoPinentry
    ));
    assert!(refused(
        prompt_step(1, Attempt::Failed),
        FidoError::PinentryFailed
    ));
    assert!(refused(
        prompt_step(1, ended(false, "D 1\n")),
        FidoError::PinCancelled
    ));
    assert!(matches!(
        prompt_step(1, ended(true, "D 1%34\n")),
        PromptStep::Entered(pin) if pin.as_str() == "14"
    ));
}
