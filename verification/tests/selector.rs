use sanzu::selector::{
    choose_candidate, occurs_in_any, takes_first_of_several, FidoSelector, HidCandidate,
    SelectionError,
};

#[test]
fn parses_vid_pid_selectors() {
    assert_eq!(
        FidoSelector::parse("1050:0407"),
        FidoSelector::VidPid(0x1050, 0x0407)
    );
    assert_eq!(
        FidoSelector::parse("0x1050:0x0407"),
        FidoSelector::VidPid(0x1050, 0x0407)
    );
    assert_eq!(
        FidoSelector::parse("YubiKey 5"),
        FidoSelector::Text("YubiKey 5")
    );
}

#[test]
fn selectors_are_trimmed_and_strict() {
    assert_eq!(
        FidoSelector::parse(" \t0X00001050:+407\n"),
        FidoSelector::VidPid(0x1050, 0x0407)
    );
    assert_eq!(
        FidoSelector::parse("\u{2003}Yubi\u{a0}"),
        FidoSelector::Text("Yubi")
    );
    for text in [
        "", ":", "1050:", "1050:0407:1", "1050", "10500:0407", "105g:0407", "0x0x1:2", "-1:2",
        "+:1", "1050: 0407",
    ] {
        assert_eq!(FidoSelector::parse(text), FidoSelector::Text(text));
    }
    assert_eq!(
        FidoSelector::parse("ffff:0"),
        FidoSelector::VidPid(0xffff, 0)
    );
}

fn candidate(path: &str, product: Option<&str>, product_id: u16) -> HidCandidate {
    HidCandidate {
        path: path.to_owned(),
        usage_page: 0xf1d0,
        usage: 1,
        vendor_id: 0x1050,
        product_id,
        manufacturer: Some("Yubico".to_owned()),
        product: product.map(|name| name.to_owned()),
        serial_number: None,
    }
}

#[test]
fn only_fido_interfaces_are_candidates() {
    let mut keyboard = candidate("/dev/hidraw0", Some("YubiKey OTP"), 0x0407);
    keyboard.usage_page = 1;
    let mut other = candidate("/dev/hidraw1", Some("YubiKey"), 0x0407);
    other.usage = 2;
    let fido = candidate("/dev/hidraw2", Some("YubiKey FIDO"), 0x0407);
    let all = vec![keyboard, other, fido];
    assert_eq!(choose_candidate(&all, None), Ok(2));
    assert!(!takes_first_of_several(&all, None));
    assert_eq!(choose_candidate(&all, Some("yubikey")), Ok(2));
    assert_eq!(
        choose_candidate(&vec![], None),
        Err(SelectionError::NotFound)
    );
}

#[test]
fn a_request_has_to_mean_one_authenticator() {
    let all = vec![
        candidate("/dev/hidraw3", Some("Security Key"), 0x0120),
        candidate("/dev/hidraw4", None, 0x0407),
    ];
    assert_eq!(choose_candidate(&all, None), Ok(0));
    assert!(takes_first_of_several(&all, None));
    assert!(!takes_first_of_several(&all, Some("yubico")));
    assert_eq!(choose_candidate(&all, Some("1050:0407")), Ok(1));
    assert_eq!(choose_candidate(&all, Some("HIDRAW3")), Ok(0));
    assert_eq!(choose_candidate(&all, Some("security")), Ok(0));
    assert_eq!(
        choose_candidate(&all, Some("1050:9999")),
        Err(SelectionError::NoMatch("1050:9999".to_owned()))
    );
    assert_eq!(
        choose_candidate(&all, Some(" yubico ")),
        Err(SelectionError::Ambiguous(
            " yubico ".to_owned(),
            "Security Key (1050:0120, /dev/hidraw3), FIDO authenticator (1050:0407, /dev/hidraw4)"
                .to_owned()
        ))
    );
}

#[test]
fn serial_numbers_are_searched() {
    let mut second = candidate("b", None, 2);
    second.serial_number = Some("SN-Ä42".to_owned());
    let all = vec![candidate("a", None, 1), second];
    assert_eq!(choose_candidate(&all, Some("sn-ä4")), Ok(1));
}

#[test]
fn product_names_are_cut() {
    let long = "é".repeat(90);
    assert_eq!(
        candidate("a", Some(&long), 1).product_name(),
        "é".repeat(80)
    );
    assert_eq!(candidate("a", None, 1).product_name(), "FIDO authenticator");
}

#[test]
fn a_text_may_occur_anywhere_in_a_description() {
    let text = |text: &str| Some(text.to_owned());
    let found = |part| {
        occurs_in_any(
            part,
            "/dev/hidraw3",
            &text("yubico"),
            &None,
            &text("serial"),
        )
    };
    for part in ["raw3", "ubic", "serial", ""] {
        assert!(found(part));
    }
    for part in ["Yubico", "cos", "hidraw4"] {
        assert!(!found(part));
    }
}
