use sanzu::error::FidoError;
use sanzu::hid::{check_hid_write, read_hid_report, write_hid_report};

#[test]
fn report_numbers_are_stripped_and_added() {
    assert_eq!(read_hid_report(&[]), Ok(None));
    assert_eq!(read_hid_report(&[9; 64]), Ok(Some(vec![9; 64])));
    let mut numbered = vec![9u8; 65];
    assert_eq!(
        read_hid_report(&numbered),
        Err(FidoError::InputReportSize(65))
    );
    numbered[0] = 0;
    assert_eq!(read_hid_report(&numbered), Ok(Some(vec![9; 64])));
    assert_eq!(read_hid_report(&[0]), Err(FidoError::InputReportSize(1)));
    assert_eq!(write_hid_report(&[9; 64]), Ok(numbered));
    assert_eq!(write_hid_report(&[9; 65]), Err(FidoError::ReportSize(65)));
}

#[test]
fn short_writes_are_noticed() {
    assert_eq!(check_hid_write(65, 65), Ok(()));
    assert_eq!(check_hid_write(0, 65), Ok(()));
    assert_eq!(check_hid_write(64, 65), Err(FidoError::ShortWrite(64, 65)));
}
