//! What is read from and written to a HID device.

use vstd::prelude::*;

use crate::error::FidoError;
use crate::framing::{copy_range, report_validity, validate_report, FIDO_REPORT_SIZE};

verus! {

/// What a device read gave.
#[derive(Debug)]
pub enum HidRead {
    /// So many bytes, which may be none.
    Bytes(Vec<u8>),
    /// An error.
    Failed,
}

impl View for HidRead {
    type V = Option<Seq<u8>>;

    open spec fn view(&self) -> Option<Seq<u8>> {
        match self {
            HidRead::Bytes(bytes) => Some(bytes@),
            HidRead::Failed => None,
        }
    }
}

/// The contents of a list of device reads.
pub open spec fn read_views(list: Seq<HidRead>) -> Seq<Option<Seq<u8>>> {
    list.map_values(|read: HidRead| read@)
}

/// The report in what a device read gave. A read that gave nothing holds none; a zero in
/// front of a whole report is the number of an unnumbered report.
pub open spec fn input_report(bytes: Seq<u8>) -> Result<Option<Seq<u8>>, FidoError> {
    if bytes.len() == 0 {
        Ok(None)
    } else if bytes.len() == FIDO_REPORT_SIZE {
        Ok(Some(bytes))
    } else if bytes.len() == FIDO_REPORT_SIZE + 1 && bytes[0] == 0 {
        Ok(Some(bytes.skip(1)))
    } else {
        Err(FidoError::InputReportSize(bytes.len() as usize))
    }
}

/// Takes the report out of what a device read gave.
pub fn read_hid_report(bytes: &[u8]) -> (result: Result<Option<Vec<u8>>, FidoError>)
    ensures
        match result {
            Ok(None) => input_report(bytes@) == Ok::<_, FidoError>(None::<Seq<u8>>),
            Ok(Some(report)) => input_report(bytes@) == Ok::<_, FidoError>(Some(report@)),
            Err(err) => input_report(bytes@) == Err::<Option<Seq<u8>>, _>(err),
        },
{
    let size: usize = bytes.len();
    if size == 0 {
        Ok(None)
    } else if size == FIDO_REPORT_SIZE {
        let report = copy_range(bytes, 0, size);
        assert(report@ =~= bytes@);
        Ok(Some(report))
    } else if size == FIDO_REPORT_SIZE + 1 && bytes[0] == 0 {
        let report = copy_range(bytes, 1, FIDO_REPORT_SIZE);
        assert(report@ =~= bytes@.skip(1));
        Ok(Some(report))
    } else {
        Err(FidoError::InputReportSize(size))
    }
}

/// The bytes to write for a report: a zero, as the number of an unnumbered report, and
/// the report.
pub open spec fn output_bytes(report: Seq<u8>) -> Seq<u8> {
    seq![0u8] + report
}

/// The bytes to write for a report.
pub fn write_hid_report(report: &[u8]) -> (result: Result<Vec<u8>, FidoError>)
    ensures
        match result {
            Ok(output) => report_validity(report@) is Ok && output@ == output_bytes(report@),
            Err(err) => report_validity(report@) == Err::<(), _>(err),
        },
{
    validate_report(report)?;
    let mut output: Vec<u8> = vec![0];
    let mut bytes = copy_range(report, 0, report.len());
    output.append(&mut bytes);
    assert(output@ =~= seq![0u8] + report@);
    Ok(output)
}

/// Whether a device took an output. A device that reports nothing is believed to have
/// taken it all.
pub open spec fn write_outcome(written: usize, length: usize) -> Result<(), FidoError> {
    if written == 0 || written == length {
        Ok(())
    } else {
        Err(FidoError::ShortWrite(written, length))
    }
}

/// Checks how much of an output a device took.
pub fn check_hid_write(written: usize, length: usize) -> (result: Result<(), FidoError>)
    ensures
        result == write_outcome(written, length),
{
    if written != 0 && written != length {
        Err(FidoError::ShortWrite(written, length))
    } else {
        Ok(())
    }
}

/// What is written for a report has one byte more, and reads back as the report; so does the
/// report alone.
pub proof fn written_reports_read_back(report: Seq<u8>)
    requires
        report.len() == 64,
    ensures
        output_bytes(report).len() == 65,
        output_bytes(report)[0] == 0,
        input_report(output_bytes(report)) == Ok::<_, FidoError>(Some(report)),
        input_report(report) == Ok::<_, FidoError>(Some(report)),
{
    assert(output_bytes(report).skip(1) =~= report);
}

/// A read holds a report of 64 bytes, with a zero before it or without, or nothing where it
/// is empty. Any other read is refused, and its length is named.
pub proof fn reads_hold_whole_reports(bytes: Seq<u8>)
    ensures
        match input_report(bytes) {
            Ok(None) => bytes.len() == 0,
            Ok(Some(report)) => report.len() == 64 && (bytes == report || bytes == seq![0u8]
                + report),
            Err(err) => bytes.len() != 0 && bytes.len() != 64 && (bytes.len() != 65 || bytes[0]
                != 0) && err == FidoError::InputReportSize(bytes.len() as usize),
        },
{
    if bytes.len() == 65 && bytes[0] == 0 {
        assert(bytes =~= seq![0u8] + bytes.skip(1));
    }
}

/// A write falls short exactly where the device tells of some bytes, but not of all.
pub proof fn short_writes_are_told(written: usize, length: usize)
    ensures
        0 < written < length ==> write_outcome(written, length) == Err::<(), _>(
            FidoError::ShortWrite(written, length),
        ),
        written > length && length > 0 ==> write_outcome(written, length) is Err,
        write_outcome(length, length) is Ok,
        write_outcome(0, length) is Ok,
{
}

} // verus!
