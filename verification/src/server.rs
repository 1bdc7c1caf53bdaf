//! The remote end of the forwarding: a virtual authenticator, created from what the
//! client announced, whose reports are passed on.
//!
//! The virtual device itself is driven from outside: [`FidoServer::poll_reports`] and
//! [`FidoServer::handle`] say what to do with it next.

use vstd::prelude::*;

use crate::broker::{Device, FidoDevice, MAX_REPORTS_PER_CYCLE};
use crate::error::FidoError;
use crate::framing::{copy_range, report_validity, validate_report, views, FIDO_REPORT_SIZE};
use crate::selector::{request_of, PRODUCT_NAME_LENGTH};
use crate::text::{at_most, chars_of, first_chars};

verus! {

/// The descriptor of an unnumbered 64-byte CTAPHID report in each direction, on the FIDO
/// usage page.
pub open spec fn descriptor() -> Seq<u8> {
    seq![
        // Usage Page (FIDO Alliance)
        0x06u8, 0xd0, 0xf1,
        // Usage (CTAPHID)
        0x09, 0x01,
        // Collection (Application)
        0xa1, 0x01,
        // Usage (Data In)
        0x09, 0x20,
        // Logical Minimum (0)
        0x15, 0x00,
        // Logical Maximum (255)
        0x26, 0xff, 0x00,
        // Report Size (8)
        0x75, 0x08,
        // Report Count (64)
        0x95, 0x40,
        // Input (Data, Variable, Absolute)
        0x81, 0x02,
        // Usage (Data Out)
        0x09, 0x21,
        // Logical Minimum (0)
        0x15, 0x00,
        // Logical Maximum (255)
        0x26, 0xff, 0x00,
        // Report Size (8)
        0x75, 0x08,
        // Report Count (64)
        0x95, 0x40,
        // Output (Data, Variable, Absolute)
        0x91, 0x02,
        // End Collection
        0xc0,
    ]
}

/// The descriptor of a virtual authenticator.
pub fn report_descriptor() -> (bytes: Vec<u8>)
    ensures
        bytes@ == descriptor(),
{
    vec![
        0x06, 0xd0, 0xf1, 0x09, 0x01, 0xa1, 0x01, 0x09, 0x20, 0x15, 0x00, 0x26, 0xff, 0x00, 0x75,
        0x08, 0x95, 0x40, 0x81, 0x02, 0x09, 0x21, 0x15, 0x00, 0x26, 0xff, 0x00, 0x75, 0x08, 0x95,
        0x40, 0x91, 0x02, 0xc0,
    ]
}

/// A character of a virtual device identifier.
pub open spec fn identifier_char(c: char) -> bool {
    'a' <= c <= 'z' || 'A' <= c <= 'Z' || '0' <= c <= '9' || c == '_' || c == '-'
}

/// A virtual device identifier: 1 to 64 of these characters.
pub open spec fn is_identifier(id: Seq<char>) -> bool {
    1 <= id.len() <= 64 && forall|i: int| 0 <= i < id.len() ==> identifier_char(#[trigger] id[i])
}

/// The physical path of a virtual authenticator, or why it cannot have one.
pub open spec fn physical_path(virtual_id: Option<Seq<char>>) -> Result<Seq<char>, FidoError> {
    match virtual_id {
        None => Ok("sanzu/fido0"@),
        Some(id) => if is_identifier(id) {
            Ok("sanzu/fido/"@ + id)
        } else {
            Err(FidoError::VirtualIdentifier)
        },
    }
}

/// The physical path of a virtual authenticator.
pub fn virtual_fido_phys(virtual_id: Option<&str>) -> (result: Result<String, FidoError>)
    ensures
        match result {
            Ok(path) => physical_path(request_of(virtual_id)) == Ok::<
                _,
                FidoError,
            >(path@),
            Err(err) => physical_path(request_of(virtual_id)) == Err::<
                Seq<char>,
                _,
            >(err),
        },
{
    let id = match virtual_id {
        None => {
            return Ok("sanzu/fido0".to_owned());
        },
        Some(id) => id,
    };
    let chars = chars_of(id);
    if chars.len() == 0 || chars.len() > 64 {
        return Err(FidoError::VirtualIdentifier);
    }
    let mut at: usize = 0;
    while at < chars.len()
        invariant
            at <= chars@.len(),
            chars@ == id@,
            virtual_id == Some(id),
            forall|i: int| 0 <= i < at ==> identifier_char(#[trigger] id@[i]),
        decreases chars@.len() - at,
    {
        let c: char = chars[at];
        if !('a' <= c && c <= 'z' || 'A' <= c && c <= 'Z' || '0' <= c && c <= '9' || c == '_' || c
            == '-') {
            assert(!identifier_char(id@[at as int]));
            return Err(FidoError::VirtualIdentifier);
        }
        at += 1;
    }
    let mut path = "sanzu/fido/".to_owned();
    path.append(id);
    Ok(path)
}

/// Virtual authenticators with different identifiers, and one without, have different
/// physical paths.
pub proof fn virtual_paths_are_isolated(one: Option<Seq<char>>, other: Option<Seq<char>>)
    requires
        physical_path(one) is Ok,
        physical_path(one) == physical_path(other),
    ensures
        one == other,
{
    reveal_strlit("sanzu/fido0");
    reveal_strlit("sanzu/fido/");
    let path = physical_path(one)->Ok_0;
    match (one, other) {
        (Some(left), Some(right)) => {
            assert(path.skip(11) =~= left);
            assert(path.skip(11) =~= right);
        },
        (Some(_), None) => {
            assert(path[10] == '/');
        },
        (None, Some(_)) => {
            assert(path[10] == '/');
        },
        (None, None) => {},
    }
}

/// How a virtual authenticator is set up, as a mathematical value.
pub struct Setup {
    pub name: Seq<char>,
    pub phys: Seq<char>,
    pub vendor: u32,
    pub product: u32,
    pub descriptor: Seq<u8>,
}

/// How a virtual authenticator is set up: on the USB bus, with no unique identifier,
/// version or country.
#[derive(Debug, PartialEq)]
pub struct VirtualDevice {
    pub name: String,
    pub phys: String,
    pub vendor: u32,
    pub product: u32,
    pub descriptor: Vec<u8>,
}

impl View for VirtualDevice {
    type V = Setup;

    open spec fn view(&self) -> Setup {
        Setup {
            name: self.name@,
            phys: self.phys@,
            vendor: self.vendor,
            product: self.product,
            descriptor: self.descriptor@,
        }
    }
}

/// How a virtual authenticator is set up for what the client announced, or why it cannot
/// be.
pub open spec fn virtual_setup(device: Device, virtual_id: Option<Seq<char>>) -> Result<
    Setup,
    FidoError,
> {
    if device.vendor_id > u16::MAX || device.product_id > u16::MAX {
        Err(FidoError::DeviceIdentifier)
    } else {
        match physical_path(virtual_id) {
            Err(err) => Err(err),
            Ok(phys) => Ok(
                Setup {
                    name: "Sanzu forwarded "@ + at_most(
                        device.product_name,
                        PRODUCT_NAME_LENGTH as nat,
                    ),
                    phys,
                    vendor: device.vendor_id,
                    product: device.product_id,
                    descriptor: descriptor(),
                },
            ),
        }
    }
}

/// What came from the virtual device, as a mathematical value.
pub enum Uhid {
    Output(Seq<u8>),
    GetReport(u32),
    SetReport(u32),
    Lifecycle,
    WouldBlock,
    Failed,
    Unknown(u32),
}

/// What came from the virtual device.
#[derive(Debug)]
pub enum UhidEvent {
    /// An output report.
    Output(Vec<u8>),
    /// A request for a report, with its number.
    GetReport(u32),
    /// A request to set a report, with its number.
    SetReport(u32),
    /// The device was started, opened, closed or stopped, or a request was turned down.
    Lifecycle,
    /// Nothing yet.
    WouldBlock,
    /// An error.
    Failed,
    /// An event of a kind that is not known.
    Unknown(u32),
}

impl View for UhidEvent {
    type V = Uhid;

    open spec fn view(&self) -> Uhid {
        match self {
            UhidEvent::Output(data) => Uhid::Output(data@),
            UhidEvent::GetReport(id) => Uhid::GetReport(*id),
            UhidEvent::SetReport(id) => Uhid::SetReport(*id),
            UhidEvent::Lifecycle => Uhid::Lifecycle,
            UhidEvent::WouldBlock => Uhid::WouldBlock,
            UhidEvent::Failed => Uhid::Failed,
            UhidEvent::Unknown(kind) => Uhid::Unknown(*kind),
        }
    }
}

/// What to do with the virtual device next, as a mathematical value.
pub enum ServerAct {
    Read,
    RejectGet(u32),
    RejectSet(u32),
    Ignored(nat),
    Done(Seq<Seq<u8>>),
}

/// What to do with the virtual device next.
#[derive(Debug)]
pub enum ServerAction {
    /// Read from it.
    Read,
    /// Turn a request for a report down, then read on.
    RejectGet(u32),
    /// Turn a request to set a report down, then read on.
    RejectSet(u32),
    /// Nothing: an output of this size was ignored. Then read on.
    Ignored(usize),
    /// Nothing: these reports are for the client.
    Done(Vec<Vec<u8>>),
}

impl View for ServerAction {
    type V = ServerAct;

    open spec fn view(&self) -> ServerAct {
        match self {
            ServerAction::Read => ServerAct::Read,
            ServerAction::RejectGet(id) => ServerAct::RejectGet(*id),
            ServerAction::RejectSet(id) => ServerAct::RejectSet(*id),
            ServerAction::Ignored(size) => ServerAct::Ignored(*size as nat),
            ServerAction::Done(reports) => ServerAct::Done(views(reports@)),
        }
    }
}

/// A poll of the virtual device, as a mathematical value: what has been collected, and
/// how many reads are left.
#[verifier::ext_equal]
pub struct Poll {
    pub reports: Seq<Seq<u8>>,
    pub left: nat,
}

/// The report in an output of the virtual device; other outputs are ignored.
pub open spec fn output_report(data: Seq<u8>) -> Option<Seq<u8>> {
    if data.len() == FIDO_REPORT_SIZE {
        Some(data)
    } else if data.len() == FIDO_REPORT_SIZE + 1 && data[0] == 0 {
        Some(data.skip(1))
    } else {
        None
    }
}

/// Reads on while reads are left.
pub open spec fn read_on(poll: Poll) -> (Poll, Result<ServerAct, FidoError>) {
    if poll.left > 0 {
        (poll, Ok(ServerAct::Read))
    } else {
        finished(poll)
    }
}

/// Hands out what has been collected.
pub open spec fn finished(poll: Poll) -> (Poll, Result<ServerAct, FidoError>) {
    (Poll { reports: seq![], left: 0 }, Ok(ServerAct::Done(poll.reports)))
}

/// Goes on with what came from the virtual device.
pub open spec fn taken_in(poll: Poll, event: Uhid) -> (Poll, Result<ServerAct, FidoError>) {
    let next = Poll { left: (poll.left - 1) as nat, ..poll };
    if poll.left == 0 {
        finished(poll)
    } else {
        match event {
            Uhid::Output(data) => match output_report(data) {
                Some(report) => read_on(Poll { reports: next.reports.push(report), ..next }),
                None => (next, Ok(ServerAct::Ignored(data.len()))),
            },
            Uhid::GetReport(id) => (next, Ok(ServerAct::RejectGet(id))),
            Uhid::SetReport(id) => (next, Ok(ServerAct::RejectSet(id))),
            Uhid::Lifecycle => read_on(next),
            Uhid::WouldBlock => finished(next),
            Uhid::Failed => (next, Err(FidoError::Device)),
            Uhid::Unknown(kind) => (next, Err(FidoError::UnknownEvent(kind))),
        }
    }
}

/// The remote end of the forwarding of one authenticator.
pub struct FidoServer {
    reports: Vec<Vec<u8>>,
    left: usize,
}

impl View for FidoServer {
    type V = Poll;

    closed spec fn view(&self) -> Poll {
        Poll { reports: views(self.reports@), left: self.left as nat }
    }
}

/// What a step asks for.
pub open spec fn server_act_of(result: Result<ServerAction, FidoError>) -> Result<
    ServerAct,
    FidoError,
> {
    match result {
        Ok(action) => Ok(action@),
        Err(err) => Err(err),
    }
}

/// How many reports at the start of a list are valid.
pub open spec fn valid_count(reports: Seq<Seq<u8>>) -> nat
    decreases reports.len(),
{
    if reports.len() == 0 || report_validity(reports[0]) is Err {
        0
    } else {
        1 + valid_count(reports.skip(1))
    }
}

/// The reports of a packet that are written to the virtual device, and whether that is all of
/// it: an oversized packet is refused as a whole, and an invalid report ends it.
pub open spec fn passed_on(reports: Seq<Seq<u8>>) -> (Seq<Seq<u8>>, Result<(), FidoError>) {
    let count = valid_count(reports);
    if reports.len() > MAX_REPORTS_PER_CYCLE {
        (seq![], Err(FidoError::TooManyReports))
    } else {
        (
            reports.take(count as int),
            if count == reports.len() {
                Ok(())
            } else {
                report_validity(reports[count as int])
            },
        )
    }
}

/// A poll that has not read anything yet.
pub open spec fn poll_started() -> Poll {
    Poll { reports: seq![], left: MAX_REPORTS_PER_CYCLE as nat }
}

impl FidoServer {
    /// The remote end for what the client announced, and how its virtual authenticator is
    /// set up.
    pub fn create(info: &FidoDevice, virtual_id: Option<&str>) -> (result: Result<
        (Self, VirtualDevice),
        FidoError,
    >)
        ensures
            match result {
                Ok((server, device)) => virtual_setup(
                    info@,
                    request_of(virtual_id),
                ) == Ok::<_, FidoError>(device@) && server@ == (Poll { reports: seq![], left: 0 }),
                Err(err) => virtual_setup(info@, request_of(virtual_id)) == Err::<
                    Setup,
                    _,
                >(err),
            },
    {
        if info.vendor_id > 0xffff || info.product_id > 0xffff {
            return Err(FidoError::DeviceIdentifier);
        }
        let phys = virtual_fido_phys(virtual_id)?;
        let mut name = "Sanzu forwarded ".to_owned();
        let product_name = first_chars(info.product_name.as_str(), PRODUCT_NAME_LENGTH);
        name.append(product_name.as_str());
        let server = FidoServer { reports: Vec::new(), left: 0 };
        assert(server@ =~= (Poll { reports: seq![], left: 0 }));
        Ok(
            (
                server,
                VirtualDevice {
                    name,
                    phys,
                    vendor: info.vendor_id,
                    product: info.product_id,
                    descriptor: report_descriptor(),
                },
            ),
        )
    }

    fn next_read(&mut self) -> (result: Result<ServerAction, FidoError>)
        ensures
            (final(self)@, server_act_of(result)) == read_on(old(self)@),
    {
        if self.left > 0 {
            Ok(ServerAction::Read)
        } else {
            self.finish()
        }
    }

    fn finish(&mut self) -> (result: Result<ServerAction, FidoError>)
        ensures
            (final(self)@, server_act_of(result)) == finished(old(self)@),
    {
        let mut reports: Vec<Vec<u8>> = Vec::new();
        core::mem::swap(&mut reports, &mut self.reports);
        self.left = 0;
        assert(self@ =~= (Poll { reports: seq![], left: 0 }));
        Ok(ServerAction::Done(reports))
    }

    /// Starts a poll of the virtual device.
    pub fn poll_reports(&mut self) -> (result: Result<ServerAction, FidoError>)
        ensures
            (final(self)@, server_act_of(result)) == read_on(poll_started()),
    {
        self.reports = Vec::new();
        self.left = MAX_REPORTS_PER_CYCLE;
        assert(self@ =~= poll_started());
        self.next_read()
    }

    /// Goes on after a request was turned down or an output was ignored.
    pub fn rejected(&mut self) -> (result: Result<ServerAction, FidoError>)
        ensures
            (final(self)@, server_act_of(result)) == read_on(old(self)@),
    {
        self.next_read()
    }

    /// Goes on with what came from the virtual device.
    pub fn handle(&mut self, event: UhidEvent) -> (result: Result<ServerAction, FidoError>)
        ensures
            (final(self)@, server_act_of(result)) == taken_in(old(self)@, event@),
    {
        if self.left == 0 {
            return self.finish();
        }
        self.left = self.left - 1;
        let ghost next = self@;
        match event {
            UhidEvent::Output(data) => {
                let size: usize = data.len();
                if size == FIDO_REPORT_SIZE {
                    self.reports.push(data);
                    assert(self@ =~= (Poll { reports: next.reports.push(data@), ..next }));
                } else if size == FIDO_REPORT_SIZE + 1 && data[0] == 0 {
                    let report = copy_range(data.as_slice(), 1, FIDO_REPORT_SIZE);
                    assert(report@ =~= data@.skip(1));
                    self.reports.push(report);
                    assert(self@ =~= (Poll { reports: next.reports.push(report@), ..next }));
                } else {
                    return Ok(ServerAction::Ignored(size));
                }
                self.next_read()
            },
            UhidEvent::GetReport(id) => Ok(ServerAction::RejectGet(id)),
            UhidEvent::SetReport(id) => Ok(ServerAction::RejectSet(id)),
            UhidEvent::Lifecycle => self.next_read(),
            UhidEvent::WouldBlock => self.finish(),
            UhidEvent::Failed => Err(FidoError::Device),
            UhidEvent::Unknown(kind) => Err(FidoError::UnknownEvent(kind)),
        }
    }

    /// The reports of a packet of the client that are to be written to the virtual device,
    /// and whether that is all of it: an oversized packet is refused as a whole, and an
    /// invalid report ends it.
    pub fn write_reports(&self, reports: Vec<Vec<u8>>) -> (outcome: (
        Vec<Vec<u8>>,
        Result<(), FidoError>,
    ))
        ensures
            (views(outcome.0@), outcome.1) == passed_on(views(reports@)),
    {
        if reports.len() > MAX_REPORTS_PER_CYCLE {
            let nothing: Vec<Vec<u8>> = Vec::new();
            assert(views(nothing@) =~= seq![]);
            return (nothing, Err(FidoError::TooManyReports));
        }
        let ghost all = views(reports@);
        let mut left = reports;
        let mut valid: Vec<Vec<u8>> = Vec::new();
        assert(all.skip(0) =~= all);
        while left.len() > 0
            invariant
                all == views(reports@),
                all.len() <= MAX_REPORTS_PER_CYCLE,
                valid@.len() + left@.len() == all.len(),
                left@ == reports@.skip(valid@.len() as int),
                valid@ == reports@.take(valid@.len() as int),
                valid_count(all) == valid@.len() + valid_count(all.skip(valid@.len() as int)),
            decreases left@.len(),
        {
            let ghost done = valid@.len() as int;
            let report = left.remove(0);
            assert(all.skip(done)[0] == report@);
            match validate_report(report.as_slice()) {
                Err(err) => {
                    assert(views(valid@) =~= all.take(done));
                    return (valid, Err(err));
                },
                Ok(()) => {},
            }
            assert(all.skip(done).skip(1) =~= all.skip(done + 1));
            valid.push(report);
            assert(left@ =~= reports@.skip(done + 1));
            assert(valid@ =~= reports@.take(done + 1));
        }
        assert(views(valid@) =~= all.take(all.len() as int));
        (valid, Ok(()))
    }
}

/// What holds at every point of a poll: what has been collected are whole reports, and
/// together with the reads that are left they are no more than are taken in at a time.
pub open spec fn poll_wf(poll: Poll) -> bool {
    &&& poll.reports.len() + poll.left <= MAX_REPORTS_PER_CYCLE
    &&& forall|i: int|
        0 <= i < poll.reports.len() ==> report_validity(#[trigger] poll.reports[i]) is Ok
}

/// Whatever comes from the virtual device, a poll hands out whole reports only, and no more
/// than the client takes in at a time.
pub proof fn polls_hand_out_whole_reports(poll: Poll, event: Uhid)
    requires
        poll_wf(poll),
    ensures
        poll_wf(taken_in(poll, event).0),
        poll_wf(read_on(poll).0),
        poll_wf(Poll { reports: seq![], left: MAX_REPORTS_PER_CYCLE as nat }),
        taken_in(poll, event).1 matches Ok(ServerAct::Done(reports)) ==> reports.len()
            <= MAX_REPORTS_PER_CYCLE && forall|i: int|
            0 <= i < reports.len() ==> report_validity(#[trigger] reports[i]) is Ok,
        read_on(poll).1 matches Ok(ServerAct::Done(reports)) ==> reports.len()
            <= MAX_REPORTS_PER_CYCLE && forall|i: int|
            0 <= i < reports.len() ==> report_validity(#[trigger] reports[i]) is Ok,
{
}

/// Reports that are all whole, and not too many, are all written to the virtual device.
pub proof fn whole_reports_are_written(reports: Seq<Seq<u8>>)
    requires
        forall|i: int| 0 <= i < reports.len() ==> report_validity(#[trigger] reports[i]) is Ok,
    ensures
        valid_count(reports) == reports.len(),
    decreases reports.len(),
{
    if reports.len() > 0 {
        assert forall|i: int| 0 <= i < reports.skip(1).len() implies report_validity(
            #[trigger] reports.skip(1)[i],
        ) is Ok by {
            assert(reports.skip(1)[i] == reports[i + 1]);
        }
        whole_reports_are_written(reports.skip(1));
    }
}

/// A virtual authenticator has the vendor and the product that were announced, which have 16
/// bits each, and a name that starts in its own way and goes on with at most 80 characters of
/// the announced one. Larger identifiers are refused.
pub proof fn virtual_authenticators_are_what_was_announced(
    device: Device,
    virtual_id: Option<Seq<char>>,
)
    ensures
        device.vendor_id > 0xffff || device.product_id > 0xffff <==> virtual_setup(
            device,
            virtual_id,
        ) == Err::<Setup, _>(FidoError::DeviceIdentifier),
        virtual_setup(device, virtual_id) matches Ok(setup) ==> {
            let shown = setup.name.skip(16);
            &&& setup.vendor == device.vendor_id
            &&& setup.product == device.product_id
            &&& setup.name.len() >= 16 && setup.name.take(16) == "Sanzu forwarded "@
            &&& shown.is_prefix_of(device.product_name)
            &&& device.product_name.len() <= 80 ==> shown == device.product_name
            &&& device.product_name.len() > 80 ==> shown.len() == 80
            &&& physical_path(virtual_id) == Ok::<_, FidoError>(setup.phys)
            &&& setup.descriptor == descriptor()
        },
        virtual_setup(device, virtual_id) is Ok <==> device.vendor_id <= 0xffff
            && device.product_id <= 0xffff && physical_path(virtual_id) is Ok,
{
    reveal_strlit("Sanzu forwarded ");
    if let Ok(setup) = virtual_setup(device, virtual_id) {
        assert(setup.name.skip(16) =~= at_most(device.product_name, 80));
        assert(setup.name.take(16) =~= "Sanzu forwarded "@);
    }
}

/// An identifier is taken exactly where it has 1 to 64 characters, each an ASCII letter or
/// digit, `_` or `-`; the path ends with it. Without one the path is a fixed one.
pub proof fn identifiers_are_short_and_plain(id: Seq<char>)
    ensures
        physical_path(Some(id)) is Ok <==> 1 <= id.len() <= 64 && (forall|i: int|
            0 <= i < id.len() ==> is_plain(#[trigger] id[i])),
        physical_path(Some(id)) matches Ok(path) ==> path.len() == 11 + id.len() && path.skip(11)
            == id && path.take(11) == "sanzu/fido/"@,
        physical_path(Some(id)) matches Err(err) ==> err == FidoError::VirtualIdentifier,
        physical_path(None) == Ok::<_, FidoError>("sanzu/fido0"@),
{
    reveal_strlit("sanzu/fido/");
    if let Ok(path) = physical_path(Some(id)) {
        assert(path.skip(11) =~= id);
        assert(path.take(11) =~= "sanzu/fido/"@);
    }
    assert forall|c: char| identifier_char(c) == #[trigger] is_plain(c) by {
        lemma_plain(c);
    }
    if is_identifier(id) {
        assert forall|i: int| 0 <= i < id.len() implies is_plain(#[trigger] id[i]) by {
            assert(identifier_char(id[i]));
        }
    } else if forall|i: int| 0 <= i < id.len() ==> is_plain(#[trigger] id[i]) {
        assert forall|i: int| 0 <= i < id.len() implies identifier_char(#[trigger] id[i]) by {
            assert(is_plain(id[i]));
        }
    }
}

proof fn lemma_plain(c: char)
    ensures
        identifier_char(c) == is_plain(c),
{
    let code = c as u32;
    assert(code == c);
}

/// The ASCII code of a letter, a digit, `_` or `-`.
pub open spec fn is_plain(c: char) -> bool {
    ||| 0x61 <= c as u32 <= 0x7a
    ||| 0x41 <= c as u32 <= 0x5a
    ||| 0x30 <= c as u32 <= 0x39
    ||| c as u32 == 0x5f
    ||| c as u32 == 0x2d
}

/// While reads are left, each event takes one of them. A whole output, with a zero before it
/// or without, goes behind what has been collected; an output of another size is passed over,
/// and its size is told. Requests are turned down in their own way and by their own number.
/// Where there is nothing to read, what has been collected is handed out in its order.
/// Failures and unknown events end the poll.
pub proof fn polls_collect_in_order(poll: Poll, event: Uhid, report: Seq<u8>)
    requires
        poll.left > 0,
        report.len() == 64,
    ensures
        ({
            let (next, result) = taken_in(poll, event);
            let goes_on = |after: Poll, outcome: Result<ServerAct, FidoError>|
                if poll.left > 1 {
                    outcome == Ok::<_, FidoError>(ServerAct::Read) && next == after
                } else {
                    outcome == Ok::<_, FidoError>(ServerAct::Done(after.reports))
                };
            let left = (poll.left - 1) as nat;
            match event {
                Uhid::Output(data) => {
                    &&& data == report || data == seq![0u8] + report ==> goes_on(
                        Poll { reports: poll.reports + seq![report], left },
                        result,
                    )
                    &&& data.len() != 64 && (data.len() != 65 || data[0] != 0) ==> result == Ok::<
                        _,
                        FidoError,
                    >(ServerAct::Ignored(data.len())) && next == (Poll { left, ..poll })
                },
                Uhid::GetReport(id) => result == Ok::<_, FidoError>(ServerAct::RejectGet(id))
                    && next == (Poll { left, ..poll }),
                Uhid::SetReport(id) => result == Ok::<_, FidoError>(ServerAct::RejectSet(id))
                    && next == (Poll { left, ..poll }),
                Uhid::Lifecycle => goes_on(Poll { left, ..poll }, result),
                Uhid::WouldBlock => result == Ok::<_, FidoError>(ServerAct::Done(poll.reports)),
                Uhid::Failed => result == Err::<ServerAct, _>(FidoError::Device),
                Uhid::Unknown(kind) => result == Err::<ServerAct, _>(
                    FidoError::UnknownEvent(kind),
                ),
            }
        }),
{
    assert((seq![0u8] + report).skip(1) =~= report);
    assert(poll.reports.push(report) =~= poll.reports + seq![report]);
}

/// A poll starts with nothing collected and reads at most 64 times; when no read is left, it
/// hands out what has been collected.
pub proof fn polls_read_at_most_64_times(poll: Poll, event: Uhid)
    ensures
        poll_started().reports.len() == 0,
        poll_started().left == 64,
        poll.left > 0 ==> read_on(poll) == (poll, Ok::<_, FidoError>(ServerAct::Read)),
        poll.left == 0 ==> read_on(poll).1 == Ok::<_, FidoError>(ServerAct::Done(poll.reports))
            && taken_in(poll, event).1 == Ok::<_, FidoError>(ServerAct::Done(poll.reports)),
        poll.left == 0 ==> read_on(poll).0.reports.len() == 0,
        poll.left > 0 ==> taken_in(poll, event).0.left < poll.left,
{
}

/// Of a packet of more than 64 reports none is written. Of a smaller one the reports up to
/// the first that has not 64 bytes are written, in their order; that one is refused for its
/// length, and without one all are written.
pub proof fn packets_are_written_up_to_a_bad_report(reports: Seq<Seq<u8>>, bad: int)
    ensures
        reports.len() > 64 ==> passed_on(reports) == (
            Seq::<Seq<u8>>::empty(),
            Err::<(), _>(FidoError::TooManyReports),
        ),
        reports.len() <= 64 && (forall|i: int|
            0 <= i < reports.len() ==> (#[trigger] reports[i]).len() == 64) ==> passed_on(reports)
            == (reports, Ok::<(), FidoError>(())),
        reports.len() <= 64 && 0 <= bad < reports.len() && reports[bad].len() != 64 && (forall|
            i: int,
        |
            0 <= i < bad ==> (#[trigger] reports[i]).len() == 64) ==> passed_on(reports) == (
            reports.take(bad),
            Err::<(), _>(FidoError::ReportSize(reports[bad].len() as usize)),
        ),
{
    if forall|i: int| 0 <= i < reports.len() ==> (#[trigger] reports[i]).len() == 64 {
        assert forall|i: int| 0 <= i < reports.len() implies report_validity(#[trigger] reports[i])
            is Ok by {
            assert(reports[i].len() == 64);
        }
        whole_reports_are_written(reports);
        assert(reports.take(reports.len() as int) =~= reports);
    }
    if 0 <= bad < reports.len() && reports[bad].len() != 64 && (forall|i: int|
        0 <= i < bad ==> (#[trigger] reports[i]).len() == 64) {
        lemma_valid_count(reports, bad);
    }
}

proof fn lemma_valid_count(reports: Seq<Seq<u8>>, bad: int)
    requires
        0 <= bad < reports.len(),
        reports[bad].len() != 64,
        forall|i: int| 0 <= i < bad ==> (#[trigger] reports[i]).len() == 64,
    ensures
        valid_count(reports) == bad,
    decreases reports.len(),
{
    if bad > 0 {
        assert(reports[0].len() == 64);
        let rest = reports.skip(1);
        assert forall|i: int| 0 <= i < bad - 1 implies (#[trigger] rest[i]).len() == 64 by {
            assert(rest[i] == reports[i + 1]);
        }
        assert(rest[bad - 1] == reports[bad]);
        lemma_valid_count(rest, bad - 1);
    }
}

} // verus!
