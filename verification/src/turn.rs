//! The order of a turn of the client loop.
//!
//! A turn polls the display and the authenticator, sends what they gave, receives the
//! server's messages, deals with them one by one, shows the image, and updates the windows.
//! [`ClientTurn::begin`] and [`ClientTurn::step`] say what to do next, and
//! [`ClientTurn::step`] is told what came of it.

use std::collections::VecDeque;

use vstd::prelude::*;

use crate::client_loop::{
    handled, image_taken, image_within_limits, oversized_images_are_never_kept, plain_stats,
    raw_kept, reports_checked, scaled_areas, stopped, with_areas, ClientLoop, Effect,
    ServerMessage, Showing,
};
use crate::error::ClientError;
use crate::geometry::{events_mapped, scale_client_events, Area, ClientEvent};
use crate::interface::Stop;

verus! {

/// What a turn waits for.
#[derive(Debug)]
pub enum TurnStage {
    /// Nothing: no turn is under way.
    Beginning,
    /// The events of the display.
    Polling,
    /// The reports of the authenticator.
    PollingFido,
    /// The events and reports to be sent.
    Sending,
    /// The messages of the server.
    Receiving,
    /// The server's reports to be written to the authenticator.
    WritingFido,
    /// Nothing but to go on with the messages.
    Handling,
    /// What a message asks for to be done.
    Performing,
    /// An image of this size, out of a window dump.
    ReadingXwd { width: u32, height: u32 },
    /// An image of this size, out of the shared memory.
    ReadingShared { width: u32, height: u32, bytes_per_line: u32 },
    /// The decoder to be set up anew, for this image.
    Reloading(Showing),
    /// The decoded image.
    Decoding,
    /// The image to be shown.
    Showing,
    /// The size of the display.
    Measuring,
    /// The windows to be updated.
    Updating,
}

/// What to do next. `B` is what a button event holds beside its place, `O` any other user
/// event.
#[derive(Debug)]
pub enum TurnAction<B, O> {
    /// Poll the events of the display.
    PollEvents,
    /// Poll the reports of the authenticator.
    PollFido,
    /// Send the events of this turn, mapped to the remote desktop, and these reports.
    Send { events: Vec<ClientEvent<B, O>>, fido_reports: Vec<Vec<u8>> },
    /// Receive the server's messages.
    Receive,
    /// Write the server's reports to the authenticator.
    WriteFido(Vec<Vec<u8>>),
    /// Nothing: go on.
    Proceed,
    /// Do what a message asks for.
    Perform(Effect),
    /// Set the decoder up anew.
    Reload,
    /// Decode an image.
    Decode(Showing),
    /// Show the first bytes of the decoded image. Where statistics are displayed, this text
    /// goes over it, at this height.
    Show { text: String, height: i32, length: u64 },
    /// Tell the size of the display.
    Measure,
    /// Update the windows.
    Update,
}

/// What came of it.
#[derive(Debug)]
pub enum TurnEvent<B, O> {
    /// It was done.
    Done,
    /// It failed.
    Failed,
    /// What the user did, on a display of this size.
    Polled { events: Vec<ClientEvent<B, O>>, display_size: (u16, u16) },
    /// What the authenticator reported.
    FidoPolled(Vec<Vec<u8>>),
    /// What the server sent.
    Received { messages: VecDeque<ServerMessage>, fido_reports: Vec<Vec<u8>> },
    /// The image out of a window dump.
    XwdRead { data: Vec<u8>, bytes_per_line: u32 },
    /// The image out of the shared memory.
    SharedRead(Vec<u8>),
    /// Whether there is a decoded image.
    Decoded(bool),
    /// The size of the display.
    Measured(u16, u16),
}

/// A client loop in a turn: its state, what it waits for, the events still to be sent, and
/// the messages still to be dealt with.
#[derive(Debug)]
pub struct ClientTurn<B, O> {
    pub state: ClientLoop,
    pub stage: TurnStage,
    pub events: Vec<ClientEvent<B, O>>,
    pub waiting: VecDeque<ServerMessage>,
}

/// The turn goes on to a stage, and nothing else changes.
pub open spec fn moved<B, O>(before: ClientTurn<B, O>, stage: TurnStage, after: ClientTurn<B, O>) -> bool {
    after == (ClientTurn { stage, ..before })
}

/// A turn begins: nothing has been received in it yet.
pub open spec fn turn_begun<B, O>(
    before: ClientTurn<B, O>,
    after: ClientTurn<B, O>,
    result: Result<TurnAction<B, O>, Stop>,
) -> bool {
    &&& with_areas(
        after.state,
        ClientLoop { image: None, ..before.state },
        Map::<usize, Area>::empty(),
    )
    &&& after.stage == TurnStage::Polling
    &&& after.events == before.events
    &&& after.waiting == before.waiting
    &&& result == Ok::<TurnAction<B, O>, Stop>(TurnAction::PollEvents)
}

/// These events and reports are sent. No event is left.
pub open spec fn events_sent<B, O>(
    before: ClientTurn<B, O>,
    mapped: Seq<ClientEvent<B, O>>,
    reports: Seq<Vec<u8>>,
    after: ClientTurn<B, O>,
    result: Result<TurnAction<B, O>, Stop>,
) -> bool {
    &&& after == (ClientTurn { stage: TurnStage::Sending, events: after.events, ..before })
    &&& after.events@.len() == 0
    &&& result matches Ok(TurnAction::Send { events, fido_reports })
    &&& events@ == mapped
    &&& fido_reports@ == reports
}

/// What the user did is mapped from the display to the remote desktop. The authenticator is
/// polled next, where there is one.
pub open spec fn events_polled<B, O, F: Fn(u32) -> u32>(
    before: ClientTurn<B, O>,
    polled: Seq<ClientEvent<B, O>>,
    display_size: (u16, u16),
    divide: F,
    after: ClientTurn<B, O>,
    result: Result<TurnAction<B, O>, Stop>,
) -> bool {
    if before.state.fido {
        &&& after == (ClientTurn {
            stage: TurnStage::PollingFido,
            events: after.events,
            ..before
        })
        &&& events_mapped(polled, after.events@, display_size, before.state.size, divide)
        &&& result == Ok::<TurnAction<B, O>, Stop>(TurnAction::PollFido)
    } else {
        &&& result matches Ok(TurnAction::Send { events, .. })
        &&& events_mapped(polled, events@, display_size, before.state.size, divide)
        &&& events_sent(before, events@, seq![], after, result)
    }
}

/// The server's messages are taken in, unless its FIDO reports are refused. Reports come
/// before messages.
pub open spec fn messages_taken<B, O>(
    before: ClientTurn<B, O>,
    messages: VecDeque<ServerMessage>,
    fido_reports: Vec<Vec<u8>>,
    after: ClientTurn<B, O>,
    result: Result<TurnAction<B, O>, Stop>,
) -> bool {
    match reports_checked(before.state, fido_reports@) {
        Err(stop) => moved(before, TurnStage::Beginning, after) && result == Err::<TurnAction<B, O>, _>(
            stop,
        ),
        Ok(()) => after.state == before.state && after.events == before.events && after.waiting
            == messages && if before.state.fido {
            after.stage == TurnStage::WritingFido && result == Ok::<TurnAction<B, O>, Stop>(
                TurnAction::WriteFido(fido_reports),
            )
        } else {
            after.stage == TurnStage::Handling && result == Ok::<TurnAction<B, O>, Stop>(TurnAction::Proceed)
        },
    }
}

/// What a turn waits for while an effect is performed.
pub open spec fn performing(effect: Effect) -> TurnStage {
    match effect {
        Effect::ReadXwd { width, height } => TurnStage::ReadingXwd { width, height },
        Effect::ReadShared { width, height, bytes_per_line, .. } => TurnStage::ReadingShared {
            width,
            height,
            bytes_per_line,
        },
        _ => TurnStage::Performing,
    }
}

/// The first waiting message is dealt with.
pub open spec fn message_handled<B, O>(
    before: ClientTurn<B, O>,
    after: ClientTurn<B, O>,
    result: Result<TurnAction<B, O>, Stop>,
) -> bool {
    &&& after.events == before.events
    &&& after.waiting@ == before.waiting@.skip(1)
    &&& match result {
        Err(stop) => after.stage == TurnStage::Beginning && handled(
            before.state,
            before.waiting@[0],
            after.state,
            Err(stop),
        ),
        Ok(TurnAction::Perform(effect)) => after.stage == performing(effect) && handled(
            before.state,
            before.waiting@[0],
            after.state,
            Ok(Some(effect)),
        ),
        Ok(TurnAction::Proceed) => after.stage == TurnStage::Handling && handled(
            before.state,
            before.waiting@[0],
            after.state,
            Ok(None),
        ),
        Ok(_) => false,
    }
}

/// The image of this turn is decoded, by a decoder for its size. Without one the windows
/// come next.
pub open spec fn image_shown<B, O>(
    before: ClientTurn<B, O>,
    after: ClientTurn<B, O>,
    result: Result<TurnAction<B, O>, Stop>,
) -> bool {
    let (state, taken) = image_taken(before.state);
    &&& after.state == state
    &&& after.events == before.events
    &&& after.waiting@ == before.waiting@
    &&& match taken {
        None => after.stage == TurnStage::Measuring && result == Ok::<TurnAction<B, O>, Stop>(TurnAction::Measure),
        Some(showing) => if showing.reload {
            after.stage == TurnStage::Reloading(showing) && result == Ok::<TurnAction<B, O>, Stop>(
                TurnAction::Reload,
            )
        } else {
            after.stage == TurnStage::Decoding && result == Ok::<TurnAction<B, O>, Stop>(
                TurnAction::Decode(showing),
            )
        },
    }
}

/// A raw image that was read is kept.
pub open spec fn image_read<B, O>(
    before: ClientTurn<B, O>,
    data: Vec<u8>,
    width: u32,
    height: u32,
    bytes_per_line: u32,
    after: ClientTurn<B, O>,
    result: Result<TurnAction<B, O>, Stop>,
) -> bool {
    let (state, kept) = raw_kept(before.state, data, width, height, bytes_per_line);
    &&& after.state == state
    &&& after.events == before.events
    &&& after.waiting == before.waiting
    &&& match kept {
        Ok(()) => after.stage == TurnStage::Handling && result == Ok::<TurnAction<B, O>, Stop>(
            TurnAction::Proceed,
        ),
        Err(stop) => after.stage == TurnStage::Beginning && result == Err::<TurnAction<B, O>, _>(stop),
    }
}

/// Why the session ends when a stage fails. The server is told of none of these.
pub open spec fn turn_failure(stage: TurnStage) -> ClientError {
    match stage {
        TurnStage::Polling => ClientError::Display,
        TurnStage::PollingFido => ClientError::Fido,
        TurnStage::Sending => ClientError::Exchange,
        TurnStage::Receiving => ClientError::Exchange,
        TurnStage::WritingFido => ClientError::Fido,
        TurnStage::ReadingXwd { .. } => ClientError::ImageSource,
        TurnStage::ReadingShared { .. } => ClientError::ImageSource,
        TurnStage::Reloading(_) => ClientError::Codec,
        TurnStage::Showing => ClientError::Display,
        TurnStage::Updating => ClientError::Display,
        _ => ClientError::UnexpectedEvent,
    }
}

/// Goes on with what came of the outside work. What a message asks for may fail; any other
/// failure ends the session. What the server sent can end it too, and then no turn is under
/// way any more.
pub open spec fn turned<B, O, F: Fn(u32) -> u32>(
    before: ClientTurn<B, O>,
    event: TurnEvent<B, O>,
    divide: F,
    after: ClientTurn<B, O>,
    result: Result<TurnAction<B, O>, Stop>,
) -> bool {
    match (before.stage, event) {
        (TurnStage::Polling, TurnEvent::Polled { events, display_size }) => events_polled(
            before,
            events@,
            display_size,
            divide,
            after,
            result,
        ),
        (TurnStage::PollingFido, TurnEvent::FidoPolled(reports)) => events_sent(
            before,
            before.events@,
            reports@,
            after,
            result,
        ),
        (TurnStage::Sending, TurnEvent::Done) => moved(before, TurnStage::Receiving, after)
            && result == Ok::<TurnAction<B, O>, Stop>(TurnAction::Receive),
        (
            TurnStage::Receiving,
            TurnEvent::Received { messages, fido_reports },
        ) => messages_taken(before, messages, fido_reports, after, result),
        (TurnStage::WritingFido, TurnEvent::Done) => moved(before, TurnStage::Handling, after)
            && result == Ok::<TurnAction<B, O>, Stop>(TurnAction::Proceed),
        (TurnStage::Handling, TurnEvent::Done) => if before.waiting@.len() > 0 {
            message_handled(before, after, result)
        } else {
            image_shown(before, after, result)
        },
        (TurnStage::Performing, TurnEvent::Done) => moved(before, TurnStage::Handling, after)
            && result == Ok::<TurnAction<B, O>, Stop>(TurnAction::Proceed),
        (TurnStage::Performing, TurnEvent::Failed) => moved(before, TurnStage::Handling, after)
            && result == Ok::<TurnAction<B, O>, Stop>(TurnAction::Proceed),
        (
            TurnStage::ReadingXwd { width, height },
            TurnEvent::XwdRead { data, bytes_per_line },
        ) => image_read(before, data, width, height, bytes_per_line, after, result),
        (
            TurnStage::ReadingShared { width, height, bytes_per_line },
            TurnEvent::SharedRead(data),
        ) => image_read(before, data, width, height, bytes_per_line, after, result),
        (TurnStage::Reloading(showing), TurnEvent::Done) => moved(
            before,
            TurnStage::Decoding,
            after,
        ) && result == Ok::<TurnAction<B, O>, Stop>(TurnAction::Decode(showing)),
        (TurnStage::Decoding, TurnEvent::Decoded(true)) => moved(before, TurnStage::Showing, after)
            && (result matches Ok(TurnAction::Show { text, height, length }) && text@
            == plain_stats(before.state.stats@) && height == before.state.size.1 - 50 && length
            == before.state.size.0 * before.state.size.1 * 4),
        (TurnStage::Decoding, TurnEvent::Decoded(false)) => moved(
            before,
            TurnStage::Measuring,
            after,
        ) && result == Ok::<TurnAction<B, O>, Stop>(TurnAction::Measure),
        (TurnStage::Showing, TurnEvent::Done) => moved(before, TurnStage::Measuring, after)
            && result == Ok::<TurnAction<B, O>, Stop>(TurnAction::Measure),
        (TurnStage::Measuring, TurnEvent::Measured(width, height)) => {
            &&& with_areas(
                after.state,
                before.state,
                scaled_areas(before.state.areas@, before.state.size, (width, height)),
            )
            &&& after.stage == TurnStage::Updating
            &&& after.events == before.events
            &&& after.waiting == before.waiting
            &&& result == Ok::<TurnAction<B, O>, Stop>(TurnAction::Update)
        },
        (TurnStage::Updating, TurnEvent::Done) => turn_begun(before, after, result),
        (stage, TurnEvent::Failed) => after == before && result == Err::<TurnAction<B, O>, _>(
            stopped(turn_failure(stage), false),
        ),
        _ => after == before && result == Err::<TurnAction<B, O>, _>(
            stopped(ClientError::UnexpectedEvent, false),
        ),
    }
}

impl<B, O> ClientTurn<B, O> {
    /// A loop before its first turn.
    pub fn new(state: ClientLoop) -> (turn: Self)
        ensures
            turn.state == state,
            turn.stage == TurnStage::Beginning,
            turn.events@.len() == 0,
            turn.waiting@.len() == 0,
    {
        ClientTurn {
            state,
            stage: TurnStage::Beginning,
            events: Vec::new(),
            waiting: VecDeque::new(),
        }
    }

    /// Begins a turn.
    pub fn begin(&mut self) -> (result: Result<TurnAction<B, O>, Stop>)
        ensures
            turn_begun(*old(self), *final(self), result),
    {
        self.state.begin_turn();
        self.stage = TurnStage::Polling;
        Ok(TurnAction::PollEvents)
    }

    fn send(&mut self, events: Vec<ClientEvent<B, O>>, fido_reports: Vec<Vec<u8>>) -> (result:
        Result<TurnAction<B, O>, Stop>)
        requires
            old(self).events@.len() == 0,
        ensures
            events_sent(*old(self), events@, fido_reports@, *final(self), result),
    {
        self.stage = TurnStage::Sending;
        Ok(TurnAction::Send { events, fido_reports })
    }

    fn take_events<F: Fn(u32) -> u32>(
        &mut self,
        events: Vec<ClientEvent<B, O>>,
        display_size: (u16, u16),
        divide: F,
    ) -> (result: Result<TurnAction<B, O>, Stop>)
        requires
            forall|dimension: u32| #[trigger] divide.requires((dimension,)),
        ensures
            events_polled(*old(self), events@, display_size, divide, *final(self), result),
    {
        let mut events = events;
        scale_client_events(&mut events, display_size, self.state.size, divide);
        if self.state.fido {
            self.events = events;
            self.stage = TurnStage::PollingFido;
            Ok(TurnAction::PollFido)
        } else {
            self.events = Vec::new();
            self.send(events, Vec::new())
        }
    }

    fn take_messages(
        &mut self,
        messages: VecDeque<ServerMessage>,
        fido_reports: Vec<Vec<u8>>,
    ) -> (result: Result<TurnAction<B, O>, Stop>)
        requires
            old(self).stage == TurnStage::Beginning,
        ensures
            messages_taken(*old(self), messages, fido_reports, *final(self), result),
    {
        self.state.check_fido_reports(&fido_reports)?;
        self.waiting = messages;
        if self.state.fido {
            self.stage = TurnStage::WritingFido;
            Ok(TurnAction::WriteFido(fido_reports))
        } else {
            self.stage = TurnStage::Handling;
            Ok(TurnAction::Proceed)
        }
    }

    fn handle_message(&mut self, message: ServerMessage) -> (result: Result<TurnAction<B, O>, Stop>)
        requires
            old(self).stage == TurnStage::Beginning,
        ensures
            final(self).events == old(self).events,
            final(self).waiting == old(self).waiting,
            match result {
                Err(stop) => final(self).stage == TurnStage::Beginning && handled(
                    old(self).state,
                    message,
                    final(self).state,
                    Err(stop),
                ),
                Ok(TurnAction::Perform(effect)) => final(self).stage == performing(effect)
                    && handled(old(self).state, message, final(self).state, Ok(Some(effect))),
                Ok(TurnAction::Proceed) => final(self).stage == TurnStage::Handling && handled(
                    old(self).state,
                    message,
                    final(self).state,
                    Ok(None),
                ),
                Ok(_) => false,
            },
    {
        match self.state.handle(message)? {
            None => {
                self.stage = TurnStage::Handling;
                Ok(TurnAction::Proceed)
            },
            Some(effect) => {
                self.stage = match &effect {
                    Effect::ReadXwd { width, height } => TurnStage::ReadingXwd {
                        width: *width,
                        height: *height,
                    },
                    Effect::ReadShared { width, height, bytes_per_line, .. } => {
                        TurnStage::ReadingShared {
                            width: *width,
                            height: *height,
                            bytes_per_line: *bytes_per_line,
                        }
                    },
                    _ => TurnStage::Performing,
                };
                Ok(TurnAction::Perform(effect))
            },
        }
    }

    fn show_image(&mut self) -> (result: Result<TurnAction<B, O>, Stop>)
        ensures
            image_shown(*old(self), *final(self), result),
    {
        match self.state.take_image() {
            None => {
                self.stage = TurnStage::Measuring;
                Ok(TurnAction::Measure)
            },
            Some(showing) => {
                if showing.reload {
                    self.stage = TurnStage::Reloading(showing);
                    Ok(TurnAction::Reload)
                } else {
                    self.stage = TurnStage::Decoding;
                    Ok(TurnAction::Decode(showing))
                }
            },
        }
    }

    fn keep_image(&mut self, data: Vec<u8>, width: u32, height: u32, bytes_per_line: u32) -> (
        result: Result<TurnAction<B, O>, Stop>)
        requires
            old(self).stage == TurnStage::Beginning,
        ensures
            image_read(*old(self), data, width, height, bytes_per_line, *final(self), result),
    {
        self.state.keep_raw(data, width, height, bytes_per_line)?;
        self.stage = TurnStage::Handling;
        Ok(TurnAction::Proceed)
    }

    fn go_to(&mut self, stage: TurnStage, action: TurnAction<B, O>) -> (result: Result<TurnAction<B, O>, Stop>)
        ensures
            moved(*old(self), stage, *final(self)),
            result == Ok::<TurnAction<B, O>, Stop>(action),
    {
        self.stage = stage;
        Ok(action)
    }

    fn fail(&self) -> (result: Result<TurnAction<B, O>, Stop>)
        ensures
            result == Err::<TurnAction<B, O>, _>(stopped(turn_failure(self.stage), false)),
    {
        let error = match &self.stage {
            TurnStage::Polling => ClientError::Display,
            TurnStage::PollingFido => ClientError::Fido,
            TurnStage::Sending => ClientError::Exchange,
            TurnStage::Receiving => ClientError::Exchange,
            TurnStage::WritingFido => ClientError::Fido,
            TurnStage::ReadingXwd { .. } => ClientError::ImageSource,
            TurnStage::ReadingShared { .. } => ClientError::ImageSource,
            TurnStage::Reloading(_) => ClientError::Codec,
            TurnStage::Showing => ClientError::Display,
            TurnStage::Updating => ClientError::Display,
            _ => ClientError::UnexpectedEvent,
        };
        Err(Stop { error, notify: false })
    }

    /// Goes on with what came of the outside work. What was not asked for ends the session.
    /// `divide` gives a dimension divided by the zoom, rounded.
    pub fn step<F: Fn(u32) -> u32>(&mut self, event: TurnEvent<B, O>, divide: F) -> (result: Result<
        TurnAction<B, O>,
        Stop,
    >)
        requires
            forall|dimension: u32| #[trigger] divide.requires((dimension,)),
        ensures
            turned(*old(self), event, divide, *final(self), result),
    {
        let mut stage = TurnStage::Beginning;
        core::mem::swap(&mut stage, &mut self.stage);
        match (stage, event) {
            (TurnStage::Polling, TurnEvent::Polled { events, display_size }) => {
                self.take_events(events, display_size, divide)
            },
            (TurnStage::PollingFido, TurnEvent::FidoPolled(reports)) => {
                let mut events: Vec<ClientEvent<B, O>> = Vec::new();
                core::mem::swap(&mut events, &mut self.events);
                self.send(events, reports)
            },
            (TurnStage::Sending, TurnEvent::Done) => self.go_to(
                TurnStage::Receiving,
                TurnAction::Receive,
            ),
            (TurnStage::Receiving, TurnEvent::Received { messages, fido_reports }) => {
                self.take_messages(messages, fido_reports)
            },
            (TurnStage::WritingFido, TurnEvent::Done) => self.go_to(
                TurnStage::Handling,
                TurnAction::Proceed,
            ),
            (TurnStage::Handling, TurnEvent::Done) => match self.waiting.pop_front() {
                Some(message) => {
                    assert(self.waiting@ =~= old(self).waiting@.skip(1));
                    self.handle_message(message)
                },
                None => self.show_image(),
            },
            (TurnStage::Performing, TurnEvent::Done) => self.go_to(
                TurnStage::Handling,
                TurnAction::Proceed,
            ),
            (TurnStage::Performing, TurnEvent::Failed) => self.go_to(
                TurnStage::Handling,
                TurnAction::Proceed,
            ),
            (
                TurnStage::ReadingXwd { width, height },
                TurnEvent::XwdRead { data, bytes_per_line },
            ) => self.keep_image(data, width, height, bytes_per_line),
            (
                TurnStage::ReadingShared { width, height, bytes_per_line },
                TurnEvent::SharedRead(data),
            ) => self.keep_image(data, width, height, bytes_per_line),
            (TurnStage::Reloading(showing), TurnEvent::Done) => self.go_to(
                TurnStage::Decoding,
                TurnAction::Decode(showing),
            ),
            (TurnStage::Decoding, TurnEvent::Decoded(true)) => {
                let (text, height) = self.state.stats_text();
                let length: u64 = self.state.shown_length();
                self.go_to(TurnStage::Showing, TurnAction::Show { text, height, length })
            },
            (TurnStage::Decoding, TurnEvent::Decoded(false)) => self.go_to(
                TurnStage::Measuring,
                TurnAction::Measure,
            ),
            (TurnStage::Showing, TurnEvent::Done) => self.go_to(
                TurnStage::Measuring,
                TurnAction::Measure,
            ),
            (TurnStage::Measuring, TurnEvent::Measured(width, height)) => {
                self.state.scale_areas((width, height));
                self.go_to(TurnStage::Updating, TurnAction::Update)
            },
            (TurnStage::Updating, TurnEvent::Done) => self.begin(),
            (stage, TurnEvent::Failed) => {
                self.stage = stage;
                self.fail()
            },
            (stage, _) => {
                self.stage = stage;
                Err(Stop { error: ClientError::UnexpectedEvent, notify: false })
            },
        }
    }
}

/// The place of a stage in a turn.
pub open spec fn place(stage: TurnStage) -> nat {
    match stage {
        TurnStage::Beginning => 0,
        TurnStage::Polling => 1,
        TurnStage::PollingFido => 2,
        TurnStage::Sending => 3,
        TurnStage::Receiving => 4,
        TurnStage::WritingFido => 5,
        TurnStage::Handling => 6,
        TurnStage::Performing => 6,
        TurnStage::ReadingXwd { .. } => 6,
        TurnStage::ReadingShared { .. } => 6,
        TurnStage::Reloading(_) => 7,
        TurnStage::Decoding => 8,
        TurnStage::Showing => 9,
        TurnStage::Measuring => 10,
        TurnStage::Updating => 11,
    }
}

/// What is asked for at a stage.
pub open spec fn asked_at<B, O>(stage: TurnStage, action: TurnAction<B, O>) -> bool {
    match action {
        TurnAction::PollEvents => stage == TurnStage::Polling,
        TurnAction::PollFido => stage == TurnStage::PollingFido,
        TurnAction::Send { .. } => stage == TurnStage::Sending,
        TurnAction::Receive => stage == TurnStage::Receiving,
        TurnAction::WriteFido(_) => stage == TurnStage::WritingFido,
        TurnAction::Proceed => stage == TurnStage::Handling,
        TurnAction::Perform(effect) => stage == performing(effect),
        TurnAction::Reload => stage is Reloading,
        TurnAction::Decode(_) => stage == TurnStage::Decoding,
        TurnAction::Show { .. } => stage == TurnStage::Showing,
        TurnAction::Measure => stage == TurnStage::Measuring,
        TurnAction::Update => stage == TurnStage::Updating,
    }
}

/// A turn goes through its steps in order: the display and the authenticator are polled,
/// what they gave is sent, the server's messages are received, its reports are written to
/// the authenticator, its messages are dealt with one by one, the image is shown, and the
/// windows are updated. Then the next turn begins: nothing but an error ends the loop.
pub proof fn turns_keep_their_order<B, O, F: Fn(u32) -> u32>(
    before: ClientTurn<B, O>,
    event: TurnEvent<B, O>,
    divide: F,
    after: ClientTurn<B, O>,
    result: Result<TurnAction<B, O>, Stop>,
)
    requires
        turned(before, event, divide, after, result),
    ensures
        result matches Ok(action) ==> {
            &&& asked_at(after.stage, action)
            &&& {
                ||| place(before.stage) < place(after.stage)
                ||| before.stage is Handling && place(after.stage) == 6 && after.waiting@
                    == before.waiting@.skip(1) && before.waiting@.len() > 0
                ||| place(before.stage) == 6 && !(before.stage is Handling) && after.stage
                    is Handling && after.waiting@ == before.waiting@
                ||| before.stage is Updating && turn_begun(before, after, result)
            }
        },
{
}

/// What is sent is what the user did, mapped from the display to the remote desktop, and
/// what the authenticator reported; where there is no authenticator, nothing is reported.
pub proof fn what_was_polled_is_sent<B, O, F: Fn(u32) -> u32>(
    before: ClientTurn<B, O>,
    polled: Vec<ClientEvent<B, O>>,
    display_size: (u16, u16),
    divide: F,
    middle: ClientTurn<B, O>,
    first: Result<TurnAction<B, O>, Stop>,
    reports: Vec<Vec<u8>>,
    after: ClientTurn<B, O>,
    second: Result<TurnAction<B, O>, Stop>,
)
    requires
        before.stage is Polling,
        turned(
            before,
            TurnEvent::Polled { events: polled, display_size },
            divide,
            middle,
            first,
        ),
        turned(middle, TurnEvent::FidoPolled(reports), divide, after, second),
    ensures
        ({
            let (sent, reported) = if before.state.fido {
                (second, reports@)
            } else {
                (first, Seq::empty())
            };
            &&& sent matches Ok(TurnAction::Send { events, fido_reports })
            &&& events_mapped(polled@, events@, display_size, before.state.size, divide)
            &&& fido_reports@ == reported
        }),
{
}

/// The server's reports are looked at before any of its messages: where no authenticator
/// was set up, a packet with reports is refused as a whole, and none of its messages is
/// dealt with. The image is shown only when every message has been dealt with.
pub proof fn reports_come_before_messages<B, O, F: Fn(u32) -> u32>(
    before: ClientTurn<B, O>,
    event: TurnEvent<B, O>,
    divide: F,
    after: ClientTurn<B, O>,
    result: Result<TurnAction<B, O>, Stop>,
)
    requires
        turned(before, event, divide, after, result),
    ensures
        before.stage is Receiving && !before.state.fido ==> (event matches TurnEvent::Received {
            fido_reports,
            ..
        } ==> fido_reports@.len() > 0 ==> after.state == before.state && result == Err::<
            TurnAction<B, O>,
            _,
        >(stopped(ClientError::FidoNotNegotiated, false))),
        result matches Ok(TurnAction::Perform(_)) ==> before.stage is Handling,
        result is Ok && place(before.stage) <= 6 && place(after.stage) > 6 ==> before.stage
            is Handling && before.waiting@.len() == 0,
{
}

/// At every step of every turn, the image that is kept for decoding is within the limits.
pub proof fn turns_keep_images_within_limits<B, O, F: Fn(u32) -> u32>(
    before: ClientTurn<B, O>,
    event: TurnEvent<B, O>,
    divide: F,
    after: ClientTurn<B, O>,
    result: Result<TurnAction<B, O>, Stop>,
)
    requires
        image_within_limits(before.state),
        turned(before, event, divide, after, result),
    ensures
        image_within_limits(after.state),
        after.state.limits == before.state.limits,
{
    if before.stage is Handling && event is Done && before.waiting@.len() > 0 {
        let outcome = match result {
            Err(stop) => Err(stop),
            Ok(TurnAction::Perform(effect)) => Ok(Some(effect)),
            Ok(_) => Ok(None),
        };
        oversized_images_are_never_kept(before.state, before.waiting@[0], after.state, outcome);
    }
}

} // verus!
