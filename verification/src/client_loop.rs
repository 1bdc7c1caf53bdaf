//! The state of the client loop: what the server's messages lead to, and what is shown.

use std::collections::HashMap;

use vstd::prelude::*;
use vstd::std_specs::hash::spec_keys_iter;
use vstd::std_specs::iter::IteratorSpec;

use crate::error::ClientError;
use crate::geometry::{
    check_cusor_size, check_img_size, cursor_size, image_size, mapped_area, scale_area, Area,
    Limits,
};
use crate::interface::Stop;
use crate::numbers::{low_half, low_half_signed, to_low_half, to_low_half_signed};
use crate::text::{chars_of, push};

verus! {

/// The largest width or height of a notification icon.
pub const MAX_ICON_SIZE: i32 = 0x0fff_ffff;

/// The smallest width of which four bytes for each pixel of a row are within 32 bits.
pub const MIN_ICON_WIDTH: i32 = -0x2000_0000;

/// A part of a notification.
#[derive(Debug)]
pub enum NotificationPart {
    Title(String),
    Message(String),
    Icon { width: u32, height: u32, data: Vec<u8> },
    Other,
}

/// A message of the server.
#[derive(Debug)]
pub enum ServerMessage {
    ImgEncoded { data: Vec<u8>, width: u32, height: u32 },
    ImgRaw { data: Vec<u8>, width: u32, height: u32, bytes_per_line: u32 },
    SoundEncoded(Vec<Vec<u8>>),
    Clipboard(String),
    Cursor { data: Vec<u8>, width: u32, height: u32, xhot: u32, yhot: u32 },
    AreaUpdt(AreaUpdate),
    Printfile(String),
    Notifications(Vec<NotificationPart>),
    Stats(String),
    Other,
}

/// News of a window.
#[derive(Debug)]
pub struct AreaUpdate {
    pub id: u32,
    pub x: i32,
    pub y: i32,
    pub width: u32,
    pub height: u32,
    pub mapped: bool,
    pub is_app: bool,
    pub name: String,
}

/// An image to be decoded.
#[derive(Debug, PartialEq)]
pub struct Image {
    pub data: Vec<u8>,
    pub width: u32,
    pub height: u32,
}

/// An icon in a notification.
#[derive(Debug, PartialEq)]
pub struct Icon {
    pub width: i32,
    pub height: i32,
    pub data: Vec<u8>,
}

/// A notification to be shown.
#[derive(Debug, PartialEq)]
pub struct Notification {
    pub title: Option<String>,
    pub body: String,
    pub icon: Option<Icon>,
}

/// What a message asks for.
#[derive(Debug)]
pub enum Effect {
    /// Take an image of this size out of the shared memory, in the format of X window
    /// dumps.
    ReadXwd { width: u32, height: u32 },
    /// Take an image out of the start of the shared memory.
    ReadShared { length: u64, width: u32, height: u32, bytes_per_line: u32 },
    /// Play sound packets.
    PlaySound(Vec<Vec<u8>>),
    /// Set the clipboard.
    SetClipboard(String),
    /// Set the cursor.
    SetCursor { data: Vec<u8>, size: (u32, u32), hot: (u16, u16) },
    /// Print a file.
    PrintFile(String),
    /// Show a notification.
    Notify(Notification),
}

/// The text with micro signs written as `u`.
pub open spec fn plain_stats(stats: Seq<char>) -> Seq<char> {
    stats.map_values(
        |c: char|
            if c == '\u{b5}' {
                'u'
            } else {
                c
            },
    )
}

/// Texts one below the other.
pub open spec fn joined(lines: Seq<Seq<char>>) -> Seq<char>
    decreases lines.len(),
{
    if lines.len() == 0 {
        seq![]
    } else if lines.len() == 1 {
        lines[0]
    } else {
        joined(lines.drop_last()) + "\n"@ + lines.last()
    }
}

/// The last title among the parts of a notification.
pub open spec fn last_title(parts: Seq<NotificationPart>) -> Option<Seq<char>>
    decreases parts.len(),
{
    if parts.len() == 0 {
        None
    } else {
        match parts.last() {
            NotificationPart::Title(title) => Some(title@),
            _ => last_title(parts.drop_last()),
        }
    }
}

/// The messages among the parts of a notification.
pub open spec fn messages(parts: Seq<NotificationPart>) -> Seq<Seq<char>>
    decreases parts.len(),
{
    if parts.len() == 0 {
        seq![]
    } else {
        match parts.last() {
            NotificationPart::Message(text) => messages(parts.drop_last()).push(text@),
            _ => messages(parts.drop_last()),
        }
    }
}

/// An icon has four bytes for each of its pixels, and neither it nor a row of it is too
/// large.
pub open spec fn icon_fits(width: i32, height: i32, length: nat) -> bool {
    MIN_ICON_WIDTH <= width <= MAX_ICON_SIZE && height <= MAX_ICON_SIZE && width * height * 4
        == length && length <= i32::MAX
}

/// The bits of an unsigned number, signed.
pub open spec fn signed(number: u32) -> i32 {
    if number < 0x8000_0000 {
        number as i32
    } else {
        (number - 0x1_0000_0000) as i32
    }
}

/// The last icon that fits among the parts of a notification: its size and its pixels.
pub open spec fn last_icon(parts: Seq<NotificationPart>) -> Option<(i32, i32, Seq<u8>)>
    decreases parts.len(),
{
    if parts.len() == 0 {
        None
    } else {
        match parts.last() {
            NotificationPart::Icon { width, height, data } => if icon_fits(
                signed(width),
                signed(height),
                data@.len(),
            ) {
                Some((signed(width), signed(height), data@))
            } else {
                last_icon(parts.drop_last())
            },
            _ => last_icon(parts.drop_last()),
        }
    }
}

/// The notification that the parts make up.
pub open spec fn notifies(notification: Notification, parts: Seq<NotificationPart>) -> bool {
    &&& match notification.title {
        Some(title) => last_title(parts) == Some(title@),
        None => last_title(parts) is None,
    }
    &&& notification.body@ == joined(messages(parts))
    &&& match notification.icon {
        Some(icon) => last_icon(parts) == Some((icon.width, icon.height, icon.data@)),
        None => last_icon(parts) is None,
    }
}

/// `notify_rust::Image::from_rgba`: an icon is accepted exactly when neither side is too
/// large and there are four bytes for each pixel.
#[verifier::external_body]
fn accepts_icon(width: i32, height: i32, data: &Vec<u8>) -> (accepted: bool)
    requires
        i32::MIN <= width * height * 4 <= i32::MAX,
        MIN_ICON_WIDTH <= width,
    ensures
        accepted == (width <= MAX_ICON_SIZE && height <= MAX_ICON_SIZE && width * height * 4
            == data@.len()),
{
    notify_rust::Image::from_rgba(width, height, data.clone()).is_ok()
}

fn to_signed(number: u32) -> (bits: i32)
    ensures
        bits == signed(number),
{
    assert(number < 0x8000_0000 ==> number as i32 == number) by (bit_vector);
    assert(number >= 0x8000_0000 ==> number as i32 == number - 0x1_0000_0000) by (bit_vector);
    number as i32
}

/// Checks an icon. One of which the size or a row, in bytes, is beyond 32 bits does not fit.
fn check_icon(width: i32, height: i32, data: &Vec<u8>) -> (fits: bool)
    ensures
        fits == icon_fits(width, height, data@.len()),
{
    proof {
        assert(-0x4000_0000_0000_0000 <= width * height <= 0x4000_0000_0000_0000)
            by (nonlinear_arith)
            requires
                -0x8000_0000 <= width <= 0x7fff_ffff,
                -0x8000_0000 <= height <= 0x7fff_ffff,
        ;
    }
    let length: i128 = width as i128 * height as i128 * 4;
    if width < MIN_ICON_WIDTH || length < -0x8000_0000 || length > 0x7fff_ffff {
        return false;
    }
    accepts_icon(width, height, data)
}

/// Puts a notification together: the last title, the messages one below the other, and the
/// last icon that fits.
pub fn collect_notification(parts: Vec<NotificationPart>) -> (notification: Notification)
    ensures
        notifies(notification, parts@),
{
    let ghost all = parts@;
    let mut left = parts;
    let mut title: Option<String> = None;
    let mut body = String::new();
    let mut icon: Option<Icon> = None;
    let mut first: bool = true;
    let ghost mut done: int = 0;
    assert(body@ =~= seq![]);
    while left.len() > 0
        invariant
            0 <= done <= all.len(),
            left@ == all.skip(done),
            notifies(Notification { title, body, icon }, all.take(done)),
            first == (messages(all.take(done)).len() == 0),
        decreases left@.len(),
    {
        let part = left.remove(0);
        proof {
            assert(part == all[done]);
            assert(all.take(done + 1).drop_last() =~= all.take(done));
            assert(all.take(done + 1).last() == part);
            assert(left@ =~= all.skip(done + 1));
        }
        match part {
            NotificationPart::Title(text) => {
                title = Some(text);
            },
            NotificationPart::Message(text) => {
                if !first {
                    body.append("\n");
                }
                body.append(text.as_str());
                first = false;
                proof {
                    let before = messages(all.take(done));
                    let after = before.push(text@);
                    assert(after.drop_last() =~= before);
                    assert(body@ =~= joined(after));
                }
            },
            NotificationPart::Icon { width, height, data } => {
                let width: i32 = to_signed(width);
                let height: i32 = to_signed(height);
                if check_icon(width, height, &data) {
                    icon = Some(Icon { width, height, data });
                }
            },
            NotificationPart::Other => {},
        }
        proof {
            done = done + 1;
        }
    }
    assert(all.take(done) =~= all);
    Notification { title, body, icon }
}

/// The client loop, between and within its turns. `sound` and `fido` tell whether sound and
/// an authenticator were set up; `shared_images` whether images come through shared
/// memory, and `source_is_xwd` in which format.
#[derive(Debug)]
pub struct ClientLoop {
    pub limits: Limits,
    pub sound: bool,
    pub fido: bool,
    pub shared_images: bool,
    pub source_is_xwd: bool,
    pub size: (u16, u16),
    pub bytes_per_line: Option<u16>,
    pub stats: String,
    pub image: Option<Image>,
    pub areas: HashMap<usize, Area>,
}

/// The session ends with an error.
pub open spec fn stopped(error: ClientError, notify: bool) -> Stop {
    Stop { error, notify }
}

/// An image that came raw is kept for decoding, if it is within the limits. The server is
/// told of an image that is too large.
pub open spec fn raw_kept(
    state: ClientLoop,
    data: Vec<u8>,
    width: u32,
    height: u32,
    bytes_per_line: u32,
) -> (ClientLoop, Result<(), Stop>) {
    match image_size(width, height, state.limits) {
        Err(error) => (state, Err(stopped(error, true))),
        Ok(_) => {
            let next = ClientLoop { image: Some(Image { data, width, height }), ..state };
            if bytes_per_line > state.limits.bytes_per_line {
                (next, Err(stopped(ClientError::BytesPerLine, false)))
            } else {
                (ClientLoop { bytes_per_line: Some(low_half(bytes_per_line)), ..next }, Ok(()))
            }
        },
    }
}

/// What the news of a window makes it, cut to 16 bits.
pub open spec fn area_of(update: AreaUpdate) -> Area {
    Area {
        id: update.id as usize,
        size: (low_half(update.width), low_half(update.height)),
        position: (low_half_signed(update.x), low_half_signed(update.y)),
        mapped: update.mapped,
        is_app: update.is_app,
        name: update.name,
    }
}

/// Two states differ at most in their windows, which are these.
pub open spec fn with_areas(after: ClientLoop, before: ClientLoop, areas: Map<usize, Area>) -> bool {
    after.areas@ == areas && after == (ClientLoop { areas: after.areas, ..before })
}

/// Windows mapped from the remote desktop to the display.
pub open spec fn scaled_areas(
    areas: Map<usize, Area>,
    size: (u16, u16),
    display_size: (u16, u16),
) -> Map<usize, Area> {
    areas.map_values(|area: Area| mapped_area(area, size, display_size))
}

/// What a message leads to.
pub open spec fn handled(
    before: ClientLoop,
    message: ServerMessage,
    after: ClientLoop,
    result: Result<Option<Effect>, Stop>,
) -> bool {
    match message {
        ServerMessage::ImgEncoded { data, width, height } => match image_size(
            width,
            height,
            before.limits,
        ) {
            Err(error) => after == before && result == Err::<Option<Effect>, _>(
                stopped(error, true),
            ),
            Ok(_) => after == (ClientLoop {
                image: Some(Image { data, width, height }),
                ..before
            }) && result == Ok::<Option<Effect>, Stop>(None),
        },
        ServerMessage::ImgRaw { data, width, height, bytes_per_line } => if before.shared_images
            && before.source_is_xwd {
            after == before && result == Ok::<_, Stop>(Some(Effect::ReadXwd { width, height }))
        } else if before.shared_images {
            after == before && result == Ok::<_, Stop>(
                Some(
                    Effect::ReadShared {
                        length: (bytes_per_line * height) as u64,
                        width,
                        height,
                        bytes_per_line,
                    },
                ),
            )
        } else {
            let (next, kept) = raw_kept(before, data, width, height, bytes_per_line);
            after == next && result == (match kept {
                Ok(()) => Ok::<Option<Effect>, Stop>(None),
                Err(stop) => Err(stop),
            })
        },
        ServerMessage::SoundEncoded(packets) => after == before && result == Ok::<_, Stop>(
            if before.sound {
                Some(Effect::PlaySound(packets))
            } else {
                None
            },
        ),
        ServerMessage::Clipboard(text) => after == before && result == Ok::<_, Stop>(
            Some(Effect::SetClipboard(text)),
        ),
        ServerMessage::Cursor { data, width, height, xhot, yhot } => after == before && result
            == Ok::<_, Stop>(
            match cursor_size(width, height, xhot, yhot, before.limits) {
                Ok(_) => Some(
                    Effect::SetCursor {
                        data,
                        size: (width, height),
                        hot: (low_half(xhot), low_half(yhot)),
                    },
                ),
                Err(_) => None,
            },
        ),
        ServerMessage::AreaUpdt(update) => with_areas(
            after,
            before,
            before.areas@.insert(update.id as usize, area_of(update)),
        ) && result == Ok::<Option<Effect>, Stop>(None),
        ServerMessage::Printfile(path) => after == before && result == Ok::<_, Stop>(
            Some(Effect::PrintFile(path)),
        ),
        ServerMessage::Notifications(parts) => after == before && (if parts@.len() == 0 {
            result == Ok::<Option<Effect>, Stop>(None)
        } else {
            result matches Ok(Some(Effect::Notify(notification))) && notifies(notification, parts@)
        }),
        ServerMessage::Stats(stats) => after == (ClientLoop { stats, ..before }) && result == Ok::<
            Option<Effect>,
            Stop,
        >(None),
        ServerMessage::Other => after == before && result == Ok::<Option<Effect>, Stop>(None),
    }
}

/// An image to be shown.
#[derive(Debug, PartialEq)]
pub struct Showing {
    /// The decoder has to be set up anew, for another size.
    pub reload: bool,
    pub data: Vec<u8>,
    pub size: (u16, u16),
    pub bytes_per_line: Option<u16>,
}

/// What is left when the image of this turn is handed out, and the image, if there is one.
/// Its size becomes the session's.
pub open spec fn image_taken(state: ClientLoop) -> (ClientLoop, Option<Showing>) {
    match state.image {
        None => (state, None),
        Some(image) => {
            let size = (low_half(image.width), low_half(image.height));
            (
                ClientLoop { image: None, size, ..state },
                Some(
                    Showing {
                        reload: size != state.size,
                        data: image.data,
                        size,
                        bytes_per_line: state.bytes_per_line,
                    },
                ),
            )
        },
    }
}

/// The outcome of looking at the server's FIDO reports: they are accepted only where an
/// authenticator was set up.
pub open spec fn reports_checked(state: ClientLoop, reports: Seq<Vec<u8>>) -> Result<(), Stop> {
    if state.fido || reports.len() == 0 {
        Ok(())
    } else {
        Err(stopped(ClientError::FidoNotNegotiated, false))
    }
}

/// A loop before its first turn, set up in this way.
pub open spec fn loop_set_up(
    state: ClientLoop,
    limits: Limits,
    sound: bool,
    fido: bool,
    shared_images: bool,
    source_is_xwd: bool,
    size: (u16, u16),
) -> bool {
    &&& state.limits == limits
    &&& state.sound == sound
    &&& state.fido == fido
    &&& state.shared_images == shared_images
    &&& state.source_is_xwd == source_is_xwd
    &&& state.size == size
    &&& state.bytes_per_line is None
    &&& state.stats@.len() == 0
    &&& state.image is None
    &&& state.areas@ == Map::<usize, Area>::empty()
}

impl ClientLoop {
    /// A loop before its first turn.
    pub fn new(
        limits: Limits,
        sound: bool,
        fido: bool,
        shared_images: bool,
        source_is_xwd: bool,
        size: (u16, u16),
    ) -> (state: Self)
        ensures
            loop_set_up(state, limits, sound, fido, shared_images, source_is_xwd, size),
    {
        ClientLoop {
            limits,
            sound,
            fido,
            shared_images,
            source_is_xwd,
            size,
            bytes_per_line: None,
            stats: String::new(),
            image: None,
            areas: HashMap::new(),
        }
    }

    /// Starts a turn: nothing has been received in it yet.
    pub fn begin_turn(&mut self)
        ensures
            with_areas(
                *final(self),
                ClientLoop { image: None, ..*old(self) },
                Map::<usize, Area>::empty(),
            ),
    {
        self.image = None;
        self.areas = HashMap::new();
    }

    /// Accepts FIDO reports of the server only where an authenticator was set up.
    pub fn check_fido_reports(&self, reports: &Vec<Vec<u8>>) -> (result: Result<(), Stop>)
        ensures
            result == reports_checked(*self, reports@),
    {
        if !self.fido && reports.len() > 0 {
            Err(Stop { error: ClientError::FidoNotNegotiated, notify: false })
        } else {
            Ok(())
        }
    }

    /// Keeps an image that came raw for decoding.
    pub fn keep_raw(&mut self, data: Vec<u8>, width: u32, height: u32, bytes_per_line: u32) -> (
        result: Result<(), Stop>)
        ensures
            (*final(self), result) == raw_kept(*old(self), data, width, height, bytes_per_line),
    {
        match check_img_size(width, height, &self.limits) {
            Err(error) => {
                return Err(Stop { error, notify: true });
            },
            Ok(_) => {},
        }
        self.image = Some(Image { data, width, height });
        if bytes_per_line > self.limits.bytes_per_line {
            return Err(Stop { error: ClientError::BytesPerLine, notify: false });
        }
        self.bytes_per_line = Some(to_low_half(bytes_per_line));
        Ok(())
    }

    /// Takes in the news of a window: what was known of it is replaced.
    fn place_area(&mut self, update: AreaUpdate)
        ensures
            with_areas(
                *final(self),
                *old(self),
                old(self).areas@.insert(update.id as usize, area_of(update)),
            ),
    {
        broadcast use vstd::std_specs::hash::group_hash_axioms;

        let AreaUpdate { id, x, y, width, height, mapped, is_app, name } = update;
        let area = Area {
            id: id as usize,
            size: (to_low_half(width), to_low_half(height)),
            position: (to_low_half_signed(x), to_low_half_signed(y)),
            mapped,
            is_app,
            name,
        };
        self.areas.insert(id as usize, area);
    }

    /// Deals with a message of the server.
    pub fn handle(&mut self, message: ServerMessage) -> (result: Result<Option<Effect>, Stop>)
        ensures
            handled(*old(self), message, *final(self), result),
    {
        match message {
            ServerMessage::ImgEncoded { data, width, height } => {
                match check_img_size(width, height, &self.limits) {
                    Err(error) => Err(Stop { error, notify: true }),
                    Ok(_) => {
                        self.image = Some(Image { data, width, height });
                        Ok(None)
                    },
                }
            },
            ServerMessage::ImgRaw { data, width, height, bytes_per_line } => {
                if self.shared_images {
                    if self.source_is_xwd {
                        return Ok(Some(Effect::ReadXwd { width, height }));
                    }
                    proof {
                        assert(0 <= bytes_per_line * height <= 0xffff_ffff * 0xffff_ffff)
                            by (nonlinear_arith)
                            requires
                                0 <= bytes_per_line <= 0xffff_ffff,
                                0 <= height <= 0xffff_ffff,
                        ;
                    }
                    let length: u64 = bytes_per_line as u64 * height as u64;
                    return Ok(
                        Some(Effect::ReadShared { length, width, height, bytes_per_line }),
                    );
                }
                match self.keep_raw(data, width, height, bytes_per_line) {
                    Ok(()) => Ok(None),
                    Err(stop) => Err(stop),
                }
            },
            ServerMessage::SoundEncoded(packets) => {
                if self.sound {
                    Ok(Some(Effect::PlaySound(packets)))
                } else {
                    Ok(None)
                }
            },
            ServerMessage::Clipboard(text) => Ok(Some(Effect::SetClipboard(text))),
            ServerMessage::Cursor { data, width, height, xhot, yhot } => {
                match check_cusor_size(width, height, xhot, yhot, &self.limits) {
                    Ok(_) => Ok(
                        Some(
                            Effect::SetCursor {
                                data,
                                size: (width, height),
                                hot: (to_low_half(xhot), to_low_half(yhot)),
                            },
                        ),
                    ),
                    Err(_) => Ok(None),
                }
            },
            ServerMessage::AreaUpdt(update) => {
                self.place_area(update);
                Ok(None)
            },
            ServerMessage::Printfile(path) => Ok(Some(Effect::PrintFile(path))),
            ServerMessage::Notifications(parts) => {
                if parts.len() == 0 {
                    Ok(None)
                } else {
                    Ok(Some(Effect::Notify(collect_notification(parts))))
                }
            },
            ServerMessage::Stats(stats) => {
                self.stats = stats;
                Ok(None)
            },
            ServerMessage::Other => Ok(None),
        }
    }

    /// Hands out the image of this turn, if there is one. Its size becomes the session's;
    /// where that is a change, the decoder has to be set up anew.
    pub fn take_image(&mut self) -> (showing: Option<Showing>)
        ensures
            (*final(self), showing) == image_taken(*old(self)),
    {
        let mut taken: Option<Image> = None;
        core::mem::swap(&mut taken, &mut self.image);
        match taken {
            None => None,
            Some(image) => {
                let Image { data, width, height } = image;
                let size = (to_low_half(width), to_low_half(height));
                let reload = size.0 != self.size.0 || size.1 != self.size.1;
                self.size = size;
                Some(Showing { reload, data, size, bytes_per_line: self.bytes_per_line })
            },
        }
    }

    /// The statistics, as they are drawn over the image, and at what height.
    pub fn stats_text(&self) -> (drawn: (String, i32))
        ensures
            drawn.0@ == plain_stats(self.stats@),
            drawn.1 == self.size.1 - 50,
    {
        let chars = chars_of(self.stats.as_str());
        let mut text = String::new();
        let mut at: usize = 0;
        assert(text@ =~= plain_stats(self.stats@).take(0));
        while at < chars.len()
            invariant
                at <= chars@.len(),
                chars@ == self.stats@,
                text@ == plain_stats(self.stats@).take(at as int),
            decreases chars@.len() - at,
        {
            let c: char = chars[at];
            push(
                &mut text,
                if c == '\u{b5}' {
                    'u'
                } else {
                    c
                },
            );
            assert(text@ =~= plain_stats(self.stats@).take(at as int + 1));
            at += 1;
        }
        assert(plain_stats(self.stats@).take(at as int) =~= plain_stats(self.stats@));
        (text, self.size.1 as i32 - 50)
    }

    /// How many bytes of the decoded image are shown: four for each pixel.
    pub fn shown_length(&self) -> (length: u64)
        ensures
            length == self.size.0 * self.size.1 * 4,
    {
        assert(0 <= self.size.0 * self.size.1 <= 0xffff * 0xffff) by (nonlinear_arith)
            requires
                0 <= self.size.0 <= 0xffff,
                0 <= self.size.1 <= 0xffff,
        ;
        self.size.0 as u64 * self.size.1 as u64 * 4
    }

    /// The numbers of the windows of this turn, in any order.
    fn area_ids(&self) -> (ids: Vec<usize>)
        ensures
            ids@.no_duplicates(),
            ids@.to_set() == self.areas@.dom(),
    {
        broadcast use vstd::std_specs::hash::group_hash_axioms;

        let mut ids: Vec<usize> = Vec::new();
        for id in it: self.areas.keys()
            invariant
                it.seq() == spec_keys_iter(&self.areas).remaining(),
                ids@.len() == it.index(),
                forall|i: int| 0 <= i < ids@.len() ==> #[trigger] ids@[i] == *it.seq()[i],
        {
            ids.push(*id);
        }
        assert(ids@ =~= spec_keys_iter(&self.areas).remaining().unref());
        ids
    }

    /// Maps the windows of this turn from the remote desktop to the display.
    pub fn scale_areas(&mut self, display_size: (u16, u16))
        ensures
            with_areas(
                *final(self),
                *old(self),
                scaled_areas(old(self).areas@, old(self).size, display_size),
            ),
    {
        broadcast use vstd::std_specs::hash::group_hash_axioms;

        let size = self.size;
        let ghost start = *self;
        let ghost all = self.areas@;
        let ids = self.area_ids();
        let mut at: usize = 0;
        while at < ids.len()
            invariant
                at <= ids@.len(),
                ids@.no_duplicates(),
                ids@.to_set() == all.dom(),
                size == start.size,
                *self == (ClientLoop { areas: self.areas, ..start }),
                self.areas@.dom() == all.dom(),
                forall|i: int|
                    0 <= i < at ==> self.areas@[#[trigger] ids@[i]] == mapped_area(
                        all[ids@[i]],
                        size,
                        display_size,
                    ),
                forall|i: int|
                    at <= i < ids@.len() ==> self.areas@[#[trigger] ids@[i]] == all[ids@[i]],
            decreases ids@.len() - at,
        {
            let id: usize = ids[at];
            assert(ids@.to_set().contains(id));
            match self.areas.remove(&id) {
                Some(area) => {
                    let mut area = area;
                    scale_area(&mut area, size, display_size);
                    self.areas.insert(id, area);
                },
                None => {},
            }
            assert(self.areas@.dom() =~= all.dom());
            at += 1;
        }
        assert forall|id: usize| all.dom().contains(id) implies #[trigger] self.areas@[id]
            == mapped_area(all[id], size, display_size) by {
            assert(ids@.to_set().contains(id));
            let i = choose|i: int| 0 <= i < ids@.len() && ids@[i] == id;
            assert(ids@[i] == id);
        }
        assert(self.areas@ =~= scaled_areas(all, size, display_size));
    }
}

/// Every window is known under its own number.
pub open spec fn own_numbers(areas: Map<usize, Area>) -> bool {
    forall|id: usize| #[trigger] areas.dom().contains(id) ==> areas[id].id == id
}

/// Each window is known once, under its own number: the news of one replaces what was known
/// of it, and leaves the others as they are. Mapping the windows to the display keeps them
/// all.
pub proof fn each_window_is_known_once(
    areas: Map<usize, Area>,
    update: AreaUpdate,
    size: (u16, u16),
    display_size: (u16, u16),
)
    requires
        own_numbers(areas),
    ensures
        ({
            let after = areas.insert(update.id as usize, area_of(update));
            &&& own_numbers(after)
            &&& after[update.id as usize] == area_of(update)
            &&& forall|id: usize|
                id != update.id ==> #[trigger] after.dom().contains(id) == areas.dom().contains(id)
                    && (areas.dom().contains(id) ==> after[id] == areas[id])
        }),
        own_numbers(scaled_areas(areas, size, display_size)),
        scaled_areas(areas, size, display_size).dom() == areas.dom(),
{
    assert(scaled_areas(areas, size, display_size).dom() =~= areas.dom());
}

/// The image that is kept for decoding is within the limits.
pub open spec fn image_within_limits(state: ClientLoop) -> bool {
    state.image matches Some(image) ==> image.width <= state.limits.window_width && image.height
        <= state.limits.window_height
}

/// Whatever the server sends, the image that is kept for decoding is within the limits. Of
/// the errors that end the session, the server is told of an image beyond them, and of no
/// other.
pub proof fn oversized_images_are_never_kept(
    before: ClientLoop,
    message: ServerMessage,
    after: ClientLoop,
    result: Result<Option<Effect>, Stop>,
)
    requires
        image_within_limits(before),
        handled(before, message, after, result),
    ensures
        image_within_limits(after),
        after.limits == before.limits,
        result matches Err(stop) ==> (stop.notify == (stop.error is ImageTooBig)),
{
}

} // verus!
