//! What the messages of the server and the steps of a turn come to, field by field.

use vstd::prelude::*;

use crate::client_loop::{
    handled, image_taken, loop_set_up, joined, last_icon, last_title, messages, notifies,
    plain_stats, raw_kept, reports_checked, scaled_areas, AreaUpdate, ClientLoop, Effect,
    Notification, NotificationPart, ServerMessage,
};
use crate::error::ClientError;
use crate::geometry::{events_mapped, mapped_area, Area, Limits};
use crate::interface::Stop;
use crate::numbers::cut_numbers_lose_whole_multiples;
use crate::turn::{turned, turn_begun, ClientTurn, TurnAction, TurnEvent, TurnStage};

verus! {

/// After the news of a window, the window under its number is mapped exactly when the news
/// says so, is an application's exactly when the news says so, and has the name, the number,
/// the place and the size in the news, the last two cut to 16 bits. Nothing else changes.
pub proof fn windows_are_as_the_news_says(
    before: ClientLoop,
    update: AreaUpdate,
    after: ClientLoop,
    result: Result<Option<Effect>, Stop>,
)
    requires
        handled(before, ServerMessage::AreaUpdt(update), after, result),
    ensures
        result matches Ok(None),
        after.areas@.dom() == before.areas@.dom().insert(update.id as usize),
        forall|id: usize|
            id != update.id && before.areas@.dom().contains(id) ==> #[trigger] after.areas@[id]
                == before.areas@[id],
        ({
            let window = after.areas@[update.id as usize];
            &&& window.mapped == update.mapped
            &&& window.is_app == update.is_app
            &&& window.name == update.name
            &&& window.id == update.id
            &&& (update.x - window.position.0) % 0x1_0000 == 0
            &&& (update.y - window.position.1) % 0x1_0000 == 0
            &&& (update.width - window.size.0) % 0x1_0000 == 0
            &&& (update.height - window.size.1) % 0x1_0000 == 0
        }),
        after.size == before.size,
        after.stats == before.stats,
        after.image == before.image,
        after.bytes_per_line == before.bytes_per_line,
{
    cut_numbers_lose_whole_multiples(update.width, update.x);
    cut_numbers_lose_whole_multiples(update.height, update.y);
}

/// An image is shown by a decoder for its size: where no new set-up is asked for, both the
/// width and the height of the image are those of the session before, and a change of either
/// asks for it. The image that is shown is the one that was kept, with the size that the
/// session has from then on and the bytes per line that were kept.
pub proof fn either_change_of_size_reloads(state: ClientLoop)
    ensures
        ({
            let (after, taken) = image_taken(state);
            &&& state.image is None ==> taken is None && after == state
            &&& state.image matches Some(image) ==> {
                &&& taken matches Some(showing)
                &&& (image.width - showing.size.0) % 0x1_0000 == 0
                &&& (image.height - showing.size.1) % 0x1_0000 == 0
                &&& showing.size.0 != state.size.0 ==> showing.reload
                &&& showing.size.1 != state.size.1 ==> showing.reload
                &&& !showing.reload ==> showing.size.0 == state.size.0 && showing.size.1
                    == state.size.1
                &&& showing.reload ==> showing.size.0 != state.size.0 || showing.size.1
                    != state.size.1
                &&& showing.data == image.data
                &&& showing.bytes_per_line == state.bytes_per_line
                &&& after.size == showing.size
                &&& after.image is None
            }
            &&& after.areas == state.areas
            &&& after.stats == state.stats
            &&& after.bytes_per_line == state.bytes_per_line
            &&& after.limits == state.limits
        }),
{
    if let Some(image) = state.image {
        cut_numbers_lose_whole_multiples(image.width, 0);
        cut_numbers_lose_whole_multiples(image.height, 0);
    }
}

/// A message changes only what it is about: the set-up and the size of the session stay,
/// the image changes with images alone, the bytes per line with raw images, the windows with
/// news of windows, and the statistics with statistics.
pub proof fn messages_change_only_what_they_are_about(
    before: ClientLoop,
    message: ServerMessage,
    after: ClientLoop,
    result: Result<Option<Effect>, Stop>,
)
    requires
        handled(before, message, after, result),
    ensures
        after.limits == before.limits,
        after.sound == before.sound,
        after.fido == before.fido,
        after.shared_images == before.shared_images,
        after.source_is_xwd == before.source_is_xwd,
        after.size == before.size,
        after.image != before.image ==> message is ImgEncoded || message is ImgRaw,
        after.bytes_per_line != before.bytes_per_line ==> message is ImgRaw,
        after.areas@ != before.areas@ ==> message is AreaUpdt,
        after.stats != before.stats ==> message is Stats,
{
}

/// An encoded image is kept, with its bytes, its width and its height, exactly when neither
/// is beyond the limit for it. Otherwise the session ends with that size, the server is told,
/// and the image that was kept before stays.
pub proof fn encoded_images_are_kept_whole(
    before: ClientLoop,
    data: Vec<u8>,
    width: u32,
    height: u32,
    after: ClientLoop,
    result: Result<Option<Effect>, Stop>,
)
    requires
        handled(before, ServerMessage::ImgEncoded { data, width, height }, after, result),
    ensures
        width <= before.limits.window_width && height <= before.limits.window_height ==> {
            &&& result matches Ok(None)
            &&& after.image matches Some(image)
            &&& image.data == data && image.width == width && image.height == height
        },
        width > before.limits.window_width || height > before.limits.window_height ==> {
            &&& after.image == before.image
            &&& result matches Err(stop)
            &&& stop.error == ClientError::ImageTooBig(width, height) && stop.notify
        },
{
}

/// A raw image is kept, with its bytes, its width and its height, where neither is beyond the
/// limit for it. Its bytes per line, cut to 16 bits, are kept with it, unless they are beyond
/// their own limit, of which the server is not told.
pub proof fn raw_images_are_kept_whole(
    state: ClientLoop,
    data: Vec<u8>,
    width: u32,
    height: u32,
    bytes_per_line: u32,
)
    ensures
        ({
            let (after, result) = raw_kept(state, data, width, height, bytes_per_line);
            let within = width <= state.limits.window_width && height
                <= state.limits.window_height;
            let narrow = bytes_per_line <= state.limits.bytes_per_line;
            &&& result is Ok <==> within && narrow
            &&& within ==> {
                &&& after.image matches Some(image)
                &&& image.data == data && image.width == width && image.height == height
            }
            &&& within && narrow ==> {
                &&& after.bytes_per_line matches Some(kept)
                &&& (bytes_per_line - kept) % 0x1_0000 == 0
            }
            &&& !within ==> {
                &&& after.image == state.image
                &&& result matches Err(stop)
                &&& stop.error == ClientError::ImageTooBig(width, height) && stop.notify
            }
            &&& within && !narrow ==> {
                &&& after.bytes_per_line == state.bytes_per_line
                &&& result matches Err(stop)
                &&& stop.error == ClientError::BytesPerLine && !stop.notify
            }
            &&& after.areas == state.areas && after.stats == state.stats && after.size
                == state.size && after.limits == state.limits
        }),
{
    cut_numbers_lose_whole_multiples(bytes_per_line, 0);
}

/// Where images come through shared memory, a raw image is read from there, in the format
/// that is set up: of the width and height in the message, and, outside window dumps, as many
/// bytes as its lines have. Where they do not, it is kept as it came.
pub proof fn raw_images_come_from_their_source(
    before: ClientLoop,
    data: Vec<u8>,
    width: u32,
    height: u32,
    bytes_per_line: u32,
    after: ClientLoop,
    result: Result<Option<Effect>, Stop>,
)
    requires
        handled(
            before,
            ServerMessage::ImgRaw { data, width, height, bytes_per_line },
            after,
            result,
        ),
    ensures
        before.shared_images && before.source_is_xwd ==> {
            &&& result matches Ok(Some(Effect::ReadXwd { width: across, height: down }))
            &&& across == width && down == height
        },
        before.shared_images && !before.source_is_xwd ==> {
            &&& result matches Ok(
                Some(Effect::ReadShared { length, width: across, height: down, bytes_per_line: line }),
            )
            &&& length == bytes_per_line * height
            &&& across == width && down == height && line == bytes_per_line
        },
        before.shared_images ==> after == before,
        !before.shared_images ==> after == raw_kept(
            before,
            data,
            width,
            height,
            bytes_per_line,
        ).0 && match raw_kept(before, data, width, height, bytes_per_line).1 {
            Ok(()) => result matches Ok(None),
            Err(stop) => result == Err::<Option<Effect>, _>(stop),
        },
{
    assert(0 <= bytes_per_line * height <= 0xffff_ffff * 0xffff_ffff) by (nonlinear_arith)
        requires
            0 <= bytes_per_line <= 0xffff_ffff,
            0 <= height <= 0xffff_ffff,
    ;
}

/// A cursor is set, with its picture, its size and its hot spot as they came, exactly when
/// none of them is beyond the limit in its direction; otherwise it is passed over, and the
/// session goes on.
pub proof fn cursors_are_set_as_they_came(
    before: ClientLoop,
    data: Vec<u8>,
    width: u32,
    height: u32,
    xhot: u32,
    yhot: u32,
    after: ClientLoop,
    result: Result<Option<Effect>, Stop>,
)
    requires
        handled(before, ServerMessage::Cursor { data, width, height, xhot, yhot }, after, result),
    ensures
        after == before,
        width <= before.limits.cursor_width && xhot <= before.limits.cursor_width && height
            <= before.limits.cursor_height && yhot <= before.limits.cursor_height ==> {
            &&& result matches Ok(Some(Effect::SetCursor { data: picture, size, hot }))
            &&& picture == data
            &&& size.0 == width && size.1 == height
            &&& (xhot - hot.0) % 0x1_0000 == 0 && (yhot - hot.1) % 0x1_0000 == 0
        },
        width > before.limits.cursor_width || xhot > before.limits.cursor_width || height
            > before.limits.cursor_height || yhot > before.limits.cursor_height ==> (
        result matches Ok(None)),
{
    cut_numbers_lose_whole_multiples(xhot, 0);
    cut_numbers_lose_whole_multiples(yhot, 0);
}

/// Sound is played where it was set up and passed over elsewhere; the clipboard is set to the
/// text that came, the file that came is printed, and the statistics that came are kept.
pub proof fn contents_are_passed_on(
    before: ClientLoop,
    message: ServerMessage,
    after: ClientLoop,
    result: Result<Option<Effect>, Stop>,
)
    requires
        handled(before, message, after, result),
    ensures
        match message {
            ServerMessage::SoundEncoded(packets) => {
                &&& before.sound ==> (result matches Ok(Some(Effect::PlaySound(played)))
                    && played == packets)
                &&& !before.sound ==> (result matches Ok(None))
            },
            ServerMessage::Clipboard(text) => result matches Ok(Some(Effect::SetClipboard(set)))
                && set == text,
            ServerMessage::Printfile(path) => result matches Ok(Some(Effect::PrintFile(printed)))
                && printed == path,
            ServerMessage::Stats(stats) => (result matches Ok(None)) && after.stats == stats,
            ServerMessage::Notifications(parts) => {
                &&& parts@.len() == 0 ==> (result matches Ok(None))
                &&& parts@.len() > 0 ==> (result matches Ok(Some(Effect::Notify(_))))
            },
            ServerMessage::Other => (result matches Ok(None)) && after == before,
            _ => true,
        },
{
}

/// A notification has the title of the last part that holds one, the messages in their
/// order, and the icon of the last part that holds one that fits.
pub proof fn notifications_hold_the_last_title_and_icon(
    parts: Seq<NotificationPart>,
    notification: Notification,
)
    requires
        notifies(notification, parts),
    ensures
        match notification.title {
            Some(title) => exists|at: int|
                0 <= at < parts.len() && (#[trigger] parts[at] matches NotificationPart::Title(text)
                    && text@ == title@) && forall|later: int|
                    at < later < parts.len() ==> !(#[trigger] parts[later] is Title),
            None => forall|at: int| 0 <= at < parts.len() ==> !(#[trigger] parts[at] is Title),
        },
        match notification.icon {
            Some(icon) => exists|at: int|
                0 <= at < parts.len() && shows_icon(#[trigger] parts[at]) && forall|later: int|
                    at < later < parts.len() ==> !shows_icon(#[trigger] parts[later]),
            None => forall|at: int| 0 <= at < parts.len() ==> !shows_icon(#[trigger] parts[at]),
        },
        notification.icon matches Some(icon) ==> exists|at: int|
            0 <= at < parts.len() && (#[trigger] parts[at] matches NotificationPart::Icon {
                width,
                height,
                data,
            } && (width - icon.width) % 0x1_0000_0000 == 0 && (height - icon.height)
                % 0x1_0000_0000 == 0 && data@ == icon.data@) && forall|later: int|
                at < later < parts.len() ==> !shows_icon(#[trigger] parts[later]),
        notification.body@ == joined(messages(parts)),
{
    lemma_last_title(parts);
    lemma_last_icon(parts);
}

/// A part holds an icon that fits: four bytes for each pixel, within the limits on its sides
/// and on its rows, whose width and height count as signed.
pub open spec fn shows_icon(part: NotificationPart) -> bool {
    part matches NotificationPart::Icon { width, height, data } && {
        let across = if width < 0x8000_0000 {
            width as int
        } else {
            width - 0x1_0000_0000
        };
        let down = if height < 0x8000_0000 {
            height as int
        } else {
            height - 0x1_0000_0000
        };
        &&& -0x2000_0000 <= across <= 0x0fff_ffff
        &&& down <= 0x0fff_ffff
        &&& across * down * 4 == data@.len()
        &&& data@.len() <= 0x7fff_ffff
    }
}

proof fn lemma_last_title(parts: Seq<NotificationPart>)
    ensures
        match last_title(parts) {
            Some(title) => exists|at: int|
                0 <= at < parts.len() && (#[trigger] parts[at] matches NotificationPart::Title(text)
                    && text@ == title) && forall|later: int|
                    at < later < parts.len() ==> !(#[trigger] parts[later] is Title),
            None => forall|at: int| 0 <= at < parts.len() ==> !(#[trigger] parts[at] is Title),
        },
    decreases parts.len(),
{
    if parts.len() > 0 {
        let rest = parts.drop_last();
        lemma_last_title(rest);
        if !(parts.last() is Title) {
            match last_title(rest) {
                Some(title) => {
                    let at = choose|at: int|
                        0 <= at < rest.len() && (#[trigger] rest[at] matches NotificationPart::Title(
                            text,
                        ) && text@ == title) && forall|later: int|
                            at < later < rest.len() ==> !(#[trigger] rest[later] is Title);
                    assert(parts[at] == rest[at]);
                    assert forall|later: int| at < later < parts.len() implies !(
                    #[trigger] parts[later] is Title) by {
                        if later < rest.len() {
                            assert(parts[later] == rest[later]);
                        }
                    }
                },
                None => {
                    assert forall|at: int| 0 <= at < parts.len() implies !(#[trigger] parts[at]
                        is Title) by {
                        if at < rest.len() {
                            assert(parts[at] == rest[at]);
                        }
                    }
                },
            }
        } else {
            assert(parts[parts.len() - 1] is Title);
        }
    }
}

/// The part at this place holds this icon, and no later part holds one that fits.
spec fn last_icon_at(parts: Seq<NotificationPart>, icon: (i32, i32, Seq<u8>), at: int) -> bool {
    &&& 0 <= at < parts.len()
    &&& shows_icon(parts[at])
    &&& parts[at] matches NotificationPart::Icon { width, height, data } && (width - icon.0)
        % 0x1_0000_0000 == 0 && (height - icon.1) % 0x1_0000_0000 == 0 && data@ == icon.2
    &&& forall|later: int| at < later < parts.len() ==> !shows_icon(#[trigger] parts[later])
}

proof fn lemma_last_icon(parts: Seq<NotificationPart>)
    ensures
        match last_icon(parts) {
            Some(icon) => exists|at: int| #[trigger] last_icon_at(parts, icon, at),
            None => forall|at: int| 0 <= at < parts.len() ==> !shows_icon(#[trigger] parts[at]),
        },
    decreases parts.len(),
{
    if parts.len() > 0 {
        let rest = parts.drop_last();
        let last = parts.last();
        lemma_last_icon(rest);
        if shows_icon(last) {
            assert(last_icon(parts) is Some);
            assert(last_icon_at(parts, last_icon(parts)->0, parts.len() - 1));
        } else {
            assert(last_icon(parts) == last_icon(rest));
            match last_icon(rest) {
                Some(icon) => {
                    let at = choose|at: int| #[trigger] last_icon_at(rest, icon, at);
                    assert forall|later: int| at < later < parts.len() implies !shows_icon(
                        #[trigger] parts[later],
                    ) by {
                        if later < rest.len() {
                            assert(parts[later] == rest[later]);
                        }
                    }
                    assert(last_icon_at(parts, icon, at));
                },
                None => {
                    assert forall|at: int| 0 <= at < parts.len() implies !shows_icon(
                        #[trigger] parts[at],
                    ) by {
                        if at < rest.len() {
                            assert(parts[at] == rest[at]);
                        }
                    }
                },
            }
        }
    }
}

/// The messages of parts one after the other are the messages of the first and then those of
/// the others. A message counts as itself, and any other part as none.
pub proof fn messages_keep_their_order(
    first: Seq<NotificationPart>,
    second: Seq<NotificationPart>,
    part: NotificationPart,
)
    ensures
        messages(first + second) == messages(first) + messages(second),
        match part {
            NotificationPart::Message(text) => messages(seq![part]) == seq![text@],
            _ => messages(seq![part]).len() == 0,
        },
    decreases second.len(),
{
    assert(seq![part].drop_last() =~= seq![]);
    assert(messages(seq![]) =~= seq![]);
    if second.len() == 0 {
        assert(first + second =~= first);
    } else {
        messages_keep_their_order(first, second.drop_last(), part);
        assert((first + second).drop_last() =~= first + second.drop_last());
        assert((first + second).last() == second.last());
    }
}

/// Texts one below the other are parted by one end of line each: those of two lists are the
/// first list, an end of line, and the second. One text stands for itself, and none for
/// nothing.
pub proof fn texts_are_parted_by_ends_of_lines(
    first: Seq<Seq<char>>,
    second: Seq<Seq<char>>,
    line: Seq<char>,
)
    ensures
        joined(seq![]) == Seq::<char>::empty(),
        joined(seq![line]) == line,
        first.len() > 0 && second.len() > 0 ==> joined(first + second) == joined(first) + seq!['\n']
            + joined(second),
    decreases second.len(),
{
    reveal_strlit("\n");
    assert("\n"@ =~= seq!['\n']);
    if first.len() > 0 && second.len() > 0 {
        assert((first + second).drop_last() =~= first + second.drop_last());
        assert((first + second).last() == second.last());
        if second.len() == 1 {
            assert(first + second.drop_last() =~= first);
            assert(second[0] == second.last());
        } else {
            texts_are_parted_by_ends_of_lines(first, second.drop_last(), line);
        }
        assert(joined(first + second) =~= joined(first) + seq!['\n'] + joined(second));
    }
}

/// The statistics that are drawn have a `u` for each micro sign and every other character as
/// it is.
pub proof fn statistics_lose_only_micro_signs(stats: Seq<char>, at: int)
    requires
        0 <= at < stats.len(),
    ensures
        plain_stats(stats).len() == stats.len(),
        stats[at] != '\u{b5}' ==> plain_stats(stats)[at] == stats[at],
        stats[at] == '\u{b5}' ==> plain_stats(stats)[at] == 'u',
{
}

/// Reports of the server are refused, without telling it, exactly where there are some and no
/// authenticator was set up.
pub proof fn reports_need_an_authenticator(state: ClientLoop, reports: Seq<Vec<u8>>)
    ensures
        reports_checked(state, reports) is Err <==> !state.fido && reports.len() > 0,
        reports_checked(state, reports) matches Err(stop) ==> stop.error
            == ClientError::FidoNotNegotiated && !stop.notify,
{
}

/// The windows that are shown are those of the session, each under its number and each mapped
/// from the size of the session to the size of the display.
pub proof fn every_window_is_mapped_to_the_display(
    areas: Map<usize, Area>,
    size: (u16, u16),
    display_size: (u16, u16),
    id: usize,
)
    ensures
        scaled_areas(areas, size, display_size).dom() == areas.dom(),
        areas.dom().contains(id) ==> {
            let shown = scaled_areas(areas, size, display_size)[id];
            &&& shown == mapped_area(areas[id], size, display_size)
            &&& shown.mapped == areas[id].mapped
            &&& shown.is_app == areas[id].is_app
            &&& shown.name == areas[id].name
            &&& shown.id == areas[id].id
        },
{
    assert(scaled_areas(areas, size, display_size).dom() =~= areas.dom());
}

/// A turn begins without an image and without windows, and with everything else as it was.
pub proof fn turns_begin_empty<B, O>(
    before: ClientTurn<B, O>,
    after: ClientTurn<B, O>,
    result: Result<TurnAction<B, O>, Stop>,
)
    requires
        turn_begun(before, after, result),
    ensures
        result matches Ok(TurnAction::PollEvents),
        after.stage is Polling,
        after.events == before.events,
        after.waiting == before.waiting,
        after.state.image is None,
        after.state.areas@.dom() =~= Set::<usize>::empty(),
        after.state.stats == before.state.stats,
        after.state.size == before.state.size,
        after.state.bytes_per_line == before.state.bytes_per_line,
        after.state.limits == before.state.limits,
        after.state.sound == before.state.sound,
        after.state.fido == before.state.fido,
        after.state.shared_images == before.state.shared_images,
        after.state.source_is_xwd == before.state.source_is_xwd,
{
}

/// What the server sent is dealt with in its order: the messages that came wait, the reports
/// that came are written to the authenticator first, where there is one, and then one message
/// after the other is dealt with, from the first.
pub proof fn messages_are_dealt_with_in_order<B, O, F: Fn(u32) -> u32>(
    before: ClientTurn<B, O>,
    event: TurnEvent<B, O>,
    divide: F,
    after: ClientTurn<B, O>,
    result: Result<TurnAction<B, O>, Stop>,
)
    requires
        turned(before, event, divide, after, result),
    ensures
        before.stage is Receiving ==> (event matches TurnEvent::Received { messages, fido_reports }
            ==> {
            &&& result is Err <==> !before.state.fido && fido_reports@.len() > 0
            &&& result is Ok ==> after.waiting == messages && after.state == before.state
            &&& before.state.fido ==> (result matches Ok(TurnAction::WriteFido(written)) && written
                == fido_reports)
            &&& !before.state.fido && result is Ok ==> (result matches Ok(TurnAction::Proceed))
        }),
        before.stage is Handling && event is Done && before.waiting@.len() > 0 ==> {
            &&& after.waiting@.len() == before.waiting@.len() - 1
            &&& forall|i: int|
                0 <= i < after.waiting@.len() ==> #[trigger] after.waiting@[i] == before.waiting@[i
                    + 1]
            &&& handled(
                before.state,
                before.waiting@[0],
                after.state,
                match result {
                    Err(stop) => Err(stop),
                    Ok(TurnAction::Perform(effect)) => Ok(Some(effect)),
                    Ok(_) => Ok(None),
                },
            )
        },
{
}

/// A raw image that is read from its source is kept with the width and height that the
/// message asked for and the bytes that were read. Where it is read from shared memory, the
/// bytes per line are those of the message; in a window dump, those that were read.
pub proof fn images_that_were_read_are_kept<B, O, F: Fn(u32) -> u32>(
    before: ClientTurn<B, O>,
    event: TurnEvent<B, O>,
    divide: F,
    after: ClientTurn<B, O>,
    result: Result<TurnAction<B, O>, Stop>,
)
    requires
        turned(before, event, divide, after, result),
    ensures
        before.stage is Handling && before.waiting@.len() > 0 ==> match result {
            Ok(TurnAction::Perform(Effect::ReadXwd { width, height })) => after.stage
                == (TurnStage::ReadingXwd { width, height }),
            Ok(TurnAction::Perform(Effect::ReadShared { width, height, bytes_per_line, .. })) =>
            after.stage == (TurnStage::ReadingShared { width, height, bytes_per_line }),
            Ok(TurnAction::Perform(_)) => after.stage is Performing,
            _ => true,
        },
        match (before.stage, event) {
            (
                TurnStage::ReadingXwd { width, height },
                TurnEvent::XwdRead { data, bytes_per_line },
            ) => after.state == raw_kept(before.state, data, width, height, bytes_per_line).0 && (
            result is Ok <==> raw_kept(before.state, data, width, height, bytes_per_line).1 is Ok),
            (
                TurnStage::ReadingShared { width, height, bytes_per_line },
                TurnEvent::SharedRead(data),
            ) => after.state == raw_kept(before.state, data, width, height, bytes_per_line).0 && (
            result is Ok <==> raw_kept(before.state, data, width, height, bytes_per_line).1 is Ok),
            _ => true,
        },
{
}

/// When every message has been dealt with, the image of the turn is decoded, with a new
/// set-up of the decoder first exactly where its width or its height is not the session's.
/// What was set up for is what is decoded.
pub proof fn decoders_are_set_up_for_the_size<B, O, F: Fn(u32) -> u32>(
    before: ClientTurn<B, O>,
    event: TurnEvent<B, O>,
    divide: F,
    after: ClientTurn<B, O>,
    result: Result<TurnAction<B, O>, Stop>,
)
    requires
        turned(before, event, divide, after, result),
    ensures
        before.stage is Handling && event is Done && before.waiting@.len() == 0 ==> {
            &&& before.state.image is None ==> (result matches Ok(TurnAction::Measure))
            &&& before.state.image matches Some(image) ==> {
                &&& (image.width - after.state.size.0) % 0x1_0000 == 0
                &&& (image.height - after.state.size.1) % 0x1_0000 == 0
                &&& after.state.size.0 != before.state.size.0 || after.state.size.1
                    != before.state.size.1 ==> (result matches Ok(TurnAction::Reload)) && (
                after.stage matches TurnStage::Reloading(showing) && showing.data == image.data
                    && showing.size == after.state.size && showing.bytes_per_line
                    == before.state.bytes_per_line)
                &&& after.state.size == before.state.size ==> (
                result matches Ok(TurnAction::Decode(showing)) && showing.data == image.data
                    && showing.size == before.state.size && showing.bytes_per_line
                    == before.state.bytes_per_line)
            }
        },
        match (before.stage, event) {
            (TurnStage::Reloading(showing), TurnEvent::Done) => result matches Ok(
                TurnAction::Decode(decoded),
            ) && decoded == showing,
            _ => true,
        },
{
    either_change_of_size_reloads(before.state);
}

/// A decoded image is shown in four bytes for each pixel of the session's size, with the
/// session's statistics fifty lines above its end. Where nothing was decoded, nothing is
/// shown.
pub proof fn decoded_images_are_shown<B, O, F: Fn(u32) -> u32>(
    before: ClientTurn<B, O>,
    decoded: bool,
    divide: F,
    after: ClientTurn<B, O>,
    result: Result<TurnAction<B, O>, Stop>,
)
    requires
        before.stage is Decoding,
        turned(before, TurnEvent::Decoded(decoded), divide, after, result),
    ensures
        after.state == before.state,
        decoded ==> {
            &&& result matches Ok(TurnAction::Show { text, height, length })
            &&& length == before.state.size.0 * before.state.size.1 * 4
            &&& height + 50 == before.state.size.1
            &&& text@.len() == before.state.stats@.len()
            &&& forall|i: int|
                0 <= i < text@.len() ==> #[trigger] text@[i] == (if before.state.stats@[i]
                    == '\u{b5}' {
                    'u'
                } else {
                    before.state.stats@[i]
                })
        },
        !decoded ==> (result matches Ok(TurnAction::Measure)),
{
}

/// The windows are mapped to the size of the display that was measured, its width across and
/// its height down, from the size of the session.
pub proof fn windows_follow_the_measured_display<B, O, F: Fn(u32) -> u32>(
    before: ClientTurn<B, O>,
    width: u16,
    height: u16,
    divide: F,
    after: ClientTurn<B, O>,
    result: Result<TurnAction<B, O>, Stop>,
    id: usize,
)
    requires
        before.stage is Measuring,
        turned(before, TurnEvent::Measured(width, height), divide, after, result),
    ensures
        result matches Ok(TurnAction::Update),
        after.state.areas@.dom() == before.state.areas@.dom(),
        after.state.size == before.state.size,
        before.state.areas@.dom().contains(id) ==> after.state.areas@[id] == mapped_area(
            before.state.areas@[id],
            before.state.size,
            (width, height),
        ),
{
    assert(scaled_areas(before.state.areas@, before.state.size, (width, height)).dom()
        =~= before.state.areas@.dom());
}

/// A failure ends the session with the error of what failed, leaves everything as it is, and
/// tells the server nothing, but that a message's effect may fail.
pub proof fn failures_name_what_failed<B, O, F: Fn(u32) -> u32>(
    before: ClientTurn<B, O>,
    divide: F,
    after: ClientTurn<B, O>,
    result: Result<TurnAction<B, O>, Stop>,
)
    requires
        turned(before, TurnEvent::Failed, divide, after, result),
    ensures
        before.stage is Performing <==> result is Ok,
        after.state == before.state,
        result matches Err(stop) ==> {
            &&& !stop.notify
            &&& before.stage is Polling || before.stage is Showing || before.stage is Updating
                ==> stop.error is Display
            &&& before.stage is PollingFido || before.stage is WritingFido ==> stop.error is Fido
            &&& before.stage is Sending || before.stage is Receiving ==> stop.error is Exchange
            &&& before.stage is ReadingXwd || before.stage is ReadingShared ==> stop.error
                is ImageSource
            &&& before.stage is Reloading ==> stop.error is Codec
            &&& before.stage is Beginning || before.stage is Handling || before.stage is Decoding
                || before.stage is Measuring ==> stop.error is UnexpectedEvent
        },
{
}

/// Every step of a turn leads to one next step, and asks for what that step waits for: from
/// the events of the display to the reports of the authenticator where there is one, to
/// sending both, to receiving, to writing the server's reports, to the messages, to the
/// image, to the windows, and to the next turn.
pub proof fn each_step_leads_to_the_next<B, O, F: Fn(u32) -> u32>(
    before: ClientTurn<B, O>,
    event: TurnEvent<B, O>,
    divide: F,
    after: ClientTurn<B, O>,
    result: Result<TurnAction<B, O>, Stop>,
)
    requires
        turned(before, event, divide, after, result),
    ensures
        match (before.stage, event) {
            (TurnStage::Polling, TurnEvent::Polled { events: polled, display_size }) => {
                &&& after.state == before.state
                &&& before.state.fido ==> after.stage is PollingFido && (result matches Ok(
                    TurnAction::PollFido,
                )) && events_mapped(
                    polled@,
                    after.events@,
                    display_size,
                    before.state.size,
                    divide,
                )
                &&& !before.state.fido ==> after.stage is Sending && after.events@.len() == 0 && (
                result matches Ok(TurnAction::Send { events, fido_reports }) && events_mapped(
                    polled@,
                    events@,
                    display_size,
                    before.state.size,
                    divide,
                ) && fido_reports@.len() == 0)
            },
            (TurnStage::PollingFido, TurnEvent::FidoPolled(reports)) => {
                &&& after.state == before.state
                &&& after.stage is Sending
                &&& after.events@.len() == 0
                &&& result matches Ok(TurnAction::Send { events, fido_reports })
                &&& events@ == before.events@
                &&& fido_reports@ == reports@
            },
            (TurnStage::Sending, TurnEvent::Done) => after.stage is Receiving && (
            result matches Ok(TurnAction::Receive)) && after.state == before.state,
            (TurnStage::Receiving, TurnEvent::Received { .. }) => {
                &&& result is Err ==> after.stage is Beginning
                &&& result is Ok && before.state.fido ==> after.stage is WritingFido
                &&& result is Ok && !before.state.fido ==> after.stage is Handling
            },
            (TurnStage::WritingFido, TurnEvent::Done) => after.stage is Handling && (
            result matches Ok(TurnAction::Proceed)) && after.state == before.state,
            (TurnStage::Handling, TurnEvent::Done) => match result {
                Err(_) => after.stage is Beginning,
                Ok(TurnAction::Proceed) => after.stage is Handling,
                Ok(TurnAction::Reload) => after.stage is Reloading,
                Ok(TurnAction::Decode(_)) => after.stage is Decoding,
                Ok(TurnAction::Measure) => after.stage is Measuring,
                Ok(TurnAction::Perform(_)) => true,
                Ok(_) => false,
            },
            (TurnStage::Performing, TurnEvent::Done) => after.stage is Handling && (
            result matches Ok(TurnAction::Proceed)) && after.state == before.state,
            (TurnStage::Performing, TurnEvent::Failed) => after.stage is Handling && (
            result matches Ok(TurnAction::Proceed)) && after.state == before.state,
            (TurnStage::ReadingXwd { .. }, TurnEvent::XwdRead { .. }) => match result {
                Ok(TurnAction::Proceed) => after.stage is Handling,
                Ok(_) => false,
                Err(_) => after.stage is Beginning,
            },
            (TurnStage::ReadingShared { .. }, TurnEvent::SharedRead(_)) => match result {
                Ok(TurnAction::Proceed) => after.stage is Handling,
                Ok(_) => false,
                Err(_) => after.stage is Beginning,
            },
            (TurnStage::Reloading(_), TurnEvent::Done) => after.stage is Decoding && after.state
                == before.state,
            (TurnStage::Decoding, TurnEvent::Decoded(decoded)) => if decoded {
                after.stage is Showing
            } else {
                after.stage is Measuring
            },
            (TurnStage::Showing, TurnEvent::Done) => after.stage is Measuring && (
            result matches Ok(TurnAction::Measure)) && after.state == before.state,
            (TurnStage::Measuring, TurnEvent::Measured(..)) => after.stage is Updating && (
            result matches Ok(TurnAction::Update)),
            (TurnStage::Updating, TurnEvent::Done) => after.stage is Polling && (
            result matches Ok(TurnAction::PollEvents)),
            (_, TurnEvent::Failed) => result is Err && after == before,
            _ => after == before && (result matches Err(stop) && stop.error is UnexpectedEvent
                && !stop.notify),
        },
        !(before.stage is Polling) && !(before.stage is PollingFido) ==> after.events
            == before.events,
        !(before.stage is Receiving) && !(before.stage is Handling) ==> after.waiting
            == before.waiting,
        before.stage is Handling && before.waiting@.len() == 0 ==> after.waiting@
            == before.waiting@,
{
}

/// A loop starts with what it is set up with, and with nothing received.
pub proof fn loops_start_empty(
    state: ClientLoop,
    limits: Limits,
    sound: bool,
    fido: bool,
    shared_images: bool,
    source_is_xwd: bool,
    size: (u16, u16),
)
    requires
        loop_set_up(state, limits, sound, fido, shared_images, source_is_xwd, size),
    ensures
        state.limits.window_width == limits.window_width,
        state.limits.window_height == limits.window_height,
        state.limits.cursor_width == limits.cursor_width,
        state.limits.cursor_height == limits.cursor_height,
        state.limits.bytes_per_line == limits.bytes_per_line,
        state.sound <==> sound,
        state.fido <==> fido,
        state.shared_images <==> shared_images,
        state.source_is_xwd <==> source_is_xwd,
        state.size.0 == size.0 && state.size.1 == size.1,
        state.bytes_per_line is None,
        state.image is None,
        state.stats@ =~= Seq::<char>::empty(),
        state.areas@.dom() =~= Set::<usize>::empty(),
{
}

} // verus!
