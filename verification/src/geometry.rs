//! Sizes and positions: what is accepted from the server, and how coordinates are mapped
//! between the remote desktop and the local display.

use vstd::arithmetic::div_mod::{
    lemma_div_by_multiple, lemma_div_is_ordered, lemma_div_pos_is_pos,
    lemma_fundamental_div_mod_converse,
};
use vstd::prelude::*;

use crate::error::ClientError;
use crate::numbers::{cut_numbers_lose_whole_multiples, low_half, to_low_half};

verus! {

/// The largest images and cursors that are accepted.
#[derive(Clone, Copy, Debug, PartialEq, Eq, Structural)]
pub struct Limits {
    pub window_width: u32,
    pub window_height: u32,
    pub cursor_width: u32,
    pub cursor_height: u32,
    pub bytes_per_line: u32,
}

/// Accepts an image size within the limits.
pub fn check_img_size(width: u32, height: u32, limits: &Limits) -> (result: Result<
    (u32, u32),
    ClientError,
>)
    ensures
        result == image_size(width, height, *limits),
{
    if width > limits.window_width || height > limits.window_height {
        Err(ClientError::ImageTooBig(width, height))
    } else {
        Ok((width, height))
    }
}

/// An image size within the limits.
pub open spec fn image_size(width: u32, height: u32, limits: Limits) -> Result<
    (u32, u32),
    ClientError,
> {
    if width <= limits.window_width && height <= limits.window_height {
        Ok((width, height))
    } else {
        Err(ClientError::ImageTooBig(width, height))
    }
}

/// A cursor size and hot spot within the limits.
pub open spec fn cursor_size(width: u32, height: u32, xhot: u32, yhot: u32, limits: Limits) -> Result<
    (u32, u32, u32, u32),
    ClientError,
> {
    if width <= limits.cursor_width && xhot <= limits.cursor_width && height <= limits.cursor_height
        && yhot <= limits.cursor_height {
        Ok((width, height, xhot, yhot))
    } else {
        Err(ClientError::CursorTooBig(width, height, xhot, yhot))
    }
}

/// Accepts a cursor size and hot spot within the limits.
pub fn check_cusor_size(width: u32, height: u32, xhot: u32, yhot: u32, limits: &Limits) -> (result:
    Result<(u32, u32, u32, u32), ClientError>)
    ensures
        result == cursor_size(width, height, xhot, yhot, *limits),
{
    if width > limits.cursor_width || height > limits.cursor_height || xhot > limits.cursor_width
        || yhot > limits.cursor_height {
        Err(ClientError::CursorTooBig(width, height, xhot, yhot))
    } else {
        Ok((width, height, xhot, yhot))
    }
}

/// The largest even number up to the given one, and at least two.
pub open spec fn even_dimension(dimension: u32) -> u32 {
    if dimension < 2 {
        2
    } else {
        (dimension - dimension % 2) as u32
    }
}

/// The largest even number up to the given one, and at least two.
pub fn to_even_dimension(dimension: u32) -> (even: u32)
    ensures
        even == even_dimension(dimension),
{
    let least: u32 = if dimension < 2 {
        2
    } else {
        dimension
    };
    let even: u32 = least & !1;
    assert(even == least - least % 2) by (bit_vector)
        requires
            even == least & !1u32,
    ;
    even
}

/// The dimension to ask the server for. `divide` gives the dimension divided by the zoom,
/// rounded. Video encoders generally require even dimensions; very small windows still
/// get a dimension.
pub fn zoomed_dimension<F: Fn(u32) -> u32>(dimension: u32, divide: F) -> (zoomed: u32)
    requires
        divide.requires((dimension,)),
    ensures
        exists|quotient: u32| #[trigger]
            divide.ensures((dimension,), quotient) && zoomed == even_dimension(quotient),
{
    to_even_dimension(divide(dimension))
}

/// The smaller of two numbers.
pub open spec fn smaller(a: int, b: int) -> int {
    if a < b {
        a
    } else {
        b
    }
}

/// The number brought within bounds.
pub open spec fn clamped(value: int, low: int, high: int) -> int {
    if value < low {
        low
    } else if value > high {
        high
    } else {
        value
    }
}

/// A coordinate in one length mapped to another length.
pub open spec fn mapped_coordinate(value: u32, from: u32, to: u32) -> u32 {
    if from == 0 || to == 0 {
        0
    } else {
        smaller(value * to / (from as int), to - 1) as u32
    }
}

proof fn lemma_product_fits(a: u32, b: u32)
    ensures
        0 <= a * b <= 0xffff_ffff * 0xffff_ffff,
{
    assert(0 <= a * b <= 0xffff_ffff * 0xffff_ffff) by (nonlinear_arith)
        requires
            0 <= a <= 0xffff_ffff,
            0 <= b <= 0xffff_ffff,
    ;
}

/// Maps a coordinate in one length to another length.
pub fn scale_coordinate(value: u32, from: u32, to: u32) -> (scaled: u32)
    ensures
        scaled == mapped_coordinate(value, from, to),
{
    if from == 0 {
        return 0;
    }
    proof {
        lemma_product_fits(value, to);
        if to == 0 {
            assert(value * to == 0) by (nonlinear_arith)
                requires
                    to == 0,
            ;
        }
        lemma_div_pos_is_pos(value * to, from as int);
    }
    let quotient: u64 = (value as u64 * to as u64) / from as u64;
    let last: u64 = if to == 0 {
        0
    } else {
        (to - 1) as u64
    };
    if quotient < last {
        quotient as u32
    } else {
        last as u32
    }
}

/// The quotient rounded towards zero.
pub open spec fn truncated_quotient(dividend: int, divisor: int) -> int {
    if dividend >= 0 {
        dividend / divisor
    } else {
        -((-dividend) / divisor)
    }
}

/// A signed position in one length mapped to another length.
pub open spec fn mapped_signed(value: i32, from: u32, to: u32) -> i32 {
    if from == 0 {
        value
    } else {
        clamped(
            truncated_quotient(value * to, from as int),
            i32::MIN as int,
            i32::MAX as int,
        ) as i32
    }
}

/// Maps a signed position in one length to another length.
pub fn scale_signed(value: i32, from: u32, to: u32) -> (scaled: i32)
    ensures
        scaled == mapped_signed(value, from, to),
{
    if from == 0 {
        return value;
    }
    let magnitude: u32 = if value >= 0 {
        value as u32
    } else {
        (-(value as i64)) as u32
    };
    proof {
        lemma_product_fits(magnitude, to);
        lemma_div_pos_is_pos(magnitude * to, from as int);
        if value < 0 {
            assert(magnitude == -value);
            assert(magnitude * to == -(value * to)) by (nonlinear_arith)
                requires
                    magnitude == -value,
            ;
        } else {
            assert(magnitude * to == value * to);
            assert(value * to >= 0) by (nonlinear_arith)
                requires
                    value >= 0,
                    to >= 0,
            ;
        }
    }
    let quotient: u64 = (magnitude as u64 * to as u64) / from as u64;
    if value >= 0 {
        if quotient > 0x7fff_ffff {
            i32::MAX
        } else {
            quotient as i32
        }
    } else {
        proof {
            assert(value * to <= 0) by (nonlinear_arith)
                requires
                    value < 0,
                    to >= 0,
            ;
            if value * to == 0 {
                assert(0int / from as int == 0) by (nonlinear_arith)
                    requires
                        from > 0,
                ;
            }
        }
        if quotient > 0x8000_0000 {
            i32::MIN
        } else {
            (-(quotient as i64)) as i32
        }
    }
}

/// A length mapped to another scale.
pub open spec fn mapped_length(value: u32, from: u32, to: u32) -> u32 {
    if from == 0 {
        value
    } else {
        smaller(value * to / (from as int), u32::MAX as int) as u32
    }
}

/// Maps a length to another scale.
pub fn scale_length(value: u32, from: u32, to: u32) -> (scaled: u32)
    ensures
        scaled == mapped_length(value, from, to),
{
    if from == 0 {
        return value;
    }
    proof {
        lemma_product_fits(value, to);
        lemma_div_pos_is_pos(value * to, from as int);
    }
    let quotient: u64 = (value as u64 * to as u64) / from as u64;
    if quotient < 0xffff_ffff {
        quotient as u32
    } else {
        0xffff_ffff
    }
}

/// A window of the remote desktop.
#[derive(Debug, PartialEq)]
pub struct Area {
    pub id: usize,
    pub size: (u16, u16),
    pub position: (i16, i16),
    pub mapped: bool,
    pub is_app: bool,
    pub name: String,
}

/// A position of a window mapped to another scale.
pub open spec fn mapped_position(value: i16, from: u16, to: u16) -> i16 {
    clamped(
        mapped_signed(value as i32, from as u32, to as u32) as int,
        i16::MIN as int,
        i16::MAX as int,
    ) as i16
}

/// An extent of a window mapped to another scale: at least one, and only the low 16 bits.
pub open spec fn mapped_extent(value: u16, from: u16, to: u16) -> u16 {
    let scaled = mapped_length(value as u32, from as u32, to as u32);
    if scaled == 0 {
        1
    } else {
        low_half(scaled)
    }
}

/// A window mapped from the remote desktop to the display.
pub open spec fn mapped_area(area: Area, remote_size: (u16, u16), display_size: (u16, u16)) -> Area {
    Area {
        size: (
            mapped_extent(area.size.0, remote_size.0, display_size.0),
            mapped_extent(area.size.1, remote_size.1, display_size.1),
        ),
        position: (
            mapped_position(area.position.0, remote_size.0, display_size.0),
            mapped_position(area.position.1, remote_size.1, display_size.1),
        ),
        ..area
    }
}

fn scale_position(value: i16, from: u16, to: u16) -> (scaled: i16)
    ensures
        scaled == mapped_position(value, from, to),
{
    let scaled: i32 = scale_signed(value as i32, from as u32, to as u32);
    if scaled < -0x8000 {
        i16::MIN
    } else if scaled > 0x7fff {
        i16::MAX
    } else {
        scaled as i16
    }
}

fn scale_extent(value: u16, from: u16, to: u16) -> (scaled: u16)
    ensures
        scaled == mapped_extent(value, from, to),
{
    let scaled: u32 = scale_length(value as u32, from as u32, to as u32);
    if scaled == 0 {
        1
    } else {
        to_low_half(scaled)
    }
}

/// Maps a window from the remote desktop to the display.
pub fn scale_area(area: &mut Area, remote_size: (u16, u16), display_size: (u16, u16))
    ensures
        *final(area) == mapped_area(*old(area), remote_size, display_size),
{
    area.position.0 = scale_position(area.position.0, remote_size.0, display_size.0);
    area.position.1 = scale_position(area.position.1, remote_size.1, display_size.1);
    area.size.0 = scale_extent(area.size.0, remote_size.0, display_size.0);
    area.size.1 = scale_extent(area.size.1, remote_size.1, display_size.1);
}

/// What the user did, for the server. What a button event holds beside its place, and
/// events without a place or a size, are carried through.
#[derive(Debug, PartialEq)]
pub enum ClientEvent<B, O> {
    /// The pointer moved.
    Move { x: u32, y: u32 },
    /// A button went down or up.
    Button { x: u32, y: u32, button: B },
    /// The display has a new size.
    Display { width: u32, height: u32 },
    /// Anything else.
    Other(O),
}

/// A user event mapped from the display to the remote desktop.
pub open spec fn event_mapped<B, O, F: Fn(u32) -> u32>(
    before: ClientEvent<B, O>,
    after: ClientEvent<B, O>,
    display_size: (u16, u16),
    remote_size: (u16, u16),
    divide: F,
) -> bool {
    let x_of = |x: u32| mapped_coordinate(x, display_size.0 as u32, remote_size.0 as u32);
    let y_of = |y: u32| mapped_coordinate(y, display_size.1 as u32, remote_size.1 as u32);
    match before {
        ClientEvent::Move { x, y } => after == (ClientEvent::<B, O>::Move { x: x_of(x), y: y_of(y) }),
        ClientEvent::Button { x, y, button } => after == (ClientEvent::<B, O>::Button {
            x: x_of(x),
            y: y_of(y),
            button,
        }),
        ClientEvent::Display { width, height } => exists|across: u32, down: u32| #[trigger]
            divide.ensures((width,), across) && #[trigger] divide.ensures((height,), down) && after
                == (ClientEvent::<B, O>::Display {
                width: even_dimension(across),
                height: even_dimension(down),
            }),
        ClientEvent::Other(_) => after == before,
    }
}

/// User events mapped from the display to the remote desktop, each in its place.
pub open spec fn events_mapped<B, O, F: Fn(u32) -> u32>(
    before: Seq<ClientEvent<B, O>>,
    after: Seq<ClientEvent<B, O>>,
    display_size: (u16, u16),
    remote_size: (u16, u16),
    divide: F,
) -> bool {
    &&& after.len() == before.len()
    &&& forall|i: int|
        0 <= i < after.len() ==> event_mapped(
            before[i],
            #[trigger] after[i],
            display_size,
            remote_size,
            divide,
        )
}

/// Maps user events from the display to the remote desktop. `divide` gives a dimension
/// divided by the zoom, rounded.
pub fn scale_client_events<B, O, F: Fn(u32) -> u32>(
    msgs: &mut Vec<ClientEvent<B, O>>,
    display_size: (u16, u16),
    remote_size: (u16, u16),
    divide: F,
)
    requires
        forall|dimension: u32| #[trigger] divide.requires((dimension,)),
    ensures
        events_mapped(old(msgs)@, final(msgs)@, display_size, remote_size, divide),
{
    let mut at: usize = 0;
    while at < msgs.len()
        invariant
            at <= msgs@.len(),
            msgs@.len() == old(msgs)@.len(),
            forall|dimension: u32| #[trigger] divide.requires((dimension,)),
            forall|i: int|
                0 <= i < at ==> event_mapped(
                    old(msgs)@[i],
                    #[trigger] msgs@[i],
                    display_size,
                    remote_size,
                    divide,
                ),
            forall|i: int| at <= i < msgs@.len() ==> #[trigger] msgs@[i] == old(msgs)@[i],
        decreases msgs@.len() - at,
    {
        match &mut msgs[at] {
            ClientEvent::Move { x, y } => {
                *x = scale_coordinate(*x, display_size.0 as u32, remote_size.0 as u32);
                *y = scale_coordinate(*y, display_size.1 as u32, remote_size.1 as u32);
            },
            ClientEvent::Button { x, y, .. } => {
                *x = scale_coordinate(*x, display_size.0 as u32, remote_size.0 as u32);
                *y = scale_coordinate(*y, display_size.1 as u32, remote_size.1 as u32);
            },
            ClientEvent::Display { width, height } => {
                *width = zoomed_dimension(*width, &divide);
                *height = zoomed_dimension(*height, &divide);
            },
            ClientEvent::Other(_) => {},
        }
        at += 1;
    }
}

/// The dimension that the server is asked for is even, at least two, and no larger than
/// the quotient unless that is below two.
pub proof fn zoomed_dimensions_are_even(quotient: u32)
    ensures
        even_dimension(quotient) % 2 == 0,
        2 <= even_dimension(quotient),
        quotient >= 2 ==> quotient - 1 <= even_dimension(quotient) <= quotient,
{
}

/// A value at or above zero rounded to the nearest whole number, up from halfway.
pub open spec fn rounded(value: real) -> int {
    (value + 1int as real / 2int as real).floor()
}

/// A dimension divided by a zoom and rounded. `nearest` stands for the arithmetic in which
/// the division is done: it takes the exact quotient to the one that the arithmetic gives.
pub open spec fn zoom_quotient(dimension: u32, zoom: real, nearest: spec_fn(real) -> real) -> u32 {
    rounded(nearest(dimension as int as real / zoom)) as u32
}

/// A number is exact in an arithmetic.
pub open spec fn is_exact(number: int, nearest: spec_fn(real) -> real) -> bool {
    nearest(number as real) == number as real
}

/// An arithmetic that keeps the order of numbers and in which every 32-bit number is exact,
/// as IEEE double precision does.
pub open spec fn keeps_order_and_dimensions(nearest: spec_fn(real) -> real) -> bool {
    &&& forall|a: real, b: real| a <= b ==> #[trigger] nearest(a) <= #[trigger] nearest(b)
    &&& forall|number: int| 0 <= number <= u32::MAX ==> #[trigger] is_exact(number, nearest)
}

/// A quotient by a zoom of at least one is no larger than the dimension, and keeps the order
/// of dimensions.
proof fn lemma_zoom_quotient(one: u32, other: u32, zoom: real, nearest: spec_fn(real) -> real)
    requires
        zoom >= 1int as real,
        one <= other,
        keeps_order_and_dimensions(nearest),
    ensures
        zoom_quotient(one, zoom, nearest) <= one,
        zoom_quotient(one, zoom, nearest) <= zoom_quotient(other, zoom, nearest),
        zoom_quotient(other, zoom, nearest) <= other,
{
    let (small, large) = (one as int as real, other as int as real);
    let (low, high) = (small / zoom, large / zoom);
    assert(0int as real <= low <= high && low <= small && high <= large) by (nonlinear_arith)
        requires
            zoom >= 1int as real,
            0int as real <= small <= large,
            low == small / zoom,
            high == large / zoom,
    ;
    assert(is_exact(0, nearest) && is_exact(one as int, nearest) && is_exact(
        other as int,
        nearest,
    ));
    assert(nearest(0int as real) <= nearest(low) <= nearest(high));
    assert(nearest(low) <= nearest(small));
    assert(nearest(high) <= nearest(large));
}

/// Whatever the zoom, the dimension that the server is asked for is even, at least two, and
/// no larger than the window's own unless that is below two; and a larger window never gets
/// a smaller dimension.
pub proof fn zoomed_dimensions_keep_their_order(
    one: u32,
    other: u32,
    zoom: real,
    nearest: spec_fn(real) -> real,
)
    requires
        zoom >= 1int as real,
        one <= other,
        keeps_order_and_dimensions(nearest),
    ensures
        ({
            let smaller = even_dimension(zoom_quotient(one, zoom, nearest));
            let larger = even_dimension(zoom_quotient(other, zoom, nearest));
            &&& smaller % 2 == 0
            &&& 2 <= smaller
            &&& one >= 2 ==> smaller <= one
            &&& one < 2 ==> smaller == 2
            &&& smaller <= larger
        }),
{
    lemma_zoom_quotient(one, other, zoom, nearest);
}

/// A mapped coordinate stays inside, keeps its order, and is unchanged between equal
/// lengths. Where the remote desktop is no larger than the display, the first and the
/// last coordinate map to the first and the last.
pub proof fn coordinates_map_into_the_remote_desktop(one: u32, other: u32, from: u32, to: u32)
    requires
        from > 0,
        to > 0,
        one <= other,
    ensures
        mapped_coordinate(other, from, to) < to,
        mapped_coordinate(one, from, to) <= mapped_coordinate(other, from, to),
        from == to && one < to ==> mapped_coordinate(one, from, to) == one,
        mapped_coordinate(0, from, to) == 0,
        to <= from ==> mapped_coordinate((from - 1) as u32, from, to) == to - 1,
{
    lemma_product_fits(one, to);
    lemma_product_fits(other, to);
    lemma_div_pos_is_pos(one * to, from as int);
    lemma_div_pos_is_pos(other * to, from as int);
    assert(one * to <= other * to) by (nonlinear_arith)
        requires
            one <= other,
            to > 0,
    ;
    lemma_div_is_ordered(one * to, other * to, from as int);
    if from == to {
        lemma_div_by_multiple(one as int, to as int);
    }
    assert(0 * to == 0);
    if to <= from {
        assert((from - 1) * to == (to - 1) * from + (from - to)) by (nonlinear_arith);
        lemma_fundamental_div_mod_converse(
            (from - 1) * to,
            from as int,
            to - 1,
            from - to,
        );
    }
}

/// A window of a size within the remote desktop gets a size of at least one within the
/// display.
pub proof fn window_extents_map_into_the_display(value: u16, from: u16, to: u16)
    requires
        value <= from,
        from > 0,
        to > 0,
    ensures
        1 <= mapped_extent(value, from, to) <= to,
{
    lemma_product_fits(value as u32, to as u32);
    lemma_div_pos_is_pos(value * to, from as int);
    assert(value * to <= from * to) by (nonlinear_arith)
        requires
            value <= from,
            to > 0,
    ;
    lemma_div_is_ordered(value * to, from * to, from as int);
    assert(from * to == to * from) by (nonlinear_arith);
    lemma_div_by_multiple(to as int, from as int);
}

/// A window is unchanged where the remote desktop has the size of the display, but that
/// an empty extent becomes one.
pub proof fn equal_sizes_keep_windows(area: Area, size: (u16, u16))
    requires
        size.0 > 0,
        size.1 > 0,
    ensures
        mapped_area(area, size, size).position == area.position,
        area.size.0 > 0 && area.size.1 > 0 ==> mapped_area(area, size, size) == area,
{
    lemma_same_scale(area.position.0, size.0);
    lemma_same_scale(area.position.1, size.1);
    lemma_div_by_multiple(area.size.0 as int, size.0 as int);
    lemma_div_by_multiple(area.size.1 as int, size.1 as int);
}

proof fn lemma_same_scale(value: i16, size: u16)
    requires
        size > 0,
    ensures
        mapped_position(value, size, size) == value,
{
    if value >= 0 {
        assert(value * size >= 0) by (nonlinear_arith)
            requires
                value >= 0,
                size > 0,
        ;
        lemma_div_by_multiple(value as int, size as int);
    } else {
        assert(value * size < 0) by (nonlinear_arith)
            requires
                value < 0,
                size > 0,
        ;
        assert(-(value * size) == (-value) * size) by (nonlinear_arith);
        lemma_div_by_multiple(-value as int, size as int);
    }
}

/// An image is accepted, as it is, exactly when neither its width nor its height is beyond
/// the limit for it; a cursor exactly when neither its size nor its hot spot is, in either
/// direction. What is refused is named.
pub proof fn sizes_are_held_against_their_own_limits(
    width: u32,
    height: u32,
    xhot: u32,
    yhot: u32,
    limits: Limits,
)
    ensures
        width > limits.window_width || height > limits.window_height <==> image_size(
            width,
            height,
            limits,
        ) is Err,
        image_size(width, height, limits) matches Ok(size) ==> size == (width, height),
        image_size(width, height, limits) matches Err(error) ==> error == ClientError::ImageTooBig(
            width,
            height,
        ),
        width > limits.cursor_width || xhot > limits.cursor_width || height > limits.cursor_height
            || yhot > limits.cursor_height <==> cursor_size(width, height, xhot, yhot, limits)
            is Err,
        cursor_size(width, height, xhot, yhot, limits) matches Ok(size) ==> size == (
            width,
            height,
            xhot,
            yhot,
        ),
        cursor_size(width, height, xhot, yhot, limits) matches Err(error) ==> error
            == ClientError::CursorTooBig(width, height, xhot, yhot),
{
}

/// The quotient is the largest whole number whose product is no larger than the dividend.
proof fn lemma_quotient_bounds(dividend: int, divisor: int)
    requires
        dividend >= 0,
        divisor > 0,
    ensures
        0 <= dividend / divisor,
        dividend / divisor * divisor <= dividend,
        dividend < (dividend / divisor + 1) * divisor,
{
    lemma_div_pos_is_pos(dividend, divisor);
    let quotient = dividend / divisor;
    assert(quotient * divisor <= dividend < (quotient + 1) * divisor) by (nonlinear_arith)
        requires
            divisor > 0,
            quotient == dividend / divisor,
    ;
}

proof fn lemma_smaller_multiple(a: int, b: int, factor: int)
    requires
        a <= b,
        factor >= 0,
    ensures
        a * factor <= b * factor,
{
    assert(a * factor <= b * factor) by (nonlinear_arith)
        requires
            a <= b,
            factor >= 0,
    ;
}

/// A mapped coordinate is the largest that stands in no larger proportion to the new length
/// than the coordinate did to the old one, but at most the last. An empty length has no
/// coordinate but zero.
pub proof fn coordinates_keep_their_proportion(value: u32, from: u32, to: u32)
    ensures
        ({
            let mapped = mapped_coordinate(value, from, to);
            &&& from == 0 || to == 0 ==> mapped == 0
            &&& from > 0 && to > 0 ==> {
                &&& mapped <= to - 1
                &&& mapped * from <= value * to
                &&& mapped < to - 1 ==> value * to < (mapped + 1) * from
            }
        }),
{
    if from > 0 && to > 0 {
        lemma_product_fits(value, to);
        lemma_quotient_bounds(value * to, from as int);
        let quotient = value * to / (from as int);
        if quotient > to - 1 {
            lemma_smaller_multiple(to - 1, quotient, from as int);
        }
    }
}

/// A mapped length is the largest that stands in no larger proportion to the new scale than
/// the length did to the old one, within 32 bits. An empty scale changes nothing.
pub proof fn lengths_keep_their_proportion(value: u32, from: u32, to: u32)
    ensures
        ({
            let mapped = mapped_length(value, from, to);
            &&& from == 0 ==> mapped == value
            &&& from > 0 ==> {
                &&& mapped * from <= value * to
                &&& mapped < u32::MAX ==> value * to < (mapped + 1) * from
            }
        }),
{
    if from > 0 {
        lemma_product_fits(value, to);
        lemma_quotient_bounds(value * to, from as int);
        let quotient = value * to / (from as int);
        if quotient > u32::MAX {
            lemma_smaller_multiple(u32::MAX as int, quotient, from as int);
        }
    }
}

/// A mapped position lies on the side of the origin that the position does, and its distance
/// is the largest in no larger proportion to the new scale than the distance to the old
/// one, within 32 bits. An empty scale changes nothing.
pub proof fn positions_keep_their_proportion(value: i32, from: u32, to: u32)
    ensures
        ({
            let mapped = mapped_signed(value, from, to);
            &&& from == 0 ==> mapped == value
            &&& from > 0 && value >= 0 ==> {
                &&& mapped >= 0
                &&& mapped * from <= value * to
                &&& mapped < i32::MAX ==> value * to < (mapped + 1) * from
            }
            &&& from > 0 && value < 0 ==> {
                &&& mapped <= 0
                &&& (-mapped) * from <= (-value) * to
                &&& mapped > i32::MIN ==> (-value) * to < (-mapped + 1) * from
            }
        }),
{
    if from > 0 {
        let magnitude: int = if value >= 0 {
            value as int
        } else {
            -value
        };
        assert(0 <= magnitude * to) by (nonlinear_arith)
            requires
                magnitude >= 0,
                to >= 0,
        ;
        lemma_quotient_bounds(magnitude * to, from as int);
        let quotient = magnitude * to / (from as int);
        if quotient > i32::MAX {
            lemma_smaller_multiple(i32::MAX as int, quotient, from as int);
        }
        if quotient > 0x8000_0000 {
            lemma_smaller_multiple(0x8000_0000, quotient, from as int);
        }
        if value < 0 {
            assert((-value) * to == -(value * to)) by (nonlinear_arith);
            if value * to == 0 {
                lemma_quotient_bounds(0, from as int);
                lemma_quotient_bounds(value * to, from as int);
                assert(0int / (from as int) == 0) by (nonlinear_arith)
                    requires
                        from > 0,
                ;
            }
        }
    }
}

/// A window keeps its number, its name, and whether it is mapped and an application's. Its
/// horizontal place and width follow the widths of the remote desktop and the display, and
/// its vertical place and height their heights.
pub proof fn windows_are_mapped_along_each_axis(
    area: Area,
    remote_size: (u16, u16),
    display_size: (u16, u16),
)
    ensures
        ({
            let after = mapped_area(area, remote_size, display_size);
            &&& after.id == area.id
            &&& after.name == area.name
            &&& after.mapped == area.mapped
            &&& after.is_app == area.is_app
            &&& along_axis(
                (area.position.0, area.size.0),
                remote_size.0,
                display_size.0,
                (after.position.0, after.size.0),
            )
            &&& along_axis(
                (area.position.1, area.size.1),
                remote_size.1,
                display_size.1,
                (after.position.1, after.size.1),
            )
        }),
{
    lemma_along_axis(area.position.0, area.size.0, remote_size.0, display_size.0);
    lemma_along_axis(area.position.1, area.size.1, remote_size.1, display_size.1);
}

/// The place and extent of a window in one direction, before and after it is mapped from one
/// length to another: the place is in proportion, towards the origin and within 16 bits;
/// the extent is in proportion, at least one, and cut to 16 bits.
pub open spec fn along_axis(before: (i16, u16), from: u16, to: u16, after: (i16, u16)) -> bool {
    &&& from == 0 ==> after.0 == before.0
    &&& from > 0 && before.0 >= 0 ==> {
        &&& after.0 >= 0
        &&& after.0 * from <= before.0 * to
        &&& after.0 < i16::MAX ==> before.0 * to < (after.0 + 1) * from
    }
    &&& from > 0 && before.0 < 0 ==> {
        &&& after.0 <= 0
        &&& (-after.0) * from <= (-before.0) * to
        &&& after.0 > i16::MIN ==> (-before.0) * to < (-after.0 + 1) * from
    }
    &&& exists|extent: int| #[trigger] in_proportion(before.1, from, to, extent) && (if extent == 0 {
        after.1 == 1
    } else {
        (extent - after.1) % 0x1_0000 == 0
    })
}

/// The extent is the largest that stands in no larger proportion to the new scale than the
/// value did to the old one. An empty scale changes nothing.
pub open spec fn in_proportion(value: u16, from: u16, to: u16, extent: int) -> bool {
    if from == 0 {
        extent == value
    } else {
        0 <= extent && extent * from <= value * to < (extent + 1) * from
    }
}

proof fn lemma_along_axis(position: i16, size: u16, from: u16, to: u16)
    ensures
        along_axis(
            (position, size),
            from,
            to,
            (mapped_position(position, from, to), mapped_extent(size, from, to)),
        ),
{
    positions_keep_their_proportion(position as i32, from as u32, to as u32);
    lengths_keep_their_proportion(size as u32, from as u32, to as u32);
    let mapped = mapped_signed(position as i32, from as u32, to as u32);
    if from > 0 {
        if mapped > i16::MAX {
            lemma_smaller_multiple(i16::MAX as int, mapped as int, from as int);
        }
        if mapped < i16::MIN {
            lemma_smaller_multiple(0x8000, -mapped, from as int);
        }
    }
    let extent = mapped_length(size as u32, from as u32, to as u32) as int;
    if from > 0 {
        assert(size * to <= 0xffff * 0xffff) by (nonlinear_arith)
            requires
                0 <= size <= 0xffff,
                0 <= to <= 0xffff,
        ;
        if extent == u32::MAX {
            lemma_smaller_multiple(1, from as int, extent);
            assert(extent * from == from * extent) by (nonlinear_arith);
        }
    }
    cut_numbers_lose_whole_multiples(extent as u32, 0);
    let before = (position, size);
    assert(in_proportion(before.1, from, to, extent) && (if extent == 0 {
        mapped_extent(size, from, to) == 1
    } else {
        (extent - mapped_extent(size, from, to)) % 0x1_0000 == 0
    }));
}

/// A movement is sent as a movement and a button as the same button, across by the widths of
/// the display and the remote desktop and down by their heights. A new display size is sent
/// as two even numbers of at least two, each of its own dimension divided by the zoom.
/// Anything else is sent as it is.
pub proof fn events_are_mapped_along_each_axis<B, O, F: Fn(u32) -> u32>(
    before: ClientEvent<B, O>,
    after: ClientEvent<B, O>,
    display_size: (u16, u16),
    remote_size: (u16, u16),
    divide: F,
)
    requires
        event_mapped(before, after, display_size, remote_size, divide),
    ensures
        match before {
            ClientEvent::Move { x, y } => {
                &&& after matches ClientEvent::Move { x: across, y: down }
                &&& pointed(x, display_size.0, remote_size.0, across)
                &&& pointed(y, display_size.1, remote_size.1, down)
            },
            ClientEvent::Button { x, y, button } => {
                &&& after matches ClientEvent::Button { x: across, y: down, button: same }
                &&& pointed(x, display_size.0, remote_size.0, across)
                &&& pointed(y, display_size.1, remote_size.1, down)
                &&& same == button
            },
            ClientEvent::Display { width, height } => {
                &&& after matches ClientEvent::Display { width: across, height: down }
                &&& asked_dimension(width, divide, across)
                &&& asked_dimension(height, divide, down)
            },
            ClientEvent::Other(_) => after == before,
        },
{
    match before {
        ClientEvent::Move { x, y } => {
            coordinates_keep_their_proportion(x, display_size.0 as u32, remote_size.0 as u32);
            coordinates_keep_their_proportion(y, display_size.1 as u32, remote_size.1 as u32);
        },
        ClientEvent::Button { x, y, .. } => {
            coordinates_keep_their_proportion(x, display_size.0 as u32, remote_size.0 as u32);
            coordinates_keep_their_proportion(y, display_size.1 as u32, remote_size.1 as u32);
        },
        _ => {},
    }
}

/// A coordinate of the pointer in one length, and where it is in another: in proportion,
/// and at most at the last coordinate.
pub open spec fn pointed(value: u32, from: u16, to: u16, mapped: u32) -> bool {
    if from == 0 || to == 0 {
        mapped == 0
    } else {
        &&& mapped <= to - 1
        &&& mapped * from <= value * to
        &&& mapped < to - 1 ==> value * to < (mapped + 1) * from
    }
}

/// A dimension that the server is asked for: even, at least two, and no more than one below
/// what the zoom makes of the window's dimension.
pub open spec fn asked_dimension<F: Fn(u32) -> u32>(dimension: u32, divide: F, asked: u32) -> bool {
    exists|quotient: u32| #[trigger]
        divide.ensures((dimension,), quotient) && asked % 2 == 0 && 2 <= asked && (quotient >= 2
            ==> quotient - 1 <= asked <= quotient) && (quotient < 2 ==> asked == 2)
}

/// As many events are sent as there were, in their order.
pub proof fn events_keep_their_places<B, O, F: Fn(u32) -> u32>(
    before: Seq<ClientEvent<B, O>>,
    after: Seq<ClientEvent<B, O>>,
    display_size: (u16, u16),
    remote_size: (u16, u16),
    divide: F,
    at: int,
)
    requires
        events_mapped(before, after, display_size, remote_size, divide),
    ensures
        after.len() == before.len(),
        0 <= at < before.len() ==> event_mapped(
            before[at],
            after[at],
            display_size,
            remote_size,
            divide,
        ),
{
    if 0 <= at < before.len() {
        let _ = after[at];
    }
}

} // verus!
