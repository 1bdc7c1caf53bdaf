use sanzu::error::ClientError;
use sanzu::geometry::{
    check_cusor_size, check_img_size, scale_area, scale_client_events, scale_coordinate,
    scale_length, scale_signed, to_even_dimension, zoomed_dimension, Area, ClientEvent, Limits,
};

fn zoom(zoom: f64) -> impl Fn(u32) -> u32 {
    move |dimension| (dimension as f64 / zoom).round() as u32
}

const LIMITS: Limits = Limits {
    window_width: 4000,
    window_height: 3000,
    cursor_width: 64,
    cursor_height: 32,
    bytes_per_line: 16000,
};

#[test]
fn zoom_two_turns_4k_into_1080p() {
    assert_eq!(zoomed_dimension(3840, zoom(2.0)), 1920);
    assert_eq!(zoomed_dimension(2160, zoom(2.0)), 1080);
}

#[test]
fn zoom_dimensions_are_even() {
    assert_eq!(zoomed_dimension(1921, zoom(1.5)), 1280);
    assert_eq!(zoomed_dimension(3, zoom(2.0)), 2);
}

#[test]
fn pointer_coordinates_are_mapped_back_to_remote_space() {
    assert_eq!(scale_coordinate(1920, 3840, 1920), 960);
    assert_eq!(scale_coordinate(3839, 3840, 1920), 1919);
}

#[test]
fn tiny_dimensions_become_two() {
    for dimension in 0..4 {
        assert_eq!(to_even_dimension(dimension), 2);
    }
    assert_eq!(to_even_dimension(5), 4);
    assert_eq!(to_even_dimension(u32::MAX), u32::MAX - 1);
}

#[test]
fn coordinates_stay_inside() {
    assert_eq!(scale_coordinate(7, 0, 100), 0);
    assert_eq!(scale_coordinate(7, 10, 0), 0);
    assert_eq!(scale_coordinate(10, 10, 100), 99);
    assert_eq!(scale_coordinate(u32::MAX, 1, u32::MAX), u32::MAX - 1);
    assert_eq!(scale_coordinate(5, 10, 10), 5);
    assert_eq!(scale_coordinate(99, 100, 50), 49);
}

#[test]
fn signed_positions_round_towards_zero() {
    assert_eq!(scale_signed(-7, 2, 1), -3);
    assert_eq!(scale_signed(7, 2, 1), 3);
    assert_eq!(scale_signed(-7, 0, 1), -7);
    assert_eq!(scale_signed(i32::MIN, 1, u32::MAX), i32::MIN);
    assert_eq!(scale_signed(i32::MIN, 1, 1), i32::MIN);
    assert_eq!(scale_signed(i32::MAX, 1, 2), i32::MAX);
    assert_eq!(scale_signed(-5, 3, 0), 0);
}

#[test]
fn lengths_saturate() {
    assert_eq!(scale_length(10, 4, 2), 5);
    assert_eq!(scale_length(10, 0, 2), 10);
    assert_eq!(scale_length(u32::MAX, 1, 2), u32::MAX);
}

fn area(size: (u16, u16), position: (i16, i16)) -> Area {
    Area {
        id: 3,
        size,
        position,
        mapped: true,
        is_app: false,
        name: "term".to_owned(),
    }
}

#[test]
fn windows_are_mapped_to_the_display() {
    let mut window = area((100, 0), (-50, 30000));
    scale_area(&mut window, (1920, 1080), (3840, 2160));
    assert_eq!(window, area((200, 1), (-100, 32767)));
    let mut window = area((100, 50), (-50, 30));
    scale_area(&mut window, (800, 600), (800, 600));
    assert_eq!(window, area((100, 50), (-50, 30)));
    let mut window = area((2, 3), (-2, -2));
    scale_area(&mut window, (1, 1), (32768, 32767));
    assert_eq!(window, area((0, 32765), (-32768, -32768)));
}

#[test]
fn sizes_are_checked_against_the_limits() {
    assert_eq!(check_img_size(4000, 3000, &LIMITS), Ok((4000, 3000)));
    assert_eq!(
        check_img_size(4001, 1, &LIMITS),
        Err(ClientError::ImageTooBig(4001, 1))
    );
    assert_eq!(
        check_img_size(1, 3001, &LIMITS),
        Err(ClientError::ImageTooBig(1, 3001))
    );
    assert_eq!(
        check_cusor_size(64, 32, 64, 32, &LIMITS),
        Ok((64, 32, 64, 32))
    );
    for (width, height, xhot, yhot) in
        [(65, 1, 1, 1), (1, 33, 1, 1), (1, 1, 65, 1), (1, 1, 1, 33)]
    {
        assert_eq!(
            check_cusor_size(width, height, xhot, yhot, &LIMITS),
            Err(ClientError::CursorTooBig(width, height, xhot, yhot))
        );
    }
}

#[test]
fn events_are_mapped_to_the_remote_desktop() {
    let mut events = vec![
        ClientEvent::Move { x: 1920, y: 1080 },
        ClientEvent::Button {
            x: 3839,
            y: 2159,
            button: 'b',
        },
        ClientEvent::Display {
            width: 3841,
            height: 2160,
        },
        ClientEvent::Other("key"),
    ];
    scale_client_events(&mut events, (3840, 2160), (1920, 1080), zoom(2.0));
    assert!(matches!(events[0], ClientEvent::Move { x: 960, y: 540 }));
    assert!(matches!(
        events[1],
        ClientEvent::Button {
            x: 1919,
            y: 1079,
            button: 'b'
        }
    ));
    assert!(matches!(
        events[2],
        ClientEvent::Display {
            width: 1920,
            height: 1080
        }
    ));
    assert!(matches!(events[3], ClientEvent::Other("key")));
}

#[test]
fn zoomed_dimensions_keep_their_order_and_do_not_grow() {
    for factor in [1.0, 1.25, 1.5, 2.0, 3.7, 1000.0] {
        let mut last = 2;
        for dimension in 0..5000 {
            let zoomed = zoomed_dimension(dimension, zoom(factor));
            assert!(last <= zoomed && zoomed <= dimension.max(2));
            last = zoomed;
        }
    }
}
