use kibad::frame::{
    layout_in_range, paint_in_range, paint_rect, product_in_range, render, render_in_range,
    BufferLayout,
};
use kibad::overlay::{
    resolve_zone_click, zone_click_in_range, ActiveZone, ConnectError, Global, OverlayAction,
    OverlayEvent, OverlayState, SurfaceLayer, SurfaceSetup,
};
use kibad::types::Rect;

fn rect(x: i32, y: i32, w: i32, h: i32) -> Rect {
    Rect { x, y, w, h }
}

fn moved(visible_at: Rect, forward_to: Rect) -> ActiveZone {
    ActiveZone::Relocated { visible_at, forward_to }
}

#[test]
fn relocated_click_goes_to_the_original_center() {
    let zones = [
        ActiveZone::Mask(rect(100, 100, 80, 24)),
        moved(rect(140, 100, 80, 24), rect(100, 100, 80, 24)),
    ];
    assert_eq!(resolve_zone_click(&zones, 219, 123), Some((140, 112)));
    assert_eq!(resolve_zone_click(&zones, 220, 110), None);
}

#[test]
fn stale_click_is_swallowed() {
    let zones = [
        ActiveZone::Mask(rect(100, 100, 80, 24)),
        moved(rect(140, 100, 80, 24), rect(100, 100, 80, 24)),
    ];
    assert_eq!(resolve_zone_click(&zones, 110, 110), None);
    assert_eq!(resolve_zone_click(&zones[..1], 150, 110), None);
    assert_eq!(resolve_zone_click(&[], 0, 0), None);
}

#[test]
fn first_relocated_zone_takes_the_click() {
    let zones = [
        moved(rect(0, 0, 10, 10), rect(100, 0, 10, 10)),
        moved(rect(0, 0, 20, 20), rect(200, 0, 10, 10)),
    ];
    assert_eq!(resolve_zone_click(&zones, 5, 5), Some((105, 5)));
    assert_eq!(resolve_zone_click(&zones, 15, 5), Some((205, 5)));
}

#[test]
fn zone_clicks_are_range_checked() {
    let far = moved(rect(i32::MAX, 0, 5, 5), rect(0, 0, 1, 1));
    let off = moved(rect(0, 0, 5, 5), rect(i32::MAX, 0, 4, 4));
    assert!(zone_click_in_range(&[far], 0, 0));
    assert!(!zone_click_in_range(&[far], i32::MAX, 0));
    assert!(!zone_click_in_range(&[off], 1, 1));
    assert!(zone_click_in_range(&[off], 9, 1));
    let good = moved(rect(0, 0, 5, 5), rect(0, 0, 4, 4));
    assert!(zone_click_in_range(&[good, off], 1, 1));
}

#[test]
fn painting_clips_to_the_canvas_and_orders_the_channels() {
    let mut buf = vec![9u8; 3 * 2 * 4];
    assert!(paint_in_range(3, 2, rect(-5, 1, 7, 40)));
    paint_rect(&mut buf, 3, 2, rect(-5, 1, 7, 40), [1, 2, 3, 4]);
    let mut expected = vec![9u8; 12];
    expected.extend([3, 2, 1, 4, 3, 2, 1, 4, 9, 9, 9, 9]);
    assert_eq!(buf, expected);
}

#[test]
fn painting_skips_pixels_beyond_the_buffer() {
    let mut buf = vec![0u8; 10];
    paint_rect(&mut buf, 4, 1, rect(0, 0, 4, 1), [1, 2, 3, 4]);
    assert_eq!(buf, vec![3, 2, 1, 4, 3, 2, 1, 4, 0, 0]);
    let mut none = vec![7u8; 8];
    paint_rect(&mut none, 2, 1, rect(0, 0, 0, 1), [1, 2, 3, 4]);
    paint_rect(&mut none, 2, 1, rect(2, 0, 5, 1), [1, 2, 3, 4]);
    paint_rect(&mut none, -2, 1, rect(0, 0, 5, 1), [1, 2, 3, 4]);
    assert_eq!(none, vec![7u8; 8]);
}

#[test]
fn painting_is_range_checked() {
    assert!(!paint_in_range(10, 10, rect(i32::MAX, 0, 1, 1)));
    assert!(!paint_in_range(10, 10, rect(0, i32::MAX, 1, 1)));
    assert!(!paint_in_range(40_000, 40_000, rect(0, 0, 40_000, 40_000)));
    assert!(paint_in_range(40_000, 40_000, rect(0, 0, 40_000, 10_000)));
    assert!(paint_in_range(40_000, 40_000, rect(0, 50_000, 40_000, 40_000)));
    assert!(paint_in_range(536_870_912, 1, rect(0, 0, 536_870_912, 1)));
    assert!(!paint_in_range(536_870_913, 1, rect(0, 0, 536_870_913, 1)));
}

#[test]
fn frame_shows_the_topmost_zone_at_any_density() {
    let zones = [
        ActiveZone::Mask(rect(0, 0, 2, 1)),
        moved(rect(1, 0, 1, 2), rect(0, 0, 1, 1)),
    ];
    let layout = BufferLayout::new(3, 2, 2);
    assert_eq!((layout.width, layout.height), (6, 4));
    assert_eq!((layout.stride, layout.size, layout.scale), (24, 96, 2));
    assert!(render_in_range(layout, &zones));
    let mut buf = vec![255u8; layout.size as usize];
    render(layout, &zones, &mut buf);
    for y in 0..4usize {
        for x in 0..6usize {
            let pixel = &buf[(y * 6 + x) * 4..(y * 6 + x) * 4 + 4];
            let expected: [u8; 4] = if x / 2 == 1 {
                [220, 130, 60, 255]
            } else if x / 2 == 0 && y / 2 == 0 {
                [180, 180, 180, 235]
            } else {
                [0, 0, 0, 0]
            };
            assert_eq!(pixel, expected, "{x} {y}");
        }
    }
}

#[test]
fn layouts_are_range_checked() {
    assert!(layout_in_range(1920, 1080, 2));
    assert!(!layout_in_range(i32::MAX, 1, 2));
    assert!(!layout_in_range(1, i32::MAX, 2));
    assert!(!layout_in_range(600_000_000, 1, 1));
    assert!(!layout_in_range(30_000, 30_000, 1));
    assert!(product_in_range(46_340, 46_340));
    assert!(!product_in_range(46_341, 46_341));
    let layout = BufferLayout::new(10, 10, 3);
    assert!(!render_in_range(layout, &[ActiveZone::Mask(rect(i32::MAX / 2, 0, 1, 1))]));
    assert!(!render_in_range(layout, &[ActiveZone::Mask(rect(0, 0, i32::MAX / 3, 1)),
        ActiveZone::Mask(rect(1, 0, i32::MAX / 3, 1))]));
}

fn global(state: &mut OverlayState, interface: &str, version: u32) -> OverlayAction {
    state.handle(&OverlayEvent::Global { interface: interface.to_string(), version })
}

fn ready() -> OverlayState {
    let mut state = OverlayState::new();
    for name in ["wl_compositor", "wl_shm", "zwlr_layer_shell_v1"] {
        global(&mut state, name, 9);
    }
    assert!(state.set_up().is_ok());
    state
}

#[test]
fn globals_are_bound_at_a_known_version() {
    let mut state = OverlayState::new();
    let cases = [
        ("wl_compositor", 6, Global::Compositor, 4),
        ("wl_compositor", 3, Global::Compositor, 3),
        ("wl_shm", 2, Global::Shm, 1),
        ("wl_seat", 9, Global::Seat, 7),
        ("wl_output", 4, Global::Output, 4),
        ("zwlr_layer_shell_v1", 5, Global::LayerShell, 4),
    ];
    for (name, offered, expected, bound) in cases {
        match global(&mut state, name, offered) {
            OverlayAction::Bind { global, version } => {
                assert_eq!((global, version), (expected, bound));
            }
            other => panic!("{name}: {other:?}"),
        }
    }
    assert!(matches!(global(&mut state, "wl_output", 4), OverlayAction::Nothing));
    assert!(matches!(global(&mut state, "wl_data_device_manager", 3), OverlayAction::Nothing));
    assert!(state.compositor && state.shm && state.seat && state.output && state.layer_shell);
}

#[test]
fn missing_globals_are_reported_in_order() {
    let mut state = OverlayState::new();
    assert_eq!(state.set_up(), Err(ConnectError::NoCompositor));
    global(&mut state, "wl_compositor", 4);
    assert_eq!(state.set_up(), Err(ConnectError::NoShm));
    global(&mut state, "wl_shm", 1);
    assert_eq!(state.set_up(), Err(ConnectError::NoLayerShell));
    assert!(!state.surface);
    global(&mut state, "zwlr_layer_shell_v1", 4);
    let plain = SurfaceSetup {
        get_pointer: false,
        layer: SurfaceLayer::Overlay,
        anchor_all: true,
        exclusive_zone: -1,
        keyboard: false,
    };
    assert_eq!(state.set_up(), Ok(plain));
    assert!(state.surface && !state.pointer);
    assert_eq!(
        ConnectError::NoCompositor.message(),
        "compositor did not advertise wl_compositor"
    );
    assert_eq!(ConnectError::NoShm.message(), "compositor did not advertise wl_shm");
    assert_eq!(
        ConnectError::NoLayerShell.message(),
        "compositor did not advertise zwlr_layer_shell_v1 -- is this a wlroots-based compositor?"
    );
}

#[test]
fn seat_brings_the_pointer() {
    let mut state = OverlayState::new();
    for name in ["wl_compositor", "wl_shm", "zwlr_layer_shell_v1", "wl_seat"] {
        global(&mut state, name, 1);
    }
    assert!(state.set_up().unwrap().get_pointer);
    assert!(state.pointer);
    let has = OverlayEvent::Capabilities { pointer: true };
    assert!(matches!(state.handle(&has), OverlayAction::Nothing));
    let mut late = OverlayState::new();
    let none = OverlayEvent::Capabilities { pointer: false };
    assert!(matches!(late.handle(&none), OverlayAction::Nothing));
    assert!(matches!(late.handle(&has), OverlayAction::GetPointer));
    assert!(matches!(late.handle(&has), OverlayAction::Nothing));
}

#[test]
fn presses_are_forwarded_from_the_last_pointer_position() {
    let mut state = ready();
    state.set_zones(vec![moved(rect(10, 10, 10, 10), rect(50, 50, 4, 4))]);
    let press = OverlayEvent::Button { pressed: true };
    assert!(state.event_in_range(&press));
    assert!(matches!(state.handle(&press), OverlayAction::Nothing));
    assert!(matches!(state.handle(&OverlayEvent::Motion { x: 12, y: 19 }), OverlayAction::Nothing));
    assert!(matches!(
        state.handle(&OverlayEvent::Button { pressed: false }),
        OverlayAction::Nothing
    ));
    match state.handle(&press) {
        OverlayAction::Click { click } => assert_eq!(click.forward_to, (52, 52)),
        other => panic!("{other:?}"),
    }
    state.set_zones(vec![moved(rect(10, 10, 10, 10), rect(i32::MAX, 0, 4, 4))]);
    assert!(!state.event_in_range(&press));
}

#[test]
fn configuration_and_scale_are_kept() {
    let mut state = ready();
    assert!(!state.configured);
    let configure = OverlayEvent::Configure { width: 1920, height: 1080 };
    assert!(matches!(state.handle(&configure), OverlayAction::AckConfigure));
    assert_eq!(state.output_size, (1920, 1080));
    assert!(state.configured);
    state.handle(&OverlayEvent::Scale { factor: 2 });
    assert_eq!(state.output_scale, 2);
    state.handle(&OverlayEvent::Scale { factor: 0 });
    assert_eq!(state.output_scale, 1);
    assert!(matches!(state.handle(&OverlayEvent::Closed), OverlayAction::ReportClosed));
    state.handle(&OverlayEvent::Configure { width: u32::MAX, height: 0x8000_0000 });
    assert_eq!(state.output_size, (-1, i32::MIN));
    assert!(!state.redraw_in_range());
}

#[test]
fn redraw_plans_region_buffer_and_damage() {
    let mut state = OverlayState::new();
    assert!(state.redraw().is_none());
    state = ready();
    assert!(state.input_region().is_empty());
    let plan = state.redraw().unwrap();
    assert!(plan.region.is_empty() && plan.buffer.is_none());
    assert_eq!(plan.damage, (0, 0));
    state.handle(&OverlayEvent::Configure { width: 300, height: 200 });
    state.handle(&OverlayEvent::Scale { factor: 2 });
    state.set_zones(vec![
        ActiveZone::Mask(rect(1, 2, 3, 4)),
        moved(rect(5, 6, 7, 8), rect(1, 2, 3, 4)),
    ]);
    assert!(state.redraw_in_range());
    let plan = state.redraw().unwrap();
    assert_eq!(plan.region, vec![rect(1, 2, 3, 4), rect(5, 6, 7, 8)]);
    assert_eq!(plan.buffer, Some(BufferLayout::new(300, 200, 2)));
    assert_eq!(plan.damage, (600, 400));
    state.handle(&OverlayEvent::Configure { width: 300, height: 0 });
    assert_eq!(state.redraw().unwrap().buffer, None);
}
