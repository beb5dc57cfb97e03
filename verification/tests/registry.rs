use kibad::atspi::{handle_object_event, is_now_actionable, ObjectEvent, WidgetRegistry};
use kibad::input_grab::{open_error, open_mode, OpenMode, RawButtonEvent};
use kibad::types::{Rect, WidgetKey};

fn rect(x: i32, y: i32, w: i32, h: i32) -> Rect {
    Rect { x, y, w, h }
}

fn key(path: &str) -> WidgetKey {
    WidgetKey::new("app", "unknown", "unknown", path)
}

#[test]
fn new_registry_is_empty() {
    let registry = WidgetRegistry::new();
    assert_eq!(registry.snapshot_len(), 0);
    assert!(registry.resolve_click(0, 0, 0).is_none());
}

#[test]
fn seen_widget_is_found_and_not_duplicated() {
    let mut registry = WidgetRegistry::new();
    registry.upsert_rect(key("/1"), rect(0, 0, 10, 10));
    registry.upsert_rect(key("/2"), rect(20, 0, 10, 10));
    registry.upsert_rect(key("/1"), rect(0, 50, 10, 10));
    assert_eq!(registry.snapshot_len(), 2);
    assert!(registry.resolve_click(5, 5, 0).is_none());
    let (found, at, reaction) = registry.resolve_click(5, 55, 0).unwrap();
    assert!(found == key("/1"));
    assert_eq!(at, rect(0, 50, 10, 10));
    assert_eq!(reaction, None);
    assert!(registry.resolve_click(29, 9, 0).unwrap().0 == key("/2"));
}

#[test]
fn reaction_time_counts_from_becoming_actionable() {
    let mut registry = WidgetRegistry::new();
    registry.mark_actionable(&key("/1"), 5);
    assert_eq!(registry.snapshot_len(), 0);
    registry.upsert_rect(key("/1"), rect(0, 0, 10, 10));
    registry.mark_actionable(&key("/1"), 1_000);
    registry.mark_actionable(&key("/2"), 2_000);
    assert_eq!(registry.resolve_click(1, 1, 251_000).unwrap().2, Some(250_000));
    registry.upsert_rect(key("/1"), rect(0, 0, 20, 20));
    assert_eq!(registry.resolve_click(15, 15, 251_000).unwrap().2, Some(250_000));
    assert_eq!(registry.resolve_click(1, 1, 10).unwrap().2, Some(0));
    registry.mark_actionable(&key("/1"), 251_000);
    assert_eq!(registry.resolve_click(1, 1, 251_001).unwrap().2, Some(1));
}

#[test]
fn overlapping_widgets_resolve_to_one_of_them() {
    let mut registry = WidgetRegistry::new();
    registry.upsert_rect(key("/1"), rect(0, 0, 10, 10));
    registry.upsert_rect(key("/2"), rect(5, 5, 10, 10));
    assert!(registry.resolve_click(7, 7, 0).unwrap().0 == key("/1"));
    assert!(registry.resolve_click(12, 12, 0).unwrap().0 == key("/2"));
    let (x, y) = rect(0, 0, 10, 10).center();
    assert!(registry.resolve_click(x, y, 0).unwrap().0 == key("/1"));
}

#[test]
fn clicks_are_range_checked() {
    let mut registry = WidgetRegistry::new();
    assert!(registry.click_in_range(1, 1));
    registry.upsert_rect(key("/1"), rect(0, 0, 10, 10));
    registry.upsert_rect(key("/2"), rect(3, 0, i32::MAX, 10));
    assert!(registry.click_in_range(5, 5));
    assert!(registry.click_in_range(2, 50));
    assert!(!registry.click_in_range(50, 5));
}

fn event(member: &str) -> ObjectEvent {
    ObjectEvent {
        member: Some(member.to_string()),
        sender: Some("app".to_string()),
        path: Some("/1".to_string()),
        bounds: None,
        kind: None,
        detail1: None,
    }
}

#[test]
fn bounds_events_place_widgets() {
    let mut registry = WidgetRegistry::new();
    let mut bounds = event("BoundsChanged");
    handle_object_event(&mut registry, &bounds, 0);
    assert_eq!(registry.snapshot_len(), 0);
    bounds.bounds = Some((1, 2, 3, 4));
    handle_object_event(&mut registry, &bounds, 0);
    let (found, at, _) = registry.resolve_click(1, 2, 0).unwrap();
    assert!(found == key("/1"));
    assert_eq!(at, rect(1, 2, 3, 4));
    bounds.sender = None;
    bounds.path = None;
    bounds.bounds = Some((100, 0, 1, 1));
    handle_object_event(&mut registry, &bounds, 0);
    let anonymous = WidgetKey::new("unknown", "unknown", "unknown", "/unknown");
    assert!(registry.resolve_click(100, 0, 0).unwrap().0 == anonymous);
}

#[test]
fn state_events_start_the_clock() {
    let mut registry = WidgetRegistry::new();
    registry.upsert_rect(key("/1"), rect(0, 0, 5, 5));
    for (kind, detail, actionable) in [
        (Some("focused"), Some(1), false),
        (Some("showing"), Some(0), false),
        (Some("enabled"), None, false),
        (None, Some(1), false),
        (Some("showing"), Some(1), true),
        (Some("enabled"), Some(1), true),
    ] {
        let mut state = event("StateChanged");
        state.kind = kind.map(|k: &str| k.to_string());
        state.detail1 = detail;
        assert_eq!(is_now_actionable(&state), actionable);
        if !actionable {
            handle_object_event(&mut registry, &state, 7);
            assert_eq!(registry.resolve_click(0, 0, 9).unwrap().2, None);
        }
    }
    let mut state = event("StateChanged");
    state.kind = Some("enabled".to_string());
    state.detail1 = Some(1);
    let mut other = event("PropertyChange");
    other.kind = Some("enabled".to_string());
    other.detail1 = Some(1);
    other.bounds = Some((9, 9, 9, 9));
    handle_object_event(&mut registry, &other, 3);
    other.member = None;
    handle_object_event(&mut registry, &other, 3);
    assert_eq!(registry.resolve_click(0, 0, 9).unwrap().2, None);
    handle_object_event(&mut registry, &state, 7);
    assert_eq!(registry.resolve_click(0, 0, 9).unwrap().2, Some(2));
}

#[test]
fn devices_open_for_writing_on_request() {
    let write = libc::O_RDWR | libc::O_WRONLY;
    let mode = open_mode(libc::O_RDWR | libc::O_NONBLOCK, write);
    let flags = libc::O_RDWR | libc::O_NONBLOCK;
    assert_eq!(mode, OpenMode { read: true, write: true, custom_flags: flags });
    assert!(open_mode(libc::O_WRONLY, write).write);
    assert!(!open_mode(libc::O_RDONLY | libc::O_NONBLOCK, write).write);
    assert_eq!(open_error(Some(libc::EACCES), libc::EIO), libc::EACCES);
    assert_eq!(open_error(None, libc::EIO), libc::EIO);
    let press = RawButtonEvent { button_code: 272, pressed: true, time_usec: 5 };
    assert!(press.pressed && press.time_usec == 5 && press.button_code == 272);
}
