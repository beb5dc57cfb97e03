use kibad::scalar::{Scalar, INFINITY_BITS};
use kibad::types::{ClickEvent, Rect, WidgetKey};
use std::collections::hash_map::DefaultHasher;
use std::hash::{Hash, Hasher};

#[test]
fn comparison_of_bits_is_comparison_of_numbers() {
    let values = [
        0.0, -0.0, 1.0, -1.0, 1.5, -1.5, 1e-300, -1e-300, 5e-324, -5e-324, 1e300, -1e300,
        f64::MAX, f64::MIN, f64::INFINITY, f64::NEG_INFINITY, f64::NAN, -f64::NAN,
    ];
    for a in values {
        for b in values {
            let left = Scalar { bits: a.to_bits() };
            let right = Scalar { bits: b.to_bits() };
            assert_eq!(left.exceeds(right), a > b, "{a} > {b}");
        }
    }
    assert_eq!(INFINITY_BITS, f64::INFINITY.to_bits());
}

#[test]
fn center_rounds_toward_the_corner() {
    assert_eq!(Rect { x: 10, y: 20, w: 81, h: 25 }.center(), (50, 32));
    assert_eq!(Rect { x: 0, y: 0, w: -3, h: -5 }.center(), (-1, -2));
    assert_eq!(Rect { x: -10, y: -10, w: 4, h: 4 }.center(), (-8, -8));
}

#[test]
fn contains_is_half_open() {
    let r = Rect { x: 10, y: 20, w: 5, h: 2 };
    assert!(r.contains(10, 20));
    assert!(r.contains(14, 21));
    assert!(!r.contains(15, 20));
    assert!(!r.contains(10, 22));
    assert!(!r.contains(9, 20));
    assert!(!r.contains(10, 19));
    assert!(!Rect { x: 0, y: 0, w: 0, h: 9 }.contains(0, 0));
    let (x, y) = r.center();
    assert!(r.contains(x, y));
}

#[test]
fn range_checks_follow_the_order_of_the_tests() {
    let wide = Rect { x: 10, y: 0, w: i32::MAX, h: 1 };
    assert!(wide.test_in_range(9, 0));
    assert!(!wide.contains(9, 0));
    assert!(!wide.test_in_range(10, 0));
    let tall = Rect { x: 0, y: 10, w: 5, h: i32::MAX };
    assert!(tall.test_in_range(0, 9));
    assert!(tall.test_in_range(5, 10));
    assert!(!tall.test_in_range(0, 10));
    assert!(!Rect { x: i32::MAX, y: 0, w: 2, h: 0 }.center_in_range());
    assert!(Rect { x: i32::MAX, y: 0, w: 1, h: 0 }.center_in_range());
    assert!(!Rect { x: 0, y: i32::MIN, w: 0, h: -2 }.center_in_range());
}

#[test]
fn key_takes_borrowed_and_owned_text() {
    let a = WidgetKey::new("app", "role", "label", "/0");
    let b = WidgetKey::new("app".to_string(), "role".to_string(), "label", "/0".to_string());
    assert!(a == b);
    assert_eq!(a.app_id, "app");
    assert_eq!(a.role, "role");
    assert_eq!(a.label, "label");
    assert_eq!(a.tree_path, "/0");
    assert!(a.clone() == a);
    assert!(a != WidgetKey::new("app", "role", "label", "/1"));
    assert!(a != WidgetKey::new("app", "role", "lab", "/0"));
    assert!(a != WidgetKey::new("app", "rol", "label", "/0"));
    assert!(a != WidgetKey::new("ap", "role", "label", "/0"));
}

#[test]
fn fingerprint_is_the_hash_of_the_key() {
    let keys = [
        WidgetKey::new("", "", "", ""),
        WidgetKey::new("org.kiba.testapp", "push button", "Save", "/0/2/1"),
        WidgetKey::new("org.kiba", ".testapp", "push button", "Save/0/2/1"),
        WidgetKey::new("büro", "кнопка", "保存", "/0"),
    ];
    for key in &keys {
        let mut hasher = DefaultHasher::new();
        key.hash(&mut hasher);
        assert_eq!(key.fingerprint(), hasher.finish());
        assert_eq!(key.fingerprint(), key.clone().fingerprint());
    }
    for i in 0..keys.len() {
        for j in 0..i {
            assert_ne!(keys[i].fingerprint(), keys[j].fingerprint());
        }
    }
}

#[test]
fn click_events_copy() {
    let event = ClickEvent {
        widget: WidgetKey::new("a", "b", "c", "d"),
        click_pos: (3, 4),
        reaction_time_ms: Scalar { bits: 250.0f64.to_bits() },
        was_correction: true,
    };
    let copy = event.clone();
    assert!(copy.widget == event.widget);
    assert_eq!(copy.click_pos, (3, 4));
    assert_eq!(f64::from_bits(copy.reaction_time_ms.bits), 250.0);
    assert!(copy.was_correction);
}
