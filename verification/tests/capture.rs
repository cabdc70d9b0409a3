use inputsim::direct::{direct_key_event, snapshot_key_events};
use inputsim::mouse::{button_to_string, pointer_capture_event, PointerButton, RawPointerEvent};

#[test]
fn direct_events_carry_label_polarity_and_time() {
    let e = direct_key_event(String::from("KeyQ"), true, 777);
    assert_eq!(e.key, "KeyQ");
    assert!(e.pressed);
    assert_eq!(e.event_type, "direct");
    assert_eq!(e.timestamp, 777);

    let e = direct_key_event(String::from("ShiftLeft"), false, 778);
    assert!(!e.pressed);
}

#[test]
fn snapshot_delta_yields_presses_then_releases() {
    let prev = vec![String::from("KeyA"), String::from("KeyB"), String::from("KeyC")];
    let curr = vec![String::from("KeyB"), String::from("KeyD")];
    let out = snapshot_key_events(&prev, &curr);
    let got: Vec<(&str, bool)> = out.iter().map(|(k, p)| (k.as_str(), *p)).collect();
    assert_eq!(got, vec![("KeyD", true), ("KeyA", false), ("KeyC", false)]);
}

#[test]
fn unchanged_snapshot_yields_no_events() {
    let prev = vec![String::from("KeyA"), String::from("KeyB")];
    let out = snapshot_key_events(&prev, &prev.clone());
    assert!(out.is_empty());
}

#[test]
fn button_labels_are_named_or_numbered() {
    assert_eq!(button_to_string(PointerButton::Left), "left");
    assert_eq!(button_to_string(PointerButton::Right), "right");
    assert_eq!(button_to_string(PointerButton::Middle), "middle");
    assert_eq!(button_to_string(PointerButton::Unknown(0)), "button_0");
    assert_eq!(button_to_string(PointerButton::Unknown(7)), "button_7");
    assert_eq!(button_to_string(PointerButton::Unknown(10)), "button_10");
    assert_eq!(button_to_string(PointerButton::Unknown(42)), "button_42");
    assert_eq!(button_to_string(PointerButton::Unknown(100)), "button_100");
    assert_eq!(button_to_string(PointerButton::Unknown(255)), "button_255");
}

#[test]
fn pointer_move_fills_only_coordinates() {
    let r = pointer_capture_event(&RawPointerEvent::Move { x: 12, y: -7 }, 50);
    assert_eq!(r.event_type, "move");
    assert_eq!(r.x, Some(12));
    assert_eq!(r.y, Some(-7));
    assert!(r.button.is_none());
    assert!(r.pressed.is_none());
    assert!(r.scroll_x.is_none());
    assert!(r.scroll_y.is_none());
    assert_eq!(r.timestamp, 50);
}

#[test]
fn pointer_buttons_fill_only_button_fields() {
    let r = pointer_capture_event(&RawPointerEvent::ButtonPress(PointerButton::Right), 51);
    assert_eq!(r.event_type, "button");
    assert_eq!(r.button.as_deref(), Some("right"));
    assert_eq!(r.pressed, Some(true));
    assert!(r.x.is_none() && r.y.is_none());

    let r = pointer_capture_event(&RawPointerEvent::ButtonRelease(PointerButton::Unknown(9)), 52);
    assert_eq!(r.button.as_deref(), Some("button_9"));
    assert_eq!(r.pressed, Some(false));
}

#[test]
fn pointer_wheel_fills_only_scroll_fields() {
    let r = pointer_capture_event(&RawPointerEvent::Wheel { delta_x: -1, delta_y: 3 }, 53);
    assert_eq!(r.event_type, "scroll");
    assert_eq!(r.scroll_x, Some(-1));
    assert_eq!(r.scroll_y, Some(3));
    assert!(r.button.is_none() && r.pressed.is_none());
    assert!(r.x.is_none() && r.y.is_none());
}
