use inputsim::complex::{CaptureOutput, ComboTracker};
use inputsim::hold_and_release::HoldTracker;

fn labels(v: &[String]) -> Vec<&str> {
    v.iter().map(|s| s.as_str()).collect()
}

fn complex_keys(o: &CaptureOutput) -> Vec<&str> {
    match o {
        CaptureOutput::Complex(c) => c.keys.iter().map(|s| s.as_str()).collect(),
        _ => panic!("expected a classified event"),
    }
}

fn complex_tag(o: &CaptureOutput) -> &str {
    match o {
        CaptureOutput::Complex(c) => c.event_type.as_str(),
        _ => panic!("expected a classified event"),
    }
}

#[test]
fn pressed_set_matches_unreleased_presses() {
    let mut t = ComboTracker::new();
    let a = String::from("KeyA");
    let b = String::from("KeyB");
    let c = String::from("KeyC");
    t.process_key(&a, true, 1);
    t.process_key(&b, true, 2);
    t.process_key(&a, false, 3);
    t.process_key(&c, true, 4);
    t.process_key(&c, false, 5);
    t.process_key(&c, true, 6);
    // pressed but not yet released: B (pressed at 2) and C (re-pressed at 6)
    assert_eq!(labels(&t.combo), vec!["KeyB", "KeyC"]);
}

#[test]
fn repeated_press_is_idempotent() {
    let mut t = ComboTracker::new();
    let a = String::from("KeyA");
    let first = t.process_key(&a, true, 10);
    assert_eq!(first.len(), 2);
    let again = t.process_key(&a, true, 11);
    assert_eq!(again.len(), 0);
    assert_eq!(labels(&t.combo), vec!["KeyA"]);
}

#[test]
fn release_of_unheld_key_is_noop() {
    let mut t = ComboTracker::new();
    let a = String::from("KeyA");
    let out = t.process_key(&a, false, 5);
    assert_eq!(out.len(), 0);
    assert!(t.combo.is_empty());
}

#[test]
fn combination_keeps_first_press_order() {
    let mut t = ComboTracker::new();
    let a = String::from("KeyA");
    let b = String::from("KeyB");
    let c = String::from("KeyC");
    t.process_key(&a, true, 1);
    t.process_key(&b, true, 2);
    t.process_key(&c, true, 3);
    assert_eq!(labels(&t.combo), vec!["KeyA", "KeyB", "KeyC"]);
    // releasing the middle key must not reorder the others
    t.process_key(&b, false, 4);
    assert_eq!(labels(&t.combo), vec!["KeyA", "KeyC"]);
}

#[test]
fn press_press_release_release_event_stream() {
    let mut t = ComboTracker::new();
    let a = String::from("KeyA");
    let b = String::from("KeyB");

    let o1 = t.process_key(&a, true, 100);
    assert_eq!(o1.len(), 2);
    match &o1[0] {
        CaptureOutput::Direct(d) => {
            assert_eq!(d.key, "KeyA");
            assert!(d.pressed);
            assert_eq!(d.event_type, "direct");
            assert_eq!(d.timestamp, 100);
        },
        _ => panic!("expected the direct event first"),
    }
    assert_eq!(complex_tag(&o1[1]), "press");
    assert_eq!(complex_keys(&o1[1]), vec!["KeyA"]);

    let o2 = t.process_key(&b, true, 200);
    assert_eq!(complex_tag(&o2[1]), "combination");
    assert_eq!(complex_keys(&o2[1]), vec!["KeyA", "KeyB"]);

    let o3 = t.process_key(&a, false, 300);
    assert_eq!(o3.len(), 2);
    match &o3[0] {
        CaptureOutput::Direct(d) => {
            assert_eq!(d.key, "KeyA");
            assert!(!d.pressed);
        },
        _ => panic!("expected the direct event first"),
    }
    assert_eq!(complex_tag(&o3[1]), "combination");
    assert_eq!(complex_keys(&o3[1]), vec!["KeyB"]);

    let o4 = t.process_key(&b, false, 400);
    assert_eq!(complex_tag(&o4[1]), "release");
    // the terminal release carries the last non-empty combination
    assert_eq!(complex_keys(&o4[1]), vec!["KeyB"]);
    assert!(t.combo.is_empty());
}

#[test]
fn hold_sequence_records_all_participants_with_timing() {
    let mut t = HoldTracker::new();
    let a = String::from("KeyA");
    let b = String::from("KeyB");
    assert!(t.process_key(&a, true, 1000).is_none());
    assert!(t.process_key(&b, true, 1200).is_none());
    // A leaves early but stays recorded
    assert!(t.process_key(&a, false, 1500).is_none());
    let ev = t.process_key(&b, false, 2000).expect("the span must close");
    let keys: Vec<&str> = ev.keys.iter().map(|s| s.as_str()).collect();
    assert_eq!(keys, vec!["KeyA", "KeyB"]);
    assert_eq!(ev.start_time, 1000);
    assert_eq!(ev.end_time, 2000);
    assert_eq!(ev.duration_ms, 1000);
    assert_eq!(ev.event_type, "key_sequence");
    assert!(t.pressed.is_empty());
    assert!(t.sequence.is_empty());
    assert!(t.start_time.is_none());
}

#[test]
fn hold_sequence_ignores_duplicate_presses_and_stray_releases() {
    let mut t = HoldTracker::new();
    let a = String::from("KeyA");
    assert!(t.process_key(&a, false, 1).is_none());
    assert!(t.process_key(&a, true, 10).is_none());
    assert!(t.process_key(&a, true, 20).is_none());
    let ev = t.process_key(&a, false, 60).expect("the span must close");
    let keys: Vec<&str> = ev.keys.iter().map(|s| s.as_str()).collect();
    assert_eq!(keys, vec!["KeyA"]);
    assert_eq!(ev.duration_ms, 50);
}

#[test]
fn hold_sequence_starts_fresh_after_reset() {
    let mut t = HoldTracker::new();
    let a = String::from("KeyA");
    let b = String::from("KeyB");
    t.process_key(&a, true, 100);
    t.process_key(&a, false, 150);
    let ev = t.process_key(&b, true, 300);
    assert!(ev.is_none());
    let ev = t.process_key(&b, false, 340).expect("the span must close");
    let keys: Vec<&str> = ev.keys.iter().map(|s| s.as_str()).collect();
    assert_eq!(keys, vec!["KeyB"]);
    assert_eq!(ev.start_time, 300);
    assert_eq!(ev.duration_ms, 40);
}
