use inputsim::easing::Easing;
use inputsim::models::{
    KeySimulationEvent, MouseSimulationEvent, SimulationEvent, TextSimulationEvent,
};
use inputsim::simulation::{
    button_for, easing_for, key_action_for, plan_event, plan_key, plan_mouse, plan_text,
    string_to_key, Diagnostic, KeyAction, KeyCode, MouseAction, SimButton, SimulationPlan,
};

fn mouse_event(action: &str) -> MouseSimulationEvent {
    MouseSimulationEvent {
        action: String::from(action),
        x: None,
        y: None,
        button: None,
        scroll_x: None,
        scroll_y: None,
        delay_after_ms: None,
        duration_ms: None,
        ease: None,
    }
}

#[test]
fn named_keys_map_to_their_codes() {
    assert_eq!(string_to_key("F5"), Some(KeyCode::F5));
    assert_eq!(string_to_key("F20"), Some(KeyCode::F20));
    assert_eq!(string_to_key("Space"), Some(KeyCode::Space));
    assert_eq!(string_to_key("Option"), Some(KeyCode::OptionKey));
    assert_eq!(string_to_key("MediaPlayPause"), Some(KeyCode::MediaPlayPause));
    assert_eq!(string_to_key("Help"), Some(KeyCode::Help));
}

#[test]
fn single_characters_map_to_unicode_keys() {
    assert_eq!(string_to_key("a"), Some(KeyCode::Unicode('a')));
    assert_eq!(string_to_key("Z"), Some(KeyCode::Unicode('Z')));
    assert_eq!(string_to_key("%"), Some(KeyCode::Unicode('%')));
}

#[test]
fn unsupported_key_names_map_to_nothing() {
    assert_eq!(string_to_key("NotAKey"), None);
    assert_eq!(string_to_key(""), None);
    assert_eq!(string_to_key("F21"), None);
}

#[test]
fn key_name_lookup_collapses_ascii_case() {
    assert_eq!(string_to_key("escape"), Some(KeyCode::Escape));
    assert_eq!(string_to_key("ESCAPE"), Some(KeyCode::Escape));
    assert_eq!(string_to_key("pageup"), Some(KeyCode::PageUp));
    assert_eq!(string_to_key("f5"), Some(KeyCode::F5));
    assert_eq!(string_to_key("mediaplaypause"), Some(KeyCode::MediaPlayPause));
    // single characters stay case-sensitive: distinct characters, distinct keys
    assert_eq!(string_to_key("z"), Some(KeyCode::Unicode('z')));
    assert_eq!(string_to_key("Z"), Some(KeyCode::Unicode('Z')));
}

#[test]
fn key_actions_parse_exactly() {
    assert_eq!(key_action_for("press"), Some(KeyAction::Press));
    assert_eq!(key_action_for("release"), Some(KeyAction::Release));
    assert_eq!(key_action_for("tap"), Some(KeyAction::Tap));
    assert_eq!(key_action_for("hold"), None);
}

#[test]
fn button_names_parse_up_to_case_or_not_at_all() {
    assert_eq!(button_for(&Some(String::from("left"))), Some(SimButton::Left));
    assert_eq!(button_for(&Some(String::from("RIGHT"))), Some(SimButton::Right));
    assert_eq!(button_for(&Some(String::from("Middle"))), Some(SimButton::Middle));
    assert_eq!(button_for(&Some(String::from("fourth"))), None);
    assert_eq!(button_for(&None), None);
}

#[test]
fn unknown_easing_name_falls_back_to_linear_with_diagnostic() {
    assert_eq!(easing_for("bogus"), (Easing::Linear, false));
    assert_eq!(easing_for("linear"), (Easing::Linear, true));
    assert_eq!(easing_for("easeInOutSine"), (Easing::InOutSine, true));

    let mut ev = mouse_event("move");
    ev.x = Some(10);
    ev.y = Some(20);
    ev.duration_ms = Some(100);
    ev.ease = Some(String::from("bogus"));
    let p = plan_mouse(&ev);
    assert_eq!(
        p.action,
        MouseAction::AnimatedMove { x: 10, y: 20, duration_ms: 100, easing: Easing::Linear }
    );
    assert_eq!(p.diagnostics, vec![Diagnostic::UnknownEase]);
}

#[test]
fn instant_move_carries_the_literal_target() {
    // no duration at all
    let mut ev = mouse_event("move");
    ev.x = Some(640);
    ev.y = Some(-480);
    let p = plan_mouse(&ev);
    assert_eq!(p.action, MouseAction::InstantMove { x: 640, y: -480 });
    assert!(p.diagnostics.is_empty());

    // a zero duration is also instant, even with an easing name
    let mut ev = mouse_event("move");
    ev.x = Some(7);
    ev.y = Some(9);
    ev.duration_ms = Some(0);
    ev.ease = Some(String::from("easeInQuad"));
    let p = plan_mouse(&ev);
    assert_eq!(p.action, MouseAction::InstantMove { x: 7, y: 9 });

    // a duration without an easing name is instant too
    let mut ev = mouse_event("move");
    ev.x = Some(7);
    ev.y = Some(9);
    ev.duration_ms = Some(50);
    let p = plan_mouse(&ev);
    assert_eq!(p.action, MouseAction::InstantMove { x: 7, y: 9 });
}

#[test]
fn move_without_coordinates_is_skipped() {
    let mut ev = mouse_event("move");
    ev.x = Some(3);
    let p = plan_mouse(&ev);
    assert_eq!(p.action, MouseAction::NoOp);
    assert_eq!(p.diagnostics, vec![Diagnostic::MissingCoordinates]);
}

#[test]
fn unknown_mouse_action_is_skipped_with_diagnostic() {
    let mut ev = mouse_event("wiggle");
    ev.delay_after_ms = Some(25);
    let p = plan_mouse(&ev);
    assert_eq!(p.action, MouseAction::NoOp);
    assert_eq!(p.diagnostics, vec![Diagnostic::UnknownMouseAction]);
    assert_eq!(p.delay_after_ms, Some(25));
}

#[test]
fn scroll_plans_instant_and_animated() {
    let mut ev = mouse_event("scroll");
    ev.scroll_y = Some(-3);
    let p = plan_mouse(&ev);
    assert_eq!(p.action, MouseAction::InstantScroll { dx: 0, dy: -3 });

    let mut ev = mouse_event("scroll");
    ev.scroll_x = Some(11);
    ev.scroll_y = Some(-3);
    ev.duration_ms = Some(200);
    ev.ease = Some(String::from("easeOutCubic"));
    let p = plan_mouse(&ev);
    assert_eq!(
        p.action,
        MouseAction::AnimatedScroll { dx: 11, dy: -3, duration_ms: 200, easing: Easing::OutCubic }
    );
    assert!(p.diagnostics.is_empty());

    // a zero scroll is never animated
    let mut ev = mouse_event("scroll");
    ev.duration_ms = Some(200);
    ev.ease = Some(String::from("linear"));
    let p = plan_mouse(&ev);
    assert_eq!(p.action, MouseAction::InstantScroll { dx: 0, dy: 0 });
}

#[test]
fn button_actions_plan_or_are_skipped() {
    let mut ev = mouse_event("click");
    ev.button = Some(String::from("right"));
    let p = plan_mouse(&ev);
    assert_eq!(p.action, MouseAction::Click(SimButton::Right));
    assert!(p.diagnostics.is_empty());

    // an invalid button name skips the command rather than firing another
    let mut ev = mouse_event("press");
    ev.button = Some(String::from("pinky"));
    let p = plan_mouse(&ev);
    assert_eq!(p.action, MouseAction::NoOp);
    assert_eq!(p.diagnostics, vec![Diagnostic::InvalidButton]);

    // so does a missing button name
    let ev = mouse_event("release");
    let p = plan_mouse(&ev);
    assert_eq!(p.action, MouseAction::NoOp);
    assert_eq!(p.diagnostics, vec![Diagnostic::InvalidButton]);
}

#[test]
fn key_plan_keeps_or_drops_the_delay() {
    // an unsupported key skips the command, delay included
    let ev = KeySimulationEvent {
        key: String::from("NoSuchKey"),
        action: String::from("tap"),
        delay_after_ms: Some(100),
    };
    let p = plan_key(&ev);
    assert!(p.command.is_none());
    assert_eq!(p.diagnostics, vec![Diagnostic::UnsupportedKey]);
    assert_eq!(p.delay_after_ms, None);

    // an unknown action skips the stroke but keeps the delay
    let ev = KeySimulationEvent {
        key: String::from("Tab"),
        action: String::from("smash"),
        delay_after_ms: Some(100),
    };
    let p = plan_key(&ev);
    assert!(p.command.is_none());
    assert_eq!(p.diagnostics, vec![Diagnostic::UnknownKeyAction]);
    assert_eq!(p.delay_after_ms, Some(100));

    // a valid command goes through unchanged
    let ev = KeySimulationEvent {
        key: String::from("Tab"),
        action: String::from("tap"),
        delay_after_ms: Some(100),
    };
    let p = plan_key(&ev);
    assert_eq!(p.command, Some((KeyCode::Tab, KeyAction::Tap)));
    assert!(p.diagnostics.is_empty());
    assert_eq!(p.delay_after_ms, Some(100));
}

#[test]
fn text_plan_copies_the_text() {
    let ev = TextSimulationEvent { text: String::from("hello"), delay_after_ms: Some(5) };
    let p = plan_text(&ev);
    assert_eq!(p.text, "hello");
    assert_eq!(p.delay_after_ms, Some(5));
}

#[test]
fn planning_is_per_line_and_unaffected_by_earlier_defects() {
    // a defective line produces a diagnostic...
    let bad = mouse_event("wiggle");
    let p = plan_mouse(&bad);
    assert_eq!(p.diagnostics, vec![Diagnostic::UnknownMouseAction]);
    // ...and the next line plans exactly as it would on its own
    let ev = SimulationEvent::Key(KeySimulationEvent {
        key: String::from("a"),
        action: String::from("press"),
        delay_after_ms: None,
    });
    match plan_event(&ev) {
        SimulationPlan::Key(kp) => {
            assert_eq!(kp.command, Some((KeyCode::Unicode('a'), KeyAction::Press)));
            assert!(kp.diagnostics.is_empty());
        },
        _ => panic!("a key line must yield a key plan"),
    }
}

#[test]
fn plan_event_dispatches_by_tag() {
    let ev = SimulationEvent::Mouse(mouse_event("click"));
    assert!(matches!(plan_event(&ev), SimulationPlan::Mouse(_)));
    let ev = SimulationEvent::Text(TextSimulationEvent {
        text: String::from("x"),
        delay_after_ms: None,
    });
    assert!(matches!(plan_event(&ev), SimulationPlan::Text(_)));
}
