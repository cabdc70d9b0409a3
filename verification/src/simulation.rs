//! Command planning: from decoded command lines to device actions.
//!
//! Each decoded line is planned in isolation: the planner maps symbolic
//! names (keys, buttons, actions, easing curves) to their identifiers and
//! decides between instant and animated execution.  Key and button names
//! collapse ASCII case to their canonical catalog members.  A malformed
//! field never terminates processing: an unknown easing name falls back to
//! the linear curve, and an unknown action, an unsupported key or an
//! invalid button skips the command — each with a diagnostic the caller
//! reports.  Planning is a pure function of the single line, so a rejected
//! line leaves the processing of later lines untouched.

use vstd::prelude::*;
use vstd::string::StringExecFns;
use vstd::string::StrSliceExecFns;
use crate::easing::Easing;
use crate::models::{KeySimulationEvent, MouseSimulationEvent, SimulationEvent, TextSimulationEvent};

verus! {

/// A symbolic key identifier: the named keys of the capture platform, or a
/// single character to be typed directly.
#[derive(Clone, Copy, Debug, PartialEq, Eq, Structural)]
pub enum KeyCode {
    F1, F2, F3, F4, F5, F6, F7, F8, F9, F10,
    F11, F12, F13, F14, F15, F16, F17, F18, F19, F20,
    Home, End, PageUp, PageDown, Delete, Insert, Escape, Tab, Return, Space,
    Backspace, PrintScr,
    UpArrow, DownArrow, LeftArrow, RightArrow,
    Alt, Control, Shift, Meta, OptionKey, CapsLock,
    VolumeUp, VolumeDown, VolumeMute, MediaPlayPause, MediaNextTrack, MediaPrevTrack,
    Help,
    Unicode(char),
}

/// What a key command does to its key.
#[derive(Clone, Copy, Debug, PartialEq, Eq, Structural)]
pub enum KeyAction {
    Press,
    Release,
    Tap,
}

/// A button a mouse command can act on.
#[derive(Clone, Copy, Debug, PartialEq, Eq, Structural)]
pub enum SimButton {
    Left,
    Right,
    Middle,
}

/// A recoverable defect in one command line.
#[derive(Clone, Copy, Debug, PartialEq, Eq, Structural)]
pub enum Diagnostic {
    UnsupportedKey,
    UnknownKeyAction,
    MissingCoordinates,
    InvalidButton,
    UnknownEase,
    UnknownMouseAction,
}

/// Two string slices hold the same characters.
fn str_eq(a: &str, b: &str) -> (r: bool)
    ensures
        r == (a@ == b@),
{
    let sa = String::from_str(a);
    let sb = String::from_str(b);
    sa == sb
}

/// The ASCII lowercase of one character; anything but an ASCII capital is
/// itself.
pub open spec fn lower_char(c: char) -> char {
    if 'A' <= c && c <= 'Z' {
        ((c as u8) + 32) as char
    } else {
        c
    }
}

/// The character sequence with every ASCII capital lowered.
pub open spec fn fold_case(s: Seq<char>) -> Seq<char> {
    s.map_values(|c: char| lower_char(c))
}

/// The two character sequences agree up to ASCII case.
pub open spec fn eq_ci(a: Seq<char>, b: Seq<char>) -> bool {
    fold_case(a) == fold_case(b)
}

/// The ASCII lowercase of one character, as executed.
fn char_lower(c: char) -> (r: char)
    ensures
        r == lower_char(c),
{
    if c >= 'A' && c <= 'Z' {
        ((c as u8) + 32) as char
    } else {
        c
    }
}

/// Two string slices agree up to ASCII case.
fn str_eq_ci(a: &str, b: &str) -> (r: bool)
    ensures
        r == eq_ci(a@, b@),
{
    let la = a.unicode_len();
    let lb = b.unicode_len();
    if la != lb {
        proof {
            assert(fold_case(a@).len() == a@.len());
            assert(fold_case(b@).len() == b@.len());
        }
        return false;
    }
    let mut i: usize = 0;
    while i < la
        invariant
            la == a@.len(),
            lb == b@.len(),
            la == lb,
            0 <= i <= la,
            forall|t: int| 0 <= t < i ==> fold_case(a@)[t] == fold_case(b@)[t],
        decreases la - i,
    {
        let ca = a.get_char(i);
        let cb = b.get_char(i);
        if char_lower(ca) != char_lower(cb) {
            proof {
                assert(fold_case(a@)[i as int] != fold_case(b@)[i as int]);
            }
            return false;
        }
        i += 1;
    }
    proof {
        assert(fold_case(a@) =~= fold_case(b@));
    }
    true
}

/// The key identifier for a symbolic name: the named catalog, then a
/// single character as itself, then nothing.
pub open spec fn key_for(s: Seq<char>) -> Option<KeyCode> {
    if eq_ci(s, "F1"@) { Some(KeyCode::F1) }
    else if eq_ci(s, "F2"@) { Some(KeyCode::F2) }
    else if eq_ci(s, "F3"@) { Some(KeyCode::F3) }
    else if eq_ci(s, "F4"@) { Some(KeyCode::F4) }
    else if eq_ci(s, "F5"@) { Some(KeyCode::F5) }
    else if eq_ci(s, "F6"@) { Some(KeyCode::F6) }
    else if eq_ci(s, "F7"@) { Some(KeyCode::F7) }
    else if eq_ci(s, "F8"@) { Some(KeyCode::F8) }
    else if eq_ci(s, "F9"@) { Some(KeyCode::F9) }
    else if eq_ci(s, "F10"@) { Some(KeyCode::F10) }
    else if eq_ci(s, "F11"@) { Some(KeyCode::F11) }
    else if eq_ci(s, "F12"@) { Some(KeyCode::F12) }
    else if eq_ci(s, "F13"@) { Some(KeyCode::F13) }
    else if eq_ci(s, "F14"@) { Some(KeyCode::F14) }
    else if eq_ci(s, "F15"@) { Some(KeyCode::F15) }
    else if eq_ci(s, "F16"@) { Some(KeyCode::F16) }
    else if eq_ci(s, "F17"@) { Some(KeyCode::F17) }
    else if eq_ci(s, "F18"@) { Some(KeyCode::F18) }
    else if eq_ci(s, "F19"@) { Some(KeyCode::F19) }
    else if eq_ci(s, "F20"@) { Some(KeyCode::F20) }
    else if eq_ci(s, "Home"@) { Some(KeyCode::Home) }
    else if eq_ci(s, "End"@) { Some(KeyCode::End) }
    else if eq_ci(s, "PageUp"@) { Some(KeyCode::PageUp) }
    else if eq_ci(s, "PageDown"@) { Some(KeyCode::PageDown) }
    else if eq_ci(s, "Delete"@) { Some(KeyCode::Delete) }
    else if eq_ci(s, "Insert"@) { Some(KeyCode::Insert) }
    else if eq_ci(s, "Escape"@) { Some(KeyCode::Escape) }
    else if eq_ci(s, "Tab"@) { Some(KeyCode::Tab) }
    else if eq_ci(s, "Return"@) { Some(KeyCode::Return) }
    else if eq_ci(s, "Space"@) { Some(KeyCode::Space) }
    else if eq_ci(s, "Backspace"@) { Some(KeyCode::Backspace) }
    else if eq_ci(s, "PrintScr"@) { Some(KeyCode::PrintScr) }
    else if eq_ci(s, "UpArrow"@) { Some(KeyCode::UpArrow) }
    else if eq_ci(s, "DownArrow"@) { Some(KeyCode::DownArrow) }
    else if eq_ci(s, "LeftArrow"@) { Some(KeyCode::LeftArrow) }
    else if eq_ci(s, "RightArrow"@) { Some(KeyCode::RightArrow) }
    else if eq_ci(s, "Alt"@) { Some(KeyCode::Alt) }
    else if eq_ci(s, "Control"@) { Some(KeyCode::Control) }
    else if eq_ci(s, "Shift"@) { Some(KeyCode::Shift) }
    else if eq_ci(s, "Meta"@) { Some(KeyCode::Meta) }
    else if eq_ci(s, "Option"@) { Some(KeyCode::OptionKey) }
    else if eq_ci(s, "CapsLock"@) { Some(KeyCode::CapsLock) }
    else if eq_ci(s, "VolumeUp"@) { Some(KeyCode::VolumeUp) }
    else if eq_ci(s, "VolumeDown"@) { Some(KeyCode::VolumeDown) }
    else if eq_ci(s, "VolumeMute"@) { Some(KeyCode::VolumeMute) }
    else if eq_ci(s, "MediaPlayPause"@) { Some(KeyCode::MediaPlayPause) }
    else if eq_ci(s, "MediaNextTrack"@) { Some(KeyCode::MediaNextTrack) }
    else if eq_ci(s, "MediaPrevTrack"@) { Some(KeyCode::MediaPrevTrack) }
    else if eq_ci(s, "Help"@) { Some(KeyCode::Help) }
    else if s.len() == 1 { Some(KeyCode::Unicode(s[0])) }
    else { None }
}

/// The key identifier for a symbolic name, as executed.
pub fn string_to_key(key_str: &str) -> (r: Option<KeyCode>)
    ensures
        r == key_for(key_str@),
{
    if str_eq_ci(key_str, "F1") { Some(KeyCode::F1) }
    else if str_eq_ci(key_str, "F2") { Some(KeyCode::F2) }
    else if str_eq_ci(key_str, "F3") { Some(KeyCode::F3) }
    else if str_eq_ci(key_str, "F4") { Some(KeyCode::F4) }
    else if str_eq_ci(key_str, "F5") { Some(KeyCode::F5) }
    else if str_eq_ci(key_str, "F6") { Some(KeyCode::F6) }
    else if str_eq_ci(key_str, "F7") { Some(KeyCode::F7) }
    else if str_eq_ci(key_str, "F8") { Some(KeyCode::F8) }
    else if str_eq_ci(key_str, "F9") { Some(KeyCode::F9) }
    else if str_eq_ci(key_str, "F10") { Some(KeyCode::F10) }
    else if str_eq_ci(key_str, "F11") { Some(KeyCode::F11) }
    else if str_eq_ci(key_str, "F12") { Some(KeyCode::F12) }
    else if str_eq_ci(key_str, "F13") { Some(KeyCode::F13) }
    else if str_eq_ci(key_str, "F14") { Some(KeyCode::F14) }
    else if str_eq_ci(key_str, "F15") { Some(KeyCode::F15) }
    else if str_eq_ci(key_str, "F16") { Some(KeyCode::F16) }
    else if str_eq_ci(key_str, "F17") { Some(KeyCode::F17) }
    else if str_eq_ci(key_str, "F18") { Some(KeyCode::F18) }
    else if str_eq_ci(key_str, "F19") { Some(KeyCode::F19) }
    else if str_eq_ci(key_str, "F20") { Some(KeyCode::F20) }
    else if str_eq_ci(key_str, "Home") { Some(KeyCode::Home) }
    else if str_eq_ci(key_str, "End") { Some(KeyCode::End) }
    else if str_eq_ci(key_str, "PageUp") { Some(KeyCode::PageUp) }
    else if str_eq_ci(key_str, "PageDown") { Some(KeyCode::PageDown) }
    else if str_eq_ci(key_str, "Delete") { Some(KeyCode::Delete) }
    else if str_eq_ci(key_str, "Insert") { Some(KeyCode::Insert) }
    else if str_eq_ci(key_str, "Escape") { Some(KeyCode::Escape) }
    else if str_eq_ci(key_str, "Tab") { Some(KeyCode::Tab) }
    else if str_eq_ci(key_str, "Return") { Some(KeyCode::Return) }
    else if str_eq_ci(key_str, "Space") { Some(KeyCode::Space) }
    else if str_eq_ci(key_str, "Backspace") { Some(KeyCode::Backspace) }
    else if str_eq_ci(key_str, "PrintScr") { Some(KeyCode::PrintScr) }
    else if str_eq_ci(key_str, "UpArrow") { Some(KeyCode::UpArrow) }
    else if str_eq_ci(key_str, "DownArrow") { Some(KeyCode::DownArrow) }
    else if str_eq_ci(key_str, "LeftArrow") { Some(KeyCode::LeftArrow) }
    else if str_eq_ci(key_str, "RightArrow") { Some(KeyCode::RightArrow) }
    else if str_eq_ci(key_str, "Alt") { Some(KeyCode::Alt) }
    else if str_eq_ci(key_str, "Control") { Some(KeyCode::Control) }
    else if str_eq_ci(key_str, "Shift") { Some(KeyCode::Shift) }
    else if str_eq_ci(key_str, "Meta") { Some(KeyCode::Meta) }
    else if str_eq_ci(key_str, "Option") { Some(KeyCode::OptionKey) }
    else if str_eq_ci(key_str, "CapsLock") { Some(KeyCode::CapsLock) }
    else if str_eq_ci(key_str, "VolumeUp") { Some(KeyCode::VolumeUp) }
    else if str_eq_ci(key_str, "VolumeDown") { Some(KeyCode::VolumeDown) }
    else if str_eq_ci(key_str, "VolumeMute") { Some(KeyCode::VolumeMute) }
    else if str_eq_ci(key_str, "MediaPlayPause") { Some(KeyCode::MediaPlayPause) }
    else if str_eq_ci(key_str, "MediaNextTrack") { Some(KeyCode::MediaNextTrack) }
    else if str_eq_ci(key_str, "MediaPrevTrack") { Some(KeyCode::MediaPrevTrack) }
    else if str_eq_ci(key_str, "Help") { Some(KeyCode::Help) }
    else if key_str.unicode_len() == 1 { Some(KeyCode::Unicode(key_str.get_char(0))) }
    else { None }
}

/// The action of a key command.
pub open spec fn key_action_of(s: Seq<char>) -> Option<KeyAction> {
    if s == "press"@ {
        Some(KeyAction::Press)
    } else if s == "release"@ {
        Some(KeyAction::Release)
    } else if s == "tap"@ {
        Some(KeyAction::Tap)
    } else {
        None
    }
}

/// The action of a key command, as executed.
pub fn key_action_for(action: &str) -> (r: Option<KeyAction>)
    ensures
        r == key_action_of(action@),
{
    if str_eq(action, "press") {
        Some(KeyAction::Press)
    } else if str_eq(action, "release") {
        Some(KeyAction::Release)
    } else if str_eq(action, "tap") {
        Some(KeyAction::Tap)
    } else {
        None
    }
}

/// The easing name is one of the catalog.
pub open spec fn easing_known(s: Seq<char>) -> bool {
    ||| s == "linear"@
    ||| s == "easeInQuad"@
    ||| s == "easeOutQuad"@
    ||| s == "easeInOutQuad"@
    ||| s == "easeInCubic"@
    ||| s == "easeOutCubic"@
    ||| s == "easeInOutCubic"@
    ||| s == "easeInSine"@
    ||| s == "easeOutSine"@
    ||| s == "easeInOutSine"@
}

/// The curve an easing name selects; an unknown name falls back to the
/// linear curve.
pub open spec fn easing_of(s: Seq<char>) -> Easing {
    if s == "linear"@ { Easing::Linear }
    else if s == "easeInQuad"@ { Easing::InQuad }
    else if s == "easeOutQuad"@ { Easing::OutQuad }
    else if s == "easeInOutQuad"@ { Easing::InOutQuad }
    else if s == "easeInCubic"@ { Easing::InCubic }
    else if s == "easeOutCubic"@ { Easing::OutCubic }
    else if s == "easeInOutCubic"@ { Easing::InOutCubic }
    else if s == "easeInSine"@ { Easing::InSine }
    else if s == "easeOutSine"@ { Easing::OutSine }
    else if s == "easeInOutSine"@ { Easing::InOutSine }
    else { Easing::Linear }
}

/// The curve for an easing name and whether the name was known; an unknown
/// name selects the linear curve with a diagnostic, never a failure.
pub fn easing_for(name: &str) -> (r: (Easing, bool))
    ensures
        r.0 == easing_of(name@),
        r.1 == easing_known(name@),
{
    if str_eq(name, "linear") { (Easing::Linear, true) }
    else if str_eq(name, "easeInQuad") { (Easing::InQuad, true) }
    else if str_eq(name, "easeOutQuad") { (Easing::OutQuad, true) }
    else if str_eq(name, "easeInOutQuad") { (Easing::InOutQuad, true) }
    else if str_eq(name, "easeInCubic") { (Easing::InCubic, true) }
    else if str_eq(name, "easeOutCubic") { (Easing::OutCubic, true) }
    else if str_eq(name, "easeInOutCubic") { (Easing::InOutCubic, true) }
    else if str_eq(name, "easeInSine") { (Easing::InSine, true) }
    else if str_eq(name, "easeOutSine") { (Easing::OutSine, true) }
    else if str_eq(name, "easeInOutSine") { (Easing::InOutSine, true) }
    else { (Easing::Linear, false) }
}

/// The button a mouse command names, up to ASCII case; a missing or
/// unrecognized name is no button, and the command is skipped.
pub open spec fn button_lookup(b: Option<String>) -> Option<SimButton> {
    match b {
        Some(s) => if eq_ci(s@, "left"@) {
            Some(SimButton::Left)
        } else if eq_ci(s@, "right"@) {
            Some(SimButton::Right)
        } else if eq_ci(s@, "middle"@) {
            Some(SimButton::Middle)
        } else {
            None
        },
        None => None,
    }
}

/// The button a mouse command names, as executed.
pub fn button_for(name: &Option<String>) -> (r: Option<SimButton>)
    ensures
        r == button_lookup(*name),
{
    match name {
        Some(s) => {
            if str_eq_ci(s.as_str(), "left") { Some(SimButton::Left) }
            else if str_eq_ci(s.as_str(), "right") { Some(SimButton::Right) }
            else if str_eq_ci(s.as_str(), "middle") { Some(SimButton::Middle) }
            else { None }
        },
        None => None,
    }
}

/// The planned device action of one mouse command.
#[derive(Clone, Copy, Debug, PartialEq, Eq, Structural)]
pub enum MouseAction {
    InstantMove { x: i32, y: i32 },
    AnimatedMove { x: i32, y: i32, duration_ms: u64, easing: Easing },
    Click(SimButton),
    PressButton(SimButton),
    ReleaseButton(SimButton),
    InstantScroll { dx: i32, dy: i32 },
    AnimatedScroll { dx: i32, dy: i32, duration_ms: u64, easing: Easing },
    NoOp,
}

/// The plan for one key command.
pub struct KeyPlan {
    pub command: Option<(KeyCode, KeyAction)>,
    pub diagnostics: Vec<Diagnostic>,
    pub delay_after_ms: Option<u64>,
}

/// The plan for one mouse command.
pub struct MousePlan {
    pub action: MouseAction,
    pub diagnostics: Vec<Diagnostic>,
    pub delay_after_ms: Option<u64>,
}

/// The plan for one text command.
pub struct TextPlan {
    pub text: String,
    pub delay_after_ms: Option<u64>,
}

/// The plan for one decoded command line.
pub enum SimulationPlan {
    Key(KeyPlan),
    Mouse(MousePlan),
    Text(TextPlan),
}

/// The command asks for animated motion: a positive duration and an easing
/// name, whatever that name is.
pub open spec fn wants_animation(duration_ms: Option<u64>, ease: Option<String>) -> bool {
    duration_ms matches Some(d) && d > 0 && ease is Some
}

/// A missing scroll amount counts as zero.
pub open spec fn or_zero(v: Option<i32>) -> int {
    match v {
        Some(x) => x as int,
        None => 0,
    }
}

/// An animated scroll total of exactly `i32::MIN` is pulled up by one so
/// that every incremental delta fits the command type.
pub open spec fn clamp_total(v: int) -> int {
    if v == i32::MIN as int {
        -(i32::MAX as int)
    } else {
        v
    }
}

/// The diagnostics of an animated command: one report when the easing name
/// is unknown.
pub open spec fn ease_diagnostics(ease: Option<String>) -> Seq<Diagnostic> {
    if ease matches Some(e) && !easing_known(e@) {
        seq![Diagnostic::UnknownEase]
    } else {
        Seq::empty()
    }
}

/// `p` is the correct plan for the key command `ev`: an unsupported key
/// skips the command, its trailing delay included; an unknown action skips
/// the key stroke but keeps the delay; otherwise the stroke and the delay.
pub open spec fn key_plan_ok(ev: KeySimulationEvent, p: KeyPlan) -> bool {
    match key_for(ev.key@) {
        Option::None => {
            &&& p.command is None
            &&& p.diagnostics@ == seq![Diagnostic::UnsupportedKey]
            &&& p.delay_after_ms is None
        },
        Option::Some(k) => match key_action_of(ev.action@) {
            Option::None => {
                &&& p.command is None
                &&& p.diagnostics@ == seq![Diagnostic::UnknownKeyAction]
                &&& p.delay_after_ms == ev.delay_after_ms
            },
            Option::Some(a) => {
                &&& p.command == Some((k, a))
                &&& p.diagnostics@ == Seq::<Diagnostic>::empty()
                &&& p.delay_after_ms == ev.delay_after_ms
            },
        },
    }
}

/// `p` is the correct plan for the mouse command `ev`, following the
/// declared action: a move without both coordinates is skipped with a
/// diagnostic; a move or scroll with a positive duration and an easing name
/// is animated, otherwise instant — the instant move carries the literal
/// target as its single command; a scroll of zero on both axes is never
/// animated; a button action whose name is missing or invalid is skipped
/// with a diagnostic, as is an unknown action.  The trailing delay is
/// always kept.
pub open spec fn mouse_plan_ok(ev: MouseSimulationEvent, p: MousePlan) -> bool {
    &&& p.delay_after_ms == ev.delay_after_ms
    &&& if ev.action@ == "move"@ {
        match (ev.x, ev.y) {
            (Some(x), Some(y)) => if wants_animation(ev.duration_ms, ev.ease) {
                &&& p.action == (MouseAction::AnimatedMove {
                    x,
                    y,
                    duration_ms: ev.duration_ms->0,
                    easing: easing_of(ev.ease->0@),
                })
                &&& p.diagnostics@ == ease_diagnostics(ev.ease)
            } else {
                &&& p.action == (MouseAction::InstantMove { x, y })
                &&& p.diagnostics@ == Seq::<Diagnostic>::empty()
            },
            _ => {
                &&& p.action == MouseAction::NoOp
                &&& p.diagnostics@ == seq![Diagnostic::MissingCoordinates]
            },
        }
    } else if ev.action@ == "click"@ {
        match button_lookup(ev.button) {
            Option::Some(btn) => {
                &&& p.action == MouseAction::Click(btn)
                &&& p.diagnostics@ == Seq::<Diagnostic>::empty()
            },
            Option::None => {
                &&& p.action == MouseAction::NoOp
                &&& p.diagnostics@ == seq![Diagnostic::InvalidButton]
            },
        }
    } else if ev.action@ == "press"@ {
        match button_lookup(ev.button) {
            Option::Some(btn) => {
                &&& p.action == MouseAction::PressButton(btn)
                &&& p.diagnostics@ == Seq::<Diagnostic>::empty()
            },
            Option::None => {
                &&& p.action == MouseAction::NoOp
                &&& p.diagnostics@ == seq![Diagnostic::InvalidButton]
            },
        }
    } else if ev.action@ == "release"@ {
        match button_lookup(ev.button) {
            Option::Some(btn) => {
                &&& p.action == MouseAction::ReleaseButton(btn)
                &&& p.diagnostics@ == Seq::<Diagnostic>::empty()
            },
            Option::None => {
                &&& p.action == MouseAction::NoOp
                &&& p.diagnostics@ == seq![Diagnostic::InvalidButton]
            },
        }
    } else if ev.action@ == "scroll"@ {
        let dx = or_zero(ev.scroll_x);
        let dy = or_zero(ev.scroll_y);
        if wants_animation(ev.duration_ms, ev.ease) && (dx != 0 || dy != 0) {
            &&& p.action matches MouseAction::AnimatedScroll {
                dx: pdx,
                dy: pdy,
                duration_ms: pd,
                easing: pe,
            } && pdx as int == clamp_total(dx) && pdy as int == clamp_total(dy) && pd
                == ev.duration_ms->0 && pe == easing_of(ev.ease->0@)
            &&& p.diagnostics@ == ease_diagnostics(ev.ease)
        } else {
            &&& p.action matches MouseAction::InstantScroll { dx: pdx, dy: pdy } && pdx as int
                == dx && pdy as int == dy
            &&& p.diagnostics@ == Seq::<Diagnostic>::empty()
        }
    } else {
        &&& p.action == MouseAction::NoOp
        &&& p.diagnostics@ == seq![Diagnostic::UnknownMouseAction]
    }
}

/// `p` is the correct plan for the text command `ev`: type the text, then
/// wait out the delay.
pub open spec fn text_plan_ok(ev: TextSimulationEvent, p: TextPlan) -> bool {
    &&& p.text@ == ev.text@
    &&& p.delay_after_ms == ev.delay_after_ms
}

/// Plan one key command.
pub fn plan_key(ev: &KeySimulationEvent) -> (p: KeyPlan)
    ensures
        key_plan_ok(*ev, p),
{
    let mut diagnostics: Vec<Diagnostic> = Vec::new();
    match string_to_key(ev.key.as_str()) {
        None => {
            diagnostics.push(Diagnostic::UnsupportedKey);
            KeyPlan { command: None, diagnostics, delay_after_ms: None }
        },
        Some(k) => match key_action_for(ev.action.as_str()) {
            None => {
                diagnostics.push(Diagnostic::UnknownKeyAction);
                KeyPlan { command: None, diagnostics, delay_after_ms: ev.delay_after_ms }
            },
            Some(a) => {
                proof {
                    assert(diagnostics@ =~= Seq::<Diagnostic>::empty());
                }
                KeyPlan { command: Some((k, a)), diagnostics, delay_after_ms: ev.delay_after_ms }
            },
        },
    }
}

/// Plan one mouse command.
pub fn plan_mouse(ev: &MouseSimulationEvent) -> (p: MousePlan)
    ensures
        mouse_plan_ok(*ev, p),
{
    let mut diagnostics: Vec<Diagnostic> = Vec::new();
    proof {
        assert(diagnostics@ =~= Seq::<Diagnostic>::empty());
    }
    let action: MouseAction = if str_eq(ev.action.as_str(), "move") {
        match (&ev.x, &ev.y) {
            (Some(x), Some(y)) => {
                let animate = match ev.duration_ms {
                    Some(d) => d > 0 && ev.ease.is_some(),
                    None => false,
                };
                if animate {
                    let d = match ev.duration_ms {
                        Some(d) => d,
                        None => 1,
                    };
                    let (easing, known) = match &ev.ease {
                        Some(name) => easing_for(name.as_str()),
                        None => (Easing::Linear, true),
                    };
                    if !known {
                        diagnostics.push(Diagnostic::UnknownEase);
                    }
                    MouseAction::AnimatedMove { x: *x, y: *y, duration_ms: d, easing }
                } else {
                    MouseAction::InstantMove { x: *x, y: *y }
                }
            },
            _ => {
                diagnostics.push(Diagnostic::MissingCoordinates);
                MouseAction::NoOp
            },
        }
    } else if str_eq(ev.action.as_str(), "click") {
        match button_for(&ev.button) {
            Some(button) => MouseAction::Click(button),
            None => {
                diagnostics.push(Diagnostic::InvalidButton);
                MouseAction::NoOp
            },
        }
    } else if str_eq(ev.action.as_str(), "press") {
        match button_for(&ev.button) {
            Some(button) => MouseAction::PressButton(button),
            None => {
                diagnostics.push(Diagnostic::InvalidButton);
                MouseAction::NoOp
            },
        }
    } else if str_eq(ev.action.as_str(), "release") {
        match button_for(&ev.button) {
            Some(button) => MouseAction::ReleaseButton(button),
            None => {
                diagnostics.push(Diagnostic::InvalidButton);
                MouseAction::NoOp
            },
        }
    } else if str_eq(ev.action.as_str(), "scroll") {
        let dx = match ev.scroll_x {
            Some(v) => v,
            None => 0,
        };
        let dy = match ev.scroll_y {
            Some(v) => v,
            None => 0,
        };
        let animate = match ev.duration_ms {
            Some(d) => d > 0 && ev.ease.is_some() && (dx != 0 || dy != 0),
            None => false,
        };
        if animate {
            let d = match ev.duration_ms {
                Some(d) => d,
                None => 1,
            };
            let (easing, known) = match &ev.ease {
                Some(name) => easing_for(name.as_str()),
                None => (Easing::Linear, true),
            };
            if !known {
                diagnostics.push(Diagnostic::UnknownEase);
            }
            let cdx = if dx == i32::MIN { -i32::MAX } else { dx };
            let cdy = if dy == i32::MIN { -i32::MAX } else { dy };
            MouseAction::AnimatedScroll { dx: cdx, dy: cdy, duration_ms: d, easing }
        } else {
            MouseAction::InstantScroll { dx, dy }
        }
    } else {
        diagnostics.push(Diagnostic::UnknownMouseAction);
        MouseAction::NoOp
    };
    MousePlan { action, diagnostics, delay_after_ms: ev.delay_after_ms }
}

/// Plan one text command.
pub fn plan_text(ev: &TextSimulationEvent) -> (p: TextPlan)
    ensures
        text_plan_ok(*ev, p),
{
    TextPlan { text: crate::complex::clone_string(&ev.text), delay_after_ms: ev.delay_after_ms }
}

/// Plan one decoded command line.  Planning depends on nothing but the
/// line itself, so a defective line never disturbs the lines after it.
pub fn plan_event(ev: &SimulationEvent) -> (p: SimulationPlan)
    ensures
        match *ev {
            SimulationEvent::Key(k) => p matches SimulationPlan::Key(kp) && key_plan_ok(k, kp),
            SimulationEvent::Mouse(m) => p matches SimulationPlan::Mouse(mp) && mouse_plan_ok(
                m,
                mp,
            ),
            SimulationEvent::Text(t) => p matches SimulationPlan::Text(tp) && text_plan_ok(t, tp),
        },
{
    match ev {
        SimulationEvent::Key(k) => SimulationPlan::Key(plan_key(k)),
        SimulationEvent::Mouse(m) => SimulationPlan::Mouse(plan_mouse(m)),
        SimulationEvent::Text(t) => SimulationPlan::Text(plan_text(t)),
    }
}

} // verus!
