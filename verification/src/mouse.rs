//! Pointer capture: normalizing raw pointer activity into event records.
//!
//! A raw pointer event carries plain coordinates, deltas, or a button; the
//! normalizer fills exactly the fields that apply to the event kind and
//! leaves the rest empty.  Button labels are `left`, `right`, `middle`, or
//! `button_<code>` with the code written in decimal.

use vstd::prelude::*;
use vstd::arithmetic::div_mod::{lemma_div_denominator, lemma_small_mod};
use vstd::string::StringExecFns;
use crate::models::MouseEvent;

verus! {

/// A pointer button: the three named ones, or a platform code.
#[derive(Clone, Copy, Debug, PartialEq, Eq, Structural)]
pub enum PointerButton {
    Left,
    Right,
    Middle,
    Unknown(u8),
}

/// A raw pointer event, as handed over by the capture hook.
#[derive(Clone, Copy, Debug, PartialEq, Eq, Structural)]
pub enum RawPointerEvent {
    Move { x: i32, y: i32 },
    ButtonPress(PointerButton),
    ButtonRelease(PointerButton),
    Wheel { delta_x: i32, delta_y: i32 },
}

/// The decimal digit character for `d` in `[0, 9]`.
pub open spec fn digit_char(d: nat) -> char {
    if d == 0 {
        '0'
    } else if d == 1 {
        '1'
    } else if d == 2 {
        '2'
    } else if d == 3 {
        '3'
    } else if d == 4 {
        '4'
    } else if d == 5 {
        '5'
    } else if d == 6 {
        '6'
    } else if d == 7 {
        '7'
    } else if d == 8 {
        '8'
    } else {
        '9'
    }
}

/// The decimal digits of `n`, most significant first, without leading
/// zeros (a single `0` for zero itself).
pub open spec fn decimal_digits(n: nat) -> Seq<char>
    decreases n,
{
    if n < 10 {
        seq![digit_char(n)]
    } else {
        decimal_digits(n / 10).push(digit_char(n % 10))
    }
}

/// The label of a pointer button.
pub open spec fn spec_button_label(b: PointerButton) -> Seq<char> {
    match b {
        PointerButton::Left => "left"@,
        PointerButton::Right => "right"@,
        PointerButton::Middle => "middle"@,
        PointerButton::Unknown(code) => "button_"@ + decimal_digits(code as nat),
    }
}

/// The one-character string for a decimal digit.
fn digit_str(d: u8) -> (r: &'static str)
    requires
        d < 10,
    ensures
        r@ == seq![digit_char(d as nat)],
{
    if d == 0 {
        proof { reveal_strlit("0"); }
        "0"
    } else if d == 1 {
        proof { reveal_strlit("1"); }
        "1"
    } else if d == 2 {
        proof { reveal_strlit("2"); }
        "2"
    } else if d == 3 {
        proof { reveal_strlit("3"); }
        "3"
    } else if d == 4 {
        proof { reveal_strlit("4"); }
        "4"
    } else if d == 5 {
        proof { reveal_strlit("5"); }
        "5"
    } else if d == 6 {
        proof { reveal_strlit("6"); }
        "6"
    } else if d == 7 {
        proof { reveal_strlit("7"); }
        "7"
    } else if d == 8 {
        proof { reveal_strlit("8"); }
        "8"
    } else {
        proof { reveal_strlit("9"); }
        "9"
    }
}

/// The label of a pointer button, as executed.
pub fn button_to_string(button: PointerButton) -> (r: String)
    ensures
        r@ == spec_button_label(button),
{
    match button {
        PointerButton::Left => String::from_str("left"),
        PointerButton::Right => String::from_str("right"),
        PointerButton::Middle => String::from_str("middle"),
        PointerButton::Unknown(code) => {
            let mut s = String::from_str("button_");
            if code >= 100 {
                s.append(digit_str(code / 100));
                s.append(digit_str((code / 10) % 10));
                s.append(digit_str(code % 10));
                proof {
                    reveal_with_fuel(decimal_digits, 3);
                    lemma_div_denominator(code as int, 10, 10);
                    assert(10 * 10 == 100) by (nonlinear_arith);
                    assert((code as int / 10) / 10 == code as int / 100);
                    assert(code as nat / 10 >= 10);
                    assert(code as nat / 100 < 10);
                    assert(decimal_digits(code as nat) =~= seq![
                        digit_char(code as nat / 100),
                        digit_char((code as nat / 10) % 10),
                        digit_char(code as nat % 10),
                    ]);
                    assert(s@ =~= "button_"@ + decimal_digits(code as nat));
                }
            } else if code >= 10 {
                s.append(digit_str(code / 10));
                s.append(digit_str(code % 10));
                proof {
                    reveal_with_fuel(decimal_digits, 2);
                    lemma_small_mod(code as nat / 10, 10);
                    assert(s@ =~= "button_"@ + decimal_digits(code as nat));
                }
            } else {
                s.append(digit_str(code));
                proof {
                    assert(s@ =~= "button_"@ + decimal_digits(code as nat));
                }
            }
            s
        },
    }
}

/// Normalize one raw pointer event into a capture record at `timestamp`:
/// exactly the fields that apply to the event kind are filled, the rest
/// stay empty.
pub fn pointer_capture_event(event: &RawPointerEvent, timestamp: u64) -> (r: MouseEvent)
    ensures
        r.timestamp == timestamp,
        match *event {
            RawPointerEvent::Move { x, y } => {
                &&& r.event_type@ == "move"@
                &&& r.x == Some(x)
                &&& r.y == Some(y)
                &&& r.button is None
                &&& r.pressed is None
                &&& r.scroll_x is None
                &&& r.scroll_y is None
            },
            RawPointerEvent::ButtonPress(b) => {
                &&& r.event_type@ == "button"@
                &&& r.x is None
                &&& r.y is None
                &&& r.button matches Some(label) && label@ == spec_button_label(b)
                &&& r.pressed == Some(true)
                &&& r.scroll_x is None
                &&& r.scroll_y is None
            },
            RawPointerEvent::ButtonRelease(b) => {
                &&& r.event_type@ == "button"@
                &&& r.x is None
                &&& r.y is None
                &&& r.button matches Some(label) && label@ == spec_button_label(b)
                &&& r.pressed == Some(false)
                &&& r.scroll_x is None
                &&& r.scroll_y is None
            },
            RawPointerEvent::Wheel { delta_x, delta_y } => {
                &&& r.event_type@ == "scroll"@
                &&& r.x is None
                &&& r.y is None
                &&& r.button is None
                &&& r.pressed is None
                &&& r.scroll_x == Some(delta_x)
                &&& r.scroll_y == Some(delta_y)
            },
        },
{
    match event {
        RawPointerEvent::Move { x, y } => MouseEvent {
            event_type: String::from_str("move"),
            x: Some(*x),
            y: Some(*y),
            button: None,
            pressed: None,
            scroll_x: None,
            scroll_y: None,
            timestamp,
        },
        RawPointerEvent::ButtonPress(b) => MouseEvent {
            event_type: String::from_str("button"),
            x: None,
            y: None,
            button: Some(button_to_string(*b)),
            pressed: Some(true),
            scroll_x: None,
            scroll_y: None,
            timestamp,
        },
        RawPointerEvent::ButtonRelease(b) => MouseEvent {
            event_type: String::from_str("button"),
            x: None,
            y: None,
            button: Some(button_to_string(*b)),
            pressed: Some(false),
            scroll_x: None,
            scroll_y: None,
            timestamp,
        },
        RawPointerEvent::Wheel { delta_x, delta_y } => MouseEvent {
            event_type: String::from_str("scroll"),
            x: None,
            y: None,
            button: None,
            pressed: None,
            scroll_x: Some(*delta_x),
            scroll_y: Some(*delta_y),
            timestamp,
        },
    }
}

} // verus!
