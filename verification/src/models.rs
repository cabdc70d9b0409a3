//! Event records exchanged with the capture and command loops.
//!
//! The capture side emits `KeyEvent`, `ComplexKeyEvent`, `KeySequenceEvent`
//! and `MouseEvent`; the command side consumes `SimulationEvent` values that
//! the surrounding program decoded from its input stream.

use vstd::prelude::*;

verus! {

/// A direct per-key notification: one press or release, independent of any
/// combination context.
pub struct KeyEvent {
    pub key: String,
    pub event_type: String,
    pub pressed: bool,
    pub timestamp: u64,
}

/// A classified combination event: the ordered labels of the keys held at
/// the moment of a transition, tagged `press`, `combination` or `release`.
pub struct ComplexKeyEvent {
    pub keys: Vec<String>,
    pub event_type: String,
    pub timestamp: u64,
}

/// A completed hold-sequence: every key that participated during one
/// continuous span of non-empty pressed set, with the span's timing.
pub struct KeySequenceEvent {
    pub keys: Vec<String>,
    pub start_time: u64,
    pub end_time: u64,
    pub duration_ms: u64,
    pub event_type: String,
}

/// A key command: `action` is `press`, `release` or `tap`.
pub struct KeySimulationEvent {
    pub key: String,
    pub action: String,
    pub delay_after_ms: Option<u64>,
}

/// A mouse command: `action` is `move`, `click`, `press`, `release` or
/// `scroll`; `duration_ms` and `ease` select animated motion.
pub struct MouseSimulationEvent {
    pub action: String,
    pub x: Option<i32>,
    pub y: Option<i32>,
    pub button: Option<String>,
    pub scroll_x: Option<i32>,
    pub scroll_y: Option<i32>,
    pub delay_after_ms: Option<u64>,
    pub duration_ms: Option<u64>,
    pub ease: Option<String>,
}

/// A text command: type the given string.
pub struct TextSimulationEvent {
    pub text: String,
    pub delay_after_ms: Option<u64>,
}

/// One decoded command line, discriminated by its `event_type` tag.
pub enum SimulationEvent {
    Key(KeySimulationEvent),
    Mouse(MouseSimulationEvent),
    Text(TextSimulationEvent),
}

/// A captured pointer event; fields that do not apply to the event kind
/// are `None` and are omitted from the encoded record.
pub struct MouseEvent {
    pub event_type: String,
    pub x: Option<i32>,
    pub y: Option<i32>,
    pub button: Option<String>,
    pub pressed: Option<bool>,
    pub scroll_x: Option<i32>,
    pub scroll_y: Option<i32>,
    pub timestamp: u64,
}

} // verus!
