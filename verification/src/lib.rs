//! Capture and synthesis of keyboard and pointer input.
//!
//! The capture side classifies raw key transitions into direct events,
//! ordered key combinations and timed hold-sequences.  The synthesis side
//! turns declarative commands into device actions, including animated
//! pointer motion and scrolling driven by a catalog of easing curves.
//! Device hooks, JSON framing and timing live outside this crate; the
//! state machines and the arithmetic live here, with their contracts.

pub mod complex;
pub mod direct;
pub mod easing;
pub mod hold_and_release;
pub mod models;
pub mod motion;
pub mod mouse;
pub mod simulation;
