//! Core of a reparenting, floating X11 window manager, as a state machine.
//!
//! The manager wraps each top-level client in a frame window of its own, keeps an
//! insertion-ordered registry of (client, frame) pairs, passes configure requests through
//! verbatim, and implements click-to-focus, drag-to-move, cycling, kill and launch. It
//! talks to no server itself: each handler takes an [`protocol::Event`] of plain values and
//! returns the [`protocol::Request`]s for the caller to issue.
use vstd::prelude::*;

pub mod laws;
pub mod protocol;
pub mod registry;
pub mod wm;

verus! {

} // verus!
