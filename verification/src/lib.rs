//! Core of a single-threaded, readiness-driven I/O reactor.
//!
//! Caller threads enqueue commands (register accept/read/write interest on a
//! descriptor, run a callback inline, schedule a delayed callback, shut down);
//! one dedicated reactor thread drains those commands, waits on an OS
//! readiness facility, and dispatches events and expired timers to callbacks.
//! This crate holds the reactor's decision logic — the command transitions,
//! the callback registry, the timer set, and the one-shot completion slot —
//! all verified. The surrounding thread, channel and descriptor plumbing
//! drives this state machine and performs the actions it returns.

use vstd::prelude::*;

pub mod completion;
pub mod reactor;
pub mod registry;
pub mod timer;

verus! {

/// Decision returned by an event callback after a dispatch: keep the
/// registration armed for further readiness, or tear it down (the descriptor
/// is then deregistered and closed).
#[allow(non_camel_case_types)]
#[derive(Clone, Copy, Debug, PartialEq, Eq, Structural)]
pub enum EventControl {
    KEEP,
    DELETE,
}

impl EventControl {
    /// True exactly when the callback asked for the registration to be torn down.
    pub fn is_delete(&self) -> (r: bool)
        ensures
            r == (self is DELETE),
    {
        match self {
            EventControl::DELETE => true,
            EventControl::KEEP => false,
        }
    }
}

} // verus!
