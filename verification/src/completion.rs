//! One-shot completion slot.
//!
//! A `CompletionSlot` is the state of a shared completion cell: a
//! single-assignment result slot that the reactor resolves when a write or a
//! scheduled operation finishes. Resolution happens exactly once; any later
//! resolution is a silent no-op, so resolving on the reactor thread can never
//! abort the loop. Sharing across threads (reference counting, blocking waits)
//! is plumbing outside this crate; every observation and transition of the
//! slot itself is specified here.

use vstd::prelude::*;

verus! {

/// A one-shot result slot: empty until resolved, then frozen at the first
/// value it was resolved with.
pub struct CompletionSlot<T> {
    value: Option<T>,
}

impl<T> CompletionSlot<T> {
    /// Whether the slot has been resolved.
    pub closed spec fn spec_ready(self) -> bool {
        self.value is Some
    }

    /// The value the slot was resolved with; meaningful only when
    /// `spec_ready()` holds.
    pub closed spec fn spec_value(self) -> T
        recommends
            self.spec_ready(),
    {
        self.value->Some_0
    }

    /// The slot after an attempt to resolve it with `v`: the attempt takes
    /// effect only if the slot is still empty.
    pub open spec fn spec_resolve(self, v: T) -> Self {
        if self.spec_ready() {
            self
        } else {
            Self::spec_resolved(v)
        }
    }

    /// A slot frozen at `v`.
    pub closed spec fn spec_resolved(v: T) -> Self {
        CompletionSlot { value: Some(v) }
    }

    /// A fresh, unresolved slot.
    pub fn new() -> (r: Self)
        ensures
            !r.spec_ready(),
    {
        CompletionSlot { value: None }
    }

    /// Resolve the slot with `v`. The first resolution sticks; if the slot is
    /// already resolved, nothing changes.
    pub fn resolve(&mut self, v: T)
        ensures
            *final(self) == old(self).spec_resolve(v),
            final(self).spec_ready(),
            final(self).spec_value() == if old(self).spec_ready() {
                old(self).spec_value()
            } else {
                v
            },
    {
        if self.value.is_none() {
            self.value = Some(v);
        }
    }

    /// Whether the slot has been resolved.
    pub fn is_ready(&self) -> (r: bool)
        ensures
            r == self.spec_ready(),
    {
        self.value.is_some()
    }

    /// The resolved value, if any.
    pub fn value(&self) -> (r: Option<&T>)
        ensures
            match r {
                Some(v) => self.spec_ready() && *v == self.spec_value(),
                None => !self.spec_ready(),
            },
    {
        self.value.as_ref()
    }
}

/// Resolution is one-shot: after a slot is first resolved with `v1`, it is
/// ready, it holds `v1`, and a second resolution with any `v2` changes
/// nothing — the observed value stays equal to the first resolution.
pub proof fn lemma_first_resolution_wins<T>(s: CompletionSlot<T>, v1: T, v2: T)
    requires
        !s.spec_ready(),
    ensures
        s.spec_resolve(v1).spec_ready(),
        s.spec_resolve(v1).spec_value() == v1,
        s.spec_resolve(v1).spec_resolve(v2) == s.spec_resolve(v1),
{
}

/// Resolving an already-resolved slot is a no-op, whatever value is offered.
pub proof fn lemma_resolve_after_ready_is_noop<T>(s: CompletionSlot<T>, v: T)
    requires
        s.spec_ready(),
    ensures
        s.spec_resolve(v) == s,
{
}

} // verus!
