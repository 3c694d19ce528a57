//! A single-slot, latest-value-wins channel for connection states.
//!
//! Producers publish the newest state; the one consumer — the indicator
//! controller's loop — polls for it. The slot holds at most one value:
//! publishing overwrites an unconsumed value, so only the most recent write is
//! guaranteed observable. On the cooperative runtime around this core the
//! consumer's loop turns `take_next` into the blocking "wait for next value"
//! by suspending between polls; no operation here blocks.

use crate::state::ConnectionState;
use vstd::prelude::*;

verus! {

/// The channel cell: the most recently published state, if any, and whether
/// it has been published since the consumer last took a value.
pub struct StateChannel {
    value: Option<ConnectionState>,
    fresh: bool,
}

impl StateChannel {
    /// A publication can only be pending once something was published.
    #[verifier::type_invariant]
    spec fn inv(self) -> bool {
        self.fresh ==> self.value is Some
    }

    /// The most recently published state, or `None` before the first
    /// publication. A newer publication replaces an older one wholesale.
    pub closed spec fn latest(self) -> Option<ConnectionState> {
        self.value
    }

    /// Whether a publication has happened since the consumer last polled.
    pub closed spec fn pending(self) -> bool {
        self.fresh
    }

    /// An empty channel: nothing published yet.
    pub fn new() -> (ch: StateChannel)
        ensures
            ch.latest() is None,
            !ch.pending(),
    {
        StateChannel { value: None, fresh: false }
    }

    /// Store `s` as the current state, overwriting any unconsumed previous
    /// value. Never blocks and never fails: the slot keeps no history, so the
    /// latest publication always wins.
    pub fn publish(&mut self, s: ConnectionState)
        ensures
            final(self).latest() == Some(s),
            final(self).pending(),
    {
        *self = StateChannel { value: Some(s), fresh: true };
    }

    /// Poll for a publication. Returns the latest state and marks it consumed
    /// if one arrived since the last poll, `None` otherwise; the stored value
    /// itself is kept either way, so `peek_if_still` keeps answering.
    pub fn take_next(&mut self) -> (r: Option<ConnectionState>)
        ensures
            final(self).latest() == old(self).latest(),
            !final(self).pending(),
            old(self).pending() ==> r == old(self).latest() && r is Some,
            !old(self).pending() ==> r is None,
    {
        proof {
            use_type_invariant(&*self);
        }
        if self.fresh {
            *self = StateChannel { value: self.value, fresh: false };
            self.value
        } else {
            None
        }
    }

    /// Non-blocking check that `expected` is still the current state: true
    /// exactly when the most recently published value equals `expected`. A
    /// redundant re-publication of the same value does not falsify it, so the
    /// controller never restarts a pattern over one.
    pub fn peek_if_still(&self, expected: ConnectionState) -> (b: bool)
        ensures
            b == (self.latest() == Some(expected)),
    {
        match self.value {
            Some(v) => v == expected,
            None => false,
        }
    }
}

} // verus!
