//! Mapping wireless-link events onto published connection states.
//!
//! The wireless stack reports discrete, already-debounced events. Each one
//! maps to exactly one connection state, which is published into the channel
//! for the indicator controller to pick up.

use crate::channel::StateChannel;
use crate::state::ConnectionState;
use vstd::prelude::*;

verus! {

/// A notification from the wireless stack. Connect and disconnect carry the
/// peer's connection handle; the indicator does not read it, but callers that
/// track peers do.
#[derive(Clone, Copy, Debug, PartialEq, Eq, Structural)]
pub enum LinkEvent {
    Connected(u16),
    Disconnected(u16),
    AdvertisingStarted,
    BatteryLow,
}

/// The connection state each event announces.
pub open spec fn state_for(event: LinkEvent) -> ConnectionState {
    match event {
        LinkEvent::Connected(_) => ConnectionState::Connected,
        LinkEvent::Disconnected(_) => ConnectionState::Disconnected,
        LinkEvent::AdvertisingStarted => ConnectionState::Advertising,
        LinkEvent::BatteryLow => ConnectionState::LowBattery,
    }
}

/// Publish the state an event announces. After the call the channel holds
/// exactly that state, whatever it held before: the latest event wins.
pub fn handle_event(ch: &mut StateChannel, event: LinkEvent)
    ensures
        final(ch).latest() == Some(state_for(event)),
        final(ch).pending(),
{
    let s = match event {
        LinkEvent::Connected(_) => ConnectionState::Connected,
        LinkEvent::Disconnected(_) => ConnectionState::Disconnected,
        LinkEvent::AdvertisingStarted => ConnectionState::Advertising,
        LinkEvent::BatteryLow => ConnectionState::LowBattery,
    };
    ch.publish(s);
}

} // verus!
