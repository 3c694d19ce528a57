//! The connection state of the wireless link, and its wire encoding.

use vstd::prelude::*;

verus! {

/// The mutually exclusive phases a wireless link can be in. A value carries no
/// payload: it is a pure mode tag, replaced wholesale on every transition.
#[derive(Clone, Copy, Debug, PartialEq, Eq, Structural)]
pub enum ConnectionState {
    Disconnected,
    Advertising,
    Connected,
    LowBattery,
}

/// What a numeric state code means. Codes outside the known range fall back to
/// `Disconnected`: the indicator prefers a safe, low-alert default over faulting.
pub open spec fn decode(code: u8) -> ConnectionState {
    if code == 1 {
        ConnectionState::Advertising
    } else if code == 2 {
        ConnectionState::Connected
    } else if code == 3 {
        ConnectionState::LowBattery
    } else {
        ConnectionState::Disconnected
    }
}

/// The numeric code a state is published under.
pub open spec fn encode(s: ConnectionState) -> u8 {
    match s {
        ConnectionState::Disconnected => 0,
        ConnectionState::Advertising => 1,
        ConnectionState::Connected => 2,
        ConnectionState::LowBattery => 3,
    }
}

impl ConnectionState {
    /// Decode a numeric state code, mapping every unrecognized value to
    /// `Disconnected` rather than faulting.
    pub fn from_code(code: u8) -> (s: ConnectionState)
        ensures
            s == decode(code),
            code > 3 ==> s == ConnectionState::Disconnected,
    {
        match code {
            1 => ConnectionState::Advertising,
            2 => ConnectionState::Connected,
            3 => ConnectionState::LowBattery,
            _ => ConnectionState::Disconnected,
        }
    }

    /// The numeric code this state is published under.
    pub fn code(self) -> (c: u8)
        ensures
            c == encode(self),
            c <= 3,
    {
        match self {
            ConnectionState::Disconnected => 0,
            ConnectionState::Advertising => 1,
            ConnectionState::Connected => 2,
            ConnectionState::LowBattery => 3,
        }
    }
}

/// Encoding then decoding gives the state back: no state is lost on the wire.
pub proof fn lemma_code_round_trip(s: ConnectionState)
    ensures
        decode(encode(s)) == s,
{
}

} // verus!
