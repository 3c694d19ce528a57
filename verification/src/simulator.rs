//! A self-contained producer for exercising the indicator without a wireless
//! stack: a fixed, repeating schedule of connection states with dwell times.
//!
//! Exactly one producer may be active at a time — this simulator or the real
//! event source, never both. The loop that publishes each entry and sleeps
//! for its dwell time lives with the runtime; the schedule itself is fixed
//! here.

use crate::state::ConnectionState;
use vstd::prelude::*;

verus! {

/// One schedule entry: hold the published state for `dwell_ms` milliseconds
/// before moving to the next entry.
#[derive(Clone, Copy, Debug, PartialEq, Eq, Structural)]
pub struct ScheduleEntry {
    pub state: ConnectionState,
    pub dwell_ms: u64,
}

/// The repeating demonstration schedule: advertise, connect, drop, report a
/// low battery, then advertise and connect again, forever.
pub open spec fn schedule() -> Seq<ScheduleEntry> {
    seq![
        ScheduleEntry { state: ConnectionState::Advertising, dwell_ms: 5000 },
        ScheduleEntry { state: ConnectionState::Connected, dwell_ms: 10000 },
        ScheduleEntry { state: ConnectionState::Disconnected, dwell_ms: 5000 },
        ScheduleEntry { state: ConnectionState::LowBattery, dwell_ms: 3000 },
        ScheduleEntry { state: ConnectionState::Advertising, dwell_ms: 5000 },
        ScheduleEntry { state: ConnectionState::Connected, dwell_ms: 5000 },
    ]
}

/// How many entries one pass of the schedule has.
pub fn schedule_len() -> (n: usize)
    ensures
        n == schedule().len(),
{
    6
}

/// The schedule entry for tick `i` of an endlessly repeating run: the
/// schedule is read cyclically, so every `i` is answered.
pub fn schedule_entry(i: usize) -> (e: ScheduleEntry)
    ensures
        e == schedule()[(i as int) % (schedule().len() as int)],
{
    let k = i % 6;
    if k == 0 {
        ScheduleEntry { state: ConnectionState::Advertising, dwell_ms: 5000 }
    } else if k == 1 {
        ScheduleEntry { state: ConnectionState::Connected, dwell_ms: 10000 }
    } else if k == 2 {
        ScheduleEntry { state: ConnectionState::Disconnected, dwell_ms: 5000 }
    } else if k == 3 {
        ScheduleEntry { state: ConnectionState::LowBattery, dwell_ms: 3000 }
    } else if k == 4 {
        ScheduleEntry { state: ConnectionState::Advertising, dwell_ms: 5000 }
    } else {
        ScheduleEntry { state: ConnectionState::Connected, dwell_ms: 5000 }
    }
}

} // verus!
