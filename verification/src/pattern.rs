//! The blink pattern prescribed for each connection state.
//!
//! A pattern is a cyclic sequence of timed LED levels. The controller replays
//! one full cycle — the pattern's atomic sub-unit — before it re-checks for a
//! newly published state, so a cycle is also the unit of reaction latency.

use crate::state::ConnectionState;
use vstd::prelude::*;

verus! {

/// One timed LED level: drive the LED to `on` and hold it for `hold_ms`
/// milliseconds before the next step.
#[derive(Clone, Copy, Debug, PartialEq, Eq, Structural)]
pub struct LedStep {
    pub on: bool,
    pub hold_ms: u64,
}

/// The pattern cycle prescribed for a state:
/// - `Disconnected`: slow blink, on 100 ms then off 900 ms;
/// - `Advertising`: fast blink, on 250 ms then off 250 ms;
/// - `Connected`: steady on, re-checked every 100 ms;
/// - `LowBattery`: a burst of three 100 ms on/off pairs, then 1000 ms off.
pub open spec fn pattern(s: ConnectionState) -> Seq<LedStep> {
    match s {
        ConnectionState::Disconnected => seq![
            LedStep { on: true, hold_ms: 100 },
            LedStep { on: false, hold_ms: 900 },
        ],
        ConnectionState::Advertising => seq![
            LedStep { on: true, hold_ms: 250 },
            LedStep { on: false, hold_ms: 250 },
        ],
        ConnectionState::Connected => seq![LedStep { on: true, hold_ms: 100 }],
        ConnectionState::LowBattery => seq![
            LedStep { on: true, hold_ms: 100 },
            LedStep { on: false, hold_ms: 100 },
            LedStep { on: true, hold_ms: 100 },
            LedStep { on: false, hold_ms: 100 },
            LedStep { on: true, hold_ms: 100 },
            LedStep { on: false, hold_ms: 100 },
            LedStep { on: false, hold_ms: 1000 },
        ],
    }
}

/// How many steps one cycle of the state's pattern has.
pub fn pattern_len(s: ConnectionState) -> (n: usize)
    ensures
        n == pattern(s).len(),
        1 <= n <= 7,
{
    match s {
        ConnectionState::Disconnected => 2,
        ConnectionState::Advertising => 2,
        ConnectionState::Connected => 1,
        ConnectionState::LowBattery => 7,
    }
}

/// The `i`-th step of one cycle of the state's pattern.
pub fn pattern_step(s: ConnectionState, i: usize) -> (st: LedStep)
    requires
        i < pattern(s).len(),
    ensures
        st == pattern(s)[i as int],
{
    match s {
        ConnectionState::Disconnected => {
            if i == 0 {
                LedStep { on: true, hold_ms: 100 }
            } else {
                LedStep { on: false, hold_ms: 900 }
            }
        },
        ConnectionState::Advertising => {
            if i == 0 {
                LedStep { on: true, hold_ms: 250 }
            } else {
                LedStep { on: false, hold_ms: 250 }
            }
        },
        ConnectionState::Connected => LedStep { on: true, hold_ms: 100 },
        ConnectionState::LowBattery => {
            if i == 6 {
                LedStep { on: false, hold_ms: 1000 }
            } else if i == 0 || i == 2 || i == 4 {
                LedStep { on: true, hold_ms: 100 }
            } else {
                LedStep { on: false, hold_ms: 100 }
            }
        },
    }
}

/// How many milliseconds a trace of LED steps holds in total.
pub open spec fn trace_ms(t: Seq<LedStep>) -> int
    decreases t.len(),
{
    if t.len() == 0 {
        0
    } else {
        t[0].hold_ms + trace_ms(t.subrange(1, t.len() as int))
    }
}

/// How long one full cycle of the state's pattern lasts.
pub open spec fn cycle_ms(s: ConnectionState) -> int {
    trace_ms(pattern(s))
}

/// A trace never holds for negative time.
pub proof fn lemma_trace_ms_nonneg(t: Seq<LedStep>)
    ensures
        trace_ms(t) >= 0,
    decreases t.len(),
{
    if t.len() > 0 {
        lemma_trace_ms_nonneg(t.subrange(1, t.len() as int));
    }
}

/// Trace durations add up over concatenation.
pub proof fn lemma_trace_ms_append(a: Seq<LedStep>, b: Seq<LedStep>)
    ensures
        trace_ms(a + b) == trace_ms(a) + trace_ms(b),
    decreases a.len(),
{
    if a.len() == 0 {
        assert(a + b =~= b);
    } else {
        assert((a + b).subrange(1, (a + b).len() as int) =~= a.subrange(1, a.len() as int) + b);
        lemma_trace_ms_append(a.subrange(1, a.len() as int), b);
    }
}

/// The cycle durations of the four patterns: these are the sub-unit latency
/// bounds, since a newly published state waits out at most the rest of one
/// cycle before it is adopted.
pub proof fn lemma_cycle_ms_values()
    ensures
        cycle_ms(ConnectionState::Disconnected) == 1000,
        cycle_ms(ConnectionState::Advertising) == 500,
        cycle_ms(ConnectionState::Connected) == 100,
        cycle_ms(ConnectionState::LowBattery) == 1600,
{
    reveal_with_fuel(trace_ms, 9);
}

/// Every pattern has at least one step, so the controller always has a step
/// to emit.
pub proof fn lemma_pattern_nonempty(s: ConnectionState)
    ensures
        pattern(s).len() >= 1,
{
}

/// Every pattern other than the steady-on `Connected` pattern ends its cycle
/// with the LED off, so a cycle boundary — the only point at which the
/// controller switches pattern — never interrupts an "on" interval.
pub proof fn lemma_cycle_ends_off(s: ConnectionState)
    requires
        s != ConnectionState::Connected,
    ensures
        pattern(s).last().on == false,
{
}

} // verus!
