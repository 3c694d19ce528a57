//! The indicator controller: a step machine that renders the blink pattern of
//! the most recently published connection state.
//!
//! The controller owns no clock and no pin. Each call to [`Controller::step`]
//! hands it the latest published state and yields one timed LED level for the
//! caller's loop to perform (drive the pin, hold for the given time). New
//! states are adopted only at a cycle boundary, so a pattern's atomic sub-unit
//! is never cut short; a pattern switch first emits an un-timed "LED off"
//! step, so no switch leaves the LED stuck high from the previous pattern.

use crate::channel::StateChannel;
use crate::pattern::LedStep;
use crate::pattern::cycle_ms;
use crate::pattern::lemma_trace_ms_append;
use crate::pattern::lemma_trace_ms_nonneg;
use crate::pattern::pattern;
use crate::pattern::pattern_len;
use crate::pattern::pattern_step;
use crate::pattern::trace_ms;
use crate::state::ConnectionState;
use vstd::arithmetic::div_mod::lemma_mod_add_multiples_vanish;
use vstd::arithmetic::div_mod::lemma_small_mod;
use vstd::prelude::*;

verus! {

/// The controller's whole state: which pattern it is rendering and how far
/// into the pattern's cycle it is.
pub struct Controller {
    pub mode: ConnectionState,
    pub phase: usize,
}

impl Controller {
    /// The phase always points at a step of the current pattern's cycle.
    pub open spec fn wf(self) -> bool {
        self.phase < pattern(self.mode).len()
    }

    /// A controller about to start the pattern of `initial` from the top.
    /// There is no default pattern: the caller waits for the first
    /// publication before constructing the controller.
    pub fn new(initial: ConnectionState) -> (c: Controller)
        ensures
            c.wf(),
            c.mode == initial,
            c.phase == 0,
    {
        Controller { mode: initial, phase: 0 }
    }

    /// Advance by one step, given the most recently published state.
    /// The result is exactly [`spec_step`] of the old state: either the
    /// scheduled step of the current pattern, or — only at a cycle boundary,
    /// and only when `latest` differs from the current mode — an un-timed
    /// "LED off" step that begins the switch to `latest`'s pattern.
    pub fn step(&mut self, latest: ConnectionState) -> (a: LedStep)
        requires
            old(self).wf(),
        ensures
            final(self).wf(),
            (*final(self), a) == spec_step(*old(self), latest),
    {
        if self.phase == 0 && latest != self.mode {
            self.mode = latest;
            LedStep { on: false, hold_ms: 0 }
        } else {
            let a = pattern_step(self.mode, self.phase);
            let len = pattern_len(self.mode);
            self.phase = if self.phase + 1 < len {
                self.phase + 1
            } else {
                0
            };
            a
        }
    }
}

/// One full turn of the indicator loop, minus the hardware: re-check the
/// channel, adopt the latest published state, and take one controller step.
/// Returns the LED step to perform and the state now adopted, which the
/// caller passes back in as `prev` on the next turn. While `prev` is still
/// current — even if it was redundantly re-published — the channel is left
/// untouched and the pattern runs on; only a different published value is
/// consumed and adopted, and then only at the pattern's own pace.
pub fn indicator_tick(ctrl: &mut Controller, ch: &mut StateChannel, prev: ConnectionState) -> (r: (
    LedStep,
    ConnectionState,
))
    requires
        old(ctrl).wf(),
    ensures
        final(ctrl).wf(),
        (*final(ctrl), r.0) == spec_step(*old(ctrl), r.1),
        old(ch).latest() == Some(prev) ==> r.1 == prev && *final(ch) == *old(ch),
        old(ch).latest() != Some(prev) ==> final(ch).latest() == old(ch).latest()
            && !final(ch).pending(),
        (old(ch).latest() != Some(prev) && old(ch).pending()) ==> Some(r.1) == old(ch).latest(),
        (old(ch).latest() != Some(prev) && !old(ch).pending()) ==> r.1 == prev,
{
    let cur = if ch.peek_if_still(prev) {
        prev
    } else {
        match ch.take_next() {
            Some(s) => s,
            None => prev,
        }
    };
    let a = ctrl.step(cur);
    (a, cur)
}

/// The phase after emitting the current step: the next step of the cycle, or
/// back to the boundary once the cycle is complete.
pub open spec fn next_phase(c: Controller) -> usize {
    if c.phase + 1 < pattern(c.mode).len() {
        (c.phase + 1) as usize
    } else {
        0
    }
}

/// One controller step as a mathematical function: the successor state and
/// the emitted LED step. At a cycle boundary with a newly published state the
/// controller adopts it and emits an un-timed "off"; otherwise it emits the
/// scheduled step of the current pattern and advances its phase.
pub open spec fn spec_step(c: Controller, latest: ConnectionState) -> (Controller, LedStep) {
    if c.phase == 0 && latest != c.mode {
        (Controller { mode: latest, phase: 0 }, LedStep { on: false, hold_ms: 0 })
    } else {
        (Controller { mode: c.mode, phase: next_phase(c) }, pattern(c.mode)[c.phase as int])
    }
}

/// The controller state after stepping once per input, oldest input first.
pub open spec fn run_state(c: Controller, inputs: Seq<ConnectionState>) -> Controller
    decreases inputs.len(),
{
    if inputs.len() == 0 {
        c
    } else {
        run_state(spec_step(c, inputs[0]).0, inputs.subrange(1, inputs.len() as int))
    }
}

/// The LED steps emitted while stepping once per input, oldest first.
pub open spec fn run_trace(c: Controller, inputs: Seq<ConnectionState>) -> Seq<LedStep>
    decreases inputs.len(),
{
    if inputs.len() == 0 {
        Seq::empty()
    } else {
        seq![spec_step(c, inputs[0]).1] + run_trace(
            spec_step(c, inputs[0]).0,
            inputs.subrange(1, inputs.len() as int),
        )
    }
}

/// `n` consecutive steps of `m`'s pattern, read cyclically from offset
/// `start`: the trace of an undisturbed rendering of `m`.
pub open spec fn cycle_from(m: ConnectionState, start: usize, n: nat) -> Seq<LedStep>
    recommends
        start < pattern(m).len(),
    decreases n,
{
    if n == 0 {
        Seq::empty()
    } else {
        seq![pattern(m)[start as int]] + cycle_from(
            m,
            if start + 1 < pattern(m).len() {
                (start + 1) as usize
            } else {
                0
            },
            (n - 1) as nat,
        )
    }
}

/// How many steps the controller needs, from state `c`, before it is rendering
/// `m` from the top of `m`'s pattern: the rest of the current cycle, plus the
/// un-timed switch step if the mode has to change. At most one full cycle plus
/// one — the sub-unit latency bound.
pub open spec fn settle_steps(c: Controller, m: ConnectionState) -> int {
    let finish = if c.phase == 0 {
        0
    } else {
        pattern(c.mode).len() - c.phase
    };
    if c.mode == m {
        finish
    } else {
        finish + 1
    }
}

/// One step keeps the controller well formed.
pub proof fn lemma_step_wf(c: Controller, latest: ConnectionState)
    requires
        c.wf(),
    ensures
        spec_step(c, latest).0.wf(),
{
}

/// Any run keeps the controller well formed.
pub proof fn lemma_run_wf(c: Controller, inputs: Seq<ConnectionState>)
    requires
        c.wf(),
    ensures
        run_state(c, inputs).wf(),
    decreases inputs.len(),
{
    if inputs.len() > 0 {
        lemma_step_wf(c, inputs[0]);
        lemma_run_wf(spec_step(c, inputs[0]).0, inputs.subrange(1, inputs.len() as int));
    }
}

/// A run over no inputs changes nothing and emits nothing.
pub proof fn lemma_run_empty(c: Controller, inputs: Seq<ConnectionState>)
    requires
        inputs.len() == 0,
    ensures
        run_state(c, inputs) == c,
        run_trace(c, inputs) == Seq::<LedStep>::empty(),
{
}

/// A run over a single input is a single step.
pub proof fn lemma_run_single(c: Controller, inputs: Seq<ConnectionState>)
    requires
        inputs.len() == 1,
    ensures
        run_state(c, inputs) == spec_step(c, inputs[0]).0,
        run_trace(c, inputs) == seq![spec_step(c, inputs[0]).1],
{
    let c2 = spec_step(c, inputs[0]).0;
    let rest = inputs.subrange(1, 1);
    assert(rest.len() == 0);
    lemma_run_empty(c2, rest);
    assert(run_trace(c, inputs) =~= seq![spec_step(c, inputs[0]).1]);
}

/// A run emits exactly one LED step per input.
pub proof fn lemma_run_trace_len(c: Controller, inputs: Seq<ConnectionState>)
    ensures
        run_trace(c, inputs).len() == inputs.len(),
    decreases inputs.len(),
{
    if inputs.len() > 0 {
        lemma_run_trace_len(spec_step(c, inputs[0]).0, inputs.subrange(1, inputs.len() as int));
    }
}

/// Runs compose: stepping through `a + b` is stepping through `a`, then
/// through `b` from where `a` left off.
pub proof fn lemma_run_append(c: Controller, a: Seq<ConnectionState>, b: Seq<ConnectionState>)
    ensures
        run_state(c, a + b) == run_state(run_state(c, a), b),
        run_trace(c, a + b) == run_trace(c, a) + run_trace(run_state(c, a), b),
    decreases a.len(),
{
    if a.len() == 0 {
        assert(a + b =~= b);
        assert(run_trace(c, a) + run_trace(c, b) =~= run_trace(c, b));
    } else {
        let c2 = spec_step(c, a[0]).0;
        let a2 = a.subrange(1, a.len() as int);
        assert((a + b)[0] == a[0]);
        assert((a + b).subrange(1, (a + b).len() as int) =~= a2 + b);
        lemma_run_append(c2, a2, b);
        assert(run_trace(c, a + b) =~= run_trace(c, a) + run_trace(run_state(c, a), b));
    }
}

/// Away from a cycle boundary the controller ignores publications entirely:
/// the step is the same whatever the latest state is. New values take effect
/// only once the current atomic sub-unit is complete.
pub proof fn lemma_mid_cycle_ignores_input(
    c: Controller,
    x: ConnectionState,
    y: ConnectionState,
)
    requires
        c.phase != 0,
    ensures
        spec_step(c, x) == spec_step(c, y),
{
}

/// Re-publishing the state already being rendered never restarts the pattern:
/// the controller emits the scheduled step and advances its phase exactly as
/// it would had nothing been published at all.
pub proof fn lemma_republish_no_restart(c: Controller)
    requires
        c.wf(),
    ensures
        spec_step(c, c.mode).1 == pattern(c.mode)[c.phase as int],
        spec_step(c, c.mode).0 == (Controller { mode: c.mode, phase: next_phase(c) }),
{
}

/// While the published state stays equal to the mode being rendered —
/// whether or not it is redundantly re-published along the way — the emitted
/// trace is exactly the pattern's cycle, picked up at the current phase, with
/// no restart and no skip.
pub proof fn lemma_steady_trace(c: Controller, inputs: Seq<ConnectionState>)
    requires
        c.wf(),
        forall|i: int| 0 <= i < inputs.len() ==> inputs[i] == c.mode,
    ensures
        run_state(c, inputs).mode == c.mode,
        run_state(c, inputs).wf(),
        run_trace(c, inputs) == cycle_from(c.mode, c.phase, inputs.len() as nat),
    decreases inputs.len(),
{
    if inputs.len() > 0 {
        assert(inputs[0] == c.mode);
        let c2 = spec_step(c, inputs[0]).0;
        let rest = inputs.subrange(1, inputs.len() as int);
        assert forall|i: int| 0 <= i < rest.len() implies rest[i] == c2.mode by {
            assert(rest[i] == inputs[i + 1]);
        }
        lemma_steady_trace(c2, rest);
    }
}

/// A controller that is mid-cycle finishes the remainder of the current
/// pattern's cycle exactly as prescribed, whatever is published meanwhile,
/// and arrives at the cycle boundary with its mode unchanged.
pub proof fn lemma_completes_cycle(c: Controller, inputs: Seq<ConnectionState>)
    requires
        c.wf(),
        0 < c.phase,
        inputs.len() == pattern(c.mode).len() - c.phase,
    ensures
        run_state(c, inputs) == (Controller { mode: c.mode, phase: 0 }),
        run_trace(c, inputs) == pattern(c.mode).subrange(
            c.phase as int,
            pattern(c.mode).len() as int,
        ),
    decreases inputs.len(),
{
    let c2 = spec_step(c, inputs[0]).0;
    let rest = inputs.subrange(1, inputs.len() as int);
    if c.phase + 1 == pattern(c.mode).len() {
        lemma_run_single(c, inputs);
        assert(c2 == (Controller { mode: c.mode, phase: 0 }));
        assert(spec_step(c, inputs[0]).1 == pattern(c.mode)[c.phase as int]);
        assert(run_trace(c, inputs) =~= pattern(c.mode).subrange(
            c.phase as int,
            pattern(c.mode).len() as int,
        ));
    } else {
        lemma_completes_cycle(c2, rest);
        assert(run_state(c, inputs) == run_state(c2, rest));
        assert(run_trace(c, inputs) == seq![spec_step(c, inputs[0]).1] + run_trace(c2, rest));
        assert(run_trace(c, inputs) =~= pattern(c.mode).subrange(
            c.phase as int,
            pattern(c.mode).len() as int,
        ));
    }
}

/// The mode changes only at a cycle boundary, and the step that begins the
/// switch drives the LED off with no dwell time: no pattern switch can leave
/// the LED stuck at the old pattern's level, and no atomic sub-unit is ever
/// abandoned half-way.
pub proof fn lemma_switch_goes_dark(c: Controller, latest: ConnectionState)
    requires
        c.wf(),
    ensures
        spec_step(c, latest).0.mode != c.mode ==> c.phase == 0,
        spec_step(c, latest).0.mode != c.mode ==> spec_step(c, latest).1 == (LedStep {
            on: false,
            hold_ms: 0,
        }),
{
}

/// A controller mid-way through a low-battery burst first finishes the burst
/// — through its trailing long "off" — whatever is published meanwhile; the
/// last level it emits before reaching the boundary is "off", so leaving
/// `LowBattery` never cuts an "on" interval short and never leaves the LED on.
pub proof fn lemma_low_battery_burst_completes(c: Controller, inputs: Seq<ConnectionState>)
    requires
        c.wf(),
        c.mode == ConnectionState::LowBattery,
        0 < c.phase,
        inputs.len() == pattern(c.mode).len() - c.phase,
    ensures
        run_state(c, inputs) == (Controller { mode: ConnectionState::LowBattery, phase: 0 }),
        run_trace(c, inputs) == pattern(ConnectionState::LowBattery).subrange(
            c.phase as int,
            pattern(ConnectionState::LowBattery).len() as int,
        ),
        run_trace(c, inputs).last().on == false,
{
    lemma_completes_cycle(c, inputs);
}

/// An undisturbed rendering emits exactly one LED step per step taken.
pub proof fn lemma_cycle_from_len(m: ConnectionState, start: usize, n: nat)
    ensures
        cycle_from(m, start, n).len() == n,
    decreases n,
{
    if n > 0 {
        let start2: usize = if start + 1 < pattern(m).len() {
            (start + 1) as usize
        } else {
            0
        };
        lemma_cycle_from_len(m, start2, (n - 1) as nat);
    }
}

/// Each step of an undisturbed rendering of `m` is the pattern step its
/// index selects, modulo the pattern's length: the cycle repeats verbatim.
pub proof fn lemma_cycle_from_index(m: ConnectionState, start: usize, n: nat)
    requires
        start < pattern(m).len(),
    ensures
        forall|i: int|
            0 <= i < n ==> cycle_from(m, start, n)[i] == pattern(m)[(start + i) % (pattern(
                m,
            ).len() as int)],
    decreases n,
{
    let len = pattern(m).len() as int;
    if n > 0 {
        let start2: usize = if start + 1 < pattern(m).len() {
            (start + 1) as usize
        } else {
            0
        };
        lemma_cycle_from_index(m, start2, (n - 1) as nat);
        lemma_cycle_from_len(m, start, n);
        lemma_cycle_from_len(m, start2, (n - 1) as nat);
        assert(cycle_from(m, start, n) == seq![pattern(m)[start as int]] + cycle_from(
            m,
            start2,
            (n - 1) as nat,
        ));
        assert forall|i: int| 0 <= i < n implies cycle_from(m, start, n)[i] == pattern(m)[(start
            + i) % len] by {
            if i == 0 {
                lemma_small_mod(start as nat, pattern(m).len());
            } else {
                assert(cycle_from(m, start, n)[i] == cycle_from(m, start2, (n - 1) as nat)[i - 1]);
                if start + 1 < pattern(m).len() {
                    assert(start2 + (i - 1) == start + i);
                } else {
                    lemma_mod_add_multiples_vanish(i - 1, len);
                    assert(start + i == len + (i - 1));
                }
            }
        }
    }
}

/// The latency and fidelity guarantee: if the published state holds at `m`
/// for the length of a run, then after at most `settle_steps` steps — the
/// rest of the current cycle plus at most one un-timed switch step — the
/// controller is rendering `m` from the top of its pattern, and every later
/// emitted LED step is exactly the step of `m`'s pattern that its position
/// prescribes.
pub proof fn theorem_renders_latest(c: Controller, m: ConnectionState, inputs: Seq<ConnectionState>)
    requires
        c.wf(),
        forall|i: int| 0 <= i < inputs.len() ==> inputs[i] == m,
        inputs.len() >= settle_steps(c, m),
    ensures
        run_state(c, inputs).mode == m,
        run_state(c, inputs).wf(),
        run_trace(c, inputs).subrange(settle_steps(c, m), inputs.len() as int) == cycle_from(
            m,
            0,
            (inputs.len() - settle_steps(c, m)) as nat,
        ),
{
    let s = settle_steps(c, m);
    let pre = inputs.subrange(0, s);
    let post = inputs.subrange(s, inputs.len() as int);
    assert(inputs =~= pre + post);
    lemma_run_append(c, pre, post);
    lemma_run_trace_len(c, pre);
    lemma_run_trace_len(c, inputs);

    // After `pre`, the controller stands at the top of `m`'s pattern.
    if c.mode == m {
        if c.phase == 0 {
            assert(pre.len() == 0);
            lemma_run_empty(c, pre);
            assert(c == (Controller { mode: m, phase: 0 }));
        } else {
            lemma_completes_cycle(c, pre);
        }
    } else {
        if c.phase == 0 {
            assert(pre.len() == 1);
            assert(pre[0] == inputs[0]);
            lemma_run_single(c, pre);
            assert(spec_step(c, pre[0]).0 == (Controller { mode: m, phase: 0 }));
        } else {
            let finish = pattern(c.mode).len() - c.phase;
            let pre1 = pre.subrange(0, finish as int);
            let pre2 = pre.subrange(finish as int, s);
            assert(pre =~= pre1 + pre2);
            lemma_run_append(c, pre1, pre2);
            lemma_completes_cycle(c, pre1);
            let cb = Controller { mode: c.mode, phase: 0 };
            assert(pre2.len() == 1);
            assert(pre2[0] == pre[finish as int]);
            assert(pre[finish as int] == inputs[finish as int]);
            lemma_run_single(cb, pre2);
            assert(spec_step(cb, pre2[0]).0 == (Controller { mode: m, phase: 0 }));
            assert(run_state(c, pre) == run_state(run_state(c, pre1), pre2));
        }
    }
    let top = Controller { mode: m, phase: 0 };
    assert(run_state(c, pre) == top);

    assert forall|i: int| 0 <= i < post.len() implies post[i] == top.mode by {
        assert(post[i] == inputs[i + s]);
    }
    lemma_steady_trace(top, post);
    lemma_run_trace_len(top, post);
    assert(run_state(c, inputs) == run_state(top, post));
    assert(run_trace(c, inputs) == run_trace(c, pre) + run_trace(top, post));
    assert(run_trace(c, inputs).subrange(s, inputs.len() as int) =~= run_trace(top, post));
}

/// The guarantee for an arbitrary history of publications: however the
/// published state moved about before position `k`, once it holds at `m` from
/// `k` on, the controller needs at most `settle_steps` further steps — the
/// rest of whatever cycle position `k` found it in, plus at most one un-timed
/// switch step — and from then on every emitted LED step is exactly the step
/// of `m`'s pattern that its position prescribes. Intermediate states may
/// never be rendered at all: only the latest one is owed.
pub proof fn theorem_eventually_renders_latest(
    c: Controller,
    m: ConnectionState,
    inputs: Seq<ConnectionState>,
    k: int,
)
    requires
        c.wf(),
        0 <= k <= inputs.len(),
        forall|i: int| k <= i < inputs.len() ==> inputs[i] == m,
        inputs.len() - k >= settle_steps(run_state(c, inputs.subrange(0, k)), m),
    ensures
        run_state(c, inputs).mode == m,
        run_state(c, inputs).wf(),
        run_trace(c, inputs).subrange(
            k + settle_steps(run_state(c, inputs.subrange(0, k)), m),
            inputs.len() as int,
        ) == cycle_from(
            m,
            0,
            (inputs.len() - k - settle_steps(run_state(c, inputs.subrange(0, k)), m)) as nat,
        ),
{
    let history = inputs.subrange(0, k);
    let suffix = inputs.subrange(k, inputs.len() as int);
    let mid = run_state(c, history);
    let s = settle_steps(mid, m);
    assert(inputs =~= history + suffix);
    lemma_run_append(c, history, suffix);
    lemma_run_wf(c, history);
    lemma_run_trace_len(c, history);
    lemma_run_trace_len(c, inputs);
    lemma_run_trace_len(mid, suffix);
    assert forall|i: int| 0 <= i < suffix.len() implies suffix[i] == m by {
        assert(suffix[i] == inputs[i + k]);
    }
    theorem_renders_latest(mid, m, suffix);
    assert(run_trace(c, inputs).subrange(k + s, inputs.len() as int) =~= run_trace(
        mid,
        suffix,
    ).subrange(s, suffix.len() as int));
}

/// The latency bound in milliseconds: the LED steps emitted before the
/// controller starts rendering the newly published `m` hold, in total, for no
/// longer than one full cycle of the pattern it was rendering — the sub-unit
/// latency bound (the un-timed switch step adds nothing).
pub proof fn lemma_settle_time_bound(c: Controller, m: ConnectionState, inputs: Seq<
    ConnectionState,
>)
    requires
        c.wf(),
        forall|i: int| 0 <= i < inputs.len() ==> inputs[i] == m,
        inputs.len() >= settle_steps(c, m),
    ensures
        trace_ms(run_trace(c, inputs).subrange(0, settle_steps(c, m))) <= cycle_ms(c.mode),
{
    let s = settle_steps(c, m);
    let pre = inputs.subrange(0, s);
    let post = inputs.subrange(s, inputs.len() as int);
    assert(inputs =~= pre + post);
    lemma_run_append(c, pre, post);
    lemma_run_trace_len(c, pre);
    lemma_run_trace_len(c, inputs);
    assert(run_trace(c, inputs).subrange(0, s) =~= run_trace(c, pre));

    let pat = pattern(c.mode);
    let p = c.phase as int;
    lemma_trace_ms_nonneg(pat);

    if c.mode == m {
        if c.phase == 0 {
            lemma_run_empty(c, pre);
            assert(trace_ms(run_trace(c, pre)) == 0);
        } else {
            lemma_completes_cycle(c, pre);
            assert(pat =~= pat.subrange(0, p) + pat.subrange(p, pat.len() as int));
            lemma_trace_ms_append(pat.subrange(0, p), pat.subrange(p, pat.len() as int));
            lemma_trace_ms_nonneg(pat.subrange(0, p));
        }
    } else {
        let flush = LedStep { on: false, hold_ms: 0 };
        if c.phase == 0 {
            lemma_run_single(c, pre);
            assert(run_trace(c, pre) == seq![flush]);
            assert(trace_ms(seq![flush].subrange(1, 1)) == 0);
            assert(trace_ms(run_trace(c, pre)) == 0);
        } else {
            let finish = pat.len() - c.phase;
            let pre1 = pre.subrange(0, finish as int);
            let pre2 = pre.subrange(finish as int, s);
            assert(pre =~= pre1 + pre2);
            lemma_run_append(c, pre1, pre2);
            lemma_completes_cycle(c, pre1);
            let cb = Controller { mode: c.mode, phase: 0 };
            assert(pre2.len() == 1);
            assert(pre2[0] == pre[finish as int]);
            assert(pre[finish as int] == inputs[finish as int]);
            lemma_run_single(cb, pre2);
            assert(run_trace(cb, pre2) == seq![flush]);
            assert(trace_ms(seq![flush].subrange(1, 1)) == 0);
            assert(trace_ms(run_trace(cb, pre2)) == 0);
            lemma_trace_ms_append(run_trace(c, pre1), run_trace(cb, pre2));
            assert(pat =~= pat.subrange(0, p) + pat.subrange(p, pat.len() as int));
            lemma_trace_ms_append(pat.subrange(0, p), pat.subrange(p, pat.len() as int));
            lemma_trace_ms_nonneg(pat.subrange(0, p));
        }
    }
}

} // verus!
