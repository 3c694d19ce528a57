use ble_indicator::channel::StateChannel;
use ble_indicator::controller::Controller;
use ble_indicator::controller::indicator_tick;
use ble_indicator::events::LinkEvent;
use ble_indicator::events::handle_event;
use ble_indicator::pattern::LedStep;
use ble_indicator::pattern::pattern_len;
use ble_indicator::pattern::pattern_step;
use ble_indicator::state::ConnectionState;

fn run_steps(ctrl: &mut Controller, latest: ConnectionState, n: usize) -> Vec<(bool, u64)> {
    let mut out = Vec::new();
    for _ in 0..n {
        let a = ctrl.step(latest);
        out.push((a.on, a.hold_ms));
    }
    out
}

#[test]
fn decode_known_codes() {
    assert_eq!(ConnectionState::from_code(0), ConnectionState::Disconnected);
    assert_eq!(ConnectionState::from_code(1), ConnectionState::Advertising);
    assert_eq!(ConnectionState::from_code(2), ConnectionState::Connected);
    assert_eq!(ConnectionState::from_code(3), ConnectionState::LowBattery);
}

#[test]
fn decode_out_of_range_falls_back_to_disconnected() {
    assert_eq!(ConnectionState::from_code(4), ConnectionState::Disconnected);
    assert_eq!(ConnectionState::from_code(200), ConnectionState::Disconnected);
    assert_eq!(ConnectionState::from_code(255), ConnectionState::Disconnected);
}

#[test]
fn encode_round_trips() {
    for code in 0u8..4u8 {
        let s = ConnectionState::from_code(code);
        assert_eq!(s.code(), code);
        assert_eq!(ConnectionState::from_code(s.code()), s);
    }
}

#[test]
fn out_of_range_code_renders_disconnected_pattern() {
    let s = ConnectionState::from_code(9);
    let mut ctrl = Controller::new(s);
    let trace = run_steps(&mut ctrl, s, 4);
    assert_eq!(trace, vec![(true, 100), (false, 900), (true, 100), (false, 900)]);
}

#[test]
fn pattern_tables_match_the_prescribed_timings() {
    assert_eq!(pattern_len(ConnectionState::Disconnected), 2);
    assert_eq!(pattern_step(ConnectionState::Disconnected, 0), LedStep { on: true, hold_ms: 100 });
    assert_eq!(pattern_step(ConnectionState::Disconnected, 1), LedStep { on: false, hold_ms: 900 });

    assert_eq!(pattern_len(ConnectionState::Advertising), 2);
    assert_eq!(pattern_step(ConnectionState::Advertising, 0), LedStep { on: true, hold_ms: 250 });
    assert_eq!(pattern_step(ConnectionState::Advertising, 1), LedStep { on: false, hold_ms: 250 });

    assert_eq!(pattern_len(ConnectionState::Connected), 1);
    assert_eq!(pattern_step(ConnectionState::Connected, 0), LedStep { on: true, hold_ms: 100 });

    assert_eq!(pattern_len(ConnectionState::LowBattery), 7);
    for i in 0..3 {
        assert_eq!(
            pattern_step(ConnectionState::LowBattery, 2 * i),
            LedStep { on: true, hold_ms: 100 }
        );
        assert_eq!(
            pattern_step(ConnectionState::LowBattery, 2 * i + 1),
            LedStep { on: false, hold_ms: 100 }
        );
    }
    assert_eq!(pattern_step(ConnectionState::LowBattery, 6), LedStep { on: false, hold_ms: 1000 });
}

#[test]
fn channel_starts_empty() {
    let mut ch = StateChannel::new();
    assert_eq!(ch.take_next(), None);
    assert!(!ch.peek_if_still(ConnectionState::Disconnected));
}

#[test]
fn channel_delivers_latest_and_marks_consumed() {
    let mut ch = StateChannel::new();
    ch.publish(ConnectionState::Advertising);
    assert_eq!(ch.take_next(), Some(ConnectionState::Advertising));
    assert_eq!(ch.take_next(), None);
    assert!(ch.peek_if_still(ConnectionState::Advertising));
    assert!(!ch.peek_if_still(ConnectionState::Connected));
}

#[test]
fn two_publications_before_first_check_latest_wins() {
    let mut ch = StateChannel::new();
    ch.publish(ConnectionState::Advertising);
    ch.publish(ConnectionState::Connected);
    assert_eq!(ch.take_next(), Some(ConnectionState::Connected));
    let mut ctrl = Controller::new(ConnectionState::Connected);
    let trace = run_steps(&mut ctrl, ConnectionState::Connected, 3);
    assert_eq!(trace, vec![(true, 100), (true, 100), (true, 100)]);
}

#[test]
fn events_publish_their_states() {
    let mut ch = StateChannel::new();
    handle_event(&mut ch, LinkEvent::Connected(7));
    assert_eq!(ch.take_next(), Some(ConnectionState::Connected));
    handle_event(&mut ch, LinkEvent::Disconnected(7));
    assert_eq!(ch.take_next(), Some(ConnectionState::Disconnected));
    handle_event(&mut ch, LinkEvent::AdvertisingStarted);
    assert_eq!(ch.take_next(), Some(ConnectionState::Advertising));
    handle_event(&mut ch, LinkEvent::BatteryLow);
    assert_eq!(ch.take_next(), Some(ConnectionState::LowBattery));
}

#[test]
fn advertising_then_connected_then_disconnected() {
    let mut ctrl = Controller::new(ConnectionState::Advertising);
    let adv = run_steps(&mut ctrl, ConnectionState::Advertising, 4);
    assert_eq!(adv, vec![(true, 250), (false, 250), (true, 250), (false, 250)]);

    // A new state at the cycle boundary: one un-timed off, then steady on.
    let switch = run_steps(&mut ctrl, ConnectionState::Connected, 4);
    assert_eq!(switch, vec![(false, 0), (true, 100), (true, 100), (true, 100)]);

    let drop = run_steps(&mut ctrl, ConnectionState::Disconnected, 5);
    assert_eq!(drop, vec![(false, 0), (true, 100), (false, 900), (true, 100), (false, 900)]);
}

#[test]
fn low_battery_burst_repeats_exactly() {
    let mut ctrl = Controller::new(ConnectionState::LowBattery);
    let one_burst = vec![
        (true, 100),
        (false, 100),
        (true, 100),
        (false, 100),
        (true, 100),
        (false, 100),
        (false, 1000),
    ];
    let first = run_steps(&mut ctrl, ConnectionState::LowBattery, 7);
    assert_eq!(first, one_burst);
    let second = run_steps(&mut ctrl, ConnectionState::LowBattery, 7);
    assert_eq!(second, one_burst);
}

#[test]
fn leaving_low_battery_mid_burst_completes_the_burst_led_off() {
    let mut ctrl = Controller::new(ConnectionState::LowBattery);
    run_steps(&mut ctrl, ConnectionState::LowBattery, 3);

    // The new state arrives mid-burst: the burst still completes, through its
    // trailing long off, before the pattern switches.
    let tail = run_steps(&mut ctrl, ConnectionState::Connected, 4);
    assert_eq!(tail, vec![(false, 100), (true, 100), (false, 100), (false, 1000)]);

    // Only now does the switch happen, and it drives the LED off first.
    let switch = run_steps(&mut ctrl, ConnectionState::Connected, 2);
    assert_eq!(switch, vec![(false, 0), (true, 100)]);
}

#[test]
fn redundant_republication_does_not_restart_the_pattern() {
    let mut quiet = Controller::new(ConnectionState::Advertising);
    let undisturbed = run_steps(&mut quiet, ConnectionState::Advertising, 6);

    let mut ch = StateChannel::new();
    ch.publish(ConnectionState::Advertising);
    let mut latest = ch.take_next().unwrap();
    let mut noisy = Controller::new(latest);
    let mut trace = Vec::new();
    for _ in 0..6 {
        // A producer keeps re-publishing the same state every step.
        ch.publish(ConnectionState::Advertising);
        if let Some(s) = ch.take_next() {
            latest = s;
        }
        let a = noisy.step(latest);
        trace.push((a.on, a.hold_ms));
    }
    assert_eq!(trace, undisturbed);
}

#[test]
fn indicator_tick_follows_publications() {
    let mut ch = StateChannel::new();
    ch.publish(ConnectionState::Advertising);
    let mut latest = ch.take_next().unwrap();
    let mut ctrl = Controller::new(latest);

    let mut trace = Vec::new();
    for _ in 0..4 {
        let (a, cur) = indicator_tick(&mut ctrl, &mut ch, latest);
        latest = cur;
        trace.push((a.on, a.hold_ms));
    }
    assert_eq!(trace, vec![(true, 250), (false, 250), (true, 250), (false, 250)]);

    ch.publish(ConnectionState::Connected);
    let mut trace = Vec::new();
    for _ in 0..3 {
        let (a, cur) = indicator_tick(&mut ctrl, &mut ch, latest);
        latest = cur;
        trace.push((a.on, a.hold_ms));
    }
    assert_eq!(latest, ConnectionState::Connected);
    assert_eq!(trace, vec![(false, 0), (true, 100), (true, 100)]);
}

#[test]
fn indicator_tick_defers_a_switch_to_the_boundary() {
    let mut ch = StateChannel::new();
    ch.publish(ConnectionState::Disconnected);
    let mut latest = ch.take_next().unwrap();
    let mut ctrl = Controller::new(latest);

    let (a, cur) = indicator_tick(&mut ctrl, &mut ch, latest);
    latest = cur;
    assert_eq!((a.on, a.hold_ms), (true, 100));

    // Published mid-cycle: consumed, but the cycle still completes first.
    ch.publish(ConnectionState::Advertising);
    let (a, cur) = indicator_tick(&mut ctrl, &mut ch, latest);
    latest = cur;
    assert_eq!(latest, ConnectionState::Advertising);
    assert_eq!((a.on, a.hold_ms), (false, 900));
    assert_eq!(ctrl.mode, ConnectionState::Disconnected);

    // At the boundary the switch happens: off first, then the new pattern.
    let (a, _) = indicator_tick(&mut ctrl, &mut ch, latest);
    assert_eq!((a.on, a.hold_ms), (false, 0));
    assert_eq!(ctrl.mode, ConnectionState::Advertising);
    let (a, _) = indicator_tick(&mut ctrl, &mut ch, latest);
    assert_eq!((a.on, a.hold_ms), (true, 250));
}

#[test]
fn mode_switch_waits_for_the_cycle_boundary() {
    let mut ctrl = Controller::new(ConnectionState::Disconnected);
    run_steps(&mut ctrl, ConnectionState::Disconnected, 1);
    assert_eq!(ctrl.phase, 1);

    // Mid-cycle the published change is not adopted yet.
    let rest = run_steps(&mut ctrl, ConnectionState::Advertising, 1);
    assert_eq!(rest, vec![(false, 900)]);
    assert_eq!(ctrl.mode, ConnectionState::Disconnected);

    // At the boundary it is: off first, then the new pattern from the top.
    let switched = run_steps(&mut ctrl, ConnectionState::Advertising, 3);
    assert_eq!(switched, vec![(false, 0), (true, 250), (false, 250)]);
    assert_eq!(ctrl.mode, ConnectionState::Advertising);
}
