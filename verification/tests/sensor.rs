use dht11::sensor::{
    classify_bit, poll_step, request_delay_micros, CycleEvent, Level, LineRequest,
    PulseMeasurement, SensorCycle, SensorError, BIT_THRESHOLD_MICROS, PHASE_TIMEOUT_MICROS,
    PRIME_HOLD_MICROS, SETTLE_DELAY_MICROS,
};

fn ok_pulse(elapsed_micros: u64) -> CycleEvent {
    CycleEvent::LevelWait(PulseMeasurement { elapsed_micros, timed_out: false })
}

fn timeout_pulse() -> CycleEvent {
    CycleEvent::LevelWait(PulseMeasurement { elapsed_micros: 1001, timed_out: true })
}

/// Drive a fresh cycle through the handshake up to the first bit wait.
fn primed_cycle() -> SensorCycle {
    let mut cycle = SensorCycle::new();
    assert_eq!(cycle.request(), Some(LineRequest::Prepare));
    cycle.step(CycleEvent::DelayElapsed);
    assert_eq!(cycle.request(), Some(LineRequest::Prime));
    cycle.step(CycleEvent::DelayElapsed);
    assert_eq!(cycle.request(), Some(LineRequest::Release));
    cycle.step(CycleEvent::DelayElapsed);
    assert_eq!(cycle.request(), Some(LineRequest::AwaitLevel(Level::Low)));
    cycle.step(ok_pulse(80));
    assert_eq!(cycle.request(), Some(LineRequest::AwaitLevel(Level::High)));
    cycle.step(ok_pulse(80));
    cycle
}

#[test]
fn threshold_boundary_is_inclusive_high() {
    // 39 us classifies as 0; 40 us and 41 us classify as 1.
    assert_eq!(classify_bit(39), 0);
    assert_eq!(classify_bit(40), 1);
    assert_eq!(classify_bit(41), 1);
    assert_eq!(BIT_THRESHOLD_MICROS, 40);
}

#[test]
fn poll_step_decisions() {
    // Goal level seen: done, no timeout, even past the deadline.
    assert_eq!(
        poll_step(Level::Low, Level::Low, 10, PHASE_TIMEOUT_MICROS),
        Some(PulseMeasurement { elapsed_micros: 10, timed_out: false })
    );
    assert_eq!(
        poll_step(Level::High, Level::High, 1500, PHASE_TIMEOUT_MICROS),
        Some(PulseMeasurement { elapsed_micros: 1500, timed_out: false })
    );
    // Not there yet, deadline not passed: keep polling.
    assert_eq!(poll_step(Level::High, Level::Low, 1000, PHASE_TIMEOUT_MICROS), None);
    // Deadline passed without the goal level: timeout.
    assert_eq!(
        poll_step(Level::High, Level::Low, 1001, PHASE_TIMEOUT_MICROS),
        Some(PulseMeasurement { elapsed_micros: 1001, timed_out: true })
    );
}

#[test]
fn fixed_delays_match_configuration() {
    assert_eq!(request_delay_micros(LineRequest::Prepare), Some(SETTLE_DELAY_MICROS));
    assert_eq!(request_delay_micros(LineRequest::Prime), Some(PRIME_HOLD_MICROS));
    assert_eq!(request_delay_micros(LineRequest::Release), None);
    assert_eq!(request_delay_micros(LineRequest::AwaitLevel(Level::Low)), None);
    assert_eq!(request_delay_micros(LineRequest::Restore), None);
}

#[test]
fn ack0_timeout_reports_priming_timeout() {
    // The sensor never pulls the line low: the first bounded wait
    // times out, no bits are measured, the line is restored.
    let mut cycle = SensorCycle::new();
    cycle.step(CycleEvent::DelayElapsed);
    cycle.step(CycleEvent::DelayElapsed);
    cycle.step(CycleEvent::DelayElapsed);
    assert_eq!(cycle.request(), Some(LineRequest::AwaitLevel(Level::Low)));
    assert_eq!(cycle.result(), None);
    cycle.step(timeout_pulse());
    assert_eq!(cycle.request(), Some(LineRequest::Restore));
    cycle.step(CycleEvent::DelayElapsed);
    assert_eq!(cycle.request(), None);
    assert_eq!(cycle.result(), Some(Err(SensorError::PrimingTimeout)));
}

#[test]
fn ack1_timeout_reports_priming_timeout() {
    let mut cycle = SensorCycle::new();
    cycle.step(CycleEvent::DelayElapsed);
    cycle.step(CycleEvent::DelayElapsed);
    cycle.step(CycleEvent::DelayElapsed);
    cycle.step(ok_pulse(20));
    assert_eq!(cycle.request(), Some(LineRequest::AwaitLevel(Level::High)));
    cycle.step(timeout_pulse());
    cycle.step(CycleEvent::DelayElapsed);
    assert_eq!(cycle.result(), Some(Err(SensorError::PrimingTimeout)));
}

#[test]
fn bit_17_timeout_reports_bit_timeout() {
    // 17 bits come in; the wait for bit 17's high flank times out.
    let mut cycle = primed_cycle();
    for _ in 0..17 {
        cycle.step(ok_pulse(50));
        cycle.step(ok_pulse(70));
    }
    assert_eq!(cycle.request(), Some(LineRequest::AwaitLevel(Level::High)));
    cycle.step(timeout_pulse());
    // The failed attempt still returns the line to its idle state.
    assert_eq!(cycle.request(), Some(LineRequest::Restore));
    cycle.step(CycleEvent::DelayElapsed);
    assert_eq!(cycle.result(), Some(Err(SensorError::BitTimeout)));
}

#[test]
fn bit_low_wait_timeout_reports_bit_timeout() {
    // The line rises for bit 0 but never falls again.
    let mut cycle = primed_cycle();
    cycle.step(ok_pulse(50));
    cycle.step(timeout_pulse());
    assert_eq!(cycle.request(), Some(LineRequest::Restore));
    cycle.step(CycleEvent::DelayElapsed);
    assert_eq!(cycle.result(), Some(Err(SensorError::BitTimeout)));
}

fn run_dead_line_cycle() -> Option<Result<dht11::reading::Dht11Reading, SensorError>> {
    let mut cycle = SensorCycle::new();
    while let Some(request) = cycle.request() {
        match request {
            LineRequest::AwaitLevel(_) => cycle.step(timeout_pulse()),
            _ => cycle.step(CycleEvent::DelayElapsed),
        }
    }
    cycle.result()
}

#[test]
fn consecutive_dead_line_cycles_are_independent() {
    // With no sensor present, each cycle independently times out
    // during priming; nothing from the first cycle reaches the second.
    let first = run_dead_line_cycle();
    let second = run_dead_line_cycle();
    assert_eq!(first, Some(Err(SensorError::PrimingTimeout)));
    assert_eq!(second, Some(Err(SensorError::PrimingTimeout)));
    assert_eq!(first, second);
}

#[test]
fn full_frame_decodes_reading() {
    // 40 pulses encoding 25, 0, 22, 5 with checksum 52: a high
    // duration of 70 us is a 1, 24 us is a 0.
    let bytes: [i32; 5] = [25, 0, 22, 5, 52];
    let mut cycle = primed_cycle();
    for byte in bytes {
        for k in (0..8).rev() {
            cycle.step(ok_pulse(50));
            let duration = if (byte >> k) & 1 == 1 { 70 } else { 24 };
            cycle.step(ok_pulse(duration));
        }
    }
    assert_eq!(cycle.request(), Some(LineRequest::Restore));
    cycle.step(CycleEvent::DelayElapsed);
    let reading = cycle.result().unwrap().unwrap();
    assert_eq!(reading.humidity_integer, 25);
    assert_eq!(reading.humidity_decimal, 0);
    assert_eq!(reading.temperature_integer, 22);
    assert_eq!(reading.temperature_decimal, 5);
    assert_eq!(reading.checksum, 52);
    assert!(reading.is_valid());
}

#[test]
fn boundary_duration_pulses_classify_into_frame() {
    // All 40 bit pulses at exactly the threshold: every bit is 1.
    let mut cycle = primed_cycle();
    for _ in 0..40 {
        cycle.step(ok_pulse(50));
        cycle.step(ok_pulse(BIT_THRESHOLD_MICROS));
    }
    cycle.step(CycleEvent::DelayElapsed);
    let reading = cycle.result().unwrap().unwrap();
    assert_eq!(reading.humidity_integer, 255);
    assert_eq!(reading.checksum, 255);
}

#[test]
fn events_out_of_protocol_change_nothing() {
    let mut cycle = SensorCycle::new();
    // A wait result while a delay is owed is ignored.
    cycle.step(ok_pulse(10));
    assert_eq!(cycle.request(), Some(LineRequest::Prepare));
    // A finished cycle ignores further events.
    let mut dead = SensorCycle::new();
    dead.step(CycleEvent::DelayElapsed);
    dead.step(CycleEvent::DelayElapsed);
    dead.step(CycleEvent::DelayElapsed);
    dead.step(timeout_pulse());
    dead.step(CycleEvent::DelayElapsed);
    dead.step(CycleEvent::DelayElapsed);
    assert_eq!(dead.result(), Some(Err(SensorError::PrimingTimeout)));
}
