//! The single-wire sensor read protocol: priming handshake, bounded
//! waits, pulse-width classification and the timeout policy.
//!
//! The protocol is modelled as an explicit transition system. A
//! [`SensorCycle`] walks through the phases of one reading attempt;
//! every decision — which line operation comes next, when a wait
//! aborts the cycle, how a pulse becomes a bit — is taken by the
//! verified [`SensorCycle::step`] function, whose behaviour equals the
//! specification-level [`cycle_step`]. The surrounding application
//! owns the GPIO line and the clock: it performs the requested line
//! operation or bounded wait and reports what happened. Timing a
//! single bounded wait is itself decided here, one poll at a time, by
//! [`poll_step`].

use vstd::prelude::*;
use crate::reading::{all_bits_binary, reading_of_bits, Dht11Reading};

verus! {

/// How long the line is held high before priming starts, in
/// microseconds.
pub const SETTLE_DELAY_MICROS: u64 = 250_000;

/// How long the priming low pulse is held, in microseconds. The sensor
/// needs at least 18 ms; 20 ms leaves a margin.
pub const PRIME_HOLD_MICROS: u64 = 20_000;

/// The deadline of every bounded wait for a line transition, in
/// microseconds.
pub const PHASE_TIMEOUT_MICROS: u64 = 1000;

/// A high pulse at least this long, in microseconds, is a `1` bit;
/// a shorter one is a `0` bit. The boundary itself counts as `1`.
pub const BIT_THRESHOLD_MICROS: u64 = 40;

/// The number of data bits in one frame.
pub const FRAME_BITS: usize = 40;

/// A logic level of the sensor line.
#[derive(Clone, Copy, Debug, PartialEq, Eq, Structural)]
pub enum Level {
    Low,
    High,
}

/// The outcome of one bounded wait for a line transition: how long the
/// line stayed in its previous state, and whether the deadline passed
/// before the transition was seen.
#[derive(Clone, Copy, Debug, PartialEq, Eq, Structural)]
pub struct PulseMeasurement {
    pub elapsed_micros: u64,
    pub timed_out: bool,
}

/// Why a reading attempt was abandoned. A checksum mismatch is not an
/// error: it is a validity flag on a completed reading.
#[derive(Clone, Copy, Debug, PartialEq, Eq, Structural)]
pub enum SensorError {
    /// The sensor did not answer the priming handshake in time.
    PrimingTimeout,
    /// One of the data bits could not be measured in time.
    BitTimeout,
}

/// The line operation the cycle asks the application to perform next.
#[derive(Clone, Copy, Debug, PartialEq, Eq, Structural)]
pub enum LineRequest {
    /// Drive the line high as an output and let it settle.
    Prepare,
    /// Drive the line low and hold it, signalling the sensor to talk.
    Prime,
    /// Drive the line high, stop driving it, and start listening.
    Release,
    /// Poll until the line reads the given level, bounded by
    /// [`PHASE_TIMEOUT_MICROS`], and report a [`PulseMeasurement`].
    AwaitLevel(Level),
    /// Stop listening and drive the line high again: its idle state.
    Restore,
}

/// What the application reports back after serving a request: either a
/// fixed delay has elapsed, or a bounded wait finished with the given
/// measurement.
#[derive(Clone, Copy, Debug, PartialEq, Eq, Structural)]
pub enum CycleEvent {
    DelayElapsed,
    LevelWait(PulseMeasurement),
}

/// The phase of a reading attempt. The first three phases prime the
/// sensor, the two ack phases drain its response-start pulses, and the
/// two bit phases repeat once per data bit.
#[derive(Clone, Copy, Debug, PartialEq, Eq, Structural)]
pub enum CyclePhase {
    /// Letting the line settle high before the attempt.
    Idle,
    /// Holding the line low to request a frame.
    Priming,
    /// Handing the line over to the sensor.
    Releasing,
    /// Waiting for the sensor to pull the line low.
    WaitAck0,
    /// Waiting for the sensor to raise the line again.
    WaitAck1,
    /// Waiting for the high flank of the next data bit.
    WaitBitHigh,
    /// Waiting for the line to drop, timing the high pulse.
    WaitBitLow,
    /// Returning the line to its idle state.
    Restoring,
    /// The attempt is over; its result may be read.
    Finished,
}

/// The mathematical state of one reading attempt: the phase, the bits
/// classified so far, and the failure that ended the attempt, if any.
#[verifier::ext_equal]
pub struct CycleModel {
    pub phase: CyclePhase,
    pub bits: Seq<i32>,
    pub failure: Option<SensorError>,
}

/// The state a fresh reading attempt starts from: idle, no bits, no
/// failure. Every cycle begins here; nothing carries over from earlier
/// cycles.
pub open spec fn cycle_init() -> CycleModel {
    CycleModel { phase: CyclePhase::Idle, bits: Seq::empty(), failure: None }
}

/// The bit a measured high pulse classifies as: `1` at or above
/// [`BIT_THRESHOLD_MICROS`], else `0`.
pub open spec fn classify_spec(high_duration_micros: u64) -> i32 {
    if high_duration_micros >= BIT_THRESHOLD_MICROS {
        1
    } else {
        0
    }
}

/// The line operation owed in each phase; `None` once the attempt is
/// finished.
pub open spec fn request_of(m: CycleModel) -> Option<LineRequest> {
    match m.phase {
        CyclePhase::Idle => Some(LineRequest::Prepare),
        CyclePhase::Priming => Some(LineRequest::Prime),
        CyclePhase::Releasing => Some(LineRequest::Release),
        CyclePhase::WaitAck0 => Some(LineRequest::AwaitLevel(Level::Low)),
        CyclePhase::WaitAck1 => Some(LineRequest::AwaitLevel(Level::High)),
        CyclePhase::WaitBitHigh => Some(LineRequest::AwaitLevel(Level::High)),
        CyclePhase::WaitBitLow => Some(LineRequest::AwaitLevel(Level::Low)),
        CyclePhase::Restoring => Some(LineRequest::Restore),
        CyclePhase::Finished => None,
    }
}

/// The transition relation of a reading attempt. A timed-out wait in
/// an ack phase aborts with [`SensorError::PrimingTimeout`]; in a bit
/// phase it aborts with [`SensorError::BitTimeout`]; either way the
/// cycle still restores the line before finishing. A completed wait
/// for the low flank of a bit classifies the measured high duration
/// and appends the bit. Events that do not answer the phase's request
/// leave the state unchanged.
pub open spec fn cycle_step(m: CycleModel, ev: CycleEvent) -> CycleModel {
    match (m.phase, ev) {
        (CyclePhase::Idle, CycleEvent::DelayElapsed) => CycleModel {
            phase: CyclePhase::Priming,
            bits: m.bits,
            failure: m.failure,
        },
        (CyclePhase::Priming, CycleEvent::DelayElapsed) => CycleModel {
            phase: CyclePhase::Releasing,
            bits: m.bits,
            failure: m.failure,
        },
        (CyclePhase::Releasing, CycleEvent::DelayElapsed) => CycleModel {
            phase: CyclePhase::WaitAck0,
            bits: m.bits,
            failure: m.failure,
        },
        (CyclePhase::WaitAck0, CycleEvent::LevelWait(meas)) => if meas.timed_out {
            CycleModel {
                phase: CyclePhase::Restoring,
                bits: m.bits,
                failure: Some(SensorError::PrimingTimeout),
            }
        } else {
            CycleModel { phase: CyclePhase::WaitAck1, bits: m.bits, failure: m.failure }
        },
        (CyclePhase::WaitAck1, CycleEvent::LevelWait(meas)) => if meas.timed_out {
            CycleModel {
                phase: CyclePhase::Restoring,
                bits: m.bits,
                failure: Some(SensorError::PrimingTimeout),
            }
        } else {
            CycleModel { phase: CyclePhase::WaitBitHigh, bits: m.bits, failure: m.failure }
        },
        (CyclePhase::WaitBitHigh, CycleEvent::LevelWait(meas)) => if meas.timed_out {
            CycleModel {
                phase: CyclePhase::Restoring,
                bits: m.bits,
                failure: Some(SensorError::BitTimeout),
            }
        } else {
            CycleModel { phase: CyclePhase::WaitBitLow, bits: m.bits, failure: m.failure }
        },
        (CyclePhase::WaitBitLow, CycleEvent::LevelWait(meas)) => if meas.timed_out {
            CycleModel {
                phase: CyclePhase::Restoring,
                bits: m.bits,
                failure: Some(SensorError::BitTimeout),
            }
        } else {
            CycleModel {
                phase: if m.bits.len() + 1 == FRAME_BITS {
                    CyclePhase::Restoring
                } else {
                    CyclePhase::WaitBitHigh
                },
                bits: m.bits.push(classify_spec(meas.elapsed_micros)),
                failure: m.failure,
            }
        },
        (CyclePhase::Restoring, CycleEvent::DelayElapsed) => CycleModel {
            phase: CyclePhase::Finished,
            bits: m.bits,
            failure: m.failure,
        },
        _ => m,
    }
}

/// The result a finished attempt carries: the failure that aborted it,
/// or the reading decoded from its 40 bits. Unfinished attempts carry
/// none.
pub open spec fn result_of(m: CycleModel) -> Option<Result<Dht11Reading, SensorError>> {
    if m.phase !is Finished {
        None
    } else {
        match m.failure {
            Some(e) => Some(Err(e)),
            None => Some(Ok(reading_of_bits(m.bits))),
        }
    }
}

/// Well-formedness of a cycle state, kept by every step: bits are
/// binary and at most 40; no bits and no failure before the handshake
/// is done; fewer than 40 bits while bits are still being read; a
/// finished or restoring attempt without failure holds exactly 40
/// bits; and an attempt that failed during the handshake holds no bits
/// at all.
pub open spec fn cycle_inv(m: CycleModel) -> bool {
    &&& m.bits.len() <= FRAME_BITS
    &&& all_bits_binary(m.bits, 0, m.bits.len() as int)
    &&& match m.phase {
        CyclePhase::Idle
        | CyclePhase::Priming
        | CyclePhase::Releasing
        | CyclePhase::WaitAck0
        | CyclePhase::WaitAck1 => m.bits.len() == 0 && m.failure is None,
        CyclePhase::WaitBitHigh | CyclePhase::WaitBitLow => m.bits.len() < FRAME_BITS
            && m.failure is None,
        CyclePhase::Restoring | CyclePhase::Finished => m.failure is None ==> m.bits.len()
            == FRAME_BITS,
    }
    &&& m.failure == Some(SensorError::PrimingTimeout) ==> m.bits.len() == 0
}

/// A fresh attempt is well-formed.
pub proof fn lemma_init_inv()
    ensures
        cycle_inv(cycle_init()),
{
}

/// Every step keeps an attempt well-formed.
pub proof fn lemma_step_preserves_inv(m: CycleModel, ev: CycleEvent)
    requires
        cycle_inv(m),
    ensures
        cycle_inv(cycle_step(m, ev)),
{
    let after = cycle_step(m, ev);
    if m.phase is WaitBitLow && (ev matches CycleEvent::LevelWait(meas) && !meas.timed_out) {
        assert(all_bits_binary(after.bits, 0, after.bits.len() as int)) by {
            assert(forall|i: int|
                0 <= i < after.bits.len() ==> after.bits[i] == 0 || after.bits[i] == 1);
        }
    }
}

/// The state of a reading attempt driven from the fresh state by the
/// given events, earliest first. A cycle's state — and so its outcome —
/// is a function of its own events alone.
pub open spec fn cycle_run(evs: Seq<CycleEvent>) -> CycleModel
    decreases evs.len(),
{
    if evs.len() == 0 {
        cycle_init()
    } else {
        cycle_step(cycle_run(evs.drop_last()), evs.last())
    }
}

/// Unrolling a run by one event.
pub proof fn lemma_run_push(evs: Seq<CycleEvent>, ev: CycleEvent)
    ensures
        cycle_run(evs.push(ev)) == cycle_step(cycle_run(evs), ev),
{
    assert(evs.push(ev).drop_last() =~= evs);
}

/// Every state a reading attempt can reach is well-formed.
pub proof fn lemma_run_inv(evs: Seq<CycleEvent>)
    ensures
        cycle_inv(cycle_run(evs)),
    decreases evs.len(),
{
    if evs.len() == 0 {
        lemma_init_inv();
    } else {
        lemma_run_inv(evs.drop_last());
        lemma_step_preserves_inv(cycle_run(evs.drop_last()), evs.last());
    }
}

/// Law: a timed-out wait in either ack phase aborts the attempt with
/// [`SensorError::PrimingTimeout`] before any bit is measured. The
/// aborted attempt holds no bits, still asks for the line to be
/// restored to idle, and once restored its result is the priming
/// error — never a reading.
pub proof fn lemma_priming_timeout_aborts(m: CycleModel, meas: PulseMeasurement)
    requires
        cycle_inv(m),
        m.phase is WaitAck0 || m.phase is WaitAck1,
        meas.timed_out,
    ensures
        ({
            let aborted = cycle_step(m, CycleEvent::LevelWait(meas));
            let done = cycle_step(aborted, CycleEvent::DelayElapsed);
            &&& aborted.failure == Some(SensorError::PrimingTimeout)
            &&& aborted.bits.len() == 0
            &&& request_of(aborted) == Some(LineRequest::Restore)
            &&& done.phase is Finished
            &&& done.bits.len() == 0
            &&& result_of(done) == Some(
                Err::<Dht11Reading, SensorError>(SensorError::PrimingTimeout),
            )
        }),
{
}

/// Law: a timed-out wait while any data bit is being measured — at
/// whatever bit index — aborts the attempt with
/// [`SensorError::BitTimeout`]. The partial frame is left as it was
/// and never decoded, and the line is still asked to be restored to
/// its idle state before the attempt finishes with the error.
pub proof fn lemma_bit_timeout_aborts(m: CycleModel, meas: PulseMeasurement)
    requires
        cycle_inv(m),
        m.phase is WaitBitHigh || m.phase is WaitBitLow,
        meas.timed_out,
    ensures
        ({
            let aborted = cycle_step(m, CycleEvent::LevelWait(meas));
            let done = cycle_step(aborted, CycleEvent::DelayElapsed);
            &&& aborted.failure == Some(SensorError::BitTimeout)
            &&& aborted.bits == m.bits
            &&& request_of(aborted) == Some(LineRequest::Restore)
            &&& done.phase is Finished
            &&& result_of(done) == Some(Err::<Dht11Reading, SensorError>(SensorError::BitTimeout))
        }),
{
}

/// Law: with no sensor on the line, a cycle runs from the fresh state
/// straight into [`SensorError::PrimingTimeout`] with an empty bit
/// buffer. Every cycle is [`cycle_run`] of its own events alone and
/// starts from [`cycle_init`], so consecutive cycles behave
/// identically: nothing measured in one cycle can influence the next.
pub proof fn lemma_absent_sensor_cycle(meas: PulseMeasurement)
    requires
        meas.timed_out,
    ensures
        ({
            let evs = seq![
                CycleEvent::DelayElapsed,
                CycleEvent::DelayElapsed,
                CycleEvent::DelayElapsed,
                CycleEvent::LevelWait(meas),
                CycleEvent::DelayElapsed,
            ];
            let fin = cycle_run(evs);
            &&& fin.phase is Finished
            &&& fin.bits.len() == 0
            &&& result_of(fin) == Some(
                Err::<Dht11Reading, SensorError>(SensorError::PrimingTimeout),
            )
        }),
{
    let d = CycleEvent::DelayElapsed;
    let w = CycleEvent::LevelWait(meas);
    let e0 = Seq::<CycleEvent>::empty();
    let e1 = e0.push(d);
    let e2 = e1.push(d);
    let e3 = e2.push(d);
    let e4 = e3.push(w);
    let e5 = e4.push(d);
    lemma_run_push(e0, d);
    lemma_run_push(e1, d);
    lemma_run_push(e2, d);
    lemma_run_push(e3, w);
    lemma_run_push(e4, d);
    assert(seq![d, d, d, w, d] =~= e5);
}

/// The state reached from `m` by the given events, earliest first.
pub open spec fn cycle_run_from(m: CycleModel, evs: Seq<CycleEvent>) -> CycleModel
    decreases evs.len(),
{
    if evs.len() == 0 {
        m
    } else {
        cycle_step(cycle_run_from(m, evs.drop_last()), evs.last())
    }
}

/// Unrolling a run from `m` by one event.
pub proof fn lemma_run_from_push(m: CycleModel, evs: Seq<CycleEvent>, ev: CycleEvent)
    ensures
        cycle_run_from(m, evs.push(ev)) == cycle_step(cycle_run_from(m, evs), ev),
{
    assert(evs.push(ev).drop_last() =~= evs);
}

/// Runs compose: serving `evs1` and then `evs2` reaches the same state
/// as serving their concatenation.
pub proof fn lemma_run_from_concat(m: CycleModel, evs1: Seq<CycleEvent>, evs2: Seq<CycleEvent>)
    ensures
        cycle_run_from(m, evs1 + evs2) == cycle_run_from(cycle_run_from(m, evs1), evs2),
    decreases evs2.len(),
{
    if evs2.len() == 0 {
        assert(evs1 + evs2 =~= evs1);
    } else {
        lemma_run_from_concat(m, evs1, evs2.drop_last());
        assert((evs1 + evs2).drop_last() =~= evs1 + evs2.drop_last());
        assert((evs1 + evs2).last() == evs2.last());
    }
}

/// A run from the fresh state is a run from [`cycle_init`].
pub proof fn lemma_run_is_run_from(evs: Seq<CycleEvent>)
    ensures
        cycle_run(evs) == cycle_run_from(cycle_init(), evs),
    decreases evs.len(),
{
    if evs.len() > 0 {
        lemma_run_is_run_from(evs.drop_last());
    }
}

/// The bits that a sequence of completed low-flank waits classifies
/// to, in order.
pub open spec fn classified_bits(pulses: Seq<PulseMeasurement>) -> Seq<i32>
    decreases pulses.len(),
{
    if pulses.len() == 0 {
        Seq::empty()
    } else {
        classified_bits(pulses.drop_last()).push(classify_spec(pulses.last().elapsed_micros))
    }
}

/// Classifying preserves the pulse count.
pub proof fn lemma_classified_bits_len(pulses: Seq<PulseMeasurement>)
    ensures
        classified_bits(pulses).len() == pulses.len(),
    decreases pulses.len(),
{
    if pulses.len() > 0 {
        lemma_classified_bits_len(pulses.drop_last());
    }
}

/// Bit `i` of the classification is the classification of pulse `i`.
pub proof fn lemma_classified_bits_index(pulses: Seq<PulseMeasurement>, i: int)
    requires
        0 <= i < pulses.len(),
    ensures
        classified_bits(pulses).len() == pulses.len(),
        classified_bits(pulses)[i] == classify_spec(pulses[i].elapsed_micros),
    decreases pulses.len(),
{
    lemma_classified_bits_len(pulses);
    if i < pulses.len() - 1 {
        lemma_classified_bits_index(pulses.drop_last(), i);
    }
}

/// True when no measurement in the sequence timed out.
pub open spec fn none_timed_out(pulses: Seq<PulseMeasurement>) -> bool {
    forall|i: int| 0 <= i < pulses.len() ==> !pulses[i].timed_out
}

/// The events of reading one data bit each: the completed wait for the
/// bit's high flank, then the completed wait for its low flank, whose
/// measurement carries the high duration.
pub open spec fn bit_wait_events(
    highs: Seq<PulseMeasurement>,
    lows: Seq<PulseMeasurement>,
) -> Seq<CycleEvent>
    decreases lows.len(),
{
    if lows.len() == 0 {
        Seq::empty()
    } else {
        bit_wait_events(highs.drop_last(), lows.drop_last()).push(
            CycleEvent::LevelWait(highs.last()),
        ).push(CycleEvent::LevelWait(lows.last()))
    }
}

/// Law: while bits remain to be read, a stretch of completed waits
/// appends exactly the classification of its low-flank measurements to
/// the frame, in order, and the attempt stays failure-free; it moves
/// on to restoring the line exactly when the 40th bit arrives.
pub proof fn lemma_bit_loop(
    m: CycleModel,
    highs: Seq<PulseMeasurement>,
    lows: Seq<PulseMeasurement>,
)
    requires
        m.phase is WaitBitHigh,
        m.failure is None,
        highs.len() == lows.len(),
        m.bits.len() < FRAME_BITS,
        m.bits.len() + lows.len() <= FRAME_BITS,
        none_timed_out(highs),
        none_timed_out(lows),
    ensures
        ({
            let fin = cycle_run_from(m, bit_wait_events(highs, lows));
            &&& fin.bits == m.bits + classified_bits(lows)
            &&& fin.failure is None
            &&& fin.phase == if m.bits.len() + lows.len() == FRAME_BITS {
                CyclePhase::Restoring
            } else {
                CyclePhase::WaitBitHigh
            }
        }),
    decreases lows.len(),
{
    lemma_classified_bits_len(lows);
    if lows.len() == 0 {
        assert(m.bits + classified_bits(lows) =~= m.bits);
    } else {
        let hp = highs.drop_last();
        let lp = lows.drop_last();
        assert(none_timed_out(hp)) by {
            assert(forall|i: int| 0 <= i < hp.len() ==> hp[i] == highs[i]);
        }
        assert(none_timed_out(lp)) by {
            assert(forall|i: int| 0 <= i < lp.len() ==> lp[i] == lows[i]);
        }
        lemma_bit_loop(m, hp, lp);
        lemma_classified_bits_len(lp);
        let evsp = bit_wait_events(hp, lp);
        let mid = cycle_run_from(m, evsp);
        lemma_run_from_push(m, evsp, CycleEvent::LevelWait(highs.last()));
        lemma_run_from_push(
            m,
            evsp.push(CycleEvent::LevelWait(highs.last())),
            CycleEvent::LevelWait(lows.last()),
        );
        assert(!highs.last().timed_out);
        assert(!lows.last().timed_out);
        let fin = cycle_run_from(m, bit_wait_events(highs, lows));
        assert(fin.bits =~= m.bits + classified_bits(lows));
    }
}

/// Law: when the sensor answers — both ack waits and all 80 bit waits
/// complete within their deadlines — the cycle is owed success: it
/// finishes without error and its result is exactly the reading
/// decoded from the classification of the 40 measured high durations.
pub proof fn lemma_successful_cycle(
    ack0: PulseMeasurement,
    ack1: PulseMeasurement,
    highs: Seq<PulseMeasurement>,
    lows: Seq<PulseMeasurement>,
)
    requires
        !ack0.timed_out,
        !ack1.timed_out,
        highs.len() == FRAME_BITS,
        lows.len() == FRAME_BITS,
        none_timed_out(highs),
        none_timed_out(lows),
    ensures
        ({
            let evs = seq![
                CycleEvent::DelayElapsed,
                CycleEvent::DelayElapsed,
                CycleEvent::DelayElapsed,
                CycleEvent::LevelWait(ack0),
                CycleEvent::LevelWait(ack1),
            ] + bit_wait_events(highs, lows) + seq![CycleEvent::DelayElapsed];
            result_of(cycle_run(evs)) == Some(
                Ok::<Dht11Reading, SensorError>(reading_of_bits(classified_bits(lows))),
            )
        }),
{
    let d = CycleEvent::DelayElapsed;
    let w0 = CycleEvent::LevelWait(ack0);
    let w1 = CycleEvent::LevelWait(ack1);
    let prefix = seq![d, d, d, w0, w1];
    let middle = bit_wait_events(highs, lows);
    let evs = prefix + middle + seq![d];

    // The handshake leaves a fresh attempt ready for the first bit.
    let e0 = Seq::<CycleEvent>::empty();
    let e1 = e0.push(d);
    let e2 = e1.push(d);
    let e3 = e2.push(d);
    let e4 = e3.push(w0);
    let e5 = e4.push(w1);
    lemma_run_from_push(cycle_init(), e0, d);
    lemma_run_from_push(cycle_init(), e1, d);
    lemma_run_from_push(cycle_init(), e2, d);
    lemma_run_from_push(cycle_init(), e3, w0);
    lemma_run_from_push(cycle_init(), e4, w1);
    assert(prefix =~= e5);
    let ready = cycle_run_from(cycle_init(), prefix);
    assert(ready.phase is WaitBitHigh && ready.bits.len() == 0 && ready.failure is None);

    // The bit loop collects all 40 classified bits.
    lemma_run_from_concat(cycle_init(), prefix, middle);
    lemma_bit_loop(ready, highs, lows);
    lemma_classified_bits_len(lows);
    let full = cycle_run_from(ready, middle);
    assert(full.bits =~= classified_bits(lows));

    // Restoring the line finishes the attempt with the decoded frame.
    lemma_run_from_concat(cycle_init(), prefix + middle, seq![d]);
    lemma_run_from_push(full, Seq::<CycleEvent>::empty(), d);
    assert(seq![d] =~= Seq::<CycleEvent>::empty().push(d));
    lemma_run_is_run_from(evs);
}

/// One reading attempt, driven by the application: serve
/// [`SensorCycle::request`], report what happened through
/// [`SensorCycle::step`], and collect the outcome from
/// [`SensorCycle::result`] once no request is left.
pub struct SensorCycle {
    phase: CyclePhase,
    bits: Vec<i32>,
    failure: Option<SensorError>,
}

impl View for SensorCycle {
    type V = CycleModel;

    closed spec fn view(&self) -> CycleModel {
        CycleModel { phase: self.phase, bits: self.bits@, failure: self.failure }
    }
}

impl SensorCycle {
    /// A cycle value is always a well-formed state: the type carries
    /// [`cycle_inv`] as its invariant.
    #[verifier::type_invariant]
    spec fn wf(self) -> bool {
        cycle_inv(self@)
    }

    /// Start a fresh reading attempt. The new attempt is in the
    /// initial state whatever happened in earlier cycles: no bit
    /// buffer and no failure survives from one attempt to the next.
    pub fn new() -> (c: SensorCycle)
        ensures
            c@ == cycle_init(),
    {
        let c = SensorCycle { phase: CyclePhase::Idle, bits: Vec::new(), failure: None };
        proof {
            assert(c@ =~= cycle_init());
        }
        c
    }

    /// The line operation owed next, or `None` once the attempt is
    /// finished.
    pub fn request(&self) -> (r: Option<LineRequest>)
        ensures
            r == request_of(self@),
    {
        match self.phase {
            CyclePhase::Idle => Some(LineRequest::Prepare),
            CyclePhase::Priming => Some(LineRequest::Prime),
            CyclePhase::Releasing => Some(LineRequest::Release),
            CyclePhase::WaitAck0 => Some(LineRequest::AwaitLevel(Level::Low)),
            CyclePhase::WaitAck1 => Some(LineRequest::AwaitLevel(Level::High)),
            CyclePhase::WaitBitHigh => Some(LineRequest::AwaitLevel(Level::High)),
            CyclePhase::WaitBitLow => Some(LineRequest::AwaitLevel(Level::Low)),
            CyclePhase::Restoring => Some(LineRequest::Restore),
            CyclePhase::Finished => None,
        }
    }

    /// Advance the attempt by one event. The new state is exactly
    /// [`cycle_step`] of the old one; an event that does not answer
    /// the current request changes nothing.
    pub fn step(&mut self, ev: CycleEvent)
        ensures
            final(self)@ == cycle_step(old(self)@, ev),
    {
        proof {
            use_type_invariant(&*self);
        }
        match (self.phase, ev) {
            (CyclePhase::Idle, CycleEvent::DelayElapsed) => {
                self.phase = CyclePhase::Priming;
            },
            (CyclePhase::Priming, CycleEvent::DelayElapsed) => {
                self.phase = CyclePhase::Releasing;
            },
            (CyclePhase::Releasing, CycleEvent::DelayElapsed) => {
                self.phase = CyclePhase::WaitAck0;
            },
            (CyclePhase::WaitAck0, CycleEvent::LevelWait(meas)) => {
                if meas.timed_out {
                    self.abort(SensorError::PrimingTimeout);
                } else {
                    self.phase = CyclePhase::WaitAck1;
                }
            },
            (CyclePhase::WaitAck1, CycleEvent::LevelWait(meas)) => {
                if meas.timed_out {
                    self.abort(SensorError::PrimingTimeout);
                } else {
                    self.phase = CyclePhase::WaitBitHigh;
                }
            },
            (CyclePhase::WaitBitHigh, CycleEvent::LevelWait(meas)) => {
                if meas.timed_out {
                    self.abort(SensorError::BitTimeout);
                } else {
                    self.phase = CyclePhase::WaitBitLow;
                }
            },
            (CyclePhase::WaitBitLow, CycleEvent::LevelWait(meas)) => {
                if meas.timed_out {
                    self.abort(SensorError::BitTimeout);
                } else {
                    let bit = classify_bit(meas.elapsed_micros);
                    let mut bits: Vec<i32> = Vec::new();
                    std::mem::swap(&mut bits, &mut self.bits);
                    bits.push(bit);
                    proof {
                        assert(forall|i: int|
                            0 <= i < bits@.len() ==> bits@[i] == 0 || bits@[i] == 1);
                    }
                    let phase = if bits.len() == FRAME_BITS {
                        CyclePhase::Restoring
                    } else {
                        CyclePhase::WaitBitHigh
                    };
                    *self = SensorCycle { phase, bits, failure: None };
                }
            },
            (CyclePhase::Restoring, CycleEvent::DelayElapsed) => {
                self.phase = CyclePhase::Finished;
            },
            _ => {},
        }
        proof {
            assert(self@ =~= cycle_step(old(self)@, ev));
        }
    }

    /// Abandon the attempt with the given failure and move on to
    /// restoring the line. The bits collected so far are kept as they
    /// were, but a failed attempt never decodes them.
    fn abort(&mut self, failure: SensorError)
        requires
            old(self)@.phase is WaitAck0 || old(self)@.phase is WaitAck1 || old(
                self,
            )@.phase is WaitBitHigh || old(self)@.phase is WaitBitLow,
            failure is PrimingTimeout ==> old(self)@.phase is WaitAck0 || old(
                self,
            )@.phase is WaitAck1,
        ensures
            final(self)@ == (CycleModel {
                phase: CyclePhase::Restoring,
                bits: old(self)@.bits,
                failure: Some(failure),
            }),
    {
        proof {
            use_type_invariant(&*self);
        }
        let mut bits: Vec<i32> = Vec::new();
        std::mem::swap(&mut bits, &mut self.bits);
        *self = SensorCycle { phase: CyclePhase::Restoring, bits, failure: Some(failure) };
    }

    /// The outcome of a finished attempt: the error that aborted it,
    /// or the reading decoded from its 40 bits — which may still be
    /// checksum-invalid and must be checked by the caller. `None`
    /// while the attempt is still running.
    pub fn result(&self) -> (r: Option<Result<Dht11Reading, SensorError>>)
        ensures
            r == result_of(self@),
    {
        proof {
            use_type_invariant(self);
        }
        match self.phase {
            CyclePhase::Finished => match self.failure {
                Some(e) => Some(Err(e)),
                None => Some(Ok(Dht11Reading::from_buffer(self.bits.as_slice()))),
            },
            _ => None,
        }
    }
}

/// Classify one measured high pulse as a bit: `1` at or above
/// [`BIT_THRESHOLD_MICROS`], else `0`. The boundary is inclusive on
/// the high side.
pub fn classify_bit(high_duration_micros: u64) -> (bit: i32)
    ensures
        bit == classify_spec(high_duration_micros),
{
    if high_duration_micros >= BIT_THRESHOLD_MICROS {
        1
    } else {
        0
    }
}

/// The decision one iteration of a bounded wait takes, given the level
/// just read and the time elapsed so far: done without timeout once
/// the goal level shows, done with a timeout once the deadline has
/// passed, otherwise keep polling.
pub open spec fn poll_decision(
    current: Level,
    goal: Level,
    elapsed_micros: u64,
    timeout_micros: u64,
) -> Option<PulseMeasurement> {
    if current == goal {
        Some(PulseMeasurement { elapsed_micros, timed_out: false })
    } else if elapsed_micros > timeout_micros {
        Some(PulseMeasurement { elapsed_micros, timed_out: true })
    } else {
        None
    }
}

/// One iteration of a bounded wait. The application calls this in a
/// tight loop with a fresh level sample and the elapsed time; `None`
/// means keep polling.
pub fn poll_step(current: Level, goal: Level, elapsed_micros: u64, timeout_micros: u64) -> (r:
    Option<PulseMeasurement>)
    ensures
        r == poll_decision(current, goal, elapsed_micros, timeout_micros),
{
    if current == goal {
        Some(PulseMeasurement { elapsed_micros, timed_out: false })
    } else if elapsed_micros > timeout_micros {
        Some(PulseMeasurement { elapsed_micros, timed_out: true })
    } else {
        None
    }
}

/// The fixed delay a request asks for, if any: the settle delay before
/// priming and the priming hold time. Bounded waits instead poll with
/// the [`PHASE_TIMEOUT_MICROS`] deadline.
pub fn request_delay_micros(req: LineRequest) -> (d: Option<u64>)
    ensures
        d == match req {
            LineRequest::Prepare => Some(SETTLE_DELAY_MICROS),
            LineRequest::Prime => Some(PRIME_HOLD_MICROS),
            _ => None::<u64>,
        },
{
    match req {
        LineRequest::Prepare => Some(SETTLE_DELAY_MICROS),
        LineRequest::Prime => Some(PRIME_HOLD_MICROS),
        _ => None,
    }
}

} // verus!
