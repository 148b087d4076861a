//! The encoder sampler.
//!
//! An interrupt counts the rising edges of the rotation sensor. On a fixed
//! period the sampler takes the count, sets it back to zero, and derives the
//! rate of rotation from the count and the time that has passed. All of it
//! is integer arithmetic; the division rounds towards zero.

use vstd::prelude::*;
use core::sync::atomic::{AtomicU32, Ordering};
use crate::error::ErrorKind;

verus! {

/// What one edge adds to the counter.
pub const EDGE_STEP: u32 = 1;

/// The numerator of the gear and sensor ratio: the counter holds twice the
/// motor revolutions, 74 motor revolutions turn the plate 20 times, and a
/// minute has 60 000 milliseconds.
pub const RATE_NUMERATOR: u64 = 30_000;

/// The denominator of the gear and sensor ratio.
pub const RATE_DENOMINATOR: u64 = 37;

/// The plate revolutions per minute that `count` edges in `elapsed_ms`
/// milliseconds amount to.
pub open spec fn rate(count: nat, elapsed_ms: nat) -> nat
    recommends
        elapsed_ms > 0,
{
    (count * RATE_NUMERATOR as nat) / (RATE_DENOMINATOR as nat * elapsed_ms)
}

/// The same rate, taken in two steps: first by the gear ratio, then by the
/// time.
pub open spec fn rate_in_steps(count: nat, elapsed_ms: nat) -> nat
    recommends
        elapsed_ms > 0,
{
    (count * RATE_NUMERATOR as nat / RATE_DENOMINATOR as nat) / elapsed_ms
}

/// Dividing by the gear ratio and the time at once, or by one after the
/// other, gives the same rate.
pub proof fn lemma_rate_in_steps(count: nat, elapsed_ms: nat)
    requires
        elapsed_ms > 0,
    ensures
        rate(count, elapsed_ms) == rate_in_steps(count, elapsed_ms),
{
    vstd::arithmetic::div_mod::lemma_div_denominator(
        (count * RATE_NUMERATOR as nat) as int,
        RATE_DENOMINATOR as int,
        elapsed_ms as int,
    );
}

/// The edge counter wrapped within one sampling interval.
#[derive(Debug, Clone, Copy, PartialEq, Eq, Structural)]
pub struct CounterOverflow;

impl CounterOverflow {
    /// The kind of this failure.
    pub fn kind(&self) -> (kind: ErrorKind)
        ensures
            kind == ErrorKind::CounterOverflow,
    {
        ErrorKind::CounterOverflow
    }
}

/// What the counter holds after an edge, given what it held before: one step
/// more, or the report that it wrapped.
pub open spec fn after_edge(previous: u32) -> Result<u32, CounterOverflow> {
    if previous <= u32::MAX - EDGE_STEP {
        Ok((previous + EDGE_STEP) as u32)
    } else {
        Err(CounterOverflow)
    }
}

/// Judges one increment of the counter by the value the counter held before
/// it: the new count, or the report that the counter wrapped.
pub fn edge_counted(previous: u32) -> (counted: Result<u32, CounterOverflow>)
    ensures
        counted == after_edge(previous),
{
    match previous.checked_add(EDGE_STEP) {
        Some(edges) => Ok(edges),
        None => Err(CounterOverflow),
    }
}

/// What the interrupt does: a rising edge adds one step to the counter. The
/// counter is shared with the sampler, so the addition is atomic; its order
/// against other memory does not matter. A counter that wraps is reported.
pub fn interrupt_handler(encoder_rising_edge: bool, motor_revolutions_doubled: &AtomicU32) -> (counted:
    Result<(), CounterOverflow>)
    ensures
        !encoder_rising_edge ==> counted is Ok,
{
    if !encoder_rising_edge {
        return Ok(());
    }
    let previous = motor_revolutions_doubled.fetch_add(EDGE_STEP, Ordering::Relaxed);
    match edge_counted(previous) {
        Ok(_) => Ok(()),
        Err(overflow) => Err(overflow),
    }
}

/// The plate revolutions per minute, or `None` where no time has passed.
pub fn read_rpm(motor_revolutions_doubled: u32, time_ms: u32) -> (rpm: Option<u64>)
    ensures
        rpm == if time_ms == 0 {
            None
        } else {
            Some(rate(motor_revolutions_doubled as nat, time_ms as nat) as u64)
        },
        time_ms > 0 ==> rate(motor_revolutions_doubled as nat, time_ms as nat) <= u64::MAX,
        time_ms > 0 ==> rate(motor_revolutions_doubled as nat, time_ms as nat) == rate_in_steps(
            motor_revolutions_doubled as nat,
            time_ms as nat,
        ),
{
    if time_ms == 0 {
        return None;
    }
    proof {
        lemma_rate_in_steps(motor_revolutions_doubled as nat, time_ms as nat);
    }
    let scaled: u64 = motor_revolutions_doubled as u64 * RATE_NUMERATOR;
    let span: u64 = RATE_DENOMINATOR * time_ms as u64;
    proof {
        assert((motor_revolutions_doubled as nat * RATE_NUMERATOR as nat) == scaled);
        assert((RATE_DENOMINATOR as nat * time_ms as nat) == span);
    }
    Some(scaled / span)
}

/// Without edges the rate is zero, whatever time has passed.
pub proof fn law_idle_rate(elapsed_ms: nat)
    requires
        elapsed_ms > 0,
    ensures
        rate(0, elapsed_ms) == 0,
{
    lemma_rate_in_steps(0, elapsed_ms);
    assert(0int / elapsed_ms as int == 0) by (nonlinear_arith)
        requires
            elapsed_ms > 0,
    ;
}

/// One measurement.
#[derive(Debug, Clone, Copy, PartialEq, Eq, Structural)]
pub struct RateSample {
    /// The edges counted since the last sample.
    pub count: u32,
    /// The milliseconds since the last sample.
    pub elapsed_ms: u64,
    /// The plate revolutions per minute: `None` where no time has passed or
    /// the interval does not fit 32 bits.
    pub rpm: Option<u64>,
}

impl RateSample {
    /// The rate that the count and the time of this sample amount to, taken
    /// in two steps.
    pub open spec fn derived(self) -> nat {
        rate_in_steps(self.count as nat, self.elapsed_ms as nat)
    }
}

/// The sample that `count` edges give at `now_ms`, when the last sample was
/// taken at `previous_ms`. A clock that reads earlier than the last sample
/// counts as no time passed.
pub open spec fn sample_at(previous_ms: u64, now_ms: u64, count: u32) -> RateSample {
    let elapsed_ms: u64 = if now_ms >= previous_ms {
        (now_ms - previous_ms) as u64
    } else {
        0
    };
    RateSample {
        count,
        elapsed_ms,
        rpm: if 0 < elapsed_ms <= u32::MAX {
            Some(rate(count as nat, elapsed_ms as nat) as u64)
        } else {
            None
        },
    }
}

/// The periodic sampler.
#[derive(Debug, Clone, Copy, PartialEq, Eq, Structural)]
pub struct EncoderSampler {
    previous_ms: u64,
}

impl EncoderSampler {
    /// The time of the last sample, in milliseconds.
    pub closed spec fn previous(&self) -> u64 {
        self.previous_ms
    }

    /// A sampler that starts to measure at `now_ms`.
    pub fn new(now_ms: u64) -> (sampler: EncoderSampler)
        ensures
            sampler.previous() == now_ms,
    {
        EncoderSampler { previous_ms: now_ms }
    }

    /// Derives the sample of `count` edges at `now_ms`, and advances the time
    /// of the last sample by the interval measured, whether or not an edge
    /// was counted.
    pub fn sample(&mut self, now_ms: u64, count: u32) -> (sample: RateSample)
        ensures
            sample == sample_at(old(self).previous(), now_ms, count),
            final(self).previous() == old(self).previous() + sample.elapsed_ms,
            sample.rpm matches Some(rpm) ==> rpm == sample.derived(),
    {
        let elapsed_ms: u64 = if now_ms >= self.previous_ms {
            now_ms - self.previous_ms
        } else {
            0
        };
        let rpm = if elapsed_ms <= u32::MAX as u64 {
            read_rpm(count, elapsed_ms as u32)
        } else {
            None
        };
        self.previous_ms = self.previous_ms + elapsed_ms;
        RateSample { count, elapsed_ms, rpm }
    }

    /// Takes one sample at `now_ms`: reads the counter and sets it back to
    /// zero in one atomic step, then derives the sample of what it held.
    pub fn tick(&mut self, now_ms: u64, motor_revolutions_doubled: &AtomicU32) -> (sample:
        RateSample)
        ensures
            sample == sample_at(old(self).previous(), now_ms, sample.count),
            final(self).previous() == old(self).previous() + sample.elapsed_ms,
            sample.rpm matches Some(rpm) ==> rpm == sample.derived(),
    {
        let count = motor_revolutions_doubled.swap(0, Ordering::Relaxed);
        self.sample(now_ms, count)
    }
}

} // verus!
