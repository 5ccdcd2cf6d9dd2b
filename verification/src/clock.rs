//! Time as the samples count it: a clock that ticks once per sample and
//! shows whole microseconds.

use vstd::arithmetic::div_mod::{
    lemma_basic_div, lemma_fundamental_div_mod, lemma_fundamental_div_mod_converse, lemma_small_mod,
};
use vstd::prelude::*;

verus! {

/// Microseconds in one second.
pub const MICROS_PER_SECOND: u64 = 1_000_000;

/// The sample rate that a node assumes until it is told another.
pub const DEFAULT_SAMPLE_RATE: usize = 48_000;

/// A sample-driven clock. It counts the samples that went by and reports the
/// time in whole microseconds, carrying the remainder along so that no
/// rounding error builds up, whatever the sample rate.
#[derive(Clone, Copy, Debug)]
pub struct Clock {
    micros: u64,
    fraction: u64,
    sample_rate: u64,
}

/// What a clock stands for: `micros + fraction / sample_rate` microseconds.
pub struct ClockView {
    pub micros: nat,
    pub fraction: nat,
    pub sample_rate: nat,
}

/// `value`, held down to the largest time that can be counted.
pub open spec fn saturated(value: nat) -> nat {
    if value > u64::MAX {
        u64::MAX as nat
    } else {
        value
    }
}

impl ClockView {
    /// The time can be counted, the rate is not zero, and the remainder is less than one microsecond.
    pub open spec fn wf(self) -> bool {
        &&& self.micros <= u64::MAX
        &&& 0 < self.sample_rate <= u64::MAX
        &&& self.fraction < self.sample_rate
    }

    /// The clock after `samples` more samples.
    pub open spec fn advanced(self, samples: nat) -> ClockView {
        let total = self.fraction + samples * MICROS_PER_SECOND as nat;
        ClockView {
            micros: saturated(self.micros + total / self.sample_rate),
            fraction: total % self.sample_rate,
            sample_rate: self.sample_rate,
        }
    }

    /// The clock at the same microsecond under another sample rate.
    pub open spec fn retimed(self, sample_rate: nat) -> ClockView {
        ClockView { micros: self.micros, fraction: 0, sample_rate }
    }
}

impl View for Clock {
    type V = ClockView;

    closed spec fn view(&self) -> ClockView {
        ClockView {
            micros: self.micros as nat,
            fraction: self.fraction as nat,
            sample_rate: self.sample_rate as nat,
        }
    }
}

impl Clock {
    /// A clock at time zero.
    pub fn new(sample_rate: usize) -> (clock: Clock)
        requires
            sample_rate > 0,
        ensures
            clock@.wf(),
            clock@ == (ClockView { micros: 0, fraction: 0, sample_rate: sample_rate as nat }),
    {
        Clock { micros: 0, fraction: 0, sample_rate: sample_rate as u64 }
    }

    /// Whole microseconds since the clock started.
    pub fn now(&self) -> (micros: u64)
        requires
            self@.wf(),
        ensures
            micros == self@.micros,
    {
        self.micros
    }

    /// Samples per second.
    pub fn sample_rate(&self) -> (rate: u64)
        requires
            self@.wf(),
        ensures
            rate == self@.sample_rate,
    {
        self.sample_rate
    }

    /// Lets `samples` samples go by.
    pub fn advance(&mut self, samples: usize)
        requires
            old(self)@.wf(),
        ensures
            final(self)@.wf(),
            final(self)@ == old(self)@.advanced(samples as nat),
    {
        let total: u128 = self.fraction as u128 + samples as u128 * 1_000_000u128;
        let rate: u128 = self.sample_rate as u128;
        let whole: u128 = total / rate;
        let rest: u128 = total % rate;
        let room: u64 = u64::MAX - self.micros;
        if whole > room as u128 {
            self.micros = u64::MAX;
        } else {
            self.micros = self.micros + whole as u64;
        }
        self.fraction = rest as u64;
    }

    /// Lets one sample go by.
    pub fn tick(&mut self)
        requires
            old(self)@.wf(),
        ensures
            final(self)@.wf(),
            final(self)@ == old(self)@.advanced(1),
    {
        self.advance(1);
    }

    /// Goes on counting at another sample rate. The time keeps its whole
    /// microseconds; the part of a microsecond carried along is dropped.
    pub fn set_sample_rate(&mut self, sample_rate: usize)
        requires
            old(self)@.wf(),
            sample_rate > 0,
        ensures
            final(self)@.wf(),
            final(self)@ == old(self)@.retimed(sample_rate as nat),
    {
        self.fraction = 0;
        self.sample_rate = sample_rate as u64;
    }
}

/// Counting no sample leaves the clock as it is.
pub proof fn lemma_advance_nothing(clock: ClockView)
    requires
        clock.wf(),
    ensures
        clock.advanced(0) == clock,
{
    lemma_basic_div(clock.fraction as int, clock.sample_rate as int);
    lemma_small_mod(clock.fraction, clock.sample_rate);
}

/// Time never runs backwards.
pub proof fn lemma_advance_monotonic(clock: ClockView, samples: nat)
    requires
        clock.wf(),
    ensures
        clock.advanced(samples).wf(),
        clock.advanced(samples).micros >= clock.micros,
{
    let total = clock.fraction + samples * MICROS_PER_SECOND as nat;
    lemma_fundamental_div_mod(total as int, clock.sample_rate as int);
    assert(total / clock.sample_rate >= 0) by (nonlinear_arith)
        requires
            total >= 0,
            clock.sample_rate > 0,
    ;
}

/// Counting `first` samples and then `second` more is counting
/// `first + second` samples at once: the remainder that the clock carries
/// makes the count exact.
pub proof fn lemma_advance_adds(clock: ClockView, first: nat, second: nat)
    requires
        clock.wf(),
    ensures
        clock.advanced(first).advanced(second) == clock.advanced(first + second),
{
    let m = MICROS_PER_SECOND as int;
    let r = clock.sample_rate as int;
    let t1 = clock.fraction as int + first * m;
    let q1 = t1 / r;
    let f1 = t1 % r;
    let t2 = f1 + second * m;
    let q2 = t2 / r;
    let f2 = t2 % r;
    let t = clock.fraction as int + (first + second) * m;
    lemma_fundamental_div_mod(t1, r);
    lemma_fundamental_div_mod(t2, r);
    assert(t == r * (q1 + q2) + f2) by (nonlinear_arith)
        requires
            t1 == r * q1 + f1,
            t2 == r * q2 + f2,
            t2 == f1 + second * m,
            t1 == clock.fraction as int + first * m,
            t == clock.fraction as int + (first + second) * m,
    ;
    lemma_fundamental_div_mod_converse(t, r, q1 + q2, f2);
    assert(q1 >= 0 && q2 >= 0) by (nonlinear_arith)
        requires
            t1 >= 0,
            t2 >= 0,
            r > 0,
            q1 == t1 / r,
            q2 == t2 / r,
    ;
}

/// From time zero the clock shows the exact time, rounded down: after
/// `samples` samples at `sample_rate` it stands at
/// `samples * 1_000_000 / sample_rate` microseconds.
pub proof fn lemma_clock_is_exact(sample_rate: nat, samples: nat)
    requires
        0 < sample_rate <= u64::MAX,
    ensures
        (ClockView { micros: 0, fraction: 0, sample_rate }).advanced(samples).micros == saturated(
            samples * MICROS_PER_SECOND as nat / sample_rate,
        ),
{
}

} // verus!
