//! The voice of an oscillator: its queue of inputs, the state of its note
//! and its envelope, and the frequencies of note names.

use crate::clock::{
    lemma_advance_adds, lemma_advance_monotonic, lemma_advance_nothing, Clock, ClockView,
    DEFAULT_SAMPLE_RATE,
};
use crate::effects::OscillatorChange;
use crate::sound::{SAMPLES_PER_GRAIN, UNITY};
use vstd::arithmetic::div_mod::{lemma_div_is_ordered, lemma_div_multiples_vanish};
use vstd::arithmetic::mul::lemma_mul_inequality;
use vstd::prelude::*;

pub mod input;
pub mod noise;

pub use input::{
    OscillatorInput, OscillatorInputAtTime, OscillatorInputIterator, OscillatorInputIteratorBuilder,
};

verus! {

use input::InputQueue;

/// Attack-decay-sustain-release envelope settings for an oscillator.
#[derive(Clone, Copy, Debug, PartialEq, Eq, Structural)]
pub struct ADSR {
    /// In microseconds.
    pub attack_duration: u64,
    /// In microseconds.
    pub decay_duration: u64,
    /// In millionths of full scale.
    pub sustain_amplitude_multiplier: u32,
    /// In microseconds.
    pub release_duration: u64,
}

impl ADSR {
    /// The sustain level does not exceed full scale.
    pub open spec fn wf(self) -> bool {
        self.sustain_amplitude_multiplier <= UNITY
    }

    /// An envelope with durations in microseconds and a sustain level in millionths of full scale.
    pub fn new(
        attack_duration: u64,
        decay_duration: u64,
        sustain_amplitude_multiplier: u32,
        release_duration: u64,
    ) -> (adsr: Self)
        ensures
            adsr == (ADSR {
                attack_duration,
                decay_duration,
                sustain_amplitude_multiplier,
                release_duration,
            }),
    {
        ADSR { attack_duration, decay_duration, sustain_amplitude_multiplier, release_duration }
    }

    /// A tenth of a second each for attack, decay and release, and a sustain at
    /// full scale.
    pub fn standard() -> (adsr: Self)
        ensures
            adsr.wf(),
            adsr == (ADSR {
                attack_duration: 100_000,
                decay_duration: 100_000,
                sustain_amplitude_multiplier: UNITY,
                release_duration: 100_000,
            }),
    {
        ADSR::new(100_000, 100_000, UNITY, 100_000)
    }
}

/// Where a note stands: not played, played since some time, or released since some time.
#[derive(Clone, Copy, Debug, PartialEq, Eq, Structural)]
pub enum OscillatorState {
    Idle,
    Play {
        /// Microseconds since the start of the oscillator.
        started_at: u64,
    },
    Release {
        /// Microseconds since the start of the oscillator.
        started_at: u64,
    },
}

/// What the engine has to do for one sample of an oscillator.
#[derive(Clone, Copy, Debug, PartialEq, Eq, Structural)]
pub struct SampleCue {
    /// Whether the waveform sounds; where it does not, the sample is silence
    /// and the waveform stands still.
    pub audible: bool,
    /// The frequency, in millihertz, that a key press on this sample sets the
    /// waveform to before it is asked for its value.
    pub frequency: Option<u32>,
}

/// What the engine has to do for one grain of an oscillator.
pub struct GrainCue {
    /// One cue for each sample of the grain, in order.
    pub samples: Vec<SampleCue>,
    /// The level of the envelope for this grain, in millionths of full scale;
    /// it applies to the grain after the effects have run.
    pub gain: u32,
}

/// `level * part / whole`, rounded down: the level reached when `part` of a
/// linear ramp of length `whole` has gone by.
pub open spec fn ramp(level: nat, part: nat, whole: nat) -> nat
    recommends
        whole > 0,
{
    level * part / whole
}

/// What an oscillator stands for.
pub struct Voice {
    pub inputs: InputQueue,
    pub state: OscillatorState,
    pub clock: ClockView,
    pub adsr: ADSR,
    /// The frequency, in millihertz, that was last written to the waveform,
    /// by a key press or by an effect.
    pub frequency: Option<u32>,
}

impl Voice {
    /// The clock is sound and the sustain level does not exceed full scale.
    pub open spec fn wf(self) -> bool {
        &&& self.clock.wf()
        &&& self.adsr.wf()
    }

    /// Microseconds since the start of the oscillator.
    pub open spec fn now(self) -> u64 {
        self.clock.micros as u64
    }

    /// Microseconds since `started_at`.
    pub open spec fn elapsed_since(self, started_at: u64) -> nat {
        if self.now() >= started_at {
            (self.now() - started_at) as nat
        } else {
            0
        }
    }

    /// The voice after a change that an effect asked for.
    pub open spec fn with_change(self, change: OscillatorChange) -> Voice {
        match change {
            OscillatorChange::Frequency(frequency) => Voice { frequency: Some(frequency), ..self },
        }
    }

    /// The voice after the changes that a chain of effects asked for, taken
    /// in the order in which they were asked.
    pub open spec fn with_changes(self, changes: Seq<OscillatorChange>) -> Voice
        decreases changes.len(),
    {
        if changes.len() == 0 {
            self
        } else {
            self.with_changes(changes.drop_last()).with_change(changes.last())
        }
    }

    /// The voice after an input: a press starts the note now, and sets the
    /// frequency if it brings one; a release starts the release now.
    pub open spec fn with_input(self, input: OscillatorInput) -> Voice {
        match input {
            OscillatorInput::Press(frequency) => Voice {
                frequency: Some(frequency),
                state: OscillatorState::Play { started_at: self.now() },
                ..self
            },
            OscillatorInput::PressSame => Voice {
                state: OscillatorState::Play { started_at: self.now() },
                ..self
            },
            OscillatorInput::Release => Voice {
                state: OscillatorState::Release { started_at: self.now() },
                ..self
            },
        }
    }

    /// The voice after its queue was asked for an input that has come due.
    pub open spec fn with_inputs_updated(self) -> Voice {
        let rest = Voice { inputs: self.inputs.after(self.now()), ..self };
        match self.inputs.sent(self.now()) {
            Some(sent) => rest.with_input(sent.input),
            None => rest,
        }
    }

    /// What the next sample asks of the engine.
    pub open spec fn cue(self) -> SampleCue {
        SampleCue {
            audible: !(self.with_inputs_updated().state is Idle),
            frequency: match self.inputs.sent(self.now()) {
                Some(sent) => match sent.input {
                    OscillatorInput::Press(frequency) => Some(frequency),
                    _ => None,
                },
                None => None,
            },
        }
    }

    /// The voice one sample later: the queue is asked first, then the clock
    /// moves on.
    pub open spec fn after_sample(self) -> Voice {
        let updated = self.with_inputs_updated();
        Voice { clock: updated.clock.advanced(1), ..updated }
    }

    /// The voice `count` samples later.
    pub open spec fn after_samples(self, count: nat) -> Voice
        decreases count,
    {
        if count == 0 {
            self
        } else {
            self.after_samples((count - 1) as nat).after_sample()
        }
    }

    /// The cues of the next `count` samples.
    pub open spec fn cues(self, count: nat) -> Seq<SampleCue> {
        Seq::new(count, |i: int| self.after_samples(i as nat).cue())
    }

    /// The level of the envelope, in millionths of full scale.
    ///
    /// While a note plays the level rises linearly from nothing to full scale
    /// over the attack, falls linearly to the sustain level over the decay,
    /// and stays there. After the release it falls linearly from the sustain
    /// level to nothing over the release time.
    pub open spec fn envelope_gain(self) -> nat {
        let sustain = self.adsr.sustain_amplitude_multiplier as nat;
        match self.state {
            OscillatorState::Idle => UNITY as nat,
            OscillatorState::Play { started_at } => {
                let elapsed = self.elapsed_since(started_at);
                let attack = self.adsr.attack_duration as nat;
                let decay = self.adsr.decay_duration as nat;
                if elapsed < attack {
                    ramp(UNITY as nat, elapsed, attack)
                } else if elapsed < attack + decay {
                    (UNITY - ramp((UNITY - sustain) as nat, (elapsed - attack) as nat, decay)) as nat
                } else {
                    sustain
                }
            },
            OscillatorState::Release { started_at } => {
                if self.release_is_over() {
                    0
                } else {
                    let release = self.adsr.release_duration as nat;
                    ramp(sustain, (release - self.elapsed_since(started_at)) as nat, release)
                }
            },
        }
    }

    /// Whether the voice is in its release and the release time has gone by.
    pub open spec fn release_is_over(self) -> bool {
        match self.state {
            OscillatorState::Release { started_at } => {
                self.elapsed_since(started_at) > self.adsr.release_duration
                    || self.adsr.release_duration == 0
            },
            _ => false,
        }
    }

    /// The voice after the envelope was applied: a release that is over
    /// leaves the voice idle.
    pub open spec fn after_envelope(self) -> Voice {
        if self.release_is_over() {
            Voice { state: OscillatorState::Idle, ..self }
        } else {
            self
        }
    }

    /// The voice one grain later.
    pub open spec fn after_grain(self) -> Voice {
        self.after_samples(SAMPLES_PER_GRAIN as nat).after_envelope()
    }

    /// The voice `count` grains later.
    pub open spec fn after_grains(self, count: nat) -> Voice
        decreases count,
    {
        if count == 0 {
            self
        } else {
            self.after_grains((count - 1) as nat).after_grain()
        }
    }
}

/// A part of a level is no more than the level.
pub proof fn lemma_ramp_bounded(level: nat, part: nat, whole: nat)
    requires
        part <= whole,
        whole > 0,
    ensures
        ramp(level, part, whole) <= level,
{
    lemma_mul_inequality(part as int, whole as int, level as int);
    assert(level * part == part * level) by (nonlinear_arith);
    assert(whole * level == level * whole) by (nonlinear_arith);
    lemma_div_is_ordered((level * part) as int, (level * whole) as int, whole as int);
    lemma_div_multiples_vanish(level as int, whole as int);
    assert(whole * level / whole == level);
}

/// A ramp starts at nothing, ends at its level and never falls on the way.
pub proof fn lemma_ramp_rises(level: nat, earlier: nat, later: nat, whole: nat)
    requires
        earlier <= later <= whole,
        whole > 0,
    ensures
        ramp(level, 0, whole) == 0,
        ramp(level, whole, whole) == level,
        ramp(level, earlier, whole) <= ramp(level, later, whole),
{
    assert(level * 0 == 0) by (nonlinear_arith);
    assert(level * whole == whole * level) by (nonlinear_arith);
    lemma_div_multiples_vanish(level as int, whole as int);
    assert(level * earlier <= level * later) by (nonlinear_arith)
        requires
            earlier <= later,
    ;
    lemma_div_is_ordered((level * earlier) as int, (level * later) as int, whole as int);
}

/// The envelope of a note that plays: nothing at the press, full scale when
/// the attack is over, the sustain level from the end of the decay on.
pub proof fn lemma_envelope_of_a_played_note(voice: Voice, started_at: u64)
    requires
        voice.wf(),
        voice.state == (OscillatorState::Play { started_at }),
    ensures
        voice.elapsed_since(started_at) == 0 && voice.adsr.attack_duration > 0
            ==> voice.envelope_gain() == 0,
        voice.elapsed_since(started_at) == voice.adsr.attack_duration && voice.adsr.decay_duration
            > 0 ==> voice.envelope_gain() == UNITY,
        voice.elapsed_since(started_at) >= voice.adsr.attack_duration + voice.adsr.decay_duration
            ==> voice.envelope_gain() == voice.adsr.sustain_amplitude_multiplier,
        voice.envelope_gain() >= voice.adsr.sustain_amplitude_multiplier || voice.elapsed_since(
            started_at,
        ) < voice.adsr.attack_duration,
{
    let attack = voice.adsr.attack_duration as nat;
    let decay = voice.adsr.decay_duration as nat;
    let sustain = voice.adsr.sustain_amplitude_multiplier as nat;
    let elapsed = voice.elapsed_since(started_at);
    if attack > 0 {
        lemma_ramp_rises(UNITY as nat, 0, 0, attack);
    }
    if decay > 0 {
        lemma_ramp_rises((UNITY - sustain) as nat, 0, 0, decay);
    }
    if attack <= elapsed < attack + decay {
        lemma_ramp_bounded((UNITY - sustain) as nat, (elapsed - attack) as nat, decay);
    }
}

/// The envelope of a released note: the sustain level at the release, nothing
/// when the release time is over, and never rising in between.
pub proof fn lemma_envelope_of_a_released_note(earlier: Voice, later: Voice, started_at: u64)
    requires
        earlier.wf(),
        later.wf(),
        earlier.state == (OscillatorState::Release { started_at }),
        later.state == earlier.state,
        later.adsr == earlier.adsr,
        earlier.elapsed_since(started_at) <= later.elapsed_since(started_at),
    ensures
        later.envelope_gain() <= earlier.envelope_gain(),
        earlier.elapsed_since(started_at) == 0 && earlier.adsr.release_duration > 0
            ==> earlier.envelope_gain() == earlier.adsr.sustain_amplitude_multiplier,
        later.elapsed_since(started_at) >= later.adsr.release_duration ==> later.envelope_gain()
            == 0,
{
    let release = earlier.adsr.release_duration as nat;
    let sustain = earlier.adsr.sustain_amplitude_multiplier as nat;
    if release > 0 {
        lemma_ramp_rises(sustain, 0, 0, release);
        if !later.release_is_over() {
            lemma_ramp_rises(
                sustain,
                (release - later.elapsed_since(started_at)) as nat,
                (release - earlier.elapsed_since(started_at)) as nat,
                release,
            );
        }
    }
}

proof fn lemma_product_fits(level: nat, part: nat)
    requires
        level <= u32::MAX,
        part <= u64::MAX,
    ensures
        level * part <= u128::MAX,
{
    assert(level * part <= 0xFFFF_FFFF * 0xFFFF_FFFF_FFFF_FFFF) by (nonlinear_arith)
        requires
            level <= 0xFFFF_FFFF,
            part <= 0xFFFF_FFFF_FFFF_FFFF,
    ;
}

/// The envelope never exceeds full scale.
pub proof fn lemma_envelope_bounded(voice: Voice)
    requires
        voice.wf(),
    ensures
        voice.envelope_gain() <= UNITY,
{
    let sustain = voice.adsr.sustain_amplitude_multiplier as nat;
    match voice.state {
        OscillatorState::Idle => {},
        OscillatorState::Play { started_at } => {
            let elapsed = voice.elapsed_since(started_at);
            let attack = voice.adsr.attack_duration as nat;
            let decay = voice.adsr.decay_duration as nat;
            if elapsed < attack {
                lemma_ramp_bounded(UNITY as nat, elapsed, attack);
            } else if elapsed < attack + decay {
                lemma_ramp_bounded((UNITY - sustain) as nat, (elapsed - attack) as nat, decay);
            }
        },
        OscillatorState::Release { started_at } => {
            if !voice.release_is_over() {
                let release = voice.adsr.release_duration as nat;
                lemma_ramp_bounded(
                    sustain,
                    (release - voice.elapsed_since(started_at)) as nat,
                    release,
                );
            }
        },
    }
}

/// The cue of a sample on which nothing sounds and nothing changes.
pub open spec fn silent_cue() -> SampleCue {
    SampleCue { audible: false, frequency: None }
}

/// While no input is left to send, samples only move the clock.
pub proof fn lemma_samples_without_inputs(voice: Voice, count: nat)
    requires
        voice.wf(),
        voice.inputs.exhausted(),
    ensures
        voice.after_samples(count) == (Voice { clock: voice.clock.advanced(count), ..voice }),
        voice.after_samples(count).wf(),
    decreases count,
{
    if count == 0 {
        lemma_advance_nothing(voice.clock);
    } else {
        let before = (count - 1) as nat;
        lemma_samples_without_inputs(voice, before);
        lemma_advance_adds(voice.clock, before, 1);
        lemma_advance_monotonic(voice.clock, count);
    }
}

/// An idle oscillator with no input left to send stays idle, and every
/// sample of every grain from then on is silence.
pub proof fn lemma_idle_stays_silent(voice: Voice, grains: nat)
    requires
        voice.wf(),
        voice.inputs.exhausted(),
        voice.state is Idle,
    ensures
        voice.after_grains(grains).wf(),
        voice.after_grains(grains).inputs.exhausted(),
        voice.after_grains(grains).state is Idle,
        voice.after_grains(grains).cues(SAMPLES_PER_GRAIN as nat) == Seq::new(
            SAMPLES_PER_GRAIN as nat,
            |i: int| silent_cue(),
        ),
    decreases grains,
{
    if grains > 0 {
        let before = voice.after_grains((grains - 1) as nat);
        lemma_idle_stays_silent(voice, (grains - 1) as nat);
        lemma_samples_without_inputs(before, SAMPLES_PER_GRAIN as nat);
    }
    let then = voice.after_grains(grains);
    assert forall|i: int| 0 <= i < SAMPLES_PER_GRAIN implies #[trigger] then.cues(
        SAMPLES_PER_GRAIN as nat,
    )[i] == silent_cue() by {
        lemma_samples_without_inputs(then, i as nat);
    }
    assert(then.cues(SAMPLES_PER_GRAIN as nat) =~= Seq::new(
        SAMPLES_PER_GRAIN as nat,
        |i: int| silent_cue(),
    ));
}

/// A released oscillator with no input left to send is idle as soon as a
/// grain ends later than the release time after the release; until then it
/// stays in its release.
pub proof fn lemma_release_runs_out(voice: Voice, started_at: u64, grains: nat)
    requires
        voice.wf(),
        voice.inputs.exhausted(),
        voice.state == (OscillatorState::Release { started_at }),
        grains > 0,
    ensures
        voice.after_grains(grains).wf(),
        voice.after_grains(grains).inputs.exhausted(),
        voice.after_grains(grains).clock == voice.clock.advanced(grains * SAMPLES_PER_GRAIN as nat),
        voice.after_grains(grains).adsr == voice.adsr,
        voice.after_grains(grains).state is Idle || {
            &&& voice.after_grains(grains).state == voice.state
            &&& voice.after_grains(grains).elapsed_since(started_at)
                <= voice.adsr.release_duration
        },
    decreases grains,
{
    let before = voice.after_grains((grains - 1) as nat);
    if grains > 1 {
        lemma_release_runs_out(voice, started_at, (grains - 1) as nat);
    } else {
        assert(before == voice);
        lemma_advance_nothing(voice.clock);
    }
    lemma_samples_without_inputs(before, SAMPLES_PER_GRAIN as nat);
    lemma_advance_adds(
        voice.clock,
        (grains - 1) as nat * SAMPLES_PER_GRAIN as nat,
        SAMPLES_PER_GRAIN as nat,
    );
    assert((grains - 1) as nat * SAMPLES_PER_GRAIN as nat + SAMPLES_PER_GRAIN as nat == grains
        * SAMPLES_PER_GRAIN as nat) by (nonlinear_arith)
        requires
            grains > 0,
    ;
}

/// After a release, once the release time has gone by at the end of a grain,
/// the oscillator is idle and stays so, and every sample of every later
/// grain is silence.
pub proof fn lemma_silence_after_release(voice: Voice, started_at: u64, grains: nat, later: nat)
    requires
        voice.wf(),
        voice.inputs.exhausted(),
        voice.state == (OscillatorState::Release { started_at }),
        grains > 0,
        voice.after_grains(grains).elapsed_since(started_at) > voice.adsr.release_duration,
    ensures
        voice.after_grains(grains + later).state is Idle,
        voice.after_grains(grains + later).cues(SAMPLES_PER_GRAIN as nat) == Seq::new(
            SAMPLES_PER_GRAIN as nat,
            |i: int| silent_cue(),
        ),
{
    lemma_release_runs_out(voice, started_at, grains);
    lemma_grains_add(voice, grains, later);
    lemma_idle_stays_silent(voice.after_grains(grains), later);
}

/// Going on for `first` grains and then for `second` more is going on for
/// `first + second` grains.
pub proof fn lemma_grains_add(voice: Voice, first: nat, second: nat)
    ensures
        voice.after_grains(first).after_grains(second) == voice.after_grains(first + second),
    decreases second,
{
    if second > 0 {
        lemma_grains_add(voice, first, (second - 1) as nat);
    }
}

/// A voice: the part of an oscillator that decides when the waveform sounds,
/// at which frequency and how loud. It owns the queue of inputs, the state of
/// the note, the clock and the envelope; the waveform itself is the
/// engine's.
pub struct Oscillator {
    inputs: OscillatorInputIterator,
    state: OscillatorState,
    clock: Clock,
    adsr: ADSR,
    frequency: Option<u32>,
}

impl View for Oscillator {
    type V = Voice;

    closed spec fn view(&self) -> Voice {
        Voice {
            inputs: self.inputs@,
            state: self.state,
            clock: self.clock@,
            adsr: self.adsr,
            frequency: self.frequency,
        }
    }
}

impl Clone for Oscillator {
    fn clone(&self) -> (copy: Self)
        ensures
            copy@ == self@,
    {
        Oscillator {
            inputs: self.inputs.clone(),
            state: self.state,
            clock: self.clock,
            adsr: self.adsr,
            frequency: self.frequency,
        }
    }
}

impl Oscillator {
    /// The oscillator stands for a voice that is well formed.
    pub open spec fn wf(&self) -> bool {
        self@.wf()
    }

    /// Takes over a change that an effect asked for.
    pub fn apply_change(&mut self, change: OscillatorChange)
        ensures
            final(self)@ == old(self)@.with_change(change),
    {
        match change {
            OscillatorChange::Frequency(frequency) => {
                self.frequency = Some(frequency);
            },
        }
    }

    /// Takes over the changes that the effects of one grain asked for, in
    /// their order. This is for the time after the whole chain has run, so
    /// that every effect of a grain meets the oscillator as the grain before
    /// left it.
    pub fn apply_changes(&mut self, changes: &Vec<OscillatorChange>)
        ensures
            final(self)@ == old(self)@.with_changes(changes@),
    {
        let mut done: usize = 0;
        while done < changes.len()
            invariant
                done <= changes@.len(),
                self@ == old(self)@.with_changes(changes@.take(done as int)),
            decreases changes@.len() - done,
        {
            self.apply_change(changes[done]);
            done = done + 1;
            assert(changes@.take(done as int).drop_last() =~= changes@.take(done as int - 1));
        }
        assert(changes@.take(changes@.len() as int) =~= changes@);
    }

    fn handle_input(&mut self, input: OscillatorInput)
        requires
            old(self).wf(),
        ensures
            final(self)@ == old(self)@.with_input(input),
    {
        let now: u64 = self.clock.now();
        match input {
            OscillatorInput::Press(frequency) => {
                self.apply_change(OscillatorChange::Frequency(frequency));
                self.state = OscillatorState::Play { started_at: now };
            },
            OscillatorInput::Release => {
                self.state = OscillatorState::Release { started_at: now };
            },
            OscillatorInput::PressSame => {
                self.state = OscillatorState::Play { started_at: now };
            },
        }
    }

    fn update_inputs(&mut self) -> (sent: Option<OscillatorInputAtTime>)
        requires
            old(self).wf(),
        ensures
            final(self)@ == old(self)@.with_inputs_updated(),
            sent == old(self)@.inputs.sent(old(self)@.now()),
    {
        let now: u64 = self.clock.now();
        let sent: Option<OscillatorInputAtTime> = self.inputs.next(now);
        if let Some(input) = sent {
            self.handle_input(input.input);
        }
        sent
    }

    /// Gives the oscillator another envelope.
    pub fn set_adsr(&mut self, adsr: ADSR)
        requires
            old(self).wf(),
            adsr.wf(),
        ensures
            final(self).wf(),
            final(self)@ == (Voice { adsr, ..old(self)@ }),
    {
        self.adsr = adsr;
    }

    /// The state of the note.
    pub fn state(&self) -> (state: OscillatorState)
        ensures
            state == self@.state,
    {
        self.state
    }

    /// The frequency, in millihertz, that was last written to the waveform.
    pub fn frequency(&self) -> (frequency: Option<u32>)
        ensures
            frequency == self@.frequency,
    {
        self.frequency
    }

    /// Microseconds since the start of the oscillator.
    pub fn micros_since_start(&self) -> (micros: u64)
        requires
            self.wf(),
        ensures
            micros == self@.now(),
    {
        self.clock.now()
    }

    /// An oscillator has no beat of its own.
    pub fn secs_per_beat(&self) -> (beat: Option<u64>)
        ensures
            beat.is_none(),
    {
        None
    }

    /// Goes on at another sample rate.
    pub fn update_sample_rate(&mut self, sample_rate: usize)
        requires
            old(self).wf(),
            sample_rate > 0,
        ensures
            final(self).wf(),
            final(self)@ == (Voice {
                clock: old(self)@.clock.retimed(sample_rate as nat),
                ..old(self)@
            }),
    {
        self.clock.set_sample_rate(sample_rate);
    }

    /// Moves on by one sample: sends the input that has come due, if any,
    /// lets the clock tick, and says what the sample asks of the waveform.
    pub fn next_sample(&mut self) -> (cue: SampleCue)
        requires
            old(self).wf(),
        ensures
            final(self).wf(),
            cue == old(self)@.cue(),
            final(self)@ == old(self)@.after_sample(),
    {
        let sent: Option<OscillatorInputAtTime> = self.update_inputs();
        self.clock.tick();
        let frequency: Option<u32> = match sent {
            Some(input) => match input.input {
                OscillatorInput::Press(frequency) => Some(frequency),
                _ => None,
            },
            None => None,
        };
        let audible: bool = match self.state {
            OscillatorState::Idle => false,
            _ => true,
        };
        SampleCue { audible, frequency }
    }

    /// The level of the envelope at this moment; a release that is over
    /// leaves the oscillator idle.
    fn apply_envelope(&mut self) -> (gain: u32)
        requires
            old(self).wf(),
        ensures
            final(self).wf(),
            gain == old(self)@.envelope_gain(),
            final(self)@ == old(self)@.after_envelope(),
    {
        proof {
            lemma_envelope_bounded(self@);
        }
        let now: u64 = self.clock.now();
        let sustain: u32 = self.adsr.sustain_amplitude_multiplier;
        match self.state {
            OscillatorState::Idle => UNITY,
            OscillatorState::Play { started_at } => {
                let elapsed: u64 = if now >= started_at {
                    now - started_at
                } else {
                    0
                };
                let attack: u64 = self.adsr.attack_duration;
                let decay: u64 = self.adsr.decay_duration;
                if elapsed < attack {
                    proof {
                        lemma_ramp_bounded(UNITY as nat, elapsed as nat, attack as nat);
                    }
                    (UNITY as u128 * elapsed as u128 / attack as u128) as u32
                } else if elapsed - attack < decay {
                    let fall: u32 = UNITY - sustain;
                    proof {
                        lemma_ramp_bounded(fall as nat, (elapsed - attack) as nat, decay as nat);
                        lemma_product_fits(fall as nat, (elapsed - attack) as nat);
                    }
                    let fallen: u128 = fall as u128 * (elapsed - attack) as u128 / decay as u128;
                    UNITY - fallen as u32
                } else {
                    sustain
                }
            },
            OscillatorState::Release { started_at } => {
                let elapsed: u64 = if now >= started_at {
                    now - started_at
                } else {
                    0
                };
                let release: u64 = self.adsr.release_duration;
                if elapsed > release || release == 0 {
                    self.state = OscillatorState::Idle;
                    0
                } else {
                    proof {
                        lemma_ramp_bounded(sustain as nat, (release - elapsed) as nat, release as nat);
                        lemma_product_fits(sustain as nat, (release - elapsed) as nat);
                    }
                    (sustain as u128 * (release - elapsed) as u128 / release as u128) as u32
                }
            },
        }
    }

    /// Moves on by one grain: one cue for each sample, then the envelope.
    pub fn next_grain(&mut self) -> (grain: GrainCue)
        requires
            old(self).wf(),
        ensures
            final(self).wf(),
            grain.samples@ == old(self)@.cues(SAMPLES_PER_GRAIN as nat),
            grain.gain == old(self)@.after_samples(SAMPLES_PER_GRAIN as nat).envelope_gain(),
            final(self)@ == old(self)@.after_grain(),
    {
        let mut samples: Vec<SampleCue> = Vec::new();
        let mut done: usize = 0;
        while done < SAMPLES_PER_GRAIN
            invariant
                done <= SAMPLES_PER_GRAIN,
                self.wf(),
                self@ == old(self)@.after_samples(done as nat),
                samples@ == old(self)@.cues(done as nat),
            decreases SAMPLES_PER_GRAIN - done,
        {
            let cue: SampleCue = self.next_sample();
            samples.push(cue);
            done = done + 1;
            assert(samples@ =~= old(self)@.cues(done as nat));
        }
        let gain: u32 = self.apply_envelope();
        GrainCue { samples, gain }
    }
}

/// Collects what an oscillator is made of.
pub struct OscillatorBuilder {
    pub inputs: Option<OscillatorInputIterator>,
    pub adsr: Option<ADSR>,
    pub sample_rate: usize,
}

impl OscillatorBuilder {
    /// A builder with no inputs and no envelope yet, at the default sample
    /// rate.
    pub fn new() -> (builder: Self)
        ensures
            builder.inputs.is_none(),
            builder.adsr.is_none(),
            builder.sample_rate == DEFAULT_SAMPLE_RATE,
    {
        OscillatorBuilder { inputs: None, adsr: None, sample_rate: DEFAULT_SAMPLE_RATE }
    }

    /// Sets the queue of inputs.
    pub fn inputs(self, inputs: OscillatorInputIterator) -> (builder: Self)
        ensures
            builder.inputs == Some(inputs),
            builder.adsr == self.adsr,
            builder.sample_rate == self.sample_rate,
    {
        OscillatorBuilder { inputs: Some(inputs), adsr: self.adsr, sample_rate: self.sample_rate }
    }

    /// Lets the oscillator play from the start: its only input is a press of
    /// the frequency that the waveform already has, at time zero.
    pub fn auto_play(self) -> (builder: Self)
        ensures
            builder.inputs.is_some(),
            builder.inputs.unwrap()@ == (InputQueue {
                inputs: seq![
                    OscillatorInputAtTime { input: OscillatorInput::PressSame, time: 0 },
                ],
                index: 0,
                total_duration: 0,
                repeat_delay: None,
            }),
            builder.adsr == self.adsr,
            builder.sample_rate == self.sample_rate,
    {
        let mut inputs: Vec<OscillatorInputAtTime> = Vec::new();
        inputs.push(OscillatorInputAtTime { input: OscillatorInput::PressSame, time: 0 });
        proof {
            let only = seq![OscillatorInputAtTime { input: OscillatorInput::PressSame, time: 0 }];
            assert(inputs@ =~= only);
            input::lemma_sorting_keeps_time_order(only);
        }
        let queue = OscillatorInputIterator::new(inputs, None);
        OscillatorBuilder { inputs: Some(queue), adsr: self.adsr, sample_rate: self.sample_rate }
    }

    /// Sets the envelope.
    pub fn adsr(self, adsr: ADSR) -> (builder: Self)
        ensures
            builder.inputs == self.inputs,
            builder.adsr == Some(adsr),
            builder.sample_rate == self.sample_rate,
    {
        OscillatorBuilder { inputs: self.inputs, adsr: Some(adsr), sample_rate: self.sample_rate }
    }

    /// Sets the sample rate.
    pub fn sample_rate(self, sample_rate: usize) -> (builder: Self)
        ensures
            builder.inputs == self.inputs,
            builder.adsr == self.adsr,
            builder.sample_rate == sample_rate,
    {
        OscillatorBuilder { inputs: self.inputs, adsr: self.adsr, sample_rate }
    }

    /// The envelope that the oscillator will have: the one that was set, or
    /// the standard one.
    pub open spec fn envelope(self) -> ADSR {
        match self.adsr {
            Some(adsr) => adsr,
            None => ADSR {
                attack_duration: 100_000,
                decay_duration: 100_000,
                sustain_amplitude_multiplier: UNITY,
                release_duration: 100_000,
            },
        }
    }

    /// An idle oscillator at time zero.
    pub fn build(self) -> (oscillator: Oscillator)
        requires
            self.inputs.is_some(),
            self.envelope().wf(),
            self.sample_rate > 0,
        ensures
            oscillator.wf(),
            oscillator@ == (Voice {
                inputs: self.inputs.unwrap()@,
                state: OscillatorState::Idle,
                clock: ClockView { micros: 0, fraction: 0, sample_rate: self.sample_rate as nat },
                adsr: self.envelope(),
                frequency: None,
            }),
    {
        let adsr: ADSR = match self.adsr {
            Some(adsr) => adsr,
            None => ADSR::standard(),
        };
        Oscillator {
            inputs: self.inputs.unwrap(),
            state: OscillatorState::Idle,
            clock: Clock::new(self.sample_rate),
            adsr,
            frequency: None,
        }
    }
}


/// The frequency, in millihertz, of each of the twelve notes of the ninth
/// octave, from C to B, in equal temperament with the A of the fourth octave
/// at 440 hertz.
pub open spec fn top_octave_frequency(pitch: nat) -> nat {
    if pitch == 0 {
        8_372_018
    } else if pitch == 1 {
        8_869_844
    } else if pitch == 2 {
        9_397_273
    } else if pitch == 3 {
        9_956_063
    } else if pitch == 4 {
        10_548_082
    } else if pitch == 5 {
        11_175_303
    } else if pitch == 6 {
        11_839_822
    } else if pitch == 7 {
        12_543_854
    } else if pitch == 8 {
        13_289_750
    } else if pitch == 9 {
        14_080_000
    } else if pitch == 10 {
        14_917_240
    } else {
        15_804_266
    }
}

/// The place among the twelve notes of an octave that a name stands for:
/// one of the letters C, D, E, F, G, A and B, or one of C, D, F, G and A with
/// a sharp behind it.
pub open spec fn pitch_of(name: Seq<char>) -> Option<nat> {
    if name.len() == 1 {
        if name[0] == 'C' {
            Some(0)
        } else if name[0] == 'D' {
            Some(2)
        } else if name[0] == 'E' {
            Some(4)
        } else if name[0] == 'F' {
            Some(5)
        } else if name[0] == 'G' {
            Some(7)
        } else if name[0] == 'A' {
            Some(9)
        } else if name[0] == 'B' {
            Some(11)
        } else {
            None
        }
    } else if name.len() == 2 && name[1] == '#' {
        if name[0] == 'C' {
            Some(1)
        } else if name[0] == 'D' {
            Some(3)
        } else if name[0] == 'F' {
            Some(6)
        } else if name[0] == 'G' {
            Some(8)
        } else if name[0] == 'A' {
            Some(10)
        } else {
            None
        }
    } else {
        None
    }
}

/// The octave that a digit stands for.
pub open spec fn octave_of(digit: char) -> Option<nat> {
    if digit == '0' {
        Some(0)
    } else if digit == '1' {
        Some(1)
    } else if digit == '2' {
        Some(2)
    } else if digit == '3' {
        Some(3)
    } else if digit == '4' {
        Some(4)
    } else if digit == '5' {
        Some(5)
    } else if digit == '6' {
        Some(6)
    } else if digit == '7' {
        Some(7)
    } else if digit == '8' {
        Some(8)
    } else if digit == '9' {
        Some(9)
    } else {
        None
    }
}

/// Two to the power of `octaves`, for up to nine octaves.
pub open spec fn octave_ratio(octaves: nat) -> nat
    decreases octaves,
{
    if octaves == 0 {
        1
    } else {
        2 * octave_ratio((octaves - 1) as nat)
    }
}

/// The frequency, in millihertz, of the note that `note_name` names: the
/// note of the ninth octave, halved once for each octave below, rounded
/// down. A name is a note and behind it the digit of its octave.
pub open spec fn frequency_of(note_name: Seq<char>) -> Option<nat> {
    if note_name.len() == 0 {
        None
    } else {
        match (pitch_of(note_name.drop_last()), octave_of(note_name.last())) {
            (Some(pitch), Some(octave)) => Some(
                top_octave_frequency(pitch) / octave_ratio((9 - octave) as nat),
            ),
            _ => None,
        }
    }
}

/// Convert a note name to a frequency in millihertz.
/// `note_name` is a string like "A4", "C#3", etc.
/// The octave must be given. Only sharp notes are supported, not flats.
/// Anything else is no note.
pub fn note(note_name: &str) -> (frequency: Option<u32>)
    ensures
        match frequency {
            Some(frequency) => frequency_of(note_name@) == Some(frequency as nat),
            None => frequency_of(note_name@).is_none(),
        },
{
    let length: usize = note_name.unicode_len();
    if length < 2 || length > 3 {
        return None;
    }
    let first: char = note_name.get_char(0);
    let last: char = note_name.get_char(length - 1);
    let sharp: bool = if length == 3 {
        if note_name.get_char(1) != '#' {
            return None;
        }
        true
    } else {
        false
    };
    let pitch: usize = if sharp {
        match first {
            'C' => 1,
            'D' => 3,
            'F' => 6,
            'G' => 8,
            'A' => 10,
            _ => {
                return None;
            },
        }
    } else {
        match first {
            'C' => 0,
            'D' => 2,
            'E' => 4,
            'F' => 5,
            'G' => 7,
            'A' => 9,
            'B' => 11,
            _ => {
                return None;
            },
        }
    };
    let octave: u32 = match last {
        '0' => 0,
        '1' => 1,
        '2' => 2,
        '3' => 3,
        '4' => 4,
        '5' => 5,
        '6' => 6,
        '7' => 7,
        '8' => 8,
        '9' => 9,
        _ => {
            return None;
        },
    };
    assert(pitch_of(note_name@.drop_last()) == Some(pitch as nat));
    let top: u32 = if pitch == 0 {
        8_372_018
    } else if pitch == 1 {
        8_869_844
    } else if pitch == 2 {
        9_397_273
    } else if pitch == 3 {
        9_956_063
    } else if pitch == 4 {
        10_548_082
    } else if pitch == 5 {
        11_175_303
    } else if pitch == 6 {
        11_839_822
    } else if pitch == 7 {
        12_543_854
    } else if pitch == 8 {
        13_289_750
    } else if pitch == 9 {
        14_080_000
    } else if pitch == 10 {
        14_917_240
    } else {
        15_804_266
    };
    let mut ratio: u32 = 1;
    let mut halved: u32 = 0;
    while halved < 9 - octave
        invariant
            octave <= 9,
            halved <= 9 - octave,
            ratio == octave_ratio(halved as nat),
            1 <= ratio <= 512,
        decreases 9 - octave - halved,
    {
        proof {
            reveal_with_fuel(octave_ratio, 11);
        }
        ratio = ratio * 2;
        halved = halved + 1;
    }
    Some(top / ratio)
}

} // verus!
