//! A beat pattern that plays one clip on chosen beats of a bar, and the
//! history of what it played.

use crate::clock::DEFAULT_SAMPLE_RATE;
use crate::sample::{copy_of, fit_to_length, fitted};
use crate::sound::silent_grain;
use std::collections::VecDeque;
use vstd::prelude::*;

verus! {

/// The settings of a beat pattern.
#[derive(Clone, Copy, Debug, PartialEq, Eq, Structural)]
pub struct PatternConfig {
    /// Beats per minute.
    pub bpm: u16,
    /// In millionths of full scale.
    pub volume: u32,
    /// The number of beats in the pattern.
    pub length_beats: u8,
}

impl PatternConfig {
    /// Settings with a volume given in millionths of full scale.
    pub fn new(bpm: u16, volume: u32, length_beats: u8) -> (config: Self)
        ensures
            config == (PatternConfig { bpm, volume, length_beats }),
    {
        PatternConfig { bpm, volume, length_beats }
    }
}

/// A history of dry samples for effects to use: the samples of the last two
/// grains, oldest first.
pub struct History<T> {
    samples: VecDeque<T>,
    samples_per_grain: usize,
}

/// What a history stands for.
pub struct Past<T> {
    pub samples: Seq<T>,
    pub samples_per_grain: nat,
}

impl<T> Past<T> {
    /// The history after `sample` came in: the oldest sample has left.
    pub open spec fn pushed(self, sample: T) -> Past<T> {
        if self.samples.len() == 0 {
            Past { samples: seq![sample], ..self }
        } else {
            Past { samples: self.samples.subrange(1, self.samples.len() as int).push(sample), ..self }
        }
    }

    /// The older of the two grains that the history holds.
    pub open spec fn last_grain(self) -> Seq<T> {
        if self.samples_per_grain <= self.samples.len() {
            self.samples.take(self.samples_per_grain as int)
        } else {
            self.samples
        }
    }
}

impl<T> Past<T> {
    /// The history after all of `samples` came in, one after the other.
    pub open spec fn pushed_all(self, samples: Seq<T>) -> Past<T>
        decreases samples.len(),
    {
        if samples.len() == 0 {
            self
        } else {
            self.pushed_all(samples.drop_last()).pushed(samples.last())
        }
    }
}

/// A history keeps its length and holds what came in last: once as many
/// samples came in as it is long, it is those samples, oldest first.
pub proof fn lemma_history_holds_the_latest<T>(past: Past<T>, samples: Seq<T>)
    requires
        past.samples.len() > 0,
    ensures
        past.pushed_all(samples).samples.len() == past.samples.len(),
        past.pushed_all(samples).samples == (past.samples + samples).subrange(
            samples.len() as int,
            (past.samples + samples).len() as int,
        ),
        samples.len() >= past.samples.len() ==> past.pushed_all(samples).samples
            == samples.subrange(samples.len() - past.samples.len(), samples.len() as int),
    decreases samples.len(),
{
    let all = past.samples + samples;
    if samples.len() == 0 {
        assert(all.subrange(0, all.len() as int) =~= past.samples);
    } else {
        let rest = samples.drop_last();
        lemma_history_holds_the_latest(past, rest);
        let earlier = past.samples + rest;
        assert(all =~= earlier.push(samples.last()));
        assert(past.pushed_all(samples).samples =~= all.subrange(
            samples.len() as int,
            all.len() as int,
        ));
    }
    if samples.len() >= past.samples.len() {
        assert(past.pushed_all(samples).samples =~= samples.subrange(
            samples.len() - past.samples.len(),
            samples.len() as int,
        ));
    }
}

impl<T> View for History<T> {
    type V = Past<T>;

    closed spec fn view(&self) -> Past<T> {
        Past { samples: self.samples@, samples_per_grain: self.samples_per_grain as nat }
    }
}

impl<T: Copy> Clone for History<T> {
    fn clone(&self) -> (copy: Self)
        ensures
            copy@ == self@,
    {
        let mut samples: VecDeque<T> = VecDeque::new();
        let mut i: usize = 0;
        while i < self.samples.len()
            invariant
                i <= self.samples@.len(),
                samples@ == self.samples@.take(i as int),
            decreases self.samples@.len() - i,
        {
            samples.push_back(self.samples[i]);
            i = i + 1;
            assert(samples@ =~= self.samples@.take(i as int));
        }
        assert(samples@ =~= self.samples@);
        History { samples, samples_per_grain: self.samples_per_grain }
    }
}

impl<T: Copy> History<T> {
    /// A history of two grains of silence.
    pub fn new(samples_per_grain: usize, silence: T) -> (history: Self)
        requires
            samples_per_grain * 2 <= usize::MAX,
        ensures
            history@ == (Past {
                samples: silent_grain((samples_per_grain * 2) as nat, silence),
                samples_per_grain: samples_per_grain as nat,
            }),
    {
        let size: usize = samples_per_grain * 2;
        let mut samples: VecDeque<T> = VecDeque::with_capacity(size);
        let mut filled: usize = 0;
        while filled < size
            invariant
                filled <= size,
                samples@ == silent_grain(filled as nat, silence),
            decreases size - filled,
        {
            samples.push_back(silence);
            filled = filled + 1;
            assert(samples@ =~= silent_grain(filled as nat, silence));
        }
        History { samples, samples_per_grain }
    }

    /// Takes in `sample` and lets the oldest sample go.
    pub fn push(&mut self, sample: T)
        ensures
            final(self)@ == old(self)@.pushed(sample),
    {
        let _ = self.samples.pop_front();
        self.samples.push_back(sample);
        assert(self.samples@ =~= old(self)@.pushed(sample).samples);
    }

    /// The older of the two grains that the history holds.
    pub fn last_grain(&self) -> (grain: Vec<T>)
        ensures
            grain@ == self@.last_grain(),
    {
        let length: usize = if self.samples_per_grain <= self.samples.len() {
            self.samples_per_grain
        } else {
            self.samples.len()
        };
        let mut grain: Vec<T> = Vec::new();
        let mut i: usize = 0;
        while i < length
            invariant
                i <= length <= self.samples@.len(),
                grain@ == self.samples@.take(i as int),
            decreases length - i,
        {
            grain.push(self.samples[i]);
            i = i + 1;
            assert(grain@ =~= self.samples@.take(i as int));
        }
        assert(self.samples@.take(self.samples@.len() as int) =~= self.samples@);
        grain
    }
}

/// `value`, held down to the largest count that memory can index.
pub open spec fn capped(value: nat) -> nat {
    if value > usize::MAX {
        usize::MAX as nat
    } else {
        value
    }
}

/// Number of samples in one beat at `bpm` beats per minute, rounded down.
pub open spec fn samples_per_beat_at(bpm: u16, sample_rate: usize) -> nat
    recommends
        bpm > 0,
{
    capped((60 * sample_rate / bpm as int) as nat)
}

/// Number of samples in one grain of three milliseconds, rounded down.
pub open spec fn samples_per_grain_at(sample_rate: usize) -> nat {
    (3 * sample_rate / 1000) as nat
}

/// Which beats of a pattern of `length_beats` beats play the clip: beat `i`,
/// counted from zero, does so when `trigger_beats` names it, counted from
/// one.
pub open spec fn trigger_map_of(trigger_beats: Seq<u8>, length_beats: u8) -> Seq<bool> {
    Seq::new(length_beats as nat, |i: int| trigger_beats.contains((i + 1) as u8))
}

/// Whether `amplified` is `sample` with every sample brought to `volume` by
/// `amplify`.
pub open spec fn amplified_from<T, A: Fn(T, u32) -> T>(
    amplify: A,
    sample: Seq<T>,
    volume: u32,
    amplified: Seq<T>,
) -> bool {
    &&& amplified.len() == sample.len()
    &&& forall|i: int|
        0 <= i < sample.len() ==> call_ensures(amplify, (sample[i], volume), #[trigger] amplified[i])
}

/// `sample` filled up with silence to at least `length` samples.
pub open spec fn padded<T>(sample: Seq<T>, length: nat, silence: T) -> Seq<T> {
    if sample.len() < length {
        fitted(sample, length, silence)
    } else {
        sample
    }
}

/// A beat pattern: one clip that plays on some beats of a bar and not on
/// others, bar after bar.
pub struct Pattern<T> {
    history: History<T>,
    samples_per_grain: usize,
    config: PatternConfig,
    sample: Vec<T>,
    trigger_beats: Vec<u8>,
    sample_counter: usize,
    current_sample_rate: usize,
    samples_per_beat: usize,
    samples_per_pattern: usize,
    trigger_map: Vec<bool>,
    silence: T,
}

/// What a beat pattern stands for.
pub struct Track<T> {
    pub history: Past<T>,
    pub samples_per_grain: nat,
    pub config: PatternConfig,
    /// The clip, at least one beat long.
    pub sample: Seq<T>,
    pub trigger_beats: Seq<u8>,
    /// The place in time of the sample that `next_sample` hands out next.
    pub sample_counter: usize,
    pub current_sample_rate: usize,
    pub samples_per_beat: nat,
    pub samples_per_pattern: nat,
    pub trigger_map: Seq<bool>,
    pub silence: T,
}

impl<T> Track<T> {
    /// A pattern can play when a bar has at least one sample.
    pub open spec fn playable(self) -> bool {
        &&& self.samples_per_beat > 0
        &&& self.samples_per_pattern > 0
    }

    /// The beat of the bar that the sample at `position` falls into.
    pub open spec fn beat_of(self, position: usize) -> nat
        recommends
            self.playable(),
    {
        ((position as nat % self.samples_per_pattern) / self.samples_per_beat) as nat
    }

    /// How many samples after the start of its beat `position` lies.
    pub open spec fn place_in_beat(self, position: usize) -> nat
        recommends
            self.playable(),
    {
        ((position as nat % self.samples_per_pattern) - self.beat_of(position)
            * self.samples_per_beat) as nat
    }

    /// The sample of the clip that belongs to `position`: the clip is
    /// stretched over the beat.
    pub open spec fn clip_index(self, position: usize) -> nat
        recommends
            self.playable(),
    {
        self.place_in_beat(position) * self.sample.len() / self.samples_per_beat
    }

    /// The dry sample at `position`: the clip on a beat that plays, silence
    /// on the others and past the end of the clip.
    pub open spec fn dry_sample(self, position: usize) -> T
        recommends
            self.playable(),
    {
        if self.beat_of(position) < self.trigger_map.len() && self.trigger_map[self.beat_of(
            position,
        ) as int] && self.clip_index(position) < self.sample.len() {
            self.sample[self.clip_index(position) as int]
        } else {
            self.silence
        }
    }

    /// The pattern after the sample at `position` was asked for: the history
    /// has taken it in.
    pub open spec fn after_sample_at(self, position: usize) -> Track<T> {
        Track { history: self.history.pushed(self.dry_sample(position)), ..self }
    }

    /// The place in time after `counter`; it starts over where it cannot be
    /// counted further.
    pub open spec fn next_counter(counter: usize) -> usize {
        if counter == usize::MAX {
            0
        } else {
            (counter + 1) as usize
        }
    }
}

/// A pattern plays bar after bar: one bar later it hands out the same dry
/// sample.
pub proof fn lemma_pattern_repeats<T>(track: Track<T>, position: usize)
    requires
        track.playable(),
        position + track.samples_per_pattern <= usize::MAX,
    ensures
        track.dry_sample((position + track.samples_per_pattern) as usize) == track.dry_sample(
            position,
        ),
{
    vstd::arithmetic::div_mod::lemma_mod_add_multiples_vanish(
        position as int,
        track.samples_per_pattern as int,
    );
}

/// A pattern is silent on every beat that its trigger beats do not name.
pub proof fn lemma_pattern_rests<T>(track: Track<T>, position: usize)
    requires
        track.playable(),
        track.trigger_map == trigger_map_of(track.trigger_beats, track.config.length_beats),
        !track.trigger_beats.contains((track.beat_of(position) + 1) as u8),
    ensures
        track.dry_sample(position) == track.silence,
{
}

impl<T> View for Pattern<T> {
    type V = Track<T>;

    closed spec fn view(&self) -> Track<T> {
        Track {
            history: self.history@,
            samples_per_grain: self.samples_per_grain as nat,
            config: self.config,
            sample: self.sample@,
            trigger_beats: self.trigger_beats@,
            sample_counter: self.sample_counter,
            current_sample_rate: self.current_sample_rate,
            samples_per_beat: self.samples_per_beat as nat,
            samples_per_pattern: self.samples_per_pattern as nat,
            trigger_map: self.trigger_map@,
            silence: self.silence,
        }
    }
}

/// Number of samples in one beat.
fn beat_samples(bpm: u16, sample_rate: usize) -> (samples: usize)
    requires
        bpm > 0,
    ensures
        samples == samples_per_beat_at(bpm, sample_rate),
{
    let exact: u128 = 60u128 * sample_rate as u128 / bpm as u128;
    if exact > usize::MAX as u128 {
        usize::MAX
    } else {
        exact as usize
    }
}

/// Number of samples in one bar.
fn bar_samples(samples_per_beat: usize, length_beats: u8) -> (samples: usize)
    ensures
        samples == capped(samples_per_beat as nat * length_beats as nat),
{
    proof {
        assert(samples_per_beat * length_beats <= 0xFFFF_FFFF_FFFF_FFFF * 0xFF) by (nonlinear_arith)
            requires
                samples_per_beat <= 0xFFFF_FFFF_FFFF_FFFF,
                length_beats <= 0xFF,
        ;
    }
    let exact: u128 = samples_per_beat as u128 * length_beats as u128;
    if exact > usize::MAX as u128 {
        usize::MAX
    } else {
        exact as usize
    }
}

/// Which beats of the bar play the clip.
fn trigger_map(trigger_beats: &Vec<u8>, length_beats: u8) -> (map: Vec<bool>)
    ensures
        map@ == trigger_map_of(trigger_beats@, length_beats),
{
    let mut map: Vec<bool> = Vec::new();
    let mut beat: u8 = 0;
    while beat < length_beats
        invariant
            beat <= length_beats,
            map@ == trigger_map_of(trigger_beats@, beat),
        decreases length_beats - beat,
    {
        let wanted: u8 = beat + 1;
        let mut named: bool = false;
        let mut k: usize = 0;
        while k < trigger_beats.len()
            invariant
                k <= trigger_beats@.len(),
                named == trigger_beats@.take(k as int).contains(wanted),
            decreases trigger_beats@.len() - k,
        {
            if trigger_beats[k] == wanted {
                named = true;
            }
            proof {
                let longer = trigger_beats@.take(k as int + 1);
                let shorter = trigger_beats@.take(k as int);
                assert(shorter =~= longer.drop_last());
                if trigger_beats@[k as int] == wanted {
                    assert(longer[k as int] == wanted);
                } else if shorter.contains(wanted) {
                    let at = choose|at: int| 0 <= at < shorter.len() && shorter[at] == wanted;
                    assert(longer[at] == wanted);
                } else if longer.contains(wanted) {
                    let at = choose|at: int| 0 <= at < longer.len() && longer[at] == wanted;
                    assert(shorter[at] == wanted);
                }
            }
            k = k + 1;
        }
        assert(trigger_beats@.take(trigger_beats@.len() as int) =~= trigger_beats@);
        map.push(named);
        beat = beat + 1;
        assert(map@ =~= trigger_map_of(trigger_beats@, beat));
    }
    map
}

impl<T: Copy> Clone for Pattern<T> {
    fn clone(&self) -> (copy: Self)
        ensures
            copy@ == self@,
    {
        let mut map: Vec<bool> = Vec::new();
        let mut i: usize = 0;
        while i < self.trigger_map.len()
            invariant
                i <= self.trigger_map@.len(),
                map@ == self.trigger_map@.take(i as int),
            decreases self.trigger_map@.len() - i,
        {
            map.push(self.trigger_map[i]);
            i = i + 1;
            assert(map@ =~= self.trigger_map@.take(i as int));
        }
        assert(map@ =~= self.trigger_map@);
        Pattern {
            history: self.history.clone(),
            samples_per_grain: self.samples_per_grain,
            config: self.config,
            sample: copy_of(&self.sample),
            trigger_beats: copy_of(&self.trigger_beats),
            sample_counter: self.sample_counter,
            current_sample_rate: self.current_sample_rate,
            samples_per_beat: self.samples_per_beat,
            samples_per_pattern: self.samples_per_pattern,
            trigger_map: map,
            silence: self.silence,
        }
    }
}

impl<T: Copy> Pattern<T> {
    /// A pattern at the default sample rate.
    pub fn new<A: Fn(T, u32) -> T>(
        config: PatternConfig,
        sample: Vec<T>,
        trigger_beats: Vec<u8>,
        silence: T,
        amplify: &A,
    ) -> (pattern: Self)
        requires
            config.bpm > 0,
            forall|sample: T, volume: u32| call_requires(*amplify, (sample, volume)),
        ensures
            Self::made_of(
                *amplify,
                config,
                sample@,
                trigger_beats@,
                DEFAULT_SAMPLE_RATE,
                silence,
                pattern@,
            ),
    {
        Self::new_with_sample_rate(config, sample, trigger_beats, DEFAULT_SAMPLE_RATE, silence, amplify)
    }

    /// Whether `track` is the pattern that is made of these parts: the clip
    /// is filled up with silence to the length of a beat and brought to the
    /// volume of the pattern by `amplify`, the history holds silence, and time
    /// starts at zero.
    pub open spec fn made_of<A: Fn(T, u32) -> T>(
        amplify: A,
        config: PatternConfig,
        sample: Seq<T>,
        trigger_beats: Seq<u8>,
        sample_rate: usize,
        silence: T,
        track: Track<T>,
    ) -> bool {
        let samples_per_beat = samples_per_beat_at(config.bpm, sample_rate);
        &&& track.samples_per_beat == samples_per_beat
        &&& track.samples_per_pattern == capped(samples_per_beat * config.length_beats as nat)
        &&& track.samples_per_grain == samples_per_grain_at(sample_rate)
        &&& track.history == (Past {
            samples: silent_grain(track.samples_per_grain * 2, silence),
            samples_per_grain: track.samples_per_grain,
        })
        &&& amplified_from(
            amplify,
            padded(sample, samples_per_beat, silence),
            config.volume,
            track.sample,
        )
        &&& track.config == config
        &&& track.trigger_beats == trigger_beats
        &&& track.trigger_map == trigger_map_of(trigger_beats, config.length_beats)
        &&& track.sample_counter == 0
        &&& track.current_sample_rate == sample_rate
        &&& track.silence == silence
    }

    /// A pattern at `sample_rate`.
    pub fn new_with_sample_rate<A: Fn(T, u32) -> T>(
        config: PatternConfig,
        sample: Vec<T>,
        trigger_beats: Vec<u8>,
        sample_rate: usize,
        silence: T,
        amplify: &A,
    ) -> (pattern: Self)
        requires
            config.bpm > 0,
            forall|sample: T, volume: u32| call_requires(*amplify, (sample, volume)),
        ensures
            Self::made_of(
                *amplify,
                config,
                sample@,
                trigger_beats@,
                sample_rate,
                silence,
                pattern@,
            ),
    {
        let samples_per_beat: usize = beat_samples(config.bpm, sample_rate);
        let samples_per_pattern: usize = bar_samples(samples_per_beat, config.length_beats);
        let full: Vec<T> = if sample.len() < samples_per_beat {
            fit_to_length(sample, samples_per_beat, silence)
        } else {
            sample
        };
        let mut amplified: Vec<T> = Vec::new();
        let mut i: usize = 0;
        while i < full.len()
            invariant
                i <= full@.len(),
                amplified@.len() == i,
                forall|sample: T, volume: u32| call_requires(*amplify, (sample, volume)),
                forall|k: int|
                    0 <= k < i ==> call_ensures(
                        *amplify,
                        (full@[k], config.volume),
                        #[trigger] amplified@[k],
                    ),
            decreases full@.len() - i,
        {
            let loud: T = amplify(full[i], config.volume);
            amplified.push(loud);
            i = i + 1;
        }
        let map: Vec<bool> = trigger_map(&trigger_beats, config.length_beats);
        let samples_per_grain: usize = (3u128 * sample_rate as u128 / 1000u128) as usize;
        let history: History<T> = History::new(samples_per_grain, silence);
        Pattern {
            history,
            samples_per_grain,
            config,
            sample: amplified,
            trigger_beats,
            sample_counter: 0,
            current_sample_rate: sample_rate,
            samples_per_beat,
            samples_per_pattern,
            trigger_map: map,
            silence,
        }
    }

    /// Goes on at another sample rate: beats, bars and grains are counted
    /// anew, and a clip that is now shorter than a beat is filled up with
    /// silence. The same rate as before changes nothing.
    pub fn update_sample_rate(&mut self, new_sample_rate: usize)
        requires
            old(self)@.config.bpm > 0,
        ensures
            new_sample_rate == old(self)@.current_sample_rate ==> final(self)@ == old(self)@,
            new_sample_rate != old(self)@.current_sample_rate ==> final(self)@ == (Track {
                current_sample_rate: new_sample_rate,
                samples_per_beat: samples_per_beat_at(old(self)@.config.bpm, new_sample_rate),
                samples_per_pattern: capped(
                    samples_per_beat_at(old(self)@.config.bpm, new_sample_rate)
                        * old(self)@.config.length_beats as nat,
                ),
                samples_per_grain: samples_per_grain_at(new_sample_rate),
                sample: padded(
                    old(self)@.sample,
                    samples_per_beat_at(old(self)@.config.bpm, new_sample_rate),
                    old(self)@.silence,
                ),
                ..old(self)@
            }),
    {
        if new_sample_rate != self.current_sample_rate {
            self.current_sample_rate = new_sample_rate;
            self.samples_per_beat = beat_samples(self.config.bpm, new_sample_rate);
            self.samples_per_pattern = bar_samples(self.samples_per_beat, self.config.length_beats);
            self.samples_per_grain = (3u128 * new_sample_rate as u128 / 1000u128) as usize;
            if self.sample.len() < self.samples_per_beat {
                let clip: Vec<T> = copy_of(&self.sample);
                self.sample = fit_to_length(clip, self.samples_per_beat, self.silence);
            }
        }
    }

    /// Whether a bar has at least one sample, so that the pattern can play.
    pub fn is_playable(&self) -> (playable: bool)
        ensures
            playable == self@.playable(),
    {
        self.samples_per_beat > 0 && self.samples_per_pattern > 0
    }

    /// The history of dry samples.
    pub fn history(&self) -> (history: &History<T>)
        ensures
            history@ == self@.history,
    {
        &self.history
    }

    /// Hands out the dry sample at the current place in time and moves on by
    /// one sample.
    pub fn next_sample(&mut self) -> (sample: T)
        requires
            old(self)@.playable(),
        ensures
            sample == old(self)@.dry_sample(old(self)@.sample_counter),
            final(self)@ == (Track {
                sample_counter: Track::<T>::next_counter(old(self)@.sample_counter),
                ..old(self)@.after_sample_at(old(self)@.sample_counter)
            }),
    {
        let position: usize = self.sample_counter;
        self.sample_counter = if position == usize::MAX {
            0
        } else {
            position + 1
        };
        self.get_sample_at_position(position)
    }

    /// Hands out the dry sample at `sample_position` and takes it into the
    /// history.
    pub fn get_sample_at_position(&mut self, sample_position: usize) -> (sample: T)
        requires
            old(self)@.playable(),
        ensures
            sample == old(self)@.dry_sample(sample_position),
            final(self)@ == old(self)@.after_sample_at(sample_position),
    {
        let pattern_position: usize = sample_position % self.samples_per_pattern;
        let beat_position: usize = pattern_position / self.samples_per_beat;
        proof {
            vstd::arithmetic::div_mod::lemma_fundamental_div_mod(
                pattern_position as int,
                self.samples_per_beat as int,
            );
            vstd::arithmetic::div_mod::lemma_mod_bound(
                pattern_position as int,
                self.samples_per_beat as int,
            );
            assert(self.samples_per_beat * beat_position == beat_position * self.samples_per_beat)
                by (nonlinear_arith);
        }
        let sample: T = if beat_position < self.trigger_map.len() && self.trigger_map[beat_position] {
            let position_in_beat: usize = pattern_position - beat_position * self.samples_per_beat;
            let length: usize = self.sample.len();
            proof {
                assert(position_in_beat * length <= 0xFFFF_FFFF_FFFF_FFFF * 0xFFFF_FFFF_FFFF_FFFF)
                    by (nonlinear_arith)
                    requires
                        position_in_beat <= 0xFFFF_FFFF_FFFF_FFFF,
                        length <= 0xFFFF_FFFF_FFFF_FFFF,
                ;
            }
            let sample_index: u128 = position_in_beat as u128 * length as u128
                / self.samples_per_beat as u128;
            if sample_index < length as u128 {
                self.sample[sample_index as usize]
            } else {
                self.silence
            }
        } else {
            self.silence
        };
        self.history.push(sample);
        sample
    }
}

/// Collects what a beat pattern is made of.
pub struct PatternBuilder<T> {
    config: Option<PatternConfig>,
    sample: Option<Vec<T>>,
    trigger_beats: Vec<u8>,
}

/// What a pattern builder has collected.
pub struct Draft<T> {
    pub config: Option<PatternConfig>,
    pub sample: Option<Seq<T>>,
    pub trigger_beats: Seq<u8>,
}

impl<T> View for PatternBuilder<T> {
    type V = Draft<T>;

    closed spec fn view(&self) -> Draft<T> {
        Draft {
            config: self.config,
            sample: match self.sample {
                Some(sample) => Some(sample@),
                None => None,
            },
            trigger_beats: self.trigger_beats@,
        }
    }
}

impl<T: Copy> PatternBuilder<T> {
    /// A builder with nothing set.
    pub fn new() -> (builder: Self)
        ensures
            builder@ == (Draft::<T> { config: None, sample: None, trigger_beats: Seq::<u8>::empty() }),
    {
        PatternBuilder { config: None, sample: None, trigger_beats: Vec::new() }
    }

    /// Sets the settings.
    pub fn config(&mut self, config: PatternConfig) -> (builder: &mut Self)
        ensures
            *final(self) == *final(builder),
            builder@ == (Draft { config: Some(config), ..old(self)@ }),
    {
        self.config = Some(config);
        self
    }

    /// Sets the clip.
    pub fn sample(&mut self, sample: Vec<T>) -> (builder: &mut Self)
        ensures
            *final(self) == *final(builder),
            builder@ == (Draft { sample: Some(sample@), ..old(self)@ }),
    {
        self.sample = Some(sample);
        self
    }

    /// Sets the beats that play the clip, counted from one.
    pub fn trigger_beats(&mut self, trigger_beats: Vec<u8>) -> (builder: &mut Self)
        ensures
            *final(self) == *final(builder),
            builder@ == (Draft { trigger_beats: trigger_beats@, ..old(self)@ }),
    {
        self.trigger_beats = trigger_beats;
        self
    }

    /// The pattern at the default sample rate, or an error where the
    /// settings or the clip are missing.
    pub fn build<A: Fn(T, u32) -> T>(&self, silence: T, amplify: &A) -> (built: Result<
        Pattern<T>,
        String,
    >)
        requires
            self@.config.is_some() ==> self@.config.unwrap().bpm > 0,
            forall|sample: T, volume: u32| call_requires(*amplify, (sample, volume)),
        ensures
            built.is_ok() <==> self@.config.is_some() && self@.sample.is_some(),
            match built {
                Ok(pattern) => Pattern::<T>::made_of(
                    *amplify,
                    self@.config.unwrap(),
                    self@.sample.unwrap(),
                    self@.trigger_beats,
                    DEFAULT_SAMPLE_RATE,
                    silence,
                    pattern@,
                ),
                Err(message) => message@ == "Missing required fields"@,
            },
    {
        match (&self.config, &self.sample) {
            (Some(config), Some(sample)) => Ok(
                Pattern::new(
                    *config,
                    copy_of(sample),
                    copy_of(&self.trigger_beats),
                    silence,
                    amplify,
                ),
            ),
            _ => Err(String::from_str("Missing required fields")),
        }
    }
}

/// A set of beat patterns, each under its name.
pub struct Composition<T> {
    names: Vec<String>,
    patterns: Vec<Pattern<T>>,
}

impl<T> Composition<T> {
    /// The names, in the order in which they first came.
    pub closed spec fn names(&self) -> Seq<Seq<char>> {
        Seq::new(self.names@.len(), |i: int| self.names@[i]@)
    }

    /// The patterns, each at the place of its name.
    pub closed spec fn tracks(&self) -> Seq<Track<T>> {
        Seq::new(self.patterns@.len(), |i: int| self.patterns@[i]@)
    }

    /// Every name has its pattern, and no name occurs twice.
    pub open spec fn wf(&self) -> bool {
        &&& self.names().len() == self.tracks().len()
        &&& self.names().no_duplicates()
    }
}

impl<T> View for Composition<T> {
    type V = Map<Seq<char>, Track<T>>;

    open spec fn view(&self) -> Map<Seq<char>, Track<T>> {
        Map::new(
            |name: Seq<char>| self.names().contains(name),
            |name: Seq<char>| self.tracks()[self.names().index_of(name)],
        )
    }
}

impl<T: Copy> Composition<T> {
    /// A composition without patterns.
    pub fn new() -> (composition: Self)
        ensures
            composition.wf(),
            composition@ == Map::<Seq<char>, Track<T>>::empty(),
    {
        let composition = Composition { names: Vec::new(), patterns: Vec::new() };
        assert(composition@ =~= Map::<Seq<char>, Track<T>>::empty());
        composition
    }

    /// Number of patterns.
    pub fn len(&self) -> (length: usize)
        requires
            self.wf(),
        ensures
            length == self@.dom().len(),
            length == self.names().len(),
    {
        proof {
            self.names().unique_seq_to_set();
            assert(self@.dom() =~= self.names().to_set());
        }
        self.names.len()
    }

    /// The place of `name` among the names, if it is one of them.
    fn find(&self, name: &String) -> (place: Option<usize>)
        requires
            self.wf(),
        ensures
            match place {
                Some(place) => place < self.names().len() && self.names()[place as int] == name@,
                None => !self.names().contains(name@),
            },
    {
        let mut i: usize = 0;
        while i < self.names.len()
            invariant
                i <= self.names@.len(),
                forall|k: int| 0 <= k < i ==> self.names()[k] != name@,
            decreases self.names@.len() - i,
        {
            if self.names[i] == *name {
                return Some(i);
            }
            i = i + 1;
        }
        None
    }

    /// Puts `pattern` under `name`; a pattern that was there under that name
    /// makes room.
    pub fn add_pattern(&mut self, name: String, pattern: Pattern<T>)
        requires
            old(self).wf(),
        ensures
            final(self).wf(),
            final(self)@ == old(self)@.insert(name@, pattern@),
    {
        let ghost before = *self;
        match self.find(&name) {
            Some(place) => {
                self.patterns[place] = pattern;
                proof {
                    assert(self.names() =~= before.names());
                    assert(self.tracks() =~= before.tracks().update(place as int, pattern@));
                    assert(self.names().index_of(name@) == place);
                    assert forall|other: Seq<char>| self.names().contains(other) && other
                        != name@ implies self.names().index_of(other) != place by {}
                    assert(self@ =~= before@.insert(name@, pattern@));
                }
            },
            None => {
                self.names.push(name);
                self.patterns.push(pattern);
                proof {
                    assert(self.names() =~= before.names().push(name@));
                    assert(self.tracks() =~= before.tracks().push(pattern@));
                    let last = before.names().len() as int;
                    assert(self.names()[last] == name@);
                    assert(self.names().index_of(name@) == last);
                    assert forall|other: Seq<char>| before.names().contains(other) implies self.names().contains(
                        other,
                    ) && self.names().index_of(other) == before.names().index_of(other) by {
                        let at = before.names().index_of(other);
                        assert(self.names()[at] == other);
                    }
                    assert forall|other: Seq<char>| self.names().contains(other) && other
                        != name@ implies before.names().contains(other) by {
                        let at = self.names().index_of(other);
                        assert(before.names()[at] == other);
                    }
                    assert(self@ =~= before@.insert(name@, pattern@));
                }
            },
        }
    }

    /// The pattern under `name`, if there is one.
    pub fn pattern(&self, name: &String) -> (pattern: Option<&Pattern<T>>)
        requires
            self.wf(),
        ensures
            match pattern {
                Some(pattern) => self@.contains_key(name@) && self@[name@] == pattern@,
                None => !self@.contains_key(name@),
            },
    {
        match self.find(name) {
            Some(place) => {
                proof {
                    assert(self.names().index_of(name@) == place);
                }
                Some(&self.patterns[place])
            },
            None => None,
        }
    }
}

} // verus!
