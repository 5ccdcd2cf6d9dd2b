//! Clips: bringing a clip to the length of a beat, and playing it on
//! triggers.

use crate::clock::{Clock, ClockView};
use crate::effects::samples_in;
use crate::sound::{make_silent_grain, silent_grain, EffectInput, SAMPLES_PER_GRAIN};
use vstd::prelude::*;

pub mod input;

pub use input::{SampleInput, SampleInputAtTime, SampleInputIterator, SampleInputIteratorBuilder};

verus! {

use input::TriggerQueue;

/// Whether `merged` is `buffer` with `grain` laid over its last `overlap`
/// samples: what comes before the overlap is the buffer's, what comes after
/// it is the grain's, and within it each sample is what `mix` made of the
/// two samples that meet there.
pub open spec fn merged_from<T, M: Fn(T, T) -> T>(
    mix: M,
    buffer: Seq<T>,
    grain: Seq<T>,
    overlap: nat,
    merged: Seq<T>,
) -> bool {
    let keep = buffer.len() - overlap;
    &&& overlap <= buffer.len()
    &&& overlap <= grain.len()
    &&& merged.len() == keep + grain.len()
    &&& forall|i: int| 0 <= i < keep ==> #[trigger] merged[i] == buffer[i]
    &&& forall|j: int|
        0 <= j < overlap ==> call_ensures(mix, (buffer[keep + j], grain[j]), #[trigger] merged[keep + j])
    &&& forall|j: int| overlap <= j < grain.len() ==> #[trigger] merged[keep + j] == grain[j]
}

/// Merges a grain into a buffer so that the first `overlap_len` samples of
/// the grain fall on the last `overlap_len` samples of the buffer. The
/// grain is assumed to be windowed already.
pub fn merge_grain_into_buffer<T: Copy, M: Fn(T, T) -> T>(
    buffer: &Vec<T>,
    grain: &Vec<T>,
    overlap_len: usize,
    mix: &M,
) -> (merged: Vec<T>)
    requires
        overlap_len <= buffer@.len(),
        overlap_len <= grain@.len(),
        buffer@.len() - overlap_len + grain@.len() <= usize::MAX,
        forall|a: T, b: T| call_requires(*mix, (a, b)),
    ensures
        merged_from(*mix, buffer@, grain@, overlap_len as nat, merged@),
{
    let keep: usize = buffer.len() - overlap_len;
    let mut merged: Vec<T> = Vec::new();
    let mut i: usize = 0;
    while i < keep
        invariant
            i <= keep,
            keep == buffer@.len() - overlap_len,
            merged@.len() == i,
            forall|k: int| 0 <= k < i ==> #[trigger] merged@[k] == buffer@[k],
        decreases keep - i,
    {
        merged.push(buffer[i]);
        i = i + 1;
    }
    let mut j: usize = 0;
    while j < overlap_len
        invariant
            j <= overlap_len,
            keep == buffer@.len() - overlap_len,
            buffer@.len() <= usize::MAX,
            overlap_len <= grain@.len(),
            merged@.len() == keep + j,
            forall|a: T, b: T| call_requires(*mix, (a, b)),
            forall|k: int| 0 <= k < keep ==> #[trigger] merged@[k] == buffer@[k],
            forall|k: int|
                0 <= k < j ==> call_ensures(
                    *mix,
                    (buffer@[keep + k], grain@[k]),
                    #[trigger] merged@[keep + k],
                ),
        decreases overlap_len - j,
    {
        let mixed: T = mix(buffer[keep + j], grain[j]);
        merged.push(mixed);
        j = j + 1;
    }
    while j < grain.len()
        invariant
            overlap_len <= j <= grain@.len(),
            keep == buffer@.len() - overlap_len,
            keep + grain@.len() <= usize::MAX,
            merged@.len() == keep + j,
            forall|k: int| 0 <= k < keep ==> #[trigger] merged@[k] == buffer@[k],
            forall|k: int|
                0 <= k < overlap_len ==> call_ensures(
                    *mix,
                    (buffer@[keep + k], grain@[k]),
                    #[trigger] merged@[keep + k],
                ),
            forall|k: int| overlap_len <= k < j ==> #[trigger] merged@[keep + k] == grain@[k],
        decreases grain@.len() - j,
    {
        merged.push(grain[j]);
        j = j + 1;
    }
    merged
}

/// Number of grains that a clip of `length` samples is cut into: all of
/// them full but the last, which holds what is left.
pub open spec fn grain_count(length: nat) -> nat {
    if length == 0 {
        0
    } else {
        ((length - 1) / (SAMPLES_PER_GRAIN as int) + 1) as nat
    }
}

/// Number of samples of the clip that grain `grain` holds.
pub open spec fn grain_length(length: nat, grain: nat) -> nat {
    if (grain + 1) * SAMPLES_PER_GRAIN <= length {
        SAMPLES_PER_GRAIN as nat
    } else {
        (length - grain * SAMPLES_PER_GRAIN) as nat
    }
}

/// Number of samples of silence that fill up the last grain.
pub open spec fn final_padding(length: nat) -> nat {
    (grain_count(length) * SAMPLES_PER_GRAIN - length) as nat
}

/// Length of a clip of `length` samples after its grains were merged with
/// an overlap of `overlap` samples: every grain but the first adds what it
/// does not share, and the padding of the last grain is cut off.
pub open spec fn compressed_length(length: nat, overlap: nat) -> nat {
    (SAMPLES_PER_GRAIN + (grain_count(length) - 1) * (SAMPLES_PER_GRAIN - overlap) - final_padding(
        length,
    )) as nat
}

/// Without overlap a clip keeps its length.
pub proof fn lemma_no_overlap_keeps_length(length: nat)
    requires
        length > 0,
    ensures
        compressed_length(length, 0) == length,
{
    let count = grain_count(length);
    assert(SAMPLES_PER_GRAIN + (count - 1) * (SAMPLES_PER_GRAIN - 0) == count * SAMPLES_PER_GRAIN)
        by (nonlinear_arith);
}

/// The more the grains overlap, the shorter the clip comes out; it is never
/// longer than it was.
pub proof fn lemma_overlap_shortens(length: nat, less: nat, more: nat)
    requires
        length > 0,
        less <= more <= SAMPLES_PER_GRAIN,
    ensures
        compressed_length(length, more) <= compressed_length(length, less) <= length,
{
    let count = grain_count(length);
    lemma_no_overlap_keeps_length(length);
    assert((count - 1) * (SAMPLES_PER_GRAIN - more) <= (count - 1) * (SAMPLES_PER_GRAIN - less))
        by (nonlinear_arith)
        requires
            count >= 1,
            less <= more,
    ;
    assert((count - 1) * (SAMPLES_PER_GRAIN - less) <= (count - 1) * (SAMPLES_PER_GRAIN - 0))
        by (nonlinear_arith)
        requires
            count >= 1,
            less >= 0,
    ;
    assert(SAMPLES_PER_GRAIN >= final_padding(length));
}

/// Whether `windowed` is grain `grain` of `samples` after windowing: each of
/// its samples is what `window` made of the sample of the clip, its place
/// in the grain and the number of samples in the grain; behind them comes
/// silence up to the full length of a grain.
pub open spec fn is_windowed_grain<T, W: Fn(T, usize, usize) -> T>(
    window: W,
    samples: Seq<T>,
    grain: nat,
    silence: T,
    windowed: Seq<T>,
) -> bool {
    let length = grain_length(samples.len(), grain);
    &&& windowed.len() == SAMPLES_PER_GRAIN
    &&& forall|i: int|
        0 <= i < length ==> call_ensures(
            window,
            (samples[grain * SAMPLES_PER_GRAIN + i], i as usize, length as usize),
            #[trigger] windowed[i],
        )
    &&& forall|i: int| length <= i < SAMPLES_PER_GRAIN ==> #[trigger] windowed[i] == silence
}

/// Whether `buffer` is what the first `count` windowed grains of `samples`
/// give when they are merged one after the other, each over the last
/// `overlap` samples of what was merged before.
pub open spec fn overlap_added<T, W: Fn(T, usize, usize) -> T, M: Fn(T, T) -> T>(
    window: W,
    mix: M,
    samples: Seq<T>,
    silence: T,
    overlap: nat,
    count: nat,
    buffer: Seq<T>,
) -> bool
    decreases count,
{
    if count == 0 {
        false
    } else if count == 1 {
        is_windowed_grain(window, samples, 0, silence, buffer)
    } else {
        exists|before: Seq<T>, grain: Seq<T>|
            overlap_added(window, mix, samples, silence, overlap, (count - 1) as nat, before)
                && is_windowed_grain(window, samples, (count - 1) as nat, silence, grain)
                && #[trigger] merged_from(mix, before, grain, overlap, buffer)
    }
}

/// Whether `compressed` is `samples` after compression: the overlap-added
/// windowed grains without the padding of the last grain.
pub open spec fn compressed_from<T, W: Fn(T, usize, usize) -> T, M: Fn(T, T) -> T>(
    window: W,
    mix: M,
    samples: Seq<T>,
    silence: T,
    overlap: nat,
    compressed: Seq<T>,
) -> bool {
    &&& compressed.len() == compressed_length(samples.len(), overlap)
    &&& exists|buffer: Seq<T>|
        #[trigger] overlap_added(
            window,
            mix,
            samples,
            silence,
            overlap,
            grain_count(samples.len()),
            buffer,
        ) && compressed == buffer.take(compressed.len() as int)
}

/// Cuts out one grain of a clip, windows it and fills it up with silence.
fn windowed_grain<T: Copy, W: Fn(T, usize, usize) -> T>(
    samples: &Vec<T>,
    grain: usize,
    silence: T,
    window: &W,
) -> (windowed: Vec<T>)
    requires
        grain * SAMPLES_PER_GRAIN < samples@.len(),
        forall|sample: T, place: usize, length: usize| call_requires(*window, (sample, place, length)),
    ensures
        is_windowed_grain(*window, samples@, grain as nat, silence, windowed@),
{
    let total: usize = samples.len();
    let start: usize = grain * SAMPLES_PER_GRAIN;
    let left: usize = total - start;
    let length: usize = if left >= SAMPLES_PER_GRAIN {
        SAMPLES_PER_GRAIN
    } else {
        left
    };
    assert(length == grain_length(samples@.len(), grain as nat));
    let mut windowed: Vec<T> = Vec::new();
    let mut i: usize = 0;
    while i < length
        invariant
            i <= length <= SAMPLES_PER_GRAIN,
            start + length <= samples@.len(),
            start == grain * SAMPLES_PER_GRAIN,
            windowed@.len() == i,
            forall|sample: T, place: usize, length: usize|
                call_requires(*window, (sample, place, length)),
            forall|k: int|
                0 <= k < i ==> call_ensures(
                    *window,
                    (samples@[grain * SAMPLES_PER_GRAIN + k], k as usize, length),
                    #[trigger] windowed@[k],
                ),
        decreases length - i,
    {
        let shaped: T = window(samples[start + i], i, length);
        windowed.push(shaped);
        i = i + 1;
    }
    while i < SAMPLES_PER_GRAIN
        invariant
            length <= i <= SAMPLES_PER_GRAIN,
            windowed@.len() == i,
            forall|k: int|
                0 <= k < length ==> call_ensures(
                    *window,
                    (samples@[grain * SAMPLES_PER_GRAIN + k], k as usize, length),
                    #[trigger] windowed@[k],
                ),
            forall|k: int| length <= k < i ==> #[trigger] windowed@[k] == silence,
        decreases SAMPLES_PER_GRAIN - i,
    {
        windowed.push(silence);
        i = i + 1;
    }
    windowed
}

/// Compresses a clip in time by overlap-add: the clip is cut into grains,
/// each grain is windowed by `window`, and the grains are merged one after
/// the other with `mix`, each `overlap_len` samples into the one before.
pub fn compress<T: Copy, W: Fn(T, usize, usize) -> T, M: Fn(T, T) -> T>(
    samples: &Vec<T>,
    overlap_len: usize,
    silence: T,
    window: &W,
    mix: &M,
) -> (compressed: Vec<T>)
    requires
        samples@.len() > 0,
        samples@.len() <= usize::MAX - 2 * SAMPLES_PER_GRAIN,
        overlap_len <= SAMPLES_PER_GRAIN,
        forall|sample: T, place: usize, length: usize| call_requires(*window, (sample, place, length)),
        forall|a: T, b: T| call_requires(*mix, (a, b)),
    ensures
        compressed_from(*window, *mix, samples@, silence, overlap_len as nat, compressed@),
{
    let count: usize = (samples.len() - 1) / SAMPLES_PER_GRAIN + 1;
    let padding: usize = count * SAMPLES_PER_GRAIN - samples.len();
    let step: usize = SAMPLES_PER_GRAIN - overlap_len;
    let mut buffer: Vec<T> = windowed_grain(samples, 0, silence, window);
    let mut done: usize = 1;
    while done < count
        invariant
            1 <= done <= count,
            count == grain_count(samples@.len()),
            samples@.len() <= usize::MAX - 2 * SAMPLES_PER_GRAIN,
            overlap_len <= SAMPLES_PER_GRAIN,
            step == SAMPLES_PER_GRAIN - overlap_len,
            buffer@.len() == SAMPLES_PER_GRAIN + (done - 1) * step,
            overlap_added(
                *window,
                *mix,
                samples@,
                silence,
                overlap_len as nat,
                done as nat,
                buffer@,
            ),
            forall|sample: T, place: usize, length: usize|
                call_requires(*window, (sample, place, length)),
            forall|a: T, b: T| call_requires(*mix, (a, b)),
        decreases count - done,
    {
        let grain: Vec<T> = windowed_grain(samples, done, silence, window);
        proof {
            assert((done - 1) * step <= (done - 1) * SAMPLES_PER_GRAIN) by (nonlinear_arith)
                requires
                    done >= 1,
                    step <= SAMPLES_PER_GRAIN,
            ;
        }
        let merged: Vec<T> = merge_grain_into_buffer(&buffer, &grain, overlap_len, mix);
        proof {
            assert(done * step == (done - 1) * step + step) by (nonlinear_arith);
        }
        buffer = merged;
        done = done + 1;
    }
    proof {
        assert((count - 1) * step >= 0) by (nonlinear_arith)
            requires
                count >= 1,
                step >= 0,
        ;
    }
    let length: usize = buffer.len() - padding;
    buffer.truncate(length);
    buffer
}

/// `samples` brought to `target` samples: cut off behind that many, or
/// filled up with silence.
pub open spec fn fitted<T>(samples: Seq<T>, target: nat, silence: T) -> Seq<T> {
    if samples.len() >= target {
        samples.take(target as int)
    } else {
        samples + silent_grain((target - samples.len()) as nat, silence)
    }
}

/// Cuts a clip off behind `target_length` samples, or fills it up with
/// silence to that length.
pub fn fit_to_length<T: Copy>(samples: Vec<T>, target_length: usize, silence: T) -> (fit: Vec<T>)
    ensures
        fit@ == fitted(samples@, target_length as nat, silence),
{
    let mut fit: Vec<T> = samples;
    if fit.len() >= target_length {
        fit.truncate(target_length);
        assert(fit@ =~= fitted(samples@, target_length as nat, silence));
    } else {
        let mut length: usize = fit.len();
        while length < target_length
            invariant
                samples@.len() <= length <= target_length,
                fit@.len() == length,
                fit@ == samples@ + silent_grain((length - samples@.len()) as nat, silence),
            decreases target_length - length,
        {
            fit.push(silence);
            length = length + 1;
            assert(fit@ =~= samples@ + silent_grain((length - samples@.len()) as nat, silence));
        }
    }
    fit
}

/// By how many samples the grains of a clip of `length` samples overlap when
/// the clip is compressed towards `target` samples: the share of a grain
/// that the target is of the clip, rounded down.
pub open spec fn overlap_for(length: nat, target: nat) -> nat
    recommends
        length > 0,
{
    (target * SAMPLES_PER_GRAIN / length as int) as nat
}

/// Whether `normalized` is `samples` brought to `target` samples: a clip of
/// that length as it is, a shorter one with silence behind it, a longer one
/// compressed and then cut off or filled up.
pub open spec fn normalized_from<T, W: Fn(T, usize, usize) -> T, M: Fn(T, T) -> T>(
    window: W,
    mix: M,
    samples: Seq<T>,
    target: nat,
    silence: T,
    normalized: Seq<T>,
) -> bool {
    if samples.len() <= target {
        normalized == fitted(samples, target, silence)
    } else {
        exists|compressed: Seq<T>|
            #[trigger] compressed_from(
                window,
                mix,
                samples,
                silence,
                overlap_for(samples.len(), target),
                compressed,
            ) && normalized == fitted(compressed, target, silence)
    }
}

/// Brings a clip to exactly `target_length` samples. A clip of that length
/// comes back as it is; a shorter one is filled up with silence; a longer
/// one is compressed by overlap-add and then cut off or filled up.
pub fn normalize_sample_length<T: Copy, W: Fn(T, usize, usize) -> T, M: Fn(T, T) -> T>(
    samples: Vec<T>,
    target_length: usize,
    silence: T,
    window: &W,
    mix: &M,
) -> (normalized: Vec<T>)
    requires
        samples@.len() <= usize::MAX - 2 * SAMPLES_PER_GRAIN,
        forall|sample: T, place: usize, length: usize| call_requires(*window, (sample, place, length)),
        forall|a: T, b: T| call_requires(*mix, (a, b)),
    ensures
        normalized@.len() == target_length,
        samples@.len() == target_length ==> normalized@ == samples@,
        samples@.len() < target_length ==> normalized@ == samples@ + silent_grain(
            (target_length - samples@.len()) as nat,
            silence,
        ),
        normalized_from(*window, *mix, samples@, target_length as nat, silence, normalized@),
{
    if samples.len() <= target_length {
        assert(samples@.len() == target_length ==> samples@.take(target_length as int) =~= samples@);
        fit_to_length(samples, target_length, silence)
    } else {
        let length: usize = samples.len();
        proof {
            vstd::arithmetic::div_mod::lemma_div_is_ordered(
                (target_length * SAMPLES_PER_GRAIN) as int,
                (length * SAMPLES_PER_GRAIN) as int,
                length as int,
            );
            vstd::arithmetic::div_mod::lemma_div_multiples_vanish(
                SAMPLES_PER_GRAIN as int,
                length as int,
            );
            assert(target_length * SAMPLES_PER_GRAIN <= length * SAMPLES_PER_GRAIN)
                by (nonlinear_arith)
                requires
                    target_length <= length,
            ;
            assert(length * SAMPLES_PER_GRAIN == SAMPLES_PER_GRAIN * length) by (nonlinear_arith);
        }
        let overlap: u128 = target_length as u128 * SAMPLES_PER_GRAIN as u128 / length as u128;
        assert(overlap == overlap_for(length as nat, target_length as nat));
        let compressed: Vec<T> = compress(&samples, overlap as usize, silence, window, mix);
        let ghost merged = compressed@;
        let normalized: Vec<T> = fit_to_length(compressed, target_length, silence);
        assert(compressed_from(
            *window,
            *mix,
            samples@,
            silence,
            overlap_for(samples@.len(), target_length as nat),
            merged,
        ));
        normalized
    }
}

/// A copy of a clip.
pub fn copy_of<T: Copy>(samples: &Vec<T>) -> (copy: Vec<T>)
    ensures
        copy@ == samples@,
{
    let mut copy: Vec<T> = Vec::new();
    let mut i: usize = 0;
    while i < samples.len()
        invariant
            i <= samples@.len(),
            copy@ == samples@.take(i as int),
        decreases samples@.len() - i,
    {
        copy.push(samples[i]);
        i = i + 1;
        assert(copy@ =~= samples@.take(i as int));
    }
    assert(copy@ =~= samples@);
    copy
}

/// A clip that plays from its start whenever it is triggered and falls
/// silent at its end.
///
/// The clip is kept as it was handed in, and beside it at exactly the length
/// of one beat at the current sample rate; it is the latter that plays.
pub struct Sample<T> {
    raw: Vec<T>,
    samples: Vec<T>,
    secs_per_beat: u64,
    index: usize,
    inputs: Option<SampleInputIterator>,
    clock: Clock,
    play: bool,
    silence: T,
}

/// What a sample player stands for.
pub struct Player<T> {
    /// The clip as it was handed in.
    pub raw: Seq<T>,
    /// The clip at the length of one beat.
    pub samples: Seq<T>,
    /// Microseconds in one beat.
    pub secs_per_beat: u64,
    /// The place of the sample that plays next.
    pub index: nat,
    /// The inputs that are still to come, if there ever were any.
    pub inputs: Option<TriggerQueue>,
    pub clock: ClockView,
    /// Whether the clip is playing.
    pub play: bool,
    /// The sample that stands for silence.
    pub silence: T,
}

impl<T> Player<T> {
    /// The clock is sound and the clip is short enough to be cut into grains.
    pub open spec fn wf(self) -> bool {
        &&& self.clock.wf()
        &&& self.raw.len() <= usize::MAX - 2 * SAMPLES_PER_GRAIN
    }

    /// Microseconds since the start of the player.
    pub open spec fn now(self) -> u64 {
        self.clock.micros as u64
    }

    /// The player after an input: a trigger starts the clip over.
    pub open spec fn with_input(self, input: SampleInput) -> Player<T> {
        match input {
            SampleInput::Trigger => Player { index: 0, play: true, ..self },
        }
    }

    /// The input that has come due, if any.
    pub open spec fn sent(self) -> Option<SampleInputAtTime> {
        match self.inputs {
            Some(inputs) => inputs.sent(self.now()),
            None => None,
        }
    }

    /// The player after its queue was asked for an input that has come due.
    pub open spec fn with_inputs_updated(self) -> Player<T> {
        match self.inputs {
            Some(inputs) => {
                let rest = Player { inputs: Some(inputs.after(self.now())), ..self };
                match inputs.sent(self.now()) {
                    Some(sent) => rest.with_input(sent.input),
                    None => rest,
                }
            },
            None => self,
        }
    }

    /// Whether the next sample comes from the clip.
    pub open spec fn sounding(self) -> bool {
        self.play && self.index < self.samples.len()
    }

    /// The next sample: the one that the clip holds at the cursor while it
    /// plays, silence otherwise.
    pub open spec fn sample(self) -> T {
        if self.sounding() {
            self.samples[self.index as int]
        } else {
            self.silence
        }
    }

    /// The player one sample later: the cursor has moved on, or the clip has
    /// come to its end and stopped.
    pub open spec fn after_sample(self) -> Player<T> {
        let clock = self.clock.advanced(1);
        if self.sounding() {
            Player { index: self.index + 1, clock, ..self }
        } else {
            Player { play: false, clock, ..self }
        }
    }

    /// The player `count` samples later.
    pub open spec fn after_samples(self, count: nat) -> Player<T>
        decreases count,
    {
        if count == 0 {
            self
        } else {
            self.after_samples((count - 1) as nat).after_sample()
        }
    }

    /// The next `count` samples.
    pub open spec fn samples_ahead(self, count: nat) -> Seq<T> {
        Seq::new(count, |i: int| self.after_samples(i as nat).sample())
    }

    /// How far into the beat the cursor is, in microseconds.
    pub open spec fn time_since_start_of_beat(self) -> nat {
        if self.samples.len() == 0 {
            0
        } else if self.index >= self.samples.len() {
            self.secs_per_beat as nat
        } else {
            self.secs_per_beat as nat * self.index / self.samples.len()
        }
    }

    /// The player one grain later: the queue is asked once, then a grain of
    /// samples plays.
    pub open spec fn after_grain(self) -> Player<T> {
        self.with_inputs_updated().after_samples(SAMPLES_PER_GRAIN as nat)
    }
}

/// While no trigger comes, a player that plays hands out its clip from the
/// cursor on, sample by sample, and silence from the end of the clip on.
pub proof fn lemma_player_plays_its_clip<T>(player: Player<T>, count: nat)
    requires
        player.wf(),
        player.play,
        player.index <= player.samples.len(),
    ensures
        player.after_samples(count).index == if player.index + count <= player.samples.len() {
            player.index + count
        } else {
            player.samples.len()
        },
        player.after_samples(count).play == (player.index + count <= player.samples.len()),
        player.after_samples(count).samples == player.samples,
        player.after_samples(count).silence == player.silence,
        player.after_samples(count).sample() == if player.index + count < player.samples.len() {
            player.samples[(player.index + count) as int]
        } else {
            player.silence
        },
    decreases count,
{
    if count > 0 {
        lemma_player_plays_its_clip(player, (count - 1) as nat);
    }
}

/// A player that was just triggered plays its clip from the first sample to
/// the last and is silent from then on.
pub proof fn lemma_triggered_player_plays_from_the_start<T>(player: Player<T>, count: nat)
    requires
        player.wf(),
    ensures
        player.with_input(SampleInput::Trigger).samples_ahead(count) == fitted(
            player.samples,
            count,
            player.silence,
        ),
{
    let triggered = player.with_input(SampleInput::Trigger);
    let ahead = triggered.samples_ahead(count);
    let fit = fitted(player.samples, count, player.silence);
    assert forall|i: int| 0 <= i < count implies ahead[i] == fit[i] by {
        lemma_player_plays_its_clip(triggered, i as nat);
    }
    assert(ahead =~= fit);
}

impl<T> View for Sample<T> {
    type V = Player<T>;

    closed spec fn view(&self) -> Player<T> {
        Player {
            raw: self.raw@,
            samples: self.samples@,
            secs_per_beat: self.secs_per_beat,
            index: self.index as nat,
            inputs: match self.inputs {
                Some(inputs) => Some(inputs@),
                None => None,
            },
            clock: self.clock@,
            play: self.play,
            silence: self.silence,
        }
    }
}

/// The inputs of a player as a queue, in the order of their times: none
/// where there are no inputs.
pub open spec fn queue_of(inputs: Seq<SampleInputAtTime>) -> Option<TriggerQueue> {
    if inputs.len() == 0 {
        None
    } else {
        Some(
            TriggerQueue {
                inputs: input::sorted_by_time(inputs),
                index: 0,
                total_duration: input::sorted_by_time(inputs).last().time,
                repeat_delay: None,
            },
        )
    }
}

impl<T: Copy> Clone for Sample<T> {
    fn clone(&self) -> (copy: Self)
        ensures
            copy@ == self@,
    {
        let inputs: Option<SampleInputIterator> = match &self.inputs {
            Some(inputs) => Some(inputs.clone()),
            None => None,
        };
        Sample {
            raw: copy_of(&self.raw),
            samples: copy_of(&self.samples),
            secs_per_beat: self.secs_per_beat,
            index: self.index,
            inputs,
            clock: self.clock,
            play: self.play,
            silence: self.silence,
        }
    }
}

impl<T: Copy> Sample<T> {
    /// The sample stands for a player that is well formed.
    pub open spec fn wf(&self) -> bool {
        self@.wf()
    }

    /// A player for `samples`, silent until it is triggered. The clip is
    /// brought to the length of one beat: `secs_per_beat` microseconds at
    /// `sample_rate`.
    pub fn new<W: Fn(T, usize, usize) -> T, M: Fn(T, T) -> T>(
        samples: Vec<T>,
        sample_rate: usize,
        secs_per_beat: u64,
        inputs: Vec<SampleInputAtTime>,
        silence: T,
        window: &W,
        mix: &M,
    ) -> (player: Self)
        requires
            sample_rate > 0,
            samples@.len() <= usize::MAX - 2 * SAMPLES_PER_GRAIN,
            samples_in(secs_per_beat as nat, sample_rate as nat) <= usize::MAX,
            forall|sample: T, place: usize, length: usize|
                call_requires(*window, (sample, place, length)),
            forall|a: T, b: T| call_requires(*mix, (a, b)),
        ensures
            player.wf(),
            player@.raw == samples@,
            player@.samples.len() == samples_in(secs_per_beat as nat, sample_rate as nat),
            normalized_from(
                *window,
                *mix,
                samples@,
                samples_in(secs_per_beat as nat, sample_rate as nat),
                silence,
                player@.samples,
            ),
            player@.secs_per_beat == secs_per_beat,
            player@.index == 0,
            player@.inputs == queue_of(inputs@),
            player@.clock == (ClockView { micros: 0, fraction: 0, sample_rate: sample_rate as nat }),
            !player@.play,
            player@.silence == silence,
    {
        let target: usize = beat_length(secs_per_beat, sample_rate);
        let raw: Vec<T> = copy_of(&samples);
        let normalized: Vec<T> = normalize_sample_length(samples, target, silence, window, mix);
        let queue: Option<SampleInputIterator> = if inputs.len() == 0 {
            None
        } else {
            Some(SampleInputIterator::new(inputs, None))
        };
        Sample {
            raw,
            samples: normalized,
            secs_per_beat,
            index: 0,
            inputs: queue,
            clock: Clock::new(sample_rate),
            play: false,
            silence,
        }
    }

    fn handle_input(&mut self, input: SampleInput)
        ensures
            final(self)@ == old(self)@.with_input(input),
    {
        match input {
            SampleInput::Trigger => {
                self.index = 0;
                self.play = true;
            },
        }
    }

    fn update_inputs(&mut self)
        requires
            old(self).wf(),
        ensures
            final(self)@ == old(self)@.with_inputs_updated(),
    {
        let now: u64 = self.clock.now();
        let sent: Option<SampleInputAtTime> = match &mut self.inputs {
            Some(inputs) => inputs.next(now),
            None => None,
        };
        if let Some(input) = sent {
            self.handle_input(input.input);
        }
    }

    /// Lets the player follow another queue of inputs, one that starts over,
    /// say.
    pub fn set_inputs(&mut self, inputs: SampleInputIterator)
        ensures
            final(self)@ == (Player { inputs: Some(inputs@), ..old(self)@ }),
    {
        self.inputs = Some(inputs);
    }

    /// Microseconds in one beat.
    pub fn secs_per_beat(&self) -> (beat: Option<u64>)
        ensures
            beat == Some(self@.secs_per_beat),
    {
        Some(self.secs_per_beat)
    }

    /// Whether the clip is playing.
    pub fn is_playing(&self) -> (play: bool)
        ensures
            play == self@.play,
    {
        self.play
    }

    /// Number of samples in the clip at the length of one beat.
    pub fn len(&self) -> (length: usize)
        ensures
            length == self@.samples.len(),
    {
        self.samples.len()
    }

    /// Hands out the next sample and moves on.
    pub fn next_sample(&mut self) -> (sample: T)
        requires
            old(self).wf(),
        ensures
            final(self).wf(),
            sample == old(self)@.sample(),
            final(self)@ == old(self)@.after_sample(),
    {
        self.clock.tick();
        if self.play && self.index < self.samples.len() {
            let sample: T = self.samples[self.index];
            self.index = self.index + 1;
            sample
        } else {
            self.play = false;
            self.silence
        }
    }

    /// How far into the beat the cursor is, in microseconds.
    pub fn time_since_start_of_beat(&self) -> (time: u64)
        ensures
            time == self@.time_since_start_of_beat(),
    {
        let length: usize = self.samples.len();
        if length == 0 {
            0
        } else if self.index >= length {
            self.secs_per_beat
        } else {
            proof {
                crate::oscillator::lemma_ramp_bounded(
                    self.secs_per_beat as nat,
                    self.index as nat,
                    length as nat,
                );
                assert(self.secs_per_beat * self.index <= 0xFFFF_FFFF_FFFF_FFFF
                    * 0xFFFF_FFFF_FFFF_FFFF) by (nonlinear_arith)
                    requires
                        self.secs_per_beat <= 0xFFFF_FFFF_FFFF_FFFF,
                        self.index <= 0xFFFF_FFFF_FFFF_FFFF,
                ;
            }
            (self.secs_per_beat as u128 * self.index as u128 / length as u128) as u64
        }
    }

    /// Hands out the next grain, together with the time that its effects are
    /// to be told: the queue of inputs is asked once, then a grain of samples
    /// plays.
    pub fn next_grain(&mut self) -> (grain: EffectInput<T>)
        requires
            old(self).wf(),
        ensures
            final(self).wf(),
            final(self)@ == old(self)@.after_grain(),
            grain.grain@ == old(self)@.with_inputs_updated().samples_ahead(SAMPLES_PER_GRAIN as nat),
            grain.time_since_start_of_beat == final(self)@.time_since_start_of_beat(),
    {
        self.update_inputs();
        let ghost start = self@;
        let mut grain: Vec<T> = Vec::new();
        let mut done: usize = 0;
        while done < SAMPLES_PER_GRAIN
            invariant
                done <= SAMPLES_PER_GRAIN,
                self.wf(),
                self@ == start.after_samples(done as nat),
                grain@ == start.samples_ahead(done as nat),
            decreases SAMPLES_PER_GRAIN - done,
        {
            let sample: T = self.next_sample();
            grain.push(sample);
            done = done + 1;
            assert(grain@ =~= start.samples_ahead(done as nat));
        }
        let time_since_start_of_beat: u64 = self.time_since_start_of_beat();
        EffectInput { grain, time_since_start_of_beat }
    }

    /// Goes on at another sample rate: the clip that was handed in is brought
    /// to the length of one beat at that rate.
    pub fn update_sample_rate<W: Fn(T, usize, usize) -> T, M: Fn(T, T) -> T>(
        &mut self,
        sample_rate: usize,
        window: &W,
        mix: &M,
    )
        requires
            old(self).wf(),
            sample_rate > 0,
            samples_in(old(self)@.secs_per_beat as nat, sample_rate as nat) <= usize::MAX,
            forall|sample: T, place: usize, length: usize|
                call_requires(*window, (sample, place, length)),
            forall|a: T, b: T| call_requires(*mix, (a, b)),
        ensures
            final(self).wf(),
            final(self)@.samples.len() == samples_in(
                old(self)@.secs_per_beat as nat,
                sample_rate as nat,
            ),
            normalized_from(
                *window,
                *mix,
                old(self)@.raw,
                samples_in(old(self)@.secs_per_beat as nat, sample_rate as nat),
                old(self)@.silence,
                final(self)@.samples,
            ),
            final(self)@ == (Player {
                samples: final(self)@.samples,
                clock: old(self)@.clock.retimed(sample_rate as nat),
                ..old(self)@
            }),
    {
        let target: usize = beat_length(self.secs_per_beat, sample_rate);
        let raw: Vec<T> = copy_of(&self.raw);
        self.samples = normalize_sample_length(raw, target, self.silence, window, mix);
        self.clock.set_sample_rate(sample_rate);
    }
}

/// Number of samples in a beat of `secs_per_beat` microseconds at
/// `sample_rate`, rounded down.
pub fn beat_length(secs_per_beat: u64, sample_rate: usize) -> (length: usize)
    requires
        samples_in(secs_per_beat as nat, sample_rate as nat) <= usize::MAX,
    ensures
        length == samples_in(secs_per_beat as nat, sample_rate as nat),
{
    proof {
        assert(secs_per_beat * sample_rate <= 0xFFFF_FFFF_FFFF_FFFF * 0xFFFF_FFFF_FFFF_FFFF)
            by (nonlinear_arith)
            requires
                secs_per_beat <= 0xFFFF_FFFF_FFFF_FFFF,
                sample_rate <= 0xFFFF_FFFF_FFFF_FFFF,
        ;
    }
    (secs_per_beat as u128 * sample_rate as u128 / 1_000_000u128) as usize
}

/// Collects what a sample player is made of.
pub struct SampleBuilder<T> {
    samples: Option<Vec<T>>,
    sample_rate: Option<usize>,
    secs_per_beat: Option<u64>,
    inputs: Vec<SampleInputAtTime>,
}

impl<T: Copy> SampleBuilder<T> {
    /// The clip, if one was set.
    pub closed spec fn clip(&self) -> Option<Seq<T>> {
        match self.samples {
            Some(samples) => Some(samples@),
            None => None,
        }
    }

    /// The sample rate, if one was set.
    pub closed spec fn rate(&self) -> Option<usize> {
        self.sample_rate
    }

    /// Microseconds in one beat, if set.
    pub closed spec fn beat(&self) -> Option<u64> {
        self.secs_per_beat
    }

    /// The inputs that were set.
    pub closed spec fn queued(&self) -> Seq<SampleInputAtTime> {
        self.inputs@
    }

    /// A builder with nothing set.
    pub fn new() -> (builder: Self)
        ensures
            builder.clip().is_none(),
            builder.rate().is_none(),
            builder.beat().is_none(),
            builder.queued().len() == 0,
    {
        SampleBuilder { samples: None, sample_rate: None, secs_per_beat: None, inputs: Vec::new() }
    }

    /// Sets the clip.
    pub fn samples(self, samples: Vec<T>) -> (builder: Self)
        ensures
            builder.clip() == Some(samples@),
            builder.rate() == self.rate(),
            builder.beat() == self.beat(),
            builder.queued() == self.queued(),
    {
        SampleBuilder {
            samples: Some(samples),
            sample_rate: self.sample_rate,
            secs_per_beat: self.secs_per_beat,
            inputs: self.inputs,
        }
    }

    /// Sets the sample rate at which the clip is played.
    pub fn with_sample_rate(self, sample_rate: usize) -> (builder: Self)
        ensures
            builder.clip() == self.clip(),
            builder.rate() == Some(sample_rate),
            builder.beat() == self.beat(),
            builder.queued() == self.queued(),
    {
        SampleBuilder {
            samples: self.samples,
            sample_rate: Some(sample_rate),
            secs_per_beat: self.secs_per_beat,
            inputs: self.inputs,
        }
    }

    /// Sets the length of one beat, in microseconds.
    pub fn secs_per_beat(self, secs_per_beat: u64) -> (builder: Self)
        ensures
            builder.clip() == self.clip(),
            builder.rate() == self.rate(),
            builder.beat() == Some(secs_per_beat),
            builder.queued() == self.queued(),
    {
        SampleBuilder {
            samples: self.samples,
            sample_rate: self.sample_rate,
            secs_per_beat: Some(secs_per_beat),
            inputs: self.inputs,
        }
    }

    /// Sets the inputs.
    pub fn inputs(self, inputs: Vec<SampleInputAtTime>) -> (builder: Self)
        ensures
            builder.clip() == self.clip(),
            builder.rate() == self.rate(),
            builder.beat() == self.beat(),
            builder.queued() == inputs@,
    {
        SampleBuilder {
            samples: self.samples,
            sample_rate: self.sample_rate,
            secs_per_beat: self.secs_per_beat,
            inputs,
        }
    }

    /// The player that `Sample::new` makes of what was collected.
    pub fn build<W: Fn(T, usize, usize) -> T, M: Fn(T, T) -> T>(
        self,
        silence: T,
        window: &W,
        mix: &M,
    ) -> (player: Sample<T>)
        requires
            self.clip().is_some(),
            self.rate().is_some(),
            self.beat().is_some(),
            self.rate().unwrap() > 0,
            self.clip().unwrap().len() <= usize::MAX - 2 * SAMPLES_PER_GRAIN,
            samples_in(self.beat().unwrap() as nat, self.rate().unwrap() as nat) <= usize::MAX,
            forall|sample: T, place: usize, length: usize|
                call_requires(*window, (sample, place, length)),
            forall|a: T, b: T| call_requires(*mix, (a, b)),
        ensures
            player.wf(),
            player@.raw == self.clip().unwrap(),
            player@.samples.len() == samples_in(
                self.beat().unwrap() as nat,
                self.rate().unwrap() as nat,
            ),
            normalized_from(
                *window,
                *mix,
                self.clip().unwrap(),
                samples_in(self.beat().unwrap() as nat, self.rate().unwrap() as nat),
                silence,
                player@.samples,
            ),
            player@.secs_per_beat == self.beat().unwrap(),
            player@.index == 0,
            player@.inputs == queue_of(self.queued()),
            player@.clock == (ClockView {
                micros: 0,
                fraction: 0,
                sample_rate: self.rate().unwrap() as nat,
            }),
            !player@.play,
            player@.silence == silence,
    {
        Sample::new(
            self.samples.unwrap(),
            self.sample_rate.unwrap(),
            self.secs_per_beat.unwrap(),
            self.inputs,
            silence,
            window,
            mix,
        )
    }
}

} // verus!
