//! The whole-number side of the effects: the layout of a ladder filter, the
//! memory of a tape delay and the step sequencer.

use crate::oscillator::noise::random_in_range;
use crate::sound::{apply_gain, at_gain, make_silent_grain, silent_grain, EffectInput, UNITY};
use vstd::prelude::*;

verus! {

/// A change that an effect asks of the oscillator it is attached to.
#[derive(Clone, Copy, Debug, PartialEq, Eq, Structural)]
pub enum OscillatorChange {
    /// Retune to a frequency given in millihertz.
    Frequency(u32),
}

/// What an effect hands back.
pub struct EffectOutput<T> {
    pub grain: Vec<T>,
    pub oscillator_changes: Vec<OscillatorChange>,
}

/// Which part of the spectrum a filter lets pass.
#[derive(Clone, Copy, Debug, PartialEq, Eq, Structural)]
pub enum FilterType {
    LowPass,
    HighPass,
    BandPass,
    Notch,
}

/// The layout of a ladder filter: a row of one-pole stages and the way in
/// which the outputs along the row are read.
///
/// Stage output `0` is the sample that enters the filter, stage output `k`
/// what leaves pole `k`, counted from one.
#[derive(Clone, Copy, Debug, PartialEq, Eq, Structural)]
pub struct Filter {
    pub mode: FilterType,
    pub num_poles: usize,
}

/// The stage whose output a band-pass sets against the last one: the middle
/// of the row, or the input where the row has fewer than two poles.
pub open spec fn band_pass_tap(num_poles: nat) -> nat {
    if num_poles >= 2 {
        num_poles / 2
    } else {
        0
    }
}

/// The weight with which stage output `stage` enters what is read from a
/// filter; the sum over all stages is then divided by `readout_divisor`.
///
/// A low-pass reads the last output alone. A high-pass reads the input and
/// all outputs with alternating signs, the first pole's output negative. A
/// band-pass sets the middle output against the last. A notch reads half of
/// the input.
pub open spec fn tap_weight(mode: FilterType, num_poles: nat, stage: nat) -> int {
    match mode {
        FilterType::LowPass => if stage == num_poles {
            1
        } else {
            0
        },
        FilterType::HighPass => if stage > num_poles {
            0
        } else if stage == 0 || stage % 2 == 0 {
            1
        } else {
            -1
        },
        FilterType::BandPass => (if stage == band_pass_tap(num_poles) {
            1int
        } else {
            0int
        }) - (if stage == num_poles {
            1int
        } else {
            0int
        }),
        FilterType::Notch => if stage == 0 {
            1
        } else {
            0
        },
    }
}

/// By what the weighted sum of the stage outputs is divided.
pub open spec fn readout_divisor(mode: FilterType) -> int {
    match mode {
        FilterType::Notch => 2,
        _ => 1,
    }
}

impl Filter {
    /// The layout of a filter of `num_poles` poles read as `mode` says.
    pub fn new(mode: FilterType, num_poles: usize) -> (filter: Self)
        ensures
            filter == (Filter { mode, num_poles }),
    {
        Filter { mode, num_poles }
    }

    /// The layout of a low-pass.
    pub fn new_low_pass(num_poles: usize) -> (filter: Self)
        ensures
            filter == (Filter { mode: FilterType::LowPass, num_poles }),
    {
        Filter::new(FilterType::LowPass, num_poles)
    }

    /// The layout of a high-pass.
    pub fn new_high_pass(num_poles: usize) -> (filter: Self)
        ensures
            filter == (Filter { mode: FilterType::HighPass, num_poles }),
    {
        Filter::new(FilterType::HighPass, num_poles)
    }

    /// The layout of a band-pass.
    pub fn new_band_pass(num_poles: usize) -> (filter: Self)
        ensures
            filter == (Filter { mode: FilterType::BandPass, num_poles }),
    {
        Filter::new(FilterType::BandPass, num_poles)
    }

    /// The layout of a notch.
    pub fn new_notch(num_poles: usize) -> (filter: Self)
        ensures
            filter == (Filter { mode: FilterType::Notch, num_poles }),
    {
        Filter::new(FilterType::Notch, num_poles)
    }

    /// Whether the output of the last pole is fed back into the input: only a
    /// row of exactly four poles does so.
    pub fn has_feedback(&self) -> (fed_back: bool)
        ensures
            fed_back == (self.num_poles == 4),
    {
        self.num_poles == 4
    }

    /// The weight of one stage output in what is read from the filter.
    pub fn stage_weight(&self, stage: usize) -> (weight: i8)
        ensures
            weight == tap_weight(self.mode, self.num_poles as nat, stage as nat),
    {
        match self.mode {
            FilterType::LowPass => if stage == self.num_poles {
                1
            } else {
                0
            },
            FilterType::HighPass => if stage > self.num_poles {
                0
            } else if stage % 2 == 0 {
                1
            } else {
                -1
            },
            FilterType::BandPass => {
                let middle: usize = if self.num_poles >= 2 {
                    self.num_poles / 2
                } else {
                    0
                };
                let gained: i8 = if stage == middle {
                    1
                } else {
                    0
                };
                let lost: i8 = if stage == self.num_poles {
                    1
                } else {
                    0
                };
                gained - lost
            },
            FilterType::Notch => if stage == 0 {
                1
            } else {
                0
            },
        }
    }

    /// By what the weighted sum of the stage outputs is divided.
    pub fn divisor(&self) -> (divisor: i8)
        ensures
            divisor == readout_divisor(self.mode),
    {
        match self.mode {
            FilterType::Notch => 2,
            _ => 1,
        }
    }
}

/// The memory of a tape delay: the samples that were written last, oldest
/// first. It is laid out for `read_offset + extra_space` samples, of which it
/// keeps `read_offset`; the rest is room for the read head to wander.
pub struct TapeDelay<T> {
    buffer: Vec<T>,
    read_offset: usize,
    extra_space: usize,
}

/// What the memory of a tape delay stands for.
pub struct Tape<T> {
    pub buffer: Seq<T>,
    pub read_offset: nat,
    pub extra_space: nat,
}

/// The number of samples that `micros` microseconds take at `sample_rate`,
/// rounded down.
pub open spec fn samples_in(micros: nat, sample_rate: nat) -> nat {
    micros * sample_rate / 1_000_000
}

/// `share` millionths of `whole`, rounded down.
pub open spec fn millionths_of(whole: nat, share: nat) -> nat {
    whole * share / 1_000_000
}

impl<T> Tape<T> {
    /// The tape holds no more samples than the delay is long, or one where
    /// there is no delay.
    pub open spec fn wf(self) -> bool {
        self.buffer.len() <= self.read_offset || self.buffer.len() <= 1
    }

    /// The tape after all of `samples` were written, one after the other.
    pub open spec fn pushed_all(self, samples: Seq<T>) -> Tape<T>
        decreases samples.len(),
    {
        if samples.len() == 0 {
            self
        } else {
            self.pushed_all(samples.drop_last()).pushed(samples.last())
        }
    }

    /// Whether memory can hold a tape of this layout.
    pub open spec fn fits(self) -> bool {
        self.read_offset + self.extra_space <= usize::MAX
    }

    /// Whether as many samples were written as the delay is long.
    pub open spec fn filled(self) -> bool {
        self.buffer.len() >= self.read_offset
    }

    /// The place that a read with the head moved by `offset` samples looks at.
    pub open spec fn read_index(self, offset: int) -> int {
        if self.extra_space + offset < 0 {
            0
        } else {
            self.extra_space + offset
        }
    }

    /// What a read with the head moved by `offset` samples finds: nothing
    /// until the tape is filled, and nothing beyond its end.
    pub open spec fn read(self, offset: int) -> Option<T> {
        if self.filled() && self.read_index(offset) < self.buffer.len() {
            Some(self.buffer[self.read_index(offset)])
        } else {
            None
        }
    }

    /// The tape after `sample` was written: once it is filled, the oldest
    /// sample makes room.
    pub open spec fn pushed(self, sample: T) -> Tape<T> {
        if self.filled() && self.buffer.len() > 0 {
            Tape { buffer: self.buffer.subrange(1, self.buffer.len() as int).push(sample), ..self }
        } else {
            Tape { buffer: self.buffer.push(sample), ..self }
        }
    }
}

/// Writing keeps a tape within its length.
pub proof fn lemma_tape_stays_within_length<T>(tape: Tape<T>, sample: T)
    requires
        tape.wf(),
    ensures
        tape.pushed(sample).wf(),
        tape.pushed(sample).buffer.last() == sample,
{
}

/// A tape holds what was written last: once as many samples were written as
/// the delay is long, the tape is those that were written last, oldest
/// first, whatever it held before.
pub proof fn lemma_tape_holds_the_latest<T>(tape: Tape<T>, samples: Seq<T>)
    requires
        tape.wf(),
        tape.read_offset > 0,
        samples.len() >= tape.read_offset,
    ensures
        tape.pushed_all(samples).buffer == samples.subrange(
            samples.len() - tape.read_offset,
            samples.len() as int,
        ),
{
    lemma_tape_tail(tape, samples);
}

/// What a tape holds after writing are the samples written last, behind what
/// is left of those it held before.
proof fn lemma_tape_tail<T>(tape: Tape<T>, samples: Seq<T>)
    requires
        tape.wf(),
        tape.read_offset > 0,
    ensures
        tape.pushed_all(samples).wf(),
        tape.pushed_all(samples).read_offset == tape.read_offset,
        tape.pushed_all(samples).buffer.len() == if tape.buffer.len() + samples.len()
            <= tape.read_offset {
            tape.buffer.len() + samples.len()
        } else {
            tape.read_offset
        },
        tape.pushed_all(samples).buffer == (tape.buffer + samples).subrange(
            (tape.buffer + samples).len() - tape.pushed_all(samples).buffer.len(),
            (tape.buffer + samples).len() as int,
        ),
        samples.len() >= tape.read_offset ==> tape.pushed_all(samples).buffer == samples.subrange(
            samples.len() - tape.read_offset,
            samples.len() as int,
        ),
    decreases samples.len(),
{
    let all = tape.buffer + samples;
    if samples.len() == 0 {
        assert(all =~= tape.buffer);
        assert(tape.buffer.subrange(0, tape.buffer.len() as int) =~= tape.buffer);
    } else {
        let rest = samples.drop_last();
        let before = tape.pushed_all(rest);
        lemma_tape_tail(tape, rest);
        let after = before.pushed(samples.last());
        let earlier = tape.buffer + rest;
        assert(all =~= earlier.push(samples.last()));
        assert(after.buffer =~= all.subrange(all.len() - after.buffer.len(), all.len() as int));
    }
    let held = tape.pushed_all(samples).buffer;
    if samples.len() >= tape.read_offset {
        assert(held =~= samples.subrange(samples.len() - tape.read_offset, samples.len() as int));
    }
}

impl<T> View for TapeDelay<T> {
    type V = Tape<T>;

    closed spec fn view(&self) -> Tape<T> {
        Tape {
            buffer: self.buffer@,
            read_offset: self.read_offset as nat,
            extra_space: self.extra_space as nat,
        }
    }
}

impl<T: Copy> Clone for TapeDelay<T> {
    fn clone(&self) -> (copy: Self)
        ensures
            copy@ == self@,
    {
        let mut buffer: Vec<T> = Vec::new();
        let mut i: usize = 0;
        while i < self.buffer.len()
            invariant
                i <= self.buffer@.len(),
                buffer@ == self.buffer@.take(i as int),
            decreases self.buffer@.len() - i,
        {
            buffer.push(self.buffer[i]);
            i = i + 1;
            assert(buffer@ =~= self.buffer@.take(i as int));
        }
        assert(buffer@ =~= self.buffer@);
        TapeDelay { buffer, read_offset: self.read_offset, extra_space: self.extra_space }
    }
}

impl<T: Copy> TapeDelay<T> {
    /// An empty tape for a delay of `read_delay` microseconds whose read head
    /// wanders by up to `wow_range_pct` and `flutter_range_pct` millionths of
    /// the delay. `None` where the tape would be longer than memory can hold.
    pub fn new(read_delay: u64, wow_range_pct: u32, flutter_range_pct: u32, sample_rate: usize) -> (tape:
        Option<Self>)
        ensures
            tape.is_some() <==> Self::layout(
                read_delay,
                wow_range_pct,
                flutter_range_pct,
                sample_rate,
            ).fits(),
            tape.is_some() ==> tape.unwrap()@.wf() && tape.unwrap()@ == Self::layout(
                read_delay,
                wow_range_pct,
                flutter_range_pct,
                sample_rate,
            ),
    {
        proof {
            lemma_share_bounded(read_delay as nat, wow_range_pct as nat);
            lemma_share_bounded(read_delay as nat, flutter_range_pct as nat);
        }
        let wow_range: u128 = read_delay as u128 * wow_range_pct as u128 / 1_000_000u128;
        let flutter_range: u128 = read_delay as u128 * flutter_range_pct as u128 / 1_000_000u128;
        let extra_micros: u128 = wow_range + flutter_range;
        let extra_space: u128 = match extra_micros.checked_mul(sample_rate as u128) {
            Some(product) => product / 1_000_000u128,
            None => {
                return None;
            },
        };
        proof {
            lemma_delay_fits(read_delay as nat, sample_rate as nat);
        }
        let read_offset: u128 = read_delay as u128 * sample_rate as u128 / 1_000_000u128;
        if read_offset + extra_space > usize::MAX as u128 {
            None
        } else {
            Some(
                TapeDelay {
                    buffer: Vec::new(),
                    read_offset: read_offset as usize,
                    extra_space: extra_space as usize,
                },
            )
        }
    }

    /// The layout of a new tape.
    pub open spec fn layout(
        read_delay: u64,
        wow_range_pct: u32,
        flutter_range_pct: u32,
        sample_rate: usize,
    ) -> Tape<T> {
        let wow_range = millionths_of(read_delay as nat, wow_range_pct as nat);
        let flutter_range = millionths_of(read_delay as nat, flutter_range_pct as nat);
        Tape {
            buffer: Seq::empty(),
            read_offset: samples_in(read_delay as nat, sample_rate as nat),
            extra_space: samples_in(wow_range + flutter_range, sample_rate as nat),
        }
    }

    /// A tape whose read head wanders a little: by a thousandth of the delay
    /// slowly and by five thousandths fast.
    pub fn light(delay: u64, sample_rate: usize) -> (tape: Option<Self>)
        ensures
            tape.is_some() <==> Self::layout(delay, 1_000, 5_000, sample_rate).fits(),
            tape.is_some() ==> tape.unwrap()@ == Self::layout(delay, 1_000, 5_000, sample_rate),
    {
        Self::new(delay, 1_000, 5_000, sample_rate)
    }

    /// Writes `sample` behind the newest sample.
    pub fn push_sample_to_buffer(&mut self, sample: T)
        ensures
            final(self)@ == old(self)@.pushed(sample),
            old(self)@.wf() ==> final(self)@.wf(),
    {
        if self.buffer.len() >= self.read_offset && self.buffer.len() > 0 {
            let _ = self.buffer.remove(0);
        }
        self.buffer.push(sample);
        assert(self.buffer@ =~= old(self)@.pushed(sample).buffer);
    }

    /// Reads the delayed sample with the head moved by `offset` samples; no
    /// sample means silence.
    pub fn read_sample_from_buffer(&self, offset: i64) -> (sample: Option<T>)
        ensures
            sample == self@.read(offset as int),
    {
        if self.buffer.len() < self.read_offset {
            return None;
        }
        let place: i128 = self.extra_space as i128 + offset as i128;
        let index: i128 = if place < 0 {
            0
        } else {
            place
        };
        if index < self.buffer.len() as i128 {
            Some(self.buffer[index as usize])
        } else {
            None
        }
    }

    /// Whether as many samples were written as the delay is long.
    pub fn is_filled(&self) -> (filled: bool)
        ensures
            filled == self@.filled(),
    {
        self.buffer.len() >= self.read_offset
    }

    /// Number of samples on the tape.
    pub fn len(&self) -> (length: usize)
        ensures
            length == self@.buffer.len(),
    {
        self.buffer.len()
    }
}

proof fn lemma_share_bounded(whole: nat, share: nat)
    requires
        whole <= u64::MAX,
        share <= u32::MAX,
    ensures
        whole * share <= 0xFFFF_FFFF_FFFF_FFFF * 0xFFFF_FFFF,
        millionths_of(whole, share) <= 0xFFFF_FFFF_FFFF_FFFF * 0xFFFF_FFFF,
{
    assert(whole * share <= 0xFFFF_FFFF_FFFF_FFFF * 0xFFFF_FFFF) by (nonlinear_arith)
        requires
            whole <= 0xFFFF_FFFF_FFFF_FFFF,
            share <= 0xFFFF_FFFF,
    ;
    assert(whole * share / 1_000_000 <= whole * share);
}

proof fn lemma_delay_fits(micros: nat, sample_rate: nat)
    requires
        micros <= u64::MAX,
        sample_rate <= u64::MAX,
    ensures
        micros * sample_rate <= 0xFFFF_FFFF_FFFF_FFFF * 0xFFFF_FFFF_FFFF_FFFF,
{
    assert(micros * sample_rate <= 0xFFFF_FFFF_FFFF_FFFF * 0xFFFF_FFFF_FFFF_FFFF)
        by (nonlinear_arith)
        requires
            micros <= 0xFFFF_FFFF_FFFF_FFFF,
            sample_rate <= 0xFFFF_FFFF_FFFF_FFFF,
    ;
}

/// What a pattern does with one beat.
#[derive(Clone, Copy, Debug, PartialEq, Eq, Structural)]
pub enum Beat {
    /// The grain passes as it is.
    Play,
    /// The grain is replaced by silence.
    Skip,
    /// The grain passes at the given level, in millionths of full scale.
    PlayWithVolume(u32),
}

impl Beat {
    /// The level at which the beat lets a grain pass.
    pub open spec fn volume(self) -> nat {
        match self {
            Beat::Play => UNITY as nat,
            Beat::Skip => 0,
            Beat::PlayWithVolume(volume) => volume as nat,
        }
    }

    /// The most by which `humanize` moves the level of the beat: `range`
    /// millionths of the level, rounded down.
    pub open spec fn sway(self, range: u32) -> nat {
        millionths_of(self.volume(), range as nat)
    }

    /// The beat with its level moved by `offset`, held between nothing and the
    /// largest level that can be counted. A skipped beat stays skipped, and an
    /// offset of zero changes no beat.
    pub open spec fn perturbed(self, offset: int) -> Beat {
        if self is Skip || offset == 0 {
            self
        } else if self.volume() + offset < 0 {
            Beat::PlayWithVolume(0)
        } else if self.volume() + offset > u32::MAX {
            Beat::PlayWithVolume(u32::MAX)
        } else {
            Beat::PlayWithVolume((self.volume() + offset) as u32)
        }
    }

    /// The level at which the beat lets a grain pass.
    pub fn level(self) -> (volume: u32)
        ensures
            volume == self.volume(),
    {
        match self {
            Beat::Play => UNITY,
            Beat::Skip => 0,
            Beat::PlayWithVolume(volume) => volume,
        }
    }

    /// The beat with its level moved by `offset`.
    pub fn perturb(self, offset: i64) -> (beat: Beat)
        ensures
            beat == self.perturbed(offset as int),
    {
        match self {
            Beat::Skip => Beat::Skip,
            _ => {
                if offset == 0 {
                    self
                } else {
                    let moved: i128 = self.level() as i128 + offset as i128;
                    if moved < 0 {
                        Beat::PlayWithVolume(0)
                    } else if moved > u32::MAX as i128 {
                        Beat::PlayWithVolume(u32::MAX)
                    } else {
                        Beat::PlayWithVolume(moved as u32)
                    }
                }
            },
        }
    }
}

/// A step sequencer: a row of beats that gates the grains passing through.
///
/// The pattern starts on its first beat. It reads the time since the beat
/// began that comes with every grain: when that time is earlier than it was
/// for the grain before, a new beat has begun, and the pattern moves on to
/// its next beat, from the last one back to the first.
pub struct Pattern {
    beats: Vec<Beat>,
    beat: usize,
    last_time: Option<u64>,
}

/// What a pattern stands for.
pub struct Sequence {
    pub beats: Seq<Beat>,
    /// The place of the current beat in the row.
    pub beat: nat,
    /// The time since the beat began that came with the last grain.
    pub last_time: Option<u64>,
}

impl Sequence {
    /// The current beat is one of the row.
    pub open spec fn wf(self) -> bool {
        self.beat < self.beats.len()
    }

    /// Whether a grain that comes with `time` belongs to a new beat.
    pub open spec fn begins_beat(self, time: u64) -> bool {
        match self.last_time {
            Some(last) => time < last,
            None => false,
        }
    }

    /// The sequence after a grain that came with `time`.
    pub open spec fn after(self, time: u64) -> Sequence {
        Sequence {
            beats: self.beats,
            beat: if self.begins_beat(time) {
                (self.beat + 1) % self.beats.len()
            } else {
                self.beat
            },
            last_time: Some(time),
        }
    }

    /// The beat that the sequence is on.
    pub open spec fn current(self) -> Beat
        recommends
            self.wf(),
    {
        self.beats[self.beat as int]
    }
}

/// Whether `after` is `before` with its level moved by some offset of at most
/// `range` millionths of that level.
pub open spec fn swayed(before: Beat, range: u32, after: Beat) -> bool {
    exists|offset: int|
        -before.sway(range) <= offset <= before.sway(range) && after == #[trigger] before.perturbed(
            offset,
        )
}

/// Whether `after` is what a call of `humanize` with `range` can leave of
/// `before`: every beat moved by some offset within its sway.
pub open spec fn humanized(before: Seq<Beat>, range: u32, after: Seq<Beat>) -> bool {
    &&& after.len() == before.len()
    &&& forall|i: int| 0 <= i < before.len() ==> swayed(before[i], range, #[trigger] after[i])
}

impl Sequence {
    /// The sequence after `count` grains that each began a new beat.
    pub open spec fn after_beats(self, count: nat) -> Sequence
        decreases count,
    {
        if count == 0 {
            self
        } else {
            let before = self.after_beats((count - 1) as nat);
            Sequence { beat: (before.beat + 1) % before.beats.len(), ..before }
        }
    }
}

/// New beats move a pattern along its row and from the end back to the
/// start.
pub proof fn lemma_pattern_moves_along(sequence: Sequence, count: nat)
    requires
        sequence.wf(),
    ensures
        sequence.after_beats(count).beats == sequence.beats,
        sequence.after_beats(count).beat == (sequence.beat + count) % sequence.beats.len(),
    decreases count,
{
    let length = sequence.beats.len() as int;
    if count == 0 {
        vstd::arithmetic::div_mod::lemma_small_mod(sequence.beat, length as nat);
    } else {
        lemma_pattern_moves_along(sequence, (count - 1) as nat);
        vstd::arithmetic::div_mod::lemma_add_mod_noop(sequence.beat + count - 1, 1, length);
        vstd::arithmetic::div_mod::lemma_mod_twice(sequence.beat + count - 1, length);
        vstd::arithmetic::div_mod::lemma_add_mod_noop(
            (sequence.beat + count - 1) % length,
            1,
            length,
        );
    }
}

/// A pattern goes round: after as many new beats as it has beats it is back
/// on the beat it was on.
pub proof fn lemma_pattern_goes_round(sequence: Sequence)
    requires
        sequence.wf(),
    ensures
        sequence.after_beats(sequence.beats.len()) == (Sequence {
            last_time: sequence.after_beats(sequence.beats.len()).last_time,
            ..sequence
        }),
{
    let length = sequence.beats.len() as int;
    lemma_pattern_moves_along(sequence, sequence.beats.len());
    vstd::arithmetic::div_mod::lemma_mod_add_multiples_vanish(sequence.beat as int, length);
    vstd::arithmetic::div_mod::lemma_small_mod(sequence.beat, length as nat);
    assert(length + sequence.beat == sequence.beat + length);
}

/// With a range of zero `humanize` leaves every beat as it is.
pub proof fn lemma_humanize_by_nothing(before: Seq<Beat>, after: Seq<Beat>)
    requires
        humanized(before, 0, after),
    ensures
        after == before,
{
    assert forall|i: int| 0 <= i < before.len() implies after[i] == before[i] by {
        assert(swayed(before[i], 0, after[i]));
        assert(before[i].volume() * 0 == 0) by (nonlinear_arith);
    }
    assert(after =~= before);
}

/// `humanize` never turns a skipped beat into one that plays, nor moves a
/// level by more than its sway.
pub proof fn lemma_humanize_stays_in_range(before: Seq<Beat>, range: u32, after: Seq<Beat>, i: int)
    requires
        humanized(before, range, after),
        0 <= i < before.len(),
    ensures
        before[i] is Skip ==> after[i] is Skip,
        !(before[i] is Skip) ==> before[i].volume() - before[i].sway(range) <= after[i].volume()
            <= before[i].volume() + before[i].sway(range),
{
    assert(swayed(before[i], range, after[i]));
}

impl View for Pattern {
    type V = Sequence;

    closed spec fn view(&self) -> Sequence {
        Sequence { beats: self.beats@, beat: self.beat as nat, last_time: self.last_time }
    }
}

impl Clone for Pattern {
    fn clone(&self) -> (copy: Self)
        ensures
            copy@ == self@,
    {
        let mut beats: Vec<Beat> = Vec::new();
        let mut i: usize = 0;
        while i < self.beats.len()
            invariant
                i <= self.beats@.len(),
                beats@ == self.beats@.take(i as int),
            decreases self.beats@.len() - i,
        {
            beats.push(self.beats[i]);
            i = i + 1;
            assert(beats@ =~= self.beats@.take(i as int));
        }
        assert(beats@ =~= self.beats@);
        Pattern { beats, beat: self.beat, last_time: self.last_time }
    }
}

impl Pattern {
    /// The pattern stands for a sequence whose current beat is one of the row.
    pub open spec fn wf(&self) -> bool {
        self@.wf()
    }

    /// A pattern on its first beat.
    pub fn new(beats: Vec<Beat>) -> (pattern: Self)
        requires
            beats@.len() > 0,
        ensures
            pattern.wf(),
            pattern@ == (Sequence { beats: beats@, beat: 0, last_time: None }),
    {
        Pattern { beats, beat: 0, last_time: None }
    }

    /// The place of the current beat in the row.
    pub fn beat_index(&self) -> (beat: usize)
        ensures
            beat == self@.beat,
    {
        self.beat
    }

    /// The beat at `index`.
    pub fn beat_at(&self, index: usize) -> (beat: Beat)
        requires
            index < self@.beats.len(),
        ensures
            beat == self@.beats[index as int],
    {
        self.beats[index]
    }

    /// Moves the level of every beat that is not skipped by a random offset
    /// of at most `range` millionths of that level, drawn anew for each beat
    /// with `rand::random_range`.
    ///
    /// With a range of zero nothing changes.
    pub fn humanize(&mut self, range: u32)
        requires
            old(self).wf(),
        ensures
            final(self).wf(),
            final(self)@.beat == old(self)@.beat,
            final(self)@.last_time == old(self)@.last_time,
            humanized(old(self)@.beats, range, final(self)@.beats),
            range == 0 ==> final(self)@ == old(self)@,
    {
        let ghost before = self.beats@;
        let mut i: usize = 0;
        while i < self.beats.len()
            invariant
                i <= before.len(),
                self.beats@.len() == before.len(),
                self.beat == old(self).beat,
                self.last_time == old(self).last_time,
                forall|k: int| 0 <= k < i ==> swayed(before[k], range, #[trigger] self.beats@[k]),
                forall|k: int| i <= k < before.len() ==> #[trigger] self.beats@[k] == before[k],
                range == 0 ==> self.beats@ == before,
            decreases before.len() - i,
        {
            let beat: Beat = self.beats[i];
            let level: u32 = beat.level();
            proof {
                assert(level * range <= 0xFFFF_FFFF * 0xFFFF_FFFF) by (nonlinear_arith)
                    requires
                        level <= 0xFFFF_FFFF,
                        range <= 0xFFFF_FFFF,
                ;
                assert(range == 0 ==> level * range == 0) by (nonlinear_arith);
            }
            let sway: u64 = (level as u64 * range as u64) / 1_000_000;
            let offset: i64 = random_in_range(-(sway as i64), sway as i64);
            let moved: Beat = beat.perturb(offset);
            self.beats[i] = moved;
            proof {
                assert(before[i as int].sway(range) == sway);
                assert(self.beats@[i as int] == before[i as int].perturbed(offset as int));
                if range == 0 {
                    assert(sway == 0);
                    assert(self.beats@ =~= before);
                }
            }
            i = i + 1;
        }
        proof {
            if range == 0 {
                assert(self@ == old(self)@);
            }
        }
    }

    /// Gates one grain. A grain on a played beat passes as it is, a grain on
    /// a skipped beat comes back as silence, and a grain on a beat with a
    /// level is scaled to that level by `scale`, sample by sample. A pattern
    /// asks no change of an oscillator.
    pub fn apply<T: Copy, F: Fn(T, u32) -> T>(&mut self, input: EffectInput<T>, silence: T, scale: F) -> (output:
        EffectOutput<T>)
        requires
            old(self).wf(),
            forall|sample: T, level: u32| call_requires(scale, (sample, level)),
        ensures
            final(self).wf(),
            final(self)@ == old(self)@.after(input.time_since_start_of_beat),
            output.oscillator_changes@.len() == 0,
            output.grain@.len() == input.grain@.len(),
            match final(self)@.current() {
                Beat::Play => output.grain@ == input.grain@,
                Beat::Skip => output.grain@ == silent_grain(input.grain@.len(), silence),
                Beat::PlayWithVolume(volume) => at_gain(
                    scale,
                    input.grain@,
                    volume,
                    silence,
                    output.grain@,
                ),
            },
    {
        let time: u64 = input.time_since_start_of_beat;
        let begins: bool = match self.last_time {
            Some(last) => time < last,
            None => false,
        };
        proof {
            let length = self.beats@.len() as int;
            if self.beat + 1 < length {
                vstd::arithmetic::div_mod::lemma_small_mod((self.beat + 1) as nat, length as nat);
            } else {
                vstd::arithmetic::div_mod::lemma_mod_self_0(length);
            }
        }
        let length: usize = self.beats.len();
        if begins {
            self.beat = if self.beat + 1 < length {
                self.beat + 1
            } else {
                0
            };
        }
        self.last_time = Some(time);
        let grain: Vec<T> = match self.beats[self.beat] {
            Beat::Play => input.grain,
            Beat::Skip => make_silent_grain(input.grain.len(), silence),
            Beat::PlayWithVolume(volume) => apply_gain(input.grain, volume, silence, scale),
        };
        EffectOutput { grain, oscillator_changes: Vec::new() }
    }
}

} // verus!
