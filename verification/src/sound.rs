//! Grains: silence, levels and sums.

use vstd::prelude::*;

verus! {

/// Number of samples in one grain, the unit of work passed between stages.
pub const SAMPLES_PER_GRAIN: usize = 512;

/// The level that stands for full scale: a gain of `UNITY` leaves a signal as it is.
pub const UNITY: u32 = 1_000_000;

/// The data passed to an effect.
pub struct EffectInput<T> {
    pub grain: Vec<T>,
    /// Microseconds since the beat began.
    pub time_since_start_of_beat: u64,
}

/// A grain of `length` samples of silence.
pub open spec fn silent_grain<T>(length: nat, silence: T) -> Seq<T> {
    Seq::new(length, |i: int| silence)
}

/// Whether `scaled` is `grain` with `scale` applied to every sample at `gain`.
pub open spec fn scaled_by<T, F: Fn(T, u32) -> T>(
    scale: F,
    grain: Seq<T>,
    gain: u32,
    scaled: Seq<T>,
) -> bool {
    &&& scaled.len() == grain.len()
    &&& forall|i: int|
        0 <= i < grain.len() ==> call_ensures(scale, (grain[i], gain), #[trigger] scaled[i])
}

/// Whether `shaped` is `grain` at the level `gain`: untouched at full scale,
/// silence at zero, and scaled sample by sample by `scale` at any other level.
pub open spec fn at_gain<T, F: Fn(T, u32) -> T>(
    scale: F,
    grain: Seq<T>,
    gain: u32,
    silence: T,
    shaped: Seq<T>,
) -> bool {
    if gain == UNITY {
        shaped == grain
    } else if gain == 0 {
        shaped == silent_grain(grain.len(), silence)
    } else {
        scaled_by(scale, grain, gain, shaped)
    }
}

/// A grain of silence.
pub fn make_silent_grain<T: Copy>(length: usize, silence: T) -> (grain: Vec<T>)
    ensures
        grain@ == silent_grain(length as nat, silence),
{
    let mut grain: Vec<T> = Vec::new();
    let mut i: usize = 0;
    while i < length
        invariant
            i <= length,
            grain@ == silent_grain(i as nat, silence),
        decreases length - i,
    {
        grain.push(silence);
        i = i + 1;
        assert(grain@ =~= silent_grain(i as nat, silence));
    }
    grain
}

/// Brings a grain to the level `gain`, given in millionths of full scale. At
/// full scale the grain comes back as it is, at zero as silence; in between
/// `scale` is asked for each sample.
pub fn apply_gain<T: Copy, F: Fn(T, u32) -> T>(grain: Vec<T>, gain: u32, silence: T, scale: F) -> (shaped:
    Vec<T>)
    requires
        forall|sample: T, level: u32| call_requires(scale, (sample, level)),
    ensures
        shaped@.len() == grain@.len(),
        at_gain(scale, grain@, gain, silence, shaped@),
{
    if gain == UNITY {
        grain
    } else if gain == 0 {
        make_silent_grain(grain.len(), silence)
    } else {
        let mut shaped: Vec<T> = Vec::new();
        let mut i: usize = 0;
        while i < grain.len()
            invariant
                i <= grain@.len(),
                shaped@.len() == i,
                forall|sample: T, level: u32| call_requires(scale, (sample, level)),
                forall|k: int|
                    0 <= k < i ==> call_ensures(scale, (grain@[k], gain), #[trigger] shaped@[k]),
            decreases grain@.len() - i,
        {
            shaped.push(scale(grain[i], gain));
            i = i + 1;
        }
        shaped
    }
}

/// Whether `sum` is what `mix` makes of the samples at `place` of the first
/// `count` grains, taken one after the other and starting from silence.
pub open spec fn summed<T, M: Fn(T, T) -> T>(
    mix: M,
    grains: Seq<Vec<T>>,
    place: int,
    count: nat,
    silence: T,
    sum: T,
) -> bool
    decreases count,
{
    if count == 0 {
        sum == silence
    } else {
        let last = grains[count - 1]@[place];
        exists|before: T|
            summed(mix, grains, place, (count - 1) as nat, silence, before) && #[trigger] call_ensures(
                mix,
                (before, last),
                sum,
            )
    }
}

/// Whether every grain has `length` samples.
pub open spec fn all_of_length<T>(grains: Seq<Vec<T>>, length: nat) -> bool {
    forall|k: int| 0 <= k < grains.len() ==> (#[trigger] grains[k])@.len() == length
}

/// Sums grains sample by sample, in the order given and without weights:
/// the balance between them is the caller's business. No grains give
/// silence.
pub fn mix_grains<T: Copy, M: Fn(T, T) -> T>(
    grains: &Vec<Vec<T>>,
    length: usize,
    silence: T,
    mix: &M,
) -> (mixed: Vec<T>)
    requires
        all_of_length(grains@, length as nat),
        forall|a: T, b: T| call_requires(*mix, (a, b)),
    ensures
        mixed@.len() == length,
        forall|i: int|
            0 <= i < length ==> summed(*mix, grains@, i, grains@.len(), silence, #[trigger] mixed@[i]),
{
    let mut mixed: Vec<T> = make_silent_grain(length, silence);
    let mut k: usize = 0;
    while k < grains.len()
        invariant
            k <= grains@.len(),
            mixed@.len() == length,
            all_of_length(grains@, length as nat),
            forall|a: T, b: T| call_requires(*mix, (a, b)),
            forall|i: int|
                0 <= i < length ==> summed(*mix, grains@, i, k as nat, silence, #[trigger] mixed@[i]),
        decreases grains@.len() - k,
    {
        let grain: &Vec<T> = &grains[k];
        let mut i: usize = 0;
        while i < length
            invariant
                i <= length,
                k < grains@.len(),
                grain == grains@[k as int],
                grain@.len() == length,
                mixed@.len() == length,
                forall|a: T, b: T| call_requires(*mix, (a, b)),
                forall|j: int|
                    0 <= j < i ==> summed(
                        *mix,
                        grains@,
                        j,
                        (k + 1) as nat,
                        silence,
                        #[trigger] mixed@[j],
                    ),
                forall|j: int|
                    i <= j < length ==> summed(*mix, grains@, j, k as nat, silence, #[trigger] mixed@[j]),
            decreases length - i,
        {
            let before: T = mixed[i];
            let sum: T = mix(before, grain[i]);
            mixed[i] = sum;
            assert(summed(*mix, grains@, i as int, (k + 1) as nat, silence, sum)) by {
                let last = grains@[(k + 1) as nat - 1]@[i as int];
                assert(summed(*mix, grains@, i as int, ((k + 1) as nat - 1) as nat, silence, before));
                assert(call_ensures(*mix, (before, last), sum));
            }
            i = i + 1;
        }
        k = k + 1;
    }
    mixed
}

} // verus!
