//! White and pink noise in whole numbers.

use vstd::arithmetic::power2::{lemma2_to64, lemma2_to64_rest, lemma_pow2_strictly_increases, lemma_pow2_unfold, pow2};
use vstd::prelude::*;

verus! {

/// The largest magnitude of one noise draw: a draw of `NOISE_PEAK` stands for
/// full scale, a draw of `-NOISE_PEAK` for negative full scale.
pub const NOISE_PEAK: i64 = 1_000_000;

/// Largest number of generators a pink-noise source can hold: its period,
/// two to the power of that number, has to fit the call counter.
pub const MAX_GENERATORS: usize = 63;

/// Calls `rand::random_range` on the inclusive range `low..=high` with the
/// thread-local generator. The contract claims only what every outcome
/// shares: the value lies within the range. An empty range, on which the
/// outside function panics, is excluded.
#[verifier::external_body]
pub(crate) fn random_in_range(low: i64, high: i64) -> (value: i64)
    requires
        low <= high,
    ensures
        low <= value <= high,
{
    rand::random_range(low..=high)
}

/// Sum of a sequence of draws.
pub open spec fn total(values: Seq<i64>) -> int
    decreases values.len(),
{
    if values.len() == 0 {
        0
    } else {
        total(values.drop_last()) + values.last()
    }
}

/// Whether every value lies within `-NOISE_PEAK ..= NOISE_PEAK`.
pub open spec fn within_peak(values: Seq<i64>) -> bool {
    forall|i: int| 0 <= i < values.len() ==> -NOISE_PEAK <= #[trigger] values[i] <= NOISE_PEAK
}

/// The call counter as a call sees it: it starts over once a full period of
/// `2^generators` calls has gone by.
pub open spec fn wrapped_count(call_count: nat, generators: nat) -> nat {
    if call_count >= pow2(generators) {
        0
    } else {
        call_count
    }
}

/// Generator `i` takes a fresh draw on every `2^i`-th call.
pub open spec fn refresh_due(call_count: nat, i: nat) -> bool {
    call_count % pow2(i) == 0
}

/// The generators after a call: those that are due hold their draw, the
/// others keep what they had.
pub open spec fn refreshed(generators: Seq<i64>, call_count: nat, draws: Seq<i64>) -> Seq<i64> {
    Seq::new(
        generators.len(),
        |i: int|
            if refresh_due(call_count, i as nat) {
                draws[i]
            } else {
                generators[i]
            },
    )
}

/// The sum of draws within the peak is within as many peaks as there are draws.
pub proof fn lemma_total_bounded(values: Seq<i64>)
    requires
        within_peak(values),
    ensures
        -NOISE_PEAK * values.len() <= total(values) <= NOISE_PEAK * values.len(),
    decreases values.len(),
{
    if values.len() > 0 {
        let rest = values.drop_last();
        assert forall|i: int| 0 <= i < rest.len() implies -NOISE_PEAK <= #[trigger] rest[i]
            <= NOISE_PEAK by {
            assert(rest[i] == values[i]);
        }
        lemma_total_bounded(rest);
    }
}

/// Two to the power of `exponent`.
pub fn power_of_two(exponent: usize) -> (power: u64)
    requires
        exponent <= MAX_GENERATORS,
    ensures
        power == pow2(exponent as nat),
        power >= 1,
{
    let mut power: u64 = 1;
    let mut done: usize = 0;
    proof {
        lemma2_to64();
    }
    while done < exponent
        invariant
            done <= exponent <= MAX_GENERATORS,
            power == pow2(done as nat),
            power >= 1,
        decreases exponent - done,
    {
        proof {
            lemma_pow2_unfold((done + 1) as nat);
            lemma2_to64_rest();
            if done + 1 < 63 {
                lemma_pow2_strictly_increases((done + 1) as nat, 63);
            }
        }
        power = power * 2;
        done = done + 1;
    }
    power
}

/// One draw of white noise.
pub fn white_noise() -> (noise: i64)
    ensures
        -NOISE_PEAK <= noise <= NOISE_PEAK,
{
    random_in_range(-NOISE_PEAK, NOISE_PEAK)
}

/// A pink-noise source after Voss and McCartney: a row of white-noise
/// generators of which generator `i` is refreshed on every `2^i`-th call only,
/// so that the sum of the row falls off towards high frequencies.
pub struct PinkNoise {
    generators: Vec<i64>,
    call_count: u64,
}

impl Clone for PinkNoise {
    fn clone(&self) -> (copy: Self)
        ensures
            copy.generators() == self.generators(),
            copy.call_count() == self.call_count(),
    {
        let mut generators: Vec<i64> = Vec::new();
        let mut i: usize = 0;
        while i < self.generators.len()
            invariant
                i <= self.generators@.len(),
                generators@ == self.generators@.take(i as int),
            decreases self.generators@.len() - i,
        {
            generators.push(self.generators[i]);
            i = i + 1;
            assert(generators@ =~= self.generators@.take(i as int));
        }
        assert(generators@ =~= self.generators@);
        PinkNoise { generators, call_count: self.call_count }
    }
}

impl PinkNoise {
    /// What each generator holds.
    pub closed spec fn generators(&self) -> Seq<i64> {
        self.generators@
    }

    /// How many calls the current period has seen.
    pub closed spec fn call_count(&self) -> nat {
        self.call_count as nat
    }

    /// The source holds at most `MAX_GENERATORS` generators, each within the
    /// peak, and its counter has not run past the period.
    pub open spec fn wf(&self) -> bool {
        &&& self.generators().len() <= MAX_GENERATORS
        &&& within_peak(self.generators())
        &&& self.call_count() <= pow2(self.generators().len())
    }

    /// A source of `num_generators` generators that all hold zero.
    pub fn new(num_generators: usize) -> (source: Self)
        requires
            num_generators <= MAX_GENERATORS,
        ensures
            source.wf(),
            source.call_count() == 0,
            source.generators() == Seq::new(num_generators as nat, |i: int| 0i64),
    {
        let mut generators: Vec<i64> = Vec::new();
        let mut made: usize = 0;
        while made < num_generators
            invariant
                made <= num_generators,
                generators@ == Seq::new(made as nat, |i: int| 0i64),
            decreases num_generators - made,
        {
            generators.push(0);
            made = made + 1;
            assert(generators@ =~= Seq::new(made as nat, |i: int| 0i64));
        }
        PinkNoise { generators, call_count: 0 }
    }

    /// Number of generators.
    pub fn num_generators(&self) -> (count: usize)
        ensures
            count == self.generators().len(),
    {
        self.generators.len()
    }

    /// One call with the draws handed in: generator `i` takes `draws[i]` if it
    /// is due on this call. Returns the sum of the generators afterwards.
    pub fn refresh_with(&mut self, draws: &Vec<i64>) -> (noise: i64)
        requires
            old(self).wf(),
            draws@.len() == old(self).generators().len(),
            within_peak(draws@),
        ensures
            final(self).wf(),
            final(self).generators() == refreshed(
                old(self).generators(),
                wrapped_count(old(self).call_count(), old(self).generators().len()),
                draws@,
            ),
            final(self).call_count() == wrapped_count(
                old(self).call_count(),
                old(self).generators().len(),
            ) + 1,
            noise == total(final(self).generators()),
            -NOISE_PEAK * final(self).generators().len() <= noise <= NOISE_PEAK
                * final(self).generators().len(),
    {
        let count: usize = self.generators.len();
        let period: u64 = power_of_two(count);
        if self.call_count >= period {
            self.call_count = 0;
        }
        let ghost before = self.generators@;
        let ghost now = self.call_count as nat;
        let mut noise: i64 = 0;
        let mut i: usize = 0;
        while i < count
            invariant
                i <= count,
                count == self.generators@.len(),
                count == draws@.len(),
                count == before.len(),
                count <= MAX_GENERATORS,
                within_peak(draws@),
                within_peak(before),
                self.call_count == now,
                forall|k: int|
                    0 <= k < i ==> #[trigger] self.generators@[k] == refreshed(before, now, draws@)[k],
                forall|k: int| i <= k < count ==> #[trigger] self.generators@[k] == before[k],
                noise == total(self.generators@.take(i as int)),
                -1_000_000 * i <= noise <= 1_000_000 * i,
            decreases count - i,
        {
            let step: u64 = power_of_two(i);
            let ghost earlier = self.generators@;
            if self.call_count % step == 0 {
                self.generators[i] = draws[i];
            }
            proof {
                let taken = self.generators@.take(i as int + 1);
                assert(taken.drop_last() =~= earlier.take(i as int));
                assert(taken.last() == self.generators@[i as int]);
                assert(total(taken) == total(taken.drop_last()) + taken.last());
                assert(-NOISE_PEAK <= draws@[i as int] <= NOISE_PEAK);
                assert(-NOISE_PEAK <= before[i as int] <= NOISE_PEAK);
                assert(earlier[i as int] == before[i as int]);
            }
            noise = noise + self.generators[i];
            i = i + 1;
        }
        proof {
            assert(self.generators@.take(count as int) =~= self.generators@);
            assert(self.generators@ =~= refreshed(before, now, draws@));
            lemma_period_positive(count as nat);
            lemma_total_bounded(self.generators@);
        }
        self.call_count = self.call_count + 1;
        noise
    }

    /// One call: every generator that is due takes a fresh draw from
    /// `rand::random_range`. Returns the sum of the generators afterwards.
    ///
    /// Which values are drawn is left open; all else is fixed: which
    /// generators change, the range of what they then hold, the counter and
    /// the sum.
    pub fn next_value(&mut self) -> (noise: i64)
        requires
            old(self).wf(),
        ensures
            final(self).wf(),
            final(self).generators().len() == old(self).generators().len(),
            forall|i: int|
                0 <= i < old(self).generators().len() && !refresh_due(
                    wrapped_count(old(self).call_count(), old(self).generators().len()),
                    i as nat,
                ) ==> #[trigger] final(self).generators()[i] == old(self).generators()[i],
            final(self).call_count() == wrapped_count(
                old(self).call_count(),
                old(self).generators().len(),
            ) + 1,
            noise == total(final(self).generators()),
            -NOISE_PEAK * final(self).generators().len() <= noise <= NOISE_PEAK
                * final(self).generators().len(),
    {
        let count: usize = self.generators.len();
        let period: u64 = power_of_two(count);
        let current: u64 = if self.call_count >= period {
            0
        } else {
            self.call_count
        };
        let mut draws: Vec<i64> = Vec::new();
        let mut i: usize = 0;
        while i < count
            invariant
                i <= count <= MAX_GENERATORS,
                count == self.generators@.len(),
                draws@.len() == i,
                within_peak(draws@),
                forall|k: int|
                    0 <= k < i && !refresh_due(current as nat, k as nat) ==> #[trigger] draws@[k]
                        == self.generators@[k],
                within_peak(self.generators@),
            decreases count - i,
        {
            let step: u64 = power_of_two(i);
            let draw: i64 = if current % step == 0 {
                random_in_range(-NOISE_PEAK, NOISE_PEAK)
            } else {
                self.generators[i]
            };
            draws.push(draw);
            i = i + 1;
        }
        self.refresh_with(&draws)
    }
}

/// The period of a source is positive and fits the call counter.
pub proof fn lemma_period_positive(generators: nat)
    requires
        generators <= MAX_GENERATORS,
    ensures
        0 < pow2(generators) <= 0x8000_0000_0000_0000,
{
    lemma2_to64();
    lemma2_to64_rest();
    if generators < 63 {
        lemma_pow2_strictly_increases(generators, 63);
    }
    vstd::arithmetic::power2::lemma_pow2_pos(generators);
}

} // verus!
