//! The hand-off between the sound tree and the output.

use crate::sound::{all_of_length, mix_grains, summed};
use std::collections::VecDeque;
use vstd::prelude::*;

verus! {

/// The hand-off between the sound tree, which makes one grain at a time, and
/// the output, which asks for one sample at a time: the grain that is being
/// played, and how far it has been played.
pub struct GrainCursor<T> {
    grain: Vec<T>,
    position: usize,
}

/// What a grain cursor stands for.
pub struct Playhead<T> {
    pub grain: Seq<T>,
    pub position: nat,
}

impl<T> Playhead<T> {
    /// Whether the grain is played out, so that the next sample has to come
    /// from a new grain.
    pub open spec fn exhausted(self) -> bool {
        self.position >= self.grain.len()
    }

    /// The sample under the cursor, or `silence` where there is none.
    pub open spec fn sample(self, silence: T) -> T {
        if self.exhausted() {
            silence
        } else {
            self.grain[self.position as int]
        }
    }

    /// The playhead one sample later; at the end of its grain it stays.
    pub open spec fn moved_on(self) -> Playhead<T> {
        if self.exhausted() {
            self
        } else {
            Playhead { position: self.position + 1, ..self }
        }
    }

    /// The playhead at the start of a new grain.
    pub open spec fn refilled(self, grain: Seq<T>) -> Playhead<T> {
        Playhead { grain, position: 0 }
    }
}

impl<T> Playhead<T> {
    /// The playhead `count` samples later.
    pub open spec fn moved_on_by(self, count: nat) -> Playhead<T>
        decreases count,
    {
        if count == 0 {
            self
        } else {
            self.moved_on_by((count - 1) as nat).moved_on()
        }
    }
}

/// A grain is played from its first sample to its last, each sample once,
/// and then the playhead is at its end.
pub proof fn lemma_grain_is_played_in_order<T>(playhead: Playhead<T>, grain: Seq<T>, count: nat, silence: T)
    ensures
        count < grain.len() ==> playhead.refilled(grain).moved_on_by(count).sample(silence)
            == grain[count as int],
        count >= grain.len() ==> playhead.refilled(grain).moved_on_by(count).exhausted(),
        playhead.refilled(grain).moved_on_by(count).grain == grain,
        playhead.refilled(grain).moved_on_by(count).position == if count <= grain.len() {
            count
        } else {
            grain.len()
        },
    decreases count,
{
    if count > 0 {
        lemma_grain_is_played_in_order(playhead, grain, (count - 1) as nat, silence);
    }
}

impl<T> View for GrainCursor<T> {
    type V = Playhead<T>;

    closed spec fn view(&self) -> Playhead<T> {
        Playhead { grain: self.grain@, position: self.position as nat }
    }
}

impl<T: Copy> GrainCursor<T> {
    /// A cursor with nothing to play.
    pub fn new() -> (cursor: Self)
        ensures
            cursor@ == (Playhead { grain: Seq::<T>::empty(), position: 0 }),
            cursor@.exhausted(),
    {
        GrainCursor { grain: Vec::new(), position: 0 }
    }

    /// Whether the next sample has to come from a new grain.
    pub fn needs_grain(&self) -> (needed: bool)
        ensures
            needed == self@.exhausted(),
    {
        self.position >= self.grain.len()
    }

    /// Takes a new grain and starts at its first sample.
    pub fn refill(&mut self, grain: Vec<T>)
        ensures
            final(self)@ == old(self)@.refilled(grain@),
    {
        self.grain = grain;
        self.position = 0;
    }

    /// Hands out the sample under the cursor and moves on; past the end of
    /// the grain it hands out `silence`.
    pub fn next_sample(&mut self, silence: T) -> (sample: T)
        ensures
            sample == old(self)@.sample(silence),
            final(self)@ == old(self)@.moved_on(),
    {
        if self.position < self.grain.len() {
            let sample: T = self.grain[self.position];
            self.position = self.position + 1;
            sample
        } else {
            silence
        }
    }

    /// The sample for one frame of output. A new grain is asked of `produce`
    /// only when the current one is played out, and then exactly once; where
    /// it hands back an empty grain, the frame is silence.
    pub fn next_frame<P: FnOnce() -> Vec<T>>(&mut self, silence: T, produce: P) -> (sample: T)
        requires
            call_requires(produce, ()),
        ensures
            !old(self)@.exhausted() ==> sample == old(self)@.sample(silence) && final(self)@
                == old(self)@.moved_on(),
            old(self)@.exhausted() ==> exists|grain: Vec<T>|
                #[trigger] call_ensures(produce, (), grain) && sample == old(self)@.refilled(
                    grain@,
                ).sample(silence) && final(self)@ == old(self)@.refilled(grain@).moved_on(),
    {
        if self.needs_grain() {
            let grain: Vec<T> = produce();
            self.refill(grain);
        }
        self.next_sample(silence)
    }
}

/// Whether `mean` is what `share` makes of the sum of the samples at `place`
/// and the number of grains.
pub open spec fn mean_of<T, M: Fn(T, T) -> T, S: Fn(T, usize) -> T>(
    mix: M,
    share: S,
    grains: Seq<Vec<T>>,
    place: int,
    silence: T,
    mean: T,
) -> bool {
    exists|sum: T|
        summed(mix, grains, place, grains.len(), silence, sum) && #[trigger] call_ensures(
            share,
            (sum, grains.len() as usize),
            mean,
        )
}

/// Whether `combined` is the mean of the grains, place by place.
pub open spec fn combined_from<T, M: Fn(T, T) -> T, S: Fn(T, usize) -> T>(
    mix: M,
    share: S,
    grains: Seq<Vec<T>>,
    silence: T,
    combined: Seq<T>,
) -> bool {
    &&& grains.len() > 0
    &&& combined.len() == grains[0]@.len()
    &&& forall|i: int|
        0 <= i < combined.len() ==> mean_of(mix, share, grains, i, silence, #[trigger] combined[i])
}

/// Combines the grains of several sounds into one: they are summed sample
/// by sample by `mix`, and `share` divides each sum by their number.
pub fn combine_grains<T: Copy, M: Fn(T, T) -> T, S: Fn(T, usize) -> T>(
    grains: &Vec<Vec<T>>,
    silence: T,
    mix: &M,
    share: &S,
) -> (combined: Vec<T>)
    requires
        grains@.len() > 0,
        all_of_length(grains@, grains@[0]@.len()),
        forall|a: T, b: T| call_requires(*mix, (a, b)),
        forall|sum: T, count: usize| call_requires(*share, (sum, count)),
    ensures
        combined_from(*mix, *share, grains@, silence, combined@),
{
    let length: usize = grains[0].len();
    let count: usize = grains.len();
    let sums: Vec<T> = mix_grains(grains, length, silence, mix);
    let mut combined: Vec<T> = Vec::new();
    let mut i: usize = 0;
    while i < length
        invariant
            i <= length,
            sums@.len() == length,
            combined@.len() == i,
            count == grains@.len(),
            forall|sum: T, count: usize| call_requires(*share, (sum, count)),
            forall|j: int|
                0 <= j < length ==> summed(
                    *mix,
                    grains@,
                    j,
                    grains@.len(),
                    silence,
                    #[trigger] sums@[j],
                ),
            forall|j: int|
                0 <= j < i ==> mean_of(*mix, *share, grains@, j, silence, #[trigger] combined@[j]),
        decreases length - i,
    {
        let mean: T = share(sums[i], count);
        combined.push(mean);
        proof {
            let sum = sums@[i as int];
            assert(summed(*mix, grains@, i as int, grains@.len(), silence, sum));
            assert(call_ensures(*share, (sum, grains@.len() as usize), combined@[i as int]));
        }
        i = i + 1;
    }
    combined
}

/// A bounded queue of grains that were made ahead of their time: the sound
/// tree puts grains in at one end, the output takes them out at the other,
/// in the order in which they were put in.
pub struct GrainQueue<T> {
    grains: VecDeque<Vec<T>>,
    depth: usize,
}

/// What a grain queue stands for.
pub struct Backlog<T> {
    /// The grains that wait, the one that waits longest first.
    pub grains: Seq<Vec<T>>,
    /// The most grains that may wait.
    pub depth: nat,
}

impl<T> Backlog<T> {
    /// At least two grains may wait, and no more wait than may.
    pub open spec fn wf(self) -> bool {
        &&& self.depth >= 2
        &&& self.grains.len() <= self.depth
    }

    /// Whether no further grain can be put in.
    pub open spec fn full(self) -> bool {
        self.grains.len() >= self.depth
    }
}

impl<T> View for GrainQueue<T> {
    type V = Backlog<T>;

    closed spec fn view(&self) -> Backlog<T> {
        Backlog { grains: self.grains@, depth: self.depth as nat }
    }
}

impl<T> GrainQueue<T> {
    /// An empty queue for up to `depth` grains; a depth below two is taken
    /// for two, so that one grain can be made while another plays.
    pub fn new(depth: usize) -> (queue: Self)
        ensures
            queue@.wf(),
            queue@.grains.len() == 0,
            queue@.depth == if depth < 2 {
                2
            } else {
                depth as nat
            },
    {
        let depth: usize = if depth < 2 {
            2
        } else {
            depth
        };
        GrainQueue { grains: VecDeque::new(), depth }
    }

    /// Number of grains that wait.
    pub fn len(&self) -> (length: usize)
        ensures
            length == self@.grains.len(),
    {
        self.grains.len()
    }

    /// Whether no further grain can be put in.
    pub fn is_full(&self) -> (full: bool)
        ensures
            full == self@.full(),
    {
        self.grains.len() >= self.depth
    }

    /// Puts a grain in behind those that wait. A full queue takes nothing
    /// and hands the grain back.
    pub fn push(&mut self, grain: Vec<T>) -> (refused: Option<Vec<T>>)
        requires
            old(self)@.wf(),
        ensures
            final(self)@.wf(),
            old(self)@.full() ==> refused == Some(grain) && final(self)@ == old(self)@,
            !old(self)@.full() ==> refused.is_none() && final(self)@ == (Backlog {
                grains: old(self)@.grains.push(grain),
                ..old(self)@
            }),
    {
        if self.grains.len() >= self.depth {
            Some(grain)
        } else {
            self.grains.push_back(grain);
            None
        }
    }

    /// Takes out the grain that waits longest, if any waits.
    pub fn pop(&mut self) -> (grain: Option<Vec<T>>)
        requires
            old(self)@.wf(),
        ensures
            final(self)@.wf(),
            old(self)@.grains.len() == 0 ==> grain.is_none() && final(self)@ == old(self)@,
            old(self)@.grains.len() > 0 ==> grain == Some(old(self)@.grains[0]) && final(self)@ == (
            Backlog {
                grains: old(self)@.grains.subrange(1, old(self)@.grains.len() as int),
                ..old(self)@
            }),
    {
        self.grains.pop_front()
    }
}

} // verus!
