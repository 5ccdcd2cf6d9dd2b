//! The inputs of a sample player and the queue that sends them in time.

use crate::oscillator::input::delayed;
use vstd::prelude::*;
use vstd::seq_lib::to_multiset_insert;

verus! {

/// An input to a sample player.
#[derive(Clone, Copy, Debug, PartialEq, Eq, Structural)]
pub enum SampleInput {
    /// Start the clip over from its first sample.
    Trigger,
}

/// An input to be sent to a sample player at a given time.
#[derive(Clone, Copy, Debug, PartialEq, Eq, Structural)]
pub struct SampleInputAtTime {
    pub input: SampleInput,
    /// Microseconds since the start of the player.
    pub time: u64,
}

/// Every time of `inputs` moved back by `by`.
pub open spec fn all_triggers_delayed(inputs: Seq<SampleInputAtTime>, by: u64) -> Seq<
    SampleInputAtTime,
> {
    Seq::new(
        inputs.len(),
        |i: int| SampleInputAtTime { input: inputs[i].input, time: delayed(inputs[i].time, by) },
    )
}

/// Whether the times of `inputs` never fall.
pub open spec fn in_time_order(inputs: Seq<SampleInputAtTime>) -> bool {
    forall|i: int, j: int| 0 <= i <= j < inputs.len() ==> inputs[i].time <= inputs[j].time
}

/// The place at which an input with `time` goes into `inputs`: behind the
/// last input that is no later.
pub open spec fn place_for(inputs: Seq<SampleInputAtTime>, time: u64) -> nat
    decreases inputs.len(),
{
    if inputs.len() == 0 {
        0
    } else if inputs.last().time <= time {
        inputs.len()
    } else {
        place_for(inputs.drop_last(), time)
    }
}

/// `inputs` in the order of their times; inputs of the same time keep the
/// order in which they were given.
pub open spec fn sorted_by_time(inputs: Seq<SampleInputAtTime>) -> Seq<SampleInputAtTime>
    decreases inputs.len(),
{
    if inputs.len() == 0 {
        inputs
    } else {
        let before = sorted_by_time(inputs.drop_last());
        before.insert(place_for(before, inputs.last().time) as int, inputs.last())
    }
}

/// The place for an input lies within the inputs; all inputs before it are
/// no later, and, where the inputs are in time order, all inputs from it on
/// are later.
pub proof fn lemma_place_for(inputs: Seq<SampleInputAtTime>, time: u64)
    ensures
        place_for(inputs, time) <= inputs.len(),
        place_for(inputs, time) > 0 ==> inputs[place_for(inputs, time) - 1].time <= time,
        forall|i: int| place_for(inputs, time) <= i < inputs.len() ==> inputs[i].time > time,
    decreases inputs.len(),
{
    if inputs.len() > 0 && inputs.last().time > time {
        lemma_place_for(inputs.drop_last(), time);
        let place = place_for(inputs.drop_last(), time);
        assert forall|i: int| place <= i < inputs.len() implies inputs[i].time > time by {
            if i < inputs.len() - 1 {
                assert(inputs.drop_last()[i] == inputs[i]);
            }
        }
        if place > 0 {
            assert(inputs.drop_last()[place - 1] == inputs[place - 1]);
        }
    }
}

/// Putting an input in at its place keeps the inputs in time order.
pub proof fn lemma_insert_keeps_time_order(inputs: Seq<SampleInputAtTime>, input: SampleInputAtTime)
    requires
        in_time_order(inputs),
    ensures
        in_time_order(inputs.insert(place_for(inputs, input.time) as int, input)),
{
    let place = place_for(inputs, input.time) as int;
    let longer = inputs.insert(place, input);
    lemma_place_for(inputs, input.time);
    inputs.insert_ensures(place, input);
    assert forall|i: int, j: int| 0 <= i <= j < longer.len() implies longer[i].time
        <= longer[j].time by {
        let earlier = if i < place {
            inputs[i].time
        } else if i == place {
            input.time
        } else {
            inputs[i - 1].time
        };
        let later = if j < place {
            inputs[j].time
        } else if j == place {
            input.time
        } else {
            inputs[j - 1].time
        };
        assert(longer[i].time == earlier) by {
            if i > place {
                assert(longer[(i - 1) + 1] == inputs[i - 1]);
            }
        }
        assert(longer[j].time == later) by {
            if j > place {
                assert(longer[(j - 1) + 1] == inputs[j - 1]);
            }
        }
        if i < place && j == place {
            assert(inputs[i].time <= inputs[place - 1].time);
        }
    }
}

/// Sorting brings the inputs into time order and neither drops nor adds
/// one.
pub proof fn lemma_sorted_by_time(inputs: Seq<SampleInputAtTime>)
    ensures
        in_time_order(sorted_by_time(inputs)),
        sorted_by_time(inputs).len() == inputs.len(),
        sorted_by_time(inputs).to_multiset() == inputs.to_multiset(),
    decreases inputs.len(),
{
    if inputs.len() > 0 {
        let rest = inputs.drop_last();
        let before = sorted_by_time(rest);
        lemma_sorted_by_time(rest);
        lemma_place_for(before, inputs.last().time);
        lemma_insert_keeps_time_order(before, inputs.last());
        let place = place_for(before, inputs.last().time) as int;
        before.insert_ensures(place, inputs.last());
        to_multiset_insert(before, place, inputs.last());
        assert(inputs =~= rest.push(inputs.last()));
        vstd::seq_lib::to_multiset_build(rest, inputs.last());
    }
}

/// Inputs that are in time order already stay as they are.
pub proof fn lemma_sorting_keeps_time_order(inputs: Seq<SampleInputAtTime>)
    requires
        in_time_order(inputs),
    ensures
        sorted_by_time(inputs) == inputs,
    decreases inputs.len(),
{
    if inputs.len() > 0 {
        let rest = inputs.drop_last();
        assert(in_time_order(rest)) by {
            assert forall|i: int, j: int| 0 <= i <= j < rest.len() implies rest[i].time
                <= rest[j].time by {
                assert(rest[i] == inputs[i] && rest[j] == inputs[j]);
            }
        }
        lemma_sorting_keeps_time_order(rest);
        if rest.len() > 0 {
            assert(rest.last() == inputs[rest.len() - 1]);
        }
        assert(place_for(rest, inputs.last().time) == rest.len());
        assert(rest.insert(rest.len() as int, inputs.last()) =~= inputs);
    }
}

/// Moving every input back by the same time keeps the inputs in time order.
pub proof fn lemma_delay_keeps_time_order(inputs: Seq<SampleInputAtTime>, by: u64)
    requires
        in_time_order(inputs),
    ensures
        in_time_order(all_triggers_delayed(inputs, by)),
{
}

/// Brings inputs into the order of their times; inputs of the same time keep
/// the order in which they were given.
pub fn sort_by_time(inputs: Vec<SampleInputAtTime>) -> (sorted: Vec<SampleInputAtTime>)
    ensures
        sorted@ == sorted_by_time(inputs@),
{
    let mut sorted: Vec<SampleInputAtTime> = Vec::new();
    let mut done: usize = 0;
    while done < inputs.len()
        invariant
            done <= inputs@.len(),
            sorted@ == sorted_by_time(inputs@.take(done as int)),
        decreases inputs@.len() - done,
    {
        let input: SampleInputAtTime = inputs[done];
        let mut place: usize = sorted.len();
        assert(sorted@.take(place as int) =~= sorted@);
        while place > 0 && sorted[place - 1].time > input.time
            invariant
                place <= sorted@.len(),
                place_for(sorted@, input.time) == place_for(sorted@.take(place as int), input.time),
            decreases place,
        {
            proof {
                let shorter = sorted@.take(place as int);
                assert(shorter.last() == sorted@[place - 1]);
                assert(shorter.drop_last() =~= sorted@.take(place - 1));
            }
            place = place - 1;
        }
        proof {
            let shorter = sorted@.take(place as int);
            if place > 0 {
                assert(shorter.last() == sorted@[place - 1]);
            }
            assert(place_for(shorter, input.time) == place);
            let taken = inputs@.take(done as int + 1);
            assert(taken.drop_last() =~= inputs@.take(done as int));
            assert(taken.last() == input);
        }
        sorted.insert(place, input);
        done = done + 1;
    }
    proof {
        assert(inputs@.take(inputs@.len() as int) =~= inputs@);
    }
    sorted
}

/// The inputs of a sample player in the order in which they are sent, with
/// the place of the one that is sent next.
pub struct SampleInputIterator {
    inputs: Vec<SampleInputAtTime>,
    index: usize,
    total_duration: u64,
    repeat_delay: Option<u64>,
}

/// What an input iterator stands for.
pub struct TriggerQueue {
    /// The inputs, with the times of the current round.
    pub inputs: Seq<SampleInputAtTime>,
    /// How many of them the current round has sent.
    pub index: nat,
    /// The time of the last input of the first round.
    pub total_duration: u64,
    /// The pause after which the inputs start over, if they do.
    pub repeat_delay: Option<u64>,
}

impl TriggerQueue {
    /// The inputs are in time order.
    pub open spec fn wf(self) -> bool {
        in_time_order(self.inputs)
    }

    /// Whether the next input has come due at `now`.
    pub open spec fn due(self, now: u64) -> bool {
        self.index < self.inputs.len() && now >= self.inputs[self.index as int].time
    }

    /// The input that a call at `now` sends, if any.
    pub open spec fn sent(self, now: u64) -> Option<SampleInputAtTime> {
        if self.due(now) {
            Some(self.inputs[self.index as int])
        } else {
            None
        }
    }

    /// By how much a new round is later than the one before.
    pub open spec fn round_length(self) -> u64
        recommends
            self.repeat_delay.is_some(),
    {
        delayed(self.total_duration, self.repeat_delay.unwrap())
    }

    /// The queue after a call at `now`: an input that has come due is passed
    /// over, and when it was the last one of a repeating queue, a new round
    /// starts with every time moved back by one round.
    pub open spec fn after(self, now: u64) -> TriggerQueue {
        if !self.due(now) {
            self
        } else if self.index + 1 < self.inputs.len() || self.repeat_delay.is_none() {
            TriggerQueue { index: self.index + 1, ..self }
        } else {
            TriggerQueue { inputs: all_triggers_delayed(self.inputs, self.round_length()), index: 0, ..self }
        }
    }

    /// No input will ever be sent again.
    pub open spec fn exhausted(self) -> bool {
        self.index >= self.inputs.len()
    }
}

/// A queue that starts over never runs out of inputs, and one that does
/// not start over stays exhausted once it is.
pub proof fn lemma_queue_runs_on(queue: TriggerQueue, now: u64)
    requires
        queue.inputs.len() > 0,
    ensures
        queue.after(now).inputs.len() == queue.inputs.len(),
        queue.repeat_delay.is_some() && !queue.exhausted() ==> !queue.after(now).exhausted(),
        queue.exhausted() ==> queue.after(now) == queue && queue.sent(now).is_none(),
{
}

/// No input is sent before its time, and inputs are sent in their order:
/// what is sent is the input at the place of the queue.
pub proof fn lemma_input_is_due(queue: TriggerQueue, now: u64)
    ensures
        match queue.sent(now) {
            Some(input) => input.time <= now && input == queue.inputs[queue.index as int],
            None => queue.exhausted() || queue.inputs[queue.index as int].time > now,
        },
{
}

impl View for SampleInputIterator {
    type V = TriggerQueue;

    closed spec fn view(&self) -> TriggerQueue {
        TriggerQueue {
            inputs: self.inputs@,
            index: self.index as nat,
            total_duration: self.total_duration,
            repeat_delay: self.repeat_delay,
        }
    }
}

impl Clone for SampleInputIterator {
    fn clone(&self) -> (copy: Self)
        ensures
            copy@ == self@,
    {
        let mut inputs: Vec<SampleInputAtTime> = Vec::new();
        let mut i: usize = 0;
        while i < self.inputs.len()
            invariant
                i <= self.inputs@.len(),
                inputs@ == self.inputs@.take(i as int),
            decreases self.inputs@.len() - i,
        {
            inputs.push(self.inputs[i]);
            i = i + 1;
            assert(inputs@ =~= self.inputs@.take(i as int));
        }
        assert(inputs@ =~= self.inputs@);
        SampleInputIterator {
            inputs,
            index: self.index,
            total_duration: self.total_duration,
            repeat_delay: self.repeat_delay,
        }
    }
}

impl SampleInputIterator {
    /// A queue that sends `inputs` in the order of their times. With a
    /// `repeat_delay` it starts over, that long after the time of the last
    /// input.
    pub fn new(inputs: Vec<SampleInputAtTime>, repeat_delay: Option<u64>) -> (queue: Self)
        requires
            inputs@.len() > 0,
        ensures
            queue@.wf(),
            queue@ == (TriggerQueue {
                inputs: sorted_by_time(inputs@),
                index: 0,
                total_duration: sorted_by_time(inputs@).last().time,
                repeat_delay,
            }),
    {
        proof {
            lemma_sorted_by_time(inputs@);
        }
        let inputs: Vec<SampleInputAtTime> = sort_by_time(inputs);
        let total_duration: u64 = inputs[inputs.len() - 1].time;
        SampleInputIterator { inputs, index: 0, total_duration, repeat_delay }
    }

    fn repeat_inputs(&mut self)
        ensures
            old(self).repeat_delay.is_none() ==> *final(self) == *old(self),
            old(self).repeat_delay.is_some() ==> final(self)@ == (TriggerQueue {
                inputs: all_triggers_delayed(old(self)@.inputs, old(self)@.round_length()),
                index: 0,
                ..old(self)@
            }),
    {
        if let Some(delay) = self.repeat_delay {
            let by: u64 = self.total_duration.saturating_add(delay);
            let ghost before = self.inputs@;
            let mut i: usize = 0;
            while i < self.inputs.len()
                invariant
                    i <= self.inputs@.len(),
                    self.inputs@.len() == before.len(),
                    self.total_duration == old(self).total_duration,
                    self.repeat_delay == old(self).repeat_delay,
                    forall|k: int| 0 <= k < i ==> #[trigger] self.inputs@[k] == all_triggers_delayed(before, by)[k],
                    forall|k: int| i <= k < before.len() ==> #[trigger] self.inputs@[k] == before[k],
                decreases self.inputs@.len() - i,
            {
                let input: SampleInputAtTime = self.inputs[i];
                self.inputs[i] = SampleInputAtTime {
                    input: input.input,
                    time: input.time.saturating_add(by),
                };
                i = i + 1;
            }
            self.index = 0;
            assert(self.inputs@ =~= all_triggers_delayed(before, by));
        }
    }

    /// Sends the next input if its time has come.
    pub fn next(&mut self, now: u64) -> (input: Option<SampleInputAtTime>)
        ensures
            input == old(self)@.sent(now),
            final(self)@ == old(self)@.after(now),
            old(self)@.wf() ==> final(self)@.wf(),
    {
        proof {
            if self@.wf() && self@.repeat_delay.is_some() {
                lemma_delay_keeps_time_order(self@.inputs, self@.round_length());
            }
        }
        if self.index >= self.inputs.len() {
            return None;
        }
        let index_input: SampleInputAtTime = self.inputs[self.index];
        if now >= index_input.time {
            self.index = self.index + 1;
            if self.index >= self.inputs.len() {
                self.repeat_inputs();
            }
            Some(index_input)
        } else {
            None
        }
    }
}

/// Collects the inputs of a sample player one by one.
pub struct SampleInputIteratorBuilder {
    inputs: Vec<SampleInputAtTime>,
    repeat_delay: Option<u64>,
}

impl SampleInputIteratorBuilder {
    /// The inputs collected so far.
    pub closed spec fn inputs(&self) -> Seq<SampleInputAtTime> {
        self.inputs@
    }

    /// The pause after which the inputs will start over, if one was set.
    pub closed spec fn repeat_delay(&self) -> Option<u64> {
        self.repeat_delay
    }

    /// A builder with no inputs, for a queue that does not start over.
    pub fn new() -> (builder: Self)
        ensures
            builder.inputs() == Seq::<SampleInputAtTime>::empty(),
            builder.repeat_delay().is_none(),
    {
        SampleInputIteratorBuilder { inputs: Vec::new(), repeat_delay: None }
    }

    /// Adds `input` behind the inputs collected so far.
    pub fn input(self, input: SampleInputAtTime) -> (builder: Self)
        ensures
            builder.inputs() == self.inputs().push(input),
            builder.repeat_delay() == self.repeat_delay(),
    {
        let mut builder = self;
        builder.inputs.push(input);
        builder
    }

    /// Lets the inputs start over `delay` microseconds after the last one.
    pub fn repeat_after(self, delay: u64) -> (builder: Self)
        ensures
            builder.inputs() == self.inputs(),
            builder.repeat_delay() == Some(delay),
    {
        let mut builder = self;
        builder.repeat_delay = Some(delay);
        builder
    }

    /// The queue of the inputs collected, in the order of their times.
    pub fn build(self) -> (queue: SampleInputIterator)
        requires
            self.inputs().len() > 0,
        ensures
            queue@.wf(),
            queue@ == (TriggerQueue {
                inputs: sorted_by_time(self.inputs()),
                index: 0,
                total_duration: sorted_by_time(self.inputs()).last().time,
                repeat_delay: self.repeat_delay(),
            }),
    {
        SampleInputIterator::new(self.inputs, self.repeat_delay)
    }
}

} // verus!
