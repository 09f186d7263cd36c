use std::collections::VecDeque;
use vstd::prelude::*;

verus! {

/// Number of samples the relay holds at most.
pub const SAMPLE_LIMIT: usize = 16;

/// Returned by `try_emit` once the consuming side has gone away.
#[derive(Debug, Clone, Copy, PartialEq, Eq)]
pub struct RelayClosed;

/// What the buffer holds after one sample is offered to it: the sample is
/// appended while there is room and dropped when the buffer is full.
pub open spec fn offered<T>(buffered: Seq<T>, value: T) -> Seq<T> {
    if buffered.len() < SAMPLE_LIMIT {
        buffered.push(value)
    } else {
        buffered
    }
}

/// What the buffer holds after each of `values` is offered in turn.
pub open spec fn offered_all<T>(buffered: Seq<T>, values: Seq<T>) -> Seq<T>
    decreases values.len(),
{
    if values.len() == 0 {
        buffered
    } else {
        offered(offered_all(buffered, values.drop_last()), values.last())
    }
}

/// How many samples a drain bounded by `max` takes out of `buffered`.
pub open spec fn drain_count<T>(buffered: Seq<T>, max: usize) -> nat {
    if buffered.len() < max {
        buffered.len()
    } else {
        max as nat
    }
}

/// A bounded hand-off of samples from a producer that must never wait to a
/// single consumer. Samples that arrive while the buffer is full are dropped.
pub struct SampleRelay<T> {
    buffer: VecDeque<T>,
    producer_open: bool,
    consumer_open: bool,
}

impl<T> SampleRelay<T> {
    /// The samples waiting to be drained, oldest first.
    pub closed spec fn contents(&self) -> Seq<T> {
        self.buffer@
    }

    /// Whether the producing side may still emit.
    pub closed spec fn producer_live(&self) -> bool {
        self.producer_open
    }

    /// Whether the consuming side still takes samples.
    pub closed spec fn consumer_live(&self) -> bool {
        self.consumer_open
    }

    pub open spec fn wf(&self) -> bool {
        self.contents().len() <= SAMPLE_LIMIT
    }

    /// An open relay holding nothing.
    pub fn new() -> (r: Self)
        ensures
            r.wf(),
            r.contents() == Seq::<T>::empty(),
            r.producer_live(),
            r.consumer_live(),
    {
        SampleRelay { buffer: VecDeque::new(), producer_open: true, consumer_open: true }
    }

    /// Number of samples waiting.
    pub fn len(&self) -> (r: usize)
        ensures
            r == self.contents().len(),
    {
        self.buffer.len()
    }

    /// Whether the producer has closed its side.
    pub fn is_producer_closed(&self) -> (r: bool)
        ensures
            r == !self.producer_live(),
    {
        !self.producer_open
    }

    /// Whether the consumer has closed its side.
    pub fn is_consumer_closed(&self) -> (r: bool)
        ensures
            r == !self.consumer_live(),
    {
        !self.consumer_open
    }

    /// Whether the stream has ended: the producer is gone and nothing is left.
    pub fn is_finished(&self) -> (r: bool)
        ensures
            r == (!self.producer_live() && self.contents().len() == 0),
    {
        !self.producer_open && self.buffer.len() == 0
    }

    /// Offers one sample without waiting. A full buffer drops the sample and
    /// still reports success; a relay whose consumer is gone refuses it.
    pub fn try_emit(&mut self, value: T) -> (r: Result<(), RelayClosed>)
        requires
            old(self).wf(),
        ensures
            final(self).wf(),
            final(self).producer_live() == old(self).producer_live(),
            final(self).consumer_live() == old(self).consumer_live(),
            r is Err <==> !old(self).consumer_live(),
            r is Err ==> final(self).contents() == old(self).contents(),
            r is Ok ==> final(self).contents() == offered(old(self).contents(), value),
    {
        if !self.consumer_open {
            return Err(RelayClosed);
        }
        if self.buffer.len() < SAMPLE_LIMIT {
            self.buffer.push_back(value);
        }
        Ok(())
    }

    /// Takes out the oldest samples, at most `max` of them, in the order in
    /// which they were emitted.
    pub fn drain(&mut self, max: usize) -> (r: Vec<T>)
        requires
            old(self).wf(),
        ensures
            final(self).wf(),
            final(self).producer_live() == old(self).producer_live(),
            final(self).consumer_live() == old(self).consumer_live(),
            r@ == old(self).contents().take(drain_count(old(self).contents(), max) as int),
            final(self).contents() == old(self).contents().skip(
                drain_count(old(self).contents(), max) as int,
            ),
    {
        let ghost start = self.buffer@;
        let ghost k = drain_count(start, max) as int;
        let mut out: Vec<T> = Vec::new();
        while out.len() < max && self.buffer.len() > 0
            invariant
                out@.len() <= k,
                out@ == start.take(out@.len() as int),
                self.buffer@ == start.skip(out@.len() as int),
                k == drain_count(start, max),
                start.len() <= SAMPLE_LIMIT,
                self.producer_open == old(self).producer_open,
                self.consumer_open == old(self).consumer_open,
            decreases self.buffer@.len(),
        {
            match self.buffer.pop_front() {
                Some(v) => {
                    out.push(v);
                    assert(out@ =~= start.take(out@.len() as int));
                    assert(self.buffer@ =~= start.skip(out@.len() as int));
                },
                None => {},
            }
        }
        out
    }

    /// The producer goes away; what is buffered can still be drained.
    pub fn close_producer(&mut self)
        requires
            old(self).wf(),
        ensures
            final(self).wf(),
            final(self).contents() == old(self).contents(),
            !final(self).producer_live(),
            final(self).consumer_live() == old(self).consumer_live(),
    {
        self.producer_open = false;
    }

    /// The consumer goes away; later samples are refused.
    pub fn close_consumer(&mut self)
        requires
            old(self).wf(),
        ensures
            final(self).wf(),
            final(self).contents() == old(self).contents(),
            final(self).producer_live() == old(self).producer_live(),
            !final(self).consumer_live(),
    {
        self.consumer_open = false;
    }
}

/// Offering a burst of samples to an empty relay keeps the first
/// `SAMPLE_LIMIT` of them, in the order given, each once.
pub proof fn lemma_burst_keeps_prefix<T>(values: Seq<T>)
    ensures
        offered_all(Seq::<T>::empty(), values) == values.take(
            drain_count(values, SAMPLE_LIMIT) as int,
        ),
    decreases values.len(),
{
    if values.len() > 0 {
        let init = values.drop_last();
        lemma_burst_keeps_prefix(init);
        assert(offered_all(Seq::<T>::empty(), values) =~= values.take(
            drain_count(values, SAMPLE_LIMIT) as int,
        ));
    } else {
        assert(values.take(0) =~= Seq::<T>::empty());
    }
}

/// A burst offered to an empty open relay and then drained with room for
/// `SAMPLE_LIMIT` comes back whole and in order when it holds at most
/// `SAMPLE_LIMIT` samples, and as its first `SAMPLE_LIMIT` samples otherwise.
pub proof fn lemma_burst_then_drain<T>(values: Seq<T>)
    ensures
        values.len() <= SAMPLE_LIMIT ==> offered_all(Seq::<T>::empty(), values) == values,
        values.len() > SAMPLE_LIMIT ==> offered_all(Seq::<T>::empty(), values) == values.take(
            SAMPLE_LIMIT as int,
        ),
        offered_all(Seq::<T>::empty(), values).len() <= SAMPLE_LIMIT,
        drain_count(offered_all(Seq::<T>::empty(), values), SAMPLE_LIMIT)
            == offered_all(Seq::<T>::empty(), values).len(),
{
    lemma_burst_keeps_prefix(values);
    if values.len() <= SAMPLE_LIMIT {
        assert(values.take(values.len() as int) =~= values);
    }
}

} // verus!
