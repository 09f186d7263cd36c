use vstd::prelude::*;

verus! {

/// Indices of the failed outcomes, in increasing order.
pub open spec fn failed_indices(results: Seq<bool>) -> Seq<usize>
    decreases results.len(),
{
    if results.len() == 0 {
        Seq::empty()
    } else if results.last() {
        failed_indices(results.drop_last())
    } else {
        failed_indices(results.drop_last()).push((results.len() - 1) as usize)
    }
}

/// One pass of the intensity command over every endpoint. Each endpoint is
/// addressed once, in turn, whatever became of the endpoints before it.
pub struct DispatchRound {
    endpoints: usize,
    outcomes: Vec<bool>,
}

impl DispatchRound {
    /// Number of endpoints the round addresses.
    pub closed spec fn endpoint_count(&self) -> nat {
        self.endpoints as nat
    }

    /// Per-endpoint outcomes recorded so far, by endpoint index; `true` is success.
    pub closed spec fn results(&self) -> Seq<bool> {
        self.outcomes@
    }

    pub open spec fn wf(&self) -> bool {
        self.results().len() <= self.endpoint_count()
    }

    /// A round over `endpoints` endpoints with nothing sent yet.
    pub fn new(endpoints: usize) -> (r: Self)
        ensures
            r.wf(),
            r.endpoint_count() == endpoints,
            r.results() == Seq::<bool>::empty(),
    {
        DispatchRound { endpoints, outcomes: Vec::new() }
    }

    /// The endpoint to address next, or `None` once every endpoint has had
    /// its command.
    pub fn next_endpoint(&self) -> (r: Option<usize>)
        requires
            self.wf(),
        ensures
            self.results().len() < self.endpoint_count() ==> r == Some(
                self.results().len() as usize,
            ),
            self.results().len() == self.endpoint_count() ==> r is None,
    {
        if self.outcomes.len() < self.endpoints {
            Some(self.outcomes.len())
        } else {
            None
        }
    }

    /// Records how the command to the current endpoint went and moves on to
    /// the next one.
    pub fn record(&mut self, succeeded: bool)
        requires
            old(self).wf(),
            old(self).results().len() < old(self).endpoint_count(),
        ensures
            final(self).wf(),
            final(self).endpoint_count() == old(self).endpoint_count(),
            final(self).results() == old(self).results().push(succeeded),
    {
        self.outcomes.push(succeeded);
    }

    /// Whether every endpoint has had its command.
    pub fn is_complete(&self) -> (r: bool)
        requires
            self.wf(),
        ensures
            r == (self.results().len() == self.endpoint_count()),
    {
        self.outcomes.len() == self.endpoints
    }

    /// The per-endpoint outcomes, by endpoint index.
    pub fn outcomes(&self) -> (r: Vec<bool>)
        ensures
            r@ == self.results(),
    {
        let mut r: Vec<bool> = Vec::new();
        let mut i: usize = 0;
        while i < self.outcomes.len()
            invariant
                i <= self.outcomes@.len(),
                r@ == self.outcomes@.take(i as int),
            decreases self.outcomes@.len() - i,
        {
            r.push(self.outcomes[i]);
            i = i + 1;
            assert(r@ =~= self.outcomes@.take(i as int));
        }
        assert(self.outcomes@.take(i as int) =~= self.outcomes@);
        r
    }

    /// Indices of the endpoints whose command failed, in increasing order.
    pub fn failures(&self) -> (r: Vec<usize>)
        ensures
            r@ == failed_indices(self.results()),
    {
        let mut r: Vec<usize> = Vec::new();
        let mut i: usize = 0;
        while i < self.outcomes.len()
            invariant
                i <= self.outcomes@.len(),
                r@ == failed_indices(self.outcomes@.take(i as int)),
            decreases self.outcomes@.len() - i,
        {
            assert(self.outcomes@.take(i as int + 1).drop_last() =~= self.outcomes@.take(i as int));
            if !self.outcomes[i] {
                r.push(i);
            }
            i = i + 1;
        }
        assert(self.outcomes@.take(i as int) =~= self.outcomes@);
        r
    }
}

} // verus!
