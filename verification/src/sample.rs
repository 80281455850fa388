//! Stratified sampling of the unit interval.

use vstd::prelude::*;

verus! {

/// A stratified sampler of `[0, 1)`: the interval is cut into `count` equal
/// strata, and the sampler hands them out once each, in increasing order.
/// A sample is drawn inside the stratum that the sampler hands out.
#[derive(Debug)]
pub struct Stratified1D {
    count: usize,
    emitted: usize,
}

impl Stratified1D {
    /// No more strata are handed out than there are.
    #[verifier::type_invariant]
    spec fn emitted_within_count(self) -> bool {
        self.emitted <= self.count
    }

    /// The number of strata.
    pub closed spec fn strata(self) -> usize {
        self.count
    }

    /// The number of strata handed out so far.
    pub closed spec fn handed_out(self) -> usize {
        self.emitted
    }

    /// The number of strata still to come.
    pub open spec fn remaining_spec(self) -> int {
        self.strata() - self.handed_out()
    }

    /// The next stratum, by its index in `0..count`, or `None` once all of
    /// them have been handed out.
    pub fn next_stratum(&mut self) -> (r: Option<usize>)
        ensures
            next_stratum_step(*old(self), *final(self), r),
            old(self).handed_out() == old(self).strata() ==> r is None && *final(self) == *old(self),
            old(self).handed_out() < old(self).strata() ==> r == Some(old(self).handed_out())
                && final(self).handed_out() == old(self).handed_out() + 1,
            final(self).handed_out() <= final(self).strata(),
    {
        proof {
            use_type_invariant(&*self);
        }
        if self.emitted == self.count {
            return None;
        }
        let stratum = self.emitted;
        self.emitted += 1;
        Some(stratum)
    }

    /// The number of samples still to come, as a lower and an upper bound.
    pub fn size_hint(&self) -> (r: (usize, Option<usize>))
        ensures
            r.0 == self.remaining_spec(),
            r.1 == Some(r.0),
    {
        proof {
            use_type_invariant(self);
        }
        let remaining = self.count - self.emitted;
        (remaining, Some(remaining))
    }

    /// The number of strata the sampler was made with, whatever it has
    /// handed out already.
    pub fn count(self) -> (r: usize)
        ensures
            r == self.strata(),
    {
        self.count
    }
}

/// One call of `next_stratum` takes the sampler from `before` to `after` and
/// returns `r`: the next stratum while there is one, else `None` with the
/// sampler unchanged.
pub open spec fn next_stratum_step(before: Stratified1D, after: Stratified1D, r: Option<usize>) -> bool {
    &&& after.strata() == before.strata()
    &&& if before.handed_out() < before.strata() {
        &&& r == Some(before.handed_out())
        &&& after.handed_out() == before.handed_out() + 1
    } else {
        &&& r is None
        &&& after == before
    }
}

/// What the `i`-th of a run of `next_stratum` calls returns, on a sampler
/// with `count` strata that had handed out `first` of them when the run
/// began.
pub open spec fn stratum_in_run(first: int, count: int, i: int) -> Option<usize> {
    if first + i < count {
        Some((first + i) as usize)
    } else {
        None
    }
}

/// A run of `next_stratum` calls hands out the remaining strata once each,
/// in increasing order, and `None` on every call after the last one: where
/// `states[i]` is the sampler before the `i`-th call and `outs[i]` what that
/// call returned, `outs[i]` is `stratum_in_run(first, count, i)`. A fresh
/// sampler with `count` strata thus yields exactly `0, 1, .., count - 1`.
pub proof fn lemma_strata_run(states: Seq<Stratified1D>, outs: Seq<Option<usize>>)
    requires
        states.len() == outs.len() + 1,
        states[0].handed_out() <= states[0].strata(),
        forall|i: int|
            0 <= i < outs.len() ==> #[trigger] next_stratum_step(states[i], states[i + 1], outs[i]),
    ensures
        forall|i: int|
            0 <= i < outs.len() ==> #[trigger] outs[i] == stratum_in_run(
                states[0].handed_out() as int,
                states[0].strata() as int,
                i,
            ),
        states.last().strata() == states[0].strata(),
        states.last().handed_out() == if states[0].handed_out() + outs.len() < states[0].strata() {
            states[0].handed_out() + outs.len()
        } else {
            states[0].strata() as int
        },
{
    lemma_strata_run_prefix(states, outs, outs.len() as int);
}

proof fn lemma_strata_run_prefix(states: Seq<Stratified1D>, outs: Seq<Option<usize>>, n: int)
    requires
        states.len() == outs.len() + 1,
        states[0].handed_out() <= states[0].strata(),
        forall|i: int|
            0 <= i < outs.len() ==> #[trigger] next_stratum_step(states[i], states[i + 1], outs[i]),
        0 <= n <= outs.len(),
    ensures
        forall|i: int|
            0 <= i < n ==> #[trigger] outs[i] == stratum_in_run(
                states[0].handed_out() as int,
                states[0].strata() as int,
                i,
            ),
        states[n].strata() == states[0].strata(),
        states[n].handed_out() == if states[0].handed_out() + n < states[0].strata() {
            states[0].handed_out() + n
        } else {
            states[0].strata() as int
        },
    decreases n,
{
    if n > 0 {
        let k = n - 1;
        lemma_strata_run_prefix(states, outs, k);
        assert(next_stratum_step(states[k], states[k + 1], outs[k]));
    }
}

impl Clone for Stratified1D {
    fn clone(&self) -> (r: Stratified1D)
        ensures
            r == *self,
    {
        proof {
            use_type_invariant(self);
        }
        Stratified1D { count: self.count, emitted: self.emitted }
    }
}

/// A stratified sampler with `count` strata, none handed out yet.
pub fn stratified_1d(count: usize) -> (r: Stratified1D)
    ensures
        r.strata() == count,
        r.handed_out() == 0,
{
    Stratified1D { count, emitted: 0 }
}

} // verus!
