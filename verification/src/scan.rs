//! The scan pipeline: a bounded hand-off queue between the unit that
//! generates targets and the unit that probes them, and the ordered list
//! of results.
//!
//! Targets leave the queue in the order they entered it, one at a time.
//! Each probe appends exactly one result, so a finished scan holds one
//! result for every target that was handed off, in hand-off order. A
//! probe that fails is a result like any other and stops nothing.

use vstd::prelude::*;
use vstd::string::*;
use std::collections::VecDeque;
use crate::outcome::ProbeOutcome;
use crate::probe::ProbeStrategy;
use crate::text::texts;

verus! {

/// What became of a target that the generating unit offered.
#[derive(Debug)]
pub enum Offer {
    /// The target is in the queue.
    Accepted,
    /// The queue is full: the target comes back, to be offered again once
    /// a probe has completed.
    Full(String),
    /// The scan takes no more targets: the target comes back.
    Closed(String),
}

/// What the probing unit is to do next.
#[derive(Debug)]
pub enum Step {
    /// Probe this target, then record what came of it.
    Probe(String),
    /// Nothing is queued, and more may come: wait.
    Wait,
    /// Nothing is queued and nothing will come: the scan is complete.
    Finished,
}

/// One scan in progress, with the strategy `S` for its probes.
pub struct Scan<S: ProbeStrategy> {
    verbose: bool,
    capacity: usize,
    closed: bool,
    queue: VecDeque<String>,
    results: Vec<Result<ProbeOutcome, S::Failure>>,
    produced: Ghost<Seq<Seq<char>>>,
}

impl<S: ProbeStrategy> Scan<S> {
    /// Every target that was ever accepted, in the order of acceptance.
    pub closed spec fn produced(&self) -> Seq<Seq<char>> {
        self.produced@
    }

    /// The targets in the queue, the next one to probe first.
    pub closed spec fn pending(&self) -> Seq<Seq<char>> {
        texts(self.queue@)
    }

    /// The results so far, the first probe's first.
    pub closed spec fn results(&self) -> Seq<Result<ProbeOutcome, S::Failure>> {
        self.results@
    }

    /// Whether the generating unit has said that no more targets come.
    pub closed spec fn is_closed(&self) -> bool {
        self.closed
    }

    /// How many targets the queue holds at most.
    pub closed spec fn capacity(&self) -> usize {
        self.capacity
    }

    /// Whether probes write their full diagnostics.
    pub closed spec fn is_verbose(&self) -> bool {
        self.verbose
    }

    /// Whether the scan is complete: closed, with an empty queue.
    pub open spec fn complete(&self) -> bool {
        self.is_closed() && self.pending().len() == 0
    }

    /// The scan's invariant: the queue is within its bound; each accepted
    /// target either has its result or is still queued, in order; and a
    /// recorded outcome is the outcome of the target in its place.
    pub open spec fn wf(&self) -> bool {
        &&& self.pending().len() <= self.capacity()
        &&& self.produced() == self.produced().take(self.results().len() as int)
            + self.pending()
        &&& self.produced().len() == self.results().len() + self.pending().len()
        &&& forall|i: int|
            0 <= i < self.results().len() ==> (#[trigger] self.results()[i] matches Ok(outcome)
                ==> outcome.target@ == self.produced()[i])
    }

    /// A complete scan holds one result for every target that was
    /// accepted, however many of the probes failed.
    pub proof fn lemma_one_result_per_target(&self)
        requires
            self.wf(),
            self.complete(),
        ensures
            self.results().len() == self.produced().len(),
    {
    }

    /// A fresh scan: open, with nothing queued and no results.
    pub fn new(verbose: bool, capacity: usize) -> (scan: Scan<S>)
        ensures
            scan.wf(),
            scan.is_verbose() == verbose,
            scan.capacity() == capacity,
            !scan.is_closed(),
            scan.produced() == Seq::<Seq<char>>::empty(),
            scan.pending() == Seq::<Seq<char>>::empty(),
            scan.results() == Seq::<Result<ProbeOutcome, S::Failure>>::empty(),
    {
        let scan = Scan {
            verbose,
            capacity,
            closed: false,
            queue: VecDeque::new(),
            results: Vec::new(),
            produced: Ghost(Seq::empty()),
        };
        assert(scan.pending() =~= Seq::<Seq<char>>::empty());
        assert(scan.produced().take(0) + scan.pending() =~= scan.produced());
        scan
    }

    /// The generating unit hands off one target. It is accepted while the
    /// scan is open and the queue has room, and goes to the back of the
    /// queue.
    pub fn offer(&mut self, target: String) -> (offer: Offer)
        requires
            old(self).wf(),
        ensures
            final(self).wf(),
            final(self).is_verbose() == old(self).is_verbose(),
            final(self).capacity() == old(self).capacity(),
            final(self).is_closed() == old(self).is_closed(),
            final(self).results() == old(self).results(),
            match offer {
                Offer::Accepted => {
                    &&& !old(self).is_closed()
                    &&& old(self).pending().len() < old(self).capacity()
                    &&& final(self).pending() == old(self).pending().push(target@)
                    &&& final(self).produced() == old(self).produced().push(target@)
                },
                Offer::Full(back) => {
                    &&& !old(self).is_closed()
                    &&& old(self).pending().len() >= old(self).capacity()
                    &&& back == target
                    &&& final(self).pending() == old(self).pending()
                    &&& final(self).produced() == old(self).produced()
                },
                Offer::Closed(back) => {
                    &&& old(self).is_closed()
                    &&& back == target
                    &&& final(self).pending() == old(self).pending()
                    &&& final(self).produced() == old(self).produced()
                },
            },
    {
        broadcast use vstd::std_specs::vecdeque::axiom_spec_len;

        if self.closed {
            return Offer::Closed(target);
        }
        if self.queue.len() >= self.capacity {
            return Offer::Full(target);
        }
        proof {
            let before = self.produced@;
            let done = self.results@.len() as int;
            assert(texts(self.queue@.push(target)) =~= texts(self.queue@).push(target@));
            assert(before.push(target@).take(done) =~= before.take(done));
            assert(before.push(target@) =~= before.take(done) + texts(self.queue@).push(
                target@,
            ));
        }
        self.produced = Ghost(self.produced@.push(target@));
        self.queue.push_back(target);
        Offer::Accepted
    }

    /// The generating unit says that it is exhausted. Closing twice is
    /// closing once.
    pub fn close(&mut self)
        requires
            old(self).wf(),
        ensures
            final(self).wf(),
            final(self).is_closed(),
            final(self).is_verbose() == old(self).is_verbose(),
            final(self).capacity() == old(self).capacity(),
            final(self).pending() == old(self).pending(),
            final(self).produced() == old(self).produced(),
            final(self).results() == old(self).results(),
    {
        self.closed = true;
    }

    /// What the probing unit is to do now. The target to probe stays at
    /// the front of the queue until its result is recorded.
    pub fn next(&self) -> (step: Step)
        requires
            self.wf(),
        ensures
            match step {
                Step::Probe(target) => self.pending().len() > 0 && target@ == self.pending()[0],
                Step::Wait => self.pending().len() == 0 && !self.is_closed(),
                Step::Finished => self.complete(),
            },
    {
        broadcast use vstd::std_specs::vecdeque::axiom_spec_len;

        if self.queue.len() > 0 {
            Step::Probe(self.queue[0].clone())
        } else if self.closed {
            Step::Finished
        } else {
            Step::Wait
        }
    }

    /// Ends a complete scan and hands out its results, one for each target
    /// that was accepted, in the order of acceptance. A scan that is not
    /// complete comes back untouched.
    pub fn finish(self) -> (end: Result<Vec<Result<ProbeOutcome, S::Failure>>, Scan<S>>)
        requires
            self.wf(),
        ensures
            match end {
                Ok(results) => {
                    &&& self.complete()
                    &&& results@ == self.results()
                    &&& results@.len() == self.produced().len()
                },
                Err(scan) => !self.complete() && scan == self,
            },
    {
        broadcast use vstd::std_specs::vecdeque::axiom_spec_len;

        if self.closed && self.queue.len() == 0 {
            Ok(self.results)
        } else {
            Err(self)
        }
    }

    /// Records what the exchange with the target at the front of the
    /// queue came to: the target leaves the queue and the strategy's
    /// reading of the exchange joins the results. With nothing queued the
    /// exchange comes back and nothing changes.
    pub fn record(&mut self, exchange: S::Exchange) -> (refused: Option<S::Exchange>)
        requires
            old(self).wf(),
        ensures
            final(self).wf(),
            final(self).is_verbose() == old(self).is_verbose(),
            final(self).capacity() == old(self).capacity(),
            final(self).is_closed() == old(self).is_closed(),
            final(self).produced() == old(self).produced(),
            match refused {
                Some(back) => {
                    &&& old(self).pending().len() == 0
                    &&& back == exchange
                    &&& final(self).pending() == old(self).pending()
                    &&& final(self).results() == old(self).results()
                },
                None => {
                    &&& old(self).pending().len() > 0
                    &&& final(self).pending() == old(self).pending().skip(1)
                    &&& final(self).results().len() == old(self).results().len() + 1
                    &&& final(self).results().drop_last() == old(self).results()
                    &&& S::classifies(
                        old(self).is_verbose(),
                        old(self).pending()[0],
                        exchange,
                        final(self).results().last(),
                    )
                },
            },
    {
        broadcast use vstd::std_specs::vecdeque::axiom_spec_len;

        if self.queue.len() == 0 {
            return Some(exchange);
        }
        let ghost before = self.queue@;
        let ghost done = self.results@.len() as int;
        let result = S::classify(self.verbose, self.queue[0].as_str(), exchange);
        let taken = self.queue.pop_front();
        self.results.push(result);
        proof {
            let all = self.produced@;
            assert(texts(self.queue@) =~= texts(before).skip(1));
            assert(all[done] == texts(before)[0]);
            assert(all =~= all.take(done + 1) + texts(before).skip(1));
            assert(self.results().drop_last() =~= old(self).results());
        }
        None
    }
}

} // verus!
