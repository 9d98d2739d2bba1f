//! The funnel queue of the bridge: any number of producers, one consumer,
//! bounded, first in first out, and without loss. A producer that finds the
//! queue full keeps its chunk and offers it again later.

use crate::broadcast::chunk_views;
use vstd::prelude::*;

verus! {

/// Mathematical model of the funnel queue.
pub struct FunnelView {
    /// How many chunks may wait at once.
    pub capacity: nat,
    /// Every chunk that the queue ever accepted, oldest first.
    pub accepted: Seq<Seq<u8>>,
    /// How many of them the consumer has taken.
    pub taken: nat,
}

impl FunnelView {
    /// A queue that has accepted nothing yet.
    pub open spec fn fresh(capacity: nat) -> FunnelView {
        FunnelView { capacity, accepted: Seq::empty(), taken: 0 }
    }

    /// The capacity is positive and the chunks that wait fit in it.
    pub open spec fn wf(self) -> bool {
        &&& self.capacity > 0
        &&& self.taken <= self.accepted.len()
        &&& self.accepted.len() - self.taken <= self.capacity
    }

    /// The chunks that wait for the consumer, oldest first.
    pub open spec fn waiting(self) -> Seq<Seq<u8>> {
        self.accepted.subrange(self.taken as int, self.accepted.len() as int)
    }

    /// The chunks that the consumer has taken, in the order of taking.
    pub open spec fn delivered(self) -> Seq<Seq<u8>> {
        self.accepted.subrange(0, self.taken as int)
    }

    /// No further chunk fits.
    pub open spec fn full(self) -> bool {
        self.accepted.len() - self.taken >= self.capacity
    }

    /// The queue after `chunk` is offered: accepted at the end unless full.
    pub open spec fn offer(self, chunk: Seq<u8>) -> FunnelView {
        if self.full() {
            self
        } else {
            FunnelView { accepted: self.accepted.push(chunk), ..self }
        }
    }

    /// What the consumer is handed next, if anything waits.
    pub open spec fn next(self) -> Option<Seq<u8>> {
        if self.taken < self.accepted.len() {
            Some(self.accepted[self.taken as int])
        } else {
            None
        }
    }

    /// The queue after the consumer has asked once.
    pub open spec fn take(self) -> FunnelView {
        if self.taken < self.accepted.len() {
            FunnelView { taken: self.taken + 1, ..self }
        } else {
            self
        }
    }
}

/// The view of an optional byte vector.
pub open spec fn opt_bytes(v: Option<Vec<u8>>) -> Option<Seq<u8>> {
    match v {
        Some(bytes) => Some(bytes@),
        None => None,
    }
}

/// The funnel queue.
pub struct Funnel {
    capacity: usize,
    queue: Vec<Vec<u8>>,
    accepted: Ghost<Seq<Seq<u8>>>,
    taken: Ghost<nat>,
}

impl View for Funnel {
    type V = FunnelView;

    closed spec fn view(&self) -> FunnelView {
        FunnelView { capacity: self.capacity as nat, accepted: self.accepted@, taken: self.taken@ }
    }
}

impl Funnel {
    /// The queue holds exactly the accepted chunks that were not taken yet.
    pub closed spec fn wf(&self) -> bool {
        &&& self@.wf()
        &&& self.queue@.len() == self.accepted@.len() - self.taken@
        &&& chunk_views(self.queue@) == self@.waiting()
    }

    /// A consistent queue has a consistent model.
    pub proof fn lemma_wf_view(&self)
        requires
            self.wf(),
        ensures
            self@.wf(),
    {
    }

    /// A queue in which up to `capacity` chunks may wait.
    pub fn new(capacity: usize) -> (q: Funnel)
        requires
            capacity > 0,
        ensures
            q.wf(),
            q@ == FunnelView::fresh(capacity as nat),
    {
        let q = Funnel {
            capacity,
            queue: Vec::new(),
            accepted: Ghost(Seq::empty()),
            taken: Ghost(0),
        };
        assert(chunk_views(q.queue@) =~= q@.waiting());
        q
    }

    /// The number of chunks that wait.
    pub fn len(&self) -> (n: usize)
        requires
            self.wf(),
        ensures
            n == self@.waiting().len(),
    {
        self.queue.len()
    }

    /// Whether no further chunk fits.
    pub fn is_full(&self) -> (r: bool)
        requires
            self.wf(),
        ensures
            r == self@.full(),
    {
        self.queue.len() >= self.capacity
    }

    /// Offers `chunk`. A queue with room accepts it behind everything that
    /// waits; a full queue hands it back and stays as it was.
    pub fn send(&mut self, chunk: Vec<u8>) -> (res: Result<(), Vec<u8>>)
        requires
            old(self).wf(),
        ensures
            final(self).wf(),
            final(self)@ == old(self)@.offer(chunk@),
            res is Ok <==> !old(self)@.full(),
            res matches Err(back) ==> back == chunk,
    {
        if self.queue.len() >= self.capacity {
            return Err(chunk);
        }
        let ghost bytes = chunk@;
        self.queue.push(chunk);
        self.accepted = Ghost(self.accepted@.push(bytes));
        proof {
            assert(chunk_views(self.queue@) =~= self@.waiting()) by {
                assert forall|k: int| 0 <= k < self.queue@.len() implies chunk_views(
                    self.queue@,
                )[k] == self@.waiting()[k] by {
                    if k < old(self).queue@.len() {
                        assert(chunk_views(old(self).queue@)[k] == old(self)@.waiting()[k]);
                    }
                }
            }
        }
        Ok(())
    }

    /// Takes the chunk that has waited longest, if any waits.
    pub fn recv(&mut self) -> (out: Option<Vec<u8>>)
        requires
            old(self).wf(),
        ensures
            final(self).wf(),
            final(self)@ == old(self)@.take(),
            opt_bytes(out) == old(self)@.next(),
    {
        if self.queue.len() == 0 {
            return None;
        }
        let chunk = self.queue.remove(0);
        self.taken = Ghost(self.taken@ + 1);
        proof {
            assert(chunk@ == chunk_views(old(self).queue@)[0]);
            assert(chunk_views(self.queue@) =~= self@.waiting()) by {
                assert forall|k: int| 0 <= k < self.queue@.len() implies chunk_views(
                    self.queue@,
                )[k] == self@.waiting()[k] by {
                    assert(chunk_views(old(self).queue@)[k + 1] == old(self)@.waiting()[k + 1]);
                }
            }
        }
        Some(chunk)
    }
}

} // verus!
