//! The broadcast channel of the bridge: one producer, any number of
//! subscribers, bounded retention, lossy for subscribers that fall behind.
//!
//! Every chunk that is published is appended to a history. A subscriber owns a
//! cursor into that history and receives the chunks from its cursor on, one per
//! call, in publish order. The channel retains only the newest `capacity`
//! chunks: a subscriber whose backlog has grown beyond that is told how many
//! chunks it lost and continues with the oldest chunk that is still retained.

use vstd::prelude::*;

verus! {

/// What a subscriber is handed when it asks for its next chunk.
#[derive(Debug, PartialEq, Eq)]
pub enum Delivery {
    /// The next chunk in publish order.
    Chunk(Vec<u8>),
    /// The subscriber fell behind; this many chunks were dropped for it (the
    /// count stops at `u64::MAX`). The next call continues with the oldest
    /// retained chunk.
    Lagged(u64),
    /// Everything published so far has been delivered.
    Empty,
    /// The handle names no live subscription.
    Closed,
}

/// Mathematical counterpart of [`Delivery`].
pub enum DeliveryView {
    Chunk(Seq<u8>),
    Lagged(nat),
    Empty,
    Closed,
}

impl View for Delivery {
    type V = DeliveryView;

    open spec fn view(&self) -> DeliveryView {
        match *self {
            Delivery::Chunk(bytes) => DeliveryView::Chunk(bytes@),
            Delivery::Lagged(n) => DeliveryView::Lagged(n as nat),
            Delivery::Empty => DeliveryView::Empty,
            Delivery::Closed => DeliveryView::Closed,
        }
    }
}

/// Why a chunk could not be published.
#[derive(Clone, Copy, Debug, PartialEq, Eq, Structural)]
pub enum PublishError {
    /// Nobody is subscribed, so the chunk has no recipient.
    NoSubscribers,
}

/// The smaller of two natural numbers.
pub open spec fn min_nat(a: nat, b: nat) -> nat {
    if a <= b {
        a
    } else {
        b
    }
}

/// Mathematical model of the broadcast channel.
pub struct BusView {
    /// How many of the newest chunks are retained.
    pub capacity: nat,
    /// Every chunk ever published, oldest first.
    pub history: Seq<Seq<u8>>,
    /// One entry per subscription slot: the position in `history` of the next
    /// chunk to deliver, or `None` for a free slot.
    pub cursors: Seq<Option<nat>>,
}

impl BusView {
    /// A channel with no history and no subscriber.
    pub open spec fn fresh(capacity: nat) -> BusView {
        BusView { capacity, history: Seq::empty(), cursors: Seq::empty() }
    }

    /// The capacity is positive and no cursor lies beyond the history.
    pub open spec fn wf(self) -> bool {
        &&& self.capacity > 0
        &&& forall|i: int|
            0 <= i < self.cursors.len() ==> match #[trigger] self.cursors[i] {
                Some(c) => c <= self.history.len(),
                None => true,
            }
    }

    /// Slot `id` holds a live subscription.
    pub open spec fn subscribed(self, id: nat) -> bool {
        id < self.cursors.len() && self.cursors[id as int] is Some
    }

    /// At least one subscription is live.
    pub open spec fn has_subscriber(self) -> bool {
        exists|id: nat| #[trigger] self.subscribed(id)
    }

    /// Position of the next chunk for `id`.
    pub open spec fn cursor(self, id: nat) -> nat
        recommends
            self.subscribed(id),
    {
        self.cursors[id as int]->0
    }

    /// Number of chunks published since the cursor of `id`.
    pub open spec fn backlog(self, id: nat) -> nat
        recommends
            self.subscribed(id),
    {
        (self.history.len() - self.cursor(id)) as nat
    }

    /// The backlog of `id` exceeds what the channel retains.
    pub open spec fn lagging(self, id: nat) -> bool {
        self.backlog(id) > self.capacity
    }

    /// The channel after `chunk` is offered: appended to the history if anyone
    /// is subscribed, unchanged otherwise.
    pub open spec fn publish(self, chunk: Seq<u8>) -> BusView {
        if self.has_subscriber() {
            BusView { history: self.history.push(chunk), ..self }
        } else {
            self
        }
    }

    /// The channel after slot `id` is given a subscription that starts at the
    /// end of the history. `id` is a free slot or the slot just past the last.
    pub open spec fn subscribe(self, id: nat) -> BusView {
        if id < self.cursors.len() {
            BusView { cursors: self.cursors.update(id as int, Some(self.history.len())), ..self }
        } else {
            BusView { cursors: self.cursors.push(Some(self.history.len())), ..self }
        }
    }

    /// A subscription may be opened in slot `id`: the slot is free, or it is
    /// the one just past the last.
    pub open spec fn free_slot(self, id: nat) -> bool {
        id <= self.cursors.len() && !self.subscribed(id)
    }

    /// The channel after the subscription in slot `id` is given up.
    pub open spec fn unsubscribe(self, id: nat) -> BusView {
        if id < self.cursors.len() {
            BusView { cursors: self.cursors.update(id as int, None), ..self }
        } else {
            self
        }
    }

    /// What `id` is handed by its next receive.
    pub open spec fn delivery(self, id: nat) -> DeliveryView {
        if !self.subscribed(id) {
            DeliveryView::Closed
        } else if self.lagging(id) {
            DeliveryView::Lagged(
                min_nat((self.backlog(id) - self.capacity) as nat, u64::MAX as nat),
            )
        } else if self.backlog(id) > 0 {
            DeliveryView::Chunk(self.history[self.cursor(id) as int])
        } else {
            DeliveryView::Empty
        }
    }

    /// The channel after `id` has received once: a lagging cursor jumps to the
    /// oldest retained chunk, a cursor with a backlog advances by one.
    pub open spec fn after_recv(self, id: nat) -> BusView {
        if !self.subscribed(id) {
            self
        } else if self.lagging(id) {
            BusView {
                cursors: self.cursors.update(
                    id as int,
                    Some((self.history.len() - self.capacity) as nat),
                ),
                ..self
            }
        } else if self.backlog(id) > 0 {
            BusView { cursors: self.cursors.update(id as int, Some(self.cursor(id) + 1)), ..self }
        } else {
            self
        }
    }
}

/// The views of a sequence of byte vectors.
pub open spec fn chunk_views(chunks: Seq<Vec<u8>>) -> Seq<Seq<u8>> {
    Seq::new(chunks.len(), |i: int| chunks[i]@)
}

/// A copy of `bytes`.
pub fn copy_bytes(bytes: &[u8]) -> (out: Vec<u8>)
    ensures
        out@ == bytes@,
{
    let mut out: Vec<u8> = Vec::new();
    let mut i: usize = 0;
    while i < bytes.len()
        invariant
            i <= bytes.len(),
            out@ == bytes@.subrange(0, i as int),
        decreases bytes.len() - i,
    {
        out.push(bytes[i]);
        i = i + 1;
    }
    assert(bytes@.subrange(0, bytes.len() as int) == bytes@);
    out
}

/// Book-keeping for one subscription.
#[derive(Clone, Copy)]
struct Slot {
    /// Retained chunks that are still to be delivered.
    pending: usize,
    /// Chunks that were dropped before they could be delivered.
    missed: u64,
    /// Position in the history of the next chunk to deliver.
    cursor: Ghost<nat>,
}

/// The broadcast channel.
pub struct Broadcast {
    capacity: usize,
    /// The newest chunks, oldest first; at most `capacity` of them.
    ring: Vec<Vec<u8>>,
    slots: Vec<Option<Slot>>,
    history: Ghost<Seq<Seq<u8>>>,
}

impl View for Broadcast {
    type V = BusView;

    closed spec fn view(&self) -> BusView {
        BusView {
            capacity: self.capacity as nat,
            history: self.history@,
            cursors: Seq::new(
                self.slots@.len(),
                |i: int|
                    match self.slots@[i] {
                        Some(slot) => Some(slot.cursor@),
                        None => None,
                    },
            ),
        }
    }
}

impl Broadcast {
    /// The book-keeping of slot `i` agrees with its cursor.
    spec fn slot_ok(&self, i: int) -> bool {
        match self.slots@[i] {
            Some(slot) => {
                let behind = self.history@.len() - slot.cursor@;
                &&& slot.cursor@ <= self.history@.len()
                &&& slot.pending as nat == min_nat(behind as nat, self.capacity as nat)
                &&& slot.missed as nat == min_nat((behind - slot.pending) as nat, u64::MAX as nat)
            },
            None => true,
        }
    }

    /// The channel is consistent: the ring holds the newest chunks of the
    /// history and every slot agrees with its cursor.
    pub closed spec fn wf(&self) -> bool {
        &&& self.capacity > 0
        &&& self.ring@.len() == min_nat(self.history@.len(), self.capacity as nat)
        &&& chunk_views(self.ring@) == self.history@.subrange(
            self.history@.len() - self.ring@.len(),
            self.history@.len() as int,
        )
        &&& forall|i: int| 0 <= i < self.slots@.len() ==> #[trigger] self.slot_ok(i)
    }

    /// A consistent channel has a consistent model.
    pub proof fn lemma_wf_view(&self)
        requires
            self.wf(),
        ensures
            self@.wf(),
    {
        assert forall|i: int| 0 <= i < self@.cursors.len() implies match #[trigger] self@.cursors[i] {
            Some(c) => c <= self@.history.len(),
            None => true,
        } by {
            assert(self.slot_ok(i));
        }
    }

    /// A channel that retains the newest `capacity` chunks.
    pub fn new(capacity: usize) -> (bus: Broadcast)
        requires
            capacity > 0,
        ensures
            bus.wf(),
            bus@ == BusView::fresh(capacity as nat),
    {
        let bus = Broadcast {
            capacity,
            ring: Vec::new(),
            slots: Vec::new(),
            history: Ghost(Seq::empty()),
        };
        assert(bus@.cursors =~= Seq::empty());
        assert(chunk_views(bus.ring@) =~= bus.history@.subrange(0, 0));
        bus
    }

    /// How many chunks the channel retains.
    pub fn capacity(&self) -> (n: usize)
        ensures
            n == self@.capacity,
    {
        self.capacity
    }

    /// Whether slot `id` holds a live subscription.
    pub fn is_subscribed(&self, id: usize) -> (r: bool)
        ensures
            r == self@.subscribed(id as nat),
    {
        id < self.slots.len() && self.slots[id].is_some()
    }

    /// Whether anyone is subscribed.
    pub fn has_subscriber(&self) -> (r: bool)
        ensures
            r == self@.has_subscriber(),
    {
        let mut i: usize = 0;
        while i < self.slots.len()
            invariant
                i <= self.slots.len(),
                forall|j: nat| j < i ==> !self@.subscribed(j),
            decreases self.slots.len() - i,
        {
            if self.slots[i].is_some() {
                assert(self@.subscribed(i as nat));
                return true;
            }
            i = i + 1;
        }
        assert(!self@.has_subscriber()) by {
            if self@.has_subscriber() {
                let id = choose|id: nat| #[trigger] self@.subscribed(id);
                assert(id < i);
            }
        }
        false
    }
}

impl Broadcast {
    /// Offers `chunk` to the subscribers. With nobody subscribed the chunk is
    /// refused and the channel stays as it was; otherwise the chunk joins the
    /// history, and the oldest retained chunk makes room for it if need be.
    pub fn publish(&mut self, chunk: Vec<u8>) -> (res: Result<(), PublishError>)
        requires
            old(self).wf(),
        ensures
            final(self).wf(),
            final(self)@ == old(self)@.publish(chunk@),
            res is Ok <==> old(self)@.has_subscriber(),
            res is Err ==> res == Err::<(), PublishError>(PublishError::NoSubscribers),
    {
        if !self.has_subscriber() {
            return Err(PublishError::NoSubscribers);
        }
        let ghost bytes = chunk@;
        let ghost before = self.history@;
        let ghost kept = self.ring@;
        if self.ring.len() == self.capacity {
            self.ring.remove(0);
        }
        self.ring.push(chunk);
        self.history = Ghost(before.push(bytes));
        proof {
            let after = self.history@;
            assert(chunk_views(self.ring@) =~= after.subrange(
                after.len() - self.ring@.len(),
                after.len() as int,
            )) by {
                assert forall|k: int| 0 <= k < self.ring@.len() implies chunk_views(self.ring@)[k]
                    == after[after.len() - self.ring@.len() + k] by {
                    if k < self.ring@.len() - 1 {
                        let shift: int = if kept.len() == self.capacity {
                            1
                        } else {
                            0
                        };
                        assert(self.ring@[k] == kept[k + shift]);
                        assert(chunk_views(kept)[k + shift] == before[before.len() - kept.len() + k
                            + shift]);
                    }
                }
            }
        }
        let mut i: usize = 0;
        while i < self.slots.len()
            invariant
                i <= self.slots.len(),
                self.slots@.len() == old(self).slots@.len(),
                self.capacity == old(self).capacity,
                self.capacity > 0,
                self.history@ == before.push(bytes),
                before == old(self).history@,
                self.ring@.len() == min_nat(self.history@.len(), self.capacity as nat),
                chunk_views(self.ring@) == self.history@.subrange(
                    self.history@.len() - self.ring@.len(),
                    self.history@.len() as int,
                ),
                forall|j: int| 0 <= j < i ==> #[trigger] self.slot_ok(j),
                forall|j: int| i <= j < self.slots@.len() ==> self.slots@[j] == old(self).slots@[j],
                forall|j: int| 0 <= j < self.slots@.len() ==> #[trigger] old(self).slot_ok(j),
                forall|j: int|
                    0 <= j < self.slots@.len() ==> match #[trigger] self.slots@[j] {
                        Some(slot) => old(self).slots@[j] is Some && old(self).slots@[j]->0.cursor@
                            == slot.cursor@,
                        None => old(self).slots@[j] is None,
                    },
            decreases self.slots.len() - i,
        {
            assert(old(self).slot_ok(i as int));
            match self.slots[i] {
                Some(slot) => {
                    let next = if slot.pending < self.capacity {
                        Slot { pending: slot.pending + 1, missed: slot.missed, cursor: slot.cursor }
                    } else if slot.missed < u64::MAX {
                        Slot { pending: slot.pending, missed: slot.missed + 1, cursor: slot.cursor }
                    } else {
                        slot
                    };
                    let ghost prev = *self;
                    self.slots.set(i, Some(next));
                    assert(self.slot_ok(i as int));
                    assert forall|j: int| 0 <= j < i implies #[trigger] self.slot_ok(j) by {
                        assert(prev.slot_ok(j));
                    }
                },
                None => {
                    assert(self.slot_ok(i as int));
                },
            }
            i = i + 1;
        }
        assert(self@.cursors =~= old(self)@.cursors);
        Ok(())
    }
}

impl Broadcast {
    /// Opens a subscription that starts at the end of the history, in the
    /// lowest free slot, and returns the slot.
    pub fn subscribe(&mut self) -> (id: usize)
        requires
            old(self).wf(),
        ensures
            final(self).wf(),
            old(self)@.free_slot(id as nat),
            forall|j: nat| j < id ==> old(self)@.subscribed(j),
            final(self)@ == old(self)@.subscribe(id as nat),
            final(self)@.subscribed(id as nat),
            final(self)@.cursor(id as nat) == old(self)@.history.len(),
    {
        let fresh = Slot { pending: 0, missed: 0, cursor: Ghost(self.history@.len()) };
        let mut i: usize = 0;
        while i < self.slots.len()
            invariant
                i <= self.slots.len(),
                *self == *old(self),
                self.wf(),
                fresh.pending == 0,
                fresh.missed == 0,
                fresh.cursor@ == self.history@.len(),
                forall|j: nat| j < i ==> self@.subscribed(j),
            decreases self.slots.len() - i,
        {
            if self.slots[i].is_none() {
                let ghost prev = *self;
                self.slots.set(i, Some(fresh));
                proof {
                    assert(self@.cursors =~= prev@.subscribe(i as nat).cursors);
                    assert forall|j: int| 0 <= j < self.slots@.len() implies #[trigger] self.slot_ok(
                        j,
                    ) by {
                        assert(prev.slot_ok(j));
                    }
                }
                return i;
            }
            i = i + 1;
        }
        let ghost prev = *self;
        self.slots.push(Some(fresh));
        proof {
            assert(self@.cursors =~= prev@.subscribe(i as nat).cursors);
            assert forall|j: int| 0 <= j < self.slots@.len() implies #[trigger] self.slot_ok(j) by {
                if j < prev.slots@.len() {
                    assert(prev.slot_ok(j));
                }
            }
        }
        i
    }

    /// Gives up the subscription in slot `id`; a slot that holds none is left
    /// as it is.
    pub fn unsubscribe(&mut self, id: usize)
        requires
            old(self).wf(),
        ensures
            final(self).wf(),
            final(self)@ == old(self)@.unsubscribe(id as nat),
            !final(self)@.subscribed(id as nat),
    {
        if id < self.slots.len() {
            let ghost prev = *self;
            self.slots.set(id, None);
            proof {
                assert(self@.cursors =~= prev@.unsubscribe(id as nat).cursors);
                assert forall|j: int| 0 <= j < self.slots@.len() implies #[trigger] self.slot_ok(j) by {
                    assert(prev.slot_ok(j));
                }
            }
        }
    }

    /// Hands subscriber `id` its next chunk, or says why there is none.
    pub fn recv(&mut self, id: usize) -> (out: Delivery)
        requires
            old(self).wf(),
        ensures
            final(self).wf(),
            out@ == old(self)@.delivery(id as nat),
            final(self)@ == old(self)@.after_recv(id as nat),
    {
        if id >= self.slots.len() {
            return Delivery::Closed;
        }
        assert(self.slot_ok(id as int));
        let ghost prev = *self;
        match self.slots[id] {
            None => Delivery::Closed,
            Some(slot) => {
                if slot.missed > 0 {
                    let ghost jump: nat = (self.history@.len() - self.capacity) as nat;
                    self.slots.set(
                        id,
                        Some(Slot { pending: slot.pending, missed: 0, cursor: Ghost(jump) }),
                    );
                    proof {
                        assert(self@.cursors =~= prev@.after_recv(id as nat).cursors);
                        assert forall|j: int| 0 <= j < self.slots@.len() implies #[trigger] self.slot_ok(
                            j,
                        ) by {
                            assert(prev.slot_ok(j));
                        }
                    }
                    Delivery::Lagged(slot.missed)
                } else if slot.pending > 0 {
                    let at = self.ring.len() - slot.pending;
                    let bytes = copy_bytes(self.ring[at].as_slice());
                    assert(bytes@ == self.history@[slot.cursor@ as int]) by {
                        assert(chunk_views(self.ring@)[at as int] == self.ring@[at as int]@);
                    }
                    self.slots.set(
                        id,
                        Some(
                            Slot {
                                pending: slot.pending - 1,
                                missed: 0,
                                cursor: Ghost(slot.cursor@ + 1),
                            },
                        ),
                    );
                    proof {
                        assert(self@.cursors =~= prev@.after_recv(id as nat).cursors);
                        assert forall|j: int| 0 <= j < self.slots@.len() implies #[trigger] self.slot_ok(
                            j,
                        ) by {
                            assert(prev.slot_ok(j));
                        }
                    }
                    Delivery::Chunk(bytes)
                } else {
                    Delivery::Empty
                }
            },
        }
    }
}

} // verus!
