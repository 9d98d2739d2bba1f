//! What the bridge guarantees over any sequence of events: that every client
//! sees the serial line in order, that client input reaches the serial line
//! only with write-back and then without loss, and that no client can end
//! the bridge.

use crate::broadcast::DeliveryView;
use crate::delivery::{
    embeds, keeps, law_in_order_at_most_once, law_no_loss_within_capacity,
    law_polling_catches_up, polls, BusOp,
};
use crate::serial::{BridgeEnd, BridgeView, ClientAction};
use vstd::prelude::*;

verus! {

/// One event in the life of the bridge.
pub enum BridgeOp {
    /// A read of the serial line returned these bytes.
    SerialRead(Seq<u8>),
    /// The serial peripheral failed.
    SerialFault,
    /// The serial task asked for the next chunk to write.
    NextWrite,
    /// The listening socket could not be bound.
    BindFailed,
    /// A connection was accepted and given this slot.
    Accept(nat),
    /// The client in this slot asked for its next chunk.
    Poll(nat),
    /// A read of some client's socket returned these bytes.
    ClientRead(Seq<u8>),
    /// The client in this slot has ended.
    ClientGone(nat),
}

impl BridgeOp {
    /// The event comes from a client task rather than from the serial task or
    /// the accept loop.
    pub open spec fn from_client(self) -> bool {
        self is Poll || self is ClientRead || self is ClientGone
    }
}

/// No event in `ops` ends the client in `slot`.
pub open spec fn stays(ops: Seq<BridgeOp>, slot: nat) -> bool {
    forall|k: int| 0 <= k < ops.len() ==> #[trigger] ops[k] != BridgeOp::ClientGone(slot)
}

/// Every event in `ops` comes from a client task.
pub open spec fn only_clients(ops: Seq<BridgeOp>) -> bool {
    forall|k: int| 0 <= k < ops.len() ==> (#[trigger] ops[k]).from_client()
}

impl BridgeView {
    /// The bridge after one event.
    pub open spec fn apply(self, op: BridgeOp) -> BridgeView {
        match op {
            BridgeOp::SerialRead(data) => self.after_serial_read(data),
            BridgeOp::SerialFault => self.end(BridgeEnd::SerialFault),
            BridgeOp::NextWrite => self.after_next_write(),
            BridgeOp::BindFailed => self.end(BridgeEnd::BindFailed),
            BridgeOp::Accept(slot) => if self.bus.free_slot(slot) {
                self.after_accept(slot)
            } else {
                self
            },
            BridgeOp::Poll(slot) => self.after_client_poll(slot),
            BridgeOp::ClientRead(data) => self.after_client_read(data),
            BridgeOp::ClientGone(slot) => self.after_client_gone(slot),
        }
    }

    /// The bridge after a sequence of events.
    pub open spec fn run(self, ops: Seq<BridgeOp>) -> BridgeView
        decreases ops.len(),
    {
        if ops.len() == 0 {
            self
        } else {
            self.run(ops.drop_last()).apply(ops.last())
        }
    }

    /// The chunks handed to the serial task for writing in the course of
    /// `ops`, in the order of writing.
    pub open spec fn written(self, ops: Seq<BridgeOp>) -> Seq<Seq<u8>>
        decreases ops.len(),
    {
        if ops.len() == 0 {
            Seq::empty()
        } else {
            let before = self.run(ops.drop_last());
            let so_far = self.written(ops.drop_last());
            match (ops.last(), before.next_write()) {
                (BridgeOp::NextWrite, Some(chunk)) => so_far.push(chunk),
                _ => so_far,
            }
        }
    }

    /// The chunks from clients that were queued for the serial line in the
    /// course of `ops`, in the order of queueing.
    pub open spec fn queued(self, ops: Seq<BridgeOp>) -> Seq<Seq<u8>>
        decreases ops.len(),
    {
        if ops.len() == 0 {
            Seq::empty()
        } else {
            let before = self.run(ops.drop_last());
            let so_far = self.queued(ops.drop_last());
            match ops.last() {
                BridgeOp::ClientRead(data) if before.client_read_action(data)
                    == ClientAction::Queued => so_far.push(data),
                _ => so_far,
            }
        }
    }

    /// The chunks handed to the client in `slot` in the course of `ops`, in
    /// the order in which it received them.
    pub open spec fn handed(self, ops: Seq<BridgeOp>, slot: nat) -> Seq<Seq<u8>>
        decreases ops.len(),
    {
        if ops.len() == 0 {
            Seq::empty()
        } else {
            let before = self.run(ops.drop_last());
            let so_far = self.handed(ops.drop_last(), slot);
            if ops.last() == BridgeOp::Poll(slot) {
                match before.client_delivery(slot) {
                    DeliveryView::Chunk(bytes) => so_far.push(bytes),
                    _ => so_far,
                }
            } else {
                so_far
            }
        }
    }

    /// What one event does to the broadcast channel, if anything.
    pub open spec fn bus_op(self, op: BridgeOp) -> Option<BusOp> {
        match op {
            BridgeOp::SerialRead(data) => if self.running() && data.len() > 0 {
                Some(BusOp::Publish(data))
            } else {
                None
            },
            BridgeOp::Accept(slot) => if self.running() {
                Some(BusOp::Subscribe(slot))
            } else {
                None
            },
            BridgeOp::Poll(slot) => if self.running() {
                Some(BusOp::Recv(slot))
            } else {
                None
            },
            BridgeOp::ClientGone(slot) => Some(BusOp::Unsubscribe(slot)),
            _ => None,
        }
    }

    /// What a sequence of events does to the broadcast channel.
    pub open spec fn bus_ops(self, ops: Seq<BridgeOp>) -> Seq<BusOp>
        decreases ops.len(),
    {
        if ops.len() == 0 {
            Seq::empty()
        } else {
            let before = self.run(ops.drop_last());
            let so_far = self.bus_ops(ops.drop_last());
            match before.bus_op(ops.last()) {
                Some(op) => so_far.push(op),
                None => so_far,
            }
        }
    }
}

/// One event keeps the bridge consistent and leaves the write-back setting
/// alone.
pub proof fn lemma_apply(v: BridgeView, op: BridgeOp)
    requires
        v.wf(),
    ensures
        v.apply(op).wf(),
        v.apply(op).write_enabled == v.write_enabled,
        v.ended is Some ==> v.apply(op).ended == v.ended,
{
    let w = v.apply(op);
    let bop = match op {
        BridgeOp::SerialRead(data) => BusOp::Publish(data),
        BridgeOp::Accept(slot) => BusOp::Subscribe(slot),
        BridgeOp::Poll(slot) => BusOp::Recv(slot),
        BridgeOp::ClientGone(slot) => BusOp::Unsubscribe(slot),
        _ => BusOp::Recv(0),
    };
    crate::delivery::lemma_apply(v.bus, bop, 0);
    assert(w.bus == v.bus || w.bus == v.bus.apply(bop));
}

/// Any sequence of events keeps the bridge consistent and leaves the
/// write-back setting alone.
pub proof fn lemma_run(v: BridgeView, ops: Seq<BridgeOp>)
    requires
        v.wf(),
    ensures
        v.run(ops).wf(),
        v.run(ops).write_enabled == v.write_enabled,
    decreases ops.len(),
{
    if ops.len() > 0 {
        lemma_run(v, ops.drop_last());
        lemma_apply(v.run(ops.drop_last()), ops.last());
    }
}

/// Without write-back nothing that a client sends reaches the serial line.
///
/// Whatever happens to a bridge that was set up without write-back, the
/// serial task is never handed a chunk to write and no client input is ever
/// queued.
pub proof fn law_write_back_disabled(v: BridgeView, ops: Seq<BridgeOp>)
    requires
        v.wf(),
        !v.write_enabled,
    ensures
        v.written(ops) == Seq::<Seq<u8>>::empty(),
        v.queued(ops) == Seq::<Seq<u8>>::empty(),
        v.run(ops).next_write() is None,
    decreases ops.len(),
{
    lemma_run(v, ops);
    if ops.len() > 0 {
        law_write_back_disabled(v, ops.drop_last());
        lemma_run(v, ops.drop_last());
    }
}

/// With write-back, client input reaches the serial line without loss,
/// without duplication and in the order of queueing.
///
/// Over any sequence of events, the chunks that the funnel queue has accepted
/// are those it had accepted before followed by those that were queued since,
/// and the chunks written since are the accepted chunks from the position
/// where writing stood to the position where it stands now. So every queued
/// chunk is written at most once, and once nothing waits, everything that was
/// queued has been written.
pub proof fn law_funnel_lossless(v: BridgeView, ops: Seq<BridgeOp>)
    requires
        v.wf(),
        v.write_enabled,
    ensures
        v.run(ops).funnel is Some,
        v.run(ops).funnel->0.accepted == v.funnel->0.accepted + v.queued(ops),
        v.run(ops).funnel->0.taken == v.funnel->0.taken + v.written(ops).len(),
        v.written(ops) == v.run(ops).funnel->0.accepted.subrange(
            v.funnel->0.taken as int,
            v.run(ops).funnel->0.taken as int,
        ),
        v.run(ops).funnel->0.waiting().len() == 0 ==> v.funnel->0.waiting() + v.queued(ops)
            == v.written(ops),
    decreases ops.len(),
{
    let f0 = v.funnel->0;
    if ops.len() == 0 {
        assert(f0.accepted + v.queued(ops) =~= f0.accepted);
        assert(v.written(ops) =~= f0.accepted.subrange(f0.taken as int, f0.taken as int));
    } else {
        let head = ops.drop_last();
        law_funnel_lossless(v, head);
        lemma_run(v, head);
        let mid = v.run(head);
        let f1 = mid.funnel->0;
        let f2 = v.run(ops).funnel->0;
        assert(f2.accepted =~= f0.accepted + v.queued(ops));
        assert(v.written(ops) =~= f2.accepted.subrange(f0.taken as int, f2.taken as int));
    }
    let f = v.run(ops).funnel->0;
    if f.waiting().len() == 0 {
        lemma_run(v, ops);
        assert(f0.waiting() + v.queued(ops) =~= v.written(ops));
    }
}

/// No client can end the bridge.
///
/// Whatever the client tasks report, a peer that closed, a failed socket,
/// input of any kind, the bridge ends no sooner for it, and the history of the
/// serial line stays as it was for the other clients.
pub proof fn law_clients_are_isolated(v: BridgeView, ops: Seq<BridgeOp>)
    requires
        v.wf(),
        only_clients(ops),
    ensures
        v.run(ops).ended == v.ended,
        v.run(ops).bus.history == v.bus.history,
    decreases ops.len(),
{
    if ops.len() > 0 {
        let head = ops.drop_last();
        assert(only_clients(head)) by {
            assert forall|k: int| 0 <= k < head.len() implies (#[trigger] head[k]).from_client() by {
                assert(ops[k].from_client());
            }
        }
        law_clients_are_isolated(v, head);
        assert(ops[ops.len() - 1].from_client());
    }
}

/// A bridge that has ended stays ended, for the reason for which it ended
/// first, and relays nothing more.
pub proof fn law_end_is_final(v: BridgeView, ops: Seq<BridgeOp>)
    requires
        v.wf(),
        v.ended is Some,
    ensures
        v.run(ops).ended == v.ended,
        v.run(ops).bus.history == v.bus.history,
        v.run(ops).funnel == v.funnel,
        v.written(ops) == Seq::<Seq<u8>>::empty(),
    decreases ops.len(),
{
    if ops.len() > 0 {
        law_end_is_final(v, ops.drop_last());
    }
}

/// The bridge does to its broadcast channel exactly what its events say, and
/// hands each client exactly what the channel delivers to its slot.
pub proof fn lemma_bus_projection(v: BridgeView, ops: Seq<BridgeOp>, slot: nat)
    requires
        v.wf(),
    ensures
        v.run(ops).bus == v.bus.run(v.bus_ops(ops)),
        v.handed(ops, slot) == v.bus.received(v.bus_ops(ops), slot),
        stays(ops, slot) ==> keeps(v.bus_ops(ops), slot),
    decreases ops.len(),
{
    if ops.len() > 0 {
        let head = ops.drop_last();
        let op = ops.last();
        lemma_bus_projection(v, head, slot);
        lemma_run(v, head);
        let mid = v.run(head);
        let so_far = v.bus_ops(head);
        match mid.bus_op(op) {
            Some(bop) => {
                let all = so_far.push(bop);
                assert(all.drop_last() =~= so_far);
                assert(all.last() == bop);
                assert(v.bus.run(all) == v.bus.run(so_far).apply(bop));
                assert(bop == BusOp::Recv(slot) <==> op == BridgeOp::Poll(slot) && mid.running());
            },
            None => {
                assert(v.run(ops).bus == mid.bus);
            },
        }
        if stays(ops, slot) {
            assert(stays(head, slot)) by {
                assert forall|k: int| 0 <= k < head.len() implies #[trigger] head[k]
                    != BridgeOp::ClientGone(slot) by {
                    assert(ops[k] != BridgeOp::ClientGone(slot));
                }
            }
            assert(ops[ops.len() - 1] != BridgeOp::ClientGone(slot));
            let all = v.bus_ops(ops);
            assert forall|k: int| 0 <= k < all.len() implies #[trigger] all[k]
                != BusOp::Unsubscribe(slot) by {
                if k < so_far.len() {
                    assert(so_far[k] != BusOp::Unsubscribe(slot));
                }
            }
        }
    }
}

/// Every client sees the serial line in order and at most once.
///
/// Take any number of connected clients and any sequence of events: reads of
/// the serial line, polls and input of any client, connections that come and
/// go. For a client that stays connected, the chunks it was handed are drawn,
/// each at most once and in publish order, from the chunks that were
/// published since it subscribed; together with the chunks it was made to
/// skip for falling behind the capacity of the channel they account for every
/// position its cursor has passed; and if it skipped none, it was handed
/// exactly those chunks, without a gap.
pub proof fn law_clients_see_the_line_in_order(v: BridgeView, ops: Seq<BridgeOp>, slot: nat)
    requires
        v.wf(),
        v.bus.subscribed(slot),
        stays(ops, slot),
    ensures
        v.run(ops).bus.subscribed(slot),
        v.bus.cursor(slot) <= v.run(ops).bus.cursor(slot) <= v.run(ops).bus.history.len(),
        embeds(
            v.handed(ops, slot),
            v.run(ops).bus.history.subrange(
                v.bus.cursor(slot) as int,
                v.run(ops).bus.cursor(slot) as int,
            ),
        ),
        v.handed(ops, slot).len() + v.bus.lost(v.bus_ops(ops), slot) == v.run(ops).bus.cursor(slot)
            - v.bus.cursor(slot),
        v.bus.lost(v.bus_ops(ops), slot) == 0 ==> v.handed(ops, slot) == v.run(
            ops,
        ).bus.history.subrange(v.bus.cursor(slot) as int, v.run(ops).bus.cursor(slot) as int),
{
    lemma_bus_projection(v, ops, slot);
    law_in_order_at_most_once(v.bus, v.bus_ops(ops), slot);
}

/// The number of bytes in a sequence of chunks.
pub open spec fn total_bytes(chunks: Seq<Seq<u8>>) -> nat
    decreases chunks.len(),
{
    if chunks.len() == 0 {
        0
    } else {
        total_bytes(chunks.drop_last()) + chunks.last().len()
    }
}

/// What was written is what was queued.
///
/// For a bridge set up with write-back, over any sequence of events: the
/// chunks written to the serial line are the first of the chunks queued by
/// the clients, in the same order; the rest of them wait in the funnel queue;
/// and once nothing waits, the bytes written are in number the bytes queued.
pub proof fn law_written_is_queued(ops: Seq<BridgeOp>)
    ensures
        BridgeView::fresh(true).written(ops).len() <= BridgeView::fresh(true).queued(ops).len(),
        BridgeView::fresh(true).written(ops) == BridgeView::fresh(true).queued(ops).subrange(
            0,
            BridgeView::fresh(true).written(ops).len() as int,
        ),
        BridgeView::fresh(true).run(ops).funnel->0.waiting() == BridgeView::fresh(true).queued(
            ops,
        ).subrange(
            BridgeView::fresh(true).written(ops).len() as int,
            BridgeView::fresh(true).queued(ops).len() as int,
        ),
        BridgeView::fresh(true).run(ops).funnel->0.waiting().len() == 0 ==> total_bytes(
            BridgeView::fresh(true).written(ops),
        ) == total_bytes(BridgeView::fresh(true).queued(ops)),
{
    let v = BridgeView::fresh(true);
    law_funnel_lossless(v, ops);
    lemma_run(v, ops);
    let f = v.run(ops).funnel->0;
    let queued = v.queued(ops);
    let written = v.written(ops);
    assert(f.accepted =~= queued);
    assert(written =~= queued.subrange(0, written.len() as int));
    assert(f.waiting() =~= queued.subrange(written.len() as int, queued.len() as int));
    if f.waiting().len() == 0 {
        assert(written =~= queued);
    }
}

/// A client that keeps up misses nothing.
///
/// If, whenever the client in `slot` asks for its next chunk, its backlog is
/// within the capacity of the broadcast channel, then it is handed every
/// chunk that was published since it subscribed, exactly once and in publish
/// order, up to where its cursor stands.
pub proof fn law_client_that_keeps_up_misses_nothing(
    v: BridgeView,
    ops: Seq<BridgeOp>,
    slot: nat,
)
    requires
        v.wf(),
        v.bus.subscribed(slot),
        stays(ops, slot),
        v.bus.keeps_up(v.bus_ops(ops), slot),
    ensures
        v.bus.lost(v.bus_ops(ops), slot) == 0,
        v.handed(ops, slot) == v.run(ops).bus.history.subrange(
            v.bus.cursor(slot) as int,
            v.run(ops).bus.cursor(slot) as int,
        ),
{
    lemma_bus_projection(v, ops, slot);
    law_no_loss_within_capacity(v.bus, v.bus_ops(ops), slot);
}

/// `n` polls in a row by the client in `slot`.
pub open spec fn client_polls(slot: nat, n: nat) -> Seq<BridgeOp> {
    Seq::new(n, |i: int| BridgeOp::Poll(slot))
}

/// Polls of a running bridge are receives on its broadcast channel and leave
/// the bridge running.
proof fn lemma_client_polls(v: BridgeView, slot: nat, n: nat)
    requires
        v.wf(),
        v.running(),
    ensures
        v.run(client_polls(slot, n)).running(),
        v.bus_ops(client_polls(slot, n)) == polls(slot, n),
    decreases n,
{
    let ops = client_polls(slot, n);
    if n == 0 {
        assert(v.bus_ops(ops) =~= polls(slot, 0));
    } else {
        let head = client_polls(slot, (n - 1) as nat);
        assert(ops.drop_last() =~= head);
        assert(ops.last() == BridgeOp::Poll(slot));
        lemma_client_polls(v, slot, (n - 1) as nat);
        assert(v.bus_ops(ops) =~= polls(slot, n)) by {
            assert(v.bus_ops(ops) == polls(slot, (n - 1) as nat).push(BusOp::Recv(slot)));
        }
    }
}

/// A client that is not lagging catches up by polling.
///
/// While the bridge runs, a client whose backlog of `n` chunks is within the
/// capacity of the broadcast channel is handed, by `n` polls in a row, exactly
/// the `n` chunks that were read from the serial line since its cursor, in the
/// order in which they were read, and then has nothing more to receive.
pub proof fn law_polling_client_catches_up(v: BridgeView, slot: nat)
    requires
        v.wf(),
        v.running(),
        v.bus.subscribed(slot),
        !v.bus.lagging(slot),
    ensures
        v.handed(client_polls(slot, v.bus.backlog(slot)), slot) == v.bus.history.subrange(
            v.bus.cursor(slot) as int,
            v.bus.history.len() as int,
        ),
        v.run(client_polls(slot, v.bus.backlog(slot))).bus.history == v.bus.history,
        v.run(client_polls(slot, v.bus.backlog(slot))).client_delivery(slot)
            == DeliveryView::Empty,
{
    let ops = client_polls(slot, v.bus.backlog(slot));
    lemma_client_polls(v, slot, v.bus.backlog(slot));
    lemma_bus_projection(v, ops, slot);
    law_polling_catches_up(v.bus, slot);
}

} // verus!
