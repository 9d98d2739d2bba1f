//! What the broadcast channel guarantees to a subscriber over any sequence of
//! operations: which chunks it is handed, in what order, and when it may lose
//! some.

use crate::broadcast::{BusView, DeliveryView};
use vstd::prelude::*;

verus! {

/// One operation on the broadcast channel.
pub enum BusOp {
    /// The producer offers a chunk.
    Publish(Seq<u8>),
    /// The subscriber in this slot receives once.
    Recv(nat),
    /// A subscription is opened in this slot.
    Subscribe(nat),
    /// The subscription in this slot is given up.
    Unsubscribe(nat),
}

/// `sub` can be obtained from `sup` by leaving elements out: the elements of
/// `sub` occur in `sup` at increasing positions.
pub open spec fn embeds<A>(sub: Seq<A>, sup: Seq<A>) -> bool
    decreases sup.len(),
{
    if sub.len() == 0 {
        true
    } else if sup.len() == 0 {
        false
    } else if sub.last() == sup.last() && embeds(sub.drop_last(), sup.drop_last()) {
        true
    } else {
        embeds(sub, sup.drop_last())
    }
}

/// `n` receives in a row by subscriber `id`.
pub open spec fn polls(id: nat, n: nat) -> Seq<BusOp> {
    Seq::new(n, |i: int| BusOp::Recv(id))
}

/// No operation in `ops` gives up the subscription in slot `id`.
pub open spec fn keeps(ops: Seq<BusOp>, id: nat) -> bool {
    forall|k: int| 0 <= k < ops.len() ==> #[trigger] ops[k] != BusOp::Unsubscribe(id)
}

impl BusView {
    /// The channel after one operation.
    pub open spec fn apply(self, op: BusOp) -> BusView {
        match op {
            BusOp::Publish(chunk) => self.publish(chunk),
            BusOp::Recv(id) => self.after_recv(id),
            BusOp::Subscribe(id) => if self.free_slot(id) {
                self.subscribe(id)
            } else {
                self
            },
            BusOp::Unsubscribe(id) => self.unsubscribe(id),
        }
    }

    /// The channel after a sequence of operations.
    pub open spec fn run(self, ops: Seq<BusOp>) -> BusView
        decreases ops.len(),
    {
        if ops.len() == 0 {
            self
        } else {
            self.run(ops.drop_last()).apply(ops.last())
        }
    }

    /// The chunks handed to subscriber `id` in the course of `ops`, in the
    /// order in which it received them.
    pub open spec fn received(self, ops: Seq<BusOp>, id: nat) -> Seq<Seq<u8>>
        decreases ops.len(),
    {
        if ops.len() == 0 {
            Seq::empty()
        } else {
            let before = self.run(ops.drop_last());
            let so_far = self.received(ops.drop_last(), id);
            if ops.last() == BusOp::Recv(id) {
                match before.delivery(id) {
                    DeliveryView::Chunk(bytes) => so_far.push(bytes),
                    _ => so_far,
                }
            } else {
                so_far
            }
        }
    }

    /// The number of chunks that subscriber `id` was made to skip in the
    /// course of `ops`.
    pub open spec fn lost(self, ops: Seq<BusOp>, id: nat) -> nat
        decreases ops.len(),
    {
        if ops.len() == 0 {
            0
        } else {
            let before = self.run(ops.drop_last());
            let so_far = self.lost(ops.drop_last(), id);
            if ops.last() == BusOp::Recv(id) && before.subscribed(id) && before.lagging(id) {
                so_far + (before.backlog(id) - before.capacity) as nat
            } else {
                so_far
            }
        }
    }

    /// Whenever subscriber `id` receives in the course of `ops`, its backlog is
    /// within the capacity of the channel.
    pub open spec fn keeps_up(self, ops: Seq<BusOp>, id: nat) -> bool {
        forall|k: int|
            0 <= k < ops.len() && #[trigger] ops[k] == BusOp::Recv(id) ==> !self.run(
                ops.subrange(0, k),
            ).lagging(id)
    }
}

/// Leaving more elements to choose from keeps an embedding.
pub proof fn lemma_embeds_extend<A>(sub: Seq<A>, sup: Seq<A>, more: Seq<A>)
    requires
        embeds(sub, sup),
    ensures
        embeds(sub, sup + more),
    decreases more.len(),
{
    if more.len() == 0 {
        assert(sup + more =~= sup);
    } else {
        lemma_embeds_extend(sub, sup, more.drop_last());
        assert((sup + more).drop_last() =~= sup + more.drop_last());
    }
}

/// Appending the same element to both sides keeps an embedding.
pub proof fn lemma_embeds_push<A>(sub: Seq<A>, sup: Seq<A>, x: A)
    requires
        embeds(sub, sup),
    ensures
        embeds(sub.push(x), sup.push(x)),
{
    assert(sub.push(x).drop_last() =~= sub);
    assert(sup.push(x).drop_last() =~= sup);
}

/// One operation keeps the channel consistent, never shortens the history and
/// never moves a cursor backwards.
pub proof fn lemma_apply(v: BusView, op: BusOp, id: nat)
    requires
        v.wf(),
    ensures
        v.apply(op).wf(),
        v.apply(op).capacity == v.capacity,
        v.apply(op).history.len() >= v.history.len(),
        v.apply(op).history.subrange(0, v.history.len() as int) == v.history,
        v.subscribed(id) && op != BusOp::Unsubscribe(id) ==> v.apply(op).subscribed(id)
            && v.apply(op).cursor(id) >= v.cursor(id),
        v.subscribed(id) && op != BusOp::Unsubscribe(id) && op != BusOp::Recv(id) ==> v.apply(
            op,
        ).cursor(id) == v.cursor(id),
{
    let w = v.apply(op);
    assert(w.history.subrange(0, v.history.len() as int) =~= v.history);
    assert forall|i: int| 0 <= i < w.cursors.len() implies match #[trigger] w.cursors[i] {
        Some(c) => c <= w.history.len(),
        None => true,
    } by {
        if i < v.cursors.len() {
            assert(match v.cursors[i] {
                Some(c) => c <= v.history.len(),
                None => true,
            });
        }
    }
    if v.subscribed(id) {
        assert(match v.cursors[id as int] {
            Some(c) => c <= v.history.len(),
            None => true,
        });
    }
}

/// In order, at most once, and every loss accounted for.
///
/// Take a consistent channel, a subscriber `id` in it, and any operations by
/// the producer, by this subscriber and by others, none of which gives up the
/// subscription of `id`. Then what `id` received is drawn from the chunks that
/// were published from its cursor on, each at most once and in publish order;
/// the chunks it received and the chunks it was made to skip add up to the
/// distance its cursor has moved; and if it skipped none, it received exactly
/// those chunks, with no gap.
pub proof fn law_in_order_at_most_once(v: BusView, ops: Seq<BusOp>, id: nat)
    requires
        v.wf(),
        v.subscribed(id),
        keeps(ops, id),
    ensures
        v.run(ops).wf(),
        v.run(ops).subscribed(id),
        v.cursor(id) <= v.run(ops).cursor(id) <= v.run(ops).history.len(),
        embeds(
            v.received(ops, id),
            v.run(ops).history.subrange(v.cursor(id) as int, v.run(ops).cursor(id) as int),
        ),
        v.received(ops, id).len() + v.lost(ops, id) == v.run(ops).cursor(id) - v.cursor(id),
        v.lost(ops, id) == 0 ==> v.received(ops, id) == v.run(ops).history.subrange(
            v.cursor(id) as int,
            v.run(ops).cursor(id) as int,
        ),
    decreases ops.len(),
{
    let start = v.cursor(id) as int;
    assert(match v.cursors[id as int] {
        Some(c) => c <= v.history.len(),
        None => true,
    });
    if ops.len() == 0 {
        assert(v.history.subrange(start, start) =~= Seq::<Seq<u8>>::empty());
    } else {
        let head = ops.drop_last();
        let op = ops.last();
        assert(keeps(head, id)) by {
            assert forall|k: int| 0 <= k < head.len() implies #[trigger] head[k]
                != BusOp::Unsubscribe(id) by {
                assert(ops[k] != BusOp::Unsubscribe(id));
            }
        }
        law_in_order_at_most_once(v, head, id);
        let mid = v.run(head);
        let end = v.run(ops);
        let got = v.received(head, id);
        assert(op != BusOp::Unsubscribe(id)) by {
            assert(ops[ops.len() - 1] != BusOp::Unsubscribe(id));
        }
        lemma_apply(mid, op, id);
        let at = mid.cursor(id) as int;
        let to = end.cursor(id) as int;
        let seen = mid.history.subrange(start, at);
        assert(end.history.subrange(start, at) =~= seen) by {
            assert(end.history.subrange(0, mid.history.len() as int) == mid.history);
            assert forall|k: int| 0 <= k < at - start implies end.history.subrange(start, at)[k]
                == seen[k] by {
                assert(end.history.subrange(0, mid.history.len() as int)[start + k]
                    == end.history[start + k]);
            }
        }
        if op == BusOp::Recv(id) {
            if mid.lagging(id) {
                assert(end.history == mid.history);
                assert(end.history.subrange(start, to) =~= seen + end.history.subrange(at, to));
                lemma_embeds_extend(got, seen, end.history.subrange(at, to));
            } else if mid.backlog(id) > 0 {
                let x = mid.history[at];
                assert(end.history.subrange(start, to) =~= seen.push(x));
                lemma_embeds_push(got, seen, x);
            } else {
                assert(end == mid);
            }
        } else {
            assert(to == at);
        }
    }
}

/// A subscriber that keeps up loses nothing.
///
/// If, whenever `id` receives, its backlog is within the capacity of the
/// channel, then it skips no chunk: it receives every chunk published from its
/// cursor on, exactly once and in publish order, up to where its cursor stands.
pub proof fn law_no_loss_within_capacity(v: BusView, ops: Seq<BusOp>, id: nat)
    requires
        v.wf(),
        v.subscribed(id),
        keeps(ops, id),
        v.keeps_up(ops, id),
    ensures
        v.lost(ops, id) == 0,
        v.received(ops, id) == v.run(ops).history.subrange(
            v.cursor(id) as int,
            v.run(ops).cursor(id) as int,
        ),
    decreases ops.len(),
{
    if ops.len() > 0 {
        let head = ops.drop_last();
        assert(keeps(head, id)) by {
            assert forall|k: int| 0 <= k < head.len() implies #[trigger] head[k]
                != BusOp::Unsubscribe(id) by {
                assert(ops[k] != BusOp::Unsubscribe(id));
            }
        }
        assert(v.keeps_up(head, id)) by {
            assert forall|k: int| 0 <= k < head.len() && #[trigger] head[k] == BusOp::Recv(
                id,
            ) implies !v.run(head.subrange(0, k)).lagging(id) by {
                assert(ops[k] == BusOp::Recv(id));
                assert(head.subrange(0, k) =~= ops.subrange(0, k));
            }
        }
        law_no_loss_within_capacity(v, head, id);
        if ops.last() == BusOp::Recv(id) {
            assert(ops[ops.len() - 1] == BusOp::Recv(id));
            assert(ops.subrange(0, ops.len() - 1) =~= head);
        }
    }
    law_in_order_at_most_once(v, ops, id);
}

/// A subscriber that is not lagging catches up by polling.
///
/// With a backlog of `n` chunks within the capacity of the channel, `n`
/// receives in a row hand `id` exactly the `n` chunks published since its
/// cursor, in publish order, and leave it with nothing more to receive.
pub proof fn law_polling_catches_up(v: BusView, id: nat)
    requires
        v.wf(),
        v.subscribed(id),
        !v.lagging(id),
    ensures
        v.run(polls(id, v.backlog(id))).history == v.history,
        v.run(polls(id, v.backlog(id))).cursor(id) == v.history.len(),
        v.run(polls(id, v.backlog(id))).delivery(id) == DeliveryView::Empty,
        v.received(polls(id, v.backlog(id)), id) == v.history.subrange(
            v.cursor(id) as int,
            v.history.len() as int,
        ),
{
    assert(match v.cursors[id as int] {
        Some(c) => c <= v.history.len(),
        None => true,
    });
    lemma_polls(v, id, v.backlog(id));
    let ops = polls(id, v.backlog(id));
    assert(keeps(ops, id));
    law_in_order_at_most_once(v, ops, id);
}

/// `n` receives in a row, with at least `n` chunks waiting and no lag, move
/// the cursor by `n`, lose nothing and leave the history alone.
proof fn lemma_polls(v: BusView, id: nat, n: nat)
    requires
        v.wf(),
        v.subscribed(id),
        !v.lagging(id),
        n <= v.backlog(id),
    ensures
        v.run(polls(id, n)).wf(),
        v.run(polls(id, n)).subscribed(id),
        v.run(polls(id, n)).history == v.history,
        v.run(polls(id, n)).capacity == v.capacity,
        v.run(polls(id, n)).cursor(id) == v.cursor(id) + n,
        v.lost(polls(id, n), id) == 0,
    decreases n,
{
    if n > 0 {
        let ops = polls(id, n);
        let head = polls(id, (n - 1) as nat);
        assert(ops.drop_last() =~= head);
        assert(ops.last() == BusOp::Recv(id));
        lemma_polls(v, id, (n - 1) as nat);
        lemma_apply(v.run(head), BusOp::Recv(id), id);
    }
}

} // verus!
