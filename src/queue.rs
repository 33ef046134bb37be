//! The ordered queue that feeds the child's input, and the sole writer that
//! drains it.
use std::collections::VecDeque;
use vstd::prelude::*;
use vstd::slice::slice_to_vec;

verus! {

/// The abstract state of a queue: messages waiting, and whether its consumer
/// has gone.
pub struct QueueState {
    pub pending: Seq<Seq<u8>>,
    pub closed: bool,
}

/// One operation on the queue, as seen from outside.
pub enum QueueOp {
    /// A producer hands over one message.
    Send(Seq<u8>),
    /// The writer takes the next message and writes it whole.
    Take,
    /// The writer has terminated.
    Close,
}

pub open spec fn initial_state() -> QueueState {
    QueueState { pending: Seq::empty(), closed: false }
}

/// The state after a send: accepted at the back unless the consumer is gone.
pub open spec fn after_send(s: QueueState, m: Seq<u8>) -> QueueState {
    if s.closed {
        s
    } else {
        QueueState { pending: s.pending.push(m), closed: false }
    }
}

/// The state after the writer takes the front message, if there is one.
pub open spec fn after_take(s: QueueState) -> QueueState {
    if s.pending.len() == 0 {
        s
    } else {
        QueueState { pending: s.pending.drop_first(), closed: s.closed }
    }
}

pub open spec fn apply(s: QueueState, op: QueueOp) -> QueueState {
    match op {
        QueueOp::Send(m) => after_send(s, m),
        QueueOp::Take => after_take(s),
        QueueOp::Close => QueueState { pending: s.pending, closed: true },
    }
}

/// The state reached from an empty, open queue by `ops`.
pub open spec fn run_state(ops: Seq<QueueOp>) -> QueueState
    decreases ops.len(),
{
    if ops.len() == 0 {
        initial_state()
    } else {
        apply(run_state(ops.drop_last()), ops.last())
    }
}

/// The messages that `ops` had the queue accept, in order of acceptance.
pub open spec fn accepted(ops: Seq<QueueOp>) -> Seq<Seq<u8>>
    decreases ops.len(),
{
    if ops.len() == 0 {
        Seq::empty()
    } else {
        let before = accepted(ops.drop_last());
        match ops.last() {
            QueueOp::Send(m) => if run_state(ops.drop_last()).closed {
                before
            } else {
                before.push(m)
            },
            _ => before,
        }
    }
}

/// The messages that `ops` had the writer take, in order of writing.
pub open spec fn delivered(ops: Seq<QueueOp>) -> Seq<Seq<u8>>
    decreases ops.len(),
{
    if ops.len() == 0 {
        Seq::empty()
    } else {
        let before = delivered(ops.drop_last());
        let s = run_state(ops.drop_last());
        match ops.last() {
            QueueOp::Take => if s.pending.len() == 0 {
                before
            } else {
                before.push(s.pending[0])
            },
            _ => before,
        }
    }
}

/// The bytes of `msgs` written one after another.
pub open spec fn concat(msgs: Seq<Seq<u8>>) -> Seq<u8>
    decreases msgs.len(),
{
    if msgs.len() == 0 {
        Seq::empty()
    } else {
        concat(msgs.drop_last()) + msgs.last()
    }
}

/// Where message `k` of `msgs` starts in `concat(msgs)`.
pub open spec fn offset(msgs: Seq<Seq<u8>>, k: int) -> int {
    concat(msgs.take(k)).len() as int
}

/// The byte stream the child receives after `ops`.
pub open spec fn child_stream(ops: Seq<QueueOp>) -> Seq<u8> {
    concat(delivered(ops))
}

/// Every accepted message is either written or still waiting, and the written
/// ones went out in the order in which they were accepted. So the messages of
/// any one producer reach the child in the order that producer sent them.
pub proof fn lemma_fifo_order(ops: Seq<QueueOp>)
    ensures
        accepted(ops) == delivered(ops) + run_state(ops).pending,
    decreases ops.len(),
{
    if ops.len() > 0 {
        let prev = ops.drop_last();
        lemma_fifo_order(prev);
        let s = run_state(prev);
        match ops.last() {
            QueueOp::Send(m) => {
                assert(accepted(ops) =~= delivered(ops) + run_state(ops).pending);
            },
            QueueOp::Take => {
                if s.pending.len() > 0 {
                    assert(delivered(prev).push(s.pending[0]) + s.pending.drop_first()
                        =~= delivered(prev) + s.pending);
                }
            },
            QueueOp::Close => {},
        }
    } else {
        assert(accepted(ops) =~= delivered(ops) + run_state(ops).pending);
    }
}

/// Two messages accepted in some order are written in that order.
pub proof fn lemma_delivery_keeps_order(ops: Seq<QueueOp>, i: int, j: int)
    requires
        0 <= i < j < delivered(ops).len(),
    ensures
        delivered(ops)[i] == accepted(ops)[i],
        delivered(ops)[j] == accepted(ops)[j],
{
    lemma_fifo_order(ops);
}

proof fn lemma_concat_append(a: Seq<Seq<u8>>, b: Seq<Seq<u8>>)
    ensures
        concat(a + b) == concat(a) + concat(b),
    decreases b.len(),
{
    if b.len() == 0 {
        assert(a + b =~= a);
        assert(concat(a) + concat(b) =~= concat(a));
    } else {
        lemma_concat_append(a, b.drop_last());
        assert((a + b).drop_last() =~= a + b.drop_last());
        assert(concat(a) + concat(b) =~= concat(a) + concat(b.drop_last()) + b.last());
    }
}

/// Each message's bytes stand together in the written stream, at the offset
/// that the messages before it leave, never split by another message.
pub proof fn lemma_no_interleaving(msgs: Seq<Seq<u8>>, k: int)
    requires
        0 <= k < msgs.len(),
    ensures
        offset(msgs, k) + msgs[k].len() <= concat(msgs).len(),
        concat(msgs).subrange(offset(msgs, k), offset(msgs, k) + msgs[k].len()) == msgs[k],
{
    let front = msgs.take(k);
    let back = msgs.skip(k + 1);
    assert(msgs =~= front.push(msgs[k]) + back);
    lemma_concat_append(front.push(msgs[k]), back);
    assert(front.push(msgs[k]).drop_last() =~= front);
    let c = concat(msgs);
    assert(c =~= concat(front) + msgs[k] + concat(back));
    assert(c.subrange(offset(msgs, k), offset(msgs, k) + msgs[k].len()) =~= msgs[k]);
}

/// The child's stream holds each written message whole, in writing order.
pub proof fn lemma_child_stream_contiguous(ops: Seq<QueueOp>, k: int)
    requires
        0 <= k < delivered(ops).len(),
    ensures
        child_stream(ops).subrange(
            offset(delivered(ops), k),
            offset(delivered(ops), k) + delivered(ops)[k].len(),
        ) == delivered(ops)[k],
{
    lemma_no_interleaving(delivered(ops), k);
}

/// A FIFO queue of byte messages with a single consumer. Once the consumer
/// has gone, sends are refused.
pub struct MessageQueue {
    pending: VecDeque<Vec<u8>>,
    closed: bool,
}

impl MessageQueue {
    /// The waiting messages, front first, and whether the consumer has gone.
    pub closed spec fn state(&self) -> QueueState {
        QueueState { pending: self.pending@.map_values(|m: Vec<u8>| m@), closed: self.closed }
    }

    /// An empty queue whose consumer is alive.
    pub fn new() -> (r: MessageQueue)
        ensures
            r.state() == initial_state(),
    {
        let r = MessageQueue { pending: VecDeque::new(), closed: false };
        assert(r.state().pending =~= Seq::empty());
        r
    }

    /// Whether the consumer has gone.
    pub fn is_closed(&self) -> (r: bool)
        ensures
            r == self.state().closed,
    {
        self.closed
    }

    /// The number of waiting messages.
    pub fn len(&self) -> (r: usize)
        ensures
            r == self.state().pending.len(),
    {
        self.pending.len()
    }

    /// Enqueues `msg` at the back; hands it back when the consumer is gone.
    pub fn send(&mut self, msg: Vec<u8>) -> (r: Result<(), Vec<u8>>)
        ensures
            final(self).state() == after_send(old(self).state(), msg@),
            r.is_err() == old(self).state().closed,
            r matches Err(m) ==> m@ == msg@,
    {
        if self.closed {
            Err(msg)
        } else {
            let ghost m = msg@;
            self.pending.push_back(msg);
            assert(self.state().pending =~= old(self).state().pending.push(m));
            Ok(())
        }
    }

    /// Takes the front message, if any.
    pub fn recv(&mut self) -> (r: Option<Vec<u8>>)
        ensures
            final(self).state() == after_take(old(self).state()),
            old(self).state().pending.len() == 0 <==> r.is_none(),
            r matches Some(m) ==> m@ == old(self).state().pending[0],
    {
        let r = self.pending.pop_front();
        assert(self.state().pending =~= after_take(old(self).state()).pending);
        r
    }

    /// Marks the consumer as gone: later sends are refused.
    pub fn close(&mut self)
        ensures
            final(self).state() == apply(old(self).state(), QueueOp::Close),
    {
        self.closed = true;
    }

    /// The writer's step: takes the front message and appends all of its
    /// bytes to `out`, before any other message can be taken.
    pub fn deliver_next(&mut self, out: &mut Vec<u8>) -> (r: bool)
        ensures
            final(self).state() == after_take(old(self).state()),
            r == (old(self).state().pending.len() > 0),
            r ==> final(out)@ == old(out)@ + old(self).state().pending[0],
            !r ==> final(out)@ == old(out)@,
    {
        match self.recv() {
            Some(mut m) => {
                out.append(&mut m);
                true
            },
            None => false,
        }
    }
    /// The forwarder's step: a non-empty chunk read from the bridge's own
    /// input goes on the queue as one message, unchanged. Returns whether
    /// reading should go on: not at end of input, nor once the writer is gone.
    pub fn forward_chunk(&mut self, chunk: &[u8]) -> (r: bool)
        ensures
            chunk@.len() == 0 ==> final(self).state() == old(self).state() && !r,
            chunk@.len() > 0 ==> final(self).state() == after_send(old(self).state(), chunk@),
            chunk@.len() > 0 ==> r == !old(self).state().closed,
    {
        if chunk.len() == 0 {
            return false;
        }
        let msg: Vec<u8> = slice_to_vec(chunk);
        self.send(msg).is_ok()
    }
}

/// The messages that `ops` try to send, accepted or not.
pub open spec fn sends(ops: Seq<QueueOp>) -> Seq<Seq<u8>>
    decreases ops.len(),
{
    if ops.len() == 0 {
        Seq::empty()
    } else {
        match ops.last() {
            QueueOp::Send(m) => sends(ops.drop_last()).push(m),
            _ => sends(ops.drop_last()),
        }
    }
}

proof fn lemma_open_accepts_all(ops: Seq<QueueOp>)
    requires
        forall|i: int| 0 <= i < ops.len() ==> !(#[trigger] ops[i] is Close),
    ensures
        accepted(ops) == sends(ops),
        !run_state(ops).closed,
    decreases ops.len(),
{
    if ops.len() > 0 {
        let prev = ops.drop_last();
        assert forall|i: int| 0 <= i < prev.len() implies !(#[trigger] prev[i] is Close) by {
            assert(prev[i] == ops[i]);
        }
        assert(!(ops[ops.len() - 1] is Close));
        lemma_open_accepts_all(prev);
    }
}

/// With a live writer and nothing else sent, the bytes forwarded reach the
/// child unchanged: once all is written, the child's stream is exactly the
/// forwarded chunks in order.
pub proof fn lemma_passthrough_fidelity(ops: Seq<QueueOp>)
    requires
        forall|i: int| 0 <= i < ops.len() ==> !(#[trigger] ops[i] is Close),
        run_state(ops).pending.len() == 0,
    ensures
        child_stream(ops) == concat(sends(ops)),
{
    lemma_open_accepts_all(ops);
    lemma_fifo_order(ops);
    assert(delivered(ops) + run_state(ops).pending =~= delivered(ops));
}

} // verus!
