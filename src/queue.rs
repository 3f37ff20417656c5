use vstd::prelude::*;

verus! {

/// The number of slots of each outbound queue of the bridge.
pub const QUEUE_SLOTS: usize = 1024;

/// Why a message was not accepted by [`OutboundQueue::try_send`]. The
/// message comes back to the caller.
#[derive(Debug)]
pub enum TrySendError<T> {
    /// Every slot is taken.
    Full(T),
    /// The producers have shut down.
    Closed(T),
}

/// What the consumer gets from [`OutboundQueue::recv`].
#[derive(Debug)]
pub enum Recv<T> {
    /// The oldest message.
    Item(T),
    /// The current connection attempt is over; the messages stay queued.
    Stop,
    /// The producers have shut down and every message has been taken.
    Closed,
    /// Nothing is queued yet.
    Empty,
}

/// One operation on a queue, for stating what a sequence of them does.
pub enum QueueOp<T> {
    Send(T),
    Recv,
}

/// The contents after a non-blocking send: the message goes last when there
/// is a free slot and the producers are still open, else nothing changes.
pub open spec fn sent<T>(items: Seq<T>, capacity: nat, closed: bool, m: T) -> Seq<T> {
    if !closed && items.len() < capacity {
        items.push(m)
    } else {
        items
    }
}

/// The contents after each of `msgs` is offered, in order, to the queue.
pub open spec fn sent_all<T>(items: Seq<T>, capacity: nat, closed: bool, msgs: Seq<T>) -> Seq<T>
    decreases msgs.len(),
{
    if msgs.len() == 0 {
        items
    } else {
        sent(sent_all(items, capacity, closed, msgs.drop_last()), capacity, closed, msgs.last())
    }
}

/// Runs operations on a queue of `capacity` slots holding `items`. Gives the
/// contents at the end, the messages taken by the receives in the order taken,
/// and the messages accepted by the sends in the order sent.
pub open spec fn run_ops<T>(items: Seq<T>, capacity: nat, ops: Seq<QueueOp<T>>) -> (
    Seq<T>,
    Seq<T>,
    Seq<T>,
)
    decreases ops.len(),
{
    if ops.len() == 0 {
        (items, Seq::empty(), Seq::empty())
    } else {
        let (q, taken, accepted) = run_ops(items, capacity, ops.drop_last());
        match ops.last() {
            QueueOp::Send(m) => if q.len() < capacity {
                (q.push(m), taken, accepted.push(m))
            } else {
                (q, taken, accepted)
            },
            QueueOp::Recv => if q.len() > 0 {
                (q.drop_first(), taken.push(q[0]), accepted)
            } else {
                (q, taken, accepted)
            },
        }
    }
}

/// A bounded FIFO of messages bound for one network.
///
/// Producers never block: a message that finds every slot taken is handed
/// back. There is one consumer. It can be told to stop, which it sees before
/// any queued message, so that what is queued waits for the next connection
/// attempt; and it sees the queue as closed once the producers have shut down
/// and every message has been taken.
///
/// This is the bridge's own queue rather than an asynchronous channel of a
/// futures library: such a channel's receiving end can only be polled from
/// inside a running task, so it cannot be driven from here, and what it holds
/// changes under other threads, so no contract could name its contents. The
/// program shares this queue between its producers and its consumer.
#[derive(Debug)]
pub struct OutboundQueue<T> {
    items: std::collections::VecDeque<T>,
    capacity: usize,
    closed: bool,
    stop: bool,
}

impl<T> View for OutboundQueue<T> {
    type V = Seq<T>;

    /// The queued messages, oldest first.
    closed spec fn view(&self) -> Seq<T> {
        self.items@
    }
}

impl<T> OutboundQueue<T> {
    #[verifier::type_invariant]
    closed spec fn within_capacity(&self) -> bool {
        self.items@.len() <= self.capacity
    }

    /// The number of slots.
    pub closed spec fn slots(&self) -> nat {
        self.capacity as nat
    }

    /// Whether the producers have shut down.
    pub closed spec fn is_closed(&self) -> bool {
        self.closed
    }

    /// Whether the consumer has been told to stop and has not yet seen it.
    pub closed spec fn stop_requested(&self) -> bool {
        self.stop
    }

    /// An empty, open queue with `capacity` slots.
    pub fn new(capacity: usize) -> (r: OutboundQueue<T>)
        ensures
            r@ == Seq::<T>::empty(),
            r.slots() == capacity,
            !r.is_closed(),
            !r.stop_requested(),
    {
        OutboundQueue {
            items: std::collections::VecDeque::new(),
            capacity,
            closed: false,
            stop: false,
        }
    }

    /// The number of queued messages.
    pub fn len(&self) -> (r: usize)
        ensures
            r == self@.len(),
            r <= self.slots(),
    {
        proof {
            use_type_invariant(self);
        }
        self.items.len()
    }

    /// Queues `item` without blocking. On a full or closed queue the item
    /// comes back in the error and the queue is left as it was.
    pub fn try_send(&mut self, item: T) -> (r: Result<(), TrySendError<T>>)
        ensures
            final(self)@ == sent(old(self)@, old(self).slots(), old(self).is_closed(), item),
            final(self).slots() == old(self).slots(),
            final(self).is_closed() == old(self).is_closed(),
            final(self).stop_requested() == old(self).stop_requested(),
            old(self).is_closed() ==> r == Err::<(), TrySendError<T>>(TrySendError::Closed(item)),
            !old(self).is_closed() && old(self)@.len() >= old(self).slots() ==> r == Err::<
                (),
                TrySendError<T>,
            >(TrySendError::Full(item)),
            !old(self).is_closed() && old(self)@.len() < old(self).slots() ==> r is Ok,
    {
        proof {
            use_type_invariant(&*self);
        }
        if self.closed {
            Err(TrySendError::Closed(item))
        } else if self.items.len() >= self.capacity {
            Err(TrySendError::Full(item))
        } else {
            let mut items = std::collections::VecDeque::new();
            std::mem::swap(&mut items, &mut self.items);
            items.push_back(item);
            self.items = items;
            Ok(())
        }
    }

    /// Takes what the consumer is owed next: a pending stop request first,
    /// then the oldest message, then the closed state; `Empty` if none holds.
    pub fn recv(&mut self) -> (r: Recv<T>)
        ensures
            final(self).slots() == old(self).slots(),
            final(self).is_closed() == old(self).is_closed(),
            !final(self).stop_requested(),
            old(self).stop_requested() ==> r is Stop && final(self)@ == old(self)@,
            !old(self).stop_requested() && old(self)@.len() > 0 ==> r == Recv::Item(old(self)@[0])
                && final(self)@ == old(self)@.drop_first(),
            !old(self).stop_requested() && old(self)@.len() == 0 ==> final(self)@ == old(self)@ && (
            if old(self).is_closed() {
                r is Closed
            } else {
                r is Empty
            }),
    {
        proof {
            use_type_invariant(&*self);
        }
        if self.stop {
            self.stop = false;
            return Recv::Stop;
        }
        let mut items = std::collections::VecDeque::new();
        std::mem::swap(&mut items, &mut self.items);
        let front = items.pop_front();
        self.items = items;
        match front {
            Some(item) => Recv::Item(item),
            None => if self.closed {
                Recv::Closed
            } else {
                Recv::Empty
            },
        }
    }

    /// Marks the producers as shut down. Queued messages stay to be taken.
    pub fn close(&mut self)
        ensures
            final(self)@ == old(self)@,
            final(self).slots() == old(self).slots(),
            final(self).is_closed(),
            final(self).stop_requested() == old(self).stop_requested(),
    {
        proof {
            use_type_invariant(&*self);
        }
        self.closed = true;
    }

    /// Tells the consumer to stop at its next receive, ahead of any message.
    pub fn request_stop(&mut self)
        ensures
            final(self)@ == old(self)@,
            final(self).slots() == old(self).slots(),
            final(self).is_closed() == old(self).is_closed(),
            final(self).stop_requested(),
    {
        proof {
            use_type_invariant(&*self);
        }
        self.stop = true;
    }
}

/// Nothing accepted by a queue is lost, repeated or reordered: for any
/// sequence of sends and receives, the messages taken followed by those still
/// queued are the messages queued at the start followed by those accepted, in
/// order. A send that finds the queue full is refused and changes nothing.
pub proof fn lemma_fifo_conservation<T>(items: Seq<T>, capacity: nat, ops: Seq<QueueOp<T>>)
    ensures
        ({
            let (q, taken, accepted) = run_ops(items, capacity, ops);
            taken + q == items + accepted
        }),
    decreases ops.len(),
{
    if ops.len() > 0 {
        lemma_fifo_conservation(items, capacity, ops.drop_last());
        let (q, taken, accepted) = run_ops(items, capacity, ops.drop_last());
        match ops.last() {
            QueueOp::Send(m) => {
                if q.len() < capacity {
                    assert(taken + q.push(m) =~= (taken + q).push(m));
                    assert(items + accepted.push(m) =~= (items + accepted).push(m));
                }
            },
            QueueOp::Recv => {
                if q.len() > 0 {
                    assert(taken.push(q[0]) + q.drop_first() =~= taken + q);
                }
            },
        }
    }
}

/// When the queue is full a send is refused; once a receive frees a slot the
/// next send is accepted behind the messages that were kept, in their order.
pub proof fn lemma_full_then_freed<T>(items: Seq<T>, capacity: nat, refused: T, later: T)
    requires
        items.len() == capacity,
        capacity > 0,
    ensures
        sent(items, capacity, false, refused) == items,
        sent(items.drop_first(), capacity, false, later) == items.drop_first().push(later),
{
}

} // verus!
