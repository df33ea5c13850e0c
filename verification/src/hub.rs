use vstd::prelude::*;
use crate::message::{ChannelMessage, ChannelMessageView};

verus! {

/// Index of the oldest message that a hub with the given capacity still
/// retains out of a publish history of the given length: the hub keeps only
/// the most recent `capacity` messages.
pub open spec fn oldest_retained(history_len: int, capacity: int) -> int {
    if history_len <= capacity {
        0
    } else {
        history_len - capacity
    }
}

/// The stream of messages a subscription at the given cursor will still be
/// handed, in publish order. A subscriber that fell behind the oldest
/// retained message misses the dropped prefix and resumes at the oldest
/// retained one.
pub open spec fn visible(
    history: Seq<ChannelMessageView>,
    capacity: int,
    cursor: int,
) -> Seq<ChannelMessageView> {
    if cursor >= oldest_retained(history.len() as int, capacity) {
        history.skip(cursor)
    } else {
        history.skip(oldest_retained(history.len() as int, capacity))
    }
}

/// The stream of messages the connection with identity `receiver_id` will
/// actually be sent: what is visible from its cursor, minus its own messages
/// (self-exclusion).
pub open spec fn deliverable(
    history: Seq<ChannelMessageView>,
    capacity: int,
    cursor: int,
    receiver_id: Seq<char>,
) -> Seq<ChannelMessageView> {
    visible(history, capacity, cursor).filter(|m: ChannelMessageView| m.sender_id != receiver_id)
}

/// Outcome of polling a subscription for its next message.
pub enum RecvOutcome {
    /// Nothing new past the cursor yet; poll again later.
    Pending,
    /// The hub is closed and everything published has been seen: terminal.
    Closed,
    /// The subscriber fell behind by more than the hub retains; its cursor
    /// was moved forward to the oldest retained message.
    Lagged,
    /// The next message, in publish order.
    Message(ChannelMessage),
}

/// A consumer's live handle into a hub: an independent cursor into the
/// hub's publish history.
pub struct Subscription {
    cursor: u64,
}

/// Fan-out primitive: one publish operation, many subscriptions with
/// independent cursors, bounded buffering. At most `capacity` messages are
/// retained for subscribers that have not yet read them; a publisher is
/// never blocked by a slow subscriber.
pub struct BroadcastHub {
    capacity: usize,
    buffer: Vec<ChannelMessage>,
    published: u64,
    closed: bool,
    history: Ghost<Seq<ChannelMessageView>>,
}

impl BroadcastHub {
    /// Every message ever published to this hub, in publish order.
    pub closed spec fn history(&self) -> Seq<ChannelMessageView> {
        self.history@
    }

    /// The bound on how many undelivered messages the hub retains.
    pub closed spec fn cap(&self) -> int {
        self.capacity as int
    }

    pub closed spec fn is_closed(&self) -> bool {
        self.closed
    }

    /// The buffer holds exactly the most recent messages of the history,
    /// up to the capacity bound.
    pub closed spec fn wf(&self) -> bool {
        &&& 1 <= self.capacity
        &&& self.history@.len() == self.published as nat
        &&& self.buffer@.len() == self.history@.len() - oldest_retained(
            self.history@.len() as int,
            self.capacity as int,
        )
        &&& forall|i: int|
            0 <= i < self.buffer@.len() ==> (#[trigger] self.buffer@[i])@ == self.history@[
                oldest_retained(self.history@.len() as int, self.capacity as int) + i
            ]
    }

    /// A fresh hub with an empty history and no subscribers.
    pub fn new(capacity: usize) -> (h: BroadcastHub)
        requires
            1 <= capacity,
        ensures
            h.wf(),
            h.history() == Seq::<ChannelMessageView>::empty(),
            h.cap() == capacity as int,
            !h.is_closed(),
    {
        BroadcastHub {
            capacity,
            buffer: Vec::new(),
            published: 0,
            closed: false,
            history: Ghost(Seq::empty()),
        }
    }

    /// Register a new consumer. Its cursor starts at "now": it will not see
    /// messages published before it subscribed.
    pub fn subscribe(&self) -> (s: Subscription)
        requires
            self.wf(),
        ensures
            s.cursor() == self.history().len(),
    {
        Subscription { cursor: self.published }
    }

    /// Make a message available to every current subscription. Never blocks
    /// and never fails: if the buffer is full, the oldest retained message
    /// is dropped instead (accepted lossy-broadcast policy).
    pub fn publish(&mut self, msg: ChannelMessage)
        requires
            old(self).wf(),
            old(self).history().len() < u64::MAX,
        ensures
            final(self).wf(),
            final(self).history() == old(self).history().push(msg@),
            final(self).cap() == old(self).cap(),
            final(self).is_closed() == old(self).is_closed(),
    {
        if self.buffer.len() == self.capacity {
            self.buffer.remove(0);
        }
        self.buffer.push(msg);
        self.published = self.published + 1;
        proof {
            self.history@ = self.history@.push(msg@);
        }
    }

    /// Mark the hub closed: subscriptions that catch up see the terminal
    /// signal instead of waiting for more messages.
    pub fn close(&mut self)
        requires
            old(self).wf(),
        ensures
            final(self).wf(),
            final(self).is_closed(),
            final(self).history() == old(self).history(),
            final(self).cap() == old(self).cap(),
    {
        self.closed = true;
    }
}

impl Subscription {
    /// How far into the hub's publish history this subscriber has read.
    pub closed spec fn cursor(&self) -> int {
        self.cursor as int
    }

    /// Ask for the next message past this subscription's cursor. A
    /// subscription is only ever polled against the hub it was taken from.
    ///
    /// Exactly one of four things happens: the cursor is at the end of the
    /// history and the hub is open (`Pending`) or closed (`Closed`); the
    /// cursor fell behind the oldest retained message and jumps forward to
    /// it (`Lagged`); or the next message in publish order comes back and
    /// the cursor advances past it (`Message`). Each published message is
    /// therefore handed to a subscriber at most once.
    pub fn poll(&mut self, hub: &BroadcastHub) -> (r: RecvOutcome)
        requires
            hub.wf(),
            0 <= old(self).cursor() <= hub.history().len(),
        ensures
            final(self).cursor() <= hub.history().len(),
            old(self).cursor() == hub.history().len() ==> {
                &&& final(self).cursor() == old(self).cursor()
                &&& r == (if hub.is_closed() {
                    RecvOutcome::Closed
                } else {
                    RecvOutcome::Pending
                })
            },
            old(self).cursor() < oldest_retained(hub.history().len() as int, hub.cap()) ==> {
                &&& r == RecvOutcome::Lagged
                &&& final(self).cursor() == oldest_retained(
                    hub.history().len() as int,
                    hub.cap(),
                )
            },
            oldest_retained(hub.history().len() as int, hub.cap()) <= old(self).cursor()
                < hub.history().len() ==> {
                &&& r matches RecvOutcome::Message(m) && m@ == hub.history()[old(self).cursor()]
                &&& final(self).cursor() == old(self).cursor() + 1
            },
    {
        if self.cursor == hub.published {
            if hub.closed {
                RecvOutcome::Closed
            } else {
                RecvOutcome::Pending
            }
        } else {
            let oldest: u64 = hub.published - (hub.buffer.len() as u64);
            if self.cursor < oldest {
                self.cursor = oldest;
                RecvOutcome::Lagged
            } else {
                let idx: usize = (self.cursor - oldest) as usize;
                let m = hub.buffer[idx].duplicate();
                self.cursor = self.cursor + 1;
                RecvOutcome::Message(m)
            }
        }
    }
}

/// Fan-out law: publishing a message appends it, exactly once and after
/// everything already pending, to the stream of messages still visible to
/// any subscriber that has not overrun the hub's capacity.
pub proof fn lemma_publish_fanout(
    history: Seq<ChannelMessageView>,
    capacity: int,
    cursor: int,
    m: ChannelMessageView,
)
    requires
        1 <= capacity,
        0 <= cursor <= history.len(),
        history.len() - cursor < capacity,
    ensures
        visible(history.push(m), capacity, cursor) == visible(history, capacity, cursor).push(m),
{
    assert(history.push(m).skip(cursor) =~= history.skip(cursor).push(m));
}

/// Self-exclusion law, the sender's side: no message carrying a
/// connection's own identity tag ever stands in that connection's
/// deliverable stream, wherever its cursor is.
pub proof fn lemma_self_exclusion(
    history: Seq<ChannelMessageView>,
    capacity: int,
    cursor: int,
    receiver_id: Seq<char>,
)
    ensures
        forall|k: int|
            0 <= k < deliverable(history, capacity, cursor, receiver_id).len()
                ==> (#[trigger] deliverable(history, capacity, cursor, receiver_id)[k]).sender_id
                != receiver_id,
{
    broadcast use vstd::seq_lib::group_filter_ensures;

}

/// Delivery law: a message published under identity `a` is appended exactly
/// once to the deliverable stream of every other subscriber, and never to
/// the deliverable stream of a subscriber with identity `a` itself.
pub proof fn lemma_delivery_to_others(
    history: Seq<ChannelMessageView>,
    capacity: int,
    cursor: int,
    a: Seq<char>,
    b: Seq<char>,
    m: ChannelMessageView,
)
    requires
        1 <= capacity,
        0 <= cursor <= history.len(),
        history.len() - cursor < capacity,
        m.sender_id == a,
    ensures
        a != b ==> deliverable(history.push(m), capacity, cursor, b) == deliverable(
            history,
            capacity,
            cursor,
            b,
        ).push(m),
        deliverable(history.push(m), capacity, cursor, a) == deliverable(
            history,
            capacity,
            cursor,
            a,
        ),
{
    lemma_publish_fanout(history, capacity, cursor, m);
    let v = visible(history, capacity, cursor);
    reveal(Seq::filter);
    assert(v.push(m).drop_last() =~= v);
    assert(v.push(m).last() == m);
}

/// Exactly-once law: a successful poll consumes precisely the head of the
/// visible stream — the message at the cursor — and leaves the rest, in
/// order. Since the cursor only moves forward, no message is handed to the
/// same subscriber twice.
pub proof fn lemma_poll_consumes_head(
    history: Seq<ChannelMessageView>,
    capacity: int,
    cursor: int,
)
    requires
        1 <= capacity,
        oldest_retained(history.len() as int, capacity) <= cursor < history.len(),
    ensures
        visible(history, capacity, cursor) == seq![history[cursor]] + visible(
            history,
            capacity,
            cursor + 1,
        ),
{
    assert(history.skip(cursor) =~= seq![history[cursor]] + history.skip(cursor + 1));
}

/// Channel isolation law: a message that was never published into a hub's
/// history is never deliverable to any subscriber of that hub, whatever the
/// subscriber's cursor and identity.
pub proof fn lemma_channel_isolation(
    history: Seq<ChannelMessageView>,
    capacity: int,
    cursor: int,
    receiver_id: Seq<char>,
    m: ChannelMessageView,
)
    requires
        1 <= capacity,
        0 <= cursor <= history.len(),
        !history.contains(m),
    ensures
        !deliverable(history, capacity, cursor, receiver_id).contains(m),
{
    let d = deliverable(history, capacity, cursor, receiver_id);
    let v = visible(history, capacity, cursor);
    let oldest = oldest_retained(history.len() as int, capacity);
    let start = if cursor >= oldest {
        cursor
    } else {
        oldest
    };
    if d.contains(m) {
        v.lemma_filter_contains_rev(|mm: ChannelMessageView| mm.sender_id != receiver_id, m);
        assert(v.contains(m));
        let k = choose|k: int| 0 <= k < v.len() && v[k] == m;
        assert(v == history.skip(start));
        assert(v[k] == history[start + k]);
        assert(history.contains(m));
    }
}

} // verus!
