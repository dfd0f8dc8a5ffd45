//! The event channel: wire events wait here, in the order they were sent,
//! until the session writes them.

use vstd::prelude::*;
use std::collections::VecDeque;

verus! {

/// What a channel holds.
pub struct ChannelView {
    /// The events that wait, the one sent first at the front.
    pub pending: Seq<Seq<char>>,
    /// Whether a consumer will still take events.
    pub open: bool,
}

/// A channel after an event was sent: on an open one it waits behind all
/// that wait already; a closed one drops it.
pub open spec fn after_send(c: ChannelView, event: Seq<char>) -> ChannelView {
    if c.open {
        ChannelView { pending: c.pending.push(event), ..c }
    } else {
        c
    }
}

/// A channel after the event at the front, if there is one, was taken.
pub open spec fn after_receive(c: ChannelView) -> ChannelView {
    if c.pending.len() > 0 {
        ChannelView { pending: c.pending.drop_first(), ..c }
    } else {
        c
    }
}

/// The event that the next receive takes.
pub open spec fn next_event(c: ChannelView) -> Option<Seq<char>> {
    if c.pending.len() > 0 {
        Some(c.pending.first())
    } else {
        None
    }
}

/// A channel after the events of `events` were sent one after the other.
pub open spec fn after_sending(c: ChannelView, events: Seq<Seq<char>>) -> ChannelView
    decreases events.len(),
{
    if events.len() == 0 {
        c
    } else {
        after_send(after_sending(c, events.drop_last()), events.last())
    }
}

/// A channel after `n` receives.
pub open spec fn after_receiving(c: ChannelView, n: nat) -> ChannelView
    decreases n,
{
    if n == 0 {
        c
    } else {
        after_receive(after_receiving(c, (n - 1) as nat))
    }
}

/// Events leave an open channel in the order they were sent: after those
/// that waited before, the `i`-th receive takes the `i`-th event sent.
pub proof fn lemma_order_is_kept(c: ChannelView, events: Seq<Seq<char>>, i: int)
    requires
        c.open,
        0 <= i < events.len(),
    ensures
        after_sending(c, events).pending == c.pending + events,
        next_event(after_receiving(after_sending(c, events), (c.pending.len() + i) as nat))
            == Some(events[i]),
{
    lemma_sending(c, events);
    let sent = after_sending(c, events);
    lemma_receiving(sent, (c.pending.len() + i) as nat);
}

/// Sending appends to what waits and leaves the channel open.
proof fn lemma_sending(c: ChannelView, events: Seq<Seq<char>>)
    requires
        c.open,
    ensures
        after_sending(c, events).pending == c.pending + events,
        after_sending(c, events).open,
    decreases events.len(),
{
    if events.len() == 0 {
        assert(c.pending + events =~= c.pending);
    } else {
        lemma_sending(c, events.drop_last());
        assert(c.pending + events =~= (c.pending + events.drop_last()).push(events.last()));
    }
}

/// `n` receives take the first `n` events that wait.
proof fn lemma_receiving(c: ChannelView, n: nat)
    requires
        n <= c.pending.len(),
    ensures
        after_receiving(c, n).pending == c.pending.skip(n as int),
    decreases n,
{
    if n == 0 {
        assert(c.pending.skip(0) =~= c.pending);
    } else {
        lemma_receiving(c, (n - 1) as nat);
        assert(c.pending.skip(n - 1).drop_first() =~= c.pending.skip(n as int));
    }
}

/// An unbounded queue of wire events between the logging calls and the one
/// session that writes them.
pub struct EventChannel {
    queue: VecDeque<String>,
    open: bool,
}

impl View for EventChannel {
    type V = ChannelView;

    closed spec fn view(&self) -> ChannelView {
        ChannelView { pending: Seq::new(self.queue@.len(), |i: int| self.queue@[i]@), open: self.open }
    }
}

impl EventChannel {
    /// An open channel in which nothing waits.
    pub fn new() -> (c: Self)
        ensures
            c@ == (ChannelView { pending: Seq::empty(), open: true }),
    {
        let c = EventChannel { queue: VecDeque::new(), open: true };
        assert(c@.pending =~= Seq::empty());
        c
    }

    /// Sends an event. This never fails: a closed channel drops the event.
    pub fn send(&mut self, event: String)
        ensures
            final(self)@ == after_send(old(self)@, event@),
    {
        if self.open {
            self.queue.push_back(event);
            assert(self@.pending =~= old(self)@.pending.push(event@));
        }
    }

    /// Takes the event that has waited longest, if any waits.
    pub fn receive(&mut self) -> (event: Option<String>)
        ensures
            final(self)@ == after_receive(old(self)@),
            match event {
                Some(e) => next_event(old(self)@) == Some(e@),
                None => next_event(old(self)@) is None,
            },
    {
        let event = self.queue.pop_front();
        proof {
            if event is Some {
                assert(self@.pending =~= old(self)@.pending.drop_first());
            } else {
                assert(self@.pending =~= old(self)@.pending);
            }
        }
        event
    }

    /// Closes the channel when its consumer is gone: what waits is dropped,
    /// and so is what is sent from now on.
    pub fn close(&mut self)
        ensures
            final(self)@ == (ChannelView { pending: Seq::empty(), open: false }),
    {
        self.open = false;
        self.queue.clear();
        assert(self@.pending =~= Seq::empty());
    }

    /// Whether a consumer will still take events.
    pub fn is_open(&self) -> (b: bool)
        ensures
            b == self@.open,
    {
        self.open
    }

    /// Whether no event waits.
    pub fn is_empty(&self) -> (b: bool)
        ensures
            b == (self@.pending.len() == 0),
    {
        self.queue.len() == 0
    }
}

} // verus!
