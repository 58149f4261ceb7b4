//! In-process event bus: every state change is broadcast to all live
//! subscribers, who filter by workspace on their own side.
//!
//! The bus keeps one bounded ring of recent events plus a count of those
//! already dropped off its front. Publishing never blocks and never waits
//! for a consumer: a subscriber that falls behind the ring observes an
//! explicit lagged signal carrying the number of events it missed, rather
//! than stalling the publisher — availability is chosen over completeness.

use vstd::prelude::*;

verus! {

/// One typed change event, payload carried as plain key/value pairs.
pub struct SseEvent {
    pub workspace_id: String,
    pub event_type: String,
    pub data: Vec<(String, String)>,
}

/// The three fields of two events agree.
pub open spec fn event_eq(a: SseEvent, b: SseEvent) -> bool {
    &&& a.workspace_id == b.workspace_id
    &&& a.event_type == b.event_type
    &&& a.data@ == b.data@
}

impl SseEvent {
    /// A copy agreeing with this event in every field.
    pub fn duplicate(&self) -> (r: SseEvent)
        ensures
            event_eq(r, *self),
    {
        let mut data: Vec<(String, String)> = Vec::new();
        let mut k: usize = 0;
        while k < self.data.len()
            invariant
                k <= self.data@.len(),
                data@.len() == k,
                forall|l: int| 0 <= l < k ==> data@[l] == self.data@[l],
            decreases self.data@.len() - k,
        {
            let p = &self.data[k];
            data.push((p.0.clone(), p.1.clone()));
            k = k + 1;
        }
        proof {
            assert(data@ =~= self.data@);
        }
        SseEvent {
            workspace_id: self.workspace_id.clone(),
            event_type: self.event_type.clone(),
            data,
        }
    }
}

/// Broadcast bus: a ring of the most recent events and the count of events
/// already dropped off its front. `dropped + buffer.len()` is the virtual
/// position just past the newest event.
pub struct EventBus {
    pub capacity: usize,
    pub dropped: u64,
    pub buffer: Vec<SseEvent>,
}

/// Receive-side handle: the virtual position of the next event to read.
pub struct Subscription {
    pub cursor: u64,
}

/// What one poll of the bus reports, and where it leaves the cursor.
pub enum RecvOutcome {
    /// The next event, in publish order.
    Item(SseEvent),
    /// The subscriber fell behind the ring: this many events were missed,
    /// and the cursor jumps past them.
    Lagged(u64),
    /// Nothing new yet.
    Empty,
}

impl EventBus {
    /// Count of events ever published (while the count fits).
    pub open spec fn total(self) -> int {
        self.dropped + self.buffer@.len()
    }

    pub open spec fn wf(self) -> bool {
        &&& self.capacity >= 1
        &&& self.buffer@.len() <= self.capacity
        &&& self.total() <= u64::MAX
    }
}

/// The event at virtual position `v` (meaningful while the ring still
/// holds it).
pub open spec fn event_at(bus: EventBus, v: int) -> SseEvent {
    bus.buffer@[v - bus.dropped]
}

/// Transition of one publish: the event is appended; once the ring is
/// full the oldest event falls off the front instead of the publisher
/// waiting. (Should the u64 publish counter ever be exhausted, the event
/// is dropped — the bus is a lossy, best-effort channel by design.)
pub open spec fn published(pre: EventBus, post: EventBus, e: SseEvent) -> bool {
    &&& post.capacity == pre.capacity
    &&& if pre.total() < u64::MAX {
        if pre.buffer@.len() < pre.capacity {
            post.dropped == pre.dropped && post.buffer@ == pre.buffer@.push(e)
        } else {
            post.dropped == pre.dropped + 1 && post.buffer@ == pre.buffer@.skip(1).push(e)
        }
    } else {
        post.dropped == pre.dropped && post.buffer@ == pre.buffer@
    }
}

/// Transition of one poll at cursor `pre`: a missed stretch is reported
/// before anything newer; otherwise the next event in publish order, or
/// nothing.
pub open spec fn polled(bus: EventBus, pre: u64, post: u64, r: RecvOutcome) -> bool {
    if pre < bus.dropped {
        &&& r == RecvOutcome::Lagged((bus.dropped - pre) as u64)
        &&& post == bus.dropped
    } else if pre < bus.total() {
        &&& (r matches RecvOutcome::Item(e) && event_eq(e, event_at(bus, pre as int)))
        &&& post == pre + 1
    } else {
        &&& r is Empty
        &&& post == pre
    }
}

impl EventBus {
    /// A fresh bus holding up to 256 pending events.
    pub fn new() -> (r: EventBus)
        ensures
            r.wf(),
            r.capacity == 256,
            r.dropped == 0,
            r.buffer@.len() == 0,
    {
        EventBus { capacity: 256, dropped: 0, buffer: Vec::new() }
    }

    /// Appends one event, non-blocking and lossy under slow consumers.
    pub fn publish(&mut self, e: SseEvent)
        requires
            old(self).wf(),
        ensures
            final(self).wf(),
            published(*old(self), *final(self), e),
    {
        let len = self.buffer.len();
        if (len as u64) < u64::MAX - self.dropped {
            if len < self.capacity {
                self.buffer.push(e);
            } else {
                self.buffer.remove(0);
                self.dropped = self.dropped + 1;
                self.buffer.push(e);
                proof {
                    assert(self.buffer@ =~= old(self).buffer@.skip(1).push(e));
                }
            }
        }
    }

    /// Builds and publishes one event.
    pub fn emit(&mut self, workspace_id: &str, event_type: &str, data: Vec<(String, String)>)
        requires
            old(self).wf(),
        ensures
            final(self).wf(),
            exists|e: SseEvent|
                #[trigger] published(*old(self), *final(self), e) && e.workspace_id@
                    == workspace_id@ && e.event_type@ == event_type@ && e.data == data,
    {
        let e = SseEvent {
            workspace_id: workspace_id.to_owned(),
            event_type: event_type.to_owned(),
            data,
        };
        self.publish(e);
    }

    /// A handle positioned just past everything already published: it will
    /// observe exactly the events published after it was taken.
    pub fn subscribe(&self) -> (r: Subscription)
        requires
            self.wf(),
        ensures
            r.cursor == self.total(),
    {
        Subscription { cursor: self.dropped + self.buffer.len() as u64 }
    }
}

impl Subscription {
    /// Reads the next outcome from the bus without blocking.
    pub fn poll(&mut self, bus: &EventBus) -> (r: RecvOutcome)
        requires
            bus.wf(),
        ensures
            polled(*bus, old(self).cursor, final(self).cursor, r),
    {
        if self.cursor < bus.dropped {
            let missed = bus.dropped - self.cursor;
            self.cursor = bus.dropped;
            RecvOutcome::Lagged(missed)
        } else {
            let idx = self.cursor - bus.dropped;
            if idx < bus.buffer.len() as u64 {
                let item = bus.buffer[idx as usize].duplicate();
                self.cursor = self.cursor + 1;
                RecvOutcome::Item(item)
            } else {
                RecvOutcome::Empty
            }
        }
    }
}

/// One publish moves the virtual log forward by one: the new event stands
/// at the old end, every event still held keeps its position, and the ring
/// drops at most down to `capacity` behind the new end.
pub proof fn lemma_publish_keeps_events(pre: EventBus, post: EventBus, e: SseEvent)
    requires
        pre.wf(),
        published(pre, post, e),
        pre.total() < u64::MAX,
    ensures
        post.total() == pre.total() + 1,
        post.capacity == pre.capacity,
        pre.dropped <= post.dropped,
        post.dropped <= pre.dropped || post.dropped + pre.capacity == pre.total() + 1,
        event_at(post, pre.total()) == e,
        forall|v: int| post.dropped <= v < pre.total() ==> event_at(post, v) == event_at(pre, v),
{
    if pre.buffer@.len() < pre.capacity {
        assert(post.buffer@ == pre.buffer@.push(e));
        assert(event_at(post, pre.total()) == e);
        assert forall|v: int| post.dropped <= v < pre.total() implies event_at(post, v) == event_at(
            pre,
            v,
        ) by {
            assert(post.buffer@[v - post.dropped] == pre.buffer@[v - pre.dropped]);
        }
    } else {
        assert(post.buffer@ == pre.buffer@.skip(1).push(e));
        assert(post.buffer@.len() == pre.buffer@.len());
        assert(event_at(post, pre.total()) == e);
        assert forall|v: int| post.dropped <= v < pre.total() implies event_at(post, v) == event_at(
            pre,
            v,
        ) by {
            assert(post.buffer@[v - post.dropped] == pre.buffer@.skip(1)[v - post.dropped]);
            assert(pre.buffer@.skip(1)[v - post.dropped] == pre.buffer@[v - pre.dropped]);
        }
    }
}

/// Law: a subscriber attached before three events are published observes
/// exactly those three, in publish order — three successive polls report
/// them one after another, given room in the ring.
pub proof fn lemma_subscriber_receives_all_in_order(
    b0: EventBus,
    b1: EventBus,
    b2: EventBus,
    b3: EventBus,
    e1: SseEvent,
    e2: SseEvent,
    e3: SseEvent,
    c0: u64,
)
    requires
        b0.wf(),
        b1.wf(),
        b2.wf(),
        b3.wf(),
        b0.capacity >= 3,
        b0.total() + 3 <= u64::MAX,
        published(b0, b1, e1),
        published(b1, b2, e2),
        published(b2, b3, e3),
        c0 == b0.total(),
    ensures
        polled(b3, c0, (c0 + 1) as u64, RecvOutcome::Item(e1)),
        polled(b3, (c0 + 1) as u64, (c0 + 2) as u64, RecvOutcome::Item(e2)),
        polled(b3, (c0 + 2) as u64, (c0 + 3) as u64, RecvOutcome::Item(e3)),
{
    lemma_publish_keeps_events(b0, b1, e1);
    lemma_publish_keeps_events(b1, b2, e2);
    lemma_publish_keeps_events(b2, b3, e3);
    assert(b3.dropped <= c0);
    assert(event_at(b3, c0 as int) == e1);
    assert(event_at(b3, c0 + 1) == e2);
    assert(event_at(b3, c0 + 2) == e3);
}

/// What a subscriber session does with one stimulus.
pub enum SessionInput {
    /// The bus delivered an event.
    Received(SseEvent),
    /// The bus reported this many missed events.
    Lagged(u64),
    /// The bus closed.
    Closed,
    /// The periodic keep-alive timer fired.
    HeartbeatTick,
    /// The process is shutting down.
    ShutdownSignal,
}

/// What the session sends to its caller.
pub enum OutboundEvent {
    /// A matching change event, forwarded as-is.
    Data(SseEvent),
    /// A keep-alive with no payload.
    Heartbeat,
    /// A system notice.
    SystemMessage(String),
}

/// One session decision: what to send, and whether the session ends.
pub struct SessionStep {
    pub emit: Option<OutboundEvent>,
    pub end: bool,
}

/// Decides one step of a subscriber session for workspace `ws_id`: events
/// of other workspaces are skipped, a missed stretch and the shutdown are
/// announced as system notices, heartbeats keep idle connections alive,
/// and only closure or shutdown ends the session.
pub fn session_step(ws_id: &str, input: SessionInput) -> (r: SessionStep)
    ensures
        match input {
            SessionInput::Received(e) => !r.end && (if e.workspace_id@ == ws_id@ {
                r.emit matches Some(OutboundEvent::Data(out)) && out == e
            } else {
                r.emit is None
            }),
            SessionInput::Lagged(n) => !r.end && (r.emit matches Some(
                OutboundEvent::SystemMessage(m),
            ) && m@ == "Missed "@ + crate::text::dec_str_of(n as int) + " events"@),
            SessionInput::Closed => r.end && r.emit is None,
            SessionInput::HeartbeatTick => !r.end && r.emit == Some(OutboundEvent::Heartbeat),
            SessionInput::ShutdownSignal => r.end && (r.emit matches Some(
                OutboundEvent::SystemMessage(m),
            ) && m@ == "Server shutting down"@),
        },
{
    match input {
        SessionInput::Received(e) => {
            if crate::text::str_eq(e.workspace_id.as_str(), ws_id) {
                SessionStep { emit: Some(OutboundEvent::Data(e)), end: false }
            } else {
                SessionStep { emit: None, end: false }
            }
        },
        SessionInput::Lagged(n) => {
            let mut m = String::from_str("Missed ");
            let count = crate::text::u64_to_string(n);
            m.append(count.as_str());
            m.append(" events");
            proof {
                assert(m@ =~= "Missed "@ + crate::text::dec_str_of(n as int) + " events"@);
            }
            SessionStep { emit: Some(OutboundEvent::SystemMessage(m)), end: false }
        },
        SessionInput::Closed => SessionStep { emit: None, end: true },
        SessionInput::HeartbeatTick => SessionStep { emit: Some(OutboundEvent::Heartbeat), end: false },
        SessionInput::ShutdownSignal => SessionStep {
            emit: Some(OutboundEvent::SystemMessage(String::from_str("Server shutting down"))),
            end: true,
        },
    }
}

} // verus!
