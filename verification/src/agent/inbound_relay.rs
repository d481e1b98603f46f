//! Order-preserving relay between the shared inbound router and a channel's
//! bounded message queue.
//!
//! The router must never await a single channel's queue: a saturated channel
//! would stall inbound delivery for every other conversation. Each active
//! channel gets a relay that owns the awaited send into the channel's bounded
//! queue; the router enqueues through [`InboundRelay::send`], which never
//! blocks. Overflow beyond the channel's bounded queue accumulates in the
//! relay, where queue depth is tracked so a stalled channel is visible.
use vstd::prelude::*;

verus! {

broadcast use vstd::seq::group_seq_axioms;

/// Relay depth at which pressure warnings begin. Warnings repeat at each
/// doubling above this so a runaway channel logs O(log n) lines, not O(n).
pub const PRESSURE_WARN_DEPTH: usize = 128;

/// A message on its way to a channel.
#[derive(Debug)]
pub struct InboundMessage {
    pub id: String,
    pub conversation_id: String,
    pub content: String,
}

/// The messages waiting in a channel's relay.
#[derive(Debug)]
pub struct InboundRelay {
    pub queue: Vec<InboundMessage>,
    /// The depth at which the next warning comes.
    pub warn_at: usize,
    /// Whether the channel's event loop is gone.
    pub closed: bool,
}

/// Returned when the relay has stopped, which means the channel's event loop
/// is gone. Carries the message back so the caller can requeue it.
#[derive(Debug)]
pub struct RelaySendError(pub Box<InboundMessage>);

impl RelaySendError {
    /// How the refusal reads.
    pub fn message(&self) -> (message: &'static str)
        ensures
            message@ == "channel relay closed"@,
    {
        "channel relay closed"
    }
}

/// A message handed on to the channel.
#[derive(Debug)]
pub struct Forwarded {
    pub message: InboundMessage,
    /// Whether the relay has drained after pressure.
    pub drained: bool,
}

/// Something that happens at a relay.
pub enum RelayEvent {
    Sent(InboundMessage),
    Forwarded,
}

/// What waits at a relay after something happened: a message sent joins at the
/// end, and the one that waits longest is handed on.
pub open spec fn waits_after(waiting: Seq<InboundMessage>, event: RelayEvent) -> Seq<InboundMessage> {
    match event {
        RelayEvent::Sent(message) => waiting.push(message),
        RelayEvent::Forwarded => if waiting.len() == 0 {
            waiting
        } else {
            waiting.remove(0)
        },
    }
}

/// What a relay hands on when something happens.
pub open spec fn hands_on(waiting: Seq<InboundMessage>, event: RelayEvent) -> Option<InboundMessage> {
    if event is Forwarded && waiting.len() > 0 {
        Some(waiting[0])
    } else {
        None
    }
}

/// Twice a depth, as far as it can be counted.
pub open spec fn doubled(depth: usize) -> usize {
    if depth * 2 <= usize::MAX {
        (depth * 2) as usize
    } else {
        usize::MAX
    }
}

/// Starts the relay of a channel.
pub fn spawn() -> (relay: InboundRelay)
    ensures
        relay.queue@.len() == 0,
        relay.warn_at == PRESSURE_WARN_DEPTH,
        !relay.closed,
{
    InboundRelay { queue: Vec::new(), warn_at: PRESSURE_WARN_DEPTH, closed: false }
}

impl InboundRelay {
    /// Enqueues a message for in-order delivery to the channel. Never blocks.
    /// Fails only when the relay has stopped (channel shut down). Says whether
    /// the depth calls for a pressure warning.
    pub fn send(&mut self, message: InboundMessage) -> (warn: Result<bool, RelaySendError>)
        ensures
            final(self).closed == old(self).closed,
            match warn {
                Err(error) => old(self).closed && *error.0 == message && *final(self) == *old(self),
                Ok(warn) => {
                    &&& !old(self).closed
                    &&& final(self).queue@ == waits_after(old(self).queue@, RelayEvent::Sent(message))
                    &&& warn == (final(self).queue@.len() >= old(self).warn_at)
                    &&& final(self).warn_at == (if warn {
                        doubled(old(self).warn_at)
                    } else {
                        old(self).warn_at
                    })
                },
            },
    {
        if self.closed {
            return Err(RelaySendError(Box::new(message)));
        }
        self.queue.push(message);
        let depth: usize = self.queue.len();
        if depth < self.warn_at {
            return Ok(false);
        }
        self.warn_at = if self.warn_at <= usize::MAX / 2 {
            self.warn_at * 2
        } else {
            usize::MAX
        };
        Ok(true)
    }

    /// Hands the message that waits longest on to the channel.
    pub fn forward(&mut self) -> (forwarded: Option<Forwarded>)
        ensures
            final(self).closed == old(self).closed,
            match forwarded {
                None => (old(self).closed || old(self).queue@.len() == 0) && *final(self) == *old(self),
                Some(forwarded) => {
                    &&& !old(self).closed
                    &&& old(self).queue@.len() > 0
                    &&& hands_on(old(self).queue@, RelayEvent::Forwarded) == Some(forwarded.message)
                    &&& final(self).queue@ == waits_after(old(self).queue@, RelayEvent::Forwarded)
                    &&& forwarded.drained == (final(self).queue@.len() == 0 && old(self).warn_at
                        > PRESSURE_WARN_DEPTH)
                    &&& final(self).warn_at == (if final(self).queue@.len() == 0 {
                        PRESSURE_WARN_DEPTH
                    } else {
                        old(self).warn_at
                    })
                },
            },
    {
        if self.closed || self.queue.len() == 0 {
            return None;
        }
        let message = self.queue.remove(0);
        let mut drained = false;
        if self.queue.len() == 0 {
            drained = self.warn_at > PRESSURE_WARN_DEPTH;
            self.warn_at = PRESSURE_WARN_DEPTH;
        }
        Some(Forwarded { message, drained })
    }

    /// Stops the relay once the channel's receiver is gone.
    pub fn close(&mut self)
        ensures
            final(self).closed,
            final(self).queue@ == old(self).queue@,
            final(self).warn_at == old(self).warn_at,
    {
        self.closed = true;
    }
}

// ---------------------------------------------------------------------------
// Laws
// ---------------------------------------------------------------------------

/// What waits at a relay, and what has been handed on, after some events.
pub open spec fn relayed(events: Seq<RelayEvent>) -> (Seq<InboundMessage>, Seq<InboundMessage>)
    decreases events.len(),
{
    if events.len() == 0 {
        (Seq::empty(), Seq::empty())
    } else {
        let (waiting, done) = relayed(events.drop_last());
        (
            waits_after(waiting, events.last()),
            match hands_on(waiting, events.last()) {
                Some(message) => done.push(message),
                None => done,
            },
        )
    }
}

/// The messages that were sent, in order.
pub open spec fn sent(events: Seq<RelayEvent>) -> Seq<InboundMessage>
    decreases events.len(),
{
    if events.len() == 0 {
        Seq::empty()
    } else {
        match events.last() {
            RelayEvent::Sent(message) => sent(events.drop_last()).push(message),
            RelayEvent::Forwarded => sent(events.drop_last()),
        }
    }
}

/// Messages reach the channel in the order they were sent, each once: what was
/// handed on and what still waits are together what was sent.
pub proof fn law_delivery_preserves_order(events: Seq<RelayEvent>)
    ensures
        relayed(events).1 + relayed(events).0 == sent(events),
    decreases events.len(),
{
    if events.len() > 0 {
        law_delivery_preserves_order(events.drop_last());
        let (waiting, done) = relayed(events.drop_last());
        match events.last() {
            RelayEvent::Sent(message) => {
                assert(done + waiting.push(message) =~= (done + waiting).push(message));
            },
            RelayEvent::Forwarded => {
                if waiting.len() > 0 {
                    assert(done.push(waiting[0]) + waiting.remove(0) =~= done + waiting);
                }
            },
        }
    } else {
        assert(Seq::<InboundMessage>::empty() + Seq::<InboundMessage>::empty() =~= Seq::<InboundMessage>::empty());
    }
}

/// A forward takes the message that waits longest and a sent message waits
/// behind all others; nothing else changes.
pub proof fn law_messages_wait_in_line(waiting: Seq<InboundMessage>, message: InboundMessage)
    ensures
        waits_after(waiting, RelayEvent::Sent(message)) == waiting.push(message),
        hands_on(waiting, RelayEvent::Sent(message)) is None,
        waiting.len() > 0 ==> hands_on(waiting, RelayEvent::Forwarded) == Some(waiting[0]) && seq![waiting[0]]
            + waits_after(waiting, RelayEvent::Forwarded) == waiting,
        waiting.len() == 0 ==> hands_on(waiting, RelayEvent::Forwarded) is None && waits_after(
            waiting,
            RelayEvent::Forwarded,
        ) == waiting,
{
    if waiting.len() > 0 {
        assert(seq![waiting[0]] + waits_after(waiting, RelayEvent::Forwarded) =~= waiting);
    }
}

/// A depth doubles until it cannot.
pub proof fn law_a_depth_doubles_until_it_cannot(depth: usize)
    ensures
        doubled(depth) >= depth,
        depth * 2 <= usize::MAX ==> doubled(depth) == depth + depth,
        depth * 2 > usize::MAX ==> doubled(depth) == usize::MAX,
{
}

} // verus!
