//! The interleaver: one conversation with an engine, driven by events.
//!
//! A driver that owns the engine's pipes waits for whichever comes first of
//! the budget expiring, a line arriving, or the engine's input accepting a
//! write, hands the event to `Interleaver::step`, and performs the action it
//! returns. Commands leave in queue order; every message received is kept.
use vstd::prelude::*;
use std::collections::VecDeque;
use crate::codec::GuiCommand;
use crate::incoming::EngineMessage;

verus! {

/// When a conversation ends early, before its budget expires.
#[derive(Clone, Copy, PartialEq, Eq, Structural, Debug)]
pub enum Until {
    /// Only when the budget expires.
    Expiry,
    /// As soon as the engine acknowledges readiness.
    ReadyAck,
    /// As soon as the engine completes its handshake.
    HandshakeComplete,
}

/// What happened while the driver waited.
pub enum InterleaveEvent {
    /// The time budget ran out.
    Expired,
    /// A line arrived and was decoded.
    Received(EngineMessage),
    /// The engine's input can take a write.
    Writable,
}

/// What the driver does next.
pub enum InterleaveAction {
    /// Write this command to the engine.
    Send(GuiCommand),
    /// Wait for the next event.
    Wait,
    /// The conversation is over.
    Finish,
}

/// The state of one conversation.
pub struct Interleaver {
    pub queue: VecDeque<GuiCommand>,
    pub received: Vec<EngineMessage>,
    pub until: Until,
    pub finished: bool,
}

pub struct InterleaverView {
    pub queue: Seq<GuiCommand>,
    pub received: Seq<EngineMessage>,
    pub until: Until,
    pub finished: bool,
}

impl View for Interleaver {
    type V = InterleaverView;

    open spec fn view(&self) -> InterleaverView {
        InterleaverView {
            queue: self.queue@,
            received: self.received@,
            until: self.until,
            finished: self.finished,
        }
    }
}

/// Whether a received message ends a conversation that waits for `u`.
pub open spec fn ends_conversation(u: Until, m: EngineMessage) -> bool {
    match u {
        Until::Expiry => false,
        Until::ReadyAck => m is ReadyAck,
        Until::HandshakeComplete => m is HandshakeComplete,
    }
}

/// One step of a conversation.
pub open spec fn interleave_step(s: InterleaverView, ev: InterleaveEvent) -> (InterleaverView, InterleaveAction) {
    if s.finished {
        (s, InterleaveAction::Finish)
    } else {
        match ev {
            InterleaveEvent::Expired => (InterleaverView { finished: true, ..s }, InterleaveAction::Finish),
            InterleaveEvent::Received(m) => {
                let t = InterleaverView { received: s.received.push(m), ..s };
                if ends_conversation(s.until, m) {
                    (InterleaverView { finished: true, ..t }, InterleaveAction::Finish)
                } else {
                    (t, InterleaveAction::Wait)
                }
            },
            InterleaveEvent::Writable => if s.queue.len() == 0 {
                (s, InterleaveAction::Wait)
            } else {
                (InterleaverView { queue: s.queue.drop_first(), ..s }, InterleaveAction::Send(s.queue[0]))
            },
        }
    }
}

/// The state and the actions after a run of events.
pub open spec fn interleave_run(s: InterleaverView, evs: Seq<InterleaveEvent>) -> (InterleaverView, Seq<InterleaveAction>)
    decreases evs.len(),
{
    if evs.len() == 0 {
        (s, Seq::empty())
    } else {
        let (t, acts) = interleave_run(s, evs.drop_last());
        let (u, a) = interleave_step(t, evs.last());
        (u, acts.push(a))
    }
}

/// The commands written by a run of actions, in order.
pub open spec fn sent_commands(acts: Seq<InterleaveAction>) -> Seq<GuiCommand>
    decreases acts.len(),
{
    if acts.len() == 0 {
        Seq::empty()
    } else {
        match acts.last() {
            InterleaveAction::Send(c) => sent_commands(acts.drop_last()).push(c),
            _ => sent_commands(acts.drop_last()),
        }
    }
}

/// The messages of a run of events, in arrival order.
pub open spec fn received_messages(evs: Seq<InterleaveEvent>) -> Seq<EngineMessage>
    decreases evs.len(),
{
    if evs.len() == 0 {
        Seq::empty()
    } else {
        match evs.last() {
            InterleaveEvent::Received(m) => received_messages(evs.drop_last()).push(m),
            _ => received_messages(evs.drop_last()),
        }
    }
}

impl Interleaver {
    /// A conversation that sends `queue` front to back and ends as `until` says.
    pub fn new(queue: VecDeque<GuiCommand>, until: Until) -> (r: Self)
        ensures
            r@ == (InterleaverView { queue: queue@, received: Seq::empty(), until, finished: false }),
    {
        Interleaver { queue, received: Vec::new(), until, finished: false }
    }

    /// Takes one event and returns the action that follows it.
    pub fn step(&mut self, ev: InterleaveEvent) -> (r: InterleaveAction)
        ensures
            (final(self)@, r) == interleave_step(old(self)@, ev),
    {
        if self.finished {
            return InterleaveAction::Finish;
        }
        match ev {
            InterleaveEvent::Expired => {
                self.finished = true;
                InterleaveAction::Finish
            },
            InterleaveEvent::Received(m) => {
                let ends = match (&m, self.until) {
                    (EngineMessage::ReadyAck, Until::ReadyAck) => true,
                    (EngineMessage::HandshakeComplete, Until::HandshakeComplete) => true,
                    _ => false,
                };
                self.received.push(m);
                if ends {
                    self.finished = true;
                    InterleaveAction::Finish
                } else {
                    InterleaveAction::Wait
                }
            },
            InterleaveEvent::Writable => {
                match self.queue.pop_front() {
                    Some(c) => InterleaveAction::Send(c),
                    None => InterleaveAction::Wait,
                }
            },
        }
    }

    /// Whether the conversation is over.
    pub fn is_finished(&self) -> (r: bool)
        ensures
            r == self@.finished,
    {
        self.finished
    }
}

/// Over any run of events, the commands written followed by those still
/// queued are exactly the queue the conversation started with: commands
/// leave front to back, none is reordered, repeated or lost.
pub proof fn lemma_queue_order_kept(s: InterleaverView, evs: Seq<InterleaveEvent>)
    ensures
        sent_commands(interleave_run(s, evs).1) + interleave_run(s, evs).0.queue == s.queue,
    decreases evs.len(),
{
    if evs.len() > 0 {
        lemma_queue_order_kept(s, evs.drop_last());
        let (t, acts) = interleave_run(s, evs.drop_last());
        let (u, a) = interleave_step(t, evs.last());
        assert(interleave_run(s, evs) == (u, acts.push(a)));
        assert(acts.push(a).drop_last() =~= acts);
        if !t.finished && evs.last() is Writable && t.queue.len() > 0 {
            assert(sent_commands(acts.push(a)) == sent_commands(acts).push(t.queue[0]));
            assert(sent_commands(acts).push(t.queue[0]) + t.queue.drop_first() =~= sent_commands(acts) + t.queue);
        }
    }
}

/// Over any run of events that ends before the conversation is over, every
/// message received is kept, in arrival order, after those held before.
pub proof fn lemma_messages_kept(s: InterleaverView, evs: Seq<InterleaveEvent>)
    requires
        !interleave_run(s, evs).0.finished,
    ensures
        interleave_run(s, evs).0.received == s.received + received_messages(evs),
    decreases evs.len(),
{
    if evs.len() > 0 {
        let (t, acts) = interleave_run(s, evs.drop_last());
        lemma_run_finished_stays(s, evs.drop_last(), evs.last());
        lemma_messages_kept(s, evs.drop_last());
        if evs.last() is Received {
            assert(s.received + received_messages(evs.drop_last()).push(evs.last()->0) =~= (s.received
                + received_messages(evs.drop_last())).push(evs.last()->0));
        }
    } else {
        assert(s.received + Seq::<EngineMessage>::empty() =~= s.received);
    }
}

proof fn lemma_run_finished_stays(s: InterleaverView, evs: Seq<InterleaveEvent>, e: InterleaveEvent)
    ensures
        interleave_run(s, evs).0.finished ==> interleave_step(interleave_run(s, evs).0, e).0.finished,
{
}

} // verus!
