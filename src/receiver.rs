//! The receiver's poll loop as a state machine. The caller polls the socket,
//! watches for the interrupt, and hands each outcome in as an [`Event`]; the
//! machine answers with the [`Action`] to perform.

use crate::decode::{decode_datagram, shown_text};
use crate::endpoints::POLL_INTERVAL_MS;
use vstd::prelude::*;

verus! {

/// What one iteration of the poll loop observed.
#[derive(Clone, Debug, PartialEq, Eq)]
pub enum Event {
    /// A datagram arrived; its bytes as read from the socket.
    Datagram(Vec<u8>),
    /// The non-blocking read found nothing to read.
    NoData,
    /// The read failed with an error other than "would block".
    ReceiveFailed,
    /// An interrupt signal was delivered.
    Interrupted,
}

/// What the caller does next.
#[derive(Clone, Debug, PartialEq, Eq)]
pub enum Action {
    /// Report this received text, then poll again.
    Print(String),
    /// Sleep this many milliseconds, then poll again.
    Wait(u64),
    /// Report the shutdown and leave the loop normally.
    Shutdown,
    /// Report the receive error and leave the loop with it.
    Abort,
    /// The loop has already ended: nothing is read or reported.
    Stopped,
}

/// Whether the loop keeps running after handling `e`.
pub open spec fn next_running(running: bool, e: Event) -> bool {
    running && !(e is ReceiveFailed || e is Interrupted)
}

/// The action the machine answers `e` with, while running or not.
pub open spec fn is_reaction(running: bool, e: Event, a: Action) -> bool {
    if !running {
        a is Stopped
    } else {
        match e {
            Event::Datagram(d) => a is Print && a->Print_0@ == shown_text(d@),
            Event::NoData => a == Action::Wait(POLL_INTERVAL_MS),
            Event::ReceiveFailed => a is Abort,
            Event::Interrupted => a is Shutdown,
        }
    }
}

/// Whether the loop is still running after handling `events` in turn,
/// starting from `running`.
pub open spec fn running_after(running: bool, events: Seq<Event>) -> bool
    decreases events.len(),
{
    if events.len() == 0 {
        running
    } else {
        next_running(running_after(running, events.drop_last()), events.last())
    }
}

/// `actions` are the answers, one per event, of a receiver that starts in
/// `running` and is handed `events` in turn.
pub open spec fn is_trace(running: bool, events: Seq<Event>, actions: Seq<Action>) -> bool {
    &&& actions.len() == events.len()
    &&& forall|i: int|
        0 <= i < events.len() ==> #[trigger] is_reaction(
            running_after(running, events.take(i)),
            events[i],
            actions[i],
        )
}

/// Taking one more event extends a run by one step.
proof fn lemma_running_after_step(running: bool, events: Seq<Event>, k: int)
    requires
        0 <= k < events.len(),
    ensures
        running_after(running, events.take(k + 1)) == next_running(
            running_after(running, events.take(k)),
            events[k],
        ),
{
    assert(events.take(k + 1).drop_last() =~= events.take(k));
}

/// Every prefix of a run of empty polls leaves the loop running.
proof fn lemma_idle_prefix_running(events: Seq<Event>, k: int)
    requires
        forall|i: int| 0 <= i < events.len() ==> #[trigger] events[i] is NoData,
        0 <= k <= events.len(),
    ensures
        running_after(true, events.take(k)),
    decreases k,
{
    if k > 0 {
        lemma_idle_prefix_running(events, k - 1);
        lemma_running_after_step(true, events, k - 1);
    }
}

/// Every prefix that reaches past an interrupt leaves the loop stopped.
proof fn lemma_stopped_after_interrupt(running: bool, events: Seq<Event>, j: int, k: int)
    requires
        0 <= j < k <= events.len(),
        events[j] is Interrupted,
    ensures
        !running_after(running, events.take(k)),
    decreases k - j,
{
    lemma_running_after_step(running, events, k - 1);
    if k > j + 1 {
        lemma_stopped_after_interrupt(running, events, j, k - 1);
    }
}

/// An idle socket never ends the loop: however many polls find nothing, the
/// receiver keeps running and answers each of them with a pause of the fixed,
/// nonzero poll interval instead of polling again at once.
pub proof fn lemma_idle_receiver_keeps_polling(events: Seq<Event>, actions: Seq<Action>)
    requires
        forall|i: int| 0 <= i < events.len() ==> #[trigger] events[i] is NoData,
        is_trace(true, events, actions),
    ensures
        running_after(true, events),
        forall|i: int| 0 <= i < actions.len() ==> #[trigger] actions[i] == Action::Wait(POLL_INTERVAL_MS),
        POLL_INTERVAL_MS > 0,
{
    lemma_idle_prefix_running(events, events.len() as int);
    assert(events.take(events.len() as int) =~= events);
    assert forall|i: int| 0 <= i < actions.len() implies #[trigger] actions[i] == Action::Wait(
        POLL_INTERVAL_MS,
    ) by {
        lemma_idle_prefix_running(events, i);
        assert(is_reaction(running_after(true, events.take(i)), events[i], actions[i]));
    }
}

/// An interrupt ends the loop for good: a running receiver answers it with
/// `Shutdown`, and every later event, a datagram included, is answered with
/// `Stopped`, so nothing more is read or reported.
pub proof fn lemma_nothing_after_interrupt(
    running: bool,
    events: Seq<Event>,
    actions: Seq<Action>,
    j: int,
)
    requires
        is_trace(running, events, actions),
        0 <= j < events.len(),
        events[j] is Interrupted,
    ensures
        running_after(running, events.take(j)) ==> actions[j] is Shutdown,
        forall|i: int| j < i < events.len() ==> #[trigger] actions[i] is Stopped,
        !running_after(running, events),
{
    assert(is_reaction(running_after(running, events.take(j)), events[j], actions[j]));
    lemma_stopped_after_interrupt(running, events, j, events.len() as int);
    assert(events.take(events.len() as int) =~= events);
    assert forall|i: int| j < i < events.len() implies #[trigger] actions[i] is Stopped by {
        lemma_stopped_after_interrupt(running, events, j, i);
        assert(is_reaction(running_after(running, events.take(i)), events[i], actions[i]));
    }
}

/// The receiver's state: whether its loop is still running.
pub struct Receiver {
    running: bool,
}

impl View for Receiver {
    type V = bool;

    closed spec fn view(&self) -> bool {
        self.running
    }
}

impl Receiver {
    /// A receiver whose loop is running.
    pub fn new() -> (r: Receiver)
        ensures
            r@,
    {
        Receiver { running: true }
    }

    /// Whether the loop should go on polling.
    pub fn is_running(&self) -> (r: bool)
        ensures
            r == self@,
    {
        self.running
    }

    /// Handles one observation of the poll loop.
    pub fn step(&mut self, e: Event) -> (a: Action)
        ensures
            final(self)@ == next_running(old(self)@, e),
            is_reaction(old(self)@, e, a),
    {
        if !self.running {
            return Action::Stopped;
        }
        match e {
            Event::Datagram(d) => Action::Print(decode_datagram(d.as_slice())),
            Event::NoData => Action::Wait(POLL_INTERVAL_MS),
            Event::ReceiveFailed => {
                self.running = false;
                Action::Abort
            },
            Event::Interrupted => {
                self.running = false;
                Action::Shutdown
            },
        }
    }
}

} // verus!
