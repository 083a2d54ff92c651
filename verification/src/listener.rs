//! The listener: what becomes of each outcome of binding and accepting.
//!
//! The driver binds the endpoint once and then accepts connections for as
//! long as the process lives. It reports each outcome as a
//! [`ListenerEvent`]; the listener answers with what to do about it.

use crate::session::{Session, SessionState};
use vstd::prelude::*;

verus! {

/// Where a listener stands.
#[derive(Clone, Copy, Debug, PartialEq, Eq, Structural)]
pub enum ListenerPhase {
    /// The endpoint is not bound yet.
    Binding,
    /// The endpoint is bound and connections are accepted.
    Listening,
    /// The endpoint could not be bound. Nothing can be served.
    Failed,
}

/// What the driver reports to the listener.
#[derive(Clone, Copy, Debug, PartialEq, Eq, Structural)]
pub enum ListenerEvent {
    /// The endpoint was bound.
    Bound,
    /// Binding the endpoint failed.
    BindFailed,
    /// A connection was accepted.
    Accepted,
    /// An attempt to accept a connection failed.
    AcceptFailed,
}

/// The kinds of answer a listener gives.
#[derive(Clone, Copy, Debug, PartialEq, Eq, Structural)]
pub enum Answer {
    /// Wait for the next connection.
    Accept,
    /// Serve the connection that was accepted, and wait for the next.
    Serve,
    /// Give up: the process cannot do its work.
    Abort,
}

/// What the driver does for the listener.
#[derive(Debug)]
pub enum ListenerAction {
    /// Wait for the next connection.
    Accept,
    /// Run this session on the accepted connection, as a task of its own,
    /// and wait for the next connection without waiting for the session.
    Serve { session: Session },
    /// Stop the process and report why binding failed.
    Abort,
}

impl ListenerPhase {
    /// The phase after an event.
    ///
    /// Only a successful bind leads out of [`ListenerPhase::Binding`] into
    /// listening; anything else there is fatal. A listener that listens
    /// keeps listening whatever is reported, and one that failed stays
    /// failed.
    pub open spec fn next(self, event: ListenerEvent) -> ListenerPhase {
        match (self, event) {
            (ListenerPhase::Binding, ListenerEvent::Bound) => ListenerPhase::Listening,
            (ListenerPhase::Binding, _) => ListenerPhase::Failed,
            (ListenerPhase::Listening, _) => ListenerPhase::Listening,
            (ListenerPhase::Failed, _) => ListenerPhase::Failed,
        }
    }

    /// The kind of answer to an event.
    ///
    /// An accepted connection is served. A failed attempt to accept is
    /// passed over: the listener waits for the next connection.
    pub open spec fn answer(self, event: ListenerEvent) -> Answer {
        match (self, event) {
            (ListenerPhase::Binding, ListenerEvent::Bound) => Answer::Accept,
            (ListenerPhase::Listening, ListenerEvent::Accepted) => Answer::Serve,
            (ListenerPhase::Listening, _) => Answer::Accept,
            _ => Answer::Abort,
        }
    }
}

impl ListenerAction {
    /// Whether the action is of the kind that was decided, and, where a
    /// connection is to be served, brings a session that has not begun.
    pub open spec fn carries_out(self, answer: Answer) -> bool {
        match answer {
            Answer::Accept => self is Accept,
            Answer::Serve => self matches ListenerAction::Serve { session } && session@
                == SessionState::initial(),
            Answer::Abort => self is Abort,
        }
    }
}

/// The listener of one endpoint.
#[derive(Debug)]
pub struct Listener {
    phase: ListenerPhase,
}

impl View for Listener {
    type V = ListenerPhase;

    closed spec fn view(&self) -> ListenerPhase {
        self.phase
    }
}

impl Listener {
    /// A listener whose endpoint is still to be bound.
    pub fn new() -> (listener: Listener)
        ensures
            listener@ == ListenerPhase::Binding,
    {
        Listener { phase: ListenerPhase::Binding }
    }

    /// Takes one event and answers with what the driver does next.
    pub fn advance(&mut self, event: ListenerEvent) -> (action: ListenerAction)
        ensures
            final(self)@ == old(self)@.next(event),
            action.carries_out(old(self)@.answer(event)),
    {
        match (self.phase, event) {
            (ListenerPhase::Binding, ListenerEvent::Bound) => {
                self.phase = ListenerPhase::Listening;
                ListenerAction::Accept
            },
            (ListenerPhase::Listening, ListenerEvent::Accepted) => ListenerAction::Serve {
                session: Session::new(),
            },
            (ListenerPhase::Listening, _) => ListenerAction::Accept,
            _ => {
                self.phase = ListenerPhase::Failed;
                ListenerAction::Abort
            },
        }
    }

    /// Where the listener stands.
    pub fn phase(&self) -> (phase: ListenerPhase)
        ensures
            phase == self@,
    {
        self.phase
    }
}

/// A listener whose endpoint is bound never stops accepting: whatever is
/// reported to it, and however often accepting fails, it is still listening
/// afterwards and never asks to abort.
pub proof fn lemma_listening_goes_on(events: Seq<ListenerEvent>)
    ensures
        run_listener(ListenerPhase::Listening, events) == ListenerPhase::Listening,
        forall|i: int|
            0 <= i < events.len() ==> (#[trigger] run_listener(
                ListenerPhase::Listening,
                events.take(i),
            )).answer(events[i]) != Answer::Abort,
    decreases events.len(),
{
    if events.len() > 0 {
        lemma_listening_goes_on(events.drop_last());
        assert forall|i: int| 0 <= i < events.len() implies (#[trigger] run_listener(
            ListenerPhase::Listening,
            events.take(i),
        )).answer(events[i]) != Answer::Abort by {
            lemma_listening_goes_on(events.take(i));
        }
    }
}

/// The phase of a listener after a run of events.
pub open spec fn run_listener(start: ListenerPhase, events: Seq<ListenerEvent>) -> ListenerPhase
    decreases events.len(),
{
    if events.len() == 0 {
        start
    } else {
        run_listener(start, events.drop_last()).next(events.last())
    }
}

} // verus!
