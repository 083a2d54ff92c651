//! The life of one connected client, as a state machine.
//!
//! A driver owns the connection. It reports what happened to it as an
//! [`Event`] and is told what to do next.

use crate::record::{Record, RecordData};
use crate::wire::{document_text, serialize};
use vstd::prelude::*;

verus! {

/// The station id under which a session sends its first record.
pub const FIRST_STATION: u32 = 1;

/// The last station id of a cycle; the one after it is [`FIRST_STATION`] again.
pub const LAST_STATION: u32 = 10_000;

/// How long a session rests between two cycles, in milliseconds.
pub const PAUSE_MILLIS: u64 = 1_000;

/// Where a session stands.
#[derive(Clone, Copy, Debug, PartialEq, Eq, Structural)]
pub enum Phase {
    /// The upgrade handshake is under way; nothing was sent yet.
    Handshaking,
    /// A record is on its way to the peer.
    Streaming,
    /// A cycle is complete and the session rests before the next one.
    Pausing,
    /// The session is over. No event brings it back.
    Closed,
}

/// What the driver reports to a session.
#[derive(Clone, Copy, Debug, PartialEq, Eq, Structural)]
pub enum Event {
    /// The upgrade handshake succeeded.
    HandshakeDone,
    /// The upgrade handshake failed.
    HandshakeFailed,
    /// The last message was written to the connection.
    Sent,
    /// Writing the last message failed.
    SendFailed,
    /// The pause that was asked for is over.
    PauseElapsed,
}

/// What a session decides, before any record is made.
#[derive(Clone, Copy, Debug, PartialEq, Eq, Structural)]
pub enum Directive {
    /// Send one record that carries this station id.
    Emit { station_id: u32 },
    /// Send nothing for this many milliseconds.
    Pause { millis: u64 },
    /// Drop the connection; the session is over.
    Close,
}

/// What the driver does for a session: a [`Directive`] made ready to carry
/// out.
#[derive(Debug, PartialEq, Eq)]
pub enum Action {
    /// Write this text to the connection as one message, then report
    /// [`Event::Sent`] or [`Event::SendFailed`].
    Send { text: String },
    /// Wait this many milliseconds, then report [`Event::PauseElapsed`].
    Pause { millis: u64 },
    /// Drop the connection; the session is over.
    Close,
}

impl Action {
    /// Whether the action carries out a directive: the same pause, the same
    /// end, or the document of some record that the generator can make under
    /// the station id that the directive names, which is a valid one.
    pub open spec fn carries_out(self, directive: Directive) -> bool {
        match directive {
            Directive::Emit { station_id } => {
                &&& self matches Action::Send { text }
                &&& exists|record: RecordData|
                    {
                        &&& record.drawn(station_id)
                        &&& record.valid()
                        &&& record.station_id == station_id
                        &&& text@ == #[trigger] document_text(record)
                    }
            },
            Directive::Pause { millis } => self matches Action::Pause { millis: m } && m == millis,
            Directive::Close => self is Close,
        }
    }
}

/// The mathematical state of a session.
pub struct SessionState {
    pub phase: Phase,
    /// The station id of the record in flight while streaming, of the next
    /// record otherwise.
    pub station_id: nat,
}

impl SessionState {
    /// The state of a session that was just created.
    pub open spec fn initial() -> SessionState {
        SessionState { phase: Phase::Handshaking, station_id: FIRST_STATION as nat }
    }

    /// The counter is inside its cycle, and it stands at the start of the
    /// cycle whenever nothing was sent in that cycle yet.
    pub open spec fn valid(self) -> bool {
        &&& FIRST_STATION <= self.station_id <= LAST_STATION
        &&& (self.phase is Handshaking || self.phase is Pausing) ==> self.station_id
            == FIRST_STATION
    }

    /// The state after an event.
    ///
    /// A successful handshake and the end of a pause start the stream at the
    /// current station id. A successful write moves to the next station id,
    /// or, after the last one of a cycle, to the pause with the counter back
    /// at the first. A failure, or an event that the phase does not wait for,
    /// closes the session, and a closed session stays closed.
    pub open spec fn next(self, event: Event) -> SessionState {
        match (self.phase, event) {
            (Phase::Handshaking, Event::HandshakeDone) => SessionState {
                phase: Phase::Streaming,
                ..self
            },
            (Phase::Streaming, Event::Sent) => if self.station_id >= LAST_STATION {
                SessionState { phase: Phase::Pausing, station_id: FIRST_STATION as nat }
            } else {
                SessionState { phase: Phase::Streaming, station_id: self.station_id + 1 }
            },
            (Phase::Pausing, Event::PauseElapsed) => SessionState {
                phase: Phase::Streaming,
                ..self
            },
            _ => SessionState { phase: Phase::Closed, ..self },
        }
    }

    /// What the driver is told after an event: what the state reached by
    /// [`SessionState::next`] calls for.
    pub open spec fn directive(self, event: Event) -> Directive {
        let after = self.next(event);
        match after.phase {
            Phase::Streaming => Directive::Emit { station_id: after.station_id as u32 },
            Phase::Pausing => Directive::Pause { millis: PAUSE_MILLIS },
            _ => Directive::Close,
        }
    }
}

/// One client's session: its phase and its station counter.
#[derive(Debug)]
pub struct Session {
    phase: Phase,
    station_id: u32,
}

impl View for Session {
    type V = SessionState;

    closed spec fn view(&self) -> SessionState {
        SessionState { phase: self.phase, station_id: self.station_id as nat }
    }
}

impl Session {
    #[verifier::type_invariant]
    spec fn well_formed(self) -> bool {
        self@.valid()
    }

    /// A session for a connection that was just accepted.
    pub fn new() -> (session: Session)
        ensures
            session@ == SessionState::initial(),
    {
        Session { phase: Phase::Handshaking, station_id: FIRST_STATION }
    }

    /// Takes one event and decides what the driver does next.
    pub fn advance(&mut self, event: Event) -> (directive: Directive)
        ensures
            final(self)@ == old(self)@.next(event),
            final(self)@.valid(),
            directive == old(self)@.directive(event),
    {
        proof {
            use_type_invariant(&*self);
        }
        let (phase, station_id): (Phase, u32) = match (self.phase, event) {
            (Phase::Handshaking, Event::HandshakeDone) => (Phase::Streaming, self.station_id),
            (Phase::Streaming, Event::Sent) => if self.station_id >= LAST_STATION {
                (Phase::Pausing, FIRST_STATION)
            } else {
                (Phase::Streaming, self.station_id + 1)
            },
            (Phase::Pausing, Event::PauseElapsed) => (Phase::Streaming, self.station_id),
            _ => (Phase::Closed, self.station_id),
        };
        *self = Session { phase, station_id };
        match phase {
            Phase::Streaming => Directive::Emit { station_id },
            Phase::Pausing => Directive::Pause { millis: PAUSE_MILLIS },
            _ => Directive::Close,
        }
    }

    /// Takes one event and answers with the action to carry out; where that
    /// is a message, its record is drawn afresh.
    ///
    /// The new state and the kind of action are those of [`Session::advance`].
    /// The record's random fields are whatever was drawn, so of a message
    /// only this is fixed: it is the document of a record that the generator
    /// can make under the station id that was due.
    pub fn step(&mut self, event: Event) -> (action: Action)
        ensures
            final(self)@ == old(self)@.next(event),
            final(self)@.valid(),
            action.carries_out(old(self)@.directive(event)),
    {
        match self.advance(event) {
            Directive::Emit { station_id } => {
                let record = Record::generate(station_id);
                Action::Send { text: serialize(&record) }
            },
            Directive::Pause { millis } => Action::Pause { millis },
            Directive::Close => Action::Close,
        }
    }

    /// Where the session stands.
    pub fn phase(&self) -> (phase: Phase)
        ensures
            phase == self@.phase,
            self@.valid(),
    {
        proof {
            use_type_invariant(self);
        }
        self.phase
    }

    /// The station id of the record in flight, or of the next one.
    pub fn station_id(&self) -> (station_id: u32)
        ensures
            station_id == self@.station_id,
            self@.valid(),
    {
        proof {
            use_type_invariant(self);
        }
        self.station_id
    }

    /// Whether the session is over.
    pub fn is_closed(&self) -> (closed: bool)
        ensures
            closed == (self@.phase is Closed),
    {
        self.phase == Phase::Closed
    }
}

/// The state of a session whose handshake succeeded and whose first `sent`
/// records were all written, each pause on the way waited out.
pub open spec fn after_sends(sent: nat) -> SessionState
    decreases sent,
{
    if sent == 0 {
        SessionState::initial().next(Event::HandshakeDone)
    } else {
        let written = after_sends((sent - 1) as nat).next(Event::Sent);
        if written.phase is Pausing {
            written.next(Event::PauseElapsed)
        } else {
            written
        }
    }
}

/// The station ids of one session run `1, 2, ..., 10000, 1, 2, ...`, and the
/// session pauses after each `10000`, before the `1` that follows.
///
/// The handshake brings the directive to send `1`. After `sent` records the
/// record in flight carries `sent % 10000 + 1`. When it is written, the
/// driver is told to send the next id at once,
/// unless the one written was `10000`: then it is told to pause, and only
/// the end of that pause brings the directive to send `1`.
pub proof fn lemma_station_cycle(sent: nat)
    ensures
        SessionState::initial().directive(Event::HandshakeDone) == (Directive::Emit {
            station_id: FIRST_STATION,
        }),
        after_sends(sent) == (SessionState {
            phase: Phase::Streaming,
            station_id: sent % (LAST_STATION as nat) + 1,
        }),
        after_sends(sent).valid(),
        sent % (LAST_STATION as nat) + 1 < LAST_STATION ==> after_sends(sent).directive(
            Event::Sent,
        ) == (Directive::Emit { station_id: (sent % (LAST_STATION as nat) + 2) as u32 }),
        sent % (LAST_STATION as nat) + 1 == LAST_STATION ==> {
            &&& after_sends(sent).directive(Event::Sent) == (Directive::Pause {
                millis: PAUSE_MILLIS,
            })
            &&& after_sends(sent).next(Event::Sent).directive(Event::PauseElapsed) == (
            Directive::Emit { station_id: FIRST_STATION })
        },
    decreases sent,
{
    if sent > 0 {
        lemma_station_cycle((sent - 1) as nat);
    }
}

/// What a run of events makes of a session: the state it ends in and what
/// the driver was told, event by event.
pub struct Run {
    pub state: SessionState,
    pub told: Seq<Directive>,
}

/// The run of one session over its events.
pub open spec fn run(start: SessionState, events: Seq<Event>) -> Run
    decreases events.len(),
{
    if events.len() == 0 {
        Run { state: start, told: Seq::empty() }
    } else {
        let before = run(start, events.drop_last());
        Run {
            state: before.state.next(events.last()),
            told: before.told.push(before.state.directive(events.last())),
        }
    }
}

/// One event of a schedule for two sessions, and which of them it is for.
pub struct Turn {
    pub first: bool,
    pub event: Event,
}

/// The events of a schedule that are for one of the two sessions, in order.
pub open spec fn events_for(schedule: Seq<Turn>, first: bool) -> Seq<Event>
    decreases schedule.len(),
{
    if schedule.len() == 0 {
        Seq::empty()
    } else if schedule.last().first == first {
        events_for(schedule.drop_last(), first).push(schedule.last().event)
    } else {
        events_for(schedule.drop_last(), first)
    }
}

/// The runs of two sessions that are served side by side, each event going
/// to the session it is for.
pub open spec fn run_both(first: SessionState, second: SessionState, schedule: Seq<Turn>) -> (
    Run,
    Run,
)
    decreases schedule.len(),
{
    if schedule.len() == 0 {
        (Run { state: first, told: Seq::empty() }, Run { state: second, told: Seq::empty() })
    } else {
        let (one, other) = run_both(first, second, schedule.drop_last());
        let turn = schedule.last();
        if turn.first {
            (
                Run {
                    state: one.state.next(turn.event),
                    told: one.told.push(one.state.directive(turn.event)),
                },
                other,
            )
        } else {
            (
                one,
                Run {
                    state: other.state.next(turn.event),
                    told: other.told.push(other.state.directive(turn.event)),
                },
            )
        }
    }
}

/// Two sessions do not touch each other: however their events are
/// interleaved, each ends where it would have ended alone and its driver is
/// told what it would have been told alone. In particular the end of one
/// session, at any point, changes nothing for the other.
pub proof fn lemma_sessions_are_isolated(
    first: SessionState,
    second: SessionState,
    schedule: Seq<Turn>,
)
    ensures
        run_both(first, second, schedule) == (
            run(first, events_for(schedule, true)),
            run(second, events_for(schedule, false)),
        ),
    decreases schedule.len(),
{
    if schedule.len() > 0 {
        lemma_sessions_are_isolated(first, second, schedule.drop_last());
        let turn = schedule.last();
        let mine = events_for(schedule, turn.first);
        assert(mine.drop_last() =~= events_for(schedule.drop_last(), turn.first));
        assert(mine.last() == turn.event);
    }
}

} // verus!
