//! The lifecycle of one client session, as a state machine: what each event
//! does to the session and what it asks the server to do.

use vstd::prelude::*;

verus! {

/// Where a session stands in its life. A session only ever moves forward
/// through these, and `Closed` is final.
#[derive(Clone, Copy, Debug, PartialEq, Eq, Structural)]
pub enum SessionState {
    Connecting,
    Active,
    Closing,
    Closed,
}

/// What one read on the transport produced, in plain values.
#[derive(Debug, PartialEq, Eq)]
pub enum Inbound {
    /// The stream has ended.
    Ended,
    /// The read failed.
    Failed,
    /// A unit arrived. `close` says whether it is a close signal; `text` is
    /// its content where the unit is well-formed text.
    Unit { close: bool, text: Option<String> },
}

/// What can happen to a session.
#[derive(Debug, PartialEq, Eq)]
pub enum SessionEvent {
    /// Both duties are running and the identity is registered.
    Started,
    /// The inbound duty read a well-formed text unit.
    TextRead(String),
    /// The inbound duty read a unit that is not text.
    MalformedRead,
    /// The inbound duty read a close signal, or the stream ended.
    CloseRead,
    /// The inbound duty failed to read.
    ReadFailed,
    /// The outbound duty failed to write.
    WriteFailed,
    /// The registry entry is removed and the departure is announced.
    TornDown,
}

/// What a session asks for in answer to an event.
#[derive(Debug, PartialEq, Eq)]
pub enum SessionAction {
    /// Nothing is to be done; the event is at most worth a log line.
    Nothing,
    /// Announce that this session joined.
    AnnounceJoin,
    /// Announce this text as a message from this session.
    Relay(String),
    /// Unregister this session and announce its departure.
    TearDown,
}

/// The event that a read amounts to. The end of the stream counts as a close
/// signal, a close signal wins over whatever else the unit holds, and a unit
/// that is neither a close signal nor text is malformed.
pub open spec fn event_of(read: Inbound) -> SessionEvent {
    match read {
        Inbound::Ended => SessionEvent::CloseRead,
        Inbound::Failed => SessionEvent::ReadFailed,
        Inbound::Unit { close, text } => if close {
            SessionEvent::CloseRead
        } else {
            match text {
                Some(text) => SessionEvent::TextRead(text),
                None => SessionEvent::MalformedRead,
            }
        },
    }
}

/// Turns what the inbound duty read into the event that the session takes in.
pub fn classify(read: Inbound) -> (event: SessionEvent)
    ensures
        event == event_of(read),
{
    match read {
        Inbound::Ended => SessionEvent::CloseRead,
        Inbound::Failed => SessionEvent::ReadFailed,
        Inbound::Unit { close: true, text: _ } => SessionEvent::CloseRead,
        Inbound::Unit { close: false, text: Some(text) } => SessionEvent::TextRead(text),
        Inbound::Unit { close: false, text: None } => SessionEvent::MalformedRead,
    }
}

/// Whether the event is a fault of either duty, which ends an active session.
pub open spec fn is_fault(event: SessionEvent) -> bool {
    event is CloseRead || event is ReadFailed || event is WriteFailed
}

/// The state that follows `state` on `event`. An event that has no meaning in
/// a state leaves the state as it is.
pub open spec fn next_state(state: SessionState, event: SessionEvent) -> SessionState {
    match state {
        SessionState::Connecting => if event is Started {
            SessionState::Active
        } else {
            SessionState::Connecting
        },
        SessionState::Active => if is_fault(event) {
            SessionState::Closing
        } else {
            SessionState::Active
        },
        SessionState::Closing => if event is TornDown {
            SessionState::Closed
        } else {
            SessionState::Closing
        },
        SessionState::Closed => SessionState::Closed,
    }
}

/// What a session in `state` asks for on `event`.
pub open spec fn action_for(state: SessionState, event: SessionEvent) -> SessionAction {
    match state {
        SessionState::Connecting => if event is Started {
            SessionAction::AnnounceJoin
        } else {
            SessionAction::Nothing
        },
        SessionState::Active => match event {
            SessionEvent::TextRead(text) => SessionAction::Relay(text),
            SessionEvent::CloseRead => SessionAction::TearDown,
            SessionEvent::ReadFailed => SessionAction::TearDown,
            SessionEvent::WriteFailed => SessionAction::TearDown,
            _ => SessionAction::Nothing,
        },
        SessionState::Closing => SessionAction::Nothing,
        SessionState::Closed => SessionAction::Nothing,
    }
}

/// How far along its life a session in `state` is.
pub open spec fn progress(state: SessionState) -> nat {
    match state {
        SessionState::Connecting => 0,
        SessionState::Active => 1,
        SessionState::Closing => 2,
        SessionState::Closed => 3,
    }
}

/// The state of a session that started in `state` and saw `events` in order.
pub open spec fn state_after(state: SessionState, events: Seq<SessionEvent>) -> SessionState
    decreases events.len(),
{
    if events.len() == 0 {
        state
    } else {
        next_state(state_after(state, events.drop_last()), events.last())
    }
}

/// How often a session that started in `state` asked to be torn down while
/// it saw `events` in order.
pub open spec fn teardowns(state: SessionState, events: Seq<SessionEvent>) -> nat
    decreases events.len(),
{
    if events.len() == 0 {
        0
    } else {
        let asked: nat = if action_for(state_after(state, events.drop_last()), events.last())
            is TearDown {
            1
        } else {
            0
        };
        teardowns(state, events.drop_last()) + asked
    }
}

/// The mathematical content of a [`Session`].
pub struct SessionView {
    pub id: usize,
    pub state: SessionState,
}

/// One client session: its identity and where it stands in its life.
#[derive(Debug)]
pub struct Session {
    id: usize,
    state: SessionState,
}

impl View for Session {
    type V = SessionView;

    closed spec fn view(&self) -> SessionView {
        SessionView { id: self.id, state: self.state }
    }
}

impl Session {
    /// A session for `id` that is not yet started.
    pub fn new(id: usize) -> (session: Self)
        ensures
            session@ == (SessionView { id, state: SessionState::Connecting }),
    {
        Session { id, state: SessionState::Connecting }
    }

    /// The identity of this session, which never changes.
    pub fn id(&self) -> (id: usize)
        ensures
            id == self@.id,
    {
        self.id
    }

    /// Where this session stands.
    pub fn state(&self) -> (state: SessionState)
        ensures
            state == self@.state,
    {
        self.state
    }

    /// Takes in one event: moves the session on and says what is to be done.
    pub fn step(&mut self, event: SessionEvent) -> (action: SessionAction)
        ensures
            final(self)@.id == old(self)@.id,
            final(self)@.state == next_state(old(self)@.state, event),
            action == action_for(old(self)@.state, event),
    {
        match self.state {
            SessionState::Connecting => match event {
                SessionEvent::Started => {
                    self.state = SessionState::Active;
                    SessionAction::AnnounceJoin
                },
                _ => SessionAction::Nothing,
            },
            SessionState::Active => match event {
                SessionEvent::TextRead(text) => SessionAction::Relay(text),
                SessionEvent::CloseRead | SessionEvent::ReadFailed | SessionEvent::WriteFailed => {
                    self.state = SessionState::Closing;
                    SessionAction::TearDown
                },
                _ => SessionAction::Nothing,
            },
            SessionState::Closing => match event {
                SessionEvent::TornDown => {
                    self.state = SessionState::Closed;
                    SessionAction::Nothing
                },
                _ => SessionAction::Nothing,
            },
            SessionState::Closed => SessionAction::Nothing,
        }
    }
}

/// A session never moves backwards, whatever happens to it.
pub proof fn law_session_moves_forward(state: SessionState, event: SessionEvent)
    ensures
        progress(state) <= progress(next_state(state, event)),
        progress(next_state(state, event)) <= progress(state) + 1,
{
}

/// A closed session stays closed and asks for nothing more.
pub proof fn law_closed_is_final(event: SessionEvent)
    ensures
        next_state(SessionState::Closed, event) == SessionState::Closed,
        action_for(SessionState::Closed, event) is Nothing,
{
}

/// A session asks to be torn down exactly when an active session meets its
/// first fault, and that event is the one that takes it out of `Active`.
pub proof fn law_teardown_on_first_fault(state: SessionState, event: SessionEvent)
    ensures
        action_for(state, event) is TearDown <==> state == SessionState::Active && is_fault(event),
        action_for(state, event) is TearDown ==> next_state(state, event) == SessionState::Closing,
{
}

/// Over a whole life, whatever events arrive and in whatever order, a session
/// asks to be torn down at most once, and never once it has left `Active`.
pub proof fn law_teardown_at_most_once(state: SessionState, events: Seq<SessionEvent>)
    ensures
        teardowns(state, events) <= 1,
        progress(state) <= progress(state_after(state, events)),
        teardowns(state, events) == 1 ==> progress(state_after(state, events)) >= 2,
        progress(state) >= 2 ==> teardowns(state, events) == 0,
    decreases events.len(),
{
    if events.len() > 0 {
        law_teardown_at_most_once(state, events.drop_last());
    }
}

} // verus!
