//! The server core: the allocator and the registry wired to the session
//! lifecycle.

use crate::allocator::{successor, IdAllocator};
use crate::broadcaster::{announce, fanout, realizes, Delivery};
use crate::event::{ChatEvent, ChatEventView, EventKind};
use crate::registry::ConnectionRegistry;
use crate::session::{action_for, next_state, Session, SessionAction, SessionEvent, SessionState};
use tokio::sync::mpsc::UnboundedSender;
use vstd::prelude::*;

verus! {

/// The mathematical content of a [`ChatServer`].
pub struct ChatServerView {
    /// The identity that the next connection will get.
    pub upcoming: usize,
    /// The live sessions and the handles into their mailboxes.
    pub live: Map<usize, UnboundedSender<ChatEvent>>,
}

impl ChatServerView {
    /// Whether every live identity was issued before and none can be issued
    /// again: the live identities lie from 1 up to, but not at, the upcoming
    /// one. This holds of a new server and is kept by every operation for as
    /// long as the counter has not started over.
    pub open spec fn ids_are_fresh(self) -> bool {
        &&& 1 <= self.upcoming
        &&& forall|id: usize| self.live.contains_key(id) ==> 1 <= id < self.upcoming
    }
}

/// The shared state of the service: who is connected, and which identity
/// comes next.
pub struct ChatServer {
    ids: IdAllocator,
    registry: ConnectionRegistry,
}

impl View for ChatServer {
    type V = ChatServerView;

    closed spec fn view(&self) -> ChatServerView {
        ChatServerView { upcoming: self.ids@, live: self.registry@ }
    }
}

/// The frames that are owed when a session with identity `id`, in `state`,
/// meets `event` while the sessions in `live` are connected: a join or a
/// message is announced at once; every other event owes nothing.
pub open spec fn owed_on(live: Set<usize>, id: usize, state: SessionState, event: SessionEvent) -> Map<
    usize,
    ChatEventView,
> {
    match action_for(state, event) {
        SessionAction::AnnounceJoin => fanout(live, id, EventKind::Joined, Seq::empty()),
        SessionAction::Relay(text) => fanout(live, id, EventKind::Message, text@),
        _ => Map::empty(),
    }
}

impl ChatServer {
    /// A server with nobody connected, whose first client will be number 1.
    pub fn new() -> (server: Self)
        ensures
            server@.upcoming == 1,
            server@.live == Map::<usize, UnboundedSender<ChatEvent>>::empty(),
            server@.ids_are_fresh(),
    {
        ChatServer { ids: IdAllocator::new(), registry: ConnectionRegistry::new() }
    }

    /// The table of live sessions.
    pub fn registry(&self) -> (registry: &ConnectionRegistry)
        ensures
            registry@ == self@.live,
    {
        &self.registry
    }

    /// Takes in a new connection whose mailbox is entered through `handle`:
    /// issues its identity, registers it, and announces the join to every
    /// live session, the newcomer included. The session comes back active.
    pub fn connect(&mut self, handle: UnboundedSender<ChatEvent>) -> (opened: (Session, Vec<Delivery>))
        ensures
            opened.0@.id == old(self)@.upcoming,
            opened.0@.state == SessionState::Active,
            final(self)@.upcoming == successor(old(self)@.upcoming),
            final(self)@.live == old(self)@.live.insert(old(self)@.upcoming, handle),
            realizes(
                opened.1@,
                fanout(final(self)@.live.dom(), old(self)@.upcoming, EventKind::Joined, Seq::empty()),
            ),
            old(self)@.ids_are_fresh() && old(self)@.upcoming < usize::MAX ==> {
                &&& final(self)@.ids_are_fresh()
                &&& !old(self)@.live.contains_key(old(self)@.upcoming)
            },
    {
        let id = self.ids.next();
        let mut session = Session::new(id);
        self.registry.register(id, handle);
        let report = self.handle_event(&mut session, SessionEvent::Started);
        proof {
            if old(self)@.ids_are_fresh() && old(self)@.upcoming < usize::MAX {
                assert forall|other: usize| self@.live.contains_key(other) implies 1 <= other
                    < self@.upcoming by {
                    if other != id {
                        assert(old(self)@.live.contains_key(other));
                    }
                }
            }
        }
        (session, report)
    }

    /// Takes in one event of a session: moves the session on and, where the
    /// event is to be announced, announces it to every live session. A fault
    /// only moves the session to `Closing`; the teardown itself is
    /// [`ChatServer::disconnect`], which needs the server to itself.
    pub fn handle_event(&self, session: &mut Session, event: SessionEvent) -> (report: Vec<Delivery>)
        ensures
            final(session)@.id == old(session)@.id,
            final(session)@.state == next_state(old(session)@.state, event),
            realizes(
                report@,
                owed_on(self@.live.dom(), old(session)@.id, old(session)@.state, event),
            ),
    {
        let id = session.id();
        match session.step(event) {
            SessionAction::AnnounceJoin => {
                proof {
                    reveal_strlit("");
                    assert(""@ =~= Seq::<char>::empty());
                }
                announce(&self.registry, id, EventKind::Joined, "")
            },
            SessionAction::Relay(text) => announce(&self.registry, id, EventKind::Message, text.as_str()),
            _ => Vec::new(),
        }
    }

    /// Tears down a session that is closing: unregisters it, then announces
    /// its departure to the sessions that remain, and closes it. On a session
    /// in any other state this does nothing, so that a departure is announced
    /// once however often the teardown is asked for.
    pub fn disconnect(&mut self, session: &mut Session) -> (report: Vec<Delivery>)
        ensures
            final(self)@.upcoming == old(self)@.upcoming,
            final(session)@.id == old(session)@.id,
            old(self)@.ids_are_fresh() ==> final(self)@.ids_are_fresh(),
            old(session)@.state == SessionState::Closing ==> {
                &&& final(session)@.state == SessionState::Closed
                &&& final(self)@.live == old(self)@.live.remove(old(session)@.id)
                &&& realizes(
                    report@,
                    fanout(
                        final(self)@.live.dom(),
                        old(session)@.id,
                        EventKind::Left,
                        Seq::empty(),
                    ),
                )
            },
            old(session)@.state != SessionState::Closing ==> {
                &&& final(session)@.state == old(session)@.state
                &&& final(self)@.live == old(self)@.live
                &&& report@.len() == 0
            },
    {
        match session.state() {
            SessionState::Closing => {
                let id = session.id();
                self.registry.unregister(id);
                proof {
                    reveal_strlit("");
                    assert(""@ =~= Seq::<char>::empty());
                }
                let report = announce(&self.registry, id, EventKind::Left, "");
                session.step(SessionEvent::TornDown);
                proof {
                    if old(self)@.ids_are_fresh() {
                        assert forall|other: usize| self@.live.contains_key(other) implies 1
                            <= other < self@.upcoming by {
                            assert(old(self)@.live.contains_key(other));
                        }
                    }
                }
                report
            },
            _ => Vec::new(),
        }
    }
}

} // verus!
