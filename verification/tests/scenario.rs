use chat_fanout::event::{ChatEvent, ChatEventType};
use chat_fanout::server::ChatServer;
use chat_fanout::session::{SessionEvent, SessionState};
use tokio::sync::mpsc::{unbounded_channel, UnboundedReceiver};

fn drain(mailbox: &mut UnboundedReceiver<ChatEvent>) -> Vec<ChatEvent> {
    let mut frames = Vec::new();
    while let Ok(frame) = mailbox.try_recv() {
        frames.push(frame);
    }
    frames
}

fn frame(sender: usize, event_type: ChatEventType, message: &str) -> ChatEvent {
    ChatEvent { sender, event_type, message: String::from(message) }
}

fn live_ids(server: &ChatServer) -> Vec<usize> {
    let mut ids: Vec<usize> = server.registry().snapshot().iter().map(|pair| pair.0).collect();
    ids.sort();
    ids
}

#[test]
fn two_clients_chat_and_one_leaves() {
    let mut server = ChatServer::new();

    let (to_a, mut mailbox_a) = unbounded_channel();
    let (mut a, _) = server.connect(to_a);
    assert_eq!(a.id(), 1);
    assert_eq!(drain(&mut mailbox_a), vec![frame(1, ChatEventType::SelfJoined, "")]);

    let (to_b, mut mailbox_b) = unbounded_channel();
    let (mut b, _) = server.connect(to_b);
    assert_eq!(b.id(), 2);
    assert_eq!(drain(&mut mailbox_a), vec![frame(2, ChatEventType::PeerJoined, "")]);
    assert_eq!(drain(&mut mailbox_b), vec![frame(2, ChatEventType::SelfJoined, "")]);

    server.handle_event(&mut a, SessionEvent::TextRead(String::from("hello")));
    assert_eq!(drain(&mut mailbox_a), vec![frame(1, ChatEventType::MessageFromSelf, "hello")]);
    assert_eq!(drain(&mut mailbox_b), vec![frame(1, ChatEventType::MessageFromPeer, "hello")]);

    assert!(server.handle_event(&mut b, SessionEvent::CloseRead).is_empty());
    server.disconnect(&mut b);
    assert_eq!(drain(&mut mailbox_a), vec![frame(2, ChatEventType::PeerLeft, "")]);
    assert!(drain(&mut mailbox_b).is_empty());
    assert_eq!(live_ids(&server), vec![1]);
    assert_eq!(a.state(), SessionState::Active);
    assert_eq!(b.state(), SessionState::Closed);
}

#[test]
fn a_new_server_has_nobody_connected() {
    let server = ChatServer::new();
    assert_eq!(server.registry().len(), 0);
}

#[test]
fn connect_reports_the_join_and_activates_the_session() {
    let mut server = ChatServer::new();
    let (to_a, _mailbox_a) = unbounded_channel();
    let (session, report) = server.connect(to_a);
    assert_eq!(session.state(), SessionState::Active);
    assert_eq!(report.len(), 1);
    assert_eq!(report[0].recipient, 1);
    assert_eq!(report[0].frame, frame(1, ChatEventType::SelfJoined, ""));
    assert!(report[0].accepted);
    assert_eq!(server.registry().len(), 1);
}

#[test]
fn the_own_join_is_first_in_the_mailbox() {
    let mut server = ChatServer::new();
    let (to_a, _mailbox_a) = unbounded_channel();
    let (mut a, _) = server.connect(to_a);
    let (to_b, mut mailbox_b) = unbounded_channel();
    let (_b, _) = server.connect(to_b);
    server.handle_event(&mut a, SessionEvent::TextRead(String::from("welcome")));
    let frames = drain(&mut mailbox_b);
    assert_eq!(frames[0], frame(2, ChatEventType::SelfJoined, ""));
    assert_eq!(frames[1], frame(1, ChatEventType::MessageFromPeer, "welcome"));
    assert_eq!(frames.len(), 2);
}

#[test]
fn identities_are_not_reused_after_a_departure() {
    let mut server = ChatServer::new();
    let (to_a, _mailbox_a) = unbounded_channel();
    let (mut a, _) = server.connect(to_a);
    server.handle_event(&mut a, SessionEvent::ReadFailed);
    server.disconnect(&mut a);
    let (to_b, _mailbox_b) = unbounded_channel();
    let (b, _) = server.connect(to_b);
    assert_eq!(b.id(), 2);
    assert_eq!(live_ids(&server), vec![2]);
}

#[test]
fn a_departure_is_announced_once() {
    let mut server = ChatServer::new();
    let (to_a, mut mailbox_a) = unbounded_channel();
    let (_a, _) = server.connect(to_a);
    let (to_b, _mailbox_b) = unbounded_channel();
    let (mut b, _) = server.connect(to_b);
    drain(&mut mailbox_a);

    server.handle_event(&mut b, SessionEvent::WriteFailed);
    server.handle_event(&mut b, SessionEvent::CloseRead);
    let first = server.disconnect(&mut b);
    let second = server.disconnect(&mut b);
    assert_eq!(first.len(), 1);
    assert!(second.is_empty());
    assert_eq!(drain(&mut mailbox_a), vec![frame(2, ChatEventType::PeerLeft, "")]);
    assert_eq!(live_ids(&server), vec![1]);
}

#[test]
fn disconnect_leaves_an_active_session_alone() {
    let mut server = ChatServer::new();
    let (to_a, mut mailbox_a) = unbounded_channel();
    let (mut a, _) = server.connect(to_a);
    drain(&mut mailbox_a);
    assert!(server.disconnect(&mut a).is_empty());
    assert_eq!(a.state(), SessionState::Active);
    assert_eq!(live_ids(&server), vec![1]);
    assert!(drain(&mut mailbox_a).is_empty());
}

#[test]
fn malformed_input_is_not_announced() {
    let mut server = ChatServer::new();
    let (to_a, mut mailbox_a) = unbounded_channel();
    let (mut a, _) = server.connect(to_a);
    drain(&mut mailbox_a);
    assert!(server.handle_event(&mut a, SessionEvent::MalformedRead).is_empty());
    assert_eq!(a.state(), SessionState::Active);
    assert!(drain(&mut mailbox_a).is_empty());
}

#[test]
fn a_closing_session_no_longer_speaks() {
    let mut server = ChatServer::new();
    let (to_a, mut mailbox_a) = unbounded_channel();
    let (mut a, _) = server.connect(to_a);
    drain(&mut mailbox_a);
    server.handle_event(&mut a, SessionEvent::CloseRead);
    assert!(server.handle_event(&mut a, SessionEvent::TextRead(String::from("late"))).is_empty());
    assert!(drain(&mut mailbox_a).is_empty());
}

#[test]
fn a_peer_that_is_gone_does_not_disturb_the_others() {
    let mut server = ChatServer::new();
    let (to_a, mut mailbox_a) = unbounded_channel();
    let (mut a, _) = server.connect(to_a);
    let (to_b, mailbox_b) = unbounded_channel();
    let (_b, _) = server.connect(to_b);
    let (to_c, mut mailbox_c) = unbounded_channel();
    let (_c, _) = server.connect(to_c);
    drop(mailbox_b);
    drain(&mut mailbox_a);
    drain(&mut mailbox_c);
    let report = server.handle_event(&mut a, SessionEvent::TextRead(String::from("hi")));
    assert_eq!(report.len(), 3);
    assert_eq!(report.iter().filter(|delivery| delivery.accepted).count(), 2);
    assert_eq!(drain(&mut mailbox_a), vec![frame(1, ChatEventType::MessageFromSelf, "hi")]);
    assert_eq!(drain(&mut mailbox_c), vec![frame(1, ChatEventType::MessageFromPeer, "hi")]);
}
