//! The event schema and the rule that personalizes one occurrence for each
//! recipient.

use vstd::prelude::*;

verus! {

/// What happened, before it is framed for any particular recipient.
#[derive(Clone, Copy, Debug, PartialEq, Eq, Structural)]
pub enum EventKind {
    Joined,
    Message,
    Left,
}

/// How one recipient sees an occurrence. A client sees its own actions under
/// a different category than the actions of its peers.
#[derive(Clone, Copy, Debug, PartialEq, Eq, Structural)]
pub enum ChatEventType {
    SelfJoined,
    PeerJoined,
    MessageFromSelf,
    MessageFromPeer,
    PeerLeft,
}

/// A frame as it is delivered to one recipient.
#[derive(Debug, PartialEq, Eq)]
pub struct ChatEvent {
    pub sender: usize,
    pub event_type: ChatEventType,
    pub message: String,
}

/// The mathematical content of a [`ChatEvent`].
pub struct ChatEventView {
    pub sender: usize,
    pub event_type: ChatEventType,
    pub message: Seq<char>,
}

impl View for ChatEvent {
    type V = ChatEventView;

    open spec fn view(&self) -> ChatEventView {
        ChatEventView { sender: self.sender, event_type: self.event_type, message: self.message@ }
    }
}

impl Clone for ChatEvent {
    fn clone(&self) -> (copy: Self)
        ensures
            copy@ == self@,
    {
        ChatEvent {
            sender: self.sender,
            event_type: self.event_type,
            message: self.message.clone(),
        }
    }
}

impl ChatEvent {
    /// Reads a frame off its three wire fields. The frame is refused exactly
    /// when `event_type` names no category.
    pub fn from_wire(sender: usize, event_type: &str, message: String) -> (frame: Option<ChatEvent>)
        ensures
            frame is None <==> forall|category: ChatEventType|
                category.wire_name_of() != event_type@,
            frame matches Some(f) ==> f.sender == sender && f.message == message
                && f.event_type.wire_name_of() == event_type@,
    {
        match ChatEventType::from_wire_name(event_type) {
            Some(category) => Some(ChatEvent { sender, event_type: category, message }),
            None => None,
        }
    }
}

/// The category under which `recipient` sees an occurrence of `kind` caused
/// by `source`, or `None` where the recipient is owed no frame at all: a
/// client never hears of its own departure.
pub open spec fn category_for(source: usize, recipient: usize, kind: EventKind) -> Option<
    ChatEventType,
> {
    match kind {
        EventKind::Joined => Some(
            if recipient == source {
                ChatEventType::SelfJoined
            } else {
                ChatEventType::PeerJoined
            },
        ),
        EventKind::Message => Some(
            if recipient == source {
                ChatEventType::MessageFromSelf
            } else {
                ChatEventType::MessageFromPeer
            },
        ),
        EventKind::Left => if recipient == source {
            None
        } else {
            Some(ChatEventType::PeerLeft)
        },
    }
}

/// The frame that `recipient` is owed for an occurrence, if any: the source
/// as sender, the personalized category, and the payload unchanged.
pub open spec fn frame_for(
    source: usize,
    recipient: usize,
    kind: EventKind,
    payload: Seq<char>,
) -> Option<ChatEventView> {
    match category_for(source, recipient, kind) {
        Some(event_type) => Some(ChatEventView { sender: source, event_type, message: payload }),
        None => None,
    }
}

/// Computes the category under which `recipient` sees the occurrence.
pub fn personalize(source: usize, recipient: usize, kind: EventKind) -> (category: Option<
    ChatEventType,
>)
    ensures
        category == category_for(source, recipient, kind),
{
    let own = recipient == source;
    match kind {
        EventKind::Joined => Some(
            if own {
                ChatEventType::SelfJoined
            } else {
                ChatEventType::PeerJoined
            },
        ),
        EventKind::Message => Some(
            if own {
                ChatEventType::MessageFromSelf
            } else {
                ChatEventType::MessageFromPeer
            },
        ),
        EventKind::Left => if own {
            None
        } else {
            Some(ChatEventType::PeerLeft)
        },
    }
}

/// Builds the frame that `recipient` is owed, if any.
pub fn compose(source: usize, recipient: usize, kind: EventKind, payload: &str) -> (frame: Option<
    ChatEvent,
>)
    ensures
        frame is Some <==> frame_for(source, recipient, kind, payload@) is Some,
        frame matches Some(f) ==> Some(f@) == frame_for(source, recipient, kind, payload@),
{
    match personalize(source, recipient, kind) {
        Some(event_type) => Some(ChatEvent { sender: source, event_type, message: payload.to_owned() }),
        None => None,
    }
}

impl ChatEventType {
    /// The name under which this category travels in a frame's `event_type`
    /// field.
    pub open spec fn wire_name_of(self) -> Seq<char> {
        match self {
            ChatEventType::SelfJoined => "SelfJoined"@,
            ChatEventType::PeerJoined => "PeerJoined"@,
            ChatEventType::MessageFromSelf => "MessageFromSelf"@,
            ChatEventType::MessageFromPeer => "MessageFromPeer"@,
            ChatEventType::PeerLeft => "PeerLeft"@,
        }
    }

    /// The name of this category on the wire.
    pub fn wire_name(&self) -> (name: &'static str)
        ensures
            name@ == self.wire_name_of(),
    {
        match self {
            ChatEventType::SelfJoined => "SelfJoined",
            ChatEventType::PeerJoined => "PeerJoined",
            ChatEventType::MessageFromSelf => "MessageFromSelf",
            ChatEventType::MessageFromPeer => "MessageFromPeer",
            ChatEventType::PeerLeft => "PeerLeft",
        }
    }

    /// The category that travels under `name`, or `None` where `name` is not
    /// the name of any category.
    pub fn from_wire_name(name: &str) -> (parsed: Option<ChatEventType>)
        ensures
            parsed matches Some(category) ==> category.wire_name_of() == name@,
            parsed is None <==> forall|category: ChatEventType| category.wire_name_of() != name@,
    {
        let given = name.to_owned();
        if given == "SelfJoined".to_owned() {
            assert(ChatEventType::SelfJoined.wire_name_of() == name@);
            Some(ChatEventType::SelfJoined)
        } else if given == "PeerJoined".to_owned() {
            assert(ChatEventType::PeerJoined.wire_name_of() == name@);
            Some(ChatEventType::PeerJoined)
        } else if given == "MessageFromSelf".to_owned() {
            assert(ChatEventType::MessageFromSelf.wire_name_of() == name@);
            Some(ChatEventType::MessageFromSelf)
        } else if given == "MessageFromPeer".to_owned() {
            assert(ChatEventType::MessageFromPeer.wire_name_of() == name@);
            Some(ChatEventType::MessageFromPeer)
        } else if given == "PeerLeft".to_owned() {
            assert(ChatEventType::PeerLeft.wire_name_of() == name@);
            Some(ChatEventType::PeerLeft)
        } else {
            None
        }
    }
}

/// No two categories travel under one name, so a name read off the wire
/// stands for at most one category.
pub proof fn law_wire_names_differ(one: ChatEventType, other: ChatEventType)
    requires
        one.wire_name_of() == other.wire_name_of(),
    ensures
        one == other,
{
    reveal_strlit("SelfJoined");
    reveal_strlit("PeerJoined");
    reveal_strlit("MessageFromSelf");
    reveal_strlit("MessageFromPeer");
    reveal_strlit("PeerLeft");
    assert("SelfJoined"@.len() == 10 && "SelfJoined"@[0] == 'S');
    assert("PeerJoined"@.len() == 10 && "PeerJoined"@[0] == 'P');
    assert("MessageFromSelf"@.len() == 15 && "MessageFromSelf"@[11] == 'S');
    assert("MessageFromPeer"@.len() == 15 && "MessageFromPeer"@[11] == 'P');
    assert("PeerLeft"@.len() == 8);
}

} // verus!
