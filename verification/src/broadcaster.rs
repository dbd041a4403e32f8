//! Fanout: one occurrence becomes one personalized frame per live session.

use crate::event::{category_for, compose, frame_for, ChatEvent, ChatEventType, ChatEventView, EventKind};
use crate::mailbox::enqueue;
use crate::registry::{is_snapshot_of, ConnectionRegistry};
use vstd::prelude::*;

verus! {

/// One frame handed to one session's mailbox, and whether the mailbox took
/// it. A mailbox refuses only when its session is already tearing down.
#[derive(Debug, PartialEq, Eq)]
pub struct Delivery {
    pub recipient: usize,
    pub frame: ChatEvent,
    pub accepted: bool,
}

/// The frames that an occurrence owes, by recipient: every live session for
/// which the occurrence has a category, and nobody else.
pub open spec fn fanout(live: Set<usize>, source: usize, kind: EventKind, payload: Seq<char>) -> Map<
    usize,
    ChatEventView,
> {
    Map::new(
        |recipient: usize| live.contains(recipient) && category_for(source, recipient, kind) is Some,
        |recipient: usize| frame_for(source, recipient, kind, payload)->0,
    )
}

/// Whether `report` hands out exactly the frames in `owed`: nothing that is
/// not owed, nothing altered, nobody served twice and nobody left out.
pub open spec fn realizes(report: Seq<Delivery>, owed: Map<usize, ChatEventView>) -> bool {
    &&& forall|i: int|
        0 <= i < report.len() ==> owed.contains_key((#[trigger] report[i]).recipient)
            && owed[report[i].recipient] == report[i].frame@
    &&& forall|i: int, j: int|
        0 <= i < j < report.len() ==> (#[trigger] report[i]).recipient != (
        #[trigger] report[j]).recipient
    &&& forall|recipient: usize|
        owed.contains_key(recipient) ==> exists|i: int|
            0 <= i < report.len() && (#[trigger] report[i]).recipient == recipient
}

/// Announces an occurrence to every live session. Takes one snapshot of the
/// registry, frames the occurrence for each recipient in it and enqueues the
/// frame into that recipient's mailbox. A mailbox that refuses its frame is
/// noted in the report and does not stop the fanout to the others.
pub fn announce(registry: &ConnectionRegistry, source: usize, kind: EventKind, payload: &str) -> (report:
    Vec<Delivery>)
    ensures
        realizes(report@, fanout(registry.ids(), source, kind, payload@)),
{
    let pairs = registry.snapshot();
    let ghost owed = fanout(registry.ids(), source, kind, payload@);
    let ghost mut origin: Seq<int> = Seq::empty();
    let mut report: Vec<Delivery> = Vec::new();
    let mut k: usize = 0;
    while k < pairs.len()
        invariant
            0 <= k <= pairs@.len(),
            is_snapshot_of(pairs@, registry@),
            owed == fanout(registry.ids(), source, kind, payload@),
            origin.len() == report@.len(),
            forall|i: int|
                0 <= i < report@.len() ==> 0 <= #[trigger] origin[i] < k && report@[i].recipient
                    == pairs@[origin[i]].0,
            forall|i: int, j: int|
                0 <= i < j < report@.len() ==> #[trigger] origin[i] < #[trigger] origin[j],
            forall|i: int|
                0 <= i < report@.len() ==> owed.contains_key((#[trigger] report@[i]).recipient)
                    && owed[report@[i].recipient] == report@[i].frame@,
            forall|j: int|
                0 <= j < k && owed.contains_key((#[trigger] pairs@[j]).0) ==> exists|i: int|
                    0 <= i < report@.len() && (#[trigger] report@[i]).recipient == pairs@[j].0,
        decreases pairs@.len() - k,
    {
        let (recipient, handle) = pairs[k];
        match compose(source, recipient, kind, payload) {
            Some(frame) => {
                let copy = frame.clone();
                let accepted = enqueue(handle, frame);
                let ghost before = report@;
                report.push(Delivery { recipient, frame: copy, accepted });
                proof {
                    origin = origin.push(k as int);
                    assert(report@[before.len() as int].recipient == recipient);
                    assert forall|j: int|
                        0 <= j < k + 1 && owed.contains_key((#[trigger] pairs@[j]).0) implies exists|
                        i: int,
                    | 0 <= i < report@.len() && (#[trigger] report@[i]).recipient == pairs@[j].0 by {
                        if j < k {
                            let i = choose|i: int|
                                0 <= i < before.len() && (#[trigger] before[i]).recipient
                                    == pairs@[j].0;
                            assert(report@[i].recipient == pairs@[j].0);
                        } else {
                            assert(report@[before.len() as int].recipient == pairs@[j].0);
                        }
                    }
                }
            },
            None => {},
        }
        k += 1;
    }
    proof {
        assert forall|i: int, j: int| 0 <= i < j < report@.len() implies (#[trigger] report@[i]).recipient
            != (#[trigger] report@[j]).recipient by {
            assert(origin[i] < origin[j]);
        }
        assert forall|recipient: usize| owed.contains_key(recipient) implies exists|i: int|
            0 <= i < report@.len() && (#[trigger] report@[i]).recipient == recipient by {
            let j = choose|j: int| 0 <= j < pairs@.len() && (#[trigger] pairs@[j]).0 == recipient;
            assert(owed.contains_key(pairs@[j].0));
        }
    }
    report
}

/// A join is announced to every live session, the joiner included: the
/// joiner is told that it joined, every other session that a peer did, and a
/// session that is not live is owed nothing.
pub proof fn law_join_reaches_everyone(live: Set<usize>, joiner: usize, payload: Seq<char>)
    ensures
        fanout(live, joiner, EventKind::Joined, payload).dom() == live,
        live.contains(joiner) ==> fanout(live, joiner, EventKind::Joined, payload)[joiner]
            == (ChatEventView {
            sender: joiner,
            event_type: ChatEventType::SelfJoined,
            message: payload,
        }),
        forall|peer: usize|
            live.contains(peer) && peer != joiner ==> #[trigger] fanout(
                live,
                joiner,
                EventKind::Joined,
                payload,
            )[peer] == (ChatEventView {
                sender: joiner,
                event_type: ChatEventType::PeerJoined,
                message: payload,
            }),
{
    assert(fanout(live, joiner, EventKind::Joined, payload).dom() =~= live);
}

/// A departure is announced to every live session but the one that left,
/// which is owed nothing whether or not it is still live.
pub proof fn law_leave_skips_the_leaver(live: Set<usize>, leaver: usize, payload: Seq<char>)
    ensures
        fanout(live, leaver, EventKind::Left, payload).dom() == live.remove(leaver),
        !fanout(live, leaver, EventKind::Left, payload).contains_key(leaver),
        forall|peer: usize|
            live.contains(peer) && peer != leaver ==> #[trigger] fanout(
                live,
                leaver,
                EventKind::Left,
                payload,
            )[peer] == (ChatEventView {
                sender: leaver,
                event_type: ChatEventType::PeerLeft,
                message: payload,
            }),
{
    assert(fanout(live, leaver, EventKind::Left, payload).dom() =~= live.remove(leaver));
}

/// A message is announced to every live session with its text unchanged: to
/// its author as a message of its own, to every other session as a message
/// from a peer.
pub proof fn law_message_reaches_everyone(live: Set<usize>, author: usize, text: Seq<char>)
    ensures
        fanout(live, author, EventKind::Message, text).dom() == live,
        live.contains(author) ==> fanout(live, author, EventKind::Message, text)[author]
            == (ChatEventView {
            sender: author,
            event_type: ChatEventType::MessageFromSelf,
            message: text,
        }),
        forall|peer: usize|
            live.contains(peer) && peer != author ==> #[trigger] fanout(
                live,
                author,
                EventKind::Message,
                text,
            )[peer] == (ChatEventView {
                sender: author,
                event_type: ChatEventType::MessageFromPeer,
                message: text,
            }),
{
    assert(fanout(live, author, EventKind::Message, text).dom() =~= live);
}

/// A report that realizes what is owed serves each owed recipient exactly
/// once: any two of its entries for one recipient are the same entry.
pub proof fn law_exactly_one_frame_each(
    report: Seq<Delivery>,
    owed: Map<usize, ChatEventView>,
    recipient: usize,
)
    requires
        realizes(report, owed),
        owed.contains_key(recipient),
    ensures
        exists|i: int|
            0 <= i < report.len() && (#[trigger] report[i]).recipient == recipient
                && report[i].frame@ == owed[recipient] && forall|j: int|
                0 <= j < report.len() && (#[trigger] report[j]).recipient == recipient ==> j == i,
{
    let i = choose|i: int| 0 <= i < report.len() && (#[trigger] report[i]).recipient == recipient;
    assert forall|j: int|
        0 <= j < report.len() && (#[trigger] report[j]).recipient == recipient implies j == i by {
        if j < i {
            assert(report[j].recipient != report[i].recipient);
        } else if i < j {
            assert(report[i].recipient != report[j].recipient);
        }
    }
}

/// A report that realizes what is owed has as many entries as there are
/// recipients owed a frame.
pub proof fn law_report_counts_recipients(report: Seq<Delivery>, owed: Map<usize, ChatEventView>)
    requires
        realizes(report, owed),
    ensures
        owed.dom().finite(),
        report.len() == owed.dom().len(),
{
    let served = report.map_values(|delivery: Delivery| delivery.recipient);
    assert forall|i: int, j: int| 0 <= i < served.len() && 0 <= j < served.len() && i != j implies served[i]
        != served[j] by {
        if i < j {
            assert(report[i].recipient != report[j].recipient);
        } else {
            assert(report[j].recipient != report[i].recipient);
        }
    }
    assert forall|recipient: usize| served.to_set().contains(recipient) <==> owed.dom().contains(
        recipient,
    ) by {
        if served.to_set().contains(recipient) {
            let i = choose|i: int| 0 <= i < served.len() && served[i] == recipient;
            assert(owed.contains_key(report[i].recipient));
        }
        if owed.dom().contains(recipient) {
            let i = choose|i: int|
                0 <= i < report.len() && (#[trigger] report[i]).recipient == recipient;
            assert(served[i] == recipient);
        }
    }
    assert(served.to_set() =~= owed.dom());
    served.unique_seq_to_set();
}

} // verus!
