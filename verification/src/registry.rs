//! The table of live connections.

use crate::event::ChatEvent;
use std::collections::HashMap;
use tokio::sync::mpsc::UnboundedSender;
use vstd::prelude::*;
use vstd::std_specs::iter::IteratorSpec;

verus! {

broadcast use vstd::std_specs::hash::group_hash_axioms;

/// Maps the identity of every live session to the handle that enqueues into
/// its mailbox.
pub struct ConnectionRegistry {
    handles: HashMap<usize, UnboundedSender<ChatEvent>>,
}

impl View for ConnectionRegistry {
    type V = Map<usize, UnboundedSender<ChatEvent>>;

    closed spec fn view(&self) -> Map<usize, UnboundedSender<ChatEvent>> {
        self.handles@
    }
}

/// Whether `pairs` lists exactly the entries of `live`, each identity once.
pub open spec fn is_snapshot_of(
    pairs: Seq<(usize, &UnboundedSender<ChatEvent>)>,
    live: Map<usize, UnboundedSender<ChatEvent>>,
) -> bool {
    &&& pairs.len() == live.len()
    &&& forall|i: int|
        0 <= i < pairs.len() ==> live.contains_key((#[trigger] pairs[i]).0) && live[pairs[i].0]
            == *pairs[i].1
    &&& forall|i: int, j: int|
        0 <= i < j < pairs.len() ==> (#[trigger] pairs[i]).0 != (#[trigger] pairs[j]).0
    &&& forall|id: usize|
        live.contains_key(id) ==> exists|i: int| 0 <= i < pairs.len() && (#[trigger] pairs[i]).0 == id
}

impl ConnectionRegistry {
    /// The identities that are live.
    pub open spec fn ids(&self) -> Set<usize> {
        self@.dom()
    }

    /// A registry with no session in it.
    pub fn new() -> (registry: Self)
        ensures
            registry@ == Map::<usize, UnboundedSender<ChatEvent>>::empty(),
    {
        ConnectionRegistry { handles: HashMap::new() }
    }

    /// Only finitely many sessions are ever live.
    pub proof fn live_is_finite(&self)
        ensures
            self@.dom().finite(),
    {
    }

    /// Makes `id` live, with `handle` as the way into its mailbox. An identity
    /// that is live already keeps its place and gets the new handle.
    pub fn register(&mut self, id: usize, handle: UnboundedSender<ChatEvent>)
        ensures
            final(self)@ == old(self)@.insert(id, handle),
    {
        self.handles.insert(id, handle);
    }

    /// Removes `id` if it is live and says whether it was.
    pub fn unregister(&mut self, id: usize) -> (was_live: bool)
        ensures
            was_live == old(self)@.contains_key(id),
            final(self)@ == old(self)@.remove(id),
    {
        self.handles.remove(&id).is_some()
    }

    /// The number of live sessions.
    pub fn len(&self) -> (n: usize)
        ensures
            n == self@.len(),
    {
        self.handles.len()
    }

    /// A point-in-time view of every live session: its identity and its
    /// handle, each session once, in no particular order.
    pub fn snapshot(&self) -> (pairs: Vec<(usize, &UnboundedSender<ChatEvent>)>)
        ensures
            is_snapshot_of(pairs@, self@),
    {
        let mut pairs: Vec<(usize, &UnboundedSender<ChatEvent>)> = Vec::new();
        for entry in it: self.handles.iter()
            invariant
                pairs@.len() == it.index(),
                it.seq() == self.handles.iter().remaining(),
                forall|j: int|
                    0 <= j < pairs@.len() ==> (#[trigger] pairs@[j]).0 == *it.seq()[j].0
                        && pairs@[j].1 == it.seq()[j].1,
        {
            let (id, handle) = entry;
            pairs.push((*id, handle));
        }
        proof {
            let walked = self.handles.iter().remaining();
            assert forall|i: int, j: int| 0 <= i < j < pairs@.len() implies (#[trigger] pairs@[i]).0
                != (#[trigger] pairs@[j]).0 by {
                if pairs@[i].0 == pairs@[j].0 {
                    assert(*walked[i].1 == self@[*walked[i].0]);
                    assert(*walked[j].1 == self@[*walked[j].0]);
                    assert(walked[i] == walked[j]);
                }
            }
            assert forall|id: usize| self@.contains_key(id) implies exists|i: int|
                0 <= i < pairs@.len() && (#[trigger] pairs@[i]).0 == id by {
                assert(walked.contains((&id, &self@[id])));
                let i = choose|i: int| 0 <= i < walked.len() && walked[i] == (&id, &self@[id]);
                assert(pairs@[i].0 == id);
            }
        }
        pairs
    }
}

/// The table after the sessions `ids`, with their `handles`, were registered
/// in `live`, one after the other.
pub open spec fn after_registers(
    live: Map<usize, UnboundedSender<ChatEvent>>,
    ids: Seq<usize>,
    handles: Seq<UnboundedSender<ChatEvent>>,
) -> Map<usize, UnboundedSender<ChatEvent>>
    decreases ids.len(),
{
    if ids.len() == 0 {
        live
    } else {
        after_registers(live, ids.drop_last(), handles.drop_last()).insert(
            ids.last(),
            handles.last(),
        )
    }
}

/// The table after the sessions `ids` were unregistered from `live`, one
/// after the other.
pub open spec fn after_unregisters(live: Map<usize, UnboundedSender<ChatEvent>>, ids: Seq<usize>) -> Map<
    usize,
    UnboundedSender<ChatEvent>,
>
    decreases ids.len(),
{
    if ids.len() == 0 {
        live
    } else {
        after_unregisters(live, ids.drop_last()).remove(ids.last())
    }
}

/// Registering sessions makes exactly them live, next to those that were.
pub proof fn law_registers_make_live(
    live: Map<usize, UnboundedSender<ChatEvent>>,
    ids: Seq<usize>,
    handles: Seq<UnboundedSender<ChatEvent>>,
)
    requires
        ids.len() == handles.len(),
    ensures
        after_registers(live, ids, handles).dom() == live.dom().union(ids.to_set()),
    decreases ids.len(),
{
    if ids.len() == 0 {
        assert(ids.to_set() =~= Set::<usize>::empty());
        assert(live.dom().union(ids.to_set()) =~= live.dom());
    } else {
        law_registers_make_live(live, ids.drop_last(), handles.drop_last());
        assert forall|id: usize| ids.to_set().contains(id) <==> (ids.drop_last().to_set().contains(id)
            || id == ids.last()) by {
            if ids.to_set().contains(id) {
                let i = choose|i: int| 0 <= i < ids.len() && ids[i] == id;
                if i < ids.len() - 1 {
                    assert(ids.drop_last()[i] == id);
                }
            }
            if ids.drop_last().to_set().contains(id) {
                let i = choose|i: int| 0 <= i < ids.drop_last().len() && ids.drop_last()[i] == id;
                assert(ids[i] == id);
            }
            if id == ids.last() {
                assert(ids[ids.len() - 1] == id);
            }
        }
        assert(after_registers(live, ids, handles).dom() =~= live.dom().union(ids.to_set()));
    }
}

/// After `ids.len()` registrations on an empty table, of sessions no two of
/// which share an identity, every snapshot lists `ids.len()` sessions, no
/// identity twice.
pub proof fn law_snapshot_counts_registers(
    ids: Seq<usize>,
    handles: Seq<UnboundedSender<ChatEvent>>,
    pairs: Seq<(usize, &UnboundedSender<ChatEvent>)>,
)
    requires
        ids.len() == handles.len(),
        ids.no_duplicates(),
        is_snapshot_of(pairs, after_registers(Map::empty(), ids, handles)),
    ensures
        pairs.len() == ids.len(),
        forall|i: int, j: int|
            0 <= i < j < pairs.len() ==> (#[trigger] pairs[i]).0 != (#[trigger] pairs[j]).0,
{
    let empty = Map::<usize, UnboundedSender<ChatEvent>>::empty();
    law_registers_make_live(empty, ids, handles);
    assert(empty.dom().union(ids.to_set()) =~= ids.to_set());
    ids.unique_seq_to_set();
}

/// Unregistering sessions that are live, no identity twice, takes exactly
/// them out: as many sessions fewer are live afterwards.
pub proof fn law_unregisters_take_out(live: Map<usize, UnboundedSender<ChatEvent>>, ids: Seq<usize>)
    requires
        live.dom().finite(),
        ids.no_duplicates(),
        forall|i: int| 0 <= i < ids.len() ==> live.contains_key(#[trigger] ids[i]),
    ensures
        after_unregisters(live, ids).dom() == live.dom().difference(ids.to_set()),
        after_unregisters(live, ids).len() == live.len() - ids.len(),
    decreases ids.len(),
{
    if ids.len() == 0 {
        assert(ids.to_set() =~= Set::<usize>::empty());
        assert(live.dom().difference(ids.to_set()) =~= live.dom());
    } else {
        let front = ids.drop_last();
        law_unregisters_take_out(live, front);
        assert forall|id: usize| ids.to_set().contains(id) <==> (front.to_set().contains(id) || id
            == ids.last()) by {
            if ids.to_set().contains(id) {
                let i = choose|i: int| 0 <= i < ids.len() && ids[i] == id;
                if i < ids.len() - 1 {
                    assert(front[i] == id);
                }
            }
            if front.to_set().contains(id) {
                let i = choose|i: int| 0 <= i < front.len() && front[i] == id;
                assert(ids[i] == id);
            }
            if id == ids.last() {
                assert(ids[ids.len() - 1] == id);
            }
        }
        assert(!front.to_set().contains(ids.last())) by {
            if front.to_set().contains(ids.last()) {
                let i = choose|i: int| 0 <= i < front.len() && front[i] == ids.last();
                assert(ids[i] == ids[ids.len() - 1]);
            }
        }
        assert(live.contains_key(ids[ids.len() - 1]));
        assert(after_unregisters(live, front).dom().contains(ids.last()));
        assert(after_unregisters(live, ids).dom() =~= live.dom().difference(ids.to_set()));
    }
}

/// After `ids.len()` registrations on an empty table, of sessions no two of
/// which share an identity, and the unregistration of `gone.len()` of them,
/// none twice, every snapshot lists `ids.len() - gone.len()` sessions.
pub proof fn law_snapshot_counts_unregisters(
    ids: Seq<usize>,
    handles: Seq<UnboundedSender<ChatEvent>>,
    gone: Seq<usize>,
    pairs: Seq<(usize, &UnboundedSender<ChatEvent>)>,
)
    requires
        ids.len() == handles.len(),
        ids.no_duplicates(),
        gone.no_duplicates(),
        forall|i: int| 0 <= i < gone.len() ==> ids.contains(#[trigger] gone[i]),
        is_snapshot_of(
            pairs,
            after_unregisters(after_registers(Map::empty(), ids, handles), gone),
        ),
    ensures
        gone.len() <= ids.len(),
        pairs.len() == ids.len() - gone.len(),
{
    let empty = Map::<usize, UnboundedSender<ChatEvent>>::empty();
    let full = after_registers(empty, ids, handles);
    law_registers_make_live(empty, ids, handles);
    assert(empty.dom().union(ids.to_set()) =~= ids.to_set());
    ids.unique_seq_to_set();
    assert forall|i: int| 0 <= i < gone.len() implies full.contains_key(#[trigger] gone[i]) by {
        assert(ids.contains(gone[i]));
    }
    law_unregisters_take_out(full, gone);
}

/// Unregistering a session a second time changes nothing.
pub proof fn law_unregister_is_idempotent(live: Map<usize, UnboundedSender<ChatEvent>>, id: usize)
    ensures
        live.remove(id).remove(id) == live.remove(id),
        !live.remove(id).contains_key(id),
{
    assert(live.remove(id).remove(id) =~= live.remove(id));
}

} // verus!
