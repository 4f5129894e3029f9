//! The broadcast hub: the single sequential point of mutation for the
//! connection registry, and the fan-out of chat text to every registered
//! connection.
//!
//! The hub stores, per open connection, the id it assigned and an opaque
//! outbound channel handle of type `C`.  Processing an event either
//! mutates the registry (`connect`, `disconnect`) or produces a delivery
//! plan (`client_message`, `broadcast_message`): one entry per currently
//! registered connection, which the caller then performs, so that a slow
//! or dead receiver never stalls the hub itself.

use vstd::prelude::*;

use crate::seq_facts::{
    distinct_by, lemma_filter_all_true, lemma_filter_distinct_by, lemma_filter_elems_contained,
    lemma_remove_one_is_filter,
};

verus! {

/// One registered connection: the id the hub assigned and the handle the
/// caller uses to push text to that connection.
pub struct Connection<C> {
    pub id: u64,
    pub channel: C,
}

/// The registry ids present in `s`.
pub open spec fn ids_of<C>(s: Seq<Connection<C>>) -> Set<u64> {
    Set::new(|id: u64| exists|i: int| 0 <= i < s.len() && (#[trigger] s[i]).id == id)
}

/// The registry after a connect: the new connection is appended, with
/// the next free id.
pub open spec fn spec_connect<C>(s: Seq<Connection<C>>, id: u64, ch: C) -> Seq<Connection<C>> {
    s.push(Connection { id, channel: ch })
}

/// The registry after a disconnect: the connection with that id is gone,
/// all others are untouched, in order.
pub open spec fn spec_disconnect<C>(s: Seq<Connection<C>>, id: u64) -> Seq<Connection<C>> {
    s.filter(|c: Connection<C>| c.id != id)
}

/// Central coordinator owning the connection registry.
pub struct BroadcastHub<C> {
    next_id: u64,
    connections: Vec<Connection<C>>,
}

impl<C> BroadcastHub<C> {
    /// The registered connections, in registration order.
    pub closed spec fn conns(&self) -> Seq<Connection<C>> {
        self.connections@
    }

    /// The id the next connect will be assigned.
    pub closed spec fn spec_next_id(&self) -> u64 {
        self.next_id
    }

    /// Registry invariant: ids start at 1, every registered id was
    /// assigned before the next free one, and no id is registered twice.
    pub open spec fn wf(&self) -> bool {
        &&& 1 <= self.spec_next_id()
        &&& forall|i: int|
            0 <= i < self.conns().len() ==> (#[trigger] self.conns()[i]).id
                < self.spec_next_id()
        &&& distinct_by(self.conns(), |c: Connection<C>| c.id)
    }

    /// A hub with an empty registry; the first connection will get id 1.
    pub fn new() -> (r: BroadcastHub<C>)
        ensures
            r.wf(),
            r.conns() == Seq::<Connection<C>>::empty(),
            r.spec_next_id() == 1,
    {
        BroadcastHub { next_id: 1, connections: Vec::new() }
    }

    /// Whether an id is still available; ids are never reused, so after
    /// the last one is handed out the hub cannot accept registrations.
    pub fn can_connect(&self) -> (r: bool)
        ensures
            r == (self.spec_next_id() < u64::MAX),
    {
        self.next_id < u64::MAX
    }

    /// How many connections are currently registered.
    pub fn connection_count(&self) -> (n: usize)
        ensures
            n == self.conns().len(),
    {
        self.connections.len()
    }

    /// Registers a connection: stores the channel under a fresh id,
    /// monotonically increasing, never reused while the hub lives, and
    /// returns that id.
    pub fn connect(&mut self, channel: C) -> (id: u64)
        requires
            old(self).wf(),
            old(self).spec_next_id() < u64::MAX,
        ensures
            final(self).wf(),
            id == old(self).spec_next_id(),
            final(self).spec_next_id() == id + 1,
            final(self).conns() == spec_connect(old(self).conns(), id, channel),
            !ids_of(old(self).conns()).contains(id),
    {
        let id = self.next_id;
        self.next_id = self.next_id + 1;
        self.connections.push(Connection { id, channel });
        proof {
            assert forall|i: int, j: int|
                0 <= i < j < self.conns().len() implies (#[trigger] self.conns()[i]).id != (
            #[trigger] self.conns()[j]).id by {
                if j < old(self).conns().len() {
                    assert(self.conns()[i] == old(self).conns()[i]);
                    assert(self.conns()[j] == old(self).conns()[j]);
                } else {
                    assert(self.conns()[i] == old(self).conns()[i]);
                }
            }
        }
        id
    }

    /// Deregisters the connection with this id.  Disconnecting an id
    /// that is not registered is a no-op.
    #[verifier::loop_isolation(false)]
    pub fn disconnect(&mut self, id: u64)
        requires
            old(self).wf(),
        ensures
            final(self).wf(),
            final(self).conns() == spec_disconnect(old(self).conns(), id),
            final(self).spec_next_id() == old(self).spec_next_id(),
    {
        let ghost pred = |c: Connection<C>| c.id != id;
        let n = self.connections.len();
        let mut i: usize = 0;
        while i < n
            invariant
                n == self.connections.len(),
                i <= n,
                self.connections@ == old(self).conns(),
                self.spec_next_id() == old(self).spec_next_id(),
                forall|k: int| 0 <= k < i ==> (#[trigger] old(self).conns()[k]).id != id,
            decreases n - i,
        {
            if self.connections[i].id == id {
                self.connections.remove(i);
                proof {
                    assert forall|k: int|
                        0 <= k < old(self).conns().len() && k != i implies pred(
                        old(self).conns()[k],
                    ) by {
                        if k > i {
                            assert(old(self).conns()[i as int].id != old(self).conns()[k].id);
                        }
                    }
                    lemma_remove_one_is_filter(old(self).conns(), pred, i as int);
                    lemma_filter_distinct_by(old(self).conns(), |c: Connection<C>| c.id, pred);
                    lemma_filter_elems_contained(old(self).conns(), pred);
                }
                return ;
            }
            i += 1;
        }
        proof {
            lemma_filter_all_true(old(self).conns(), pred);
        }
    }

    /// The fan-out plan for one broadcast: one delivery attempt per
    /// currently registered connection, in registration order, each
    /// carrying the connection's id, its channel and the text.  A failed
    /// attempt is the performer's to swallow; it never shortens the plan.
    pub fn broadcast_message(&self, text: &str) -> (r: Vec<(u64, &C, String)>)
        ensures
            r@.len() == self.conns().len(),
            forall|i: int|
                0 <= i < r@.len() ==> (#[trigger] r@[i]).0 == self.conns()[i].id,
            forall|i: int| 0 <= i < r@.len() ==> *(#[trigger] r@[i]).1 == self.conns()[i].channel,
            forall|i: int| 0 <= i < r@.len() ==> (#[trigger] r@[i]).2@ == text@,
    {
        let mut r: Vec<(u64, &C, String)> = Vec::new();
        let n = self.connections.len();
        let mut i: usize = 0;
        while i < n
            invariant
                n == self.connections.len(),
                i <= n,
                r@.len() == i,
                forall|k: int| 0 <= k < i ==> (#[trigger] r@[k]).0 == self.conns()[k].id,
                forall|k: int| 0 <= k < i ==> *(#[trigger] r@[k]).1 == self.conns()[k].channel,
                forall|k: int| 0 <= k < i ==> (#[trigger] r@[k]).2@ == text@,
            decreases n - i,
        {
            let c = &self.connections[i];
            r.push((c.id, &c.channel, text.to_owned()));
            i += 1;
        }
        r
    }

    /// Fan-out for text that arrived on the connection `id`: identical
    /// to `broadcast_message` — the sender is not excluded, and the plan
    /// does not depend on whether `id` is still registered.
    pub fn client_message(&self, id: u64, text: &str) -> (r: Vec<(u64, &C, String)>)
        ensures
            r@.len() == self.conns().len(),
            forall|i: int|
                0 <= i < r@.len() ==> (#[trigger] r@[i]).0 == self.conns()[i].id,
            forall|i: int| 0 <= i < r@.len() ==> *(#[trigger] r@[i]).1 == self.conns()[i].channel,
            forall|i: int| 0 <= i < r@.len() ==> (#[trigger] r@[i]).2@ == text@,
    {
        let _ = id;
        self.broadcast_message(text)
    }
}

/// One registry event, as the law over event sequences speaks of it.
pub enum HubEvent<C> {
    Connect(C),
    Disconnect(u64),
}

/// The registry and the next free id after a fresh hub processes
/// `events` in order (ids wrap if more than `u64::MAX` connects happen;
/// the law below stays away from that).
pub open spec fn run_events<C>(events: Seq<HubEvent<C>>) -> (Seq<Connection<C>>, u64)
    decreases events.len(),
{
    if events.len() == 0 {
        (Seq::<Connection<C>>::empty(), 1u64)
    } else {
        let prev = run_events(events.drop_last());
        match events.last() {
            HubEvent::Connect(ch) => (spec_connect(prev.0, prev.1, ch), ((prev.1 + 1) as u64)),
            HubEvent::Disconnect(id) => (spec_disconnect(prev.0, id), prev.1),
        }
    }
}

/// How many of `events` are connects.
pub open spec fn count_connects<C>(events: Seq<HubEvent<C>>) -> int {
    events.filter(|e: HubEvent<C>| e is Connect).len() as int
}

/// The id the connect at position `i` is assigned: ids start at 1 and
/// each connect takes the next one.
pub open spec fn assigned_id<C>(events: Seq<HubEvent<C>>, i: int) -> int {
    1 + count_connects(events.take(i))
}

/// No event after position `i` disconnects `id`.
pub open spec fn no_later_disconnect<C>(events: Seq<HubEvent<C>>, i: int, id: u64) -> bool {
    forall|j: int|
        i < j < events.len() ==> ((#[trigger] events[j]) matches HubEvent::Disconnect(d) ==> d
            != id)
}

/// Whether, going by the events alone, `id` ought to be active: some
/// connect was assigned it and no later disconnect names it.
pub open spec fn declared_active<C>(events: Seq<HubEvent<C>>, id: u64) -> bool {
    exists|i: int|
        0 <= i < events.len() && (#[trigger] events[i]) is Connect && id == assigned_id(events, i)
            && no_later_disconnect(events, i, id)
}

/// Law: for every sequence of connect and disconnect events processed by
/// a fresh hub, the set of registered ids is exactly the set of connects
/// not yet followed by a matching disconnect — and no id is registered
/// twice.
pub proof fn lemma_active_ids<C>(events: Seq<HubEvent<C>>)
    requires
        events.len() + 1 < u64::MAX,
    ensures
        run_events(events).1 == 1 + count_connects(events),
        forall|k: int|
            0 <= k < run_events(events).0.len() ==> (#[trigger] run_events(events).0[k]).id
                < run_events(events).1,
        distinct_by(run_events(events).0, |c: Connection<C>| c.id),
        forall|id: u64|
            ids_of(run_events(events).0).contains(id) <==> declared_active(events, id),
    decreases events.len(),
{
    broadcast use vstd::seq_lib::group_filter_ensures;

    let is_conn = |e: HubEvent<C>| e is Connect;
    if events.len() == 0 {
        assert(events.filter(is_conn) =~= Seq::<HubEvent<C>>::empty()) by {
            reveal(Seq::filter);
        }
        assert(distinct_by(run_events(events).0, |c: Connection<C>| c.id));
        assert forall|id: u64|
            ids_of(run_events(events).0).contains(id) <==> declared_active(events, id) by {
            assert(!ids_of(Seq::<Connection<C>>::empty()).contains(id));
            assert(!declared_active(events, id));
        }
    } else {
        let prefix = events.drop_last();
        let last = events.last();
        lemma_active_ids::<C>(prefix);
        let prev = run_events(prefix);
        assert(count_connects(prefix) <= prefix.len());
        // positions below the last one look the same in both sequences
        assert forall|i: int| 0 <= i < prefix.len() implies assigned_id(events, i) == assigned_id(
            prefix,
            i,
        ) by {
            assert(events.take(i) =~= prefix.take(i));
        }
        match last {
            HubEvent::Connect(ch) => {
                assert(events.filter(is_conn) == prefix.filter(is_conn).push(last)) by {
                    reveal(Seq::filter);
                }
                let fresh = prev.1;
                let now = run_events(events);
                assert(now.0 == spec_connect(prev.0, fresh, ch) && now.1 == (prev.1 + 1) as u64);
                assert(now.1 == 1 + count_connects(events));
                assert forall|k: int| 0 <= k < now.0.len() implies (#[trigger] now.0[k]).id
                    < now.1 by {
                    if k < prev.0.len() {
                        assert(now.0[k] == prev.0[k]);
                    }
                }
                assert forall|i: int, j: int|
                    0 <= i < j < now.0.len() implies (#[trigger] now.0[i]).id != (
                #[trigger] now.0[j]).id by {
                    if j < prev.0.len() {
                        assert(now.0[i] == prev.0[i] && now.0[j] == prev.0[j]);
                    } else {
                        assert(now.0[i] == prev.0[i]);
                    }
                }
                assert forall|id: u64|
                    ids_of(now.0).contains(id) <==> declared_active(events, id) by {
                    if ids_of(now.0).contains(id) {
                        let k = choose|k: int| 0 <= k < now.0.len() && now.0[k].id == id;
                        if k < prev.0.len() {
                            assert(prev.0[k] == now.0[k]);
                            assert(ids_of(prev.0).contains(id));
                            assert(declared_active(prefix, id));
                            let i = choose|i: int|
                                0 <= i < prefix.len() && (#[trigger] prefix[i]) is Connect && id
                                    == assigned_id(prefix, i) && no_later_disconnect(
                                    prefix,
                                    i,
                                    id,
                                );
                            assert(events[i] == prefix[i]);
                            assert(no_later_disconnect(events, i, id)) by {
                                assert forall|j: int|
                                    i < j < events.len() implies ((#[trigger] events[j]) matches
                                HubEvent::Disconnect(d) ==> d != id) by {
                                    if j < prefix.len() {
                                        assert(events[j] == prefix[j]);
                                    }
                                }
                            }
                            assert(declared_active(events, id));
                        } else {
                            // the connection appended by the last event
                            assert(now.0[k] == (Connection { id: fresh, channel: ch }));
                            let i = events.len() - 1;
                            assert(events[i] is Connect);
                            assert(events.take(i) =~= prefix);
                            assert(id == assigned_id(events, i));
                            assert(no_later_disconnect(events, i, id));
                            assert(declared_active(events, id));
                        }
                    }
                    if declared_active(events, id) {
                        let i = choose|i: int|
                            0 <= i < events.len() && (#[trigger] events[i]) is Connect && id
                                == assigned_id(events, i) && no_later_disconnect(events, i, id);
                        if i == events.len() - 1 {
                            assert(events.take(i) =~= prefix);
                            assert(id == fresh);
                            assert(now.0[prev.0.len() as int].id == id);
                            assert(ids_of(now.0).contains(id));
                        } else {
                            assert(events[i] == prefix[i]);
                            assert(no_later_disconnect(prefix, i, id)) by {
                                assert forall|j: int|
                                    i < j < prefix.len() implies ((#[trigger] prefix[j]) matches
                                HubEvent::Disconnect(d) ==> d != id) by {
                                    assert(events[j] == prefix[j]);
                                }
                            }
                            assert(declared_active(prefix, id));
                            let k = choose|k: int| 0 <= k < prev.0.len() && prev.0[k].id == id;
                            assert(now.0[k] == prev.0[k]);
                            assert(ids_of(now.0).contains(id));
                        }
                    }
                }
            },
            HubEvent::Disconnect(dcid) => {
                let pred = |c: Connection<C>| c.id != dcid;
                assert(events.filter(is_conn) == prefix.filter(is_conn)) by {
                    reveal(Seq::filter);
                }
                let now = run_events(events);
                assert(now.0 == spec_disconnect(prev.0, dcid) && now.1 == prev.1);
                lemma_filter_elems_contained(prev.0, pred);
                assert forall|k: int| 0 <= k < now.0.len() implies (#[trigger] now.0[k]).id
                    < now.1 by {
                    assert(prev.0.contains(now.0[k]));
                    let m = choose|m: int| 0 <= m < prev.0.len() && prev.0[m] == now.0[k];
                    assert(prev.0[m].id < prev.1);
                }
                lemma_filter_distinct_by(prev.0, |c: Connection<C>| c.id, pred);
                assert forall|id: u64|
                    ids_of(now.0).contains(id) <==> declared_active(events, id) by {
                    if ids_of(now.0).contains(id) {
                        let k = choose|k: int| 0 <= k < now.0.len() && now.0[k].id == id;
                        assert(pred(now.0[k]));
                        assert(id != dcid);
                        assert(prev.0.contains(now.0[k]));
                        let m = choose|m: int| 0 <= m < prev.0.len() && prev.0[m] == now.0[k];
                        assert(ids_of(prev.0).contains(id));
                        assert(declared_active(prefix, id));
                        let i = choose|i: int|
                            0 <= i < prefix.len() && (#[trigger] prefix[i]) is Connect && id
                                == assigned_id(prefix, i) && no_later_disconnect(prefix, i, id);
                        assert(events[i] == prefix[i]);
                        assert(no_later_disconnect(events, i, id)) by {
                            assert forall|j: int|
                                i < j < events.len() implies ((#[trigger] events[j]) matches
                            HubEvent::Disconnect(d) ==> d != id) by {
                                if j < prefix.len() {
                                    assert(events[j] == prefix[j]);
                                } else {
                                    assert(events[j] == last);
                                }
                            }
                        }
                        assert(declared_active(events, id));
                    }
                    if declared_active(events, id) {
                        let i = choose|i: int|
                            0 <= i < events.len() && (#[trigger] events[i]) is Connect && id
                                == assigned_id(events, i) && no_later_disconnect(events, i, id);
                        assert(i < events.len() - 1);
                        // the last event names dcid, so an active id differs from it
                        assert(events[events.len() - 1] == last);
                        assert(id != dcid);
                        assert(events[i] == prefix[i]);
                        assert(no_later_disconnect(prefix, i, id)) by {
                            assert forall|j: int|
                                i < j < prefix.len() implies ((#[trigger] prefix[j]) matches
                            HubEvent::Disconnect(d) ==> d != id) by {
                                assert(events[j] == prefix[j]);
                            }
                        }
                        assert(declared_active(prefix, id));
                        let k = choose|k: int| 0 <= k < prev.0.len() && prev.0[k].id == id;
                        assert(pred(prev.0[k]));
                        assert(prev.0.filter(pred).contains(prev.0[k]));
                        let m = choose|m: int|
                            0 <= m < now.0.len() && now.0[m] == prev.0[k];
                        assert(ids_of(now.0).contains(id));
                    }
                }
            },
        }
    }
}

/// Law: after a disconnect the registry holds no entry under that id —
/// the hub keeps no channel handle past deregistration, so no later
/// fan-out can name the departed connection.
pub proof fn lemma_disconnect_drops_the_channel<C>(s: Seq<Connection<C>>, id: u64)
    ensures
        forall|i: int|
            0 <= i < spec_disconnect(s, id).len() ==> (#[trigger] spec_disconnect(s, id)[i]).id
                != id,
{
    broadcast use vstd::seq_lib::group_filter_ensures;

}

/// Law: disconnecting an id a second time changes nothing — after the
/// first disconnect no connection with that id is left, so the second is
/// the identity on the registry.
pub proof fn lemma_disconnect_idempotent<C>(s: Seq<Connection<C>>, id: u64)
    ensures
        spec_disconnect(spec_disconnect(s, id), id) == spec_disconnect(s, id),
{
    broadcast use vstd::seq_lib::group_filter_ensures;

    let pred = |c: Connection<C>| c.id != id;
    lemma_filter_all_true(s.filter(pred), pred);
}

} // verus!
