//! Presence index: which player is currently on which origin server.
//!
//! `PlayerManager` is a keyed store with the player name as key: at most
//! one record per name, a later join under the same name overwrites the
//! earlier one.  It is mutated only through the hub's sequential event
//! processing; the event structs (`PlayerJoin`, `PlayerLeft`,
//! `PlayersGet`, `PlayersRemoveByServer`) are the vocabulary those events
//! arrive in.

use vstd::prelude::*;

use crate::seq_facts::{
    distinct_by, lemma_filter_all_true, lemma_filter_distinct_by, lemma_remove_one_is_filter,
};
use crate::strutil::str_eq;

verus! {

/// One presence fact: a named player, the server it came from, and the
/// free-form data that travelled with the announcement.
pub struct Player {
    pub data: String,
    pub name: String,
    pub server: String,
}

/// Store of current presence records, at most one per player name.
pub struct PlayerManager {
    players: Vec<Player>,
}

impl View for PlayerManager {
    type V = Seq<Player>;

    closed spec fn view(&self) -> Seq<Player> {
        self.players@
    }
}

/// No player name occurs twice in `s`.
pub open spec fn distinct_names(s: Seq<Player>) -> bool {
    distinct_by(s, |p: Player| p.name@)
}

/// The record sequence after a join: any record under the same name gives
/// way, the new record stands at the end (last write wins).
pub open spec fn spec_add(s: Seq<Player>, p: Player) -> Seq<Player> {
    s.filter(|q: Player| q.name@ != p.name@).push(p)
}

/// The record sequence after a leave: the named record is gone, all other
/// records are untouched, in order.
pub open spec fn spec_remove(s: Seq<Player>, name: Seq<char>) -> Seq<Player> {
    s.filter(|q: Player| q.name@ != name)
}

/// The record sequence after a server's bulk eviction: every record with
/// that origin is gone, all others are untouched, in order.
pub open spec fn spec_remove_server(s: Seq<Player>, server: Seq<char>) -> Seq<Player> {
    s.filter(|q: Player| q.server@ != server)
}

impl PlayerManager {
    /// An empty store, trivially free of duplicate names.
    pub fn new() -> (r: PlayerManager)
        ensures
            r@ == Seq::<Player>::empty(),
            distinct_names(r@),
    {
        PlayerManager { players: Vec::new() }
    }

    /// Drops the record stored under `name`, if any; every other record
    /// stays, in order.
    #[verifier::loop_isolation(false)]
    fn evict_name(&mut self, name: &str)
        requires
            distinct_names(old(self)@),
        ensures
            final(self)@ == spec_remove(old(self)@, name@),
            distinct_names(final(self)@),
            forall|k: int|
                0 <= k < final(self)@.len() ==> (#[trigger] final(self)@[k]).name@ != name@,
    {
        let ghost pred = |q: Player| q.name@ != name@;
        let n = self.players.len();
        let mut i: usize = 0;
        while i < n
            invariant
                n == self.players.len(),
                i <= n,
                self.players@ == old(self)@,
                distinct_names(old(self)@),
                forall|k: int| 0 <= k < i ==> (#[trigger] old(self)@[k]).name@ != name@,
            decreases n - i,
        {
            if str_eq(self.players[i].name.as_str(), name) {
                self.players.remove(i);
                proof {
                    assert forall|k: int|
                        0 <= k < old(self)@.len() && k != i implies pred(old(self)@[k]) by {
                        if k > i {
                            assert(old(self)@[i as int].name@ != old(self)@[k].name@);
                        }
                    }
                    lemma_remove_one_is_filter(old(self)@, pred, i as int);
                    lemma_filter_distinct_by(old(self)@, |p: Player| p.name@, pred);
                    crate::seq_facts::lemma_filter_elems_contained(old(self)@, pred);
                }
                return ;
            }
            i += 1;
        }
        proof {
            lemma_filter_all_true(old(self)@, pred);
        }
    }

    /// Inserts `player` under its name; an existing record under the same
    /// name is overwritten, all other records are untouched.
    pub fn add_player(&mut self, player: Player)
        requires
            distinct_names(old(self)@),
        ensures
            final(self)@ == spec_add(old(self)@, player),
            distinct_names(final(self)@),
    {
        let ghost orig = self@;
        self.evict_name(player.name.as_str());
        let ghost evicted = self@;
        self.players.push(player);
        proof {
            assert forall|i: int, j: int|
                0 <= i < j < self@.len() implies (#[trigger] self@[i]).name@ != (
            #[trigger] self@[j]).name@ by {
                if j < evicted.len() {
                    assert(self@[i] == evicted[i] && self@[j] == evicted[j]);
                    assert(distinct_by(evicted, |p: Player| p.name@));
                } else {
                    assert(self@[i] == evicted[i]);
                }
            }
        }
    }

    /// Removes the record stored under `player`'s name, if any.
    pub fn remove_player(&mut self, player: Player)
        requires
            distinct_names(old(self)@),
        ensures
            final(self)@ == spec_remove(old(self)@, player.name@),
            distinct_names(final(self)@),
    {
        self.evict_name(player.name.as_str());
    }

    /// A snapshot of the names currently present, one per record, in
    /// store order (callers must not rely on the order).
    pub fn get_players(&self) -> (r: Vec<String>)
        ensures
            r@.len() == self@.len(),
            forall|i: int| 0 <= i < r@.len() ==> (#[trigger] r@[i])@ == self@[i].name@,
    {
        let mut r: Vec<String> = Vec::new();
        let n = self.players.len();
        let mut i: usize = 0;
        while i < n
            invariant
                n == self.players.len(),
                i <= n,
                r@.len() == i,
                forall|k: int| 0 <= k < i ==> (#[trigger] r@[k])@ == self.players@[k].name@,
            decreases n - i,
        {
            r.push(self.players[i].name.clone());
            i += 1;
        }
        r
    }

    /// Empties the store.
    pub fn _remove_player_all(&mut self)
        ensures
            final(self)@ == Seq::<Player>::empty(),
            distinct_names(final(self)@),
    {
        self.players.clear();
    }

    /// Drops every record whose origin is `server`; records of other
    /// origins are untouched, in order.  One session termination issues
    /// this once for its declared origin, so a server that goes away
    /// takes all the players it had announced with it.
    #[verifier::loop_isolation(false)]
    pub fn remove_players_by_server(&mut self, server: &str)
        requires
            distinct_names(old(self)@),
        ensures
            final(self)@ == spec_remove_server(old(self)@, server@),
            distinct_names(final(self)@),
    {
        let ghost pred = |q: Player| q.server@ != server@;
        let ghost orig = self@;
        let mut i: usize = 0;
        let ghost mut j: int = 0;
        proof {
            assert(orig.subrange(0, 0).filter(pred) =~= Seq::<Player>::empty()) by {
                reveal(Seq::filter);
                assert(orig.subrange(0, 0) =~= Seq::<Player>::empty());
            }
            assert(self@ =~= orig.subrange(0, 0).filter(pred) + orig.subrange(0, orig.len() as int));
        }
        while i < self.players.len()
            invariant
                0 <= j <= orig.len(),
                i == orig.subrange(0, j).filter(pred).len(),
                self.players@ == orig.subrange(0, j).filter(pred) + orig.subrange(
                    j,
                    orig.len() as int,
                ),
            decreases orig.len() - j,
        {
            proof {
                assert(j < orig.len()) by {
                    Seq::lemma_filter_len(orig.subrange(0, j), pred);
                }
                assert(self.players@[i as int] == orig[j]);
                assert(orig.subrange(0, j + 1) =~= orig.subrange(0, j).push(orig[j]));
                assert(orig.subrange(0, j + 1).filter(pred) == if pred(orig[j]) {
                    orig.subrange(0, j).filter(pred).push(orig[j])
                } else {
                    orig.subrange(0, j).filter(pred)
                }) by {
                    reveal(Seq::filter);
                    assert(orig.subrange(0, j).push(orig[j]).drop_last() =~= orig.subrange(0, j));
                }
            }
            if str_eq(self.players[i].server.as_str(), server) {
                self.players.remove(i);
                proof {
                    let a = orig.subrange(0, j).filter(pred);
                    let b = orig.subrange(j, orig.len() as int);
                    assert((a + b).remove(a.len() as int) =~= a + orig.subrange(
                        j + 1,
                        orig.len() as int,
                    ));
                }
            } else {
                i += 1;
                proof {
                    let a = orig.subrange(0, j).filter(pred);
                    let b = orig.subrange(j, orig.len() as int);
                    assert(a + b =~= a.push(orig[j]) + orig.subrange(j + 1, orig.len() as int));
                }
            }
            proof {
                j = j + 1;
            }
        }
        proof {
            assert(orig.subrange(j, orig.len() as int).len() == 0);
            assert(j == orig.len());
            assert(orig.subrange(0, j) =~= orig);
            assert(self@ =~= orig.filter(pred));
            lemma_filter_distinct_by(orig, |p: Player| p.name@, pred);
        }
    }
}

/// Law: the bulk eviction drops exactly the records of the given
/// origin — no survivor carries it, and every record of another origin
/// survives, however many records the origin had.
pub proof fn lemma_remove_server_exact(s: Seq<Player>, server: Seq<char>)
    ensures
        forall|i: int|
            0 <= i < spec_remove_server(s, server).len() ==> (#[trigger] spec_remove_server(
                s,
                server,
            )[i]).server@ != server,
        forall|i: int|
            0 <= i < s.len() && (#[trigger] s[i]).server@ != server ==> spec_remove_server(
                s,
                server,
            ).contains(s[i]),
{
    broadcast use vstd::seq_lib::group_filter_ensures;

}

/// Appending a record whose name the filter just cleared away keeps the
/// names pairwise different.
pub proof fn lemma_spec_add_distinct(s: Seq<Player>, p: Player)
    requires
        distinct_names(s),
    ensures
        distinct_names(spec_add(s, p)),
{
    broadcast use vstd::seq_lib::group_filter_ensures;

    let pred = |q: Player| q.name@ != p.name@;
    lemma_filter_distinct_by(s, |q: Player| q.name@, pred);
    let f = s.filter(pred);
    assert forall|i: int, j: int|
        0 <= i < j < f.push(p).len() implies (#[trigger] f.push(p)[i]).name@ != (
    #[trigger] f.push(p)[j]).name@ by {
        if j < f.len() {
            assert(f.push(p)[i] == f[i] && f.push(p)[j] == f[j]);
        } else {
            assert(f.push(p)[i] == f[i]);
            assert(pred(f[i]));
        }
    }
}

/// Law: joining `p1` and then `p2` under the same player name leaves
/// exactly one record under that name, and that record is `p2` — the
/// last write wins.
pub proof fn lemma_join_last_write_wins(s: Seq<Player>, p1: Player, p2: Player)
    requires
        distinct_names(s),
        p1.name@ == p2.name@,
    ensures
        distinct_names(spec_add(spec_add(s, p1), p2)),
        spec_add(spec_add(s, p1), p2).len() > 0,
        spec_add(spec_add(s, p1), p2).last() == p2,
        forall|i: int|
            0 <= i < spec_add(spec_add(s, p1), p2).len() && (#[trigger] spec_add(
                spec_add(s, p1),
                p2,
            )[i]).name@ == p2.name@ ==> spec_add(spec_add(s, p1), p2)[i] == p2,
{
    broadcast use vstd::seq_lib::group_filter_ensures;

    lemma_spec_add_distinct(s, p1);
    lemma_spec_add_distinct(spec_add(s, p1), p2);
    let t1 = spec_add(s, p1);
    let pred = |q: Player| q.name@ != p2.name@;
    let f2 = t1.filter(pred);
    assert forall|i: int|
        0 <= i < f2.push(p2).len() && (#[trigger] f2.push(p2)[i]).name@
            == p2.name@ implies f2.push(p2)[i] == p2 by {
        if i < f2.len() {
            assert(f2.push(p2)[i] == f2[i]);
            assert(pred(f2[i]));
        }
    }
}

/// Event: a player announced itself present.
pub struct PlayerJoin {
    pub player: Player,
}

/// Event: a player announced that it left.
pub struct PlayerLeft {
    pub player: Player,
}

/// Event: request for the current snapshot of present player names.
pub struct PlayersGet;

/// Event: a terminating session asks for the bulk eviction of every
/// record its origin server had announced.
pub struct PlayersRemoveByServer {
    pub server: String,
}

} // verus!
