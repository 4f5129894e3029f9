//! The deciding half of the HTTP boundary around the hub: every mutating
//! route compares the caller-supplied token with the configured one
//! before any hub state is touched, and a mismatch leaves the state
//! exactly as it was.
//!
//! The routing, JSON decoding and response writing stay with the web
//! runtime; it hands these functions plain values and performs what they
//! return.

use vstd::prelude::*;

use crate::hub::BroadcastHub;
use crate::player::{distinct_names, spec_add, spec_remove, Player, PlayerManager};
use crate::strutil::str_eq;

verus! {

/// Body of a structured success or error reply at the HTTP boundary.
pub struct ResponseMessage {
    pub kind: String,
    pub message: String,
}

/// Chat posted over HTTP: with the right token, the text is fanned out
/// to every registered connection (the full delivery plan comes back);
/// with a wrong token nothing reaches the hub.
pub fn post_chat<'a, C>(
    hub: &'a BroadcastHub<C>,
    supplied: &str,
    expected: &str,
    text: &str,
) -> (r: Option<Vec<(u64, &'a C, String)>>)
    ensures
        (r is Some) == (supplied@ == expected@),
        r matches Some(plan) ==> plan@.len() == hub.conns().len() && (forall|i: int|
            0 <= i < plan@.len() ==> (#[trigger] plan@[i]).0 == hub.conns()[i].id && *plan@[i].1
                == hub.conns()[i].channel && plan@[i].2@ == text@),
{
    if str_eq(supplied, expected) {
        Some(hub.broadcast_message(text))
    } else {
        None
    }
}

/// Join announced over HTTP: with the right token the record is stored
/// under its player name, overwriting any record of the same name; with
/// a wrong token the store is untouched.
pub fn player_join(store: &mut PlayerManager, supplied: &str, expected: &str, player: Player) -> (
    authorized: bool)
    requires
        distinct_names(old(store)@),
    ensures
        authorized == (supplied@ == expected@),
        authorized ==> final(store)@ == spec_add(old(store)@, player),
        !authorized ==> final(store)@ == old(store)@,
        distinct_names(final(store)@),
{
    if str_eq(supplied, expected) {
        store.add_player(player);
        true
    } else {
        false
    }
}

/// Leave announced over HTTP: with the right token the record under the
/// player's name is dropped; with a wrong token the store is untouched.
pub fn player_left(store: &mut PlayerManager, supplied: &str, expected: &str, player: Player) -> (
    authorized: bool)
    requires
        distinct_names(old(store)@),
    ensures
        authorized == (supplied@ == expected@),
        authorized ==> final(store)@ == spec_remove(old(store)@, player.name@),
        !authorized ==> final(store)@ == old(store)@,
        distinct_names(final(store)@),
{
    if str_eq(supplied, expected) {
        store.remove_player(player);
        true
    } else {
        false
    }
}

/// Presence snapshot over HTTP: with the right token, the current names;
/// with a wrong token, a list holding one empty name.
pub fn players_get(store: &PlayerManager, supplied: &str, expected: &str) -> (r: Vec<String>)
    ensures
        supplied@ == expected@ ==> r@.len() == store@.len() && (forall|i: int|
            0 <= i < r@.len() ==> (#[trigger] r@[i])@ == store@[i].name@),
        supplied@ != expected@ ==> r@.len() == 1 && r@[0]@ == Seq::<char>::empty(),
{
    if str_eq(supplied, expected) {
        store.get_players()
    } else {
        let mut v: Vec<String> = Vec::new();
        v.push(String::new());
        v
    }
}

/// The online check: whether the player is a member of the presence
/// snapshot.  The snapshot's order carries no meaning, so the whole list
/// is scanned; an empty snapshot counts as offline.
pub fn player_check_online(players: &Vec<String>, player: &str) -> (online: bool)
    ensures
        online == (exists|i: int|
            0 <= i < players@.len() && (#[trigger] players@[i])@ == player@),
{
    let n = players.len();
    let mut i: usize = 0;
    while i < n
        invariant
            n == players@.len(),
            i <= n,
            forall|k: int| 0 <= k < i ==> (#[trigger] players@[k])@ != player@,
        decreases n - i,
    {
        if str_eq(players[i].as_str(), player) {
            return true;
        }
        i += 1;
    }
    false
}

} // verus!
