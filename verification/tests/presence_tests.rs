use gamehub::player::{Player, PlayerManager};

fn record(name: &str, server: &str) -> Player {
    Player {
        data: String::new(),
        name: name.to_string(),
        server: server.to_string(),
    }
}

// A rejoin under the same name keeps one record and attributes it to the
// later server: evicting the first server leaves the player in place,
// evicting the second removes it.
#[test]
fn rejoin_is_last_write_wins() {
    let mut store = PlayerManager::new();
    store.add_player(record("P", "srv1"));
    store.add_player(record("P", "srv2"));
    let names = store.get_players();
    assert_eq!(names, vec!["P".to_string()]);

    store.remove_players_by_server("srv1");
    assert_eq!(store.get_players(), vec!["P".to_string()]);
    store.remove_players_by_server("srv2");
    assert_eq!(store.get_players(), Vec::<String>::new());
}

// Evicting one server's records leaves every other record untouched.
#[test]
fn server_eviction_spares_other_origins() {
    let mut store = PlayerManager::new();
    store.add_player(record("Alice", "srv1"));
    store.add_player(record("Bob", "srv1"));
    store.add_player(record("Carol", "srv2"));
    store.remove_players_by_server("srv1");
    assert_eq!(store.get_players(), vec!["Carol".to_string()]);
}

// Two players from the same server: evicting that server empties the
// snapshot.
#[test]
fn eviction_takes_every_record_of_the_origin() {
    let mut store = PlayerManager::new();
    store.add_player(record("Alice", "A"));
    store.add_player(record("Bob", "A"));
    store.remove_players_by_server("A");
    assert_eq!(store.get_players(), Vec::<String>::new());
}

#[test]
fn leave_removes_only_the_named_player() {
    let mut store = PlayerManager::new();
    store.add_player(record("Alice", "A"));
    store.add_player(record("Bob", "A"));
    store.remove_player(record("Alice", "A"));
    assert_eq!(store.get_players(), vec!["Bob".to_string()]);
    // leaving again changes nothing
    store.remove_player(record("Alice", "A"));
    assert_eq!(store.get_players(), vec!["Bob".to_string()]);
}

#[test]
fn clearing_empties_the_store() {
    let mut store = PlayerManager::new();
    store.add_player(record("Alice", "A"));
    store.add_player(record("Bob", "B"));
    store._remove_player_all();
    assert_eq!(store.get_players(), Vec::<String>::new());
}
