use gamehub::hub::BroadcastHub;
use gamehub::player::{Player, PlayerManager};
use gamehub::player_api::{
    player_check_online, player_join, player_left, players_get, post_chat, ResponseMessage,
};

fn record(name: &str, server: &str) -> Player {
    Player {
        data: String::new(),
        name: name.to_string(),
        server: server.to_string(),
    }
}

// A join with the wrong token never reaches the store: the snapshot is
// the same before and after.
#[test]
fn wrong_token_join_leaves_the_store_untouched() {
    let mut store = PlayerManager::new();
    let ok = player_join(&mut store, "right", "right", record("Alice", "A"));
    assert!(ok);
    let before = store.get_players();

    let ok = player_join(&mut store, "wrong", "right", record("Bob", "A"));
    assert!(!ok);
    assert_eq!(store.get_players(), before);
    assert_eq!(before, vec!["Alice".to_string()]);
}

#[test]
fn wrong_token_left_leaves_the_store_untouched() {
    let mut store = PlayerManager::new();
    player_join(&mut store, "tok", "tok", record("Alice", "A"));
    let ok = player_left(&mut store, "bad", "tok", record("Alice", "A"));
    assert!(!ok);
    assert_eq!(store.get_players(), vec!["Alice".to_string()]);
    let ok = player_left(&mut store, "tok", "tok", record("Alice", "A"));
    assert!(ok);
    assert_eq!(store.get_players(), Vec::<String>::new());
}

// The snapshot route answers the names with the right token and a single
// empty name with a wrong one.
#[test]
fn players_get_is_token_gated() {
    let mut store = PlayerManager::new();
    player_join(&mut store, "tok", "tok", record("Alice", "A"));
    assert_eq!(players_get(&store, "tok", "tok"), vec!["Alice".to_string()]);
    assert_eq!(players_get(&store, "bad", "tok"), vec![String::new()]);
}

// Chat over HTTP is fanned out only with the right token.
#[test]
fn post_chat_is_token_gated() {
    let mut hub: BroadcastHub<String> = BroadcastHub::new();
    hub.connect("sock-1".to_string());
    hub.connect("sock-2".to_string());

    assert!(post_chat(&hub, "bad", "tok", "hello").is_none());

    let plan = post_chat(&hub, "tok", "tok", "hello").unwrap();
    assert_eq!(plan.len(), 2);
    assert!(plan.iter().all(|d| d.2 == "hello"));
}

// The online check is membership in the snapshot, wherever the name
// stands — the snapshot's order carries no meaning.
#[test]
fn check_online_is_membership_in_the_snapshot() {
    let empty: Vec<String> = Vec::new();
    assert!(!player_check_online(&empty, "Alice"));
    let names = vec!["Bob".to_string(), "Alice".to_string()];
    assert!(player_check_online(&names, "Alice"));
    assert!(player_check_online(&names, "Bob"));
    assert!(!player_check_online(&names, "Carol"));
}

#[test]
fn response_message_carries_its_fields() {
    let r = ResponseMessage {
        kind: "success".to_string(),
        message: "ok".to_string(),
    };
    assert_eq!(r.kind, "success");
    assert_eq!(r.message, "ok");
}
