use gamehub::hub::BroadcastHub;

// Ids are assigned from 1, monotonically, and never reused.
#[test]
fn ids_start_at_one_and_are_never_reused() {
    let mut hub: BroadcastHub<String> = BroadcastHub::new();
    assert!(hub.can_connect());
    let a = hub.connect("chan-a".to_string());
    let b = hub.connect("chan-b".to_string());
    assert_eq!(a, 1);
    assert_eq!(b, 2);
    hub.disconnect(a);
    let c = hub.connect("chan-c".to_string());
    assert_eq!(c, 3);
    assert_eq!(hub.connection_count(), 2);
}

// After a sequence of connects and disconnects, the registered ids are
// exactly the connects not yet disconnected.
#[test]
fn active_ids_match_the_event_history() {
    let mut hub: BroadcastHub<u32> = BroadcastHub::new();
    let a = hub.connect(10);
    let b = hub.connect(20);
    let c = hub.connect(30);
    hub.disconnect(b);
    let plan = hub.broadcast_message("ping");
    let ids: Vec<u64> = plan.iter().map(|d| d.0).collect();
    assert_eq!(ids, vec![a, c]);
}

// Broadcasting with n connections registered yields exactly n delivery
// attempts, each carrying the text.
#[test]
fn broadcast_attempts_every_registered_connection() {
    let mut hub: BroadcastHub<String> = BroadcastHub::new();
    hub.connect("one".to_string());
    hub.connect("two".to_string());
    hub.connect("three".to_string());
    let plan = hub.broadcast_message("hello");
    assert_eq!(plan.len(), 3);
    for (_, channel, text) in &plan {
        assert_eq!(text, "hello");
        assert!(["one", "two", "three"].contains(&channel.as_str()));
    }
    let channels: Vec<&str> = plan.iter().map(|d| d.1.as_str()).collect();
    assert_eq!(channels, vec!["one", "two", "three"]);
}

// A second disconnect of the same id has no observable effect.
#[test]
fn disconnect_is_idempotent() {
    let mut hub: BroadcastHub<u32> = BroadcastHub::new();
    let a = hub.connect(1);
    let b = hub.connect(2);
    hub.disconnect(a);
    let before: Vec<u64> = hub.broadcast_message("x").iter().map(|d| d.0).collect();
    hub.disconnect(a);
    let after: Vec<u64> = hub.broadcast_message("x").iter().map(|d| d.0).collect();
    assert_eq!(before, after);
    assert_eq!(after, vec![b]);
    assert_eq!(hub.connection_count(), 1);
}

// Disconnecting an id that was never assigned is a no-op too.
#[test]
fn disconnect_of_unknown_id_is_a_no_op() {
    let mut hub: BroadcastHub<u32> = BroadcastHub::new();
    hub.connect(1);
    hub.disconnect(999);
    assert_eq!(hub.connection_count(), 1);
}

// Two connections both receive a client message, including the sender;
// after the first disconnects, only the second is attempted.
#[test]
fn client_message_reaches_everyone_then_only_the_survivor() {
    let mut hub: BroadcastHub<String> = BroadcastHub::new();
    let id1 = hub.connect("sock-1".to_string());
    let id2 = hub.connect("sock-2".to_string());
    assert_eq!(id1, 1);
    assert_eq!(id2, 2);

    let plan = hub.client_message(id1, "hi");
    assert_eq!(plan.len(), 2);
    assert!(plan.iter().all(|d| d.2 == "hi"));
    let targets: Vec<&str> = plan.iter().map(|d| d.1.as_str()).collect();
    assert_eq!(targets, vec!["sock-1", "sock-2"]);

    hub.disconnect(id1);
    let plan = hub.client_message(id2, "solo");
    assert_eq!(plan.len(), 1);
    assert_eq!(plan[0].0, id2);
    assert_eq!(plan[0].1, "sock-2");
    assert_eq!(plan[0].2, "solo");
}
