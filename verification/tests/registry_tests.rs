use hypernote::registry::{broadcast_ack, PeerRegistry};
use tokio::sync::mpsc::error::TryRecvError;
use tokio::sync::mpsc::unbounded_channel;

#[test]
fn registered_peer_is_listed_and_deregistered_peer_is_not() {
    let mut reg = PeerRegistry::new();
    let (tx, _rx) = unbounded_channel::<String>();
    reg.register("p1".to_string(), "10.0.0.2:4747".to_string(), tx);
    let listed = reg.list();
    assert!(listed.iter().any(|p| p.peer_id == "p1"));
    assert_eq!(listed.len(), 1);
    assert_eq!(listed[0].ws_url, "ws://10.0.0.2:4747");
    assert_eq!(listed[0].status, "connected");

    reg.deregister("p1");
    let listed = reg.list();
    assert!(!listed.iter().any(|p| p.peer_id == "p1"));
    assert_eq!(listed.len(), 0);
}

#[test]
fn send_to_unknown_peer_reports_peer_not_found() {
    let reg = PeerRegistry::new();
    let ack = reg.send("ghost", "payload".to_string());
    assert!(!ack.accepted);
    assert_eq!(ack.reason.as_deref(), Some("peer not found: ghost"));
}

#[test]
fn send_delivers_to_live_peer() {
    let mut reg = PeerRegistry::new();
    let (tx, mut rx) = unbounded_channel::<String>();
    reg.register("p1".to_string(), "h:1".to_string(), tx);
    let ack = reg.send("p1", "hello".to_string());
    assert!(ack.accepted);
    assert!(ack.reason.is_none());
    assert_eq!(rx.try_recv().unwrap(), "hello");
}

#[test]
fn send_to_closed_channel_reports_channel_closed() {
    let mut reg = PeerRegistry::new();
    let (tx, rx) = unbounded_channel::<String>();
    drop(rx);
    reg.register("p1".to_string(), "h:1".to_string(), tx);
    let ack = reg.send("p1", "hello".to_string());
    assert!(!ack.accepted);
    assert_eq!(ack.reason.as_deref(), Some("channel closed"));
}

#[test]
fn send_preserves_submission_order_per_peer() {
    let mut reg = PeerRegistry::new();
    let (tx, mut rx) = unbounded_channel::<String>();
    reg.register("p1".to_string(), "h:1".to_string(), tx);
    assert!(reg.send("p1", "first".to_string()).accepted);
    assert!(reg.send("p1", "second".to_string()).accepted);
    assert!(reg.send("p1", "third".to_string()).accepted);
    assert_eq!(rx.try_recv().unwrap(), "first");
    assert_eq!(rx.try_recv().unwrap(), "second");
    assert_eq!(rx.try_recv().unwrap(), "third");
    assert!(matches!(rx.try_recv(), Err(TryRecvError::Empty)));
}

#[test]
fn broadcast_counts_unreachable_peers() {
    let mut reg = PeerRegistry::new();
    let (tx1, mut rx1) = unbounded_channel::<String>();
    let (tx2, mut rx2) = unbounded_channel::<String>();
    let (tx3, rx3) = unbounded_channel::<String>();
    drop(rx3);
    reg.register("p1".to_string(), "h:1".to_string(), tx1);
    reg.register("p2".to_string(), "h:2".to_string(), tx2);
    reg.register("p3".to_string(), "h:3".to_string(), tx3);

    let ack = reg.broadcast("update");
    assert!(ack.accepted);
    assert_eq!(ack.reason.as_deref(), Some("1 peer(s) unreachable"));

    assert_eq!(rx1.try_recv().unwrap(), "update");
    assert!(matches!(rx1.try_recv(), Err(TryRecvError::Empty)));
    assert_eq!(rx2.try_recv().unwrap(), "update");
    assert!(matches!(rx2.try_recv(), Err(TryRecvError::Empty)));
}

#[test]
fn broadcast_to_healthy_peers_reports_no_reason() {
    let mut reg = PeerRegistry::new();
    let (tx1, mut rx1) = unbounded_channel::<String>();
    reg.register("p1".to_string(), "h:1".to_string(), tx1);
    let ack = reg.broadcast("update");
    assert!(ack.accepted);
    assert!(ack.reason.is_none());
    assert_eq!(rx1.try_recv().unwrap(), "update");
}

#[test]
fn broadcast_ack_renders_each_failure_count() {
    let ack = broadcast_ack(0);
    assert!(ack.accepted);
    assert!(ack.reason.is_none());

    let ack = broadcast_ack(1);
    assert!(ack.accepted);
    assert_eq!(ack.reason.as_deref(), Some("1 peer(s) unreachable"));

    let ack = broadcast_ack(12);
    assert!(ack.accepted);
    assert_eq!(ack.reason.as_deref(), Some("12 peer(s) unreachable"));
}

#[test]
fn reregistering_an_id_replaces_the_channel() {
    let mut reg = PeerRegistry::new();
    let (tx1, rx1) = unbounded_channel::<String>();
    let (tx2, mut rx2) = unbounded_channel::<String>();
    drop(rx1);
    reg.register("p1".to_string(), "h:1".to_string(), tx1);
    reg.register("p1".to_string(), "h:2".to_string(), tx2);
    assert_eq!(reg.list().len(), 1);
    let ack = reg.send("p1", "hello".to_string());
    assert!(ack.accepted);
    assert_eq!(rx2.try_recv().unwrap(), "hello");
}
