use hypernote::registry::PeerRegistry;
use hypernote::transport::{
    connection_closed, connection_opened, on_read_frame, OutboundQueue, ReadStep, WsFrame,
};
use tokio::sync::mpsc::unbounded_channel;

#[test]
fn outbound_queue_delivers_prefix_in_order() {
    let mut q = OutboundQueue::new();
    for msg in ["m1", "m2", "m3", "m4", "m5"] {
        q.enqueue(msg.to_string());
    }
    let mut written = Vec::new();
    for _ in 0..3 {
        written.push(q.next_to_write().expect("a pending message"));
    }
    assert_eq!(written, vec!["m1", "m2", "m3"]);
    q.cancel();
    assert!(q.next_to_write().is_none());
}

#[test]
fn outbound_queue_drains_everything_without_cancel() {
    let mut q = OutboundQueue::new();
    q.enqueue("a".to_string());
    q.enqueue("b".to_string());
    assert_eq!(q.next_to_write().as_deref(), Some("a"));
    assert_eq!(q.next_to_write().as_deref(), Some("b"));
    assert!(q.next_to_write().is_none());
}

#[test]
fn text_frames_are_forwarded_verbatim() {
    let step = on_read_frame("p1", WsFrame::Text("payload".to_string()));
    match step {
        ReadStep::Emit(ev) => {
            assert_eq!(ev.peer_id, "p1");
            assert_eq!(ev.payload, "payload");
        }
        _ => panic!("a text frame must be forwarded"),
    }
}

#[test]
fn close_and_error_frames_terminate_the_session() {
    assert!(matches!(
        on_read_frame("p1", WsFrame::Close),
        ReadStep::Terminate
    ));
    assert!(matches!(
        on_read_frame("p1", WsFrame::ReadError),
        ReadStep::Terminate
    ));
    assert!(matches!(on_read_frame("p1", WsFrame::Other), ReadStep::Skip));
}

#[test]
fn session_lifecycle_registers_then_deregisters() {
    let mut reg = PeerRegistry::new();
    let (tx, _rx) = unbounded_channel::<String>();
    let (peer_id, connected) = connection_opened(&mut reg, "10.0.0.9:4747".to_string(), tx);
    assert_eq!(connected.peer_id, peer_id);
    assert_eq!(connected.addr, "10.0.0.9:4747");
    assert!(reg.list().iter().any(|p| p.peer_id == peer_id));

    let disconnected = connection_closed(&mut reg, &peer_id);
    assert_eq!(disconnected.peer_id, peer_id);
    assert!(!reg.list().iter().any(|p| p.peer_id == peer_id));
}

#[test]
fn fresh_sessions_get_distinct_peer_ids() {
    let mut reg = PeerRegistry::new();
    let (tx1, _rx1) = unbounded_channel::<String>();
    let (tx2, _rx2) = unbounded_channel::<String>();
    let (id1, _) = connection_opened(&mut reg, "h:1".to_string(), tx1);
    let (id2, _) = connection_opened(&mut reg, "h:2".to_string(), tx2);
    assert_ne!(id1, id2);
    assert_eq!(reg.list().len(), 2);
}
