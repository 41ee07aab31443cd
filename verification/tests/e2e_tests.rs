use hypernote::facade::AppState;
use hypernote::transport::{connection_closed, connection_opened, on_read_frame, ReadStep, WsFrame};

#[test]
fn empty_join_target_is_rejected_without_dialing() {
    let state = AppState::new("self-id".to_string());
    let (ack, dial) = state.join_workspace("", "box", None);
    assert!(!ack.accepted);
    assert_eq!(ack.reason.as_deref(), Some("target is empty"));
    assert!(dial.is_none());
}

#[test]
fn joining_own_listen_target_is_rejected() {
    let state = AppState::new("self-id".to_string());
    let (ack, dial) = state.join_workspace("localhost:4747", "box", None);
    assert!(!ack.accepted);
    assert_eq!(
        ack.reason.as_deref(),
        Some("cannot join your own workspace target")
    );
    assert!(dial.is_none());
}

#[test]
fn invalid_join_target_reports_normalization_error() {
    let state = AppState::new("self-id".to_string());
    let (ack, dial) = state.join_workspace("ws://host", "box", None);
    assert!(!ack.accepted);
    assert_eq!(ack.reason.as_deref(), Some("target must be ws://host:port"));
    assert!(dial.is_none());
}

// Two instances on one host, discovery disabled. B listens on 4748; self-join
// detection is keyed to 4747 alone, so A's join of localhost:4748 is
// accepted. The established connection is an in-process pair here: what A's
// write loop takes off the peer's queue is handed to B's read loop verbatim.
#[test]
fn two_instances_exchange_a_payload() {
    let mut a = AppState::new("id-a".to_string());
    let mut b = AppState::new("id-b".to_string());

    let (ack, dial) = a.join_workspace("localhost:4748", "box-a", None);
    assert!(ack.accepted);
    assert!(ack.reason.is_none());
    let dial = dial.expect("an accepted join reports the dial target");
    assert_eq!(dial, "localhost:4748");

    // The dial succeeds; each side opens its transport session.
    let (tx_b, _rx_b) = tokio::sync::mpsc::unbounded_channel::<String>();
    let (b_peer, b_connected) =
        connection_opened(&mut b.registry, "127.0.0.1:53412".to_string(), tx_b);
    assert_eq!(b_connected.peer_id, b_peer);
    assert_eq!(b_connected.addr, "127.0.0.1:53412");
    assert!(b.list_peers().iter().any(|p| p.peer_id == b_peer));

    let (tx_a, mut rx_a) = tokio::sync::mpsc::unbounded_channel::<String>();
    let (a_peer, _) = connection_opened(&mut a.registry, dial.clone(), tx_a);

    // A submits a payload for its session with B.
    let ack = a.send_to_peer(&a_peer, "hello from a".to_string());
    assert!(ack.accepted);

    // A's write loop takes it off the queue and writes one text frame.
    let on_wire = rx_a.try_recv().expect("the payload was queued");
    assert_eq!(on_wire, "hello from a");

    // B's read loop sees the identical payload and forwards it.
    match on_read_frame(&b_peer, WsFrame::Text(on_wire)) {
        ReadStep::Emit(ev) => {
            assert_eq!(ev.peer_id, b_peer);
            assert_eq!(ev.payload, "hello from a");
        }
        _ => panic!("a text frame must be forwarded"),
    }

    // The connection drops; both sessions end and deregister.
    assert!(matches!(on_read_frame(&b_peer, WsFrame::Close), ReadStep::Terminate));
    let gone = connection_closed(&mut b.registry, &b_peer);
    assert_eq!(gone.peer_id, b_peer);
    assert!(b.list_peers().is_empty());
    connection_closed(&mut a.registry, &a_peer);
    assert!(a.list_peers().is_empty());
}

#[test]
fn broadcast_with_one_dead_peer_reaches_the_others_once() {
    let mut state = AppState::new("self".to_string());
    let (tx1, mut rx1) = tokio::sync::mpsc::unbounded_channel::<String>();
    let (tx2, mut rx2) = tokio::sync::mpsc::unbounded_channel::<String>();
    let (tx3, rx3) = tokio::sync::mpsc::unbounded_channel::<String>();
    drop(rx3);
    state.registry.register("p1".to_string(), "h:1".to_string(), tx1);
    state.registry.register("p2".to_string(), "h:2".to_string(), tx2);
    state.registry.register("p3".to_string(), "h:3".to_string(), tx3);

    let ack = state.broadcast_update("note update");
    assert!(ack.accepted);
    assert_eq!(ack.reason.as_deref(), Some("1 peer(s) unreachable"));

    assert_eq!(rx1.try_recv().unwrap(), "note update");
    assert!(rx1.try_recv().is_err());
    assert_eq!(rx2.try_recv().unwrap(), "note update");
    assert!(rx2.try_recv().is_err());
}

#[test]
fn facade_note_commands_use_the_clock() {
    let mut state = AppState::new("id".to_string());
    let meta = state.create_note();
    assert_eq!(meta.created_at, meta.updated_at);
    assert!(meta.created_at > 0);
    let ack = state.apply_local_edit(&meta.id, vec![1]);
    assert!(ack.accepted);
    let doc = state.open_note(&meta.id).expect("the note exists");
    assert_eq!(doc.yjs_state, vec![1]);
    assert!(doc.meta.updated_at >= meta.created_at);
    let (ack, ev) = state.apply_peer_update(&meta.id, vec![2, 3]);
    assert!(ack.accepted);
    assert_eq!(ev.expect("an event").update, vec![2, 3]);
    assert!(state.delete_note_to_trash(&meta.id).accepted);
    assert!(state.list_notes().is_empty());
}

#[test]
fn identity_and_share_target_commands() {
    let state = AppState::new("stable-id".to_string());
    assert_eq!(state.get_peer_id(), "stable-id");
    assert_eq!(
        hypernote::address::get_share_target(Some("10.1.2.3"), "box"),
        "ws://10.1.2.3:4747"
    );
}
