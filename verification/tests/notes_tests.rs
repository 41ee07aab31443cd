use hypernote::notes::NoteStore;

#[test]
fn created_note_opens_with_empty_state() {
    let mut store = NoteStore::new();
    let meta = store.create_note(100);
    assert_eq!(meta.title, "Untitled");
    assert_eq!(meta.created_at, 100);
    assert_eq!(meta.updated_at, 100);
    assert!(meta.deleted_at.is_none());

    let doc = store.open_note(&meta.id).expect("the created note exists");
    assert_eq!(doc.meta.id, meta.id);
    assert!(doc.yjs_state.is_empty());
    assert!(doc.markdown.is_empty());
}

#[test]
fn opening_a_missing_note_names_it() {
    let store = NoteStore::new();
    let err = store.open_note("nope").unwrap_err();
    assert_eq!(err, "note not found: nope");
}

#[test]
fn local_edit_replaces_payload_and_timestamp() {
    let mut store = NoteStore::new();
    let meta = store.create_note(100);
    let ack = store.apply_local_edit(&meta.id, vec![1, 2, 3], 200);
    assert!(ack.accepted);
    assert!(ack.reason.is_none());
    let doc = store.open_note(&meta.id).unwrap();
    assert_eq!(doc.yjs_state, vec![1, 2, 3]);
    assert_eq!(doc.meta.updated_at, 200);

    let miss = store.apply_local_edit("nope", vec![9], 300);
    assert!(!miss.accepted);
    assert_eq!(miss.reason.as_deref(), Some("note not found: nope"));
}

#[test]
fn peer_update_stores_payload_and_reports_event() {
    let mut store = NoteStore::new();
    let meta = store.create_note(100);
    let (ack, ev) = store.apply_peer_update(&meta.id, vec![7, 8], 150);
    assert!(ack.accepted);
    let ev = ev.expect("an accepted update is forwarded");
    assert_eq!(ev.note_id, meta.id);
    assert_eq!(ev.update, vec![7, 8]);
    assert_eq!(store.open_note(&meta.id).unwrap().yjs_state, vec![7, 8]);

    let (miss, no_ev) = store.apply_peer_update("nope", vec![1], 160);
    assert!(!miss.accepted);
    assert_eq!(miss.reason.as_deref(), Some("note not found"));
    assert!(no_ev.is_none());
}

#[test]
fn deleted_note_is_gone() {
    let mut store = NoteStore::new();
    let meta = store.create_note(100);
    let ack = store.delete_note_to_trash(&meta.id);
    assert!(ack.accepted);
    assert!(store.open_note(&meta.id).is_err());

    let again = store.delete_note_to_trash(&meta.id);
    assert!(!again.accepted);
    assert_eq!(again.reason.as_deref(), Some("note not found"));
}

#[test]
fn listing_orders_by_most_recent_update() {
    let mut store = NoteStore::new();
    let a = store.create_note(100);
    let b = store.create_note(300);
    let c = store.create_note(200);
    let listed = store.list_notes();
    assert_eq!(listed.len(), 3);
    assert_eq!(listed[0].id, b.id);
    assert_eq!(listed[1].id, c.id);
    assert_eq!(listed[2].id, a.id);

    store.apply_local_edit(&a.id, vec![1], 400);
    let listed = store.list_notes();
    assert_eq!(listed[0].id, a.id);
    assert_eq!(listed[0].updated_at, 400);
}
