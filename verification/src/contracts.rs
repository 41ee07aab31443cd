//! The plain data shapes the command surface and the notification channel
//! exchange with collaborators.

use vstd::prelude::*;

verus! {

/// Descriptive data of one note.
#[derive(Debug, Clone)]
pub struct NoteMeta {
    pub id: String,
    pub title: String,
    pub created_at: i64,
    pub updated_at: i64,
    pub deleted_at: Option<i64>,
}

/// One stored note: its metadata, the opaque replicated state, and a
/// rendered markdown snapshot.
#[derive(Debug, Clone)]
pub struct NoteDocument {
    pub meta: NoteMeta,
    pub yjs_state: Vec<u8>,
    pub markdown: String,
}

/// A snapshot row of the live-peer listing.
#[derive(Debug, Clone)]
pub struct PeerInfo {
    pub peer_id: String,
    pub ws_url: String,
    pub status: String,
    pub note_ids: Vec<String>,
}

/// The uniform accepted/reason result of every mutating command.
#[derive(Debug, Clone)]
pub struct CommandAck {
    pub accepted: bool,
    pub reason: Option<String>,
}

/// An update payload to forward to collaborators.
#[derive(Debug, Clone)]
pub struct PeerUpdateEvent {
    pub note_id: String,
    pub update: Vec<u8>,
}

/// Notification that a transport session opened.
#[derive(Debug, Clone)]
pub struct PeerConnectedEvent {
    pub peer_id: String,
    pub addr: String,
}

/// Notification that a transport session ended.
#[derive(Debug, Clone)]
pub struct PeerDisconnectedEvent {
    pub peer_id: String,
}

/// Notification that a text frame arrived from a peer.
#[derive(Debug, Clone)]
pub struct WsMessageEvent {
    pub peer_id: String,
    pub payload: String,
}

} // verus!
