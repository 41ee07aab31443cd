//! The command surface collaborators drive: notes, sends, joins, identity.
//!
//! Every mutating command answers with a uniform ack. The process edge owns
//! the clocks, sockets and event sinks; commands that need the wall clock,
//! the machine's host name or its detected address take them as arguments,
//! and a command that opens a connection reports the dial target instead of
//! dialing itself.

use vstd::prelude::*;

use crate::address::{spec_is_self, spec_normalize};
use crate::contracts::{CommandAck, NoteMeta, PeerInfo, PeerUpdateEvent};
use crate::notes::NoteStore;
use crate::registry::PeerRegistry;
use crate::strutil::opt_view;
use std::time::SystemTime;
use std::time::UNIX_EPOCH;

verus! {

/// Relies on `std::time::SystemTime::now` and `duration_since(UNIX_EPOCH)`:
/// the wall clock as milliseconds since the epoch, or zero when the clock
/// stands before the epoch. The clock is outside state, so nothing is
/// promised of the value.
#[verifier::external_body]
pub fn unix_now_ms() -> (r: i64) {
    SystemTime::now().duration_since(UNIX_EPOCH).map(|d| d.as_millis() as i64).unwrap_or(0)
}

/// Everything one running instance owns: its notes, its live peers, and its
/// process-lifetime identity.
pub struct AppState {
    pub notes: NoteStore,
    pub registry: PeerRegistry,
    pub peer_id: String,
}

impl AppState {
    /// A fresh instance under the given process identity.
    pub fn new(peer_id: String) -> (r: AppState)
        ensures
            r.peer_id@ == peer_id@,
            r.notes@ == Seq::<crate::contracts::NoteDocument>::empty(),
            r.notes.wf(),
            r.registry@ == Seq::<(Seq<char>, Seq<char>)>::empty(),
            r.registry.wf(),
    {
        AppState { notes: NoteStore::new(), registry: PeerRegistry::new(), peer_id }
    }

    /// The process-lifetime identity this instance advertises.
    pub fn get_peer_id(&self) -> (r: String)
        ensures
            r@ == self.peer_id@,
    {
        self.peer_id.clone()
    }

    /// A snapshot of the live peers.
    pub fn list_peers(&self) -> (r: Vec<PeerInfo>)
        ensures
            r@.len() == self.registry@.len(),
            forall|i: int| 0 <= i < r@.len() ==> (#[trigger] r@[i]).peer_id@
                == self.registry@[i].0 && r@[i].ws_url@ == "ws://"@ + self.registry@[i].1
                && r@[i].status@ == "connected"@,
    {
        self.registry.list()
    }

    /// Sends the payload to every live peer; the ack carries the count of
    /// peers whose channel was already closed, when there were any.
    pub fn broadcast_update(&self, payload: &str) -> (r: CommandAck)
        ensures
            r.accepted,
            exists|k: int|
                0 <= k <= self.registry@.len() && #[trigger] crate::registry::is_broadcast_ack(
                    r,
                    k,
                ),
    {
        self.registry.broadcast(payload)
    }

    /// Sends the payload to one peer; an unknown id or a closed channel is
    /// reported in the ack.
    pub fn send_to_peer(&self, peer_id: &str, payload: String) -> (r: CommandAck)
        ensures
            !self.registry.contains_id(peer_id@) ==> !r.accepted && opt_view(r.reason) == Some(
                "peer not found: "@ + peer_id@,
            ),
            self.registry.contains_id(peer_id@) ==> (r.accepted <==> r.reason is None) && (
            !r.accepted ==> opt_view(r.reason) == Some("channel closed"@)),
    {
        self.registry.send(peer_id, payload)
    }

    /// Decides a join command: the raw target is normalized and held against
    /// the self-join guard. An accepted join reports the normalized address
    /// for the process edge to dial; a rejected one reports why and dials
    /// nothing.
    pub fn join_workspace(&self, target: &str, local_host: &str, local_ipv4: Option<&str>) -> (r: (
        CommandAck,
        Option<String>,
    ))
        ensures
            ({
                let norm = spec_normalize(target@);
                let ip = match local_ipv4 {
                    Some(s) => Some(s@),
                    None => None,
                };
                match norm {
                    Err(e) => !r.0.accepted && opt_view(r.0.reason) == Some(e) && r.1 is None,
                    Ok(t) => if spec_is_self(t, local_host@, ip) {
                        !r.0.accepted && opt_view(r.0.reason) == Some(
                            "cannot join your own workspace target"@,
                        ) && r.1 is None
                    } else {
                        r.0.accepted && r.0.reason is None && (r.1 matches Some(a) && a@ == t)
                    },
                }
            }),
    {
        let addr = match crate::address::normalize_join_target(target) {
            Ok(a) => a,
            Err(reason) => {
                return (CommandAck { accepted: false, reason: Some(reason) }, None);
            },
        };
        if crate::address::is_self_join_target(addr.as_str(), local_host, local_ipv4) {
            return (
                CommandAck {
                    accepted: false,
                    reason: Some("cannot join your own workspace target".to_owned()),
                },
                None,
            );
        }
        (CommandAck { accepted: true, reason: None }, Some(addr))
    }

    /// Creates a note stamped with the wall clock and returns its metadata.
    pub fn create_note(&mut self) -> (meta: NoteMeta)
        requires
            old(self).notes.wf(),
        ensures
            final(self).notes.wf(),
            final(self).notes.contains_note(meta.id@),
            final(self).registry == old(self).registry,
            final(self).peer_id == old(self).peer_id,
            meta.title@ == "Untitled"@,
            meta.created_at == meta.updated_at,
            meta.deleted_at is None,
            !old(self).notes.contains_note(meta.id@) ==> final(self).notes@.len() == old(
                self,
            ).notes@.len() + 1 && final(self).notes@.take(old(self).notes@.len() as int) == old(
                self,
            ).notes@ && final(self).notes@.last().meta == meta
                && final(self).notes@.last().yjs_state@ == Seq::<u8>::empty()
                && final(self).notes@.last().markdown@ == Seq::<char>::empty(),
    {
        let now = unix_now_ms();
        self.notes.create_note(now)
    }

    /// Looks a note up by id.
    pub fn open_note(&self, note_id: &str) -> (r: Result<crate::contracts::NoteDocument, String>)
        requires
            self.notes.wf(),
        ensures
            self.notes.contains_note(note_id@) ==> (r matches Ok(doc) && {
                let stored = self.notes@[self.notes.idx_of(note_id@)];
                doc.meta == stored.meta && doc.yjs_state@ == stored.yjs_state@ && doc.markdown@
                    == stored.markdown@
            }),
            !self.notes.contains_note(note_id@) ==> (r matches Err(e) && e@ == "note not found: "@
                + note_id@),
    {
        self.notes.open_note(note_id)
    }

    /// Stores a local edit's update bytes, stamped with the wall clock.
    pub fn apply_local_edit(&mut self, note_id: &str, update: Vec<u8>) -> (r: CommandAck)
        requires
            old(self).notes.wf(),
        ensures
            final(self).notes.wf(),
            final(self).registry == old(self).registry,
            r.accepted == old(self).notes.contains_note(note_id@),
            !old(self).notes.contains_note(note_id@) ==> opt_view(r.reason) == Some(
                "note not found: "@ + note_id@,
            ) && final(self).notes@ == old(self).notes@,
            old(self).notes.contains_note(note_id@) ==> r.reason is None && ({
                let i = old(self).notes.idx_of(note_id@);
                crate::notes::edited_at(
                    old(self).notes@,
                    final(self).notes@,
                    i,
                    update@,
                    final(self).notes@[i].meta.updated_at,
                )
            }),
    {
        let now = unix_now_ms();
        self.notes.apply_local_edit(note_id, update, now)
    }

    /// Stores an update received from a peer and reports the event to
    /// forward to collaborators.
    pub fn apply_peer_update(&mut self, note_id: &str, update: Vec<u8>) -> (r: (
        CommandAck,
        Option<PeerUpdateEvent>,
    ))
        requires
            old(self).notes.wf(),
        ensures
            final(self).notes.wf(),
            final(self).registry == old(self).registry,
            r.0.accepted == old(self).notes.contains_note(note_id@),
            !old(self).notes.contains_note(note_id@) ==> opt_view(r.0.reason) == Some(
                "note not found"@,
            ) && r.1 is None && final(self).notes@ == old(self).notes@,
            old(self).notes.contains_note(note_id@) ==> r.0.reason is None && (
            r.1 matches Some(ev) && ev.note_id@ == note_id@ && ev.update@ == update@) && ({
                let i = old(self).notes.idx_of(note_id@);
                crate::notes::edited_at(
                    old(self).notes@,
                    final(self).notes@,
                    i,
                    update@,
                    final(self).notes@[i].meta.updated_at,
                )
            }),
    {
        let now = unix_now_ms();
        self.notes.apply_peer_update(note_id, update, now)
    }

    /// The metadata of every note, most recently updated first.
    pub fn list_notes(&self) -> (r: Vec<NoteMeta>)
        ensures
            r@.len() == self.notes@.len(),
            forall|i: int, j: int| 0 <= i < j < r@.len() ==> (#[trigger] r@[i]).updated_at >= (
            #[trigger] r@[j]).updated_at,
            r@.to_multiset() == self.notes@.map_values(
                |d: crate::contracts::NoteDocument| d.meta,
            ).to_multiset(),
    {
        self.notes.list_notes()
    }

    /// Removes a note.
    pub fn delete_note_to_trash(&mut self, note_id: &str) -> (r: CommandAck)
        requires
            old(self).notes.wf(),
        ensures
            final(self).notes.wf(),
            final(self).registry == old(self).registry,
            !final(self).notes.contains_note(note_id@),
            r.accepted == old(self).notes.contains_note(note_id@),
            old(self).notes.contains_note(note_id@) ==> r.reason is None && final(self).notes@
                == old(self).notes@.remove(old(self).notes.idx_of(note_id@)),
            !old(self).notes.contains_note(note_id@) ==> opt_view(r.reason) == Some(
                "note not found"@,
            ) && final(self).notes@ == old(self).notes@,
    {
        self.notes.delete_note_to_trash(note_id)
    }
}

} // verus!
