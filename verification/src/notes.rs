//! The in-memory note store the command surface mutates.
//!
//! The store maps note ids to documents; its view is the sequence of stored
//! documents with ids unique. The replicated payload of a note is opaque
//! bytes to this layer: stored and replaced whole, never interpreted.

use vstd::prelude::*;
use vstd::string::StringExecFns;

use crate::contracts::{CommandAck, NoteDocument, NoteMeta, PeerUpdateEvent};

verus! {

/// All notes this instance holds.
pub struct NoteStore {
    notes: Vec<NoteDocument>,
}

impl View for NoteStore {
    type V = Seq<NoteDocument>;

    closed spec fn view(&self) -> Seq<NoteDocument> {
        self.notes@
    }
}

fn clone_bytes(v: &Vec<u8>) -> (r: Vec<u8>)
    ensures
        r@ == v@,
{
    let n = v.len();
    let mut out: Vec<u8> = Vec::new();
    let mut i: usize = 0;
    while i < n
        invariant
            i <= n,
            n == v@.len(),
            out@ == v@.take(i as int),
        decreases n - i,
    {
        out.push(v[i]);
        proof {
            assert(out@ =~= v@.take(i + 1));
        }
        i = i + 1;
    }
    proof {
        assert(v@.take(n as int) =~= v@);
    }
    out
}

fn clone_meta(m: &NoteMeta) -> (r: NoteMeta)
    ensures
        r == *m,
{
    NoteMeta {
        id: m.id.clone(),
        title: m.title.clone(),
        created_at: m.created_at,
        updated_at: m.updated_at,
        deleted_at: m.deleted_at,
    }
}

/// What storing one update leaves of the store: the targeted note holds the
/// new payload and edit time with every other field kept, and every other
/// note is untouched.
pub open spec fn edited_at(
    pre: Seq<NoteDocument>,
    post: Seq<NoteDocument>,
    i: int,
    update: Seq<u8>,
    now: i64,
) -> bool {
    &&& post.len() == pre.len()
    &&& (forall|j: int| 0 <= j < pre.len() && j != i ==> post[j] == pre[j])
    &&& post[i].yjs_state@ == update
    &&& post[i].meta.updated_at == now
    &&& post[i].meta.id == pre[i].meta.id
    &&& post[i].meta.title == pre[i].meta.title
    &&& post[i].meta.created_at == pre[i].meta.created_at
    &&& post[i].meta.deleted_at == pre[i].meta.deleted_at
    &&& post[i].markdown == pre[i].markdown
}

impl NoteStore {
    /// Whether a note with this id is stored.
    pub open spec fn contains_note(self, id: Seq<char>) -> bool {
        exists|i: int| 0 <= i < self@.len() && (#[trigger] self@[i]).meta.id@ == id
    }

    /// Position of the note with this id.
    pub open spec fn idx_of(self, id: Seq<char>) -> int {
        choose|i: int| 0 <= i < self@.len() && (#[trigger] self@[i]).meta.id@ == id
    }

    /// Stored note ids are unique.
    pub open spec fn wf(self) -> bool {
        forall|i: int, j: int| 0 <= i < j < self@.len() ==> (#[trigger] self@[i]).meta.id@ != (
        #[trigger] self@[j]).meta.id@
    }

    /// An empty store.
    pub fn new() -> (r: NoteStore)
        ensures
            r@ == Seq::<NoteDocument>::empty(),
            r.wf(),
    {
        NoteStore { notes: Vec::new() }
    }

    fn find_note(&self, note_id: &str) -> (r: Option<usize>)
        ensures
            match r {
                Some(k) => self.contains_note(note_id@) && 0 <= k < self@.len()
                    && self@[k as int].meta.id@ == note_id@,
                None => !self.contains_note(note_id@),
            },
    {
        let n = self.notes.len();
        let mut k: usize = 0;
        while k < n
            invariant
                k <= n,
                n == self@.len(),
                forall|m: int| 0 <= m < k ==> (#[trigger] self@[m]).meta.id@ != note_id@,
            decreases n - k,
        {
            if crate::strutil::str_eq(self.notes[k].meta.id.as_str(), note_id) {
                assert(self.contains_note(note_id@));
                return Some(k);
            }
            k = k + 1;
        }
        proof {
            if self.contains_note(note_id@) {
                let i = choose|i: int|
                    0 <= i < self@.len() && (#[trigger] self@[i]).meta.id@ == note_id@;
                assert(false);
            }
        }
        None
    }

    /// Creates a note under a fresh id, titled `Untitled`, stamped with the
    /// given time, with empty replicated state and markdown, and returns its
    /// metadata.
    pub fn create_note(&mut self, now: i64) -> (meta: NoteMeta)
        requires
            old(self).wf(),
        ensures
            final(self).wf(),
            final(self).contains_note(meta.id@),
            meta.title@ == "Untitled"@,
            meta.created_at == now,
            meta.updated_at == now,
            meta.deleted_at is None,
            !old(self).contains_note(meta.id@) ==> final(self)@.len() == old(self)@.len() + 1
                && final(self)@.take(old(self)@.len() as int) == old(self)@
                && final(self)@.last().meta == meta
                && final(self)@.last().yjs_state@ == Seq::<u8>::empty()
                && final(self)@.last().markdown@ == Seq::<char>::empty(),
    {
        let id = crate::ident::fresh_uuid();
        let meta = NoteMeta {
            id,
            title: "Untitled".to_owned(),
            created_at: now,
            updated_at: now,
            deleted_at: None,
        };
        match self.find_note(meta.id.as_str()) {
            Some(k) => {
                self.notes.remove(k);
                proof {
                    let ghost mid = self@;
                    assert forall|i: int| 0 <= i < mid.len() implies (#[trigger] mid[i]).meta.id@
                        != meta.id@ by {
                        if i < k {
                            assert(mid[i] == old(self)@[i]);
                        } else {
                            assert(mid[i] == old(self)@[i + 1]);
                        }
                    }
                }
            },
            None => {},
        }
        let ghost mid = self@;
        let doc = NoteDocument {
            meta: clone_meta(&meta),
            yjs_state: Vec::new(),
            markdown: String::new(),
        };
        self.notes.push(doc);
        proof {
            assert(self@ =~= mid.push(doc));
            assert(self@.last().meta == meta);
            assert(final(self)@.take(mid.len() as int) =~= mid);
            assert forall|i: int, j: int| 0 <= i < j < self@.len() implies (
            #[trigger] self@[i]).meta.id@ != (#[trigger] self@[j]).meta.id@ by {
                if j < self@.len() - 1 {
                    assert(self@[i] == mid[i] && self@[j] == mid[j]);
                } else {
                    assert(self@[i] == mid[i]);
                }
            }
        }
        meta
    }

    /// Looks a note up by id; a copy of the stored document comes back, or
    /// the reason why none can.
    pub fn open_note(&self, note_id: &str) -> (r: Result<NoteDocument, String>)
        requires
            self.wf(),
        ensures
            self.contains_note(note_id@) ==> (r matches Ok(doc) && {
                let stored = self@[self.idx_of(note_id@)];
                doc.meta == stored.meta && doc.yjs_state@ == stored.yjs_state@ && doc.markdown@
                    == stored.markdown@
            }),
            !self.contains_note(note_id@) ==> (r matches Err(e) && e@ == "note not found: "@
                + note_id@),
    {
        match self.find_note(note_id) {
            Some(k) => {
                proof {
                    let i = self.idx_of(note_id@);
                    assert(0 <= i < self@.len() && self@[i].meta.id@ == note_id@);
                    assert(i == k as int);
                }
                let stored = &self.notes[k];
                Ok(
                    NoteDocument {
                        meta: clone_meta(&stored.meta),
                        yjs_state: clone_bytes(&stored.yjs_state),
                        markdown: stored.markdown.clone(),
                    },
                )
            },
            None => {
                let mut e = "note not found: ".to_owned();
                e.append(note_id);
                Err(e)
            },
        }
    }

    fn replace_payload(&mut self, k: usize, update: Vec<u8>, now: i64)
        requires
            old(self).wf(),
            k < old(self)@.len(),
        ensures
            final(self).wf(),
            final(self)@.len() == old(self)@.len(),
            forall|j: int| 0 <= j < old(self)@.len() && j != k ==> final(self)@[j] == old(
                self,
            )@[j],
            final(self)@[k as int].meta.id == old(self)@[k as int].meta.id,
            final(self)@[k as int].meta.title == old(self)@[k as int].meta.title,
            final(self)@[k as int].meta.created_at == old(self)@[k as int].meta.created_at,
            final(self)@[k as int].meta.deleted_at == old(self)@[k as int].meta.deleted_at,
            final(self)@[k as int].meta.updated_at == now,
            final(self)@[k as int].yjs_state@ == update@,
            final(self)@[k as int].markdown == old(self)@[k as int].markdown,
    {
        let mut doc = self.notes.remove(k);
        doc.yjs_state = update;
        doc.meta.updated_at = now;
        let ghost mid = self@;
        self.notes.insert(k, doc);
        proof {
            assert(self@ =~= mid.insert(k as int, doc));
            assert forall|j: int| 0 <= j < old(self)@.len() && j != k implies self@[j] == old(
                self,
            )@[j] by {
                if j < k {
                    assert(mid[j] == old(self)@[j]);
                } else {
                    assert(mid[j - 1] == old(self)@[j]);
                }
            }
            assert forall|i: int, j: int| 0 <= i < j < self@.len() implies (
            #[trigger] self@[i]).meta.id@ != (#[trigger] self@[j]).meta.id@ by {
                assert(self@[i].meta.id@ == old(self)@[i].meta.id@);
                assert(self@[j].meta.id@ == old(self)@[j].meta.id@);
            }
        }
    }

    /// Stores a locally produced update as the note's new replicated state
    /// and stamps the edit time; without such a note the ack names it.
    pub fn apply_local_edit(&mut self, note_id: &str, update: Vec<u8>, now: i64) -> (r: CommandAck)
        requires
            old(self).wf(),
        ensures
            final(self).wf(),
            !old(self).contains_note(note_id@) ==> !r.accepted && crate::strutil::opt_view(
                r.reason,
            ) == Some("note not found: "@ + note_id@) && final(self)@ == old(self)@,
            old(self).contains_note(note_id@) ==> r.accepted && r.reason is None && edited_at(
                old(self)@,
                final(self)@,
                old(self).idx_of(note_id@),
                update@,
                now,
            ),
    {
        match self.find_note(note_id) {
            Some(k) => {
                proof {
                    let i = old(self).idx_of(note_id@);
                    assert(0 <= i < old(self)@.len() && old(self)@[i].meta.id@ == note_id@);
                    assert(i == k as int);
                }
                self.replace_payload(k, update, now);
                CommandAck { accepted: true, reason: None }
            },
            None => {
                let mut reason = "note not found: ".to_owned();
                reason.append(note_id);
                CommandAck { accepted: false, reason: Some(reason) }
            },
        }
    }

    /// Stores an update received from a peer and reports the payload event
    /// to forward to collaborators; without such a note the ack says so and
    /// nothing is forwarded.
    pub fn apply_peer_update(&mut self, note_id: &str, update: Vec<u8>, now: i64) -> (r: (
        CommandAck,
        Option<PeerUpdateEvent>,
    ))
        requires
            old(self).wf(),
        ensures
            final(self).wf(),
            !old(self).contains_note(note_id@) ==> !r.0.accepted && crate::strutil::opt_view(
                r.0.reason,
            ) == Some("note not found"@) && r.1 is None && final(self)@ == old(self)@,
            old(self).contains_note(note_id@) ==> r.0.accepted && r.0.reason is None && (
            r.1 matches Some(ev) && ev.note_id@ == note_id@ && ev.update@ == update@)
                && edited_at(
                old(self)@,
                final(self)@,
                old(self).idx_of(note_id@),
                update@,
                now,
            ),
    {
        match self.find_note(note_id) {
            Some(k) => {
                proof {
                    let i = old(self).idx_of(note_id@);
                    assert(0 <= i < old(self)@.len() && old(self)@[i].meta.id@ == note_id@);
                    assert(i == k as int);
                }
                let stored = clone_bytes(&update);
                self.replace_payload(k, stored, now);
                let ev = PeerUpdateEvent { note_id: note_id.to_owned(), update };
                (CommandAck { accepted: true, reason: None }, Some(ev))
            },
            None => {
                (
                    CommandAck { accepted: false, reason: Some("note not found".to_owned()) },
                    None,
                )
            },
        }
    }

    /// Removes a note; without such a note the ack says so.
    pub fn delete_note_to_trash(&mut self, note_id: &str) -> (r: CommandAck)
        requires
            old(self).wf(),
        ensures
            final(self).wf(),
            !final(self).contains_note(note_id@),
            old(self).contains_note(note_id@) ==> r.accepted && r.reason is None && final(self)@
                == old(self)@.remove(old(self).idx_of(note_id@)),
            !old(self).contains_note(note_id@) ==> !r.accepted && crate::strutil::opt_view(
                r.reason,
            ) == Some("note not found"@) && final(self)@ == old(self)@,
    {
        match self.find_note(note_id) {
            Some(k) => {
                proof {
                    let i = old(self).idx_of(note_id@);
                    assert(0 <= i < old(self)@.len() && old(self)@[i].meta.id@ == note_id@);
                    assert(i == k as int);
                }
                let ghost pre = self@;
                self.notes.remove(k);
                proof {
                    assert(self@ =~= pre.remove(k as int));
                    assert forall|i: int| 0 <= i < self@.len() implies (
                    #[trigger] self@[i]).meta.id@ != note_id@ by {
                        if i < k {
                            assert(self@[i] == pre[i]);
                        } else {
                            assert(self@[i] == pre[i + 1]);
                        }
                    }
                }
                CommandAck { accepted: true, reason: None }
            },
            None => {
                CommandAck { accepted: false, reason: Some("note not found".to_owned()) }
            },
        }
    }

    /// The metadata of every stored note, most recently updated first.
    pub fn list_notes(&self) -> (r: Vec<NoteMeta>)
        ensures
            r@.len() == self@.len(),
            forall|i: int, j: int| 0 <= i < j < r@.len() ==> (#[trigger] r@[i]).updated_at >= (
            #[trigger] r@[j]).updated_at,
            r@.to_multiset() == self@.map_values(|d: NoteDocument| d.meta).to_multiset(),
    {
        broadcast use vstd::seq_lib::group_to_multiset_ensures;

        let ghost metas = self@.map_values(|d: NoteDocument| d.meta);
        let n = self.notes.len();
        let mut out: Vec<NoteMeta> = Vec::new();
        let mut k: usize = 0;
        while k < n
            invariant
                k <= n,
                n == self@.len(),
                metas == self@.map_values(|d: NoteDocument| d.meta),
                out@.len() == k,
                forall|i: int, j: int| 0 <= i < j < out@.len() ==> (#[trigger] out@[i]).updated_at
                    >= (#[trigger] out@[j]).updated_at,
                out@.to_multiset() == metas.take(k as int).to_multiset(),
            decreases n - k,
        {
            broadcast use vstd::seq_lib::group_to_multiset_ensures;

            let m = clone_meta(&self.notes[k].meta);
            assert(m == metas[k as int]);
            let pos = Self::insert_pos(&out, m.updated_at);
            let ghost pre = out@;
            out.insert(pos, m);
            proof {
                assert(out@ =~= pre.insert(pos as int, m));
                vstd::seq_lib::to_multiset_insert(pre, pos as int, m);
                assert(metas.take(k + 1).drop_last() =~= metas.take(k as int));
                assert(metas.take(k + 1).last() == metas[k as int]);
                assert(metas.take(k + 1) =~= metas.take(k as int).push(m));
                assert(out@.to_multiset() =~= metas.take(k + 1).to_multiset());
                assert forall|i: int, j: int| 0 <= i < j < out@.len() implies (
                #[trigger] out@[i]).updated_at >= (#[trigger] out@[j]).updated_at by {
                    if j < pos {
                        assert(out@[i] == pre[i] && out@[j] == pre[j]);
                    } else if i > pos {
                        assert(out@[i] == pre[i - 1] && out@[j] == pre[j - 1]);
                    } else if i == pos && j > pos {
                        assert(out@[j] == pre[j - 1]);
                    } else if j == pos && i < pos {
                        assert(out@[i] == pre[i]);
                    } else {
                        assert(i < pos && j > pos);
                        assert(out@[i] == pre[i] && out@[j] == pre[j - 1]);
                    }
                }
            }
            k = k + 1;
        }
        proof {
            assert(metas.take(n as int) =~= metas);
        }
        out
    }

    /// The position before the first strictly older entry, which keeps the
    /// listing ordered as entries are inserted.
    fn insert_pos(out: &Vec<NoteMeta>, key: i64) -> (pos: usize)
        requires
            forall|i: int, j: int| 0 <= i < j < out@.len() ==> (#[trigger] out@[i]).updated_at >= (
            #[trigger] out@[j]).updated_at,
        ensures
            pos <= out@.len(),
            forall|i: int| 0 <= i < pos ==> (#[trigger] out@[i]).updated_at >= key,
            forall|i: int| pos <= i < out@.len() ==> (#[trigger] out@[i]).updated_at < key,
    {
        let n = out.len();
        let mut pos: usize = 0;
        while pos < n
            invariant
                pos <= n,
                n == out@.len(),
                forall|i: int, j: int| 0 <= i < j < out@.len() ==> (#[trigger] out@[i]).updated_at
                    >= (#[trigger] out@[j]).updated_at,
                forall|i: int| 0 <= i < pos ==> (#[trigger] out@[i]).updated_at >= key,
            decreases n - pos,
        {
            if out[pos].updated_at < key {
                return pos;
            }
            pos = pos + 1;
        }
        pos
    }
}

} // verus!
