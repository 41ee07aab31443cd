//! The shared table of live peer connections: peer id to outbound channel.
//!
//! The registry is the single owner of the outbound channel of every live
//! transport session; every send to a peer goes through it. Its view is the
//! sequence of `(peer id, remote address)` pairs it holds, with ids unique.

use vstd::prelude::*;
use vstd::string::StringExecFns;

use tokio::sync::mpsc::UnboundedSender;

use crate::contracts::{CommandAck, PeerInfo};
use crate::strutil::{dec_str, opt_view, str_eq, u64_to_string};

verus! {

/// The outbound half of tokio's unbounded channel, which carries the text
/// frames queued for one peer.
#[verifier::external_type_specification]
#[verifier::external_body]
#[verifier::reject_recursive_types(T)]
pub struct ExUnboundedSender<T>(UnboundedSender<T>);

/// Relies on tokio's `UnboundedSender::send`: it never blocks, and it fails
/// exactly when the receiving half of the channel was closed or dropped.
/// Whether that has happened is outside state, so nothing is promised of the
/// outcome.
#[verifier::external_body]
fn channel_send(tx: &UnboundedSender<String>, payload: String) -> (ok: bool) {
    tx.send(payload).is_ok()
}

/// One live transport session: its connection-scoped id, the remote address
/// as observed or dialed, and the channel its write loop drains.
pub struct PeerEntry {
    pub peer_id: String,
    pub remote_address: String,
    outbound: UnboundedSender<String>,
}

/// The process-wide table of live peers.
pub struct PeerRegistry {
    entries: Vec<PeerEntry>,
}

impl View for PeerRegistry {
    type V = Seq<(Seq<char>, Seq<char>)>;

    closed spec fn view(&self) -> Seq<(Seq<char>, Seq<char>)> {
        self.entries@.map_values(|e: PeerEntry| (e.peer_id@, e.remote_address@))
    }
}

impl PeerRegistry {
    /// Whether a peer with this id is registered.
    pub open spec fn contains_id(self, id: Seq<char>) -> bool {
        exists|i: int| 0 <= i < self@.len() && (#[trigger] self@[i]).0 == id
    }

    /// Position of the entry with this id.
    pub open spec fn idx_of(self, id: Seq<char>) -> int {
        choose|i: int| 0 <= i < self@.len() && (#[trigger] self@[i]).0 == id
    }

    /// Registered ids are unique: one entry per live transport session.
    pub open spec fn wf(self) -> bool {
        forall|i: int, j: int| 0 <= i < j < self@.len() ==> (#[trigger] self@[i]).0 != (
        #[trigger] self@[j]).0
    }

    /// An empty registry.
    pub fn new() -> (r: PeerRegistry)
        ensures
            r@ == Seq::<(Seq<char>, Seq<char>)>::empty(),
            r.wf(),
    {
        let r = PeerRegistry { entries: Vec::new() };
        proof {
            assert(r@ =~= Seq::<(Seq<char>, Seq<char>)>::empty());
        }
        r
    }

    /// Removes the session with this id; without one, does nothing.
    pub fn deregister(&mut self, peer_id: &str)
        requires
            old(self).wf(),
        ensures
            final(self).wf(),
            !final(self).contains_id(peer_id@),
            old(self).contains_id(peer_id@) ==> final(self)@ == old(self)@.remove(
                old(self).idx_of(peer_id@),
            ),
            !old(self).contains_id(peer_id@) ==> final(self)@ == old(self)@,
    {
        let n = self.entries.len();
        let mut k: usize = 0;
        while k < n
            invariant
                k <= n,
                n == self.entries.len(),
                *self == *old(self),
                self.wf(),
                forall|m: int| 0 <= m < k ==> (#[trigger] self@[m]).0 != peer_id@,
            decreases n - k,
        {
            if str_eq(self.entries[k].peer_id.as_str(), peer_id) {
                proof {
                    assert(self@[k as int].0 == self.entries@[k as int].peer_id@);
                    assert(self.contains_id(peer_id@));
                    let i = self.idx_of(peer_id@);
                    assert(0 <= i < self@.len() && self@[i].0 == peer_id@);
                    assert(i == k as int);
                }
                let ghost pre = self@;
                self.entries.remove(k);
                proof {
                    assert(self@ =~= pre.remove(k as int));
                    assert forall|i: int| 0 <= i < self@.len() implies (#[trigger] self@[i]).0
                        != peer_id@ by {
                        if i < k {
                            assert(self@[i] == pre[i]);
                        } else {
                            assert(self@[i] == pre[i + 1]);
                        }
                    }
                }
                return ;
            }
            k = k + 1;
        }
        proof {
            if self.contains_id(peer_id@) {
                let i = choose|i: int| 0 <= i < self@.len() && (#[trigger] self@[i]).0 == peer_id@;
                assert(false);
            }
        }
    }

    /// Adds a session under a fresh id; an id already present is overwritten,
    /// which fresh per-connection ids keep from happening in practice.
    pub fn register(&mut self, peer_id: String, remote_address: String, outbound: UnboundedSender<String>)
        requires
            old(self).wf(),
        ensures
            final(self).wf(),
            final(self).contains_id(peer_id@),
            old(self).contains_id(peer_id@) ==> final(self)@ == old(self)@.remove(
                old(self).idx_of(peer_id@),
            ).push((peer_id@, remote_address@)),
            !old(self).contains_id(peer_id@) ==> final(self)@ == old(self)@.push(
                (peer_id@, remote_address@),
            ),
    {
        self.deregister(peer_id.as_str());
        let ghost mid = self@;
        self.entries.push(PeerEntry { peer_id, remote_address, outbound });
        proof {
            assert(self@ =~= mid.push((peer_id@, remote_address@)));
            assert(self@[self@.len() - 1].0 == peer_id@);
            assert forall|i: int, j: int| 0 <= i < j < self@.len() implies (
            #[trigger] self@[i]).0 != (#[trigger] self@[j]).0 by {
                if j < self@.len() - 1 {
                    assert(self@[i] == mid[i] && self@[j] == mid[j]);
                } else {
                    assert(self@[i] == mid[i]);
                }
            }
        }
    }

    /// Attempts a non-blocking send of the payload to one peer. Without such
    /// a peer the ack reports `peer not found`; with one, the ack is accepted
    /// exactly when the peer's channel still had a live reader.
    pub fn send(&self, peer_id: &str, payload: String) -> (r: CommandAck)
        ensures
            !self.contains_id(peer_id@) ==> !r.accepted && opt_view(r.reason) == Some(
                "peer not found: "@ + peer_id@,
            ),
            self.contains_id(peer_id@) ==> (r.accepted <==> r.reason is None) && (!r.accepted
                ==> opt_view(r.reason) == Some("channel closed"@)),
    {
        let n = self.entries.len();
        let mut k: usize = 0;
        while k < n
            invariant
                k <= n,
                n == self.entries.len(),
                forall|m: int| 0 <= m < k ==> (#[trigger] self@[m]).0 != peer_id@,
            decreases n - k,
        {
            if str_eq(self.entries[k].peer_id.as_str(), peer_id) {
                proof {
                    assert(self@[k as int].0 == self.entries@[k as int].peer_id@);
                    assert(self.contains_id(peer_id@));
                }
                let ok = channel_send(&self.entries[k].outbound, payload);
                if ok {
                    return CommandAck { accepted: true, reason: None };
                }
                return CommandAck { accepted: false, reason: Some("channel closed".to_owned()) };
            }
            k = k + 1;
        }
        proof {
            if self.contains_id(peer_id@) {
                let i = choose|i: int| 0 <= i < self@.len() && (#[trigger] self@[i]).0 == peer_id@;
                assert(false);
            }
        }
        let mut reason = "peer not found: ".to_owned();
        reason.append(peer_id);
        CommandAck { accepted: false, reason: Some(reason) }
    }

    /// Sends the payload to every registered peer. The ack is always
    /// accepted; when some channels had no live reader any more, their count
    /// is reported as a non-fatal reason. Which sends fail is outside state,
    /// so the contract fixes only that the ack renders some count up to the
    /// peer count; `broadcast_ack` fixes the rendering of each count exactly.
    pub fn broadcast(&self, payload: &str) -> (r: CommandAck)
        ensures
            r.accepted,
            exists|k: int| 0 <= k <= self@.len() && #[trigger] is_broadcast_ack(r, k),
    {
        let n = self.entries.len();
        let mut failed: usize = 0;
        let mut k: usize = 0;
        while k < n
            invariant
                k <= n,
                n == self.entries.len(),
                failed <= k,
            decreases n - k,
        {
            let msg = payload.to_owned();
            if !channel_send(&self.entries[k].outbound, msg) {
                failed = failed + 1;
            }
            k = k + 1;
        }
        let r = broadcast_ack(failed);
        proof {
            assert(n as int == self@.len());
            let k0: int = failed as int;
            assert(0 <= k0 <= self@.len() && is_broadcast_ack(r, k0));
        }
        r
    }

    /// A snapshot of current membership.
    pub fn list(&self) -> (r: Vec<PeerInfo>)
        ensures
            r@.len() == self@.len(),
            forall|i: int| 0 <= i < r@.len() ==> (#[trigger] r@[i]).peer_id@ == self@[i].0
                && r@[i].ws_url@ == "ws://"@ + self@[i].1 && r@[i].status@ == "connected"@
                && r@[i].note_ids@.len() == 0,
    {
        let n = self.entries.len();
        let mut out: Vec<PeerInfo> = Vec::new();
        let mut k: usize = 0;
        while k < n
            invariant
                k <= n,
                n == self.entries.len(),
                out@.len() == k,
                forall|i: int| 0 <= i < k ==> (#[trigger] out@[i]).peer_id@ == self@[i].0
                    && out@[i].ws_url@ == "ws://"@ + self@[i].1 && out@[i].status@ == "connected"@
                    && out@[i].note_ids@.len() == 0,
            decreases n - k,
        {
            let e = &self.entries[k];
            let mut url = "ws://".to_owned();
            url.append(e.remote_address.as_str());
            out.push(
                PeerInfo {
                    peer_id: e.peer_id.clone(),
                    ws_url: url,
                    status: "connected".to_owned(),
                    note_ids: Vec::new(),
                },
            );
            k = k + 1;
        }
        out
    }
}

/// The ack a broadcast owes when `k` of the peers' channels had no reader:
/// always accepted, silent exactly when every channel took the payload, else
/// naming the count.
pub open spec fn is_broadcast_ack(r: CommandAck, k: int) -> bool {
    &&& r.accepted
    &&& (r.reason is None <==> k == 0)
    &&& (k >= 1 ==> opt_view(r.reason) == Some(dec_str(k as nat) + " peer(s) unreachable"@))
}

/// Renders the broadcast ack for a count of peers whose channel was closed.
pub fn broadcast_ack(failed: usize) -> (r: CommandAck)
    ensures
        is_broadcast_ack(r, failed as int),
{
    if failed > 0 {
        let mut reason = u64_to_string(failed as u64);
        reason.append(" peer(s) unreachable");
        proof {
            assert(reason@ == dec_str(failed as nat) + " peer(s) unreachable"@);
        }
        CommandAck { accepted: true, reason: Some(reason) }
    } else {
        CommandAck { accepted: true, reason: None }
    }
}

/// A peer id appears in a membership snapshot exactly when the registry
/// holds a session under it.
pub proof fn lemma_listed_iff_registered(reg: PeerRegistry, rows: Seq<PeerInfo>, id: Seq<char>)
    requires
        rows.len() == reg@.len(),
        forall|i: int| 0 <= i < rows.len() ==> (#[trigger] rows[i]).peer_id@ == reg@[i].0,
    ensures
        reg.contains_id(id) <==> exists|i: int|
            0 <= i < rows.len() && (#[trigger] rows[i]).peer_id@ == id,
{
    if reg.contains_id(id) {
        let i = choose|i: int| 0 <= i < reg@.len() && (#[trigger] reg@[i]).0 == id;
        assert(rows[i].peer_id@ == id);
    }
    if exists|i: int| 0 <= i < rows.len() && (#[trigger] rows[i]).peer_id@ == id {
        let i = choose|i: int| 0 <= i < rows.len() && (#[trigger] rows[i]).peer_id@ == id;
        assert(reg@[i].0 == id);
        assert(reg.contains_id(id));
    }
}

} // verus!
