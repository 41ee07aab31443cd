//! The symmetric per-connection transport logic.
//!
//! One session runs a read loop and a write loop over a split bidirectional
//! connection, whichever side opened it. The decisions of those loops live
//! here: what a session does when it opens, what each incoming frame means,
//! what leaves through the outbound queue and in what order, and what happens
//! when the session ends. The surrounding process performs the actual socket
//! reads and writes and feeds these functions.

use vstd::prelude::*;

use tokio::sync::mpsc::UnboundedSender;

use crate::contracts::{PeerConnectedEvent, PeerDisconnectedEvent, WsMessageEvent};
use crate::registry::PeerRegistry;

verus! {

/// What one incoming frame can be, after the wire library decoded it.
pub enum WsFrame {
    /// A text frame carrying an opaque payload.
    Text(String),
    /// The peer closed the connection.
    Close,
    /// Reading failed; the connection is unusable.
    ReadError,
    /// Any other frame kind, carrying nothing this layer forwards.
    Other,
}

/// What the read loop does with one frame.
pub enum ReadStep {
    /// Forward the payload to collaborators and keep reading.
    Emit(WsMessageEvent),
    /// Keep reading without forwarding anything.
    Skip,
    /// Stop the read loop, which ends the session.
    Terminate,
}

/// Decides the read loop's reaction to one frame: text is forwarded verbatim
/// to collaborators, a close or a read error ends the session, anything else
/// is ignored.
pub fn on_read_frame(peer_id: &str, frame: WsFrame) -> (r: ReadStep)
    ensures
        match frame {
            WsFrame::Text(t) => r matches ReadStep::Emit(ev) && ev.peer_id@ == peer_id@
                && ev.payload@ == t@,
            WsFrame::Close => r is Terminate,
            WsFrame::ReadError => r is Terminate,
            WsFrame::Other => r is Skip,
        },
{
    match frame {
        WsFrame::Text(t) => ReadStep::Emit(
            WsMessageEvent { peer_id: peer_id.to_owned(), payload: t },
        ),
        WsFrame::Close => ReadStep::Terminate,
        WsFrame::ReadError => ReadStep::Terminate,
        WsFrame::Other => ReadStep::Skip,
    }
}

/// Opens a session over an established connection: draws a fresh
/// connection-scoped peer id, registers the outbound channel under it, and
/// reports the notification to emit.
pub fn connection_opened(
    registry: &mut PeerRegistry,
    remote_address: String,
    outbound: UnboundedSender<String>,
) -> (r: (String, PeerConnectedEvent))
    requires
        old(registry).wf(),
    ensures
        final(registry).wf(),
        final(registry).contains_id(r.0@),
        r.1.peer_id@ == r.0@,
        r.1.addr@ == remote_address@,
        !old(registry).contains_id(r.0@) ==> final(registry)@ == old(registry)@.push(
            (r.0@, remote_address@),
        ),
        old(registry).contains_id(r.0@) ==> final(registry)@ == old(registry)@.remove(
            old(registry).idx_of(r.0@),
        ).push((r.0@, remote_address@)),
{
    let peer_id = crate::ident::fresh_uuid();
    let ev = PeerConnectedEvent { peer_id: peer_id.clone(), addr: remote_address.clone() };
    registry.register(peer_id.clone(), remote_address, outbound);
    (peer_id, ev)
}

/// Closes a session: removes the peer from the registry and reports the
/// notification to emit. Either loop ending, for any reason, leads here.
pub fn connection_closed(registry: &mut PeerRegistry, peer_id: &str) -> (ev: PeerDisconnectedEvent)
    requires
        old(registry).wf(),
    ensures
        final(registry).wf(),
        !final(registry).contains_id(peer_id@),
        old(registry).contains_id(peer_id@) ==> final(registry)@ == old(registry)@.remove(
            old(registry).idx_of(peer_id@),
        ),
        !old(registry).contains_id(peer_id@) ==> final(registry)@ == old(registry)@,
        ev.peer_id@ == peer_id@,
{
    registry.deregister(peer_id);
    PeerDisconnectedEvent { peer_id: peer_id.to_owned() }
}

/// The outbound side of one session: the queue of messages submitted for the
/// peer and the record of what already went to the wire. One write loop per
/// session drains the queue front to back; cancelling the loop drops whatever
/// is still pending.
pub struct OutboundQueue {
    pending: Vec<String>,
    delivered_log: Ghost<Seq<Seq<char>>>,
}

impl OutboundQueue {
    /// Everything already handed to the wire, in order.
    pub closed spec fn delivered(self) -> Seq<Seq<char>> {
        self.delivered_log@
    }

    /// Everything ever submitted, in submission order.
    pub closed spec fn enqueued(self) -> Seq<Seq<char>> {
        self.delivered_log@ + self.pending@.map_values(|s: String| s@)
    }

    /// A fresh queue with nothing submitted.
    pub fn new() -> (q: OutboundQueue)
        ensures
            q.delivered() == Seq::<Seq<char>>::empty(),
            q.enqueued() == Seq::<Seq<char>>::empty(),
    {
        let q = OutboundQueue { pending: Vec::new(), delivered_log: Ghost(Seq::empty()) };
        proof {
            assert(q.enqueued() =~= Seq::<Seq<char>>::empty());
        }
        q
    }

    /// Submits one message for the peer.
    pub fn enqueue(&mut self, msg: String)
        ensures
            final(self).enqueued() == old(self).enqueued().push(msg@),
            final(self).delivered() == old(self).delivered(),
    {
        let ghost pre = self.pending@;
        self.pending.push(msg);
        proof {
            assert(self.pending@.map_values(|s: String| s@) =~= pre.map_values(|s: String| s@)
                .push(msg@));
            assert(self.enqueued() =~= old(self).enqueued().push(msg@));
        }
    }

    /// Hands the write loop the next message to put on the wire, in
    /// submission order; nothing is pending exactly when everything
    /// submitted was already delivered.
    pub fn next_to_write(&mut self) -> (r: Option<String>)
        ensures
            final(self).enqueued() == old(self).enqueued(),
            old(self).delivered().len() < old(self).enqueued().len() ==> (r matches Some(m)
                && m@ == old(self).enqueued()[old(self).delivered().len() as int]
                && final(self).delivered() == old(self).delivered().push(m@)),
            old(self).delivered().len() == old(self).enqueued().len() ==> r is None && *final(self)
                == *old(self),
            old(self).delivered().len() <= old(self).enqueued().len(),
    {
        if self.pending.len() == 0 {
            proof {
                assert(self.pending@.map_values(|s: String| s@).len() == 0);
                assert(self.enqueued() =~= self.delivered());
            }
            return None;
        }
        let ghost pre = self.pending@;
        let m = self.pending.remove(0);
        proof {
            let f = |s: String| s@;
            assert(pre.map_values(f)[0] == m@);
            assert(self.pending@ =~= pre.skip(1));
            assert(self.pending@.map_values(f) =~= pre.map_values(f).skip(1));
            assert(old(self).enqueued()[old(self).delivered().len() as int] == m@);
        }
        self.delivered_log = Ghost(self.delivered_log@.push(m@));
        proof {
            assert(self.enqueued() =~= old(self).enqueued());
            assert(self.delivered() =~= old(self).delivered().push(m@));
        }
        Some(m)
    }

    /// Cancels the write loop: whatever is still pending is dropped and will
    /// never reach the wire. The record of what was delivered stands.
    pub fn cancel(&mut self)
        ensures
            final(self).delivered() == old(self).delivered(),
            final(self).enqueued() == old(self).delivered(),
    {
        self.pending.clear();
        proof {
            assert(self.enqueued() =~= self.delivered());
        }
    }
}

/// Delivery is first-in first-out with no reordering, duplication or gaps:
/// at every point, what has gone to the wire is exactly the first
/// `delivered` messages ever submitted, in submission order.
pub proof fn lemma_delivered_is_enqueued_prefix(q: OutboundQueue)
    ensures
        q.delivered().len() <= q.enqueued().len(),
        q.delivered() == q.enqueued().take(q.delivered().len() as int),
{
    assert(q.enqueued().take(q.delivered().len() as int) =~= q.delivered());
}

} // verus!
