//! The per-peer connection table: one cached TCP session per peer,
//! touched on traffic, marked inactive on failure, and pruned when
//! idle. The sockets themselves live with the caller; the table holds
//! their bookkeeping and makes every reuse/prune decision.

use vstd::prelude::*;
use crate::models::User;
use crate::protocol::{classify_envelope, encode_heartbeat_response, json_heartbeat,
    json_heartbeat_response, json_msg_envelope, is_msg_envelope, is_heartbeat,
    is_heartbeat_response, is_chat_envelope, Envelope};
use crate::models::Message;
use crate::models::MessageV;
use crate::strutil::str_eq;
use vstd::pervasive::VecAdditionalExecFns;

verus! {

/// Seconds without traffic after which a connection counts as idle.
pub const CONNECTION_IDLE_SECS: i64 = 300;

/// Bookkeeping for one cached session to a peer. The stream itself
/// stays with the I/O layer, keyed by the same peer id.
#[derive(Debug)]
pub struct PeerConnection {
    /// The peer this session reaches.
    pub peer_id: String,
    /// The remote socket address, as text.
    pub peer_addr: String,
    /// When the session last carried traffic (Unix seconds).
    pub last_activity: i64,
    /// Cleared by a failed write; a cleared session is never reused.
    pub is_active: bool,
}

/// A connection is idle when it carried no traffic for
/// [`CONNECTION_IDLE_SECS`] or longer.
pub open spec fn spec_idle(c: PeerConnection, now: i64) -> bool {
    now - c.last_activity >= CONNECTION_IDLE_SECS
}

/// A connection worth reusing: active and not idle.
pub open spec fn spec_usable(c: PeerConnection, now: i64) -> bool {
    c.is_active && !spec_idle(c, now)
}

impl PeerConnection {
    /// A fresh session record, active, with its activity clock at
    /// `now`.
    pub fn new(peer_id: String, peer_addr: String, now: i64) -> (r: PeerConnection)
        ensures
            r.peer_id@ == peer_id@,
            r.peer_addr@ == peer_addr@,
            r.last_activity == now,
            r.is_active,
    {
        PeerConnection { peer_id, peer_addr, last_activity: now, is_active: true }
    }

    /// Notes traffic on the session.
    pub fn update_activity(&mut self, now: i64)
        ensures
            final(self).peer_id@ == old(self).peer_id@,
            final(self).peer_addr@ == old(self).peer_addr@,
            final(self).last_activity == now,
            final(self).is_active == old(self).is_active,
    {
        self.last_activity = now;
    }

    /// Whether the session sat without traffic for the idle timeout.
    pub fn is_idle(&self, now: i64) -> (r: bool)
        ensures
            r == spec_idle(*self, now),
    {
        (now as i128) - (self.last_activity as i128) >= (CONNECTION_IDLE_SECS as i128)
    }

    /// Marks the session unusable after a failed write.
    pub fn set_inactive(&mut self)
        ensures
            final(self).peer_id@ == old(self).peer_id@,
            final(self).peer_addr@ == old(self).peer_addr@,
            final(self).last_activity == old(self).last_activity,
            !final(self).is_active,
    {
        self.is_active = false;
    }

    /// Whether the session may still be written to.
    pub fn is_active(&self) -> (r: bool)
        ensures
            r == self.is_active,
    {
        self.is_active
    }
}

/// Whether some entry carries this peer id.
pub open spec fn conns_have_id(cs: Seq<PeerConnection>, id: Seq<char>) -> bool {
    exists|i: int| 0 <= i < cs.len() && cs[i].peer_id@ == id
}

/// The index of the entry with this peer id (unique under the table's
/// invariant).
pub open spec fn conn_idx(cs: Seq<PeerConnection>, id: Seq<char>) -> int {
    choose|i: int| 0 <= i < cs.len() && cs[i].peer_id@ == id
}

/// What an inbound envelope asks the connection layer to do.
pub enum InboundAction {
    /// Write this heartbeat-response envelope back on the stream.
    RespondHeartbeat(String),
    /// Hand this message to the chat layer and emit its event.
    DeliverMessage(Message),
    /// Drop the payload silently.
    Ignore,
}

/// The table of cached sessions, one per peer.
pub struct ConnectionManager {
    /// The local user; inbound messages are checked against its id.
    pub local_user: User,
    /// The cached sessions; peer ids are unique.
    pub connections: Vec<PeerConnection>,
}

impl ConnectionManager {
    /// Peer ids are unique in the table.
    pub open spec fn inv(&self) -> bool {
        forall|i: int, j: int|
            0 <= i < j < self.connections@.len() ==> self.connections@[i].peer_id@
                != self.connections@[j].peer_id@
    }

    /// An empty table for this user.
    pub fn new(local_user: User) -> (r: ConnectionManager)
        ensures
            r.local_user@ == local_user@,
            r.connections@.len() == 0,
            r.inv(),
    {
        ConnectionManager { local_user, connections: Vec::new() }
    }

    /// The index of a session worth reusing for this peer, if one is
    /// cached: the caller dials only when this returns `None`.
    pub fn find_usable_connection(&self, peer_id: &str, now: i64) -> (r: Option<usize>)
        requires
            self.inv(),
        ensures
            r matches Some(i) ==> i < self.connections@.len() && self.connections@[
                i as int].peer_id@ == peer_id@ && spec_usable(self.connections@[i as int], now),
            r is None ==> forall|i: int|
                0 <= i < self.connections@.len() && self.connections@[i].peer_id@ == peer_id@
                    ==> !spec_usable(self.connections@[i], now),
    {
        let mut i: usize = 0;
        while i < self.connections.len()
            invariant
                i <= self.connections@.len(),
                forall|j: int|
                    0 <= j < i && self.connections@[j].peer_id@ == peer_id@ ==> !spec_usable(
                        self.connections@[j],
                        now,
                    ),
            decreases self.connections@.len() - i,
        {
            if str_eq(self.connections[i].peer_id.as_str(), peer_id) {
                let c = &self.connections[i];
                if c.is_active() && !c.is_idle(now) {
                    return Some(i);
                }
            }
            i += 1;
        }
        None
    }

    /// Caches a freshly dialed session, dropping any older entry for
    /// the same peer first.
    pub fn register_connection(&mut self, conn: PeerConnection)
        requires
            old(self).inv(),
        ensures
            final(self).inv(),
            final(self).local_user@ == old(self).local_user@,
            final(self).connections@ == old(self).connections@.filter(
                |c: PeerConnection| c.peer_id@ != conn.peer_id@,
            ).push(conn),
    {
        let pid = conn.peer_id.clone();
        self.remove_connection(pid.as_str());
        let ghost mid = self.connections@;
        self.connections.push(conn);
        proof {
            assert((|c: PeerConnection| c.peer_id@ != pid@) =~= (|c: PeerConnection| c.peer_id@
                != conn.peer_id@));
            let cs = self.connections@;
            assert forall|a: int, b: int|
                0 <= a < b < cs.len() implies cs[a].peer_id@ != cs[b].peer_id@ by {
                if b == cs.len() - 1 {
                    assert(cs[a] == mid[a]);
                    old(self).connections@.lemma_filter_pred(
                        |c: PeerConnection| c.peer_id@ != pid@,
                        a,
                    );
                } else {
                    assert(cs[a] == mid[a] && cs[b] == mid[b]);
                }
            }
        }
    }

    /// Notes a successful write to this peer: its session carried
    /// traffic at `now`.
    pub fn note_send_success(&mut self, peer_id: &str, now: i64)
        requires
            old(self).inv(),
        ensures
            final(self).inv(),
            final(self).local_user@ == old(self).local_user@,
            final(self).connections@.len() == old(self).connections@.len(),
            forall|i: int|
                0 <= i < old(self).connections@.len() ==> {
                    let c0 = old(self).connections@[i];
                    let c1 = #[trigger] final(self).connections@[i];
                    if c0.peer_id@ == peer_id@ {
                        c1.peer_id@ == c0.peer_id@ && c1.peer_addr@ == c0.peer_addr@
                            && c1.last_activity == now && c1.is_active == c0.is_active
                    } else {
                        c1 == c0
                    }
                },
    {
        let mut i: usize = 0;
        while i < self.connections.len()
            invariant
                old(self).inv(),
                self.local_user@ == old(self).local_user@,
                i <= self.connections@.len(),
                self.connections@.len() == old(self).connections@.len(),
                forall|j: int|
                    0 <= j < self.connections@.len() ==> {
                        let c0 = old(self).connections@[j];
                        let c1 = #[trigger] self.connections@[j];
                        if j < i && c0.peer_id@ == peer_id@ {
                            c1.peer_id@ == c0.peer_id@ && c1.peer_addr@ == c0.peer_addr@
                                && c1.last_activity == now && c1.is_active == c0.is_active
                        } else {
                            c1 == c0
                        }
                    },
            decreases self.connections@.len() - i,
        {
            if str_eq(self.connections[i].peer_id.as_str(), peer_id) {
                let c0 = self.connections[i].duplicate();
                let c = PeerConnection { last_activity: now, ..c0 };
                VecAdditionalExecFns::set(&mut self.connections, i, c);
            }
            i += 1;
        }
        proof {
            assert(self.inv()) by {
                assert(forall|i: int, j: int|
                    0 <= i < j < self.connections@.len() ==> self.connections@[i].peer_id@
                        == old(self).connections@[i].peer_id@ && self.connections@[j].peer_id@
                        == old(self).connections@[j].peer_id@);
            }
        }
    }

    /// Forgets the session for this peer, if one is cached. A failed
    /// write must come here before any further send is attempted.
    pub fn remove_connection(&mut self, peer_id: &str)
        requires
            old(self).inv(),
        ensures
            final(self).inv(),
            final(self).local_user@ == old(self).local_user@,
            final(self).connections@ == old(self).connections@.filter(
                |c: PeerConnection| c.peer_id@ != peer_id@,
            ),
            !conns_have_id(final(self).connections@, peer_id@),
    {
        let ghost p = (|c: PeerConnection| c.peer_id@ != peer_id@);
        let n = self.connections.len();
        let mut out: Vec<PeerConnection> = Vec::new();
        let mut i: usize = 0;
        while i < n
            invariant
                i <= n,
                n == self.connections@.len(),
                self.connections@ == old(self).connections@,
                self.local_user@ == old(self).local_user@,
                p == (|c: PeerConnection| c.peer_id@ != peer_id@),
                out@ == self.connections@.take(i as int).filter(p),
            decreases n - i,
        {
            proof {
                lemma_filter_take_step(self.connections@, p, i as int);
            }
            if !str_eq(self.connections[i].peer_id.as_str(), peer_id) {
                let c = self.connections[i].duplicate();
                out.push(c);
            }
            proof {
                assert(out@ =~= self.connections@.take(i + 1 as int).filter(p));
            }
            i += 1;
        }
        proof {
            assert(self.connections@.take(n as int) =~= self.connections@);
        }
        self.connections = out;
        proof {
            let cs = self.connections@;
            assert forall|a: int, b: int|
                0 <= a < b < cs.len() implies cs[a].peer_id@ != cs[b].peer_id@ by {
                lemma_filter_unique(old(self).connections@, p, a, b);
            }
            assert forall|i2: int| 0 <= i2 < cs.len() implies cs[i2].peer_id@ != peer_id@ by {
                old(self).connections@.lemma_filter_pred(p, i2);
            }
        }
    }

    /// The peers whose cached sessions are still marked active, in
    /// table order.
    pub fn get_active_connections(&self) -> (r: Vec<String>)
        ensures
            r@.map_values(|s: String| s@) == self.connections@.filter(
                |c: PeerConnection| c.is_active,
            ).map_values(|c: PeerConnection| c.peer_id@),
    {
        let ghost p = (|c: PeerConnection| c.is_active);
        let ghost f = (|c: PeerConnection| c.peer_id@);
        let ghost g = (|s: String| s@);
        let mut r: Vec<String> = Vec::new();
        let mut i: usize = 0;
        while i < self.connections.len()
            invariant
                i <= self.connections@.len(),
                p == (|c: PeerConnection| c.is_active),
                f == (|c: PeerConnection| c.peer_id@),
                g == (|s: String| s@),
                r@.map_values(g) == self.connections@.take(i as int).filter(p).map_values(f),
            decreases self.connections@.len() - i,
        {
            proof {
                lemma_filter_take_step(self.connections@, p, i as int);
            }
            let ghost r0 = r@;
            if self.connections[i].is_active() {
                r.push(self.connections[i].peer_id.clone());
                proof {
                    assert(r@.map_values(g) =~= r0.map_values(g).push(
                        self.connections@[i as int].peer_id@,
                    ));
                    assert(self.connections@.take(i + 1 as int).filter(p).map_values(f)
                        =~= self.connections@.take(i as int).filter(p).map_values(f).push(
                        f(self.connections@[i as int]),
                    ));
                }
            }
            i += 1;
        }
        proof {
            assert(self.connections@.take(self.connections@.len() as int)
                =~= self.connections@);
        }
        r
    }

    /// Forgets every session; the caller closes the streams.
    pub fn close_all_connections(&mut self)
        ensures
            final(self).inv(),
            final(self).local_user@ == old(self).local_user@,
            final(self).connections@.len() == 0,
    {
        self.connections = Vec::new();
    }

    /// The peers whose sessions deserve a heartbeat this tick: active
    /// and not idle, in table order. The rest are pruned by
    /// [`Self::sweep_stale_connections`].
    pub fn heartbeat_candidates(&self, now: i64) -> (r: Vec<String>)
        ensures
            r@.map_values(|s: String| s@) == self.connections@.filter(
                |c: PeerConnection| spec_usable(c, now),
            ).map_values(|c: PeerConnection| c.peer_id@),
    {
        let ghost p = (|c: PeerConnection| spec_usable(c, now));
        let ghost f = (|c: PeerConnection| c.peer_id@);
        let ghost g = (|s: String| s@);
        let mut r: Vec<String> = Vec::new();
        let mut i: usize = 0;
        while i < self.connections.len()
            invariant
                i <= self.connections@.len(),
                p == (|c: PeerConnection| spec_usable(c, now)),
                f == (|c: PeerConnection| c.peer_id@),
                g == (|s: String| s@),
                r@.map_values(g) == self.connections@.take(i as int).filter(p).map_values(f),
            decreases self.connections@.len() - i,
        {
            proof {
                lemma_filter_take_step(self.connections@, p, i as int);
            }
            let ghost r0 = r@;
            let c = &self.connections[i];
            if c.is_active() && !c.is_idle(now) {
                r.push(c.peer_id.clone());
                proof {
                    assert(r@.map_values(g) =~= r0.map_values(g).push(
                        self.connections@[i as int].peer_id@,
                    ));
                    assert(self.connections@.take(i + 1 as int).filter(p).map_values(f)
                        =~= self.connections@.take(i as int).filter(p).map_values(f).push(
                        f(self.connections@[i as int]),
                    ));
                }
            }
            i += 1;
        }
        proof {
            assert(self.connections@.take(self.connections@.len() as int)
                =~= self.connections@);
        }
        r
    }

    /// Drops every session that is inactive or idle. Afterwards each
    /// remaining session is active and carried traffic within the idle
    /// timeout.
    pub fn sweep_stale_connections(&mut self, now: i64)
        requires
            old(self).inv(),
        ensures
            final(self).inv(),
            final(self).local_user@ == old(self).local_user@,
            final(self).connections@ == old(self).connections@.filter(
                |c: PeerConnection| spec_usable(c, now),
            ),
            forall|i: int|
                0 <= i < final(self).connections@.len() ==> (#[trigger] final(self).connections@[i]).is_active && now - final(self).connections@[i].last_activity
                    < CONNECTION_IDLE_SECS,
    {
        let ghost p = (|c: PeerConnection| spec_usable(c, now));
        let n = self.connections.len();
        let mut out: Vec<PeerConnection> = Vec::new();
        let mut i: usize = 0;
        while i < n
            invariant
                i <= n,
                n == self.connections@.len(),
                self.connections@ == old(self).connections@,
                self.local_user@ == old(self).local_user@,
                p == (|c: PeerConnection| spec_usable(c, now)),
                out@ == self.connections@.take(i as int).filter(p),
            decreases n - i,
        {
            proof {
                lemma_filter_take_step(self.connections@, p, i as int);
            }
            let keep = self.connections[i].is_active() && !self.connections[i].is_idle(now);
            if keep {
                let c = self.connections[i].duplicate();
                out.push(c);
            }
            proof {
                assert(out@ =~= self.connections@.take(i + 1 as int).filter(p));
            }
            i += 1;
        }
        proof {
            assert(self.connections@.take(n as int) =~= self.connections@);
        }
        self.connections = out;
        proof {
            let cs = self.connections@;
            assert forall|a: int, b: int|
                0 <= a < b < cs.len() implies cs[a].peer_id@ != cs[b].peer_id@ by {
                lemma_filter_unique(old(self).connections@, p, a, b);
            }
            assert forall|i2: int|
                0 <= i2 < cs.len() implies cs[i2].is_active && now - cs[i2].last_activity
                < CONNECTION_IDLE_SECS by {
                old(self).connections@.lemma_filter_pred(p, i2);
            }
        }
    }

    /// What to do with one envelope read from an inbound stream:
    /// answer a heartbeat with a response stamped `now`, deliver a
    /// message addressed to the local user, and ignore everything
    /// else — responses, messages for someone else, unknown shapes.
    pub fn handle_incoming_envelope(&self, payload: &str, now: i64) -> (r: InboundAction)
        ensures
            forall|t: i64|
                payload@ == #[trigger] json_heartbeat(t) ==> (r matches
                    InboundAction::RespondHeartbeat(resp) && resp@ == json_heartbeat_response(
                    now,
                )),
            r matches InboundAction::RespondHeartbeat(resp) ==> resp@ == json_heartbeat_response(
                now,
            ) && is_heartbeat(payload@),
            forall|mv: MessageV, n: u64|
                mv.wf() && payload@ == #[trigger] json_msg_envelope(mv, n) && mv.recipient_id
                    == self.local_user@.id ==> (r matches InboundAction::DeliverMessage(m) && m@
                    == mv),
            r matches InboundAction::DeliverMessage(m) ==> m.wf() && m@.recipient_id
                == self.local_user@.id && is_msg_envelope(payload@, m@),
            forall|t: i64|
                payload@ == #[trigger] json_heartbeat_response(t) ==> r is Ignore,
            forall|mv: MessageV, n: u64|
                mv.wf() && payload@ == #[trigger] json_msg_envelope(mv, n) && mv.recipient_id
                    != self.local_user@.id ==> r is Ignore,
            !is_heartbeat(payload@) && !is_heartbeat_response(payload@) && !is_chat_envelope(
                payload@,
            ) ==> r is Ignore,
    {
        match classify_envelope(payload) {
            Envelope::Heartbeat(t) => {
                proof {
                    assert(payload@ == json_heartbeat(t));
                    assert(is_heartbeat(payload@));
                }
                InboundAction::RespondHeartbeat(encode_heartbeat_response(now))
            },
            Envelope::ChatMessage(m) => {
                if str_eq(m.recipient_id.as_str(), self.local_user.id.as_str()) {
                    InboundAction::DeliverMessage(m)
                } else {
                    InboundAction::Ignore
                }
            },
            Envelope::HeartbeatResponse(_) => InboundAction::Ignore,
            Envelope::Unknown => InboundAction::Ignore,
        }
    }
}

impl PeerConnection {
    /// A field-for-field copy of the record.
    pub fn duplicate(&self) -> (r: PeerConnection)
        ensures
            r == *self,
    {
        PeerConnection {
            peer_id: self.peer_id.clone(),
            peer_addr: self.peer_addr.clone(),
            last_activity: self.last_activity,
            is_active: self.is_active,
        }
    }
}

/// One scan step of a retain loop: filtering one more element appends
/// it when the predicate admits it.
proof fn lemma_filter_take_step(
    cs: Seq<PeerConnection>,
    p: spec_fn(PeerConnection) -> bool,
    i: int,
)
    requires
        0 <= i < cs.len(),
    ensures
        cs.take(i + 1).filter(p) == if p(cs[i]) {
            cs.take(i).filter(p).push(cs[i])
        } else {
            cs.take(i).filter(p)
        },
{
    reveal(Seq::filter);
    assert(cs.take(i + 1).drop_last() =~= cs.take(i));
    assert(cs.take(i + 1).last() == cs[i]);
}

/// Filtering a sequence with unique peer ids keeps them unique.
proof fn lemma_filter_unique(
    cs: Seq<PeerConnection>,
    p: spec_fn(PeerConnection) -> bool,
    a: int,
    b: int,
)
    requires
        forall|i: int, j: int| 0 <= i < j < cs.len() ==> cs[i].peer_id@ != cs[j].peer_id@,
        0 <= a < b < cs.filter(p).len(),
    ensures
        cs.filter(p)[a].peer_id@ != cs.filter(p)[b].peer_id@,
    decreases cs.len(),
{
    reveal(Seq::filter);
    cs.lemma_filter_len(p);
    let rest = cs.drop_last();
    let last = cs.last();
    let frest = rest.filter(p);
    assert forall|i: int, j: int|
        0 <= i < j < rest.len() implies #[trigger] rest[i].peer_id@ != #[trigger] rest[j].peer_id@ by {
        assert(rest[i] == cs[i] && rest[j] == cs[j]);
    }
    if b < frest.len() {
        lemma_filter_unique(rest, p, a, b);
        assert(cs.filter(p)[a] == frest[a] && cs.filter(p)[b] == frest[b]);
    } else {
        assert(p(last) && b == frest.len() && cs.filter(p) == frest.push(last));
        assert(cs.filter(p)[b] == last);
        assert(cs.filter(p)[a] == frest[a]);
        assert(frest.contains(frest[a]));
        rest.lemma_filter_contains_rev(p, frest[a]);
        let i = choose|i: int| 0 <= i < rest.len() && rest[i] == frest[a];
        assert(cs[i] == frest[a]);
        assert(cs[i].peer_id@ != cs[cs.len() - 1].peer_id@);
    }
}

} // verus!
