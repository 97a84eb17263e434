//! The peer directory fed by mDNS: advertise the local user, browse
//! for others, and keep one record per peer id with a last-seen clock.
//!
//! The mDNS daemon itself lives with the caller; this type makes every
//! decision: the lifecycle gates, what a resolved TXT record does to
//! the directory, what a removal does, and which entries a cleanup
//! tick drops. The local node never enters its own directory.

use vstd::prelude::*;
use crate::codec::{decode_user, encode_user, json_user};
use crate::errors::AppError;
use crate::models::{User, UserV};
use crate::strutil::{str_eq, str_contains, spec_contains};
use vstd::string::StringExecFns;

verus! {

/// Seconds after which a directory entry without a fresh resolution is
/// stale and dropped by the cleanup tick.
pub const PEER_TIMEOUT_SECS: i64 = 600;

/// The port the chat service (and the mDNS record) announces.
pub const SERVICE_PORT: u16 = 8765;

/// The DNS-SD service type this node advertises and browses.
pub fn service_type() -> (r: &'static str)
    ensures
        r@ == ("_ip-chat._tcp.local.")@,
{
    "_ip-chat._tcp.local."
}

/// A peer entry is stale at `now` when its last resolution is
/// [`PEER_TIMEOUT_SECS`] or more ago.
pub open spec fn spec_stale(u: User, now: i64) -> bool {
    now - u.last_seen >= PEER_TIMEOUT_SECS
}

/// Whether some entry carries this user id.
pub open spec fn peers_have_id(ps: Seq<User>, id: Seq<char>) -> bool {
    exists|i: int| 0 <= i < ps.len() && ps[i]@.id == id
}

/// The index of the entry with this user id (unique under the
/// directory's invariant).
pub open spec fn peer_idx(ps: Seq<User>, id: Seq<char>) -> int {
    choose|i: int| 0 <= i < ps.len() && ps[i]@.id == id
}

/// The directory moved from `pre` to `post` by writing the record `uv`
/// over whatever entry carried its id.
pub open spec fn upserted(pre: Seq<User>, post: Seq<User>, uv: UserV) -> bool {
    &&& post.len() > 0
    &&& post.last()@ == uv
    &&& post == pre.filter(|p: User| p@.id != uv.id).push(post.last())
}

/// The mDNS-backed peer directory and its lifecycle flags.
pub struct NetworkDiscovery {
    /// The local user this node advertises.
    pub local_user: User,
    /// One record per discovered peer; ids unique, never the local id.
    pub peers: Vec<User>,
    /// Whether discovery is running.
    pub is_running: bool,
    /// Whether the mDNS service instance is currently registered.
    pub service_registered: bool,
}

impl NetworkDiscovery {
    /// Peer ids are unique, the local node is absent, and the local
    /// record can be advertised.
    pub open spec fn inv(&self) -> bool {
        &&& forall|i: int, j: int|
            0 <= i < j < self.peers@.len() ==> self.peers@[i]@.id != self.peers@[j]@.id
        &&& forall|i: int|
            0 <= i < self.peers@.len() ==> (#[trigger] self.peers@[i])@.id
                != self.local_user@.id
        &&& self.local_user@.wf()
    }

    /// Every entry was seen within the peer timeout, measured at `now`.
    pub open spec fn fresh_at(&self, now: i64) -> bool {
        forall|i: int|
            0 <= i < self.peers@.len() ==> now - (#[trigger] self.peers@[i]).last_seen
                < PEER_TIMEOUT_SECS
    }

    /// An empty, stopped directory for this node.
    pub fn new(local_user: User) -> (r: NetworkDiscovery)
        requires
            local_user.wf(),
        ensures
            r.local_user@ == local_user@,
            r.peers@.len() == 0,
            !r.is_running,
            !r.service_registered,
            r.inv(),
    {
        NetworkDiscovery { local_user, peers: Vec::new(), is_running: false,
            service_registered: false }
    }

    /// The unique mDNS instance name of this node.
    pub fn service_name(&self) -> (r: String)
        ensures
            r@ == ("ip-chat-")@ + self.local_user@.id,
    {
        String::from_str("ip-chat-").concat(self.local_user.id.as_str())
    }

    /// The TXT value (`user` key) this node registers: its own record
    /// as canonical JSON.
    pub fn registration_txt(&self) -> (r: String)
        requires
            self.inv(),
        ensures
            r@ == json_user(self.local_user@),
    {
        encode_user(&self.local_user)
    }

    /// Starts discovery: fails when already running, otherwise marks
    /// the node running with its service registered. The caller
    /// creates the daemon, registers [`Self::service_name`] with
    /// [`Self::registration_txt`], and opens the browse; if any of
    /// that fails it rolls back with [`Self::stop_discovery`].
    pub fn start_discovery(&mut self) -> (r: Result<(), AppError>)
        ensures
            old(self).is_running ==> *final(self) == *old(self) && (r matches Err(e)
                && e matches AppError::DiscoveryError(m) && m@ == ("Discovery already running")@),
            !old(self).is_running ==> r is Ok && final(self).is_running && final(self).service_registered && final(self).peers@ == old(self).peers@ && final(self).local_user@ == old(self).local_user@,
            final(self).inv() == old(self).inv(),
    {
        if self.is_running {
            return Err(AppError::DiscoveryError(String::from_str("Discovery already running")));
        }
        self.is_running = true;
        self.service_registered = true;
        Ok(())
    }

    /// Stops discovery. Always succeeds: stopping a stopped node is a
    /// no-op that changes nothing, stopping a running one clears the
    /// directory and both flags. The caller unregisters the instance
    /// and shuts the daemon down.
    pub fn stop_discovery(&mut self) -> (r: Result<(), AppError>)
        ensures
            r is Ok,
            !old(self).is_running ==> *final(self) == *old(self),
            old(self).is_running ==> !final(self).is_running && !final(self).service_registered && final(self).peers@.len() == 0 && final(self).local_user@
                == old(self).local_user@,
            old(self).inv() ==> final(self).inv(),
    {
        if !self.is_running {
            return Ok(());
        }
        self.is_running = false;
        self.service_registered = false;
        self.peers = Vec::new();
        Ok(())
    }

    /// Asks for a browse restart. Succeeds whether or not discovery
    /// runs; the flag says whether the caller should restart the
    /// browse on the daemon.
    pub fn refresh_peer_discovery(&self) -> (r: Result<bool, AppError>)
        ensures
            r matches Ok(b) && b == self.is_running,
    {
        Ok(self.is_running)
    }

    /// Renames the local user and hands back the fresh TXT value to
    /// re-register. Fails when discovery is not running.
    pub fn broadcast_user_update(&mut self, new_name: String) -> (r: Result<String, AppError>)
        requires
            old(self).inv(),
        ensures
            final(self).inv(),
            !old(self).is_running ==> *final(self) == *old(self) && (r matches Err(e)
                && e matches AppError::DiscoveryError(m) && m@ == ("Discovery not running")@),
            old(self).is_running ==> (r matches Ok(txt) && final(self).local_user@.id == old(
                self,
            ).local_user@.id && final(self).local_user@.name == new_name@ && final(self).local_user@.ip == old(self).local_user@.ip && final(self).local_user@.last_seen
                == old(self).local_user@.last_seen && txt@ == json_user(final(self).local_user@)
                && final(self).peers@ == old(self).peers@ && final(self).is_running && final(self).service_registered == old(self).service_registered),
    {
        if !self.is_running {
            return Err(AppError::DiscoveryError(String::from_str("Discovery not running")));
        }
        let u = User {
            id: self.local_user.id.clone(),
            name: new_name,
            ip: self.local_user.ip.clone(),
            last_seen: self.local_user.last_seen,
        };
        self.local_user = u;
        proof {
            assert forall|i: int|
                0 <= i < self.peers@.len() implies (#[trigger] self.peers@[i])@.id
                != self.local_user@.id by {
                assert(old(self).peers@[i] == self.peers@[i]);
            }
        }
        Ok(encode_user(&self.local_user))
    }

    /// Writes a discovered record over whatever entry carried its id:
    /// the record keeps the peer's name, takes the resolved address
    /// when one came with the resolution, and is stamped seen at
    /// `now`. A record carrying the local id is dropped. Returns the
    /// stored record, to be emitted as a discovery event.
    pub fn upsert_discovered_peer(&mut self, user: User, addr: Option<String>, now: i64) -> (r:
        Option<User>)
        requires
            old(self).inv(),
        ensures
            final(self).inv(),
            final(self).local_user@ == old(self).local_user@,
            final(self).is_running == old(self).is_running,
            final(self).service_registered == old(self).service_registered,
            user@.id == old(self).local_user@.id ==> r is None && final(self).peers@ == old(
                self,
            ).peers@,
            user@.id != old(self).local_user@.id ==> (r matches Some(u) && u@.id == user@.id
                && u@.name == user@.name && u@.last_seen == now && u@.ip == (match addr {
                Option::Some(a) => a@,
                Option::None => user@.ip,
            }) && upserted(old(self).peers@, final(self).peers@, u@)),
    {
        if str_eq(user.id.as_str(), self.local_user.id.as_str()) {
            return None;
        }
        let ip = match addr {
            Option::Some(a) => a,
            Option::None => user.ip,
        };
        let stored = User { id: user.id, name: user.name, ip, last_seen: now };
        let ghost uid = stored@.id;
        let ghost pf = (|p: User| p@.id != uid);
        let result = stored.clone();
        // retain every entry with another id, then append the record
        let n = self.peers.len();
        let mut out: Vec<User> = Vec::new();
        let mut i: usize = 0;
        while i < n
            invariant
                i <= n,
                n == self.peers@.len(),
                self.peers@ == old(self).peers@,
                uid == stored@.id,
                pf == (|p: User| p@.id != uid),
                out@ == self.peers@.take(i as int).filter(pf),
            decreases n - i,
        {
            proof {
                lemma_peer_filter_take_step(self.peers@, pf, i as int);
            }
            if !str_eq(self.peers[i].id.as_str(), stored.id.as_str()) {
                let c = self.peers[i].clone();
                out.push(c);
            }
            proof {
                assert(out@ =~= self.peers@.take(i + 1 as int).filter(pf));
            }
            i += 1;
        }
        proof {
            assert(self.peers@.take(n as int) =~= self.peers@);
        }
        out.push(stored);
        let ghost mid = old(self).peers@.filter(pf);
        self.peers = out;
        proof {
            let cs = self.peers@;
            assert(cs == mid.push(cs.last()));
            assert forall|a: int, b: int|
                0 <= a < b < cs.len() implies cs[a]@.id != cs[b]@.id by {
                if b == cs.len() - 1 {
                    old(self).peers@.lemma_filter_pred(pf, a);
                } else {
                    lemma_peer_filter_unique(old(self).peers@, pf, a, b);
                }
            }
            assert forall|a: int|
                0 <= a < cs.len() implies (#[trigger] cs[a])@.id != self.local_user@.id by {
                if a < cs.len() - 1 {
                    old(self).peers@.lemma_filter_pred(pf, a);
                    old(self).peers@.lemma_filter_contains_rev(pf, cs[a]);
                    let j = choose|j: int|
                        0 <= j < old(self).peers@.len() && old(self).peers@[j] == cs[a];
                }
            }
            assert((|p: User| p@.id != uid) =~= (|p: User| p@.id != result@.id));
        }
        Some(result)
    }

    /// Applies one resolved TXT record: decode the `user` value,
    /// ignore our own advertisement, and store everyone else via
    /// [`Self::upsert_discovered_peer`]. Every well-formed canonical
    /// record of another peer is accepted.
    pub fn handle_service_resolved(&mut self, txt: &str, addr: Option<String>, now: i64) -> (r:
        Option<User>)
        requires
            old(self).inv(),
        ensures
            final(self).inv(),
            final(self).local_user@ == old(self).local_user@,
            final(self).is_running == old(self).is_running,
            final(self).service_registered == old(self).service_registered,
            r is None ==> final(self).peers@ == old(self).peers@,
            r matches Some(u) ==> u@.last_seen == now && u@.id != old(self).local_user@.id
                && upserted(old(self).peers@, final(self).peers@, u@),
            forall|uv: UserV|
                uv.wf() && txt@ == #[trigger] json_user(uv) && uv.id != old(
                    self,
                ).local_user@.id ==> (r matches Some(u) && u@.id == uv.id && u@.name == uv.name
                    && u@.ip == (match addr {
                    Option::Some(a) => a@,
                    Option::None => uv.ip,
                })),
            forall|uv: UserV|
                uv.wf() && txt@ == #[trigger] json_user(uv) && uv.id == old(
                    self,
                ).local_user@.id ==> r is None,
    {
        match decode_user(txt) {
            Option::Some(user) => self.upsert_discovered_peer(user, addr, now),
            Option::None => None,
        }
    }

    /// Applies one mDNS withdrawal: drops every entry whose id occurs
    /// in the removed instance name. Returns the remaining records
    /// when anything was dropped, to be emitted as a peers update.
    pub fn handle_service_removed(&mut self, instance_name: &str) -> (r: Option<Vec<User>>)
        requires
            old(self).inv(),
        ensures
            final(self).inv(),
            final(self).local_user@ == old(self).local_user@,
            final(self).is_running == old(self).is_running,
            final(self).service_registered == old(self).service_registered,
            final(self).peers@ == old(self).peers@.filter(
                |p: User| !spec_contains(instance_name@, p@.id),
            ),
            r is Some <==> final(self).peers@.len() != old(self).peers@.len(),
            r matches Some(l) ==> l@.len() == final(self).peers@.len() && (forall|k: int|
                0 <= k < l@.len() ==> (#[trigger] l@[k])@ == final(self).peers@[k]@),
    {
        let ghost p = (|p: User| !spec_contains(instance_name@, p@.id));
        let n = self.peers.len();
        let mut out: Vec<User> = Vec::new();
        let mut i: usize = 0;
        while i < n
            invariant
                i <= n,
                n == self.peers@.len(),
                self.peers@ == old(self).peers@,
                p == (|p: User| !spec_contains(instance_name@, p@.id)),
                out@ == self.peers@.take(i as int).filter(p),
            decreases n - i,
        {
            proof {
                lemma_peer_filter_take_step(self.peers@, p, i as int);
            }
            if !str_contains(instance_name, self.peers[i].id.as_str()) {
                let c = self.peers[i].clone();
                out.push(c);
            }
            proof {
                assert(out@ =~= self.peers@.take(i + 1 as int).filter(p));
            }
            i += 1;
        }
        proof {
            assert(self.peers@.take(n as int) =~= self.peers@);
        }
        let changed = out.len() != self.peers.len();
        self.peers = out;
        proof {
            let cs = self.peers@;
            assert forall|a: int, b: int|
                0 <= a < b < cs.len() implies cs[a]@.id != cs[b]@.id by {
                lemma_peer_filter_unique(old(self).peers@, p, a, b);
            }
            assert forall|a: int|
                0 <= a < cs.len() implies (#[trigger] cs[a])@.id != self.local_user@.id by {
                old(self).peers@.lemma_filter_contains_rev(p, cs[a]);
                let j = choose|j: int|
                    0 <= j < old(self).peers@.len() && old(self).peers@[j] == cs[a];
            }
        }
        if changed {
            Some(self.get_discovered_peers())
        } else {
            None
        }
    }

    /// Applies one cleanup tick: drops every entry last seen
    /// [`PEER_TIMEOUT_SECS`] or more ago. Afterwards every entry is
    /// fresh at `now`. Returns the remaining records when anything was
    /// dropped.
    pub fn cleanup_stale_peers(&mut self, now: i64) -> (r: Option<Vec<User>>)
        requires
            old(self).inv(),
        ensures
            final(self).inv(),
            final(self).local_user@ == old(self).local_user@,
            final(self).is_running == old(self).is_running,
            final(self).service_registered == old(self).service_registered,
            final(self).peers@ == old(self).peers@.filter(|p: User| !spec_stale(p, now)),
            final(self).fresh_at(now),
            r is Some <==> final(self).peers@.len() != old(self).peers@.len(),
            r matches Some(l) ==> l@.len() == final(self).peers@.len() && (forall|k: int|
                0 <= k < l@.len() ==> (#[trigger] l@[k])@ == final(self).peers@[k]@),
    {
        let ghost p = (|p: User| !spec_stale(p, now));
        let n = self.peers.len();
        let mut out: Vec<User> = Vec::new();
        let mut i: usize = 0;
        while i < n
            invariant
                i <= n,
                n == self.peers@.len(),
                self.peers@ == old(self).peers@,
                p == (|p: User| !spec_stale(p, now)),
                out@ == self.peers@.take(i as int).filter(p),
            decreases n - i,
        {
            proof {
                lemma_peer_filter_take_step(self.peers@, p, i as int);
            }
            let fresh = (now as i128) - (self.peers[i].last_seen as i128) < (
            PEER_TIMEOUT_SECS as i128);
            if fresh {
                let c = self.peers[i].clone();
                out.push(c);
            }
            proof {
                assert(out@ =~= self.peers@.take(i + 1 as int).filter(p));
            }
            i += 1;
        }
        proof {
            assert(self.peers@.take(n as int) =~= self.peers@);
        }
        let changed = out.len() != self.peers.len();
        self.peers = out;
        proof {
            let cs = self.peers@;
            assert forall|a: int, b: int|
                0 <= a < b < cs.len() implies cs[a]@.id != cs[b]@.id by {
                lemma_peer_filter_unique(old(self).peers@, p, a, b);
            }
            assert forall|a: int|
                0 <= a < cs.len() implies (#[trigger] cs[a])@.id != self.local_user@.id by {
                old(self).peers@.lemma_filter_contains_rev(p, cs[a]);
                let j = choose|j: int|
                    0 <= j < old(self).peers@.len() && old(self).peers@[j] == cs[a];
            }
            assert forall|a: int|
                0 <= a < cs.len() implies now - (#[trigger] cs[a]).last_seen
                < PEER_TIMEOUT_SECS by {
                old(self).peers@.lemma_filter_pred(p, a);
            }
        }
        if changed {
            Some(self.get_discovered_peers())
        } else {
            None
        }
    }

    /// Copies of the current directory entries, in table order.
    pub fn get_discovered_peers(&self) -> (r: Vec<User>)
        ensures
            r@.len() == self.peers@.len(),
            forall|k: int| 0 <= k < r@.len() ==> (#[trigger] r@[k])@ == self.peers@[k]@,
    {
        let mut r: Vec<User> = Vec::new();
        let mut i: usize = 0;
        while i < self.peers.len()
            invariant
                i <= self.peers@.len(),
                r@.len() == i,
                forall|k: int| 0 <= k < i ==> (#[trigger] r@[k])@ == self.peers@[k]@,
            decreases self.peers@.len() - i,
        {
            let c = self.peers[i].clone();
            r.push(c);
            i += 1;
        }
        r
    }

    /// The record for this peer id, if the directory holds one.
    pub fn get_peer_by_id(&self, peer_id: &str) -> (r: Option<User>)
        requires
            self.inv(),
        ensures
            r matches Some(u) ==> peers_have_id(self.peers@, peer_id@) && u@ == self.peers@[
                peer_idx(self.peers@, peer_id@)]@,
            r is None ==> !peers_have_id(self.peers@, peer_id@),
    {
        let mut i: usize = 0;
        while i < self.peers.len()
            invariant
                self.inv(),
                i <= self.peers@.len(),
                forall|j: int| 0 <= j < i ==> (#[trigger] self.peers@[j])@.id != peer_id@,
            decreases self.peers@.len() - i,
        {
            if str_eq(self.peers[i].id.as_str(), peer_id) {
                let u = self.peers[i].clone();
                proof {
                    assert(peers_have_id(self.peers@, peer_id@));
                    let k = peer_idx(self.peers@, peer_id@);
                    if k != i {
                        assert(self.peers@[k]@.id == peer_id@);
                    }
                }
                return Some(u);
            }
            i += 1;
        }
        None
    }
}

/// One scan step of a retain loop over the directory.
proof fn lemma_peer_filter_take_step(ps: Seq<User>, p: spec_fn(User) -> bool, i: int)
    requires
        0 <= i < ps.len(),
    ensures
        ps.take(i + 1).filter(p) == if p(ps[i]) {
            ps.take(i).filter(p).push(ps[i])
        } else {
            ps.take(i).filter(p)
        },
{
    reveal(Seq::filter);
    assert(ps.take(i + 1).drop_last() =~= ps.take(i));
    assert(ps.take(i + 1).last() == ps[i]);
}

/// Filtering a directory with unique ids keeps them unique.
proof fn lemma_peer_filter_unique(ps: Seq<User>, p: spec_fn(User) -> bool, a: int, b: int)
    requires
        forall|i: int, j: int| 0 <= i < j < ps.len() ==> ps[i]@.id != ps[j]@.id,
        0 <= a < b < ps.filter(p).len(),
    ensures
        ps.filter(p)[a]@.id != ps.filter(p)[b]@.id,
    decreases ps.len(),
{
    reveal(Seq::filter);
    ps.lemma_filter_len(p);
    let rest = ps.drop_last();
    let last = ps.last();
    let frest = rest.filter(p);
    assert forall|i: int, j: int|
        0 <= i < j < rest.len() implies #[trigger] rest[i]@.id != #[trigger] rest[j]@.id by {
        assert(rest[i] == ps[i] && rest[j] == ps[j]);
    }
    if b < frest.len() {
        lemma_peer_filter_unique(rest, p, a, b);
        assert(ps.filter(p)[a] == frest[a] && ps.filter(p)[b] == frest[b]);
    } else {
        assert(p(last) && b == frest.len() && ps.filter(p) == frest.push(last));
        assert(ps.filter(p)[b] == last);
        assert(ps.filter(p)[a] == frest[a]);
        assert(frest.contains(frest[a]));
        rest.lemma_filter_contains_rev(p, frest[a]);
        let i = choose|i: int| 0 <= i < rest.len() && rest[i] == frest[a];
        assert(ps[i] == frest[a]);
        assert(ps[i]@.id != ps[ps.len() - 1]@.id);
    }
}

/// How many times daemon creation is attempted before discovery
/// start fails.
pub const MAX_DISCOVERY_RETRIES: u8 = 3;

/// What to do after the `attempt`-th mDNS daemon creation failed:
/// wait this many milliseconds and try again (a linear backoff of one
/// second per failed attempt), or give up with the mDNS error carrying
/// the last failure's text.
pub fn mdns_retry_decision(attempt: u8, last_error: &str) -> (r: Result<u64, AppError>)
    requires
        1 <= attempt,
    ensures
        attempt < MAX_DISCOVERY_RETRIES ==> (r matches Ok(ms) && ms == 1000 * attempt as u64),
        attempt >= MAX_DISCOVERY_RETRIES ==> (r matches Err(e) && (e matches AppError::MdnsError(
            m,
        ) && m@ == ("Failed to create mDNS daemon after 3 attempts: ")@ + last_error@)),
{
    if attempt < MAX_DISCOVERY_RETRIES {
        Ok(1000 * (attempt as u64))
    } else {
        Err(
            AppError::MdnsError(
                String::from_str("Failed to create mDNS daemon after 3 attempts: ").concat(
                    last_error,
                ),
            ),
        )
    }
}

/// The label a peer gets in the missing-peer report: `name(id)`.
pub open spec fn peer_label(u: UserV) -> Seq<char> {
    u.name + ("(")@ + u.id + (")")@
}

/// The comma-joined labels of the peers from position `i` on.
pub open spec fn peer_list_text(ps: Seq<User>) -> Seq<char>
    decreases ps.len(),
{
    if ps.len() == 0 {
        Seq::empty()
    } else if ps.len() == 1 {
        peer_label(ps[0]@)
    } else {
        peer_label(ps[0]@) + (", ")@ + peer_list_text(ps.skip(1))
    }
}

/// The report a failed send produces when the peer is absent from the
/// directory even after a refresh.
pub open spec fn missing_peer_text(id: Seq<char>, ps: Seq<User>) -> Seq<char> {
    ("Peer ")@ + id + (
    " not found. The peer may have gone offline or network discovery may have failed. Available peers: ")@
        + if ps.len() == 0 {
        ("none")@
    } else {
        peer_list_text(ps)
    }
}

/// The text of the peer list from position `i` on.
fn peer_list_string(peers: &Vec<User>, i: usize) -> (r: String)
    requires
        i <= peers@.len(),
    ensures
        r@ == peer_list_text(peers@.skip(i as int)),
    decreases peers@.len() - i,
{
    if i == peers.len() {
        proof {
            assert(peers@.skip(i as int) =~= Seq::<User>::empty());
        }
        String::new()
    } else {
        let u = &peers[i];
        let label = u.name.clone().concat("(").concat(u.id.as_str()).concat(")");
        proof {
            assert(peers@.skip(i as int)[0] == peers@[i as int]);
            assert(label@ =~= peer_label(peers@[i as int]@));
        }
        if i + 1 == peers.len() {
            proof {
                assert(peers@.skip(i as int).len() == 1);
            }
            label
        } else {
            let rest = peer_list_string(peers, i + 1);
            proof {
                assert(peers@.skip(i as int).skip(1) =~= peers@.skip(i + 1 as int));
                assert(peers@.skip(i as int).len() > 1);
            }
            label.concat(", ").concat(rest.as_str())
        }
    }
}

/// Builds the report a failed send surfaces when the peer is missing
/// from the directory: it names the peer id and lists who is known.
pub fn describe_missing_peer(peer_id: &str, peers: &Vec<User>) -> (r: String)
    ensures
        r@ == missing_peer_text(peer_id@, peers@),
{
    let head = String::from_str("Peer ").concat(peer_id).concat(
        " not found. The peer may have gone offline or network discovery may have failed. Available peers: ",
    );
    if peers.len() == 0 {
        head.concat("none")
    } else {
        let list = peer_list_string(peers, 0);
        proof {
            assert(peers@.skip(0) =~= peers@);
        }
        head.concat(list.as_str())
    }
}

} // verus!
