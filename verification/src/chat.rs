//! The per-conversation message store and the chat operations over it.
//!
//! Messages live in buckets keyed by conversation partner: the local
//! user's own bucket holds the send history, a peer's bucket holds
//! what that peer sent. Buckets keep insertion order; ordering by
//! timestamp is imposed when a conversation is read.

use vstd::prelude::*;
use crate::errors::AppError;
use crate::models::{Message, MessageV, User};
use crate::strutil::str_eq;
use vstd::pervasive::VecAdditionalExecFns;

verus! {

/// One conversation bucket: every stored message whose conversation
/// partner this is, in insertion order.
pub struct Bucket {
    /// The conversation partner (a peer id, or the local user's id for
    /// the send history).
    pub partner: String,
    /// The stored messages, oldest first.
    pub msgs: Vec<Message>,
}

/// Whether some bucket carries this partner id.
pub open spec fn buckets_have(bs: Seq<Bucket>, id: Seq<char>) -> bool {
    exists|i: int| 0 <= i < bs.len() && bs[i].partner@ == id
}

/// The index of the bucket with this partner id (unique under the
/// store's invariant).
pub open spec fn bucket_idx(bs: Seq<Bucket>, id: Seq<char>) -> int {
    choose|i: int| 0 <= i < bs.len() && bs[i].partner@ == id
}

/// The messages stored under this partner id; empty without a bucket.
pub open spec fn bucket_msgs(bs: Seq<Bucket>, id: Seq<char>) -> Seq<Message> {
    if buckets_have(bs, id) {
        bs[bucket_idx(bs, id)].msgs@
    } else {
        Seq::empty()
    }
}

/// Non-decreasing timestamps.
pub open spec fn sorted_by_ts(s: Seq<Message>) -> bool {
    forall|i: int, j: int| 0 <= i < j < s.len() ==> s[i].timestamp <= s[j].timestamp
}

/// What marking a conversation read does to one record: the read flag
/// flips on messages addressed to the local user; nothing else moves.
pub open spec fn mark_read_v(m: MessageV, local_id: Seq<char>) -> MessageV {
    if m.recipient_id == local_id {
        MessageV {
            id: m.id,
            sender_id: m.sender_id,
            recipient_id: m.recipient_id,
            content: m.content,
            timestamp: m.timestamp,
            read: true,
        }
    } else {
        m
    }
}

/// Marking a conversation read twice reads the same as once: the
/// operation is idempotent.
pub proof fn lemma_mark_read_idempotent(msgs: Seq<MessageV>, local_id: Seq<char>)
    ensures
        msgs.map_values(|m: MessageV| mark_read_v(m, local_id)).map_values(
            |m: MessageV| mark_read_v(m, local_id),
        ) == msgs.map_values(|m: MessageV| mark_read_v(m, local_id)),
{
    let once = msgs.map_values(|m: MessageV| mark_read_v(m, local_id));
    let twice = once.map_values(|m: MessageV| mark_read_v(m, local_id));
    assert forall|i: int| 0 <= i < twice.len() implies twice[i] == once[i] by {
        assert(once[i] == mark_read_v(msgs[i], local_id));
    }
    assert(twice =~= once);
}

/// Appending a message no older than the bucket's newest keeps the
/// bucket's timestamps non-decreasing: with a monotone clock, every
/// bucket stays ordered in insertion order.
pub proof fn lemma_append_keeps_order(msgs: Seq<Message>, m: Message)
    requires
        sorted_by_ts(msgs),
        msgs.len() > 0 ==> msgs.last().timestamp <= m.timestamp,
    ensures
        sorted_by_ts(msgs.push(m)),
{
    let s = msgs.push(m);
    assert forall|i: int, j: int|
        0 <= i < j < s.len() implies s[i].timestamp <= s[j].timestamp by {
        if j == s.len() - 1 {
            assert(s[i] == msgs[i]);
            if i < msgs.len() - 1 {
                assert(msgs[i].timestamp <= msgs[msgs.len() - 1].timestamp);
            }
        } else {
            assert(s[i] == msgs[i] && s[j] == msgs[j]);
        }
    }
}

/// Stable insertion of one record: `m` goes after every stored record
/// whose timestamp does not exceed `m`'s, and before the rest.
pub open spec fn insert_by_ts(s: Seq<Message>, m: Message) -> Seq<Message>
    decreases s.len(),
{
    if s.len() == 0 {
        seq![m]
    } else if s.last().timestamp <= m.timestamp {
        s.push(m)
    } else {
        insert_by_ts(s.drop_last(), m).push(s.last())
    }
}

/// The stable sort by timestamp: records with equal timestamps keep
/// their relative order.
pub open spec fn sort_msgs_by_ts(s: Seq<Message>) -> Seq<Message>
    decreases s.len(),
{
    if s.len() == 0 {
        Seq::empty()
    } else {
        insert_by_ts(sort_msgs_by_ts(s.drop_last()), s.last())
    }
}

/// Inserting at the first position whose timestamp exceeds the new
/// record's is exactly the stable insertion.
proof fn lemma_insert_by_ts_at(s: Seq<Message>, m: Message, k: int)
    requires
        sorted_by_ts(s),
        0 <= k <= s.len(),
        forall|j: int| 0 <= j < k ==> (#[trigger] s[j]).timestamp <= m.timestamp,
        k == s.len() || s[k].timestamp > m.timestamp,
    ensures
        insert_by_ts(s, m) == s.take(k) + seq![m] + s.skip(k),
    decreases s.len(),
{
    if s.len() == 0 {
        assert(insert_by_ts(s, m) == seq![m]);
        assert(s.take(0) + seq![m] + s.skip(0) =~= seq![m]);
    } else if s.last().timestamp <= m.timestamp {
        assert(k == s.len() as int) by {
            if k < s.len() {
                assert(s[k].timestamp <= s[s.len() - 1].timestamp);
            }
        }
        assert(insert_by_ts(s, m) == s.push(m));
        assert(s.take(k) =~= s);
        assert(s.take(k) + seq![m] + s.skip(k) =~= s.push(m));
    } else {
        let rest = s.drop_last();
        assert(k < s.len()) by {
            if k == s.len() {
                assert(s[s.len() - 1].timestamp <= m.timestamp);
            }
        }
        assert(sorted_by_ts(rest)) by {
            assert(forall|a: int, b: int|
                0 <= a < b < rest.len() ==> (#[trigger] rest[a]).timestamp
                    <= (#[trigger] rest[b]).timestamp) by {
                assert(forall|a: int| 0 <= a < rest.len() ==> #[trigger] rest[a] == s[a]);
            }
        }
        lemma_insert_by_ts_at(rest, m, k);
        assert(insert_by_ts(s, m) == insert_by_ts(rest, m).push(s.last()));
        assert((rest.take(k) + seq![m] + rest.skip(k)).push(s.last()) =~= s.take(k) + seq![m]
            + s.skip(k));
    }
}

/// Copies of the records in a buffer, in order.
fn clone_messages(v: &Vec<Message>) -> (r: Vec<Message>)
    ensures
        r@ == v@,
{
    let mut r: Vec<Message> = Vec::new();
    let mut i: usize = 0;
    while i < v.len()
        invariant
            i <= v@.len(),
            r@ == v@.take(i as int),
        decreases v@.len() - i,
    {
        let c = v[i].clone();
        r.push(c);
        proof {
            assert(v@.take(i + 1 as int) =~= v@.take(i as int).push(v@[i as int]));
        }
        i += 1;
    }
    proof {
        assert(v@.take(v@.len() as int) =~= v@);
    }
    r
}

/// Stable insertion sort by timestamp: the result is exactly
/// [`sort_msgs_by_ts`] of the input — the same records with
/// non-decreasing timestamps, equal timestamps in input order.
fn sort_messages(v: Vec<Message>) -> (r: Vec<Message>)
    ensures
        sorted_by_ts(r@),
        r@.to_multiset() == v@.to_multiset(),
        r@ == sort_msgs_by_ts(v@),
{
    let mut r: Vec<Message> = Vec::new();
    proof {
        assert(r@ =~= v@.take(0));
        assert(r@ =~= sort_msgs_by_ts(v@.take(0)));
    }
    let mut i: usize = 0;
    while i < v.len()
        invariant
            i <= v@.len(),
            sorted_by_ts(r@),
            r@.to_multiset() == v@.take(i as int).to_multiset(),
            r@ == sort_msgs_by_ts(v@.take(i as int)),
        decreases v@.len() - i,
    {
        let m = v[i].clone();
        let mut k: usize = 0;
        while k < r.len() && r[k].timestamp <= m.timestamp
            invariant
                k <= r@.len(),
                forall|j: int| 0 <= j < k ==> (#[trigger] r@[j]).timestamp <= m.timestamp,
            decreases r@.len() - k,
        {
            k += 1;
        }
        let ghost r0 = r@;
        r.insert(k, m);
        proof {
            assert(r@ =~= r0.take(k as int) + seq![m] + r0.skip(k as int));
            lemma_insert_by_ts_at(r0, m, k as int);
            assert(r@ == insert_by_ts(r0, m));
            assert(v@.take(i + 1 as int).drop_last() =~= v@.take(i as int));
            assert(v@.take(i + 1 as int).last() == v@[i as int]);
            assert(r@ == sort_msgs_by_ts(v@.take(i + 1 as int)));
            assert forall|a: int, b: int|
                0 <= a < b < r@.len() implies r@[a].timestamp <= r@[b].timestamp by {
                let ts = |x: int|
                    if x < k {
                        r0[x]
                    } else if x == k {
                        m
                    } else {
                        r0[x - 1]
                    };
                assert(r@[a] == ts(a) && r@[b] == ts(b));
                if a < k && b == k {
                } else if a == k && b > k {
                    assert(k < r0.len());
                    assert(r0[k as int].timestamp > m.timestamp);
                    assert(r0[b - 1].timestamp >= r0[k as int].timestamp);
                } else if a < k && b > k {
                    assert(r0[a].timestamp <= r0[b - 1].timestamp);
                } else {
                }
            }
            broadcast use vstd::seq_lib::group_to_multiset_ensures;

            assert(r@.remove(k as int) =~= r0);
            assert(r@.remove(k as int).to_multiset() =~= r@.to_multiset().remove(
                r@[k as int],
            ));
            assert(r@.to_multiset().contains(m)) by {
                assert(r@[k as int] == m);
            }
            assert(r@.to_multiset() =~= r0.to_multiset().insert(m));
            assert(v@.take(i + 1 as int) =~= v@.take(i as int).push(v@[i as int]));
            assert(v@.take(i + 1 as int).to_multiset() =~= v@.take(i as int).to_multiset().insert(
                v@[i as int],
            ));
        }
        i += 1;
    }
    proof {
        assert(v@.take(v@.len() as int) =~= v@);
    }
    r
}

/// Every message of every bucket, buckets in table order.
pub open spec fn all_msgs(bs: Seq<Bucket>) -> Seq<Message>
    decreases bs.len(),
{
    if bs.len() == 0 {
        Seq::empty()
    } else {
        bs[0].msgs@ + all_msgs(bs.skip(1))
    }
}

/// The chat manager: the local user and the per-conversation store.
pub struct ChatManager {
    /// The local user; sent messages carry its id as sender.
    pub local_user: User,
    /// The conversation buckets; partner ids are unique.
    pub messages: Vec<Bucket>,
}

impl ChatManager {
    /// Partner ids are unique in the store.
    pub open spec fn inv(&self) -> bool {
        forall|i: int, j: int|
            0 <= i < j < self.messages@.len() ==> self.messages@[i].partner@
                != self.messages@[j].partner@
    }

    /// An empty store for this user.
    pub fn new(local_user: User) -> (r: ChatManager)
        ensures
            r.local_user@ == local_user@,
            r.messages@.len() == 0,
            r.inv(),
    {
        ChatManager { local_user, messages: Vec::new() }
    }

    /// Builds the outbound message for a send: the given fresh id, the
    /// local user as sender, stamped `now`, unread.
    pub fn compose_message(&self, id: String, peer_id: &str, content: &str, now: i64) -> (m:
        Message)
        ensures
            m@.id == id@,
            m@.sender_id == self.local_user@.id,
            m@.recipient_id == peer_id@,
            m@.content == content@,
            m@.timestamp == now,
            m@.read == false,
    {
        Message {
            id,
            sender_id: self.local_user.id.clone(),
            recipient_id: String::from_str(peer_id),
            content: String::from_str(content),
            timestamp: now,
            read: false,
        }
    }

    /// Appends one record to the bucket under `key`, creating the
    /// bucket if none exists.
    fn append_to_bucket(&mut self, key: &str, message: Message)
        requires
            old(self).inv(),
        ensures
            final(self).inv(),
            final(self).local_user@ == old(self).local_user@,
            bucket_msgs(final(self).messages@, key@) == bucket_msgs(
                old(self).messages@,
                key@,
            ).push(message),
            forall|id2: Seq<char>|
                id2 != key@ ==> bucket_msgs(final(self).messages@, id2) == bucket_msgs(
                    old(self).messages@,
                    id2,
                ),
    {
        let n = self.messages.len();
        let mut i: usize = 0;
        while i < n
            invariant
                old(self).inv(),
                self.messages@ == old(self).messages@,
                self.local_user@ == old(self).local_user@,
                n == self.messages@.len(),
                i <= n,
                forall|j: int| 0 <= j < i ==> (#[trigger] self.messages@[j]).partner@ != key@,
            decreases n - i,
        {
            if str_eq(self.messages[i].partner.as_str(), key) {
                let partner = self.messages[i].partner.clone();
                let mut msgs = clone_messages(&self.messages[i].msgs);
                msgs.push(message);
                let ghost old_bucket = self.messages@[i as int];
                VecAdditionalExecFns::set(&mut self.messages, i, Bucket { partner, msgs });
                proof {
                    let bs = self.messages@;
                    let obs = old(self).messages@;
                    assert(bs[i as int].partner@ == key@);
                    assert(forall|j: int|
                        0 <= j < bs.len() && j != i ==> bs[j] == #[trigger] obs[j]);
                    assert forall|a: int, b: int|
                        0 <= a < b < bs.len() implies bs[a].partner@ != bs[b].partner@ by {
                        assert(bs[a].partner@ == obs[a].partner@);
                        assert(bs[b].partner@ == obs[b].partner@);
                    }
                    assert(buckets_have(bs, key@) && buckets_have(obs, key@));
                    lemma_bucket_idx_unique(bs, key@, i as int);
                    lemma_bucket_idx_unique(obs, key@, i as int);
                    assert(bucket_msgs(bs, key@) == old_bucket.msgs@.push(message));
                    assert forall|id2: Seq<char>|
                        id2 != key@ implies bucket_msgs(bs, id2) == bucket_msgs(obs, id2) by {
                        lemma_bucket_msgs_unchanged(obs, bs, id2, i as int);
                    }
                }
                return ;
            }
            i += 1;
        }
        let mut msgs: Vec<Message> = Vec::new();
        msgs.push(message);
        self.messages.push(Bucket { partner: String::from_str(key), msgs });
        proof {
            let bs = self.messages@;
            let obs = old(self).messages@;
            let last = bs.len() - 1;
            assert(bs[last].partner@ == key@);
            assert(forall|j: int| 0 <= j < last ==> bs[j] == #[trigger] obs[j]);
            assert forall|a: int, b: int|
                0 <= a < b < bs.len() implies bs[a].partner@ != bs[b].partner@ by {
                if b == last {
                    assert(bs[a].partner@ == obs[a].partner@ && obs[a].partner@ != key@);
                } else {
                    assert(bs[a].partner@ == obs[a].partner@);
                    assert(bs[b].partner@ == obs[b].partner@);
                }
            }
            assert(buckets_have(bs, key@));
            lemma_bucket_idx_unique(bs, key@, last);
            assert(!buckets_have(obs, key@));
            assert(bucket_msgs(obs, key@) == Seq::<Message>::empty());
            assert(bucket_msgs(bs, key@) =~= bucket_msgs(obs, key@).push(message));
            assert forall|id2: Seq<char>|
                id2 != key@ implies bucket_msgs(bs, id2) == bucket_msgs(obs, id2) by {
                lemma_bucket_msgs_unchanged_push(obs, bs, id2);
            }
        }
    }

    /// Stores a copy of an outbound message in the local send history.
    pub fn store_sent_message(&mut self, message: &Message) -> (r: Result<(), AppError>)
        requires
            old(self).inv(),
        ensures
            r is Ok,
            final(self).inv(),
            final(self).local_user@ == old(self).local_user@,
            bucket_msgs(final(self).messages@, old(self).local_user@.id) == bucket_msgs(
                old(self).messages@,
                old(self).local_user@.id,
            ).push(*message),
            forall|id2: Seq<char>|
                id2 != old(self).local_user@.id ==> bucket_msgs(final(self).messages@, id2)
                    == bucket_msgs(old(self).messages@, id2),
    {
        let key = self.local_user.id.clone();
        let m = message.clone();
        self.append_to_bucket(key.as_str(), m);
        Ok(())
    }

    /// Composes, stores and returns the outbound message for a send.
    /// The caller then frames it with the message envelope and writes
    /// it to the peer; the local copy stays either way, so a failed
    /// send still shows in the history.
    pub fn send_message(
        &mut self,
        id: String,
        peer_id: &str,
        content: &str,
        now: i64,
    ) -> (m: Message)
        requires
            old(self).inv(),
        ensures
            final(self).inv(),
            final(self).local_user@ == old(self).local_user@,
            m@.id == id@,
            m@.sender_id == old(self).local_user@.id,
            m@.recipient_id == peer_id@,
            m@.content == content@,
            m@.timestamp == now,
            m@.read == false,
            bucket_msgs(final(self).messages@, old(self).local_user@.id) == bucket_msgs(
                old(self).messages@,
                old(self).local_user@.id,
            ).push(m),
            forall|id2: Seq<char>|
                id2 != old(self).local_user@.id ==> bucket_msgs(final(self).messages@, id2)
                    == bucket_msgs(old(self).messages@, id2),
    {
        let m = self.compose_message(id, peer_id, content, now);
        let key = self.local_user.id.clone();
        let copy = m.clone();
        self.append_to_bucket(key.as_str(), copy);
        m
    }

    /// Takes one inbound message: dropped silently unless addressed to
    /// the local user, otherwise stored under its sender and returned
    /// for the received-message event.
    pub fn handle_incoming_message(&mut self, message: Message) -> (r: Option<Message>)
        requires
            old(self).inv(),
        ensures
            final(self).inv(),
            final(self).local_user@ == old(self).local_user@,
            message@.recipient_id != old(self).local_user@.id ==> r is None && final(self).messages@ == old(self).messages@,
            message@.recipient_id == old(self).local_user@.id ==> (r matches Some(u) && u
                == message && bucket_msgs(final(self).messages@, message@.sender_id)
                == bucket_msgs(old(self).messages@, message@.sender_id).push(message) && (forall|
                id2: Seq<char>,
            |
                id2 != message@.sender_id ==> bucket_msgs(final(self).messages@, id2)
                    == bucket_msgs(old(self).messages@, id2))),
    {
        if !str_eq(message.recipient_id.as_str(), self.local_user.id.as_str()) {
            return None;
        }
        let key = message.sender_id.clone();
        let copy = message.clone();
        self.append_to_bucket(key.as_str(), copy);
        Some(message)
    }

    /// The conversation with a peer: what we sent them and what they
    /// sent us, sorted by timestamp. The sort is stable: records with
    /// equal timestamps keep their order — our stream first, theirs
    /// second, each in insertion order.
    pub fn get_messages_for_peer(&self, peer_id: &str) -> (r: Vec<Message>)
        requires
            self.inv(),
        ensures
            sorted_by_ts(r@),
            r@.to_multiset() == (bucket_msgs(self.messages@, self.local_user@.id).filter(
                |m: Message| m@.recipient_id == peer_id@,
            ) + bucket_msgs(self.messages@, peer_id@).filter(
                |m: Message| m@.recipient_id == self.local_user@.id,
            )).to_multiset(),
            r@ == sort_msgs_by_ts(
                bucket_msgs(self.messages@, self.local_user@.id).filter(
                    |m: Message| m@.recipient_id == peer_id@,
                ) + bucket_msgs(self.messages@, peer_id@).filter(
                    |m: Message| m@.recipient_id == self.local_user@.id,
                ),
            ),
    {
        let mut collected: Vec<Message> = Vec::new();
        let ghost psent = (|m: Message| m@.recipient_id == peer_id@);
        let ghost precv = (|m: Message| m@.recipient_id == self.local_user@.id);
        let sent = self.find_bucket(self.local_user.id.clone().as_str());
        match sent {
            Option::Some(bi) => {
                let b = &self.messages[bi];
                let mut i: usize = 0;
                while i < b.msgs.len()
                    invariant
                        bi < self.messages@.len(),
                        b == &self.messages@[bi as int],
                        psent == (|m: Message| m@.recipient_id == peer_id@),
                        i <= b.msgs@.len(),
                        collected@ == b.msgs@.take(i as int).filter(psent),
                    decreases b.msgs@.len() - i,
                {
                    proof {
                        lemma_msg_filter_take_step(b.msgs@, psent, i as int);
                    }
                    if str_eq(b.msgs[i].recipient_id.as_str(), peer_id) {
                        let c = b.msgs[i].clone();
                        collected.push(c);
                    }
                    proof {
                        assert(collected@ =~= b.msgs@.take(i + 1 as int).filter(psent));
                    }
                    i += 1;
                }
                proof {
                    assert(b.msgs@.take(b.msgs@.len() as int) =~= b.msgs@);
                }
            },
            Option::None => {
                proof {
                    assert(bucket_msgs(self.messages@, self.local_user@.id)
                        =~= Seq::<Message>::empty());
                    assert(Seq::<Message>::empty().filter(psent) =~= Seq::<Message>::empty())
                        by {
                        reveal(Seq::filter);
                    }
                }
            },
        }
        let ghost first_part = bucket_msgs(self.messages@, self.local_user@.id).filter(psent);
        proof {
            assert(collected@ == first_part);
        }
        let recv = self.find_bucket(peer_id);
        match recv {
            Option::Some(bi) => {
                let b = &self.messages[bi];
                let mut i: usize = 0;
                while i < b.msgs.len()
                    invariant
                        bi < self.messages@.len(),
                        b == &self.messages@[bi as int],
                        precv == (|m: Message| m@.recipient_id == self.local_user@.id),
                        first_part == collected@.take(first_part.len() as int),
                        first_part.len() <= collected@.len(),
                        i <= b.msgs@.len(),
                        collected@ == first_part + b.msgs@.take(i as int).filter(precv),
                    decreases b.msgs@.len() - i,
                {
                    proof {
                        lemma_msg_filter_take_step(b.msgs@, precv, i as int);
                    }
                    if str_eq(b.msgs[i].recipient_id.as_str(), self.local_user.id.as_str()) {
                        let c = b.msgs[i].clone();
                        collected.push(c);
                    }
                    proof {
                        assert(collected@ =~= first_part + b.msgs@.take(i + 1 as int).filter(
                            precv,
                        ));
                    }
                    i += 1;
                }
                proof {
                    assert(b.msgs@.take(b.msgs@.len() as int) =~= b.msgs@);
                }
            },
            Option::None => {
                proof {
                    assert(bucket_msgs(self.messages@, peer_id@) =~= Seq::<Message>::empty());
                    assert(Seq::<Message>::empty().filter(precv) =~= Seq::<Message>::empty())
                        by {
                        reveal(Seq::filter);
                    }
                    assert(collected@ =~= first_part + bucket_msgs(
                        self.messages@,
                        peer_id@,
                    ).filter(precv));
                }
            },
        }
        proof {
            assert(collected@ == first_part + bucket_msgs(self.messages@, peer_id@).filter(
                precv,
            ));
        }
        sort_messages(collected)
    }

    /// The index of the bucket with this partner id, if one exists.
    fn find_bucket(&self, key: &str) -> (r: Option<usize>)
        ensures
            r matches Some(i) ==> i < self.messages@.len() && self.messages@[
                i as int].partner@ == key@ && buckets_have(self.messages@, key@),
            r is None ==> !buckets_have(self.messages@, key@),
            r matches Some(i) ==> (self.inv() ==> bucket_idx(self.messages@, key@) == i),
    {
        let mut i: usize = 0;
        while i < self.messages.len()
            invariant
                i <= self.messages@.len(),
                forall|j: int| 0 <= j < i ==> (#[trigger] self.messages@[j]).partner@ != key@,
            decreases self.messages@.len() - i,
        {
            if str_eq(self.messages[i].partner.as_str(), key) {
                proof {
                    if self.inv() {
                        lemma_bucket_idx_unique(self.messages@, key@, i as int);
                    }
                }
                return Some(i);
            }
            i += 1;
        }
        None
    }

    /// Every stored message, over all conversations, sorted by
    /// timestamp; the sort is stable across buckets in table order.
    pub fn get_all_messages(&self) -> (r: Vec<Message>)
        ensures
            sorted_by_ts(r@),
            r@.to_multiset() == all_msgs(self.messages@).to_multiset(),
            r@ == sort_msgs_by_ts(all_msgs(self.messages@)),
    {
        let mut collected: Vec<Message> = Vec::new();
        let n = self.messages.len();
        let mut i: usize = 0;
        while i < n
            invariant
                n == self.messages@.len(),
                i <= n,
                collected@ == all_msgs(self.messages@.take(i as int)),
            decreases n - i,
        {
            proof {
                lemma_all_msgs_take_step(self.messages@, i as int);
            }
            let b = &self.messages[i];
            let mut k: usize = 0;
            let ghost base = collected@;
            while k < b.msgs.len()
                invariant
                    i < self.messages@.len(),
                    b == &self.messages@[i as int],
                    k <= b.msgs@.len(),
                    collected@ == base + b.msgs@.take(k as int),
                decreases b.msgs@.len() - k,
            {
                let c = b.msgs[k].clone();
                collected.push(c);
                proof {
                    assert(base + b.msgs@.take(k + 1 as int) =~= (base + b.msgs@.take(
                        k as int,
                    )).push(b.msgs@[k as int]));
                }
                k += 1;
            }
            proof {
                assert(b.msgs@.take(b.msgs@.len() as int) =~= b.msgs@);
                assert(collected@ =~= all_msgs(self.messages@.take(i + 1 as int)));
            }
            i += 1;
        }
        proof {
            assert(self.messages@.take(n as int) =~= self.messages@);
        }
        sort_messages(collected)
    }

    /// Marks every message in this peer's bucket that is addressed to
    /// the local user as read. A missing bucket is not an error.
    pub fn mark_messages_as_read(&mut self, peer_id: &str) -> (r: Result<(), AppError>)
        requires
            old(self).inv(),
        ensures
            r is Ok,
            final(self).inv(),
            final(self).local_user@ == old(self).local_user@,
            bucket_msgs(final(self).messages@, peer_id@).map_values(|m: Message| m@)
                == bucket_msgs(old(self).messages@, peer_id@).map_values(
                |m: Message| m@,
            ).map_values(|mv: MessageV| mark_read_v(mv, old(self).local_user@.id)),
            forall|id2: Seq<char>|
                id2 != peer_id@ ==> bucket_msgs(final(self).messages@, id2) == bucket_msgs(
                    old(self).messages@,
                    id2,
                ),
    {
        let ghost lid = self.local_user@.id;
        let found = self.find_bucket(peer_id);
        match found {
            Option::None => {
                proof {
                    assert(bucket_msgs(self.messages@, peer_id@) =~= Seq::<Message>::empty());
                    assert(bucket_msgs(self.messages@, peer_id@).map_values(
                        |m: Message| m@,
                    ).map_values(|mv: MessageV| mark_read_v(mv, lid)) =~= Seq::<
                        MessageV,
                    >::empty());
                    assert(bucket_msgs(self.messages@, peer_id@).map_values(|m: Message| m@)
                        =~= Seq::<MessageV>::empty());
                }
                Ok(())
            },
            Option::Some(bi) => {
                let partner = self.messages[bi].partner.clone();
                let src = &self.messages[bi].msgs;
                let mut updated: Vec<Message> = Vec::new();
                let mut k: usize = 0;
                while k < src.len()
                    invariant
                        bi < self.messages@.len(),
                        src == &self.messages@[bi as int].msgs,
                        lid == self.local_user@.id,
                        k <= src@.len(),
                        updated@.len() == k,
                        forall|j: int|
                            0 <= j < k ==> (#[trigger] updated@[j])@ == mark_read_v(
                                src@[j]@,
                                lid,
                            ),
                    decreases src@.len() - k,
                {
                    let m = &src[k];
                    if str_eq(m.recipient_id.as_str(), self.local_user.id.as_str()) {
                        let flipped = Message {
                            id: m.id.clone(),
                            sender_id: m.sender_id.clone(),
                            recipient_id: m.recipient_id.clone(),
                            content: m.content.clone(),
                            timestamp: m.timestamp,
                            read: true,
                        };
                        updated.push(flipped);
                    } else {
                        let c = m.clone();
                        updated.push(c);
                    }
                    k += 1;
                }
                let ghost old_bucket = self.messages@[bi as int];
                let ghost new_msgs = updated@;
                VecAdditionalExecFns::set(&mut self.messages, bi, Bucket { partner, msgs: updated });
                proof {
                    let bs = self.messages@;
                    let obs = old(self).messages@;
                    assert(bs[bi as int].partner@ == peer_id@);
                    assert(forall|j: int|
                        0 <= j < bs.len() && j != bi ==> bs[j] == #[trigger] obs[j]);
                    assert forall|a: int, b: int|
                        0 <= a < b < bs.len() implies bs[a].partner@ != bs[b].partner@ by {
                        assert(bs[a].partner@ == obs[a].partner@);
                        assert(bs[b].partner@ == obs[b].partner@);
                    }
                    assert(buckets_have(bs, peer_id@) && buckets_have(obs, peer_id@));
                    lemma_bucket_idx_unique(bs, peer_id@, bi as int);
                    lemma_bucket_idx_unique(obs, peer_id@, bi as int);
                    assert(bucket_msgs(bs, peer_id@) == new_msgs);
                    let f = |m: Message| m@;
                    let g = |mv: MessageV| mark_read_v(mv, lid);
                    assert(new_msgs.map_values(f) =~= old_bucket.msgs@.map_values(f).map_values(
                        g,
                    ));
                    assert forall|id2: Seq<char>|
                        id2 != peer_id@ implies bucket_msgs(bs, id2) == bucket_msgs(
                        obs,
                        id2,
                    ) by {
                        lemma_bucket_msgs_unchanged(obs, bs, id2, bi as int);
                    }
                }
                Ok(())
            },
        }
    }
}

/// Under unique partner ids, the chosen bucket index is the matching
/// one.
proof fn lemma_bucket_idx_unique(bs: Seq<Bucket>, id: Seq<char>, i: int)
    requires
        forall|a: int, b: int| 0 <= a < b < bs.len() ==> bs[a].partner@ != bs[b].partner@,
        0 <= i < bs.len(),
        bs[i].partner@ == id,
    ensures
        buckets_have(bs, id),
        bucket_idx(bs, id) == i,
{
    assert(buckets_have(bs, id));
    let k = bucket_idx(bs, id);
    if k != i {
        assert(bs[k].partner@ == id);
    }
}

/// Changing one bucket leaves every other partner's messages alone.
proof fn lemma_bucket_msgs_unchanged(obs: Seq<Bucket>, bs: Seq<Bucket>, id: Seq<char>, i: int)
    requires
        bs.len() == obs.len(),
        0 <= i < bs.len(),
        forall|j: int| 0 <= j < bs.len() && j != i ==> bs[j] == #[trigger] obs[j],
        bs[i].partner@ == obs[i].partner@,
        id != obs[i].partner@,
        forall|a: int, b: int| 0 <= a < b < bs.len() ==> bs[a].partner@ != bs[b].partner@,
        forall|a: int, b: int| 0 <= a < b < obs.len() ==> obs[a].partner@ != obs[b].partner@,
    ensures
        bucket_msgs(bs, id) == bucket_msgs(obs, id),
{
    if buckets_have(obs, id) {
        let k = bucket_idx(obs, id);
        assert(obs[k].partner@ == id);
        assert(k != i);
        assert(bs[k].partner@ == id);
        lemma_bucket_idx_unique(bs, id, k);
        assert(bucket_msgs(bs, id) == bs[k].msgs@);
    } else {
        if buckets_have(bs, id) {
            let k = bucket_idx(bs, id);
            assert(bs[k].partner@ == id);
            assert(k != i);
            assert(obs[k].partner@ == id);
        }
    }
}

/// Appending a bucket for a fresh partner leaves every other
/// partner's messages alone.
proof fn lemma_bucket_msgs_unchanged_push(obs: Seq<Bucket>, bs: Seq<Bucket>, id: Seq<char>)
    requires
        bs.len() == obs.len() + 1,
        forall|j: int| 0 <= j < obs.len() ==> bs[j] == #[trigger] obs[j],
        id != bs[bs.len() - 1].partner@,
        forall|a: int, b: int| 0 <= a < b < obs.len() ==> obs[a].partner@ != obs[b].partner@,
    ensures
        bucket_msgs(bs, id) == bucket_msgs(obs, id),
{
    if buckets_have(obs, id) {
        let k = bucket_idx(obs, id);
        assert(obs[k].partner@ == id);
        assert(bs[k].partner@ == id);
        assert(buckets_have(bs, id));
        let k2 = bucket_idx(bs, id);
        assert(bs[k2].partner@ == id);
        assert(k2 < obs.len());
        assert(obs[k2].partner@ == id);
        assert(k == k2) by {
            if k != k2 {
                assert(obs[k].partner@ == obs[k2].partner@);
            }
        }
        assert(bucket_msgs(bs, id) == bs[k2].msgs@);
        assert(bs[k2] == obs[k2]);
    } else {
        if buckets_have(bs, id) {
            let k2 = bucket_idx(bs, id);
            assert(bs[k2].partner@ == id);
            assert(k2 < obs.len());
            assert(obs[k2].partner@ == id);
            assert(false);
        }
    }
}

/// One scan step of a filter loop over messages.
proof fn lemma_msg_filter_take_step(ms: Seq<Message>, p: spec_fn(Message) -> bool, i: int)
    requires
        0 <= i < ms.len(),
    ensures
        ms.take(i + 1).filter(p) == if p(ms[i]) {
            ms.take(i).filter(p).push(ms[i])
        } else {
            ms.take(i).filter(p)
        },
{
    reveal(Seq::filter);
    assert(ms.take(i + 1).drop_last() =~= ms.take(i));
    assert(ms.take(i + 1).last() == ms[i]);
}

/// One scan step of the all-conversations walk.
proof fn lemma_all_msgs_take_step(bs: Seq<Bucket>, i: int)
    requires
        0 <= i < bs.len(),
    ensures
        all_msgs(bs.take(i + 1)) == all_msgs(bs.take(i)) + bs[i].msgs@,
    decreases i,
{
    if i == 0 {
        assert(bs.take(1).skip(1) =~= Seq::<Bucket>::empty());
        assert(all_msgs(bs.take(1)) == bs.take(1)[0].msgs@ + all_msgs(Seq::<Bucket>::empty()));
        assert(bs.take(1)[0] == bs[0]);
        assert(all_msgs(bs.take(0)) =~= Seq::<Message>::empty());
        assert(all_msgs(bs.take(1)) =~= all_msgs(bs.take(0)) + bs[0].msgs@);
    } else {
        lemma_all_msgs_take_step(bs.skip(1), i - 1);
        assert(bs.take(i + 1).skip(1) =~= bs.skip(1).take(i));
        assert(bs.take(i).skip(1) =~= bs.skip(1).take(i - 1));
        assert(all_msgs(bs.take(i + 1)) == bs[0].msgs@ + all_msgs(bs.skip(1).take(i)));
        assert(all_msgs(bs.take(i)) == bs[0].msgs@ + all_msgs(bs.skip(1).take(i - 1)));
        assert(bs.skip(1)[i - 1] == bs[i]);
        assert(bs[0].msgs@ + (all_msgs(bs.skip(1).take(i - 1)) + bs[i].msgs@) =~= (bs[0].msgs@
            + all_msgs(bs.skip(1).take(i - 1))) + bs[i].msgs@);
    }
}

} // verus!
