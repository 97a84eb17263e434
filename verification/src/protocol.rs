//! The two wire protocols of the node.
//!
//! Port 8765 carries one JSON envelope per write: a heartbeat, a
//! heartbeat response, or a chat message wrapped with its byte length.
//! Port 8766 carries file-transfer traffic whose first line
//! disambiguates three shapes: a data push, a data request, or a JSON
//! transfer record. [`classify_envelope`] and [`parse_transfer_frame`]
//! accept exactly the canonical texts; their contracts carry both
//! directions, so an encoded envelope always classifies back to what
//! was sent.

use vstd::prelude::*;
use crate::codec::{
    json_message, message_fields_at, lemma_message_fields, lemma_unconcat, encode_message_chars,
    decode_message_at,
};
use crate::json::{
    dec_rep, dec_rep_i64, lit_at, inum_at, num_at, expect_lit, parse_i64_at, parse_u64_at,
    render_i64, is_digit, lemma_dec_rep_props,
};
use crate::models::{Message, MessageV};
use crate::strutil::{str_to_chars, chars_to_string, append_str, vec_chars_eq};

verus! {

/// One decoded envelope from the chat/heartbeat port.
pub enum Envelope {
    /// A liveness probe carrying the sender's clock.
    Heartbeat(i64),
    /// The answer to a probe.
    HeartbeatResponse(i64),
    /// A chat message addressed to some user.
    ChatMessage(Message),
    /// Anything else; logged and ignored.
    Unknown,
}

/// The canonical heartbeat envelope.
pub open spec fn json_heartbeat(t: i64) -> Seq<char> {
    ("{\"type\":\"heartbeat\",\"timestamp\":")@ + dec_rep_i64(t) + ("}")@
}

/// The canonical heartbeat-response envelope.
pub open spec fn json_heartbeat_response(t: i64) -> Seq<char> {
    ("{\"type\":\"heartbeat_response\",\"timestamp\":")@ + dec_rep_i64(t) + ("}")@
}

/// The canonical message envelope; `n` is the advertised byte length
/// of the embedded record, which receivers do not rely on.
pub open spec fn json_msg_envelope(m: MessageV, n: u64) -> Seq<char> {
    ("{\"type\":\"message\",\"data\":")@ + json_message(m) + (",\"length\":")@ + dec_rep(
        n as nat,
    ) + ("}")@
}

/// `s` is a canonical message envelope around `m`, under some
/// advertised length.
pub open spec fn is_msg_envelope(s: Seq<char>, m: MessageV) -> bool {
    exists|n: u64| s == #[trigger] json_msg_envelope(m, n)
}

/// `s` is a canonical heartbeat envelope.
pub open spec fn is_heartbeat(s: Seq<char>) -> bool {
    exists|t: i64| s == #[trigger] json_heartbeat(t)
}

/// `s` is a canonical heartbeat-response envelope.
pub open spec fn is_heartbeat_response(s: Seq<char>) -> bool {
    exists|t: i64| s == #[trigger] json_heartbeat_response(t)
}

/// `s` is a canonical message envelope around some well-formed record.
pub open spec fn is_chat_envelope(s: Seq<char>) -> bool {
    exists|mv: MessageV, n: u64| mv.wf() && s == #[trigger] json_msg_envelope(mv, n)
}

/// Appends the canonical decimal text of a signed number.
fn encode_i64_into(out: &mut Vec<char>, t: i64)
    ensures
        final(out)@ == old(out)@ + dec_rep_i64(t),
{
    let d = render_i64(t);
    let mut i: usize = 0;
    while i < d.len()
        invariant
            i <= d@.len(),
            out@ == old(out)@ + d@.take(i as int),
        decreases d@.len() - i,
    {
        out.push(d[i]);
        proof {
            assert(old(out)@ + d@.take(i + 1 as int) =~= (old(out)@ + d@.take(i as int)).push(
                d@[i as int],
            ));
        }
        i += 1;
    }
    proof {
        assert(d@.take(d@.len() as int) =~= d@);
    }
}

/// The heartbeat envelope, as characters.
fn encode_heartbeat_chars(t: i64) -> (r: Vec<char>)
    ensures
        r@ == json_heartbeat(t),
{
    let mut out: Vec<char> = Vec::new();
    append_str(&mut out, "{\"type\":\"heartbeat\",\"timestamp\":");
    encode_i64_into(&mut out, t);
    append_str(&mut out, "}");
    proof {
        assert(out@ =~= json_heartbeat(t));
    }
    out
}

/// Encodes a heartbeat envelope.
pub fn encode_heartbeat(t: i64) -> (r: String)
    ensures
        r@ == json_heartbeat(t),
{
    let out = encode_heartbeat_chars(t);
    chars_to_string(&out)
}

/// The heartbeat-response envelope, as characters.
fn encode_heartbeat_response_chars(t: i64) -> (r: Vec<char>)
    ensures
        r@ == json_heartbeat_response(t),
{
    let mut out: Vec<char> = Vec::new();
    append_str(&mut out, "{\"type\":\"heartbeat_response\",\"timestamp\":");
    encode_i64_into(&mut out, t);
    append_str(&mut out, "}");
    proof {
        assert(out@ =~= json_heartbeat_response(t));
    }
    out
}

/// Encodes a heartbeat-response envelope.
pub fn encode_heartbeat_response(t: i64) -> (r: String)
    ensures
        r@ == json_heartbeat_response(t),
{
    let out = encode_heartbeat_response_chars(t);
    chars_to_string(&out)
}

/// The message envelope around an encoded record, as characters.
fn encode_msg_envelope_chars(m: &Message, n: u64) -> (r: Vec<char>)
    requires
        m.wf(),
    ensures
        r@ == json_msg_envelope(m@, n),
{
    let mut out: Vec<char> = Vec::new();
    append_str(&mut out, "{\"type\":\"message\",\"data\":");
    let data = encode_message_chars(m);
    let mut i: usize = 0;
    while i < data.len()
        invariant
            i <= data@.len(),
            out@ == ("{\"type\":\"message\",\"data\":")@ + data@.take(i as int),
        decreases data@.len() - i,
    {
        out.push(data[i]);
        proof {
            assert(("{\"type\":\"message\",\"data\":")@ + data@.take(i + 1 as int) =~= (("{\"type\":\"message\",\"data\":")@
                + data@.take(i as int)).push(data@[i as int]));
        }
        i += 1;
    }
    proof {
        assert(data@.take(data@.len() as int) =~= data@);
    }
    append_str(&mut out, ",\"length\":");
    let d = crate::json::render_u64(n);
    let mut k: usize = 0;
    let ghost mid = out@;
    while k < d.len()
        invariant
            k <= d@.len(),
            out@ == mid + d@.take(k as int),
        decreases d@.len() - k,
    {
        out.push(d[k]);
        proof {
            assert(mid + d@.take(k + 1 as int) =~= (mid + d@.take(k as int)).push(d@[k as int]));
        }
        k += 1;
    }
    proof {
        assert(d@.take(d@.len() as int) =~= d@);
    }
    append_str(&mut out, "}");
    proof {
        assert(out@ =~= json_msg_envelope(m@, n));
    }
    out
}

/// Encodes a chat message as the envelope the chat port carries,
/// advertising the record's byte length alongside it.
pub fn encode_message_envelope(m: &Message) -> (r: String)
    requires
        m.wf(),
    ensures
        is_msg_envelope(r@, m@),
{
    let data = encode_message_chars(m);
    let ds = chars_to_string(&data);
    let n = ds.as_str().len() as u64;
    let out = encode_msg_envelope_chars(m, n);
    proof {
        assert(out@ == json_msg_envelope(m@, n));
        assert(is_msg_envelope(out@, m@));
    }
    chars_to_string(&out)
}

/// Two literals standing at the start of `s` agree wherever both are
/// defined.
proof fn lemma_lits_clash(s: Seq<char>, a: Seq<char>, b: Seq<char>, k: int)
    requires
        lit_at(s, 0, a),
        lit_at(s, 0, b),
        0 <= k < a.len(),
        k < b.len(),
    ensures
        a[k] == b[k],
{
    assert(s.subrange(0, a.len() as int)[k] == s[k]);
    assert(s.subrange(0, b.len() as int)[k] == s[k]);
}

/// Where the pieces of a heartbeat-shaped envelope stand.
pub open spec fn heartbeat_fields_at(s: Seq<char>, l: Seq<char>, t: i64) -> bool {
    &&& lit_at(s, 0, l)
    &&& inum_at(s, l.len() as int, t)
    &&& lit_at(s, l.len() + dec_rep_i64(t).len() as int, ("}")@)
    &&& s.len() == l.len() + dec_rep_i64(t).len() + ("}")@.len()
}

proof fn lemma_heartbeat_fields(s: Seq<char>, l: Seq<char>, t: i64)
    requires
        s == l + dec_rep_i64(t) + ("}")@,
    ensures
        heartbeat_fields_at(s, l, t),
{
    assert(s.subrange(0, s.len() as int) =~= s);
    lemma_unconcat(s, 0, l + dec_rep_i64(t), ("}")@);
    lemma_unconcat(s, 0, l, dec_rep_i64(t));
    assert(inum_at(s, l.len() as int, t)) by {
        reveal_strlit("}");
        assert(s.subrange((l + dec_rep_i64(t)).len() as int, (l + dec_rep_i64(t)).len() + ("}")@.len() as int)[0]
            == s[(l + dec_rep_i64(t)).len() as int]);
        assert(!is_digit('}'));
    }
}

/// Reads one heartbeat-shaped envelope whose leading literal was
/// already matched at position `j` (the literal's length).
fn finish_heartbeat(v: &Vec<char>, j: usize, Ghost(l): Ghost<Seq<char>>) -> (r: Option<i64>)
    requires
        j <= v@.len(),
        j == l.len(),
        lit_at(v@, 0, l),
    ensures
        r matches Some(t) ==> v@ == l + dec_rep_i64(t) + ("}")@,
        forall|t: i64| v@ == l + dec_rep_i64(t) + ("}")@ ==> r == Some(t),
{
    proof {
        assert forall|t: i64|
            v@ == l + dec_rep_i64(t) + ("}")@ implies #[trigger] heartbeat_fields_at(
            v@,
            l,
            t,
        ) by {
            lemma_heartbeat_fields(v@, l, t);
        }
    }
    let (tv, j2) = match parse_i64_at(v, j) {
        Some(p) => p,
        None => {
            proof {
                assert forall|t: i64| v@ != l + dec_rep_i64(t) + ("}")@ by {
                    if v@ == l + dec_rep_i64(t) + ("}")@ {
                        assert(heartbeat_fields_at(v@, l, t));
                        assert(false);
                    }
                }
            }
            return None;
        },
    };
    let j3 = match expect_lit(v, j2, "}") {
        Some(x) => x,
        None => {
            proof {
                assert forall|t: i64| v@ != l + dec_rep_i64(t) + ("}")@ by {
                    if v@ == l + dec_rep_i64(t) + ("}")@ {
                        assert(heartbeat_fields_at(v@, l, t));
                        assert(t == tv && j2 == l.len() + dec_rep_i64(t).len());
                        assert(false);
                    }
                }
            }
            return None;
        },
    };
    if j3 != v.len() {
        proof {
            assert forall|t: i64| v@ != l + dec_rep_i64(t) + ("}")@ by {
                if v@ == l + dec_rep_i64(t) + ("}")@ {
                    assert(heartbeat_fields_at(v@, l, t));
                    assert(t == tv);
                    assert(false);
                }
            }
        }
        return None;
    }
    proof {
        assert(v@.subrange(0, j as int) == l);
        assert(v@.subrange(j as int, j2 as int) == dec_rep_i64(tv));
        assert(v@.subrange(j2 as int, j3 as int) == ("}")@);
        assert(v@ =~= v@.subrange(0, j as int) + v@.subrange(j as int, j2 as int) + v@.subrange(
            j2 as int,
            j3 as int,
        ));
        assert forall|t: i64| v@ == l + dec_rep_i64(t) + ("}")@ implies t == tv by {
            assert(heartbeat_fields_at(v@, l, t));
        }
    }
    Some(tv)
}

/// Classifies one envelope read from the chat/heartbeat port.
///
/// The three known shapes are recognised exactly; anything else is
/// `Unknown` and the caller ignores it.
#[verifier::rlimit(100)]
#[verifier::spinoff_prover]
pub fn classify_envelope(s: &str) -> (r: Envelope)
    ensures
        r matches Envelope::Heartbeat(t) ==> s@ == json_heartbeat(t),
        r matches Envelope::HeartbeatResponse(t) ==> s@ == json_heartbeat_response(t),
        r matches Envelope::ChatMessage(m) ==> m.wf() && is_msg_envelope(s@, m@),
        forall|t: i64| s@ == #[trigger] json_heartbeat(t) ==> r == Envelope::Heartbeat(t),
        forall|t: i64|
            s@ == #[trigger] json_heartbeat_response(t) ==> r == Envelope::HeartbeatResponse(t),
        forall|mv: MessageV, n: u64|
            mv.wf() && s@ == #[trigger] json_msg_envelope(mv, n) ==> (r matches
                Envelope::ChatMessage(m) && m@ == mv),
{
    let v = str_to_chars(s);
    proof {
        reveal_strlit("{\"type\":\"heartbeat\",\"timestamp\":");
        reveal_strlit("{\"type\":\"heartbeat_response\",\"timestamp\":");
        reveal_strlit("{\"type\":\"message\",\"data\":");
        assert forall|t: i64|
            s@ == #[trigger] json_heartbeat(t) implies lit_at(
            v@,
            0,
            ("{\"type\":\"heartbeat\",\"timestamp\":")@,
        ) by {
            lemma_heartbeat_fields(v@, ("{\"type\":\"heartbeat\",\"timestamp\":")@, t);
        }
        assert forall|t: i64|
            s@ == #[trigger] json_heartbeat_response(t) implies lit_at(
            v@,
            0,
            ("{\"type\":\"heartbeat_response\",\"timestamp\":")@,
        ) by {
            lemma_heartbeat_fields(v@, ("{\"type\":\"heartbeat_response\",\"timestamp\":")@, t);
        }
        assert forall|mv: MessageV, n: u64|
            s@ == #[trigger] json_msg_envelope(mv, n) implies lit_at(
            v@,
            0,
            ("{\"type\":\"message\",\"data\":")@,
        ) by {
            lemma_msg_envelope_prefix(v@, mv, n);
        }
    }
    if let Some(j) = expect_lit(&v, 0, "{\"type\":\"heartbeat\",\"timestamp\":") {
        proof {
            assert forall|t: i64| s@ != #[trigger] json_heartbeat_response(t) by {
                if s@ == json_heartbeat_response(t) {
                    lemma_lits_clash(
                        v@,
                        ("{\"type\":\"heartbeat\",\"timestamp\":")@,
                        ("{\"type\":\"heartbeat_response\",\"timestamp\":")@,
                        18,
                    );
                }
            }
            assert forall|mv: MessageV, n: u64|
                s@ != #[trigger] json_msg_envelope(mv, n) by {
                if s@ == json_msg_envelope(mv, n) {
                    lemma_lits_clash(
                        v@,
                        ("{\"type\":\"heartbeat\",\"timestamp\":")@,
                        ("{\"type\":\"message\",\"data\":")@,
                        9,
                    );
                }
            }
        }
        match finish_heartbeat(&v, j, Ghost(("{\"type\":\"heartbeat\",\"timestamp\":")@)) {
            Some(t) => Envelope::Heartbeat(t),
            None => Envelope::Unknown,
        }
    } else if let Some(j) = expect_lit(&v, 0, "{\"type\":\"heartbeat_response\",\"timestamp\":") {
        proof {
            assert forall|t: i64| s@ != #[trigger] json_heartbeat(t) by {
                if s@ == json_heartbeat(t) {
                    lemma_lits_clash(
                        v@,
                        ("{\"type\":\"heartbeat_response\",\"timestamp\":")@,
                        ("{\"type\":\"heartbeat\",\"timestamp\":")@,
                        18,
                    );
                }
            }
            assert forall|mv: MessageV, n: u64|
                s@ != #[trigger] json_msg_envelope(mv, n) by {
                if s@ == json_msg_envelope(mv, n) {
                    lemma_lits_clash(
                        v@,
                        ("{\"type\":\"heartbeat_response\",\"timestamp\":")@,
                        ("{\"type\":\"message\",\"data\":")@,
                        9,
                    );
                }
            }
        }
        match finish_heartbeat(&v, j, Ghost(("{\"type\":\"heartbeat_response\",\"timestamp\":")@)) {
            Some(t) => Envelope::HeartbeatResponse(t),
            None => Envelope::Unknown,
        }
    } else if let Some(j) = expect_lit(&v, 0, "{\"type\":\"message\",\"data\":") {
        proof {
            assert forall|t: i64| s@ != #[trigger] json_heartbeat(t) by {
                if s@ == json_heartbeat(t) {
                    lemma_lits_clash(
                        v@,
                        ("{\"type\":\"message\",\"data\":")@,
                        ("{\"type\":\"heartbeat\",\"timestamp\":")@,
                        9,
                    );
                }
            }
            assert forall|t: i64| s@ != #[trigger] json_heartbeat_response(t) by {
                if s@ == json_heartbeat_response(t) {
                    lemma_lits_clash(
                        v@,
                        ("{\"type\":\"message\",\"data\":")@,
                        ("{\"type\":\"heartbeat_response\",\"timestamp\":")@,
                        9,
                    );
                }
            }
            assert forall|mv: MessageV, n: u64|
                mv.wf() && s@ == #[trigger] json_msg_envelope(mv, n) implies msg_envelope_fields_at(
                v@,
                mv,
                n,
            ) by {
                lemma_msg_envelope_fields(v@, mv, n);
            }
        }
        match finish_msg_envelope(&v, j) {
            Some((m, n)) => {
                proof {
                    assert(s@ == json_msg_envelope(m@, n));
                    assert(is_msg_envelope(s@, m@));
                }
                Envelope::ChatMessage(m)
            },
            None => Envelope::Unknown,
        }
    } else {
        Envelope::Unknown
    }
}

/// Where the pieces of a message envelope stand.
pub open spec fn msg_envelope_fields_at(s: Seq<char>, mv: MessageV, n: u64) -> bool {
    let p1 = ("{\"type\":\"message\",\"data\":")@.len() as int;
    let p2 = p1 + json_message(mv).len();
    let p3 = p2 + (",\"length\":")@.len();
    let p4 = p3 + dec_rep(n as nat).len();
    &&& lit_at(s, 0, ("{\"type\":\"message\",\"data\":")@)
    &&& s.subrange(p1, p2) == json_message(mv)
    &&& message_fields_at(s, p1, mv)
    &&& lit_at(s, p2, (",\"length\":")@)
    &&& num_at(s, p3, n)
    &&& lit_at(s, p4, ("}")@)
    &&& s.len() == p4 + ("}")@.len()
}

proof fn lemma_msg_envelope_prefix(s: Seq<char>, mv: MessageV, n: u64)
    requires
        s == json_msg_envelope(mv, n),
    ensures
        lit_at(s, 0, ("{\"type\":\"message\",\"data\":")@),
{
    let l0 = ("{\"type\":\"message\",\"data\":")@;
    assert(s.subrange(0, s.len() as int) =~= s);
    lemma_unconcat(
        s,
        0,
        l0 + json_message(mv) + (",\"length\":")@ + dec_rep(n as nat),
        ("}")@,
    );
    lemma_unconcat(s, 0, l0 + json_message(mv) + (",\"length\":")@, dec_rep(n as nat));
    lemma_unconcat(s, 0, l0 + json_message(mv), (",\"length\":")@);
    lemma_unconcat(s, 0, l0, json_message(mv));
}

proof fn lemma_msg_envelope_fields(s: Seq<char>, mv: MessageV, n: u64)
    requires
        mv.wf(),
        s == json_msg_envelope(mv, n),
    ensures
        msg_envelope_fields_at(s, mv, n),
{
    let l0 = ("{\"type\":\"message\",\"data\":")@;
    assert(s.subrange(0, s.len() as int) =~= s);
    lemma_unconcat(
        s,
        0,
        l0 + json_message(mv) + (",\"length\":")@ + dec_rep(n as nat),
        ("}")@,
    );
    lemma_unconcat(s, 0, l0 + json_message(mv) + (",\"length\":")@, dec_rep(n as nat));
    lemma_unconcat(s, 0, l0 + json_message(mv), (",\"length\":")@);
    lemma_unconcat(s, 0, l0, json_message(mv));
    lemma_message_fields(s, l0.len() as int, mv);
    assert(num_at(s, (l0 + json_message(mv) + (",\"length\":")@).len() as int, n)) by {
        lemma_dec_rep_props(n as nat);
        reveal_strlit("}");
        let pfx = l0 + json_message(mv) + (",\"length\":")@ + dec_rep(n as nat);
        assert(s.subrange(pfx.len() as int, pfx.len() + ("}")@.len() as int)[0]
            == s[pfx.len() as int]);
        assert(!is_digit('}'));
    }
}

/// Reads the rest of a message envelope after its leading literal.
fn finish_msg_envelope(v: &Vec<char>, j: usize) -> (r: Option<(Message, u64)>)
    requires
        j <= v@.len(),
        j == ("{\"type\":\"message\",\"data\":")@.len(),
    ensures
        r matches Some(p) ==> p.0.wf() && v@ == json_msg_envelope(p.0@, p.1),
        forall|mv: MessageV, n: u64|
            mv.wf() && #[trigger] msg_envelope_fields_at(v@, mv, n) ==> (r matches Some(p) && p.0@
                == mv),
{
    let (m, j2) = match decode_message_at(v, j) {
        Some(p) => p,
        None => {
            return None;
        },
    };
    let j3 = match expect_lit(v, j2, ",\"length\":") {
        Some(x) => x,
        None => {
            return None;
        },
    };
    let (n, j4) = match parse_u64_at(v, j3) {
        Some(p) => p,
        None => {
            return None;
        },
    };
    let j5 = match expect_lit(v, j4, "}") {
        Some(x) => x,
        None => {
            return None;
        },
    };
    if j5 != v.len() {
        return None;
    }
    let enc = encode_msg_envelope_chars(&m, n);
    let same = vec_chars_eq(&enc, v);
    proof {
        assert forall|mv: MessageV, n2: u64|
            mv.wf() && #[trigger] msg_envelope_fields_at(v@, mv, n2) implies m@ == mv && n2 == n
            && v@ == json_msg_envelope(mv, n2) by {
            let l0 = ("{\"type\":\"message\",\"data\":")@;
            let p1 = l0.len() as int;
            let p2 = p1 + json_message(mv).len();
            let p3 = p2 + (",\"length\":")@.len();
            let p4 = p3 + dec_rep(n2 as nat).len();
            let p5 = p4 + ("}")@.len();
            assert(m@ == mv && j2 == p2);
            assert(j3 == p3 && n == n2 && j4 == p4 && j5 == p5);
            assert(v@.subrange(0, p1) == l0);
            assert(v@.subrange(p1, p2) == json_message(mv));
            assert(v@.subrange(p2, p3) == (",\"length\":")@);
            assert(v@.subrange(p3, p4) == dec_rep(n2 as nat));
            assert(v@.subrange(p4, p5) == ("}")@);
            assert(v@ =~= v@.subrange(0, p1) + v@.subrange(p1, p2) + v@.subrange(p2, p3)
                + v@.subrange(p3, p4) + v@.subrange(p4, p5));
        }
    }
    if !same {
        return None;
    }
    Some((m, n))
}

// ---------------------------------------------------------------------
// File-transfer framing (port 8766)
// ---------------------------------------------------------------------

/// What the first line of a transfer-port connection announces.
pub enum TransferFrame {
    /// `FILE_DATA:<id>`: the peer pushes the file's bytes next.
    FileData(String),
    /// `REQUEST_FILE:<id>`: the peer asks for the file's bytes.
    RequestFile(String),
    /// Anything else: a JSON transfer record (request or status
    /// update), to be decoded as such.
    Control,
}

/// Classifies the first line (without its newline) of a transfer-port
/// connection. The two text commands are recognised exactly by their
/// prefixes; everything else is a control payload.
pub fn parse_transfer_frame(line: &str) -> (r: TransferFrame)
    ensures
        r matches TransferFrame::FileData(id) ==> line@ == ("FILE_DATA:")@ + id@,
        r matches TransferFrame::RequestFile(id) ==> line@ == ("REQUEST_FILE:")@ + id@,
        lit_at(line@, 0, ("FILE_DATA:")@) ==> (r matches TransferFrame::FileData(id) && id@
            == line@.skip(("FILE_DATA:")@.len() as int)),
        lit_at(line@, 0, ("REQUEST_FILE:")@) ==> (r matches TransferFrame::RequestFile(id) && id@
            == line@.skip(("REQUEST_FILE:")@.len() as int)),
        !lit_at(line@, 0, ("FILE_DATA:")@) && !lit_at(line@, 0, ("REQUEST_FILE:")@) ==> r is
            Control,
{
    let v = str_to_chars(line);
    if let Some(j) = expect_lit(&v, 0, "FILE_DATA:") {
        proof {
            reveal_strlit("FILE_DATA:");
            reveal_strlit("REQUEST_FILE:");
            if lit_at(line@, 0, ("REQUEST_FILE:")@) {
                lemma_lits_clash(v@, ("FILE_DATA:")@, ("REQUEST_FILE:")@, 0);
            }
        }
        let id = tail_to_string(&v, j);
        proof {
            assert(line@ =~= ("FILE_DATA:")@ + line@.skip(("FILE_DATA:")@.len() as int)) by {
                assert(v@.subrange(0, j as int) == ("FILE_DATA:")@);
            }
        }
        TransferFrame::FileData(id)
    } else if let Some(j) = expect_lit(&v, 0, "REQUEST_FILE:") {
        let id = tail_to_string(&v, j);
        proof {
            assert(line@ =~= ("REQUEST_FILE:")@ + line@.skip(("REQUEST_FILE:")@.len() as int))
                by {
                assert(v@.subrange(0, j as int) == ("REQUEST_FILE:")@);
            }
        }
        TransferFrame::RequestFile(id)
    } else {
        TransferFrame::Control
    }
}

/// Copies the characters from `a` to the end of `v` into a `String`.
fn tail_to_string(v: &Vec<char>, a: usize) -> (r: String)
    requires
        a <= v@.len(),
    ensures
        r@ == v@.skip(a as int),
{
    let mut out: Vec<char> = Vec::new();
    let mut i: usize = a;
    while i < v.len()
        invariant
            a <= i <= v@.len(),
            out@ == v@.subrange(a as int, i as int),
        decreases v@.len() - i,
    {
        out.push(v[i]);
        proof {
            assert(v@.subrange(a as int, i + 1 as int) =~= v@.subrange(a as int, i as int).push(
                v@[i as int],
            ));
        }
        i += 1;
    }
    proof {
        assert(out@ =~= v@.skip(a as int));
    }
    chars_to_string(&out)
}

} // verus!
