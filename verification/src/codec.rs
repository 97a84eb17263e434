//! JSON codecs for the wire records: users, messages, file transfers.
//!
//! Each record has one canonical JSON text ([`json_user`],
//! [`json_message`], [`json_transfer`]): keys in declaration order,
//! camelCase names, no whitespace, timestamps as RFC 3339 strings.
//! Encoders produce exactly that text; decoders accept exactly it.
//! Both directions stand in the decoders' contracts, so decoding an
//! encoded record always gives the record back.

use vstd::prelude::*;
use crate::json::{
    escape, str_at, lit_at, expect_lit, parse_jstring_at, parse_bool_at, parse_u64_at,
    json_bool, json_opt_str, opt_at, parse_opt_at, opt_chars_view, num_at, dec_rep,
    escape_into, render_u64,
};
use crate::models::{
    User, UserV, Message, MessageV, FileTransfer, FileTransferV, TransferStatus, valid_ts,
    opt_str_view, MAX_WIRE_TS,
};
use crate::json::lemma_dec_rep_props;
use crate::strutil::{str_to_chars, chars_to_string, append_str, vec_chars_eq};
use crate::timefmt::{rfc3339_of, format_rfc3339, parse_rfc3339};

verus! {

/// A string field on the wire: the escaped body and its closing quote.
pub open spec fn jfield(q: Seq<char>) -> Seq<char> {
    escape(q) + seq!['"']
}

/// The canonical JSON text of a user record.
pub open spec fn json_user(u: UserV) -> Seq<char> {
    ("{\"id\":\"")@ + jfield(u.id) + (",\"name\":\"")@ + jfield(u.name) + (",\"ip\":\"")@
        + jfield(u.ip) + (",\"lastSeen\":\"")@ + jfield(rfc3339_of(u.last_seen)) + ("}")@
}

/// A timestamp field body stands at `i`: the RFC 3339 rendering of a
/// representable `t`, closed by a quote.
pub open spec fn ts_at(s: Seq<char>, i: int, t: i64) -> bool {
    valid_ts(t) && str_at(s, i, rfc3339_of(t))
}

/// Splits a known concatenation inside `s` into its two parts.
pub proof fn lemma_unconcat(s: Seq<char>, o: int, a: Seq<char>, b: Seq<char>)
    requires
        0 <= o,
        o + a.len() + b.len() <= s.len(),
        s.subrange(o, o + a.len() + b.len()) == a + b,
    ensures
        s.subrange(o, o + a.len() as int) == a,
        s.subrange(o + a.len(), o + a.len() + b.len()) == b,
{
    assert forall|x: int|
        0 <= x < a.len() implies s.subrange(o, o + a.len() as int)[x] == a[x] by {
        assert(s.subrange(o, o + a.len() + b.len())[x] == s[o + x]);
        assert((a + b)[x] == a[x]);
        assert(s.subrange(o, o + a.len() as int)[x] == s[o + x]);
    }
    assert(s.subrange(o, o + a.len() as int) =~= a);
    assert forall|x: int|
        0 <= x < b.len() implies s.subrange(o + a.len(), o + a.len() + b.len())[x] == b[x] by {
        assert(s.subrange(o, o + a.len() + b.len())[a.len() + x] == s[o + a.len() + x]);
        assert((a + b)[a.len() + x] == b[x]);
        assert(s.subrange(o + a.len(), o + a.len() + b.len())[x] == s[o + a.len() + x]);
    }
    assert(s.subrange(o + a.len(), o + a.len() + b.len()) =~= b);
}

/// A `jfield` standing at `o` gives `str_at` for its body.
pub proof fn lemma_field_str_at(s: Seq<char>, o: int, q: Seq<char>)
    requires
        0 <= o,
        o + jfield(q).len() <= s.len(),
        s.subrange(o, o + jfield(q).len()) == jfield(q),
    ensures
        str_at(s, o, q),
{
    lemma_unconcat(s, o, escape(q), seq!['"']);
    assert(s.subrange(o + escape(q).len(), o + escape(q).len() + 1)[0] == s[o + escape(
        q,
    ).len()]);
}

/// Where every piece of a user record stands when `s` is its
/// canonical text.
pub open spec fn user_fields_at(s: Seq<char>, uv: UserV) -> bool {
    let p1 = ("{\"id\":\"")@.len() as int;
    let p2 = p1 + jfield(uv.id).len();
    let p3 = p2 + (",\"name\":\"")@.len();
    let p4 = p3 + jfield(uv.name).len();
    let p5 = p4 + (",\"ip\":\"")@.len();
    let p6 = p5 + jfield(uv.ip).len();
    let p7 = p6 + (",\"lastSeen\":\"")@.len();
    let p8 = p7 + jfield(rfc3339_of(uv.last_seen)).len();
    &&& lit_at(s, 0, ("{\"id\":\"")@)
    &&& str_at(s, p1, uv.id)
    &&& lit_at(s, p2, (",\"name\":\"")@)
    &&& str_at(s, p3, uv.name)
    &&& lit_at(s, p4, (",\"ip\":\"")@)
    &&& str_at(s, p5, uv.ip)
    &&& lit_at(s, p6, (",\"lastSeen\":\"")@)
    &&& ts_at(s, p7, uv.last_seen)
    &&& lit_at(s, p8, ("}")@)
    &&& s.len() == p8 + ("}")@.len()
}

pub proof fn lemma_user_fields(s: Seq<char>, uv: UserV)
    requires
        uv.wf(),
        s == json_user(uv),
    ensures
        user_fields_at(s, uv),
{
    let l0 = ("{\"id\":\"")@;
    let l1 = (",\"name\":\"")@;
    let l2 = (",\"ip\":\"")@;
    let l3 = (",\"lastSeen\":\"")@;
    let l4 = ("}")@;
    let f1 = jfield(uv.id);
    let f2 = jfield(uv.name);
    let f3 = jfield(uv.ip);
    let f4 = jfield(rfc3339_of(uv.last_seen));
    let a8 = l0 + f1 + l1 + f2 + l2 + f3 + l3 + f4;
    let a7 = l0 + f1 + l1 + f2 + l2 + f3 + l3;
    let a6 = l0 + f1 + l1 + f2 + l2 + f3;
    let a5 = l0 + f1 + l1 + f2 + l2;
    let a4 = l0 + f1 + l1 + f2;
    let a3 = l0 + f1 + l1;
    let a2 = l0 + f1;
    assert(s.subrange(0, s.len() as int) =~= s);
    lemma_unconcat(s, 0, a8, l4);
    lemma_unconcat(s, 0, a7, f4);
    lemma_unconcat(s, 0, a6, l3);
    lemma_unconcat(s, 0, a5, f3);
    lemma_unconcat(s, 0, a4, l2);
    lemma_unconcat(s, 0, a3, f2);
    lemma_unconcat(s, 0, a2, l1);
    lemma_unconcat(s, 0, l0, f1);
    lemma_field_str_at(s, l0.len() as int, uv.id);
    lemma_field_str_at(s, a3.len() as int, uv.name);
    lemma_field_str_at(s, a5.len() as int, uv.ip);
    lemma_field_str_at(s, a7.len() as int, rfc3339_of(uv.last_seen));
}

/// Parses a timestamp field body at `i` (after its opening quote):
/// the RFC 3339 text and the closing quote.
///
/// Accepts exactly what [`format_rfc3339`] renders for representable
/// seconds: the text is parsed back and re-rendered, and both must
/// agree.
pub fn decode_ts_field(s: &Vec<char>, i: usize) -> (r: Option<(i64, usize)>)
    requires
        i <= s@.len(),
    ensures
        r matches Some(p) ==> ts_at(s@, i as int, p.0) && p.1 == i + escape(
            rfc3339_of(p.0),
        ).len() + 1,
        forall|t: i64|
            #[trigger] ts_at(s@, i as int, t) ==> (r matches Some(p) && p.0 == t && p.1 == i
                + escape(rfc3339_of(t)).len() + 1),
{
    let (q, j) = match parse_jstring_at(s, i) {
        Some(p) => p,
        None => {
            return None;
        },
    };
    let qs = chars_to_string(&q);
    let t = match parse_rfc3339(qs.as_str()) {
        Some(t) => t,
        None => {
            return None;
        },
    };
    if t < 0 || t > MAX_WIRE_TS {
        return None;
    }
    let rendered = match format_rfc3339(t) {
        Some(x) => x,
        None => {
            proof {
                assert(false);
            }
            return None;
        },
    };
    let rv = str_to_chars(rendered.as_str());
    if !vec_chars_eq(&rv, &q) {
        return None;
    }
    Some((t, j))
}

/// The canonical JSON text of a user record, as characters.
pub fn encode_user_chars(u: &User) -> (r: Vec<char>)
    requires
        u.wf(),
    ensures
        r@ == json_user(u@),
{
    let mut out: Vec<char> = Vec::new();
    append_str(&mut out, "{\"id\":\"");
    let f1 = str_to_chars(u.id.as_str());
    escape_into(&mut out, &f1);
    out.push('"');
    append_str(&mut out, ",\"name\":\"");
    let f2 = str_to_chars(u.name.as_str());
    escape_into(&mut out, &f2);
    out.push('"');
    append_str(&mut out, ",\"ip\":\"");
    let f3 = str_to_chars(u.ip.as_str());
    escape_into(&mut out, &f3);
    out.push('"');
    append_str(&mut out, ",\"lastSeen\":\"");
    let ts = match format_rfc3339(u.last_seen) {
        Some(x) => x,
        None => {
            proof {
                assert(false);
            }
            String::new()
        },
    };
    let f4 = str_to_chars(ts.as_str());
    escape_into(&mut out, &f4);
    out.push('"');
    append_str(&mut out, "}");
    proof {
        assert(out@ =~= json_user(u@));
    }
    out
}

/// Encodes a user record as its canonical JSON text.
pub fn encode_user(u: &User) -> (r: String)
    requires
        u.wf(),
    ensures
        r@ == json_user(u@),
{
    let out = encode_user_chars(u);
    chars_to_string(&out)
}

/// Decodes a user record from its canonical JSON text.
///
/// Returns `Some` exactly on the canonical texts of well-formed
/// records: whatever comes back re-encodes to the input, and every
/// encoded record decodes to itself.
pub fn decode_user(s: &str) -> (r: Option<User>)
    ensures
        r matches Some(u) ==> u.wf() && s@ == json_user(u@),
        forall|uv: UserV|
            uv.wf() && s@ == #[trigger] json_user(uv) ==> (r matches Some(u) && u@ == uv),
{
    let v = str_to_chars(s);
    proof {
        assert forall|uv: UserV|
            uv.wf() && s@ == #[trigger] json_user(uv) implies user_fields_at(s@, uv) by {
            lemma_user_fields(s@, uv);
        }
    }
    let j1 = match expect_lit(&v, 0, "{\"id\":\"") {
        Some(j) => j,
        None => {
            return None;
        },
    };
    let (idq, j2) = match parse_jstring_at(&v, j1) {
        Some(p) => p,
        None => {
            return None;
        },
    };
    let j3 = match expect_lit(&v, j2, ",\"name\":\"") {
        Some(j) => j,
        None => {
            return None;
        },
    };
    let (nameq, j4) = match parse_jstring_at(&v, j3) {
        Some(p) => p,
        None => {
            return None;
        },
    };
    let j5 = match expect_lit(&v, j4, ",\"ip\":\"") {
        Some(j) => j,
        None => {
            return None;
        },
    };
    let (ipq, j6) = match parse_jstring_at(&v, j5) {
        Some(p) => p,
        None => {
            return None;
        },
    };
    let j7 = match expect_lit(&v, j6, ",\"lastSeen\":\"") {
        Some(j) => j,
        None => {
            return None;
        },
    };
    let (ts, j8) = match decode_ts_field(&v, j7) {
        Some(p) => p,
        None => {
            return None;
        },
    };
    let j9 = match expect_lit(&v, j8, "}") {
        Some(j) => j,
        None => {
            return None;
        },
    };
    if j9 != v.len() {
        return None;
    }
    let u = User {
        id: chars_to_string(&idq),
        name: chars_to_string(&nameq),
        ip: chars_to_string(&ipq),
        last_seen: ts,
    };
    let enc = encode_user_chars(&u);
    if !vec_chars_eq(&enc, &v) {
        return None;
    }
    Some(u)
}

/// The canonical JSON text of a message record.
pub open spec fn json_message(m: MessageV) -> Seq<char> {
    ("{\"id\":\"")@ + jfield(m.id) + (",\"senderId\":\"")@ + jfield(m.sender_id) + (",\"recipientId\":\"")@ + jfield(m.recipient_id) + (",\"content\":\"")@ + jfield(m.content) + (",\"timestamp\":\"")@ + jfield(rfc3339_of(m.timestamp)) + (",\"read\":")@ + json_bool(m.read) + ("}")@
}

/// Where every piece of a message record stands when its canonical
/// text occupies `s` from `i` on.
pub open spec fn message_fields_at(s: Seq<char>, i: int, m: MessageV) -> bool {
    let p1 = i + ("{\"id\":\"")@.len();
    let p2 = p1 + jfield(m.id).len();
    let p3 = p2 + (",\"senderId\":\"")@.len();
    let p4 = p3 + jfield(m.sender_id).len();
    let p5 = p4 + (",\"recipientId\":\"")@.len();
    let p6 = p5 + jfield(m.recipient_id).len();
    let p7 = p6 + (",\"content\":\"")@.len();
    let p8 = p7 + jfield(m.content).len();
    let p9 = p8 + (",\"timestamp\":\"")@.len();
    let p10 = p9 + jfield(rfc3339_of(m.timestamp)).len();
    let p11 = p10 + (",\"read\":")@.len();
    let p12 = p11 + json_bool(m.read).len();
    let p13 = p12 + ("}")@.len();
    &&& lit_at(s, i, ("{\"id\":\"")@)
    &&& str_at(s, p1, m.id)
    &&& lit_at(s, p2, (",\"senderId\":\"")@)
    &&& str_at(s, p3, m.sender_id)
    &&& lit_at(s, p4, (",\"recipientId\":\"")@)
    &&& str_at(s, p5, m.recipient_id)
    &&& lit_at(s, p6, (",\"content\":\"")@)
    &&& str_at(s, p7, m.content)
    &&& lit_at(s, p8, (",\"timestamp\":\"")@)
    &&& ts_at(s, p9, m.timestamp)
    &&& lit_at(s, p10, (",\"read\":")@)
    &&& lit_at(s, p11, json_bool(m.read))
    &&& lit_at(s, p12, ("}")@)
}

pub proof fn lemma_message_fields(s: Seq<char>, i: int, m: MessageV)
    requires
        m.wf(),
        0 <= i,
        i + json_message(m).len() <= s.len(),
        s.subrange(i, i + json_message(m).len()) == json_message(m),
    ensures
        message_fields_at(s, i, m),
{
    lemma_unconcat(s, i, ("{\"id\":\"")@ + jfield(m.id) + (",\"senderId\":\"")@ + jfield(m.sender_id) + (",\"recipientId\":\"")@ + jfield(m.recipient_id) + (",\"content\":\"")@ + jfield(m.content) + (",\"timestamp\":\"")@ + jfield(rfc3339_of(m.timestamp)) + (",\"read\":")@ + json_bool(m.read), ("}")@);
    lemma_unconcat(s, i, ("{\"id\":\"")@ + jfield(m.id) + (",\"senderId\":\"")@ + jfield(m.sender_id) + (",\"recipientId\":\"")@ + jfield(m.recipient_id) + (",\"content\":\"")@ + jfield(m.content) + (",\"timestamp\":\"")@ + jfield(rfc3339_of(m.timestamp)) + (",\"read\":")@, json_bool(m.read));
    lemma_unconcat(s, i, ("{\"id\":\"")@ + jfield(m.id) + (",\"senderId\":\"")@ + jfield(m.sender_id) + (",\"recipientId\":\"")@ + jfield(m.recipient_id) + (",\"content\":\"")@ + jfield(m.content) + (",\"timestamp\":\"")@ + jfield(rfc3339_of(m.timestamp)), (",\"read\":")@);
    lemma_unconcat(s, i, ("{\"id\":\"")@ + jfield(m.id) + (",\"senderId\":\"")@ + jfield(m.sender_id) + (",\"recipientId\":\"")@ + jfield(m.recipient_id) + (",\"content\":\"")@ + jfield(m.content) + (",\"timestamp\":\"")@, jfield(rfc3339_of(m.timestamp)));
    lemma_unconcat(s, i, ("{\"id\":\"")@ + jfield(m.id) + (",\"senderId\":\"")@ + jfield(m.sender_id) + (",\"recipientId\":\"")@ + jfield(m.recipient_id) + (",\"content\":\"")@ + jfield(m.content), (",\"timestamp\":\"")@);
    lemma_unconcat(s, i, ("{\"id\":\"")@ + jfield(m.id) + (",\"senderId\":\"")@ + jfield(m.sender_id) + (",\"recipientId\":\"")@ + jfield(m.recipient_id) + (",\"content\":\"")@, jfield(m.content));
    lemma_unconcat(s, i, ("{\"id\":\"")@ + jfield(m.id) + (",\"senderId\":\"")@ + jfield(m.sender_id) + (",\"recipientId\":\"")@ + jfield(m.recipient_id), (",\"content\":\"")@);
    lemma_unconcat(s, i, ("{\"id\":\"")@ + jfield(m.id) + (",\"senderId\":\"")@ + jfield(m.sender_id) + (",\"recipientId\":\"")@, jfield(m.recipient_id));
    lemma_unconcat(s, i, ("{\"id\":\"")@ + jfield(m.id) + (",\"senderId\":\"")@ + jfield(m.sender_id), (",\"recipientId\":\"")@);
    lemma_unconcat(s, i, ("{\"id\":\"")@ + jfield(m.id) + (",\"senderId\":\"")@, jfield(m.sender_id));
    lemma_unconcat(s, i, ("{\"id\":\"")@ + jfield(m.id), (",\"senderId\":\"")@);
    lemma_unconcat(s, i, ("{\"id\":\"")@, jfield(m.id));
    lemma_field_str_at(s, i + (("{\"id\":\"")@).len(), m.id);
    lemma_field_str_at(s, i + (("{\"id\":\"")@ + jfield(m.id) + (",\"senderId\":\"")@).len(), m.sender_id);
    lemma_field_str_at(s, i + (("{\"id\":\"")@ + jfield(m.id) + (",\"senderId\":\"")@ + jfield(m.sender_id) + (",\"recipientId\":\"")@).len(), m.recipient_id);
    lemma_field_str_at(s, i + (("{\"id\":\"")@ + jfield(m.id) + (",\"senderId\":\"")@ + jfield(m.sender_id) + (",\"recipientId\":\"")@ + jfield(m.recipient_id) + (",\"content\":\"")@).len(), m.content);
    lemma_field_str_at(s, i + (("{\"id\":\"")@ + jfield(m.id) + (",\"senderId\":\"")@ + jfield(m.sender_id) + (",\"recipientId\":\"")@ + jfield(m.recipient_id) + (",\"content\":\"")@ + jfield(m.content) + (",\"timestamp\":\"")@).len(), rfc3339_of(m.timestamp));
}

/// The canonical JSON text of a transfer record.
pub open spec fn json_transfer(m: FileTransferV) -> Seq<char> {
    ("{\"id\":\"")@ + jfield(m.id) + (",\"senderId\":\"")@ + jfield(m.sender_id) + (",\"recipientId\":\"")@ + jfield(m.recipient_id) + (",\"senderIp\":")@ + json_opt_str(m.sender_ip) + (",\"recipientIp\":")@ + json_opt_str(m.recipient_ip) + (",\"fileName\":\"")@ + jfield(m.file_name) + (",\"fileSize\":")@ + dec_rep(m.file_size as nat) + (",\"sourcePath\":")@ + json_opt_str(m.source_path) + (",\"destinationPath\":")@ + json_opt_str(m.destination_path) + (",\"status\":")@ + json_status(m.status) + (",\"bytesTransferred\":")@ + dec_rep(m.bytes_transferred as nat) + (",\"timestamp\":\"")@ + jfield(rfc3339_of(m.timestamp)) + (",\"error\":")@ + json_opt_str(m.error) + ("}")@
}

/// Where every piece of a transfer record stands when its canonical
/// text occupies `s` from `i` on.
pub open spec fn transfer_fields_at(s: Seq<char>, i: int, m: FileTransferV) -> bool {
    let p1 = i + ("{\"id\":\"")@.len();
    let p2 = p1 + jfield(m.id).len();
    let p3 = p2 + (",\"senderId\":\"")@.len();
    let p4 = p3 + jfield(m.sender_id).len();
    let p5 = p4 + (",\"recipientId\":\"")@.len();
    let p6 = p5 + jfield(m.recipient_id).len();
    let p7 = p6 + (",\"senderIp\":")@.len();
    let p8 = p7 + json_opt_str(m.sender_ip).len();
    let p9 = p8 + (",\"recipientIp\":")@.len();
    let p10 = p9 + json_opt_str(m.recipient_ip).len();
    let p11 = p10 + (",\"fileName\":\"")@.len();
    let p12 = p11 + jfield(m.file_name).len();
    let p13 = p12 + (",\"fileSize\":")@.len();
    let p14 = p13 + dec_rep(m.file_size as nat).len();
    let p15 = p14 + (",\"sourcePath\":")@.len();
    let p16 = p15 + json_opt_str(m.source_path).len();
    let p17 = p16 + (",\"destinationPath\":")@.len();
    let p18 = p17 + json_opt_str(m.destination_path).len();
    let p19 = p18 + (",\"status\":")@.len();
    let p20 = p19 + json_status(m.status).len();
    let p21 = p20 + (",\"bytesTransferred\":")@.len();
    let p22 = p21 + dec_rep(m.bytes_transferred as nat).len();
    let p23 = p22 + (",\"timestamp\":\"")@.len();
    let p24 = p23 + jfield(rfc3339_of(m.timestamp)).len();
    let p25 = p24 + (",\"error\":")@.len();
    let p26 = p25 + json_opt_str(m.error).len();
    let p27 = p26 + ("}")@.len();
    &&& lit_at(s, i, ("{\"id\":\"")@)
    &&& str_at(s, p1, m.id)
    &&& lit_at(s, p2, (",\"senderId\":\"")@)
    &&& str_at(s, p3, m.sender_id)
    &&& lit_at(s, p4, (",\"recipientId\":\"")@)
    &&& str_at(s, p5, m.recipient_id)
    &&& lit_at(s, p6, (",\"senderIp\":")@)
    &&& opt_at(s, p7, m.sender_ip)
    &&& lit_at(s, p8, (",\"recipientIp\":")@)
    &&& opt_at(s, p9, m.recipient_ip)
    &&& lit_at(s, p10, (",\"fileName\":\"")@)
    &&& str_at(s, p11, m.file_name)
    &&& lit_at(s, p12, (",\"fileSize\":")@)
    &&& num_at(s, p13, m.file_size)
    &&& lit_at(s, p14, (",\"sourcePath\":")@)
    &&& opt_at(s, p15, m.source_path)
    &&& lit_at(s, p16, (",\"destinationPath\":")@)
    &&& opt_at(s, p17, m.destination_path)
    &&& lit_at(s, p18, (",\"status\":")@)
    &&& lit_at(s, p19, json_status(m.status))
    &&& lit_at(s, p20, (",\"bytesTransferred\":")@)
    &&& num_at(s, p21, m.bytes_transferred)
    &&& lit_at(s, p22, (",\"timestamp\":\"")@)
    &&& ts_at(s, p23, m.timestamp)
    &&& lit_at(s, p24, (",\"error\":")@)
    &&& opt_at(s, p25, m.error)
    &&& lit_at(s, p26, ("}")@)
}

#[verifier::rlimit(100)]
#[verifier::spinoff_prover]
pub proof fn lemma_transfer_fields(s: Seq<char>, i: int, m: FileTransferV)
    requires
        m.wf(),
        0 <= i,
        i + json_transfer(m).len() <= s.len(),
        s.subrange(i, i + json_transfer(m).len()) == json_transfer(m),
    ensures
        transfer_fields_at(s, i, m),
{
    lemma_unconcat(s, i, ("{\"id\":\"")@ + jfield(m.id) + (",\"senderId\":\"")@ + jfield(m.sender_id) + (",\"recipientId\":\"")@ + jfield(m.recipient_id) + (",\"senderIp\":")@ + json_opt_str(m.sender_ip) + (",\"recipientIp\":")@ + json_opt_str(m.recipient_ip) + (",\"fileName\":\"")@ + jfield(m.file_name) + (",\"fileSize\":")@ + dec_rep(m.file_size as nat) + (",\"sourcePath\":")@ + json_opt_str(m.source_path) + (",\"destinationPath\":")@ + json_opt_str(m.destination_path) + (",\"status\":")@ + json_status(m.status) + (",\"bytesTransferred\":")@ + dec_rep(m.bytes_transferred as nat) + (",\"timestamp\":\"")@ + jfield(rfc3339_of(m.timestamp)) + (",\"error\":")@ + json_opt_str(m.error), ("}")@);
    lemma_unconcat(s, i, ("{\"id\":\"")@ + jfield(m.id) + (",\"senderId\":\"")@ + jfield(m.sender_id) + (",\"recipientId\":\"")@ + jfield(m.recipient_id) + (",\"senderIp\":")@ + json_opt_str(m.sender_ip) + (",\"recipientIp\":")@ + json_opt_str(m.recipient_ip) + (",\"fileName\":\"")@ + jfield(m.file_name) + (",\"fileSize\":")@ + dec_rep(m.file_size as nat) + (",\"sourcePath\":")@ + json_opt_str(m.source_path) + (",\"destinationPath\":")@ + json_opt_str(m.destination_path) + (",\"status\":")@ + json_status(m.status) + (",\"bytesTransferred\":")@ + dec_rep(m.bytes_transferred as nat) + (",\"timestamp\":\"")@ + jfield(rfc3339_of(m.timestamp)) + (",\"error\":")@, json_opt_str(m.error));
    lemma_unconcat(s, i, ("{\"id\":\"")@ + jfield(m.id) + (",\"senderId\":\"")@ + jfield(m.sender_id) + (",\"recipientId\":\"")@ + jfield(m.recipient_id) + (",\"senderIp\":")@ + json_opt_str(m.sender_ip) + (",\"recipientIp\":")@ + json_opt_str(m.recipient_ip) + (",\"fileName\":\"")@ + jfield(m.file_name) + (",\"fileSize\":")@ + dec_rep(m.file_size as nat) + (",\"sourcePath\":")@ + json_opt_str(m.source_path) + (",\"destinationPath\":")@ + json_opt_str(m.destination_path) + (",\"status\":")@ + json_status(m.status) + (",\"bytesTransferred\":")@ + dec_rep(m.bytes_transferred as nat) + (",\"timestamp\":\"")@ + jfield(rfc3339_of(m.timestamp)), (",\"error\":")@);
    lemma_unconcat(s, i, ("{\"id\":\"")@ + jfield(m.id) + (",\"senderId\":\"")@ + jfield(m.sender_id) + (",\"recipientId\":\"")@ + jfield(m.recipient_id) + (",\"senderIp\":")@ + json_opt_str(m.sender_ip) + (",\"recipientIp\":")@ + json_opt_str(m.recipient_ip) + (",\"fileName\":\"")@ + jfield(m.file_name) + (",\"fileSize\":")@ + dec_rep(m.file_size as nat) + (",\"sourcePath\":")@ + json_opt_str(m.source_path) + (",\"destinationPath\":")@ + json_opt_str(m.destination_path) + (",\"status\":")@ + json_status(m.status) + (",\"bytesTransferred\":")@ + dec_rep(m.bytes_transferred as nat) + (",\"timestamp\":\"")@, jfield(rfc3339_of(m.timestamp)));
    lemma_unconcat(s, i, ("{\"id\":\"")@ + jfield(m.id) + (",\"senderId\":\"")@ + jfield(m.sender_id) + (",\"recipientId\":\"")@ + jfield(m.recipient_id) + (",\"senderIp\":")@ + json_opt_str(m.sender_ip) + (",\"recipientIp\":")@ + json_opt_str(m.recipient_ip) + (",\"fileName\":\"")@ + jfield(m.file_name) + (",\"fileSize\":")@ + dec_rep(m.file_size as nat) + (",\"sourcePath\":")@ + json_opt_str(m.source_path) + (",\"destinationPath\":")@ + json_opt_str(m.destination_path) + (",\"status\":")@ + json_status(m.status) + (",\"bytesTransferred\":")@ + dec_rep(m.bytes_transferred as nat), (",\"timestamp\":\"")@);
    lemma_unconcat(s, i, ("{\"id\":\"")@ + jfield(m.id) + (",\"senderId\":\"")@ + jfield(m.sender_id) + (",\"recipientId\":\"")@ + jfield(m.recipient_id) + (",\"senderIp\":")@ + json_opt_str(m.sender_ip) + (",\"recipientIp\":")@ + json_opt_str(m.recipient_ip) + (",\"fileName\":\"")@ + jfield(m.file_name) + (",\"fileSize\":")@ + dec_rep(m.file_size as nat) + (",\"sourcePath\":")@ + json_opt_str(m.source_path) + (",\"destinationPath\":")@ + json_opt_str(m.destination_path) + (",\"status\":")@ + json_status(m.status) + (",\"bytesTransferred\":")@, dec_rep(m.bytes_transferred as nat));
    lemma_unconcat(s, i, ("{\"id\":\"")@ + jfield(m.id) + (",\"senderId\":\"")@ + jfield(m.sender_id) + (",\"recipientId\":\"")@ + jfield(m.recipient_id) + (",\"senderIp\":")@ + json_opt_str(m.sender_ip) + (",\"recipientIp\":")@ + json_opt_str(m.recipient_ip) + (",\"fileName\":\"")@ + jfield(m.file_name) + (",\"fileSize\":")@ + dec_rep(m.file_size as nat) + (",\"sourcePath\":")@ + json_opt_str(m.source_path) + (",\"destinationPath\":")@ + json_opt_str(m.destination_path) + (",\"status\":")@ + json_status(m.status), (",\"bytesTransferred\":")@);
    lemma_unconcat(s, i, ("{\"id\":\"")@ + jfield(m.id) + (",\"senderId\":\"")@ + jfield(m.sender_id) + (",\"recipientId\":\"")@ + jfield(m.recipient_id) + (",\"senderIp\":")@ + json_opt_str(m.sender_ip) + (",\"recipientIp\":")@ + json_opt_str(m.recipient_ip) + (",\"fileName\":\"")@ + jfield(m.file_name) + (",\"fileSize\":")@ + dec_rep(m.file_size as nat) + (",\"sourcePath\":")@ + json_opt_str(m.source_path) + (",\"destinationPath\":")@ + json_opt_str(m.destination_path) + (",\"status\":")@, json_status(m.status));
    lemma_unconcat(s, i, ("{\"id\":\"")@ + jfield(m.id) + (",\"senderId\":\"")@ + jfield(m.sender_id) + (",\"recipientId\":\"")@ + jfield(m.recipient_id) + (",\"senderIp\":")@ + json_opt_str(m.sender_ip) + (",\"recipientIp\":")@ + json_opt_str(m.recipient_ip) + (",\"fileName\":\"")@ + jfield(m.file_name) + (",\"fileSize\":")@ + dec_rep(m.file_size as nat) + (",\"sourcePath\":")@ + json_opt_str(m.source_path) + (",\"destinationPath\":")@ + json_opt_str(m.destination_path), (",\"status\":")@);
    lemma_unconcat(s, i, ("{\"id\":\"")@ + jfield(m.id) + (",\"senderId\":\"")@ + jfield(m.sender_id) + (",\"recipientId\":\"")@ + jfield(m.recipient_id) + (",\"senderIp\":")@ + json_opt_str(m.sender_ip) + (",\"recipientIp\":")@ + json_opt_str(m.recipient_ip) + (",\"fileName\":\"")@ + jfield(m.file_name) + (",\"fileSize\":")@ + dec_rep(m.file_size as nat) + (",\"sourcePath\":")@ + json_opt_str(m.source_path) + (",\"destinationPath\":")@, json_opt_str(m.destination_path));
    lemma_unconcat(s, i, ("{\"id\":\"")@ + jfield(m.id) + (",\"senderId\":\"")@ + jfield(m.sender_id) + (",\"recipientId\":\"")@ + jfield(m.recipient_id) + (",\"senderIp\":")@ + json_opt_str(m.sender_ip) + (",\"recipientIp\":")@ + json_opt_str(m.recipient_ip) + (",\"fileName\":\"")@ + jfield(m.file_name) + (",\"fileSize\":")@ + dec_rep(m.file_size as nat) + (",\"sourcePath\":")@ + json_opt_str(m.source_path), (",\"destinationPath\":")@);
    lemma_unconcat(s, i, ("{\"id\":\"")@ + jfield(m.id) + (",\"senderId\":\"")@ + jfield(m.sender_id) + (",\"recipientId\":\"")@ + jfield(m.recipient_id) + (",\"senderIp\":")@ + json_opt_str(m.sender_ip) + (",\"recipientIp\":")@ + json_opt_str(m.recipient_ip) + (",\"fileName\":\"")@ + jfield(m.file_name) + (",\"fileSize\":")@ + dec_rep(m.file_size as nat) + (",\"sourcePath\":")@, json_opt_str(m.source_path));
    lemma_unconcat(s, i, ("{\"id\":\"")@ + jfield(m.id) + (",\"senderId\":\"")@ + jfield(m.sender_id) + (",\"recipientId\":\"")@ + jfield(m.recipient_id) + (",\"senderIp\":")@ + json_opt_str(m.sender_ip) + (",\"recipientIp\":")@ + json_opt_str(m.recipient_ip) + (",\"fileName\":\"")@ + jfield(m.file_name) + (",\"fileSize\":")@ + dec_rep(m.file_size as nat), (",\"sourcePath\":")@);
    lemma_unconcat(s, i, ("{\"id\":\"")@ + jfield(m.id) + (",\"senderId\":\"")@ + jfield(m.sender_id) + (",\"recipientId\":\"")@ + jfield(m.recipient_id) + (",\"senderIp\":")@ + json_opt_str(m.sender_ip) + (",\"recipientIp\":")@ + json_opt_str(m.recipient_ip) + (",\"fileName\":\"")@ + jfield(m.file_name) + (",\"fileSize\":")@, dec_rep(m.file_size as nat));
    lemma_unconcat(s, i, ("{\"id\":\"")@ + jfield(m.id) + (",\"senderId\":\"")@ + jfield(m.sender_id) + (",\"recipientId\":\"")@ + jfield(m.recipient_id) + (",\"senderIp\":")@ + json_opt_str(m.sender_ip) + (",\"recipientIp\":")@ + json_opt_str(m.recipient_ip) + (",\"fileName\":\"")@ + jfield(m.file_name), (",\"fileSize\":")@);
    lemma_unconcat(s, i, ("{\"id\":\"")@ + jfield(m.id) + (",\"senderId\":\"")@ + jfield(m.sender_id) + (",\"recipientId\":\"")@ + jfield(m.recipient_id) + (",\"senderIp\":")@ + json_opt_str(m.sender_ip) + (",\"recipientIp\":")@ + json_opt_str(m.recipient_ip) + (",\"fileName\":\"")@, jfield(m.file_name));
    lemma_unconcat(s, i, ("{\"id\":\"")@ + jfield(m.id) + (",\"senderId\":\"")@ + jfield(m.sender_id) + (",\"recipientId\":\"")@ + jfield(m.recipient_id) + (",\"senderIp\":")@ + json_opt_str(m.sender_ip) + (",\"recipientIp\":")@ + json_opt_str(m.recipient_ip), (",\"fileName\":\"")@);
    lemma_unconcat(s, i, ("{\"id\":\"")@ + jfield(m.id) + (",\"senderId\":\"")@ + jfield(m.sender_id) + (",\"recipientId\":\"")@ + jfield(m.recipient_id) + (",\"senderIp\":")@ + json_opt_str(m.sender_ip) + (",\"recipientIp\":")@, json_opt_str(m.recipient_ip));
    lemma_unconcat(s, i, ("{\"id\":\"")@ + jfield(m.id) + (",\"senderId\":\"")@ + jfield(m.sender_id) + (",\"recipientId\":\"")@ + jfield(m.recipient_id) + (",\"senderIp\":")@ + json_opt_str(m.sender_ip), (",\"recipientIp\":")@);
    lemma_unconcat(s, i, ("{\"id\":\"")@ + jfield(m.id) + (",\"senderId\":\"")@ + jfield(m.sender_id) + (",\"recipientId\":\"")@ + jfield(m.recipient_id) + (",\"senderIp\":")@, json_opt_str(m.sender_ip));
    lemma_unconcat(s, i, ("{\"id\":\"")@ + jfield(m.id) + (",\"senderId\":\"")@ + jfield(m.sender_id) + (",\"recipientId\":\"")@ + jfield(m.recipient_id), (",\"senderIp\":")@);
    lemma_unconcat(s, i, ("{\"id\":\"")@ + jfield(m.id) + (",\"senderId\":\"")@ + jfield(m.sender_id) + (",\"recipientId\":\"")@, jfield(m.recipient_id));
    lemma_unconcat(s, i, ("{\"id\":\"")@ + jfield(m.id) + (",\"senderId\":\"")@ + jfield(m.sender_id), (",\"recipientId\":\"")@);
    lemma_unconcat(s, i, ("{\"id\":\"")@ + jfield(m.id) + (",\"senderId\":\"")@, jfield(m.sender_id));
    lemma_unconcat(s, i, ("{\"id\":\"")@ + jfield(m.id), (",\"senderId\":\"")@);
    lemma_unconcat(s, i, ("{\"id\":\"")@, jfield(m.id));
    lemma_field_str_at(s, i + (("{\"id\":\"")@).len(), m.id);
    lemma_field_str_at(s, i + (("{\"id\":\"")@ + jfield(m.id) + (",\"senderId\":\"")@).len(), m.sender_id);
    lemma_field_str_at(s, i + (("{\"id\":\"")@ + jfield(m.id) + (",\"senderId\":\"")@ + jfield(m.sender_id) + (",\"recipientId\":\"")@).len(), m.recipient_id);
    lemma_field_str_at(s, i + (("{\"id\":\"")@ + jfield(m.id) + (",\"senderId\":\"")@ + jfield(m.sender_id) + (",\"recipientId\":\"")@ + jfield(m.recipient_id) + (",\"senderIp\":")@ + json_opt_str(m.sender_ip) + (",\"recipientIp\":")@ + json_opt_str(m.recipient_ip) + (",\"fileName\":\"")@).len(), m.file_name);
    assert(num_at(s, i + (("{\"id\":\"")@ + jfield(m.id) + (",\"senderId\":\"")@ + jfield(m.sender_id) + (",\"recipientId\":\"")@ + jfield(m.recipient_id) + (",\"senderIp\":")@ + json_opt_str(m.sender_ip) + (",\"recipientIp\":")@ + json_opt_str(m.recipient_ip) + (",\"fileName\":\"")@ + jfield(m.file_name) + (",\"fileSize\":")@).len(), m.file_size)) by {
        lemma_dec_rep_props(m.file_size as nat);
        reveal_strlit(",\"sourcePath\":");
        assert(s.subrange(i + (("{\"id\":\"")@ + jfield(m.id) + (",\"senderId\":\"")@ + jfield(m.sender_id) + (",\"recipientId\":\"")@ + jfield(m.recipient_id) + (",\"senderIp\":")@ + json_opt_str(m.sender_ip) + (",\"recipientIp\":")@ + json_opt_str(m.recipient_ip) + (",\"fileName\":\"")@ + jfield(m.file_name) + (",\"fileSize\":")@ + dec_rep(m.file_size as nat)).len(), i + (("{\"id\":\"")@ + jfield(m.id) + (",\"senderId\":\"")@ + jfield(m.sender_id) + (",\"recipientId\":\"")@ + jfield(m.recipient_id) + (",\"senderIp\":")@ + json_opt_str(m.sender_ip) + (",\"recipientIp\":")@ + json_opt_str(m.recipient_ip) + (",\"fileName\":\"")@ + jfield(m.file_name) + (",\"fileSize\":")@ + dec_rep(m.file_size as nat)).len() + (",\"sourcePath\":")@.len() as int) == (",\"sourcePath\":")@);
        assert(s.subrange(i + (("{\"id\":\"")@ + jfield(m.id) + (",\"senderId\":\"")@ + jfield(m.sender_id) + (",\"recipientId\":\"")@ + jfield(m.recipient_id) + (",\"senderIp\":")@ + json_opt_str(m.sender_ip) + (",\"recipientIp\":")@ + json_opt_str(m.recipient_ip) + (",\"fileName\":\"")@ + jfield(m.file_name) + (",\"fileSize\":")@ + dec_rep(m.file_size as nat)).len(), i + (("{\"id\":\"")@ + jfield(m.id) + (",\"senderId\":\"")@ + jfield(m.sender_id) + (",\"recipientId\":\"")@ + jfield(m.recipient_id) + (",\"senderIp\":")@ + json_opt_str(m.sender_ip) + (",\"recipientIp\":")@ + json_opt_str(m.recipient_ip) + (",\"fileName\":\"")@ + jfield(m.file_name) + (",\"fileSize\":")@ + dec_rep(m.file_size as nat)).len() + (",\"sourcePath\":")@.len() as int)[0] == s[i + (("{\"id\":\"")@ + jfield(m.id) + (",\"senderId\":\"")@ + jfield(m.sender_id) + (",\"recipientId\":\"")@ + jfield(m.recipient_id) + (",\"senderIp\":")@ + json_opt_str(m.sender_ip) + (",\"recipientIp\":")@ + json_opt_str(m.recipient_ip) + (",\"fileName\":\"")@ + jfield(m.file_name) + (",\"fileSize\":")@ + dec_rep(m.file_size as nat)).len()]);
    }
    assert(num_at(s, i + (("{\"id\":\"")@ + jfield(m.id) + (",\"senderId\":\"")@ + jfield(m.sender_id) + (",\"recipientId\":\"")@ + jfield(m.recipient_id) + (",\"senderIp\":")@ + json_opt_str(m.sender_ip) + (",\"recipientIp\":")@ + json_opt_str(m.recipient_ip) + (",\"fileName\":\"")@ + jfield(m.file_name) + (",\"fileSize\":")@ + dec_rep(m.file_size as nat) + (",\"sourcePath\":")@ + json_opt_str(m.source_path) + (",\"destinationPath\":")@ + json_opt_str(m.destination_path) + (",\"status\":")@ + json_status(m.status) + (",\"bytesTransferred\":")@).len(), m.bytes_transferred)) by {
        lemma_dec_rep_props(m.bytes_transferred as nat);
        reveal_strlit(",\"timestamp\":\"");
        assert(s.subrange(i + (("{\"id\":\"")@ + jfield(m.id) + (",\"senderId\":\"")@ + jfield(m.sender_id) + (",\"recipientId\":\"")@ + jfield(m.recipient_id) + (",\"senderIp\":")@ + json_opt_str(m.sender_ip) + (",\"recipientIp\":")@ + json_opt_str(m.recipient_ip) + (",\"fileName\":\"")@ + jfield(m.file_name) + (",\"fileSize\":")@ + dec_rep(m.file_size as nat) + (",\"sourcePath\":")@ + json_opt_str(m.source_path) + (",\"destinationPath\":")@ + json_opt_str(m.destination_path) + (",\"status\":")@ + json_status(m.status) + (",\"bytesTransferred\":")@ + dec_rep(m.bytes_transferred as nat)).len(), i + (("{\"id\":\"")@ + jfield(m.id) + (",\"senderId\":\"")@ + jfield(m.sender_id) + (",\"recipientId\":\"")@ + jfield(m.recipient_id) + (",\"senderIp\":")@ + json_opt_str(m.sender_ip) + (",\"recipientIp\":")@ + json_opt_str(m.recipient_ip) + (",\"fileName\":\"")@ + jfield(m.file_name) + (",\"fileSize\":")@ + dec_rep(m.file_size as nat) + (",\"sourcePath\":")@ + json_opt_str(m.source_path) + (",\"destinationPath\":")@ + json_opt_str(m.destination_path) + (",\"status\":")@ + json_status(m.status) + (",\"bytesTransferred\":")@ + dec_rep(m.bytes_transferred as nat)).len() + (",\"timestamp\":\"")@.len() as int) == (",\"timestamp\":\"")@);
        assert(s.subrange(i + (("{\"id\":\"")@ + jfield(m.id) + (",\"senderId\":\"")@ + jfield(m.sender_id) + (",\"recipientId\":\"")@ + jfield(m.recipient_id) + (",\"senderIp\":")@ + json_opt_str(m.sender_ip) + (",\"recipientIp\":")@ + json_opt_str(m.recipient_ip) + (",\"fileName\":\"")@ + jfield(m.file_name) + (",\"fileSize\":")@ + dec_rep(m.file_size as nat) + (",\"sourcePath\":")@ + json_opt_str(m.source_path) + (",\"destinationPath\":")@ + json_opt_str(m.destination_path) + (",\"status\":")@ + json_status(m.status) + (",\"bytesTransferred\":")@ + dec_rep(m.bytes_transferred as nat)).len(), i + (("{\"id\":\"")@ + jfield(m.id) + (",\"senderId\":\"")@ + jfield(m.sender_id) + (",\"recipientId\":\"")@ + jfield(m.recipient_id) + (",\"senderIp\":")@ + json_opt_str(m.sender_ip) + (",\"recipientIp\":")@ + json_opt_str(m.recipient_ip) + (",\"fileName\":\"")@ + jfield(m.file_name) + (",\"fileSize\":")@ + dec_rep(m.file_size as nat) + (",\"sourcePath\":")@ + json_opt_str(m.source_path) + (",\"destinationPath\":")@ + json_opt_str(m.destination_path) + (",\"status\":")@ + json_status(m.status) + (",\"bytesTransferred\":")@ + dec_rep(m.bytes_transferred as nat)).len() + (",\"timestamp\":\"")@.len() as int)[0] == s[i + (("{\"id\":\"")@ + jfield(m.id) + (",\"senderId\":\"")@ + jfield(m.sender_id) + (",\"recipientId\":\"")@ + jfield(m.recipient_id) + (",\"senderIp\":")@ + json_opt_str(m.sender_ip) + (",\"recipientIp\":")@ + json_opt_str(m.recipient_ip) + (",\"fileName\":\"")@ + jfield(m.file_name) + (",\"fileSize\":")@ + dec_rep(m.file_size as nat) + (",\"sourcePath\":")@ + json_opt_str(m.source_path) + (",\"destinationPath\":")@ + json_opt_str(m.destination_path) + (",\"status\":")@ + json_status(m.status) + (",\"bytesTransferred\":")@ + dec_rep(m.bytes_transferred as nat)).len()]);
    }
    lemma_field_str_at(s, i + (("{\"id\":\"")@ + jfield(m.id) + (",\"senderId\":\"")@ + jfield(m.sender_id) + (",\"recipientId\":\"")@ + jfield(m.recipient_id) + (",\"senderIp\":")@ + json_opt_str(m.sender_ip) + (",\"recipientIp\":")@ + json_opt_str(m.recipient_ip) + (",\"fileName\":\"")@ + jfield(m.file_name) + (",\"fileSize\":")@ + dec_rep(m.file_size as nat) + (",\"sourcePath\":")@ + json_opt_str(m.source_path) + (",\"destinationPath\":")@ + json_opt_str(m.destination_path) + (",\"status\":")@ + json_status(m.status) + (",\"bytesTransferred\":")@ + dec_rep(m.bytes_transferred as nat) + (",\"timestamp\":\"")@).len(), rfc3339_of(m.timestamp));
}

// ---------------------------------------------------------------------
// Transfer status
// ---------------------------------------------------------------------

/// The canonical JSON text of a transfer status: its name, quoted.
pub open spec fn json_status(st: TransferStatus) -> Seq<char> {
    match st {
        TransferStatus::Pending => ("\"Pending\"")@,
        TransferStatus::InProgress => ("\"InProgress\"")@,
        TransferStatus::Completed => ("\"Completed\"")@,
        TransferStatus::Rejected => ("\"Rejected\"")@,
        TransferStatus::Cancelled => ("\"Cancelled\"")@,
        TransferStatus::Failed => ("\"Failed\"")@,
    }
}

/// Two statuses spelled at the same place are the same status.
proof fn lemma_status_unique(s: Seq<char>, i: int, a: TransferStatus, b: TransferStatus)
    requires
        lit_at(s, i, json_status(a)),
        lit_at(s, i, json_status(b)),
    ensures
        a == b,
{
    reveal_strlit("\"Pending\"");
    reveal_strlit("\"InProgress\"");
    reveal_strlit("\"Completed\"");
    reveal_strlit("\"Rejected\"");
    reveal_strlit("\"Cancelled\"");
    reveal_strlit("\"Failed\"");
    if a != b {
        assert(s.subrange(i, i + json_status(a).len() as int)[1] == s[i + 1]);
        assert(s.subrange(i, i + json_status(b).len() as int)[1] == s[i + 1]);
        assert(s.subrange(i, i + json_status(a).len() as int)[2] == s[i + 2]);
        assert(s.subrange(i, i + json_status(b).len() as int)[2] == s[i + 2]);
        assert(false);
    }
}

/// Strict parse of a quoted status name at position `i`.
pub fn parse_status_at(s: &Vec<char>, i: usize) -> (r: Option<(TransferStatus, usize)>)
    requires
        i <= s@.len(),
    ensures
        r matches Some(p) ==> lit_at(s@, i as int, json_status(p.0)) && p.1 == i + json_status(
            p.0,
        ).len(),
        forall|st: TransferStatus|
            lit_at(s@, i as int, #[trigger] json_status(st)) ==> (r matches Some(p) && p.0 == st
                && p.1 == i + json_status(st).len()),
{
    if let Some(j) = expect_lit(s, i, "\"Pending\"") {
        proof {
            assert forall|st: TransferStatus|
                lit_at(s@, i as int, #[trigger] json_status(st)) implies st
                == TransferStatus::Pending by {
                lemma_status_unique(s@, i as int, TransferStatus::Pending, st);
            }
        }
        return Some((TransferStatus::Pending, j));
    }
    if let Some(j) = expect_lit(s, i, "\"InProgress\"") {
        proof {
            assert forall|st: TransferStatus|
                lit_at(s@, i as int, #[trigger] json_status(st)) implies st
                == TransferStatus::InProgress by {
                lemma_status_unique(s@, i as int, TransferStatus::InProgress, st);
            }
        }
        return Some((TransferStatus::InProgress, j));
    }
    if let Some(j) = expect_lit(s, i, "\"Completed\"") {
        proof {
            assert forall|st: TransferStatus|
                lit_at(s@, i as int, #[trigger] json_status(st)) implies st
                == TransferStatus::Completed by {
                lemma_status_unique(s@, i as int, TransferStatus::Completed, st);
            }
        }
        return Some((TransferStatus::Completed, j));
    }
    if let Some(j) = expect_lit(s, i, "\"Rejected\"") {
        proof {
            assert forall|st: TransferStatus|
                lit_at(s@, i as int, #[trigger] json_status(st)) implies st
                == TransferStatus::Rejected by {
                lemma_status_unique(s@, i as int, TransferStatus::Rejected, st);
            }
        }
        return Some((TransferStatus::Rejected, j));
    }
    if let Some(j) = expect_lit(s, i, "\"Cancelled\"") {
        proof {
            assert forall|st: TransferStatus|
                lit_at(s@, i as int, #[trigger] json_status(st)) implies st
                == TransferStatus::Cancelled by {
                lemma_status_unique(s@, i as int, TransferStatus::Cancelled, st);
            }
        }
        return Some((TransferStatus::Cancelled, j));
    }
    if let Some(j) = expect_lit(s, i, "\"Failed\"") {
        proof {
            assert forall|st: TransferStatus|
                lit_at(s@, i as int, #[trigger] json_status(st)) implies st
                == TransferStatus::Failed by {
                lemma_status_unique(s@, i as int, TransferStatus::Failed, st);
            }
        }
        return Some((TransferStatus::Failed, j));
    }
    proof {
        assert forall|st: TransferStatus| !lit_at(s@, i as int, #[trigger] json_status(st)) by {
            if lit_at(s@, i as int, json_status(st)) {
                match st {
                    TransferStatus::Pending => assert(false),
                    TransferStatus::InProgress => assert(false),
                    TransferStatus::Completed => assert(false),
                    TransferStatus::Rejected => assert(false),
                    TransferStatus::Cancelled => assert(false),
                    TransferStatus::Failed => assert(false),
                }
            }
        }
    }
    None
}

// ---------------------------------------------------------------------
// Encoder pieces
// ---------------------------------------------------------------------

/// Appends a string field body and its closing quote.
fn encode_field_into(out: &mut Vec<char>, x: &str)
    ensures
        final(out)@ == old(out)@ + jfield(x@),
{
    let c = str_to_chars(x);
    escape_into(out, &c);
    out.push('"');
    proof {
        assert(final(out)@ =~= old(out)@ + jfield(x@));
    }
}

/// Appends a timestamp field body and its closing quote.
fn encode_ts_into(out: &mut Vec<char>, t: i64)
    requires
        valid_ts(t),
    ensures
        final(out)@ == old(out)@ + jfield(rfc3339_of(t)),
{
    let ts = match format_rfc3339(t) {
        Some(x) => x,
        None => {
            proof {
                assert(false);
            }
            String::new()
        },
    };
    let c = str_to_chars(ts.as_str());
    escape_into(out, &c);
    out.push('"');
    proof {
        assert(final(out)@ =~= old(out)@ + jfield(rfc3339_of(t)));
    }
}

/// Appends the JSON spelling of an optional string.
fn encode_opt_into(out: &mut Vec<char>, o: &Option<String>)
    ensures
        final(out)@ == old(out)@ + json_opt_str(opt_str_view(*o)),
{
    match o {
        Option::Some(x) => {
            out.push('"');
            let c = str_to_chars(x.as_str());
            escape_into(out, &c);
            out.push('"');
            proof {
                assert(final(out)@ =~= old(out)@ + json_opt_str(opt_str_view(*o)));
            }
        },
        Option::None => {
            append_str(out, "null");
        },
    }
}

/// Appends the quoted name of a transfer status.
fn encode_status_into(out: &mut Vec<char>, st: TransferStatus)
    ensures
        final(out)@ == old(out)@ + json_status(st),
{
    match st {
        TransferStatus::Pending => append_str(out, "\"Pending\""),
        TransferStatus::InProgress => append_str(out, "\"InProgress\""),
        TransferStatus::Completed => append_str(out, "\"Completed\""),
        TransferStatus::Rejected => append_str(out, "\"Rejected\""),
        TransferStatus::Cancelled => append_str(out, "\"Cancelled\""),
        TransferStatus::Failed => append_str(out, "\"Failed\""),
    }
}

/// Appends the canonical decimal text of `n`.
fn encode_u64_into(out: &mut Vec<char>, n: u64)
    ensures
        final(out)@ == old(out)@ + dec_rep(n as nat),
{
    let d = render_u64(n);
    let mut i: usize = 0;
    while i < d.len()
        invariant
            i <= d@.len(),
            out@ == old(out)@ + d@.take(i as int),
        decreases d@.len() - i,
    {
        out.push(d[i]);
        proof {
            assert(old(out)@ + d@.take(i + 1 as int) =~= (old(out)@ + d@.take(i as int)).push(
                d@[i as int],
            ));
        }
        i += 1;
    }
    proof {
        assert(d@.take(d@.len() as int) =~= d@);
    }
}

// ---------------------------------------------------------------------
// Message codec
// ---------------------------------------------------------------------

/// The canonical JSON text of a message record, as characters.
pub fn encode_message_chars(m: &Message) -> (r: Vec<char>)
    requires
        m.wf(),
    ensures
        r@ == json_message(m@),
{
    let mut out: Vec<char> = Vec::new();
    append_str(&mut out, "{\"id\":\"");
    encode_field_into(&mut out, m.id.as_str());
    append_str(&mut out, ",\"senderId\":\"");
    encode_field_into(&mut out, m.sender_id.as_str());
    append_str(&mut out, ",\"recipientId\":\"");
    encode_field_into(&mut out, m.recipient_id.as_str());
    append_str(&mut out, ",\"content\":\"");
    encode_field_into(&mut out, m.content.as_str());
    append_str(&mut out, ",\"timestamp\":\"");
    encode_ts_into(&mut out, m.timestamp);
    append_str(&mut out, ",\"read\":");
    if m.read {
        append_str(&mut out, "true");
    } else {
        append_str(&mut out, "false");
    }
    append_str(&mut out, "}");
    proof {
        assert(out@ =~= json_message(m@));
    }
    out
}

/// Encodes a message as its canonical JSON text.
pub fn encode_message(m: &Message) -> (r: String)
    requires
        m.wf(),
    ensures
        r@ == json_message(m@),
{
    let out = encode_message_chars(m);
    chars_to_string(&out)
}

/// Parses one message record standing at `i`; returns it and the
/// position after it. Every well-formed record whose pieces stand at
/// `i` is accepted and returned exactly.
pub fn decode_message_at(s: &Vec<char>, i: usize) -> (r: Option<(Message, usize)>)
    requires
        i <= s@.len(),
    ensures
        r matches Some(p) ==> p.0.wf() && i < p.1 <= s@.len(),
        forall|mv: MessageV|
            mv.wf() && #[trigger] message_fields_at(s@, i as int, mv) ==> (r matches Some(p)
                && p.0@ == mv && p.1 == i + json_message(mv).len()),
{
    let j1 = match expect_lit(s, i, "{\"id\":\"") {
        Some(j) => j,
        None => {
            return None;
        },
    };
    let (idq, j2) = match parse_jstring_at(s, j1) {
        Some(p) => p,
        None => {
            return None;
        },
    };
    let j3 = match expect_lit(s, j2, ",\"senderId\":\"") {
        Some(j) => j,
        None => {
            return None;
        },
    };
    let (sidq, j4) = match parse_jstring_at(s, j3) {
        Some(p) => p,
        None => {
            return None;
        },
    };
    let j5 = match expect_lit(s, j4, ",\"recipientId\":\"") {
        Some(j) => j,
        None => {
            return None;
        },
    };
    let (ridq, j6) = match parse_jstring_at(s, j5) {
        Some(p) => p,
        None => {
            return None;
        },
    };
    let j7 = match expect_lit(s, j6, ",\"content\":\"") {
        Some(j) => j,
        None => {
            return None;
        },
    };
    let (contentq, j8) = match parse_jstring_at(s, j7) {
        Some(p) => p,
        None => {
            return None;
        },
    };
    let j9 = match expect_lit(s, j8, ",\"timestamp\":\"") {
        Some(j) => j,
        None => {
            return None;
        },
    };
    let (ts, j10) = match decode_ts_field(s, j9) {
        Some(p) => p,
        None => {
            return None;
        },
    };
    let j11 = match expect_lit(s, j10, ",\"read\":") {
        Some(j) => j,
        None => {
            return None;
        },
    };
    let (readb, j12) = match parse_bool_at(s, j11) {
        Some(p) => p,
        None => {
            return None;
        },
    };
    let j13 = match expect_lit(s, j12, "}") {
        Some(j) => j,
        None => {
            return None;
        },
    };
    let m = Message {
        id: chars_to_string(&idq),
        sender_id: chars_to_string(&sidq),
        recipient_id: chars_to_string(&ridq),
        content: chars_to_string(&contentq),
        timestamp: ts,
        read: readb,
    };
    Some((m, j13))
}

/// Decodes a message from its canonical JSON text.
///
/// Returns `Some` exactly on the canonical texts of well-formed
/// records; decoding an encoded message gives the message back.
pub fn decode_message(s: &str) -> (r: Option<Message>)
    ensures
        r matches Some(m) ==> m.wf() && s@ == json_message(m@),
        forall|mv: MessageV|
            mv.wf() && s@ == #[trigger] json_message(mv) ==> (r matches Some(m) && m@ == mv),
{
    let v = str_to_chars(s);
    proof {
        assert forall|mv: MessageV|
            mv.wf() && s@ == #[trigger] json_message(mv) implies message_fields_at(s@, 0, mv)
            && s@.len() == json_message(mv).len() by {
            assert(s@.subrange(0, s@.len() as int) =~= s@);
            lemma_message_fields(s@, 0, mv);
        }
    }
    let (m, j) = match decode_message_at(&v, 0) {
        Some(p) => p,
        None => {
            return None;
        },
    };
    if j != v.len() {
        return None;
    }
    let enc = encode_message_chars(&m);
    if !vec_chars_eq(&enc, &v) {
        return None;
    }
    Some(m)
}

// ---------------------------------------------------------------------
// File-transfer codec
// ---------------------------------------------------------------------

/// The canonical JSON text of a transfer record, as characters.
pub fn encode_transfer_chars(t: &FileTransfer) -> (r: Vec<char>)
    requires
        t.wf(),
    ensures
        r@ == json_transfer(t@),
{
    let mut out: Vec<char> = Vec::new();
    append_str(&mut out, "{\"id\":\"");
    encode_field_into(&mut out, t.id.as_str());
    append_str(&mut out, ",\"senderId\":\"");
    encode_field_into(&mut out, t.sender_id.as_str());
    append_str(&mut out, ",\"recipientId\":\"");
    encode_field_into(&mut out, t.recipient_id.as_str());
    append_str(&mut out, ",\"senderIp\":");
    encode_opt_into(&mut out, &t.sender_ip);
    append_str(&mut out, ",\"recipientIp\":");
    encode_opt_into(&mut out, &t.recipient_ip);
    append_str(&mut out, ",\"fileName\":\"");
    encode_field_into(&mut out, t.file_name.as_str());
    append_str(&mut out, ",\"fileSize\":");
    encode_u64_into(&mut out, t.file_size);
    append_str(&mut out, ",\"sourcePath\":");
    encode_opt_into(&mut out, &t.source_path);
    append_str(&mut out, ",\"destinationPath\":");
    encode_opt_into(&mut out, &t.destination_path);
    append_str(&mut out, ",\"status\":");
    encode_status_into(&mut out, t.status);
    append_str(&mut out, ",\"bytesTransferred\":");
    encode_u64_into(&mut out, t.bytes_transferred);
    append_str(&mut out, ",\"timestamp\":\"");
    encode_ts_into(&mut out, t.timestamp);
    append_str(&mut out, ",\"error\":");
    encode_opt_into(&mut out, &t.error);
    append_str(&mut out, "}");
    proof {
        assert(out@ =~= json_transfer(t@));
    }
    out
}

/// Encodes a transfer record as its canonical JSON text.
pub fn encode_transfer(t: &FileTransfer) -> (r: String)
    requires
        t.wf(),
    ensures
        r@ == json_transfer(t@),
{
    let out = encode_transfer_chars(t);
    chars_to_string(&out)
}

/// Turns a parsed optional field into an owned optional string.
fn opt_chars_to_string(o: Option<Vec<char>>) -> (r: Option<String>)
    ensures
        opt_str_view(r) == opt_chars_view(o),
{
    match o {
        Option::Some(v) => Option::Some(chars_to_string(&v)),
        Option::None => Option::None,
    }
}

/// Decodes a transfer record from its canonical JSON text.
///
/// Returns `Some` exactly on the canonical texts of well-formed
/// records; decoding an encoded record gives the record back.
#[verifier::rlimit(100)]
#[verifier::spinoff_prover]
pub fn decode_transfer(s: &str) -> (r: Option<FileTransfer>)
    ensures
        r matches Some(t) ==> t.wf() && s@ == json_transfer(t@),
        forall|tv: FileTransferV|
            tv.wf() && s@ == #[trigger] json_transfer(tv) ==> (r matches Some(t) && t@ == tv),
{
    let v = str_to_chars(s);
    proof {
        assert forall|tv: FileTransferV|
            tv.wf() && s@ == #[trigger] json_transfer(tv) implies transfer_fields_at(
            s@,
            0,
            tv,
        ) && s@.len() == json_transfer(tv).len() by {
            assert(s@.subrange(0, s@.len() as int) =~= s@);
            lemma_transfer_fields(s@, 0, tv);
        }
    }
    let j1 = match expect_lit(&v, 0, "{\"id\":\"") {
        Some(j) => j,
        None => {
            return None;
        },
    };
    let (idq, j2) = match parse_jstring_at(&v, j1) {
        Some(p) => p,
        None => {
            return None;
        },
    };
    let j3 = match expect_lit(&v, j2, ",\"senderId\":\"") {
        Some(j) => j,
        None => {
            return None;
        },
    };
    let (sidq, j4) = match parse_jstring_at(&v, j3) {
        Some(p) => p,
        None => {
            return None;
        },
    };
    let j5 = match expect_lit(&v, j4, ",\"recipientId\":\"") {
        Some(j) => j,
        None => {
            return None;
        },
    };
    let (ridq, j6) = match parse_jstring_at(&v, j5) {
        Some(p) => p,
        None => {
            return None;
        },
    };
    let j7 = match expect_lit(&v, j6, ",\"senderIp\":") {
        Some(j) => j,
        None => {
            return None;
        },
    };
    let (sip, j8) = match parse_opt_at(&v, j7) {
        Some(p) => p,
        None => {
            return None;
        },
    };
    let j9 = match expect_lit(&v, j8, ",\"recipientIp\":") {
        Some(j) => j,
        None => {
            return None;
        },
    };
    let (rip, j10) = match parse_opt_at(&v, j9) {
        Some(p) => p,
        None => {
            return None;
        },
    };
    let j11 = match expect_lit(&v, j10, ",\"fileName\":\"") {
        Some(j) => j,
        None => {
            return None;
        },
    };
    let (fnq, j12) = match parse_jstring_at(&v, j11) {
        Some(p) => p,
        None => {
            return None;
        },
    };
    let j13 = match expect_lit(&v, j12, ",\"fileSize\":") {
        Some(j) => j,
        None => {
            return None;
        },
    };
    let (fsize, j14) = match parse_u64_at(&v, j13) {
        Some(p) => p,
        None => {
            return None;
        },
    };
    let j15 = match expect_lit(&v, j14, ",\"sourcePath\":") {
        Some(j) => j,
        None => {
            return None;
        },
    };
    let (spath, j16) = match parse_opt_at(&v, j15) {
        Some(p) => p,
        None => {
            return None;
        },
    };
    let j17 = match expect_lit(&v, j16, ",\"destinationPath\":") {
        Some(j) => j,
        None => {
            return None;
        },
    };
    let (dpath, j18) = match parse_opt_at(&v, j17) {
        Some(p) => p,
        None => {
            return None;
        },
    };
    let j19 = match expect_lit(&v, j18, ",\"status\":") {
        Some(j) => j,
        None => {
            return None;
        },
    };
    let (st, j20) = match parse_status_at(&v, j19) {
        Some(p) => p,
        None => {
            return None;
        },
    };
    let j21 = match expect_lit(&v, j20, ",\"bytesTransferred\":") {
        Some(j) => j,
        None => {
            return None;
        },
    };
    let (btr, j22) = match parse_u64_at(&v, j21) {
        Some(p) => p,
        None => {
            return None;
        },
    };
    let j23 = match expect_lit(&v, j22, ",\"timestamp\":\"") {
        Some(j) => j,
        None => {
            return None;
        },
    };
    let (ts, j24) = match decode_ts_field(&v, j23) {
        Some(p) => p,
        None => {
            return None;
        },
    };
    let j25 = match expect_lit(&v, j24, ",\"error\":") {
        Some(j) => j,
        None => {
            return None;
        },
    };
    let (errf, j26) = match parse_opt_at(&v, j25) {
        Some(p) => p,
        None => {
            return None;
        },
    };
    let j27 = match expect_lit(&v, j26, "}") {
        Some(j) => j,
        None => {
            return None;
        },
    };
    if j27 != v.len() {
        return None;
    }
    if btr > fsize {
        return None;
    }
    if st == TransferStatus::Completed && btr != fsize {
        return None;
    }
    let t = FileTransfer {
        id: chars_to_string(&idq),
        sender_id: chars_to_string(&sidq),
        recipient_id: chars_to_string(&ridq),
        sender_ip: opt_chars_to_string(sip),
        recipient_ip: opt_chars_to_string(rip),
        file_name: chars_to_string(&fnq),
        file_size: fsize,
        source_path: opt_chars_to_string(spath),
        destination_path: opt_chars_to_string(dpath),
        status: st,
        bytes_transferred: btr,
        timestamp: ts,
        error: opt_chars_to_string(errf),
    };
    let enc = encode_transfer_chars(&t);
    if !vec_chars_eq(&enc, &v) {
        return None;
    }
    Some(t)
}

} // verus!
