//! The node's identity: a stable peer id hashed from the hostname, and
//! the local user record built at startup.
//!
//! The id is `user-` followed by the low 32 bits of the hostname's
//! hash in lowercase hex. Hashing is a pure function of the hostname,
//! so the id survives process restarts on the same host.

use vstd::prelude::*;
use crate::json::hex_of;
use crate::json::hex_char;
use crate::models::User;
use crate::strutil::{append_str, chars_to_string};
use vstd::string::StringExecFns;

verus! {

/// What std's default hasher computes for a string.
pub uninterp spec fn str_hash64(s: Seq<char>) -> u64;

/// Relies on std's `DefaultHasher`: `DefaultHasher::new()` builds the
/// hasher with fixed keys, so the value depends on the string alone
/// and is the same in every process.
#[verifier::external_body]
fn hash_str(s: &str) -> (r: u64)
    ensures
        r == str_hash64(s@),
{
    let mut hasher = std::collections::hash_map::DefaultHasher::new();
    std::hash::Hash::hash(s, &mut hasher);
    std::hash::Hasher::finish(&hasher)
}

/// Relies on the hostname crate's `get`: the machine's hostname, if
/// the platform reports one. Machine-dependent, so nothing is promised
/// of the value.
#[verifier::external_body]
pub fn read_hostname() -> Option<String> {
    match hostname::get() {
        Ok(h) => Some(h.to_string_lossy().to_string()),
        Err(_) => None,
    }
}

/// Relies on uuid's `Uuid::new_v4` and its hyphenated rendering: a
/// fresh random identifier. Random, so nothing is promised of it.
#[verifier::external_body]
pub fn fresh_uuid() -> String {
    uuid::Uuid::new_v4().to_string()
}

/// Lowercase hexadecimal rendering without leading zeros.
pub open spec fn hex_rep(n: nat) -> Seq<char>
    decreases n,
{
    if n < 16 {
        seq![hex_of(n)]
    } else {
        hex_rep(n / 16).push(hex_of(n % 16))
    }
}

/// Renders `n` in lowercase hex, no leading zeros.
pub fn render_hex32(n: u32) -> (r: Vec<char>)
    ensures
        r@ == hex_rep(n as nat),
    decreases n,
{
    if n < 16 {
        let mut r: Vec<char> = Vec::new();
        r.push(hex_char(n));
        proof {
            assert(r@ =~= seq![hex_of(n as nat)]);
        }
        r
    } else {
        let mut r = render_hex32(n / 16);
        r.push(hex_char(n % 16));
        r
    }
}

/// The stable peer id a hostname hashes to.
pub open spec fn user_id_of(hostname: Seq<char>) -> Seq<char> {
    ("user-")@ + hex_rep((str_hash64(hostname) & 0xffffffff) as nat)
}

/// Derives the peer id for a hostname: `user-<hex>` over the low 32
/// bits of the hostname's hash. The same hostname always yields the
/// same id, so a device keeps its id across restarts.
pub fn generate_user_id(hostname: &str) -> (r: String)
    ensures
        r@ == user_id_of(hostname@),
{
    let h = hash_str(hostname);
    proof {
        assert(h & 0xffffffff <= 0xffffffff) by (bit_vector);
    }
    let low: u32 = (h & 0xffffffff) as u32;
    let mut out: Vec<char> = Vec::new();
    append_str(&mut out, "user-");
    let hx = render_hex32(low);
    let mut i: usize = 0;
    while i < hx.len()
        invariant
            i <= hx@.len(),
            out@ == ("user-")@ + hx@.take(i as int),
        decreases hx@.len() - i,
    {
        out.push(hx[i]);
        proof {
            assert(("user-")@ + hx@.take(i + 1 as int) =~= (("user-")@ + hx@.take(
                i as int,
            )).push(hx@[i as int]));
        }
        i += 1;
    }
    proof {
        assert(hx@.take(hx@.len() as int) =~= hx@);
        assert(out@ == ("user-")@ + hex_rep(low as nat));
    }
    chars_to_string(&out)
}

/// The display name the node advertises when no hostname is known.
pub open spec fn fallback_name() -> Seq<char> {
    ("Unknown User")@
}

/// Builds the local user record from what the platform reported: the
/// id hashed from the hostname (or from `unknown` without one), the
/// hostname as display name, the primary local address (loopback as
/// the fallback), and the clock's reading.
pub fn make_local_user(hostname: Option<String>, local_ip: Option<String>, now: i64) -> (u: User)
    ensures
        u@.id == user_id_of(
            match hostname {
                Option::Some(h) => h@,
                Option::None => ("unknown")@,
            },
        ),
        u@.name == match hostname {
            Option::Some(h) => h@,
            Option::None => fallback_name(),
        },
        u@.ip == match local_ip {
            Option::Some(ip) => ip@,
            Option::None => ("127.0.0.1")@,
        },
        u@.last_seen == now,
{
    let (id, name) = match hostname {
        Option::Some(h) => {
            let id = generate_user_id(h.as_str());
            (id, h)
        },
        Option::None => {
            let id = generate_user_id("unknown");
            (id, String::from_str("Unknown User"))
        },
    };
    let ip = match local_ip {
        Option::Some(ip) => ip,
        Option::None => String::from_str("127.0.0.1"),
    };
    User { id, name, ip, last_seen: now }
}

} // verus!
