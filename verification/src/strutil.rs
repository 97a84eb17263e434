//! Small verified helpers for moving between `&str`, `String` and
//! `Vec<char>`, and for substring search. The codec and the state
//! machines work on `Vec<char>`, whose view is the same `Seq<char>` a
//! string has.

use vstd::prelude::*;
use vstd::string::StrSliceExecFns;

verus! {

/// Relies on std's `String::push`: appends exactly the one character.
#[verifier::external_body]
pub fn push_char(s: &mut String, c: char)
    ensures
        final(s)@ == old(s)@.push(c),
{
    s.push(c);
}

/// Builds a `String` out of a character buffer.
pub fn chars_to_string(v: &Vec<char>) -> (r: String)
    ensures
        r@ == v@,
{
    let mut r = String::new();
    let mut i: usize = 0;
    while i < v.len()
        invariant
            i <= v@.len(),
            r@ == v@.take(i as int),
        decreases v@.len() - i,
    {
        push_char(&mut r, v[i]);
        proof {
            assert(v@.take(i + 1 as int) =~= v@.take(i as int).push(v@[i as int]));
        }
        i += 1;
    }
    proof {
        assert(v@.take(v@.len() as int) =~= v@);
    }
    r
}

/// Copies the characters of a string slice into a fresh buffer.
pub fn str_to_chars(s: &str) -> (r: Vec<char>)
    ensures
        r@ == s@,
{
    let n = s.unicode_len();
    let mut r: Vec<char> = Vec::new();
    let mut i: usize = 0;
    while i < n
        invariant
            n == s@.len(),
            i <= n,
            r@ == s@.take(i as int),
        decreases n - i,
    {
        r.push(s.get_char(i));
        proof {
            assert(s@.take(i + 1 as int) =~= s@.take(i as int).push(s@[i as int]));
        }
        i += 1;
    }
    proof {
        assert(s@.take(n as int) =~= s@);
    }
    r
}

/// Appends every character of `s` to `out`.
pub fn append_str(out: &mut Vec<char>, s: &str)
    ensures
        final(out)@ == old(out)@ + s@,
{
    let n = s.unicode_len();
    let mut i: usize = 0;
    while i < n
        invariant
            n == s@.len(),
            i <= n,
            out@ == old(out)@ + s@.take(i as int),
        decreases n - i,
    {
        out.push(s.get_char(i));
        proof {
            assert(old(out)@ + s@.take(i + 1 as int) =~= (old(out)@ + s@.take(i as int)).push(
                s@[i as int],
            ));
        }
        i += 1;
    }
    proof {
        assert(old(out)@ + s@.take(n as int) =~= old(out)@ + s@);
    }
}

/// Whether two string slices hold the same characters.
pub fn str_eq(a: &str, b: &str) -> (r: bool)
    ensures
        r == (a@ == b@),
{
    let n = a.unicode_len();
    if n != b.unicode_len() {
        return false;
    }
    let mut i: usize = 0;
    while i < n
        invariant
            n == a@.len(),
            n == b@.len(),
            i <= n,
            forall|j: int| 0 <= j < i ==> a@[j] == b@[j],
        decreases n - i,
    {
        if a.get_char(i) != b.get_char(i) {
            return false;
        }
        i += 1;
    }
    proof {
        assert(a@ =~= b@);
    }
    true
}

/// Whether two character buffers hold the same characters.
pub fn vec_chars_eq(a: &Vec<char>, b: &Vec<char>) -> (r: bool)
    ensures
        r == (a@ == b@),
{
    if a.len() != b.len() {
        return false;
    }
    let mut i: usize = 0;
    while i < a.len()
        invariant
            a@.len() == b@.len(),
            i <= a@.len(),
            forall|j: int| 0 <= j < i ==> a@[j] == b@[j],
        decreases a@.len() - i,
    {
        if a[i] != b[i] {
            return false;
        }
        i += 1;
    }
    proof {
        assert(a@ =~= b@);
    }
    true
}

/// `n` occurs as a contiguous run inside `h` starting at `k`.
pub open spec fn occurs_at(h: Seq<char>, n: Seq<char>, k: int) -> bool {
    0 <= k && k + n.len() <= h.len() && h.subrange(k, k + n.len()) == n
}

/// `n` occurs somewhere inside `h`.
pub open spec fn spec_contains(h: Seq<char>, n: Seq<char>) -> bool {
    exists|k: int| occurs_at(h, n, k)
}

/// Whether the characters of `h` starting at `k` match `n` exactly.
fn matches_at(h: &Vec<char>, n: &Vec<char>, k: usize) -> (r: bool)
    requires
        k + n@.len() <= h@.len(),
    ensures
        r == occurs_at(h@, n@, k as int),
{
    let hl = h.len();
    let mut j: usize = 0;
    while j < n.len()
        invariant
            k + n@.len() <= h@.len(),
            hl == h@.len(),
            j <= n@.len(),
            h@.subrange(k as int, k + j as int) =~= n@.take(j as int),
        decreases n@.len() - j,
    {
        proof {
            assert(k + j < hl);
        }
        if h[k + j] != n[j] {
            proof {
                assert(h@.subrange(k as int, k + n@.len() as int)[j as int] == h@[k + j]);
                assert(!occurs_at(h@, n@, k as int));
            }
            return false;
        }
        proof {
            assert(h@.subrange(k as int, k + j + 1 as int) =~= h@.subrange(
                k as int,
                k + j as int,
            ).push(h@[k + j]));
            assert(n@.take(j + 1 as int) =~= n@.take(j as int).push(n@[j as int]));
        }
        j += 1;
    }
    proof {
        assert(n@.take(n@.len() as int) =~= n@);
    }
    true
}

/// Substring test: does `needle` occur anywhere in `hay`?
///
/// Mirrors how the discovery loop matches a removed mDNS instance name
/// against the peer ids in the directory.
pub fn str_contains(hay: &str, needle: &str) -> (r: bool)
    ensures
        r == spec_contains(hay@, needle@),
{
    let h = str_to_chars(hay);
    let n = str_to_chars(needle);
    if n.len() == 0 {
        proof {
            assert(h@.subrange(0, 0) =~= n@);
            assert(occurs_at(h@, n@, 0));
        }
        return true;
    }
    if n.len() > h.len() {
        proof {
            assert(forall|k: int| !occurs_at(h@, n@, k));
        }
        return false;
    }
    let mut k: usize = 0;
    while k <= h.len() - n.len()
        invariant
            1 <= n@.len() <= h@.len(),
            h@ == hay@,
            n@ == needle@,
            k <= h@.len() - n@.len() + 1,
            forall|j: int| 0 <= j < k ==> !occurs_at(h@, n@, j),
        decreases h@.len() - n@.len() + 1 - k,
    {
        if matches_at(&h, &n, k) {
            return true;
        }
        proof {
            assert(k < h@.len());
        }
        k += 1;
    }
    proof {
        assert(forall|j: int| occurs_at(h@, n@, j) ==> 0 <= j <= h@.len() - n@.len());
    }
    false
}

} // verus!
