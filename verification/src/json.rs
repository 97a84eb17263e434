//! Verified building blocks of the JSON wire format.
//!
//! Every value this node puts on a socket is a JSON text in one fixed
//! (canonical) form: object keys in declaration order, no whitespace,
//! strings escaped exactly as [`esc_char`] says, numbers in plain
//! decimal without leading zeros. The encoders below produce that form
//! and the parsers accept exactly it; both directions carry proofs, so
//! decoding an encoded value always gives the value back.

use vstd::prelude::*;

verus! {

// ---------------------------------------------------------------------
// Characters and digits
// ---------------------------------------------------------------------

/// A decimal digit.
pub open spec fn is_digit(c: char) -> bool {
    48 <= (c as u32) && (c as u32) <= 57
}

/// Numeric value of a decimal digit.
pub open spec fn digit_val(c: char) -> nat {
    ((c as u32) - 48) as nat
}

/// The decimal digit with value `d` (for `d < 10`).
pub open spec fn digit_of(d: nat) -> char {
    if d == 0 {
        '0'
    } else if d == 1 {
        '1'
    } else if d == 2 {
        '2'
    } else if d == 3 {
        '3'
    } else if d == 4 {
        '4'
    } else if d == 5 {
        '5'
    } else if d == 6 {
        '6'
    } else if d == 7 {
        '7'
    } else if d == 8 {
        '8'
    } else {
        '9'
    }
}

pub proof fn lemma_digit_of_val(d: nat)
    requires
        d < 10,
    ensures
        is_digit(digit_of(d)),
        digit_val(digit_of(d)) == d,
{
}

pub proof fn lemma_digit_val_of(c: char)
    requires
        is_digit(c),
    ensures
        digit_val(c) < 10,
        digit_of(digit_val(c)) == c,
{
    assert(digit_of(digit_val(c)) == c) by {
        let v = c as u32;
        assert(48 <= v <= 57);
        if v == 48 {
            assert(c == '0');
        } else if v == 49 {
            assert(c == '1');
        } else if v == 50 {
            assert(c == '2');
        } else if v == 51 {
            assert(c == '3');
        } else if v == 52 {
            assert(c == '4');
        } else if v == 53 {
            assert(c == '5');
        } else if v == 54 {
            assert(c == '6');
        } else if v == 55 {
            assert(c == '7');
        } else if v == 56 {
            assert(c == '8');
        } else {
            assert(c == '9');
        }
    }
}

/// The lowercase hexadecimal digit with value `d` (for `d < 16`).
pub open spec fn hex_of(d: nat) -> char {
    if d < 10 {
        digit_of(d)
    } else if d == 10 {
        'a'
    } else if d == 11 {
        'b'
    } else if d == 12 {
        'c'
    } else if d == 13 {
        'd'
    } else if d == 14 {
        'e'
    } else {
        'f'
    }
}

/// Numeric value of a lowercase hexadecimal digit.
pub open spec fn hex_val(c: char) -> nat {
    if is_digit(c) {
        digit_val(c)
    } else {
        ((c as u32) - 87) as nat
    }
}

/// A lowercase hexadecimal digit.
pub open spec fn is_hex(c: char) -> bool {
    is_digit(c) || (97 <= (c as u32) && (c as u32) <= 102)
}

pub proof fn lemma_hex_of_val(d: nat)
    requires
        d < 16,
    ensures
        is_hex(hex_of(d)),
        hex_val(hex_of(d)) == d,
{
}

/// Executable decimal digit for `d < 10`.
pub fn digit_char(d: u64) -> (c: char)
    requires
        d < 10,
    ensures
        c == digit_of(d as nat),
{
    if d == 0 {
        '0'
    } else if d == 1 {
        '1'
    } else if d == 2 {
        '2'
    } else if d == 3 {
        '3'
    } else if d == 4 {
        '4'
    } else if d == 5 {
        '5'
    } else if d == 6 {
        '6'
    } else if d == 7 {
        '7'
    } else if d == 8 {
        '8'
    } else {
        '9'
    }
}

/// Executable lowercase hexadecimal digit for `d < 16`.
pub fn hex_char(d: u32) -> (c: char)
    requires
        d < 16,
    ensures
        c == hex_of(d as nat),
{
    if d < 10 {
        digit_char(d as u64)
    } else if d == 10 {
        'a'
    } else if d == 11 {
        'b'
    } else if d == 12 {
        'c'
    } else if d == 13 {
        'd'
    } else if d == 14 {
        'e'
    } else {
        'f'
    }
}

// ---------------------------------------------------------------------
// String escaping
// ---------------------------------------------------------------------

/// A character the canonical form writes as itself inside a JSON
/// string.
pub open spec fn is_plain(c: char) -> bool {
    c != '"' && c != '\\' && (c as u32) >= 0x20
}

/// A control character that has a named short escape.
pub open spec fn has_short_escape(c: char) -> bool {
    c == '\u{8}' || c == '\t' || c == '\n' || c == '\u{c}' || c == '\r'
}

/// Canonical escape of one character inside a JSON string literal.
pub open spec fn esc_char(c: char) -> Seq<char> {
    if c == '"' {
        seq!['\\', '"']
    } else if c == '\\' {
        seq!['\\', '\\']
    } else if c == '\u{8}' {
        seq!['\\', 'b']
    } else if c == '\t' {
        seq!['\\', 't']
    } else if c == '\n' {
        seq!['\\', 'n']
    } else if c == '\u{c}' {
        seq!['\\', 'f']
    } else if c == '\r' {
        seq!['\\', 'r']
    } else if (c as u32) < 0x20 {
        seq!['\\', 'u', '0', '0', hex_of(((c as u32) / 16) as nat), hex_of(
            ((c as u32) % 16) as nat,
        )]
    } else {
        seq![c]
    }
}

/// Canonical escape of a whole string body.
pub open spec fn escape(s: Seq<char>) -> Seq<char>
    decreases s.len(),
{
    if s.len() == 0 {
        Seq::empty()
    } else {
        esc_char(s[0]) + escape(s.skip(1))
    }
}

pub proof fn lemma_escape_append(a: Seq<char>, b: Seq<char>)
    ensures
        escape(a + b) == escape(a) + escape(b),
    decreases a.len(),
{
    if a.len() == 0 {
        assert(a + b =~= b);
        assert(escape(a) + escape(b) =~= escape(b));
    } else {
        assert((a + b).skip(1) =~= a.skip(1) + b);
        lemma_escape_append(a.skip(1), b);
        assert((a + b)[0] == a[0]);
        assert(escape(a + b) == esc_char(a[0]) + (escape(a.skip(1)) + escape(b)));
        assert(esc_char(a[0]) + (escape(a.skip(1)) + escape(b)) =~= (esc_char(a[0]) + escape(
            a.skip(1),
        )) + escape(b));
    }
}

/// One more character extends the escape by one block.
pub proof fn lemma_escape_step(s: Seq<char>, i: int)
    requires
        0 <= i < s.len(),
    ensures
        escape(s.take(i + 1)) == escape(s.take(i)) + esc_char(s[i]),
{
    assert(s.take(i + 1) =~= s.take(i) + seq![s[i]]);
    lemma_escape_append(s.take(i), seq![s[i]]);
    assert(escape(seq![s[i]]) == esc_char(s[i]) + escape(seq![s[i]].skip(1)));
    assert(seq![s[i]].skip(1) =~= Seq::<char>::empty());
    assert(escape(seq![s[i]]) =~= esc_char(s[i]));
}

/// A prefix of equal length is the sequence itself.
pub proof fn lemma_prefix_full(a: Seq<char>, b: Seq<char>)
    requires
        a.is_prefix_of(b),
        a.len() == b.len(),
    ensures
        a == b,
{
    assert(b.subrange(0, b.len() as int) =~= b);
    assert(a =~= b);
}

/// The escape of one character is its escape block.
pub proof fn lemma_escape_singleton(c: char)
    ensures
        escape(seq![c]) == esc_char(c),
{
    assert(seq![c].skip(1) =~= Seq::<char>::empty());
    assert(escape(Seq::<char>::empty()) == Seq::<char>::empty());
    assert(escape(seq![c]) =~= esc_char(c));
}

/// Block decomposition: the escape of `q` splits at any position `m`.
pub proof fn lemma_escape_block(q: Seq<char>, m: int)
    requires
        0 <= m < q.len(),
    ensures
        escape(q) == escape(q.take(m)) + esc_char(q[m]) + escape(q.skip(m + 1)),
{
    assert(q =~= q.take(m) + seq![q[m]] + q.skip(m + 1));
    lemma_escape_append(q.take(m) + seq![q[m]], q.skip(m + 1));
    lemma_escape_append(q.take(m), seq![q[m]]);
    assert(escape(seq![q[m]]) == esc_char(q[m]) + escape(seq![q[m]].skip(1)));
    assert(seq![q[m]].skip(1) =~= Seq::<char>::empty());
    assert(escape(seq![q[m]]) =~= esc_char(q[m]));
}

/// A string of plain characters escapes to itself.
pub proof fn lemma_escape_plain(s: Seq<char>)
    requires
        forall|i: int| 0 <= i < s.len() ==> is_plain(s[i]),
    ensures
        escape(s) == s,
    decreases s.len(),
{
    if s.len() == 0 {
        assert(escape(s) =~= s);
    } else {
        assert(is_plain(s[0]));
        lemma_escape_plain(s.skip(1));
        assert(escape(s) == seq![s[0]] + s.skip(1));
        assert(seq![s[0]] + s.skip(1) =~= s);
    }
}

/// Appends the canonical escape of `s` to `out`.
pub fn escape_into(out: &mut Vec<char>, s: &Vec<char>)
    ensures
        final(out)@ == old(out)@ + escape(s@),
{
    let mut i: usize = 0;
    while i < s.len()
        invariant
            i <= s@.len(),
            out@ == old(out)@ + escape(s@.take(i as int)),
        decreases s@.len() - i,
    {
        let c = s[i];
        if c == '"' {
            out.push('\\');
            out.push('"');
        } else if c == '\\' {
            out.push('\\');
            out.push('\\');
        } else if c == '\u{8}' {
            out.push('\\');
            out.push('b');
        } else if c == '\t' {
            out.push('\\');
            out.push('t');
        } else if c == '\n' {
            out.push('\\');
            out.push('n');
        } else if c == '\u{c}' {
            out.push('\\');
            out.push('f');
        } else if c == '\r' {
            out.push('\\');
            out.push('r');
        } else if (c as u32) < 0x20 {
            let v = c as u32;
            out.push('\\');
            out.push('u');
            out.push('0');
            out.push('0');
            out.push(hex_char(v / 16));
            out.push(hex_char(v % 16));
        } else {
            out.push(c);
        }
        proof {
            lemma_escape_step(s@, i as int);
            assert(out@ =~= old(out)@ + escape(s@.take(i + 1 as int)));
        }
        i += 1;
    }
    proof {
        assert(s@.take(s@.len() as int) =~= s@);
    }
}

// ---------------------------------------------------------------------
// Decimal numbers
// ---------------------------------------------------------------------

/// Canonical decimal rendering of a natural number.
pub open spec fn dec_rep(n: nat) -> Seq<char>
    decreases n,
{
    if n < 10 {
        seq![digit_of(n)]
    } else {
        dec_rep(n / 10).push(digit_of(n % 10))
    }
}

/// Canonical decimal rendering of a signed number.
pub open spec fn dec_rep_i64(t: i64) -> Seq<char> {
    if t >= 0 {
        dec_rep(t as nat)
    } else {
        seq!['-'] + dec_rep((-(t as int)) as nat)
    }
}

/// Value of a digit string, most significant digit first.
pub open spec fn dec_val(s: Seq<char>) -> nat
    decreases s.len(),
{
    if s.len() == 0 {
        0
    } else {
        dec_val(s.drop_last()) * 10 + digit_val(s.last())
    }
}

pub open spec fn all_digits(s: Seq<char>) -> bool {
    forall|i: int| 0 <= i < s.len() ==> is_digit(s[i])
}

/// A digit string in canonical form: nonempty, and no leading zero
/// unless it is exactly "0".
pub open spec fn canonical_digits(s: Seq<char>) -> bool {
    all_digits(s) && s.len() >= 1 && (s[0] == '0' ==> s.len() == 1)
}

pub proof fn lemma_dec_rep_props(n: nat)
    ensures
        canonical_digits(dec_rep(n)),
        dec_val(dec_rep(n)) == n,
        (dec_rep(n)[0] == '0' <==> n == 0),
    decreases n,
{
    if n < 10 {
        lemma_digit_of_val(n);
        let r = dec_rep(n);
        assert(r.drop_last() =~= Seq::<char>::empty());
        assert(dec_val(r) == dec_val(r.drop_last()) * 10 + digit_val(r.last()));
        assert(dec_val(r) == n);
        if n == 0 {
            assert(r[0] == '0');
        } else {
            assert(r[0] == digit_of(n) && digit_of(n) != '0');
        }
    } else {
        lemma_dec_rep_props(n / 10);
        lemma_digit_of_val(n % 10);
        let a = dec_rep(n / 10);
        let r = dec_rep(n);
        assert(r == a.push(digit_of(n % 10)));
        assert(r.drop_last() =~= a);
        assert(r.last() == digit_of(n % 10));
        assert(dec_val(r) == dec_val(a) * 10 + (n % 10));
        assert(n / 10 * 10 + n % 10 == n) by {
            vstd::arithmetic::div_mod::lemma_fundamental_div_mod(n as int, 10);
        }
        assert(dec_val(r) == n);
        assert(forall|i: int| 0 <= i < r.len() ==> is_digit(#[trigger] r[i])) by {
            assert(forall|i: int|
                0 <= i < a.len() ==> r[i] == #[trigger] a[i] && is_digit(a[i]));
            assert(is_digit(r[r.len() - 1]));
        }
        assert(n / 10 >= 1);
        assert(r[0] == a[0]);
        assert(r[0] != '0');
    }
}

pub proof fn lemma_dec_val_zero(s: Seq<char>)
    requires
        all_digits(s),
        dec_val(s) == 0,
    ensures
        forall|i: int| 0 <= i < s.len() ==> s[i] == '0',
    decreases s.len(),
{
    if s.len() > 0 {
        let a = s.drop_last();
        assert(dec_val(a) * 10 + digit_val(s.last()) == 0);
        assert(dec_val(a) == 0);
        assert(all_digits(a)) by {
            assert(forall|i: int| 0 <= i < a.len() ==> a[i] == #[trigger] s[i]);
        }
        lemma_dec_val_zero(a);
        assert(digit_val(s.last()) == 0);
        lemma_digit_val_of(s.last());
        assert(s.last() == '0');
        assert forall|i: int| 0 <= i < s.len() implies s[i] == '0' by {
            if i < s.len() - 1 {
                assert(s[i] == a[i]);
            } else {
                assert(s[i] == s.last());
            }
        }
    }
}

pub proof fn lemma_dec_rep_inverse(s: Seq<char>)
    requires
        canonical_digits(s),
    ensures
        dec_rep(dec_val(s)) == s,
    decreases s.len(),
{
    if s.len() == 1 {
        lemma_digit_val_of(s[0]);
        assert(s.drop_last() =~= Seq::<char>::empty());
        assert(s.last() == s[0]);
        assert(dec_val(Seq::<char>::empty()) == 0);
        assert(dec_val(s) == dec_val(s.drop_last()) * 10 + digit_val(s.last()));
        assert(dec_val(s) == digit_val(s[0]));
        assert(dec_rep(dec_val(s)) == seq![digit_of(digit_val(s[0]))]);
        assert(dec_rep(dec_val(s)) =~= s);
    } else {
        let a = s.drop_last();
        let d = digit_val(s.last());
        assert(s[0] != '0');
        assert(canonical_digits(a)) by {
            assert(forall|i: int| 0 <= i < a.len() ==> a[i] == #[trigger] s[i]);
            assert(a[0] == s[0]);
        }
        lemma_dec_rep_inverse(a);
        lemma_digit_val_of(s.last());
        let v = dec_val(a);
        assert(v >= 1) by {
            if v == 0 {
                lemma_dec_val_zero(a);
                assert(a[0] == '0');
            }
        }
        let x = dec_val(s);
        assert(x == v * 10 + d);
        assert(x >= 10);
        assert(x / 10 == v && x % 10 == d) by {
            vstd::arithmetic::div_mod::lemma_fundamental_div_mod_converse(
                x as int,
                10,
                v as int,
                d as int,
            );
        }
        assert(dec_rep(x) == dec_rep(v).push(digit_of(d)));
        assert(dec_rep(x) =~= s);
    }
}

/// The value of a digit-string prefix never exceeds the whole.
pub proof fn lemma_dec_val_take_le(s: Seq<char>, k: int)
    requires
        all_digits(s),
        0 <= k <= s.len(),
    ensures
        dec_val(s.take(k)) <= dec_val(s),
    decreases s.len(),
{
    if k == s.len() {
        assert(s.take(k) =~= s);
    } else {
        let a = s.drop_last();
        assert(all_digits(a)) by {
            assert(forall|i: int| 0 <= i < a.len() ==> a[i] == #[trigger] s[i]);
        }
        assert(s.take(k) =~= a.take(k));
        lemma_dec_val_take_le(a, k);
        assert(dec_val(s) == dec_val(a) * 10 + digit_val(s.last()));
        assert(dec_val(a) * 10 >= dec_val(a));
    }
}

/// Unrolling one position of `dec_val` along a scan.
pub proof fn lemma_dec_val_step(s: Seq<char>, i: int, k: int)
    requires
        0 <= i <= k < s.len(),
    ensures
        dec_val(s.subrange(i, k + 1)) == dec_val(s.subrange(i, k)) * 10 + digit_val(s[k]),
{
    assert(s.subrange(i, k + 1).drop_last() =~= s.subrange(i, k));
    assert(s.subrange(i, k + 1).last() == s[k]);
}

/// Canonical decimal text of a `u64`.
pub fn render_u64(n: u64) -> (r: Vec<char>)
    ensures
        r@ == dec_rep(n as nat),
    decreases n,
{
    if n < 10 {
        let mut r: Vec<char> = Vec::new();
        r.push(digit_char(n));
        proof {
            assert(r@ =~= seq![digit_of(n as nat)]);
        }
        r
    } else {
        let mut r = render_u64(n / 10);
        r.push(digit_char(n % 10));
        r
    }
}

/// Canonical decimal text of an `i64`, with a leading minus sign when
/// negative.
pub fn render_i64(t: i64) -> (r: Vec<char>)
    ensures
        r@ == dec_rep_i64(t),
{
    if t >= 0 {
        render_u64(t as u64)
    } else {
        let mag: u64 = if t == i64::MIN {
            9223372036854775808
        } else {
            (-t) as u64
        };
        proof {
            assert(mag as nat == (-(t as int)) as nat);
        }
        let digits = render_u64(mag);
        let mut r: Vec<char> = Vec::new();
        r.push('-');
        let mut i: usize = 0;
        while i < digits.len()
            invariant
                i <= digits@.len(),
                r@ == seq!['-'] + digits@.take(i as int),
            decreases digits@.len() - i,
        {
            r.push(digits[i]);
            proof {
                assert(seq!['-'] + digits@.take(i + 1 as int) =~= (seq!['-'] + digits@.take(
                    i as int,
                )).push(digits@[i as int]));
            }
            i += 1;
        }
        proof {
            assert(digits@.take(digits@.len() as int) =~= digits@);
        }
        r
    }
}

/// A canonical `u64` stands at position `i` of `s`, followed by the
/// end or by a non-digit.
pub open spec fn num_at(s: Seq<char>, i: int, n: u64) -> bool {
    &&& 0 <= i
    &&& i + dec_rep(n as nat).len() <= s.len()
    &&& s.subrange(i, i + dec_rep(n as nat).len() as int) == dec_rep(n as nat)
    &&& (i + dec_rep(n as nat).len() == s.len() || !is_digit(
        s[i + dec_rep(n as nat).len() as int],
    ))
}

/// A canonical `i64` stands at position `i` of `s`.
pub open spec fn inum_at(s: Seq<char>, i: int, t: i64) -> bool {
    &&& 0 <= i
    &&& i + dec_rep_i64(t).len() <= s.len()
    &&& s.subrange(i, i + dec_rep_i64(t).len() as int) == dec_rep_i64(t)
    &&& (i + dec_rep_i64(t).len() == s.len() || !is_digit(s[i + dec_rep_i64(t).len() as int]))
}

/// Longest run of digits from `i`.
fn scan_digits(s: &Vec<char>, i: usize) -> (j: usize)
    requires
        i <= s@.len(),
    ensures
        i <= j <= s@.len(),
        forall|m: int| i <= m < j ==> is_digit(s@[m]),
        j == s@.len() || !is_digit(s@[j as int]),
{
    let mut j: usize = i;
    while j < s.len() && is_digit_exec(s[j])
        invariant
            i <= j <= s@.len(),
            forall|m: int| i <= m < j ==> is_digit(s@[m]),
        decreases s@.len() - j,
    {
        j += 1;
    }
    j
}

/// Executable test for a decimal digit.
fn is_digit_exec(c: char) -> (r: bool)
    ensures
        r == is_digit(c),
{
    48 <= (c as u32) && (c as u32) <= 57
}

/// If a canonical number stands at `i`, the digit run from `i` is
/// exactly its rendering.
proof fn lemma_num_run(s: Seq<char>, i: int, j: int, n: u64)
    requires
        num_at(s, i, n),
        i <= j <= s.len(),
        forall|m: int| i <= m < j ==> is_digit(s[m]),
        j == s.len() || !is_digit(s[j]),
    ensures
        j - i == dec_rep(n as nat).len(),
        s.subrange(i, j) == dec_rep(n as nat),
{
    lemma_dec_rep_props(n as nat);
    let ln = dec_rep(n as nat).len() as int;
    if i + ln > j {
        assert(j < s.len());
        assert(!is_digit(s[j]));
        assert(s[j] == dec_rep(n as nat)[j - i]) by {
            assert(s.subrange(i, i + ln)[j - i] == s[j]);
        }
        assert(is_digit(dec_rep(n as nat)[j - i]));
        assert(false);
    }
    if i + ln < j {
        assert(i + ln < s.len());
        assert(!is_digit(s[i + ln]));
        assert(is_digit(s[i + ln]));
        assert(false);
    }
    assert(s.subrange(i, j) == dec_rep(n as nat));
}

/// Strict parse of a canonical `u64` at position `i`.
///
/// Returns the value and the position after its digits. Accepts
/// exactly the canonical renderings: soundness and completeness are
/// both in the contract.
pub fn parse_u64_at(s: &Vec<char>, i: usize) -> (r: Option<(u64, usize)>)
    requires
        i <= s@.len(),
    ensures
        r matches Some(p) ==> num_at(s@, i as int, p.0) && p.1 == i + dec_rep(p.0 as nat).len(),
        forall|n: u64|
            num_at(s@, i as int, n) ==> (r matches Some(p) && p.0 == n && p.1 == i + dec_rep(
                n as nat,
            ).len()),
{
    let j = scan_digits(s, i);
    if j == i {
        proof {
            assert forall|n: u64| !num_at(s@, i as int, n) by {
                if num_at(s@, i as int, n) {
                    lemma_dec_rep_props(n as nat);
                    assert(s@[i as int] == dec_rep(n as nat)[0]) by {
                        assert(s@.subrange(
                            i as int,
                            i + dec_rep(n as nat).len() as int,
                        )[0] == s@[i as int]);
                    }
                    assert(is_digit(s@[i as int]));
                    assert(i < s@.len());
                    assert(false);
                }
            }
        }
        return None;
    }
    if s[i] == '0' && j > i + 1 {
        proof {
            assert forall|n: u64| !num_at(s@, i as int, n) by {
                if num_at(s@, i as int, n) {
                    lemma_num_run(s@, i as int, j as int, n);
                    lemma_dec_rep_props(n as nat);
                    assert(dec_rep(n as nat)[0] == s@[i as int]) by {
                        assert(s@.subrange(i as int, j as int)[0] == s@[i as int]);
                    }
                    assert(dec_rep(n as nat).len() == 1);
                    assert(false);
                }
            }
        }
        return None;
    }
    let ghost run = s@.subrange(i as int, j as int);
    proof {
        assert(all_digits(run)) by {
            assert(forall|m: int|
                0 <= m < run.len() ==> run[m] == #[trigger] s@[i + m] && is_digit(s@[i + m]));
        }
        assert(run[0] == s@[i as int]);
        assert(canonical_digits(run));
    }
    let mut acc: u64 = 0;
    let mut k: usize = i;
    while k < j
        invariant
            i <= k <= j <= s@.len(),
            run == s@.subrange(i as int, j as int),
            canonical_digits(run),
            forall|m: int| i <= m < j ==> is_digit(s@[m]),
            j == s@.len() || !is_digit(s@[j as int]),
            acc == dec_val(s@.subrange(i as int, k as int)),
        decreases j - k,
    {
        proof {
            assert(is_digit(s@[k as int]));
            lemma_digit_val_of(s@[k as int]);
        }
        let d: u64 = (((s[k] as u32) - 48) as u64);
        proof {
            assert(d == digit_val(s@[k as int]));
        }
        if acc > 1844674407370955161 || (acc == 1844674407370955161 && d > 5) {
            proof {
                lemma_dec_val_step(s@, i as int, k as int);
                assert(dec_val(s@.subrange(i as int, k + 1 as int)) > u64::MAX as nat);
                assert forall|n: u64| !num_at(s@, i as int, n) by {
                    if num_at(s@, i as int, n) {
                        lemma_num_run(s@, i as int, j as int, n);
                        lemma_dec_rep_props(n as nat);
                        assert(dec_val(run) == n as nat);
                        assert(s@.subrange(i as int, k + 1 as int) =~= run.take(
                            k + 1 - i as int,
                        ));
                        lemma_dec_val_take_le(run, k + 1 - i as int);
                        assert(dec_val(s@.subrange(i as int, k + 1 as int)) <= n as nat);
                        assert(false);
                    }
                }
            }
            return None;
        }
        acc = acc * 10 + d;
        proof {
            lemma_dec_val_step(s@, i as int, k as int);
        }
        k += 1;
    }
    proof {
        assert(acc == dec_val(run));
        lemma_dec_rep_inverse(run);
        assert(num_at(s@, i as int, acc));
        assert forall|n: u64| num_at(s@, i as int, n) implies n == acc && i + dec_rep(
            n as nat,
        ).len() == j by {
            lemma_num_run(s@, i as int, j as int, n);
            lemma_dec_rep_props(n as nat);
            assert(dec_val(run) == n as nat);
        }
        assert(j == i + dec_rep(acc as nat).len());
    }
    Some((acc, j))
}

/// Strict parse of a canonical `i64` at position `i`.
pub fn parse_i64_at(s: &Vec<char>, i: usize) -> (r: Option<(i64, usize)>)
    requires
        i <= s@.len(),
    ensures
        r matches Some(p) ==> inum_at(s@, i as int, p.0) && p.1 == i + dec_rep_i64(p.0).len(),
        forall|t: i64|
            inum_at(s@, i as int, t) ==> (r matches Some(p) && p.0 == t && p.1 == i
                + dec_rep_i64(t).len()),
{
    if i < s.len() && s[i] == '-' {
        match parse_u64_at(s, i + 1) {
            Some((mag, j)) => {
                if mag == 0 || mag > 9223372036854775808 {
                    proof {
                        assert forall|t: i64| !inum_at(s@, i as int, t) by {
                            if inum_at(s@, i as int, t) {
                                lemma_inum_neg_shape(s@, i as int, t);
                            }
                        }
                    }
                    return None;
                }
                let t: i64 = if mag == 9223372036854775808 {
                    i64::MIN
                } else {
                    -(mag as i64)
                };
                proof {
                    assert(dec_rep_i64(t) =~= seq!['-'] + dec_rep(mag as nat));
                    assert(s@.subrange(i as int, i + 1 + dec_rep(mag as nat).len() as int)
                        =~= seq!['-'] + s@.subrange(
                        i + 1,
                        i + 1 + dec_rep(mag as nat).len() as int,
                    ));
                    assert(inum_at(s@, i as int, t));
                    assert forall|t2: i64| inum_at(s@, i as int, t2) implies t2 == t by {
                        lemma_inum_neg_shape(s@, i as int, t2);
                        assert(num_at(s@, i + 1, mag));
                    }
                }
                Some((t, j))
            },
            None => {
                proof {
                    assert forall|t: i64| !inum_at(s@, i as int, t) by {
                        if inum_at(s@, i as int, t) {
                            lemma_inum_neg_shape(s@, i as int, t);
                        }
                    }
                }
                None
            },
        }
    } else {
        match parse_u64_at(s, i) {
            Some((n, j)) => {
                if n > 9223372036854775807 {
                    proof {
                        assert forall|t: i64| !inum_at(s@, i as int, t) by {
                            if inum_at(s@, i as int, t) {
                                lemma_inum_pos_shape(s@, i as int, t);
                            }
                        }
                    }
                    return None;
                }
                let t: i64 = n as i64;
                proof {
                    assert(dec_rep_i64(t) == dec_rep(n as nat));
                    assert(inum_at(s@, i as int, t));
                    assert forall|t2: i64| inum_at(s@, i as int, t2) implies t2 == t by {
                        lemma_inum_pos_shape(s@, i as int, t2);
                    }
                }
                Some((t, j))
            },
            None => {
                proof {
                    assert forall|t: i64| !inum_at(s@, i as int, t) by {
                        if inum_at(s@, i as int, t) {
                            lemma_inum_pos_shape(s@, i as int, t);
                        }
                    }
                }
                None
            },
        }
    }
}

/// Shape of a negative canonical number at `i`: a minus sign, then the
/// canonical magnitude, for which `num_at` holds at `i + 1`.
proof fn lemma_inum_neg_shape(s: Seq<char>, i: int, t: i64)
    requires
        inum_at(s, i, t),
        i < s.len() && s[i] == '-',
    ensures
        t < 0,
        1 <= (-(t as int)) <= 9223372036854775808,
        forall|m: u64|
            m as int == -(t as int) ==> num_at(s, i + 1, m) && i + dec_rep_i64(t).len() == i + 1
                + dec_rep(m as nat).len(),
{
    if t >= 0 {
        lemma_dec_rep_props(t as nat);
        assert(s.subrange(i, i + dec_rep_i64(t).len() as int)[0] == s[i]);
        assert(is_digit(dec_rep(t as nat)[0]));
        assert(!is_digit('-'));
        assert(false);
    }
    assert(1 <= (-(t as int)) <= 9223372036854775808);
    assert forall|m: u64| m as int == -(t as int) implies num_at(s, i + 1, m) && i
        + dec_rep_i64(t).len() == i + 1 + dec_rep(m as nat).len() by {
        let mg = dec_rep(m as nat);
        assert(dec_rep_i64(t) == seq!['-'] + mg);
        assert(dec_rep_i64(t).len() == 1 + mg.len());
        assert(s.subrange(i + 1, i + 1 + mg.len() as int) =~= mg) by {
            assert(forall|x: int|
                0 <= x < mg.len() ==> s.subrange(i, i + dec_rep_i64(t).len() as int)[x + 1]
                    == #[trigger] mg[x]);
            assert(forall|x: int|
                0 <= x < mg.len() ==> s.subrange(i + 1, i + 1 + mg.len() as int)[x]
                    == #[trigger] s[i + 1 + x]);
        }
    }
}

/// Shape of a non-negative canonical number at `i`.
proof fn lemma_inum_pos_shape(s: Seq<char>, i: int, t: i64)
    requires
        inum_at(s, i, t),
        !(i < s.len() && s[i] == '-'),
    ensures
        t >= 0,
        num_at(s, i, t as u64),
        dec_rep_i64(t) == dec_rep((t as u64) as nat),
{
    if t < 0 {
        assert(s.subrange(i, i + dec_rep_i64(t).len() as int)[0] == s[i]);
        assert(dec_rep_i64(t)[0] == '-');
        assert(i < s.len());
        assert(false);
    }
}

// ---------------------------------------------------------------------
// JSON string bodies
// ---------------------------------------------------------------------

pub proof fn lemma_hex_val_of(c: char)
    requires
        is_hex(c),
    ensures
        hex_val(c) < 16,
        hex_of(hex_val(c)) == c,
{
    let v = c as u32;
    if is_digit(c) {
        lemma_digit_val_of(c);
    } else {
        assert(97 <= v <= 102);
        if v == 97 {
            assert(c == 'a');
        } else if v == 98 {
            assert(c == 'b');
        } else if v == 99 {
            assert(c == 'c');
        } else if v == 100 {
            assert(c == 'd');
        } else if v == 101 {
            assert(c == 'e');
        } else {
            assert(c == 'f');
        }
    }
}

/// Shape facts about one escape block.
pub proof fn lemma_esc_char_shape(c: char)
    ensures
        1 <= esc_char(c).len() <= 6,
        is_plain(c) ==> esc_char(c) == seq![c],
        !is_plain(c) ==> esc_char(c)[0] == '\\' && esc_char(c).len() >= 2,
        esc_char(c)[0] != '"',
{
}

/// The second character of a non-plain escape block pins the escaped
/// character down.
pub proof fn lemma_esc_second(c: char)
    requires
        !is_plain(c),
    ensures
        esc_char(c).len() >= 2,
        esc_char(c)[0] == '\\',
        ({
            let e = esc_char(c)[1];
            &&& e == '"' || e == '\\' || e == 'b' || e == 't' || e == 'n' || e == 'f' || e == 'r'
                || e == 'u'
            &&& e == '"' ==> c == '"'
            &&& e == '\\' ==> c == '\\'
            &&& e == 'b' ==> c == '\u{8}'
            &&& e == 't' ==> c == '\t'
            &&& e == 'n' ==> c == '\n'
            &&& e == 'f' ==> c == '\u{c}'
            &&& e == 'r' ==> c == '\r'
            &&& e == 'u' ==> (c as u32) < 0x20 && !has_short_escape(c) && c != '"' && c != '\\'
                && esc_char(c).len() == 6 && esc_char(c)[2] == '0' && esc_char(c)[3] == '0'
                && esc_char(c)[4] == hex_of(((c as u32) / 16) as nat) && esc_char(c)[5] == hex_of(
                ((c as u32) % 16) as nat,
            )
        }),
{
}

/// The escaped body of `q` stands at position `i` (just after the
/// opening quote), closed by a quote.
pub open spec fn str_at(s: Seq<char>, i: int, q: Seq<char>) -> bool {
    &&& 0 <= i
    &&& i + escape(q).len() + 1 <= s.len()
    &&& s.subrange(i, i + escape(q).len() as int) == escape(q)
    &&& s[i + escape(q).len() as int] == '"'
}

/// At a block boundary `k`, the next escape block of a longer match
/// stands in `s` exactly.
proof fn lemma_align(s: Seq<char>, i: int, q1: Seq<char>, q2: Seq<char>, k: int)
    requires
        str_at(s, i, q2),
        q1.is_prefix_of(q2),
        q1.len() < q2.len(),
        k == i + escape(q1).len(),
    ensures
        ({
            let x = q2[q1.len() as int];
            &&& k + esc_char(x).len() + 1 <= s.len()
            &&& forall|y: int| 0 <= y < esc_char(x).len() ==> s[k + y] == esc_char(x)[y]
        }),
{
    let m = q1.len() as int;
    let x = q2[m];
    assert(q1 =~= q2.take(m));
    lemma_escape_block(q2, m);
    let e1 = escape(q2.take(m));
    let eb = esc_char(x);
    let e2 = escape(q2.skip(m + 1));
    assert(escape(q2) == e1 + eb + e2);
    assert(escape(q2).len() == e1.len() + eb.len() + e2.len());
    assert(escape(q1) == e1);
    assert forall|y: int| 0 <= y < eb.len() implies s[k + y] == eb[y] by {
        assert(s.subrange(i, i + escape(q2).len() as int)[e1.len() + y] == s[i + e1.len() + y]);
        assert(escape(q2)[e1.len() + y] == (e1 + eb + e2)[e1.len() + y]);
        assert((e1 + eb + e2)[e1.len() + y] == eb[y]);
    }
}

/// Executable plainness test.
fn is_plain_exec(c: char) -> (r: bool)
    ensures
        r == is_plain(c),
{
    c != '"' && c != '\\' && (c as u32) >= 0x20
}

/// Executable lowercase-hex test.
fn is_hex_exec(c: char) -> (r: bool)
    ensures
        r == is_hex(c),
{
    is_digit_exec(c) || (97 <= (c as u32) && (c as u32) <= 102)
}

/// Strict parse of a JSON string body at position `i` (just after the
/// opening quote), up to and including the closing quote.
///
/// Accepts exactly the canonical escaping that [`escape`] produces:
/// the contract carries soundness (whatever comes back was encoded in
/// the input) and completeness (every canonically escaped body is
/// accepted).
pub fn parse_jstring_at(s: &Vec<char>, i: usize) -> (r: Option<(Vec<char>, usize)>)
    requires
        i <= s@.len(),
    ensures
        r matches Some(p) ==> str_at(s@, i as int, p.0@) && p.1 == i + escape(p.0@).len() + 1,
        forall|q2: Seq<char>|
            #[trigger] str_at(s@, i as int, q2) ==> (r matches Some(p) && p.0@ == q2 && p.1 == i + escape(
                q2,
            ).len() + 1),
{
    let mut q: Vec<char> = Vec::new();
    let mut k: usize = i;
    proof {
        assert(s@.subrange(i as int, i as int) =~= escape(q@));
        assert(forall|q2: Seq<char>| q@.is_prefix_of(q2));
    }
    loop
        invariant
            i <= k <= s@.len(),
            s@.subrange(i as int, k as int) == escape(q@),
            k == i + escape(q@).len(),
            forall|q2: Seq<char>| #[trigger] str_at(s@, i as int, q2) ==> q@.is_prefix_of(q2),
        decreases s@.len() - k,
    {
        if k == s.len() {
            proof {
                assert forall|q2: Seq<char>| !str_at(s@, i as int, q2) by {
                    if str_at(s@, i as int, q2) {
                        if q@.len() == q2.len() {
                            lemma_prefix_full(q@, q2);
                            assert(k < s@.len());
                        } else {
                            lemma_align(s@, i as int, q@, q2, k as int);
                            lemma_esc_char_shape(q2[q@.len() as int]);
                            assert(k + 2 <= s@.len());
                        }
                        assert(false);
                    }
                }
            }
            return None;
        }
        let c = s[k];
        if c == '"' {
            proof {
                assert(str_at(s@, i as int, q@));
                assert forall|q2: Seq<char>| str_at(s@, i as int, q2) implies q2 == q@ by {
                    if q@.len() < q2.len() {
                        lemma_align(s@, i as int, q@, q2, k as int);
                        let x = q2[q@.len() as int];
                        lemma_esc_char_shape(x);
                        assert(s@[k as int] == esc_char(x)[0]);
                        assert(false);
                    }
                    lemma_prefix_full(q@, q2);
                }
            }
            return Some((q, k + 1));
        }
        if is_plain_exec(c) {
            proof {
                lemma_esc_char_shape(c);
                lemma_escape_append(q@, seq![c]);
                lemma_escape_singleton(c);
                assert(q@.push(c) =~= q@ + seq![c]);
                assert(s@.subrange(i as int, k + 1 as int) =~= escape(q@) + seq![c]);
                assert forall|q2: Seq<char>| str_at(s@, i as int, q2) implies q@.push(
                    c,
                ).is_prefix_of(q2) by {
                    if q@.len() == q2.len() {
                        lemma_prefix_full(q@, q2);
                        assert(s@[k as int] == '"');
                        assert(false);
                    }
                    lemma_align(s@, i as int, q@, q2, k as int);
                    let x = q2[q@.len() as int];
                    lemma_esc_char_shape(x);
                    if !is_plain(x) {
                        assert(s@[k as int] == '\\');
                        assert(false);
                    }
                    assert(x == c);
                    assert(q@.push(c) =~= q2.take(q@.len() as int + 1));
                }
            }
            q.push(c);
            k = k + 1;
        } else if c == '\\' {
            if k + 1 == s.len() {
                proof {
                    assert forall|q2: Seq<char>| !str_at(s@, i as int, q2) by {
                        if str_at(s@, i as int, q2) {
                            if q@.len() == q2.len() {
                                lemma_prefix_full(q@, q2);
                                assert(s@[k as int] == '"');
                            } else {
                                lemma_align(s@, i as int, q@, q2, k as int);
                                lemma_esc_char_shape(q2[q@.len() as int]);
                                assert(k + 2 + 1 <= s@.len() || esc_char(
                                    q2[q@.len() as int],
                                ).len() == 1);
                                if esc_char(q2[q@.len() as int]).len() == 1 {
                                    assert(is_plain(q2[q@.len() as int]));
                                    assert(s@[k as int] != '\\');
                                }
                            }
                            assert(false);
                        }
                    }
                }
                return None;
            }
            let e = s[k + 1];
            proof {
                assert forall|q2: Seq<char>|
                    #[trigger] str_at(s@, i as int, q2) && q@.len() < q2.len() implies {
                    let x = q2[q@.len() as int];
                    &&& !is_plain(x)
                    &&& esc_char(x)[1] == e
                    &&& (e == '"' || e == '\\' || e == 'b' || e == 't' || e == 'n' || e == 'f'
                        || e == 'r' || e == 'u')
                } by {
                    lemma_align(s@, i as int, q@, q2, k as int);
                    let x = q2[q@.len() as int];
                    lemma_esc_char_shape(x);
                    if is_plain(x) {
                        assert(s@[k as int] == x);
                        assert(false);
                    }
                    lemma_esc_second(x);
                    assert(s@[k + 1 as int] == esc_char(x)[1]);
                }
                assert forall|q2: Seq<char>|
                    #[trigger] str_at(s@, i as int, q2) implies q@.len() < q2.len() by {
                    if q@.len() == q2.len() {
                        lemma_prefix_full(q@, q2);
                        assert(s@[k as int] == '"');
                        assert(false);
                    }
                }
            }
            let nc: char;
            if e == '"' {
                nc = '"';
            } else if e == '\\' {
                nc = '\\';
            } else if e == 'b' {
                nc = '\u{8}';
            } else if e == 't' {
                nc = '\t';
            } else if e == 'n' {
                nc = '\n';
            } else if e == 'f' {
                nc = '\u{c}';
            } else if e == 'r' {
                nc = '\r';
            } else if e == 'u' {
                proof {
                    assert forall|q2: Seq<char>| #[trigger] str_at(s@, i as int, q2) implies {
                        let x = q2[q@.len() as int];
                        &&& (x as u32) < 0x20
                        &&& !has_short_escape(x)
                        &&& esc_char(x).len() == 6
                        &&& k + 7 <= s@.len()
                        &&& s@[k + 2 as int] == '0' && s@[k + 3 as int] == '0'
                        &&& s@[k + 4 as int] == hex_of(((x as u32) / 16) as nat)
                        &&& s@[k + 5 as int] == hex_of(((x as u32) % 16) as nat)
                    } by {
                        lemma_align(s@, i as int, q@, q2, k as int);
                        let x = q2[q@.len() as int];
                        lemma_esc_second(x);
                        assert(s@[k + 2 as int] == esc_char(x)[2]);
                        assert(s@[k + 3 as int] == esc_char(x)[3]);
                        assert(s@[k + 4 as int] == esc_char(x)[4]);
                        assert(s@[k + 5 as int] == esc_char(x)[5]);
                    }
                }
                if s.len() - k < 6 {
                    proof {
                        assert forall|q2: Seq<char>| !str_at(s@, i as int, q2) by {
                            if str_at(s@, i as int, q2) {
                                assert(false);
                            }
                        }
                    }
                    return None;
                }
                if !(s[k + 2] == '0' && s[k + 3] == '0') {
                    proof {
                        assert forall|q2: Seq<char>| !str_at(s@, i as int, q2) by {
                            if str_at(s@, i as int, q2) {
                                assert(false);
                            }
                        }
                    }
                    return None;
                }
                let h1 = s[k + 4];
                let h2 = s[k + 5];
                if !(is_hex_exec(h1) && is_hex_exec(h2)) {
                    proof {
                        assert forall|q2: Seq<char>| !str_at(s@, i as int, q2) by {
                            if str_at(s@, i as int, q2) {
                                let x = q2[q@.len() as int];
                                lemma_hex_of_val(((x as u32) / 16) as nat);
                                lemma_hex_of_val(((x as u32) % 16) as nat);
                                assert(false);
                            }
                        }
                    }
                    return None;
                }
                let hv1: u32 = if is_digit_exec(h1) {
                    (h1 as u32) - 48
                } else {
                    (h1 as u32) - 87
                };
                let hv2: u32 = if is_digit_exec(h2) {
                    (h2 as u32) - 48
                } else {
                    (h2 as u32) - 87
                };
                proof {
                    lemma_hex_val_of(h1);
                    lemma_hex_val_of(h2);
                    assert(hv1 == hex_val(h1) && hv2 == hex_val(h2));
                }
                let v: u32 = hv1 * 16 + hv2;
                proof {
                    assert forall|q2: Seq<char>| #[trigger] str_at(s@, i as int, q2) implies (
                    q2[q@.len() as int] as u32) == v by {
                        let x = q2[q@.len() as int];
                        let xv = x as u32;
                        assert(hex_of((xv / 16) as nat) == h1 && hex_of((xv % 16) as nat) == h2);
                        lemma_hex_of_val((xv / 16) as nat);
                        lemma_hex_of_val((xv % 16) as nat);
                        assert(hv1 == xv / 16 && hv2 == xv % 16);
                        vstd::arithmetic::div_mod::lemma_fundamental_div_mod(xv as int, 16);
                    }
                }
                if v >= 0x20 || v == 8 || v == 9 || v == 0xa || v == 0xc || v == 0xd {
                    proof {
                        assert forall|q2: Seq<char>| !str_at(s@, i as int, q2) by {
                            if str_at(s@, i as int, q2) {
                                let x = q2[q@.len() as int];
                                assert((x as u32) == v);
                                assert((x as u32) < 0x20);
                                assert(!has_short_escape(x));
                                vstd::utf8::char_u32_cast(x, x as u32);
                                vstd::utf8::char_u32_cast('\u{8}', 0x8);
                                vstd::utf8::char_u32_cast('\t', 0x9);
                                vstd::utf8::char_u32_cast('\n', 0xa);
                                vstd::utf8::char_u32_cast('\u{c}', 0xc);
                                vstd::utf8::char_u32_cast('\r', 0xd);
                                assert(false);
                            }
                        }
                    }
                    return None;
                }
                let ncu: char = (v as u8) as char;
                proof {
                    assert((ncu as u32) == v);
                    assert(esc_char(ncu) =~= seq!['\\', 'u', '0', '0', s@[k + 4 as int], s@[k
                        + 5 as int]]) by {
                        assert(ncu != '"' && ncu != '\\' && !has_short_escape(ncu) && (ncu
                            as u32) < 0x20);
                        lemma_hex_val_of(h1);
                        lemma_hex_val_of(h2);
                        vstd::arithmetic::div_mod::lemma_fundamental_div_mod_converse(
                            v as int,
                            16,
                            hv1 as int,
                            hv2 as int,
                        );
                        assert(hex_of(((ncu as u32) / 16) as nat) == h1);
                        assert(hex_of(((ncu as u32) % 16) as nat) == h2);
                    }
                    lemma_escape_append(q@, seq![ncu]);
                    lemma_escape_singleton(ncu);
                    assert(q@.push(ncu) =~= q@ + seq![ncu]);
                    assert(s@.subrange(i as int, k + 6 as int) =~= escape(q@) + esc_char(ncu));
                    assert forall|q2: Seq<char>| str_at(s@, i as int, q2) implies q@.push(
                        ncu,
                    ).is_prefix_of(q2) by {
                        let x = q2[q@.len() as int];
                        assert((x as u32) == (ncu as u32));
                        vstd::utf8::char_u32_cast(x, x as u32);
                        vstd::utf8::char_u32_cast(ncu, ncu as u32);
                        assert(x == ncu);
                        assert(q@.push(ncu) =~= q2.take(q@.len() as int + 1));
                    }
                }
                q.push(ncu);
                k = k + 6;
                continue;
            } else {
                proof {
                    assert forall|q2: Seq<char>| !str_at(s@, i as int, q2) by {
                        if str_at(s@, i as int, q2) {
                            lemma_esc_second(q2[q@.len() as int]);
                            assert(false);
                        }
                    }
                }
                return None;
            }
            proof {
                assert(esc_char(nc) =~= seq!['\\', e]);
                lemma_escape_append(q@, seq![nc]);
                lemma_escape_singleton(nc);
                assert(q@.push(nc) =~= q@ + seq![nc]);
                assert(s@.subrange(i as int, k + 2 as int) =~= escape(q@) + seq!['\\', e]);
                assert forall|q2: Seq<char>| str_at(s@, i as int, q2) implies q@.push(
                    nc,
                ).is_prefix_of(q2) by {
                    let x = q2[q@.len() as int];
                    lemma_esc_second(x);
                    assert(x == nc);
                    assert(q@.push(nc) =~= q2.take(q@.len() as int + 1));
                }
            }
            q.push(nc);
            k = k + 2;
        } else {
            // a raw control character never stands in the canonical form
            proof {
                assert forall|q2: Seq<char>| !str_at(s@, i as int, q2) by {
                    if str_at(s@, i as int, q2) {
                        if q@.len() == q2.len() {
                            lemma_prefix_full(q@, q2);
                            assert(s@[k as int] == '"');
                        } else {
                            lemma_align(s@, i as int, q@, q2, k as int);
                            let x = q2[q@.len() as int];
                            lemma_esc_char_shape(x);
                            if is_plain(x) {
                                assert(s@[k as int] == x);
                            } else {
                                assert(s@[k as int] == '\\');
                            }
                        }
                        assert(false);
                    }
                }
            }
            return None;
        }
    }
}

// ---------------------------------------------------------------------
// Literals, booleans, optional strings
// ---------------------------------------------------------------------

/// `l` stands verbatim at position `i` of `s`.
pub open spec fn lit_at(s: Seq<char>, i: int, l: Seq<char>) -> bool {
    &&& 0 <= i
    &&& i + l.len() <= s.len()
    &&& s.subrange(i, i + l.len() as int) == l
}

/// Matches the exact characters of `lit` at position `i`.
pub fn expect_lit(s: &Vec<char>, i: usize, lit: &str) -> (r: Option<usize>)
    requires
        i <= s@.len(),
    ensures
        r matches Some(j) ==> lit_at(s@, i as int, lit@) && j == i + lit@.len(),
        r is None ==> !lit_at(s@, i as int, lit@),
{
    let n = lit.unicode_len();
    if n > s.len() - i {
        return None;
    }
    let sl = s.len();
    let mut m: usize = 0;
    while m < n
        invariant
            i + n <= s@.len(),
            sl == s@.len(),
            n == lit@.len(),
            m <= n,
            s@.subrange(i as int, i + m as int) =~= lit@.take(m as int),
        decreases n - m,
    {
        proof {
            assert(i + m < sl);
        }
        if s[i + m] != lit.get_char(m) {
            proof {
                if lit_at(s@, i as int, lit@) {
                    assert(s@.subrange(i as int, i + n as int)[m as int] == s@[i + m]);
                }
            }
            return None;
        }
        proof {
            assert(s@.subrange(i as int, i + m + 1 as int) =~= s@.subrange(
                i as int,
                i + m as int,
            ).push(s@[i + m]));
            assert(lit@.take(m + 1 as int) =~= lit@.take(m as int).push(lit@[m as int]));
        }
        m += 1;
    }
    proof {
        assert(lit@.take(n as int) =~= lit@);
    }
    Some(i + n)
}

/// JSON spelling of a boolean.
pub open spec fn json_bool(b: bool) -> Seq<char> {
    if b {
        ("true")@
    } else {
        ("false")@
    }
}

/// Strict parse of `true` or `false` at position `i`.
pub fn parse_bool_at(s: &Vec<char>, i: usize) -> (r: Option<(bool, usize)>)
    requires
        i <= s@.len(),
    ensures
        r matches Some(p) ==> lit_at(s@, i as int, json_bool(p.0)) && p.1 == i + json_bool(
            p.0,
        ).len(),
        forall|b: bool|
            lit_at(s@, i as int, json_bool(b)) ==> (r matches Some(p) && p.0 == b && p.1 == i
                + json_bool(b).len()),
{
    proof {
        reveal_strlit("true");
        reveal_strlit("false");
    }
    match expect_lit(s, i, "true") {
        Some(j) => {
            proof {
                if lit_at(s@, i as int, json_bool(false)) {
                    assert(s@.subrange(i as int, i + 5 as int)[0] == s@[i as int]);
                    assert(s@.subrange(i as int, i + 4 as int)[0] == s@[i as int]);
                    assert(false);
                }
            }
            Some((true, j))
        },
        None => match expect_lit(s, i, "false") {
            Some(j) => Some((false, j)),
            None => None,
        },
    }
}

/// JSON spelling of an optional string: `null`, or a quoted escaped
/// body.
pub open spec fn json_opt_str(o: Option<Seq<char>>) -> Seq<char> {
    match o {
        Option::None => ("null")@,
        Option::Some(q) => seq!['"'] + escape(q) + seq!['"'],
    }
}

/// `o`'s JSON spelling stands at position `i` of `s`.
pub open spec fn opt_at(s: Seq<char>, i: int, o: Option<Seq<char>>) -> bool {
    &&& 0 <= i
    &&& i + json_opt_str(o).len() <= s.len()
    &&& s.subrange(i, i + json_opt_str(o).len() as int) == json_opt_str(o)
}

/// View of an optional character buffer.
pub open spec fn opt_chars_view(o: Option<Vec<char>>) -> Option<Seq<char>> {
    match o {
        Option::None => Option::None,
        Option::Some(v) => Option::Some(v@),
    }
}

/// Strict parse of an optional string at position `i`.
pub fn parse_opt_at(s: &Vec<char>, i: usize) -> (r: Option<(Option<Vec<char>>, usize)>)
    requires
        i <= s@.len(),
    ensures
        r matches Some(p) ==> opt_at(s@, i as int, opt_chars_view(p.0)) && p.1 == i
            + json_opt_str(opt_chars_view(p.0)).len(),
        forall|o: Option<Seq<char>>|
            opt_at(s@, i as int, o) ==> (r matches Some(p) && opt_chars_view(p.0) == o && p.1
                == i + json_opt_str(o).len()),
{
    proof {
        reveal_strlit("null");
    }
    if i < s.len() && s[i] == '"' {
        match parse_jstring_at(s, i + 1) {
            Some((q, j)) => {
                proof {
                    let o = Option::Some(q@);
                    assert(s@.subrange(i as int, j as int) =~= json_opt_str(o));
                    assert(opt_at(s@, i as int, o));
                    assert forall|o2: Option<Seq<char>>|
                        opt_at(s@, i as int, o2) implies o2 == o by {
                        match o2 {
                            Option::None => {
                                assert(s@.subrange(i as int, i + 4 as int)[0] == s@[i as int]);
                                assert(false);
                            },
                            Option::Some(q2) => {
                                assert(str_at(s@, i + 1 as int, q2)) by {
                                    lemma_opt_some_str_at(s@, i as int, q2);
                                }
                            },
                        }
                    }
                }
                Some((Some(q), j))
            },
            None => {
                proof {
                    assert forall|o2: Option<Seq<char>>| !opt_at(s@, i as int, o2) by {
                        if opt_at(s@, i as int, o2) {
                            match o2 {
                                Option::None => {
                                    assert(s@.subrange(i as int, i + 4 as int)[0] == s@[
                                        i as int]);
                                    assert(false);
                                },
                                Option::Some(q2) => {
                                    lemma_opt_some_str_at(s@, i as int, q2);
                                    assert(false);
                                },
                            }
                        }
                    }
                }
                None
            },
        }
    } else {
        match expect_lit(s, i, "null") {
            Some(j) => {
                proof {
                    let o = Option::<Seq<char>>::None;
                    assert(json_opt_str(o) == ("null")@);
                    assert forall|o2: Option<Seq<char>>|
                        opt_at(s@, i as int, o2) implies o2 == o by {
                        match o2 {
                            Option::None => {},
                            Option::Some(q2) => {
                                assert(s@.subrange(
                                    i as int,
                                    i + json_opt_str(o2).len() as int,
                                )[0] == s@[i as int]);
                                assert(i < s@.len() && s@[i as int] == '"');
                                assert(false);
                            },
                        }
                    }
                }
                Some((None, j))
            },
            None => {
                proof {
                    assert forall|o2: Option<Seq<char>>| !opt_at(s@, i as int, o2) by {
                        if opt_at(s@, i as int, o2) {
                            match o2 {
                                Option::None => {},
                                Option::Some(q2) => {
                                    assert(s@.subrange(
                                        i as int,
                                        i + json_opt_str(o2).len() as int,
                                    )[0] == s@[i as int]);
                                    assert(i < s@.len() && s@[i as int] == '"');
                                    assert(false);
                                },
                            }
                        }
                    }
                }
                None
            },
        }
    }
}

/// Inside the JSON spelling of `Some(q2)` at `i`, the escaped body
/// stands at `i + 1`.
proof fn lemma_opt_some_str_at(s: Seq<char>, i: int, q2: Seq<char>)
    requires
        opt_at(s, i, Option::Some(q2)),
    ensures
        i < s.len() && s[i] == '"',
        str_at(s, i + 1, q2),
{
    let piece = json_opt_str(Option::Some(q2));
    assert(piece.len() == escape(q2).len() + 2);
    assert(s.subrange(i, i + piece.len() as int)[0] == s[i]);
    assert(piece[0] == '"');
    assert forall|x: int| 0 <= x < escape(q2).len() implies s[i + 1 + x] == escape(q2)[x] by {
        assert(s.subrange(i, i + piece.len() as int)[x + 1] == s[i + 1 + x]);
        assert(piece[x + 1] == escape(q2)[x]);
    }
    assert(s.subrange(i + 1, i + 1 + escape(q2).len() as int) =~= escape(q2));
    assert(s[i + 1 + escape(q2).len() as int] == piece[piece.len() - 1]) by {
        assert(s.subrange(i, i + piece.len() as int)[piece.len() - 1] == s[i + piece.len()
            - 1]);
    }
    assert(piece[piece.len() - 1] == '"');
}

} // verus!
