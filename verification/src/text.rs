//! Character-level building blocks for the canonical text forms: decimal
//! and fixed-width hexadecimal rendering, and exact comparison of string
//! slices.

use vstd::prelude::*;
use vstd::string::*;

verus! {

/// The character of one decimal digit.
pub open spec fn digit_char(d: int) -> char {
    (48 + d) as char
}

/// Shortest decimal spelling of `n`, most significant digit first.
pub open spec fn dec_chars(n: nat) -> Seq<char>
    decreases n,
{
    if n < 10 {
        seq![digit_char(n as int)]
    } else {
        dec_chars(n / 10).push(digit_char((n % 10) as int))
    }
}

/// A digit's character is the ASCII digit itself.
pub proof fn lemma_digit_char(d: int)
    requires
        0 <= d < 10,
    ensures
        digit_char(d) as int == 48 + d,
        '0' <= digit_char(d) <= '9',
{
}

/// A decimal spelling is nonempty and made of ASCII digits only.
pub proof fn lemma_dec_chars_digits(n: nat)
    ensures
        dec_chars(n).len() >= 1,
        forall|i: int| 0 <= i < dec_chars(n).len() ==> '0' <= #[trigger] dec_chars(n)[i] <= '9',
    decreases n,
{
    if n < 10 {
        lemma_digit_char(n as int);
    } else {
        lemma_dec_chars_digits(n / 10);
        lemma_digit_char((n % 10) as int);
        assert forall|i: int| 0 <= i < dec_chars(n).len() implies '0' <= #[trigger] dec_chars(n)[i] <= '9' by {
            if i < dec_chars(n / 10).len() {
                assert(dec_chars(n)[i] == dec_chars(n / 10)[i]);
            }
        }
    }
}

/// Different numbers have different decimal spellings.
pub proof fn lemma_dec_chars_injective(a: nat, b: nat)
    requires
        dec_chars(a) == dec_chars(b),
    ensures
        a == b,
    decreases a,
{
    if a < 10 && b < 10 {
        lemma_digit_char(a as int);
        lemma_digit_char(b as int);
        assert(dec_chars(a)[0] == digit_char(a as int));
        assert(dec_chars(b)[0] == digit_char(b as int));
        assert(digit_char(a as int) as int == digit_char(b as int) as int);
    } else if a < 10 {
        lemma_dec_chars_digits(b / 10);
        assert(dec_chars(b).len() >= 2);
    } else if b < 10 {
        lemma_dec_chars_digits(a / 10);
        assert(dec_chars(a).len() >= 2);
    } else {
        let da = dec_chars(a);
        let db = dec_chars(b);
        assert(da.drop_last() =~= dec_chars(a / 10));
        assert(db.drop_last() =~= dec_chars(b / 10));
        lemma_dec_chars_injective(a / 10, b / 10);
        lemma_digit_char((a % 10) as int);
        lemma_digit_char((b % 10) as int);
        assert(da.last() == digit_char((a % 10) as int));
        assert(db.last() == digit_char((b % 10) as int));
        assert(da.last() == db.last());
        assert(a % 10 == b % 10);
        assert(a == (a / 10) * 10 + a % 10);
        assert(b == (b / 10) * 10 + b % 10);
        assert(a / 10 == b / 10);
    }
}

/// The lower-case character of one hexadecimal digit.
pub open spec fn hex_char(v: int) -> char {
    if v < 10 {
        (48 + v) as char
    } else {
        (87 + v) as char
    }
}

/// The nibble of `x` printed at position `i` of a 16-digit hex spelling.
pub open spec fn nibble(x: u64, i: int) -> int {
    ((x >> ((60 - 4 * i) as u64)) & 15u64) as int
}

/// Zero-padded 16-digit lower-case hexadecimal spelling of `x`.
pub open spec fn hex16_chars(x: u64) -> Seq<char> {
    Seq::new(16, |i: int| hex_char(nibble(x, i)))
}

/// `0x` followed by the 16-digit spelling.
pub open spec fn hex_prefixed(x: u64) -> Seq<char> {
    seq!['0', 'x'] + hex16_chars(x)
}

/// Appends one character (`String::push`).
#[verifier::external_body]
pub fn push_char(s: &mut String, c: char)
    ensures
        final(s)@ == old(s)@.push(c),
{
    s.push(c);
}

/// Appends a string slice.
pub fn push_str(s: &mut String, t: &str)
    ensures
        final(s)@ == old(s)@ + t@,
{
    s.append(t);
}

/// A fresh `String` holding exactly the characters of `t`.
pub fn string_of(t: &str) -> (r: String)
    ensures
        r@ == t@,
{
    String::from_str(t)
}

fn digit(d: u64) -> (c: char)
    requires
        d < 10,
    ensures
        c == digit_char(d as int),
{
    ((48 + d) as u8) as char
}

/// Appends the decimal spelling of `n`.
pub fn push_decimal(s: &mut String, n: u64)
    ensures
        final(s)@ == old(s)@ + dec_chars(n as nat),
    decreases n,
{
    if n >= 10 {
        push_decimal(s, n / 10);
    }
    let c = digit(n % 10);
    push_char(s, c);
    proof {
        assert(final(s)@ =~= old(s)@ + dec_chars(n as nat));
    }
}

/// The decimal spelling of `n` as a new `String`.
pub fn decimal_string(n: u64) -> (r: String)
    ensures
        r@ == dec_chars(n as nat),
{
    let mut s = String::new();
    push_decimal(&mut s, n);
    assert(s@ =~= dec_chars(n as nat));
    s
}

fn hex_digit(v: u64) -> (c: char)
    requires
        v < 16,
    ensures
        c == hex_char(v as int),
{
    if v < 10 {
        ((48 + v) as u8) as char
    } else {
        ((87 + v) as u8) as char
    }
}

/// Appends `0x` and the zero-padded 16-digit hex spelling of `x`.
pub fn push_hex(s: &mut String, x: u64)
    ensures
        final(s)@ == old(s)@ + hex_prefixed(x),
{
    push_char(s, '0');
    push_char(s, 'x');
    let ghost start = s@;
    let mut i: u64 = 0;
    while i < 16
        invariant
            0 <= i <= 16,
            s@ == start + hex16_chars(x).take(i as int),
        decreases 16 - i,
    {
        let shift: u64 = 60 - 4 * i;
        let v = (x >> shift) & 15;
        assert(v < 16) by (bit_vector)
            requires
                v == (x >> shift) & 15,
        ;
        let c = hex_digit(v);
        push_char(s, c);
        proof {
            assert(hex16_chars(x).take(i as int + 1) =~= hex16_chars(x).take(i as int).push(c));
        }
        i = i + 1;
    }
    proof {
        assert(hex16_chars(x).take(16) =~= hex16_chars(x));
        assert(final(s)@ =~= old(s)@ + hex_prefixed(x));
    }
}

/// The characters of `t`, one per element.
pub fn chars_of(t: &str) -> (r: Vec<char>)
    ensures
        r@ == t@,
{
    let n = t.unicode_len();
    let mut out: Vec<char> = Vec::new();
    let mut i: usize = 0;
    while i < n
        invariant
            n == t@.len(),
            i <= n,
            out@ == t@.take(i as int),
        decreases n - i,
    {
        let c = t.get_char(i);
        out.push(c);
        proof {
            assert(t@.take(i as int + 1) =~= t@.take(i as int).push(c));
        }
        i = i + 1;
    }
    assert(t@.take(n as int) =~= t@);
    out
}

/// Exact equality of two character sequences held in vectors.
pub fn chars_equal(a: &Vec<char>, b: &Vec<char>) -> (r: bool)
    ensures
        r == (a@ == b@),
{
    if a.len() != b.len() {
        return false;
    }
    let mut i: usize = 0;
    while i < a.len()
        invariant
            a@.len() == b@.len(),
            i <= a@.len(),
            forall|j: int| 0 <= j < i ==> a@[j] == b@[j],
        decreases a@.len() - i,
    {
        if a[i] != b[i] {
            return false;
        }
        i = i + 1;
    }
    assert(a@ =~= b@);
    true
}

/// Exact equality of two string slices, character by character.
pub fn str_equals(a: &str, b: &str) -> (r: bool)
    ensures
        r == (a@ == b@),
{
    let ca = chars_of(a);
    let cb = chars_of(b);
    chars_equal(&ca, &cb)
}

/// Exact equality of two lists of strings, position by position.
pub fn strings_equal(a: &Vec<String>, b: &Vec<String>) -> (r: bool)
    ensures
        r == (a@.len() == b@.len() && forall|i: int| 0 <= i < a@.len() ==> (#[trigger] a@[i])@ == b@[i]@),
{
    if a.len() != b.len() {
        return false;
    }
    let mut i: usize = 0;
    while i < a.len()
        invariant
            a@.len() == b@.len(),
            i <= a@.len(),
            forall|j: int| 0 <= j < i ==> (#[trigger] a@[j])@ == b@[j]@,
        decreases a@.len() - i,
    {
        if !str_equals(a[i].as_str(), b[i].as_str()) {
            return false;
        }
        i = i + 1;
    }
    true
}

} // verus!
