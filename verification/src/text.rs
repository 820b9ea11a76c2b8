//! Text helpers shared by the rule evaluator and the importer: ASCII case-insensitive comparison
//! (the byte-wise rule std's `eq_ignore_ascii_case` uses) and list membership under it.

use vstd::prelude::*;
use vstd::utf8::{encode_utf8, encode_utf8_decode_utf8};

verus! {

/// ASCII lower-casing of one byte; every other byte is left alone.
pub open spec fn ascii_lower(b: u8) -> u8 {
    if 65 <= b <= 90 {
        (b + 32) as u8
    } else {
        b
    }
}

/// Two byte strings are equal once ASCII letters are folded to lower case.
pub open spec fn bytes_eq_ignore_ascii_case(a: Seq<u8>, b: Seq<u8>) -> bool {
    &&& a.len() == b.len()
    &&& forall|i: int| 0 <= i < a.len() ==> ascii_lower(#[trigger] a[i]) == ascii_lower(b[i])
}

/// Two names are the same name, ignoring ASCII case (compared over their UTF-8 encodings).
pub open spec fn same_name(a: Seq<char>, b: Seq<char>) -> bool {
    bytes_eq_ignore_ascii_case(encode_utf8(a), encode_utf8(b))
}

/// Whether `name` is, ignoring ASCII case, one of `list`.
pub open spec fn listed(list: Seq<String>, name: Seq<char>) -> bool {
    exists|i: int| 0 <= i < list.len() && same_name(#[trigger] list[i]@, name)
}

/// The decimal digit character for `d` (0..10).
pub open spec fn digit_char(d: nat) -> char {
    if d == 0 { '0' } else if d == 1 { '1' } else if d == 2 { '2' } else if d == 3 { '3' }
    else if d == 4 { '4' } else if d == 5 { '5' } else if d == 6 { '6' } else if d == 7 { '7' }
    else if d == 8 { '8' } else { '9' }
}

/// The decimal representation of `n`, without sign or leading zeros.
pub open spec fn decimal(n: nat) -> Seq<char>
    decreases n,
{
    if n < 10 {
        seq![digit_char(n)]
    } else {
        decimal(n / 10).push(digit_char(n % 10))
    }
}

/// The Unicode `White_Space` characters, which `str::trim` removes.
pub open spec fn is_white(c: char) -> bool {
    ||| '\u{9}' <= c <= '\u{d}'
    ||| c == ' '
    ||| c == '\u{85}'
    ||| c == '\u{a0}'
    ||| c == '\u{1680}'
    ||| '\u{2000}' <= c <= '\u{200a}'
    ||| c == '\u{2028}'
    ||| c == '\u{2029}'
    ||| c == '\u{202f}'
    ||| c == '\u{205f}'
    ||| c == '\u{3000}'
}

/// How many white-space characters `s` starts with.
pub open spec fn leading_white(s: Seq<char>) -> nat
    decreases s.len(),
{
    if s.len() > 0 && is_white(s[0]) { 1 + leading_white(s.drop_first()) } else { 0 }
}

/// How many white-space characters `s` ends with.
pub open spec fn trailing_white(s: Seq<char>) -> nat
    decreases s.len(),
{
    if s.len() > 0 && is_white(s.last()) { 1 + trailing_white(s.drop_last()) } else { 0 }
}

/// `s` with leading and trailing white space removed.
pub open spec fn trimmed(s: Seq<char>) -> Seq<char> {
    let lead = leading_white(s);
    if lead == s.len() {
        Seq::empty()
    } else {
        s.subrange(lead as int, s.len() - trailing_white(s))
    }
}

proof fn lemma_leading_white_bound(s: Seq<char>)
    ensures
        leading_white(s) <= s.len(),
        forall|i: int| 0 <= i < leading_white(s) ==> is_white(#[trigger] s[i]),
        leading_white(s) < s.len() ==> !is_white(s[leading_white(s) as int]),
    decreases s.len(),
{
    if s.len() > 0 && is_white(s[0]) {
        lemma_leading_white_bound(s.drop_first());
        assert forall|i: int| 0 <= i < leading_white(s) implies is_white(#[trigger] s[i]) by {
            if i > 0 {
                assert(s[i] == s.drop_first()[i - 1]);
            }
        }
    }
}

proof fn lemma_trailing_white_bound(s: Seq<char>)
    ensures
        trailing_white(s) <= s.len(),
        forall|i: int| s.len() - trailing_white(s) <= i < s.len() ==> is_white(#[trigger] s[i]),
        trailing_white(s) < s.len() ==> !is_white(s[s.len() - trailing_white(s) - 1]),
    decreases s.len(),
{
    if s.len() > 0 && is_white(s.last()) {
        lemma_trailing_white_bound(s.drop_last());
        assert forall|i: int| s.len() - trailing_white(s) <= i < s.len() implies is_white(#[trigger] s[i]) by {
            if i < s.len() - 1 {
                assert(s[i] == s.drop_last()[i]);
            }
        }
    }
}

/// A run of white space at the front of `s` ending at a non-white character, or at the end, is
/// exactly its leading white space.
proof fn lemma_leading_white_is(s: Seq<char>, k: int)
    requires
        0 <= k <= s.len(),
        forall|i: int| 0 <= i < k ==> is_white(#[trigger] s[i]),
        k < s.len() ==> !is_white(s[k]),
    ensures
        leading_white(s) == k,
    decreases s.len(),
{
    if k > 0 {
        let t = s.drop_first();
        assert forall|i: int| 0 <= i < k - 1 implies is_white(#[trigger] t[i]) by {
            assert(t[i] == s[i + 1]);
        }
        lemma_leading_white_is(t, k - 1);
    }
}

/// A run of white space at the back of `s` starting after a non-white character, or at the
/// start, is exactly its trailing white space.
proof fn lemma_trailing_white_is(s: Seq<char>, k: int)
    requires
        0 <= k <= s.len(),
        forall|i: int| s.len() - k <= i < s.len() ==> is_white(#[trigger] s[i]),
        k < s.len() ==> !is_white(s[s.len() - k - 1]),
    ensures
        trailing_white(s) == k,
    decreases s.len(),
{
    if k > 0 {
        let t = s.drop_last();
        assert forall|i: int| t.len() - (k - 1) <= i < t.len() implies is_white(#[trigger] t[i]) by {
            assert(t[i] == s[i]);
        }
        lemma_trailing_white_is(t, k - 1);
    }
}

/// Whether `c` is Unicode white space.
pub fn is_white_char(c: char) -> (r: bool)
    ensures
        r == is_white(c),
{
    ('\u{9}' <= c && c <= '\u{d}') || c == ' ' || c == '\u{85}' || c == '\u{a0}' || c == '\u{1680}'
        || ('\u{2000}' <= c && c <= '\u{200a}') || c == '\u{2028}' || c == '\u{2029}' || c == '\u{202f}'
        || c == '\u{205f}' || c == '\u{3000}'
}

/// `s` with leading and trailing white space removed.
pub fn trim(s: &str) -> (r: &str)
    ensures
        r@ == trimmed(s@),
{
    let n = s.unicode_len();
    let mut start: usize = 0;
    while start < n && is_white_char(s.get_char(start))
        invariant
            n == s@.len(),
            start <= n,
            forall|i: int| 0 <= i < start ==> is_white(#[trigger] s@[i]),
        decreases n - start,
    {
        start = start + 1;
    }
    proof {
        lemma_leading_white_is(s@, start as int);
    }
    if start == n {
        proof {
            reveal_strlit("");
        }
        return "";
    }
    let mut end: usize = n;
    while end > start && is_white_char(s.get_char(end - 1))
        invariant
            n == s@.len(),
            start < n,
            !is_white(s@[start as int]),
            start <= end <= n,
            forall|i: int| end <= i < n ==> is_white(#[trigger] s@[i]),
        decreases end,
    {
        end = end - 1;
    }
    proof {
        lemma_trailing_white_is(s@, n - end);
    }
    s.substring_char(start, end)
}

/// The character of a decimal digit.
fn digit_str(d: u64) -> (r: &'static str)
    requires
        d < 10,
    ensures
        r@ == seq![digit_char(d as nat)],
{
    proof {
        reveal_strlit("0");
        reveal_strlit("1");
        reveal_strlit("2");
        reveal_strlit("3");
        reveal_strlit("4");
        reveal_strlit("5");
        reveal_strlit("6");
        reveal_strlit("7");
        reveal_strlit("8");
        reveal_strlit("9");
    }
    if d == 0 { "0" } else if d == 1 { "1" } else if d == 2 { "2" } else if d == 3 { "3" }
    else if d == 4 { "4" } else if d == 5 { "5" } else if d == 6 { "6" } else if d == 7 { "7" }
    else if d == 8 { "8" } else { "9" }
}

/// Append the decimal representation of `n` to `s`.
pub fn push_decimal(s: &mut String, n: u64)
    ensures
        final(s)@ == old(s)@ + decimal(n as nat),
    decreases n,
{
    if n >= 10 {
        push_decimal(s, n / 10);
    }
    s.append(digit_str(n % 10));
    proof {
        if n >= 10 {
            assert(decimal(n as nat) == decimal((n / 10) as nat).push(digit_char((n % 10) as nat)));
        }
    }
}

fn lower_byte(b: u8) -> (r: u8)
    ensures
        r == ascii_lower(b),
{
    if 65 <= b && b <= 90 {
        b + 32
    } else {
        b
    }
}

/// ASCII case-insensitive equality of two strings.
pub fn eq_ignore_ascii_case(a: &str, b: &str) -> (r: bool)
    ensures
        r == same_name(a@, b@),
{
    let ab = a.as_bytes();
    let bb = b.as_bytes();
    if ab.len() != bb.len() {
        return false;
    }
    let mut i: usize = 0;
    while i < ab.len()
        invariant
            ab@ == encode_utf8(a@),
            bb@ == encode_utf8(b@),
            ab@.len() == bb@.len(),
            i <= ab@.len(),
            forall|k: int| 0 <= k < i ==> ascii_lower(#[trigger] ab@[k]) == ascii_lower(bb@[k]),
        decreases ab@.len() - i,
    {
        if lower_byte(ab[i]) != lower_byte(bb[i]) {
            return false;
        }
        i = i + 1;
    }
    true
}

/// Exact equality of two strings.
pub fn same_text(a: &str, b: &str) -> (r: bool)
    ensures
        r == (a@ == b@),
{
    let ab = a.as_bytes();
    let bb = b.as_bytes();
    proof {
        encode_utf8_decode_utf8(a@);
        encode_utf8_decode_utf8(b@);
    }
    if ab.len() != bb.len() {
        return false;
    }
    let mut i: usize = 0;
    while i < ab.len()
        invariant
            ab@ == encode_utf8(a@),
            bb@ == encode_utf8(b@),
            ab@.len() == bb@.len(),
            i <= ab@.len(),
            forall|k: int| 0 <= k < i ==> #[trigger] ab@[k] == bb@[k],
        decreases ab@.len() - i,
    {
        if ab[i] != bb[i] {
            return false;
        }
        i = i + 1;
    }
    proof {
        assert(ab@ =~= bb@);
    }
    true
}

/// Whether `name` is, ignoring ASCII case, one of `list`.
pub fn is_listed(list: &Vec<String>, name: &str) -> (r: bool)
    ensures
        r == listed(list@, name@),
{
    let mut i: usize = 0;
    while i < list.len()
        invariant
            i <= list@.len(),
            forall|k: int| 0 <= k < i ==> !same_name(#[trigger] list@[k]@, name@),
        decreases list@.len() - i,
    {
        if eq_ignore_ascii_case(list[i].as_str(), name) {
            return true;
        }
        i = i + 1;
    }
    false
}

} // verus!
