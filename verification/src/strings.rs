//! Comparison of strings and byte slices.

use vstd::prelude::*;
use vstd::string::{StrSliceExecFns, StringExecFns};
use crate::search::{first_index, is_first, lemma_first_index_found, lemma_first_index_none};
use vstd::utf8::encode_utf8_decode_utf8;

verus! {

/// Whether two byte slices hold the same bytes.
pub fn bytes_eq(a: &[u8], b: &[u8]) -> (r: bool)
    ensures
        r == (a@ == b@),
{
    if a.len() != b.len() {
        return false;
    }
    let mut i: usize = 0;
    while i < a.len()
        invariant
            a.len() == b.len(),
            i <= a.len(),
            forall|j: int| 0 <= j < i ==> a@[j] == b@[j],
        decreases a.len() - i,
    {
        if a[i] != b[i] {
            return false;
        }
        i += 1;
    }
    assert(a@ =~= b@);
    true
}

/// A copy of the bytes `b`.
pub fn copy_bytes(b: &[u8]) -> (v: Vec<u8>)
    ensures
        v@ == b@,
{
    let mut v: Vec<u8> = Vec::new();
    let mut i: usize = 0;
    while i < b.len()
        invariant
            i <= b.len(),
            v@ == b@.subrange(0, i as int),
        decreases b.len() - i,
    {
        v.push(b[i]);
        assert(v@ =~= b@.subrange(0, i + 1));
        i += 1;
    }
    assert(v@ =~= b@);
    v
}

/// The bytes of `s` in UTF-8.
pub fn str_bytes(s: &str) -> (v: Vec<u8>)
    ensures
        v@ == vstd::utf8::encode_utf8(s@),
{
    copy_bytes(s.as_bytes())
}

/// Whether two strings hold the same characters.
pub fn str_eq(a: &str, b: &str) -> (r: bool)
    ensures
        r == (a@ == b@),
{
    proof {
        encode_utf8_decode_utf8(a@);
        encode_utf8_decode_utf8(b@);
    }
    bytes_eq(a.as_bytes(), b.as_bytes())
}

/// Whether the characters of `prefix` are the first characters of `s`.
pub(crate) fn starts_with(s: &str, prefix: &str) -> (r: bool)
    ensures
        r == prefix@.is_prefix_of(s@),
{
    let n = prefix.unicode_len();
    if s.unicode_len() < n {
        return false;
    }
    let mut i: usize = 0;
    while i < n
        invariant
            i <= n,
            n == prefix@.len(),
            n <= s@.len(),
            forall|j: int| 0 <= j < i ==> s@[j] == prefix@[j],
        decreases n - i,
    {
        if s.get_char(i) != prefix.get_char(i) {
            assert(s@.subrange(0, n as int)[i as int] != prefix@[i as int]);
            return false;
        }
        i += 1;
    }
    assert(prefix@ =~= s@.subrange(0, n as int));
    true
}

/// The decimal digit `d`.
pub open spec fn digit(d: nat) -> Seq<char> {
    if d == 0 {
        "0"@
    } else if d == 1 {
        "1"@
    } else if d == 2 {
        "2"@
    } else if d == 3 {
        "3"@
    } else if d == 4 {
        "4"@
    } else if d == 5 {
        "5"@
    } else if d == 6 {
        "6"@
    } else if d == 7 {
        "7"@
    } else if d == 8 {
        "8"@
    } else {
        "9"@
    }
}

/// The number `n` in decimal digits, without leading zeros.
pub open spec fn decimal(n: nat) -> Seq<char>
    decreases n,
{
    if n < 10 {
        digit(n)
    } else {
        decimal(n / 10) + digit(n % 10)
    }
}

fn digit_str(d: usize) -> (r: &'static str)
    requires
        d < 10,
    ensures
        r@ == digit(d as nat),
{
    if d == 0 {
        "0"
    } else if d == 1 {
        "1"
    } else if d == 2 {
        "2"
    } else if d == 3 {
        "3"
    } else if d == 4 {
        "4"
    } else if d == 5 {
        "5"
    } else if d == 6 {
        "6"
    } else if d == 7 {
        "7"
    } else if d == 8 {
        "8"
    } else {
        "9"
    }
}

/// The number `n` in decimal digits.
pub fn to_decimal(n: usize) -> (r: String)
    ensures
        r@ == decimal(n as nat),
    decreases n,
{
    if n < 10 {
        digit_str(n).to_owned()
    } else {
        let mut r = to_decimal(n / 10);
        r.append(digit_str(n % 10));
        r
    }
}

/// The text `a` followed by the text `b`.
pub fn concat(a: &str, b: &str) -> (r: String)
    ensures
        r@ == a@ + b@,
{
    let mut r = a.to_owned();
    r.append(b);
    r
}

/// Whether Unicode counts the character as white space: the characters with
/// the property `White_Space`, which are the controls from tab to carriage
/// return, the space, next line, the no-break space, the Ogham space mark,
/// the spaces from en quad to hair space, the line and paragraph separators,
/// the narrow no-break space, the medium mathematical space and the
/// ideographic space.
pub open spec fn is_white_space(c: char) -> bool {
    let n = c as u32;
    0x09 <= n <= 0x0d || n == 0x20 || n == 0x85 || n == 0xa0 || n == 0x1680 || 0x2000 <= n
        <= 0x200a || n == 0x2028 || n == 0x2029 || n == 0x202f || n == 0x205f || n == 0x3000
}

/// Whether the character is white space.
pub(crate) fn is_whitespace(c: char) -> (r: bool)
    ensures
        r == is_white_space(c),
{
    let n: u32 = c as u32;
    (0x09 <= n && n <= 0x0d) || n == 0x20 || n == 0x85 || n == 0xa0 || n == 0x1680 || (0x2000 <= n
        && n <= 0x200a) || n == 0x2028 || n == 0x2029 || n == 0x202f || n == 0x205f || n == 0x3000
}

/// The condition on a character of not being white space.
pub open spec fn is_ink() -> spec_fn(char) -> bool {
    |c: char| !is_white_space(c)
}

/// The number of characters of white space that `s` begins with.
pub open spec fn leading_space(s: Seq<char>) -> int {
    match first_index(s, is_ink()) {
        Some(i) => i,
        None => s.len() as int,
    }
}

/// The position after the last character of `s` that is not white space; 0
/// where there is none.
pub open spec fn ink_end(s: Seq<char>) -> int
    decreases s.len(),
{
    if s.len() == 0 {
        0
    } else if !is_white_space(s.last()) {
        s.len() as int
    } else {
        ink_end(s.drop_last())
    }
}

/// The text without the white space at its beginning and at its end.
pub open spec fn trimmed(s: Seq<char>) -> Seq<char> {
    if leading_space(s) >= ink_end(s) {
        Seq::empty()
    } else {
        s.subrange(leading_space(s), ink_end(s))
    }
}

/// The text without the white space at its beginning and at its end.
pub fn trim(s: &str) -> (r: &str)
    ensures
        r@ == trimmed(s@),
{
    let n = s.unicode_len();
    let ghost ink = is_ink();
    let mut a: usize = 0;
    let mut found = false;
    while a < n && !found
        invariant
            a <= n,
            n == s@.len(),
            ink == is_ink(),
            forall|j: int| 0 <= j < a ==> !ink(#[trigger] s@[j]),
            found ==> a < n && ink(s@[a as int]),
        decreases n - a + (if found { 0int } else { 1int }),
    {
        if is_whitespace(s.get_char(a)) {
            a += 1;
        } else {
            found = true;
        }
    }
    proof {
        if found {
            assert(is_first(s@, ink, a as int));
            lemma_first_index_found(s@, ink, a as int);
        } else {
            lemma_first_index_none(s@, ink);
        }
    }
    let mut b: usize = n;
    let mut stop = false;
    assert(s@.subrange(0, b as int) =~= s@);
    while b > 0 && !stop
        invariant
            b <= n,
            n == s@.len(),
            ink_end(s@) == ink_end(s@.subrange(0, b as int)),
            stop ==> b > 0 && !is_white_space(s@[b - 1]),
        decreases b + (if stop { 0int } else { 1int }),
    {
        if is_whitespace(s.get_char(b - 1)) {
            assert(s@.subrange(0, b as int).drop_last() =~= s@.subrange(0, b - 1));
            b -= 1;
        } else {
            stop = true;
        }
    }
    assert(b == ink_end(s@)) by {
        if stop {
            assert(s@.subrange(0, b as int).last() == s@[b - 1]);
        }
    }
    if a >= b {
        let empty = "";
        proof {
            reveal_strlit("");
            assert(empty@ =~= Seq::<char>::empty());
        }
        empty
    } else {
        s.substring_char(a, b)
    }
}

/// What follows `prefix` in `s`, if `s` begins with it.
pub open spec fn after_prefix(s: Seq<char>, prefix: Seq<char>) -> Option<Seq<char>> {
    if prefix.is_prefix_of(s) {
        Some(s.subrange(prefix.len() as int, s.len() as int))
    } else {
        None
    }
}

/// What follows `prefix` in `s`, if `s` begins with it.
pub fn strip_prefix<'a>(s: &'a str, prefix: &str) -> (r: Option<&'a str>)
    ensures
        r is Some == after_prefix(s@, prefix@) is Some,
        r matches Some(rest) ==> after_prefix(s@, prefix@) == Some(rest@),
{
    if starts_with(s, prefix) {
        Some(s.substring_char(prefix.unicode_len(), s.unicode_len()))
    } else {
        None
    }
}

} // verus!
