//! Small string routines over `char` sequences, with their specifications.

use vstd::prelude::*;
use vstd::utf8::{decode_utf8, encode_utf8, valid_utf8};

verus! {

/// The position of the first `c` in `s`, if there is one.
pub open spec fn first_index(s: Seq<char>, c: char) -> Option<nat>
    decreases s.len(),
{
    if s.len() == 0 {
        None
    } else {
        match first_index(s.drop_last(), c) {
            Some(i) => Some(i),
            None => if s.last() == c {
                Some((s.len() - 1) as nat)
            } else {
                None
            },
        }
    }
}

/// `s` split around its first `c`: what comes before it and what comes after.
pub open spec fn split_once(s: Seq<char>, c: char) -> Option<(Seq<char>, Seq<char>)> {
    match first_index(s, c) {
        Some(i) => Some((s.take(i as int), s.skip(i as int + 1))),
        None => None,
    }
}

/// `s` with a leading `prefix` removed, if it starts with one.
pub open spec fn strip_prefix(s: Seq<char>, prefix: Seq<char>) -> Option<Seq<char>> {
    if prefix.is_prefix_of(s) {
        Some(s.skip(prefix.len() as int))
    } else {
        None
    }
}

pub proof fn lemma_first_index_some(s: Seq<char>, c: char)
    ensures
        first_index(s, c) matches Some(i) ==> i < s.len() && s[i as int] == c && forall|j: int|
            0 <= j < i ==> s[j] != c,
        first_index(s, c) is None <==> !s.contains(c),
    decreases s.len(),
{
    if s.len() > 0 {
        let init = s.drop_last();
        lemma_first_index_some(init, c);
        assert(forall|j: int| 0 <= j < init.len() ==> init[j] == s[j]);
        if s.contains(c) {
            let k = choose|k: int| 0 <= k < s.len() && s[k] == c;
            if k < s.len() - 1 {
                assert(init[k] == c);
            }
        }
        if init.contains(c) {
            let k = choose|k: int| 0 <= k < init.len() && init[k] == c;
            assert(s[k] == c);
        }
    }
}

pub proof fn lemma_first_index_extend(s: Seq<char>, c: char, i: nat)
    requires
        i < s.len(),
        s[i as int] == c,
        !s.take(i as int).contains(c),
    ensures
        first_index(s, c) == Some(i),
    decreases s.len(),
{
    if i < s.len() - 1 {
        assert(s.drop_last().take(i as int) =~= s.take(i as int));
        lemma_first_index_extend(s.drop_last(), c, i);
    } else {
        assert(s.drop_last() =~= s.take(i as int));
        lemma_first_index_some(s.drop_last(), c);
    }
}

/// Whether `s` holds the character `c`.
pub fn contains_char(s: &str, c: char) -> (found: bool)
    ensures
        found == s@.contains(c),
{
    let n = s.unicode_len();
    let mut i: usize = 0;
    while i < n
        invariant
            n == s@.len(),
            i <= n,
            forall|j: int| 0 <= j < i ==> s@[j] != c,
        decreases n - i,
    {
        if s.get_char(i) == c {
            return true;
        }
        i = i + 1;
    }
    false
}

/// The position of the first `c` in `s`.
pub fn find_char(s: &str, c: char) -> (pos: Option<usize>)
    ensures
        match pos {
            Some(i) => first_index(s@, c) == Some(i as nat),
            None => first_index(s@, c) is None,
        },
{
    let n = s.unicode_len();
    let mut i: usize = 0;
    while i < n
        invariant
            n == s@.len(),
            i <= n,
            forall|j: int| 0 <= j < i ==> s@[j] != c,
        decreases n - i,
    {
        if s.get_char(i) == c {
            proof {
                lemma_first_index_extend(s@, c, i as nat);
            }
            return Some(i);
        }
        i = i + 1;
    }
    proof {
        lemma_first_index_some(s@, c);
    }
    None
}

/// `s` split around its first `c`, borrowing both halves from `s`.
pub fn split_once_char<'a>(s: &'a str, c: char) -> (parts: Option<(&'a str, &'a str)>)
    ensures
        match parts {
            Some((before, after)) => split_once(s@, c) == Some((before@, after@)),
            None => split_once(s@, c) is None,
        },
{
    match find_char(s, c) {
        Some(i) => {
            proof {
                lemma_first_index_some(s@, c);
            }
            let n = s.unicode_len();
            let before = s.substring_char(0, i);
            let after = s.substring_char(i + 1, n);
            proof {
                assert(before@ =~= s@.take(i as int));
                assert(after@ =~= s@.skip(i + 1));
            }
            Some((before, after))
        },
        None => None,
    }
}

/// Whether the two strings hold the same characters.
pub fn str_eq(a: &str, b: &str) -> (same: bool)
    ensures
        same == (a@ == b@),
{
    let n = a.unicode_len();
    if n != b.unicode_len() {
        return false;
    }
    let mut i: usize = 0;
    while i < n
        invariant
            n == a@.len(),
            n == b@.len(),
            i <= n,
            forall|j: int| 0 <= j < i ==> a@[j] == b@[j],
        decreases n - i,
    {
        if a.get_char(i) != b.get_char(i) {
            return false;
        }
        i = i + 1;
    }
    assert(a@ =~= b@);
    true
}

/// `s` without a leading `prefix`, borrowed from `s`, if it starts with one.
pub fn strip_prefix_str<'a>(s: &'a str, prefix: &str) -> (rest: Option<&'a str>)
    ensures
        match rest {
            Some(r) => strip_prefix(s@, prefix@) == Some(r@),
            None => strip_prefix(s@, prefix@) is None,
        },
{
    let n = s.unicode_len();
    let m = prefix.unicode_len();
    if m > n {
        return None;
    }
    let mut i: usize = 0;
    while i < m
        invariant
            n == s@.len(),
            m == prefix@.len(),
            m <= n,
            i <= m,
            forall|j: int| 0 <= j < i ==> prefix@[j] == s@[j],
        decreases m - i,
    {
        if s.get_char(i) != prefix.get_char(i) {
            return None;
        }
        i = i + 1;
    }
    let rest = s.substring_char(m, n);
    assert(rest@ =~= s@.skip(m as int));
    Some(rest)
}

/// `s` with every `a` immediately followed by `b` replaced by `r`, scanning
/// left to right, as `str::replace` does with a two-character pattern.
pub open spec fn replace_pair(s: Seq<char>, a: char, b: char, r: char) -> Seq<char>
    decreases s.len(),
{
    if s.len() == 0 {
        s
    } else if s.len() >= 2 && s[0] == a && s[1] == b {
        seq![r] + replace_pair(s.skip(2), a, b, r)
    } else {
        seq![s[0]] + replace_pair(s.skip(1), a, b, r)
    }
}

/// The two-character pattern `a` `b` replaced by the one-character `replacement`
/// throughout `s`.
pub(crate) fn replace_pair_str(s: &str, a: char, b: char, replacement: &str) -> (out: String)
    requires
        replacement@.len() == 1,
    ensures
        out@ == replace_pair(s@, a, b, replacement@[0]),
{
    let ghost r = replacement@[0];
    let n = s.unicode_len();
    let mut out = String::new();
    let mut i: usize = 0;
    assert(s@.skip(0) =~= s@);
    while i < n
        invariant
            n == s@.len(),
            i <= n,
            r == replacement@[0],
            replacement@.len() == 1,
            out@ + replace_pair(s@.skip(i as int), a, b, r) == replace_pair(s@, a, b, r),
        decreases n - i,
    {
        let ghost rest = s@.skip(i as int);
        if i + 1 < n && s.get_char(i) == a && s.get_char(i + 1) == b {
            assert(rest.skip(2) =~= s@.skip(i + 2));
            assert(replacement@ =~= seq![r]);
            out.append(replacement);
            assert(out@ + replace_pair(s@.skip(i + 2), a, b, r) =~= replace_pair(s@, a, b, r));
            i = i + 2;
        } else {
            let one = s.substring_char(i, i + 1);
            assert(one@ =~= seq![rest[0]]);
            assert(rest.skip(1) =~= s@.skip(i + 1));
            out.append(one);
            assert(out@ + replace_pair(s@.skip(i + 1), a, b, r) =~= replace_pair(s@, a, b, r));
            i = i + 1;
        }
    }
    assert(s@.skip(n as int) =~= Seq::<char>::empty());
    assert(out@ =~= replace_pair(s@, a, b, r));
    out
}

/// Whether `c` is an ASCII hexadecimal digit.
pub open spec fn is_hex_char(c: char) -> bool {
    ('0' <= c && c <= '9') || ('A' <= c && c <= 'F') || ('a' <= c && c <= 'f')
}

/// Whether a percent-escape, `%` and two hexadecimal digits, starts at
/// position `i` of `s`.
pub open spec fn escape_at(s: Seq<char>, i: int) -> bool {
    &&& 0 <= i
    &&& i + 2 < s.len()
    &&& s[i] == '%'
    &&& is_hex_char(s[i + 1])
    &&& is_hex_char(s[i + 2])
}

/// Whether `s` holds a percent-escape anywhere.
pub open spec fn has_percent_escape(s: Seq<char>) -> bool {
    exists|i: int| #[trigger] escape_at(s, i)
}

fn hex_char(c: char) -> (hex: bool)
    ensures
        hex == is_hex_char(c),
{
    ('0' <= c && c <= '9') || ('A' <= c && c <= 'F') || ('a' <= c && c <= 'f')
}

/// Whether `s` holds a percent-escape, `%` and two hexadecimal digits.
pub fn has_percent_escape_str(s: &str) -> (found: bool)
    ensures
        found == has_percent_escape(s@),
{
    let n = s.unicode_len();
    let mut i: usize = 0;
    while i < n
        invariant
            n == s@.len(),
            i <= n,
            forall|j: int| 0 <= j < i ==> !#[trigger] escape_at(s@, j),
        decreases n - i,
    {
        if n - i > 2 && s.get_char(i) == '%' && hex_char(s.get_char(i + 1)) && hex_char(
            s.get_char(i + 2),
        ) {
            assert(escape_at(s@, i as int));
            return true;
        }
        assert(!escape_at(s@, i as int));
        i = i + 1;
    }
    assert forall|j: int| !#[trigger] escape_at(s@, j) by {
        if 0 <= j < n {
        }
    }
    false
}

/// The value of an ASCII hexadecimal digit.
pub open spec fn hex_digit_value(b: u8) -> Option<u8> {
    if 48 <= b <= 57 {
        Some((b - 48) as u8)
    } else if 65 <= b <= 70 {
        Some((b - 55) as u8)
    } else if 97 <= b <= 102 {
        Some((b - 87) as u8)
    } else {
        None
    }
}

/// `bytes` with every `%` followed by two hexadecimal digits replaced by the
/// byte those digits denote. A `%` not followed by two digits stays as it is.
pub open spec fn percent_decode(bytes: Seq<u8>) -> Seq<u8>
    decreases bytes.len(),
{
    if bytes.len() == 0 {
        bytes
    } else if bytes.len() >= 3 && bytes[0] == 37 && hex_digit_value(bytes[1]) is Some
        && hex_digit_value(bytes[2]) is Some {
        seq![
            (hex_digit_value(bytes[1])->0 * 16 + hex_digit_value(bytes[2])->0) as u8,
        ] + percent_decode(bytes.skip(3))
    } else {
        seq![bytes[0]] + percent_decode(bytes.skip(1))
    }
}

/// The ASCII spelling of the hexadecimal digit `d`, below 16, with a letter
/// in upper or in lower case.
pub open spec fn hex_spelling(d: int, upper: bool) -> u8 {
    if d < 10 {
        ('0' as int + d) as u8
    } else if upper {
        ('A' as int + (d - 10)) as u8
    } else {
        ('a' as int + (d - 10)) as u8
    }
}

/// A percent-escape `%XY` decodes to the byte whose hexadecimal digits are
/// `X` and `Y`, whichever case each letter digit is written in, and the
/// bytes after it decode on their own.
pub proof fn law_percent_escape_decodes(v: u8, upper_high: bool, upper_low: bool, rest: Seq<u8>)
    ensures
        percent_decode(
            seq![37u8, hex_spelling(v as int / 16, upper_high), hex_spelling(v as int % 16, upper_low)] + rest,
        ) == seq![v] + percent_decode(rest),
{
    let bytes = seq![37u8, hex_spelling(v as int / 16, upper_high), hex_spelling(v as int % 16, upper_low)]
        + rest;
    assert(bytes[0] == 37u8);
    assert(hex_digit_value(bytes[1]) == Some((v / 16) as u8));
    assert(hex_digit_value(bytes[2]) == Some((v % 16) as u8));
    assert(bytes.skip(3) =~= rest);
    assert((v / 16) * 16 + v % 16 == v);
}

/// A `%` followed by two hexadecimal digits, each `0` to `9`, `a` to `f` or
/// `A` to `F`, is a percent-escape, so a pointer that holds one is decoded.
pub proof fn law_hex_escapes_are_recognised(s: Seq<char>, i: int)
    requires
        0 <= i,
        i + 2 < s.len(),
        s[i] == '%',
        forall|k: int|
            #![trigger s[k]]
            i < k <= i + 2 ==> ('0' <= s[k] <= '9' || 'a' <= s[k] <= 'f' || 'A' <= s[k] <= 'F'),
    ensures
        escape_at(s, i),
        has_percent_escape(s),
{
    assert(s[i + 1] == s[i + 1] && s[i + 2] == s[i + 2]);
    assert(escape_at(s, i));
}

fn hex_digit(b: u8) -> (v: Option<u8>)
    ensures
        v == hex_digit_value(b),
        v matches Some(d) ==> d < 16,
{
    if 48 <= b && b <= 57 {
        Some(b - 48)
    } else if 65 <= b && b <= 70 {
        Some(b - 55)
    } else if 97 <= b && b <= 102 {
        Some(b - 87)
    } else {
        None
    }
}

/// Builds a `String` from UTF-8 bytes; `None` when the bytes are not UTF-8.
#[verifier::external_body]
fn string_from_utf8(bytes: Vec<u8>) -> (s: Option<String>)
    ensures
        match s {
            Some(s) => valid_utf8(bytes@) && s@ == decode_utf8(bytes@),
            None => !valid_utf8(bytes@),
        },
{
    String::from_utf8(bytes).ok()
}

/// The characters that percent-decoding the UTF-8 encoding of `s` gives, or
/// `None` when the decoded bytes are not UTF-8.
pub open spec fn percent_decode_chars(s: Seq<char>) -> Option<Seq<char>> {
    let bytes = percent_decode(encode_utf8(s));
    if valid_utf8(bytes) {
        Some(decode_utf8(bytes))
    } else {
        None
    }
}

/// Percent-decodes `s`: `None` when the decoded bytes are not UTF-8.
pub fn percent_decode_str(s: &str) -> (decoded: Option<String>)
    ensures
        match decoded {
            Some(d) => percent_decode_chars(s@) == Some(d@),
            None => percent_decode_chars(s@) is None,
        },
{
    let bytes = s.as_bytes();
    let n = bytes.len();
    let mut out: Vec<u8> = Vec::new();
    let mut i: usize = 0;
    assert(bytes@.skip(0) =~= bytes@);
    while i < n
        invariant
            n == bytes@.len(),
            i <= n,
            out@ + percent_decode(bytes@.skip(i as int)) == percent_decode(bytes@),
        decreases n - i,
    {
        let ghost rest = bytes@.skip(i as int);
        let b = bytes[i];
        let mut consumed = false;
        if b == 37 && n - i > 2 {
            match (hex_digit(bytes[i + 1]), hex_digit(bytes[i + 2])) {
                (Some(high), Some(low)) => {
                    assert(rest.skip(3) =~= bytes@.skip(i + 3));
                    out.push(high * 16 + low);
                    assert(out@ + percent_decode(bytes@.skip(i + 3)) =~= percent_decode(bytes@));
                    i = i + 3;
                    consumed = true;
                },
                _ => {},
            }
        }
        if !consumed {
            assert(rest.skip(1) =~= bytes@.skip(i + 1));
            out.push(b);
            assert(out@ + percent_decode(bytes@.skip(i + 1)) =~= percent_decode(bytes@));
            i = i + 1;
        }
    }
    assert(bytes@.skip(n as int) =~= Seq::<u8>::empty());
    assert(out@ =~= percent_decode(bytes@));
    string_from_utf8(out)
}

} // verus!
