//! The laws that tie pointers built by [`crate::reference::pointer_for`] to
//! what [`crate::reference::ComponentRef::parse`] reads back.

use crate::error::Failure;
use crate::reference::{
    decode_pointer, escape_char, escape_name, locate, parse_reference, pointer_to, unescape_name,
};
use crate::section::{
    components_segment, law_section_pointer_round_trip, parse_section_pointer,
    section_of_components_segment, section_pointer, Section,
};
use crate::text::{
    escape_at, first_index, has_percent_escape, lemma_first_index_extend, percent_decode,
    percent_decode_chars, replace_pair, split_once, strip_prefix,
};
use vstd::prelude::*;
use vstd::utf8::{
    decode_utf8, encode_scalar, encode_utf8, encode_utf8_decode_utf8, encode_utf8_valid_utf8,
    valid_utf8,
};

verus! {

/// A character of a name with only the RFC 6901 escapes applied.
spec fn tilde_escape_char(c: char) -> Seq<char> {
    if c == '~' {
        seq!['~', '0']
    } else if c == '/' {
        seq!['~', '1']
    } else {
        seq![c]
    }
}

/// A name with only the RFC 6901 escapes applied.
spec fn tilde_escape_name(name: Seq<char>) -> Seq<char>
    decreases name.len(),
{
    if name.len() == 0 {
        name
    } else {
        tilde_escape_char(name[0]) + tilde_escape_name(name.skip(1))
    }
}

/// A name with only `~` escaped, as `~0`.
spec fn tilde_only_name(name: Seq<char>) -> Seq<char>
    decreases name.len(),
{
    if name.len() == 0 {
        name
    } else {
        (if name[0] == '~' {
            seq!['~', '0']
        } else {
            seq![name[0]]
        }) + tilde_only_name(name.skip(1))
    }
}

proof fn lemma_encode_concat(a: Seq<char>, b: Seq<char>)
    ensures
        encode_utf8(a + b) == encode_utf8(a) + encode_utf8(b),
    decreases a.len(),
{
    if a.len() > 0 {
        assert((a + b).drop_first() =~= a.drop_first() + b);
        lemma_encode_concat(a.drop_first(), b);
        assert(encode_utf8(a + b) =~= encode_utf8(a) + encode_utf8(b));
    } else {
        assert(a + b =~= b);
        assert(encode_utf8(a) =~= Seq::<u8>::empty());
        assert(encode_utf8(a) + encode_utf8(b) =~= encode_utf8(b));
    }
}

proof fn lemma_encode_one(c: char, v: u8)
    requires
        c as u32 == v as u32,
        v < 128,
    ensures
        encode_utf8(seq![c]) == seq![v],
{
    let u = c as u32;
    assert((u & 0x7F) as u8 == v) by (bit_vector)
        requires
            u == v as u32,
            v < 128,
    ;
    assert(seq![c].drop_first() =~= Seq::<char>::empty());
    assert(encode_utf8(seq![c].drop_first()) =~= Seq::<u8>::empty());
    assert(vstd::utf8::has_width_1_encoding(u));
    assert(encode_scalar(u) =~= seq![v]);
    assert(encode_utf8(seq![c]) == encode_scalar(seq![c][0] as u32) + encode_utf8(
        seq![c].drop_first(),
    ));
    assert(encode_utf8(seq![c]) =~= seq![v]);
}

proof fn lemma_scalar_without_percent(c: char)
    requires
        c != '%',
    ensures
        !encode_scalar(c as u32).contains(37u8),
{
    let v = c as u32;
    vstd::utf8::char_is_scalar(c);
    let bytes = encode_scalar(v);
    if vstd::utf8::has_width_1_encoding(v) {
        assert((v & 0x7F) as u8 != 37u8) by (bit_vector)
            requires
                v <= 0x7F,
                v != 37,
        ;
        assert(bytes =~= seq![(v & 0x7F) as u8]);
    } else {
        assert(forall|b: u8| #![auto] (0xC0u8 | b) != 37u8) by (bit_vector);
        assert(forall|b: u8| #![auto] (0xE0u8 | b) != 37u8) by (bit_vector);
        assert(forall|b: u8| #![auto] (0xF0u8 | b) != 37u8) by (bit_vector);
        assert(forall|b: u8| #![auto] (0x80u8 | b) != 37u8) by (bit_vector);
        assert(forall|k: int| 0 <= k < bytes.len() ==> bytes[k] != 37u8);
    }
}

proof fn lemma_encode_without_percent(s: Seq<char>)
    requires
        !s.contains('%'),
    ensures
        !encode_utf8(s).contains(37u8),
    decreases s.len(),
{
    if s.len() > 0 {
        assert(!s.drop_first().contains('%')) by {
            if s.drop_first().contains('%') {
                let k = choose|k: int| 0 <= k < s.drop_first().len() && s.drop_first()[k] == '%';
                assert(s[k + 1] == '%');
            }
        }
        lemma_encode_without_percent(s.drop_first());
        lemma_scalar_without_percent(s[0]);
        let head = encode_scalar(s[0] as u32);
        let tail = encode_utf8(s.drop_first());
        assert(encode_utf8(s) == head + tail);
        if (head + tail).contains(37u8) {
            let k = choose|k: int| 0 <= k < (head + tail).len() && (head + tail)[k] == 37u8;
            if k < head.len() {
                assert(head[k] == 37u8);
            } else {
                assert(tail[k - head.len()] == 37u8);
            }
        }
    }
}

proof fn lemma_decode_passes_through(u: Seq<u8>, r: Seq<u8>)
    requires
        !u.contains(37u8),
    ensures
        percent_decode(u + r) == u + percent_decode(r),
    decreases u.len(),
{
    if u.len() > 0 {
        assert(u[0] != 37u8);
        assert((u + r)[0] == u[0]);
        assert((u + r).skip(1) =~= u.skip(1) + r);
        assert(!u.skip(1).contains(37u8)) by {
            if u.skip(1).contains(37u8) {
                let k = choose|k: int| 0 <= k < u.skip(1).len() && u.skip(1)[k] == 37u8;
                assert(u[k + 1] == 37u8);
            }
        }
        lemma_decode_passes_through(u.skip(1), r);
        assert(seq![u[0]] + (u.skip(1) + percent_decode(r)) =~= u + percent_decode(r));
    } else {
        assert(u + r =~= r);
        assert(u + percent_decode(r) =~= percent_decode(r));
    }
}

proof fn lemma_escape_decodes(name: Seq<char>, r: Seq<u8>)
    ensures
        percent_decode(encode_utf8(escape_name(name)) + r) == encode_utf8(tilde_escape_name(name))
            + percent_decode(r),
    decreases name.len(),
{
    if name.len() == 0 {
        assert(encode_utf8(escape_name(name)) =~= Seq::<u8>::empty());
        assert(encode_utf8(tilde_escape_name(name)) =~= Seq::<u8>::empty());
        assert(Seq::<u8>::empty() + r =~= r);
        assert(Seq::<u8>::empty() + percent_decode(r) =~= percent_decode(r));
    } else {
        let c = name[0];
        let tail = name.skip(1);
        lemma_escape_decodes(tail, r);
        lemma_encode_concat(escape_char(c), escape_name(tail));
        lemma_encode_concat(tilde_escape_char(c), tilde_escape_name(tail));
        let rest = encode_utf8(escape_name(tail)) + r;
        if c == '%' {
            let three = seq!['%', '2', '5'];
            lemma_encode_one('%', 37u8);
            lemma_encode_one('2', 50u8);
            lemma_encode_one('5', 53u8);
            assert(three =~= seq!['%'] + (seq!['2'] + seq!['5']));
            lemma_encode_concat(seq!['2'], seq!['5']);
            lemma_encode_concat(seq!['%'], seq!['2'] + seq!['5']);
            assert(encode_utf8(three) =~= seq![37u8, 50u8, 53u8]);
            let bytes = seq![37u8, 50u8, 53u8] + rest;
            assert(bytes.skip(3) =~= rest);
            assert(percent_decode(encode_utf8(escape_name(name)) + r) =~= percent_decode(bytes)) by {
                assert(encode_utf8(escape_name(name)) + r =~= bytes);
            }
            assert(percent_decode(bytes) =~= seq![37u8] + percent_decode(rest));
        } else {
            assert(!escape_char(c).contains('%'));
            lemma_encode_without_percent(escape_char(c));
            assert(escape_char(c) == tilde_escape_char(c));
            lemma_decode_passes_through(encode_utf8(escape_char(c)), rest);
            assert(encode_utf8(escape_name(name)) + r =~= encode_utf8(escape_char(c)) + rest);
        }
    }
}

proof fn lemma_escape_without_percent(name: Seq<char>)
    requires
        !escape_name(name).contains('%'),
    ensures
        escape_name(name) == tilde_escape_name(name),
    decreases name.len(),
{
    if name.len() > 0 {
        let c = name[0];
        let tail = name.skip(1);
        assert(escape_name(name) == escape_char(c) + escape_name(tail));
        if c == '%' {
            assert(escape_name(name)[0] == '%');
        }
        assert(!escape_name(tail).contains('%')) by {
            if escape_name(tail).contains('%') {
                let k = choose|k: int| 0 <= k < escape_name(tail).len() && escape_name(tail)[k] == '%';
                assert(escape_name(name)[escape_char(c).len() + k] == '%');
            }
        }
        lemma_escape_without_percent(tail);
    }
}

/// Every `%` in an escaped name starts a percent-escape: the `%25` that
/// stands for a `%` of the name.
proof fn lemma_escaped_percent_starts_escape(name: Seq<char>, k: int)
    requires
        0 <= k < escape_name(name).len(),
        escape_name(name)[k] == '%',
    ensures
        escape_at(escape_name(name), k),
    decreases name.len(),
{
    let c = name[0];
    let tail = name.skip(1);
    let e = escape_char(c);
    assert(escape_name(name) == e + escape_name(tail));
    if k < e.len() {
        if c != '%' {
            assert(e[k] != '%');
        }
    } else {
        lemma_escaped_percent_starts_escape(tail, k - e.len());
    }
}

proof fn lemma_tilde_escape_has_no_slash(name: Seq<char>)
    ensures
        !tilde_escape_name(name).contains('/'),
    decreases name.len(),
{
    if name.len() > 0 {
        let c = name[0];
        let tail = name.skip(1);
        lemma_tilde_escape_has_no_slash(tail);
        let whole = tilde_escape_char(c) + tilde_escape_name(tail);
        if whole.contains('/') {
            let k = choose|k: int| 0 <= k < whole.len() && whole[k] == '/';
            if k >= tilde_escape_char(c).len() {
                assert(tilde_escape_name(tail)[k - tilde_escape_char(c).len()] == '/');
            }
        }
    }
}

proof fn lemma_unescape_slashes(name: Seq<char>)
    ensures
        replace_pair(tilde_escape_name(name), '~', '1', '/') == tilde_only_name(name),
    decreases name.len(),
{
    if name.len() > 0 {
        let c = name[0];
        let tail = name.skip(1);
        lemma_unescape_slashes(tail);
        let rest = tilde_escape_name(tail);
        let s = tilde_escape_char(c) + rest;
        if c == '~' {
            assert(s.skip(1) =~= seq!['0'] + rest);
            assert((seq!['0'] + rest).skip(1) =~= rest);
            assert(replace_pair(s.skip(1), '~', '1', '/') =~= seq!['0'] + replace_pair(
                rest,
                '~',
                '1',
                '/',
            ));
            assert(replace_pair(s, '~', '1', '/') =~= seq!['~', '0'] + tilde_only_name(tail));
        } else if c == '/' {
            assert(s.skip(2) =~= rest);
            assert(replace_pair(s, '~', '1', '/') =~= seq!['/'] + tilde_only_name(tail));
        } else {
            assert(s.skip(1) =~= rest);
            assert(replace_pair(s, '~', '1', '/') =~= seq![c] + tilde_only_name(tail));
        }
    }
}

proof fn lemma_unescape_tildes(name: Seq<char>)
    ensures
        replace_pair(tilde_only_name(name), '~', '0', '~') == name,
    decreases name.len(),
{
    if name.len() > 0 {
        let c = name[0];
        let tail = name.skip(1);
        lemma_unescape_tildes(tail);
        let rest = tilde_only_name(tail);
        if c == '~' {
            let s = seq!['~', '0'] + rest;
            assert(s.skip(2) =~= rest);
            assert(replace_pair(s, '~', '0', '~') =~= seq!['~'] + tail);
        } else {
            let s = seq![c] + rest;
            assert(s.skip(1) =~= rest);
            assert(replace_pair(s, '~', '0', '~') =~= seq![c] + tail);
        }
        assert(seq![c] + tail =~= name);
    }
}

proof fn lemma_split_at_first(a: Seq<char>, b: Seq<char>, c: char)
    requires
        !a.contains(c),
    ensures
        split_once(a + seq![c] + b, c) == Some((a, b)),
{
    let s = a + seq![c] + b;
    assert(s.take(a.len() as int) =~= a);
    lemma_first_index_extend(s, c, a.len());
    assert(s.skip(a.len() as int + 1) =~= b);
}

/// The pointer that [`crate::reference::pointer_for`] builds for a name in a
/// section parses back to that section and that very name, whatever
/// characters the name holds: `~`, `/` and `%` included.
pub proof fn law_pointer_round_trip(section: Section, name: Seq<char>)
    ensures
        parse_reference(pointer_to(section, name)) == Ok::<(Section, Seq<char>), Failure>(
            (section, name),
        ),
{
    reveal_strlit("#/");
    reveal_strlit("/");
    reveal_strlit("paths");
    reveal_strlit("components");
    law_section_pointer_round_trip(section);
    let escaped = escape_name(name);
    let tilde = tilde_escape_name(name);
    let head = section_pointer(section) + "/"@;
    let pointer = head + escaped;
    let reference = pointer_to(section, name);
    assert(reference =~= "#/"@ + pointer);
    assert(strip_prefix(reference, "#/"@) == Some(pointer)) by {
        assert(reference.skip(2) =~= pointer);
    }
    // The head of the pointer, the section's pointer and a slash, holds no `%`.
    assert(!head.contains('%')) by {
        reveal_strlit("components/callbacks");
        reveal_strlit("components/examples");
        reveal_strlit("components/headers");
        reveal_strlit("components/links");
        reveal_strlit("components/parameters");
        reveal_strlit("components/requestBodies");
        reveal_strlit("components/responses");
        reveal_strlit("components/schemas");
        reveal_strlit("components/securitySchemes");
        if head.contains('%') {
            let k = choose|k: int| 0 <= k < head.len() && head[k] == '%';
            assert(head[k] != '%');
        }
    }
    // Decoding the pointer gives the head and the name with its RFC 6901
    // escapes only.
    assert(decode_pointer(pointer) == Some(head + tilde)) by {
        if has_percent_escape(pointer) {
            lemma_encode_concat(head, escaped);
            lemma_encode_without_percent(head);
            lemma_decode_passes_through(encode_utf8(head), encode_utf8(escaped));
            lemma_escape_decodes(name, Seq::<u8>::empty());
            assert(percent_decode(Seq::<u8>::empty()) =~= Seq::<u8>::empty());
            assert(encode_utf8(escaped) + Seq::<u8>::empty() =~= encode_utf8(escaped));
            assert(encode_utf8(tilde) + Seq::<u8>::empty() =~= encode_utf8(tilde));
            lemma_encode_concat(head, tilde);
            encode_utf8_valid_utf8(head + tilde);
            encode_utf8_decode_utf8(head + tilde);
            assert(percent_decode_chars(pointer) == Some(head + tilde));
        } else {
            assert(!escaped.contains('%')) by {
                if escaped.contains('%') {
                    let k = choose|k: int| 0 <= k < escaped.len() && escaped[k] == '%';
                    lemma_escaped_percent_starts_escape(name, k);
                    assert(escape_at(pointer, head.len() + k));
                }
            }
            lemma_escape_without_percent(name);
        }
    }
    lemma_tilde_escape_has_no_slash(name);
    // Splitting the decoded pointer finds the section and the escaped name.
    assert(locate(head + tilde, reference) == Ok::<(Section, Seq<char>), Failure>(
        (section, tilde),
    )) by {
        if section == Section::Paths {
            assert(head + tilde =~= "paths"@ + seq!['/'] + tilde);
            assert(!"paths"@.contains('/')) by {
                assert("paths"@ =~= seq!['p', 'a', 't', 'h', 's']);
            }
            lemma_split_at_first("paths"@, tilde, '/');
            assert("paths"@ != "components"@);
        } else {
            reveal_strlit("components/");
            let segment = components_segment(section);
            assert(section_pointer(section) =~= "components/"@ + segment) by {
                reveal_strlit("callbacks");
                reveal_strlit("examples");
                reveal_strlit("headers");
                reveal_strlit("links");
                reveal_strlit("parameters");
                reveal_strlit("requestBodies");
                reveal_strlit("responses");
                reveal_strlit("schemas");
                reveal_strlit("securitySchemes");
                reveal_strlit("components/callbacks");
                reveal_strlit("components/examples");
                reveal_strlit("components/headers");
                reveal_strlit("components/links");
                reveal_strlit("components/parameters");
                reveal_strlit("components/requestBodies");
                reveal_strlit("components/responses");
                reveal_strlit("components/schemas");
                reveal_strlit("components/securitySchemes");
            }
            assert(!"components"@.contains('/')) by {
                assert("components"@ =~= seq!['c', 'o', 'm', 'p', 'o', 'n', 'e', 'n', 't', 's']);
            }
            assert(!segment.contains('/')) by {
                reveal_strlit("callbacks");
                reveal_strlit("examples");
                reveal_strlit("headers");
                reveal_strlit("links");
                reveal_strlit("parameters");
                reveal_strlit("requestBodies");
                reveal_strlit("responses");
                reveal_strlit("schemas");
                reveal_strlit("securitySchemes");
                if segment.contains('/') {
                    let k = choose|k: int| 0 <= k < segment.len() && segment[k] == '/';
                    assert(segment[k] != '/');
                }
            }
            assert(head + tilde =~= "components"@ + seq!['/'] + (segment + seq!['/'] + tilde)) by {
                assert("components/"@ =~= "components"@ + seq!['/']);
                assert("/"@ =~= seq!['/']);
            }
            lemma_split_at_first("components"@, segment + seq!['/'] + tilde, '/');
            lemma_split_at_first(segment, tilde, '/');
            assert(section_of_components_segment(segment) == Some(section)) by {
                assert(parse_section_pointer(section_pointer(section)) == Ok::<Section, Failure>(
                    section,
                ));
                assert(section_pointer(section) != "paths"@) by {
                    assert(section_pointer(section)[0] == 'c');
                    assert("paths"@[0] == 'p');
                }
                assert(strip_prefix(section_pointer(section), "components/"@) == Some(segment))
                    by {
                    assert(section_pointer(section).skip(11) =~= segment);
                }
            }
        }
    }
    lemma_unescape_slashes(name);
    lemma_unescape_tildes(name);
}

} // verus!
