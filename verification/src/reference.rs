//! Parsing `$ref` pointers into the section and the name they denote.

use crate::error::{Failure, ResolveError};
use crate::section::{section_of_components_segment, Section};
use crate::text::{
    contains_char, escape_at, has_percent_escape, has_percent_escape_str, percent_decode_chars, percent_decode_str, replace_pair, replace_pair_str,
    split_once, split_once_char, strip_prefix, strip_prefix_str,
};
use std::borrow::Cow;
use vstd::prelude::*;

verus! {

/// RFC 6901 unescaping: `~1` becomes `/` and then `~0` becomes `~`, in that
/// order, so `~01` comes out as `~1` rather than `/`.
pub open spec fn unescape_name(segment: Seq<char>) -> Seq<char> {
    replace_pair(replace_pair(segment, '~', '1', '/'), '~', '0', '~')
}

/// The pointer body after `#/` with its percent-escapes decoded. Only a body
/// that holds an escape (`%` and two hexadecimal digits) is decoded; a `%`
/// that starts no escape stays as it is. `None` when the decoded bytes are not
/// UTF-8.
pub open spec fn decode_pointer(pointer: Seq<char>) -> Option<Seq<char>> {
    if has_percent_escape(pointer) {
        percent_decode_chars(pointer)
    } else {
        Some(pointer)
    }
}

/// The section and the still-escaped name that a decoded pointer body names;
/// `reference` is the whole reference, for the errors that quote it.
pub open spec fn locate(pointer: Seq<char>, reference: Seq<char>) -> Result<
    (Section, Seq<char>),
    Failure,
> {
    match split_once(pointer, '/') {
        None => Err(Failure::MalformedPointer { reference }),
        Some((root, rest)) => {
            let located = if root == "components"@ {
                match split_once(rest, '/') {
                    None => Err(Failure::MalformedPointer { reference }),
                    Some((segment, name)) => match section_of_components_segment(segment) {
                        None => Err(Failure::UnknownSection { section: segment }),
                        Some(section) => Ok((section, name)),
                    },
                }
            } else if root == "paths"@ {
                Ok((Section::Paths, rest))
            } else {
                Err(Failure::UnsupportedRootSection { section: root })
            };
            match located {
                Ok((section, name)) => if name.contains('/') {
                    Err(Failure::PointerTooDeep { reference })
                } else {
                    Ok((section, name))
                },
                Err(e) => Err(e),
            }
        },
    }
}

/// What a `$ref` string denotes: the section and the decoded component name,
/// or why it names none.
pub open spec fn parse_reference(reference: Seq<char>) -> Result<(Section, Seq<char>), Failure> {
    match strip_prefix(reference, "#/"@) {
        None => match split_once(reference, '#') {
            Some((document, _)) => if document.len() > 0 {
                Err(Failure::ExternalDocument { document })
            } else {
                Err(Failure::NotALocalReference { reference })
            },
            None => Err(Failure::NotALocalReference { reference }),
        },
        Some(pointer) => match decode_pointer(pointer) {
            None => Err(Failure::MalformedPointer { reference }),
            Some(decoded) => match locate(decoded, reference) {
                Ok((section, name)) => Ok((section, unescape_name(name))),
                Err(e) => Err(e),
            },
        },
    }
}

/// A parsed `$ref` pointer: the section it names and the (decoded) name within it.
#[derive(Debug, PartialEq, Eq)]
pub struct ComponentRef<'a> {
    /// The section the pointer names.
    pub section: Section,
    /// The component name, with percent-escapes and JSON pointer escapes
    /// (`~0`, `~1`) resolved.
    pub name: Cow<'a, str>,
}

impl<'a> Clone for ComponentRef<'a> {
    fn clone(&self) -> (copy: Self)
        ensures
            copy.section == self.section,
            copy.name@ == self.name@,
    {
        let name = match &self.name {
            Cow::Borrowed(name) => Cow::Borrowed(*name),
            Cow::Owned(name) => Cow::Owned(name.clone()),
        };
        ComponentRef { section: self.section, name }
    }
}

/// Borrows the text of a name.
pub fn name_str<'b>(name: &'b Cow<'_, str>) -> (text: &'b str)
    ensures
        text@ == name@,
{
    match name {
        Cow::Borrowed(text) => text,
        Cow::Owned(text) => text.as_str(),
    }
}

/// Takes ownership of the text of a name.
pub fn name_into_string(name: Cow<'_, str>) -> (text: String)
    ensures
        text@ == name@,
{
    match name {
        Cow::Borrowed(text) => text.to_owned(),
        Cow::Owned(text) => text,
    }
}

/// Resolves RFC 6901 escapes in `segment`; borrows it when there are none.
pub fn unescape(segment: &str) -> (name: Cow<'_, str>)
    ensures
        name@ == unescape_name(segment@),
        name matches Cow::Borrowed(_) <==> !segment@.contains('~'),
{
    if contains_char(segment, '~') {
        Cow::Owned(unescape_owned(segment))
    } else {
        proof {
            lemma_replace_pair_without(segment@, '~', '1', '/');
            lemma_replace_pair_without(segment@, '~', '0', '~');
        }
        Cow::Borrowed(segment)
    }
}

/// Resolves RFC 6901 escapes in `segment` into a new string.
fn unescape_owned(segment: &str) -> (name: String)
    ensures
        name@ == unescape_name(segment@),
{
    proof {
        reveal_strlit("/");
        reveal_strlit("~");
    }
    let slashes = replace_pair_str(segment, '~', '1', "/");
    replace_pair_str(slashes.as_str(), '~', '0', "~")
}

/// A sequence that does not hold `a` is left alone by replacing `a` `b`.
pub proof fn lemma_replace_pair_without(s: Seq<char>, a: char, b: char, r: char)
    requires
        !s.contains(a),
    ensures
        replace_pair(s, a, b, r) == s,
    decreases s.len(),
{
    if s.len() > 0 {
        assert(s[0] != a);
        assert(!s.skip(1).contains(a)) by {
            if s.skip(1).contains(a) {
                let k = choose|k: int| 0 <= k < s.skip(1).len() && s.skip(1)[k] == a;
                assert(s[k + 1] == a);
            }
        }
        lemma_replace_pair_without(s.skip(1), a, b, r);
        assert(seq![s[0]] + s.skip(1) =~= s);
    }
}

/// Splits a decoded pointer body into its section and still-escaped name.
fn locate_name<'b>(pointer: &'b str, reference: &str) -> (located: Result<
    (Section, &'b str),
    ResolveError,
>)
    ensures
        match located {
            Ok((section, name)) => locate(pointer@, reference@) == Ok::<
                (Section, Seq<char>),
                Failure,
            >((section, name@)),
            Err(e) => locate(pointer@, reference@) == Err::<(Section, Seq<char>), Failure>(e@),
        },
{
    let (root, rest) = match split_once_char(pointer, '/') {
        Some(parts) => parts,
        None => {
            return Err(ResolveError::MalformedPointer { reference: reference.to_owned() });
        },
    };
    let (section, name) = if crate::text::str_eq(root, "components") {
        let (segment, name) = match split_once_char(rest, '/') {
            Some(parts) => parts,
            None => {
                return Err(ResolveError::MalformedPointer { reference: reference.to_owned() });
            },
        };
        match Section::from_components_segment(segment) {
            Some(section) => (section, name),
            None => {
                return Err(ResolveError::UnknownSection { section: segment.to_owned() });
            },
        }
    } else if crate::text::str_eq(root, "paths") {
        (Section::Paths, rest)
    } else {
        return Err(ResolveError::UnsupportedRootSection { section: root.to_owned() });
    };
    if contains_char(name, '/') {
        return Err(ResolveError::PointerTooDeep { reference: reference.to_owned() });
    }
    Ok((section, name))
}

/// The still-escaped name that a `$ref` names, read without percent-decoding:
/// the last segment of the pointer after `#/`.
pub open spec fn escaped_name(reference: Seq<char>) -> Option<Seq<char>> {
    match strip_prefix(reference, "#/"@) {
        Some(pointer) => match locate(pointer, reference) {
            Ok((_, raw)) => Some(raw),
            Err(_) => None,
        },
        None => None,
    }
}

impl<'a> ComponentRef<'a> {
    /// Parses a `$ref` string such as `#/components/schemas/Pet`.
    ///
    /// The part after `#/` is percent-decoded first when it holds a `%XX`
    /// escape, then split into segments, and the name is RFC 6901 unescaped.
    /// The name is borrowed from `reference` unless an escape was decoded.
    pub fn parse(reference: &'a str) -> (parsed: Result<ComponentRef<'a>, ResolveError>)
        ensures
            match parsed {
                Ok(c) => parse_reference(reference@) == Ok::<(Section, Seq<char>), Failure>(
                    (c.section, c.name@),
                ),
                Err(e) => parse_reference(reference@) == Err::<(Section, Seq<char>), Failure>(
                    e@,
                ),
            },
            !reference@.contains('%') && !reference@.contains('~') ==> (parsed matches Ok(c)
                ==> c.name matches Cow::Borrowed(_)),
            parsed matches Ok(c) ==> (c.name matches Cow::Owned(_) <==> (has_percent_escape(
                reference@,
            ) || (escaped_name(reference@) matches Some(raw) && raw.contains('~')))),
    {
        let pointer = match strip_prefix_str(reference, "#/") {
            Some(pointer) => pointer,
            None => {
                return Err(
                    match split_once_char(reference, '#') {
                        Some((document, _)) => if document.unicode_len() > 0 {
                            ResolveError::ExternalDocument { document: document.to_owned() }
                        } else {
                            ResolveError::NotALocalReference { reference: reference.to_owned() }
                        },
                        None => ResolveError::NotALocalReference {
                            reference: reference.to_owned(),
                        },
                    },
                );
            },
        };
        proof {
            reveal_strlit("#/");
            assert(pointer@ =~= reference@.skip(2));
            assert("#/"@[0] == '#' && "#/"@[1] == '/');
            assert(has_percent_escape(reference@) == has_percent_escape(pointer@)) by {
                if has_percent_escape(reference@) {
                    let k = choose|k: int| escape_at(reference@, k);
                    assert(k >= 2);
                    assert(escape_at(pointer@, k - 2));
                }
                if has_percent_escape(pointer@) {
                    let k = choose|k: int| escape_at(pointer@, k);
                    assert(escape_at(reference@, k + 2));
                }
            }
            if !reference@.contains('%') {
                assert(!pointer@.contains('%')) by {
                    if pointer@.contains('%') {
                        let k = choose|k: int| 0 <= k < pointer@.len() && pointer@[k] == '%';
                        assert(reference@[k + 2] == '%');
                    }
                }
                assert(!has_percent_escape(pointer@)) by {
                    if has_percent_escape(pointer@) {
                        let k = choose|k: int| escape_at(pointer@, k);
                        assert(pointer@[k] == '%');
                    }
                }
            }
        }
        if has_percent_escape_str(pointer) {
            let decoded = match percent_decode_str(pointer) {
                Some(decoded) => decoded,
                None => {
                    return Err(ResolveError::MalformedPointer { reference: reference.to_owned() });
                },
            };
            let (section, name) = locate_name(decoded.as_str(), reference)?;
            Ok(ComponentRef { section, name: Cow::Owned(unescape_owned(name)) })
        } else {
            let (section, name) = locate_name(pointer, reference)?;
            proof {
                if !reference@.contains('~') {
                    lemma_split_keeps_out(pointer@, reference@, '~');
                }
            }
            Ok(ComponentRef { section, name: unescape(name) })
        }
    }
}

/// A character absent from the whole reference is absent from the name that
/// `locate` finds in its pointer body.
proof fn lemma_split_keeps_out(pointer: Seq<char>, reference: Seq<char>, c: char)
    requires
        !pointer.contains(c),
    ensures
        locate(pointer, reference) matches Ok((_, name)) ==> !name.contains(c),
{
    crate::text::lemma_first_index_some(pointer, '/');
    if let Some((root, rest)) = split_once(pointer, '/') {
        assert(!rest.contains(c)) by {
            if rest.contains(c) {
                let k = choose|k: int| 0 <= k < rest.len() && rest[k] == c;
                let i = crate::text::first_index(pointer, '/')->0;
                assert(pointer[i + 1 + k] == c);
            }
        }
        crate::text::lemma_first_index_some(rest, '/');
        if let Some((segment, name)) = split_once(rest, '/') {
            assert(!name.contains(c)) by {
                if name.contains(c) {
                    let k = choose|k: int| 0 <= k < name.len() && name[k] == c;
                    let i = crate::text::first_index(rest, '/')->0;
                    assert(rest[i + 1 + k] == c);
                }
            }
        }
    }
}

/// What one character of a name becomes in a pointer: `~` and `/` take their
/// RFC 6901 escapes, and `%` its percent-escape, since pointers are
/// percent-decoded before they are split.
pub open spec fn escape_char(c: char) -> Seq<char> {
    if c == '~' {
        seq!['~', '0']
    } else if c == '/' {
        seq!['~', '1']
    } else if c == '%' {
        seq!['%', '2', '5']
    } else {
        seq![c]
    }
}

/// A component name as it is written in a pointer.
pub open spec fn escape_name(name: Seq<char>) -> Seq<char>
    decreases name.len(),
{
    if name.len() == 0 {
        name
    } else {
        escape_char(name[0]) + escape_name(name.skip(1))
    }
}

/// The pointer that names `name` in `section`.
pub open spec fn pointer_to(section: Section, name: Seq<char>) -> Seq<char> {
    "#/"@ + crate::section::section_pointer(section) + "/"@ + escape_name(name)
}

/// Escapes `name` for use as the last segment of a pointer.
pub fn escape(name: &str) -> (escaped: String)
    ensures
        escaped@ == escape_name(name@),
{
    let n = name.unicode_len();
    let mut out = String::new();
    let mut i: usize = 0;
    assert(name@.skip(0) =~= name@);
    while i < n
        invariant
            n == name@.len(),
            i <= n,
            out@ + escape_name(name@.skip(i as int)) == escape_name(name@),
        decreases n - i,
    {
        let ghost rest = name@.skip(i as int);
        let c = name.get_char(i);
        assert(rest.skip(1) =~= name@.skip(i + 1));
        assert(escape_name(rest) == escape_char(c) + escape_name(name@.skip(i + 1)));
        proof {
            reveal_strlit("~0");
            reveal_strlit("~1");
            reveal_strlit("%25");
        }
        assert("~0"@ =~= seq!['~', '0'] && "~1"@ =~= seq!['~', '1'] && "%25"@ =~= seq![
            '%',
            '2',
            '5',
        ]);
        if c == '~' {
            out.append("~0");
        } else if c == '/' {
            out.append("~1");
        } else if c == '%' {
            out.append("%25");
        } else {
            let one = name.substring_char(i, i + 1);
            assert(one@ =~= seq![c]);
            out.append(one);
        }
        assert(out@ + escape_name(name@.skip(i + 1)) =~= escape_name(name@));
        i = i + 1;
    }
    assert(name@.skip(n as int) =~= Seq::<char>::empty());
    assert(out@ =~= escape_name(name@));
    out
}

/// The pointer that names `name` in `section`, e.g. `#/components/schemas/Pet`.
pub fn pointer_for(section: Section, name: &str) -> (pointer: String)
    ensures
        pointer@ == pointer_to(section, name@),
{
    let mut pointer = String::new();
    pointer.append("#/");
    pointer.append(section.as_pointer());
    pointer.append("/");
    let escaped = escape(name);
    pointer.append(escaped.as_str());
    assert(pointer@ =~= pointer_to(section, name@));
    pointer
}

} // verus!
