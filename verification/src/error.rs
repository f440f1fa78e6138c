//! What can go wrong while resolving a `$ref`.

use crate::section::{section_pointer, Section};
use vstd::prelude::*;

verus! {

/// Everything that can go wrong while resolving a `$ref`.
///
/// The variants distinguish a broken document (a dangling name, a `$ref` to
/// the wrong kind of component) from a reference this crate structurally
/// cannot follow (another file, a pointer into the middle of a component), so
/// a caller can decide which ones are worth aborting on.
#[derive(Debug, Clone, PartialEq, Eq)]
#[non_exhaustive]
#[allow(inconsistent_fields)]
pub enum ResolveError {
    /// The reference is not a JSON pointer into the current document.
    NotALocalReference {
        /// The reference as it appeared in the document.
        reference: String,
    },
    /// The reference points into another document, which this crate does not load.
    ExternalDocument {
        /// The part of the reference before the `#`, e.g. `common.yaml`.
        document: String,
    },
    /// The reference is a local pointer but does not name a component: it has
    /// too few segments, or its percent-escapes do not decode to UTF-8.
    MalformedPointer {
        /// The reference as it appeared in the document.
        reference: String,
    },
    /// The pointer starts at a section of the document that cannot hold `$ref` targets.
    UnsupportedRootSection {
        /// The first pointer segment, e.g. `info`.
        section: String,
    },
    /// The pointer names a `#/components` sub-section that does not exist.
    UnknownSection {
        /// The offending segment, e.g. `request_bodies` instead of `requestBodies`.
        section: String,
    },
    /// The pointer names a component but the document has no `components` object.
    ComponentsMissing {
        /// The section the pointer asked for.
        section: Section,
    },
    /// The pointer is well formed but names something the section does not contain.
    NotFound {
        /// The section that was searched.
        section: Section,
        /// The component name, after decoding.
        name: String,
    },
    /// The pointer names a valid component of a different kind than the caller asked for.
    SectionMismatch {
        /// The section implied by the requested type.
        expected: Section,
        /// The section the pointer actually names.
        found: Section,
    },
    /// The pointer continues past a component, into its contents.
    PointerTooDeep {
        /// The reference as it appeared in the document.
        reference: String,
    },
    /// The chain of references never reached an inline item; the document is
    /// most likely cyclic.
    ReferenceChainTooLong {
        /// The reference the walk started from.
        reference: String,
        /// The reference the walk gave up on, which is where the cycle runs.
        last: String,
        /// The hop limit that was hit, [`crate::MAX_REFERENCE_HOPS`].
        max_hops: usize,
    },
    /// A component other than a schema contains, directly or through other
    /// components, a `$ref` back to itself, so it has no finite fully resolved
    /// form.
    CyclicReference {
        /// The `$ref` that closed the cycle.
        reference: String,
    },
    /// A discriminator on a `oneOf` or `anyOf` schema maps a value to a schema
    /// that is not one of the alternatives.
    DiscriminatorMappingMismatch {
        /// The discriminator's property name.
        property_name: String,
        /// The mapping key, i.e. the property value.
        value: String,
        /// The name of the schema the mapping value denotes.
        schema: String,
    },
}

/// The mathematical content of a [`ResolveError`]: the same variants, with
/// every string taken as its sequence of characters.
#[allow(inconsistent_fields)]
pub enum Failure {
    NotALocalReference { reference: Seq<char> },
    ExternalDocument { document: Seq<char> },
    MalformedPointer { reference: Seq<char> },
    UnsupportedRootSection { section: Seq<char> },
    UnknownSection { section: Seq<char> },
    ComponentsMissing { section: Section },
    NotFound { section: Section, name: Seq<char> },
    SectionMismatch { expected: Section, found: Section },
    PointerTooDeep { reference: Seq<char> },
    ReferenceChainTooLong { reference: Seq<char>, last: Seq<char>, max_hops: nat },
    CyclicReference { reference: Seq<char> },
    DiscriminatorMappingMismatch { property_name: Seq<char>, value: Seq<char>, schema: Seq<char> },
}

impl View for ResolveError {
    type V = Failure;

    open spec fn view(&self) -> Failure {
        match self {
            ResolveError::NotALocalReference { reference } => Failure::NotALocalReference {
                reference: reference@,
            },
            ResolveError::ExternalDocument { document } => Failure::ExternalDocument {
                document: document@,
            },
            ResolveError::MalformedPointer { reference } => Failure::MalformedPointer {
                reference: reference@,
            },
            ResolveError::UnsupportedRootSection { section } => Failure::UnsupportedRootSection {
                section: section@,
            },
            ResolveError::UnknownSection { section } => Failure::UnknownSection {
                section: section@,
            },
            ResolveError::ComponentsMissing { section } => Failure::ComponentsMissing {
                section: *section,
            },
            ResolveError::NotFound { section, name } => Failure::NotFound {
                section: *section,
                name: name@,
            },
            ResolveError::SectionMismatch { expected, found } => Failure::SectionMismatch {
                expected: *expected,
                found: *found,
            },
            ResolveError::PointerTooDeep { reference } => Failure::PointerTooDeep {
                reference: reference@,
            },
            ResolveError::ReferenceChainTooLong { reference, last, max_hops } =>
                Failure::ReferenceChainTooLong {
                reference: reference@,
                last: last@,
                max_hops: *max_hops as nat,
            },
            ResolveError::CyclicReference { reference } => Failure::CyclicReference {
                reference: reference@,
            },
            ResolveError::DiscriminatorMappingMismatch { property_name, value, schema } =>
                Failure::DiscriminatorMappingMismatch {
                property_name: property_name@,
                value: value@,
                schema: schema@,
            },
        }
    }
}

/// The decimal digit for `d`.
pub open spec fn digit_char(d: nat) -> char {
    if d == 0 { '0' } else if d == 1 { '1' } else if d == 2 { '2' } else if d == 3 { '3' }
    else if d == 4 { '4' } else if d == 5 { '5' } else if d == 6 { '6' } else if d == 7 { '7' }
    else if d == 8 { '8' } else { '9' }
}

/// The decimal representation of `n`, without leading zeros.
pub open spec fn decimal(n: nat) -> Seq<char>
    decreases n,
{
    if n < 10 {
        seq![digit_char(n)]
    } else {
        decimal(n / 10).push(digit_char(n % 10))
    }
}

fn digit_str(d: usize) -> (s: &'static str)
    requires
        d < 10,
    ensures
        s@ == seq![digit_char(d as nat)],
{
    proof {
        reveal_strlit("0");
        reveal_strlit("1");
        reveal_strlit("2");
        reveal_strlit("3");
        reveal_strlit("4");
        reveal_strlit("5");
        reveal_strlit("6");
        reveal_strlit("7");
        reveal_strlit("8");
        reveal_strlit("9");
    }
    let s = if d == 0 { "0" } else if d == 1 { "1" } else if d == 2 { "2" } else if d == 3 { "3" }
    else if d == 4 { "4" } else if d == 5 { "5" } else if d == 6 { "6" } else if d == 7 { "7" }
    else if d == 8 { "8" } else { "9" };
    assert(s@ =~= seq![digit_char(d as nat)]);
    s
}

/// Appends the decimal representation of `n` to `out`.
fn push_decimal(out: &mut String, n: usize)
    ensures
        final(out)@ == old(out)@ + decimal(n as nat),
    decreases n,
{
    if n >= 10 {
        push_decimal(out, n / 10);
    }
    out.append(digit_str(n % 10));
    assert(final(out)@ =~= old(out)@ + decimal(n as nat));
}

/// The message a [`ResolveError`] with content `failure` renders as.
pub open spec fn failure_message(failure: Failure) -> Seq<char> {
    match failure {
        Failure::NotALocalReference { reference } => "`"@ + reference
            + "` is not a local JSON pointer (expected `#/...`)"@,
        Failure::ExternalDocument { document } => "reference points into `"@ + document
            + "`, which is a separate document"@,
        Failure::MalformedPointer { reference } => "`"@ + reference + "` does not name a component"@,
        Failure::UnsupportedRootSection { section } => "cannot resolve references into `"@ + section
            + "`"@,
        Failure::UnknownSection { section } => "`"@ + section
            + "` is not a known section of `#/components`"@,
        Failure::ComponentsMissing { section } => "document has no `components` object to look up `"@
            + section_pointer(section) + "` in"@,
        Failure::NotFound { section, name } => "`"@ + section_pointer(section)
            + "` does not contain `"@ + name + "`"@,
        Failure::SectionMismatch { expected, found } => "expected a reference into `"@
            + section_pointer(expected) + "` but got one into `"@ + section_pointer(found) + "`"@,
        Failure::PointerTooDeep { reference } => "`"@ + reference
            + "` points inside a component; only whole components resolve"@,
        Failure::ReferenceChainTooLong { reference, last, max_hops } => "`"@ + reference
            + "` did not reach an item within "@ + decimal(max_hops) + " hops, still at `"@ + last
            + "` (cyclic?)"@,
        Failure::CyclicReference { reference } => "`"@ + reference
            + "` refers back to a component that contains it; a cyclic document cannot be fully resolved"@,
        Failure::DiscriminatorMappingMismatch { property_name, value, schema } =>
            "discriminator `"@ + property_name + "` maps `"@ + value + "` to `"@ + schema
            + "`, which is not one of the alternatives"@,
    }
}

/// What each kind of failure is about: the part of the document or of the
/// reference that its message has to name.
pub open spec fn failure_subject(failure: Failure) -> Seq<char> {
    match failure {
        Failure::NotALocalReference { reference } => reference,
        Failure::ExternalDocument { document } => document,
        Failure::MalformedPointer { reference } => reference,
        Failure::UnsupportedRootSection { section } => section,
        Failure::UnknownSection { section } => section,
        Failure::ComponentsMissing { section } => section_pointer(section),
        Failure::NotFound { name, .. } => name,
        Failure::SectionMismatch { found, .. } => section_pointer(found),
        Failure::PointerTooDeep { reference } => reference,
        Failure::ReferenceChainTooLong { last, .. } => last,
        Failure::CyclicReference { reference } => reference,
        Failure::DiscriminatorMappingMismatch { schema, .. } => schema,
    }
}

/// Whether `part` occurs in `whole` as a contiguous run of characters.
pub open spec fn occurs_in(part: Seq<char>, whole: Seq<char>) -> bool {
    exists|start: int|
        0 <= start && start + part.len() <= whole.len() && #[trigger] whole.subrange(
            start,
            start + part.len(),
        ) == part
}

proof fn lemma_occurs_between(before: Seq<char>, part: Seq<char>, after: Seq<char>)
    ensures
        occurs_in(part, before + part + after),
{
    let whole = before + part + after;
    assert(whole.subrange(before.len() as int, (before.len() + part.len()) as int) =~= part);
}

/// Every error's message names its cause: the reference, document, section,
/// name or schema that the error is about occurs in the message.
pub proof fn law_message_names_its_cause(failure: Failure)
    ensures
        occurs_in(failure_subject(failure), failure_message(failure)),
{
    match failure {
        Failure::NotALocalReference { reference } => lemma_occurs_between(
            "`"@,
            reference,
            "` is not a local JSON pointer (expected `#/...`)"@,
        ),
        Failure::ExternalDocument { document } => lemma_occurs_between(
            "reference points into `"@,
            document,
            "`, which is a separate document"@,
        ),
        Failure::MalformedPointer { reference } => lemma_occurs_between(
            "`"@,
            reference,
            "` does not name a component"@,
        ),
        Failure::UnsupportedRootSection { section } => lemma_occurs_between(
            "cannot resolve references into `"@,
            section,
            "`"@,
        ),
        Failure::UnknownSection { section } => lemma_occurs_between(
            "`"@,
            section,
            "` is not a known section of `#/components`"@,
        ),
        Failure::ComponentsMissing { section } => lemma_occurs_between(
            "document has no `components` object to look up `"@,
            section_pointer(section),
            "` in"@,
        ),
        Failure::NotFound { section, name } => {
            let before = "`"@ + section_pointer(section) + "` does not contain `"@;
            lemma_occurs_between(before, name, "`"@);
        },
        Failure::SectionMismatch { expected, found } => {
            let before = "expected a reference into `"@ + section_pointer(expected)
                + "` but got one into `"@;
            lemma_occurs_between(before, section_pointer(found), "`"@);
        },
        Failure::PointerTooDeep { reference } => lemma_occurs_between(
            "`"@,
            reference,
            "` points inside a component; only whole components resolve"@,
        ),
        Failure::ReferenceChainTooLong { reference, last, max_hops } => {
            let before = "`"@ + reference + "` did not reach an item within "@ + decimal(max_hops)
                + " hops, still at `"@;
            lemma_occurs_between(before, last, "` (cyclic?)"@);
        },
        Failure::CyclicReference { reference } => lemma_occurs_between(
            "`"@,
            reference,
            "` refers back to a component that contains it; a cyclic document cannot be fully resolved"@,
        ),
        Failure::DiscriminatorMappingMismatch { property_name, value, schema } => {
            let before = "discriminator `"@ + property_name + "` maps `"@ + value + "` to `"@;
            lemma_occurs_between(before, schema, "`, which is not one of the alternatives"@);
        },
    }
}

/// Which kind of failure `failure` is, numbered in declaration order.
pub open spec fn failure_kind(failure: Failure) -> nat {
    match failure {
        Failure::NotALocalReference { .. } => 0,
        Failure::ExternalDocument { .. } => 1,
        Failure::MalformedPointer { .. } => 2,
        Failure::UnsupportedRootSection { .. } => 3,
        Failure::UnknownSection { .. } => 4,
        Failure::ComponentsMissing { .. } => 5,
        Failure::NotFound { .. } => 6,
        Failure::SectionMismatch { .. } => 7,
        Failure::PointerTooDeep { .. } => 8,
        Failure::ReferenceChainTooLong { .. } => 9,
        Failure::CyclicReference { .. } => 10,
        Failure::DiscriminatorMappingMismatch { .. } => 11,
    }
}

/// The character `k` places before the last one of `m`.
pub open spec fn char_from_end(m: Seq<char>, k: int) -> char {
    m[m.len() - 1 - k]
}

/// The fixed characters at the ends of each kind of message, by which the
/// kinds tell apart.
proof fn lemma_message_marks(failure: Failure)
    ensures
        ({
            let m = failure_message(failure);
            let n = m.len() as int;
            &&& n >= 2
            &&& match failure {
                Failure::NotALocalReference { .. } => m[0] == '`' && m[n - 1] == ')' && m[n - 2]
                    == '`',
                Failure::ExternalDocument { .. } => m[0] == 'r',
                Failure::MalformedPointer { .. } => m[0] == '`' && m[n - 1] == 't',
                Failure::UnsupportedRootSection { .. } => m[0] == 'c',
                Failure::UnknownSection { .. } => {
                    &&& m[0] == '`'
                    &&& n >= 16
                    &&& char_from_end(m, 0) == '`'
                    &&& char_from_end(m, 13) == '`'
                    &&& char_from_end(m, 15) == 'f'
                    &&& forall|k: int| 1 <= k <= 12 ==> #[trigger] char_from_end(m, k) != '`'
                },
                Failure::ComponentsMissing { .. } => m[0] == 'd' && m[1] == 'o',
                Failure::NotFound { name, .. } => {
                    &&& m[0] == '`'
                    &&& n >= name.len() + 4
                    &&& char_from_end(m, 0) == '`'
                    &&& char_from_end(m, name.len() + 1int) == '`'
                    &&& char_from_end(m, name.len() + 3int) == 'n'
                    &&& forall|j: int|
                        0 <= j < name.len() ==> #[trigger] char_from_end(m, name.len() - j)
                            == name[j]
                },
                Failure::SectionMismatch { .. } => m[0] == 'e',
                Failure::PointerTooDeep { .. } => m[0] == '`' && m[n - 1] == 'e',
                Failure::ReferenceChainTooLong { .. } => m[0] == '`' && m[n - 1] == ')' && m[n - 2]
                    == '?',
                Failure::CyclicReference { .. } => m[0] == '`' && m[n - 1] == 'd',
                Failure::DiscriminatorMappingMismatch { .. } => m[0] == 'd' && m[1] == 'i',
            }
        }),
{
    reveal_strlit("`");
    let m = failure_message(failure);
    match failure {
        Failure::NotALocalReference { reference } => {
            let tail = "` is not a local JSON pointer (expected `#/...`)"@;
            reveal_strlit("` is not a local JSON pointer (expected `#/...`)");
            assert(m == "`"@ + reference + tail);
        },
        Failure::ExternalDocument { document } => {
            reveal_strlit("reference points into `");
        },
        Failure::MalformedPointer { reference } => {
            reveal_strlit("` does not name a component");
        },
        Failure::UnsupportedRootSection { section } => {
            reveal_strlit("cannot resolve references into `");
        },
        Failure::UnknownSection { section } => {
            let tail = "` is not a known section of `#/components`"@;
            reveal_strlit("` is not a known section of `#/components`");
            assert(m == ("`"@ + section) + tail);
            assert forall|k: int| 0 <= k <= 15 implies #[trigger] char_from_end(m, k) == tail[tail.len()
                - 1 - k] by {}
        },
        Failure::ComponentsMissing { section } => {
            reveal_strlit("document has no `components` object to look up `");
        },
        Failure::NotFound { section, name } => {
            let head = "`"@ + section_pointer(section) + "` does not contain `"@;
            reveal_strlit("` does not contain `");
            let c = "` does not contain `"@;
            assert(m == head + name + "`"@);
            assert(head.len() >= 3);
            assert(head[head.len() - 1] == c[c.len() - 1]);
            assert(head[head.len() - 3] == c[c.len() - 3]);
            assert(char_from_end(m, name.len() + 1int) == head[head.len() - 1]);
            assert(char_from_end(m, name.len() + 3int) == head[head.len() - 3]);
            assert forall|j: int| 0 <= j < name.len() implies #[trigger] char_from_end(
                m,
                name.len() - j,
            ) == name[j] by {
                assert(m[head.len() + j] == name[j]);
            }
        },
        Failure::SectionMismatch { expected, found } => {
            reveal_strlit("expected a reference into `");
        },
        Failure::PointerTooDeep { reference } => {
            reveal_strlit("` points inside a component; only whole components resolve");
        },
        Failure::ReferenceChainTooLong { reference, last, max_hops } => {
            reveal_strlit("` (cyclic?)");
        },
        Failure::CyclicReference { reference } => {
            reveal_strlit(
                "` refers back to a component that contains it; a cyclic document cannot be fully resolved",
            );
        },
        Failure::DiscriminatorMappingMismatch { property_name, value, schema } => {
            reveal_strlit("discriminator `");
        },
    }
}

/// Errors of different kinds render different messages, so a message tells
/// which kind of failure it reports. This holds as long as the name of a
/// `NotFound` error holds no backtick: a name that does could make its
/// message spell out that of an `UnknownSection` error.
pub proof fn law_kinds_render_distinct_messages(a: Failure, b: Failure)
    requires
        failure_kind(a) != failure_kind(b),
        a matches Failure::NotFound { name, .. } ==> !name.contains('`'),
        b matches Failure::NotFound { name, .. } ==> !name.contains('`'),
    ensures
        failure_message(a) != failure_message(b),
{
    lemma_message_marks(a);
    lemma_message_marks(b);
    if failure_message(a) == failure_message(b) {
        let m = failure_message(a);
        if let Failure::NotFound { name, .. } = a {
            if b is UnknownSection {
                if name.len() >= 13 {
                    let j = name.len() - 13;
                    assert(char_from_end(m, name.len() - j) == name[j]);
                } else if name.len() < 12 {
                    assert(char_from_end(m, name.len() + 1int) == '`');
                }
            }
        }
        if let Failure::NotFound { name, .. } = b {
            if a is UnknownSection {
                if name.len() >= 13 {
                    let j = name.len() - 13;
                    assert(char_from_end(m, name.len() - j) == name[j]);
                } else if name.len() < 12 {
                    assert(char_from_end(m, name.len() + 1int) == '`');
                }
            }
        }
    }
}

impl ResolveError {
    /// The message this error renders as, naming its cause.
    pub fn message(&self) -> (text: String)
        ensures
            text@ == failure_message(self@),
    {
        let mut out = String::new();
        match self {
            ResolveError::NotALocalReference { reference } => {
                out.append("`");
                out.append(reference.as_str());
                out.append("` is not a local JSON pointer (expected `#/...`)");
            },
            ResolveError::ExternalDocument { document } => {
                out.append("reference points into `");
                out.append(document.as_str());
                out.append("`, which is a separate document");
            },
            ResolveError::MalformedPointer { reference } => {
                out.append("`");
                out.append(reference.as_str());
                out.append("` does not name a component");
            },
            ResolveError::UnsupportedRootSection { section } => {
                out.append("cannot resolve references into `");
                out.append(section.as_str());
                out.append("`");
            },
            ResolveError::UnknownSection { section } => {
                out.append("`");
                out.append(section.as_str());
                out.append("` is not a known section of `#/components`");
            },
            ResolveError::ComponentsMissing { section } => {
                out.append("document has no `components` object to look up `");
                out.append(section.as_pointer());
                out.append("` in");
            },
            ResolveError::NotFound { section, name } => {
                out.append("`");
                out.append(section.as_pointer());
                out.append("` does not contain `");
                out.append(name.as_str());
                out.append("`");
            },
            ResolveError::SectionMismatch { expected, found } => {
                out.append("expected a reference into `");
                out.append(expected.as_pointer());
                out.append("` but got one into `");
                out.append(found.as_pointer());
                out.append("`");
            },
            ResolveError::PointerTooDeep { reference } => {
                out.append("`");
                out.append(reference.as_str());
                out.append("` points inside a component; only whole components resolve");
            },
            ResolveError::ReferenceChainTooLong { reference, last, max_hops } => {
                out.append("`");
                out.append(reference.as_str());
                out.append("` did not reach an item within ");
                push_decimal(&mut out, *max_hops);
                out.append(" hops, still at `");
                out.append(last.as_str());
                out.append("` (cyclic?)");
            },
            ResolveError::CyclicReference { reference } => {
                out.append("`");
                out.append(reference.as_str());
                out.append(
                    "` refers back to a component that contains it; a cyclic document cannot be fully resolved",
                );
            },
            ResolveError::DiscriminatorMappingMismatch { property_name, value, schema } => {
                out.append("discriminator `");
                out.append(property_name.as_str());
                out.append("` maps `");
                out.append(value.as_str());
                out.append("` to `");
                out.append(schema.as_str());
                out.append("`, which is not one of the alternatives");
            },
        }
        assert(out@ =~= failure_message(self@));
        out
    }
}

} // verus!
