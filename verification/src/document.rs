//! What a document holds as far as `$ref`s are concerned, and following
//! references through it.

use crate::error::{Failure, ResolveError};
use crate::pointer_laws::law_pointer_round_trip;
use crate::reference::{name_into_string, name_str, parse_reference, pointer_to, ComponentRef};
use crate::section::Section;
use crate::table::{table_entries, table_get, table_insert, table_new, Entry};
use crate::MAX_REFERENCE_HOPS;
use indexmap::IndexMap;
use std::borrow::Cow;
use vstd::prelude::*;

verus! {

/// The entries of a section, by name: `None` for an inline item, the pointer
/// for a `$ref`.
pub type SectionEntries = Map<Seq<char>, Option<Seq<char>>>;

/// The reference structure of a document: for every section that `$ref`s can
/// name, which names it holds and whether each is an inline item or a `$ref`.
///
/// The nine `components` sections exist only when the document has a
/// `components` object; `paths` always exists.
pub struct DocumentIndex {
    components: bool,
    callbacks: IndexMap<String, Entry>,
    examples: IndexMap<String, Entry>,
    headers: IndexMap<String, Entry>,
    links: IndexMap<String, Entry>,
    parameters: IndexMap<String, Entry>,
    request_bodies: IndexMap<String, Entry>,
    responses: IndexMap<String, Entry>,
    schemas: IndexMap<String, Entry>,
    security_schemes: IndexMap<String, Entry>,
    paths: IndexMap<String, Entry>,
}

impl DocumentIndex {
    /// Whether the document has a `components` object.
    pub closed spec fn has_components(self) -> bool {
        self.components
    }

    /// The entries stored for `section`, whether or not that section exists.
    pub closed spec fn stored(self, section: Section) -> SectionEntries {
        match section {
            Section::Callbacks => table_entries(self.callbacks),
            Section::Examples => table_entries(self.examples),
            Section::Headers => table_entries(self.headers),
            Section::Links => table_entries(self.links),
            Section::Parameters => table_entries(self.parameters),
            Section::RequestBodies => table_entries(self.request_bodies),
            Section::Responses => table_entries(self.responses),
            Section::Schemas => table_entries(self.schemas),
            Section::SecuritySchemes => table_entries(self.security_schemes),
            Section::Paths => table_entries(self.paths),
        }
    }

    /// The entries of `section`, or `None` when the document has no such section.
    pub open spec fn section(self, section: Section) -> Option<SectionEntries> {
        if section == Section::Paths || self.has_components() {
            Some(self.stored(section))
        } else {
            None
        }
    }

    /// A document with no entries yet, with or without a `components` object.
    pub fn new(has_components: bool) -> (index: DocumentIndex)
        ensures
            index.has_components() == has_components,
            forall|section: Section| #[trigger] index.stored(section).is_empty(),
    {
        DocumentIndex {
            components: has_components,
            callbacks: table_new(),
            examples: table_new(),
            headers: table_new(),
            links: table_new(),
            parameters: table_new(),
            request_bodies: table_new(),
            responses: table_new(),
            schemas: table_new(),
            security_schemes: table_new(),
            paths: table_new(),
        }
    }

    /// Records that `section` holds `entry` under `name`.
    pub fn add(&mut self, section: Section, name: String, entry: Entry)
        ensures
            final(self).has_components() == old(self).has_components(),
            final(self).stored(section) == old(self).stored(section).insert(name@, entry@),
            forall|other: Section|
                other != section ==> #[trigger] final(self).stored(other) == old(self).stored(
                    other,
                ),
    {
        match section {
            Section::Callbacks => table_insert(&mut self.callbacks, name, entry),
            Section::Examples => table_insert(&mut self.examples, name, entry),
            Section::Headers => table_insert(&mut self.headers, name, entry),
            Section::Links => table_insert(&mut self.links, name, entry),
            Section::Parameters => table_insert(&mut self.parameters, name, entry),
            Section::RequestBodies => table_insert(&mut self.request_bodies, name, entry),
            Section::Responses => table_insert(&mut self.responses, name, entry),
            Section::Schemas => table_insert(&mut self.schemas, name, entry),
            Section::SecuritySchemes => table_insert(&mut self.security_schemes, name, entry),
            Section::Paths => table_insert(&mut self.paths, name, entry),
        }
    }

    fn table(&self, section: Section) -> (table: Option<&IndexMap<String, Entry>>)
        ensures
            match table {
                Some(t) => self.section(section) == Some(table_entries(*t)),
                None => self.section(section) is None,
            },
    {
        if section != Section::Paths && !self.components {
            return None;
        }
        Some(
            match section {
                Section::Callbacks => &self.callbacks,
                Section::Examples => &self.examples,
                Section::Headers => &self.headers,
                Section::Links => &self.links,
                Section::Parameters => &self.parameters,
                Section::RequestBodies => &self.request_bodies,
                Section::Responses => &self.responses,
                Section::Schemas => &self.schemas,
                Section::SecuritySchemes => &self.security_schemes,
                Section::Paths => &self.paths,
            },
        )
    }
}

/// The entry stored under `name` in `section`, or why there is none.
pub open spec fn find_entry(doc: DocumentIndex, section: Section, name: Seq<char>) -> Result<
    Option<Seq<char>>,
    Failure,
> {
    match doc.section(section) {
        None => Err(Failure::ComponentsMissing { section }),
        Some(entries) => if entries.contains_key(name) {
            Ok(entries[name])
        } else {
            Err(Failure::NotFound { section, name })
        },
    }
}

/// One hop: the name `pointer` denotes in `expected` and the entry stored
/// there, without following it.
pub open spec fn lookup_pointer(doc: DocumentIndex, expected: Section, pointer: Seq<char>) -> Result<
    (Seq<char>, Option<Seq<char>>),
    Failure,
> {
    match parse_reference(pointer) {
        Err(e) => Err(e),
        Ok((section, name)) => if section != expected {
            Err(Failure::SectionMismatch { expected, found: section })
        } else {
            match find_entry(doc, expected, name) {
                Ok(entry) => Ok((name, entry)),
                Err(e) => Err(e),
            }
        },
    }
}

/// Following `pointer` after `hops` hops of a walk that started at `start`:
/// the name of the inline item at the end of the chain, or why the walk stops.
pub open spec fn walk_from(
    doc: DocumentIndex,
    expected: Section,
    start: Seq<char>,
    pointer: Seq<char>,
    hops: nat,
) -> Result<Seq<char>, Failure>
    decreases MAX_REFERENCE_HOPS - hops,
{
    match lookup_pointer(doc, expected, pointer) {
        Err(e) => Err(e),
        Ok((name, None)) => Ok(name),
        Ok((_, Some(next))) => if hops + 1 >= MAX_REFERENCE_HOPS {
            Err(
                Failure::ReferenceChainTooLong {
                    reference: start,
                    last: next,
                    max_hops: MAX_REFERENCE_HOPS as nat,
                },
            )
        } else {
            walk_from(doc, expected, start, next, hops + 1)
        },
    }
}

/// Following `reference` through `doc` to the inline item in `expected` at the
/// end of its chain: the name that item is stored under, or why there is none.
pub open spec fn walk_reference(doc: DocumentIndex, expected: Section, reference: Seq<char>) -> Result<
    Seq<char>,
    Failure,
> {
    walk_from(doc, expected, reference, reference, 0)
}

/// Looks up one hop: parses the pointer and reads the entry, without following it.
fn lookup<'a, 'p>(doc: &'a DocumentIndex, expected: Section, pointer: &'p str) -> (found: Result<
    (ComponentRef<'p>, &'a Entry),
    ResolveError,
>)
    ensures
        match found {
            Ok((parsed, entry)) => lookup_pointer(*doc, expected, pointer@) == Ok::<
                (Seq<char>, Option<Seq<char>>),
                Failure,
            >((parsed.name@, entry@)),
            Err(e) => lookup_pointer(*doc, expected, pointer@) == Err::<
                (Seq<char>, Option<Seq<char>>),
                Failure,
            >(e@),
        },
{
    let parsed = ComponentRef::parse(pointer)?;
    if parsed.section != expected {
        return Err(ResolveError::SectionMismatch { expected, found: parsed.section });
    }
    let table = match doc.table(expected) {
        Some(table) => table,
        None => {
            return Err(ResolveError::ComponentsMissing { section: expected });
        },
    };
    match table_get(table, name_str(&parsed.name)) {
        Some(entry) => Ok((parsed, entry)),
        None => Err(ResolveError::NotFound { section: expected, name: name_into_string(parsed.name) }),
    }
}

/// Follows `reference` to the inline item at the end of its chain, returning
/// the name that item is stored under in `expected`.
///
/// Chains are followed iteratively and a walk gives up with
/// [`ResolveError::ReferenceChainTooLong`] when it would take its
/// [`MAX_REFERENCE_HOPS`]th hop, so a cyclic document returns an error.
pub fn walk<'a: 'p, 'p>(doc: &'a DocumentIndex, expected: Section, reference: &'p str) -> (walked:
    Result<Cow<'p, str>, ResolveError>)
    ensures
        match walked {
            Ok(name) => walk_reference(*doc, expected, reference@) == Ok::<Seq<char>, Failure>(
                name@,
            ),
            Err(e) => walk_reference(*doc, expected, reference@) == Err::<Seq<char>, Failure>(e@),
        },
{
    let mut pointer: &'p str = reference;
    let mut hops: usize = 0;
    loop
        invariant
            hops < MAX_REFERENCE_HOPS,
            walk_reference(*doc, expected, reference@) == walk_from(
                *doc,
                expected,
                reference@,
                pointer@,
                hops as nat,
            ),
        decreases MAX_REFERENCE_HOPS - hops,
    {
        let (parsed, entry) = lookup(doc, expected, pointer)?;
        match entry {
            Entry::Item => {
                return Ok(parsed.name);
            },
            Entry::Reference(next) => {
                hops = hops + 1;
                if hops >= MAX_REFERENCE_HOPS {
                    return Err(
                        ResolveError::ReferenceChainTooLong {
                            reference: reference.to_owned(),
                            last: next.clone(),
                            max_hops: MAX_REFERENCE_HOPS,
                        },
                    );
                }
                pointer = next.as_str();
            },
        }
    }
}

/// The entry stored under `name` in `section`, looked up by name as written
/// rather than parsed as a pointer.
pub fn lookup_named<'a>(doc: &'a DocumentIndex, section: Section, name: &str) -> (found: Result<
    &'a Entry,
    ResolveError,
>)
    ensures
        match found {
            Ok(entry) => find_entry(*doc, section, name@) == Ok::<Option<Seq<char>>, Failure>(
                entry@,
            ),
            Err(e) => find_entry(*doc, section, name@) == Err::<Option<Seq<char>>, Failure>(e@),
        },
{
    let table = match doc.table(section) {
        Some(table) => table,
        None => {
            return Err(ResolveError::ComponentsMissing { section });
        },
    };
    match table_get(table, name) {
        Some(entry) => Ok(entry),
        None => Err(ResolveError::NotFound { section, name: name.to_owned() }),
    }
}

/// The pointer reached from `pointer` after `hops` hops, when each of those
/// hops reads a `$ref`.
pub open spec fn follow(doc: DocumentIndex, expected: Section, pointer: Seq<char>, hops: nat) -> Option<
    Seq<char>,
>
    decreases hops,
{
    if hops == 0 {
        Some(pointer)
    } else {
        match lookup_pointer(doc, expected, pointer) {
            Ok((_, Some(next))) => follow(doc, expected, next, (hops - 1) as nat),
            _ => None,
        }
    }
}

proof fn lemma_walk_chain(
    doc: DocumentIndex,
    expected: Section,
    start: Seq<char>,
    pointer: Seq<char>,
    hops: nat,
    length: nat,
    end: Seq<char>,
    name: Seq<char>,
)
    requires
        hops < MAX_REFERENCE_HOPS,
        follow(doc, expected, pointer, length) == Some(end),
        lookup_pointer(doc, expected, end) == Ok::<(Seq<char>, Option<Seq<char>>), Failure>(
            (name, None),
        ),
    ensures
        hops + length < MAX_REFERENCE_HOPS ==> walk_from(doc, expected, start, pointer, hops)
            == Ok::<Seq<char>, Failure>(name),
        hops + length >= MAX_REFERENCE_HOPS ==> walk_from(doc, expected, start, pointer, hops)
            == Err::<Seq<char>, Failure>(
            Failure::ReferenceChainTooLong {
                reference: start,
                last: follow(doc, expected, pointer, (MAX_REFERENCE_HOPS - hops) as nat)->0,
                max_hops: MAX_REFERENCE_HOPS as nat,
            },
        ),
    decreases length,
{
    if length > 0 {
        let next = lookup_pointer(doc, expected, pointer)->Ok_0.1->0;
        assert(follow(doc, expected, pointer, (MAX_REFERENCE_HOPS - hops) as nat) == follow(
            doc,
            expected,
            next,
            (MAX_REFERENCE_HOPS - hops - 1) as nat,
        ));
        if hops + 1 < MAX_REFERENCE_HOPS {
            lemma_walk_chain(doc, expected, start, next, hops + 1, (length - 1) as nat, end, name);
        }
    }
}

/// A chain of `$ref`s that reaches an inline item after `length` hops resolves
/// to that item when `length` is under [`MAX_REFERENCE_HOPS`], and otherwise
/// fails with `ReferenceChainTooLong`, naming the pointer read at the hop that
/// reached the limit.
pub proof fn law_hop_limit(
    doc: DocumentIndex,
    expected: Section,
    reference: Seq<char>,
    length: nat,
    end: Seq<char>,
    name: Seq<char>,
)
    requires
        follow(doc, expected, reference, length) == Some(end),
        lookup_pointer(doc, expected, end) == Ok::<(Seq<char>, Option<Seq<char>>), Failure>(
            (name, None),
        ),
    ensures
        length < MAX_REFERENCE_HOPS ==> walk_reference(doc, expected, reference) == Ok::<
            Seq<char>,
            Failure,
        >(name),
        length >= MAX_REFERENCE_HOPS ==> walk_reference(doc, expected, reference) == Err::<
            Seq<char>,
            Failure,
        >(
            Failure::ReferenceChainTooLong {
                reference,
                last: follow(doc, expected, reference, MAX_REFERENCE_HOPS as nat)->0,
                max_hops: MAX_REFERENCE_HOPS as nat,
            },
        ),
{
    lemma_walk_chain(doc, expected, reference, reference, 0, length, end, name);
}

proof fn lemma_follow_compose(
    doc: DocumentIndex,
    expected: Section,
    pointer: Seq<char>,
    first: nat,
    second: nat,
)
    ensures
        follow(doc, expected, pointer, first + second) == match follow(
            doc,
            expected,
            pointer,
            first,
        ) {
            Some(middle) => follow(doc, expected, middle, second),
            None => None,
        },
    decreases first,
{
    if first > 0 {
        match lookup_pointer(doc, expected, pointer) {
            Ok((_, Some(next))) => {
                lemma_follow_compose(doc, expected, next, (first - 1) as nat, second);
                assert((first + second - 1) as nat == (first - 1) as nat + second);
            },
            _ => {},
        }
    }
}

proof fn lemma_follow_prefix(
    doc: DocumentIndex,
    expected: Section,
    pointer: Seq<char>,
    shorter: nat,
    longer: nat,
)
    requires
        shorter <= longer,
        follow(doc, expected, pointer, longer) is Some,
    ensures
        follow(doc, expected, pointer, shorter) is Some,
{
    lemma_follow_compose(doc, expected, pointer, shorter, (longer - shorter) as nat);
}

proof fn lemma_cycle_follows_forever(
    doc: DocumentIndex,
    expected: Section,
    reference: Seq<char>,
    period: nat,
    hops: nat,
)
    requires
        period > 0,
        follow(doc, expected, reference, period) == Some(reference),
    ensures
        follow(doc, expected, reference, hops) is Some,
    decreases hops,
{
    if hops < period {
        lemma_follow_prefix(doc, expected, reference, hops, period);
    } else {
        lemma_cycle_follows_forever(doc, expected, reference, period, (hops - period) as nat);
        lemma_follow_compose(doc, expected, reference, period, (hops - period) as nat);
        assert(period + (hops - period) as nat == hops);
    }
}

proof fn lemma_walk_never_ends(
    doc: DocumentIndex,
    expected: Section,
    start: Seq<char>,
    pointer: Seq<char>,
    hops: nat,
)
    requires
        hops < MAX_REFERENCE_HOPS,
        forall|more: nat|
            more <= MAX_REFERENCE_HOPS - hops ==> #[trigger] follow(doc, expected, pointer, more) is Some,
    ensures
        walk_from(doc, expected, start, pointer, hops) == Err::<Seq<char>, Failure>(
            Failure::ReferenceChainTooLong {
                reference: start,
                last: follow(doc, expected, pointer, (MAX_REFERENCE_HOPS - hops) as nat)->0,
                max_hops: MAX_REFERENCE_HOPS as nat,
            },
        ),
    decreases MAX_REFERENCE_HOPS - hops,
{
    assert(follow(doc, expected, pointer, 1) is Some);
    let next = lookup_pointer(doc, expected, pointer)->Ok_0.1->0;
    if hops + 1 < MAX_REFERENCE_HOPS {
        assert forall|more: nat| more <= MAX_REFERENCE_HOPS - (hops + 1) implies #[trigger] follow(
            doc,
            expected,
            next,
            more,
        ) is Some by {
            assert(follow(doc, expected, pointer, more + 1) is Some);
        }
        lemma_walk_never_ends(doc, expected, start, next, hops + 1);
        assert(follow(doc, expected, pointer, (MAX_REFERENCE_HOPS - hops) as nat) == follow(
            doc,
            expected,
            next,
            (MAX_REFERENCE_HOPS - (hops + 1)) as nat,
        ));
    }
}

/// A chain of `$ref`s that leads back to where it started never reaches an
/// item, so walking it fails with `ReferenceChainTooLong` instead of looping.
pub proof fn law_cycle_is_reported(
    doc: DocumentIndex,
    expected: Section,
    reference: Seq<char>,
    period: nat,
)
    requires
        period > 0,
        follow(doc, expected, reference, period) == Some(reference),
    ensures
        walk_reference(doc, expected, reference) == Err::<Seq<char>, Failure>(
            Failure::ReferenceChainTooLong {
                reference,
                last: follow(doc, expected, reference, MAX_REFERENCE_HOPS as nat)->0,
                max_hops: MAX_REFERENCE_HOPS as nat,
            },
        ),
{
    assert forall|more: nat| more <= MAX_REFERENCE_HOPS implies #[trigger] follow(
        doc,
        expected,
        reference,
        more,
    ) is Some by {
        lemma_cycle_follows_forever(doc, expected, reference, period, more);
    }
    lemma_walk_never_ends(doc, expected, reference, reference, 0);
}

proof fn lemma_walk_fewer_hops(
    doc: DocumentIndex,
    expected: Section,
    start: Seq<char>,
    other_start: Seq<char>,
    pointer: Seq<char>,
    hops: nat,
)
    requires
        hops + 1 < MAX_REFERENCE_HOPS,
        walk_from(doc, expected, start, pointer, hops + 1) is Ok,
    ensures
        walk_from(doc, expected, other_start, pointer, hops) == walk_from(
            doc,
            expected,
            start,
            pointer,
            hops + 1,
        ),
    decreases MAX_REFERENCE_HOPS - hops,
{
    match lookup_pointer(doc, expected, pointer) {
        Ok((_, Some(next))) => {
            lemma_walk_fewer_hops(doc, expected, start, other_start, next, hops + 1);
        },
        _ => {},
    }
}

/// An entry that is itself a `$ref` resolves to the same item as its target:
/// when walking a pointer to it succeeds, walking its `$ref` gives the same name.
pub proof fn law_alias_shares_target(
    doc: DocumentIndex,
    expected: Section,
    alias: Seq<char>,
    alias_name: Seq<char>,
    target: Seq<char>,
)
    requires
        lookup_pointer(doc, expected, alias) == Ok::<(Seq<char>, Option<Seq<char>>), Failure>(
            (alias_name, Some(target)),
        ),
        walk_reference(doc, expected, alias) is Ok,
    ensures
        walk_reference(doc, expected, target) == walk_reference(doc, expected, alias),
{
    lemma_walk_fewer_hops(doc, expected, alias, target, target, 0);
}

proof fn lemma_walk_ends_at_item(
    doc: DocumentIndex,
    expected: Section,
    start: Seq<char>,
    pointer: Seq<char>,
    hops: nat,
)
    requires
        walk_from(doc, expected, start, pointer, hops) is Ok,
    ensures
        find_entry(doc, expected, walk_from(doc, expected, start, pointer, hops)->Ok_0) == Ok::<
            Option<Seq<char>>,
            Failure,
        >(None),
    decreases MAX_REFERENCE_HOPS - hops,
{
    match lookup_pointer(doc, expected, pointer) {
        Ok((_, Some(next))) => {
            if hops + 1 < MAX_REFERENCE_HOPS {
                lemma_walk_ends_at_item(doc, expected, start, next, hops + 1);
            }
        },
        _ => {},
    }
}

/// A successful walk ends at a name that `expected` holds as an inline item.
pub proof fn law_walk_ends_at_item(doc: DocumentIndex, expected: Section, reference: Seq<char>)
    requires
        walk_reference(doc, expected, reference) is Ok,
    ensures
        find_entry(doc, expected, walk_reference(doc, expected, reference)->Ok_0) == Ok::<
            Option<Seq<char>>,
            Failure,
        >(None),
{
    lemma_walk_ends_at_item(doc, expected, reference, reference, 0);
}

/// The section searched is the one the caller expects: a pointer that names
/// a component of another section is reported as a mismatch, never looked up.
pub proof fn law_wrong_section_is_a_mismatch(
    doc: DocumentIndex,
    expected: Section,
    reference: Seq<char>,
    found: Section,
    name: Seq<char>,
)
    requires
        parse_reference(reference) == Ok::<(Section, Seq<char>), Failure>((found, name)),
        found != expected,
    ensures
        walk_reference(doc, expected, reference) == Err::<Seq<char>, Failure>(
            Failure::SectionMismatch { expected, found },
        ),
{
}

/// Every inline item of a section that exists is reached, under its own name,
/// by the pointer [`crate::reference::pointer_for`] builds for it.
pub proof fn law_every_item_is_reachable(doc: DocumentIndex, section: Section, name: Seq<char>)
    requires
        find_entry(doc, section, name) == Ok::<Option<Seq<char>>, Failure>(None),
    ensures
        walk_reference(doc, section, pointer_to(section, name)) == Ok::<Seq<char>, Failure>(name),
{
    law_pointer_round_trip(section, name);
}

/// The `paths` section exists in every document, with or without a
/// `components` object; the nine `components` sections exist exactly when
/// the document has one.
pub proof fn law_paths_always_exist(doc: DocumentIndex, section: Section)
    ensures
        doc.section(Section::Paths) == Some(doc.stored(Section::Paths)),
        section != Section::Paths ==> (doc.section(section) is Some <==> doc.has_components()),
{
}

/// An inline path item is reached by its own pointer, `#/paths/` and its
/// escaped name, whether or not the document has a `components` object.
pub proof fn law_path_items_need_no_components(doc: DocumentIndex, name: Seq<char>)
    requires
        doc.stored(Section::Paths).contains_key(name),
        doc.stored(Section::Paths)[name] is None,
    ensures
        walk_reference(doc, Section::Paths, pointer_to(Section::Paths, name)) == Ok::<
            Seq<char>,
            Failure,
        >(name),
{
    law_every_item_is_reachable(doc, Section::Paths, name);
}

/// An inline item of a `components` section is reached by its own pointer
/// when the document has a `components` object; without one, every pointer
/// into such a section fails with `ComponentsMissing`.
pub proof fn law_components_sections_need_components(
    doc: DocumentIndex,
    section: Section,
    name: Seq<char>,
)
    requires
        section != Section::Paths,
    ensures
        doc.has_components() && doc.stored(section).contains_key(name) && doc.stored(
            section,
        )[name] is None ==> walk_reference(doc, section, pointer_to(section, name)) == Ok::<
            Seq<char>,
            Failure,
        >(name),
        !doc.has_components() ==> walk_reference(doc, section, pointer_to(section, name)) == Err::<
            Seq<char>,
            Failure,
        >(Failure::ComponentsMissing { section }),
{
    law_pointer_round_trip(section, name);
    if doc.has_components() && doc.stored(section).contains_key(name) && doc.stored(section)[name] is None {
        law_every_item_is_reachable(doc, section, name);
    }
}

} // verus!
