//! The decisions behind resolving a discriminator's mapping: how a mapping
//! value names its schema, and which alternative of a `oneOf`/`anyOf` it picks.

use crate::document::{find_entry, lookup_named, walk, walk_reference, DocumentIndex};
use crate::error::{Failure, ResolveError};
use crate::reference::name_into_string;
use crate::section::Section;
use crate::table::Entry;
use crate::text::contains_char;
use vstd::prelude::*;

verus! {

/// How one discriminator mapping value names its schema.
///
/// The specification allows either a schema name or a reference and does not
/// say how to tell them apart. A component name can never contain `#`, so a
/// `#` marks a reference; everything else is taken as a name, which keeps
/// names outside the specification's grammar (`a/b`) reachable all the same.
#[derive(Clone, Copy, Debug)]
pub enum MappingTarget<'a> {
    /// A `$ref`, local or into another document.
    Reference(&'a str),
    /// The name of a schema under `#/components/schemas`.
    Name(&'a str),
}

impl<'a> MappingTarget<'a> {
    /// Whether the target is a reference, and its text.
    pub open spec fn view_parts(self) -> (bool, Seq<char>) {
        match self {
            MappingTarget::Reference(r) => (true, r@),
            MappingTarget::Name(n) => (false, n@),
        }
    }

    /// Reads a mapping value: a reference when it holds `#`, a name otherwise.
    pub fn classify(target: &'a str) -> (classified: MappingTarget<'a>)
        ensures
            classified.view_parts() == (target@.contains('#'), target@),
    {
        if contains_char(target, '#') {
            MappingTarget::Reference(target)
        } else {
            MappingTarget::Name(target)
        }
    }
}

/// The name of the schema a mapping value finally denotes, after any chain of
/// `$ref`s: a reference is walked, and a bare name is looked up as written
/// and, when it is stored as a `$ref`, that reference is walked.
pub open spec fn mapping_schema(doc: DocumentIndex, is_reference: bool, text: Seq<char>) -> Result<
    Seq<char>,
    Failure,
> {
    if is_reference {
        walk_reference(doc, Section::Schemas, text)
    } else {
        match find_entry(doc, Section::Schemas, text) {
            Err(e) => Err(e),
            Ok(None) => Ok(text),
            Ok(Some(reference)) => walk_reference(doc, Section::Schemas, reference),
        }
    }
}

/// The name of the component a mapping value finally denotes, which is the
/// name two ways of naming one schema agree on.
pub fn schema_name(doc: &DocumentIndex, target: MappingTarget<'_>) -> (name: Result<
    String,
    ResolveError,
>)
    ensures
        match name {
            Ok(n) => mapping_schema(*doc, target.view_parts().0, target.view_parts().1) == Ok::<
                Seq<char>,
                Failure,
            >(n@),
            Err(e) => mapping_schema(*doc, target.view_parts().0, target.view_parts().1) == Err::<
                Seq<char>,
                Failure,
            >(e@),
        },
{
    let reference = match target {
        MappingTarget::Reference(reference) => reference,
        MappingTarget::Name(name) => match lookup_named(doc, Section::Schemas, name)? {
            Entry::Item => {
                return Ok(name.to_owned());
            },
            Entry::Reference(reference) => reference.as_str(),
        },
    };
    let walked = walk(doc, Section::Schemas, reference)?;
    Ok(name_into_string(walked))
}

/// The names that the alternatives of a `oneOf`/`anyOf` finally denote, each
/// with its position; `None` marks an inline alternative, which no mapping
/// value can name, and `Some` the `$ref` of one that is a reference.
pub open spec fn named_alternatives(doc: DocumentIndex, alternatives: Seq<Option<Seq<char>>>) -> Result<
    Seq<(Seq<char>, int)>,
    Failure,
>
    decreases alternatives.len(),
{
    if alternatives.len() == 0 {
        Ok(seq![])
    } else {
        match named_alternatives(doc, alternatives.drop_last()) {
            Err(e) => Err(e),
            Ok(named) => match alternatives.last() {
                None => Ok(named),
                Some(reference) => match walk_reference(doc, Section::Schemas, reference) {
                    Err(e) => Err(e),
                    Ok(name) => Ok(named.push((name, alternatives.len() - 1))),
                },
            },
        }
    }
}

proof fn lemma_named_error_persists(
    doc: DocumentIndex,
    alternatives: Seq<Option<Seq<char>>>,
    prefix: nat,
)
    requires
        prefix <= alternatives.len(),
        named_alternatives(doc, alternatives.take(prefix as int)) is Err,
    ensures
        named_alternatives(doc, alternatives) == named_alternatives(
            doc,
            alternatives.take(prefix as int),
        ),
    decreases alternatives.len() - prefix,
{
    if prefix < alternatives.len() {
        assert(alternatives.take((prefix + 1) as int).drop_last() =~= alternatives.take(prefix as int));
        lemma_named_error_persists(doc, alternatives, prefix + 1);
    } else {
        assert(alternatives.take(prefix as int) =~= alternatives);
    }
}

/// The `$ref`-ed alternatives of a `oneOf`/`anyOf`, each paired with the name
/// it finally resolves to and its position among all the alternatives. Fails
/// with the first alternative, in order, that does not resolve.
pub fn alternative_names(doc: &DocumentIndex, alternatives: &Vec<Option<String>>) -> (named: Result<
    Vec<(String, usize)>,
    ResolveError,
>)
    ensures
        match named {
            Ok(v) => named_alternatives(*doc, alternatives@.map_values(|a: Option<String>| match a {
                Some(r) => Some(r@),
                None => None,
            })) == Ok::<Seq<(Seq<char>, int)>, Failure>(
                v@.map_values(|p: (String, usize)| (p.0@, p.1 as int)),
            ),
            Err(e) => named_alternatives(*doc, alternatives@.map_values(|a: Option<String>| match a {
                Some(r) => Some(r@),
                None => None,
            })) == Err::<Seq<(Seq<char>, int)>, Failure>(e@),
        },
{
    let ghost all = alternatives@.map_values(|a: Option<String>| match a {
        Some(r) => Some(r@),
        None => None,
    });
    let mut named: Vec<(String, usize)> = Vec::new();
    let n = alternatives.len();
    let mut i: usize = 0;
    assert(all.take(0) =~= Seq::<Option<Seq<char>>>::empty());
    assert(named@.map_values(|p: (String, usize)| (p.0@, p.1 as int)) =~= Seq::<
        (Seq<char>, int),
    >::empty());
    while i < n
        invariant
            n == alternatives@.len(),
            i <= n,
            all == alternatives@.map_values(|a: Option<String>| match a {
                Some(r) => Some(r@),
                None => None,
            }),
            named_alternatives(*doc, all.take(i as int)) == Ok::<Seq<(Seq<char>, int)>, Failure>(
                named@.map_values(|p: (String, usize)| (p.0@, p.1 as int)),
            ),
        decreases n - i,
    {
        assert(all.take(i + 1).drop_last() =~= all.take(i as int));
        match &alternatives[i] {
            None => {},
            Some(reference) => {
                match walk(doc, Section::Schemas, reference.as_str()) {
                    Ok(name) => {
                        let ghost before = named@.map_values(
                            |p: (String, usize)| (p.0@, p.1 as int),
                        );
                        named.push((name_into_string(name), i));
                        assert(named@.map_values(|p: (String, usize)| (p.0@, p.1 as int))
                            =~= before.push((name@, i as int)));
                    },
                    Err(e) => {
                        proof {
                            lemma_named_error_persists(*doc, all, (i + 1) as nat);
                            assert(all.take(n as int) =~= all);
                        }
                        return Err(e);
                    },
                }
            },
        }
        i = i + 1;
    }
    assert(all.take(n as int) =~= all);
    Ok(named)
}

/// The position, in `named`, of the first alternative named `schema`.
pub open spec fn first_named(named: Seq<(Seq<char>, int)>, schema: Seq<char>) -> Option<int>
    decreases named.len(),
{
    if named.len() == 0 {
        None
    } else {
        match first_named(named.drop_last(), schema) {
            Some(k) => Some(k),
            None => if named.last().0 == schema {
                Some(named.len() - 1)
            } else {
                None
            },
        }
    }
}

/// What a mapping value resolves to: one of the alternatives' very edges, or
/// a schema of its own.
#[derive(Debug, PartialEq, Eq)]
pub enum MappingEdge {
    /// The alternative at this position among all the alternatives.
    Alternative(usize),
    /// The schema stored under this name, reached as a nested schema.
    Schema(String),
}

/// The mathematical content of a [`MappingEdge`].
pub enum MappingChoice {
    Alternative(int),
    Schema(Seq<char>),
}

impl View for MappingEdge {
    type V = MappingChoice;

    open spec fn view(&self) -> MappingChoice {
        match self {
            MappingEdge::Alternative(position) => MappingChoice::Alternative(*position as int),
            MappingEdge::Schema(name) => MappingChoice::Schema(name@),
        }
    }
}

/// What one mapping entry `value` -> target resolves to, on a schema whose
/// `$ref`-ed alternatives are `alternatives` (`None` when the schema is not a
/// `oneOf` or `anyOf`). With alternatives, the target must name one of them,
/// else the mapping is a mismatch; without, it is a schema of its own.
pub open spec fn mapping_choice(
    doc: DocumentIndex,
    alternatives: Option<Seq<(Seq<char>, int)>>,
    property_name: Seq<char>,
    value: Seq<char>,
    is_reference: bool,
    text: Seq<char>,
) -> Result<MappingChoice, Failure> {
    match mapping_schema(doc, is_reference, text) {
        Err(e) => Err(e),
        Ok(schema) => match alternatives {
            None => Ok(MappingChoice::Schema(schema)),
            Some(named) => match first_named(named, schema) {
                Some(k) => Ok(MappingChoice::Alternative(named[k].1)),
                None => Err(Failure::DiscriminatorMappingMismatch { property_name, value, schema }),
            },
        },
    }
}

proof fn lemma_first_named(named: Seq<(Seq<char>, int)>, schema: Seq<char>, i: int)
    requires
        0 <= i < named.len(),
        first_named(named.take(i), schema) is None,
    ensures
        first_named(named.take(i + 1), schema) == (if named[i].0 == schema {
            Some(i)
        } else {
            None
        }),
{
    assert(named.take(i + 1).drop_last() =~= named.take(i));
}

proof fn lemma_first_named_extends(named: Seq<(Seq<char>, int)>, schema: Seq<char>, i: int)
    requires
        0 <= i <= named.len(),
        first_named(named.take(i), schema) is Some,
    ensures
        first_named(named, schema) == first_named(named.take(i), schema),
    decreases named.len() - i,
{
    if i < named.len() {
        assert(named.take(i + 1).drop_last() =~= named.take(i));
        lemma_first_named_extends(named, schema, i + 1);
    } else {
        assert(named.take(i) =~= named);
    }
}

/// Resolves one discriminator mapping entry `value` -> `target` on a schema
/// whose `$ref`-ed alternatives are `alternatives`, as [`alternative_names`]
/// gives them, or `None` when the schema is not a `oneOf` or `anyOf`.
pub fn mapping_edge(
    doc: &DocumentIndex,
    alternatives: Option<&Vec<(String, usize)>>,
    property_name: &str,
    value: &str,
    target: MappingTarget<'_>,
) -> (edge: Result<MappingEdge, ResolveError>)
    ensures
        match edge {
            Ok(e) => mapping_choice(
                *doc,
                match alternatives {
                    Some(v) => Some(v@.map_values(|p: (String, usize)| (p.0@, p.1 as int))),
                    None => None,
                },
                property_name@,
                value@,
                target.view_parts().0,
                target.view_parts().1,
            ) == Ok::<MappingChoice, Failure>(e@),
            Err(e) => mapping_choice(
                *doc,
                match alternatives {
                    Some(v) => Some(v@.map_values(|p: (String, usize)| (p.0@, p.1 as int))),
                    None => None,
                },
                property_name@,
                value@,
                target.view_parts().0,
                target.view_parts().1,
            ) == Err::<MappingChoice, Failure>(e@),
        },
{
    let schema = schema_name(doc, target)?;
    match alternatives {
        None => Ok(MappingEdge::Schema(schema)),
        Some(named) => {
            let ghost view = named@.map_values(|p: (String, usize)| (p.0@, p.1 as int));
            let n = named.len();
            let mut i: usize = 0;
            assert(view.take(0) =~= Seq::<(Seq<char>, int)>::empty());
            while i < n
                invariant
                    n == named@.len(),
                    i <= n,
                    view == named@.map_values(|p: (String, usize)| (p.0@, p.1 as int)),
                    first_named(view.take(i as int), schema@) is None,
                    alternatives == Some(named),
                    mapping_schema(*doc, target.view_parts().0, target.view_parts().1) == Ok::<
                        Seq<char>,
                        Failure,
                    >(schema@),
                decreases n - i,
            {
                proof {
                    lemma_first_named(view, schema@, i as int);
                }
                assert(view[i as int] == (named@[i as int].0@, named@[i as int].1 as int));
                if crate::text::str_eq(named[i].0.as_str(), schema.as_str()) {
                    proof {
                        lemma_first_named_extends(view, schema@, i + 1);
                        assert(first_named(view, schema@) == Some(i as int));
                    }
                    return Ok(MappingEdge::Alternative(named[i].1));
                }
                i = i + 1;
            }
            assert(view.take(n as int) =~= view);
            Err(
                ResolveError::DiscriminatorMappingMismatch {
                    property_name: property_name.to_owned(),
                    value: value.to_owned(),
                    schema,
                },
            )
        },
    }
}

} // verus!
