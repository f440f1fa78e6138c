//! The sections of a document that `$ref` pointers can name.

use crate::error::{Failure, ResolveError};
use crate::text::{str_eq, strip_prefix, strip_prefix_str};
use vstd::prelude::*;

verus! {

/// A section of an OpenAPI document that `$ref` pointers can name.
///
/// The string form is the *wire* spelling used in a document
/// (`components/requestBodies`), which is not the same as the Rust field name
/// on `openapiv3::Components` (`request_bodies`).
#[derive(Debug, Clone, Copy, PartialEq, Eq, Hash, Structural)]
#[non_exhaustive]
pub enum Section {
    /// `#/components/callbacks`
    Callbacks,
    /// `#/components/examples`
    Examples,
    /// `#/components/headers`
    Headers,
    /// `#/components/links`
    Links,
    /// `#/components/parameters`
    Parameters,
    /// `#/components/requestBodies`
    RequestBodies,
    /// `#/components/responses`
    Responses,
    /// `#/components/schemas`
    Schemas,
    /// `#/components/securitySchemes`
    SecuritySchemes,
    /// `#/paths`
    Paths,
}

/// The pointer segment after `components/` that names each component section.
pub open spec fn components_segment(section: Section) -> Seq<char> {
    match section {
        Section::Callbacks => "callbacks"@,
        Section::Examples => "examples"@,
        Section::Headers => "headers"@,
        Section::Links => "links"@,
        Section::Parameters => "parameters"@,
        Section::RequestBodies => "requestBodies"@,
        Section::Responses => "responses"@,
        Section::Schemas => "schemas"@,
        Section::SecuritySchemes => "securitySchemes"@,
        Section::Paths => "paths"@,
    }
}

/// The section that a segment after `components/` names, if any.
pub open spec fn section_of_components_segment(segment: Seq<char>) -> Option<Section> {
    if segment == "callbacks"@ {
        Some(Section::Callbacks)
    } else if segment == "examples"@ {
        Some(Section::Examples)
    } else if segment == "headers"@ {
        Some(Section::Headers)
    } else if segment == "links"@ {
        Some(Section::Links)
    } else if segment == "parameters"@ {
        Some(Section::Parameters)
    } else if segment == "requestBodies"@ {
        Some(Section::RequestBodies)
    } else if segment == "responses"@ {
        Some(Section::Responses)
    } else if segment == "schemas"@ {
        Some(Section::Schemas)
    } else if segment == "securitySchemes"@ {
        Some(Section::SecuritySchemes)
    } else {
        None
    }
}

/// The pointer body of each section, without the leading `#/`.
pub open spec fn section_pointer(section: Section) -> Seq<char> {
    match section {
        Section::Callbacks => "components/callbacks"@,
        Section::Examples => "components/examples"@,
        Section::Headers => "components/headers"@,
        Section::Links => "components/links"@,
        Section::Parameters => "components/parameters"@,
        Section::RequestBodies => "components/requestBodies"@,
        Section::Responses => "components/responses"@,
        Section::Schemas => "components/schemas"@,
        Section::SecuritySchemes => "components/securitySchemes"@,
        Section::Paths => "paths"@,
    }
}

/// What parsing the pointer body of a section gives.
pub open spec fn parse_section_pointer(s: Seq<char>) -> Result<Section, Failure> {
    if s == "paths"@ {
        Ok(Section::Paths)
    } else {
        match strip_prefix(s, "components/"@) {
            None => Err(Failure::UnsupportedRootSection { section: s }),
            Some(segment) => match section_of_components_segment(segment) {
                Some(section) => Ok(section),
                None => Err(Failure::UnknownSection { section: segment }),
            },
        }
    }
}

impl Section {
    /// The pointer body for this section, without the leading `#/`.
    pub fn as_pointer(self) -> (pointer: &'static str)
        ensures
            pointer@ == section_pointer(self),
    {
        match self {
            Section::Callbacks => "components/callbacks",
            Section::Examples => "components/examples",
            Section::Headers => "components/headers",
            Section::Links => "components/links",
            Section::Parameters => "components/parameters",
            Section::RequestBodies => "components/requestBodies",
            Section::Responses => "components/responses",
            Section::Schemas => "components/schemas",
            Section::SecuritySchemes => "components/securitySchemes",
            Section::Paths => "paths",
        }
    }

    /// The section a segment after `components/` names.
    pub fn from_components_segment(segment: &str) -> (section: Option<Section>)
        ensures
            section == section_of_components_segment(segment@),
    {
        if str_eq(segment, "callbacks") {
            Some(Section::Callbacks)
        } else if str_eq(segment, "examples") {
            Some(Section::Examples)
        } else if str_eq(segment, "headers") {
            Some(Section::Headers)
        } else if str_eq(segment, "links") {
            Some(Section::Links)
        } else if str_eq(segment, "parameters") {
            Some(Section::Parameters)
        } else if str_eq(segment, "requestBodies") {
            Some(Section::RequestBodies)
        } else if str_eq(segment, "responses") {
            Some(Section::Responses)
        } else if str_eq(segment, "schemas") {
            Some(Section::Schemas)
        } else if str_eq(segment, "securitySchemes") {
            Some(Section::SecuritySchemes)
        } else {
            None
        }
    }

    /// Parses the pointer body of a section, e.g. `components/schemas`.
    pub fn parse_pointer(s: &str) -> (parsed: Result<Section, ResolveError>)
        ensures
            match parsed {
                Ok(section) => parse_section_pointer(s@) == Ok::<Section, Failure>(section),
                Err(e) => parse_section_pointer(s@) == Err::<Section, Failure>(e@),
            },
    {
        if str_eq(s, "paths") {
            return Ok(Section::Paths);
        }
        match strip_prefix_str(s, "components/") {
            None => Err(ResolveError::UnsupportedRootSection { section: s.to_owned() }),
            Some(segment) => match Section::from_components_segment(segment) {
                Some(section) => Ok(section),
                None => Err(ResolveError::UnknownSection { section: segment.to_owned() }),
            },
        }
    }
}

impl std::str::FromStr for Section {
    type Err = ResolveError;

    /// Parses the pointer body of a section, e.g. `components/schemas`.
    fn from_str(s: &str) -> (parsed: Result<Section, ResolveError>)
        ensures
            match parsed {
                Ok(section) => parse_section_pointer(s@) == Ok::<Section, Failure>(section),
                Err(e) => parse_section_pointer(s@) == Err::<Section, Failure>(e@),
            },
    {
        Section::parse_pointer(s)
    }
}

/// Every section's pointer parses back to that section.
pub proof fn law_section_pointer_round_trip(section: Section)
    ensures
        parse_section_pointer(section_pointer(section)) == Ok::<Section, Failure>(section),
{
    reveal_strlit("paths");
    reveal_strlit("components/");
    reveal_strlit("callbacks");
    reveal_strlit("examples");
    reveal_strlit("headers");
    reveal_strlit("links");
    reveal_strlit("parameters");
    reveal_strlit("requestBodies");
    reveal_strlit("responses");
    reveal_strlit("schemas");
    reveal_strlit("securitySchemes");
    reveal_strlit("components/callbacks");
    reveal_strlit("components/examples");
    reveal_strlit("components/headers");
    reveal_strlit("components/links");
    reveal_strlit("components/parameters");
    reveal_strlit("components/requestBodies");
    reveal_strlit("components/responses");
    reveal_strlit("components/schemas");
    reveal_strlit("components/securitySchemes");
    let p = section_pointer(section);
    if section != Section::Paths {
        let seg = components_segment(section);
        assert(p =~= "components/"@ + seg);
        assert(p != "paths"@) by {
            assert(p.len() != 5 || p[0] != 'p');
        }
        assert("components/"@.is_prefix_of(p));
        assert(p.skip(11) =~= seg);
        assert(seg.len() > 0);
        assert(section_of_components_segment(seg) == Some(section)) by {
            assert("callbacks"@[0] == 'c' && "examples"@[0] == 'e' && "headers"@[0] == 'h');
            assert("links"@[0] == 'l' && "parameters"@[0] == 'p' && "requestBodies"@[0] == 'r');
            assert("responses"@[0] == 'r' && "schemas"@[0] == 's' && "securitySchemes"@[0] == 's');
            assert("requestBodies"@.len() != "responses"@.len());
            assert("schemas"@.len() != "securitySchemes"@.len());
        }
    }
}

} // verus!
