use openapiv3_resolve::{escape, pointer_for, unescape, ComponentRef, ResolveError, Section};
use std::borrow::Cow;
use std::str::FromStr;

const ALL: [Section; 10] = [
    Section::Callbacks,
    Section::Examples,
    Section::Headers,
    Section::Links,
    Section::Parameters,
    Section::RequestBodies,
    Section::Responses,
    Section::Schemas,
    Section::SecuritySchemes,
    Section::Paths,
];

#[test]
fn every_section_round_trips_through_its_pointer() {
    for section in ALL {
        assert_eq!(Section::from_str(section.as_pointer()), Ok(section));
    }
}

#[test]
fn section_pointers_use_wire_spelling_not_rust_field_names() {
    assert_eq!(
        Section::RequestBodies.as_pointer(),
        "components/requestBodies"
    );
    assert_eq!(
        Section::SecuritySchemes.as_pointer(),
        "components/securitySchemes"
    );
}

#[test]
fn parses_a_pointer_into_every_section() {
    for section in ALL {
        let reference = format!("#/{}/Thing", section.as_pointer());
        let parsed = ComponentRef::parse(&reference);
        assert_eq!(
            parsed,
            Ok(ComponentRef {
                section,
                name: Cow::Borrowed("Thing")
            })
        );
    }
}

#[test]
fn borrows_the_name_when_there_is_nothing_to_unescape() {
    let parsed = ComponentRef::parse("#/components/schemas/Pet").unwrap();
    assert!(matches!(parsed.name, Cow::Borrowed("Pet")));
}

#[test]
fn unescapes_a_slash_in_a_path_name() {
    let parsed = ComponentRef::parse("#/paths/~1pets~1{id}").unwrap();
    assert_eq!(parsed.name, "/pets/{id}");
}

#[test]
fn unescapes_tilde_after_slash_so_escaped_escapes_survive() {
    // `~01` must become `~1`, not `/`.
    let parsed = ComponentRef::parse("#/components/schemas/a~01b").unwrap();
    assert_eq!(parsed.name, "a~1b");
}

#[test]
fn rejects_a_reference_without_the_local_prefix() {
    assert_eq!(
        ComponentRef::parse("Pet"),
        Err(ResolveError::NotALocalReference {
            reference: "Pet".to_owned()
        })
    );
}

#[test]
fn rejects_a_reference_into_another_document() {
    assert_eq!(
        ComponentRef::parse("common.yaml#/components/schemas/Pet"),
        Err(ResolveError::ExternalDocument {
            document: "common.yaml".to_owned()
        })
    );
}

#[test]
fn rejects_a_pointer_with_too_few_segments() {
    assert_eq!(
        ComponentRef::parse("#/components/schemas"),
        Err(ResolveError::MalformedPointer {
            reference: "#/components/schemas".to_owned()
        })
    );
}

#[test]
fn rejects_a_root_section_that_cannot_hold_targets() {
    assert_eq!(
        ComponentRef::parse("#/info/title"),
        Err(ResolveError::UnsupportedRootSection {
            section: "info".to_owned()
        })
    );
}

#[test]
fn rejects_a_rust_field_name_used_as_a_section() {
    assert_eq!(
        ComponentRef::parse("#/components/request_bodies/CreatePet"),
        Err(ResolveError::UnknownSection {
            section: "request_bodies".to_owned()
        })
    );
}

#[test]
fn rejects_a_pointer_into_the_middle_of_a_component() {
    let reference = "#/components/schemas/Pet/properties/name";
    assert_eq!(
        ComponentRef::parse(reference),
        Err(ResolveError::PointerTooDeep {
            reference: reference.to_owned()
        })
    );
}

#[test]
fn decodes_percent_escapes_before_splitting() {
    // The README's example: `/pets/{id}` reached with `{` and `}` percent-encoded.
    let parsed = ComponentRef::parse("#/paths/~1pets~1%7Bid%7D").unwrap();
    assert_eq!(parsed.section, Section::Paths);
    assert_eq!(parsed.name, "/pets/{id}");
    assert!(matches!(parsed.name, Cow::Owned(_)));
}

#[test]
fn decodes_a_multi_byte_percent_escape() {
    let parsed = ComponentRef::parse("#/components/schemas/Caf%C3%A9").unwrap();
    assert_eq!(parsed.name, "Café");
}

#[test]
fn a_percent_escaped_slash_splits_like_a_slash() {
    assert_eq!(
        ComponentRef::parse("#/components/schemas/A%2FB"),
        Err(ResolveError::PointerTooDeep {
            reference: "#/components/schemas/A%2FB".to_owned()
        })
    );
}

#[test]
fn a_percent_not_followed_by_two_hex_digits_is_kept() {
    let parsed = ComponentRef::parse("#/components/schemas/50%off").unwrap();
    assert_eq!(parsed.name, "50%off");
}

#[test]
fn a_percent_escape_that_is_not_utf8_is_malformed() {
    assert_eq!(
        ComponentRef::parse("#/components/schemas/%FF"),
        Err(ResolveError::MalformedPointer {
            reference: "#/components/schemas/%FF".to_owned()
        })
    );
}

#[test]
fn an_empty_document_part_is_not_another_document() {
    assert_eq!(
        ComponentRef::parse("#components/schemas/Pet"),
        Err(ResolveError::NotALocalReference {
            reference: "#components/schemas/Pet".to_owned()
        })
    );
}

#[test]
fn a_components_pointer_without_a_section_is_malformed() {
    assert_eq!(
        ComponentRef::parse("#/components"),
        Err(ResolveError::MalformedPointer {
            reference: "#/components".to_owned()
        })
    );
}

#[test]
fn section_parsing_reports_what_it_could_not_read() {
    assert_eq!(
        Section::from_str("info"),
        Err(ResolveError::UnsupportedRootSection {
            section: "info".to_owned()
        })
    );
    assert_eq!(
        Section::from_str("components/request_bodies"),
        Err(ResolveError::UnknownSection {
            section: "request_bodies".to_owned()
        })
    );
    assert_eq!(Section::from_str("paths"), Ok(Section::Paths));
}

#[test]
fn unescape_borrows_without_escapes_and_decodes_with_them() {
    assert!(matches!(unescape("Pet"), Cow::Borrowed("Pet")));
    assert_eq!(unescape("a~1b~0c"), "a/b~c");
    assert_eq!(unescape("~01"), "~1");
}

#[test]
fn escape_is_undone_by_parsing() {
    assert_eq!(escape("a/b~c%d"), "a~1b~0c%25d");
    for name in ["Pet", "/pets/{id}", "a~1b", "50%off", "%41", "Café", "~/%"] {
        for section in ALL {
            let pointer = pointer_for(section, name);
            let parsed = ComponentRef::parse(&pointer).unwrap();
            assert_eq!(parsed.section, section);
            assert_eq!(parsed.name, name);
        }
    }
}

#[test]
fn a_pointer_for_a_path_escapes_its_slashes() {
    assert_eq!(pointer_for(Section::Paths, "/pets/{id}"), "#/paths/~1pets~1{id}");
    assert_eq!(
        pointer_for(Section::Schemas, "Pet"),
        "#/components/schemas/Pet"
    );
}

#[test]
fn a_name_with_an_escape_comes_back_owned() {
    assert!(matches!(unescape("a~1b"), Cow::Owned(ref name) if name == "a/b"));
    let parsed = ComponentRef::parse("#/components/schemas/a~0b").expect("valid pointer");
    assert!(matches!(parsed.name, Cow::Owned(ref name) if name == "a~b"));
    let parsed = ComponentRef::parse("#/components/schemas/a%20b").expect("valid pointer");
    assert!(matches!(parsed.name, Cow::Owned(ref name) if name == "a b"));
}

#[test]
fn a_percent_sign_that_starts_no_escape_stays_borrowed() {
    let parsed = ComponentRef::parse("#/components/schemas/50%off").expect("valid pointer");
    assert_eq!(parsed.section, Section::Schemas);
    assert!(matches!(parsed.name, Cow::Borrowed("50%off")));
    let parsed = ComponentRef::parse("#/components/schemas/100%").expect("valid pointer");
    assert!(matches!(parsed.name, Cow::Borrowed("100%")));
    let parsed = ComponentRef::parse("#/components/schemas/50%25off").expect("valid pointer");
    assert!(matches!(parsed.name, Cow::Owned(ref name) if name == "50%off"));
}
