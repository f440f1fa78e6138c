use openapiv3_resolve::{ResolveError, Section};

#[test]
fn every_error_renders_a_distinct_message_naming_its_cause() {
    let errors = [
        ResolveError::NotALocalReference {
            reference: "Pet".to_owned(),
        },
        ResolveError::ExternalDocument {
            document: "c.yaml".to_owned(),
        },
        ResolveError::MalformedPointer {
            reference: "#/x".to_owned(),
        },
        ResolveError::UnsupportedRootSection {
            section: "info".to_owned(),
        },
        ResolveError::UnknownSection {
            section: "request_bodies".to_owned(),
        },
        ResolveError::ComponentsMissing {
            section: Section::Schemas,
        },
        ResolveError::NotFound {
            section: Section::Schemas,
            name: "Pet".to_owned(),
        },
        ResolveError::SectionMismatch {
            expected: Section::Schemas,
            found: Section::Responses,
        },
        ResolveError::PointerTooDeep {
            reference: "#/a/b/c/d".to_owned(),
        },
        ResolveError::ReferenceChainTooLong {
            reference: "#/components/schemas/A".to_owned(),
            last: "#/components/schemas/B".to_owned(),
            max_hops: 100,
        },
        ResolveError::CyclicReference {
            reference: "#/components/schemas/Node".to_owned(),
        },
        ResolveError::DiscriminatorMappingMismatch {
            property_name: "kind".to_owned(),
            value: "cat".to_owned(),
            schema: "Cat".to_owned(),
        },
    ];

    let mut rendered: Vec<String> = Vec::new();
    for error in &errors {
        let message = error.message();
        let subject = match error {
            ResolveError::NotALocalReference { reference } => reference,
            ResolveError::ExternalDocument { document } => document,
            ResolveError::MalformedPointer { reference } => reference,
            ResolveError::UnsupportedRootSection { section } => section,
            ResolveError::UnknownSection { section } => section,
            ResolveError::ComponentsMissing { .. } => "components/schemas",
            ResolveError::NotFound { name, .. } => name,
            ResolveError::SectionMismatch { .. } => "components/responses",
            ResolveError::PointerTooDeep { reference } => reference,
            ResolveError::ReferenceChainTooLong { last, .. } => last,
            ResolveError::CyclicReference { reference } => reference,
            ResolveError::DiscriminatorMappingMismatch { schema, .. } => schema,
            _ => panic!("unhandled variant: {error:?}"),
        };
        assert!(
            message.contains(subject),
            "{message:?} does not name {subject:?}"
        );
        rendered.push(message);
    }

    let mut distinct = rendered.clone();
    distinct.sort();
    distinct.dedup();
    assert_eq!(
        distinct.len(),
        rendered.len(),
        "two variants render the same message"
    );
}

#[test]
fn messages_render_exactly() {
    assert_eq!(
        ResolveError::NotFound {
            section: Section::Schemas,
            name: "Pet".to_owned()
        }
        .message(),
        "`components/schemas` does not contain `Pet`"
    );
    assert_eq!(
        ResolveError::ReferenceChainTooLong {
            reference: "#/components/schemas/A".to_owned(),
            last: "#/components/schemas/B".to_owned(),
            max_hops: 100,
        }
        .message(),
        "`#/components/schemas/A` did not reach an item within 100 hops, still at `#/components/schemas/B` (cyclic?)"
    );
    assert_eq!(
        ResolveError::ReferenceChainTooLong {
            reference: "a".to_owned(),
            last: "b".to_owned(),
            max_hops: 7,
        }
        .message(),
        "`a` did not reach an item within 7 hops, still at `b` (cyclic?)"
    );
    assert_eq!(
        ResolveError::SectionMismatch {
            expected: Section::Schemas,
            found: Section::Paths
        }
        .message(),
        "expected a reference into `components/schemas` but got one into `paths`"
    );
}

#[test]
fn library_values_can_cross_threads() {
    fn assert_send_sync<T: Send + Sync>() {}
    assert_send_sync::<ResolveError>();
    assert_send_sync::<Section>();
    assert_send_sync::<openapiv3_resolve::DocumentIndex>();
    assert_send_sync::<openapiv3_resolve::Resolved<String>>();
}

#[test]
fn a_name_with_backticks_can_spell_out_another_kind_of_message() {
    let unknown = ResolveError::UnknownSection {
        section: "components/schemas` does not contain `".to_owned(),
    };
    let not_found = ResolveError::NotFound {
        section: Section::Schemas,
        name: "` is not a known section of `#/components".to_owned(),
    };
    assert_eq!(unknown.message(), not_found.message());
    let plain = ResolveError::NotFound {
        section: Section::Schemas,
        name: "#/components".to_owned(),
    };
    assert_ne!(
        ResolveError::UnknownSection { section: "components/schemas".to_owned() }.message(),
        plain.message()
    );
}
