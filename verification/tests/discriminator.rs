use openapiv3_resolve::discriminator::{alternative_names, mapping_edge, schema_name};
use openapiv3_resolve::{DocumentIndex, Entry, MappingEdge, MappingTarget, ResolveError, Section};

/// Schemas `Cat` and `Dog` inline, `Kitty` a `$ref` to `Cat`.
fn animals() -> DocumentIndex {
    let mut index = DocumentIndex::new(true);
    index.add(Section::Schemas, "Cat".to_owned(), Entry::Item);
    index.add(Section::Schemas, "Dog".to_owned(), Entry::Item);
    index.add(
        Section::Schemas,
        "Kitty".to_owned(),
        Entry::Reference("#/components/schemas/Cat".to_owned()),
    );
    index
}

#[test]
fn a_value_with_a_hash_is_a_reference() {
    assert!(matches!(
        MappingTarget::classify("#/components/schemas/Cat"),
        MappingTarget::Reference("#/components/schemas/Cat")
    ));
    assert!(matches!(
        MappingTarget::classify("other.yaml#/Cat"),
        MappingTarget::Reference(_)
    ));
    assert!(matches!(MappingTarget::classify("Cat"), MappingTarget::Name("Cat")));
    assert!(matches!(MappingTarget::classify("a/b"), MappingTarget::Name("a/b")));
}

#[test]
fn names_and_references_agree_on_the_schema_they_denote() {
    let index = animals();
    assert_eq!(schema_name(&index, MappingTarget::Name("Cat")), Ok("Cat".to_owned()));
    assert_eq!(schema_name(&index, MappingTarget::Name("Kitty")), Ok("Cat".to_owned()));
    assert_eq!(
        schema_name(&index, MappingTarget::Reference("#/components/schemas/Kitty")),
        Ok("Cat".to_owned())
    );
    assert_eq!(
        schema_name(&index, MappingTarget::Name("Bird")),
        Err(ResolveError::NotFound {
            section: Section::Schemas,
            name: "Bird".to_owned()
        })
    );
}

#[test]
fn alternatives_skip_inline_ones_and_keep_positions() {
    let index = animals();
    let alternatives = vec![
        None,
        Some("#/components/schemas/Kitty".to_owned()),
        Some("#/components/schemas/Dog".to_owned()),
    ];
    assert_eq!(
        alternative_names(&index, &alternatives),
        Ok(vec![("Cat".to_owned(), 1), ("Dog".to_owned(), 2)])
    );
    let broken = vec![Some("#/components/schemas/Bird".to_owned()), Some("Dog".to_owned())];
    assert_eq!(
        alternative_names(&index, &broken),
        Err(ResolveError::NotFound {
            section: Section::Schemas,
            name: "Bird".to_owned()
        })
    );
}

#[test]
fn a_mapping_picks_the_alternative_it_names() {
    let index = animals();
    let named = vec![("Cat".to_owned(), 1), ("Dog".to_owned(), 2)];
    assert_eq!(
        mapping_edge(&index, Some(&named), "kind", "dog", MappingTarget::Name("Dog")),
        Ok(MappingEdge::Alternative(2))
    );
    assert_eq!(
        mapping_edge(
            &index,
            Some(&named),
            "kind",
            "cat",
            MappingTarget::Reference("#/components/schemas/Kitty")
        ),
        Ok(MappingEdge::Alternative(1))
    );
}

#[test]
fn a_mapping_to_another_schema_is_a_mismatch() {
    let index = animals();
    let named = vec![("Dog".to_owned(), 0)];
    assert_eq!(
        mapping_edge(&index, Some(&named), "kind", "cat", MappingTarget::Name("Kitty")),
        Err(ResolveError::DiscriminatorMappingMismatch {
            property_name: "kind".to_owned(),
            value: "cat".to_owned(),
            schema: "Cat".to_owned(),
        })
    );
}

#[test]
fn without_alternatives_a_mapping_names_a_schema_of_its_own() {
    let index = animals();
    assert_eq!(
        mapping_edge(&index, None, "kind", "cat", MappingTarget::Name("Kitty")),
        Ok(MappingEdge::Schema("Cat".to_owned()))
    );
}
