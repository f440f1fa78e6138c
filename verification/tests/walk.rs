use indexmap::IndexMap;
use openapiv3::{OpenAPI, ReferenceOr, Schema, SchemaKind, Type};
use openapiv3_resolve::{walk, DocumentIndex, Entry, ResolveError, Section, MAX_REFERENCE_HOPS};

const SPEC: &str = r##"{
  "openapi": "3.0.0",
  "info": { "title": "Everything", "version": "1.0.0" },
  "paths": {
    "/pets": { "get": { "responses": {} } },
    "/pets/{id}": { "get": { "responses": {} } },
    "/alias": { "$ref": "#/paths/~1pets" }
  },
  "components": {
    "schemas": {
      "Pet": { "title": "Pet", "type": "string" },
      "PetAlias": { "$ref": "#/components/schemas/Pet" }
    },
    "responses": {
      "PetList": { "description": "pets" },
      "PetListAlias": { "$ref": "#/components/responses/PetList" }
    },
    "parameters": {
      "Limit": { "name": "limit", "in": "query", "schema": { "type": "integer" } },
      "LimitAlias": { "$ref": "#/components/parameters/Limit" }
    },
    "examples": {
      "One": { "value": 1 },
      "OneAlias": { "$ref": "#/components/examples/One" }
    },
    "requestBodies": {
      "CreatePet": { "content": {} },
      "CreatePetAlias": { "$ref": "#/components/requestBodies/CreatePet" }
    },
    "headers": {
      "XRate": { "schema": { "type": "string" } },
      "XRateAlias": { "$ref": "#/components/headers/XRate" }
    },
    "securitySchemes": {
      "ApiKey": { "type": "apiKey", "name": "key", "in": "header" },
      "ApiKeyAlias": { "$ref": "#/components/securitySchemes/ApiKey" }
    },
    "links": {
      "Self": { "operationId": "getPets" },
      "SelfAlias": { "$ref": "#/components/links/Self" }
    },
    "callbacks": {
      "OnEvent": {},
      "OnEventAlias": { "$ref": "#/components/callbacks/OnEvent" }
    }
  }
}"##;

fn add_section<T>(index: &mut DocumentIndex, section: Section, entries: &IndexMap<String, ReferenceOr<T>>) {
    for (name, entry) in entries {
        let entry = match entry {
            ReferenceOr::Item(_) => Entry::Item,
            ReferenceOr::Reference { reference } => Entry::Reference(reference.clone()),
        };
        index.add(section, name.clone(), entry);
    }
}

/// The reference structure of a parsed document.
fn index_of(openapi: &OpenAPI) -> DocumentIndex {
    let mut index = DocumentIndex::new(openapi.components.is_some());
    add_section(&mut index, Section::Paths, &openapi.paths.paths);
    if let Some(c) = &openapi.components {
        add_section(&mut index, Section::Callbacks, &c.callbacks);
        add_section(&mut index, Section::Examples, &c.examples);
        add_section(&mut index, Section::Headers, &c.headers);
        add_section(&mut index, Section::Links, &c.links);
        add_section(&mut index, Section::Parameters, &c.parameters);
        add_section(&mut index, Section::RequestBodies, &c.request_bodies);
        add_section(&mut index, Section::Responses, &c.responses);
        add_section(&mut index, Section::Schemas, &c.schemas);
        add_section(&mut index, Section::SecuritySchemes, &c.security_schemes);
    }
    index
}

fn spec() -> OpenAPI {
    serde_json::from_str(SPEC).expect("fixture spec parses")
}

fn with_schemas(schemas: &str) -> OpenAPI {
    serde_json::from_str(&format!(
        r##"{{"openapi":"3.0.0","info":{{"title":"t","version":"1"}},"paths":{{}},
            "components":{{"schemas":{{{schemas}}}}}}}"##
    ))
    .expect("fixture spec parses")
}

/// A document whose schemas form `s0 -> s1 -> ... -> s{hops}`, ending in an item.
fn chain(hops: usize) -> OpenAPI {
    let mut schemas = String::new();
    for hop in 0..hops {
        schemas.push_str(&format!(
            r##""s{hop}": {{ "$ref": "#/components/schemas/s{}" }},"##,
            hop + 1
        ));
    }
    schemas.push_str(&format!(
        r##""s{hops}": {{ "title": "end", "type": "string" }}"##
    ));
    with_schemas(&schemas)
}

/// Resolves `reference` to a schema of `openapi` the way the library walks it.
fn resolve_schema<'a>(openapi: &'a OpenAPI, reference: &str) -> Result<&'a Schema, ResolveError> {
    let index = index_of(openapi);
    let name = walk(&index, Section::Schemas, reference)?.into_owned();
    let schemas = &openapi.components.as_ref().expect("has components").schemas;
    match schemas.get(&name) {
        Some(ReferenceOr::Item(schema)) => Ok(schema),
        _ => panic!("a walk ends at an inline item"),
    }
}

fn title(schema: &Schema) -> Option<&str> {
    schema.schema_data.title.as_deref()
}

fn schema_error(openapi: &OpenAPI, reference: &str) -> ResolveError {
    let index = index_of(openapi);
    walk(&index, Section::Schemas, reference).expect_err("expected this reference to fail")
}

fn reference_of<T>(entry: &ReferenceOr<T>) -> &str {
    match entry {
        ReferenceOr::Reference { reference } => reference,
        ReferenceOr::Item(_) => panic!("expected a reference"),
    }
}

#[test]
fn resolves_the_longest_chain_that_stays_within_the_hop_limit() {
    let openapi = chain(MAX_REFERENCE_HOPS - 1);
    let schema = resolve_schema(&openapi, "#/components/schemas/s0")
        .expect("chain within the limit resolves");
    assert_eq!(title(schema), Some("end"));
}

#[test]
fn gives_up_on_a_chain_one_hop_past_the_limit() {
    let openapi = chain(MAX_REFERENCE_HOPS);
    assert_eq!(
        resolve_schema(&openapi, "#/components/schemas/s0"),
        Err(ResolveError::ReferenceChainTooLong {
            reference: "#/components/schemas/s0".to_owned(),
            last: format!("#/components/schemas/s{MAX_REFERENCE_HOPS}"),
            max_hops: MAX_REFERENCE_HOPS,
        })
    );
}

#[test]
fn gives_up_on_a_self_reference() {
    let openapi = with_schemas(r##""A": { "$ref": "#/components/schemas/A" }"##);
    assert_eq!(
        schema_error(&openapi, "#/components/schemas/A"),
        ResolveError::ReferenceChainTooLong {
            reference: "#/components/schemas/A".to_owned(),
            last: "#/components/schemas/A".to_owned(),
            max_hops: MAX_REFERENCE_HOPS,
        }
    );
}

#[test]
fn gives_up_on_a_two_node_cycle() {
    let openapi = with_schemas(
        r##""A": { "$ref": "#/components/schemas/B" },
           "B": { "$ref": "#/components/schemas/A" }"##,
    );
    assert!(matches!(
        schema_error(&openapi, "#/components/schemas/A"),
        ResolveError::ReferenceChainTooLong { .. }
    ));
}

#[test]
fn gives_up_on_a_cycle_reached_through_a_boxed_reference() {
    let openapi = with_schemas(
        r##""List": { "type": "array", "items": { "$ref": "#/components/schemas/Loop" } },
           "Loop": { "$ref": "#/components/schemas/Loop" }"##,
    );
    let list = resolve_schema(&openapi, "#/components/schemas/List")
        .expect("the array itself resolves");
    let SchemaKind::Type(Type::Array(array)) = &list.schema_kind else {
        panic!("expected an array schema");
    };
    let items = array.items.as_ref().expect("array has items");

    assert!(matches!(
        resolve_schema(&openapi, reference_of(items)),
        Err(ResolveError::ReferenceChainTooLong { .. })
    ));
}

#[test]
fn a_self_recursive_schema_is_not_a_cycle() {
    let openapi = with_schemas(
        r##""Node": { "title": "Node", "type": "array",
                     "items": { "$ref": "#/components/schemas/Node" } }"##,
    );
    let node = resolve_schema(&openapi, "#/components/schemas/Node")
        .expect("recursive schema resolves");
    let SchemaKind::Type(Type::Array(array)) = &node.schema_kind else {
        panic!("expected an array schema");
    };
    let items = array.items.as_ref().expect("array has items");
    let resolved = resolve_schema(&openapi, reference_of(items)).expect("items resolve back to Node");

    assert_eq!(title(resolved), Some("Node"));
}

#[test]
fn reports_a_reference_that_is_not_a_pointer() {
    assert_eq!(
        schema_error(&spec(), "Pet"),
        ResolveError::NotALocalReference {
            reference: "Pet".to_owned()
        }
    );
}

#[test]
fn reports_a_reference_into_another_document() {
    assert_eq!(
        schema_error(&spec(), "common.yaml#/components/schemas/Pet"),
        ResolveError::ExternalDocument {
            document: "common.yaml".to_owned()
        }
    );
}

#[test]
fn reports_a_pointer_that_names_no_component() {
    assert_eq!(
        schema_error(&spec(), "#/components/schemas"),
        ResolveError::MalformedPointer {
            reference: "#/components/schemas".to_owned()
        }
    );
}

#[test]
fn reports_a_root_section_that_holds_no_targets() {
    assert_eq!(
        schema_error(&spec(), "#/info/title"),
        ResolveError::UnsupportedRootSection {
            section: "info".to_owned()
        }
    );
}

#[test]
fn reports_the_rust_field_name_as_an_unknown_section() {
    assert_eq!(
        schema_error(&spec(), "#/components/request_bodies/CreatePet"),
        ResolveError::UnknownSection {
            section: "request_bodies".to_owned()
        }
    );
}

#[test]
fn reports_a_document_without_components() {
    let openapi: OpenAPI =
        serde_json::from_str(r#"{"openapi":"3.0.0","info":{"title":"t","version":"1"},"paths":{}}"#)
            .expect("fixture spec parses");
    assert_eq!(
        schema_error(&openapi, "#/components/schemas/Pet"),
        ResolveError::ComponentsMissing {
            section: Section::Schemas
        }
    );
}

#[test]
fn reports_a_name_the_section_does_not_contain() {
    assert_eq!(
        schema_error(&spec(), "#/components/schemas/Missing"),
        ResolveError::NotFound {
            section: Section::Schemas,
            name: "Missing".to_owned()
        }
    );
}

#[test]
fn reports_a_reference_into_the_wrong_section() {
    assert_eq!(
        schema_error(&spec(), "#/components/responses/PetList"),
        ResolveError::SectionMismatch {
            expected: Section::Schemas,
            found: Section::Responses
        }
    );
}

#[test]
fn reports_a_pointer_into_the_middle_of_a_component() {
    let reference = "#/components/schemas/Pet/properties/name";
    assert_eq!(
        schema_error(&spec(), reference),
        ResolveError::PointerTooDeep {
            reference: reference.to_owned()
        }
    );
}

#[test]
fn resolves_a_boxed_reference_from_array_items() {
    let openapi = with_schemas(
        r##""Pet": { "title": "Pet", "type": "string" },
           "Pets": { "type": "array", "items": { "$ref": "#/components/schemas/Pet" } }"##,
    );
    let pets = resolve_schema(&openapi, "#/components/schemas/Pets").expect("array schema resolves");
    let SchemaKind::Type(Type::Array(array)) = &pets.schema_kind else {
        panic!("expected an array schema");
    };
    let items = array.items.as_ref().expect("array has items");
    let resolved = resolve_schema(&openapi, reference_of(items)).expect("boxed reference resolves");
    assert_eq!(title(resolved), Some("Pet"));
}

#[test]
fn resolves_a_plain_reference_that_is_neither_inline_nor_boxed() {
    let openapi = with_schemas(r##""Pet": { "title": "Pet", "type": "string" }"##);
    let reference: ReferenceOr<Schema> =
        serde_json::from_str(r##"{ "$ref": "#/components/schemas/Pet" }"##).expect("parses");
    let resolved = resolve_schema(&openapi, reference_of(&reference)).expect("reference resolves");
    assert_eq!(title(resolved), Some("Pet"));
}

#[test]
fn a_plain_reference_to_a_missing_name_is_an_error() {
    let openapi = with_schemas(r##""Pet": { "title": "Pet", "type": "string" }"##);
    let reference: ReferenceOr<Schema> =
        serde_json::from_str(r##"{ "$ref": "#/components/schemas/Missing" }"##).expect("parses");
    assert_eq!(
        resolve_schema(&openapi, reference_of(&reference)),
        Err(ResolveError::NotFound {
            section: Section::Schemas,
            name: "Missing".to_owned()
        })
    );
}

fn section_resolves(section: Section, item: &str, alias: &str) {
    let openapi = spec();
    let index = index_of(&openapi);
    let direct = walk(&index, section, item).expect("the item resolves");
    let aliased = walk(&index, section, alias).expect("the alias resolves");
    assert_eq!(direct, aliased, "alias resolved to a different item");
}

#[test]
fn every_section_resolves_directly_and_through_an_alias() {
    section_resolves(Section::Schemas, "#/components/schemas/Pet", "#/components/schemas/PetAlias");
    section_resolves(Section::Responses, "#/components/responses/PetList", "#/components/responses/PetListAlias");
    section_resolves(Section::Parameters, "#/components/parameters/Limit", "#/components/parameters/LimitAlias");
    section_resolves(Section::Examples, "#/components/examples/One", "#/components/examples/OneAlias");
    section_resolves(
        Section::RequestBodies,
        "#/components/requestBodies/CreatePet",
        "#/components/requestBodies/CreatePetAlias",
    );
    section_resolves(Section::Headers, "#/components/headers/XRate", "#/components/headers/XRateAlias");
    section_resolves(
        Section::SecuritySchemes,
        "#/components/securitySchemes/ApiKey",
        "#/components/securitySchemes/ApiKeyAlias",
    );
    section_resolves(Section::Links, "#/components/links/Self", "#/components/links/SelfAlias");
    section_resolves(Section::Callbacks, "#/components/callbacks/OnEvent", "#/components/callbacks/OnEventAlias");
    section_resolves(Section::Paths, "#/paths/~1pets", "#/paths/~1alias");
}

#[test]
fn a_walk_returns_the_name_of_the_item_at_the_end() {
    let openapi = spec();
    let index = index_of(&openapi);
    assert_eq!(walk(&index, Section::Schemas, "#/components/schemas/PetAlias").unwrap(), "Pet");
    assert_eq!(walk(&index, Section::Paths, "#/paths/~1pets~1%7Bid%7D").unwrap(), "/pets/{id}");
}
