use openapiv3_resolve::{ResolutionLedger, ResolveError, Section, Visit};

#[test]
fn the_first_visit_starts_and_later_ones_share() {
    let mut ledger = ResolutionLedger::new();
    let pointer = "#/components/parameters/Limit";
    assert_eq!(ledger.visit(Section::Parameters, "Limit", false, pointer), Ok(Visit::Start));
    ledger.finish(Section::Parameters, "Limit");
    assert_eq!(ledger.visit(Section::Parameters, "Limit", false, pointer), Ok(Visit::Ready));
    assert_eq!(ledger.visit(Section::Parameters, "Limit", true, pointer), Ok(Visit::Ready));
}

#[test]
fn a_component_reached_while_in_progress_is_a_cycle() {
    let mut ledger = ResolutionLedger::new();
    assert_eq!(ledger.visit(Section::Headers, "X", false, "#/components/headers/X"), Ok(Visit::Start));
    assert_eq!(
        ledger.visit(Section::Headers, "X", false, "#/components/headers/X"),
        Err(ResolveError::CyclicReference {
            reference: "#/components/headers/X".to_owned()
        })
    );
}

#[test]
fn a_nested_schema_in_progress_is_a_back_edge() {
    let mut ledger = ResolutionLedger::new();
    let pointer = "#/components/schemas/Node";
    assert_eq!(ledger.visit(Section::Schemas, "Node", true, pointer), Ok(Visit::Start));
    assert_eq!(ledger.visit(Section::Schemas, "Node", true, pointer), Ok(Visit::Recursive));
    ledger.finish(Section::Schemas, "Node");
    assert_eq!(ledger.visit(Section::Schemas, "Node", true, pointer), Ok(Visit::Ready));
}

#[test]
fn same_names_in_different_sections_do_not_collide() {
    let mut ledger = ResolutionLedger::new();
    assert_eq!(ledger.visit(Section::Schemas, "Pet", false, "a"), Ok(Visit::Start));
    assert_eq!(ledger.visit(Section::Responses, "Pet", false, "b"), Ok(Visit::Start));
    ledger.finish(Section::Responses, "Pet");
    assert_eq!(
        ledger.visit(Section::Schemas, "Pet", false, "a"),
        Err(ResolveError::CyclicReference { reference: "a".to_owned() })
    );
}
