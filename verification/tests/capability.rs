use linura::capability::{
    CapabilityBlueprint, CapabilityCatalog, CapabilityRelation, CapabilityRelationKind,
};
use linura::ids::{CapabilityId, ValidationError};

fn id(result: Result<CapabilityId, ValidationError>) -> CapabilityId {
    result.unwrap_or_else(|error| panic!("{}", error.message()))
}

fn blueprint(name: &str, relations: Vec<(CapabilityRelationKind, &str)>) -> CapabilityBlueprint {
    CapabilityBlueprint {
        id: id(CapabilityId::new(name)),
        title: name.into(),
        relations: relations
            .into_iter()
            .map(|(kind, target)| CapabilityRelation { kind, capability: id(CapabilityId::new(target)) })
            .collect(),
        desired_resources: vec![],
    }
}

#[test]
fn required_capabilities_are_selected() {
    let ai = id(CapabilityId::new("development.ai"));
    let python = id(CapabilityId::new("development.python"));
    let mut catalog = CapabilityCatalog::default();
    catalog.register(CapabilityBlueprint {
        id: ai.clone(),
        title: "AI development".into(),
        relations: vec![CapabilityRelation { kind: CapabilityRelationKind::Requires, capability: python.clone() }],
        desired_resources: vec![],
    });
    catalog.register(CapabilityBlueprint {
        id: python.clone(),
        title: "Python".into(),
        relations: vec![],
        desired_resources: vec![],
    });
    let resolution = catalog.resolve(&[ai]);
    assert!(resolution.selected.contains(&python));
    assert!(resolution.missing.is_empty());
}

#[test]
fn unknown_requirements_are_missing_and_selection_is_sorted() {
    let mut catalog = CapabilityCatalog::default();
    catalog.register(blueprint("b.top", vec![(CapabilityRelationKind::Requires, "a.unknown")]));
    let resolution = catalog.resolve(&[id(CapabilityId::new("b.top"))]);
    let names: Vec<&str> = resolution.selected.iter().map(|c| c.as_str()).collect();
    assert_eq!(names, vec!["a.unknown", "b.top"]);
    assert_eq!(resolution.missing, vec![id(CapabilityId::new("a.unknown"))]);
    assert!(resolution.conflicts.is_empty());
}

#[test]
fn conflicts_among_selected_capabilities_are_listed_once() {
    let mut catalog = CapabilityCatalog::default();
    catalog.register(blueprint("x", vec![(CapabilityRelationKind::Conflicts, "y")]));
    catalog.register(blueprint("y", vec![(CapabilityRelationKind::Conflicts, "x")]));
    catalog.register(blueprint("z", vec![(CapabilityRelationKind::Conflicts, "w")]));
    let resolution =
        catalog.resolve(&[id(CapabilityId::new("x")), id(CapabilityId::new("y")), id(CapabilityId::new("z"))]);
    assert_eq!(resolution.conflicts.len(), 1);
    let (a, b) = &resolution.conflicts[0];
    assert!((a.as_str(), b.as_str()) == ("x", "y") || (a.as_str(), b.as_str()) == ("y", "x"));
    assert!(resolution.missing.is_empty());
}

#[test]
fn requirement_cycles_terminate() {
    let mut catalog = CapabilityCatalog::default();
    catalog.register(blueprint("p", vec![(CapabilityRelationKind::Requires, "q")]));
    catalog.register(blueprint("q", vec![(CapabilityRelationKind::Requires, "p")]));
    let resolution = catalog.resolve(&[id(CapabilityId::new("p"))]);
    assert_eq!(resolution.selected.len(), 2);
}
