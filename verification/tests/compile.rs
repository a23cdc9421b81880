use linura::base::{Actor, ActorKind};
use linura::capability::{
    CapabilityBlueprint, CapabilityCatalog, CapabilityRelation, CapabilityRelationKind,
    DesiredResourceBlueprint,
};
use linura::compile::IntentPlan;
use linura::ids::{
    ActorId, CapabilityId, IntentId, ProviderId, RequirementId, ResourceId, ValidationError,
};
use linura::intent::{Intent, IntentStatus, Requirement, RequirementKind};
use linura::keyed::TextMap;
use linura::planner::{DesiredStateValidationError, DeterministicPlanner, PlanningError};

fn id<T>(result: Result<T, ValidationError>) -> T {
    result.unwrap_or_else(|error| panic!("{}", error.message()))
}

fn cap(name: &str) -> CapabilityId {
    id(CapabilityId::new(name))
}

fn actor() -> Actor {
    Actor { id: id(ActorId::new("uid:1000")), kind: ActorKind::Human, interactive: true }
}

fn intent() -> Intent {
    Intent {
        id: id(IntentId::new("intent:ssh")),
        actor: actor(),
        statement: "keep the SSH service active".into(),
        status: IntentStatus::Active,
        requirements: vec![Requirement {
            id: id(RequirementId::new("requirement:ssh-active")),
            kind: RequirementKind::Goal,
            statement: "SSH service is active".into(),
        }],
        supersedes: vec![],
    }
}

fn state(pairs: &[(&str, &str)]) -> TextMap<String> {
    let mut m = TextMap::new();
    for (k, v) in pairs {
        m.insert(k.to_string(), v.to_string());
    }
    m
}

fn template(resource: &str, pairs: &[(&str, &str)]) -> DesiredResourceBlueprint {
    DesiredResourceBlueprint {
        provider: id(ProviderId::new("systemd")),
        resource: id(ResourceId::new(resource)),
        observation_capability: cap("systemd.unit.observe"),
        state: state(pairs),
    }
}

fn blueprint(
    capability: &str,
    relations: Vec<CapabilityRelation>,
    desired_resources: Vec<DesiredResourceBlueprint>,
) -> CapabilityBlueprint {
    CapabilityBlueprint {
        id: cap(capability),
        title: capability.into(),
        relations,
        desired_resources,
    }
}

fn systemd_blueprint(capability: &str, desired_active_state: &str) -> CapabilityBlueprint {
    blueprint(
        capability,
        vec![],
        vec![template("systemd:unit:ssh.service", &[("active_state", desired_active_state)])],
    )
}

fn compile(catalog: &CapabilityCatalog, requested: &[CapabilityId]) -> Result<IntentPlan, PlanningError> {
    DeterministicPlanner.compile_intent(&intent(), catalog, requested)
}

#[test]
fn intent_compilation_is_deterministic_and_preserves_origins() {
    let capability = cap("remote.ssh");
    let mut catalog = CapabilityCatalog::default();
    catalog.register(systemd_blueprint("remote.ssh", "active"));
    let planner = DeterministicPlanner;

    let first = planner
        .compile_intent(&intent(), &catalog, std::slice::from_ref(&capability))
        .unwrap_or_else(|error| panic!("{}", error.message()));
    let second = planner
        .compile_intent(&intent(), &catalog, std::slice::from_ref(&capability))
        .unwrap_or_else(|error| panic!("{}", error.message()));

    assert_eq!(first, second);
    assert_eq!(first.desired_state.resources.len(), 1);
    let resource = &first.desired_state.resources[0];
    assert_eq!(resource.state.get("active_state").map(String::as_str), Some("active"));
    assert_eq!(resource.reason.intent_ids, vec![id(IntentId::new("intent:ssh"))]);
    assert_eq!(
        resource.reason.requirement_ids,
        vec![id(RequirementId::new("requirement:ssh-active"))]
    );
    assert_eq!(resource.reason.capability_ids, vec![capability]);
}

#[test]
fn conflicting_capability_desired_state_fails_closed() {
    let mut catalog = CapabilityCatalog::default();
    catalog.register(systemd_blueprint("remote.ssh.active", "active"));
    catalog.register(systemd_blueprint("remote.ssh.inactive", "inactive"));
    let requested = vec![cap("remote.ssh.active"), cap("remote.ssh.inactive")];

    let result = DeterministicPlanner.compile_intent(&intent(), &catalog, &requested);
    assert!(matches!(result, Err(PlanningError::DesiredStateConflict { .. })));
}

#[test]
fn desired_state_conflict_names_the_first_clash() {
    let mut catalog = CapabilityCatalog::default();
    catalog.register(systemd_blueprint("remote.ssh.active", "active"));
    catalog.register(systemd_blueprint("remote.ssh.inactive", "inactive"));
    // Requested in the other order: selection order is identifier order.
    let requested = vec![cap("remote.ssh.inactive"), cap("remote.ssh.active")];
    match compile(&catalog, &requested) {
        Err(PlanningError::DesiredStateConflict { resource, key, first, second }) => {
            assert_eq!(resource.as_str(), "systemd:unit:ssh.service");
            assert_eq!(key, "active_state");
            assert_eq!(first, "active");
            assert_eq!(second, "inactive");
        },
        other => panic!("unexpected {other:?}"),
    }
}

#[test]
fn blank_statement_is_refused_before_resolution() {
    let mut blank = intent();
    blank.statement = "  \t ".into();
    blank.status = IntentStatus::Retired;
    let catalog = CapabilityCatalog::default();
    let result = DeterministicPlanner.compile_intent(&blank, &catalog, &[cap("x")]);
    assert_eq!(result, Err(PlanningError::EmptyIntentStatement));
}

#[test]
fn retired_intent_is_refused() {
    let mut retired = intent();
    retired.status = IntentStatus::Retired;
    let catalog = CapabilityCatalog::default();
    let planner = DeterministicPlanner;
    assert_eq!(
        planner.resolve_capabilities(&retired, &catalog, &[cap("x")]),
        Err(PlanningError::RetiredIntent)
    );
    assert_eq!(
        planner.compile_intent(&retired, &catalog, &[cap("x")]),
        Err(PlanningError::RetiredIntent)
    );
}

#[test]
fn missing_capability_is_refused_with_the_first_missing() {
    let mut catalog = CapabilityCatalog::default();
    catalog.register(blueprint(
        "c.top",
        vec![
            CapabilityRelation { kind: CapabilityRelationKind::Requires, capability: cap("b.gone") },
            CapabilityRelation { kind: CapabilityRelationKind::Requires, capability: cap("a.gone") },
        ],
        vec![],
    ));
    let result = compile(&catalog, &[cap("c.top")]);
    assert_eq!(result, Err(PlanningError::MissingCapability(cap("a.gone"))));
}

#[test]
fn conflicting_capabilities_are_refused() {
    let mut catalog = CapabilityCatalog::default();
    catalog.register(blueprint(
        "x",
        vec![CapabilityRelation { kind: CapabilityRelationKind::Conflicts, capability: cap("y") }],
        vec![],
    ));
    catalog.register(blueprint("y", vec![], vec![]));
    let planner = DeterministicPlanner;
    assert_eq!(
        planner.resolve_capabilities(&intent(), &catalog, &[cap("x"), cap("y")]),
        Err(PlanningError::Conflict(cap("x"), cap("y")))
    );
}

#[test]
fn contributions_merge_by_route_in_route_order() {
    let mut catalog = CapabilityCatalog::default();
    catalog.register(blueprint(
        "b.ssh",
        vec![],
        vec![
            template("systemd:unit:ssh.service", &[("active_state", "active")]),
            template("systemd:unit:cron.service", &[("active_state", "active")]),
        ],
    ));
    catalog.register(blueprint(
        "a.ssh",
        vec![],
        vec![template(
            "systemd:unit:ssh.service",
            &[("active_state", "active"), ("unit_file_state", "enabled")],
        )],
    ));
    let plan = compile(&catalog, &[cap("b.ssh"), cap("a.ssh")])
        .unwrap_or_else(|error| panic!("{}", error.message()));
    let resources = &plan.desired_state.resources;
    assert_eq!(resources.len(), 2);
    assert_eq!(resources[0].resource.as_str(), "systemd:unit:cron.service");
    assert_eq!(resources[0].reason.capability_ids, vec![cap("b.ssh")]);
    assert_eq!(resources[1].resource.as_str(), "systemd:unit:ssh.service");
    assert_eq!(resources[1].state.len(), 2);
    assert_eq!(resources[1].state.get("unit_file_state").map(String::as_str), Some("enabled"));
    assert_eq!(resources[1].reason.capability_ids, vec![cap("a.ssh"), cap("b.ssh")]);
    assert_eq!(resources[1].reason.summary, "keep the SSH service active");
    assert!(plan.warnings.is_empty());
    let selected: Vec<&str> = plan.capability_resolution.selected.iter().map(|c| c.as_str()).collect();
    assert_eq!(selected, vec!["a.ssh", "b.ssh"]);
}

#[test]
fn silent_capabilities_are_warned_about_in_order() {
    let mut catalog = CapabilityCatalog::default();
    catalog.register(systemd_blueprint("remote.ssh", "active"));
    catalog.register(blueprint("z.quiet", vec![], vec![]));
    catalog.register(blueprint("m.quiet", vec![], vec![]));
    let plan = compile(&catalog, &[cap("z.quiet"), cap("remote.ssh"), cap("m.quiet")])
        .unwrap_or_else(|error| panic!("{}", error.message()));
    assert_eq!(
        plan.warnings,
        vec![
            "capability m.quiet contributes no desired resources".to_string(),
            "capability z.quiet contributes no desired resources".to_string(),
        ]
    );
    assert_eq!(plan.intent_id, id(IntentId::new("intent:ssh")));
}

#[test]
fn nothing_contributed_is_an_invalid_desired_state() {
    let mut catalog = CapabilityCatalog::default();
    catalog.register(blueprint("quiet", vec![], vec![]));
    let result = compile(&catalog, &[cap("quiet")]);
    assert_eq!(
        result,
        Err(PlanningError::InvalidDesiredState(
            DesiredStateValidationError::EmptyDesiredState.message()
        ))
    );
}

#[test]
fn empty_template_state_is_an_invalid_desired_state() {
    let mut catalog = CapabilityCatalog::default();
    catalog.register(blueprint("bare", vec![], vec![template("systemd:unit:ssh.service", &[])]));
    let result = compile(&catalog, &[cap("bare")]);
    assert_eq!(
        result,
        Err(PlanningError::InvalidDesiredState(
            "desired resource systemd:unit:ssh.service must contain at least one state attribute"
                .to_string()
        ))
    );
}

#[test]
fn first_conflict_follows_resolution_order() {
    let mut catalog = CapabilityCatalog::default();
    let conflicts = |target: &str| vec![CapabilityRelation { kind: CapabilityRelationKind::Conflicts, capability: cap(target) }];
    catalog.register(blueprint("p", vec![], vec![]));
    catalog.register(blueprint("q", vec![], vec![]));
    catalog.register(blueprint("r", conflicts("q"), vec![]));
    catalog.register(blueprint("s", conflicts("p"), vec![]));
    let requested = [cap("p"), cap("q"), cap("r"), cap("s")];
    let resolution = catalog.resolve(&requested);
    let pairs: Vec<(&str, &str)> = resolution.conflicts.iter().map(|(a, b)| (a.as_str(), b.as_str())).collect();
    assert_eq!(pairs, vec![("r", "q"), ("s", "p")]);
    let planner = DeterministicPlanner;
    assert_eq!(
        planner.resolve_capabilities(&intent(), &catalog, &requested),
        Err(PlanningError::Conflict(cap("r"), cap("q")))
    );
    let found_while_selecting = catalog.resolve(&[cap("s"), cap("p")]);
    let pairs: Vec<(&str, &str)> =
        found_while_selecting.conflicts.iter().map(|(a, b)| (a.as_str(), b.as_str())).collect();
    assert_eq!(pairs, vec![("s", "p")]);
}
