use linura::base::{Actor, ActorKind, RiskClass, SemanticReason};
use linura::ids::{
    ActorId, CapabilityId, IntentId, ProviderId, RequestId, ResourceId, ValidationError,
};
use linura::keyed::TextMap;
use linura::planner::{
    DesiredResource, DeterministicPlanner, PlanStatus, PlanStore, PlanStoreError, PlanningError,
    PlanningFreshness, PlanningObservation, ReconciliationPlan,
};

fn id<T>(result: Result<T, ValidationError>) -> T {
    result.unwrap_or_else(|error| panic!("{}", error.message()))
}

fn actor() -> Actor {
    Actor { id: id(ActorId::new("uid:1000")), kind: ActorKind::Human, interactive: true }
}

fn one(key: &str, value: &str) -> TextMap<String> {
    let mut m = TextMap::new();
    m.insert(key.to_string(), value.to_string());
    m
}

fn observation(active_state: &str) -> PlanningObservation {
    PlanningObservation {
        provider: id(ProviderId::new("systemd")),
        resource: id(ResourceId::new("systemd:unit:ssh.service")),
        observation_capability: id(CapabilityId::new("systemd.unit.observe")),
        authority: "synthetic-test".into(),
        evidence_id: "observation:test:ssh:1".into(),
        freshness: PlanningFreshness::Current,
        attributes: one("active_state", active_state),
    }
}

fn desired(active_state: &str) -> DesiredResource {
    DesiredResource {
        provider: id(ProviderId::new("systemd")),
        resource: id(ResourceId::new("systemd:unit:ssh.service")),
        observation_capability: id(CapabilityId::new("systemd.unit.observe")),
        state: one("active_state", active_state),
        reason: SemanticReason {
            summary: "keep SSH active".into(),
            intent_ids: vec![id(IntentId::new("intent:ssh"))],
            requirement_ids: vec![],
            capability_ids: vec![id(CapabilityId::new("remote.ssh"))],
        },
    }
}

fn plan(request: &str, want: &str, have: &str) -> ReconciliationPlan {
    DeterministicPlanner
        .plan_resource(id(RequestId::new(request)), actor(), desired(want), &observation(have))
        .unwrap_or_else(|error| panic!("{error:?}"))
}

#[test]
fn authoritative_diff_proposes_change_without_authorizing_execution() {
    let plan = plan("request:ssh-active", "active", "inactive");
    assert_eq!(plan.status, PlanStatus::ChangeProposed);
    assert_eq!(plan.prospective_risk, RiskClass::SystemMutation);
    assert!(!plan.execution_authorized);
    assert_eq!(plan.changes.len(), 1);
    assert_eq!(plan.changes[0].current.as_deref(), Some("inactive"));
    assert_eq!(plan.changes[0].desired, "active");
}

#[test]
fn unobserved_desired_attribute_blocks_plan() {
    let mut desired = desired("active");
    desired.state.insert("unit_file_state".into(), "enabled".into());
    let plan = DeterministicPlanner
        .plan_resource(
            id(RequestId::new("request:ssh-enabled")),
            actor(),
            desired,
            &observation("inactive"),
        )
        .unwrap_or_else(|error| panic!("{error:?}"));
    assert_eq!(plan.status, PlanStatus::Blocked);
    assert!(plan.has_blockers());
    assert!(plan.findings.iter().any(|finding| finding.code == "attribute-not-observed"));
    assert!(!plan.execution_authorized);
}

#[test]
fn already_satisfied_state_is_a_no_change_plan() {
    let plan = plan("request:ssh-no-change", "active", "active");
    assert_eq!(plan.status, PlanStatus::NoChange);
    assert_eq!(plan.prospective_risk, RiskClass::ReadOnly);
    assert!(plan.changes.is_empty());
}

#[test]
fn stale_observation_cannot_be_planned() {
    let mut stale = observation("inactive");
    stale.freshness = PlanningFreshness::Stale;
    let result = DeterministicPlanner.plan_resource(
        id(RequestId::new("request:stale")),
        actor(),
        desired("active"),
        &stale,
    );
    assert!(matches!(
        result,
        Err(PlanningError::ObservationNotCurrent(PlanningFreshness::Stale))
    ));
}

#[test]
fn plan_store_rejects_idempotency_key_reuse_for_different_plan() {
    let first = plan("request:idempotent", "active", "inactive");
    let second = plan("request:idempotent", "inactive", "inactive");
    let mut store = PlanStore::default();
    store.insert(first.clone()).unwrap_or_else(|error| panic!("{error:?}"));
    store.insert(first).unwrap_or_else(|error| panic!("{error:?}"));
    let result = store.insert(second);
    assert!(matches!(result, Err(PlanStoreError::IdempotencyConflict { .. })));
}

#[test]
fn plan_store_evicts_oldest_at_capacity() {
    assert_eq!(PlanStore::with_capacity(0).err(), Some(PlanStoreError::InvalidCapacity));
    let mut store = PlanStore::with_capacity(2).unwrap_or_else(|error| panic!("{error:?}"));
    let a = plan("request:a", "active", "inactive");
    let b = plan("request:b", "active", "inactive");
    let c = plan("request:c", "active", "inactive");
    store.insert(a.clone()).unwrap();
    store.insert(b.clone()).unwrap();
    store.insert(c.clone()).unwrap();
    assert_eq!(store.len(), 2);
    assert!(store.get(&a.id).is_none());
    assert!(store.get(&b.id).is_some());
    assert!(store.get(&c.id).is_some());
    assert!(!store.is_empty());
}

#[test]
fn route_mismatch_and_missing_evidence_are_refused() {
    let mut other = observation("active");
    other.resource = id(ResourceId::new("systemd:unit:dbus.service"));
    let result = DeterministicPlanner.plan_resource(
        id(RequestId::new("request:mismatch")),
        actor(),
        desired("active"),
        &other,
    );
    assert!(matches!(result, Err(PlanningError::ObservationIdentityMismatch(_))));
    let mut no_evidence = observation("active");
    no_evidence.evidence_id = "  ".into();
    let result = DeterministicPlanner.plan_resource(
        id(RequestId::new("request:no-evidence")),
        actor(),
        desired("active"),
        &no_evidence,
    );
    assert!(matches!(result, Err(PlanningError::InvalidObservation(_))));
}

#[test]
fn status_names_are_stable() {
    assert_eq!(PlanStatus::NoChange.as_str(), "no-change");
    assert_eq!(PlanStatus::ChangeProposed.as_str(), "change-proposed");
    assert_eq!(PlanStatus::Blocked.as_str(), "blocked");
    assert_eq!(PlanningFreshness::Future.as_str(), "future");
}
