use linura::base::{Actor, ActorKind, Capability, RiskClass, SemanticReason, SupportLevel};
use linura::ids::{ActorId, CapabilityId, IntentId, PlanId, ProviderId, RequestId, ResourceId, ValidationError};
use linura::keyed::TextMap;
use linura::observation::{
    FreshnessState, ObservationAuthority, ObservationEnvelope, ObservedValue, ProviderAvailability, ProviderHealth,
};
use linura::observation_control::ObservationCoordinator;
use linura::planner::{DeterministicPlanner, PlanStatus, ReconciliationPlan};
use linura::preview::{
    estimate_input_bytes, estimate_key_bytes, estimate_plan_bytes, planning_observation, preview_from_plan,
    AuthenticatedPrincipal, NormalizedPlanInput, PlanPreviewControl, PlanPreviewControlError, PreviewKey,
    PreviewStore, MAX_PRINCIPAL_BYTES, MAX_SUMMARY_BYTES,
};
use linura::protocol::{ObservationResponse, PlanDesiredStateRequest};
use linura::testkit::FakeObserver;

fn id<T>(result: Result<T, ValidationError>) -> T {
    result.unwrap_or_else(|error| panic!("{}", error.message()))
}

fn actor(value: &str) -> Actor {
    Actor { id: id(ActorId::new(value)), kind: ActorKind::Service, interactive: false }
}

fn principal(value: &str) -> AuthenticatedPrincipal {
    AuthenticatedPrincipal::new(value).unwrap_or_else(|error| panic!("{:?}", error))
}

fn request(request_id: &str, desired: &str) -> PlanDesiredStateRequest {
    let mut desired_state = TextMap::new();
    desired_state.insert("active_state".into(), desired.into());
    PlanDesiredStateRequest {
        request_id: id(RequestId::new(request_id)),
        provider: id(ProviderId::new("systemd")),
        resource: id(ResourceId::new("systemd:unit:test.service")),
        observation_capability: id(CapabilityId::new("systemd.unit.observe")),
        reason: SemanticReason {
            summary: "keep test active".into(),
            intent_ids: vec![id(IntentId::new("intent:test"))],
            requirement_ids: vec![],
            capability_ids: vec![],
        },
        desired_state,
    }
}

fn input(principal: AuthenticatedPrincipal, request_id: &str, desired: &str) -> NormalizedPlanInput {
    NormalizedPlanInput::new(principal, request(request_id, desired)).unwrap_or_else(|error| panic!("{:?}", error))
}

fn envelope(observed_at_unix_ms: u64) -> ObservationEnvelope {
    let mut attributes = TextMap::new();
    attributes.insert("active_state".into(), ObservedValue::Text("inactive".into()));
    ObservationEnvelope {
        provider: id(ProviderId::new("systemd")),
        resource: id(ResourceId::new("systemd:unit:test.service")),
        capability: id(CapabilityId::new("systemd.unit.observe")),
        authority: ObservationAuthority::SyntheticTest,
        observed_at_unix_ms,
        valid_for_ms: 1_000,
        sequence: 1,
        attributes,
    }
}

fn plan(input: &NormalizedPlanInput, actor: Actor, evidence: &str) -> ReconciliationPlan {
    let response = ObservationResponse { observation: envelope(1_000), freshness: FreshnessState::Current };
    let mut observation = planning_observation(&response);
    observation.evidence_id = evidence.into();
    DeterministicPlanner
        .plan_resource(input.request().request_id.clone(), actor, input.desired_resource(), &observation)
        .unwrap_or_else(|error| panic!("{}", error.message()))
}

fn bytes_of(input: &NormalizedPlanInput, plan: &ReconciliationPlan) -> usize {
    let key = PreviewKey::from_input(input).unwrap_or_else(|error| panic!("{:?}", error));
    estimate_key_bytes(&key).saturating_add(estimate_input_bytes(input)).saturating_add(estimate_plan_bytes(plan))
}

#[test]
fn principal_rejects_ambiguous_or_unbounded_values() {
    assert!(AuthenticatedPrincipal::new("").is_err());
    assert!(AuthenticatedPrincipal::new("unix:uid:1000\nspoof").is_err());
    assert!(AuthenticatedPrincipal::new(&"x".repeat(MAX_PRINCIPAL_BYTES + 1)).is_err());
}

#[test]
fn normalization_rejects_oversized_summary_before_observation() {
    let mut request = request("request:test", "active");
    request.reason.summary = "x".repeat(MAX_SUMMARY_BYTES + 1);
    assert!(NormalizedPlanInput::new(principal("unix:uid:1000"), request).is_err());
}

#[test]
fn stable_principal_can_replay_across_transport_actor_changes() {
    let input = input(principal("unix:uid:1000"), "request:retry", "active");
    let first = plan(&input, actor("dbus:first"), "evidence:first");
    let mut store = PreviewStore::default();
    store.insert(input.clone(), first.clone()).unwrap_or_else(|error| panic!("{:?}", error));
    let replay = store
        .replay(&input)
        .unwrap_or_else(|error| panic!("{:?}", error))
        .unwrap_or_else(|| panic!("retained preview missing"));
    assert_eq!(replay, first);
    assert_eq!(replay.actor.id.as_str(), "dbus:first");
}

#[test]
fn same_id_with_different_normalized_input_conflicts() {
    let owner = principal("unix:uid:1000");
    let first_input = input(owner.clone(), "request:conflict", "active");
    let second_input = input(owner, "request:conflict", "inactive");
    let first = plan(&first_input, actor("dbus:first"), "evidence:first");
    let mut store = PreviewStore::default();
    store.insert(first_input, first).unwrap_or_else(|error| panic!("{:?}", error));
    assert!(matches!(store.replay(&second_input), Err(PlanPreviewControlError::IdempotencyConflict { .. })));
}

#[test]
fn request_ids_are_namespaced_by_authenticated_principal() {
    let first_input = input(principal("unix:uid:1000"), "request:private", "active");
    let other_input = input(principal("unix:uid:1001"), "request:private", "inactive");
    let first = plan(&first_input, actor("dbus:first"), "evidence:first");
    let other = plan(&other_input, actor("dbus:other"), "evidence:other");
    let plan_id = first.id.clone();
    let mut store = PreviewStore::default();
    store.insert(first_input, first).unwrap_or_else(|error| panic!("{:?}", error));
    assert!(store.replay(&other_input).unwrap_or_else(|error| panic!("{:?}", error)).is_none());
    store.insert(other_input, other).unwrap_or_else(|error| panic!("{:?}", error));
    assert_eq!(store.len(), 2);
    assert_eq!(
        store
            .get(&principal("unix:uid:1000"), &plan_id)
            .unwrap_or_else(|| panic!("first principal preview missing"))
            .actor
            .id
            .as_str(),
        "dbus:first"
    );
    assert_eq!(
        store
            .get(&principal("unix:uid:1001"), &plan_id)
            .unwrap_or_else(|| panic!("second principal preview missing"))
            .actor
            .id
            .as_str(),
        "dbus:other"
    );
    assert!(store.get(&principal("unix:uid:1002"), &plan_id).is_none());
}

#[test]
fn retention_is_bounded_by_aggregate_bytes() {
    let owner = principal("unix:uid:1000");
    let first_input = input(owner.clone(), "request:one", "active");
    let first = plan(&first_input, actor("dbus:first"), "evidence:first");
    let first_bytes = bytes_of(&first_input, &first);
    let second_input = input(owner, "request:two", "active");
    let second = plan(&second_input, actor("dbus:second"), "evidence:second");
    let second_bytes = bytes_of(&second_input, &second);
    let aggregate_limit = first_bytes.max(second_bytes);
    let mut store = PreviewStore::with_limits(8, aggregate_limit, aggregate_limit)
        .unwrap_or_else(|error| panic!("{:?}", error));
    store.insert(first_input, first).unwrap_or_else(|error| panic!("{:?}", error));
    store.insert(second_input, second).unwrap_or_else(|error| panic!("{:?}", error));
    assert_eq!(store.len(), 1);
    assert!(store.retained_bytes() <= aggregate_limit);
}

#[test]
fn oversized_single_preview_is_rejected() {
    let input = input(principal("unix:uid:1000"), "request:oversized", "active");
    let plan = plan(&input, actor("dbus:first"), "evidence:first");
    let mut store = PreviewStore::with_limits(8, 1, 8).unwrap_or_else(|error| panic!("{:?}", error));
    assert!(store.insert(input, plan).is_err());
    assert_eq!(store.len(), 0);
}

#[test]
fn risk_projection_remains_non_executable() {
    let input = input(principal("unix:uid:1000"), "request:preview", "active");
    let preview = preview_from_plan(&plan(&input, actor("dbus:first"), "evidence:first"));
    assert_eq!(preview.prospective_risk, RiskClass::SystemMutation);
    assert!(!preview.execution_authorized);
}

#[test]
fn retention_limits_must_be_positive_and_ordered() {
    assert!(matches!(PreviewStore::with_limits(0, 1, 1), Err(PlanPreviewControlError::Retention { .. })));
    assert!(matches!(PreviewStore::with_limits(1, 2, 1), Err(PlanPreviewControlError::Retention { .. })));
    assert!(PreviewStore::with_limits(1, 1, 1).is_ok());
}

#[test]
fn capacity_evicts_oldest_preview_first() {
    let owner = principal("unix:uid:1000");
    let first_input = input(owner.clone(), "request:one", "active");
    let second_input = input(owner.clone(), "request:two", "active");
    let first = plan(&first_input, actor("dbus:first"), "evidence:first");
    let second = plan(&second_input, actor("dbus:second"), "evidence:second");
    let first_id = first.id.clone();
    let second_id = second.id.clone();
    let mut store = PreviewStore::with_limits(1, 1 << 20, 1 << 20).unwrap_or_else(|error| panic!("{:?}", error));
    store.insert(first_input, first).unwrap_or_else(|error| panic!("{:?}", error));
    store.insert(second_input, second).unwrap_or_else(|error| panic!("{:?}", error));
    assert_eq!(store.len(), 1);
    assert!(store.get(&owner, &first_id).is_none());
    assert!(store.get(&owner, &second_id).is_some());
}

#[test]
fn request_bounds_are_reported() {
    let mut empty = request("request:empty", "active");
    empty.desired_state = TextMap::new();
    assert_eq!(
        NormalizedPlanInput::new(principal("p"), empty).err(),
        Some(PlanPreviewControlError::InvalidRequest {
            reason: "desired state must contain between 1 and 128 attributes".into()
        })
    );
    let mut control = request("request:control", "active");
    control.reason.summary = "bad\u{7}".into();
    assert_eq!(
        NormalizedPlanInput::new(principal("p"), control).err(),
        Some(PlanPreviewControlError::InvalidRequest { reason: "semantic summary contains control characters".into() })
    );
    let mut no_origin = request("request:origin", "active");
    no_origin.reason.intent_ids = vec![];
    assert_eq!(
        NormalizedPlanInput::new(principal("p"), no_origin).err(),
        Some(PlanPreviewControlError::InvalidRequest {
            reason: "managed state must retain an intent, requirement, or capability origin".into()
        })
    );
    let mut bad_key = request("request:key", "active");
    bad_key.desired_state.insert("bad\tkey".into(), "x".into());
    assert_eq!(
        NormalizedPlanInput::new(principal("p"), bad_key).err(),
        Some(PlanPreviewControlError::InvalidRequest {
            reason: "desired resource systemd:unit:test.service contains invalid attribute key \"bad\\tkey\"".into()
        })
    );
}

fn control() -> PlanPreviewControl {
    let provider = id(ProviderId::new("systemd"));
    let observer = FakeObserver {
        provider: provider.clone(),
        capabilities: vec![Capability {
            id: id(CapabilityId::new("systemd.unit.observe")),
            support: SupportLevel::Supported,
            provider: Some(provider.clone()),
            reason: None,
        }],
        health: ProviderHealth { provider, availability: ProviderAvailability::Available, reason: None },
        resources: vec![id(ResourceId::new("systemd:unit:test.service"))],
        envelope: envelope(1_000),
        fail_resources: false,
        fail_observe: false,
    };
    let mut coordinator: ObservationCoordinator = ObservationCoordinator::new();
    coordinator.register_observer(Box::new(observer)).unwrap_or_else(|error| panic!("{:?}", error));
    PlanPreviewControl::new(coordinator)
}

#[test]
fn control_plans_replays_and_refuses_other_principals() {
    let mut control = control();
    let owner = principal("unix:uid:1000");
    let preview = control
        .plan_desired_state(owner.clone(), actor("dbus:first"), request("request:flow", "active"), 1_100)
        .unwrap_or_else(|error| panic!("{:?}", error));
    assert_eq!(preview.status, PlanStatus::ChangeProposed);
    assert!(!preview.execution_authorized);
    assert_eq!(preview.changes.len(), 1);
    let again = control
        .plan_desired_state(owner.clone(), actor("dbus:second"), request("request:flow", "active"), 5_000)
        .unwrap_or_else(|error| panic!("{:?}", error));
    assert_eq!(again, preview);
    assert!(matches!(
        control.plan_desired_state(owner.clone(), actor("dbus:first"), request("request:flow", "inactive"), 1_100),
        Err(PlanPreviewControlError::IdempotencyConflict { .. })
    ));
    let plan_id = id(PlanId::new("request:flow"));
    assert_eq!(control.get_plan_preview(&owner, &plan_id), Ok(preview));
    assert_eq!(
        control.explain_plan_preview(&principal("unix:uid:1001"), &plan_id),
        Err(PlanPreviewControlError::NotRetained { plan_id: plan_id.clone() })
    );
    assert_eq!(control.graph_snapshot().map(|g| g.nodes().len()), Ok(4));
}

#[test]
fn control_reports_stale_observation() {
    let mut control = control();
    let result = control.plan_desired_state(
        principal("unix:uid:1000"),
        actor("dbus:first"),
        request("request:stale", "active"),
        9_000,
    );
    assert_eq!(
        result,
        Err(PlanPreviewControlError::Observation { reason: "observation evidence is stale".into() })
    );
}

#[test]
fn control_reviews_only_retained_plans_of_the_principal() {
    let mut control = control();
    let owner = principal("unix:uid:1000");
    control
        .plan_desired_state(owner.clone(), actor("dbus:first"), request("request:review", "active"), 1_100)
        .unwrap_or_else(|error| panic!("{:?}", error));
    let plan_id = id(PlanId::new("request:review"));
    let review = control.review_plan(&owner, &plan_id).unwrap_or_else(|error| panic!("{:?}", error));
    assert_eq!(review.decision, linura::protocol::PlanReviewDecision::RequireApproval);
    assert_eq!(review.approval_class, Some(linura::policy::ApprovalClass::InteractiveUser));
    assert_eq!(review.planner_risk_floor, RiskClass::SystemMutation);
    assert!(!review.execution_authorized);
    assert_eq!(control.explain_plan_review(&owner, &plan_id), Ok(review));
    assert!(matches!(
        control.review_plan(&principal("unix:uid:1001"), &plan_id),
        Err(PlanPreviewControlError::NotRetained { .. })
    ));
}
