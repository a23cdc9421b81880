use linura::base::{Actor, ActorKind, RiskClass, SemanticReason};
use linura::ids::{
    ActorId, CapabilityId, IntentId, PlanId, PrincipalId, ProviderId, RequestId, ResourceId, ValidationError,
};
use linura::keyed::TextMap;
use linura::planner::{DesiredResource, DeterministicPlanner, PlanningFreshness, PlanningObservation};
use linura::policy::{ApprovalClass, PolicySubject, ReviewPlanStatus, ReviewedChange};
use linura::preview::AuthenticatedPrincipal;
use linura::protocol::PlanReviewDecision;
use linura::review::{plan_review_projection, policy_subject_from_plan, review_subject_for_control};

fn id<T>(result: Result<T, ValidationError>) -> T {
    result.unwrap_or_else(|error| panic!("{}", error.message()))
}

#[test]
fn canonical_plan_projects_exact_review_material() {
    let request_id = id(RequestId::new("request:review"));
    let actor = Actor { id: id(ActorId::new("actor:human")), kind: ActorKind::Human, interactive: true };
    let provider = id(ProviderId::new("systemd"));
    let resource = id(ResourceId::new("systemd:unit:test.service"));
    let capability = id(CapabilityId::new("systemd.unit.observe"));
    let mut state = TextMap::new();
    state.insert("active_state".into(), "active".into());
    let desired = DesiredResource {
        provider: provider.clone(),
        resource: resource.clone(),
        observation_capability: capability.clone(),
        state,
        reason: SemanticReason {
            summary: "keep test active".into(),
            intent_ids: vec![id(IntentId::new("intent:test"))],
            requirement_ids: vec![],
            capability_ids: vec![],
        },
    };
    let mut attributes = TextMap::new();
    attributes.insert("active_state".into(), "inactive".into());
    let observation = PlanningObservation {
        provider,
        resource,
        observation_capability: capability,
        authority: "authoritative".into(),
        evidence_id: "evidence:review".into(),
        freshness: PlanningFreshness::Current,
        attributes,
    };
    let plan = DeterministicPlanner
        .plan_resource(request_id, actor, desired, &observation)
        .unwrap_or_else(|error| panic!("{}", error.message()));
    let principal = AuthenticatedPrincipal::new("uid:1000").unwrap_or_else(|error| panic!("{:?}", error));

    let subject = policy_subject_from_plan(&principal, &plan).unwrap_or_else(|error| panic!("{:?}", error));

    assert_eq!(subject.principal().as_str(), "uid:1000");
    assert_eq!(subject.plan_id(), &plan.id);
    assert_eq!(subject.observed_evidence_id(), "evidence:review");
    assert_eq!(subject.reason(), &plan.reason);
    assert_eq!(subject.changes().len(), plan.changes.len());
    assert_eq!(subject.findings().len(), plan.findings.len());
    assert_eq!(subject.status(), ReviewPlanStatus::ChangeProposed);
}

#[test]
fn projection_is_non_executable_and_typed() {
    let subject = PolicySubject::try_new(
        id(PrincipalId::new("unix:uid:1000")),
        id(PlanId::new("request:test")),
        id(RequestId::new("request:test")),
        Actor { id: id(ActorId::new("actor:test")), kind: ActorKind::Service, interactive: false },
        id(ProviderId::new("systemd")),
        id(ResourceId::new("systemd:unit:test.service")),
        id(CapabilityId::new("systemd.unit.observe")),
        SemanticReason {
            summary: "review test".into(),
            intent_ids: vec![id(IntentId::new("intent:review-test"))],
            requirement_ids: vec![],
            capability_ids: vec![],
        },
        "evidence:test".into(),
        RiskClass::SecuritySensitive,
        ReviewPlanStatus::ChangeProposed,
        vec![ReviewedChange { key: "active_state".into(), current: Some("inactive".into()), desired: "active".into() }],
        vec![],
    )
    .unwrap_or_else(|error| panic!("{:?}", error));
    let review = review_subject_for_control(subject);
    let projection = plan_review_projection(RiskClass::SystemMutation, &review);
    assert_eq!(projection.planner_risk_floor, RiskClass::SystemMutation);
    assert_eq!(projection.reviewed_risk, RiskClass::SecuritySensitive);
    assert_eq!(projection.decision, PlanReviewDecision::RequireApproval);
    assert_eq!(projection.approval_class, Some(ApprovalClass::Administrator));
    assert!(!projection.execution_authorized);
    assert_eq!(projection.policy_id.as_str(), "policy:baseline");
    assert_eq!(projection.decision_reason, "security-sensitive mutation requires administrator approval");
}
