use linura::base::{Actor, ActorKind, RiskClass, SemanticReason};
use linura::ids::{
    ActorId, CapabilityId, IntentId, PlanId, ProviderId, RequestId, ResourceId, ValidationError,
};
use linura::keyed::TextMap;
use linura::protocol::{
    PlanDesiredStateRequest, PlanPreview, PlanPreviewChange, PlanPreviewFinding,
    PlanPreviewFindingLevel, PlanPreviewStatus, PlanReviewDecision,
};
use linura::policy::ApprovalClass;
use linura::wire::{
    plan_preview_from_wire, plan_preview_wire, plan_request_from_wire, plan_request_wire,
    plan_review_from_wire, plan_review_wire, PlanReviewWire,
};

fn id<T>(result: Result<T, ValidationError>) -> T {
    result.unwrap_or_else(|error| panic!("{}", error.message()))
}

fn request() -> PlanDesiredStateRequest {
    let mut desired_state = TextMap::new();
    desired_state.insert("active_state".into(), "active".into());
    PlanDesiredStateRequest {
        request_id: id(RequestId::new("request:test")),
        provider: id(ProviderId::new("systemd")),
        resource: id(ResourceId::new("systemd:unit:test.service")),
        observation_capability: id(CapabilityId::new("systemd.unit.observe")),
        reason: SemanticReason {
            summary: "keep test active".into(),
            intent_ids: vec![id(IntentId::new("intent:test"))],
            requirement_ids: vec![],
            capability_ids: vec![],
        },
        desired_state,
    }
}

fn preview() -> PlanPreview {
    PlanPreview {
        plan_id: id(PlanId::new("request:test")),
        request_id: id(RequestId::new("request:test")),
        actor: Actor { id: id(ActorId::new("dbus:test")), kind: ActorKind::Service, interactive: false },
        provider: id(ProviderId::new("systemd")),
        resource: id(ResourceId::new("systemd:unit:test.service")),
        observation_capability: id(CapabilityId::new("systemd.unit.observe")),
        reason: request().reason,
        observed_evidence_id: "evidence:test".into(),
        prospective_risk: RiskClass::SystemMutation,
        status: PlanPreviewStatus::ChangeProposed,
        execution_authorized: false,
        changes: vec![PlanPreviewChange {
            key: "active_state".into(),
            current: Some("inactive".into()),
            desired: "active".into(),
        }],
        findings: vec![PlanPreviewFinding {
            code: "plan.valid".into(),
            level: PlanPreviewFindingLevel::Pass,
            message: "preview is valid".into(),
        }],
    }
}

#[test]
fn typed_request_round_trips_through_wire() {
    let request = request();
    let decoded = plan_request_from_wire(plan_request_wire(&request))
        .unwrap_or_else(|error| panic!("{error}"));
    assert_eq!(decoded, request);
}

#[test]
fn request_decoder_rejects_duplicate_desired_state_keys() {
    let mut wire = plan_request_wire(&request());
    wire.2.push(("active_state".into(), "inactive".into()));
    assert_eq!(
        plan_request_from_wire(wire).err().as_deref(),
        Some("desired state contains duplicate attribute \"active_state\"")
    );
}

fn protected_review_wire(reviewed_risk: &str, approval_class: &str) -> PlanReviewWire {
    let preview_wire = plan_preview_wire(&preview());
    (
        preview_wire.0,
        "uid:1000".into(),
        preview_wire.1,
        preview_wire.2,
        preview_wire.3,
        preview_wire.4,
        (
            "system-mutation".into(),
            reviewed_risk.into(),
            preview_wire.6,
            "policy:baseline".into(),
            "policy:baseline:v1".into(),
        ),
        (
            "require-approval".into(),
            true,
            approval_class.into(),
            "trusted policy requires approval".into(),
            false,
        ),
        preview_wire.8,
        preview_wire.9,
    )
}

#[test]
fn review_wire_decoder_enforces_approval_strength_from_reviewed_risk() {
    assert!(plan_review_from_wire(protected_review_wire("system-mutation", "interactive-user")).is_ok());
    assert!(plan_review_from_wire(protected_review_wire("security-sensitive", "administrator")).is_ok());
    assert!(plan_review_from_wire(protected_review_wire("destructive", "destructive-action")).is_ok());
    assert!(plan_review_from_wire(protected_review_wire("security-sensitive", "interactive-user")).is_err());
    assert!(plan_review_from_wire(protected_review_wire("destructive", "administrator")).is_err());
}

fn blocked_review_wire(decision: &str) -> PlanReviewWire {
    let mut wire = protected_review_wire("read-only", "interactive-user");
    wire.6.0 = "read-only".into();
    wire.6.1 = "read-only".into();
    wire.6.2 = "blocked".into();
    wire.7 = (decision.into(), false, String::new(), "blocked by authoritative review".into(), false);
    wire.9.push(("test-blocker".into(), "blocker".into(), "blocked review fixture".into()));
    wire
}

#[test]
fn review_wire_decoder_requires_blocked_decision_for_blocked_status() {
    assert!(plan_review_from_wire(blocked_review_wire("blocked")).is_ok());
    assert!(plan_review_from_wire(blocked_review_wire("allow")).is_err());
    assert!(plan_review_from_wire(blocked_review_wire("deny")).is_err());
}

#[test]
fn review_wire_decoder_rejects_change_proposed_read_only_risk() {
    let mut wire = protected_review_wire("system-mutation", "interactive-user");
    wire.6.0 = "read-only".into();
    wire.6.1 = "read-only".into();
    wire.7 = ("allow".into(), false, String::new(), String::new(), false);
    assert!(plan_review_from_wire(wire).is_err());
}

#[test]
fn wire_decoder_rejects_inconsistent_status_and_execution_authority() {
    let preview = preview();
    let mut wire = plan_preview_wire(&preview);
    wire.7 = true;
    assert!(plan_preview_from_wire(wire).is_err());
    let mut wire = plan_preview_wire(&preview);
    wire.6 = "no-change".into();
    assert!(plan_preview_from_wire(wire).is_err());
}

#[test]
fn preview_and_review_round_trip() {
    let preview = preview();
    let decoded = plan_preview_from_wire(plan_preview_wire(&preview)).unwrap_or_else(|e| panic!("{e}"));
    assert_eq!(decoded, preview);
    let review = plan_review_from_wire(protected_review_wire("security-sensitive", "administrator"))
        .unwrap_or_else(|e| panic!("{e}"));
    assert_eq!(review.decision, PlanReviewDecision::RequireApproval);
    assert_eq!(review.approval_class, Some(ApprovalClass::Administrator));
    assert_eq!(review.planner_risk_floor, RiskClass::SystemMutation);
    let again = plan_review_from_wire(plan_review_wire(&review)).unwrap_or_else(|e| panic!("{e}"));
    assert_eq!(again, review);
}

#[test]
fn decoder_messages_name_the_first_broken_rule() {
    let mut wire = plan_preview_wire(&preview());
    wire.8[0].1 = false;
    assert_eq!(
        plan_preview_from_wire(wire).err().as_deref(),
        Some("plan preview supplied a current value for \"active_state\" while has_current=false")
    );
    let mut wire = plan_preview_wire(&preview());
    wire.0.1 = "request:other".into();
    assert_eq!(
        plan_preview_from_wire(wire).err().as_deref(),
        Some("plan preview plan id does not match request id")
    );
    let mut wire = plan_preview_wire(&preview());
    wire.1.1 = "robot".into();
    assert_eq!(plan_preview_from_wire(wire).err().as_deref(), Some("unknown actor kind \"robot\""));
    let mut wire = protected_review_wire("system-mutation", "interactive-user");
    wire.6.1 = "read-only".into();
    assert_eq!(
        plan_review_from_wire(wire).err().as_deref(),
        Some("require-approval review class does not match the reviewed risk")
    );
    let mut wire = plan_request_wire(&request());
    wire.1.0 = "x".repeat(4097);
    assert_eq!(
        plan_request_from_wire(wire).err().as_deref(),
        Some("plan request semantic summary violates transport bounds")
    );
}
