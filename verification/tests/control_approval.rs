use linura::approval::{ApprovalIssueError, ApprovalValidation};
use linura::approval_review::{
    approval_requirement_from_evaluation, issue_policy_approval, validate_policy_approval,
    ApprovalControlError, ApprovalRequirementError, ApprovalReviewControl,
    PolicyApprovalIssueError, PolicyAuthenticatedApprover,
};
use linura::base::{Actor, ActorKind, RiskClass, SemanticReason};
use linura::ids::{
    ActorId, ApprovalEvidenceId, ApprovalRequestId, CapabilityId, IntentId, PlanId,
    PolicyRevisionId, PrincipalId, ProviderId, RequestId, ResourceId, ValidationError,
};
use linura::policy::{
    ApprovalClass, BaselinePolicy, PolicyDecision, PolicyEngine, PolicyEvaluation,
    PolicySubject, ReviewPlanStatus, ReviewedChange,
};

fn id<T>(result: Result<T, ValidationError>) -> T {
    result.unwrap_or_else(|error| panic!("{}", error.message()))
}

fn evaluation(risk: RiskClass) -> PolicyEvaluation {
    let subject = PolicySubject::try_new(
        id(PrincipalId::new("uid:1000")),
        id(PlanId::new("plan:approval-control")),
        id(RequestId::new("request:approval-control")),
        Actor {
            id: id(ActorId::new("actor:approval-control")),
            kind: ActorKind::Human,
            interactive: true,
        },
        id(ProviderId::new("systemd")),
        id(ResourceId::new("systemd:unit:test.service")),
        id(CapabilityId::new("systemd.unit.observe")),
        SemanticReason {
            summary: "review approval binding".into(),
            intent_ids: vec![id(IntentId::new("intent:approval-control"))],
            requirement_ids: vec![],
            capability_ids: vec![],
        },
        "evidence:approval-control".into(),
        risk,
        ReviewPlanStatus::ChangeProposed,
        vec![ReviewedChange {
            key: "active_state".into(),
            current: Some("inactive".into()),
            desired: "active".into(),
        }],
        vec![],
    )
    .unwrap_or_else(|error| panic!("{error:?}"));
    BaselinePolicy::default().evaluate(&subject)
}

fn admin() -> PolicyAuthenticatedApprover {
    PolicyAuthenticatedApprover {
        principal: id(PrincipalId::new("uid:0")),
        kind: ActorKind::Human,
        approval_classes: vec![ApprovalClass::Administrator],
    }
}

#[test]
fn exact_policy_evaluation_is_the_approval_binding() {
    let evaluation = evaluation(RiskClass::SecuritySensitive);
    let evidence = issue_policy_approval(
        id(ApprovalEvidenceId::new("approval:evidence:control")),
        id(ApprovalRequestId::new("approval:request:control")),
        &evaluation,
        &admin(),
        100,
        200,
    )
    .unwrap_or_else(|error| panic!("{error:?}"));
    assert_eq!(
        validate_policy_approval(&evidence, &evaluation, 150, None),
        ApprovalValidation::Satisfied
    );
    let mut changed = evaluation;
    changed.binding.policy_revision_id = id(PolicyRevisionId::new("policy:baseline:v2"));
    assert_eq!(
        validate_policy_approval(&evidence, &changed, 150, None),
        ApprovalValidation::BindingMismatch
    );
}

#[test]
fn weak_approver_cannot_satisfy_security_sensitive_requirement() {
    let evaluation = evaluation(RiskClass::SecuritySensitive);
    let weak = PolicyAuthenticatedApprover {
        principal: id(PrincipalId::new("uid:1001")),
        kind: ActorKind::Human,
        approval_classes: vec![ApprovalClass::InteractiveUser],
    };
    assert!(matches!(
        issue_policy_approval(
            id(ApprovalEvidenceId::new("approval:evidence:weak-control")),
            id(ApprovalRequestId::new("approval:request:weak-control")),
            &evaluation,
            &weak,
            100,
            200,
        ),
        Err(PolicyApprovalIssueError::Evidence(ApprovalIssueError::MissingApprovalClass(
            ApprovalClass::Administrator
        )))
    ));
}

#[test]
fn blocked_and_allowed_decisions_cannot_be_minted_as_approval() {
    let mut blocked = evaluation(RiskClass::SecuritySensitive);
    blocked.decision = PolicyDecision::Blocked { reason: "blocked for test".into() };
    assert_eq!(
        approval_requirement_from_evaluation(&blocked).err(),
        Some(ApprovalRequirementError::NotApprovable)
    );
    let mut allowed = evaluation(RiskClass::SecuritySensitive);
    allowed.decision = PolicyDecision::Allow;
    assert_eq!(
        approval_requirement_from_evaluation(&allowed).err(),
        Some(ApprovalRequirementError::NotRequired)
    );
}

#[test]
fn process_local_issue_is_idempotent_and_conflicts_fail_closed() {
    let evaluation = evaluation(RiskClass::SecuritySensitive);
    let request = id(ApprovalRequestId::new("approval:request:idempotent"));
    let mut control = ApprovalReviewControl::default();
    let first = control
        .issue(request.clone(), &evaluation, &admin(), 100, 200)
        .unwrap_or_else(|error| panic!("{error:?}"));
    let retry = control
        .issue(request.clone(), &evaluation, &admin(), 100, 200)
        .unwrap_or_else(|error| panic!("{error:?}"));
    assert_eq!(first, retry);
    assert_eq!(control.len(), 1);
    assert_eq!(
        control.issue(request, &evaluation, &admin(), 100, 201),
        Err(ApprovalControlError::IdempotencyConflict)
    );
    assert_eq!(first.id.as_str(), "approval:evidence:0000000000000000");
}

#[test]
fn process_local_revocation_is_fail_closed() {
    let evaluation = evaluation(RiskClass::SecuritySensitive);
    let mut control = ApprovalReviewControl::default();
    let evidence = control
        .issue(id(ApprovalRequestId::new("approval:request:revoke")), &evaluation, &admin(), 100, 200)
        .unwrap_or_else(|error| panic!("{error:?}"));
    assert_eq!(control.validate(&evidence.id, &evaluation, 150), ApprovalValidation::Satisfied);
    control.revoke(&evidence.id, &admin(), 151).unwrap_or_else(|error| panic!("{error:?}"));
    assert_eq!(control.validate(&evidence.id, &evaluation, 152), ApprovalValidation::Revoked);
}

#[test]
fn unqualified_revoker_is_rejected() {
    let evaluation = evaluation(RiskClass::SecuritySensitive);
    let mut control = ApprovalReviewControl::default();
    let evidence = control
        .issue(id(ApprovalRequestId::new("approval:request:revoker")), &evaluation, &admin(), 100, 200)
        .unwrap_or_else(|error| panic!("{error:?}"));
    let weak = PolicyAuthenticatedApprover {
        principal: id(PrincipalId::new("uid:1001")),
        kind: ActorKind::Human,
        approval_classes: vec![ApprovalClass::InteractiveUser],
    };
    assert_eq!(
        control.revoke(&evidence.id, &weak, 150),
        Err(ApprovalControlError::RevokerNotAuthorized)
    );
}

#[test]
fn control_reports_unknown_evidence_and_numbers_evidence_in_order() {
    let evaluation = evaluation(RiskClass::SystemMutation);
    let mut control = ApprovalReviewControl::new();
    assert!(control.is_empty());
    let unknown = id(ApprovalEvidenceId::new("approval:evidence:unknown"));
    assert_eq!(control.validate(&unknown, &evaluation, 150), ApprovalValidation::BindingMismatch);
    assert_eq!(control.revoke(&unknown, &admin(), 150), Err(ApprovalControlError::EvidenceNotFound));
    assert!(control.get(&unknown).is_none());
    let interactive = PolicyAuthenticatedApprover {
        principal: id(PrincipalId::new("uid:0")),
        kind: ActorKind::Human,
        approval_classes: vec![ApprovalClass::InteractiveUser],
    };
    let a = control
        .issue(id(ApprovalRequestId::new("approval:request:a")), &evaluation, &interactive, 10, 20)
        .unwrap();
    let b = control
        .issue(id(ApprovalRequestId::new("approval:request:b")), &evaluation, &interactive, 10, 20)
        .unwrap();
    assert_eq!(a.id.as_str(), "approval:evidence:0000000000000000");
    assert_eq!(b.id.as_str(), "approval:evidence:0000000000000001");
    assert_eq!(control.get(&b.id), Some(&b));
    assert_eq!(control.len(), 2);
}
