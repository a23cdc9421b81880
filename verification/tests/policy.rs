use linura::base::{Actor, ActorKind, RiskClass, SemanticReason};
use linura::ids::{
    ActorId, ApprovalEvidenceId, ApprovalRequestId, CapabilityId, IntentId, PlanId, PolicyId,
    PolicyRevisionId, PrincipalId, ProviderId, RequestId, ResourceId, ValidationError,
};
use linura::planner::{PlanFinding, PlanFindingLevel};
use linura::policy::{
    ApprovalClass, BaselinePolicy, PolicyDecision, PolicyEngine, PolicyEvaluation,
    PolicySubject, PolicySubjectFault, ReviewPlanStatus, ReviewedChange,
};
use linura::policy_approval::{
    validate_approval, ApprovalEvidence, ApprovalIssueError, ApprovalRequirement,
    ApprovalRequirementError, ApprovalRevocation, ApprovalValidation, AuthenticatedApprover,
    MAX_APPROVAL_TTL_SECONDS,
};

fn id<T>(result: Result<T, ValidationError>) -> T {
    result.unwrap_or_else(|error| panic!("{}", error.message()))
}

fn subject_with(
    kind: ActorKind,
    risk: RiskClass,
    status: ReviewPlanStatus,
    findings: Vec<PlanFinding>,
) -> PolicySubject {
    // the reviewed subject of a plan, checked for consistency
    PolicySubject::try_new(
        id(PrincipalId::new("uid:1000")),
        id(PlanId::new("plan:test")),
        id(RequestId::new("req:test")),
        Actor { id: id(ActorId::new("actor:test")), kind, interactive: kind == ActorKind::Human },
        id(ProviderId::new("systemd")),
        id(ResourceId::new("systemd:unit:test.service")),
        id(CapabilityId::new("systemd.unit.observe")),
        SemanticReason {
            summary: "test intent".into(),
            intent_ids: vec![id(IntentId::new("intent:test"))],
            requirement_ids: vec![],
            capability_ids: vec![],
        },
        "evidence:test".into(),
        risk,
        status,
        vec![ReviewedChange {
            key: "active_state".into(),
            current: Some("inactive".into()),
            desired: "active".into(),
        }],
        findings,
    )
    .unwrap_or_else(|error| panic!("{error:?}"))
}

fn subject(kind: ActorKind, risk: RiskClass) -> PolicySubject {
    subject_with(kind, risk, ReviewPlanStatus::ChangeProposed, vec![])
}

/// A subject assembled field by field, without consistency checks.
fn assembled(kind: ActorKind, risk: RiskClass, status: ReviewPlanStatus) -> PolicySubject {
    PolicySubject::new(
        id(PrincipalId::new("uid:1000")),
        id(PlanId::new("plan:test")),
        id(RequestId::new("req:test")),
        Actor { id: id(ActorId::new("actor:test")), kind, interactive: kind == ActorKind::Human },
        id(ProviderId::new("systemd")),
        id(ResourceId::new("systemd:unit:test.service")),
        id(CapabilityId::new("systemd.unit.observe")),
        SemanticReason {
            summary: "test intent".into(),
            intent_ids: vec![id(IntentId::new("intent:test"))],
            requirement_ids: vec![],
            capability_ids: vec![],
        },
        "evidence:test".into(),
        risk,
        status,
        vec![ReviewedChange {
            key: "active_state".into(),
            current: Some("inactive".into()),
            desired: "active".into(),
        }],
        if status == ReviewPlanStatus::Blocked {
            vec![PlanFinding {
                code: "blocked".into(),
                level: PlanFindingLevel::Blocker,
                message: "blocked for test".into(),
            }]
        } else {
            vec![]
        },
    )
}

#[test]
fn agent_system_mutation_requires_approval() {
    let policy = BaselinePolicy::default();
    let expected_subject =
        assembled(ActorKind::Agent, RiskClass::SystemMutation, ReviewPlanStatus::ChangeProposed);
    let evaluation = policy.evaluate(&expected_subject);
    assert!(matches!(evaluation.decision, PolicyDecision::RequireApproval { .. }));
    assert_eq!(evaluation.subject, expected_subject);
    assert_eq!(evaluation.binding.principal.as_str(), "uid:1000");
    assert_eq!(evaluation.binding.observed_evidence_id, "evidence:test");
    assert_eq!(evaluation.binding.policy_id.as_str(), "policy:baseline");
    assert_eq!(evaluation.binding.policy_revision_id.as_str(), "policy:baseline:v1");
}

#[test]
fn remote_is_denied() {
    let policy = BaselinePolicy::default();
    let evaluation =
        policy.evaluate(&assembled(ActorKind::Remote, RiskClass::ReadOnly, ReviewPlanStatus::NoChange));
    assert!(matches!(evaluation.decision, PolicyDecision::Deny { .. }));
}

#[test]
fn blocked_plan_cannot_be_approved() {
    let policy = BaselinePolicy::default();
    let evaluation = policy.evaluate(&assembled(
        ActorKind::Human,
        RiskClass::SystemMutation,
        ReviewPlanStatus::Blocked,
    ));
    assert!(matches!(evaluation.decision, PolicyDecision::Blocked { .. }));
}

#[test]
fn protected_approval_strength_is_actor_invariant() {
    let policy = BaselinePolicy::default();
    let local_actor_kinds = [ActorKind::Human, ActorKind::Service, ActorKind::Agent];
    let protected_risks = [
        (RiskClass::SystemMutation, ApprovalClass::InteractiveUser),
        (RiskClass::SecuritySensitive, ApprovalClass::Administrator),
        (RiskClass::Destructive, ApprovalClass::DestructiveAction),
    ];
    for actor_kind in local_actor_kinds {
        for (risk, expected_class) in protected_risks {
            let evaluation = policy.evaluate(&subject(actor_kind, risk));
            match evaluation.decision {
                PolicyDecision::RequireApproval { class, .. } => {
                    assert_eq!(class, expected_class, "actor {actor_kind:?} with risk {risk:?}");
                }
                decision => panic!(
                    "actor {actor_kind:?} with risk {risk:?} must require {expected_class:?}, got {decision:?}"
                ),
            }
        }
    }
}

#[test]
fn remote_actor_cannot_use_protected_approval_path() {
    let policy = BaselinePolicy::default();
    for risk in [RiskClass::SystemMutation, RiskClass::SecuritySensitive, RiskClass::Destructive] {
        let evaluation = policy.evaluate(&subject(ActorKind::Remote, risk));
        assert!(
            matches!(evaluation.decision, PolicyDecision::Deny { .. }),
            "remote actor with risk {risk:?} must remain denied"
        );
    }
}

#[test]
fn subject_refuses_inconsistent_status() {
    let result = PolicySubject::try_new(
        id(PrincipalId::new("uid:1000")),
        id(PlanId::new("plan:test")),
        id(RequestId::new("req:test")),
        Actor { id: id(ActorId::new("actor:test")), kind: ActorKind::Human, interactive: true },
        id(ProviderId::new("systemd")),
        id(ResourceId::new("systemd:unit:test.service")),
        id(CapabilityId::new("systemd.unit.observe")),
        SemanticReason {
            summary: "test intent".into(),
            intent_ids: vec![id(IntentId::new("intent:test"))],
            requirement_ids: vec![],
            capability_ids: vec![],
        },
        "evidence:test".into(),
        RiskClass::ReadOnly,
        ReviewPlanStatus::ChangeProposed,
        vec![],
        vec![],
    );
    assert_eq!(result.err(), Some(PolicySubjectFault::InconsistentStatus));
}

fn evaluation(kind: ActorKind, risk: RiskClass) -> PolicyEvaluation {
    BaselinePolicy::default().evaluate(&subject(kind, risk))
}

fn approver(class: ApprovalClass) -> AuthenticatedApprover {
    AuthenticatedApprover {
        principal: id(PrincipalId::new("uid:0")),
        kind: ActorKind::Human,
        approval_classes: vec![class],
    }
}

fn issued(requirement: ApprovalRequirement) -> ApprovalEvidence {
    let class = requirement.class;
    ApprovalEvidence::try_issue(
        id(ApprovalEvidenceId::new("approval:evidence:1")),
        id(ApprovalRequestId::new("approval:request:1")),
        requirement,
        &approver(class),
        100,
        200,
    )
    .unwrap_or_else(|error| panic!("{error:?}"))
}

fn requirement(risk: RiskClass) -> ApprovalRequirement {
    ApprovalRequirement::try_from_evaluation(&evaluation(ActorKind::Human, risk))
        .unwrap_or_else(|error| panic!("{error:?}"))
}

#[test]
fn requirement_is_derived_only_from_require_approval_decision() {
    let evaluation = evaluation(ActorKind::Human, RiskClass::SecuritySensitive);
    let requirement = ApprovalRequirement::try_from_evaluation(&evaluation)
        .unwrap_or_else(|error| panic!("{error:?}"));
    assert_eq!(requirement.class, ApprovalClass::Administrator);
    assert_eq!(requirement.evaluation, evaluation);
    let allowed = BaselinePolicy::default().evaluate(&subject(ActorKind::Human, RiskClass::UserState));
    assert_eq!(
        ApprovalRequirement::try_from_evaluation(&allowed).err(),
        Some(ApprovalRequirementError::NotRequired)
    );
    let denied = BaselinePolicy::default().evaluate(&subject(ActorKind::Remote, RiskClass::Destructive));
    assert_eq!(
        ApprovalRequirement::try_from_evaluation(&denied).err(),
        Some(ApprovalRequirementError::NotApprovable)
    );
}

#[test]
fn approval_non_human_principals_cannot_issue_approval() {
    let requirement = requirement(RiskClass::SystemMutation);
    let machine = AuthenticatedApprover {
        principal: id(PrincipalId::new("service:policy")),
        kind: ActorKind::Service,
        approval_classes: vec![ApprovalClass::InteractiveUser],
    };
    assert_eq!(
        ApprovalEvidence::try_issue(
            id(ApprovalEvidenceId::new("approval:evidence:service")),
            id(ApprovalRequestId::new("approval:request:service")),
            requirement,
            &machine,
            100,
            200,
        ),
        Err(ApprovalIssueError::NonHumanApprover)
    );
}

#[test]
fn approval_wrong_approval_class_fails_closed() {
    let requirement = requirement(RiskClass::SecuritySensitive);
    let weak = approver(ApprovalClass::InteractiveUser);
    assert_eq!(
        ApprovalEvidence::try_issue(
            id(ApprovalEvidenceId::new("approval:evidence:weak")),
            id(ApprovalRequestId::new("approval:request:weak")),
            requirement,
            &weak,
            100,
            200,
        ),
        Err(ApprovalIssueError::MissingApprovalClass(ApprovalClass::Administrator))
    );
}

#[test]
fn evidence_is_exact_bound_to_the_evaluation() {
    let requirement = requirement(RiskClass::SecuritySensitive);
    let evidence = issued(requirement.clone());
    let mut changed = requirement;
    changed.evaluation.binding.policy_revision_id = id(PolicyRevisionId::new("policy:baseline:v2"));
    changed.evaluation.binding.policy_id = id(PolicyId::new("policy:baseline"));
    assert_eq!(
        validate_approval(&evidence, &changed, 150, None),
        ApprovalValidation::BindingMismatch
    );
}

#[test]
fn expiry_and_revocation_fail_closed() {
    let requirement = requirement(RiskClass::SystemMutation);
    let evidence = issued(requirement.clone());
    assert_eq!(validate_approval(&evidence, &requirement, 200, None), ApprovalValidation::Expired);
    assert_eq!(
        validate_approval(
            &evidence,
            &requirement,
            150,
            Some(&ApprovalRevocation {
                revoked_by: id(PrincipalId::new("uid:0")),
                revoked_at_unix_seconds: 140,
            }),
        ),
        ApprovalValidation::Revoked
    );
    assert_eq!(validate_approval(&evidence, &requirement, 99, None), ApprovalValidation::NotYetValid);
    assert_eq!(validate_approval(&evidence, &requirement, 150, None), ApprovalValidation::Satisfied);
}

#[test]
fn approval_validity_windows_are_bounded() {
    let requirement = requirement(RiskClass::SystemMutation);
    let class = requirement.class;
    assert_eq!(
        ApprovalEvidence::try_issue(
            id(ApprovalEvidenceId::new("approval:evidence:long")),
            id(ApprovalRequestId::new("approval:request:long")),
            requirement.clone(),
            &approver(class),
            100,
            100 + MAX_APPROVAL_TTL_SECONDS + 1,
        ),
        Err(ApprovalIssueError::ValidityWindowTooLong)
    );
    assert_eq!(
        ApprovalEvidence::try_issue(
            id(ApprovalEvidenceId::new("approval:evidence:empty")),
            id(ApprovalRequestId::new("approval:request:empty")),
            requirement,
            &approver(class),
            100,
            100,
        ),
        Err(ApprovalIssueError::InvalidValidityWindow)
    );
}
