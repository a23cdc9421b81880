use linura::approval::{
    validate_approval, ApprovalEvidence, ApprovalIssueError, ApprovalRequirement,
    ApprovalRevocation, ApprovalValidation, AuthenticatedApprover, MAX_APPROVAL_TTL_SECONDS,
};
use linura::base::ActorKind;
use linura::ids::{ApprovalEvidenceId, ApprovalRequestId, PrincipalId, ValidationError};
use linura::policy::ApprovalClass;

fn id<T>(result: Result<T, ValidationError>) -> T {
    result.unwrap_or_else(|error| panic!("{}", error.message()))
}

fn requirement() -> ApprovalRequirement<String, ApprovalClass> {
    ApprovalRequirement {
        class: ApprovalClass::Administrator,
        binding: "exact-policy-evaluation".to_string(),
    }
}

fn approver(class: ApprovalClass) -> AuthenticatedApprover<ApprovalClass> {
    AuthenticatedApprover {
        principal: id(PrincipalId::new("uid:0")),
        kind: ActorKind::Human,
        approval_classes: vec![class],
    }
}

fn issued() -> ApprovalEvidence<String, ApprovalClass> {
    ApprovalEvidence::try_issue(
        id(ApprovalEvidenceId::new("approval:evidence:1")),
        id(ApprovalRequestId::new("approval:request:1")),
        requirement(),
        &approver(ApprovalClass::Administrator),
        100,
        200,
    )
    .unwrap_or_else(|error| panic!("{error:?}"))
}

#[test]
fn lib_non_human_principals_cannot_issue_approval() {
    let machine = AuthenticatedApprover {
        principal: id(PrincipalId::new("service:policy")),
        kind: ActorKind::Service,
        approval_classes: vec![ApprovalClass::Administrator],
    };
    assert_eq!(
        ApprovalEvidence::try_issue(
            id(ApprovalEvidenceId::new("approval:evidence:service")),
            id(ApprovalRequestId::new("approval:request:service")),
            requirement(),
            &machine,
            100,
            200,
        ),
        Err(ApprovalIssueError::NonHumanApprover)
    );
}

#[test]
fn lib_wrong_approval_class_fails_closed() {
    assert_eq!(
        ApprovalEvidence::try_issue(
            id(ApprovalEvidenceId::new("approval:evidence:weak")),
            id(ApprovalRequestId::new("approval:request:weak")),
            requirement(),
            &approver(ApprovalClass::InteractiveUser),
            100,
            200,
        ),
        Err(ApprovalIssueError::MissingApprovalClass(ApprovalClass::Administrator))
    );
}

#[test]
fn evidence_is_exact_bound() {
    let evidence = issued();
    let changed = ApprovalRequirement {
        class: ApprovalClass::Administrator,
        binding: "changed-policy-evaluation".to_string(),
    };
    assert_eq!(
        validate_approval(&evidence, &changed, 150, None),
        ApprovalValidation::BindingMismatch
    );
}

#[test]
fn expiry_revocation_and_future_issuance_fail_closed() {
    let evidence = issued();
    assert_eq!(
        validate_approval(&evidence, &requirement(), 99, None),
        ApprovalValidation::NotYetValid
    );
    assert_eq!(
        validate_approval(&evidence, &requirement(), 200, None),
        ApprovalValidation::Expired
    );
    assert_eq!(
        validate_approval(
            &evidence,
            &requirement(),
            150,
            Some(&ApprovalRevocation {
                revoked_by: id(PrincipalId::new("uid:0")),
                revoked_at_unix_seconds: 140,
            }),
        ),
        ApprovalValidation::Revoked
    );
}

#[test]
fn lib_validity_windows_are_bounded() {
    assert_eq!(
        ApprovalEvidence::try_issue(
            id(ApprovalEvidenceId::new("approval:evidence:long")),
            id(ApprovalRequestId::new("approval:request:long")),
            requirement(),
            &approver(ApprovalClass::Administrator),
            100,
            100 + MAX_APPROVAL_TTL_SECONDS + 1,
        ),
        Err(ApprovalIssueError::ValidityWindowTooLong)
    );
}

#[test]
fn evidence_accessors_report_what_was_issued() {
    let evidence = issued();
    assert_eq!(evidence.id().as_str(), "approval:evidence:1");
    assert_eq!(evidence.request_id().as_str(), "approval:request:1");
    assert_eq!(evidence.approver().as_str(), "uid:0");
    assert_eq!(evidence.issued_at_unix_seconds(), 100);
    assert_eq!(evidence.expires_at_unix_seconds(), 200);
    assert_eq!(*evidence.requirement().class(), ApprovalClass::Administrator);
    assert_eq!(evidence.requirement().binding(), "exact-policy-evaluation");
    assert_eq!(validate_approval(&evidence, &requirement(), 150, None), ApprovalValidation::Satisfied);
    let revocation = ApprovalRevocation { revoked_by: id(PrincipalId::new("uid:0")), revoked_at_unix_seconds: 7 };
    assert_eq!(revocation.revoked_by().as_str(), "uid:0");
    assert_eq!(revocation.revoked_at_unix_seconds(), 7);
    assert_eq!(approver(ApprovalClass::Administrator).principal().as_str(), "uid:0");
}
