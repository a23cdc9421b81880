//! Approval of one exact policy evaluation.
use vstd::prelude::*;

use crate::approval::{approval_outcome, can_satisfy_spec, issue_fault};
use crate::base::{kind_eq, ActorKind};
use crate::ids::{ApprovalEvidenceId, ApprovalRequestId, PrincipalId};
use crate::policy::{ApprovalClass, DecisionModel, EvaluationModel, PolicyDecision, PolicyEvaluation};

pub use crate::approval::{ApprovalRevocation, ApprovalValidation, MAX_APPROVAL_TTL_SECONDS};

verus! {

/// An approver of policy approval classes.
pub type AuthenticatedApprover = crate::approval::AuthenticatedApprover<ApprovalClass>;

/// Why policy approval evidence was not issued.
pub type ApprovalIssueError = crate::approval::ApprovalIssueError<ApprovalClass>;

/// The approval that one exact evaluation requires.
#[derive(Debug, PartialEq, Eq)]
pub struct ApprovalRequirement {
    pub class: ApprovalClass,
    pub evaluation: PolicyEvaluation,
}

impl View for ApprovalRequirement {
    type V = (ApprovalClass, EvaluationModel);

    open spec fn view(&self) -> (ApprovalClass, EvaluationModel) {
        (self.class, self.evaluation@)
    }
}

impl Clone for ApprovalRequirement {
    fn clone(&self) -> (r: Self)
        ensures
            r@ == self@,
    {
        ApprovalRequirement { class: self.class, evaluation: self.evaluation.clone() }
    }
}

/// Why an evaluation gives no approval requirement.
#[derive(Clone, Copy, Debug, PartialEq, Eq)]
pub enum ApprovalRequirementError {
    NotRequired,
    NotApprovable,
}

/// The requirement an evaluation gives: its class for a require-approval
/// decision; nothing is required of an allow; a deny or a block can never
/// become approvable.
pub open spec fn requirement_of(e: EvaluationModel) -> Result<
    (ApprovalClass, EvaluationModel),
    ApprovalRequirementError,
> {
    match e.decision {
        DecisionModel::RequireApproval(class, _) => Ok((class, e)),
        DecisionModel::Allow => Err(ApprovalRequirementError::NotRequired),
        _ => Err(ApprovalRequirementError::NotApprovable),
    }
}

impl ApprovalRequirement {
    /// The requirement of an evaluation, per `requirement_of`.
    pub fn try_from_evaluation(evaluation: &PolicyEvaluation) -> (r: Result<
        Self,
        ApprovalRequirementError,
    >)
        ensures
            match r {
                Ok(req) => requirement_of(evaluation@) == Ok::<
                    (ApprovalClass, EvaluationModel),
                    ApprovalRequirementError,
                >(req@),
                Err(e) => requirement_of(evaluation@) == Err::<
                    (ApprovalClass, EvaluationModel),
                    ApprovalRequirementError,
                >(e),
            },
    {
        match &evaluation.decision {
            PolicyDecision::RequireApproval { class, .. } => Ok(
                ApprovalRequirement { class: *class, evaluation: evaluation.clone() },
            ),
            PolicyDecision::Allow => Err(ApprovalRequirementError::NotRequired),
            _ => Err(ApprovalRequirementError::NotApprovable),
        }
    }

    /// Whether two requirements have the same class and evaluation.
    pub fn same(&self, other: &Self) -> (r: bool)
        ensures
            r == (self@ == other@),
    {
        self.class.is(other.class) && self.evaluation.same(&other.evaluation)
    }
}

/// Proof that one human approved one exact evaluation within a window.
#[derive(Debug, PartialEq, Eq)]
pub struct ApprovalEvidence {
    pub id: ApprovalEvidenceId,
    pub request_id: ApprovalRequestId,
    pub requirement: ApprovalRequirement,
    pub approver: PrincipalId,
    pub issued_at_unix_seconds: u64,
    pub expires_at_unix_seconds: u64,
}

impl ApprovalEvidence {
    /// Issues evidence when `issue_fault` finds nothing.
    pub fn try_issue(
        id: ApprovalEvidenceId,
        request_id: ApprovalRequestId,
        requirement: ApprovalRequirement,
        approver: &AuthenticatedApprover,
        issued_at_unix_seconds: u64,
        expires_at_unix_seconds: u64,
    ) -> (r: Result<Self, ApprovalIssueError>)
        ensures
            match r {
                Ok(e) => issue_fault(
                    approver.kind,
                    approver.approval_classes@,
                    requirement.class,
                    issued_at_unix_seconds,
                    expires_at_unix_seconds,
                ) is None && e.id@ == id@ && e.request_id@ == request_id@ && e.requirement@
                    == requirement@ && e.approver@ == approver.principal@
                    && e.issued_at_unix_seconds == issued_at_unix_seconds
                    && e.expires_at_unix_seconds == expires_at_unix_seconds,
                Err(err) => issue_fault(
                    approver.kind,
                    approver.approval_classes@,
                    requirement.class,
                    issued_at_unix_seconds,
                    expires_at_unix_seconds,
                ) == Some(err),
            },
    {
        if !kind_eq(approver.kind, ActorKind::Human) {
            return Err(ApprovalIssueError::NonHumanApprover);
        }
        if !approver.can_satisfy(requirement.class) {
            return Err(ApprovalIssueError::MissingApprovalClass(requirement.class));
        }
        if expires_at_unix_seconds <= issued_at_unix_seconds {
            return Err(ApprovalIssueError::InvalidValidityWindow);
        }
        if expires_at_unix_seconds - issued_at_unix_seconds > MAX_APPROVAL_TTL_SECONDS {
            return Err(ApprovalIssueError::ValidityWindowTooLong);
        }
        Ok(
            ApprovalEvidence {
                id,
                request_id,
                requirement,
                approver: approver.principal.clone(),
                issued_at_unix_seconds,
                expires_at_unix_seconds,
            },
        )
    }
}

/// Checks evidence against the current exact requirement at `now`.
pub fn validate_approval(
    evidence: &ApprovalEvidence,
    current_requirement: &ApprovalRequirement,
    now_unix_seconds: u64,
    revocation: Option<&ApprovalRevocation>,
) -> (r: ApprovalValidation)
    ensures
        r == approval_outcome(
            evidence.requirement@ == current_requirement@,
            evidence.issued_at_unix_seconds,
            evidence.expires_at_unix_seconds,
            now_unix_seconds,
            revocation is Some,
        ),
{
    if !evidence.requirement.same(current_requirement) {
        return ApprovalValidation::BindingMismatch;
    }
    if now_unix_seconds < evidence.issued_at_unix_seconds {
        return ApprovalValidation::NotYetValid;
    }
    if now_unix_seconds >= evidence.expires_at_unix_seconds {
        return ApprovalValidation::Expired;
    }
    if revocation.is_some() {
        return ApprovalValidation::Revoked;
    }
    ApprovalValidation::Satisfied
}

/// Only a require-approval decision yields a requirement, and its class is
/// the decision's class.
pub proof fn law_requirement_only_from_require_approval(e: EvaluationModel)
    ensures
        requirement_of(e) is Ok <==> e.decision is RequireApproval,
        requirement_of(e) matches Ok(req) ==> e.decision matches DecisionModel::RequireApproval(
            class,
            _,
        ) && req.0 == class && req.1 == e,
{
}

/// An approver that is not human can never satisfy any class.
pub proof fn law_only_humans_satisfy(
    kind: ActorKind,
    classes: Seq<ApprovalClass>,
    class: ApprovalClass,
    issued_at: u64,
    expires_at: u64,
)
    requires
        kind != ActorKind::Human,
    ensures
        !can_satisfy_spec(kind, classes, class),
        issue_fault(kind, classes, class, issued_at, expires_at) == Some(
            ApprovalIssueError::NonHumanApprover,
        ),
{
}

} // verus!
