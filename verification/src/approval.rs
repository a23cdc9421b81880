//! Short-lived approval evidence bound to one exact requirement.
use vstd::prelude::*;

use crate::base::{kind_eq, ActorKind};
use crate::ids::{ApprovalEvidenceId, ApprovalRequestId, PrincipalId};

verus! {

/// The longest time, in seconds, that one approval stays valid.
pub const MAX_APPROVAL_TTL_SECONDS: u64 = 86_400;

/// A value an approval is bound to, compared and copied exactly.
pub trait ExactBinding: View + Sized {
    fn same_binding(&self, other: &Self) -> (r: bool)
        ensures
            r == (self@ == other@),
    ;

    fn copy_binding(&self) -> (r: Self)
        ensures
            r@ == self@,
    ;
}

/// An approval class, compared exactly.
pub trait ApprovalStrength: Copy + Sized {
    fn same_strength(self, other: Self) -> (r: bool)
        ensures
            r == (self == other),
    ;
}

impl ExactBinding for String {
    fn same_binding(&self, other: &Self) -> (r: bool) {
        *self == *other
    }

    fn copy_binding(&self) -> (r: Self) {
        self.clone()
    }
}

/// The exact binding and the approval class that must be satisfied.
#[derive(Debug, PartialEq, Eq)]
pub struct ApprovalRequirement<B, C> {
    pub class: C,
    pub binding: B,
}

impl<B: View, C> View for ApprovalRequirement<B, C> {
    type V = (C, B::V);

    open spec fn view(&self) -> (C, B::V) {
        (self.class, self.binding@)
    }
}

impl<B: ExactBinding, C: ApprovalStrength> ApprovalRequirement<B, C> {
    /// The class that must be satisfied.
    pub fn class(&self) -> (r: &C)
        ensures
            *r == self.class,
    {
        &self.class
    }

    /// The exact binding.
    pub fn binding(&self) -> (r: &B)
        ensures
            r@ == self.binding@,
    {
        &self.binding
    }

    /// Whether two requirements have the same class and binding.
    pub fn same(&self, other: &Self) -> (r: bool)
        ensures
            r == (self@ == other@),
    {
        self.class.same_strength(other.class) && self.binding.same_binding(&other.binding)
    }

    /// An exact copy.
    pub fn copy(&self) -> (r: Self)
        ensures
            r@ == self@,
    {
        ApprovalRequirement { class: self.class, binding: self.binding.copy_binding() }
    }
}

/// Locally authenticated metadata of someone who may issue approvals.
#[derive(Debug, PartialEq, Eq)]
pub struct AuthenticatedApprover<C> {
    pub principal: PrincipalId,
    pub kind: ActorKind,
    pub approval_classes: Vec<C>,
}

/// Whether an approver of this kind holding these classes can satisfy `class`:
/// only a human holding the class can.
pub open spec fn can_satisfy_spec<C>(kind: ActorKind, classes: Seq<C>, class: C) -> bool {
    kind == ActorKind::Human && classes.contains(class)
}

impl<C: ApprovalStrength> AuthenticatedApprover<C> {
    /// The authenticated principal.
    pub fn principal(&self) -> (r: &PrincipalId)
        ensures
            r@ == self.principal@,
    {
        &self.principal
    }

    /// Whether this approver can satisfy a requirement of `class`.
    pub fn can_satisfy(&self, class: C) -> (r: bool)
        ensures
            r == can_satisfy_spec(self.kind, self.approval_classes@, class),
    {
        if !kind_eq(self.kind, ActorKind::Human) {
            return false;
        }
        let mut i: usize = 0;
        while i < self.approval_classes.len()
            invariant
                i <= self.approval_classes@.len(),
                self.kind == ActorKind::Human,
                forall|j: int| 0 <= j < i ==> self.approval_classes@[j] != class,
            decreases self.approval_classes@.len() - i,
        {
            if self.approval_classes[i].same_strength(class) {
                assert(self.approval_classes@[i as int] == class);
                return true;
            }
            i = i + 1;
        }
        false
    }
}

/// Immutable proof that one authenticated human satisfied one exact
/// requirement within a bounded window.
#[derive(Debug, PartialEq, Eq)]
pub struct ApprovalEvidence<B, C> {
    pub id: ApprovalEvidenceId,
    pub request_id: ApprovalRequestId,
    pub requirement: ApprovalRequirement<B, C>,
    pub approver: PrincipalId,
    pub issued_at_unix_seconds: u64,
    pub expires_at_unix_seconds: u64,
}

/// The texts of approval evidence.
pub struct EvidenceModel<BV, C> {
    pub id: Seq<char>,
    pub request_id: Seq<char>,
    pub requirement: (C, BV),
    pub approver: Seq<char>,
    pub issued_at: u64,
    pub expires_at: u64,
}

impl<B: View, C> View for ApprovalEvidence<B, C> {
    type V = EvidenceModel<B::V, C>;

    open spec fn view(&self) -> EvidenceModel<B::V, C> {
        EvidenceModel {
            id: self.id@,
            request_id: self.request_id@,
            requirement: self.requirement@,
            approver: self.approver@,
            issued_at: self.issued_at_unix_seconds,
            expires_at: self.expires_at_unix_seconds,
        }
    }
}

/// Revocation kept apart from the immutable evidence.
#[derive(Debug, PartialEq, Eq)]
pub struct ApprovalRevocation {
    pub revoked_by: PrincipalId,
    pub revoked_at_unix_seconds: u64,
}

impl View for ApprovalRevocation {
    type V = (Seq<char>, u64);

    open spec fn view(&self) -> (Seq<char>, u64) {
        (self.revoked_by@, self.revoked_at_unix_seconds)
    }
}

impl Clone for ApprovalRevocation {
    fn clone(&self) -> (r: Self)
        ensures
            r@ == self@,
    {
        ApprovalRevocation {
            revoked_by: self.revoked_by.clone(),
            revoked_at_unix_seconds: self.revoked_at_unix_seconds,
        }
    }
}

impl ApprovalRevocation {
    /// Who revoked.
    pub fn revoked_by(&self) -> (r: &PrincipalId)
        ensures
            r@ == self.revoked_by@,
    {
        &self.revoked_by
    }

    /// When the revocation happened.
    pub fn revoked_at_unix_seconds(&self) -> (r: u64)
        ensures
            r == self.revoked_at_unix_seconds,
    {
        self.revoked_at_unix_seconds
    }
}

/// Why approval evidence was not issued.
#[derive(Clone, Copy, Debug, PartialEq, Eq)]
pub enum ApprovalIssueError<C> {
    NonHumanApprover,
    MissingApprovalClass(C),
    InvalidValidityWindow,
    ValidityWindowTooLong,
}

/// The first rule an issuance breaks, if any: a human approver, holding the
/// class, with expiry strictly after issuance and at most
/// `MAX_APPROVAL_TTL_SECONDS` later.
pub open spec fn issue_fault<C>(
    kind: ActorKind,
    classes: Seq<C>,
    class: C,
    issued_at: u64,
    expires_at: u64,
) -> Option<ApprovalIssueError<C>> {
    if kind != ActorKind::Human {
        Some(ApprovalIssueError::NonHumanApprover)
    } else if !classes.contains(class) {
        Some(ApprovalIssueError::MissingApprovalClass(class))
    } else if expires_at <= issued_at {
        Some(ApprovalIssueError::InvalidValidityWindow)
    } else if expires_at - issued_at > MAX_APPROVAL_TTL_SECONDS {
        Some(ApprovalIssueError::ValidityWindowTooLong)
    } else {
        None
    }
}

impl<B: ExactBinding, C: ApprovalStrength> ApprovalEvidence<B, C> {
    /// Issues evidence when `issue_fault` finds nothing.
    pub fn try_issue(
        id: ApprovalEvidenceId,
        request_id: ApprovalRequestId,
        requirement: ApprovalRequirement<B, C>,
        approver: &AuthenticatedApprover<C>,
        issued_at_unix_seconds: u64,
        expires_at_unix_seconds: u64,
    ) -> (r: Result<Self, ApprovalIssueError<C>>)
        ensures
            match r {
                Ok(e) => issue_fault(
                    approver.kind,
                    approver.approval_classes@,
                    requirement.class,
                    issued_at_unix_seconds,
                    expires_at_unix_seconds,
                ) is None && e@ == (EvidenceModel {
                    id: id@,
                    request_id: request_id@,
                    requirement: requirement@,
                    approver: approver.principal@,
                    issued_at: issued_at_unix_seconds,
                    expires_at: expires_at_unix_seconds,
                }),
                Err(err) => issue_fault(
                    approver.kind,
                    approver.approval_classes@,
                    requirement.class,
                    issued_at_unix_seconds,
                    expires_at_unix_seconds,
                ) == Some(err),
            },
    {
        if !kind_eq(approver.kind, ActorKind::Human) {
            return Err(ApprovalIssueError::NonHumanApprover);
        }
        if !approver.can_satisfy(requirement.class) {
            return Err(ApprovalIssueError::MissingApprovalClass(requirement.class));
        }
        if expires_at_unix_seconds <= issued_at_unix_seconds {
            return Err(ApprovalIssueError::InvalidValidityWindow);
        }
        if expires_at_unix_seconds - issued_at_unix_seconds > MAX_APPROVAL_TTL_SECONDS {
            return Err(ApprovalIssueError::ValidityWindowTooLong);
        }
        Ok(
            ApprovalEvidence {
                id,
                request_id,
                requirement,
                approver: approver.principal.clone(),
                issued_at_unix_seconds,
                expires_at_unix_seconds,
            },
        )
    }

    /// The evidence identifier.
    pub fn id(&self) -> (r: &ApprovalEvidenceId)
        ensures
            r@ == self.id@,
    {
        &self.id
    }

    /// The approval request it answers.
    pub fn request_id(&self) -> (r: &ApprovalRequestId)
        ensures
            r@ == self.request_id@,
    {
        &self.request_id
    }

    /// The requirement it satisfies.
    pub fn requirement(&self) -> (r: &ApprovalRequirement<B, C>)
        ensures
            r@ == self.requirement@,
    {
        &self.requirement
    }

    /// Who approved.
    pub fn approver(&self) -> (r: &PrincipalId)
        ensures
            r@ == self.approver@,
    {
        &self.approver
    }

    /// When it was issued.
    pub fn issued_at_unix_seconds(&self) -> (r: u64)
        ensures
            r == self.issued_at_unix_seconds,
    {
        self.issued_at_unix_seconds
    }

    /// When it expires.
    pub fn expires_at_unix_seconds(&self) -> (r: u64)
        ensures
            r == self.expires_at_unix_seconds,
    {
        self.expires_at_unix_seconds
    }

    /// An exact copy.
    pub fn copy(&self) -> (r: Self)
        ensures
            r@ == self@,
    {
        ApprovalEvidence {
            id: self.id.clone(),
            request_id: self.request_id.clone(),
            requirement: self.requirement.copy(),
            approver: self.approver.clone(),
            issued_at_unix_seconds: self.issued_at_unix_seconds,
            expires_at_unix_seconds: self.expires_at_unix_seconds,
        }
    }
}

/// The outcome of checking evidence.
#[derive(Clone, Copy, Debug, PartialEq, Eq)]
pub enum ApprovalValidation {
    Satisfied,
    BindingMismatch,
    NotYetValid,
    Expired,
    Revoked,
}

/// The outcome for evidence whose requirement `matches` the current one or
/// not, issued and expiring at the given times, checked at `now`, revoked
/// or not.
pub open spec fn approval_outcome(
    matches: bool,
    issued_at: u64,
    expires_at: u64,
    now: u64,
    revoked: bool,
) -> ApprovalValidation {
    if !matches {
        ApprovalValidation::BindingMismatch
    } else if now < issued_at {
        ApprovalValidation::NotYetValid
    } else if now >= expires_at {
        ApprovalValidation::Expired
    } else if revoked {
        ApprovalValidation::Revoked
    } else {
        ApprovalValidation::Satisfied
    }
}

/// Checks evidence against the current exact requirement at `now`.
pub fn validate_approval<B: ExactBinding, C: ApprovalStrength>(
    evidence: &ApprovalEvidence<B, C>,
    current_requirement: &ApprovalRequirement<B, C>,
    now_unix_seconds: u64,
    revocation: Option<&ApprovalRevocation>,
) -> (r: ApprovalValidation)
    ensures
        r == approval_outcome(
            evidence.requirement@ == current_requirement@,
            evidence.issued_at_unix_seconds,
            evidence.expires_at_unix_seconds,
            now_unix_seconds,
            revocation is Some,
        ),
{
    if !evidence.requirement.same(current_requirement) {
        return ApprovalValidation::BindingMismatch;
    }
    if now_unix_seconds < evidence.issued_at_unix_seconds {
        return ApprovalValidation::NotYetValid;
    }
    if now_unix_seconds >= evidence.expires_at_unix_seconds {
        return ApprovalValidation::Expired;
    }
    if revocation.is_some() {
        return ApprovalValidation::Revoked;
    }
    ApprovalValidation::Satisfied
}

/// Approval fails closed: evidence is satisfied only when its requirement
/// is exactly the current one, `now` lies inside its window, and it is not
/// revoked.
pub proof fn law_approval_fails_closed(
    matches: bool,
    issued_at: u64,
    expires_at: u64,
    now: u64,
    revoked: bool,
)
    ensures
        approval_outcome(matches, issued_at, expires_at, now, revoked)
            == ApprovalValidation::Satisfied <==> (matches && issued_at <= now && now < expires_at
            && !revoked),
{
}

/// Issued evidence comes from a human holding the class, and its window is
/// non-empty and at most `MAX_APPROVAL_TTL_SECONDS` long.
pub proof fn law_issued_window_is_bounded<C>(
    kind: ActorKind,
    classes: Seq<C>,
    class: C,
    issued_at: u64,
    expires_at: u64,
)
    requires
        issue_fault(kind, classes, class, issued_at, expires_at) is None,
    ensures
        kind == ActorKind::Human,
        classes.contains(class),
        issued_at < expires_at,
        expires_at - issued_at <= MAX_APPROVAL_TTL_SECONDS,
{
}

} // verus!
