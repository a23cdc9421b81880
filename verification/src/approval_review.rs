//! A bounded, process-local lifecycle of approvals of policy evaluations:
//! issue, validate, revoke.
use vstd::prelude::*;

use crate::approval::{
    approval_outcome, can_satisfy_spec, issue_fault, ApprovalEvidence, ApprovalIssueError,
    ApprovalRequirement, ApprovalRevocation, ApprovalValidation, AuthenticatedApprover,
    EvidenceModel, validate_approval,
};
use crate::ids::{
    lemma_printable_token, ApprovalEvidenceId, ApprovalRequestId, ValidationError,
};
use crate::keyed::{lookup, TextMap};
use crate::policy::{ApprovalClass, EvaluationModel, PolicyDecision, PolicyEvaluation};
use crate::text::{
    append_hex16, hex_fixed, lemma_hex_fixed_injective, lemma_hex_fixed_printable,
    lemma_printable_concat, lemma_u64_fits_hex16, owned,
};

pub use crate::policy_approval::{requirement_of, ApprovalRequirementError};

verus! {

/// The most approvals retained at once.
pub const MAX_APPROVAL_ENTRIES: usize = 256;

/// A requirement bound to one exact policy evaluation.
pub type PolicyApprovalRequirement = ApprovalRequirement<PolicyEvaluation, ApprovalClass>;

/// Evidence of approval of one exact policy evaluation.
pub type PolicyApprovalEvidence = ApprovalEvidence<PolicyEvaluation, ApprovalClass>;

/// An approver of policy approval classes.
pub type PolicyAuthenticatedApprover = AuthenticatedApprover<ApprovalClass>;

/// The requirement of an evaluation, per `requirement_of`.
pub fn approval_requirement_from_evaluation(evaluation: &PolicyEvaluation) -> (r: Result<
    PolicyApprovalRequirement,
    ApprovalRequirementError,
>)
    ensures
        match r {
            Ok(req) => requirement_of(evaluation@) == Ok::<
                (ApprovalClass, EvaluationModel),
                ApprovalRequirementError,
            >(req@),
            Err(e) => requirement_of(evaluation@) == Err::<
                (ApprovalClass, EvaluationModel),
                ApprovalRequirementError,
            >(e),
        },
{
    match &evaluation.decision {
        PolicyDecision::RequireApproval { class, .. } => Ok(
            ApprovalRequirement { class: *class, binding: evaluation.clone() },
        ),
        PolicyDecision::Allow => Err(ApprovalRequirementError::NotRequired),
        _ => Err(ApprovalRequirementError::NotApprovable),
    }
}

/// Why policy approval was not issued.
#[derive(Clone, Copy, Debug, PartialEq, Eq)]
pub enum PolicyApprovalIssueError {
    Requirement(ApprovalRequirementError),
    Evidence(ApprovalIssueError<ApprovalClass>),
}

/// Issues evidence for the requirement of an evaluation.
pub fn issue_policy_approval(
    id: ApprovalEvidenceId,
    request_id: ApprovalRequestId,
    evaluation: &PolicyEvaluation,
    approver: &PolicyAuthenticatedApprover,
    issued_at_unix_seconds: u64,
    expires_at_unix_seconds: u64,
) -> (r: Result<PolicyApprovalEvidence, PolicyApprovalIssueError>)
    ensures
        match requirement_of(evaluation@) {
            Err(e) => r == Err::<PolicyApprovalEvidence, PolicyApprovalIssueError>(
                PolicyApprovalIssueError::Requirement(e),
            ),
            Ok(req) => match issue_fault(
                approver.kind,
                approver.approval_classes@,
                req.0,
                issued_at_unix_seconds,
                expires_at_unix_seconds,
            ) {
                Some(f) => r == Err::<PolicyApprovalEvidence, PolicyApprovalIssueError>(
                    PolicyApprovalIssueError::Evidence(f),
                ),
                None => r matches Ok(e) && e@ == (EvidenceModel {
                    id: id@,
                    request_id: request_id@,
                    requirement: req,
                    approver: approver.principal@,
                    issued_at: issued_at_unix_seconds,
                    expires_at: expires_at_unix_seconds,
                }),
            },
        },
{
    let requirement = match approval_requirement_from_evaluation(evaluation) {
        Ok(req) => req,
        Err(e) => {
            return Err(PolicyApprovalIssueError::Requirement(e));
        },
    };
    match ApprovalEvidence::try_issue(
        id,
        request_id,
        requirement,
        approver,
        issued_at_unix_seconds,
        expires_at_unix_seconds,
    ) {
        Ok(e) => Ok(e),
        Err(e) => Err(PolicyApprovalIssueError::Evidence(e)),
    }
}

/// The outcome of checking evidence against the requirement of an
/// evaluation: a mismatch when the evaluation requires no approval.
pub open spec fn policy_outcome(
    evidence: EvidenceModel<EvaluationModel, ApprovalClass>,
    evaluation: EvaluationModel,
    now: u64,
    revoked: bool,
) -> ApprovalValidation {
    match requirement_of(evaluation) {
        Err(_) => ApprovalValidation::BindingMismatch,
        Ok(req) => approval_outcome(
            evidence.requirement == req,
            evidence.issued_at,
            evidence.expires_at,
            now,
            revoked,
        ),
    }
}

/// Checks evidence against the requirement of an evaluation at `now`.
pub fn validate_policy_approval(
    evidence: &PolicyApprovalEvidence,
    evaluation: &PolicyEvaluation,
    now_unix_seconds: u64,
    revocation: Option<&ApprovalRevocation>,
) -> (r: ApprovalValidation)
    ensures
        r == policy_outcome(evidence@, evaluation@, now_unix_seconds, revocation is Some),
{
    match approval_requirement_from_evaluation(evaluation) {
        Err(_) => ApprovalValidation::BindingMismatch,
        Ok(requirement) => validate_approval(
            evidence,
            &requirement,
            now_unix_seconds,
            revocation,
        ),
    }
}

/// One retained approval and its revocation, if any.
#[derive(Debug)]
struct ApprovalRecord {
    evidence: PolicyApprovalEvidence,
    revocation: Option<ApprovalRevocation>,
}

/// The texts of a retained approval: its evidence and its revocation.
pub type RecordModel = (
    EvidenceModel<EvaluationModel, ApprovalClass>,
    Option<(Seq<char>, u64)>,
);

impl View for ApprovalRecord {
    type V = RecordModel;

    closed spec fn view(&self) -> RecordModel {
        (
            self.evidence@,
            match self.revocation {
                Some(rv) => Some(rv@),
                None => None,
            },
        )
    }
}

/// Why the approval control refused a request.
#[derive(Clone, Copy, Debug, PartialEq, Eq)]
pub enum ApprovalControlError {
    Issue(PolicyApprovalIssueError),
    InvalidEvidenceId(ValidationError),
    IdempotencyConflict,
    CapacityExceeded,
    EvidenceNotFound,
    RevokerNotAuthorized,
}

/// The identifier given to the evidence issued as number `n`.
pub open spec fn evidence_id_text(n: u64) -> Seq<char> {
    "approval:evidence:"@ + hex_fixed(n as nat, 16)
}

/// The number after `n`, wrapping to zero.
pub open spec fn next_sequence(n: u64) -> u64 {
    if n == u64::MAX {
        0
    } else {
        (n + 1) as u64
    }
}

/// Bounded, process-local approvals. Repeating a request with identical
/// material returns the original evidence; reusing a request id with other
/// material fails closed.
pub struct ApprovalReviewControl {
    records: TextMap<ApprovalRecord>,
    requests: TextMap<ApprovalEvidenceId>,
    next_evidence_sequence: u64,
    wrapped: Ghost<bool>,
}

/// The key is the evidence id of a number issued before `next`, or of any
/// number once the sequence has wrapped.
pub open spec fn issued_key(k: Seq<char>, next: u64, wrapped: bool) -> bool {
    exists|j: u64| k == #[trigger] evidence_id_text(j) && (wrapped || j < next)
}

/// Distinct numbers have distinct evidence ids.
pub proof fn lemma_evidence_id_text_injective(a: u64, b: u64)
    requires
        evidence_id_text(a) == evidence_id_text(b),
    ensures
        a == b,
{
    let p = "approval:evidence:"@;
    lemma_hex_fixed_printable(a as nat, 16);
    lemma_hex_fixed_printable(b as nat, 16);
    assert(evidence_id_text(a).subrange(p.len() as int, (p.len() + 16) as int) =~= hex_fixed(a as nat, 16));
    assert(evidence_id_text(b).subrange(p.len() as int, (p.len() + 16) as int) =~= hex_fixed(b as nat, 16));
    lemma_u64_fits_hex16(a);
    lemma_u64_fits_hex16(b);
    lemma_hex_fixed_injective(a as nat, b as nat, 16);
}

impl ApprovalReviewControl {
    #[verifier::type_invariant]
    closed spec fn inv(self) -> bool {
        &&& self.records@.len() <= MAX_APPROVAL_ENTRIES
        &&& forall|k: Seq<char>| #[trigger] lookup(self.records@, k) is Some ==> issued_key(
            k,
            self.next_evidence_sequence,
            self.wrapped@,
        )
    }

    /// Whether the evidence sequence has wrapped around; until it has, every
    /// retained evidence id was issued with a smaller number.
    pub closed spec fn wrapped_spec(self) -> bool {
        self.wrapped@
    }

    /// Retained approvals keyed by evidence id.
    pub closed spec fn records_spec(self) -> Seq<(Seq<char>, RecordModel)> {
        self.records@
    }

    /// Evidence ids keyed by approval request id.
    pub closed spec fn requests_spec(self) -> Seq<(Seq<char>, Seq<char>)> {
        self.requests@
    }

    /// The number the next issued evidence gets.
    pub closed spec fn next_spec(self) -> u64 {
        self.next_evidence_sequence
    }

    /// An empty control.
    pub fn new() -> (r: Self)
        ensures
            r.records_spec().len() == 0,
            r.requests_spec().len() == 0,
            r.next_spec() == 0,
            !r.wrapped_spec(),
    {
        ApprovalReviewControl {
            records: TextMap::new(),
            requests: TextMap::new(),
            next_evidence_sequence: 0,
            wrapped: Ghost(false),
        }
    }

    /// Number of retained approvals.
    pub fn len(&self) -> (r: usize)
        ensures
            r == self.records_spec().len(),
    {
        self.records.len()
    }

    /// Whether no approval is retained.
    pub fn is_empty(&self) -> (r: bool)
        ensures
            r == (self.records_spec().len() == 0),
    {
        self.records.is_empty()
    }

    /// Issues, or repeats, approval of an evaluation for a request.
    pub fn issue(
        &mut self,
        request_id: ApprovalRequestId,
        evaluation: &PolicyEvaluation,
        approver: &PolicyAuthenticatedApprover,
        issued_at_unix_seconds: u64,
        expires_at_unix_seconds: u64,
    ) -> (r: Result<PolicyApprovalEvidence, ApprovalControlError>)
        ensures
            final(self).records_spec().len() <= MAX_APPROVAL_ENTRIES,
            final(self).wrapped_spec() == (old(self).wrapped_spec() || (old(self).next_spec() == u64::MAX
                && final(self).next_spec() == 0)),
            issue_outcome(
                *old(self),
                request_id,
                *evaluation,
                *approver,
                issued_at_unix_seconds,
                expires_at_unix_seconds,
                *final(self),
                r,
            ),
    {
        proof {
            use_type_invariant(&*self);
        }
        let requirement = match approval_requirement_from_evaluation(evaluation) {
            Ok(req) => req,
            Err(e) => {
                return Err(ApprovalControlError::Issue(PolicyApprovalIssueError::Requirement(e)));
            },
        };
        match self.requests.get(request_id.as_str()) {
            Some(existing_id) => {
                match self.records.get(existing_id.as_str()) {
                    Some(existing) => {
                        if existing.evidence.requirement.same(&requirement)
                            && existing.evidence.approver.same(&approver.principal)
                            && existing.evidence.issued_at_unix_seconds == issued_at_unix_seconds
                            && existing.evidence.expires_at_unix_seconds
                            == expires_at_unix_seconds {
                            return Ok(existing.evidence.copy());
                        }
                        return Err(ApprovalControlError::IdempotencyConflict);
                    },
                    None => {
                        return Err(ApprovalControlError::IdempotencyConflict);
                    },
                }
            },
            None => {},
        }
        if self.records.len() >= MAX_APPROVAL_ENTRIES {
            return Err(ApprovalControlError::CapacityExceeded);
        }
        let mut text = owned("approval:evidence:");
        append_hex16(&mut text, self.next_evidence_sequence);
        proof {
            reveal_strlit("approval:evidence:");
            lemma_hex_fixed_printable(self.next_evidence_sequence as nat, 16);
            assert(crate::text::printable_ascii("approval:evidence:"@));
            lemma_printable_concat("approval:evidence:"@, hex_fixed(self.next_evidence_sequence as nat, 16));
            lemma_printable_token(text@);
        }
        let evidence_id = ApprovalEvidenceId::new(text.as_str()).unwrap();
        let ghost eid = text@;
        let ghost old_next = self.next_evidence_sequence;
        proof {
            if !self.wrapped@ && lookup(self.records@, eid) is Some {
                let j = choose|j: u64| eid == #[trigger] evidence_id_text(j) && (self.wrapped@ || j < old_next);
                lemma_evidence_id_text_injective(j, old_next);
            }
        }
        if self.next_evidence_sequence == u64::MAX {
            self.wrapped = Ghost(true);
        }
        self.next_evidence_sequence = self.next_evidence_sequence.wrapping_add(1);
        let evidence = match ApprovalEvidence::try_issue(
            evidence_id.clone(),
            request_id.clone(),
            requirement,
            approver,
            issued_at_unix_seconds,
            expires_at_unix_seconds,
        ) {
            Ok(e) => e,
            Err(e) => {
                return Err(ApprovalControlError::Issue(PolicyApprovalIssueError::Evidence(e)));
            },
        };
        let mut taken = ApprovalReviewControl::new();
        std::mem::swap(&mut taken, self);
        proof {
            use_type_invariant(&taken);
        }
        let ApprovalReviewControl { mut records, mut requests, next_evidence_sequence, wrapped } = taken;
        let ghost before = records@;
        requests.insert(owned(request_id.as_str()), evidence_id.clone());
        records.insert(
            owned(evidence_id.as_str()),
            ApprovalRecord { evidence: evidence.copy(), revocation: None },
        );
        proof {
            assert forall|k: Seq<char>| #[trigger] lookup(records@, k) is Some implies issued_key(
                k,
                next_evidence_sequence,
                wrapped@,
            ) by {
                if k == eid {
                    assert(eid == evidence_id_text(old_next));
                } else {
                    assert(lookup(before, k) is Some);
                    let j = choose|j: u64| k == #[trigger] evidence_id_text(j) && (wrapped@ || j < old_next);
                    assert(k == evidence_id_text(j));
                }
            }
        }
        *self = ApprovalReviewControl { records, requests, next_evidence_sequence, wrapped };
        Ok(evidence)
    }

    /// Checks retained evidence against an evaluation at `now`; unknown
    /// evidence is a mismatch.
    pub fn validate(
        &self,
        evidence_id: &ApprovalEvidenceId,
        evaluation: &PolicyEvaluation,
        now_unix_seconds: u64,
    ) -> (r: ApprovalValidation)
        ensures
            r == validation_of(*self, evidence_id@, evaluation@, now_unix_seconds),
    {
        match self.records.get(evidence_id.as_str()) {
            None => ApprovalValidation::BindingMismatch,
            Some(record) => validate_policy_approval(
                &record.evidence,
                evaluation,
                now_unix_seconds,
                record.revocation.as_ref(),
            ),
        }
    }

    /// Revokes retained evidence. Only an approver who could satisfy its
    /// class may revoke; the first revocation is kept.
    pub fn revoke(
        &mut self,
        evidence_id: &ApprovalEvidenceId,
        revoker: &PolicyAuthenticatedApprover,
        revoked_at_unix_seconds: u64,
    ) -> (r: Result<(), ApprovalControlError>)
        ensures
            final(self).requests_spec() == old(self).requests_spec(),
            final(self).next_spec() == old(self).next_spec(),
            final(self).wrapped_spec() == old(self).wrapped_spec(),
            final(self).records_spec().len() == old(self).records_spec().len(),
            revoke_outcome(*old(self), evidence_id@, *revoker, revoked_at_unix_seconds, *final(self), r),
    {
        proof {
            use_type_invariant(&*self);
        }
        match self.records.get(evidence_id.as_str()) {
            None => {
                return Err(ApprovalControlError::EvidenceNotFound);
            },
            Some(record) => {
                if !revoker.can_satisfy(record.evidence.requirement.class) {
                    return Err(ApprovalControlError::RevokerNotAuthorized);
                }
            },
        }
        let mut taken = ApprovalReviewControl::new();
        std::mem::swap(&mut taken, self);
        proof {
            use_type_invariant(&taken);
        }
        let ApprovalReviewControl { mut records, requests, next_evidence_sequence, wrapped } = taken;
        let ghost before = records@;
        let removed = records.remove(evidence_id.as_str());
        match removed {
            Some(record) => {
                let revocation = match record.revocation {
                    Some(rv) => Some(rv),
                    None => Some(
                        ApprovalRevocation {
                            revoked_by: revoker.principal.clone(),
                            revoked_at_unix_seconds,
                        },
                    ),
                };
                records.insert(
                    owned(evidence_id.as_str()),
                    ApprovalRecord { evidence: record.evidence, revocation },
                );
            },
            None => {},
        }
        proof {
            assert forall|k: Seq<char>| #[trigger] lookup(records@, k) is Some implies issued_key(
                k,
                next_evidence_sequence,
                wrapped@,
            ) by {
                assert(lookup(before, k) is Some);
            }
        }
        *self = ApprovalReviewControl { records, requests, next_evidence_sequence, wrapped };
        Ok(())
    }

    /// The evidence retained under an id.
    pub fn get(&self, evidence_id: &ApprovalEvidenceId) -> (r: Option<&PolicyApprovalEvidence>)
        ensures
            match r {
                Some(e) => lookup(self.records_spec(), evidence_id@) matches Some(rec) && e@
                    == rec.0,
                None => lookup(self.records_spec(), evidence_id@) is None,
            },
    {
        match self.records.get(evidence_id.as_str()) {
            Some(record) => Some(&record.evidence),
            None => None,
        }
    }
}

impl Default for ApprovalReviewControl {
    fn default() -> (r: Self)
        ensures
            r.records_spec().len() == 0,
            r.requests_spec().len() == 0,
            r.next_spec() == 0,
    {
        ApprovalReviewControl::new()
    }
}

/// What issuing approval of `evaluation` for `request_id` does to the
/// store `c`, leaving `after` and returning `r`: a repeated request returns
/// the evidence it was first given when the requirement, approver and window
/// are the same and is refused otherwise; a new request is refused at
/// capacity, and otherwise gets evidence under the next sequential id.
pub open spec fn issue_outcome(
    c: ApprovalReviewControl,
    request_id: ApprovalRequestId,
    evaluation: PolicyEvaluation,
    approver: PolicyAuthenticatedApprover,
    issued: u64,
    expires: u64,
    after: ApprovalReviewControl,
    r: Result<PolicyApprovalEvidence, ApprovalControlError>,
) -> bool {
    match requirement_of(evaluation@) {
        Err(e) => r == Err::<PolicyApprovalEvidence, ApprovalControlError>(
            ApprovalControlError::Issue(PolicyApprovalIssueError::Requirement(e)),
        ) && after.records_spec() == c.records_spec()
            && after.requests_spec() == c.requests_spec()
            && after.next_spec() == c.next_spec(),
        Ok(req) => match lookup(c.requests_spec(), request_id@) {
            Some(eid) => after.records_spec() == c.records_spec()
                && after.requests_spec() == c.requests_spec()
                && after.next_spec() == c.next_spec() && match lookup(
                c.records_spec(),
                eid,
            ) {
                Some(rec) => if rec.0.requirement == req && rec.0.approver
                    == approver.principal@ && rec.0.issued_at == issued
                    && rec.0.expires_at == expires {
                    r matches Ok(e) && e@ == rec.0
                } else {
                    r == Err::<PolicyApprovalEvidence, ApprovalControlError>(
                        ApprovalControlError::IdempotencyConflict,
                    )
                },
                None => r == Err::<PolicyApprovalEvidence, ApprovalControlError>(
                    ApprovalControlError::IdempotencyConflict,
                ),
            },
            None => if c.records_spec().len() >= MAX_APPROVAL_ENTRIES {
                r == Err::<PolicyApprovalEvidence, ApprovalControlError>(
                    ApprovalControlError::CapacityExceeded,
                ) && after.records_spec() == c.records_spec()
                    && after.requests_spec() == c.requests_spec()
                    && after.next_spec() == c.next_spec()
            } else {
                let eid = evidence_id_text(c.next_spec());
                &&& after.next_spec() == next_sequence(c.next_spec())
                &&& match issue_fault(
                    approver.kind,
                    approver.approval_classes@,
                    req.0,
                    issued,
                    expires,
                ) {
                    Some(f) => r == Err::<PolicyApprovalEvidence, ApprovalControlError>(
                        ApprovalControlError::Issue(PolicyApprovalIssueError::Evidence(f)),
                    ) && after.records_spec() == c.records_spec()
                        && after.requests_spec() == c.requests_spec(),
                    None => {
                        let ev = EvidenceModel {
                            id: eid,
                            request_id: request_id@,
                            requirement: req,
                            approver: approver.principal@,
                            issued_at: issued,
                            expires_at: expires,
                        };
                        &&& r matches Ok(e) && e@ == ev
                        &&& !c.wrapped_spec() ==> lookup(c.records_spec(), eid) is None
                        &&& after.records_spec().len() == c.records_spec().len()
                            + if lookup(c.records_spec(), eid) is None {
                            1int
                        } else {
                            0int
                        }
                        &&& forall|k: Seq<char>|
                            #[trigger] lookup(after.records_spec(), k) == if k
                                == eid {
                                Some((ev, None::<(Seq<char>, u64)>))
                            } else {
                                lookup(c.records_spec(), k)
                            }
                        &&& forall|k: Seq<char>|
                            #[trigger] lookup(after.requests_spec(), k) == if k
                                == request_id@ {
                                Some(eid)
                            } else {
                                lookup(c.requests_spec(), k)
                            }
                    },
                }
            },
        },
    }
}

/// What revoking the evidence `evidence_id` by `revoker` at `at` does to the
/// store `c`, leaving `after` and returning `r`: unknown evidence and an
/// unqualified revoker are refused; otherwise the record keeps its first
/// revocation, or records this one.
pub open spec fn revoke_outcome(
    c: ApprovalReviewControl,
    evidence_id: Seq<char>,
    revoker: PolicyAuthenticatedApprover,
    at: u64,
    after: ApprovalReviewControl,
    r: Result<(), ApprovalControlError>,
) -> bool {
    match lookup(c.records_spec(), evidence_id) {
        None => r == Err::<(), ApprovalControlError>(
            ApprovalControlError::EvidenceNotFound,
        ) && after.records_spec() == c.records_spec(),
        Some(rec) => if !can_satisfy_spec(
            revoker.kind,
            revoker.approval_classes@,
            rec.0.requirement.0,
        ) {
            r == Err::<(), ApprovalControlError>(
                ApprovalControlError::RevokerNotAuthorized,
            ) && after.records_spec() == c.records_spec()
        } else {
            &&& r is Ok
            &&& forall|k: Seq<char>|
                #[trigger] lookup(after.records_spec(), k) == if k == evidence_id {
                    Some(
                        (
                            rec.0,
                            if rec.1 is Some {
                                rec.1
                            } else {
                                Some((revoker.principal@, at))
                            },
                        ),
                    )
                } else {
                    lookup(c.records_spec(), k)
                }
        },
    }
}

/// What checking the evidence `evidence_id` of the store `c` against an
/// evaluation at `now` gives; unknown evidence is a mismatch.
pub open spec fn validation_of(
    c: ApprovalReviewControl,
    evidence_id: Seq<char>,
    evaluation: EvaluationModel,
    now: u64,
) -> ApprovalValidation {
    match lookup(c.records_spec(), evidence_id) {
        None => ApprovalValidation::BindingMismatch,
        Some(rec) => policy_outcome(rec.0, evaluation, now, rec.1 is Some),
    }
}

/// Repeating an issue that succeeded, with the same request, evaluation,
/// approver and window, returns the same evidence and changes nothing.
pub proof fn law_issue_is_idempotent(
    c0: ApprovalReviewControl,
    c1: ApprovalReviewControl,
    c2: ApprovalReviewControl,
    request_id: ApprovalRequestId,
    evaluation: PolicyEvaluation,
    approver: PolicyAuthenticatedApprover,
    issued: u64,
    expires: u64,
    r1: Result<PolicyApprovalEvidence, ApprovalControlError>,
    r2: Result<PolicyApprovalEvidence, ApprovalControlError>,
)
    requires
        issue_outcome(c0, request_id, evaluation, approver, issued, expires, c1, r1),
        r1 is Ok,
        issue_outcome(c1, request_id, evaluation, approver, issued, expires, c2, r2),
    ensures
        r2 matches Ok(e2) && e2@ == r1->Ok_0@,
        c2.records_spec() == c1.records_spec(),
        c2.requests_spec() == c1.requests_spec(),
        c2.next_spec() == c1.next_spec(),
{
    if lookup(c0.requests_spec(), request_id@) is None {
        let eid = evidence_id_text(c0.next_spec());
        assert(lookup(c1.requests_spec(), request_id@) == Some(eid));
        assert(lookup(c1.records_spec(), eid) is Some);
    }
}

/// Reusing a request that was issued, with an approvable evaluation but a
/// different requirement, approver or window, fails closed and changes nothing.
pub proof fn law_issue_reuse_conflicts(
    c0: ApprovalReviewControl,
    c1: ApprovalReviewControl,
    c2: ApprovalReviewControl,
    request_id: ApprovalRequestId,
    evaluation: PolicyEvaluation,
    approver: PolicyAuthenticatedApprover,
    issued: u64,
    expires: u64,
    r1: Result<PolicyApprovalEvidence, ApprovalControlError>,
    evaluation2: PolicyEvaluation,
    approver2: PolicyAuthenticatedApprover,
    issued2: u64,
    expires2: u64,
    r2: Result<PolicyApprovalEvidence, ApprovalControlError>,
)
    requires
        issue_outcome(c0, request_id, evaluation, approver, issued, expires, c1, r1),
        r1 is Ok,
        requirement_of(evaluation2@) is Ok,
        requirement_of(evaluation2@) != requirement_of(evaluation@) || approver2.principal@ != approver.principal@
            || issued2 != issued || expires2 != expires,
        issue_outcome(c1, request_id, evaluation2, approver2, issued2, expires2, c2, r2),
    ensures
        r2 == Err::<PolicyApprovalEvidence, ApprovalControlError>(ApprovalControlError::IdempotencyConflict),
        c2.records_spec() == c1.records_spec(),
        c2.requests_spec() == c1.requests_spec(),
        c2.next_spec() == c1.next_spec(),
{
    if lookup(c0.requests_spec(), request_id@) is None {
        let eid = evidence_id_text(c0.next_spec());
        assert(lookup(c1.requests_spec(), request_id@) == Some(eid));
        assert(lookup(c1.records_spec(), eid) is Some);
    }
}

/// Once revoking evidence succeeded, the store never validates it again,
/// whatever the evaluation and time.
pub proof fn law_revoked_evidence_stays_refused(
    c0: ApprovalReviewControl,
    c1: ApprovalReviewControl,
    evidence_id: Seq<char>,
    revoker: PolicyAuthenticatedApprover,
    at: u64,
    r: Result<(), ApprovalControlError>,
    evaluation: EvaluationModel,
    now: u64,
)
    requires
        revoke_outcome(c0, evidence_id, revoker, at, c1, r),
        r is Ok,
    ensures
        validation_of(c1, evidence_id, evaluation, now) != ApprovalValidation::Satisfied,
{
    let rec = lookup(c0.records_spec(), evidence_id)->Some_0;
    assert(lookup(c1.records_spec(), evidence_id) is Some);
    law_revoked_evidence_never_validates(rec.0, evaluation, now);
}

/// Revoked evidence never validates, whatever the evaluation and time.
pub proof fn law_revoked_evidence_never_validates(
    evidence: EvidenceModel<EvaluationModel, ApprovalClass>,
    evaluation: EvaluationModel,
    now: u64,
)
    ensures
        policy_outcome(evidence, evaluation, now, true) != ApprovalValidation::Satisfied,
{
}

/// Only an evaluation that requires approval can ever be satisfied: evidence
/// checked against an allowed, denied or blocked evaluation is a mismatch.
pub proof fn law_unapprovable_evaluations_never_validate(
    evidence: EvidenceModel<EvaluationModel, ApprovalClass>,
    evaluation: EvaluationModel,
    now: u64,
    revoked: bool,
)
    requires
        !(evaluation.decision is RequireApproval),
    ensures
        policy_outcome(evidence, evaluation, now, revoked) == ApprovalValidation::BindingMismatch,
{
}

} // verus!
