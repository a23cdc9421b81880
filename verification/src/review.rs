//! Policy review of retained plans: the subject derived from a canonical
//! plan and an authenticated principal, the baseline evaluation, and its
//! non-executable projection.
use vstd::prelude::*;

use crate::base::RiskClass;
use crate::ids::{PlanId, PrincipalId};
use crate::planner::{PlanModel, ReconciliationPlan, StateChange, PlanFinding};
use crate::policy::{
    baseline_decision, binding_of, BaselinePolicy, DecisionModel, EvaluationModel, PolicyDecision,
    PolicyEngine, PolicyEvaluation, PolicySubject, ReviewBinding, SubjectModel,
};
use crate::preview::{
    has_retained, retained_at, AuthenticatedPrincipal, PlanPreviewControl, PlanPreviewControlError,
};
use crate::protocol::{PlanReview, PlanReviewDecision, ReviewModel};
use crate::provider::Observer;
use crate::text::owned;

verus! {

/// Why a policy subject could not be derived.
#[derive(Clone, Debug, PartialEq, Eq)]
pub enum PolicySubjectError {
    InvalidPrincipal(String),
}

/// The subject that reviewing plan `p` for `principal` derives.
pub open spec fn subject_of(principal: Seq<char>, p: PlanModel) -> SubjectModel {
    SubjectModel {
        principal,
        plan_id: p.id,
        request_id: p.request_id,
        actor: p.actor,
        provider: p.provider,
        resource: p.resource,
        capability: p.capability,
        reason: p.reason,
        evidence_id: p.evidence_id,
        risk: p.risk,
        status: p.status,
        changes: p.changes,
        findings: p.findings,
    }
}

/// The revision of the baseline policy.
pub open spec fn baseline_revision() -> (Seq<char>, Seq<char>) {
    ("policy:baseline"@, "policy:baseline:v1"@)
}

/// The baseline evaluation of a subject.
pub open spec fn baseline_evaluation(s: SubjectModel) -> EvaluationModel {
    EvaluationModel {
        subject: s,
        binding: binding_of(s, baseline_revision()),
        decision: baseline_decision(s),
    }
}

/// Derives the review subject of a canonical plan for an authenticated
/// principal. The principal's text is always a valid principal identifier.
pub fn policy_subject_from_plan(principal: &AuthenticatedPrincipal, plan: &ReconciliationPlan) -> (r: Result<
    PolicySubject,
    PolicySubjectError,
>)
    ensures
        r matches Ok(s) && s@ == subject_of(principal@, plan@),
{
    let text = principal.as_str();
    match PrincipalId::new(text) {
        Ok(id) => {
            let s = PolicySubject::from_plan(id, plan);
            assert(s@ == subject_of(principal@, plan@));
            Ok(s)
        },
        Err(e) => {
            proof {
                assert(text@.len() > 0) by {
                    if text@.len() == 0 {
                        assert(crate::text::is_blank_seq(text@));
                    }
                }
            }
            Err(PolicySubjectError::InvalidPrincipal(e.message()))
        },
    }
}

/// A baseline policy evaluation of one subject, made by the control plane.
#[derive(Debug)]
pub struct TrustedPolicyReview {
    evaluation: PolicyEvaluation,
}

impl View for TrustedPolicyReview {
    type V = EvaluationModel;

    closed spec fn view(&self) -> EvaluationModel {
        self.evaluation@
    }
}

impl TrustedPolicyReview {
    /// The reviewed subject.
    pub fn subject(&self) -> (r: &PolicySubject)
        ensures
            r@ == self@.subject,
    {
        &self.evaluation.subject
    }

    /// What identifies this evaluation.
    pub fn binding(&self) -> (r: &ReviewBinding)
        ensures
            r@ == self@.binding,
    {
        &self.evaluation.binding
    }

    /// The decision.
    pub fn decision(&self) -> (r: &PolicyDecision)
        ensures
            r@ == self@.decision,
    {
        &self.evaluation.decision
    }
}

/// Reviews a subject under the baseline policy.
pub fn review_subject_for_control(subject: PolicySubject) -> (r: TrustedPolicyReview)
    ensures
        r@ == baseline_evaluation(subject@),
{
    let policy = BaselinePolicy::new();
    let evaluation = policy.evaluate(&subject);
    TrustedPolicyReview { evaluation }
}

/// Reviews a canonical plan for an authenticated principal.
pub fn review_plan(principal: &AuthenticatedPrincipal, plan: &ReconciliationPlan) -> (r: Result<
    TrustedPolicyReview,
    PolicySubjectError,
>)
    ensures
        r matches Ok(v) && v@ == baseline_evaluation(subject_of(principal@, plan@)),
{
    match policy_subject_from_plan(principal, plan) {
        Ok(subject) => Ok(review_subject_for_control(subject)),
        Err(e) => Err(e),
    }
}

/// The review a transport sees of an evaluation, with the planner's risk
/// floor beside the reviewed risk; it never authorizes execution.
pub open spec fn review_projection(floor: RiskClass, ev: EvaluationModel) -> ReviewModel {
    let s = ev.subject;
    ReviewModel {
        plan_id: s.plan_id,
        request_id: s.request_id,
        principal: s.principal,
        actor: s.actor,
        provider: s.provider,
        resource: s.resource,
        capability: s.capability,
        reason: s.reason,
        evidence_id: s.evidence_id,
        planner_risk_floor: floor,
        reviewed_risk: s.risk,
        status: s.status,
        policy_id: ev.binding.policy_id,
        policy_revision_id: ev.binding.policy_revision_id,
        decision: match ev.decision {
            DecisionModel::Allow => PlanReviewDecision::Allow,
            DecisionModel::Deny(_) => PlanReviewDecision::Deny,
            DecisionModel::RequireApproval(_, _) => PlanReviewDecision::RequireApproval,
            DecisionModel::Blocked(_) => PlanReviewDecision::Blocked,
        },
        approval_class: match ev.decision {
            DecisionModel::RequireApproval(c, _) => Some(c),
            _ => None,
        },
        decision_reason: match ev.decision {
            DecisionModel::Allow => Seq::empty(),
            DecisionModel::Deny(r) => r,
            DecisionModel::RequireApproval(_, r) => r,
            DecisionModel::Blocked(r) => r,
        },
        execution_authorized: false,
        changes: s.changes,
        findings: s.findings,
    }
}

/// Copies a slice of changes.
fn copy_changes(s: &[StateChange]) -> (r: Vec<StateChange>)
    ensures
        r@ == s@,
{
    let mut out: Vec<StateChange> = Vec::new();
    let mut i: usize = 0;
    while i < s.len()
        invariant
            i <= s@.len(),
            out@ == s@.take(i as int),
        decreases s@.len() - i,
    {
        out.push(s[i].clone());
        assert(s@.take(i + 1) =~= s@.take(i as int).push(s@[i as int]));
        i = i + 1;
    }
    assert(s@.take(i as int) =~= s@);
    out
}

/// Copies a slice of findings.
fn copy_findings(s: &[PlanFinding]) -> (r: Vec<PlanFinding>)
    ensures
        r@ == s@,
{
    let mut out: Vec<PlanFinding> = Vec::new();
    let mut i: usize = 0;
    while i < s.len()
        invariant
            i <= s@.len(),
            out@ == s@.take(i as int),
        decreases s@.len() - i,
    {
        out.push(s[i].clone());
        assert(s@.take(i + 1) =~= s@.take(i as int).push(s@[i as int]));
        i = i + 1;
    }
    assert(s@.take(i as int) =~= s@);
    out
}

/// Projects a review for transports.
pub fn plan_review_projection(planner_risk_floor: RiskClass, review: &TrustedPolicyReview) -> (r: PlanReview)
    ensures
        r@ == review_projection(planner_risk_floor, review@),
{
    let subject = review.subject();
    let binding = review.binding();
    let (decision, approval_class, decision_reason) = match review.decision() {
        PolicyDecision::Allow => (PlanReviewDecision::Allow, None, String::new()),
        PolicyDecision::Deny { reason } => (PlanReviewDecision::Deny, None, reason.clone()),
        PolicyDecision::RequireApproval { class, reason } => (
            PlanReviewDecision::RequireApproval,
            Some(*class),
            reason.clone(),
        ),
        PolicyDecision::Blocked { reason } => (PlanReviewDecision::Blocked, None, reason.clone()),
    };
    PlanReview {
        plan_id: subject.plan_id().clone(),
        request_id: subject.request_id().clone(),
        principal: subject.principal().clone(),
        actor: subject.actor().clone(),
        provider: subject.provider().clone(),
        resource: subject.resource().clone(),
        observation_capability: subject.capability().clone(),
        reason: subject.reason().clone(),
        observed_evidence_id: owned(subject.observed_evidence_id()),
        planner_risk_floor,
        reviewed_risk: subject.prospective_risk(),
        status: subject.status(),
        policy_id: binding.policy_id.clone(),
        policy_revision_id: binding.policy_revision_id.clone(),
        decision,
        approval_class,
        decision_reason,
        execution_authorized: false,
        changes: copy_changes(subject.changes()),
        findings: copy_findings(subject.findings()),
    }
}

impl<O: Observer> PlanPreviewControl<O> {
    /// Reviews only plan material this control plane retained for the
    /// principal; callers supply identity, never plan material or decisions.
    pub fn review_plan(&self, principal: &AuthenticatedPrincipal, plan_id: &PlanId) -> (r: Result<
        PlanReview,
        PlanPreviewControlError,
    >)
        requires
            self.wf(),
        ensures
            ({
                let k = (principal@, plan_id@);
                let s = self.store().entries_spec();
                match r {
                    Ok(v) => has_retained(s, k) && v@ == review_projection(
                        retained_at(s, k).plan.risk,
                        baseline_evaluation(subject_of(principal@, retained_at(s, k).plan)),
                    ),
                    Err(PlanPreviewControlError::NotRetained { plan_id: x }) => !has_retained(s, k) && x@
                        == plan_id@,
                    Err(_) => false,
                }
            }),
    {
        let plan = match self.retained_plan(principal, plan_id) {
            Ok(p) => p,
            Err(e) => {
                return Err(e);
            },
        };
        let review = match review_plan(principal, &plan) {
            Ok(v) => v,
            Err(e) => {
                return Err(PlanPreviewControlError::Review { reason: owned("policy subject unavailable") });
            },
        };
        Ok(plan_review_projection(plan.prospective_risk, &review))
    }

    /// Explains a review: exactly the review projection.
    pub fn explain_plan_review(&self, principal: &AuthenticatedPrincipal, plan_id: &PlanId) -> (r: Result<
        PlanReview,
        PlanPreviewControlError,
    >)
        requires
            self.wf(),
        ensures
            ({
                let k = (principal@, plan_id@);
                let s = self.store().entries_spec();
                match r {
                    Ok(v) => has_retained(s, k) && v@ == review_projection(
                        retained_at(s, k).plan.risk,
                        baseline_evaluation(subject_of(principal@, retained_at(s, k).plan)),
                    ),
                    Err(PlanPreviewControlError::NotRetained { plan_id: x }) => !has_retained(s, k) && x@
                        == plan_id@,
                    Err(_) => false,
                }
            }),
    {
        self.review_plan(principal, plan_id)
    }
}

} // verus!
