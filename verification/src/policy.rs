//! Policy review of reconciliation plans: the subject under review, the
//! binding that identifies one evaluation, and the baseline decision rules.
use vstd::prelude::*;

use crate::approval::{ApprovalStrength, ExactBinding};
use crate::base::{
    reason_fault, Actor, ActorKind, ReasonModel, RiskClass,
    SemanticReason,
};
use crate::ids::{
    lemma_printable_token, CapabilityId, PlanId, PolicyId, PolicyRevisionId, PrincipalId, ProviderId, RequestId,
    ResourceId, ValidationError,
};
use crate::planner::{
    any_blocker, clone_vec, findings_have_blocker, same_changes, same_findings, status_eq, views,
    PlanFinding, PlanFindingLevel, PlanStatus, ReconciliationPlan, StateChange,
};
use crate::text::owned;

verus! {

/// The plan status as policy reviews it.
pub type ReviewPlanStatus = PlanStatus;

/// One planned change as policy reviews it.
pub type ReviewedChange = StateChange;

/// One planning finding as policy reviews it.
pub type ReviewedFinding = PlanFinding;

/// The level of a reviewed finding.
pub type ReviewFindingLevel = PlanFindingLevel;

/// Approval strengths, from weakest to strongest.
#[derive(Clone, Copy, Debug, PartialEq, Eq, PartialOrd, Ord, Hash)]
pub enum ApprovalClass {
    InteractiveUser,
    Administrator,
    DestructiveAction,
}

/// The wire name of an approval class.
pub open spec fn approval_class_name(c: ApprovalClass) -> Seq<char> {
    match c {
        ApprovalClass::InteractiveUser => "interactive-user"@,
        ApprovalClass::Administrator => "administrator"@,
        ApprovalClass::DestructiveAction => "destructive-action"@,
    }
}

impl ApprovalClass {
    pub fn as_str(self) -> (r: &'static str)
        ensures
            r@ == approval_class_name(self),
    {
        match self {
            ApprovalClass::InteractiveUser => "interactive-user",
            ApprovalClass::Administrator => "administrator",
            ApprovalClass::DestructiveAction => "destructive-action",
        }
    }

    /// Whether two classes are the same.
    pub fn is(self, other: ApprovalClass) -> (r: bool)
        ensures
            r == (self == other),
    {
        match (self, other) {
            (ApprovalClass::InteractiveUser, ApprovalClass::InteractiveUser) => true,
            (ApprovalClass::Administrator, ApprovalClass::Administrator) => true,
            (ApprovalClass::DestructiveAction, ApprovalClass::DestructiveAction) => true,
            _ => false,
        }
    }
}

impl ApprovalStrength for ApprovalClass {
    fn same_strength(self, other: Self) -> (r: bool) {
        self.is(other)
    }
}

/// The policy and revision that evaluated a subject.
#[derive(Debug, PartialEq, Eq)]
pub struct PolicySnapshot {
    pub policy_id: PolicyId,
    pub revision_id: PolicyRevisionId,
}

impl View for PolicySnapshot {
    type V = (Seq<char>, Seq<char>);

    open spec fn view(&self) -> (Seq<char>, Seq<char>) {
        (self.policy_id@, self.revision_id@)
    }
}

impl Clone for PolicySnapshot {
    fn clone(&self) -> (r: Self)
        ensures
            r@ == self@,
    {
        PolicySnapshot { policy_id: self.policy_id.clone(), revision_id: self.revision_id.clone() }
    }
}

/// The review subject derived from one plan and one authenticated principal.
#[derive(Debug, PartialEq, Eq)]
pub struct PolicySubject {
    principal: PrincipalId,
    plan_id: PlanId,
    request_id: RequestId,
    actor: Actor,
    provider: ProviderId,
    resource: ResourceId,
    capability: CapabilityId,
    reason: SemanticReason,
    observed_evidence_id: String,
    prospective_risk: RiskClass,
    status: ReviewPlanStatus,
    changes: Vec<ReviewedChange>,
    findings: Vec<ReviewedFinding>,
}

/// The texts of a review subject.
pub struct SubjectModel {
    pub principal: Seq<char>,
    pub plan_id: Seq<char>,
    pub request_id: Seq<char>,
    pub actor: (Seq<char>, ActorKind, bool),
    pub provider: Seq<char>,
    pub resource: Seq<char>,
    pub capability: Seq<char>,
    pub reason: ReasonModel,
    pub evidence_id: Seq<char>,
    pub risk: RiskClass,
    pub status: PlanStatus,
    pub changes: Seq<(Seq<char>, Option<Seq<char>>, Seq<char>)>,
    pub findings: Seq<(Seq<char>, PlanFindingLevel, Seq<char>)>,
}

impl View for PolicySubject {
    type V = SubjectModel;

    closed spec fn view(&self) -> SubjectModel {
        SubjectModel {
            principal: self.principal@,
            plan_id: self.plan_id@,
            request_id: self.request_id@,
            actor: self.actor@,
            provider: self.provider@,
            resource: self.resource@,
            capability: self.capability@,
            reason: self.reason@,
            evidence_id: self.observed_evidence_id@,
            risk: self.prospective_risk,
            status: self.status,
            changes: views(self.changes@),
            findings: views(self.findings@),
        }
    }
}

impl Clone for PolicySubject {
    fn clone(&self) -> (r: Self)
        ensures
            r@ == self@,
    {
        PolicySubject {
            principal: self.principal.clone(),
            plan_id: self.plan_id.clone(),
            request_id: self.request_id.clone(),
            actor: self.actor.clone(),
            provider: self.provider.clone(),
            resource: self.resource.clone(),
            capability: self.capability.clone(),
            reason: self.reason.clone(),
            observed_evidence_id: self.observed_evidence_id.clone(),
            prospective_risk: self.prospective_risk,
            status: self.status,
            changes: clone_vec(&self.changes),
            findings: clone_vec(&self.findings),
        }
    }
}

/// Why a subject is refused.
#[derive(Clone, Debug, PartialEq, Eq)]
pub enum PolicySubjectFault {
    /// The semantic reason breaks a rule.
    InvalidReason(ValidationError),
    /// The status disagrees with the changes, the risk or the blockers.
    InconsistentStatus,
}

/// Whether a status agrees with the changes, the risk and the blockers: no
/// change is read-only and unblocked, a proposed change has changes, is not
/// read-only and is unblocked, and a blocked plan carries a blocker.
pub open spec fn status_consistent(
    status: PlanStatus,
    risk: RiskClass,
    change_count: nat,
    blocked: bool,
) -> bool {
    match status {
        PlanStatus::NoChange => change_count == 0 && risk == RiskClass::ReadOnly && !blocked,
        PlanStatus::ChangeProposed => change_count > 0 && risk != RiskClass::ReadOnly && !blocked,
        PlanStatus::Blocked => blocked,
    }
}

/// The first rule a subject breaks, if any.
pub open spec fn subject_fault(s: SubjectModel) -> Option<PolicySubjectFault> {
    match reason_fault(s.reason) {
        Some(e) => Some(PolicySubjectFault::InvalidReason(e)),
        None => if status_consistent(s.status, s.risk, s.changes.len(), any_blocker(s.findings)) {
            None
        } else {
            Some(PolicySubjectFault::InconsistentStatus)
        },
    }
}

/// Whether a subject has the given fields.
pub open spec fn subject_is(
    s: SubjectModel,
    principal: PrincipalId,
    plan_id: PlanId,
    request_id: RequestId,
    actor: Actor,
    provider: ProviderId,
    resource: ResourceId,
    capability: CapabilityId,
    reason: SemanticReason,
    observed_evidence_id: String,
    prospective_risk: RiskClass,
    status: ReviewPlanStatus,
    changes: Vec<ReviewedChange>,
    findings: Vec<ReviewedFinding>,
) -> bool {
    &&& s.principal == principal@
    &&& s.plan_id == plan_id@
    &&& s.request_id == request_id@
    &&& s.actor == actor@
    &&& s.provider == provider@
    &&& s.resource == resource@
    &&& s.capability == capability@
    &&& s.reason == reason@
    &&& s.evidence_id == observed_evidence_id@
    &&& s.risk == prospective_risk
    &&& s.status == status
    &&& s.changes == views(changes@)
    &&& s.findings == views(findings@)
}

impl PolicySubject {
    /// A subject with exactly the given fields.
    pub fn new(
        principal: PrincipalId,
        plan_id: PlanId,
        request_id: RequestId,
        actor: Actor,
        provider: ProviderId,
        resource: ResourceId,
        capability: CapabilityId,
        reason: SemanticReason,
        observed_evidence_id: String,
        prospective_risk: RiskClass,
        status: ReviewPlanStatus,
        changes: Vec<ReviewedChange>,
        findings: Vec<ReviewedFinding>,
    ) -> (r: Self)
        ensures
            subject_is(
                r@,
                principal,
                plan_id,
                request_id,
                actor,
                provider,
                resource,
                capability,
                reason,
                observed_evidence_id,
                prospective_risk,
                status,
                changes,
                findings,
            ),
    {
        PolicySubject {
            principal,
            plan_id,
            request_id,
            actor,
            provider,
            resource,
            capability,
            reason,
            observed_evidence_id,
            prospective_risk,
            status,
            changes,
            findings,
        }
    }

    /// A subject with the given fields, refused when the reason is invalid or
    /// the status disagrees with the changes, the risk or the blockers.
    pub fn try_new(
        principal: PrincipalId,
        plan_id: PlanId,
        request_id: RequestId,
        actor: Actor,
        provider: ProviderId,
        resource: ResourceId,
        capability: CapabilityId,
        reason: SemanticReason,
        observed_evidence_id: String,
        prospective_risk: RiskClass,
        status: ReviewPlanStatus,
        changes: Vec<ReviewedChange>,
        findings: Vec<ReviewedFinding>,
    ) -> (r: Result<Self, PolicySubjectFault>)
        ensures
            match r {
                Ok(s) => subject_fault(s@) is None && subject_is(
                    s@,
                    principal,
                    plan_id,
                    request_id,
                    actor,
                    provider,
                    resource,
                    capability,
                    reason,
                    observed_evidence_id,
                    prospective_risk,
                    status,
                    changes,
                    findings,
                ),
                Err(e) => subject_fault(
                    SubjectModel {
                        principal: principal@,
                        plan_id: plan_id@,
                        request_id: request_id@,
                        actor: actor@,
                        provider: provider@,
                        resource: resource@,
                        capability: capability@,
                        reason: reason@,
                        evidence_id: observed_evidence_id@,
                        risk: prospective_risk,
                        status,
                        changes: views(changes@),
                        findings: views(findings@),
                    },
                ) == Some(e),
            },
    {
        match reason.validate() {
            Err(e) => {
                return Err(PolicySubjectFault::InvalidReason(e));
            },
            Ok(()) => {},
        }
        let blocked = findings_have_blocker(&findings);
        let consistent = match status {
            PlanStatus::NoChange => changes.len() == 0 && prospective_risk.is(RiskClass::ReadOnly)
                && !blocked,
            PlanStatus::ChangeProposed => changes.len() > 0 && !prospective_risk.is(
                RiskClass::ReadOnly,
            ) && !blocked,
            PlanStatus::Blocked => blocked,
        };
        if !consistent {
            return Err(PolicySubjectFault::InconsistentStatus);
        }
        Ok(
            PolicySubject::new(
                principal,
                plan_id,
                request_id,
                actor,
                provider,
                resource,
                capability,
                reason,
                observed_evidence_id,
                prospective_risk,
                status,
                changes,
                findings,
            ),
        )
    }

    /// The subject of a plan, reviewed for `principal`.
    pub fn from_plan(principal: PrincipalId, plan: &ReconciliationPlan) -> (r: Self)
        ensures
            r@.principal == principal@,
            r@.plan_id == plan@.id,
            r@.request_id == plan@.request_id,
            r@.actor == plan@.actor,
            r@.provider == plan@.provider,
            r@.resource == plan@.resource,
            r@.capability == plan@.capability,
            r@.reason == plan@.reason,
            r@.evidence_id == plan@.evidence_id,
            r@.risk == plan@.risk,
            r@.status == plan@.status,
            r@.changes == plan@.changes,
            r@.findings == plan@.findings,
    {
        PolicySubject {
            principal,
            plan_id: plan.id.clone(),
            request_id: plan.request_id.clone(),
            actor: plan.actor.clone(),
            provider: plan.provider.clone(),
            resource: plan.resource.clone(),
            capability: plan.observation_capability.clone(),
            reason: plan.reason.clone(),
            observed_evidence_id: plan.observed_evidence_id.clone(),
            prospective_risk: plan.prospective_risk,
            status: plan.status,
            changes: clone_vec(&plan.changes),
            findings: clone_vec(&plan.findings),
        }
    }

    pub fn principal(&self) -> (r: &PrincipalId)
        ensures
            r@ == self@.principal,
    {
        &self.principal
    }

    pub fn plan_id(&self) -> (r: &PlanId)
        ensures
            r@ == self@.plan_id,
    {
        &self.plan_id
    }

    pub fn request_id(&self) -> (r: &RequestId)
        ensures
            r@ == self@.request_id,
    {
        &self.request_id
    }

    pub fn actor(&self) -> (r: &Actor)
        ensures
            r@ == self@.actor,
    {
        &self.actor
    }

    pub fn provider(&self) -> (r: &ProviderId)
        ensures
            r@ == self@.provider,
    {
        &self.provider
    }

    pub fn resource(&self) -> (r: &ResourceId)
        ensures
            r@ == self@.resource,
    {
        &self.resource
    }

    pub fn capability(&self) -> (r: &CapabilityId)
        ensures
            r@ == self@.capability,
    {
        &self.capability
    }

    pub fn reason(&self) -> (r: &SemanticReason)
        ensures
            r@ == self@.reason,
    {
        &self.reason
    }

    pub fn observed_evidence_id(&self) -> (r: &str)
        ensures
            r@ == self@.evidence_id,
    {
        self.observed_evidence_id.as_str()
    }

    pub fn prospective_risk(&self) -> (r: RiskClass)
        ensures
            r == self@.risk,
    {
        self.prospective_risk
    }

    pub fn status(&self) -> (r: ReviewPlanStatus)
        ensures
            r == self@.status,
    {
        self.status
    }

    pub fn changes(&self) -> (r: &[ReviewedChange])
        ensures
            views(r@) == self@.changes,
    {
        self.changes.as_slice()
    }

    pub fn findings(&self) -> (r: &[ReviewedFinding])
        ensures
            views(r@) == self@.findings,
    {
        self.findings.as_slice()
    }

    /// Whether some finding blocks the subject.
    pub fn has_blockers(&self) -> (r: bool)
        ensures
            r == any_blocker(self@.findings),
    {
        findings_have_blocker(&self.findings)
    }

    /// Whether two subjects agree on every field.
    pub fn same(&self, other: &Self) -> (r: bool)
        ensures
            r == (self@ == other@),
    {
        self.principal.same(&other.principal) && self.plan_id.same(&other.plan_id)
            && self.request_id.same(&other.request_id) && self.actor.same(&other.actor)
            && self.provider.same(&other.provider) && self.resource.same(&other.resource)
            && self.capability.same(&other.capability) && self.reason.same(&other.reason)
            && self.observed_evidence_id == other.observed_evidence_id
            && self.prospective_risk.is(other.prospective_risk) && status_eq(
            self.status,
            other.status,
        ) && same_changes(&self.changes, &other.changes) && same_findings(
            &self.findings,
            &other.findings,
        )
    }
}

/// What identifies one policy evaluation: who, which plan and evidence,
/// which route, and which policy revision.
#[derive(Debug, PartialEq, Eq)]
pub struct ReviewBinding {
    pub principal: PrincipalId,
    pub plan_id: PlanId,
    pub request_id: RequestId,
    pub observed_evidence_id: String,
    pub provider: ProviderId,
    pub resource: ResourceId,
    pub capability: CapabilityId,
    pub policy_id: PolicyId,
    pub policy_revision_id: PolicyRevisionId,
}

/// The texts of a review binding.
pub struct BindingModel {
    pub principal: Seq<char>,
    pub plan_id: Seq<char>,
    pub request_id: Seq<char>,
    pub evidence_id: Seq<char>,
    pub provider: Seq<char>,
    pub resource: Seq<char>,
    pub capability: Seq<char>,
    pub policy_id: Seq<char>,
    pub policy_revision_id: Seq<char>,
}

impl View for ReviewBinding {
    type V = BindingModel;

    open spec fn view(&self) -> BindingModel {
        BindingModel {
            principal: self.principal@,
            plan_id: self.plan_id@,
            request_id: self.request_id@,
            evidence_id: self.observed_evidence_id@,
            provider: self.provider@,
            resource: self.resource@,
            capability: self.capability@,
            policy_id: self.policy_id@,
            policy_revision_id: self.policy_revision_id@,
        }
    }
}

impl Clone for ReviewBinding {
    fn clone(&self) -> (r: Self)
        ensures
            r@ == self@,
    {
        ReviewBinding {
            principal: self.principal.clone(),
            plan_id: self.plan_id.clone(),
            request_id: self.request_id.clone(),
            observed_evidence_id: self.observed_evidence_id.clone(),
            provider: self.provider.clone(),
            resource: self.resource.clone(),
            capability: self.capability.clone(),
            policy_id: self.policy_id.clone(),
            policy_revision_id: self.policy_revision_id.clone(),
        }
    }
}

impl ReviewBinding {
    /// Whether two bindings agree on every field.
    pub fn same(&self, other: &Self) -> (r: bool)
        ensures
            r == (self@ == other@),
    {
        self.principal.same(&other.principal) && self.plan_id.same(&other.plan_id)
            && self.request_id.same(&other.request_id) && self.observed_evidence_id
            == other.observed_evidence_id && self.provider.same(&other.provider)
            && self.resource.same(&other.resource) && self.capability.same(&other.capability)
            && self.policy_id.same(&other.policy_id) && self.policy_revision_id.same(
            &other.policy_revision_id,
        )
    }
}

/// The binding of an evaluation of `s` under the policy revision `snap`.
pub open spec fn binding_of(s: SubjectModel, snap: (Seq<char>, Seq<char>)) -> BindingModel {
    BindingModel {
        principal: s.principal,
        plan_id: s.plan_id,
        request_id: s.request_id,
        evidence_id: s.evidence_id,
        provider: s.provider,
        resource: s.resource,
        capability: s.capability,
        policy_id: snap.0,
        policy_revision_id: snap.1,
    }
}

/// What policy decided.
#[derive(Debug, PartialEq, Eq)]
pub enum PolicyDecision {
    Allow,
    Deny { reason: String },
    RequireApproval { class: ApprovalClass, reason: String },
    Blocked { reason: String },
}

/// The texts of a decision.
pub enum DecisionModel {
    Allow,
    Deny(Seq<char>),
    RequireApproval(ApprovalClass, Seq<char>),
    Blocked(Seq<char>),
}

impl View for PolicyDecision {
    type V = DecisionModel;

    open spec fn view(&self) -> DecisionModel {
        match self {
            PolicyDecision::Allow => DecisionModel::Allow,
            PolicyDecision::Deny { reason } => DecisionModel::Deny(reason@),
            PolicyDecision::RequireApproval { class, reason } => DecisionModel::RequireApproval(
                *class,
                reason@,
            ),
            PolicyDecision::Blocked { reason } => DecisionModel::Blocked(reason@),
        }
    }
}

impl Clone for PolicyDecision {
    fn clone(&self) -> (r: Self)
        ensures
            r@ == self@,
    {
        match self {
            PolicyDecision::Allow => PolicyDecision::Allow,
            PolicyDecision::Deny { reason } => PolicyDecision::Deny { reason: reason.clone() },
            PolicyDecision::RequireApproval { class, reason } => PolicyDecision::RequireApproval {
                class: *class,
                reason: reason.clone(),
            },
            PolicyDecision::Blocked { reason } => PolicyDecision::Blocked {
                reason: reason.clone(),
            },
        }
    }
}

impl PolicyDecision {
    /// Whether two decisions agree.
    pub fn same(&self, other: &Self) -> (r: bool)
        ensures
            r == (self@ == other@),
    {
        match (self, other) {
            (PolicyDecision::Allow, PolicyDecision::Allow) => true,
            (PolicyDecision::Deny { reason: a }, PolicyDecision::Deny { reason: b }) => *a == *b,
            (
                PolicyDecision::RequireApproval { class: c, reason: a },
                PolicyDecision::RequireApproval { class: d, reason: b },
            ) => c.is(*d) && *a == *b,
            (PolicyDecision::Blocked { reason: a }, PolicyDecision::Blocked { reason: b }) => *a
                == *b,
            _ => false,
        }
    }
}

/// One evaluation: the exact subject, its binding and the decision.
#[derive(Debug, PartialEq, Eq)]
pub struct PolicyEvaluation {
    pub subject: PolicySubject,
    pub binding: ReviewBinding,
    pub decision: PolicyDecision,
}

/// The texts of an evaluation.
pub struct EvaluationModel {
    pub subject: SubjectModel,
    pub binding: BindingModel,
    pub decision: DecisionModel,
}

impl View for PolicyEvaluation {
    type V = EvaluationModel;

    open spec fn view(&self) -> EvaluationModel {
        EvaluationModel {
            subject: self.subject@,
            binding: self.binding@,
            decision: self.decision@,
        }
    }
}

impl Clone for PolicyEvaluation {
    fn clone(&self) -> (r: Self)
        ensures
            r@ == self@,
    {
        PolicyEvaluation {
            subject: self.subject.clone(),
            binding: self.binding.clone(),
            decision: self.decision.clone(),
        }
    }
}

impl PolicyEvaluation {
    /// Whether two evaluations agree on subject, binding and decision.
    pub fn same(&self, other: &Self) -> (r: bool)
        ensures
            r == (self@ == other@),
    {
        self.subject.same(&other.subject) && self.binding.same(&other.binding)
            && self.decision.same(&other.decision)
    }
}

impl ExactBinding for PolicyEvaluation {
    fn same_binding(&self, other: &Self) -> (r: bool) {
        self.same(other)
    }

    fn copy_binding(&self) -> (r: Self) {
        self.clone()
    }
}

/// A policy: a revision and a decision for each subject.
pub trait PolicyEngine {
    /// The revision this engine evaluates under.
    spec fn snapshot_view(&self) -> (Seq<char>, Seq<char>);

    /// The decision this engine makes for a subject.
    spec fn decision_for(&self, subject: SubjectModel) -> DecisionModel;

    fn snapshot(&self) -> (r: &PolicySnapshot)
        ensures
            r@ == self.snapshot_view(),
    ;

    fn evaluate_decision(&self, subject: &PolicySubject) -> (r: PolicyDecision)
        ensures
            r@ == self.decision_for(subject@),
    ;

    /// Evaluates a subject: the exact subject, its binding under this
    /// engine's revision, and the decision.
    fn evaluate(&self, subject: &PolicySubject) -> (r: PolicyEvaluation)
        ensures
            r@.subject == subject@,
            r@.binding == binding_of(subject@, self.snapshot_view()),
            r@.decision == self.decision_for(subject@),
    {
        let snapshot = self.snapshot();
        PolicyEvaluation {
            subject: subject.clone(),
            binding: ReviewBinding {
                principal: subject.principal().clone(),
                plan_id: subject.plan_id().clone(),
                request_id: subject.request_id().clone(),
                observed_evidence_id: owned(subject.observed_evidence_id()),
                provider: subject.provider().clone(),
                resource: subject.resource().clone(),
                capability: subject.capability().clone(),
                policy_id: snapshot.policy_id.clone(),
                policy_revision_id: snapshot.revision_id.clone(),
            },
            decision: self.evaluate_decision(subject),
        }
    }
}

/// The baseline policy of the initial profile.
#[derive(Debug, PartialEq, Eq)]
pub struct BaselinePolicy {
    snapshot: PolicySnapshot,
}

/// The approval class that a risk requires, if any.
pub open spec fn required_class(risk: RiskClass) -> Option<ApprovalClass> {
    match risk {
        RiskClass::ReadOnly | RiskClass::UserState => None,
        RiskClass::SystemMutation => Some(ApprovalClass::InteractiveUser),
        RiskClass::SecuritySensitive => Some(ApprovalClass::Administrator),
        RiskClass::Destructive => Some(ApprovalClass::DestructiveAction),
    }
}

/// The baseline decision: blocked plans are blocked, remote actors are
/// denied, and otherwise the risk alone decides, whoever the actor is.
pub open spec fn baseline_decision(s: SubjectModel) -> DecisionModel {
    if s.status == PlanStatus::Blocked || any_blocker(s.findings) {
        DecisionModel::Blocked("plan contains blockers and cannot enter approval review"@)
    } else if s.actor.1 == ActorKind::Remote {
        DecisionModel::Deny("remote actors are disabled in the initial profile"@)
    } else {
        match s.risk {
            RiskClass::ReadOnly | RiskClass::UserState => DecisionModel::Allow,
            RiskClass::SystemMutation => DecisionModel::RequireApproval(
                ApprovalClass::InteractiveUser,
                "system mutation requires interactive approval"@,
            ),
            RiskClass::SecuritySensitive => DecisionModel::RequireApproval(
                ApprovalClass::Administrator,
                "security-sensitive mutation requires administrator approval"@,
            ),
            RiskClass::Destructive => DecisionModel::RequireApproval(
                ApprovalClass::DestructiveAction,
                "destructive mutation requires dedicated approval"@,
            ),
        }
    }
}

impl BaselinePolicy {
    /// The baseline policy under `policy:baseline` revision `policy:baseline:v1`.
    pub fn new() -> (r: Self)
        ensures
            r.snapshot_view() == ("policy:baseline"@, "policy:baseline:v1"@),
    {
        let policy_text = "policy:baseline";
        let revision_text = "policy:baseline:v1";
        proof {
            reveal_strlit("policy:baseline");
            reveal_strlit("policy:baseline:v1");
            lemma_printable_token(policy_text@);
            lemma_printable_token(revision_text@);
        }
        let policy_id = PolicyId::new(policy_text).unwrap();
        let revision_id = PolicyRevisionId::new(revision_text).unwrap();
        BaselinePolicy { snapshot: PolicySnapshot { policy_id, revision_id } }
    }
}

impl Default for BaselinePolicy {
    fn default() -> (r: Self)
        ensures
            r.snapshot_view() == ("policy:baseline"@, "policy:baseline:v1"@),
    {
        BaselinePolicy::new()
    }
}

impl PolicyEngine for BaselinePolicy {
    closed spec fn snapshot_view(&self) -> (Seq<char>, Seq<char>) {
        self.snapshot@
    }

    open spec fn decision_for(&self, subject: SubjectModel) -> DecisionModel {
        baseline_decision(subject)
    }

    fn snapshot(&self) -> (r: &PolicySnapshot) {
        &self.snapshot
    }

    fn evaluate_decision(&self, subject: &PolicySubject) -> (r: PolicyDecision) {
        if status_eq(subject.status(), PlanStatus::Blocked) || subject.has_blockers() {
            return PolicyDecision::Blocked {
                reason: owned("plan contains blockers and cannot enter approval review"),
            };
        }
        if crate::base::kind_eq(subject.actor().kind, ActorKind::Remote) {
            return PolicyDecision::Deny {
                reason: owned("remote actors are disabled in the initial profile"),
            };
        }
        match subject.prospective_risk() {
            RiskClass::ReadOnly | RiskClass::UserState => PolicyDecision::Allow,
            RiskClass::SystemMutation => PolicyDecision::RequireApproval {
                class: ApprovalClass::InteractiveUser,
                reason: owned("system mutation requires interactive approval"),
            },
            RiskClass::SecuritySensitive => PolicyDecision::RequireApproval {
                class: ApprovalClass::Administrator,
                reason: owned("security-sensitive mutation requires administrator approval"),
            },
            RiskClass::Destructive => PolicyDecision::RequireApproval {
                class: ApprovalClass::DestructiveAction,
                reason: owned("destructive mutation requires dedicated approval"),
            },
        }
    }
}

/// The approval a protected risk requires does not depend on which local
/// actor proposed the plan: any two subjects that differ only in a
/// non-remote actor get the same baseline decision.
pub proof fn law_approval_strength_is_actor_invariant(a: SubjectModel, b: SubjectModel)
    requires
        a.status == b.status,
        a.findings == b.findings,
        a.risk == b.risk,
        a.actor.1 != ActorKind::Remote,
        b.actor.1 != ActorKind::Remote,
    ensures
        baseline_decision(a) == baseline_decision(b),
{
}

/// A protected risk in an unblocked plan of a local actor always requires
/// the approval class of that risk, and never less.
pub proof fn law_protected_risk_requires_its_class(s: SubjectModel)
    requires
        s.status != PlanStatus::Blocked,
        !any_blocker(s.findings),
        s.actor.1 != ActorKind::Remote,
        required_class(s.risk) is Some,
    ensures
        baseline_decision(s) matches DecisionModel::RequireApproval(class, _) && Some(class)
            == required_class(s.risk),
{
}

/// A local actor's unblocked plan that only reads or changes user state is
/// allowed without approval, and only such plans are allowed.
pub proof fn law_low_risk_local_plans_are_allowed(policy: BaselinePolicy, s: SubjectModel)
    ensures
        (baseline_decision(s) is Allow) == (policy.decision_for(s) is Allow),
        (policy.decision_for(s) is Allow) <==> (s.status != PlanStatus::Blocked && !any_blocker(s.findings)
            && s.actor.1 != ActorKind::Remote && (s.risk == RiskClass::ReadOnly || s.risk
            == RiskClass::UserState)),
{
}

/// A blocked plan is never allowed or sent to approval; a remote actor is
/// never allowed or sent to approval.
pub proof fn law_blocked_and_remote_fail_closed(s: SubjectModel)
    requires
        s.status == PlanStatus::Blocked || any_blocker(s.findings) || s.actor.1
            == ActorKind::Remote,
    ensures
        !(baseline_decision(s) is Allow),
        !(baseline_decision(s) is RequireApproval),
{
}

} // verus!
