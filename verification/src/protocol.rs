//! The transport-neutral messages of the control plane.
use vstd::prelude::*;

use crate::base::{ActionPlan, Actor, Capability, RiskClass, SemanticReason};
use crate::graph::{RemovalImpact, SystemGraph};
use crate::ids::{
    CapabilityId, IntentId, PlanId, PolicyId, PolicyRevisionId, PrincipalId, ProviderId,
    RequestId, ResourceId, SetupId,
};
use crate::intent::{Intent, IntentProposal, MachineProfile, Setup};
use crate::keyed::TextMap;
use crate::observation::{FreshnessState, ObservationEnvelope, ProviderHealth};
use crate::planner::{PlanFinding, PlanFindingLevel, PlanStatus, StateChange};
use crate::policy::ApprovalClass;
use crate::provenance::WhyChain;

verus! {

/// The protocol's major version.
pub const PROTOCOL_MAJOR: u16 = 1;

/// The product version this library speaks for.
pub const PRODUCT_VERSION: &'static str = "0.0.0";

/// The protocol and product version.
#[derive(Clone, Debug, PartialEq, Eq)]
pub struct ProtocolVersion {
    pub major: u16,
    pub product_version: &'static str,
}

impl Default for ProtocolVersion {
    fn default() -> (r: Self)
        ensures
            r.major == PROTOCOL_MAJOR,
            r.product_version == PRODUCT_VERSION,
    {
        ProtocolVersion { major: PROTOCOL_MAJOR, product_version: PRODUCT_VERSION }
    }
}

#[derive(Debug, PartialEq, Eq)]
pub struct CapabilitySnapshot {
    pub profile_id: String,
    pub capabilities: Vec<Capability>,
}

#[derive(Debug, PartialEq, Eq)]
pub struct ProviderSnapshot {
    pub providers: Vec<ProviderHealth>,
    pub capabilities: Vec<Capability>,
}

#[derive(Debug, PartialEq, Eq)]
pub struct ObservationRequest {
    pub provider: ProviderId,
    pub resource: ResourceId,
    pub capability: CapabilityId,
}

#[derive(Debug)]
pub struct ObservationResponse {
    pub observation: ObservationEnvelope,
    pub freshness: FreshnessState,
}

#[derive(Debug)]
pub struct ObservationSystemSnapshot {
    pub graph: SystemGraph,
    pub providers: ProviderSnapshot,
}

#[derive(Debug, PartialEq, Eq)]
pub struct ActionRequest {
    pub request_id: RequestId,
    pub actor: Actor,
    pub resource: ResourceId,
    pub capability: CapabilityId,
    pub operation: String,
    pub intent_ids: Vec<IntentId>,
    pub parameters: Vec<(String, String)>,
}

#[derive(Debug, PartialEq, Eq)]
pub enum PlanResponse {
    Planned(Box<ActionPlan>),
    Unsupported { reason: String },
    Invalid { reason: String },
}

#[derive(Debug, PartialEq, Eq)]
pub enum IntentCommand {
    Propose(IntentProposal),
    Activate(IntentId),
    Suspend(IntentId),
    Retire(IntentId),
    Supersede { old: IntentId, new: Intent },
}

#[derive(Debug, PartialEq, Eq)]
pub enum ExplainTarget {
    Intent(IntentId),
    Setup(SetupId),
    Resource(ResourceId),
    Capability(CapabilityId),
}

#[derive(Debug)]
pub struct ExplainResponse {
    pub target: ExplainTarget,
    pub why: WhyChain,
    pub removal_impact: Option<RemovalImpact>,
}

#[derive(Debug, PartialEq, Eq)]
pub struct ObservationExplanation {
    pub resource: ResourceId,
    pub provider: ProviderId,
    pub capability: CapabilityId,
    pub freshness: FreshnessState,
    pub evidence_id: String,
    pub authority: String,
}

#[derive(Debug)]
pub struct SystemSnapshot {
    pub graph: SystemGraph,
    pub active_intents: Vec<Intent>,
}

/// A portable setup bundle: the setup graph and the intents it needs.
/// Secret values are never embedded, only references.
#[derive(Debug, PartialEq, Eq)]
pub struct PortableSetupExport {
    pub root_setup_id: SetupId,
    pub setups: Vec<Setup>,
    pub intents: Vec<Intent>,
    pub format_version: u16,
}

#[derive(Debug, PartialEq, Eq)]
pub struct SetupAdoptionRequest {
    pub actor: Actor,
    pub bundle: PortableSetupExport,
    pub dry_run: bool,
}

#[derive(Debug, PartialEq, Eq)]
pub struct SetupAdoptionResponse {
    pub imported_setup_ids: Vec<SetupId>,
    pub imported_intent_ids: Vec<IntentId>,
    pub missing_secret_refs: Vec<String>,
    pub warnings: Vec<String>,
    pub requires_plan: bool,
}

/// A portable machine profile with the setups and intents it references.
#[derive(Debug, PartialEq, Eq)]
pub struct PortableProfileExport {
    pub profile: MachineProfile,
    pub setups: Vec<Setup>,
    pub intents: Vec<Intent>,
    pub format_version: u16,
}

#[derive(Debug, PartialEq, Eq)]
pub struct ProfileAdoptionRequest {
    pub actor: Actor,
    pub bundle: PortableProfileExport,
    pub dry_run: bool,
}

#[derive(Debug, PartialEq, Eq)]
pub struct ProfileAdoptionResponse {
    pub imported_setup_ids: Vec<SetupId>,
    pub imported_intent_ids: Vec<IntentId>,
    pub missing_secret_refs: Vec<String>,
    pub warnings: Vec<String>,
    pub requires_plan: bool,
}

/// One planned change as a preview shows it.
pub type PlanPreviewChange = StateChange;

/// One planning finding as a preview shows it.
pub type PlanPreviewFinding = PlanFinding;

/// The level of a previewed finding.
pub type PlanPreviewFindingLevel = PlanFindingLevel;

/// The status of a previewed plan.
pub type PlanPreviewStatus = PlanStatus;

/// The approval class a review names.
pub type PlanReviewApprovalClass = ApprovalClass;

/// A request to plan one resource toward a desired state.
#[derive(Debug, PartialEq, Eq)]
pub struct PlanDesiredStateRequest {
    pub request_id: RequestId,
    pub provider: ProviderId,
    pub resource: ResourceId,
    pub observation_capability: CapabilityId,
    pub reason: SemanticReason,
    pub desired_state: TextMap<String>,
}

/// The texts of a planning request.
pub struct RequestModel {
    pub request_id: Seq<char>,
    pub provider: Seq<char>,
    pub resource: Seq<char>,
    pub capability: Seq<char>,
    pub reason: crate::base::ReasonModel,
    pub desired: Seq<(Seq<char>, Seq<char>)>,
}

impl View for PlanDesiredStateRequest {
    type V = RequestModel;

    open spec fn view(&self) -> RequestModel {
        RequestModel {
            request_id: self.request_id@,
            provider: self.provider@,
            resource: self.resource@,
            capability: self.observation_capability@,
            reason: self.reason@,
            desired: self.desired_state@,
        }
    }
}

impl Clone for PlanDesiredStateRequest {
    fn clone(&self) -> (r: Self)
        ensures
            r@ == self@,
    {
        PlanDesiredStateRequest {
            request_id: self.request_id.clone(),
            provider: self.provider.clone(),
            resource: self.resource.clone(),
            observation_capability: self.observation_capability.clone(),
            reason: self.reason.clone(),
            desired_state: self.desired_state.clone(),
        }
    }
}

/// A non-executable preview of one plan.
#[derive(Debug, PartialEq, Eq)]
pub struct PlanPreview {
    pub plan_id: PlanId,
    pub request_id: RequestId,
    pub actor: Actor,
    pub provider: ProviderId,
    pub resource: ResourceId,
    pub observation_capability: CapabilityId,
    pub reason: SemanticReason,
    pub observed_evidence_id: String,
    pub prospective_risk: RiskClass,
    pub status: PlanPreviewStatus,
    pub execution_authorized: bool,
    pub changes: Vec<PlanPreviewChange>,
    pub findings: Vec<PlanPreviewFinding>,
}

impl View for PlanPreview {
    type V = crate::planner::PlanModel;

    open spec fn view(&self) -> crate::planner::PlanModel {
        crate::planner::PlanModel {
            id: self.plan_id@,
            request_id: self.request_id@,
            actor: self.actor@,
            provider: self.provider@,
            resource: self.resource@,
            capability: self.observation_capability@,
            reason: self.reason@,
            evidence_id: self.observed_evidence_id@,
            risk: self.prospective_risk,
            status: self.status,
            execution_authorized: self.execution_authorized,
            changes: crate::planner::views(self.changes@),
            findings: crate::planner::views(self.findings@),
        }
    }
}

/// What a review decided.
#[derive(Clone, Copy, Debug, PartialEq, Eq)]
pub enum PlanReviewDecision {
    Allow,
    Deny,
    RequireApproval,
    Blocked,
}

/// The wire name of a review decision.
pub open spec fn decision_name(d: PlanReviewDecision) -> Seq<char> {
    match d {
        PlanReviewDecision::Allow => "allow"@,
        PlanReviewDecision::Deny => "deny"@,
        PlanReviewDecision::RequireApproval => "require-approval"@,
        PlanReviewDecision::Blocked => "blocked"@,
    }
}

impl PlanReviewDecision {
    pub fn as_str(self) -> (r: &'static str)
        ensures
            r@ == decision_name(self),
    {
        match self {
            PlanReviewDecision::Allow => "allow",
            PlanReviewDecision::Deny => "deny",
            PlanReviewDecision::RequireApproval => "require-approval",
            PlanReviewDecision::Blocked => "blocked",
        }
    }
}

/// A non-executable policy review of one retained plan.
#[derive(Debug, PartialEq, Eq)]
pub struct PlanReview {
    pub plan_id: PlanId,
    pub request_id: RequestId,
    pub principal: PrincipalId,
    pub actor: Actor,
    pub provider: ProviderId,
    pub resource: ResourceId,
    pub observation_capability: CapabilityId,
    pub reason: SemanticReason,
    pub observed_evidence_id: String,
    pub planner_risk_floor: RiskClass,
    pub reviewed_risk: RiskClass,
    pub status: PlanPreviewStatus,
    pub policy_id: PolicyId,
    pub policy_revision_id: PolicyRevisionId,
    pub decision: PlanReviewDecision,
    pub approval_class: Option<PlanReviewApprovalClass>,
    pub decision_reason: String,
    pub execution_authorized: bool,
    pub changes: Vec<PlanPreviewChange>,
    pub findings: Vec<PlanPreviewFinding>,
}

/// The texts of a plan review.
pub struct ReviewModel {
    pub plan_id: Seq<char>,
    pub request_id: Seq<char>,
    pub principal: Seq<char>,
    pub actor: (Seq<char>, crate::base::ActorKind, bool),
    pub provider: Seq<char>,
    pub resource: Seq<char>,
    pub capability: Seq<char>,
    pub reason: crate::base::ReasonModel,
    pub evidence_id: Seq<char>,
    pub planner_risk_floor: RiskClass,
    pub reviewed_risk: RiskClass,
    pub status: PlanStatus,
    pub policy_id: Seq<char>,
    pub policy_revision_id: Seq<char>,
    pub decision: PlanReviewDecision,
    pub approval_class: Option<ApprovalClass>,
    pub decision_reason: Seq<char>,
    pub execution_authorized: bool,
    pub changes: Seq<(Seq<char>, Option<Seq<char>>, Seq<char>)>,
    pub findings: Seq<(Seq<char>, PlanFindingLevel, Seq<char>)>,
}

impl View for PlanReview {
    type V = ReviewModel;

    open spec fn view(&self) -> ReviewModel {
        ReviewModel {
            plan_id: self.plan_id@,
            request_id: self.request_id@,
            principal: self.principal@,
            actor: self.actor@,
            provider: self.provider@,
            resource: self.resource@,
            capability: self.observation_capability@,
            reason: self.reason@,
            evidence_id: self.observed_evidence_id@,
            planner_risk_floor: self.planner_risk_floor,
            reviewed_risk: self.reviewed_risk,
            status: self.status,
            policy_id: self.policy_id@,
            policy_revision_id: self.policy_revision_id@,
            decision: self.decision,
            approval_class: self.approval_class,
            decision_reason: self.decision_reason@,
            execution_authorized: self.execution_authorized,
            changes: crate::planner::views(self.changes@),
            findings: crate::planner::views(self.findings@),
        }
    }
}

} // verus!
