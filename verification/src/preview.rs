//! The local planning control plane: authenticated principals, request
//! normalization, bounded preview retention, and plan previews.
use vstd::prelude::*;

use crate::base::{reason_fault, ReasonModel};
use crate::estimate::{
    add_capped, capped, lemma_bytes_nonneg, pair_bytes, reason_bytes, semantic_reason_bytes,
    state_bytes, str_bytes,
};
use crate::ids::{validation_message, PlanId};
use crate::estimate::{change_bytes, finding_bytes, changes_bytes, findings_bytes, lemma_plan_bytes_nonneg};
use crate::keyed::TextMap;
use crate::observation::{
    authority_name, evidence_id_spec, value_text, EnvelopeModel, FreshnessState, ValueModel,
};
use crate::planner::{
    desired_fault, reports_fault, validate_desired_resource, views, DesiredFault, DesiredModel,
    DesiredResource, ObservationModel, PlanModel, PlanningFreshness, PlanningObservation,
    ReconciliationPlan,
};
use crate::base::{Actor, Capability};
use crate::observation::ProviderHealth;
use crate::graph::SystemGraph;
use crate::ids::ResourceId;
use crate::observation::freshness;
use crate::observation_control::{
    capabilities_sorted, concat_capabilities, control_error_message, healths_sorted,
    identity_result, observe_outcome, reports_of, ObservationControlError, ObservationCoordinator,
};
use crate::planner::{expected_plan, planning_accepts, planning_error_message, planning_rejects, DeterministicPlanner};
use crate::protocol::{
    ObservationExplanation, ObservationRequest, ObservationResponse, PlanDesiredStateRequest, PlanPreview,
    ProviderSnapshot, RequestModel,
};
use crate::provider::Observer;
use crate::text::{
    append_decimal, append_str, byte_len, contains_control, debug_quoted, has_control, is_blank,
    is_blank_seq, owned, utf8_len,
};

verus! {

pub const MAX_SUMMARY_BYTES: usize = 4096;
pub const MAX_ORIGINS_PER_KIND: usize = 64;
pub const MAX_TOTAL_ORIGINS: usize = 128;
pub const MAX_DESIRED_ATTRIBUTES: usize = 128;
pub const MAX_REQUEST_BYTES: usize = 65536;
pub const MAX_PREVIEW_ENTRIES: usize = 256;
pub const MAX_PREVIEW_ENTRY_BYTES: usize = 131072;
pub const MAX_PREVIEW_TOTAL_BYTES: usize = 8388608;
pub const MAX_PRINCIPAL_BYTES: usize = 256;

/// Why the planning control plane refused a request.
#[derive(Debug, PartialEq, Eq)]
pub enum PlanPreviewControlError {
    InvalidPrincipal { reason: String },
    InvalidRequest { reason: String },
    IdempotencyConflict { plan_id: PlanId },
    Observation { reason: String },
    Planning { reason: String },
    Review { reason: String },
    Retention { reason: String },
    NotRetained { plan_id: PlanId },
}

/// The first rule a principal breaks, if any, as its reason.
pub open spec fn principal_fault(s: Seq<char>) -> Option<Seq<char>> {
    if is_blank_seq(s) {
        Some("authenticated principal cannot be empty"@)
    } else if utf8_len(s) > MAX_PRINCIPAL_BYTES {
        Some("authenticated principal exceeds "@ + crate::text::decimal(MAX_PRINCIPAL_BYTES as nat) + " UTF-8 bytes"@)
    } else if has_control(s) {
        Some("authenticated principal contains control characters"@)
    } else {
        None
    }
}

/// A stable authenticated identity that namespaces control state.
#[derive(Debug, PartialEq, Eq, PartialOrd, Ord)]
pub struct AuthenticatedPrincipal(String);

impl View for AuthenticatedPrincipal {
    type V = Seq<char>;

    closed spec fn view(&self) -> Seq<char> {
        self.0@
    }
}

impl AuthenticatedPrincipal {
    #[verifier::type_invariant]
    closed spec fn inv(self) -> bool {
        principal_fault(self.0@) is None
    }

    /// Accepts a non-blank principal of at most 256 UTF-8 bytes without
    /// control characters.
    pub fn new(value: &str) -> (r: Result<Self, PlanPreviewControlError>)
        ensures
            match r {
                Ok(p) => principal_fault(value@) is None && p@ == value@,
                Err(PlanPreviewControlError::InvalidPrincipal { reason }) => principal_fault(
                    value@,
                ) == Some(reason@),
                Err(_) => false,
            },
    {
        if is_blank(value) {
            return Err(
                PlanPreviewControlError::InvalidPrincipal {
                    reason: owned("authenticated principal cannot be empty"),
                },
            );
        }
        if byte_len(value) > MAX_PRINCIPAL_BYTES {
            let mut reason = owned("authenticated principal exceeds ");
            append_decimal(&mut reason, MAX_PRINCIPAL_BYTES as u64);
            append_str(&mut reason, " UTF-8 bytes");
            return Err(PlanPreviewControlError::InvalidPrincipal { reason });
        }
        if contains_control(value) {
            return Err(
                PlanPreviewControlError::InvalidPrincipal {
                    reason: owned("authenticated principal contains control characters"),
                },
            );
        }
        Ok(AuthenticatedPrincipal(owned(value)))
    }

    /// The principal's text.
    pub fn as_str(&self) -> (r: &str)
        ensures
            r@ == self@,
            principal_fault(r@) is None,
    {
        proof {
            use_type_invariant(self);
        }
        self.0.as_str()
    }
}

impl Clone for AuthenticatedPrincipal {
    fn clone(&self) -> (r: Self)
        ensures
            r@ == self@,
    {
        proof {
            use_type_invariant(self);
        }
        AuthenticatedPrincipal(self.0.clone())
    }
}

/// The desired resource that a planning request describes.
pub open spec fn desired_of(m: RequestModel) -> DesiredModel {
    DesiredModel {
        provider: m.provider,
        resource: m.resource,
        capability: m.capability,
        state: m.desired,
        reason: m.reason,
    }
}

/// The text that reports a fault of the named desired resource.
pub open spec fn desired_fault_message(resource: Seq<char>, f: DesiredFault) -> Seq<char> {
    match f {
        DesiredFault::EmptyState => "desired resource "@ + resource
            + " must contain at least one state attribute"@,
        DesiredFault::BadKey(k) => "desired resource "@ + resource + " contains invalid attribute key "@
            + debug_quoted(k),
        DesiredFault::BadValue(k) => "desired resource "@ + resource
            + " contains an invalid value for attribute "@ + debug_quoted(k),
        DesiredFault::BadReason(v) => "desired resource "@ + resource
            + " has invalid semantic provenance: "@ + validation_message(v),
    }
}

/// Total UTF-8 bytes of a normalized planning request: its identifiers,
/// semantic reason and desired attributes.
pub open spec fn request_bytes(m: RequestModel) -> int {
    utf8_len(m.request_id) + utf8_len(m.provider) + utf8_len(m.resource) + utf8_len(m.capability)
        + reason_bytes(m.reason) + pair_bytes(m.desired)
}

/// Number of semantic origins of a reason.
pub open spec fn origin_count(r: ReasonModel) -> int {
    r.intent_ids.len() + r.requirement_ids.len() + r.capability_ids.len() as int
}

/// The first rule a planning request breaks, as the reason reported, if any:
/// bounds on the summary, the origins, the attributes and the whole request
/// first, then the semantic reason, then the desired resource.
pub open spec fn request_fault(m: RequestModel) -> Option<Seq<char>> {
    if utf8_len(m.reason.summary) > MAX_SUMMARY_BYTES {
        Some("semantic summary exceeds 4096 UTF-8 bytes"@)
    } else if has_control(m.reason.summary) {
        Some("semantic summary contains control characters"@)
    } else if m.reason.intent_ids.len() > MAX_ORIGINS_PER_KIND || m.reason.requirement_ids.len()
        > MAX_ORIGINS_PER_KIND || m.reason.capability_ids.len() > MAX_ORIGINS_PER_KIND {
        Some("semantic origin kind exceeds 64 entries"@)
    } else if origin_count(m.reason) > MAX_TOTAL_ORIGINS {
        Some("semantic origins exceed 128 total entries"@)
    } else if m.desired.len() == 0 || m.desired.len() > MAX_DESIRED_ATTRIBUTES {
        Some("desired state must contain between 1 and 128 attributes"@)
    } else if request_bytes(m) > MAX_REQUEST_BYTES {
        Some("normalized planning request exceeds 65536 UTF-8 bytes"@)
    } else if reason_fault(m.reason) is Some {
        Some(validation_message(reason_fault(m.reason)->0))
    } else if desired_fault(desired_of(m)) is Some {
        Some(desired_fault_message(m.resource, desired_fault(desired_of(m))->0))
    } else {
        None
    }
}

proof fn lemma_reported_message(e: crate::planner::DesiredStateValidationError, resource: Seq<char>, f: DesiredFault)
    requires
        reports_fault(e, resource, f),
    ensures
        crate::planner::desired_error_message(e) == desired_fault_message(resource, f),
{
}

/// Total bytes of a planning request, capped.
fn request_byte_count(request: &PlanDesiredStateRequest) -> (r: usize)
    ensures
        r == capped(request_bytes(request@)),
{
    let ghost m = request@;
    proof {
        lemma_bytes_nonneg(m.reason, m.desired);
    }
    let a = str_bytes(request.request_id.as_str());
    let b = str_bytes(request.provider.as_str());
    let c = str_bytes(request.resource.as_str());
    let d = str_bytes(request.observation_capability.as_str());
    let e = semantic_reason_bytes(&request.reason);
    let f = state_bytes(&request.desired_state);
    let ghost la = utf8_len(m.request_id) as int;
    let ghost lb = utf8_len(m.provider) as int;
    let ghost lc = utf8_len(m.resource) as int;
    let ghost ld = utf8_len(m.capability) as int;
    let ab = add_capped(a, b, Ghost(la), Ghost(lb));
    let abc = add_capped(ab, c, Ghost(la + lb), Ghost(lc));
    let abcd = add_capped(abc, d, Ghost(la + lb + lc), Ghost(ld));
    let abcde = add_capped(abcd, e, Ghost(la + lb + lc + ld), Ghost(reason_bytes(m.reason)));
    add_capped(abcde, f, Ghost(la + lb + lc + ld + reason_bytes(m.reason)), Ghost(pair_bytes(m.desired)))
}

/// Checks a planning request against the bounds and rules of `request_fault`.
pub fn validate_request(request: &PlanDesiredStateRequest) -> (r: Result<(), PlanPreviewControlError>)
    ensures
        match r {
            Ok(()) => request_fault(request@) is None,
            Err(PlanPreviewControlError::InvalidRequest { reason }) => request_fault(request@) == Some(
                reason@,
            ),
            Err(_) => false,
        },
{
    let reason = &request.reason;
    if byte_len(reason.summary.as_str()) > MAX_SUMMARY_BYTES {
        return Err(PlanPreviewControlError::InvalidRequest { reason: owned("semantic summary exceeds 4096 UTF-8 bytes") });
    }
    if contains_control(reason.summary.as_str()) {
        return Err(PlanPreviewControlError::InvalidRequest { reason: owned("semantic summary contains control characters") });
    }
    if reason.intent_ids.len() > MAX_ORIGINS_PER_KIND || reason.requirement_ids.len() > MAX_ORIGINS_PER_KIND
        || reason.capability_ids.len() > MAX_ORIGINS_PER_KIND {
        return Err(PlanPreviewControlError::InvalidRequest { reason: owned("semantic origin kind exceeds 64 entries") });
    }
    let origins = reason.intent_ids.len() + reason.requirement_ids.len() + reason.capability_ids.len();
    if origins > MAX_TOTAL_ORIGINS {
        return Err(PlanPreviewControlError::InvalidRequest { reason: owned("semantic origins exceed 128 total entries") });
    }
    let attributes = request.desired_state.len();
    if attributes == 0 || attributes > MAX_DESIRED_ATTRIBUTES {
        return Err(PlanPreviewControlError::InvalidRequest {
            reason: owned("desired state must contain between 1 and 128 attributes"),
        });
    }
    if request_byte_count(request) > MAX_REQUEST_BYTES {
        return Err(PlanPreviewControlError::InvalidRequest {
            reason: owned("normalized planning request exceeds 65536 UTF-8 bytes"),
        });
    }
    match reason.validate() {
        Err(e) => {
            return Err(PlanPreviewControlError::InvalidRequest { reason: e.message() });
        },
        Ok(()) => {},
    }
    let desired = DesiredResource {
        provider: request.provider.clone(),
        resource: request.resource.clone(),
        observation_capability: request.observation_capability.clone(),
        state: request.desired_state.clone(),
        reason: request.reason.clone(),
    };
    match validate_desired_resource(&desired) {
        Err(e) => {
            proof {
                lemma_reported_message(e, desired@.resource, desired_fault(desired@)->0);
            }
            return Err(PlanPreviewControlError::InvalidRequest { reason: e.message() });
        },
        Ok(()) => {},
    }
    Ok(())
}

/// A planning request that passed validation, bound to the principal that
/// made it.
#[derive(Debug)]
pub struct NormalizedPlanInput {
    principal: AuthenticatedPrincipal,
    request: PlanDesiredStateRequest,
}

impl View for NormalizedPlanInput {
    type V = (Seq<char>, RequestModel);

    closed spec fn view(&self) -> (Seq<char>, RequestModel) {
        (self.principal@, self.request@)
    }
}

impl NormalizedPlanInput {
    #[verifier::type_invariant]
    closed spec fn inv(self) -> bool {
        request_fault(self.request@) is None
    }

    /// Binds a valid request to a principal.
    pub fn new(principal: AuthenticatedPrincipal, request: PlanDesiredStateRequest) -> (r: Result<
        Self,
        PlanPreviewControlError,
    >)
        ensures
            match r {
                Ok(input) => request_fault(request@) is None && input@ == (principal@, request@),
                Err(PlanPreviewControlError::InvalidRequest { reason }) => request_fault(request@)
                    == Some(reason@),
                Err(_) => false,
            },
    {
        match validate_request(&request) {
            Err(e) => Err(e),
            Ok(()) => Ok(NormalizedPlanInput { principal, request }),
        }
    }

    /// The principal that made the request.
    pub fn principal(&self) -> (r: &AuthenticatedPrincipal)
        ensures
            r@ == self@.0,
    {
        &self.principal
    }

    /// The validated request.
    pub fn request(&self) -> (r: &PlanDesiredStateRequest)
        ensures
            r@ == self@.1,
            request_fault(r@) is None,
    {
        proof {
            use_type_invariant(self);
        }
        &self.request
    }

    /// The plan identifier: the request identifier's text.
    pub fn plan_id(&self) -> (r: PlanId)
        ensures
            r@ == self@.1.request_id,
    {
        PlanId::from_request_id(&self.request.request_id)
    }

    /// The desired resource the request describes.
    pub fn desired_resource(&self) -> (r: DesiredResource)
        ensures
            r@ == desired_of(self@.1),
    {
        DesiredResource {
            provider: self.request.provider.clone(),
            resource: self.request.resource.clone(),
            observation_capability: self.request.observation_capability.clone(),
            state: self.request.desired_state.clone(),
            reason: self.request.reason.clone(),
        }
    }

    /// Whether two inputs have the same principal and request texts.
    pub fn same(&self, other: &Self) -> (r: bool)
        ensures
            r == (self@ == other@),
    {
        let p = crate::text::str_eq(self.principal.as_str(), other.principal.as_str());
        let a = &self.request;
        let b = &other.request;
        let q = a.request_id.same(&b.request_id) && a.provider.same(&b.provider) && a.resource.same(
            &b.resource,
        ) && a.observation_capability.same(&b.observation_capability) && a.reason.same(&b.reason)
            && a.desired_state.same_as(&b.desired_state);
        p && q
    }
}

impl Clone for NormalizedPlanInput {
    fn clone(&self) -> (r: Self)
        ensures
            r@ == self@,
    {
        proof {
            use_type_invariant(self);
        }
        NormalizedPlanInput { principal: self.principal.clone(), request: self.request.clone() }
    }
}

/// The identity a retained preview is filed under: principal and plan.
#[derive(Debug)]
pub struct PreviewKey {
    principal: AuthenticatedPrincipal,
    plan_id: PlanId,
}

impl View for PreviewKey {
    type V = (Seq<char>, Seq<char>);

    closed spec fn view(&self) -> (Seq<char>, Seq<char>) {
        (self.principal@, self.plan_id@)
    }
}

impl PreviewKey {
    /// The key of a normalized input: its principal and its request's plan.
    pub fn from_input(input: &NormalizedPlanInput) -> (r: Result<Self, PlanPreviewControlError>)
        ensures
            r matches Ok(k) && k@ == (input@.0, input@.1.request_id),
    {
        Ok(PreviewKey { principal: input.principal().clone(), plan_id: input.plan_id() })
    }

    /// The key of a principal's plan.
    pub fn new(principal: AuthenticatedPrincipal, plan_id: PlanId) -> (r: Self)
        ensures
            r@ == (principal@, plan_id@),
    {
        PreviewKey { principal, plan_id }
    }
}

/// Bytes of a key: principal and plan identifier.
pub open spec fn key_bytes(k: (Seq<char>, Seq<char>)) -> int {
    utf8_len(k.0) + utf8_len(k.1) as int
}

/// Bytes of a normalized input: principal and request.
pub open spec fn input_bytes(i: (Seq<char>, RequestModel)) -> int {
    utf8_len(i.0) + request_bytes(i.1)
}

/// Bytes of a plan: identifiers, actor, route, reason, evidence, changes and
/// findings.
pub open spec fn plan_bytes(p: PlanModel) -> int {
    utf8_len(p.id) + utf8_len(p.request_id) + utf8_len(p.actor.0) + utf8_len(p.provider) + utf8_len(
        p.resource,
    ) + utf8_len(p.capability) + reason_bytes(p.reason) + utf8_len(p.evidence_id) + change_bytes(
        p.changes,
    ) + finding_bytes(p.findings)
}

/// Estimated bytes of a key, capped.
pub fn estimate_key_bytes(key: &PreviewKey) -> (r: usize)
    ensures
        r == capped(key_bytes(key@)),
{
    let a = str_bytes(key.principal.as_str());
    let b = str_bytes(key.plan_id.as_str());
    add_capped(a, b, Ghost(utf8_len(key@.0) as int), Ghost(utf8_len(key@.1) as int))
}

/// Estimated bytes of a normalized input, capped.
pub fn estimate_input_bytes(input: &NormalizedPlanInput) -> (r: usize)
    ensures
        r == capped(input_bytes(input@)),
{
    let ghost m = input@.1;
    proof {
        lemma_bytes_nonneg(m.reason, m.desired);
    }
    let a = str_bytes(input.principal().as_str());
    let b = request_byte_count(input.request());
    add_capped(a, b, Ghost(utf8_len(input@.0) as int), Ghost(request_bytes(m)))
}

/// Estimated bytes of a plan, capped.
pub fn estimate_plan_bytes(plan: &ReconciliationPlan) -> (r: usize)
    ensures
        r == capped(plan_bytes(plan@)),
{
    let ghost p = plan@;
    proof {
        lemma_bytes_nonneg(p.reason, Seq::empty());
        lemma_plan_bytes_nonneg(p.changes, p.findings);
    }
    let ghost l1 = utf8_len(p.id) as int;
    let ghost l2 = utf8_len(p.request_id) as int;
    let ghost l3 = utf8_len(p.actor.0) as int;
    let ghost l4 = utf8_len(p.provider) as int;
    let ghost l5 = utf8_len(p.resource) as int;
    let ghost l6 = utf8_len(p.capability) as int;
    let ghost l7 = reason_bytes(p.reason);
    let ghost l8 = utf8_len(p.evidence_id) as int;
    let ghost l9 = change_bytes(p.changes);
    let ghost l10 = finding_bytes(p.findings);
    let a = str_bytes(plan.id.as_str());
    let b = str_bytes(plan.request_id.as_str());
    let c = str_bytes(plan.actor.id.as_str());
    let d = str_bytes(plan.provider.as_str());
    let e = str_bytes(plan.resource.as_str());
    let f = str_bytes(plan.observation_capability.as_str());
    let g = semantic_reason_bytes(&plan.reason);
    let h = str_bytes(plan.observed_evidence_id.as_str());
    let i = changes_bytes(&plan.changes);
    let j = findings_bytes(&plan.findings);
    let s2 = add_capped(a, b, Ghost(l1), Ghost(l2));
    let s3 = add_capped(s2, c, Ghost(l1 + l2), Ghost(l3));
    let s4 = add_capped(s3, d, Ghost(l1 + l2 + l3), Ghost(l4));
    let s5 = add_capped(s4, e, Ghost(l1 + l2 + l3 + l4), Ghost(l5));
    let s6 = add_capped(s5, f, Ghost(l1 + l2 + l3 + l4 + l5), Ghost(l6));
    let s7 = add_capped(s6, g, Ghost(l1 + l2 + l3 + l4 + l5 + l6), Ghost(l7));
    let s8 = add_capped(s7, h, Ghost(l1 + l2 + l3 + l4 + l5 + l6 + l7), Ghost(l8));
    let s9 = add_capped(s8, i, Ghost(l1 + l2 + l3 + l4 + l5 + l6 + l7 + l8), Ghost(l9));
    add_capped(s9, j, Ghost(l1 + l2 + l3 + l4 + l5 + l6 + l7 + l8 + l9), Ghost(l10))
}

/// The planner's freshness for an observation freshness.
pub open spec fn planning_freshness(f: FreshnessState) -> PlanningFreshness {
    match f {
        FreshnessState::Current => PlanningFreshness::Current,
        FreshnessState::Stale => PlanningFreshness::Stale,
        FreshnessState::Future => PlanningFreshness::Future,
    }
}

/// Observed attributes as texts, in key order.
pub open spec fn attribute_texts(a: Seq<(Seq<char>, ValueModel)>) -> Seq<(Seq<char>, Seq<char>)> {
    a.map_values(|e: (Seq<char>, ValueModel)| (e.0, value_text(e.1)))
}

/// What the planner sees of an observation with a freshness.
pub open spec fn planning_model(o: EnvelopeModel, f: FreshnessState) -> ObservationModel {
    ObservationModel {
        provider: o.provider,
        resource: o.resource,
        capability: o.capability,
        authority: authority_name(o.authority),
        evidence_id: evidence_id_spec(o.provider, o.resource, o.capability, o.observed_at, o.sequence),
        freshness: planning_freshness(f),
        attributes: attribute_texts(o.attributes),
    }
}

/// The planner's view of an observation response.
pub fn planning_observation(response: &ObservationResponse) -> (r: PlanningObservation)
    ensures
        r@ == planning_model(response.observation@, response.freshness),
{
    let o = &response.observation;
    let ghost src = o.attributes@;
    let n = o.attributes.len();
    let mut attributes: TextMap<String> = TextMap::new();
    let mut i: usize = 0;
    while i < n
        invariant
            i <= n,
            n == src.len(),
            src == o.attributes@,
            crate::keyed::sorted_keys(src),
            attributes@ == attribute_texts(src.take(i as int)),
        decreases n - i,
    {
        let key = o.attributes.key_at(i).clone();
        let value = o.attributes.value_at(i).to_text();
        proof {
            if i > 0 {
                assert(attributes@.last().0 == src[i - 1].0);
            }
        }
        attributes.push_last(key, value);
        assert(attribute_texts(src.take(i + 1)) =~= attribute_texts(src.take(i as int)).push(
            (src[i as int].0, value_text(src[i as int].1)),
        ));
        i = i + 1;
    }
    assert(src.take(i as int) =~= src);
    PlanningObservation {
        provider: o.provider.clone(),
        resource: o.resource.clone(),
        observation_capability: o.capability.clone(),
        authority: owned(o.authority.as_str()),
        evidence_id: o.evidence_id(),
        freshness: match response.freshness {
            FreshnessState::Current => PlanningFreshness::Current,
            FreshnessState::Stale => PlanningFreshness::Stale,
            FreshnessState::Future => PlanningFreshness::Future,
        },
        attributes,
    }
}

/// The non-executable preview of a plan: the plan's texts, unchanged.
pub fn preview_from_plan(plan: &ReconciliationPlan) -> (r: PlanPreview)
    ensures
        r@ == plan@,
{
    let p = plan.clone();
    PlanPreview {
        plan_id: p.id,
        request_id: p.request_id,
        actor: p.actor,
        provider: p.provider,
        resource: p.resource,
        observation_capability: p.observation_capability,
        reason: p.reason,
        observed_evidence_id: p.observed_evidence_id,
        prospective_risk: p.prospective_risk,
        status: p.status,
        execution_authorized: p.execution_authorized,
        changes: p.changes,
        findings: p.findings,
    }
}

/// What one retained preview holds: the principal and request it answers,
/// the plan, and the bytes it was charged.
pub struct RetainedModel {
    pub principal: Seq<char>,
    pub request: RequestModel,
    pub plan: PlanModel,
    pub bytes: nat,
}

/// The key a retained preview is filed under.
pub open spec fn key_of(e: RetainedModel) -> (Seq<char>, Seq<char>) {
    (e.principal, e.request.request_id)
}

/// No two retained previews share a key.
pub open spec fn distinct_keys(s: Seq<RetainedModel>) -> bool {
    forall|i: int, j: int| 0 <= i < j < s.len() ==> key_of(#[trigger] s[i]) != key_of(#[trigger] s[j])
}

/// Whether a preview is retained under the key.
pub open spec fn has_retained(s: Seq<RetainedModel>, k: (Seq<char>, Seq<char>)) -> bool {
    exists|i: int| 0 <= i < s.len() && key_of(#[trigger] s[i]) == k
}

/// The preview retained under the key.
pub open spec fn retained_at(s: Seq<RetainedModel>, k: (Seq<char>, Seq<char>)) -> RetainedModel {
    s[choose|i: int| 0 <= i < s.len() && key_of(#[trigger] s[i]) == k]
}

/// Total bytes charged to retained previews.
pub open spec fn total_bytes(s: Seq<RetainedModel>) -> int
    decreases s.len(),
{
    if s.len() == 0 {
        0
    } else {
        total_bytes(s.drop_last()) + s.last().bytes
    }
}

/// Whether the oldest preview must leave before one of `b` bytes can stay:
/// the store is full, or, under a finite byte limit, the bytes would not fit.
pub open spec fn must_evict(s: Seq<RetainedModel>, capacity: int, max_total: int, b: int) -> bool {
    s.len() >= capacity || (max_total < usize::MAX && total_bytes(s) + b > max_total)
}

/// How many of the oldest previews leave before one of `b` bytes is retained.
pub open spec fn evictions(s: Seq<RetainedModel>, capacity: int, max_total: int, b: int) -> nat
    decreases s.len(),
{
    if s.len() > 0 && must_evict(s, capacity, max_total, b) {
        1 + evictions(s.drop_first(), capacity, max_total, b)
    } else {
        0
    }
}

proof fn lemma_total_nonneg(s: Seq<RetainedModel>)
    ensures
        total_bytes(s) >= 0,
    decreases s.len(),
{
    if s.len() > 0 {
        lemma_total_nonneg(s.drop_last());
    }
}

proof fn lemma_total_drop_first(s: Seq<RetainedModel>)
    requires
        s.len() > 0,
    ensures
        total_bytes(s) == s[0].bytes + total_bytes(s.drop_first()),
    decreases s.len(),
{
    if s.len() > 1 {
        lemma_total_drop_first(s.drop_last());
        assert(s.drop_last().drop_first() =~= s.drop_first().drop_last());
    } else {
        assert(s.drop_last() =~= Seq::<RetainedModel>::empty());
        assert(s.drop_first() =~= Seq::<RetainedModel>::empty());
    }
}

proof fn lemma_retained_at(s: Seq<RetainedModel>, i: int)
    requires
        distinct_keys(s),
        0 <= i < s.len(),
    ensures
        has_retained(s, key_of(s[i])),
        retained_at(s, key_of(s[i])) == s[i],
{
    let k = key_of(s[i]);
    assert(key_of(s[i]) == k);
    let j = choose|j: int| 0 <= j < s.len() && key_of(#[trigger] s[j]) == k;
    if j != i {
        if j < i {
            assert(key_of(s[j]) != key_of(s[i]));
        } else {
            assert(key_of(s[i]) != key_of(s[j]));
        }
    }
}

/// Retention is bounded: a well-formed store never holds more previews than
/// its capacity, never counts more bytes than its aggregate limit, charges no
/// preview more than the per-entry limit, and under a finite aggregate limit
/// the bytes of all retained previews stay within it.
pub proof fn law_retention_is_bounded(store: PreviewStore)
    requires
        store.wf(),
    ensures
        store.entries_spec().len() <= store.capacity_spec(),
        store.retained_spec() <= store.max_total_spec(),
        forall|i: int| 0 <= i < store.entries_spec().len() ==> #[trigger] store.entries_spec()[i].bytes
            <= store.max_entry_spec(),
        store.max_total_spec() < usize::MAX ==> total_bytes(store.entries_spec()) <= store.max_total_spec(),
{
}

/// What replaying a normalized input against the retained previews `s`
/// gives: nothing when nothing is retained under its key, the retained plan
/// when the retained input is the same, and a conflict otherwise.
pub open spec fn replay_outcome(
    s: Seq<RetainedModel>,
    i: (Seq<char>, RequestModel),
    r: Result<Option<ReconciliationPlan>, PlanPreviewControlError>,
) -> bool {
    let k = (i.0, i.1.request_id);
    match r {
        Ok(None) => !has_retained(s, k),
        Ok(Some(p)) => has_retained(s, k) && retained_at(s, k).request == i.1 && p@ == retained_at(s, k).plan,
        Err(PlanPreviewControlError::IdempotencyConflict { plan_id }) => has_retained(s, k)
            && retained_at(s, k).request != i.1 && plan_id@ == k.1,
        Err(_) => false,
    }
}

/// A read gives back what a write retained: once a plan is retained for an
/// input, replaying the same input returns that plan.
pub proof fn law_replay_returns_retained_plan(
    s: Seq<RetainedModel>,
    i: (Seq<char>, RequestModel),
    p: PlanModel,
    r: Result<Option<ReconciliationPlan>, PlanPreviewControlError>,
)
    requires
        has_retained(s, (i.0, i.1.request_id)),
        retained_at(s, (i.0, i.1.request_id)).request == i.1,
        retained_at(s, (i.0, i.1.request_id)).plan == p,
        replay_outcome(s, i, r),
    ensures
        r matches Ok(Some(q)) && q@ == p,
{
}

/// One retained preview.
#[derive(Debug)]
pub struct StoredPreview {
    input: NormalizedPlanInput,
    plan: ReconciliationPlan,
    retained_bytes: usize,
}

impl View for StoredPreview {
    type V = RetainedModel;

    closed spec fn view(&self) -> RetainedModel {
        RetainedModel {
            principal: self.input@.0,
            request: self.input@.1,
            plan: self.plan@,
            bytes: self.retained_bytes as nat,
        }
    }
}

/// Previews retained per principal, oldest first, within a count limit, a
/// per-entry byte limit and an aggregate byte limit.
#[derive(Debug)]
pub struct PreviewStore {
    capacity: usize,
    max_entry_bytes: usize,
    max_total_bytes: usize,
    retained_bytes: usize,
    entries: Vec<StoredPreview>,
}

/// The reason a preview too large to retain is refused with.
pub open spec fn oversize_message(bytes: nat, max_entry: nat) -> Seq<char> {
    "preview requires "@ + crate::text::decimal(bytes) + " retained bytes, exceeding per-entry limit "@
        + crate::text::decimal(max_entry)
}

impl PreviewStore {
    /// Retained previews, oldest first.
    pub closed spec fn entries_spec(self) -> Seq<RetainedModel> {
        views(self.entries@)
    }

    /// The most previews retained at once.
    pub closed spec fn capacity_spec(self) -> nat {
        self.capacity as nat
    }

    /// The most bytes one preview may be charged.
    pub closed spec fn max_entry_spec(self) -> nat {
        self.max_entry_bytes as nat
    }

    /// The most bytes all previews together may be charged.
    pub closed spec fn max_total_spec(self) -> nat {
        self.max_total_bytes as nat
    }

    /// The bytes the store counts as retained.
    pub closed spec fn retained_spec(self) -> nat {
        self.retained_bytes as nat
    }

    /// The store's limits are positive and consistent, it holds no more than
    /// its limits allow, its byte count is exact under a finite limit, and no
    /// key is retained twice.
    pub closed spec fn wf(self) -> bool {
        let s = self.entries_spec();
        &&& self.capacity >= 1
        &&& self.max_entry_bytes >= 1
        &&& self.max_total_bytes >= 1
        &&& self.max_entry_bytes <= self.max_total_bytes
        &&& s.len() <= self.capacity
        &&& self.retained_bytes <= self.max_total_bytes
        &&& (self.max_total_bytes < usize::MAX ==> self.retained_bytes == total_bytes(s))
        &&& distinct_keys(s)
        &&& forall|i: int| 0 <= i < s.len() ==> #[trigger] s[i].bytes <= self.max_entry_bytes
        &&& forall|i: int| 0 <= i < s.len() ==> (#[trigger] s[i]).plan.id == s[i].request.request_id
    }

    /// A store with the given limits; every limit must be positive and the
    /// per-entry limit no larger than the aggregate one.
    pub fn with_limits(capacity: usize, max_entry_bytes: usize, max_total_bytes: usize) -> (r: Result<
        Self,
        PlanPreviewControlError,
    >)
        ensures
            match r {
                Ok(s) => {
                    &&& capacity >= 1 && max_entry_bytes >= 1 && max_total_bytes >= 1 && max_entry_bytes
                        <= max_total_bytes
                    &&& s.wf()
                    &&& s.capacity_spec() == capacity
                    &&& s.max_entry_spec() == max_entry_bytes
                    &&& s.max_total_spec() == max_total_bytes
                    &&& s.entries_spec().len() == 0
                    &&& s.retained_spec() == 0
                },
                Err(PlanPreviewControlError::Retention { reason }) => (capacity == 0 || max_entry_bytes
                    == 0 || max_total_bytes == 0 || max_entry_bytes > max_total_bytes) && reason@
                    == "preview retention limits are invalid"@,
                Err(_) => false,
            },
    {
        if capacity == 0 || max_entry_bytes == 0 || max_total_bytes == 0 || max_entry_bytes
            > max_total_bytes {
            return Err(PlanPreviewControlError::Retention { reason: owned("preview retention limits are invalid") });
        }
        let s = PreviewStore {
            capacity,
            max_entry_bytes,
            max_total_bytes,
            retained_bytes: 0,
            entries: Vec::new(),
        };
        assert(s.entries_spec() =~= Seq::<RetainedModel>::empty());
        Ok(s)
    }

    /// Position of the preview retained under a principal's plan.
    fn find(&self, principal: &AuthenticatedPrincipal, plan_id: &str) -> (r: Option<usize>)
        ensures
            match r {
                Some(i) => i < self.entries_spec().len() && key_of(self.entries_spec()[i as int]) == (
                    principal@,
                    plan_id@,
                ),
                None => !has_retained(self.entries_spec(), (principal@, plan_id@)),
            },
    {
        let ghost s = self.entries_spec();
        let mut i: usize = 0;
        while i < self.entries.len()
            invariant
                i <= self.entries@.len(),
                s == self.entries_spec(),
                forall|j: int| 0 <= j < i ==> key_of(#[trigger] s[j]) != (principal@, plan_id@),
            decreases self.entries@.len() - i,
        {
            let e = &self.entries[i];
            assert(s[i as int] == e@);
            if crate::text::str_eq(e.input.principal().as_str(), principal.as_str())
                && crate::text::str_eq(e.input.request().request_id.as_str(), plan_id) {
                return Some(i);
            }
            i = i + 1;
        }
        None
    }

    /// The retained plan for a repeated input: none when nothing is retained
    /// under its key, a conflict when the retained input differs.
    pub fn replay(&self, input: &NormalizedPlanInput) -> (r: Result<
        Option<ReconciliationPlan>,
        PlanPreviewControlError,
    >)
        requires
            self.wf(),
        ensures
            replay_outcome(self.entries_spec(), input@, r),
    {
        let plan_id = input.plan_id();
        match self.find(input.principal(), plan_id.as_str()) {
            None => Ok(None),
            Some(i) => {
                proof {
                    lemma_retained_at(self.entries_spec(), i as int);
                }
                let stored = &self.entries[i];
                assert(self.entries_spec()[i as int] == stored@);
                if !stored.input.same(input) {
                    return Err(PlanPreviewControlError::IdempotencyConflict { plan_id });
                }
                Ok(Some(stored.plan.clone()))
            },
        }
    }

    /// The plan retained under a principal's plan identifier.
    pub fn get(&self, principal: &AuthenticatedPrincipal, plan_id: &PlanId) -> (r: Option<
        ReconciliationPlan,
    >)
        requires
            self.wf(),
        ensures
            ({
                let k = (principal@, plan_id@);
                match r {
                    Some(p) => has_retained(self.entries_spec(), k) && p@ == retained_at(
                        self.entries_spec(),
                        k,
                    ).plan,
                    None => !has_retained(self.entries_spec(), k),
                }
            }),
    {
        match self.find(principal, plan_id.as_str()) {
            None => None,
            Some(i) => {
                proof {
                    lemma_retained_at(self.entries_spec(), i as int);
                }
                assert(self.entries_spec()[i as int] == self.entries[i as int]@);
                Some(self.entries[i].plan.clone())
            },
        }
    }

    /// Retains the plan for a normalized input, oldest previews leaving first
    /// while the store is full or the new bytes would not fit. A repeated
    /// identical input and plan is accepted unchanged; a plan that does not
    /// answer its input, a different input or plan under a retained key, and
    /// a preview over either byte limit are refused, leaving the store as it was.
    pub fn insert(&mut self, input: NormalizedPlanInput, plan: ReconciliationPlan) -> (r: Result<
        (),
        PlanPreviewControlError,
    >)
        requires
            old(self).wf(),
        ensures
            final(self).wf(),
            final(self).capacity_spec() == old(self).capacity_spec(),
            final(self).max_entry_spec() == old(self).max_entry_spec(),
            final(self).max_total_spec() == old(self).max_total_spec(),
            ({
                let i = input@;
                let p = plan@;
                let k = (i.0, i.1.request_id);
                let s = old(self).entries_spec();
                let b = capped(key_bytes(k) + input_bytes(i) + plan_bytes(p));
                let unchanged = final(self).entries_spec() == s && final(self).retained_spec()
                    == old(self).retained_spec();
                if p.id != k.1 || p.request_id != i.1.request_id {
                    &&& r matches Err(PlanPreviewControlError::Retention { reason }) && reason@
                        == "retained preview identity does not match normalized request"@
                    &&& unchanged
                } else if p.provider != i.1.provider || p.resource != i.1.resource || p.capability
                    != i.1.capability || p.reason != i.1.reason {
                    &&& r matches Err(PlanPreviewControlError::Retention { reason }) && reason@
                        == "retained preview route or semantic reason does not match request"@
                    &&& unchanged
                } else if has_retained(s, k) {
                    &&& if retained_at(s, k).request == i.1 && retained_at(s, k).plan == p {
                        r is Ok
                    } else {
                        r matches Err(PlanPreviewControlError::IdempotencyConflict { plan_id })
                            && plan_id@ == k.1
                    }
                    &&& unchanged
                } else if b > old(self).max_entry_spec() || b > old(self).max_total_spec() {
                    &&& r matches Err(PlanPreviewControlError::Retention { reason }) && reason@
                        == oversize_message(b as nat, old(self).max_entry_spec())
                    &&& unchanged
                } else {
                    &&& r is Ok
                    &&& final(self).entries_spec() == s.skip(
                        evictions(
                            s,
                            old(self).capacity_spec() as int,
                            old(self).max_total_spec() as int,
                            b,
                        ) as int,
                    ).push(RetainedModel { principal: i.0, request: i.1, plan: p, bytes: b as nat })
                }
            }),
            forall|x: int| 0 <= x < final(self).entries_spec().len() ==> (#[trigger] final(self).entries_spec()[x]).plan
                == plan@ || old(self).entries_spec().contains(final(self).entries_spec()[x]),
            r is Ok ==> has_retained(final(self).entries_spec(), (input@.0, input@.1.request_id))
                && retained_at(final(self).entries_spec(), (input@.0, input@.1.request_id)).request
                == input@.1 && retained_at(
                final(self).entries_spec(),
                (input@.0, input@.1.request_id),
            ).plan == plan@,
    {
        let plan_id = input.plan_id();
        let request = input.request();
        if !plan.id.same(&plan_id) || !plan.request_id.same(&request.request_id) {
            return Err(PlanPreviewControlError::Retention {
                reason: owned("retained preview identity does not match normalized request"),
            });
        }
        if !plan.provider.same(&request.provider) || !plan.resource.same(&request.resource)
            || !plan.observation_capability.same(&request.observation_capability)
            || !plan.reason.same(&request.reason) {
            return Err(PlanPreviewControlError::Retention {
                reason: owned("retained preview route or semantic reason does not match request"),
            });
        }
        match self.find(input.principal(), plan_id.as_str()) {
            Some(i) => {
                proof {
                    lemma_retained_at(self.entries_spec(), i as int);
                }
                let e = &self.entries[i];
                assert(self.entries_spec()[i as int] == e@);
                if e.input.same(&input) && e.plan.same(&plan) {
                    return Ok(());
                }
                return Err(PlanPreviewControlError::IdempotencyConflict { plan_id });
            },
            None => {},
        }
        let key = PreviewKey { principal: input.principal().clone(), plan_id: input.plan_id() };
        let ghost i_model = input@;
        let ghost p_model = plan@;
        proof {
            lemma_bytes_nonneg(i_model.1.reason, i_model.1.desired);
            lemma_bytes_nonneg(p_model.reason, Seq::empty());
            lemma_plan_bytes_nonneg(p_model.changes, p_model.findings);
        }
        let kb = estimate_key_bytes(&key);
        let ib = estimate_input_bytes(&input);
        let pb = estimate_plan_bytes(&plan);
        let kib = add_capped(kb, ib, Ghost(key_bytes(key@)), Ghost(input_bytes(i_model)));
        let b = add_capped(
            kib,
            pb,
            Ghost(key_bytes(key@) + input_bytes(i_model)),
            Ghost(plan_bytes(p_model)),
        );
        if b > self.max_entry_bytes || b > self.max_total_bytes {
            let mut reason = owned("preview requires ");
            append_decimal(&mut reason, b as u64);
            append_str(&mut reason, " retained bytes, exceeding per-entry limit ");
            append_decimal(&mut reason, self.max_entry_bytes as u64);
            return Err(PlanPreviewControlError::Retention { reason });
        }
        self.make_room(b);
        let ghost cur = self.entries_spec();
        let ghost p_view = plan@;
        self.append(StoredPreview { input, plan, retained_bytes: b });
        proof {
            let fin = self.entries_spec();
            assert forall|x: int| 0 <= x < fin.len() implies (#[trigger] fin[x]).plan == p_view
                || old(self).entries_spec().contains(fin[x]) by {
                if x < fin.len() - 1 {
                    assert(fin[x] == cur[x]);
                }
            }
        }
        Ok(())
    }

    /// Evicts the oldest previews while the store is full or `b` more bytes
    /// would not fit.
    fn make_room(&mut self, b: usize)
        requires
            old(self).wf(),
            b <= old(self).max_entry_bytes,
        ensures
            final(self).wf(),
            final(self).capacity == old(self).capacity,
            final(self).max_entry_bytes == old(self).max_entry_bytes,
            final(self).max_total_bytes == old(self).max_total_bytes,
            final(self).entries_spec() == old(self).entries_spec().skip(
                evictions(
                    old(self).entries_spec(),
                    old(self).capacity as int,
                    old(self).max_total_bytes as int,
                    b as int,
                ) as int,
            ),
            final(self).entries_spec().len() < final(self).capacity,
            capped(final(self).retained_bytes + b) <= final(self).max_total_bytes,
            forall|k: (Seq<char>, Seq<char>)| #[trigger] has_retained(final(self).entries_spec(), k)
                ==> has_retained(old(self).entries_spec(), k),
            forall|x: int| 0 <= x < final(self).entries_spec().len() ==> old(self).entries_spec().contains(
                #[trigger] final(self).entries_spec()[x],
            ),
    {
        let ghost s0 = self.entries_spec();
        let ghost cap = self.capacity as int;
        let ghost max_total = self.max_total_bytes as int;
        let ghost max_entry = self.max_entry_bytes;
        let ghost mut n: int = 0;
        assert(s0.skip(0) =~= s0);
        while self.entries.len() >= self.capacity || self.retained_bytes.saturating_add(b)
            > self.max_total_bytes
            invariant
                cap == self.capacity,
                max_total == self.max_total_bytes,
                max_entry == self.max_entry_bytes,
                self.capacity >= 1,
                self.max_entry_bytes >= 1,
                self.max_total_bytes >= 1,
                self.max_entry_bytes <= self.max_total_bytes,
                b <= self.max_entry_bytes,
                0 <= n <= s0.len(),
                distinct_keys(s0),
                forall|i: int| 0 <= i < s0.len() ==> #[trigger] s0[i].bytes <= self.max_entry_bytes,
                self.entries_spec() == s0.skip(n),
                evictions(s0, cap, max_total, b as int) == n + evictions(
                    s0.skip(n),
                    cap,
                    max_total,
                    b as int,
                ),
                self.retained_bytes <= self.max_total_bytes,
                self.max_total_bytes < usize::MAX ==> self.retained_bytes == total_bytes(
                    self.entries_spec(),
                ),
            decreases self.entries@.len(),
        {
            let ghost cur = self.entries_spec();
            proof {
                lemma_total_nonneg(cur);
                if cur.len() == 0 {
                    assert(false);
                }
                assert(must_evict(cur, cap, max_total, b as int));
                assert(s0.skip(n + 1) =~= cur.drop_first());
                lemma_total_drop_first(cur);
                lemma_total_nonneg(cur.drop_first());
            }
            let removed = self.entries.remove(0);
            assert(removed@ == cur[0]);
            self.retained_bytes = self.retained_bytes.saturating_sub(removed.retained_bytes);
            proof {
                assert(self.entries_spec() =~= cur.drop_first());
                n = n + 1;
            }
        }
        let ghost cur = self.entries_spec();
        proof {
            lemma_total_nonneg(cur);
            assert(!must_evict(cur, cap, max_total, b as int));
            assert(evictions(cur, cap, max_total, b as int) == 0);
            assert forall|x: int, y: int| 0 <= x < y < cur.len() implies key_of(#[trigger] cur[x])
                != key_of(#[trigger] cur[y]) by {
                assert(cur[x] == s0[x + n] && cur[y] == s0[y + n]);
            }
            assert forall|x: int| 0 <= x < cur.len() implies #[trigger] cur[x].bytes <= self.max_entry_bytes by {
                assert(cur[x] == s0[x + n]);
            }
            assert forall|k: (Seq<char>, Seq<char>)| #[trigger] has_retained(cur, k) implies has_retained(s0, k) by {
                let j = choose|j: int| 0 <= j < cur.len() && key_of(#[trigger] cur[j]) == k;
                assert(cur[j] == s0[j + n]);
            }
            assert forall|x: int| 0 <= x < cur.len() implies s0.contains(#[trigger] cur[x]) by {
                assert(cur[x] == s0[x + n]);
            }
            assert forall|x: int| 0 <= x < cur.len() implies (#[trigger] cur[x]).plan.id == cur[x].request.request_id by {
                assert(cur[x] == s0[x + n]);
            }
        }
    }

    /// Retains one more preview under a key not yet retained, when it fits.
    fn append(&mut self, stored: StoredPreview)
        requires
            old(self).wf(),
            !has_retained(old(self).entries_spec(), key_of(stored@)),
            old(self).entries_spec().len() < old(self).capacity,
            capped(old(self).retained_bytes + stored.retained_bytes) <= old(self).max_total_bytes,
            stored.retained_bytes <= old(self).max_entry_bytes,
            stored@.plan.id == stored@.request.request_id,
        ensures
            final(self).wf(),
            final(self).capacity == old(self).capacity,
            final(self).max_entry_bytes == old(self).max_entry_bytes,
            final(self).max_total_bytes == old(self).max_total_bytes,
            final(self).entries_spec() == old(self).entries_spec().push(stored@),
            has_retained(final(self).entries_spec(), key_of(stored@)),
            retained_at(final(self).entries_spec(), key_of(stored@)) == stored@,
    {
        let ghost cur = self.entries_spec();
        let ghost e = stored@;
        self.retained_bytes = self.retained_bytes.saturating_add(stored.retained_bytes);
        self.entries.push(stored);
        proof {
            let fin = self.entries_spec();
            assert(fin =~= cur.push(e));
            assert(fin.drop_last() =~= cur);
            lemma_total_nonneg(cur);
            assert forall|x: int, y: int| 0 <= x < y < fin.len() implies key_of(#[trigger] fin[x])
                != key_of(#[trigger] fin[y]) by {
                if y == fin.len() - 1 {
                    assert(fin[x] == cur[x]);
                    if key_of(cur[x]) == key_of(e) {
                        assert(has_retained(cur, key_of(e)));
                    }
                } else {
                    assert(fin[x] == cur[x] && fin[y] == cur[y]);
                }
            }
            assert forall|x: int| 0 <= x < fin.len() implies #[trigger] fin[x].bytes <= self.max_entry_bytes by {
                if x < fin.len() - 1 {
                    assert(fin[x] == cur[x]);
                }
            }
            assert forall|x: int| 0 <= x < fin.len() implies (#[trigger] fin[x]).plan.id == fin[x].request.request_id by {
                if x < fin.len() - 1 {
                    assert(fin[x] == cur[x]);
                }
            }
            lemma_retained_at(fin, fin.len() - 1);
        }
    }

    /// Number of retained previews.
    pub fn len(&self) -> (r: usize)
        ensures
            r == self.entries_spec().len(),
    {
        self.entries.len()
    }

    /// The bytes the store counts as retained.
    pub fn retained_bytes(&self) -> (r: usize)
        ensures
            r == self.retained_spec(),
    {
        self.retained_bytes
    }
}

impl Default for PreviewStore {
    fn default() -> (r: Self)
        ensures
            r.wf(),
            r.capacity_spec() == MAX_PREVIEW_ENTRIES,
            r.max_entry_spec() == MAX_PREVIEW_ENTRY_BYTES,
            r.max_total_spec() == MAX_PREVIEW_TOTAL_BYTES,
            r.entries_spec().len() == 0,
            r.retained_spec() == 0,
    {
        let s = PreviewStore {
            capacity: MAX_PREVIEW_ENTRIES,
            max_entry_bytes: MAX_PREVIEW_ENTRY_BYTES,
            max_total_bytes: MAX_PREVIEW_TOTAL_BYTES,
            retained_bytes: 0,
            entries: Vec::new(),
        };
        assert(s.entries_spec() =~= Seq::<RetainedModel>::empty());
        s
    }
}

/// What planning a fresh request does once the observation answered with
/// `resp`: the planner's refusal, a preview too large to retain, or the
/// planned preview retained after the oldest previews that must leave.
pub open spec fn fresh_plan_outcome(
    old_store: Seq<RetainedModel>,
    new_store: Seq<RetainedModel>,
    capacity: nat,
    max_entry: nat,
    max_total: nat,
    principal: Seq<char>,
    actor: (Seq<char>, crate::base::ActorKind, bool),
    m: RequestModel,
    resp: ObservationResponse,
    r: Result<PlanPreview, PlanPreviewControlError>,
) -> bool {
    let o = planning_model(resp.observation@, resp.freshness);
    let d = desired_of(m);
    if !planning_accepts(d, o) {
        &&& r matches Err(PlanPreviewControlError::Planning { reason }) && exists|e: crate::planner::PlanningError|
            #[trigger] planning_rejects(d, o, e) && reason@ == planning_error_message(e)
        &&& new_store == old_store
    } else {
        let p = expected_plan(m.request_id, actor, d, o);
        let b = capped(key_bytes((principal, m.request_id)) + input_bytes((principal, m)) + plan_bytes(p));
        if b > max_entry || b > max_total {
            &&& r matches Err(PlanPreviewControlError::Retention { reason }) && reason@ == oversize_message(
                b as nat,
                max_entry,
            )
            &&& new_store == old_store
        } else {
            &&& r matches Ok(v) && v@ == p
            &&& new_store == old_store.skip(evictions(old_store, capacity as int, max_total as int, b) as int).push(
                RetainedModel { principal, request: m, plan: p, bytes: b as nat },
            )
        }
    }
}

/// Whether `obs` can be what observing `route` at `now` gives: a refusal, or
/// a valid answer current at `now`.
pub open spec fn possible_observation(
    route: crate::observation_control::Route,
    now_unix_ms: u64,
    obs: Result<ObservationResponse, ObservationControlError>,
) -> bool {
    obs is Ok ==> crate::observation_control::current_answer(route, now_unix_ms, obs->Ok_0.observation@)
}

/// What planning a valid request of a principal at `now` does to a control
/// plane: a retained request replays its preview, or conflicts when its
/// input differs, changing nothing; a new one is observed through the
/// coordinator, as `observe_result` says of a request with its route (an
/// unknown provider is refused, the registered provider's observer is asked),
/// and either the observation's refusal is reported with the store
/// unchanged, or the observation is planned as `fresh_plan_outcome` says.
pub open spec fn planned_outcome<O: Observer>(
    before: PlanPreviewControl<O>,
    after: PlanPreviewControl<O>,
    principal: Seq<char>,
    actor: (Seq<char>, crate::base::ActorKind, bool),
    m: RequestModel,
    now_unix_ms: u64,
    r: Result<PlanPreview, PlanPreviewControlError>,
) -> bool {
    let k = (principal, m.request_id);
    let s = before.store().entries_spec();
    if has_retained(s, k) {
        &&& if retained_at(s, k).request == m {
            r matches Ok(v) && v@ == retained_at(s, k).plan
        } else {
            r matches Err(PlanPreviewControlError::IdempotencyConflict { plan_id }) && plan_id@ == m.request_id
        }
        &&& after.store().entries_spec() == s
        &&& after.coordinator().graph_nodes() == before.coordinator().graph_nodes()
        &&& after.coordinator().graph_edges() == before.coordinator().graph_edges()
        &&& after.coordinator().latest_spec() == before.coordinator().latest_spec()
    } else {
        exists|q: ObservationRequest, obs: Result<ObservationResponse, ObservationControlError>|
            {
                &&& crate::observation_control::route_of(q) == (m.provider, m.resource, m.capability)
                &&& #[trigger] crate::observation_control::observe_result(
                    before.coordinator(),
                    after.coordinator(),
                    q,
                    now_unix_ms,
                    obs,
                )
                &&& possible_observation((m.provider, m.resource, m.capability), now_unix_ms, obs)
                &&& match obs {
                    Err(e) => r matches Err(PlanPreviewControlError::Observation { reason }) && reason@
                        == control_error_message(e) && after.store().entries_spec() == s,
                    Ok(resp) => fresh_plan_outcome(
                        s,
                        after.store().entries_spec(),
                        before.store().capacity_spec(),
                        before.store().max_entry_spec(),
                        before.store().max_total_spec(),
                        principal,
                        actor,
                        m,
                        resp,
                        r,
                    ),
                }
            }
    }
}

/// The local read and planning control plane: authoritative observation,
/// deterministic planning and bounded preview retention, in that order.
/// Transports authenticate callers and adapt wire data; they own none of
/// replay, evidence, planning or retention.
pub struct PlanPreviewControl<O: Observer = Box<dyn Observer>> {
    coordinator: ObservationCoordinator<O>,
    previews: PreviewStore,
}

impl<O: Observer> PlanPreviewControl<O> {
    /// The observation coordinator.
    pub closed spec fn coordinator(self) -> ObservationCoordinator<O> {
        self.coordinator
    }

    /// The retained previews.
    pub closed spec fn store(self) -> PreviewStore {
        self.previews
    }

    /// The store is well formed and no retained plan authorizes execution.
    pub closed spec fn wf(self) -> bool {
        &&& self.previews.wf()
        &&& forall|i: int| 0 <= i < self.previews.entries_spec().len()
            ==> !(#[trigger] self.previews.entries_spec()[i]).plan.execution_authorized
    }

    /// A control plane over `coordinator` with default retention limits.
    pub fn new(coordinator: ObservationCoordinator<O>) -> (r: Self)
        ensures
            r.wf(),
            r.coordinator() == coordinator,
            r.store().entries_spec().len() == 0,
            r.store().capacity_spec() == MAX_PREVIEW_ENTRIES,
            r.store().max_entry_spec() == MAX_PREVIEW_ENTRY_BYTES,
            r.store().max_total_spec() == MAX_PREVIEW_TOTAL_BYTES,
    {
        PlanPreviewControl { coordinator, previews: PreviewStore::default() }
    }

    /// Health and capabilities of every observer.
    pub fn provider_snapshot(&self) -> (r: Result<ProviderSnapshot, ObservationControlError>)
        ensures
            match r {
                Ok(s) => {
                    &&& forall|k: int| 0 <= k < self.coordinator().observers_spec().len() ==> #[trigger] identity_result(
                        &self.coordinator().observers_spec()[k],
                        self.coordinator().providers_spec()[k],
                        Ok(()),
                    )
                    &&& healths_sorted(s.providers@)
                    &&& capabilities_sorted(s.capabilities@)
                    &&& exists|hs: Seq<ProviderHealth>, vs: Seq<Vec<Capability>>|
                        #[trigger] reports_of(self.coordinator().observers_spec(), hs, vs)
                            && s.providers@.to_multiset() == hs.to_multiset()
                            && s.capabilities@.to_multiset() == concat_capabilities(vs).to_multiset()
                },
                Err(e) => {
                    &&& exists|k: int| 0 <= k < self.coordinator().observers_spec().len() && #[trigger] identity_result(
                        &self.coordinator().observers_spec()[k],
                        self.coordinator().providers_spec()[k],
                        Err(e),
                    )
                    &&& match e {
                        ObservationControlError::ProviderIdentityMismatch { expected, .. } => self.coordinator().providers_spec().contains(
                            expected@,
                        ),
                        ObservationControlError::CapabilityProviderMismatch { provider, .. } => self.coordinator().providers_spec().contains(
                            provider@,
                        ),
                        _ => false,
                    }
                },
            },
    {
        self.coordinator.provider_snapshot()
    }

    /// Observes one resource at `now`, as the coordinator does.
    pub fn observe(&mut self, request: &ObservationRequest, now_unix_ms: u64) -> (r: Result<
        ObservationResponse,
        ObservationControlError,
    >)
        ensures
            final(self).store() == old(self).store(),
            final(self).coordinator().providers_spec() == old(self).coordinator().providers_spec(),
            observe_outcome(
                old(self).coordinator().providers_spec(),
                old(self).coordinator().graph_nodes(),
                old(self).coordinator().graph_edges(),
                old(self).coordinator().latest_spec(),
                final(self).coordinator().graph_nodes(),
                final(self).coordinator().graph_edges(),
                final(self).coordinator().latest_spec(),
                crate::observation_control::route_of(*request),
                now_unix_ms,
                r,
            ),
    {
        self.coordinator.observe(request, now_unix_ms)
    }

    /// A copy of the graph of recorded evidence.
    pub fn graph_snapshot(&self) -> (r: Result<SystemGraph, ObservationControlError>)
        ensures
            r matches Ok(g) && g.nodes_spec() == self.coordinator().graph_nodes() && g.edges_spec()
                == self.coordinator().graph_edges(),
    {
        Ok(self.coordinator.graph().clone())
    }

    /// Explains the latest current observation of a resource at `now`.
    pub fn explain_observation(&self, resource: &ResourceId, now_unix_ms: u64) -> (r: Result<
        ObservationExplanation,
        ObservationControlError,
    >)
        ensures
            match crate::keyed::lookup(self.coordinator().latest_spec(), resource@) {
                None => r matches Err(ObservationControlError::ObservationUnavailable { resource: x })
                    && x@ == resource@,
                Some(o) => r matches Ok(e) && e.resource@ == o.resource && e.provider@ == o.provider
                    && e.capability@ == o.capability && e.freshness == freshness(
                    o.observed_at,
                    o.valid_for,
                    now_unix_ms,
                ) && e.evidence_id@ == evidence_id_spec(
                    o.provider,
                    o.resource,
                    o.capability,
                    o.observed_at,
                    o.sequence,
                ) && e.authority@ == authority_name(o.authority),
            },
    {
        self.coordinator.explain(resource, now_unix_ms)
    }

    /// Plans one resource for an authenticated principal at `now`. A valid
    /// request already retained for the principal replays its preview without
    /// observing again, and conflicts when its normalized input differs;
    /// otherwise the resource is observed, planned and the preview retained.
    pub fn plan_desired_state(
        &mut self,
        principal: AuthenticatedPrincipal,
        actor: Actor,
        request: PlanDesiredStateRequest,
        now_unix_ms: u64,
    ) -> (r: Result<PlanPreview, PlanPreviewControlError>)
        requires
            old(self).wf(),
        ensures
            final(self).wf(),
            final(self).coordinator().providers_spec() == old(self).coordinator().providers_spec(),
            final(self).store().capacity_spec() == old(self).store().capacity_spec(),
            final(self).store().max_entry_spec() == old(self).store().max_entry_spec(),
            final(self).store().max_total_spec() == old(self).store().max_total_spec(),
            r matches Ok(v) ==> !v.execution_authorized && v@.id == request@.request_id,
            request_fault(request@) is Some ==> {
                &&& r matches Err(PlanPreviewControlError::InvalidRequest { reason }) && request_fault(request@)
                    == Some(reason@)
                &&& final(self).store().entries_spec() == old(self).store().entries_spec()
                &&& final(self).coordinator().graph_nodes() == old(self).coordinator().graph_nodes()
                &&& final(self).coordinator().graph_edges() == old(self).coordinator().graph_edges()
                &&& final(self).coordinator().latest_spec() == old(self).coordinator().latest_spec()
            },
            request_fault(request@) is None ==> planned_outcome(*old(self), *final(self), principal@, actor@, request@, now_unix_ms, r),
    {
        let input = match NormalizedPlanInput::new(principal, request) {
            Ok(i) => i,
            Err(e) => {
                return Err(e);
            },
        };
        self.plan_input(input, actor, now_unix_ms)
    }

    /// Replays or plans a normalized input.
    #[verifier::rlimit(40)]
    fn plan_input(&mut self, input: NormalizedPlanInput, actor: Actor, now_unix_ms: u64) -> (r: Result<
        PlanPreview,
        PlanPreviewControlError,
    >)
        requires
            old(self).wf(),
        ensures
            final(self).wf(),
            final(self).coordinator().providers_spec() == old(self).coordinator().providers_spec(),
            final(self).store().capacity_spec() == old(self).store().capacity_spec(),
            final(self).store().max_entry_spec() == old(self).store().max_entry_spec(),
            final(self).store().max_total_spec() == old(self).store().max_total_spec(),
            r matches Ok(v) ==> !v.execution_authorized && v@.id == input@.1.request_id,
            planned_outcome(*old(self), *final(self), input@.0, actor@, input@.1, now_unix_ms, r),
    {
        match self.previews.replay(&input) {
            Err(e) => {
                return Err(e);
            },
            Ok(Some(retained)) => {
                proof {
                    lemma_retained_plan_not_executable(self.previews.entries_spec(), (input@.0, input@.1.request_id));
                }
                return Ok(preview_from_plan(&retained));
            },
            Ok(None) => {},
        }
        let observation_request = ObservationRequest {
            provider: input.request().provider.clone(),
            resource: input.request().resource.clone(),
            capability: input.request().observation_capability.clone(),
        };
        let observed = self.coordinator.observe(&observation_request, now_unix_ms);
        let ghost obs = observed;
        let ghost after = self.coordinator;
        assert(crate::observation_control::observe_result(
            old(self).coordinator(),
            after,
            observation_request,
            now_unix_ms,
            obs,
        ));
        assert(crate::observation_control::route_of(observation_request) == (
            input@.1.provider,
            input@.1.resource,
            input@.1.capability,
        ));
        let response = match observed {
            Err(e) => {
                let reason = e.message();
                assert(observe_outcome(
                    old(self).coordinator().providers_spec(),
                    old(self).coordinator().graph_nodes(),
                    old(self).coordinator().graph_edges(),
                    old(self).coordinator().latest_spec(),
                    after.graph_nodes(),
                    after.graph_edges(),
                    after.latest_spec(),
                    (input@.1.provider, input@.1.resource, input@.1.capability),
                    now_unix_ms,
                    obs,
                ));
                assert(possible_observation(
                    (input@.1.provider, input@.1.resource, input@.1.capability),
                    now_unix_ms,
                    obs,
                ));
                assert(crate::observation_control::observe_result(
                    old(self).coordinator(),
                    self.coordinator(),
                    observation_request,
                    now_unix_ms,
                    obs,
                ));
                assert(self.store().entries_spec() == old(self).store().entries_spec());
                return Err(PlanPreviewControlError::Observation { reason });
            },
            Ok(response) => response,
        };
        let result = self.plan_observed(input, actor, &response);
        assert(observe_outcome(
            old(self).coordinator().providers_spec(),
            old(self).coordinator().graph_nodes(),
            old(self).coordinator().graph_edges(),
            old(self).coordinator().latest_spec(),
            after.graph_nodes(),
            after.graph_edges(),
            after.latest_spec(),
            (input@.1.provider, input@.1.resource, input@.1.capability),
            now_unix_ms,
            obs,
        ));
        assert(possible_observation((input@.1.provider, input@.1.resource, input@.1.capability), now_unix_ms, obs));
        result
    }

    /// Plans a normalized input against an observation response and retains
    /// the preview.
    #[verifier::rlimit(40)]
    fn plan_observed(&mut self, input: NormalizedPlanInput, actor: Actor, response: &ObservationResponse) -> (r: Result<
        PlanPreview,
        PlanPreviewControlError,
    >)
        requires
            old(self).wf(),
            !has_retained(old(self).store().entries_spec(), (input@.0, input@.1.request_id)),
        ensures
            final(self).wf(),
            final(self).coordinator() == old(self).coordinator(),
            final(self).store().capacity_spec() == old(self).store().capacity_spec(),
            final(self).store().max_entry_spec() == old(self).store().max_entry_spec(),
            final(self).store().max_total_spec() == old(self).store().max_total_spec(),
            r matches Ok(v) ==> !v.execution_authorized && v@.id == input@.1.request_id,
            fresh_plan_outcome(
                old(self).store().entries_spec(),
                final(self).store().entries_spec(),
                old(self).store().capacity_spec(),
                old(self).store().max_entry_spec(),
                old(self).store().max_total_spec(),
                input@.0,
                actor@,
                input@.1,
                *response,
                r,
            ),
    {
        let observation = planning_observation(response);
        let desired = input.desired_resource();
        let request_id = input.request().request_id.clone();
        let planned = DeterministicPlanner.plan_resource(request_id, actor, desired, &observation);
        let plan = match planned {
            Err(e) => {
                let reason = e.message();
                return Err(PlanPreviewControlError::Planning { reason });
            },
            Ok(plan) => plan,
        };
        let preview = preview_from_plan(&plan);
        let ghost before = self.previews.entries_spec();
        match self.previews.insert(input, plan) {
            Err(e) => {
                return Err(e);
            },
            Ok(()) => {},
        }
        proof {
            let fin = self.previews.entries_spec();
            assert forall|i: int| 0 <= i < fin.len() implies !(#[trigger] fin[i]).plan.execution_authorized by {
                if fin[i].plan != preview@ {
                    let j = choose|j: int| 0 <= j < before.len() && before[j] == fin[i];
                    assert(!before[j].plan.execution_authorized);
                }
            }
        }
        Ok(preview)
    }

    /// The plan retained for a principal.
    pub fn retained_plan(&self, principal: &AuthenticatedPrincipal, plan_id: &PlanId) -> (r: Result<
        ReconciliationPlan,
        PlanPreviewControlError,
    >)
        requires
            self.wf(),
        ensures
            ({
                let k = (principal@, plan_id@);
                let s = self.store().entries_spec();
                match r {
                    Ok(p) => has_retained(s, k) && p@ == retained_at(s, k).plan,
                    Err(PlanPreviewControlError::NotRetained { plan_id: x }) => !has_retained(s, k) && x@
                        == plan_id@,
                    Err(_) => false,
                }
            }),
    {
        match self.previews.get(principal, plan_id) {
            Some(plan) => Ok(plan),
            None => Err(PlanPreviewControlError::NotRetained { plan_id: plan_id.clone() }),
        }
    }

    /// The preview retained for a principal; only the principal that planned
    /// it can read it.
    pub fn get_plan_preview(&self, principal: &AuthenticatedPrincipal, plan_id: &PlanId) -> (r: Result<
        PlanPreview,
        PlanPreviewControlError,
    >)
        requires
            self.wf(),
        ensures
            ({
                let k = (principal@, plan_id@);
                let s = self.store().entries_spec();
                match r {
                    Ok(v) => has_retained(s, k) && v@ == retained_at(s, k).plan && !v.execution_authorized,
                    Err(PlanPreviewControlError::NotRetained { plan_id: x }) => !has_retained(s, k) && x@
                        == plan_id@,
                    Err(_) => false,
                }
            }),
    {
        match self.retained_plan(principal, plan_id) {
            Ok(plan) => {
                proof {
                    lemma_retained_plan_not_executable(self.previews.entries_spec(), (principal@, plan_id@));
                }
                Ok(preview_from_plan(&plan))
            },
            Err(e) => Err(e),
        }
    }

    /// Explains a retained preview: the preview itself.
    pub fn explain_plan_preview(&self, principal: &AuthenticatedPrincipal, plan_id: &PlanId) -> (r: Result<
        PlanPreview,
        PlanPreviewControlError,
    >)
        requires
            self.wf(),
        ensures
            ({
                let k = (principal@, plan_id@);
                let s = self.store().entries_spec();
                match r {
                    Ok(v) => has_retained(s, k) && v@ == retained_at(s, k).plan && !v.execution_authorized,
                    Err(PlanPreviewControlError::NotRetained { plan_id: x }) => !has_retained(s, k) && x@
                        == plan_id@,
                    Err(_) => false,
                }
            }),
    {
        self.get_plan_preview(principal, plan_id)
    }
}

proof fn lemma_retained_plan_not_executable(s: Seq<RetainedModel>, k: (Seq<char>, Seq<char>))
    requires
        has_retained(s, k),
        forall|i: int| 0 <= i < s.len() ==> !(#[trigger] s[i]).plan.execution_authorized,
        forall|i: int| 0 <= i < s.len() ==> (#[trigger] s[i]).plan.id == s[i].request.request_id,
    ensures
        !retained_at(s, k).plan.execution_authorized,
        retained_at(s, k).plan.id == k.1,
{
    let i = choose|i: int| 0 <= i < s.len() && key_of(#[trigger] s[i]) == k;
    assert(!s[i].plan.execution_authorized);
}

} // verus!
