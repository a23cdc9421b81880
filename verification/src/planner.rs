//! Desired state, its validation, and deterministic non-executable plans.
use vstd::prelude::*;

use crate::base::{reason_fault, Actor, ReasonModel, RiskClass, SemanticReason};
use crate::ids::{
    validation_message, CapabilityId, PlanId, ProviderId, RequestId, ResourceId,
    ValidationError,
};
use crate::keyed::{lookup, TextMap};
use crate::text::{
    append_str, byte_len, contains_control, debug_quote, debug_quoted, has_control, is_blank,
    is_blank_seq, owned, utf8_len,
};

verus! {

/// Retained-plan capacity of a default plan store.
pub const DEFAULT_PLAN_STORE_CAPACITY: usize = 256;

/// Clones a map of text attributes.
fn clone_state(m: &TextMap<String>) -> (r: TextMap<String>)
    ensures
        r@ == m@,
{
    m.clone()
}

/// One resource in the state that intents and capabilities ask for.
#[derive(Debug, PartialEq, Eq)]
pub struct DesiredResource {
    pub provider: ProviderId,
    pub resource: ResourceId,
    pub observation_capability: CapabilityId,
    pub state: TextMap<String>,
    pub reason: SemanticReason,
}

/// The texts of a desired resource.
pub struct DesiredModel {
    pub provider: Seq<char>,
    pub resource: Seq<char>,
    pub capability: Seq<char>,
    pub state: Seq<(Seq<char>, Seq<char>)>,
    pub reason: ReasonModel,
}

impl View for DesiredResource {
    type V = DesiredModel;

    open spec fn view(&self) -> DesiredModel {
        DesiredModel {
            provider: self.provider@,
            resource: self.resource@,
            capability: self.observation_capability@,
            state: self.state@,
            reason: self.reason@,
        }
    }
}

impl Clone for DesiredResource {
    fn clone(&self) -> (r: Self)
        ensures
            r@ == self@,
    {
        DesiredResource {
            provider: self.provider.clone(),
            resource: self.resource.clone(),
            observation_capability: self.observation_capability.clone(),
            state: clone_state(&self.state),
            reason: self.reason.clone(),
        }
    }
}

/// The desired state: a list of desired resources.
#[derive(Debug, PartialEq, Eq)]
pub struct DesiredState {
    pub resources: Vec<DesiredResource>,
}

impl Default for DesiredState {
    fn default() -> (r: Self)
        ensures
            r.resources@.len() == 0,
    {
        DesiredState { resources: Vec::new() }
    }
}

#[derive(Clone, Debug, PartialEq, Eq)]
pub enum DesiredStateValidationError {
    EmptyDesiredState,
    DuplicateResource(ResourceId),
    EmptyResourceState(ResourceId),
    InvalidAttributeKey { resource: ResourceId, key: String },
    InvalidAttributeValue { resource: ResourceId, key: String },
    InvalidSemanticReason { resource: ResourceId, reason: String },
}

/// What is wrong with one desired resource.
pub enum DesiredFault {
    EmptyState,
    BadKey(Seq<char>),
    BadValue(Seq<char>),
    BadReason(ValidationError),
}

/// An attribute key must be non-blank, at most 256 bytes, without control characters.
pub open spec fn bad_key(k: Seq<char>) -> bool {
    is_blank_seq(k) || utf8_len(k) > 256 || has_control(k)
}

/// An attribute value must be at most 4096 bytes, without control characters.
pub open spec fn bad_value(v: Seq<char>) -> bool {
    utf8_len(v) > 4096 || has_control(v)
}

/// The first attribute, in key order, whose key or value is invalid.
pub open spec fn first_bad_attr(state: Seq<(Seq<char>, Seq<char>)>) -> Option<DesiredFault>
    decreases state.len(),
{
    if state.len() == 0 {
        None
    } else if bad_key(state[0].0) {
        Some(DesiredFault::BadKey(state[0].0))
    } else if bad_value(state[0].1) {
        Some(DesiredFault::BadValue(state[0].0))
    } else {
        first_bad_attr(state.drop_first())
    }
}

/// The first rule a desired resource breaks: empty state, then attributes in
/// key order, then its semantic reason.
pub open spec fn desired_fault(d: DesiredModel) -> Option<DesiredFault> {
    if d.state.len() == 0 {
        Some(DesiredFault::EmptyState)
    } else if first_bad_attr(d.state) is Some {
        first_bad_attr(d.state)
    } else {
        match reason_fault(d.reason) {
            Some(e) => Some(DesiredFault::BadReason(e)),
            None => None,
        }
    }
}

/// Whether an error reports the given fault of the named resource.
pub open spec fn reports_fault(
    e: DesiredStateValidationError,
    resource: Seq<char>,
    f: DesiredFault,
) -> bool {
    match (e, f) {
        (DesiredStateValidationError::EmptyResourceState(r), DesiredFault::EmptyState) => r@
            == resource,
        (
            DesiredStateValidationError::InvalidAttributeKey { resource: r, key },
            DesiredFault::BadKey(k),
        ) => r@ == resource && key@ == k,
        (
            DesiredStateValidationError::InvalidAttributeValue { resource: r, key },
            DesiredFault::BadValue(k),
        ) => r@ == resource && key@ == k,
        (
            DesiredStateValidationError::InvalidSemanticReason { resource: r, reason },
            DesiredFault::BadReason(v),
        ) => r@ == resource && reason@ == validation_message(v),
        _ => false,
    }
}

/// The text of a desired-state validation error.
pub open spec fn desired_error_message(e: DesiredStateValidationError) -> Seq<char> {
    match e {
        DesiredStateValidationError::EmptyDesiredState =>
            "desired state must contain at least one resource"@,
        DesiredStateValidationError::DuplicateResource(r) => "desired state contains duplicate resource "@
            + r@,
        DesiredStateValidationError::EmptyResourceState(r) => "desired resource "@ + r@
            + " must contain at least one state attribute"@,
        DesiredStateValidationError::InvalidAttributeKey { resource, key } => "desired resource "@
            + resource@ + " contains invalid attribute key "@ + debug_quoted(key@),
        DesiredStateValidationError::InvalidAttributeValue { resource, key } => "desired resource "@
            + resource@ + " contains an invalid value for attribute "@ + debug_quoted(key@),
        DesiredStateValidationError::InvalidSemanticReason { resource, reason } =>
            "desired resource "@ + resource@ + " has invalid semantic provenance: "@ + reason@,
    }
}

impl DesiredStateValidationError {
    /// The human-readable text of this error.
    pub fn message(&self) -> (r: String)
        ensures
            r@ == desired_error_message(*self),
    {
        match self {
            DesiredStateValidationError::EmptyDesiredState => owned(
                "desired state must contain at least one resource",
            ),
            DesiredStateValidationError::DuplicateResource(r) => {
                let mut s = owned("desired state contains duplicate resource ");
                append_str(&mut s, r.as_str());
                s
            },
            DesiredStateValidationError::EmptyResourceState(r) => {
                let mut s = owned("desired resource ");
                append_str(&mut s, r.as_str());
                append_str(&mut s, " must contain at least one state attribute");
                s
            },
            DesiredStateValidationError::InvalidAttributeKey { resource, key } => {
                let mut s = owned("desired resource ");
                append_str(&mut s, resource.as_str());
                append_str(&mut s, " contains invalid attribute key ");
                let q = debug_quote(key.as_str());
                append_str(&mut s, q.as_str());
                s
            },
            DesiredStateValidationError::InvalidAttributeValue { resource, key } => {
                let mut s = owned("desired resource ");
                append_str(&mut s, resource.as_str());
                append_str(&mut s, " contains an invalid value for attribute ");
                let q = debug_quote(key.as_str());
                append_str(&mut s, q.as_str());
                s
            },
            DesiredStateValidationError::InvalidSemanticReason { resource, reason } => {
                let mut s = owned("desired resource ");
                append_str(&mut s, resource.as_str());
                append_str(&mut s, " has invalid semantic provenance: ");
                append_str(&mut s, reason.as_str());
                s
            },
        }
    }
}

/// Checks one desired resource: non-empty state, valid attributes in key
/// order, and a valid semantic reason.
pub fn validate_desired_resource(desired: &DesiredResource) -> (r: Result<
    (),
    DesiredStateValidationError,
>)
    ensures
        match r {
            Ok(()) => desired_fault(desired@) is None,
            Err(e) => desired_fault(desired@) is Some && reports_fault(
                e,
                desired@.resource,
                desired_fault(desired@)->0,
            ),
        },
{
    let n = desired.state.len();
    if n == 0 {
        return Err(DesiredStateValidationError::EmptyResourceState(desired.resource.clone()));
    }
    let ghost st = desired.state@;
    assert(st.skip(0) =~= st);
    let mut i: usize = 0;
    while i < n
        invariant
            n == st.len(),
            st == desired.state@,
            i <= n,
            first_bad_attr(st) == first_bad_attr(st.skip(i as int)),
        decreases n - i,
    {
        let key = desired.state.key_at(i);
        let value = desired.state.value_at(i);
        assert(st.skip(i as int)[0] == st[i as int]);
        assert(st.skip(i as int).drop_first() == st.skip(i + 1));
        if is_blank(key.as_str()) || byte_len(key.as_str()) > 256 || contains_control(
            key.as_str(),
        ) {
            return Err(
                DesiredStateValidationError::InvalidAttributeKey {
                    resource: desired.resource.clone(),
                    key: key.clone(),
                },
            );
        }
        if byte_len(value.as_str()) > 4096 || contains_control(value.as_str()) {
            return Err(
                DesiredStateValidationError::InvalidAttributeValue {
                    resource: desired.resource.clone(),
                    key: key.clone(),
                },
            );
        }
        i = i + 1;
    }
    assert(st.skip(n as int).len() == 0);
    match desired.reason.validate() {
        Ok(()) => Ok(()),
        Err(e) => Err(
            DesiredStateValidationError::InvalidSemanticReason {
                resource: desired.resource.clone(),
                reason: e.message(),
            },
        ),
    }
}

/// Whether resource `i` repeats the resource of an earlier entry.
pub open spec fn dup_before(rs: Seq<DesiredModel>, i: int) -> bool {
    exists|j: int| 0 <= j < i && rs[j].resource == rs[i].resource
}

/// The first entry, from `i` on, that repeats a resource (`None` fault) or
/// breaks a resource rule.
pub open spec fn first_state_fault(rs: Seq<DesiredModel>, i: int) -> Option<
    (int, Option<DesiredFault>),
>
    decreases rs.len() - i,
{
    if i < 0 || i >= rs.len() {
        None
    } else if dup_before(rs, i) {
        Some((i, None))
    } else if desired_fault(rs[i]) is Some {
        Some((i, desired_fault(rs[i])))
    } else {
        first_state_fault(rs, i + 1)
    }
}

/// The texts of a list of desired resources.
pub open spec fn desired_models(rs: Seq<DesiredResource>) -> Seq<DesiredModel> {
    rs.map_values(|d: DesiredResource| d@)
}

/// What validating a list of desired resources gives: success when there is
/// at least one resource and none repeats or breaks a rule; otherwise the
/// error for the first fault in order.
pub open spec fn validation_outcome(
    rs: Seq<DesiredModel>,
    r: Result<(), DesiredStateValidationError>,
) -> bool {
    match r {
        Ok(()) => rs.len() > 0 && first_state_fault(rs, 0) is None,
        Err(DesiredStateValidationError::EmptyDesiredState) => rs.len() == 0,
        Err(e) => rs.len() > 0 && ({
            let f = first_state_fault(rs, 0);
            &&& f is Some
            &&& match f.unwrap().1 {
                None => e matches DesiredStateValidationError::DuplicateResource(x) && x@
                    == rs[f.unwrap().0].resource,
                Some(fault) => reports_fault(e, rs[f.unwrap().0].resource, fault),
            }
        }),
    }
}

impl DesiredState {
    /// Checks that there is at least one resource, that no resource repeats,
    /// and that each resource is valid, reporting the first fault in order.
    pub fn validate(&self) -> (r: Result<(), DesiredStateValidationError>)
        ensures
            validation_outcome(desired_models(self.resources@), r),
    {
        let n = self.resources.len();
        if n == 0 {
            return Err(DesiredStateValidationError::EmptyDesiredState);
        }
        let ghost rs = desired_models(self.resources@);
        let mut i: usize = 0;
        while i < n
            invariant
                n == self.resources@.len(),
                rs == desired_models(self.resources@),
                i <= n,
                first_state_fault(rs, 0) == first_state_fault(rs, i as int),
            decreases n - i,
        {
            let mut j: usize = 0;
            while j < i
                invariant
                    n == self.resources@.len(),
                    rs == desired_models(self.resources@),
                    j <= i < n,
                    forall|k: int| 0 <= k < j ==> rs[k].resource != rs[i as int].resource,
                    first_state_fault(rs, 0) == first_state_fault(rs, i as int),
                decreases i - j,
            {
                if self.resources[j].resource.same(&self.resources[i].resource) {
                    assert(rs[j as int].resource == rs[i as int].resource);
                    assert(dup_before(rs, i as int));
                    return Err(
                        DesiredStateValidationError::DuplicateResource(
                            self.resources[i].resource.clone(),
                        ),
                    );
                }
                j = j + 1;
            }
            assert(!dup_before(rs, i as int));
            match validate_desired_resource(&self.resources[i]) {
                Ok(()) => {},
                Err(e) => {
                    return Err(e);
                },
            }
            i = i + 1;
        }
        Ok(())
    }
}

#[derive(Clone, Copy, Debug, PartialEq, Eq)]
pub enum PlanningFreshness {
    Current,
    Stale,
    Future,
}

impl PlanningFreshness {
    pub fn as_str(self) -> (r: &'static str)
        ensures
            r@ == freshness_name(self),
    {
        match self {
            PlanningFreshness::Current => "current",
            PlanningFreshness::Stale => "stale",
            PlanningFreshness::Future => "future",
        }
    }
}

pub open spec fn freshness_name(f: PlanningFreshness) -> Seq<char> {
    match f {
        PlanningFreshness::Current => "current"@,
        PlanningFreshness::Stale => "stale"@,
        PlanningFreshness::Future => "future"@,
    }
}

/// A validated authoritative observation as the planner sees it.
#[derive(Debug, PartialEq, Eq)]
pub struct PlanningObservation {
    pub provider: ProviderId,
    pub resource: ResourceId,
    pub observation_capability: CapabilityId,
    pub authority: String,
    pub evidence_id: String,
    pub freshness: PlanningFreshness,
    pub attributes: TextMap<String>,
}

#[derive(Clone, Copy, Debug, PartialEq, Eq)]
pub enum PlanStatus {
    NoChange,
    ChangeProposed,
    Blocked,
}

impl PlanStatus {
    pub fn as_str(self) -> (r: &'static str)
        ensures
            r@ == status_name(self),
    {
        match self {
            PlanStatus::NoChange => "no-change",
            PlanStatus::ChangeProposed => "change-proposed",
            PlanStatus::Blocked => "blocked",
        }
    }
}

pub open spec fn status_name(s: PlanStatus) -> Seq<char> {
    match s {
        PlanStatus::NoChange => "no-change"@,
        PlanStatus::ChangeProposed => "change-proposed"@,
        PlanStatus::Blocked => "blocked"@,
    }
}

#[derive(Clone, Copy, Debug, PartialEq, Eq)]
pub enum PlanFindingLevel {
    Pass,
    Warning,
    Blocker,
}

impl PlanFindingLevel {
    pub fn as_str(self) -> (r: &'static str)
        ensures
            r@ == level_name(self),
    {
        match self {
            PlanFindingLevel::Pass => "pass",
            PlanFindingLevel::Warning => "warning",
            PlanFindingLevel::Blocker => "blocker",
        }
    }

    /// Whether this level is `Blocker`.
    pub fn is_blocker(self) -> (r: bool)
        ensures
            r == (self == PlanFindingLevel::Blocker),
    {
        match self {
            PlanFindingLevel::Blocker => true,
            _ => false,
        }
    }
}

pub open spec fn level_name(l: PlanFindingLevel) -> Seq<char> {
    match l {
        PlanFindingLevel::Pass => "pass"@,
        PlanFindingLevel::Warning => "warning"@,
        PlanFindingLevel::Blocker => "blocker"@,
    }
}

/// One observation made while planning.
#[derive(Debug, PartialEq, Eq)]
pub struct PlanFinding {
    pub code: String,
    pub level: PlanFindingLevel,
    pub message: String,
}

impl View for PlanFinding {
    type V = (Seq<char>, PlanFindingLevel, Seq<char>);

    open spec fn view(&self) -> (Seq<char>, PlanFindingLevel, Seq<char>) {
        (self.code@, self.level, self.message@)
    }
}

impl Clone for PlanFinding {
    fn clone(&self) -> (r: Self)
        ensures
            r == *self,
    {
        PlanFinding { code: self.code.clone(), level: self.level, message: self.message.clone() }
    }
}

/// One attribute whose desired value differs from, or is absent in, the observation.
#[derive(Debug, PartialEq, Eq)]
pub struct StateChange {
    pub key: String,
    pub current: Option<String>,
    pub desired: String,
}

/// The texts of an optional string.
pub open spec fn opt_view(o: Option<String>) -> Option<Seq<char>> {
    match o {
        Some(s) => Some(s@),
        None => None,
    }
}

impl View for StateChange {
    type V = (Seq<char>, Option<Seq<char>>, Seq<char>);

    open spec fn view(&self) -> (Seq<char>, Option<Seq<char>>, Seq<char>) {
        (self.key@, opt_view(self.current), self.desired@)
    }
}

/// Clones an optional string.
pub fn clone_opt(o: &Option<String>) -> (r: Option<String>)
    ensures
        r == *o,
{
    match o {
        Some(s) => Some(s.clone()),
        None => None,
    }
}

impl Clone for StateChange {
    fn clone(&self) -> (r: Self)
        ensures
            r == *self,
    {
        StateChange {
            key: self.key.clone(),
            current: clone_opt(&self.current),
            desired: self.desired.clone(),
        }
    }
}

/// Clones a vector of values whose clone copies exactly.
pub fn clone_vec<T: Clone>(v: &Vec<T>) -> (r: Vec<T>)
    requires
        forall|a: T, b: T| #[trigger] call_ensures(T::clone, (&a,), b) ==> a == b,
    ensures
        r@ == v@,
{
    let mut out: Vec<T> = Vec::new();
    let mut i: usize = 0;
    while i < v.len()
        invariant
            i <= v@.len(),
            out@ == v@.take(i as int),
            forall|a: T, b: T| #[trigger] call_ensures(T::clone, (&a,), b) ==> a == b,
        decreases v@.len() - i,
    {
        out.push(v[i].clone());
        assert(v@.take(i + 1) == v@.take(i as int).push(v@[i as int]));
        i = i + 1;
    }
    assert(v@.take(i as int) == v@);
    out
}

/// The views of the elements of a sequence.
pub open spec fn views<T: View>(s: Seq<T>) -> Seq<T::V> {
    s.map_values(|x: T| x@)
}

/// Whether two vectors hold elements with the same views.
pub fn same_changes(a: &Vec<StateChange>, b: &Vec<StateChange>) -> (r: bool)
    ensures
        r == (views(a@) == views(b@)),
{
    if a.len() != b.len() {
        assert(views(a@).len() != views(b@).len());
        return false;
    }
    let mut i: usize = 0;
    while i < a.len()
        invariant
            i <= a@.len(),
            a@.len() == b@.len(),
            forall|j: int| 0 <= j < i ==> a@[j]@ == b@[j]@,
        decreases a@.len() - i,
    {
        let x = &a[i];
        let y = &b[i];
        let cur_same = match (&x.current, &y.current) {
            (Some(p), Some(q)) => *p == *q,
            (None, None) => true,
            _ => false,
        };
        if !(x.key == y.key && cur_same && x.desired == y.desired) {
            assert(views(a@)[i as int] != views(b@)[i as int]);
            return false;
        }
        i = i + 1;
    }
    assert(views(a@) =~= views(b@));
    true
}

/// Whether two vectors of findings have the same views.
pub fn same_findings(a: &Vec<PlanFinding>, b: &Vec<PlanFinding>) -> (r: bool)
    ensures
        r == (views(a@) == views(b@)),
{
    if a.len() != b.len() {
        assert(views(a@).len() != views(b@).len());
        return false;
    }
    let mut i: usize = 0;
    while i < a.len()
        invariant
            i <= a@.len(),
            a@.len() == b@.len(),
            forall|j: int| 0 <= j < i ==> a@[j]@ == b@[j]@,
        decreases a@.len() - i,
    {
        let x = &a[i];
        let y = &b[i];
        let level_same = match (x.level, y.level) {
            (PlanFindingLevel::Pass, PlanFindingLevel::Pass) => true,
            (PlanFindingLevel::Warning, PlanFindingLevel::Warning) => true,
            (PlanFindingLevel::Blocker, PlanFindingLevel::Blocker) => true,
            _ => false,
        };
        if !(x.code == y.code && level_same && x.message == y.message) {
            assert(views(a@)[i as int] != views(b@)[i as int]);
            return false;
        }
        i = i + 1;
    }
    assert(views(a@) =~= views(b@));
    true
}

/// A deterministic, non-executable reconciliation plan for one resource.
#[derive(Debug, PartialEq, Eq)]
pub struct ReconciliationPlan {
    pub id: PlanId,
    pub request_id: RequestId,
    pub actor: Actor,
    pub provider: ProviderId,
    pub resource: ResourceId,
    pub observation_capability: CapabilityId,
    pub reason: SemanticReason,
    pub observed_evidence_id: String,
    pub prospective_risk: RiskClass,
    pub status: PlanStatus,
    pub execution_authorized: bool,
    pub changes: Vec<StateChange>,
    pub findings: Vec<PlanFinding>,
}

/// The texts of a reconciliation plan.
pub struct PlanModel {
    pub id: Seq<char>,
    pub request_id: Seq<char>,
    pub actor: (Seq<char>, crate::base::ActorKind, bool),
    pub provider: Seq<char>,
    pub resource: Seq<char>,
    pub capability: Seq<char>,
    pub reason: ReasonModel,
    pub evidence_id: Seq<char>,
    pub risk: RiskClass,
    pub status: PlanStatus,
    pub execution_authorized: bool,
    pub changes: Seq<(Seq<char>, Option<Seq<char>>, Seq<char>)>,
    pub findings: Seq<(Seq<char>, PlanFindingLevel, Seq<char>)>,
}

impl View for ReconciliationPlan {
    type V = PlanModel;

    open spec fn view(&self) -> PlanModel {
        PlanModel {
            id: self.id@,
            request_id: self.request_id@,
            actor: self.actor@,
            provider: self.provider@,
            resource: self.resource@,
            capability: self.observation_capability@,
            reason: self.reason@,
            evidence_id: self.observed_evidence_id@,
            risk: self.prospective_risk,
            status: self.status,
            execution_authorized: self.execution_authorized,
            changes: views(self.changes@),
            findings: views(self.findings@),
        }
    }
}

impl Clone for ReconciliationPlan {
    fn clone(&self) -> (r: Self)
        ensures
            r@ == self@,
    {
        ReconciliationPlan {
            id: self.id.clone(),
            request_id: self.request_id.clone(),
            actor: self.actor.clone(),
            provider: self.provider.clone(),
            resource: self.resource.clone(),
            observation_capability: self.observation_capability.clone(),
            reason: self.reason.clone(),
            observed_evidence_id: self.observed_evidence_id.clone(),
            prospective_risk: self.prospective_risk,
            status: self.status,
            execution_authorized: self.execution_authorized,
            changes: clone_vec(&self.changes),
            findings: clone_vec(&self.findings),
        }
    }
}

/// Whether some finding is a blocker.
pub open spec fn any_blocker(f: Seq<(Seq<char>, PlanFindingLevel, Seq<char>)>) -> bool {
    exists|i: int| 0 <= i < f.len() && #[trigger] f[i].1 == PlanFindingLevel::Blocker
}

/// Whether some finding of a vector is a blocker.
pub fn findings_have_blocker(findings: &Vec<PlanFinding>) -> (r: bool)
    ensures
        r == any_blocker(views(findings@)),
{
    let mut i: usize = 0;
    while i < findings.len()
        invariant
            i <= findings@.len(),
            forall|j: int| 0 <= j < i ==> findings@[j].level != PlanFindingLevel::Blocker,
        decreases findings@.len() - i,
    {
        if findings[i].level.is_blocker() {
            assert(views(findings@)[i as int].1 == PlanFindingLevel::Blocker);
            return true;
        }
        i = i + 1;
    }
    assert forall|j: int| 0 <= j < views(findings@).len() implies #[trigger] views(
        findings@,
    )[j].1 != PlanFindingLevel::Blocker by {
        assert(views(findings@)[j].1 == findings@[j].level);
    }
    false
}

impl ReconciliationPlan {
    /// Whether some finding blocks the plan.
    pub fn has_blockers(&self) -> (r: bool)
        ensures
            r == any_blocker(self@.findings),
    {
        findings_have_blocker(&self.findings)
    }

    /// Whether two plans agree on every field.
    pub fn same(&self, other: &Self) -> (r: bool)
        ensures
            r == (self@ == other@),
    {
        self.id.same(&other.id) && self.request_id.same(&other.request_id) && self.actor.same(
            &other.actor,
        ) && self.provider.same(&other.provider) && self.resource.same(&other.resource)
            && self.observation_capability.same(&other.observation_capability)
            && self.reason.same(&other.reason) && self.observed_evidence_id
            == other.observed_evidence_id && self.prospective_risk.is(other.prospective_risk)
            && status_eq(self.status, other.status) && self.execution_authorized
            == other.execution_authorized && same_changes(&self.changes, &other.changes)
            && same_findings(&self.findings, &other.findings)
    }
}

/// Equality of plan statuses.
pub fn status_eq(a: PlanStatus, b: PlanStatus) -> (r: bool)
    ensures
        r == (a == b),
{
    match (a, b) {
        (PlanStatus::NoChange, PlanStatus::NoChange) => true,
        (PlanStatus::ChangeProposed, PlanStatus::ChangeProposed) => true,
        (PlanStatus::Blocked, PlanStatus::Blocked) => true,
        _ => false,
    }
}

#[derive(Clone, Debug, PartialEq, Eq)]
pub enum PlanningError {
    RetiredIntent,
    MissingCapability(CapabilityId),
    Conflict(CapabilityId, CapabilityId),
    EmptyIntentStatement,
    DesiredStateConflict { resource: ResourceId, key: String, first: String, second: String },
    InvalidDesiredState(String),
    InvalidObservation(String),
    ObservationIdentityMismatch(String),
    ObservationNotCurrent(PlanningFreshness),
    InvalidPlanId(String),
}

/// The human-readable text of a planning error.
pub open spec fn planning_error_message(e: PlanningError) -> Seq<char> {
    match e {
        PlanningError::RetiredIntent => "intent is not in a managed state"@,
        PlanningError::MissingCapability(c) => "missing capability "@ + c@,
        PlanningError::Conflict(l, r) => "capability conflict between "@ + l@ + " and "@ + r@,
        PlanningError::EmptyIntentStatement => "intent statement cannot be empty"@,
        PlanningError::DesiredStateConflict { resource, key, first, second } =>
            "desired-state conflict for "@ + resource@ + " attribute "@ + debug_quoted(key@) + ": "@
                + debug_quoted(first@) + " != "@ + debug_quoted(second@),
        PlanningError::InvalidDesiredState(r) => "invalid desired state: "@ + r@,
        PlanningError::InvalidObservation(r) => "invalid planning observation: "@ + r@,
        PlanningError::ObservationIdentityMismatch(r) => "authoritative observation identity mismatch: "@
            + r@,
        PlanningError::ObservationNotCurrent(f) =>
            "planning requires current authoritative observation, got "@ + freshness_name(f),
        PlanningError::InvalidPlanId(r) => "invalid deterministic plan id: "@ + r@,
    }
}

impl PlanningError {
    /// The human-readable text of this error.
    pub fn message(&self) -> (r: String)
        ensures
            r@ == planning_error_message(*self),
    {
        match self {
            PlanningError::RetiredIntent => owned("intent is not in a managed state"),
            PlanningError::MissingCapability(c) => {
                let mut s = owned("missing capability ");
                append_str(&mut s, c.as_str());
                s
            },
            PlanningError::Conflict(l, r) => {
                let mut s = owned("capability conflict between ");
                append_str(&mut s, l.as_str());
                append_str(&mut s, " and ");
                append_str(&mut s, r.as_str());
                s
            },
            PlanningError::EmptyIntentStatement => owned("intent statement cannot be empty"),
            PlanningError::DesiredStateConflict { resource, key, first, second } => {
                let mut s = owned("desired-state conflict for ");
                append_str(&mut s, resource.as_str());
                append_str(&mut s, " attribute ");
                let k = debug_quote(key.as_str());
                append_str(&mut s, k.as_str());
                append_str(&mut s, ": ");
                let f = debug_quote(first.as_str());
                append_str(&mut s, f.as_str());
                append_str(&mut s, " != ");
                let g = debug_quote(second.as_str());
                append_str(&mut s, g.as_str());
                s
            },
            PlanningError::InvalidDesiredState(r) => {
                let mut s = owned("invalid desired state: ");
                append_str(&mut s, r.as_str());
                s
            },
            PlanningError::InvalidObservation(r) => {
                let mut s = owned("invalid planning observation: ");
                append_str(&mut s, r.as_str());
                s
            },
            PlanningError::ObservationIdentityMismatch(r) => {
                let mut s = owned("authoritative observation identity mismatch: ");
                append_str(&mut s, r.as_str());
                s
            },
            PlanningError::ObservationNotCurrent(f) => {
                let mut s = owned("planning requires current authoritative observation, got ");
                append_str(&mut s, f.as_str());
                s
            },
            PlanningError::InvalidPlanId(r) => {
                let mut s = owned("invalid deterministic plan id: ");
                append_str(&mut s, r.as_str());
                s
            },
        }
    }
}

/// The planner: pure functions of their inputs.
#[derive(Clone, Copy, Debug, Default)]
pub struct DeterministicPlanner;

/// The texts of a planning observation.
pub struct ObservationModel {
    pub provider: Seq<char>,
    pub resource: Seq<char>,
    pub capability: Seq<char>,
    pub authority: Seq<char>,
    pub evidence_id: Seq<char>,
    pub freshness: PlanningFreshness,
    pub attributes: Seq<(Seq<char>, Seq<char>)>,
}

impl View for PlanningObservation {
    type V = ObservationModel;

    open spec fn view(&self) -> ObservationModel {
        ObservationModel {
            provider: self.provider@,
            resource: self.resource@,
            capability: self.observation_capability@,
            authority: self.authority@,
            evidence_id: self.evidence_id@,
            freshness: self.freshness,
            attributes: self.attributes@,
        }
    }
}

/// Why a planning observation is unusable, if it is.
pub open spec fn observation_fault(o: ObservationModel) -> Option<Seq<char>> {
    if is_blank_seq(o.authority) {
        Some("authority cannot be empty"@)
    } else if is_blank_seq(o.evidence_id) {
        Some("evidence id cannot be empty"@)
    } else if o.attributes.len() == 0 {
        Some("authoritative attributes cannot be empty"@)
    } else {
        None
    }
}

/// Why an observation does not describe the desired resource's route, if it does not.
pub open spec fn route_mismatch(d: DesiredModel, o: ObservationModel) -> Option<Seq<char>> {
    if o.provider != d.provider {
        Some("provider differs from desired-state observation route"@)
    } else if o.resource != d.resource {
        Some("resource differs from desired-state resource"@)
    } else if o.capability != d.capability {
        Some("capability differs from desired-state observation route"@)
    } else {
        None
    }
}

/// Whether planning rejects the inputs, and with which error.
pub open spec fn planning_rejects(
    d: DesiredModel,
    o: ObservationModel,
    e: PlanningError,
) -> bool {
    if desired_fault(d) is Some {
        exists|v: DesiredStateValidationError|
            reports_fault(v, d.resource, desired_fault(d)->0) && (e matches PlanningError::InvalidDesiredState(m) && m@
                == desired_error_message(v))
    } else if observation_fault(o) is Some {
        e matches PlanningError::InvalidObservation(m) && m@ == observation_fault(o)->0
    } else if o.freshness != PlanningFreshness::Current {
        e == PlanningError::ObservationNotCurrent(o.freshness)
    } else if route_mismatch(d, o) is Some {
        e matches PlanningError::ObservationIdentityMismatch(m) && m@ == route_mismatch(d, o)->0
    } else {
        false
    }
}

/// Whether planning accepts the inputs.
pub open spec fn planning_accepts(d: DesiredModel, o: ObservationModel) -> bool {
    &&& desired_fault(d) is None
    &&& observation_fault(o) is None
    &&& o.freshness == PlanningFreshness::Current
    &&& route_mismatch(d, o) is None
}

/// The changes from observed to desired attributes, in desired key order.
pub open spec fn diff_changes(
    desired: Seq<(Seq<char>, Seq<char>)>,
    observed: Seq<(Seq<char>, Seq<char>)>,
) -> Seq<(Seq<char>, Option<Seq<char>>, Seq<char>)>
    decreases desired.len(),
{
    if desired.len() == 0 {
        Seq::empty()
    } else {
        let k = desired.last().0;
        let v = desired.last().1;
        let rest = diff_changes(desired.drop_last(), observed);
        match lookup(observed, k) {
            Some(c) => if c != v {
                rest.push((k, Some(c), v))
            } else {
                rest
            },
            None => rest.push((k, None, v)),
        }
    }
}

/// Whether a desired attribute is not observed with its desired value.
pub open spec fn differs_from(
    observed: Seq<(Seq<char>, Seq<char>)>,
) -> spec_fn((Seq<char>, Seq<char>)) -> bool {
    |x: (Seq<char>, Seq<char>)| lookup(observed, x.0) != Some(x.1)
}

/// The change that brings an observed attribute to its desired value.
pub open spec fn change_toward(
    observed: Seq<(Seq<char>, Seq<char>)>,
) -> spec_fn((Seq<char>, Seq<char>)) -> (Seq<char>, Option<Seq<char>>, Seq<char>) {
    |x: (Seq<char>, Seq<char>)| (x.0, lookup(observed, x.0), x.1)
}

proof fn lemma_diff_is_filtered_changes(
    desired: Seq<(Seq<char>, Seq<char>)>,
    observed: Seq<(Seq<char>, Seq<char>)>,
)
    ensures
        diff_changes(desired, observed) == desired.filter(differs_from(observed)).map_values(
            change_toward(observed),
        ),
    decreases desired.len(),
{
    reveal(Seq::filter);
    if desired.len() > 0 {
        lemma_diff_is_filtered_changes(desired.drop_last(), observed);
        let f = desired.drop_last().filter(differs_from(observed));
        if differs_from(observed)(desired.last()) {
            assert(f.push(desired.last()).map_values(change_toward(observed)) =~= f.map_values(
                change_toward(observed),
            ).push(change_toward(observed)(desired.last())));
        }
    } else {
        assert(desired.filter(differs_from(observed)).map_values(change_toward(observed)) =~= Seq::<
            (Seq<char>, Option<Seq<char>>, Seq<char>),
        >::empty());
    }
}

/// A plan proposes exactly the changes its observation calls for: one for
/// every desired attribute that is unobserved or observed with another
/// value, in desired order, from the observed value to the desired one, and
/// no other. So a plan that proposes nothing reads only, and one that
/// proposes anything mutates the system.
pub proof fn law_plan_changes_follow_differing_attributes(
    request_id: Seq<char>,
    actor: (Seq<char>, crate::base::ActorKind, bool),
    d: DesiredModel,
    o: ObservationModel,
)
    ensures
        ({
            let p = expected_plan(request_id, actor, d, o);
            &&& p.changes == d.state.filter(differs_from(o.attributes)).map_values(change_toward(o.attributes))
            &&& p.changes.len() == d.state.filter(differs_from(o.attributes)).len()
            &&& forall|i: int|
                0 <= i < d.state.len() && #[trigger] lookup(o.attributes, d.state[i].0) is Some && lookup(
                    o.attributes,
                    d.state[i].0,
                )->0 != d.state[i].1 ==> p.changes.contains(
                    (d.state[i].0, Some(lookup(o.attributes, d.state[i].0)->0), d.state[i].1),
                )
            &&& forall|i: int|
                0 <= i < d.state.len() && #[trigger] lookup(o.attributes, d.state[i].0) is None
                    ==> p.changes.contains((d.state[i].0, None, d.state[i].1))
            &&& forall|j: int|
                0 <= j < p.changes.len() ==> #[trigger] p.changes[j] == p.changes[j] && exists|i: int|
                    0 <= i < d.state.len() && #[trigger] d.state[i].0 == p.changes[j].0 && d.state[i].1
                        == p.changes[j].2 && p.changes[j].1 == lookup(o.attributes, d.state[i].0) && p.changes[j].1
                        != Some(d.state[i].1)
            &&& (p.risk == RiskClass::ReadOnly) <==> (p.changes.len() == 0)
        }),
{
    let p = expected_plan(request_id, actor, d, o);
    let ds = d.state;
    let obs = o.attributes;
    let pred = differs_from(obs);
    let f = ds.filter(pred);
    lemma_diff_is_filtered_changes(ds, obs);
    ds.filter_lemma(pred);
    assert forall|i: int|
        0 <= i < ds.len() && #[trigger] lookup(obs, ds[i].0) is Some && lookup(obs, ds[i].0)->0 != ds[i].1 implies p.changes.contains(
        (ds[i].0, Some(lookup(obs, ds[i].0)->0), ds[i].1),
    ) by {
        assert(pred(ds[i]));
        assert(f.contains(ds[i]));
        let k = choose|k: int| 0 <= k < f.len() && f[k] == ds[i];
        assert(p.changes[k] == change_toward(obs)(f[k]));
    }
    assert forall|i: int| 0 <= i < ds.len() && #[trigger] lookup(obs, ds[i].0) is None implies p.changes.contains(
        (ds[i].0, None, ds[i].1),
    ) by {
        assert(pred(ds[i]));
        assert(f.contains(ds[i]));
        let k = choose|k: int| 0 <= k < f.len() && f[k] == ds[i];
        assert(p.changes[k] == change_toward(obs)(f[k]));
    }
    assert forall|j: int| 0 <= j < p.changes.len() implies #[trigger] p.changes[j] == p.changes[j] && exists|i: int|
        0 <= i < ds.len() && #[trigger] ds[i].0 == p.changes[j].0 && ds[i].1 == p.changes[j].2 && p.changes[j].1
            == lookup(obs, ds[i].0) && p.changes[j].1 != Some(ds[i].1) by {
        assert(p.changes[j] == change_toward(obs)(f[j]));
        assert(pred(f[j]));
        assert(f.contains(f[j]));
        ds.lemma_filter_contains_rev(pred, f[j]);
        assert(ds.contains(f[j]));
        let i = choose|i: int| 0 <= i < ds.len() && ds[i] == f[j];
        assert(ds[i].0 == p.changes[j].0);
    }
}

/// The blocker finding for a desired attribute that the observation lacks.
pub open spec fn unobserved_finding(k: Seq<char>) -> (Seq<char>, PlanFindingLevel, Seq<char>) {
    (
        "attribute-not-observed"@,
        PlanFindingLevel::Blocker,
        "authoritative observation does not expose desired attribute "@ + debug_quoted(k)
            + "; planning fails closed"@,
    )
}

/// One blocker per desired attribute that the observation lacks, in key order.
pub open spec fn unobserved_findings(
    desired: Seq<(Seq<char>, Seq<char>)>,
    observed: Seq<(Seq<char>, Seq<char>)>,
) -> Seq<(Seq<char>, PlanFindingLevel, Seq<char>)>
    decreases desired.len(),
{
    if desired.len() == 0 {
        Seq::empty()
    } else {
        let k = desired.last().0;
        let rest = unobserved_findings(desired.drop_last(), observed);
        match lookup(observed, k) {
            Some(_) => rest,
            None => rest.push(unobserved_finding(k)),
        }
    }
}

/// The three findings that every plan starts with.
pub open spec fn base_findings(o: ObservationModel) -> Seq<
    (Seq<char>, PlanFindingLevel, Seq<char>),
> {
    seq![
        ("semantic-origin"@, PlanFindingLevel::Pass, "desired state retains semantic provenance"@),
        (
            "authoritative-observation"@,
            PlanFindingLevel::Pass,
            "planning is bound to current "@ + o.authority + " evidence "@ + o.evidence_id,
        ),
        (
            "execution-disabled"@,
            PlanFindingLevel::Pass,
            "v0.2 planning produces no executable effects and grants no mutation authority"@,
        ),
    ]
}

/// The plan that planning produces for accepted inputs.
pub open spec fn expected_plan(
    request_id: Seq<char>,
    actor: (Seq<char>, crate::base::ActorKind, bool),
    d: DesiredModel,
    o: ObservationModel,
) -> PlanModel {
    let changes = diff_changes(d.state, o.attributes);
    let missing = unobserved_findings(d.state, o.attributes);
    PlanModel {
        id: request_id,
        request_id,
        actor,
        provider: d.provider,
        resource: d.resource,
        capability: d.capability,
        reason: d.reason,
        evidence_id: o.evidence_id,
        risk: if changes.len() == 0 {
            RiskClass::ReadOnly
        } else {
            RiskClass::SystemMutation
        },
        status: if missing.len() > 0 {
            PlanStatus::Blocked
        } else if changes.len() == 0 {
            PlanStatus::NoChange
        } else {
            PlanStatus::ChangeProposed
        },
        execution_authorized: false,
        changes,
        findings: base_findings(o) + missing,
    }
}

fn finding(code: &str, level: PlanFindingLevel, message: String) -> (r: PlanFinding)
    ensures
        r@ == (code@, level, message@),
{
    PlanFinding { code: owned(code), level, message }
}

fn validate_planning_observation(observation: &PlanningObservation) -> (r: Result<
    (),
    PlanningError,
>)
    ensures
        match r {
            Ok(()) => observation_fault(observation@) is None,
            Err(e) => observation_fault(observation@) is Some && (
            e matches PlanningError::InvalidObservation(m) && m@ == observation_fault(
                observation@,
            )->0),
        },
{
    if is_blank(observation.authority.as_str()) {
        return Err(PlanningError::InvalidObservation(owned("authority cannot be empty")));
    }
    if is_blank(observation.evidence_id.as_str()) {
        return Err(PlanningError::InvalidObservation(owned("evidence id cannot be empty")));
    }
    if observation.attributes.is_empty() {
        return Err(
            PlanningError::InvalidObservation(owned("authoritative attributes cannot be empty")),
        );
    }
    Ok(())
}

impl DeterministicPlanner {
    /// Compares one desired resource with a current authoritative observation
    /// and produces a deterministic plan that authorizes no execution.
    pub fn plan_resource(
        &self,
        request_id: RequestId,
        actor: Actor,
        desired: DesiredResource,
        observation: &PlanningObservation,
    ) -> (r: Result<ReconciliationPlan, PlanningError>)
        ensures
            match r {
                Ok(plan) => planning_accepts(desired@, observation@) && plan@ == expected_plan(
                    request_id@,
                    actor@,
                    desired@,
                    observation@,
                ),
                Err(e) => planning_rejects(desired@, observation@, e),
            },
    {
        match validate_desired_resource(&desired) {
            Ok(()) => {},
            Err(e) => {
                return Err(PlanningError::InvalidDesiredState(e.message()));
            },
        }
        match validate_planning_observation(observation) {
            Ok(()) => {},
            Err(e) => {
                return Err(e);
            },
        }
        match observation.freshness {
            PlanningFreshness::Current => {},
            other => {
                return Err(PlanningError::ObservationNotCurrent(other));
            },
        }
        if !observation.provider.same(&desired.provider) {
            return Err(
                PlanningError::ObservationIdentityMismatch(
                    owned("provider differs from desired-state observation route"),
                ),
            );
        }
        if !observation.resource.same(&desired.resource) {
            return Err(
                PlanningError::ObservationIdentityMismatch(
                    owned("resource differs from desired-state resource"),
                ),
            );
        }
        if !observation.observation_capability.same(&desired.observation_capability) {
            return Err(
                PlanningError::ObservationIdentityMismatch(
                    owned("capability differs from desired-state observation route"),
                ),
            );
        }
        let mut changes: Vec<StateChange> = Vec::new();
        let mut missing: Vec<PlanFinding> = Vec::new();
        let ghost ds = desired.state@;
        let ghost os = observation.attributes@;
        let n = desired.state.len();
        let mut i: usize = 0;
        while i < n
            invariant
                n == ds.len(),
                ds == desired.state@,
                os == observation.attributes@,
                i <= n,
                views(changes@) == diff_changes(ds.take(i as int), os),
                views(missing@) == unobserved_findings(ds.take(i as int), os),
            decreases n - i,
        {
            let key = desired.state.key_at(i);
            let want = desired.state.value_at(i);
            assert(ds.take(i + 1).drop_last() == ds.take(i as int));
            assert(ds.take(i + 1).last() == ds[i as int]);
            match observation.attributes.get(key.as_str()) {
                Some(current) => {
                    if *current != *want {
                        changes.push(
                            StateChange {
                                key: key.clone(),
                                current: Some(current.clone()),
                                desired: want.clone(),
                            },
                        );
                    }
                },
                None => {
                    changes.push(
                        StateChange { key: key.clone(), current: None, desired: want.clone() },
                    );
                    let mut message = owned(
                        "authoritative observation does not expose desired attribute ",
                    );
                    let q = debug_quote(key.as_str());
                    append_str(&mut message, q.as_str());
                    append_str(&mut message, "; planning fails closed");
                    missing.push(finding("attribute-not-observed", PlanFindingLevel::Blocker, message));
                },
            }
            assert(views(changes@) =~= diff_changes(ds.take(i + 1), os));
            assert(views(missing@) =~= unobserved_findings(ds.take(i + 1), os));
            i = i + 1;
        }
        assert(ds.take(n as int) == ds);
        let mut bound = owned("planning is bound to current ");
        append_str(&mut bound, observation.authority.as_str());
        append_str(&mut bound, " evidence ");
        append_str(&mut bound, observation.evidence_id.as_str());
        let mut findings: Vec<PlanFinding> = Vec::new();
        findings.push(
            finding(
                "semantic-origin",
                PlanFindingLevel::Pass,
                owned("desired state retains semantic provenance"),
            ),
        );
        findings.push(finding("authoritative-observation", PlanFindingLevel::Pass, bound));
        findings.push(
            finding(
                "execution-disabled",
                PlanFindingLevel::Pass,
                owned(
                    "v0.2 planning produces no executable effects and grants no mutation authority",
                ),
            ),
        );
        let ghost base = views(findings@);
        assert(base =~= base_findings(observation@));
        let blocked = missing.len() > 0;
        findings.append(&mut missing);
        let status = if blocked {
            PlanStatus::Blocked
        } else if changes.len() == 0 {
            PlanStatus::NoChange
        } else {
            PlanStatus::ChangeProposed
        };
        let prospective_risk = if changes.len() == 0 {
            RiskClass::ReadOnly
        } else {
            RiskClass::SystemMutation
        };
        let id = match PlanId::new(request_id.as_str()) {
            Ok(id) => id,
            Err(e) => {
                return Err(PlanningError::InvalidPlanId(e.message()));
            },
        };
        let plan = ReconciliationPlan {
            id,
            request_id,
            actor,
            provider: desired.provider,
            resource: desired.resource,
            observation_capability: desired.observation_capability,
            reason: desired.reason,
            observed_evidence_id: observation.evidence_id.clone(),
            prospective_risk,
            status,
            execution_authorized: false,
            changes,
            findings,
        };
        assert(views(plan.findings@) =~= base_findings(observation@) + unobserved_findings(ds, os));
        Ok(plan)
    }
}

#[derive(Clone, Debug, PartialEq, Eq)]
pub enum PlanStoreError {
    InvalidCapacity,
    IdempotencyConflict { plan_id: PlanId },
}

/// Bounded retention of plans by id; the oldest plans are evicted first.
#[derive(Debug)]
pub struct PlanStore {
    capacity: usize,
    plans: TextMap<ReconciliationPlan>,
    order: Vec<PlanId>,
}

/// The texts of a sequence of identifiers.
pub open spec fn id_texts(ids: Seq<PlanId>) -> Seq<Seq<char>> {
    ids.map_values(|x: PlanId| x@)
}

/// The retained plans with the id texts they are stored under.
pub open spec fn distinct_texts(s: Seq<Seq<char>>) -> bool {
    forall|i: int, j: int| 0 <= i < j < s.len() ==> s[i] != s[j]
}

/// What retaining the plan `p` does to the store `c`, leaving `after` and
/// returning `r`: re-inserting an identical plan changes nothing; a
/// different plan under a retained id is refused; otherwise the oldest plans
/// are evicted until there is room and `p` becomes newest.
pub open spec fn plan_insert_outcome(
    c: PlanStore,
    p: PlanModel,
    after: PlanStore,
    r: Result<(), PlanStoreError>,
) -> bool {
    match lookup(c.plans_spec(), p.id) {
        Some(existing) => if existing == p {
            r is Ok && after.plans_spec() == c.plans_spec()
                && after.order_spec() == c.order_spec()
        } else {
            r matches Err(PlanStoreError::IdempotencyConflict { plan_id }) && plan_id@
                == p.id && after.plans_spec() == c.plans_spec()
                && after.order_spec() == c.order_spec()
        },
        None => {
            let evicted = evicted_count(c.order_spec().len(), c.capacity_spec());
            &&& r is Ok
            &&& after.order_spec() == c.order_spec().skip(evicted).push(
                p.id,
            )
            &&& forall|k: Seq<char>|
                #[trigger] lookup(after.plans_spec(), k) == if k == p.id {
                    Some(p)
                } else if c.order_spec().skip(evicted).contains(k) {
                    lookup(c.plans_spec(), k)
                } else {
                    None
                }
        },
    }
}

/// A read gives back what a write retained: once a plan was retained, the
/// store holds exactly that plan under its id.
pub proof fn law_plan_store_keeps_inserted_plan(c: PlanStore, p: PlanModel, after: PlanStore, r: Result<(), PlanStoreError>)
    requires
        plan_insert_outcome(c, p, after, r),
        r is Ok,
    ensures
        lookup(after.plans_spec(), p.id) == Some(p),
{
}

impl PlanStore {
    #[verifier::type_invariant]
    closed spec fn inv(self) -> bool {
        &&& self.capacity > 0
        &&& distinct_texts(id_texts(self.order@))
        &&& self.plans@.len() == self.order@.len()
        &&& self.order@.len() <= self.capacity
        &&& forall|k: Seq<char>|
            #[trigger] lookup(self.plans@, k) is Some <==> id_texts(self.order@).contains(k)
    }

    /// The maximum number of retained plans.
    pub closed spec fn capacity_spec(self) -> nat {
        self.capacity as nat
    }

    /// Retained plans keyed by plan id text.
    pub closed spec fn plans_spec(self) -> Seq<(Seq<char>, PlanModel)> {
        self.plans@
    }

    /// Plan ids from oldest to newest.
    pub closed spec fn order_spec(self) -> Seq<Seq<char>> {
        id_texts(self.order@)
    }

    /// A store with the default capacity.
    pub fn new() -> (r: Self)
        ensures
            r.capacity_spec() == DEFAULT_PLAN_STORE_CAPACITY,
            r.plans_spec().len() == 0,
            r.order_spec().len() == 0,
    {
        let s = PlanStore {
            capacity: DEFAULT_PLAN_STORE_CAPACITY,
            plans: TextMap::new(),
            order: Vec::new(),
        };
        assert(id_texts(s.order@) =~= Seq::<Seq<char>>::empty());
        s
    }

    /// A store retaining at most `capacity` plans; zero is refused.
    pub fn with_capacity(capacity: usize) -> (r: Result<Self, PlanStoreError>)
        ensures
            match r {
                Ok(s) => capacity > 0 && s.capacity_spec() == capacity && s.plans_spec().len()
                    == 0 && s.order_spec().len() == 0,
                Err(e) => capacity == 0 && e == PlanStoreError::InvalidCapacity,
            },
    {
        if capacity == 0 {
            return Err(PlanStoreError::InvalidCapacity);
        }
        let s = PlanStore { capacity, plans: TextMap::new(), order: Vec::new() };
        assert(id_texts(s.order@) =~= Seq::<Seq<char>>::empty());
        Ok(s)
    }

    /// Number of retained plans.
    pub fn len(&self) -> (r: usize)
        ensures
            r == self.plans_spec().len(),
    {
        self.plans.len()
    }

    /// Whether no plan is retained.
    pub fn is_empty(&self) -> (r: bool)
        ensures
            r == (self.plans_spec().len() == 0),
    {
        self.plans.is_empty()
    }

    /// The plan retained under an id.
    pub fn get(&self, plan_id: &PlanId) -> (r: Option<&ReconciliationPlan>)
        ensures
            match r {
                Some(p) => lookup(self.plans_spec(), plan_id@) == Some(p@),
                None => lookup(self.plans_spec(), plan_id@) is None,
            },
    {
        self.plans.get(plan_id.as_str())
    }

    /// Retains a plan. Re-inserting an identical plan changes nothing; a
    /// different plan under a retained id is refused. Otherwise the oldest
    /// plans are evicted until there is room, and the plan becomes newest.
    pub fn insert(&mut self, plan: ReconciliationPlan) -> (r: Result<(), PlanStoreError>)
        ensures
            final(self).capacity_spec() == old(self).capacity_spec(),
            final(self).plans_spec().len() <= final(self).capacity_spec(),
            final(self).plans_spec().len() == final(self).order_spec().len(),
            plan_insert_outcome(*old(self), plan@, *final(self), r),
    {
        proof {
            use_type_invariant(&*self);
        }
        match self.plans.get(plan.id.as_str()) {
            Some(existing) => {
                if existing.same(&plan) {
                    return Ok(());
                }
                return Err(PlanStoreError::IdempotencyConflict { plan_id: plan.id.clone() });
            },
            None => {},
        }
        let ghost old_order = id_texts(self.order@);
        let ghost old_plans = self.plans@;
        let ghost id = plan@.id;
        let mut taken = PlanStore { capacity: 1, plans: TextMap::new(), order: Vec::new() };
        assert(id_texts(taken.order@) =~= Seq::<Seq<char>>::empty());
        std::mem::swap(&mut taken, self);
        let PlanStore { capacity, mut plans, mut order } = taken;
        let ghost mut gone: int = 0;
        assert(old_order.skip(0) =~= old_order);
        while plans.len() >= capacity && order.len() > 0
            invariant
                capacity > 0,
                0 <= gone <= old_order.len(),
                id_texts(order@) == old_order.skip(gone),
                plans@.len() == order@.len(),
                old_order.len() <= capacity,
                distinct_texts(old_order),
                forall|k: Seq<char>|
                    #[trigger] lookup(old_plans, k) is Some <==> old_order.contains(k),
                forall|k: Seq<char>|
                    #[trigger] lookup(plans@, k) == if old_order.skip(gone).contains(k) {
                        lookup(old_plans, k)
                    } else {
                        None
                    },
                gone > 0 ==> old_order.len() - gone + 1 >= capacity,
            decreases order@.len(),
        {
            let ghost before = old_order.skip(gone);
            let ghost ord_before = order@;
            let oldest = order.remove(0);
            proof {
                assert(id_texts(order@) =~= id_texts(ord_before).skip(1));
                assert(id_texts(order@) =~= old_order.skip(gone + 1));
                assert(before[0] == oldest@);
                assert(old_order[gone] == oldest@);
                assert(lookup(plans@, oldest@) is Some) by {
                    assert(before.contains(oldest@));
                    assert(old_order.contains(oldest@));
                }
            }
            let removed = plans.remove(oldest.as_str());
            proof {
                assert forall|k: Seq<char>|
                    #[trigger] old_order.skip(gone + 1).contains(k) == (before.contains(k) && k
                        != oldest@) by {
                    if old_order.skip(gone + 1).contains(k) {
                        let j = choose|j: int|
                            0 <= j < old_order.skip(gone + 1).len()
                                && #[trigger] old_order.skip(gone + 1)[j] == k;
                        assert(before[j + 1] == k);
                        assert(old_order[gone + 1 + j] == k);
                    }
                    if before.contains(k) && k != oldest@ {
                        let j = choose|j: int| 0 <= j < before.len() && #[trigger] before[j] == k;
                        assert(j != 0);
                        assert(old_order.skip(gone + 1)[j - 1] == k);
                    }
                }
                gone = gone + 1;
            }
        }
        proof {
            assert(!old_order.contains(id)) by {
                if old_order.contains(id) {
                    assert(lookup(old_plans, id) is Some);
                }
            }
            assert(!old_order.skip(gone).contains(id)) by {
                if old_order.skip(gone).contains(id) {
                    let j = choose|j: int|
                        0 <= j < old_order.skip(gone).len() && #[trigger] old_order.skip(gone)[j] == id;
                    assert(old_order[gone + j] == id);
                }
            }
        }
        order.push(plan.id.clone());
        let key = plan.id.as_str().to_string();
        plans.insert(key, plan);
        proof {
            let kept = old_order.skip(gone);
            assert(id_texts(order@) =~= kept.push(id));
            assert(distinct_texts(kept.push(id))) by {
                assert forall|a: int, b: int|
                    0 <= a < b < kept.push(id).len() implies kept.push(id)[a] != kept.push(
                    id,
                )[b] by {
                    assert(kept[a] == old_order[gone + a]);
                    if b < kept.len() {
                        assert(kept[b] == old_order[gone + b]);
                    } else {
                        assert(kept.contains(kept[a]));
                    }
                }
            }
            assert forall|k: Seq<char>|
                #[trigger] lookup(plans@, k) is Some <==> kept.push(id).contains(k) by {
                if kept.push(id).contains(k) && k != id {
                    let j = choose|j: int| 0 <= j < kept.push(id).len() && #[trigger] kept.push(id)[j] == k;
                    assert(kept[j] == k);
                    assert(kept.contains(k));
                    assert(old_order[gone + j] == k);
                    assert(old_order.contains(k));
                }
                if kept.contains(k) {
                    let j = choose|j: int| 0 <= j < kept.len() && #[trigger] kept[j] == k;
                    assert(kept.push(id)[j] == k);
                }
                assert(kept.push(id)[kept.len() as int] == id);
            }
            assert(gone == evicted_count(old_order.len(), capacity as nat));
        }
        *self = PlanStore { capacity, plans, order };
        Ok(())
    }
}

impl Default for PlanStore {
    fn default() -> (r: Self)
        ensures
            r.capacity_spec() == DEFAULT_PLAN_STORE_CAPACITY,
            r.plans_spec().len() == 0,
            r.order_spec().len() == 0,
    {
        PlanStore::new()
    }
}

/// How many of the oldest plans give way when one more is retained.
pub open spec fn evicted_count(retained: nat, capacity: nat) -> int {
    if retained + 1 > capacity {
        retained + 1 - capacity
    } else {
        0
    }
}

} // verus!
