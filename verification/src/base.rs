//! Actors, risk, semantic reasons and action plans.
use vstd::prelude::*;

use crate::ids::{
    has_dup, has_duplicate_ids, texts, ActorId, CapabilityId, IntentId, PlanId, ProviderId,
    RequestId, RequirementId, ResourceId, TextId, ValidationError,
};
use crate::text::{is_blank, is_blank_seq};

verus! {

#[derive(Clone, Copy, Debug, PartialEq, Eq, Hash)]
pub enum ActorKind {
    Human,
    Service,
    Agent,
    Remote,
}

/// Who asked for something.
#[derive(Debug, PartialEq, Eq)]
pub struct Actor {
    pub id: ActorId,
    pub kind: ActorKind,
    pub interactive: bool,
}

impl View for Actor {
    type V = (Seq<char>, ActorKind, bool);

    open spec fn view(&self) -> (Seq<char>, ActorKind, bool) {
        (self.id@, self.kind, self.interactive)
    }
}

impl Clone for Actor {
    fn clone(&self) -> (r: Self)
        ensures
            r == *self,
    {
        Actor { id: self.id.clone(), kind: self.kind, interactive: self.interactive }
    }
}

impl Actor {
    /// Whether two actors agree on identity, kind and interactivity.
    pub fn same(&self, other: &Self) -> (r: bool)
        ensures
            r == (self@ == other@),
    {
        self.id.same(&other.id) && kind_eq(self.kind, other.kind)
            && self.interactive == other.interactive
    }
}

/// Equality of actor kinds.
pub fn kind_eq(a: ActorKind, b: ActorKind) -> (r: bool)
    ensures
        r == (a == b),
{
    match (a, b) {
        (ActorKind::Human, ActorKind::Human) => true,
        (ActorKind::Service, ActorKind::Service) => true,
        (ActorKind::Agent, ActorKind::Agent) => true,
        (ActorKind::Remote, ActorKind::Remote) => true,
        _ => false,
    }
}

#[derive(Clone, Copy, Debug, PartialEq, Eq)]
pub enum SupportLevel {
    Supported,
    Unsupported,
    Degraded,
    Unknown,
}

/// A capability and how well a provider supports it.
#[derive(Debug, PartialEq, Eq)]
pub struct Capability {
    pub id: CapabilityId,
    pub support: SupportLevel,
    pub provider: Option<ProviderId>,
    pub reason: Option<String>,
}

impl Clone for Capability {
    fn clone(&self) -> (r: Self)
        ensures
            r == *self,
    {
        Capability {
            id: self.id.clone(),
            support: self.support,
            provider: match &self.provider {
                Some(p) => Some(p.clone()),
                None => None,
            },
            reason: match &self.reason {
                Some(s) => Some(s.clone()),
                None => None,
            },
        }
    }
}

/// How much authority a change needs, from least to most.
#[derive(Clone, Copy, Debug, PartialEq, Eq, PartialOrd, Ord, Hash)]
pub enum RiskClass {
    ReadOnly,
    UserState,
    SystemMutation,
    SecuritySensitive,
    Destructive,
}

/// Position of a risk class in the order `ReadOnly < ... < Destructive`.
pub open spec fn risk_rank(r: RiskClass) -> nat {
    match r {
        RiskClass::ReadOnly => 0,
        RiskClass::UserState => 1,
        RiskClass::SystemMutation => 2,
        RiskClass::SecuritySensitive => 3,
        RiskClass::Destructive => 4,
    }
}

impl RiskClass {
    /// Position in the order `ReadOnly < ... < Destructive`.
    pub fn rank(self) -> (r: u8)
        ensures
            r as nat == risk_rank(self),
    {
        match self {
            RiskClass::ReadOnly => 0,
            RiskClass::UserState => 1,
            RiskClass::SystemMutation => 2,
            RiskClass::SecuritySensitive => 3,
            RiskClass::Destructive => 4,
        }
    }

    /// Equality of risk classes.
    pub fn is(self, other: RiskClass) -> (r: bool)
        ensures
            r == (self == other),
    {
        self.rank() == other.rank()
    }
}

#[derive(Clone, Copy, Debug, PartialEq, Eq)]
pub enum AuthorityClass {
    Observed,
    Declared,
    Inferred,
    Proposed,
}

#[derive(Clone, Debug, PartialEq, Eq)]
pub struct Preconditions {
    pub statements: Vec<String>,
}

/// How an effect can be undone.
#[derive(Debug, PartialEq, Eq)]
pub enum Compensation {
    Absent,
    Effect(Box<Effect>),
    Manual { instructions: String },
}

#[derive(Debug, PartialEq, Eq)]
pub struct Effect {
    pub id: String,
    pub executor: String,
    pub operation: String,
    pub arguments: Vec<(String, String)>,
    pub compensation: Compensation,
}

#[derive(Clone, Debug, PartialEq, Eq)]
pub struct Verification {
    pub description: String,
}

/// Why managed state exists: a summary and the intents, requirements and
/// capabilities it comes from.
#[derive(Debug, PartialEq, Eq)]
pub struct SemanticReason {
    pub summary: String,
    pub intent_ids: Vec<IntentId>,
    pub requirement_ids: Vec<RequirementId>,
    pub capability_ids: Vec<CapabilityId>,
}

/// The texts of a semantic reason.
pub struct ReasonModel {
    pub summary: Seq<char>,
    pub intent_ids: Seq<Seq<char>>,
    pub requirement_ids: Seq<Seq<char>>,
    pub capability_ids: Seq<Seq<char>>,
}

impl View for SemanticReason {
    type V = ReasonModel;

    open spec fn view(&self) -> ReasonModel {
        ReasonModel {
            summary: self.summary@,
            intent_ids: texts(self.intent_ids@),
            requirement_ids: texts(self.requirement_ids@),
            capability_ids: texts(self.capability_ids@),
        }
    }
}

/// The first rule that a semantic reason breaks, if any.
pub open spec fn reason_fault(r: ReasonModel) -> Option<ValidationError> {
    if is_blank_seq(r.summary) {
        Some(ValidationError::Empty("semantic reason"))
    } else if r.intent_ids.len() == 0 && r.requirement_ids.len() == 0 && r.capability_ids.len()
        == 0 {
        Some(ValidationError::MissingSemanticOrigin)
    } else if has_dup(r.intent_ids) {
        Some(ValidationError::DuplicateSemanticOrigin("intent"))
    } else if has_dup(r.requirement_ids) {
        Some(ValidationError::DuplicateSemanticOrigin("requirement"))
    } else if has_dup(r.capability_ids) {
        Some(ValidationError::DuplicateSemanticOrigin("capability"))
    } else {
        None
    }
}

/// `Ok` when no fault is given, else the fault as an error.
pub open spec fn fault_result(f: Option<ValidationError>) -> Result<(), ValidationError> {
    match f {
        Some(e) => Err(e),
        None => Ok(()),
    }
}

/// Clones a vector of identifiers element by element.
pub fn clone_ids<T: TextId + Clone>(ids: &Vec<T>) -> (r: Vec<T>)
    requires
        forall|a: T, b: T| #[trigger] call_ensures(T::clone, (&a,), b) ==> a == b,
    ensures
        r@ == ids@,
{
    let mut out: Vec<T> = Vec::new();
    let mut i: usize = 0;
    while i < ids.len()
        invariant
            i <= ids@.len(),
            out@ == ids@.take(i as int),
            forall|a: T, b: T| #[trigger] call_ensures(T::clone, (&a,), b) ==> a == b,
        decreases ids@.len() - i,
    {
        out.push(ids[i].clone());
        assert(ids@.take(i + 1) == ids@.take(i as int).push(ids@[i as int]));
        i = i + 1;
    }
    assert(ids@.take(i as int) == ids@);
    out
}

/// Whether two identifier vectors have the same texts in the same order.
pub fn same_ids<T: TextId>(a: &Vec<T>, b: &Vec<T>) -> (r: bool)
    ensures
        r == (texts(a@) == texts(b@)),
{
    if a.len() != b.len() {
        assert(texts(a@).len() != texts(b@).len());
        return false;
    }
    let mut i: usize = 0;
    while i < a.len()
        invariant
            i <= a@.len(),
            a@.len() == b@.len(),
            forall|j: int| 0 <= j < i ==> a@[j]@ == b@[j]@,
        decreases a@.len() - i,
    {
        if !a[i].same_text(&b[i]) {
            assert(texts(a@)[i as int] != texts(b@)[i as int]);
            return false;
        }
        i = i + 1;
    }
    assert(texts(a@) =~= texts(b@));
    true
}

impl SemanticReason {
    /// Checks that the summary is not blank, that some origin is named, and
    /// that no origin is named twice.
    pub fn validate(&self) -> (r: Result<(), ValidationError>)
        ensures
            r == fault_result(reason_fault(self@)),
    {
        if is_blank(self.summary.as_str()) {
            return Err(ValidationError::Empty("semantic reason"));
        }
        if self.intent_ids.len() == 0 && self.requirement_ids.len() == 0
            && self.capability_ids.len() == 0 {
            return Err(ValidationError::MissingSemanticOrigin);
        }
        if has_duplicate_ids(self.intent_ids.as_slice()) {
            return Err(ValidationError::DuplicateSemanticOrigin("intent"));
        }
        if has_duplicate_ids(self.requirement_ids.as_slice()) {
            return Err(ValidationError::DuplicateSemanticOrigin("requirement"));
        }
        if has_duplicate_ids(self.capability_ids.as_slice()) {
            return Err(ValidationError::DuplicateSemanticOrigin("capability"));
        }
        Ok(())
    }

    /// Whether two reasons have the same texts.
    pub fn same(&self, other: &Self) -> (r: bool)
        ensures
            r == (self@ == other@),
    {
        self.summary == other.summary && same_ids(&self.intent_ids, &other.intent_ids) && same_ids(
            &self.requirement_ids,
            &other.requirement_ids,
        ) && same_ids(&self.capability_ids, &other.capability_ids)
    }
}

impl Clone for SemanticReason {
    fn clone(&self) -> (r: Self)
        ensures
            r@ == self@,
    {
        SemanticReason {
            summary: self.summary.clone(),
            intent_ids: clone_ids(&self.intent_ids),
            requirement_ids: clone_ids(&self.requirement_ids),
            capability_ids: clone_ids(&self.capability_ids),
        }
    }
}

/// A managed change: one resource, its risk, why it exists, its effects and
/// how it will be verified.
#[derive(Debug, PartialEq, Eq)]
pub struct ActionPlan {
    pub id: PlanId,
    pub request_id: RequestId,
    pub actor: Actor,
    pub resource: ResourceId,
    pub capability: CapabilityId,
    pub risk: RiskClass,
    pub reason: SemanticReason,
    pub preconditions: Preconditions,
    pub effects: Vec<Effect>,
    pub verification: Vec<Verification>,
}

/// The first rule that an action plan breaks, if any.
pub open spec fn action_plan_fault(p: ActionPlan) -> Option<ValidationError> {
    if reason_fault(p.reason@) is Some {
        reason_fault(p.reason@)
    } else if p.effects@.len() == 0 {
        Some(ValidationError::NoEffects)
    } else if p.verification@.len() == 0 {
        Some(ValidationError::NoVerification)
    } else {
        None
    }
}

impl ActionPlan {
    /// A plan needs a valid semantic reason, at least one effect and at least
    /// one verification.
    pub fn validate(&self) -> (r: Result<(), ValidationError>)
        ensures
            r == fault_result(action_plan_fault(*self)),
    {
        match self.reason.validate() {
            Err(e) => return Err(e),
            Ok(()) => {},
        }
        if self.effects.len() == 0 {
            return Err(ValidationError::NoEffects);
        }
        if self.verification.len() == 0 {
            return Err(ValidationError::NoVerification);
        }
        Ok(())
    }
}

} // verus!
