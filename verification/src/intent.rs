//! Intents, requirements, and portable setups and profiles.
use vstd::prelude::*;

use crate::base::Actor;
use crate::ids::{texts, IntentId, ProfileId, RequirementId, SetupId};
use crate::planner::views;
use crate::text::{is_blank, is_blank_seq};

verus! {

#[derive(Clone, Copy, Debug, PartialEq, Eq)]
pub enum IntentStatus {
    Proposed,
    Active,
    Suspended,
    Superseded,
    Retired,
}

#[derive(Clone, Copy, Debug, PartialEq, Eq)]
pub enum RequirementKind {
    Goal,
    Constraint,
    Preference,
    Prohibition,
}

/// One requirement of an intent.
#[derive(Debug, PartialEq, Eq)]
pub struct Requirement {
    pub id: RequirementId,
    pub kind: RequirementKind,
    pub statement: String,
}

/// What someone wants the machine to be, with its requirements.
#[derive(Debug, PartialEq, Eq)]
pub struct Intent {
    pub id: IntentId,
    pub actor: Actor,
    pub statement: String,
    pub status: IntentStatus,
    pub requirements: Vec<Requirement>,
    pub supersedes: Vec<IntentId>,
}

/// Whether an intent in this status is managed: active or suspended.
pub open spec fn managed_status(s: IntentStatus) -> bool {
    s == IntentStatus::Active || s == IntentStatus::Suspended
}

impl Intent {
    /// Whether the intent is still managed.
    pub fn is_managed(&self) -> (r: bool)
        ensures
            r == managed_status(self.status),
    {
        match self.status {
            IntentStatus::Active | IntentStatus::Suspended => true,
            _ => false,
        }
    }
}

/// An interpreted intent with what the interpretation noticed.
#[derive(Debug, PartialEq, Eq)]
pub struct IntentProposal {
    pub intent: Intent,
    pub interpretation_notes: Vec<String>,
    pub ambiguities: Vec<String>,
    pub confidence_basis: Vec<String>,
}

/// A reusable, portable composition of intent.
#[derive(Debug, PartialEq, Eq)]
pub struct Setup {
    pub id: SetupId,
    pub name: String,
    pub description: String,
    pub revision: u32,
    pub intent_ids: Vec<IntentId>,
    pub included_setup_ids: Vec<SetupId>,
    pub portable_constraints: Vec<String>,
    pub required_secret_refs: Vec<String>,
    pub hardware_hints: Vec<String>,
}

#[derive(Clone, Copy, Debug, PartialEq, Eq)]
pub enum SetupValidationError {
    EmptyName,
    ZeroRevision,
    EmptyComposition,
    SelfReference,
    EmptySecretReference,
}

/// The first rule a setup breaks, if any: a name, a revision, some
/// composition, no inclusion of itself, and no blank secret reference.
pub open spec fn setup_fault(s: Setup) -> Option<SetupValidationError> {
    if is_blank_seq(s.name@) {
        Some(SetupValidationError::EmptyName)
    } else if s.revision == 0 {
        Some(SetupValidationError::ZeroRevision)
    } else if s.intent_ids@.len() == 0 && s.included_setup_ids@.len() == 0 {
        Some(SetupValidationError::EmptyComposition)
    } else if texts(s.included_setup_ids@).contains(s.id@) {
        Some(SetupValidationError::SelfReference)
    } else if exists|i: int|
        0 <= i < s.required_secret_refs@.len() && is_blank_seq(
            #[trigger] views(s.required_secret_refs@)[i],
        ) {
        Some(SetupValidationError::EmptySecretReference)
    } else {
        None
    }
}

impl Setup {
    /// Checks the rules of `setup_fault`.
    pub fn validate(&self) -> (r: Result<(), SetupValidationError>)
        ensures
            match r {
                Ok(()) => setup_fault(*self) is None,
                Err(e) => setup_fault(*self) == Some(e),
            },
    {
        if is_blank(self.name.as_str()) {
            return Err(SetupValidationError::EmptyName);
        }
        if self.revision == 0 {
            return Err(SetupValidationError::ZeroRevision);
        }
        if self.intent_ids.len() == 0 && self.included_setup_ids.len() == 0 {
            return Err(SetupValidationError::EmptyComposition);
        }
        let mut i: usize = 0;
        while i < self.included_setup_ids.len()
            invariant
                i <= self.included_setup_ids@.len(),
                !is_blank_seq(self.name@),
                self.revision != 0,
                !(self.intent_ids@.len() == 0 && self.included_setup_ids@.len() == 0),
                forall|j: int| 0 <= j < i ==> self.included_setup_ids@[j]@ != self.id@,
            decreases self.included_setup_ids@.len() - i,
        {
            if self.included_setup_ids[i].same(&self.id) {
                assert(texts(self.included_setup_ids@)[i as int] == self.id@);
                return Err(SetupValidationError::SelfReference);
            }
            i = i + 1;
        }
        assert(!texts(self.included_setup_ids@).contains(self.id@)) by {
            if texts(self.included_setup_ids@).contains(self.id@) {
                let j = choose|j: int|
                    0 <= j < texts(self.included_setup_ids@).len() && #[trigger] texts(
                        self.included_setup_ids@,
                    )[j] == self.id@;
                assert(self.included_setup_ids@[j]@ == self.id@);
            }
        }
        let mut k: usize = 0;
        while k < self.required_secret_refs.len()
            invariant
                k <= self.required_secret_refs@.len(),
                !is_blank_seq(self.name@),
                self.revision != 0,
                !(self.intent_ids@.len() == 0 && self.included_setup_ids@.len() == 0),
                !texts(self.included_setup_ids@).contains(self.id@),
                forall|j: int| 0 <= j < k ==> !is_blank_seq(#[trigger] views(self.required_secret_refs@)[j]),
            decreases self.required_secret_refs@.len() - k,
        {
            if is_blank(self.required_secret_refs[k].as_str()) {
                assert(is_blank_seq(views(self.required_secret_refs@)[k as int]));
                return Err(SetupValidationError::EmptySecretReference);
            }
            assert(views(self.required_secret_refs@)[k as int] == self.required_secret_refs@[k as int]@);
            k = k + 1;
        }
        Ok(())
    }
}

/// A machine profile: setups and intents with portable constraints.
#[derive(Debug, PartialEq, Eq)]
pub struct MachineProfile {
    pub id: ProfileId,
    pub name: String,
    pub setup_ids: Vec<SetupId>,
    pub intent_ids: Vec<IntentId>,
    pub portable_constraints: Vec<String>,
    pub hardware_hints: Vec<String>,
}

} // verus!
