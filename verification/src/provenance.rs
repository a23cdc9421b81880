//! Why state exists: provenance records and the chain that explains it.
use vstd::prelude::*;

use crate::base::Actor;
use crate::ids::{CapabilityId, IntentId, PlanId, RequirementId, ResourceId};

verus! {

#[derive(Clone, Copy, Debug, PartialEq, Eq)]
pub enum ProvenanceKind {
    UserIntent,
    AgentInterpretation,
    PlannerDerivation,
    PolicyDecision,
    Execution,
    Verification,
    Reconciliation,
}

/// One step in the history of why something exists.
#[derive(Debug, PartialEq, Eq)]
pub struct ProvenanceRecord {
    pub id: String,
    pub kind: ProvenanceKind,
    pub actor: Actor,
    pub summary: String,
    pub intent_ids: Vec<IntentId>,
    pub requirement_ids: Vec<RequirementId>,
    pub capability_ids: Vec<CapabilityId>,
    pub resource_ids: Vec<ResourceId>,
    pub plan_id: Option<PlanId>,
    pub parent_ids: Vec<String>,
}

/// The records that explain a state, in order.
#[derive(Debug, PartialEq, Eq)]
pub struct WhyChain {
    pub records: Vec<ProvenanceRecord>,
}

impl WhyChain {
    /// A chain without records.
    pub fn new() -> (r: Self)
        ensures
            r.records@.len() == 0,
    {
        WhyChain { records: Vec::new() }
    }

    /// The summary of every record, in order.
    pub fn summary(&self) -> (r: Vec<&str>)
        ensures
            r@.len() == self.records@.len(),
            forall|i: int| 0 <= i < r@.len() ==> #[trigger] r@[i]@ == self.records@[i].summary@,
    {
        let mut out: Vec<&str> = Vec::new();
        let mut i: usize = 0;
        while i < self.records.len()
            invariant
                i <= self.records@.len(),
                out@.len() == i,
                forall|j: int| 0 <= j < i ==> #[trigger] out@[j]@ == self.records@[j].summary@,
            decreases self.records@.len() - i,
        {
            out.push(self.records[i].summary.as_str());
            i = i + 1;
        }
        out
    }
}

impl Default for WhyChain {
    fn default() -> (r: Self)
        ensures
            r.records@.len() == 0,
    {
        WhyChain::new()
    }
}

} // verus!
