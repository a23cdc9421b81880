//! Typed lifecycle workflows run around bootstrap, update, reconcile and recovery.
use vstd::prelude::*;

use crate::text::{is_blank, is_blank_seq};

verus! {

#[derive(Clone, Copy, Debug, PartialEq, Eq)]
pub enum LifecycleEvent {
    BeforeBootstrap,
    AfterBootstrap,
    BeforeUpdate,
    AfterUpdate,
    BeforeReconcile,
    AfterReconcile,
    BeforeRecovery,
    AfterRecovery,
}

/// One typed step: a capability operation and the permissions it needs.
#[derive(Clone, Debug, PartialEq, Eq)]
pub struct LifecycleStep {
    pub capability: String,
    pub operation: String,
    pub required_permissions: Vec<String>,
}

/// A workflow bound to one lifecycle event.
#[derive(Clone, Debug, PartialEq, Eq)]
pub struct LifecycleWorkflow {
    pub id: String,
    pub event: LifecycleEvent,
    pub steps: Vec<LifecycleStep>,
}

/// A step without a capability or without an operation.
pub open spec fn step_incomplete(s: LifecycleStep) -> bool {
    is_blank_seq(s.capability@) || is_blank_seq(s.operation@)
}

/// The first rule a workflow breaks, if any: an id, at least one step, and
/// a capability and an operation in every step.
pub open spec fn workflow_fault(w: LifecycleWorkflow) -> Option<&'static str> {
    if is_blank_seq(w.id@) {
        Some("workflow id cannot be empty")
    } else if w.steps@.len() == 0 {
        Some("lifecycle workflow must have at least one typed step")
    } else if exists|i: int| 0 <= i < w.steps@.len() && step_incomplete(#[trigger] w.steps@[i]) {
        Some("lifecycle steps require capability and operation")
    } else {
        None
    }
}

impl LifecycleWorkflow {
    /// Checks the rules of `workflow_fault`.
    pub fn validate(&self) -> (r: Result<(), &'static str>)
        ensures
            match r {
                Ok(()) => workflow_fault(*self) is None,
                Err(e) => workflow_fault(*self) == Some(e),
            },
    {
        if is_blank(self.id.as_str()) {
            return Err("workflow id cannot be empty");
        }
        if self.steps.len() == 0 {
            return Err("lifecycle workflow must have at least one typed step");
        }
        let mut i: usize = 0;
        while i < self.steps.len()
            invariant
                i <= self.steps@.len(),
                !is_blank_seq(self.id@),
                self.steps@.len() > 0,
                forall|j: int| 0 <= j < i ==> !step_incomplete(#[trigger] self.steps@[j]),
            decreases self.steps@.len() - i,
        {
            let step = &self.steps[i];
            let cap_blank = is_blank(step.capability.as_str());
            let op_blank = is_blank(step.operation.as_str());
            if cap_blank || op_blank {
                assert(step_incomplete(self.steps@[i as int]));
                return Err("lifecycle steps require capability and operation");
            }
            assert(!step_incomplete(self.steps@[i as int]));
            i = i + 1;
        }
        Ok(())
    }
}

} // verus!
