//! Deterministic fixtures: a scripted observer and a step-indexed failure
//! switch.
use vstd::prelude::*;

use crate::base::Capability;
use crate::ids::{CapabilityId, ProviderId, ResourceId};
use crate::observation::{ObservationEnvelope, ProviderHealth};
use crate::provider::{Observer, ProviderError};
use crate::text::owned;

verus! {

/// A read-only observer whose answers are fixed by its fields, so that
/// callers can exercise identity substitution and stale evidence.
#[derive(Debug)]
pub struct FakeObserver {
    pub provider: ProviderId,
    pub capabilities: Vec<Capability>,
    pub health: ProviderHealth,
    pub resources: Vec<ResourceId>,
    pub envelope: ObservationEnvelope,
    pub fail_resources: bool,
    pub fail_observe: bool,
}

impl Observer for FakeObserver {
    fn observer_id(&self) -> (r: ProviderId)
        ensures
            r == self.provider,
    {
        self.provider.clone()
    }

    fn observation_capabilities(&self) -> (r: Vec<Capability>)
        ensures
            r@ == self.capabilities@,
    {
        let mut out: Vec<Capability> = Vec::new();
        let mut i: usize = 0;
        while i < self.capabilities.len()
            invariant
                i <= self.capabilities@.len(),
                out@ == self.capabilities@.take(i as int),
            decreases self.capabilities@.len() - i,
        {
            out.push(self.capabilities[i].clone());
            assert(self.capabilities@.take(i + 1) =~= self.capabilities@.take(i as int).push(
                self.capabilities@[i as int],
            ));
            i = i + 1;
        }
        assert(self.capabilities@.take(i as int) =~= self.capabilities@);
        out
    }

    fn health(&self) -> (r: ProviderHealth)
        ensures
            r.provider@ == self.health.provider@,
            r.availability == self.health.availability,
            crate::planner::opt_view(r.reason) == crate::planner::opt_view(self.health.reason),
    {
        self.health.clone()
    }

    /// The scripted resources, or an unavailable provider when resource
    /// discovery is set to fail.
    fn resources(&self) -> (r: Result<Vec<ResourceId>, ProviderError>)
        ensures
            match r {
                Ok(v) => !self.fail_resources && v@ == self.resources@,
                Err(e) => self.fail_resources && (e matches ProviderError::Unavailable(m) && m@
                    == "injected resource discovery failure"@),
            },
    {
        if self.fail_resources {
            Err(ProviderError::Unavailable(owned("injected resource discovery failure")))
        } else {
            let mut out: Vec<ResourceId> = Vec::new();
            let mut i: usize = 0;
            while i < self.resources.len()
                invariant
                    i <= self.resources@.len(),
                    out@ == self.resources@.take(i as int),
                decreases self.resources@.len() - i,
            {
                out.push(self.resources[i].clone());
                assert(self.resources@.take(i + 1) =~= self.resources@.take(i as int).push(
                    self.resources@[i as int],
                ));
                i = i + 1;
            }
            assert(self.resources@.take(i as int) =~= self.resources@);
            Ok(out)
        }
    }

    /// The scripted envelope, whatever is asked, or an unavailable provider
    /// when observation is set to fail.
    fn observe_authoritative(
        &self,
        _resource: &ResourceId,
        _capability: &CapabilityId,
    ) -> (r: Result<ObservationEnvelope, ProviderError>)
        ensures
            match r {
                Ok(o) => !self.fail_observe && o@ == self.envelope@,
                Err(e) => self.fail_observe && (e matches ProviderError::Unavailable(m) && m@
                    == "injected authoritative observation failure"@),
            },
    {
        if self.fail_observe {
            Err(ProviderError::Unavailable(owned("injected authoritative observation failure")))
        } else {
            Ok(self.envelope.clone())
        }
    }
}

/// Fails at one chosen step, or never.
#[derive(Clone, Copy, Debug, PartialEq, Eq)]
pub struct FailureInjector {
    fail_at_step: Option<usize>,
}

impl FailureInjector {
    /// The step at which this injector fails, if any.
    pub closed spec fn fail_step(self) -> Option<usize> {
        self.fail_at_step
    }

    /// An injector that never fails.
    pub fn never() -> (r: Self)
        ensures
            r.fail_step() is None,
    {
        FailureInjector { fail_at_step: None }
    }

    /// An injector that fails at `step` and nowhere else.
    pub fn at(step: usize) -> (r: Self)
        ensures
            r.fail_step() == Some(step),
    {
        FailureInjector { fail_at_step: Some(step) }
    }

    /// Whether `step` is the failing step.
    pub fn should_fail(&self, step: usize) -> (r: bool)
        ensures
            r == (self.fail_step() == Some(step)),
    {
        match self.fail_at_step {
            Some(s) => s == step,
            None => false,
        }
    }
}

} // verus!
