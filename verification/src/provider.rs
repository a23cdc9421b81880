//! What an observation provider is: read-only authoritative observation.
use vstd::prelude::*;

use crate::base::Capability;
use crate::ids::{CapabilityId, ProviderId, ResourceId};
use crate::observation::{ObservationEnvelope, ProviderHealth};
use crate::text::{append_str, owned};

verus! {

/// Why a provider could not answer.
#[derive(Clone, Debug, PartialEq, Eq)]
pub enum ProviderError {
    Unsupported(String),
    Unavailable(String),
    InvalidState(String),
    Internal(String),
}

/// The text of a provider error: its kind, then its detail.
pub open spec fn provider_error_message(e: ProviderError) -> Seq<char> {
    match e {
        ProviderError::Unsupported(d) => "provider unsupported: "@ + d@,
        ProviderError::Unavailable(d) => "provider unavailable: "@ + d@,
        ProviderError::InvalidState(d) => "provider invalid state: "@ + d@,
        ProviderError::Internal(d) => "provider internal error: "@ + d@,
    }
}

impl ProviderError {
    /// The text of this error.
    pub fn message(&self) -> (r: String)
        ensures
            r@ == provider_error_message(*self),
    {
        let (head, detail) = match self {
            ProviderError::Unsupported(d) => ("provider unsupported: ", d),
            ProviderError::Unavailable(d) => ("provider unavailable: ", d),
            ProviderError::InvalidState(d) => ("provider invalid state: ", d),
            ProviderError::Internal(d) => ("provider internal error: ", d),
        };
        let mut out = owned(head);
        append_str(&mut out, detail.as_str());
        out
    }
}

/// Some capability of the list has the identifier.
pub open spec fn declares(caps: Seq<Capability>, id: Seq<char>) -> bool {
    exists|i: int| 0 <= i < caps.len() && #[trigger] caps[i].id@ == id
}

/// A read-only authoritative observation provider. Implementing it grants no
/// planning, policy, approval, execution or verification authority.
pub trait Observer {
    fn observer_id(&self) -> ProviderId;

    fn observation_capabilities(&self) -> Vec<Capability>;

    fn health(&self) -> ProviderHealth;

    fn resources(&self) -> Result<Vec<ResourceId>, ProviderError>;

    fn observe_authoritative(
        &self,
        resource: &ResourceId,
        capability: &CapabilityId,
    ) -> Result<ObservationEnvelope, ProviderError>;

    /// Whether a capability this observer declares has the identifier.
    fn supports_observation(&self, capability: &CapabilityId) -> (r: bool)
        default_ensures
            exists|caps: Vec<Capability>| #[trigger] call_ensures(Self::observation_capabilities, (self,), caps)
                && r == declares(caps@, capability@),
    {
        let capabilities = self.observation_capabilities();
        let mut i: usize = 0;
        while i < capabilities.len()
            invariant
                i <= capabilities@.len(),
                forall|j: int| 0 <= j < i ==> capabilities@[j].id@ != capability@,
                call_ensures(Self::observation_capabilities, (self,), capabilities),
            decreases capabilities.len() - i,
        {
            if capabilities[i].id.same(capability) {
                assert(capabilities@[i as int].id@ == capability@);
                return true;
            }
            i = i + 1;
        }
        false
    }
}

/// A boxed observer observes as the observer it holds: each answer is one
/// that the held observer gives.
impl<T: Observer + ?Sized> Observer for Box<T> {
    fn observer_id(&self) -> (r: ProviderId)
        ensures
            call_ensures(T::observer_id, (&**self,), r),
    {
        (**self).observer_id()
    }

    fn observation_capabilities(&self) -> (r: Vec<Capability>)
        ensures
            call_ensures(T::observation_capabilities, (&**self,), r),
    {
        (**self).observation_capabilities()
    }

    fn health(&self) -> (r: ProviderHealth)
        ensures
            call_ensures(T::health, (&**self,), r),
    {
        (**self).health()
    }

    fn resources(&self) -> (r: Result<Vec<ResourceId>, ProviderError>)
        ensures
            call_ensures(T::resources, (&**self,), r),
    {
        (**self).resources()
    }

    fn observe_authoritative(
        &self,
        resource: &ResourceId,
        capability: &CapabilityId,
    ) -> (r: Result<ObservationEnvelope, ProviderError>)
        ensures
            call_ensures(T::observe_authoritative, (&**self, resource, capability), r),
    {
        (**self).observe_authoritative(resource, capability)
    }

    fn supports_observation(&self, capability: &CapabilityId) -> (r: bool)
        ensures
            call_ensures(T::supports_observation, (&**self, capability), r),
    {
        (**self).supports_observation(capability)
    }
}

} // verus!
