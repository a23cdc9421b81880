//! Read-only coordination of authoritative observers: identity checks,
//! availability, freshness and monotonicity before evidence becomes current.
use vstd::prelude::*;

use crate::base::Capability;
use crate::graph::{
    capability_node, evidence_node, lemma_node_key_injective, lemma_resource_node_newer, newer_evidence,
    node_is, node_key, provider_node, records_observation, resource_node, resource_pairs, EdgeModel,
    NodeModel, ObservationRecordOutcome, SystemGraph,
};
use crate::ids::{CapabilityId, ProviderId, ResourceId};
use crate::keyed::{lookup, TextMap};
use crate::observation::{
    authority_name, envelope_fault, observation_error_message, evidence_id_spec, freshness, EnvelopeModel, FreshnessState,
    ObservationEnvelope, ObservationValidationError, ProviderAvailability, ProviderHealth,
};
use crate::protocol::{ObservationExplanation, ObservationRequest, ObservationResponse, ObservationSystemSnapshot, ProviderSnapshot};
use crate::provider::{provider_error_message, Observer, ProviderError};
use crate::keyed::{compare_text, KeyOrder, text_lt};
use crate::text::{append_str, owned};

verus! {

/// Why the coordinator refused.
#[derive(Debug, PartialEq, Eq)]
pub enum ObservationControlError {
    DuplicateProvider { provider: ProviderId },
    ProviderIdentityMismatch { expected: ProviderId, actual: ProviderId },
    CapabilityProviderMismatch { provider: ProviderId, capability: CapabilityId },
    UnknownProvider { provider: ProviderId },
    ProviderUnavailable { provider: ProviderId, reason: Option<String> },
    UnsupportedCapability { provider: ProviderId, capability: CapabilityId },
    Provider(ProviderError),
    InvalidObservation(ObservationValidationError),
    SupersededEvidence { resource: ResourceId, evidence_id: String },
    ObservationUnavailable { resource: ResourceId },
}

/// The human-readable text of a coordinator error.
pub open spec fn control_error_message(e: ObservationControlError) -> Seq<char> {
    match e {
        ObservationControlError::DuplicateProvider { provider } => "observer "@ + provider@
            + " is already registered"@,
        ObservationControlError::ProviderIdentityMismatch { expected, actual } =>
            "observer identity mismatch: expected "@ + expected@ + ", got "@ + actual@,
        ObservationControlError::CapabilityProviderMismatch { provider, capability } =>
            "capability "@ + capability@ + " is not bound to observer "@ + provider@,
        ObservationControlError::UnknownProvider { provider } => "unknown observation provider "@
            + provider@,
        ObservationControlError::ProviderUnavailable { provider, reason } => "observation provider "@
            + provider@ + " is unavailable"@ + match reason {
            Some(r) => ": "@ + r@,
            None => Seq::empty(),
        },
        ObservationControlError::UnsupportedCapability { provider, capability } => "provider "@
            + provider@ + " does not support observation capability "@ + capability@,
        ObservationControlError::Provider(p) => provider_error_message(p),
        ObservationControlError::InvalidObservation(v) => observation_error_message(v),
        ObservationControlError::SupersededEvidence { resource, evidence_id } => "observation "@
            + evidence_id@ + " for "@ + resource@ + " is older than the current authoritative state"@,
        ObservationControlError::ObservationUnavailable { resource } =>
            "no authoritative observation is available for "@ + resource@,
    }
}

impl ObservationControlError {
    /// The human-readable text of this error.
    pub fn message(&self) -> (r: String)
        ensures
            r@ == control_error_message(*self),
    {
        match self {
            ObservationControlError::DuplicateProvider { provider } => {
                let mut s = owned("observer ");
                append_str(&mut s, provider.as_str());
                append_str(&mut s, " is already registered");
                s
            },
            ObservationControlError::ProviderIdentityMismatch { expected, actual } => {
                let mut s = owned("observer identity mismatch: expected ");
                append_str(&mut s, expected.as_str());
                append_str(&mut s, ", got ");
                append_str(&mut s, actual.as_str());
                s
            },
            ObservationControlError::CapabilityProviderMismatch { provider, capability } => {
                let mut s = owned("capability ");
                append_str(&mut s, capability.as_str());
                append_str(&mut s, " is not bound to observer ");
                append_str(&mut s, provider.as_str());
                s
            },
            ObservationControlError::UnknownProvider { provider } => {
                let mut s = owned("unknown observation provider ");
                append_str(&mut s, provider.as_str());
                s
            },
            ObservationControlError::ProviderUnavailable { provider, reason } => {
                let mut s = owned("observation provider ");
                append_str(&mut s, provider.as_str());
                append_str(&mut s, " is unavailable");
                match reason {
                    Some(r) => {
                        append_str(&mut s, ": ");
                        append_str(&mut s, r.as_str());
                    },
                    None => {
                        assert(s@ == s@ + Seq::<char>::empty());
                    },
                }
                s
            },
            ObservationControlError::UnsupportedCapability { provider, capability } => {
                let mut s = owned("provider ");
                append_str(&mut s, provider.as_str());
                append_str(&mut s, " does not support observation capability ");
                append_str(&mut s, capability.as_str());
                s
            },
            ObservationControlError::Provider(p) => p.message(),
            ObservationControlError::InvalidObservation(v) => v.message(),
            ObservationControlError::SupersededEvidence { resource, evidence_id } => {
                let mut s = owned("observation ");
                append_str(&mut s, evidence_id.as_str());
                append_str(&mut s, " for ");
                append_str(&mut s, resource.as_str());
                append_str(&mut s, " is older than the current authoritative state");
                s
            },
            ObservationControlError::ObservationUnavailable { resource } => {
                let mut s = owned("no authoritative observation is available for ");
                append_str(&mut s, resource.as_str());
                s
            },
        }
    }
}

/// Whether a capability is bound to the provider.
pub open spec fn bound_to(c: Capability, p: Seq<char>) -> bool {
    match c.provider {
        Some(q) => q@ == p,
        None => false,
    }
}

/// The first capability, from `i` on, that is not bound to the provider.
pub open spec fn first_unbound(caps: Seq<Capability>, p: Seq<char>, i: int) -> Option<int>
    decreases caps.len() - i,
{
    if i < 0 || i >= caps.len() {
        None
    } else if !bound_to(caps[i], p) {
        Some(i)
    } else {
        first_unbound(caps, p, i + 1)
    }
}

/// What checking an observer's identity gives, for the health and the
/// capabilities it reported: the health must name the expected provider,
/// then every capability must be bound to it; the first that is not is
/// reported.
pub open spec fn identity_outcome(
    h: ProviderHealth,
    caps: Seq<Capability>,
    expected: Seq<char>,
    r: Result<(), ObservationControlError>,
) -> bool {
    if h.provider@ != expected {
        r matches Err(ObservationControlError::ProviderIdentityMismatch { expected: e, actual: a })
            && e@ == expected && a == h.provider
    } else {
        match first_unbound(caps, expected, 0) {
            Some(i) => r matches Err(
                ObservationControlError::CapabilityProviderMismatch { provider, capability },
            ) && provider@ == expected && capability == caps[i].id,
            None => r is Ok,
        }
    }
}

/// What checking an observer's identity gives for some health and, when
/// the health names the expected provider, some capabilities that it
/// reported.
pub open spec fn identity_result<O: Observer + ?Sized>(
    observer: &O,
    expected: Seq<char>,
    r: Result<(), ObservationControlError>,
) -> bool {
    exists|h: ProviderHealth| #[trigger] call_ensures(O::health, (observer,), h) && (if h.provider@
        != expected {
        identity_outcome(h, Seq::empty(), expected, r)
    } else {
        exists|caps: Vec<Capability>| #[trigger] call_ensures(O::observation_capabilities, (observer,), caps)
            && identity_outcome(h, caps@, expected, r)
    })
}

/// Checks that an observer reports health and capabilities only for the
/// identity it is registered under.
fn validate_observer_identity<O: Observer + ?Sized>(observer: &O, expected: &ProviderId) -> (r: Result<(), ObservationControlError>)
    ensures
        identity_result(observer, expected@, r),
        match r {
            Ok(()) => true,
            Err(ObservationControlError::ProviderIdentityMismatch { expected: e, .. }) => e@ == expected@,
            Err(ObservationControlError::CapabilityProviderMismatch { provider, .. }) => provider@ == expected@,
            Err(_) => false,
        },
{
    let health = observer.health();
    if !health.provider.same(expected) {
        let ghost h = health;
        return Err(ObservationControlError::ProviderIdentityMismatch {
            expected: expected.clone(),
            actual: health.provider,
        });
    }
    let capabilities = observer.observation_capabilities();
    let mut i: usize = 0;
    while i < capabilities.len()
        invariant
            i <= capabilities@.len(),
            first_unbound(capabilities@, expected@, 0) == first_unbound(capabilities@, expected@, i as int),
            health.provider@ == expected@,
            call_ensures(O::health, (observer,), health),
            call_ensures(O::observation_capabilities, (observer,), capabilities),
        decreases capabilities.len() - i,
    {
        let bound = match &capabilities[i].provider {
            Some(p) => p.same(expected),
            None => false,
        };
        if !bound {
            let capability = capabilities[i].id.clone();
            let err = ObservationControlError::CapabilityProviderMismatch {
                provider: expected.clone(),
                capability,
            };
            proof {
                assert(!bound_to(capabilities@[i as int], expected@));
                assert(first_unbound(capabilities@, expected@, i as int) == Some(i as int));
                assert(identity_outcome(health, capabilities@, expected@, Err(err)));
            }
            return Err(err);
        }
        i = i + 1;
    }
    Ok(())
}

/// Whether health reports are sorted by provider.
pub open spec fn healths_sorted(s: Seq<ProviderHealth>) -> bool {
    forall|i: int, j: int| 0 <= i < j < s.len() ==> !text_lt(#[trigger] s[j].provider@, #[trigger] s[i].provider@)
}

/// The sort key of a capability: its identifier, then its provider, none first.
pub open spec fn capability_before(a: Capability, b: Capability) -> bool {
    text_lt(a.id@, b.id@) || (a.id@ == b.id@ && match (a.provider, b.provider) {
        (None, Some(_)) => true,
        (Some(x), Some(y)) => text_lt(x@, y@),
        _ => false,
    })
}

/// Whether capabilities are sorted by identifier, then provider.
pub open spec fn capabilities_sorted(s: Seq<Capability>) -> bool {
    forall|i: int, j: int| 0 <= i < j < s.len() ==> !capability_before(#[trigger] s[j], #[trigger] s[i])
}

/// An observer and the identity it is registered under.
struct Registration<O: Observer> {
    provider: ProviderId,
    observer: O,
}

/// The identities of registrations, in order.
spec fn registered_ids<O: Observer>(s: Seq<Registration<O>>) -> Seq<Seq<char>> {
    Seq::new(s.len(), |i: int| s[i].provider@)
}

/// The provider, resource and capability an observation is asked of.
pub type Route = (Seq<char>, Seq<char>, Seq<char>);

/// The route of an observation request.
pub open spec fn route_of(request: ObservationRequest) -> Route {
    (request.provider@, request.resource@, request.capability@)
}

/// Whether `o` is a valid answer on `route` that is current at `now`.
pub open spec fn current_answer(route: Route, now_unix_ms: u64, o: EnvelopeModel) -> bool {
    &&& envelope_fault(o, route.0, route.1, route.2) is None
    &&& freshness(o.observed_at, o.valid_for, now_unix_ms) == FreshnessState::Current
}

/// What observing `route` at `now` gives, from the registered providers
/// and the graph and latest observations before to those after: an unknown
/// provider is refused; an accepted observation is a current valid answer
/// recorded as current state and made the latest of its resource; superseded
/// evidence is recorded as history only; any other refusal changes nothing.
pub open spec fn observe_outcome(
    providers: Seq<Seq<char>>,
    old_nodes: Seq<(Seq<char>, NodeModel)>,
    old_edges: Seq<EdgeModel>,
    old_latest: Seq<(Seq<char>, EnvelopeModel)>,
    new_nodes: Seq<(Seq<char>, NodeModel)>,
    new_edges: Seq<EdgeModel>,
    new_latest: Seq<(Seq<char>, EnvelopeModel)>,
    route: Route,
    now_unix_ms: u64,
    r: Result<ObservationResponse, ObservationControlError>,
) -> bool {
    &&& !providers.contains(route.0) ==> (r matches Err(
        ObservationControlError::UnknownProvider { provider },
    ) && provider@ == route.0)
    &&& r is Ok ==> {
        let o = r->Ok_0.observation@;
        &&& providers.contains(route.0)
        &&& current_answer(route, now_unix_ms, o)
        &&& r->Ok_0.freshness == FreshnessState::Current
        &&& records_observation(
            old_nodes,
            old_edges,
            new_nodes,
            new_edges,
            o,
            FreshnessState::Current,
            ObservationRecordOutcome::CurrentStateUpdated,
        )
        &&& forall|k: Seq<char>| #[trigger] lookup(new_latest, k) == if k == route.1 {
            Some(o)
        } else {
            lookup(old_latest, k)
        }
    }
    &&& r matches Err(ObservationControlError::SupersededEvidence { resource, evidence_id }) ==> {
        &&& resource@ == route.1
        &&& new_latest == old_latest
        &&& exists|o: EnvelopeModel|
            {
                &&& #[trigger] current_answer(route, now_unix_ms, o)
                &&& evidence_id@ == evidence_id_spec(o.provider, o.resource, o.capability, o.observed_at, o.sequence)
                &&& records_observation(
                    old_nodes,
                    old_edges,
                    new_nodes,
                    new_edges,
                    o,
                    FreshnessState::Current,
                    ObservationRecordOutcome::HistoricalEvidenceRetained,
                )
            }
    }
    &&& r is Err && !(r->Err_0 is SupersededEvidence) ==> {
        &&& new_nodes == old_nodes
        &&& new_edges == old_edges
        &&& new_latest == old_latest
    }
}

/// The refusal a health report gives: an unavailable provider, with the
/// reason it reported.
pub open spec fn health_refusal(request: ObservationRequest, h: ProviderHealth) -> Option<ObservationControlError> {
    if h.availability == ProviderAvailability::Unavailable {
        Some(ObservationControlError::ProviderUnavailable { provider: request.provider, reason: h.reason })
    } else {
        None
    }
}

/// What a provider's answer to a request gives at `now`: its error, an
/// envelope that does not answer the request or is not current, or the
/// accepted envelope.
pub open spec fn answer_result(
    request: ObservationRequest,
    now_unix_ms: u64,
    a: Result<ObservationEnvelope, ProviderError>,
) -> Result<ObservationEnvelope, ObservationControlError> {
    match a {
        Err(e) => Err(ObservationControlError::Provider(e)),
        Ok(o) => match envelope_fault(o@, request.provider@, request.resource@, request.capability@) {
            Some(v) => Err(ObservationControlError::InvalidObservation(v)),
            None => match freshness(o.observed_at_unix_ms, o.valid_for_ms, now_unix_ms) {
                FreshnessState::Current => Ok(o),
                FreshnessState::Stale => Err(
                    ObservationControlError::InvalidObservation(ObservationValidationError::StaleEvidence),
                ),
                FreshnessState::Future => Err(
                    ObservationControlError::InvalidObservation(ObservationValidationError::FutureEvidence),
                ),
            },
        },
    }
}

/// The refusal a health report gives, if any.
pub fn health_step(request: &ObservationRequest, health: ProviderHealth) -> (r: Option<ObservationControlError>)
    ensures
        r == health_refusal(*request, health),
{
    match health.availability {
        ProviderAvailability::Unavailable => Some(ObservationControlError::ProviderUnavailable {
            provider: request.provider.clone(),
            reason: health.reason,
        }),
        _ => None,
    }
}

/// Decides a provider's answer to a request at `now`.
pub fn answer_step(
    request: &ObservationRequest,
    now_unix_ms: u64,
    answer: Result<ObservationEnvelope, ProviderError>,
) -> (r: Result<ObservationEnvelope, ObservationControlError>)
    ensures
        r == answer_result(*request, now_unix_ms, answer),
{
    let observation = match answer {
        Ok(o) => o,
        Err(e) => {
            return Err(ObservationControlError::Provider(e));
        },
    };
    match observation.validate(&request.provider, &request.resource, &request.capability) {
        Err(e) => {
            return Err(ObservationControlError::InvalidObservation(e));
        },
        Ok(()) => {},
    }
    match observation.require_current(now_unix_ms) {
        Err(e) => {
            return Err(ObservationControlError::InvalidObservation(e));
        },
        Ok(()) => {},
    }
    Ok(observation)
}

/// What an observer's answers decide for a request at `now`, before the
/// graph: its identity check's refusal; then, for the health it reports,
/// an unavailable provider; then, whether it supports the capability; then
/// its answer to the request's resource and capability.
pub open spec fn observed_decision<O: Observer>(
    obs: &O,
    request: ObservationRequest,
    now_unix_ms: u64,
    d: Result<ObservationEnvelope, ObservationControlError>,
) -> bool {
    exists|id_r: Result<(), ObservationControlError>| #[trigger] identity_result(obs, request.provider@, id_r) && match id_r {
        Err(e) => d == Err::<ObservationEnvelope, ObservationControlError>(e),
        Ok(()) => exists|h: ProviderHealth| #[trigger] call_ensures(O::health, (obs,), h) && match health_refusal(request, h) {
            Some(e) => d == Err::<ObservationEnvelope, ObservationControlError>(e),
            None => exists|s: bool| #[trigger] call_ensures(O::supports_observation, (obs, &request.capability), s) && if !s {
                d == Err::<ObservationEnvelope, ObservationControlError>(ObservationControlError::UnsupportedCapability {
                    provider: request.provider,
                    capability: request.capability,
                })
            } else {
                exists|a: Result<ObservationEnvelope, ProviderError>| #[trigger] call_ensures(
                    O::observe_authoritative,
                    (obs, &request.resource, &request.capability),
                    a,
                ) && d == answer_result(request, now_unix_ms, a)
            },
        },
    }
}

/// Every latest observation is of the resource it is kept under, and the
/// graph's node for that resource records it as current state.
pub open spec fn latest_recorded(latest: Seq<(Seq<char>, EnvelopeModel)>, nodes: Seq<(Seq<char>, NodeModel)>) -> bool {
    forall|k: Seq<char>| #[trigger] lookup(latest, k) is Some ==> {
        let e = lookup(latest, k)->0;
        &&& e.resource == k
        &&& lookup(nodes, node_key(resource_node(e))) is Some
        &&& node_is(
            lookup(nodes, node_key(resource_node(e)))->0,
            resource_node(e),
            resource_pairs(e, FreshnessState::Current),
        )
    }
}

/// Recording a current observation keeps the latest observations recorded
/// in the graph: unchanged when the evidence was superseded, and with the
/// observation made the latest of its resource when it updated the state.
proof fn lemma_latest_kept(
    latest: Seq<(Seq<char>, EnvelopeModel)>,
    new_latest: Seq<(Seq<char>, EnvelopeModel)>,
    old_nodes: Seq<(Seq<char>, NodeModel)>,
    old_edges: Seq<EdgeModel>,
    new_nodes: Seq<(Seq<char>, NodeModel)>,
    new_edges: Seq<EdgeModel>,
    o: EnvelopeModel,
    outcome: ObservationRecordOutcome,
)
    requires
        latest_recorded(latest, old_nodes),
        records_observation(old_nodes, old_edges, new_nodes, new_edges, o, FreshnessState::Current, outcome),
        outcome == ObservationRecordOutcome::HistoricalEvidenceRetained ==> new_latest == latest,
        outcome == ObservationRecordOutcome::CurrentStateUpdated ==> forall|k: Seq<char>|
            #[trigger] lookup(new_latest, k) == if k == o.resource {
                Some(o)
            } else {
                lookup(latest, k)
            },
    ensures
        latest_recorded(new_latest, new_nodes),
{
    assert forall|k: Seq<char>| #[trigger] lookup(new_latest, k) is Some implies {
        let e = lookup(new_latest, k)->0;
        &&& e.resource == k
        &&& lookup(new_nodes, node_key(resource_node(e))) is Some
        &&& node_is(
            lookup(new_nodes, node_key(resource_node(e)))->0,
            resource_node(e),
            resource_pairs(e, FreshnessState::Current),
        )
    } by {
        let e = lookup(new_latest, k)->0;
        let ek = node_key(resource_node(e));
        if outcome == ObservationRecordOutcome::CurrentStateUpdated && k == o.resource {
        } else {
            assert(lookup(latest, k) is Some);
            assert(lookup(latest, k)->0 == e);
            if ek == node_key(provider_node(o)) {
                lemma_node_key_injective(resource_node(e), provider_node(o));
            } else if ek == node_key(capability_node(o)) {
                lemma_node_key_injective(resource_node(e), capability_node(o));
            } else if ek == node_key(evidence_node(o)) {
                lemma_node_key_injective(resource_node(e), evidence_node(o));
            } else if ek == node_key(resource_node(o)) {
                lemma_node_key_injective(resource_node(e), resource_node(o));
            }
        }
    }
}

/// Read-only coordinator of authoritative observers. It owns no mutation
/// provider or executor.
pub struct ObservationCoordinator<O: Observer = Box<dyn Observer>> {
    observers: Vec<Registration<O>>,
    graph: SystemGraph,
    latest: TextMap<ObservationEnvelope>,
}

/// What observing `request` at `now` does to a coordinator, leaving `after`
/// and returning `r`: an unregistered provider is refused; a registered
/// provider's observer is asked, and the answer it gives decides the result
/// as `observed_decision` says; the latest observations stay recorded in the
/// graph.
pub open spec fn observe_result<O: Observer>(
    before: ObservationCoordinator<O>,
    after: ObservationCoordinator<O>,
    request: ObservationRequest,
    now: u64,
    r: Result<ObservationResponse, ObservationControlError>,
) -> bool {
    &&& after.providers_spec() == before.providers_spec()
    &&& observe_outcome(
        before.providers_spec(),
        before.graph_nodes(),
        before.graph_edges(),
        before.latest_spec(),
        after.graph_nodes(),
        after.graph_edges(),
        after.latest_spec(),
        route_of(request),
        now,
        r,
    )
    &&& before.providers_spec().contains(request.provider@) ==> exists|
        k: int,
        d: Result<ObservationEnvelope, ObservationControlError>,
    |
        0 <= k < before.observers_spec().len() && before.providers_spec()[k] == request.provider@
            && #[trigger] observed_decision(&before.observers_spec()[k], request, now, d)
            && match d {
            Err(e) => r == Err::<ObservationResponse, ObservationControlError>(e),
            Ok(o) => {
                &&& lookup(before.latest_spec(), request.resource@) matches Some(cur) ==> (r is Ok)
                    == newer_evidence(cur, o@)
                &&& {
                ||| r matches Ok(resp) && resp.observation == o
                ||| r matches Err(ObservationControlError::SupersededEvidence { resource, evidence_id })
                    && resource == request.resource && evidence_id@ == evidence_id_spec(
                    o@.provider,
                    o@.resource,
                    o@.capability,
                    o@.observed_at,
                    o@.sequence,
                ) && records_observation(
                    before.graph_nodes(),
                    before.graph_edges(),
                    after.graph_nodes(),
                    after.graph_edges(),
                    o@,
                    FreshnessState::Current,
                    ObservationRecordOutcome::HistoricalEvidenceRetained,
                )
                }
            },
        }
    &&& latest_recorded(after.latest_spec(), after.graph_nodes())
}

impl<O: Observer> ObservationCoordinator<O> {
    #[verifier::type_invariant]
    closed spec fn inv(self) -> bool {
        latest_recorded(self.latest@, self.graph.nodes_spec())
    }

    /// Registered provider identities, in registration order.
    pub closed spec fn providers_spec(self) -> Seq<Seq<char>> {
        registered_ids(self.observers@)
    }

    /// Registered observers, in registration order.
    pub closed spec fn observers_spec(self) -> Seq<O> {
        self.observers@.map_values(|r: Registration<O>| r.observer)
    }

    /// The graph's nodes.
    pub closed spec fn graph_nodes(self) -> Seq<(Seq<char>, NodeModel)> {
        self.graph.nodes_spec()
    }

    /// The graph's edges.
    pub closed spec fn graph_edges(self) -> Seq<EdgeModel> {
        self.graph.edges_spec()
    }

    /// The latest current observation of each resource.
    pub closed spec fn latest_spec(self) -> Seq<(Seq<char>, EnvelopeModel)> {
        self.latest@
    }

    /// A coordinator without observers or evidence.
    pub fn new() -> (r: Self)
        ensures
            r.providers_spec().len() == 0,
            r.graph_nodes().len() == 0,
            r.graph_edges().len() == 0,
            r.latest_spec().len() == 0,
    {
        let c = ObservationCoordinator {
            observers: Vec::new(),
            graph: SystemGraph::new(),
            latest: TextMap::new(),
        };
        assert(registered_ids::<O>(c.observers@) =~= Seq::<Seq<char>>::empty());
        c
    }

    /// Position of a registered provider.
    fn find(&self, provider: &ProviderId) -> (r: Option<usize>)
        ensures
            match r {
                Some(i) => i < self.observers@.len() && self.observers@[i as int].provider@ == provider@,
                None => !self.providers_spec().contains(provider@),
            },
    {
        let mut i: usize = 0;
        while i < self.observers.len()
            invariant
                i <= self.observers@.len(),
                forall|j: int| 0 <= j < i ==> self.observers@[j].provider@ != provider@,
            decreases self.observers@.len() - i,
        {
            if self.observers[i].provider.same(provider) {
                return Some(i);
            }
            i = i + 1;
        }
        assert(!registered_ids(self.observers@).contains(provider@)) by {
            if registered_ids(self.observers@).contains(provider@) {
                let j = choose|j: int| 0 <= j < registered_ids(self.observers@).len() && #[trigger] registered_ids(self.observers@)[j] == provider@;
                assert(self.observers@[j].provider@ == provider@);
            }
        }
        None
    }

    /// Registers an observer under the identity it reports, refusing a
    /// second observer for one identity and an observer whose health or
    /// capabilities name another identity.
    pub fn register_observer(&mut self, observer: O) -> (r: Result<(), ObservationControlError>)
        ensures
            final(self).graph_nodes() == old(self).graph_nodes(),
            final(self).graph_edges() == old(self).graph_edges(),
            final(self).latest_spec() == old(self).latest_spec(),
            match r {
                Ok(()) => exists|p: ProviderId| {
                    &&& #[trigger] call_ensures(O::observer_id, (&observer,), p)
                    &&& !old(self).providers_spec().contains(p@)
                    &&& identity_result(&observer, p@, Ok(()))
                    &&& final(self).providers_spec() == old(self).providers_spec().push(p@)
                    &&& final(self).observers_spec() == old(self).observers_spec().push(observer)
                },
                Err(ObservationControlError::DuplicateProvider { provider }) => {
                    &&& call_ensures(O::observer_id, (&observer,), provider)
                    &&& old(self).providers_spec().contains(provider@)
                    &&& final(self).providers_spec() == old(self).providers_spec()
                    &&& final(self).observers_spec() == old(self).observers_spec()
                },
                Err(e) => {
                    &&& exists|p: ProviderId| #[trigger] call_ensures(O::observer_id, (&observer,), p)
                        && !old(self).providers_spec().contains(p@) && identity_result(&observer, p@, Err(e))
                    &&& final(self).providers_spec() == old(self).providers_spec()
                    &&& final(self).observers_spec() == old(self).observers_spec()
                },
            },
    {
        let provider = observer.observer_id();
        match self.find(&provider) {
            Some(i) => {
                assert(registered_ids(self.observers@)[i as int] == provider@);
                return Err(ObservationControlError::DuplicateProvider { provider });
            },
            None => {},
        }
        match validate_observer_identity(&observer, &provider) {
            Err(e) => {
                return Err(e);
            },
            Ok(()) => {},
        }
        let ghost p = provider@;
        let ghost o = observer;
        let mut taken = ObservationCoordinator::new();
        std::mem::swap(&mut taken, self);
        proof {
            use_type_invariant(&taken);
        }
        let ObservationCoordinator { mut observers, graph, latest } = taken;
        observers.push(Registration { provider, observer });
        *self = ObservationCoordinator { observers, graph, latest };
        assert(registered_ids(self.observers@) =~= registered_ids(old(self).observers@).push(p));
        assert(self.observers_spec() =~= old(self).observers_spec().push(o));
        Ok(())
    }

    /// Observes one resource through its registered provider at `now`. The
    /// evidence becomes current only when the provider is known, consistent,
    /// available and supports the capability, the envelope matches the
    /// request and is current, and it is newer than the recorded state.
    pub fn observe(&mut self, request: &ObservationRequest, now_unix_ms: u64) -> (r: Result<ObservationResponse, ObservationControlError>)
        ensures
            observe_result(*old(self), *final(self), *request, now_unix_ms, r),
    {
        proof {
            use_type_invariant(&*self);
        }
        let i = match self.find(&request.provider) {
            Some(i) => i,
            None => {
                return Err(ObservationControlError::UnknownProvider { provider: request.provider.clone() });
            },
        };
        assert(registered_ids(self.observers@)[i as int] == request.provider@);
        let observer = &self.observers[i].observer;
        let ghost k = i as int;
        assert(self.observers_spec()[k] == *observer);
        assert(self.providers_spec()[k] == request.provider@);
        let id_r = validate_observer_identity(observer, &request.provider);
        let ghost id_g = id_r;
        match id_r {
            Err(e) => {
                assert(observed_decision(observer, *request, now_unix_ms, Err(e)));
                return Err(e);
            },
            Ok(()) => {},
        }
        let health = observer.health();
        let ghost h = health;
        let refusal = health_step(request, health);
        match refusal {
            Some(e) => {
                assert(observed_decision(observer, *request, now_unix_ms, Err(e)));
                return Err(e);
            },
            None => {},
        }
        let supports = observer.supports_observation(&request.capability);
        if !supports {
            let e = ObservationControlError::UnsupportedCapability {
                provider: request.provider.clone(),
                capability: request.capability.clone(),
            };
            assert(call_ensures(O::supports_observation, (observer, &request.capability), supports));
            assert(observed_decision(observer, *request, now_unix_ms, Err(e)));
            return Err(e);
        }
        let answer = observer.observe_authoritative(&request.resource, &request.capability);
        let ghost a = answer;
        let decided = answer_step(request, now_unix_ms, answer);
        proof {
            assert(call_ensures(O::observe_authoritative, (observer, &request.resource, &request.capability), a));
            assert(observed_decision(observer, *request, now_unix_ms, decided));
        }
        let observation = match decided {
            Ok(o) => o,
            Err(e) => {
                return Err(e);
            },
        };
        let mut taken = ObservationCoordinator::new();
        std::mem::swap(&mut taken, self);
        proof {
            use_type_invariant(&taken);
        }
        let ObservationCoordinator { observers, mut graph, mut latest } = taken;
        let ghost old_latest = latest@;
        let outcome = graph.record_observation(&observation, FreshnessState::Current);
        proof {
            if let Some(cur) = lookup(old_latest, request.resource@) {
                lemma_resource_node_newer(
                    lookup(old(self).graph_nodes(), node_key(resource_node(cur)))->0,
                    cur,
                    FreshnessState::Current,
                    observation@,
                );
            }
        }
        match outcome {
            ObservationRecordOutcome::HistoricalEvidenceRetained => {
                proof {
                    lemma_latest_kept(
                        old_latest,
                        latest@,
                        old(self).graph_nodes(),
                        old(self).graph_edges(),
                        graph.nodes_spec(),
                        graph.edges_spec(),
                        observation@,
                        outcome,
                    );
                }
                *self = ObservationCoordinator { observers, graph, latest };
                let evidence_id = observation.evidence_id();
                let resource = request.resource.clone();
                assert(current_answer(route_of(*request), now_unix_ms, observation@));
                return Err(ObservationControlError::SupersededEvidence { resource, evidence_id });
            },
            ObservationRecordOutcome::CurrentStateUpdated => {},
        }
        latest.insert(owned(request.resource.as_str()), observation.clone());
        proof {
            lemma_latest_kept(
                old_latest,
                latest@,
                old(self).graph_nodes(),
                old(self).graph_edges(),
                graph.nodes_spec(),
                graph.edges_spec(),
                observation@,
                outcome,
            );
        }
        *self = ObservationCoordinator { observers, graph, latest };
        Ok(ObservationResponse { observation, freshness: FreshnessState::Current })
    }

    /// Health and capabilities of every observer, each identity checked,
    /// sorted by provider and by capability. The snapshot holds exactly one
    /// health report per observer and every capability each reported; the
    /// first observer whose identity check fails refuses the snapshot.
    pub fn provider_snapshot(&self) -> (r: Result<ProviderSnapshot, ObservationControlError>)
        ensures
            match r {
                Ok(s) => {
                    &&& forall|k: int| 0 <= k < self.observers_spec().len() ==> #[trigger] identity_result(
                        &self.observers_spec()[k],
                        self.providers_spec()[k],
                        Ok(()),
                    )
                    &&& healths_sorted(s.providers@)
                    &&& capabilities_sorted(s.capabilities@)
                    &&& exists|hs: Seq<ProviderHealth>, vs: Seq<Vec<Capability>>|
                        #[trigger] reports_of(self.observers_spec(), hs, vs)
                            && s.providers@.to_multiset() == hs.to_multiset()
                            && s.capabilities@.to_multiset() == concat_capabilities(vs).to_multiset()
                },
                Err(e) => {
                    &&& exists|k: int| 0 <= k < self.observers_spec().len() && #[trigger] identity_result(
                        &self.observers_spec()[k],
                        self.providers_spec()[k],
                        Err(e),
                    )
                    &&& match e {
                        ObservationControlError::ProviderIdentityMismatch { expected, .. } => self.providers_spec().contains(expected@),
                        ObservationControlError::CapabilityProviderMismatch { provider, .. } => self.providers_spec().contains(provider@),
                        _ => false,
                    }
                },
            },
    {
        let ghost obs = self.observers_spec();
        let mut providers: Vec<ProviderHealth> = Vec::new();
        let mut capabilities: Vec<Capability> = Vec::new();
        let ghost mut hs: Seq<ProviderHealth> = Seq::empty();
        let ghost mut vs: Seq<Vec<Capability>> = Seq::empty();
        let mut i: usize = 0;
        proof {
            broadcast use vstd::seq_lib::group_to_multiset_ensures;
            assert(providers@ =~= Seq::<ProviderHealth>::empty());
            assert(capabilities@ =~= Seq::<Capability>::empty());
        }
        while i < self.observers.len()
            invariant
                obs == self.observers_spec(),
                obs.len() == self.observers@.len(),
                i <= self.observers@.len(),
                healths_sorted(providers@),
                capabilities_sorted(capabilities@),
                reports_of(obs.take(i as int), hs, vs),
                providers@.to_multiset() == hs.to_multiset(),
                capabilities@.to_multiset() == concat_capabilities(vs).to_multiset(),
                forall|k: int| 0 <= k < i ==> #[trigger] identity_result(&obs[k], self.providers_spec()[k], Ok(())),
            decreases self.observers@.len() - i,
        {
            let registration = &self.observers[i];
            proof {
                assert(obs[i as int] == registration.observer);
            }
            match validate_observer_identity(&registration.observer, &registration.provider) {
                Err(e) => {
                    assert(registered_ids(self.observers@)[i as int] == self.observers@[i as int].provider@);
                    assert(identity_result(&obs[i as int], self.providers_spec()[i as int], Err(e)));
                    return Err(e);
                },
                Ok(()) => {
                    assert(registered_ids(self.observers@)[i as int] == self.observers@[i as int].provider@);
                    assert(identity_result(&obs[i as int], self.providers_spec()[i as int], Ok(())));
                },
            }
            let health = registration.observer.health();
            let ghost h = health;
            let ghost before_p = providers@;
            insert_health(&mut providers, health);
            let caps = registration.observer.observation_capabilities();
            let ghost before_c = capabilities@;
            let mut j: usize = 0;
            proof {
                assert(caps@.take(0) =~= Seq::<Capability>::empty());
                assert(before_c + caps@.take(0) =~= before_c);
            }
            while j < caps.len()
                invariant
                    j <= caps@.len(),
                    capabilities_sorted(capabilities@),
                    capabilities@.to_multiset() == (before_c + caps@.take(j as int)).to_multiset(),
                    before_c.to_multiset() == concat_capabilities(vs).to_multiset(),
                decreases caps@.len() - j,
            {
                let c = caps[j].clone();
                let ghost prior = capabilities@;
                insert_capability(&mut capabilities, c);
                proof {
                    broadcast use vstd::seq_lib::group_to_multiset_ensures;
                    assert(before_c + caps@.take(j + 1) =~= (before_c + caps@.take(j as int)).push(caps@[j as int]));
                }
                j = j + 1;
            }
            proof {
                broadcast use vstd::seq_lib::group_to_multiset_ensures;
                assert(caps@.take(caps@.len() as int) =~= caps@);
                let hs1 = hs.push(h);
                let vs1 = vs.push(caps);
                assert(vs1.drop_last() =~= vs);
                assert(concat_capabilities(vs1) == concat_capabilities(vs) + caps@);
                vstd::seq_lib::lemma_multiset_commutative(concat_capabilities(vs), caps@);
                vstd::seq_lib::lemma_multiset_commutative(before_c, caps@);
                assert(obs.take(i + 1) =~= obs.take(i as int).push(obs[i as int]));
                assert forall|k: int| 0 <= k < obs.take(i + 1).len() implies #[trigger] call_ensures(
                    O::health,
                    (&obs.take(i + 1)[k],),
                    hs1[k],
                ) by {
                    if k < i {
                        assert(obs.take(i + 1)[k] == obs.take(i as int)[k]);
                    }
                }
                assert forall|k: int| 0 <= k < obs.take(i + 1).len() implies #[trigger] call_ensures(
                    O::observation_capabilities,
                    (&obs.take(i + 1)[k],),
                    vs1[k],
                ) by {
                    if k < i {
                        assert(obs.take(i + 1)[k] == obs.take(i as int)[k]);
                    }
                }
                hs = hs1;
                vs = vs1;
            }
            i = i + 1;
        }
        proof {
            assert(obs.take(i as int) =~= obs);
        }
        Ok(ProviderSnapshot { providers, capabilities })
    }

    /// The graph and the provider snapshot.
    pub fn system_snapshot(&self) -> (r: Result<ObservationSystemSnapshot, ObservationControlError>)
        ensures
            match r {
                Ok(s) => {
                    &&& s.graph.nodes_spec() == self.graph_nodes()
                    &&& s.graph.edges_spec() == self.graph_edges()
                    &&& forall|k: int| 0 <= k < self.observers_spec().len() ==> #[trigger] identity_result(
                        &self.observers_spec()[k],
                        self.providers_spec()[k],
                        Ok(()),
                    )
                    &&& healths_sorted(s.providers.providers@)
                    &&& capabilities_sorted(s.providers.capabilities@)
                    &&& exists|hs: Seq<ProviderHealth>, vs: Seq<Vec<Capability>>|
                        #[trigger] reports_of(self.observers_spec(), hs, vs)
                            && s.providers.providers@.to_multiset() == hs.to_multiset()
                            && s.providers.capabilities@.to_multiset() == concat_capabilities(vs).to_multiset()
                },
                Err(e) => {
                    &&& exists|k: int| 0 <= k < self.observers_spec().len() && #[trigger] identity_result(
                        &self.observers_spec()[k],
                        self.providers_spec()[k],
                        Err(e),
                    )
                    &&& match e {
                        ObservationControlError::ProviderIdentityMismatch { expected, .. } => self.providers_spec().contains(expected@),
                        ObservationControlError::CapabilityProviderMismatch { provider, .. } => self.providers_spec().contains(provider@),
                        _ => false,
                    }
                },
            },
    {
        let providers = match self.provider_snapshot() {
            Ok(p) => p,
            Err(e) => {
                return Err(e);
            },
        };
        Ok(ObservationSystemSnapshot { graph: self.graph.clone(), providers })
    }

    /// Explains the latest current observation of a resource at `now`.
    pub fn explain(&self, resource: &ResourceId, now_unix_ms: u64) -> (r: Result<ObservationExplanation, ObservationControlError>)
        ensures
            match lookup(self.latest_spec(), resource@) {
                None => r matches Err(ObservationControlError::ObservationUnavailable { resource: x }) && x@ == resource@,
                Some(o) => r matches Ok(e) && e.resource@ == o.resource && e.provider@ == o.provider
                    && e.capability@ == o.capability && e.freshness == freshness(o.observed_at, o.valid_for, now_unix_ms)
                    && e.evidence_id@ == evidence_id_spec(o.provider, o.resource, o.capability, o.observed_at, o.sequence)
                    && e.authority@ == authority_name(o.authority),
            },
    {
        match self.latest.get(resource.as_str()) {
            None => Err(ObservationControlError::ObservationUnavailable { resource: resource.clone() }),
            Some(observation) => Ok(ObservationExplanation {
                resource: observation.resource.clone(),
                provider: observation.provider.clone(),
                capability: observation.capability.clone(),
                freshness: observation.freshness_at(now_unix_ms),
                evidence_id: observation.evidence_id(),
                authority: owned(observation.authority.as_str()),
            }),
        }
    }

    /// The graph of recorded evidence.
    pub fn graph(&self) -> (r: &SystemGraph)
        ensures
            r.nodes_spec() == self.graph_nodes(),
            r.edges_spec() == self.graph_edges(),
    {
        &self.graph
    }

    /// The latest current observation of a resource.
    pub fn latest_observation(&self, resource: &ResourceId) -> (r: Option<&ObservationEnvelope>)
        ensures
            match r {
                Some(o) => lookup(self.latest_spec(), resource@) == Some(o@),
                None => lookup(self.latest_spec(), resource@) is None,
            },
    {
        self.latest.get(resource.as_str())
    }
}

impl<O: Observer> Default for ObservationCoordinator<O> {
    fn default() -> (r: Self)
        ensures
            r.providers_spec().len() == 0,
            r.graph_nodes().len() == 0,
            r.graph_edges().len() == 0,
            r.latest_spec().len() == 0,
    {
        Self::new()
    }
}

/// Whether `a` sorts strictly before `b` by provider.
fn health_before(a: &ProviderHealth, b: &ProviderHealth) -> (r: bool)
    ensures
        r == text_lt(a.provider@, b.provider@),
{
    match compare_text(a.provider.as_str(), b.provider.as_str()) {
        KeyOrder::Less => true,
        _ => {
            proof {
                crate::keyed::lemma_text_lt_irreflexive(a.provider@);
            }
            false
        },
    }
}

/// Inserts a health report after every report that does not sort after it.
fn insert_health(v: &mut Vec<ProviderHealth>, h: ProviderHealth)
    requires
        healths_sorted(old(v)@),
    ensures
        healths_sorted(final(v)@),
        final(v)@.len() == old(v)@.len() + 1,
        final(v)@.to_multiset() == old(v)@.to_multiset().insert(h),
{
    let mut i: usize = v.len();
    while i > 0 && health_before(&h, &v[i - 1])
        invariant
            i <= v@.len(),
            healths_sorted(v@),
            forall|j: int| i <= j < v@.len() ==> text_lt(h.provider@, #[trigger] v@[j].provider@),
        decreases i,
    {
        i = i - 1;
    }
    proof {
        if i > 0 {
            assert(!text_lt(h.provider@, v@[i - 1].provider@));
        }
    }
    let ghost before = v@;
    let ghost x = h;
    v.insert(i, h);
    proof {
        lemma_insert_multiset(before, i as int, x);
        assert forall|a: int, b: int| 0 <= a < b < v@.len() implies !text_lt(#[trigger] v@[b].provider@, #[trigger] v@[a].provider@) by {
            if b < i {
                assert(v@[a] == before[a] && v@[b] == before[b]);
            } else if b == i {
                assert(v@[a] == before[a]);
                if a < i - 1 {
                    assert(!text_lt(before[i - 1].provider@, before[a].provider@));
                    if text_lt(h.provider@, before[a].provider@) {
                        lemma_text_lt_before_not_after(h.provider@, before[a].provider@, before[i - 1].provider@);
                    }
                }
            } else if a == i {
                assert(v@[b] == before[b - 1]);
                crate::keyed::lemma_text_lt_asymmetric(h.provider@, before[b - 1].provider@);
            } else if a < i {
                assert(v@[a] == before[a] && v@[b] == before[b - 1]);
            } else {
                assert(v@[a] == before[a - 1] && v@[b] == before[b - 1]);
            }
        }
    }
}

/// Whether capability `a` sorts strictly before `b`.
fn cap_before(a: &Capability, b: &Capability) -> (r: bool)
    ensures
        r == capability_before(*a, *b),
{
    match compare_text(a.id.as_str(), b.id.as_str()) {
        KeyOrder::Less => true,
        KeyOrder::Greater => false,
        KeyOrder::Same => {
            proof {
                crate::keyed::lemma_text_lt_irreflexive(a.id@);
            }
            match (&a.provider, &b.provider) {
                (None, Some(_)) => true,
                (Some(x), Some(y)) => match compare_text(x.as_str(), y.as_str()) {
                    KeyOrder::Less => true,
                    _ => {
                        proof {
                            crate::keyed::lemma_text_lt_irreflexive(x@);
                        }
                        false
                    },
                },
                _ => false,
            }
        },
    }
}

/// Inserts a capability after every capability that does not sort after it.
fn insert_capability(v: &mut Vec<Capability>, c: Capability)
    requires
        capabilities_sorted(old(v)@),
    ensures
        capabilities_sorted(final(v)@),
        final(v)@.len() == old(v)@.len() + 1,
        final(v)@.to_multiset() == old(v)@.to_multiset().insert(c),
{
    let mut i: usize = v.len();
    while i > 0 && cap_before(&c, &v[i - 1])
        invariant
            i <= v@.len(),
            capabilities_sorted(v@),
            forall|j: int| i <= j < v@.len() ==> capability_before(c, #[trigger] v@[j]),
        decreases i,
    {
        i = i - 1;
    }
    proof {
        if i > 0 {
            assert(!capability_before(c, v@[i - 1]));
        }
    }
    let ghost before = v@;
    let ghost x = c;
    v.insert(i, c);
    proof {
        lemma_insert_multiset(before, i as int, x);
        assert forall|a: int, b: int| 0 <= a < b < v@.len() implies !capability_before(#[trigger] v@[b], #[trigger] v@[a]) by {
            if b < i {
                assert(v@[a] == before[a] && v@[b] == before[b]);
            } else if b == i {
                assert(v@[a] == before[a]);
                if a < i - 1 && capability_before(c, before[a]) {
                    lemma_capability_before_transitive(c, before[a], before[i - 1]);
                }
            } else if a == i {
                assert(v@[b] == before[b - 1]);
                lemma_capability_before_asymmetric(c, before[b - 1]);
            } else if a < i {
                assert(v@[a] == before[a] && v@[b] == before[b - 1]);
            } else {
                assert(v@[a] == before[a - 1] && v@[b] == before[b - 1]);
            }
        }
    }
}

/// Inserting an element anywhere adds it to the multiset of elements.
proof fn lemma_insert_multiset<T>(s: Seq<T>, i: int, x: T)
    requires
        0 <= i <= s.len(),
    ensures
        s.insert(i, x).to_multiset() == s.to_multiset().insert(x),
{
    broadcast use vstd::seq_lib::group_to_multiset_ensures;
    let t = s.insert(i, x);
    assert(t.remove(i) =~= s);
    assert(t[i] == x);
    assert(t.to_multiset().remove(x) == s.to_multiset());
    assert(t.to_multiset().count(x) > 0);
    assert(t.to_multiset() =~= s.to_multiset().insert(x));
}

/// The capabilities of several lists, one list after another.
pub open spec fn concat_capabilities(vs: Seq<Vec<Capability>>) -> Seq<Capability>
    decreases vs.len(),
{
    if vs.len() == 0 {
        Seq::empty()
    } else {
        concat_capabilities(vs.drop_last()) + vs.last()@
    }
}

/// What each observer reported: its health and its capabilities, from one
/// call of each.
pub open spec fn reports_of<O: Observer>(obs: Seq<O>, hs: Seq<ProviderHealth>, vs: Seq<Vec<Capability>>) -> bool {
    &&& hs.len() == obs.len()
    &&& vs.len() == obs.len()
    &&& forall|k: int| 0 <= k < obs.len() ==> #[trigger] call_ensures(O::health, (&obs[k],), hs[k])
    &&& forall|k: int| 0 <= k < obs.len() ==> #[trigger] call_ensures(O::observation_capabilities, (&obs[k],), vs[k])
}

proof fn lemma_capability_before_asymmetric(a: Capability, b: Capability)
    requires
        capability_before(a, b),
    ensures
        !capability_before(b, a),
{
    if text_lt(a.id@, b.id@) {
        crate::keyed::lemma_text_lt_asymmetric(a.id@, b.id@);
        crate::keyed::lemma_text_lt_irreflexive(a.id@);
    } else {
        crate::keyed::lemma_text_lt_irreflexive(a.id@);
        match (a.provider, b.provider) {
            (Some(x), Some(y)) => {
                crate::keyed::lemma_text_lt_asymmetric(x@, y@);
            },
            _ => {},
        }
    }
}

/// Whatever sorts before `a` sorts before every `b` that `a` does not
/// sort after.
proof fn lemma_text_lt_before_not_after(x: Seq<char>, a: Seq<char>, b: Seq<char>)
    requires
        text_lt(x, a),
        !text_lt(b, a),
    ensures
        text_lt(x, b),
{
    if a != b {
        crate::keyed::lemma_text_lt_total(a, b);
        crate::keyed::lemma_text_lt_transitive(x, a, b);
    }
}

/// The capability order is a strict weak order: whatever sorts before `a`
/// sorts before every `b` that does not sort before `a`.
proof fn lemma_capability_before_transitive(x: Capability, a: Capability, b: Capability)
    requires
        capability_before(x, a),
        !capability_before(b, a),
    ensures
        capability_before(x, b),
{
    if text_lt(x.id@, a.id@) {
        lemma_text_lt_before_not_after(x.id@, a.id@, b.id@);
    } else if a.id@ != b.id@ {
        crate::keyed::lemma_text_lt_total(a.id@, b.id@);
    } else {
        match (x.provider, a.provider, b.provider) {
            (Some(px), Some(pa), Some(pb)) => {
                lemma_text_lt_before_not_after(px@, pa@, pb@);
            },
            _ => {},
        }
    }
}

} // verus!
