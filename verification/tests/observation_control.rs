use std::collections::VecDeque;
use std::sync::Mutex;

use linura::base::{Capability, SupportLevel};
use linura::bus::{explanation_wire, observation_wire, provider_wire};
use linura::ids::{CapabilityId, ProviderId, ResourceId, ValidationError};
use linura::keyed::TextMap;
use linura::observation::{
    FreshnessState, ObservationAuthority, ObservationEnvelope, ObservedValue, ProviderAvailability,
    ProviderHealth,
};
use linura::observation_control::{answer_step, health_step, ObservationControlError, ObservationCoordinator};
use linura::protocol::ObservationRequest;
use linura::provider::{Observer, ProviderError};

fn id<T>(result: Result<T, ValidationError>) -> T {
    result.unwrap_or_else(|error| panic!("{}", error.message()))
}

struct QueueObserver {
    provider: ProviderId,
    capability: Capability,
    health: ProviderHealth,
    envelopes: Mutex<VecDeque<ObservationEnvelope>>,
}

impl QueueObserver {
    fn new(envelopes: Vec<ObservationEnvelope>) -> Self {
        let provider = id(ProviderId::new("systemd"));
        let capability_id = id(CapabilityId::new("systemd.unit.observe"));
        Self {
            capability: Capability {
                id: capability_id,
                support: SupportLevel::Supported,
                provider: Some(provider.clone()),
                reason: None,
            },
            health: ProviderHealth {
                provider: provider.clone(),
                availability: ProviderAvailability::Available,
                reason: None,
            },
            provider,
            envelopes: Mutex::new(envelopes.into()),
        }
    }
}

impl Observer for QueueObserver {
    fn observer_id(&self) -> ProviderId {
        self.provider.clone()
    }

    fn observation_capabilities(&self) -> Vec<Capability> {
        vec![self.capability.clone()]
    }

    fn health(&self) -> ProviderHealth {
        self.health.clone()
    }

    fn resources(&self) -> Result<Vec<ResourceId>, ProviderError> {
        Ok(vec![id(ResourceId::new("systemd:unit:sshd.service"))])
    }

    fn observe_authoritative(
        &self,
        _resource: &ResourceId,
        _capability: &CapabilityId,
    ) -> Result<ObservationEnvelope, ProviderError> {
        let mut envelopes = self
            .envelopes
            .lock()
            .map_err(|_| ProviderError::Internal("observer queue poisoned".into()))?;
        envelopes
            .pop_front()
            .ok_or_else(|| ProviderError::Unavailable("no queued observation".into()))
    }
}

fn envelope(observed_at_unix_ms: u64, sequence: u64, state: &str) -> ObservationEnvelope {
    let mut attributes = TextMap::new();
    attributes.insert("active_state".into(), ObservedValue::Text(state.into()));
    ObservationEnvelope {
        provider: id(ProviderId::new("systemd")),
        resource: id(ResourceId::new("systemd:unit:sshd.service")),
        capability: id(CapabilityId::new("systemd.unit.observe")),
        authority: ObservationAuthority::NativeApi,
        observed_at_unix_ms,
        valid_for_ms: 1_000,
        sequence,
        attributes,
    }
}

fn request() -> ObservationRequest {
    ObservationRequest {
        provider: id(ProviderId::new("systemd")),
        resource: id(ResourceId::new("systemd:unit:sshd.service")),
        capability: id(CapabilityId::new("systemd.unit.observe")),
    }
}

fn coordinator() -> ObservationCoordinator {
    ObservationCoordinator::new()
}

#[test]
fn records_only_valid_current_authoritative_state() {
    let mut coordinator = coordinator();
    let observer = QueueObserver::new(vec![envelope(1_000, 1, "active")]);
    assert_eq!(coordinator.register_observer(Box::new(observer)), Ok(()));
    let response = coordinator
        .observe(&request(), 1_100)
        .unwrap_or_else(|error| panic!("{:?}", error));
    assert_eq!(response.freshness, FreshnessState::Current);
    let explanation = coordinator
        .explain(&request().resource, 1_100)
        .unwrap_or_else(|error| panic!("{:?}", error));
    assert_eq!(explanation.provider.as_str(), "systemd");
    assert_eq!(coordinator.graph().nodes().len(), 4);
}

#[test]
fn late_older_evidence_cannot_replace_current_state() {
    let mut coordinator = coordinator();
    let observer = QueueObserver::new(vec![envelope(1_000, 2, "active"), envelope(900, 1, "inactive")]);
    assert_eq!(coordinator.register_observer(Box::new(observer)), Ok(()));
    let request = request();
    assert!(coordinator.observe(&request, 1_100).is_ok());
    let second = coordinator.observe(&request, 1_100);
    assert!(matches!(second, Err(ObservationControlError::SupersededEvidence { .. })));
    let latest = coordinator
        .latest_observation(&request.resource)
        .unwrap_or_else(|| panic!("current observation must remain"));
    assert_eq!(latest.sequence, 2);
}

#[test]
fn unavailable_provider_fails_closed() {
    let mut coordinator = coordinator();
    let mut observer = QueueObserver::new(vec![envelope(1_000, 1, "active")]);
    observer.health.availability = ProviderAvailability::Unavailable;
    observer.health.reason = Some("system bus service absent".into());
    assert_eq!(coordinator.register_observer(Box::new(observer)), Ok(()));
    assert!(matches!(
        coordinator.observe(&request(), 1_100),
        Err(ObservationControlError::ProviderUnavailable { .. })
    ));
}

#[test]
fn registration_rejects_unbound_capability_identity() {
    let mut observer = QueueObserver::new(vec![envelope(1_000, 1, "active")]);
    observer.capability.provider = Some(id(ProviderId::new("spoofed")));
    let mut coordinator = coordinator();
    assert!(matches!(
        coordinator.register_observer(Box::new(observer)),
        Err(ObservationControlError::CapabilityProviderMismatch { .. })
    ));
}

#[test]
fn unknown_provider_and_missing_observation_are_refused() {
    let mut coordinator = coordinator();
    assert_eq!(
        coordinator.observe(&request(), 1_100).err(),
        Some(ObservationControlError::UnknownProvider { provider: id(ProviderId::new("systemd")) })
    );
    assert!(matches!(
        coordinator.explain(&request().resource, 1_100),
        Err(ObservationControlError::ObservationUnavailable { .. })
    ));
}

#[test]
fn duplicate_registration_is_refused() {
    let mut coordinator = coordinator();
    assert_eq!(coordinator.register_observer(Box::new(QueueObserver::new(Vec::new()))), Ok(()));
    assert_eq!(
        coordinator.register_observer(Box::new(QueueObserver::new(Vec::new()))),
        Err(ObservationControlError::DuplicateProvider { provider: id(ProviderId::new("systemd")) })
    );
}

#[test]
fn stale_and_future_evidence_is_not_recorded() {
    let mut coordinator = coordinator();
    let observer = QueueObserver::new(vec![envelope(1_000, 1, "active"), envelope(5_000, 2, "active")]);
    assert_eq!(coordinator.register_observer(Box::new(observer)), Ok(()));
    assert!(matches!(
        coordinator.observe(&request(), 2_001),
        Err(ObservationControlError::InvalidObservation(_))
    ));
    assert!(matches!(
        coordinator.observe(&request(), 2_001),
        Err(ObservationControlError::InvalidObservation(_))
    ));
    assert!(coordinator.latest_observation(&request().resource).is_none());
    assert_eq!(coordinator.graph().nodes().len(), 0);
}

#[test]
fn provider_snapshot_lists_health_and_capabilities() {
    let mut coordinator = coordinator();
    assert_eq!(coordinator.register_observer(Box::new(QueueObserver::new(Vec::new()))), Ok(()));
    let snapshot = coordinator.provider_snapshot().unwrap_or_else(|error| panic!("{:?}", error));
    assert_eq!(snapshot.providers.len(), 1);
    assert_eq!(snapshot.providers[0].provider.as_str(), "systemd");
    assert_eq!(snapshot.capabilities.len(), 1);
    assert_eq!(snapshot.capabilities[0].id.as_str(), "systemd.unit.observe");
}

#[test]
fn wire_forms_carry_snapshots_observations_and_explanations() {
    let mut coordinator = coordinator();
    let observer = QueueObserver::new(vec![envelope(1_000, 7, "active")]);
    assert_eq!(coordinator.register_observer(Box::new(observer)), Ok(()));

    let snapshot = coordinator.provider_snapshot().unwrap_or_else(|error| panic!("{:?}", error));
    let (providers, capabilities) = provider_wire(&snapshot);
    assert_eq!(providers, vec![("systemd".to_string(), "available".to_string(), String::new())]);
    assert_eq!(
        capabilities,
        vec![(
            "systemd.unit.observe".to_string(),
            "systemd".to_string(),
            "supported".to_string(),
            String::new()
        )]
    );

    let response = coordinator.observe(&request(), 1_100).unwrap_or_else(|error| panic!("{:?}", error));
    let wire = observation_wire(&response);
    assert_eq!(wire.0, "systemd");
    assert_eq!(wire.1, "systemd:unit:sshd.service");
    assert_eq!(wire.2, "systemd.unit.observe");
    assert_eq!(wire.4, "current");
    assert_eq!((wire.5, wire.6, wire.7), (1_000, 1_000, 7));
    assert_eq!(wire.8, vec![("active_state".to_string(), "active".to_string())]);

    let explanation = coordinator
        .explain(&request().resource, 1_100)
        .unwrap_or_else(|error| panic!("{:?}", error));
    let wire = explanation_wire(&explanation);
    assert_eq!(wire.0, "systemd:unit:sshd.service");
    assert_eq!(wire.1, "systemd");
    assert_eq!(wire.3, "current");
    assert_eq!(wire.4, explanation.evidence_id);

    let system = coordinator.system_snapshot().unwrap_or_else(|error| panic!("{:?}", error));
    assert_eq!(system.graph.nodes().len(), 4);
    assert_eq!(system.providers.providers.len(), 1);
}

#[test]
fn answer_and_health_steps_decide_refusals() {
    let unavailable = ProviderHealth {
        provider: id(ProviderId::new("systemd")),
        availability: ProviderAvailability::Unavailable,
        reason: Some("down".into()),
    };
    assert_eq!(
        health_step(&request(), unavailable),
        Some(ObservationControlError::ProviderUnavailable {
            provider: id(ProviderId::new("systemd")),
            reason: Some("down".into())
        })
    );
    let available = ProviderHealth {
        provider: id(ProviderId::new("systemd")),
        availability: ProviderAvailability::Available,
        reason: None,
    };
    assert_eq!(health_step(&request(), available), None);
    assert!(matches!(
        answer_step(&request(), 1_100, Err(ProviderError::Internal("x".into()))),
        Err(ObservationControlError::Provider(ProviderError::Internal(m))) if m == "x"
    ));
    assert!(matches!(
        answer_step(&request(), 5_000, Ok(envelope(1_000, 1, "active"))),
        Err(ObservationControlError::InvalidObservation(_))
    ));
    assert!(matches!(
        answer_step(&request(), 1_100, Ok(envelope(1_000, 1, "active"))).map(|o| o.sequence),
        Ok(1)
    ));
}
