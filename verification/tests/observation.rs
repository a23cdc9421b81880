use linura::ids::{CapabilityId, ProviderId, ResourceId, ValidationError};
use linura::keyed::TextMap;
use linura::observation::{
    FreshnessState, ObservationAuthority, ObservationEnvelope, ObservationValidationError,
    ObservedValue, ProviderAvailability,
};

fn id<T>(result: Result<T, ValidationError>) -> T {
    result.unwrap_or_else(|error| panic!("{}", error.message()))
}

fn observation() -> ObservationEnvelope {
    let mut attributes = TextMap::new();
    attributes.insert("active_state".into(), ObservedValue::Text("active".into()));
    ObservationEnvelope {
        provider: id(ProviderId::new("systemd")),
        resource: id(ResourceId::new("systemd:unit:sshd.service")),
        capability: id(CapabilityId::new("systemd.unit.observe")),
        authority: ObservationAuthority::NativeApi,
        observed_at_unix_ms: 1_000,
        valid_for_ms: 500,
        sequence: 7,
        attributes,
    }
}

#[test]
fn freshness_is_fail_closed_outside_validity_window() {
    let observation = observation();
    assert_eq!(observation.freshness_at(999), FreshnessState::Future);
    assert_eq!(observation.freshness_at(1_500), FreshnessState::Current);
    assert_eq!(observation.freshness_at(1_501), FreshnessState::Stale);
    assert_eq!(observation.require_current(999), Err(ObservationValidationError::FutureEvidence));
    assert_eq!(observation.require_current(1_501), Err(ObservationValidationError::StaleEvidence));
}

#[test]
fn validation_rejects_resource_substitution() {
    let observation = observation();
    let provider = id(ProviderId::new("systemd"));
    let resource = id(ResourceId::new("systemd:unit:dbus.service"));
    let capability = id(CapabilityId::new("systemd.unit.observe"));
    assert_eq!(
        observation.validate(&provider, &resource, &capability),
        Err(ObservationValidationError::ResourceMismatch)
    );
}

#[test]
fn evidence_id_binds_provider_resource_capability_time_and_sequence() {
    let observation = observation();
    let original = observation.evidence_id();
    let mut other_capability = observation;
    other_capability.capability = id(CapabilityId::new("systemd.unit.metadata.observe"));
    assert_ne!(original, other_capability.evidence_id());
    assert_eq!(
        original,
        "observation:v1:7:systemd:25:systemd:unit:sshd.service:20:systemd.unit.observe:1000:7"
    );
}

#[test]
fn validation_accepts_matching_identity_and_refuses_bad_keys() {
    let mut observation = observation();
    let provider = id(ProviderId::new("systemd"));
    let resource = id(ResourceId::new("systemd:unit:sshd.service"));
    let capability = id(CapabilityId::new("systemd.unit.observe"));
    assert_eq!(observation.validate(&provider, &resource, &capability), Ok(()));
    observation.attributes.insert("bad\tkey".into(), ObservedValue::Bool(true));
    assert_eq!(
        observation.validate(&provider, &resource, &capability),
        Err(ObservationValidationError::InvalidAttributeKey)
    );
    observation.valid_for_ms = 0;
    assert_eq!(
        observation.validate(&provider, &resource, &capability),
        Err(ObservationValidationError::InvalidValidityWindow)
    );
    observation.observed_at_unix_ms = 0;
    assert_eq!(
        observation.validate(&provider, &resource, &capability),
        Err(ObservationValidationError::MissingTimestamp)
    );
}

#[test]
fn freshness_saturates_at_the_largest_time() {
    let mut observation = observation();
    observation.valid_for_ms = u64::MAX;
    assert_eq!(observation.freshness_at(u64::MAX), FreshnessState::Current);
}

#[test]
fn value_text_and_names() {
    assert_eq!(ObservedValue::Text("x".into()).to_text(), "x");
    assert_eq!(ObservedValue::Bool(false).to_text(), "false");
    assert_eq!(ObservedValue::U64(42).to_text(), "42");
    assert_eq!(ObservedValue::I64(-42).to_text(), "-42");
    assert_eq!(ObservedValue::I64(i64::MIN).to_text(), i64::MIN.to_string());
    assert_eq!(ObservationAuthority::SyntheticTest.as_str(), "synthetic-test");
    assert_eq!(ProviderAvailability::Degraded.as_str(), "degraded");
    assert_eq!(FreshnessState::Stale.as_str(), "stale");
    assert_eq!(ObservationValidationError::StaleEvidence.message(), "observation evidence is stale");
}

#[test]
fn evidence_ids_differ_when_a_field_differs() {
    let first = observation();
    assert_eq!(
        first.evidence_id(),
        "observation:v1:7:systemd:25:systemd:unit:sshd.service:20:systemd.unit.observe:1000:7"
    );
    let mut later = observation();
    later.sequence = 8;
    assert_ne!(first.evidence_id(), later.evidence_id());
    let mut other = observation();
    other.resource = id(ResourceId::new("systemd:unit:sshd.servic"));
    assert_ne!(first.evidence_id(), other.evidence_id());
}
