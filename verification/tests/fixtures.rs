use linura::agents::{AgentContext, AgentError, AgentRuntime, IntentInterpreter, Specialist, SpecialistRole};
use linura::base::{Actor, ActorKind, Capability, SupportLevel};
use linura::ids::{ActorId, CapabilityId, ProviderId, ResourceId, ValidationError};
use linura::intent::IntentProposal;
use linura::keyed::TextMap;
use linura::observation::{
    FreshnessState, ObservationAuthority, ObservationEnvelope, ObservedValue, ProviderAvailability,
    ProviderHealth,
};
use linura::observation_control::{ObservationControlError, ObservationCoordinator};
use linura::protocol::ObservationRequest;
use linura::provider::{Observer, ProviderError};
use linura::testkit::{FailureInjector, FakeObserver};

fn id<T>(result: Result<T, ValidationError>) -> T {
    result.unwrap_or_else(|error| panic!("{}", error.message()))
}

fn fake(observed_at_unix_ms: u64) -> FakeObserver {
    let provider = id(ProviderId::new("fake"));
    let mut attributes = TextMap::new();
    attributes.insert("state".into(), ObservedValue::Bool(true));
    FakeObserver {
        provider: provider.clone(),
        capabilities: vec![Capability {
            id: id(CapabilityId::new("fake.observe")),
            support: SupportLevel::Supported,
            provider: Some(provider.clone()),
            reason: None,
        }],
        health: ProviderHealth { provider: provider.clone(), availability: ProviderAvailability::Available, reason: None },
        resources: vec![id(ResourceId::new("fake:resource"))],
        envelope: ObservationEnvelope {
            provider,
            resource: id(ResourceId::new("fake:resource")),
            capability: id(CapabilityId::new("fake.observe")),
            authority: ObservationAuthority::SyntheticTest,
            observed_at_unix_ms,
            valid_for_ms: 100,
            sequence: 1,
            attributes,
        },
        fail_resources: false,
        fail_observe: false,
    }
}

fn fake_request() -> ObservationRequest {
    ObservationRequest {
        provider: id(ProviderId::new("fake")),
        resource: id(ResourceId::new("fake:resource")),
        capability: id(CapabilityId::new("fake.observe")),
    }
}

#[test]
fn failure_injector_is_deterministic() {
    let injector = FailureInjector::at(2);
    assert!(!injector.should_fail(1));
    assert!(injector.should_fail(2));
}

#[test]
fn never_failing_injector_never_fails() {
    let injector = FailureInjector::never();
    assert!(!injector.should_fail(0));
    assert!(!injector.should_fail(usize::MAX));
}

#[test]
fn fake_observer_answers_from_its_fields_and_injects_failures() {
    let mut observer = fake(1_000);
    assert_eq!(observer.resources().map(|r| r.len()), Ok(1));
    assert!(observer.supports_observation(&id(CapabilityId::new("fake.observe"))));
    assert!(!observer.supports_observation(&id(CapabilityId::new("fake.other"))));
    observer.fail_resources = true;
    observer.fail_observe = true;
    assert!(matches!(observer.resources(), Err(ProviderError::Unavailable(_))));
    assert!(matches!(
        observer.observe_authoritative(&id(ResourceId::new("fake:resource")), &id(CapabilityId::new("fake.observe"))),
        Err(ProviderError::Unavailable(_))
    ));
}

#[test]
fn coordinator_accepts_fake_evidence_only_while_current() {
    let mut coordinator: ObservationCoordinator = ObservationCoordinator::new();
    assert_eq!(coordinator.register_observer(Box::new(fake(1_000))), Ok(()));
    let response = coordinator.observe(&fake_request(), 1_050).unwrap_or_else(|e| panic!("{:?}", e));
    assert_eq!(response.freshness, FreshnessState::Current);
    assert!(matches!(
        coordinator.observe(&fake_request(), 1_101),
        Err(ObservationControlError::InvalidObservation(_))
    ));
}

#[test]
fn failing_fake_observer_surfaces_provider_error() {
    let mut observer = fake(1_000);
    observer.fail_observe = true;
    let mut coordinator: ObservationCoordinator = ObservationCoordinator::new();
    assert_eq!(coordinator.register_observer(Box::new(observer)), Ok(()));
    assert!(matches!(
        coordinator.observe(&fake_request(), 1_050),
        Err(ObservationControlError::Provider(ProviderError::Unavailable(_)))
    ));
}

struct EchoInterpreter;

impl IntentInterpreter for EchoInterpreter {
    fn id(&self) -> &'static str {
        "echo"
    }

    fn propose(&self, _context: &AgentContext, _statement: &str) -> Result<IntentProposal, AgentError> {
        Err(AgentError::Unavailable("offline".into()))
    }
}

struct QuietSpecialist;

impl Specialist for QuietSpecialist {
    fn role(&self) -> SpecialistRole {
        SpecialistRole::Security
    }

    fn advise(&self, _context: &AgentContext, _proposal: &IntentProposal) -> Result<Vec<String>, AgentError> {
        Ok(Vec::new())
    }
}

#[test]
fn agent_runtime_registers_proposers_without_authority() {
    let mut runtime: AgentRuntime = AgentRuntime::default();
    runtime.register_interpreter(Box::new(EchoInterpreter));
    runtime.register_specialist(Box::new(QuietSpecialist));
    let context = AgentContext {
        actor: Actor { id: id(ActorId::new("agent:local")), kind: ActorKind::Agent, interactive: false },
        offline: true,
        allowed_specialists: vec![SpecialistRole::Security],
    };
    let boxed: Box<dyn IntentInterpreter> = Box::new(EchoInterpreter);
    assert_eq!(boxed.id(), "echo");
    assert!(matches!(boxed.propose(&context, "install a browser"), Err(AgentError::Unavailable(_))));
}
