use linura::graph::{Edge, EdgeKind, NodeId, ObservationRecordOutcome, SystemGraph};
use linura::ids::{CapabilityId, IntentId, ProviderId, ResourceId, SetupId, ValidationError};
use linura::keyed::TextMap;
use linura::observation::{FreshnessState, ObservationAuthority, ObservationEnvelope, ObservedValue};

fn id<T>(result: Result<T, ValidationError>) -> T {
    result.unwrap_or_else(|error| panic!("{}", error.message()))
}

fn observation(time: u64, sequence: u64, state: &str) -> ObservationEnvelope {
    let mut attributes = TextMap::new();
    attributes.insert("active_state".into(), ObservedValue::Text(state.into()));
    ObservationEnvelope {
        provider: id(ProviderId::new("systemd")),
        resource: id(ResourceId::new("systemd:unit:sshd.service")),
        capability: id(CapabilityId::new("systemd.unit.observe")),
        authority: ObservationAuthority::NativeApi,
        observed_at_unix_ms: time,
        valid_for_ms: 100,
        sequence,
        attributes,
    }
}

fn attr<'a>(graph: &'a SystemGraph, node: &NodeId, key: &str) -> Option<&'a str> {
    graph
        .node(node)
        .unwrap_or_else(|| unreachable!("resource must exist"))
        .attributes
        .get(key)
        .map(String::as_str)
}

#[test]
fn shared_resource_is_retained_when_one_origin_is_retired() {
    let ai = NodeId::Intent(id(IntentId::new("intent:ai")));
    let gaming = NodeId::Intent(id(IntentId::new("intent:gaming")));
    let driver = NodeId::Resource(id(ResourceId::new("package:nvidia-utils")));
    let mut graph = SystemGraph::default();
    graph.add_edge(Edge {
        from: ai.clone(),
        to: driver.clone(),
        kind: EdgeKind::Owns,
        reason: "GPU compute".into(),
    });
    graph.add_edge(Edge {
        from: gaming,
        to: driver.clone(),
        kind: EdgeKind::Owns,
        reason: "gaming GPU".into(),
    });
    let impact = graph.removal_impact(&ai);
    assert!(impact.retained_shared.contains(&driver));
    assert!(!impact.removable.contains(&driver));
}

#[test]
fn setup_can_be_a_causal_origin() {
    let setup = NodeId::Setup(id(SetupId::new("setup:rust-development")));
    let intent = NodeId::Intent(id(IntentId::new("intent:rust-development")));
    let mut graph = SystemGraph::default();
    graph.add_edge(Edge {
        from: setup.clone(),
        to: intent.clone(),
        kind: EdgeKind::DerivedFrom,
        reason: "intent adopted from reusable setup".into(),
    });
    assert_eq!(graph.reasons_for(&intent).len(), 1);
    assert_eq!(graph.reasons_for(&intent)[0].from, setup);
}

#[test]
fn observation_populates_resource_provider_capability_and_evidence_nodes() {
    let observation = observation(10, 1, "active");
    let mut graph = SystemGraph::default();
    assert_eq!(
        graph.record_observation(&observation, FreshnessState::Current),
        ObservationRecordOutcome::CurrentStateUpdated
    );
    let resource = NodeId::Resource(observation.resource.clone());
    assert_eq!(attr(&graph, &resource, "freshness"), Some("current"));
    assert_eq!(attr(&graph, &resource, "observed.active_state"), Some("active"));
    assert_eq!(graph.nodes().len(), 4);
    assert_eq!(graph.edges().len(), 4);
    assert!(graph.reasons_for(&resource).iter().any(|edge| {
        edge.kind == EdgeKind::Realizes
            && edge.from == NodeId::Capability(observation.capability.clone())
    }));
}

#[test]
fn removing_evidence_also_removes_its_incident_edges() {
    let observation = observation(10, 1, "active");
    let evidence = NodeId::Evidence(observation.evidence_id());
    let mut graph = SystemGraph::default();
    assert_eq!(
        graph.record_observation(&observation, FreshnessState::Current),
        ObservationRecordOutcome::CurrentStateUpdated
    );
    let edge_count = graph.edges().len();
    assert!(graph.remove_node(&evidence).is_some());
    assert!(graph.node(&evidence).is_none());
    assert!(graph.edges().len() < edge_count);
    assert!(graph.edges().iter().all(|edge| edge.from != evidence && edge.to != evidence));
}

#[test]
fn same_provider_sequence_survives_realtime_clock_rollback() {
    let before_clock_step = observation(2_000, 1, "active");
    let after_clock_step = observation(1_000, 2, "inactive");
    let mut graph = SystemGraph::default();
    assert_eq!(
        graph.record_observation(&before_clock_step, FreshnessState::Current),
        ObservationRecordOutcome::CurrentStateUpdated
    );
    assert_eq!(
        graph.record_observation(&after_clock_step, FreshnessState::Current),
        ObservationRecordOutcome::CurrentStateUpdated
    );
    let resource = NodeId::Resource(after_clock_step.resource.clone());
    assert_eq!(attr(&graph, &resource, "observed.active_state"), Some("inactive"));
    assert_eq!(attr(&graph, &resource, "sequence"), Some("2"));
    assert_eq!(attr(&graph, &resource, "observed_at_unix_ms"), Some("1000"));
}

#[test]
fn older_or_untrusted_evidence_cannot_replace_current_resource_state() {
    let newer = observation(2_000, 2, "active");
    let older = observation(1_000, 1, "inactive");
    let stale_newer = observation(3_000, 3, "failed");
    let mut graph = SystemGraph::default();
    assert_eq!(
        graph.record_observation(&newer, FreshnessState::Current),
        ObservationRecordOutcome::CurrentStateUpdated
    );
    assert_eq!(
        graph.record_observation(&older, FreshnessState::Current),
        ObservationRecordOutcome::HistoricalEvidenceRetained
    );
    assert_eq!(
        graph.record_observation(&stale_newer, FreshnessState::Stale),
        ObservationRecordOutcome::HistoricalEvidenceRetained
    );
    let resource = NodeId::Resource(newer.resource.clone());
    assert_eq!(attr(&graph, &resource, "observed.active_state"), Some("active"));
    assert_eq!(attr(&graph, &resource, "sequence"), Some("2"));
    assert_eq!(graph.nodes().len(), 6);
}

#[test]
fn conflicts_and_sole_origins_are_reported() {
    let a = NodeId::Intent(id(IntentId::new("intent:a")));
    let b = NodeId::Intent(id(IntentId::new("intent:b")));
    let pkg = NodeId::Resource(id(ResourceId::new("package:x")));
    let mut graph = SystemGraph::new();
    let owns = Edge { from: a.clone(), to: pkg.clone(), kind: EdgeKind::Owns, reason: "r".into() };
    graph.add_edge(owns.clone());
    graph.add_edge(owns);
    assert_eq!(graph.edges().len(), 1);
    graph.add_edge(Edge { from: b.clone(), to: a.clone(), kind: EdgeKind::Conflicts, reason: "c".into() });
    assert_eq!(graph.conflicts_for(&a).len(), 1);
    let impact = graph.removal_impact(&a);
    assert_eq!(impact.removable, vec![pkg.clone()]);
    assert!(impact.retained_shared.is_empty());
    assert_eq!(impact.conflicts.len(), 1);
    assert_eq!(pkg.key(), "5:package:x");
}

#[test]
fn removal_impact_lists_targets_in_identifier_order() {
    let origin = NodeId::Intent(id(IntentId::new("intent:o")));
    let targets = [
        NodeId::Resource(id(ResourceId::new("package:z"))),
        NodeId::Capability(id(CapabilityId::new("cap.b"))),
        NodeId::Resource(id(ResourceId::new("package:a"))),
        NodeId::Capability(id(CapabilityId::new("cap.a"))),
    ];
    let mut graph = SystemGraph::new();
    for target in &targets {
        graph.add_edge(Edge { from: origin.clone(), to: target.clone(), kind: EdgeKind::Owns, reason: "r".into() });
    }
    let impact = graph.removal_impact(&origin);
    let mut expected: Vec<NodeId> = targets.to_vec();
    expected.sort();
    assert_eq!(impact.removable, expected);
    assert!(impact.retained_shared.is_empty());
}
