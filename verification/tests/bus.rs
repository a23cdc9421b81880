use linura::base::ActorKind;
use linura::bus::{
    actor_from_credentials, authority_context, graph_wire, receipt_wire, edge_kind_name, node_id_name, TransportError, AUTHORITY_CONTRACT_ID,
    AUTHORITY_CONTRACT_STABILITY, AUTHORITY_CONTRACT_VERSION, AUTHORITY_INTERFACE_NAME, AUTHORITY_SERVICE_NAME,
};
use linura::graph::{Edge, EdgeKind, NodeId, SystemGraph};
use linura::managed::ManagedMutationReceipt;
use linura::ids::{IntentId, ProviderId, ResourceId};
use linura::preview::AuthenticatedPrincipal;

#[test]
fn actor_identity_binds_bus_name_uid_and_pid() {
    let first = actor_from_credentials(":1.42", 1000, 2000).unwrap_or_else(|error| panic!("{}", error));
    let second = actor_from_credentials(":1.43", 1000, 2000).unwrap_or_else(|error| panic!("{}", error));
    assert_ne!(first.actor.id, second.actor.id);
    assert_eq!(first.uid, 1000);
    assert_eq!(first.pid, 2000);
    assert!(!first.actor.interactive);
    assert_eq!(first.actor.kind, ActorKind::Service);
    assert_eq!(first.actor.id.as_str(), "dbus:v1:5::1.42:uid:1000:pid:2000");
}

#[test]
fn actor_identity_rejects_malformed_bus_identity() {
    assert!(actor_from_credentials(":1.42\nspoof", 1000, 2000).is_err());
}

#[test]
fn node_wire_ids_are_type_namespaced() {
    let provider = ProviderId::new("systemd").unwrap_or_else(|error| panic!("{}", error.message()));
    assert_eq!(node_id_name(&NodeId::Provider(provider)), "provider:systemd");
    assert_eq!(node_id_name(&NodeId::Evidence("e:1".into())), "evidence:e:1");
    assert_eq!(edge_kind_name(EdgeKind::SharedBy), "shared-by");
}

#[test]
fn authority_contract_is_explicitly_experimental() {
    assert_eq!(AUTHORITY_SERVICE_NAME, "org.linura.Authority1");
    assert_eq!(AUTHORITY_INTERFACE_NAME, "org.linura.Authority1");
    assert_eq!(AUTHORITY_CONTRACT_ID, "dbus.org.linura.Authority1");
    assert_eq!(AUTHORITY_CONTRACT_VERSION, "1");
    assert_eq!(AUTHORITY_CONTRACT_STABILITY, "experimental");
}

#[test]
fn caller_wire_carries_identity_fields() {
    let caller = actor_from_credentials(":1.7", 0, 1).unwrap_or_else(|error| panic!("{}", error));
    let wire = caller.to_wire();
    assert_eq!(wire.1, "service");
    assert_eq!((wire.2, wire.3, wire.4), (false, 0, 1));
    assert_eq!(wire.5, ":1.7");
    assert_eq!(TransportError::new("bus gone").message(), "bus gone");
}

#[test]
fn graph_wire_names_nodes_and_sorts_edges() {
    let intent = NodeId::Intent(IntentId::new("intent:b").unwrap_or_else(|e| panic!("{}", e.message())));
    let other = NodeId::Intent(IntentId::new("intent:a").unwrap_or_else(|e| panic!("{}", e.message())));
    let resource =
        NodeId::Resource(ResourceId::new("package:git").unwrap_or_else(|e| panic!("{}", e.message())));
    let mut graph = SystemGraph::default();
    graph.add_edge(Edge { from: intent.clone(), to: resource.clone(), kind: EdgeKind::Owns, reason: "z".into() });
    graph.add_edge(Edge { from: other.clone(), to: resource.clone(), kind: EdgeKind::Owns, reason: "y".into() });
    graph.add_edge(Edge { from: intent, to: resource, kind: EdgeKind::Owns, reason: "a".into() });
    let (nodes, edges) = graph_wire(&graph);
    assert_eq!(nodes.len(), graph.nodes().len());
    assert_eq!(
        edges,
        vec![
            ("intent:intent:a".to_string(), "resource:package:git".to_string(), "owns".to_string(), "y".to_string()),
            ("intent:intent:b".to_string(), "resource:package:git".to_string(), "owns".to_string(), "a".to_string()),
            ("intent:intent:b".to_string(), "resource:package:git".to_string(), "owns".to_string(), "z".to_string()),
        ]
    );
    let mut sorted = edges.clone();
    sorted.sort();
    assert_eq!(sorted, edges);
}

#[test]
fn receipt_wire_turns_absent_digests_into_empty_text() {
    let receipt = ManagedMutationReceipt {
        transaction_id: "tx:1".into(),
        plan_id: "plan:1".into(),
        resource: "systemd:unit:linura-managed-example.service".into(),
        desired_active_state: "active".into(),
        effect_digest: "ab".into(),
        dispatch_digest: None,
        execution_disposition: Some("applied".into()),
        verification_disposition: "verified".into(),
        final_state: "committed".into(),
        recovered: false,
        stages: vec!["prepared".into(), "committed".into()],
    };
    let wire = receipt_wire(receipt);
    assert_eq!(wire.0, "tx:1");
    assert_eq!(wire.4, "ab");
    assert_eq!(wire.5, "");
    assert_eq!(wire.6, "applied");
    assert_eq!(wire.8, "committed");
    assert!(!wire.9);
    assert_eq!(wire.10, vec!["prepared".to_string(), "committed".to_string()]);
}

#[test]
fn authority_caller_is_an_interactive_human_bound_to_its_credentials() {
    let principal = AuthenticatedPrincipal::new("uid:0").unwrap_or_else(|error| panic!("{:?}", error));
    let context = authority_context(principal, ":1.42", 0, 77).unwrap_or_else(|error| panic!("{}", error));
    assert_eq!(context.actor.id.as_str(), "authority-dbus:v1:5::1.42:uid:0:pid:77");
    assert_eq!(context.actor.kind, ActorKind::Human);
    assert!(context.actor.interactive);
    assert_eq!(context.approval.principal().as_str(), "uid:0");
    let again = AuthenticatedPrincipal::new("uid:0").unwrap_or_else(|error| panic!("{:?}", error));
    let long_name = ":".repeat(250);
    assert_eq!(
        authority_context(again, &long_name, 0, 77).err(),
        Some("actor id is too long".to_string())
    );
}
