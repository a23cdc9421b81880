use linura::base::SemanticReason;
use linura::ids::{CapabilityId, PrincipalId, ProviderId, RequestId, ResourceId, ValidationError};
use linura::keyed::TextMap;
use linura::managed::{
    effect_from_request, managed_request_digest, managed_request_id, validate_operation_id,
    validate_request_identity, ManagedLifecycleError, TrustedHumanApproval,
};
use linura::protocol::PlanDesiredStateRequest;
use linura::converge::check_managed_request;

fn id<T>(result: Result<T, ValidationError>) -> T {
    result.unwrap_or_else(|error| panic!("{}", error.message()))
}

fn request(resource: &str, desired: &str) -> PlanDesiredStateRequest {
    let mut desired_state = TextMap::new();
    desired_state.insert("active_state".into(), desired.into());
    let mut request = PlanDesiredStateRequest {
        request_id: id(RequestId::new("request:v06:placeholder")),
        provider: id(ProviderId::new("systemd")),
        resource: id(ResourceId::new(resource)),
        observation_capability: id(CapabilityId::new("systemd.unit.observe")),
        reason: SemanticReason {
            summary: "v0.6 test".into(),
            intent_ids: vec![],
            requirement_ids: vec![],
            capability_ids: vec![],
        },
        desired_state,
    };
    request.request_id = managed_request_id("test-operation", &request).unwrap_or_else(|error| panic!("{:?}", error));
    request
}

#[test]
fn public_effect_is_exactly_one_reserved_systemd_active_state() {
    let effect = effect_from_request(&request("systemd:unit:linura-managed-example.service", "active"))
        .unwrap_or_else(|error| panic!("{:?}", error));
    assert_eq!(effect.operation, "set-active-state");
    assert_eq!(effect.canonical_payload, b"unit=linura-managed-example.service\nactive_state=active\n");
    assert!(effect_from_request(&request("systemd:unit:sshd.service", "active")).is_err());
    assert!(effect_from_request(&request("systemd:unit:linura-managed-example.service", "failed")).is_err());
}

#[test]
fn request_id_binds_operation_and_exact_body() {
    let request = request("systemd:unit:linura-managed-example.service", "active");
    assert!(validate_request_identity(&request).is_ok());

    let mut substituted = request.clone();
    substituted.desired_state.insert("active_state".into(), "inactive".into());
    assert!(validate_request_identity(&substituted).is_err());

    let mut other_operation = request.clone();
    other_operation.request_id =
        managed_request_id("other-operation", &other_operation).unwrap_or_else(|error| panic!("{:?}", error));
    assert_ne!(request.request_id, other_operation.request_id);
}

#[test]
fn request_digest_is_sixty_four_lowercase_hex_digits() {
    let request = request("systemd:unit:linura-managed-example.service", "active");
    let digest = managed_request_digest("test-operation", &request);
    assert_eq!(digest.len(), 64);
    assert!(digest.chars().all(|c| c.is_ascii_digit() || ('a'..='f').contains(&c)));
    assert_eq!(digest, managed_request_digest("test-operation", &request));
    assert_ne!(digest, managed_request_digest("test-operation-two", &request));
    assert!(request.request_id.as_str().starts_with("request:v06:test-operation:"));
    assert!(request.request_id.as_str().ends_with(&digest));
}

#[test]
fn operation_ids_must_be_canonical() {
    assert!(validate_operation_id("apply-1").is_ok());
    for bad in ["", "-apply", "apply-", "ap--ply", "Apply", "apply_1"] {
        assert_eq!(
            validate_operation_id(bad),
            Err(ManagedLifecycleError::InvalidRequestIdentity(
                "operation id must be 1..64 lowercase ASCII letters/digits/hyphens in canonical form".into()
            ))
        );
    }
    assert!(validate_operation_id(&"a".repeat(64)).is_ok());
    assert!(validate_operation_id(&"a".repeat(65)).is_err());
}

#[test]
fn request_identity_faults_are_reported_in_order() {
    let mut request = request("systemd:unit:linura-managed-example.service", "active");
    request.request_id = id(RequestId::new("request:other"));
    assert_eq!(
        validate_request_identity(&request),
        Err(ManagedLifecycleError::InvalidRequestIdentity("request id must begin with request:v06:".into()))
    );
    request.request_id = id(RequestId::new("request:v06:no-digest"));
    assert_eq!(
        validate_request_identity(&request),
        Err(ManagedLifecycleError::InvalidRequestIdentity(
            "request id must contain an operation id and body digest".into()
        ))
    );
    request.request_id = id(RequestId::new("request:v06:op:abc"));
    assert_eq!(
        validate_request_identity(&request),
        Err(ManagedLifecycleError::InvalidRequestIdentity(
            "request body digest must be 64 lowercase hexadecimal digits".into()
        ))
    );
    request.request_id = id(RequestId::new(&format!("request:v06:op:{}", "0".repeat(64))));
    assert_eq!(
        validate_request_identity(&request),
        Err(ManagedLifecycleError::InvalidRequestIdentity(
            "request id does not bind the exact provider/resource/capability/reason/desired-state body".into()
        ))
    );
}

#[test]
fn managed_units_must_be_canonical_services() {
    let cases = [
        ("systemd:unit:linura-managed-Bad.service", "managed unit name is not canonical"),
        ("systemd:unit:linura-managed-a--b.service", "managed unit name is not canonical"),
        ("systemd:unit:other.service", "unit is outside the linura-managed- namespace"),
        ("systemd:unit:linura-managed-example.socket", "unit must be a bounded ASCII .service name"),
        ("file:/etc/passwd", "resource is not a systemd unit"),
    ];
    for (resource, reason) in cases {
        assert_eq!(
            effect_from_request(&request(resource, "active")).err(),
            Some(ManagedLifecycleError::UnsupportedEffect(reason.into()))
        );
    }
}

#[test]
fn trusted_approval_keeps_its_principal_and_errors_have_text() {
    let approval = TrustedHumanApproval::from_privileged_local_boundary(id(PrincipalId::new("unix:uid:0")));
    assert_eq!(approval.principal().as_str(), "unix:uid:0");
    assert_eq!(
        ManagedLifecycleError::Executor("gone".into()).message(),
        "privileged executor failed: gone"
    );
}

#[test]
fn managed_request_check_refuses_effect_before_identity() {
    let good = request("systemd:unit:linura-managed-example.service", "active");
    assert_eq!(check_managed_request(&good), Ok(()));
    let mut other_unit = request("systemd:unit:sshd.service", "active");
    other_unit.request_id = id(RequestId::new("request:v06:bogus"));
    assert!(matches!(check_managed_request(&other_unit), Err(ManagedLifecycleError::UnsupportedEffect(_))));
    let mut substituted = request("systemd:unit:linura-managed-example.service", "active");
    substituted.desired_state.insert("active_state".into(), "inactive".into());
    assert!(matches!(
        check_managed_request(&substituted),
        Err(ManagedLifecycleError::InvalidRequestIdentity(_))
    ));
}
