use linura::base::{
    Actor, ActorKind, ActionPlan, Compensation, Effect, Preconditions, RiskClass, SemanticReason,
    Verification,
};
use linura::ids::{
    ActorId, CapabilityId, IntentId, PlanId, RequestId, RequirementId, ResourceId,
    ValidationError,
};

fn id<T>(result: Result<T, ValidationError>) -> T {
    result.unwrap_or_else(|error| panic!("{}", error.message()))
}

fn actor() -> Actor {
    Actor { id: id(ActorId::new("uid:1000")), kind: ActorKind::Human, interactive: true }
}

#[test]
fn identifiers_reject_control_characters() {
    assert!(RequestId::new("bad\nvalue").is_err());
    assert!(ActorId::new("uid:1000\nspoof").is_err());
}

#[test]
fn semantic_reason_rejects_duplicate_origins() {
    let intent = id(IntentId::new("intent:test"));
    let requirement = id(RequirementId::new("requirement:test"));
    let capability = id(CapabilityId::new("capability:test"));

    let duplicate_intent = SemanticReason {
        summary: "test".into(),
        intent_ids: vec![intent.clone(), intent],
        requirement_ids: vec![],
        capability_ids: vec![],
    };
    assert_eq!(
        duplicate_intent.validate(),
        Err(ValidationError::DuplicateSemanticOrigin("intent"))
    );

    let duplicate_requirement = SemanticReason {
        summary: "test".into(),
        intent_ids: vec![],
        requirement_ids: vec![requirement.clone(), requirement],
        capability_ids: vec![],
    };
    assert_eq!(
        duplicate_requirement.validate(),
        Err(ValidationError::DuplicateSemanticOrigin("requirement"))
    );

    let duplicate_capability = SemanticReason {
        summary: "test".into(),
        intent_ids: vec![],
        requirement_ids: vec![],
        capability_ids: vec![capability.clone(), capability],
    };
    assert_eq!(
        duplicate_capability.validate(),
        Err(ValidationError::DuplicateSemanticOrigin("capability"))
    );
}

#[test]
fn managed_plan_requires_semantic_origin() {
    let plan = ActionPlan {
        id: id(PlanId::new("plan-1")),
        request_id: id(RequestId::new("req-1")),
        actor: actor(),
        resource: id(ResourceId::new("service:sshd")),
        capability: id(CapabilityId::new("remote.ssh")),
        risk: RiskClass::SystemMutation,
        reason: SemanticReason {
            summary: "enable SSH".into(),
            intent_ids: vec![],
            requirement_ids: vec![],
            capability_ids: vec![],
        },
        preconditions: Preconditions { statements: vec![] },
        effects: vec![Effect {
            id: "enable".into(),
            executor: "systemd".into(),
            operation: "set-enabled".into(),
            arguments: vec![("unit".into(), "sshd.service".into())],
            compensation: Compensation::Absent,
        }],
        verification: vec![Verification { description: "enabled state observed".into() }],
    };
    assert_eq!(plan.validate(), Err(ValidationError::MissingSemanticOrigin));
}

#[test]
fn identifier_limits_and_messages() {
    assert_eq!(RequestId::new(""), Err(ValidationError::Empty("request id")));
    let long = "x".repeat(257);
    assert_eq!(RequestId::new(&long), Err(ValidationError::TooLong("request id")));
    assert!(RequestId::new(&"x".repeat(256)).is_ok());
    assert_eq!(ValidationError::Empty("request id").message(), "request id cannot be empty");
    assert_eq!(
        ValidationError::DuplicateSemanticOrigin("intent").message(),
        "semantic reason contains duplicate intent origin"
    );
    // a multi-byte character counts by its UTF-8 bytes
    let wide = "é".repeat(129);
    assert!(RequestId::new(&wide).is_err());
}

#[test]
fn blank_reason_and_missing_effects_are_refused() {
    let blank = SemanticReason {
        summary: "  \t".into(),
        intent_ids: vec![id(IntentId::new("intent:x"))],
        requirement_ids: vec![],
        capability_ids: vec![],
    };
    assert_eq!(blank.validate(), Err(ValidationError::Empty("semantic reason")));
    let plan = ActionPlan {
        id: id(PlanId::new("plan-2")),
        request_id: id(RequestId::new("req-2")),
        actor: actor(),
        resource: id(ResourceId::new("service:sshd")),
        capability: id(CapabilityId::new("remote.ssh")),
        risk: RiskClass::ReadOnly,
        reason: SemanticReason {
            summary: "ok".into(),
            intent_ids: vec![id(IntentId::new("intent:x"))],
            requirement_ids: vec![],
            capability_ids: vec![],
        },
        preconditions: Preconditions { statements: vec![] },
        effects: vec![],
        verification: vec![],
    };
    assert_eq!(plan.validate(), Err(ValidationError::NoEffects));
    assert!(RiskClass::SystemMutation.rank() < RiskClass::Destructive.rank());
}
