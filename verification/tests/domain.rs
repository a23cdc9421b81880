use std::cell::Cell;

use linura::base::{Actor, ActorKind};
use linura::bootstrap::{BootstrapError, BootstrapLedger, BootstrapStage, InstallSecurityPolicy};
use linura::config::{DriftDisposition, ManagedResource, Ownership, OwnershipRegistry};
use linura::hardware::{EvidenceTier, HardwareEvidence, HardwareSnapshot};
use linura::ids::{ActorId, IntentId, SetupId, ValidationError};
use linura::intent::{Intent, IntentStatus, Setup, SetupValidationError};
use linura::lifecycle::{LifecycleEvent, LifecycleStep, LifecycleWorkflow};
use linura::migrations::{Migration, MigrationDescriptor, MigrationError, MigrationLedger, MigrationOutcome, MigrationRunner, MigrationScope, run_step};

fn id<T>(result: Result<T, ValidationError>) -> T {
    result.unwrap_or_else(|error| panic!("{}", error.message()))
}

#[test]
fn retired_intent_is_not_managed() {
    let intent = Intent {
        id: id(IntentId::new("intent:test")),
        actor: Actor { id: id(ActorId::new("uid:1000")), kind: ActorKind::Human, interactive: true },
        statement: "I no longer need Kubernetes".into(),
        status: IntentStatus::Retired,
        requirements: vec![],
        supersedes: vec![],
    };
    assert!(!intent.is_managed());
}

#[test]
fn setup_requires_portable_composition_and_revision() {
    let setup = Setup {
        id: id(SetupId::new("setup:rust-development")),
        name: "Rust development".into(),
        description: "Reusable Rust development environment".into(),
        revision: 1,
        intent_ids: vec![id(IntentId::new("intent:rust-development"))],
        included_setup_ids: vec![],
        portable_constraints: vec!["stable toolchain".into()],
        required_secret_refs: vec!["credential:github".into()],
        hardware_hints: vec![],
    };
    assert_eq!(setup.validate(), Ok(()));
}

#[test]
fn setup_cannot_include_itself() {
    let setup_id = id(SetupId::new("setup:self"));
    let setup = Setup {
        id: setup_id.clone(),
        name: "Self".into(),
        description: String::new(),
        revision: 1,
        intent_ids: vec![],
        included_setup_ids: vec![setup_id],
        portable_constraints: vec![],
        required_secret_refs: vec![],
        hardware_hints: vec![],
    };
    assert_eq!(setup.validate(), Err(SetupValidationError::SelfReference));
}

#[test]
fn setup_rules_apply_in_order() {
    let mut setup = Setup {
        id: id(SetupId::new("setup:x")),
        name: " ".into(),
        description: String::new(),
        revision: 0,
        intent_ids: vec![],
        included_setup_ids: vec![],
        portable_constraints: vec![],
        required_secret_refs: vec![" ".into()],
        hardware_hints: vec![],
    };
    assert_eq!(setup.validate(), Err(SetupValidationError::EmptyName));
    setup.name = "x".into();
    assert_eq!(setup.validate(), Err(SetupValidationError::ZeroRevision));
    setup.revision = 2;
    assert_eq!(setup.validate(), Err(SetupValidationError::EmptyComposition));
    setup.intent_ids = vec![id(IntentId::new("intent:x"))];
    assert_eq!(setup.validate(), Err(SetupValidationError::EmptySecretReference));
}

#[test]
fn linura_managed_drift_is_not_silently_overwritten() {
    let resource = ManagedResource {
        resource_id: "file:/etc/example".into(),
        ownership: Ownership::LinuraManaged,
        desired_digest: Some("sha256:a".into()),
        observed_digest: Some("sha256:b".into()),
    };
    assert_eq!(resource.drift_disposition(), DriftDisposition::RequireApproval);
}

#[test]
fn drift_needs_two_differing_digests_and_registry_replaces() {
    let mut resource = ManagedResource {
        resource_id: "file:/etc/x".into(),
        ownership: Ownership::Generated,
        desired_digest: Some("a".into()),
        observed_digest: None,
    };
    assert!(!resource.is_drifted());
    assert_eq!(resource.drift_disposition(), DriftDisposition::Accept);
    resource.observed_digest = Some("b".into());
    assert_eq!(resource.drift_disposition(), DriftDisposition::Reconcile);
    let mut registry = OwnershipRegistry::default();
    assert!(registry.register(resource.clone()).is_none());
    let replaced = registry.register(resource.clone());
    assert_eq!(replaced, Some(resource));
    assert!(registry.get("file:/etc/x").is_some());
    assert!(registry.get("file:/etc/y").is_none());
}

#[test]
fn empty_snapshot_is_unknown() {
    assert_eq!(HardwareSnapshot::default().weakest_tier(), EvidenceTier::Unknown);
}

#[test]
fn weakest_tier_is_the_minimum() {
    let item = |tier| HardwareEvidence {
        component: "gpu".into(),
        vendor: "v".into(),
        model: "m".into(),
        tier,
        profile: "p".into(),
        evidence_reference: None,
    };
    let snapshot = HardwareSnapshot {
        components: vec![item(EvidenceTier::ReleaseQualified), item(EvidenceTier::VirtualMachine)],
    };
    assert_eq!(snapshot.weakest_tier(), EvidenceTier::VirtualMachine);
    assert!(item(EvidenceTier::ReleaseQualified).release_qualified());
    assert!(!item(EvidenceTier::MaintainerHardware).release_qualified());
}

#[test]
fn arbitrary_empty_hooks_are_not_valid_workflows() {
    let workflow =
        LifecycleWorkflow { id: "hook".into(), event: LifecycleEvent::AfterUpdate, steps: vec![] };
    assert!(workflow.validate().is_err());
}

#[test]
fn workflow_steps_need_capability_and_operation() {
    let mut workflow = LifecycleWorkflow {
        id: "hook".into(),
        event: LifecycleEvent::BeforeUpdate,
        steps: vec![LifecycleStep {
            capability: "snapshot".into(),
            operation: " ".into(),
            required_permissions: vec![],
        }],
    };
    assert_eq!(workflow.validate(), Err("lifecycle steps require capability and operation"));
    workflow.steps[0].operation = "create".into();
    assert_eq!(workflow.validate(), Ok(()));
    workflow.id = "".into();
    assert_eq!(workflow.validate(), Err("workflow id cannot be empty"));
}

#[test]
fn default_security_policy_is_fail_closed() {
    let policy = InstallSecurityPolicy::default();
    assert!(policy.require_disk_encryption);
    assert!(policy.inbound_firewall_default_deny);
    assert!(!policy.ssh_enabled_initially);
    assert!(!policy.untrusted_package_sources_enabled);
}

#[test]
fn ledger_resumes_at_first_incomplete_stage() {
    let mut ledger = BootstrapLedger::default();
    ledger.mark_completed(BootstrapStage::Preflight);
    ledger.mark_completed(BootstrapStage::DiskLayout);
    assert_eq!(ledger.next_stage(), Some(BootstrapStage::Encryption));
    assert_eq!(ledger.validate_prefix(), Ok(()));
}

#[test]
fn ledger_rejects_gaps() {
    let mut ledger = BootstrapLedger::default();
    ledger.mark_completed(BootstrapStage::Preflight);
    ledger.mark_completed(BootstrapStage::Encryption);
    assert_eq!(
        ledger.validate_prefix(),
        Err(BootstrapError::OutOfOrder(BootstrapStage::Encryption))
    );
}

#[test]
fn complete_ledger_has_no_next_stage() {
    let mut ledger = BootstrapLedger::new();
    for stage in BootstrapStage::ordered() {
        ledger.mark_completed(stage);
        assert!(ledger.is_completed(stage));
    }
    assert_eq!(ledger.next_stage(), None);
    assert_eq!(ledger.validate_prefix(), Ok(()));
    assert_eq!(BootstrapStage::ordered().len(), 10);
    assert_eq!(BootstrapStage::ordered()[9], BootstrapStage::FirstBootReady);
}

#[derive(Debug)]
struct TestMigration {
    descriptor: MigrationDescriptor,
    applications: Cell<u32>,
}

impl Migration for TestMigration {
    fn descriptor(&self) -> &MigrationDescriptor {
        &self.descriptor
    }
    fn precondition(&self) -> Result<bool, MigrationError> {
        Ok(true)
    }
    fn apply(&self) -> Result<(), MigrationError> {
        self.applications.set(self.applications.get() + 1);
        Ok(())
    }
    fn verify(&self) -> Result<(), MigrationError> {
        Ok(())
    }
}

#[test]
fn migrations_are_idempotent_through_the_ledger() {
    let migration = TestMigration {
        descriptor: MigrationDescriptor {
            id: "0001-test".into(),
            introduced_in: "0.0.1".into(),
            scope: MigrationScope::System,
            reversible: false,
            requires_snapshot: true,
        },
        applications: Cell::new(0),
    };
    let mut runner = MigrationRunner::new(MigrationLedger::default());
    assert_eq!(runner.run(&migration), Ok(MigrationOutcome::Applied));
    assert_eq!(runner.run(&migration), Ok(MigrationOutcome::AlreadyApplied));
    assert_eq!(migration.applications.get(), 1);
    assert!(runner.ledger().is_applied("0001-test"));
}

#[test]
fn invalid_descriptor_and_manual_rollback() {
    let migration = TestMigration {
        descriptor: MigrationDescriptor {
            id: " ".into(),
            introduced_in: "0.0.1".into(),
            scope: MigrationScope::User,
            reversible: true,
            requires_snapshot: false,
        },
        applications: Cell::new(0),
    };
    let mut runner = MigrationRunner::new(MigrationLedger::new());
    assert_eq!(
        runner.run(&migration),
        Err(MigrationError::InvalidDescriptor("migration id cannot be empty"))
    );
    assert_eq!(migration.applications.get(), 0);
    assert_eq!(migration.rollback(), Err(MigrationError::ManualRecoveryRequired(" ".into())));
    let mut ledger = MigrationLedger::new();
    ledger.mark_applied("a");
    ledger.mark_applied("a");
    assert!(ledger.is_applied("a"));
    assert!(!ledger.is_applied("b"));
}

#[test]
fn run_step_decides_from_the_migrations_answers() {
    let op = |m: &str| MigrationError::Operation(m.to_string());
    assert_eq!(run_step(Err(op("pre")), None, None, true, None), Err(op("pre")));
    assert_eq!(run_step(Ok(false), None, None, true, None), Ok(MigrationOutcome::NotApplicable));
    assert_eq!(run_step(Ok(true), Some(Err(op("apply"))), None, true, None), Err(op("apply")));
    assert_eq!(run_step(Ok(true), Some(Ok(())), Some(Ok(())), true, None), Ok(MigrationOutcome::Applied));
    assert_eq!(
        run_step(Ok(true), Some(Ok(())), Some(Err(op("verify"))), true, Some(Ok(()))),
        Err(op("verify"))
    );
    assert_eq!(
        run_step(Ok(true), Some(Ok(())), Some(Err(op("verify"))), true, Some(Err(op("rollback")))),
        Err(op("rollback"))
    );
    assert_eq!(run_step(Ok(true), Some(Ok(())), Some(Err(op("verify"))), false, None), Err(op("verify")));
}

#[derive(Debug)]
struct FailingCheck {
    descriptor: MigrationDescriptor,
    rollbacks: Cell<u32>,
}

impl Migration for FailingCheck {
    fn descriptor(&self) -> &MigrationDescriptor {
        &self.descriptor
    }
    fn precondition(&self) -> Result<bool, MigrationError> {
        Ok(true)
    }
    fn apply(&self) -> Result<(), MigrationError> {
        Ok(())
    }
    fn verify(&self) -> Result<(), MigrationError> {
        Err(MigrationError::Operation("check failed".into()))
    }
    fn rollback(&self) -> Result<(), MigrationError> {
        self.rollbacks.set(self.rollbacks.get() + 1);
        Ok(())
    }
}

#[test]
fn failed_check_rolls_back_a_reversible_migration_and_records_nothing() {
    for reversible in [true, false] {
        let migration = FailingCheck {
            descriptor: MigrationDescriptor {
                id: "0002-check".into(),
                introduced_in: "0.0.1".into(),
                scope: MigrationScope::System,
                reversible,
                requires_snapshot: false,
            },
            rollbacks: Cell::new(0),
        };
        let mut runner = MigrationRunner::new(MigrationLedger::new());
        assert_eq!(runner.run(&migration), Err(MigrationError::Operation("check failed".into())));
        assert_eq!(migration.rollbacks.get(), if reversible { 1 } else { 0 });
        assert!(!runner.ledger().is_applied("0002-check"));
    }
}
