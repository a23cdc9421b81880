use linura::converge::{
    managed_step, ExecutionDisposition, ManagedAction, ManagedEvent, ManagedPhase, ManagedState,
    RecoveryOutcome, TransactionState, VerificationDisposition,
};
use linura::managed::ManagedLifecycleError;
use linura::policy::{ApprovalClass, PolicyDecision};

fn begin(human: bool, interactive: bool, approver: &str) -> ManagedEvent {
    ManagedEvent::Begin {
        checked: Ok(()),
        human,
        interactive,
        principal: "uid:0".to_string(),
        approver: approver.to_string(),
        transaction_id: "tx:1".to_string(),
    }
}

fn verified(disposition: VerificationDisposition) -> ManagedEvent {
    ManagedEvent::Verified { disposition, detail: "checked".to_string() }
}

fn step(state: ManagedState, event: ManagedEvent) -> (ManagedState, ManagedAction) {
    managed_step(state, event)
}

fn started() -> ManagedState {
    let (state, action) = step(ManagedState::new(), begin(true, true, "uid:0"));
    assert_eq!(action, ManagedAction::ReadSnapshot);
    assert_eq!(state.transaction_id, "tx:1");
    state
}

#[test]
fn first_attempt_passes_every_stage_in_order() {
    let (s, a) = step(started(), ManagedEvent::SnapshotMissing);
    assert_eq!(a, ManagedAction::BuildCandidate);
    let (s, a) = step(
        s,
        ManagedEvent::Candidate {
            effect: Ok(true),
            decision: PolicyDecision::RequireApproval {
                class: ApprovalClass::Administrator,
                reason: "protected".to_string(),
            },
        },
    );
    assert_eq!(a, ManagedAction::IssueApproval);
    let (s, a) = step(s, ManagedEvent::ApprovalIssued);
    assert_eq!(a, ManagedAction::PrepareAndHandOff);
    let (s, a) = step(
        s,
        ManagedEvent::HandedOff { plan_id: "plan:1".to_string(), dispatch_digest: "ab".to_string() },
    );
    assert_eq!(a, ManagedAction::Execute);
    assert_eq!(s.completed, 5);
    let (s, a) = step(
        s,
        ManagedEvent::Executed {
            dispatch_digest: "ab".to_string(),
            disposition: ExecutionDisposition::Dispatched,
            detail: String::new(),
        },
    );
    assert_eq!(a, ManagedAction::Verify);
    assert_eq!(s.completed, 6);
    let (s, a) = step(s, verified(VerificationDisposition::Satisfied));
    assert_eq!(a, ManagedAction::Recover { with_approval: false });
    assert_eq!(s.completed, 7);
    let (s, a) = step(s, ManagedEvent::Recovered(RecoveryOutcome::Verified));
    assert_eq!(a, ManagedAction::Commit);
    let (s, a) = step(s, ManagedEvent::Committed(TransactionState::Committed));
    assert_eq!(a, ManagedAction::CheckIntegrity);
    assert_eq!(s.completed, 8);
    let (s, a) = step(s, ManagedEvent::IntegrityChecked);
    assert_eq!(a, ManagedAction::Verify);
    assert_eq!(s.completed, 9);
    let (s, a) = step(s, verified(VerificationDisposition::Satisfied));
    assert_eq!(a, ManagedAction::Plan);
    let (s, a) = step(s, ManagedEvent::Planned { converged: true });
    assert_eq!(a, ManagedAction::Complete);
    assert_eq!(s.phase, ManagedPhase::Done);
    assert_eq!(s.completed, 10);
    assert_eq!(s.plan_id, "plan:1");
    assert_eq!(s.dispatch_digest.as_deref(), Some("ab"));
    assert_eq!(s.execution, Some(ExecutionDisposition::Dispatched));
    assert_eq!(s.verification, Some(VerificationDisposition::Satisfied));
    assert_eq!(s.final_state, Some(TransactionState::Committed));
    assert!(!s.recovered);
}

#[test]
fn non_interactive_actor_or_other_approver_is_refused() {
    let (s, a) = step(ManagedState::new(), begin(true, false, "uid:0"));
    assert_eq!(
        a,
        ManagedAction::Refuse(ManagedLifecycleError::ApprovalBoundary(
            "v0.6 managed mutation requires an authenticated interactive human actor".to_string()
        ))
    );
    assert_eq!(s.phase, ManagedPhase::Done);
    let (_, a) = step(ManagedState::new(), begin(true, true, "uid:1"));
    assert_eq!(
        a,
        ManagedAction::Refuse(ManagedLifecycleError::ApprovalBoundary(
            "the approving administrator must be the authenticated mutation principal".to_string()
        ))
    );
}

#[test]
fn executor_digest_mismatch_and_rejection_are_refused() {
    let (s, _) = step(started(), ManagedEvent::SnapshotMissing);
    let (s, _) = step(s, ManagedEvent::Candidate { effect: Ok(true), decision: PolicyDecision::Allow });
    let (s, _) = step(
        s,
        ManagedEvent::HandedOff { plan_id: "plan:1".to_string(), dispatch_digest: "ab".to_string() },
    );
    let (_, a) = step(
        s.clone(),
        ManagedEvent::Executed {
            dispatch_digest: "cd".to_string(),
            disposition: ExecutionDisposition::Dispatched,
            detail: String::new(),
        },
    );
    assert_eq!(
        a,
        ManagedAction::Refuse(ManagedLifecycleError::Contract(
            "executor returned a dispatch digest different from the authorized handoff".to_string()
        ))
    );
    let (_, a) = step(
        s,
        ManagedEvent::Executed {
            dispatch_digest: "ab".to_string(),
            disposition: ExecutionDisposition::RejectedBeforeDispatch,
            detail: "busy".to_string(),
        },
    );
    assert_eq!(a, ManagedAction::Refuse(ManagedLifecycleError::ExecutionRejected("busy".to_string())));
}

#[test]
fn terminal_and_prepared_snapshots_are_refused() {
    let (_, a) = step(
        started(),
        ManagedEvent::Snapshot {
            state: TransactionState::Aborted,
            state_name: "aborted".to_string(),
            binding_digest: "b".to_string(),
        },
    );
    assert_eq!(
        a,
        ManagedAction::Refuse(ManagedLifecycleError::TerminalState(
            "tx:1 is aborted; use a new operation id after reviewing durable evidence".to_string()
        ))
    );
    let (_, a) = step(
        started(),
        ManagedEvent::Snapshot {
            state: TransactionState::Prepared,
            state_name: "prepared".to_string(),
            binding_digest: "b".to_string(),
        },
    );
    assert!(matches!(a, ManagedAction::Refuse(ManagedLifecycleError::Indeterminate(_))));
}

#[test]
fn committed_transaction_is_reverified_and_reconciled() {
    let committed = ManagedEvent::Snapshot {
        state: TransactionState::Committed,
        state_name: "committed".to_string(),
        binding_digest: "bind".to_string(),
    };
    let (s, a) = step(started(), committed);
    assert_eq!(a, ManagedAction::Verify);
    let (_, refused) = step(s.clone(), verified(VerificationDisposition::NotSatisfied));
    assert_eq!(
        refused,
        ManagedAction::Refuse(ManagedLifecycleError::Reconciliation(
            "committed state no longer satisfies its managed postcondition: checked. Use a new operation id to authorize a new convergence."
                .to_string()
        ))
    );
    let (s, a) = step(s, verified(VerificationDisposition::Satisfied));
    assert_eq!(a, ManagedAction::CheckIntegrity);
    assert_eq!(s.completed, 8);
    assert!(s.recovered);
    assert_eq!(s.plan_id, "bind");
    assert_eq!(s.final_state, Some(TransactionState::Committed));
}

#[test]
fn indeterminate_recovery_withholds_commit_without_satisfied_verification() {
    let indeterminate = ManagedEvent::Snapshot {
        state: TransactionState::Indeterminate,
        state_name: "indeterminate".to_string(),
        binding_digest: "bind".to_string(),
    };
    let (s, _) = step(started(), indeterminate);
    let (s, a) = step(s, verified(VerificationDisposition::NotSatisfied));
    assert_eq!(a, ManagedAction::BuildCandidate);
    let (_, swapped) = step(
        s.clone(),
        ManagedEvent::Candidate { effect: Ok(false), decision: PolicyDecision::Allow },
    );
    assert_eq!(
        swapped,
        ManagedAction::Refuse(ManagedLifecycleError::Contract(
            "recovery candidate substituted the originally bound effect".to_string()
        ))
    );
    let (s, a) = step(s, ManagedEvent::Candidate { effect: Ok(true), decision: PolicyDecision::Allow });
    assert_eq!(a, ManagedAction::Recover { with_approval: false });
    let (_, a) = step(s.clone(), ManagedEvent::Recovered(RecoveryOutcome::Verified));
    assert!(matches!(a, ManagedAction::Refuse(ManagedLifecycleError::Indeterminate(_))));
    let (_, a) = step(s, ManagedEvent::Recovered(RecoveryOutcome::StillIndeterminate("tx:1".to_string())));
    assert_eq!(
        a,
        ManagedAction::Refuse(ManagedLifecycleError::Indeterminate(
            "tx:1 remains indeterminate; no replay was attempted".to_string()
        ))
    );
}

#[test]
fn unsupported_approval_class_is_refused_by_name() {
    let (s, _) = step(started(), ManagedEvent::SnapshotMissing);
    let (_, a) = step(
        s,
        ManagedEvent::Candidate {
            effect: Ok(true),
            decision: PolicyDecision::RequireApproval {
                class: ApprovalClass::DestructiveAction,
                reason: "destructive".to_string(),
            },
        },
    );
    assert_eq!(
        a,
        ManagedAction::Refuse(ManagedLifecycleError::ApprovalBoundary(
            "v0.6 narrow effect requires unsupported approval class DestructiveAction".to_string()
        ))
    );
}

#[test]
fn an_event_out_of_turn_is_refused() {
    let (s, a) = step(ManagedState::new(), ManagedEvent::IntegrityChecked);
    assert_eq!(
        a,
        ManagedAction::Refuse(ManagedLifecycleError::Contract(
            "lifecycle event does not answer the pending work".to_string()
        ))
    );
    assert_eq!(s.phase, ManagedPhase::Done);
    assert_eq!(s.completed, 0);
}
