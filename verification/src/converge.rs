//! The decisions of a managed systemd active-state convergence.
//!
//! Convergence alternates durable-authority operations, a privileged executor
//! and an independent verifier with decisions. The decisions live here as a
//! step function from the current state and the outcome of the last piece of
//! outside work to the next state and the next piece of work to perform.
//! Lifecycle stages are counted in canonical order after intake: observe,
//! plan, validate, authorize, prepare, execute, verify, commit, audit,
//! reconcile.
use vstd::prelude::*;
use crate::managed::{
    effect_from_request, identity_fault, managed_payload, validate_request_identity,
    ManagedLifecycleError,
};
use crate::protocol::{PlanDesiredStateRequest, RequestModel};
use crate::policy::{ApprovalClass, PolicyDecision};
use crate::text::{owned, append_str, str_eq};

verus! {

/// The number of canonical lifecycle stages after intake.
pub const LIFECYCLE_STAGES: u8 = 10;

/// Stages completed once the authority has prepared the effect.
pub const PREPARED_STAGES: u8 = 5;

/// Stages completed once the effect was committed.
pub const COMMITTED_STAGES: u8 = 8;

/// The durable state of a transaction.
#[derive(Clone, Copy, Debug, PartialEq, Eq)]
pub enum TransactionState {
    Prepared,
    Indeterminate,
    Verified,
    Committed,
    Aborted,
    RecoveryBlocked,
}

/// What the privileged executor reports of a dispatch.
#[derive(Clone, Copy, Debug, PartialEq, Eq)]
pub enum ExecutionDisposition {
    RejectedBeforeDispatch,
    Dispatched,
    Indeterminate,
}

/// What the independent verifier reports of the intended state.
#[derive(Clone, Copy, Debug, PartialEq, Eq)]
pub enum VerificationDisposition {
    Satisfied,
    NotSatisfied,
    Inconclusive,
}

/// How durable recovery of an indeterminate transaction ended; blocked and
/// still-indeterminate outcomes name the transaction.
#[derive(Clone, Debug, PartialEq, Eq)]
pub enum RecoveryOutcome {
    Verified,
    Reprepared,
    Blocked(String),
    StillIndeterminate(String),
}

/// Where a convergence stands.
#[derive(Clone, Copy, Debug, PartialEq, Eq, Structural)]
pub enum ManagedPhase {
    Start,
    Snapshot,
    Candidate,
    Approval,
    Handoff,
    Execution,
    Verification,
    Recovery,
    Commit,
    Integrity,
    ReconcileVerify,
    ReconcilePlan,
    ResumeVerified,
    ResumeCommitted,
    FinishVerify,
    FinishCandidate,
    FinishApproval,
    FinishRecovery,
    Done,
}

/// The state of one convergence and the facts its receipt reports.
#[derive(Clone, Debug, PartialEq, Eq)]
pub struct ManagedState {
    pub phase: ManagedPhase,
    pub transaction_id: String,
    pub plan_id: String,
    pub dispatch_digest: Option<String>,
    pub execution: Option<ExecutionDisposition>,
    pub verification: Option<VerificationDisposition>,
    pub final_state: Option<TransactionState>,
    pub recovered: bool,
    pub completed: u8,
}

/// The outcome of the last piece of outside work.
#[derive(Debug)]
pub enum ManagedEvent {
    /// The request was checked (`check_managed_request`) and the actor and
    /// approval are known.
    Begin {
        checked: Result<(), ManagedLifecycleError>,
        human: bool,
        interactive: bool,
        principal: String,
        approver: String,
        transaction_id: String,
    },
    SnapshotMissing,
    Snapshot { state: TransactionState, state_name: String, binding_digest: String },
    /// The requested state already holds.
    NotMutation,
    /// A trusted candidate was planned; `effect` says whether its effect is the
    /// requested one.
    Candidate { effect: Result<bool, ManagedLifecycleError>, decision: PolicyDecision },
    ApprovalIssued,
    HandedOff { plan_id: String, dispatch_digest: String },
    Executed { dispatch_digest: String, disposition: ExecutionDisposition, detail: String },
    Verified { disposition: VerificationDisposition, detail: String },
    Recovered(RecoveryOutcome),
    Committed(TransactionState),
    IntegrityChecked,
    /// Fresh authoritative planning ran; `converged` says whether it found no change.
    Planned { converged: bool },
    AuthorityFailed(String),
    ExecutorFailed(String),
    VerifierFailed(String),
    PlanningFailed(String),
    Failed(ManagedLifecycleError),
}

/// The next piece of work.
#[derive(Debug, PartialEq, Eq)]
pub enum ManagedAction {
    ReadSnapshot,
    BuildCandidate,
    IssueApproval,
    PrepareAndHandOff,
    Execute,
    Verify,
    Recover { with_approval: bool },
    Commit,
    ResumeAndCommit,
    CheckIntegrity,
    Plan,
    Complete,
    Refuse(ManagedLifecycleError),
}

/// Why the effect of a request is not the one managed convergence supports.
pub open spec fn request_effect_fault(m: RequestModel) -> Option<Seq<char>> {
    if m.provider != "systemd"@ || m.capability != "systemd.unit.observe"@ {
        Some("only the authoritative systemd unit observation route is supported"@)
    } else {
        match managed_payload(m.resource, m.desired) {
            Ok(_) => None,
            Err(x) => Some(x),
        }
    }
}

/// Checks a request before convergence begins: its effect must be the
/// supported systemd active-state change, then its identifier must bind its
/// operation to its exact body.
pub fn check_managed_request(request: &PlanDesiredStateRequest) -> (r: Result<(), ManagedLifecycleError>)
    ensures
        match request_effect_fault(request@) {
            Some(x) => r matches Err(ManagedLifecycleError::UnsupportedEffect(d)) && d@ == x,
            None => match identity_fault(request@) {
                Some(x) => r matches Err(ManagedLifecycleError::InvalidRequestIdentity(d)) && d@ == x,
                None => r is Ok,
            },
        },
{
    match effect_from_request(request) {
        Err(e) => {
            return Err(e);
        },
        Ok(_) => {},
    }
    validate_request_identity(request)
}

/// The kind of a managed-mutation error.
#[derive(Clone, Copy, Debug, PartialEq, Eq)]
pub enum ManagedErrorKind {
    UnsupportedEffect,
    InvalidRequestIdentity,
    ApprovalBoundary,
    Authority,
    Executor,
    ExecutionRejected,
    Verification,
    VerificationNotSatisfied,
    Indeterminate,
    TerminalState,
    Reconciliation,
    Contract,
}

/// The kind and the detail text of an error.
pub open spec fn error_model(e: ManagedLifecycleError) -> (ManagedErrorKind, Seq<char>) {
    match e {
        ManagedLifecycleError::UnsupportedEffect(d) => (ManagedErrorKind::UnsupportedEffect, d@),
        ManagedLifecycleError::InvalidRequestIdentity(d) => (ManagedErrorKind::InvalidRequestIdentity, d@),
        ManagedLifecycleError::ApprovalBoundary(d) => (ManagedErrorKind::ApprovalBoundary, d@),
        ManagedLifecycleError::Authority(d) => (ManagedErrorKind::Authority, d@),
        ManagedLifecycleError::Executor(d) => (ManagedErrorKind::Executor, d@),
        ManagedLifecycleError::ExecutionRejected(d) => (ManagedErrorKind::ExecutionRejected, d@),
        ManagedLifecycleError::Verification(d) => (ManagedErrorKind::Verification, d@),
        ManagedLifecycleError::VerificationNotSatisfied(d) => (ManagedErrorKind::VerificationNotSatisfied, d@),
        ManagedLifecycleError::Indeterminate(d) => (ManagedErrorKind::Indeterminate, d@),
        ManagedLifecycleError::TerminalState(d) => (ManagedErrorKind::TerminalState, d@),
        ManagedLifecycleError::Reconciliation(d) => (ManagedErrorKind::Reconciliation, d@),
        ManagedLifecycleError::Contract(d) => (ManagedErrorKind::Contract, d@),
    }
}

/// The debug name of an approval class.
pub open spec fn approval_class_debug(c: ApprovalClass) -> Seq<char> {
    match c {
        ApprovalClass::InteractiveUser => "InteractiveUser"@,
        ApprovalClass::Administrator => "Administrator"@,
        ApprovalClass::DestructiveAction => "DestructiveAction"@,
    }
}

/// The state with only its phase changed.
pub open spec fn moved(s: ManagedState, p: ManagedPhase) -> ManagedState {
    ManagedState { phase: p, ..s }
}

/// The convergence stops with the given error.
pub open spec fn refused(
    s: ManagedState,
    t: ManagedState,
    a: ManagedAction,
    k: ManagedErrorKind,
    d: Seq<char>,
) -> bool {
    &&& t == moved(s, ManagedPhase::Done)
    &&& a matches ManagedAction::Refuse(err) && error_model(err) == (k, d)
}

/// The convergence stops with exactly this error.
pub open spec fn refused_with(s: ManagedState, t: ManagedState, a: ManagedAction, err: ManagedLifecycleError) -> bool {
    t == moved(s, ManagedPhase::Done) && a == ManagedAction::Refuse(err)
}

/// Phases in which a durable-authority operation is outstanding.
pub open spec fn authority_phase(p: ManagedPhase) -> bool {
    p == ManagedPhase::Snapshot || p == ManagedPhase::Candidate || p == ManagedPhase::Approval
        || p == ManagedPhase::Handoff || p == ManagedPhase::Recovery || p == ManagedPhase::Commit
        || p == ManagedPhase::Integrity || p == ManagedPhase::FinishCandidate
        || p == ManagedPhase::FinishApproval || p == ManagedPhase::FinishRecovery
}

/// Phases in which the independent verifier was asked.
pub open spec fn verify_phase(p: ManagedPhase) -> bool {
    p == ManagedPhase::Verification || p == ManagedPhase::ReconcileVerify
        || p == ManagedPhase::ResumeVerified || p == ManagedPhase::ResumeCommitted
        || p == ManagedPhase::FinishVerify
}

/// Whether an event answers the work that the phase asked for.
pub open spec fn expects(p: ManagedPhase, e: ManagedEvent) -> bool {
    match e {
        ManagedEvent::Begin { .. } => p == ManagedPhase::Start,
        ManagedEvent::SnapshotMissing => p == ManagedPhase::Snapshot,
        ManagedEvent::Snapshot { .. } => p == ManagedPhase::Snapshot,
        ManagedEvent::NotMutation => p == ManagedPhase::Candidate,
        ManagedEvent::Candidate { .. } => p == ManagedPhase::Candidate || p == ManagedPhase::FinishCandidate,
        ManagedEvent::ApprovalIssued => p == ManagedPhase::Approval || p == ManagedPhase::FinishApproval,
        ManagedEvent::HandedOff { .. } => p == ManagedPhase::Handoff,
        ManagedEvent::Executed { .. } => p == ManagedPhase::Execution,
        ManagedEvent::Verified { .. } => verify_phase(p),
        ManagedEvent::Recovered(_) => p == ManagedPhase::Recovery || p == ManagedPhase::FinishRecovery,
        ManagedEvent::Committed(_) => p == ManagedPhase::Commit,
        ManagedEvent::IntegrityChecked => p == ManagedPhase::Integrity,
        ManagedEvent::Planned { .. } => p == ManagedPhase::ReconcilePlan,
        ManagedEvent::AuthorityFailed(_) => authority_phase(p),
        ManagedEvent::ExecutorFailed(_) => p == ManagedPhase::Execution,
        ManagedEvent::VerifierFailed(_) => verify_phase(p),
        ManagedEvent::PlanningFailed(_) => p == ManagedPhase::ReconcilePlan,
        ManagedEvent::Failed(_) => p == ManagedPhase::Approval || p == ManagedPhase::FinishApproval
            || p == ManagedPhase::Handoff,
    }
}

/// What a policy decision on a matching candidate leads to. `fresh` tells the
/// first attempt from the recovery of an indeterminate transaction.
pub open spec fn authorize_next(
    s: ManagedState,
    decision: PolicyDecision,
    fresh: bool,
    t: ManagedState,
    a: ManagedAction,
) -> bool {
    match decision {
        PolicyDecision::Allow => if fresh {
            t == moved(s, ManagedPhase::Handoff) && a == ManagedAction::PrepareAndHandOff
        } else {
            t == moved(s, ManagedPhase::FinishRecovery) && a == (ManagedAction::Recover { with_approval: false })
        },
        PolicyDecision::RequireApproval { class, .. } => if class == ApprovalClass::Administrator {
            if fresh {
                t == moved(s, ManagedPhase::Approval) && a == ManagedAction::IssueApproval
            } else {
                t == moved(s, ManagedPhase::FinishApproval) && a == ManagedAction::IssueApproval
            }
        } else {
            refused(s, t, a, ManagedErrorKind::ApprovalBoundary,
                "v0.6 narrow effect requires unsupported approval class "@ + approval_class_debug(class))
        },
        PolicyDecision::Deny { reason } => refused(s, t, a, ManagedErrorKind::ApprovalBoundary, reason@),
        PolicyDecision::Blocked { reason } => refused(s, t, a, ManagedErrorKind::ApprovalBoundary, reason@),
    }
}

/// What a trusted candidate leads to.
pub open spec fn candidate_next(
    s: ManagedState,
    effect: Result<bool, ManagedLifecycleError>,
    decision: PolicyDecision,
    fresh: bool,
    t: ManagedState,
    a: ManagedAction,
) -> bool {
    match effect {
        Err(err) => refused_with(s, t, a, err),
        Ok(same) => if !same {
            refused(s, t, a, ManagedErrorKind::Contract, if fresh {
                "trusted plan effect differs from the exact public request effect"@
            } else {
                "recovery candidate substituted the originally bound effect"@
            })
        } else {
            authorize_next(s, decision, fresh, t, a)
        },
    }
}

/// What an outside failure leads to.
pub open spec fn failure_next(s: ManagedState, e: ManagedEvent, t: ManagedState, a: ManagedAction) -> bool {
    match e {
        ManagedEvent::AuthorityFailed(d) => refused(s, t, a, ManagedErrorKind::Authority, d@),
        ManagedEvent::ExecutorFailed(d) => refused(s, t, a, ManagedErrorKind::Executor, d@),
        ManagedEvent::VerifierFailed(d) => refused(s, t, a, ManagedErrorKind::Verification, d@),
        ManagedEvent::PlanningFailed(d) => refused(s, t, a, ManagedErrorKind::Reconciliation, d@),
        ManagedEvent::Failed(err) => refused_with(s, t, a, err),
        _ => false,
    }
}

/// Whether an event reports an outside failure.
pub open spec fn is_failure(e: ManagedEvent) -> bool {
    e is AuthorityFailed || e is ExecutorFailed || e is VerifierFailed || e is PlanningFailed || e is Failed
}

/// The decisions at the start and on the durable snapshot.
pub open spec fn start_next(s: ManagedState, e: ManagedEvent, t: ManagedState, a: ManagedAction) -> bool {
    match e {
        ManagedEvent::Begin { checked, human, interactive, principal, approver, transaction_id } => {
            if checked is Err {
                refused_with(s, t, a, checked->Err_0)
            } else if !(human && interactive) {
                refused(s, t, a, ManagedErrorKind::ApprovalBoundary,
                    "v0.6 managed mutation requires an authenticated interactive human actor"@)
            } else if approver@ != principal@ {
                refused(s, t, a, ManagedErrorKind::ApprovalBoundary,
                    "the approving administrator must be the authenticated mutation principal"@)
            } else {
                t == ManagedState { phase: ManagedPhase::Snapshot, transaction_id, ..s }
                    && a == ManagedAction::ReadSnapshot
            }
        },
        ManagedEvent::SnapshotMissing => t == moved(s, ManagedPhase::Candidate) && a == ManagedAction::BuildCandidate,
        ManagedEvent::Snapshot { state, state_name, binding_digest } => match state {
            TransactionState::Prepared => refused(s, t, a, ManagedErrorKind::Indeterminate,
                s.transaction_id@ + " is still prepared after a failed pre-dispatch authority use; restart the trusted control composition root so restart recovery can retire it before retry"@),
            TransactionState::Indeterminate =>
                t == ManagedState { phase: ManagedPhase::FinishVerify, plan_id: binding_digest, ..s }
                    && a == ManagedAction::Verify,
            TransactionState::Verified =>
                t == ManagedState { phase: ManagedPhase::ResumeVerified, plan_id: binding_digest, ..s }
                    && a == ManagedAction::Verify,
            TransactionState::Committed =>
                t == ManagedState { phase: ManagedPhase::ResumeCommitted, plan_id: binding_digest, ..s }
                    && a == ManagedAction::Verify,
            _ => refused(s, t, a, ManagedErrorKind::TerminalState,
                s.transaction_id@ + " is "@ + state_name@ + "; use a new operation id after reviewing durable evidence"@),
        },
        _ => false,
    }
}

/// The decisions of a first attempt, from the candidate to the recovery
/// that confirms the verified effect.
pub open spec fn fresh_next(s: ManagedState, e: ManagedEvent, t: ManagedState, a: ManagedAction) -> bool {
    match e {
        ManagedEvent::NotMutation => refused(s, t, a, ManagedErrorKind::UnsupportedEffect,
            "requested state already holds; no external effect is necessary"@),
        ManagedEvent::Candidate { effect, decision } =>
            candidate_next(s, effect, decision, s.phase == ManagedPhase::Candidate, t, a),
        ManagedEvent::ApprovalIssued => if s.phase == ManagedPhase::Approval {
            t == moved(s, ManagedPhase::Handoff) && a == ManagedAction::PrepareAndHandOff
        } else {
            t == moved(s, ManagedPhase::FinishRecovery) && a == (ManagedAction::Recover { with_approval: true })
        },
        ManagedEvent::HandedOff { plan_id, dispatch_digest } =>
            t == ManagedState {
                phase: ManagedPhase::Execution,
                plan_id,
                dispatch_digest: Some(dispatch_digest),
                completed: PREPARED_STAGES,
                ..s
            } && a == ManagedAction::Execute,
        ManagedEvent::Executed { dispatch_digest, disposition, detail } =>
            if !(s.dispatch_digest matches Some(d) && d@ == dispatch_digest@) {
                refused(s, t, a, ManagedErrorKind::Contract,
                    "executor returned a dispatch digest different from the authorized handoff"@)
            } else if disposition == ExecutionDisposition::RejectedBeforeDispatch {
                refused(s, t, a, ManagedErrorKind::ExecutionRejected, detail@)
            } else {
                t == ManagedState {
                    phase: ManagedPhase::Verification,
                    execution: Some(disposition),
                    completed: (PREPARED_STAGES + 1) as u8,
                    ..s
                } && a == ManagedAction::Verify
            },
        _ => false,
    }
}

/// The decisions on the verifier's answers.
pub open spec fn verified_next(
    s: ManagedState,
    disposition: VerificationDisposition,
    detail: Seq<char>,
    t: ManagedState,
    a: ManagedAction,
) -> bool {
    match s.phase {
        ManagedPhase::Verification => match disposition {
            VerificationDisposition::Satisfied => t == ManagedState {
                phase: ManagedPhase::Recovery,
                verification: Some(disposition),
                completed: (PREPARED_STAGES + 2) as u8,
                ..s
            } && a == (ManagedAction::Recover { with_approval: false }),
            VerificationDisposition::NotSatisfied =>
                refused(s, t, a, ManagedErrorKind::VerificationNotSatisfied, detail),
            VerificationDisposition::Inconclusive => refused(s, t, a, ManagedErrorKind::Indeterminate, detail),
        },
        ManagedPhase::ReconcileVerify => if disposition == VerificationDisposition::Satisfied {
            t == moved(s, ManagedPhase::ReconcilePlan) && a == ManagedAction::Plan
        } else {
            refused(s, t, a, ManagedErrorKind::Reconciliation, detail)
        },
        ManagedPhase::ResumeVerified => if disposition == VerificationDisposition::Satisfied {
            t == ManagedState {
                phase: ManagedPhase::Commit,
                verification: Some(disposition),
                recovered: true,
                ..s
            } && a == ManagedAction::ResumeAndCommit
        } else {
            refused(s, t, a, ManagedErrorKind::Indeterminate,
                "verified durable state is not independently re-proven: "@ + detail)
        },
        ManagedPhase::ResumeCommitted => if disposition == VerificationDisposition::Satisfied {
            t == ManagedState {
                phase: ManagedPhase::Integrity,
                verification: Some(disposition),
                final_state: Some(TransactionState::Committed),
                recovered: true,
                completed: COMMITTED_STAGES,
                ..s
            } && a == ManagedAction::CheckIntegrity
        } else {
            refused(s, t, a, ManagedErrorKind::Reconciliation,
                "committed state no longer satisfies its managed postcondition: "@ + detail
                    + ". Use a new operation id to authorize a new convergence."@)
        },
        _ => match disposition {
            VerificationDisposition::Inconclusive => refused(s, t, a, ManagedErrorKind::Indeterminate, detail),
            VerificationDisposition::NotSatisfied => t == ManagedState {
                phase: ManagedPhase::FinishCandidate,
                verification: Some(disposition),
                recovered: true,
                ..s
            } && a == ManagedAction::BuildCandidate,
            VerificationDisposition::Satisfied => t == ManagedState {
                phase: ManagedPhase::FinishRecovery,
                verification: Some(disposition),
                recovered: true,
                ..s
            } && a == (ManagedAction::Recover { with_approval: false }),
        },
    }
}

/// The decisions on durable recovery.
pub open spec fn recovered_next(s: ManagedState, o: RecoveryOutcome, t: ManagedState, a: ManagedAction) -> bool {
    if s.phase == ManagedPhase::Recovery {
        match o {
            RecoveryOutcome::Verified => t == moved(s, ManagedPhase::Commit) && a == ManagedAction::Commit,
            RecoveryOutcome::Reprepared => refused(s, t, a, ManagedErrorKind::Indeterminate,
                "state changed after independent verification; authority was reprepared and requires a new explicit invocation"@),
            RecoveryOutcome::Blocked(id) => refused(s, t, a, ManagedErrorKind::TerminalState,
                "recovery blocked transaction "@ + id@),
            RecoveryOutcome::StillIndeterminate(id) => refused(s, t, a, ManagedErrorKind::Indeterminate,
                "transaction "@ + id@ + " remains indeterminate after verification"@),
        }
    } else {
        match o {
            RecoveryOutcome::Verified => if s.verification != Some(VerificationDisposition::Satisfied) {
                refused(s, t, a, ManagedErrorKind::Indeterminate,
                    "fresh Control observation reached intended state after the independent verifier did not; durable state is verified but commit is withheld until a later independent re-verification"@)
            } else {
                t == moved(s, ManagedPhase::Commit) && a == ManagedAction::Commit
            },
            RecoveryOutcome::Reprepared => refused(s, t, a, ManagedErrorKind::Indeterminate,
                "independent verification proves the intended effect absent; durable authority is safely reprepared but execution requires a new explicit invocation"@),
            RecoveryOutcome::Blocked(id) => refused(s, t, a, ManagedErrorKind::TerminalState,
                "recovery found conflicting state and blocked "@ + id@),
            RecoveryOutcome::StillIndeterminate(id) => refused(s, t, a, ManagedErrorKind::Indeterminate,
                id@ + " remains indeterminate; no replay was attempted"@),
        }
    }
}

/// The decisions after the commit: audit and reconciliation.
pub open spec fn closing_next(s: ManagedState, e: ManagedEvent, t: ManagedState, a: ManagedAction) -> bool {
    match e {
        ManagedEvent::Committed(state) => t == ManagedState {
            phase: ManagedPhase::Integrity,
            final_state: Some(state),
            completed: COMMITTED_STAGES,
            ..s
        } && a == ManagedAction::CheckIntegrity,
        ManagedEvent::IntegrityChecked => t == ManagedState {
            phase: ManagedPhase::ReconcileVerify,
            completed: (COMMITTED_STAGES + 1) as u8,
            ..s
        } && a == ManagedAction::Verify,
        ManagedEvent::Planned { converged } => if converged {
            t == ManagedState { phase: ManagedPhase::Done, completed: LIFECYCLE_STAGES, ..s }
                && a == ManagedAction::Complete
        } else {
            refused(s, t, a, ManagedErrorKind::Reconciliation,
                "fresh authoritative planning does not converge to no-change"@)
        },
        _ => false,
    }
}

/// One step of a convergence: from state `s` and the outcome `e` of the
/// last piece of work to the state `t` and the next work `a`.
pub open spec fn managed_transition(s: ManagedState, e: ManagedEvent, t: ManagedState, a: ManagedAction) -> bool {
    if !expects(s.phase, e) {
        refused(s, t, a, ManagedErrorKind::Contract, "lifecycle event does not answer the pending work"@)
    } else if is_failure(e) {
        failure_next(s, e, t, a)
    } else {
        match e {
            ManagedEvent::Begin { .. } => start_next(s, e, t, a),
            ManagedEvent::SnapshotMissing => start_next(s, e, t, a),
            ManagedEvent::Snapshot { .. } => start_next(s, e, t, a),
            ManagedEvent::Verified { disposition, detail } => verified_next(s, disposition, detail@, t, a),
            ManagedEvent::Recovered(o) => recovered_next(s, o, t, a),
            ManagedEvent::Committed(_) => closing_next(s, e, t, a),
            ManagedEvent::IntegrityChecked => closing_next(s, e, t, a),
            ManagedEvent::Planned { .. } => closing_next(s, e, t, a),
            _ => fresh_next(s, e, t, a),
        }
    }
}

/// What every state reached from the start holds: the stages completed at
/// each phase, and that commit and the phases after it rest on a satisfied
/// verification.
pub open spec fn managed_inv(s: ManagedState) -> bool {
    let satisfied = s.verification == Some(VerificationDisposition::Satisfied);
    &&& s.completed <= LIFECYCLE_STAGES
    &&& match s.phase {
        ManagedPhase::Start | ManagedPhase::Snapshot | ManagedPhase::Candidate | ManagedPhase::Approval
        | ManagedPhase::Handoff | ManagedPhase::ResumeVerified | ManagedPhase::ResumeCommitted
        | ManagedPhase::FinishVerify => s.completed == 0,
        ManagedPhase::FinishCandidate | ManagedPhase::FinishApproval | ManagedPhase::FinishRecovery =>
            s.completed == 0 && s.verification is Some,
        ManagedPhase::Execution => s.completed == PREPARED_STAGES && s.dispatch_digest is Some,
        ManagedPhase::Verification => s.completed == PREPARED_STAGES + 1 && s.execution is Some
            && s.dispatch_digest is Some,
        ManagedPhase::Recovery => s.completed == PREPARED_STAGES + 2 && satisfied,
        ManagedPhase::Commit => satisfied && (s.completed == 0 || s.completed == PREPARED_STAGES + 2),
        ManagedPhase::Integrity => s.completed == COMMITTED_STAGES && satisfied && s.final_state is Some,
        ManagedPhase::ReconcileVerify | ManagedPhase::ReconcilePlan =>
            s.completed == COMMITTED_STAGES + 1 && satisfied && s.final_state is Some,
        ManagedPhase::Done => s.completed == LIFECYCLE_STAGES ==> satisfied && s.final_state is Some,
    }
}

/// Every step keeps the invariant, and completed stages never go back; an
/// event that does not answer the pending work is refused.
pub proof fn law_step_keeps_invariant(s: ManagedState, e: ManagedEvent, t: ManagedState, a: ManagedAction)
    requires
        managed_inv(s),
        managed_transition(s, e, t, a),
    ensures
        managed_inv(t),
        t.completed >= s.completed,
{
}

/// The effect is executed only once the authority prepared and handed it off.
pub proof fn law_execution_follows_handoff(s: ManagedState, e: ManagedEvent, t: ManagedState, a: ManagedAction)
    requires
        expects(s.phase, e),
        managed_transition(s, e, t, a),
        a == ManagedAction::Execute,
    ensures
        s.phase == ManagedPhase::Handoff,
        t.completed == PREPARED_STAGES,
        t.dispatch_digest is Some,
{
}

/// A commit is asked for only after the independent verifier was satisfied.
pub proof fn law_commit_follows_satisfied_verification(
    s: ManagedState,
    e: ManagedEvent,
    t: ManagedState,
    a: ManagedAction,
)
    requires
        managed_inv(s),
        expects(s.phase, e),
        managed_transition(s, e, t, a),
        a == ManagedAction::Commit || a == ManagedAction::ResumeAndCommit,
    ensures
        t.verification == Some(VerificationDisposition::Satisfied),
        t.phase == ManagedPhase::Commit,
{
}

/// A convergence completes only through every lifecycle stage, after a
/// satisfied verification and with a durable final state.
pub proof fn law_completion_passes_every_stage(s: ManagedState, e: ManagedEvent, t: ManagedState, a: ManagedAction)
    requires
        managed_inv(s),
        expects(s.phase, e),
        managed_transition(s, e, t, a),
        a == ManagedAction::Complete,
    ensures
        t.phase == ManagedPhase::Done,
        t.completed == LIFECYCLE_STAGES,
        t.verification == Some(VerificationDisposition::Satisfied),
        t.final_state is Some,
{
}

/// Convergence succeeds only when fresh authoritative planning after the
/// commit finds nothing left to change: planning that still proposes a change
/// is refused as a reconciliation failure, keeping the stages completed so
/// far, and completion answers nothing but planning that converged.
pub proof fn law_completion_requires_converged_planning(
    s: ManagedState,
    e: ManagedEvent,
    t: ManagedState,
    a: ManagedAction,
)
    requires
        managed_transition(s, e, t, a),
    ensures
        s.phase == ManagedPhase::ReconcilePlan && e == (ManagedEvent::Planned { converged: false }) ==> {
            &&& a matches ManagedAction::Refuse(err) && (err matches ManagedLifecycleError::Reconciliation(d)
                && d@ == "fresh authoritative planning does not converge to no-change"@)
            &&& t.phase == ManagedPhase::Done
            &&& t.completed == s.completed
        },
        a == ManagedAction::Complete ==> s.phase == ManagedPhase::ReconcilePlan && e == (ManagedEvent::Planned {
            converged: true,
        }) && t.completed == LIFECYCLE_STAGES,
{
}

/// A refusal ends the convergence and keeps the stages completed so far.
pub proof fn law_refusal_is_final(s: ManagedState, e: ManagedEvent, t: ManagedState, a: ManagedAction)
    requires
        managed_transition(s, e, t, a),
        a is Refuse,
    ensures
        t.phase == ManagedPhase::Done,
        t.completed == s.completed,
{
}

impl ManagedState {
    /// A convergence that has not begun.
    pub fn new() -> (r: Self)
        ensures
            r.phase == ManagedPhase::Start,
            r.transaction_id@ == Seq::<char>::empty(),
            r.plan_id@ == Seq::<char>::empty(),
            r.dispatch_digest is None,
            r.execution is None,
            r.verification is None,
            r.final_state is None,
            !r.recovered,
            r.completed == 0,
            managed_inv(r),
    {
        ManagedState {
            phase: ManagedPhase::Start,
            transaction_id: String::new(),
            plan_id: String::new(),
            dispatch_digest: None,
            execution: None,
            verification: None,
            final_state: None,
            recovered: false,
            completed: 0,
        }
    }
}

fn with_phase(s: ManagedState, p: ManagedPhase) -> (r: ManagedState)
    ensures
        r == moved(s, p),
{
    ManagedState { phase: p, ..s }
}

fn refuse(s: ManagedState, err: ManagedLifecycleError) -> (r: (ManagedState, ManagedAction))
    ensures
        refused_with(s, r.0, r.1, err),
{
    (with_phase(s, ManagedPhase::Done), ManagedAction::Refuse(err))
}

fn text(a: &str) -> (r: String)
    ensures
        r@ == a@,
{
    owned(a)
}

fn joined(a: &str, b: &str) -> (r: String)
    ensures
        r@ == a@ + b@,
{
    let mut out = owned(a);
    append_str(&mut out, b);
    out
}

fn joined3(a: &str, b: &str, c: &str) -> (r: String)
    ensures
        r@ == a@ + b@ + c@,
{
    let mut out = owned(a);
    append_str(&mut out, b);
    append_str(&mut out, c);
    out
}

fn class_debug(c: ApprovalClass) -> (r: &'static str)
    ensures
        r@ == approval_class_debug(c),
{
    match c {
        ApprovalClass::InteractiveUser => "InteractiveUser",
        ApprovalClass::Administrator => "Administrator",
        ApprovalClass::DestructiveAction => "DestructiveAction",
    }
}

fn authorize_step(s: ManagedState, decision: PolicyDecision, fresh: bool) -> (r: (ManagedState, ManagedAction))
    ensures
        authorize_next(s, decision, fresh, r.0, r.1),
{
    match decision {
        PolicyDecision::Allow => if fresh {
            (with_phase(s, ManagedPhase::Handoff), ManagedAction::PrepareAndHandOff)
        } else {
            (with_phase(s, ManagedPhase::FinishRecovery), ManagedAction::Recover { with_approval: false })
        },
        PolicyDecision::RequireApproval { class, .. } => match class {
            ApprovalClass::Administrator => if fresh {
                (with_phase(s, ManagedPhase::Approval), ManagedAction::IssueApproval)
            } else {
                (with_phase(s, ManagedPhase::FinishApproval), ManagedAction::IssueApproval)
            },
            _ => refuse(s, ManagedLifecycleError::ApprovalBoundary(
                joined("v0.6 narrow effect requires unsupported approval class ", class_debug(class)),
            )),
        },
        PolicyDecision::Deny { reason } => refuse(s, ManagedLifecycleError::ApprovalBoundary(reason)),
        PolicyDecision::Blocked { reason } => refuse(s, ManagedLifecycleError::ApprovalBoundary(reason)),
    }
}

fn start_step(s: ManagedState, e: ManagedEvent) -> (r: (ManagedState, ManagedAction))
    requires
        e is Begin || e is SnapshotMissing || e is Snapshot,
    ensures
        start_next(s, e, r.0, r.1),
{
    match e {
        ManagedEvent::Begin { checked, human, interactive, principal, approver, transaction_id } => {
            match checked {
                Err(err) => refuse(s, err),
                Ok(()) => if !(human && interactive) {
                    refuse(s, ManagedLifecycleError::ApprovalBoundary(
                        text("v0.6 managed mutation requires an authenticated interactive human actor"),
                    ))
                } else if !str_eq(approver.as_str(), principal.as_str()) {
                    refuse(s, ManagedLifecycleError::ApprovalBoundary(
                        text("the approving administrator must be the authenticated mutation principal"),
                    ))
                } else {
                    (ManagedState { phase: ManagedPhase::Snapshot, transaction_id, ..s }, ManagedAction::ReadSnapshot)
                },
            }
        },
        ManagedEvent::SnapshotMissing => (with_phase(s, ManagedPhase::Candidate), ManagedAction::BuildCandidate),
        ManagedEvent::Snapshot { state, state_name, binding_digest } => match state {
            TransactionState::Prepared => {
                let d = joined(s.transaction_id.as_str(),
                    " is still prepared after a failed pre-dispatch authority use; restart the trusted control composition root so restart recovery can retire it before retry");
                refuse(s, ManagedLifecycleError::Indeterminate(d))
            },
            TransactionState::Indeterminate => (
                ManagedState { phase: ManagedPhase::FinishVerify, plan_id: binding_digest, ..s },
                ManagedAction::Verify,
            ),
            TransactionState::Verified => (
                ManagedState { phase: ManagedPhase::ResumeVerified, plan_id: binding_digest, ..s },
                ManagedAction::Verify,
            ),
            TransactionState::Committed => (
                ManagedState { phase: ManagedPhase::ResumeCommitted, plan_id: binding_digest, ..s },
                ManagedAction::Verify,
            ),
            _ => {
                let mut d = joined3(s.transaction_id.as_str(), " is ", state_name.as_str());
                append_str(&mut d, "; use a new operation id after reviewing durable evidence");
                refuse(s, ManagedLifecycleError::TerminalState(d))
            },
        },
        _ => {
            proof {
                assert(false);
            }
            refuse(s, ManagedLifecycleError::Contract(String::new()))
        },
    }
}

fn fresh_step(s: ManagedState, e: ManagedEvent) -> (r: (ManagedState, ManagedAction))
    requires
        e is NotMutation || e is Candidate || e is ApprovalIssued || e is HandedOff || e is Executed,
    ensures
        fresh_next(s, e, r.0, r.1),
{
    match e {
        ManagedEvent::NotMutation => refuse(s, ManagedLifecycleError::UnsupportedEffect(
            text("requested state already holds; no external effect is necessary"),
        )),
        ManagedEvent::Candidate { effect, decision } => {
            let fresh = match s.phase {
                ManagedPhase::Candidate => true,
                _ => false,
            };
            match effect {
                Err(err) => refuse(s, err),
                Ok(same) => if !same {
                    if fresh {
                        refuse(s, ManagedLifecycleError::Contract(
                            text("trusted plan effect differs from the exact public request effect"),
                        ))
                    } else {
                        refuse(s, ManagedLifecycleError::Contract(
                            text("recovery candidate substituted the originally bound effect"),
                        ))
                    }
                } else {
                    authorize_step(s, decision, fresh)
                },
            }
        },
        ManagedEvent::ApprovalIssued => match s.phase {
            ManagedPhase::Approval => (with_phase(s, ManagedPhase::Handoff), ManagedAction::PrepareAndHandOff),
            _ => (with_phase(s, ManagedPhase::FinishRecovery), ManagedAction::Recover { with_approval: true }),
        },
        ManagedEvent::HandedOff { plan_id, dispatch_digest } => (
            ManagedState {
                phase: ManagedPhase::Execution,
                plan_id,
                dispatch_digest: Some(dispatch_digest),
                completed: PREPARED_STAGES,
                ..s
            },
            ManagedAction::Execute,
        ),
        ManagedEvent::Executed { dispatch_digest, disposition, detail } => {
            let same = match &s.dispatch_digest {
                Some(d) => str_eq(d.as_str(), dispatch_digest.as_str()),
                None => false,
            };
            if !same {
                refuse(s, ManagedLifecycleError::Contract(
                    text("executor returned a dispatch digest different from the authorized handoff"),
                ))
            } else {
                match disposition {
                    ExecutionDisposition::RejectedBeforeDispatch =>
                        refuse(s, ManagedLifecycleError::ExecutionRejected(detail)),
                    _ => (
                        ManagedState {
                            phase: ManagedPhase::Verification,
                            execution: Some(disposition),
                            completed: PREPARED_STAGES + 1,
                            ..s
                        },
                        ManagedAction::Verify,
                    ),
                }
            }
        },
        _ => {
            proof {
                assert(false);
            }
            refuse(s, ManagedLifecycleError::Contract(String::new()))
        },
    }
}

fn verified_step(s: ManagedState, disposition: VerificationDisposition, detail: String) -> (r: (
    ManagedState,
    ManagedAction,
))
    ensures
        verified_next(s, disposition, detail@, r.0, r.1),
{
    let satisfied = match disposition {
        VerificationDisposition::Satisfied => true,
        _ => false,
    };
    match s.phase {
        ManagedPhase::Verification => match disposition {
            VerificationDisposition::Satisfied => (
                ManagedState {
                    phase: ManagedPhase::Recovery,
                    verification: Some(disposition),
                    completed: PREPARED_STAGES + 2,
                    ..s
                },
                ManagedAction::Recover { with_approval: false },
            ),
            VerificationDisposition::NotSatisfied =>
                refuse(s, ManagedLifecycleError::VerificationNotSatisfied(detail)),
            VerificationDisposition::Inconclusive => refuse(s, ManagedLifecycleError::Indeterminate(detail)),
        },
        ManagedPhase::ReconcileVerify => if satisfied {
            (with_phase(s, ManagedPhase::ReconcilePlan), ManagedAction::Plan)
        } else {
            refuse(s, ManagedLifecycleError::Reconciliation(detail))
        },
        ManagedPhase::ResumeVerified => if satisfied {
            (
                ManagedState { phase: ManagedPhase::Commit, verification: Some(disposition), recovered: true, ..s },
                ManagedAction::ResumeAndCommit,
            )
        } else {
            refuse(s, ManagedLifecycleError::Indeterminate(
                joined("verified durable state is not independently re-proven: ", detail.as_str()),
            ))
        },
        ManagedPhase::ResumeCommitted => if satisfied {
            (
                ManagedState {
                    phase: ManagedPhase::Integrity,
                    verification: Some(disposition),
                    final_state: Some(TransactionState::Committed),
                    recovered: true,
                    completed: COMMITTED_STAGES,
                    ..s
                },
                ManagedAction::CheckIntegrity,
            )
        } else {
            refuse(s, ManagedLifecycleError::Reconciliation(joined3(
                "committed state no longer satisfies its managed postcondition: ",
                detail.as_str(),
                ". Use a new operation id to authorize a new convergence.",
            )))
        },
        _ => match disposition {
            VerificationDisposition::Inconclusive => refuse(s, ManagedLifecycleError::Indeterminate(detail)),
            VerificationDisposition::NotSatisfied => (
                ManagedState {
                    phase: ManagedPhase::FinishCandidate,
                    verification: Some(disposition),
                    recovered: true,
                    ..s
                },
                ManagedAction::BuildCandidate,
            ),
            VerificationDisposition::Satisfied => (
                ManagedState {
                    phase: ManagedPhase::FinishRecovery,
                    verification: Some(disposition),
                    recovered: true,
                    ..s
                },
                ManagedAction::Recover { with_approval: false },
            ),
        },
    }
}

fn recovered_step(s: ManagedState, o: RecoveryOutcome) -> (r: (ManagedState, ManagedAction))
    ensures
        recovered_next(s, o, r.0, r.1),
{
    let first = match s.phase {
        ManagedPhase::Recovery => true,
        _ => false,
    };
    if first {
        match o {
            RecoveryOutcome::Verified => (with_phase(s, ManagedPhase::Commit), ManagedAction::Commit),
            RecoveryOutcome::Reprepared => refuse(s, ManagedLifecycleError::Indeterminate(text(
                "state changed after independent verification; authority was reprepared and requires a new explicit invocation",
            ))),
            RecoveryOutcome::Blocked(id) => refuse(s, ManagedLifecycleError::TerminalState(
                joined("recovery blocked transaction ", id.as_str()),
            )),
            RecoveryOutcome::StillIndeterminate(id) => refuse(s, ManagedLifecycleError::Indeterminate(
                joined3("transaction ", id.as_str(), " remains indeterminate after verification"),
            )),
        }
    } else {
        match o {
            RecoveryOutcome::Verified => {
                let satisfied = match s.verification {
                    Some(VerificationDisposition::Satisfied) => true,
                    _ => false,
                };
                if !satisfied {
                    refuse(s, ManagedLifecycleError::Indeterminate(text(
                        "fresh Control observation reached intended state after the independent verifier did not; durable state is verified but commit is withheld until a later independent re-verification",
                    )))
                } else {
                    (with_phase(s, ManagedPhase::Commit), ManagedAction::Commit)
                }
            },
            RecoveryOutcome::Reprepared => refuse(s, ManagedLifecycleError::Indeterminate(text(
                "independent verification proves the intended effect absent; durable authority is safely reprepared but execution requires a new explicit invocation",
            ))),
            RecoveryOutcome::Blocked(id) => refuse(s, ManagedLifecycleError::TerminalState(
                joined("recovery found conflicting state and blocked ", id.as_str()),
            )),
            RecoveryOutcome::StillIndeterminate(id) => refuse(s, ManagedLifecycleError::Indeterminate(
                joined(id.as_str(), " remains indeterminate; no replay was attempted"),
            )),
        }
    }
}

fn closing_step(s: ManagedState, e: ManagedEvent) -> (r: (ManagedState, ManagedAction))
    requires
        e is Committed || e is IntegrityChecked || e is Planned,
    ensures
        closing_next(s, e, r.0, r.1),
{
    match e {
        ManagedEvent::Committed(state) => (
            ManagedState {
                phase: ManagedPhase::Integrity,
                final_state: Some(state),
                completed: COMMITTED_STAGES,
                ..s
            },
            ManagedAction::CheckIntegrity,
        ),
        ManagedEvent::IntegrityChecked => (
            ManagedState { phase: ManagedPhase::ReconcileVerify, completed: COMMITTED_STAGES + 1, ..s },
            ManagedAction::Verify,
        ),
        ManagedEvent::Planned { converged } => if converged {
            (ManagedState { phase: ManagedPhase::Done, completed: LIFECYCLE_STAGES, ..s }, ManagedAction::Complete)
        } else {
            refuse(s, ManagedLifecycleError::Reconciliation(
                text("fresh authoritative planning does not converge to no-change"),
            ))
        },
        _ => {
            proof {
                assert(false);
            }
            refuse(s, ManagedLifecycleError::Contract(String::new()))
        },
    }
}

fn is_verify_phase(p: ManagedPhase) -> (r: bool)
    ensures
        r == verify_phase(p),
{
    match p {
        ManagedPhase::Verification | ManagedPhase::ReconcileVerify | ManagedPhase::ResumeVerified
        | ManagedPhase::ResumeCommitted | ManagedPhase::FinishVerify => true,
        _ => false,
    }
}

fn is_authority_phase(p: ManagedPhase) -> (r: bool)
    ensures
        r == authority_phase(p),
{
    match p {
        ManagedPhase::Snapshot | ManagedPhase::Candidate | ManagedPhase::Approval | ManagedPhase::Handoff
        | ManagedPhase::Recovery | ManagedPhase::Commit | ManagedPhase::Integrity
        | ManagedPhase::FinishCandidate | ManagedPhase::FinishApproval | ManagedPhase::FinishRecovery => true,
        _ => false,
    }
}

/// Whether an event answers the work the phase asked for.
fn event_fits(p: ManagedPhase, e: &ManagedEvent) -> (r: bool)
    ensures
        r == expects(p, *e),
{
    match e {
        ManagedEvent::Begin { .. } => p == ManagedPhase::Start,
        ManagedEvent::SnapshotMissing => p == ManagedPhase::Snapshot,
        ManagedEvent::Snapshot { .. } => p == ManagedPhase::Snapshot,
        ManagedEvent::NotMutation => p == ManagedPhase::Candidate,
        ManagedEvent::Candidate { .. } => p == ManagedPhase::Candidate || p == ManagedPhase::FinishCandidate,
        ManagedEvent::ApprovalIssued => p == ManagedPhase::Approval || p == ManagedPhase::FinishApproval,
        ManagedEvent::HandedOff { .. } => p == ManagedPhase::Handoff,
        ManagedEvent::Executed { .. } => p == ManagedPhase::Execution,
        ManagedEvent::Verified { .. } => is_verify_phase(p),
        ManagedEvent::Recovered(_) => p == ManagedPhase::Recovery || p == ManagedPhase::FinishRecovery,
        ManagedEvent::Committed(_) => p == ManagedPhase::Commit,
        ManagedEvent::IntegrityChecked => p == ManagedPhase::Integrity,
        ManagedEvent::Planned { .. } => p == ManagedPhase::ReconcilePlan,
        ManagedEvent::AuthorityFailed(_) => is_authority_phase(p),
        ManagedEvent::ExecutorFailed(_) => p == ManagedPhase::Execution,
        ManagedEvent::VerifierFailed(_) => is_verify_phase(p),
        ManagedEvent::PlanningFailed(_) => p == ManagedPhase::ReconcilePlan,
        ManagedEvent::Failed(_) => p == ManagedPhase::Approval || p == ManagedPhase::FinishApproval
            || p == ManagedPhase::Handoff,
    }
}

/// Decides the next step of a convergence from its state and the outcome of
/// the last piece of outside work.
pub fn managed_step(s: ManagedState, e: ManagedEvent) -> (r: (ManagedState, ManagedAction))
    ensures
        managed_transition(s, e, r.0, r.1),
{
    if !event_fits(s.phase, &e) {
        return refuse(s, ManagedLifecycleError::Contract(text("lifecycle event does not answer the pending work")));
    }
    match e {
        ManagedEvent::AuthorityFailed(d) => refuse(s, ManagedLifecycleError::Authority(d)),
        ManagedEvent::ExecutorFailed(d) => refuse(s, ManagedLifecycleError::Executor(d)),
        ManagedEvent::VerifierFailed(d) => refuse(s, ManagedLifecycleError::Verification(d)),
        ManagedEvent::PlanningFailed(d) => refuse(s, ManagedLifecycleError::Reconciliation(d)),
        ManagedEvent::Failed(err) => refuse(s, err),
        ManagedEvent::Verified { disposition, detail } => verified_step(s, disposition, detail),
        ManagedEvent::Recovered(o) => recovered_step(s, o),
        ManagedEvent::Begin { .. } => start_step(s, e),
        ManagedEvent::SnapshotMissing => start_step(s, e),
        ManagedEvent::Snapshot { .. } => start_step(s, e),
        ManagedEvent::Committed(_) => closing_step(s, e),
        ManagedEvent::IntegrityChecked => closing_step(s, e),
        ManagedEvent::Planned { .. } => closing_step(s, e),
        _ => fresh_step(s, e),
    }
}

} // verus!
