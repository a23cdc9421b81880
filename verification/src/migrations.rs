//! Versioned migrations, applied at most once through a ledger.
use vstd::prelude::*;

use crate::planner::views;
use crate::text::{is_blank, is_blank_seq, owned, str_eq};

verus! {

#[derive(Clone, Copy, Debug, PartialEq, Eq, PartialOrd, Ord)]
pub enum MigrationScope {
    System,
    User,
    Intent,
    Graph,
    Profile,
}

/// What a migration is and what it needs.
#[derive(Clone, Debug, PartialEq, Eq)]
pub struct MigrationDescriptor {
    pub id: String,
    pub introduced_in: String,
    pub scope: MigrationScope,
    pub reversible: bool,
    pub requires_snapshot: bool,
}

/// Why a migration did not complete.
#[derive(Clone, Debug, PartialEq, Eq)]
pub enum MigrationError {
    InvalidDescriptor(&'static str),
    Operation(String),
    ManualRecoveryRequired(String),
}

/// The first rule a descriptor breaks, if any: an id and a version.
pub open spec fn descriptor_fault(id: Seq<char>, introduced_in: Seq<char>) -> Option<&'static str> {
    if is_blank_seq(id) {
        Some("migration id cannot be empty")
    } else if is_blank_seq(introduced_in) {
        Some("introduced_in cannot be empty")
    } else {
        None
    }
}

impl MigrationDescriptor {
    /// Checks the rules of `descriptor_fault`.
    pub fn validate(&self) -> (r: Result<(), MigrationError>)
        ensures
            match descriptor_fault(self.id@, self.introduced_in@) {
                Some(m) => r == Err::<(), MigrationError>(MigrationError::InvalidDescriptor(m)),
                None => r is Ok,
            },
    {
        if is_blank(self.id.as_str()) {
            return Err(MigrationError::InvalidDescriptor("migration id cannot be empty"));
        }
        if is_blank(self.introduced_in.as_str()) {
            return Err(MigrationError::InvalidDescriptor("introduced_in cannot be empty"));
        }
        Ok(())
    }
}

/// A migration: a descriptor, a precondition, the change, its check, and a
/// way back.
pub trait Migration {
    fn descriptor(&self) -> &MigrationDescriptor;

    fn precondition(&self) -> Result<bool, MigrationError>;

    fn apply(&self) -> Result<(), MigrationError>;

    fn verify(&self) -> Result<(), MigrationError>;

    /// Without a way back, recovery is manual: the error names the id of
    /// the descriptor the migration reports.
    fn rollback(&self) -> (r: Result<(), MigrationError>)
        default_ensures
            exists|d: &MigrationDescriptor| #[trigger] call_ensures(Self::descriptor, (self,), d)
                && r == Err::<(), MigrationError>(MigrationError::ManualRecoveryRequired(d.id)),
    {
        let d = self.descriptor();
        Err(MigrationError::ManualRecoveryRequired(d.id.clone()))
    }
}

/// The migrations applied so far, by id.
#[derive(Clone, Debug, PartialEq, Eq)]
pub struct MigrationLedger {
    applied: Vec<String>,
}

impl MigrationLedger {
    /// The ids applied so far.
    pub closed spec fn applied_spec(self) -> Set<Seq<char>> {
        views(self.applied@).to_set()
    }

    /// A ledger with nothing applied.
    pub fn new() -> (r: Self)
        ensures
            r.applied_spec() == Set::<Seq<char>>::empty(),
    {
        let r = MigrationLedger { applied: Vec::new() };
        assert(views(r.applied@).to_set() =~= Set::<Seq<char>>::empty());
        r
    }

    /// Whether a migration id has been applied.
    pub fn is_applied(&self, id: &str) -> (r: bool)
        ensures
            r == self.applied_spec().contains(id@),
    {
        let mut i: usize = 0;
        while i < self.applied.len()
            invariant
                i <= self.applied@.len(),
                forall|j: int| 0 <= j < i ==> self.applied@[j]@ != id@,
            decreases self.applied@.len() - i,
        {
            if str_eq(self.applied[i].as_str(), id) {
                assert(views(self.applied@)[i as int] == id@);
                assert(views(self.applied@).contains(id@));
                return true;
            }
            i = i + 1;
        }
        assert(!views(self.applied@).contains(id@)) by {
            if views(self.applied@).contains(id@) {
                let j = choose|j: int| 0 <= j < views(self.applied@).len() && #[trigger] views(self.applied@)[j] == id@;
                assert(self.applied@[j]@ == id@);
            }
        }
        false
    }

    /// Records a migration id as applied.
    pub fn mark_applied(&mut self, id: &str)
        ensures
            final(self).applied_spec() == old(self).applied_spec().insert(id@),
    {
        if !self.is_applied(id) {
            self.applied.push(owned(id));
            let ghost a = views(old(self).applied@);
            let ghost b = views(self.applied@);
            assert(b =~= a.push(id@));
            assert forall|x: Seq<char>| #[trigger] b.to_set().contains(x) == a.to_set().insert(id@).contains(x) by {
                if a.contains(x) {
                    let j = choose|j: int| 0 <= j < a.len() && a[j] == x;
                    assert(b[j] == x);
                }
                if b.contains(x) {
                    let j = choose|j: int| 0 <= j < b.len() && b[j] == x;
                    if j < a.len() {
                        assert(a[j] == x);
                    }
                }
                assert(b[a.len() as int] == id@);
            }
            assert(b.to_set() =~= a.to_set().insert(id@));
        } else {
            assert(old(self).applied_spec().insert(id@) =~= old(self).applied_spec());
        }
    }
}

impl Default for MigrationLedger {
    fn default() -> (r: Self)
        ensures
            r.applied_spec() == Set::<Seq<char>>::empty(),
    {
        MigrationLedger::new()
    }
}

/// The outcome of running a migration.
#[derive(Clone, Copy, Debug, PartialEq, Eq)]
pub enum MigrationOutcome {
    Applied,
    AlreadyApplied,
    NotApplicable,
}

/// What running a migration with a descriptor gives, from the ids applied
/// before to those applied after: an invalid descriptor is refused and an
/// applied id is reported, both changing nothing; otherwise the id is
/// recorded exactly when the migration reports it applied. Whether it
/// applies, and whether its check passes, is the migration's to say.
pub open spec fn run_outcome(
    before: Set<Seq<char>>,
    d: MigrationDescriptor,
    after: Set<Seq<char>>,
    r: Result<MigrationOutcome, MigrationError>,
) -> bool {
    match descriptor_fault(d.id@, d.introduced_in@) {
        Some(m) => r == Err::<MigrationOutcome, MigrationError>(MigrationError::InvalidDescriptor(m))
            && after == before,
        None => if before.contains(d.id@) {
            r == Ok::<MigrationOutcome, MigrationError>(MigrationOutcome::AlreadyApplied) && after == before
        } else {
            match r {
                Ok(MigrationOutcome::Applied) => after == before.insert(d.id@),
                Ok(MigrationOutcome::AlreadyApplied) => false,
                _ => after == before,
            }
        },
    }
}

/// A migration runs at most once: once a run with a descriptor applied it,
/// a run with the same descriptor on the ledger it left reports it already
/// applied and records nothing new.
pub proof fn law_migration_runs_at_most_once(
    before: Set<Seq<char>>,
    d: MigrationDescriptor,
    middle: Set<Seq<char>>,
    after: Set<Seq<char>>,
    again: Result<MigrationOutcome, MigrationError>,
)
    requires
        run_outcome(before, d, middle, Ok(MigrationOutcome::Applied)),
        run_outcome(middle, d, after, again),
    ensures
        again == Ok::<MigrationOutcome, MigrationError>(MigrationOutcome::AlreadyApplied),
        after == middle,
{
    assert(middle.contains(d.id@));
}

/// What the runner decides from what a migration answered: a failed
/// precondition check fails the run, a precondition that does not hold makes
/// it not applicable, a failed change fails it, a failed check fails it with
/// the check's error unless the rollback itself failed, and a passed check
/// applies it.
pub open spec fn run_step_spec(
    pre: Result<bool, MigrationError>,
    apply: Option<Result<(), MigrationError>>,
    verify: Option<Result<(), MigrationError>>,
    reversible: bool,
    rollback: Option<Result<(), MigrationError>>,
) -> Result<MigrationOutcome, MigrationError> {
    match pre {
        Err(e) => Err(e),
        Ok(false) => Ok(MigrationOutcome::NotApplicable),
        Ok(true) => match apply {
            Some(Err(e)) => Err(e),
            _ => match verify {
                Some(Err(e)) => if reversible {
                    match rollback {
                        Some(Err(e2)) => Err(e2),
                        _ => Err(e),
                    }
                } else {
                    Err(e)
                },
                _ => Ok(MigrationOutcome::Applied),
            },
        },
    }
}

/// Decides a run from what the migration answered; an absent answer is a
/// question that was not asked.
pub fn run_step(
    pre: Result<bool, MigrationError>,
    apply: Option<Result<(), MigrationError>>,
    verify: Option<Result<(), MigrationError>>,
    reversible: bool,
    rollback: Option<Result<(), MigrationError>>,
) -> (r: Result<MigrationOutcome, MigrationError>)
    ensures
        r == run_step_spec(pre, apply, verify, reversible, rollback),
{
    match pre {
        Err(e) => Err(e),
        Ok(false) => Ok(MigrationOutcome::NotApplicable),
        Ok(true) => match apply {
            Some(Err(e)) => Err(e),
            _ => match verify {
                Some(Err(e)) => if reversible {
                    match rollback {
                        Some(Err(e2)) => Err(e2),
                        _ => Err(e),
                    }
                } else {
                    Err(e)
                },
                _ => Ok(MigrationOutcome::Applied),
            },
        },
    }
}

/// The migration gave these answers, each asked exactly when the run
/// needs it: the change only after a holding precondition, the check only
/// after a successful change, the rollback only after a failed check of a
/// reversible migration.
pub open spec fn answers<M: Migration>(
    m: &M,
    pre: Result<bool, MigrationError>,
    apply: Option<Result<(), MigrationError>>,
    verify: Option<Result<(), MigrationError>>,
    reversible: bool,
    rollback: Option<Result<(), MigrationError>>,
) -> bool {
    &&& call_ensures(M::precondition, (m,), pre)
    &&& (apply is Some) == (pre == Ok::<bool, MigrationError>(true))
    &&& (apply matches Some(a) ==> call_ensures(M::apply, (m,), a))
    &&& (verify is Some) == (apply matches Some(Ok(_)))
    &&& (verify matches Some(v) ==> call_ensures(M::verify, (m,), v))
    &&& (rollback is Some) == (verify matches Some(Err(_)) && reversible)
    &&& (rollback matches Some(b) ==> call_ensures(M::rollback, (m,), b))
}

/// What a run asks of the migration and gives: with a valid, unapplied
/// descriptor, the answers of the migration decide the result through
/// `run_step_spec`, and the id is recorded exactly when it is applied;
/// otherwise nothing is asked beyond the descriptor.
pub open spec fn run_calls<M: Migration>(
    m: &M,
    d: MigrationDescriptor,
    before: Set<Seq<char>>,
    after: Set<Seq<char>>,
    r: Result<MigrationOutcome, MigrationError>,
) -> bool {
    descriptor_fault(d.id@, d.introduced_in@) is None && !before.contains(d.id@) ==> exists|
        pre: Result<bool, MigrationError>,
        apply: Option<Result<(), MigrationError>>,
        verify: Option<Result<(), MigrationError>>,
        rollback: Option<Result<(), MigrationError>>,
    |
        #[trigger] answers(m, pre, apply, verify, d.reversible, rollback) && r == run_step_spec(
            pre,
            apply,
            verify,
            d.reversible,
            rollback,
        )
}

/// Runs migrations against a ledger.
#[derive(Debug)]
pub struct MigrationRunner {
    ledger: MigrationLedger,
}

impl MigrationRunner {
    /// The ids the runner's ledger holds.
    pub closed spec fn applied_spec(self) -> Set<Seq<char>> {
        self.ledger.applied_spec()
    }

    /// A runner over a ledger.
    pub fn new(ledger: MigrationLedger) -> (r: Self)
        ensures
            r.applied_spec() == ledger.applied_spec(),
    {
        MigrationRunner { ledger }
    }

    /// Runs a migration at most once: an invalid descriptor is refused, an
    /// applied one is not run again, and otherwise the precondition, the
    /// change, its check and, for a reversible migration whose check failed,
    /// the rollback are asked in turn; `run_step` decides from their answers,
    /// and the id is recorded only when the change was applied and verified.
    pub fn run<M: Migration>(&mut self, migration: &M) -> (r: Result<MigrationOutcome, MigrationError>)
        ensures
            exists|d: &MigrationDescriptor| {
                &&& #[trigger] call_ensures(M::descriptor, (migration,), d)
                &&& run_outcome(old(self).applied_spec(), *d, final(self).applied_spec(), r)
                &&& run_calls(migration, *d, old(self).applied_spec(), final(self).applied_spec(), r)
            },
    {
        let descriptor = migration.descriptor();
        let ghost before = self.applied_spec();
        match descriptor.validate() {
            Err(e) => {
                assert(run_outcome(before, *descriptor, self.applied_spec(), Err(e)));
                return Err(e);
            },
            Ok(()) => {},
        }
        if self.ledger.is_applied(descriptor.id.as_str()) {
            assert(run_outcome(before, *descriptor, self.applied_spec(), Ok(MigrationOutcome::AlreadyApplied)));
            return Ok(MigrationOutcome::AlreadyApplied);
        }
        let pre = migration.precondition();
        let ghost pre_g = pre;
        let apply = match &pre {
            Ok(true) => Some(migration.apply()),
            _ => None,
        };
        let ghost apply_g = apply;
        let verify = match &apply {
            Some(Ok(())) => Some(migration.verify()),
            _ => None,
        };
        let ghost verify_g = verify;
        let rollback = match &verify {
            Some(Err(_)) => if descriptor.reversible {
                Some(migration.rollback())
            } else {
                None
            },
            _ => None,
        };
        let ghost rollback_g = rollback;
        proof {
            assert(answers(migration, pre_g, apply_g, verify_g, descriptor.reversible, rollback_g));
        }
        let r = run_step(pre, apply, verify, descriptor.reversible, rollback);
        match r {
            Ok(MigrationOutcome::Applied) => {
                self.ledger.mark_applied(descriptor.id.as_str());
            },
            _ => {},
        }
        proof {
            assert(run_outcome(before, *descriptor, self.applied_spec(), r));
            assert(run_calls(migration, *descriptor, before, self.applied_spec(), r));
        }
        r
    }

    /// The runner's ledger.
    pub fn ledger(&self) -> (r: &MigrationLedger)
        ensures
            r.applied_spec() == self.applied_spec(),
    {
        &self.ledger
    }
}

} // verus!
