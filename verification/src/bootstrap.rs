//! Installation bootstrap: the fixed stage order, the install-time security
//! policy, and a ledger of completed stages that must form a prefix.
use vstd::prelude::*;

verus! {

/// Bootstrap stages, in the order they run.
#[derive(Clone, Copy, Debug, PartialEq, Eq, PartialOrd, Ord)]
pub enum BootstrapStage {
    Preflight,
    DiskLayout,
    Encryption,
    BaseSystem,
    PlatformPackages,
    Bootloader,
    SecurityBaseline,
    SnapshotBaseline,
    UserProvisioning,
    FirstBootReady,
}

/// The number of bootstrap stages.
pub const STAGE_COUNT: usize = 10;

/// The stage at position `i` of the fixed order.
pub open spec fn stage_at(i: int) -> BootstrapStage {
    if i <= 0 {
        BootstrapStage::Preflight
    } else if i == 1 {
        BootstrapStage::DiskLayout
    } else if i == 2 {
        BootstrapStage::Encryption
    } else if i == 3 {
        BootstrapStage::BaseSystem
    } else if i == 4 {
        BootstrapStage::PlatformPackages
    } else if i == 5 {
        BootstrapStage::Bootloader
    } else if i == 6 {
        BootstrapStage::SecurityBaseline
    } else if i == 7 {
        BootstrapStage::SnapshotBaseline
    } else if i == 8 {
        BootstrapStage::UserProvisioning
    } else {
        BootstrapStage::FirstBootReady
    }
}

/// Position of a stage in the fixed order.
pub open spec fn stage_index(s: BootstrapStage) -> int {
    match s {
        BootstrapStage::Preflight => 0,
        BootstrapStage::DiskLayout => 1,
        BootstrapStage::Encryption => 2,
        BootstrapStage::BaseSystem => 3,
        BootstrapStage::PlatformPackages => 4,
        BootstrapStage::Bootloader => 5,
        BootstrapStage::SecurityBaseline => 6,
        BootstrapStage::SnapshotBaseline => 7,
        BootstrapStage::UserProvisioning => 8,
        BootstrapStage::FirstBootReady => 9,
    }
}

impl BootstrapStage {
    /// Position of this stage in the fixed order.
    pub fn index(self) -> (r: usize)
        ensures
            r == stage_index(self),
            stage_at(r as int) == self,
    {
        match self {
            BootstrapStage::Preflight => 0,
            BootstrapStage::DiskLayout => 1,
            BootstrapStage::Encryption => 2,
            BootstrapStage::BaseSystem => 3,
            BootstrapStage::PlatformPackages => 4,
            BootstrapStage::Bootloader => 5,
            BootstrapStage::SecurityBaseline => 6,
            BootstrapStage::SnapshotBaseline => 7,
            BootstrapStage::UserProvisioning => 8,
            BootstrapStage::FirstBootReady => 9,
        }
    }

    /// The stage at position `i` of the fixed order.
    pub fn at(i: usize) -> (r: BootstrapStage)
        requires
            i < STAGE_COUNT,
        ensures
            r == stage_at(i as int),
            stage_index(r) == i,
    {
        if i == 0 {
            BootstrapStage::Preflight
        } else if i == 1 {
            BootstrapStage::DiskLayout
        } else if i == 2 {
            BootstrapStage::Encryption
        } else if i == 3 {
            BootstrapStage::BaseSystem
        } else if i == 4 {
            BootstrapStage::PlatformPackages
        } else if i == 5 {
            BootstrapStage::Bootloader
        } else if i == 6 {
            BootstrapStage::SecurityBaseline
        } else if i == 7 {
            BootstrapStage::SnapshotBaseline
        } else if i == 8 {
            BootstrapStage::UserProvisioning
        } else {
            BootstrapStage::FirstBootReady
        }
    }

    /// All stages in their fixed order.
    pub fn ordered() -> (r: Vec<BootstrapStage>)
        ensures
            r@.len() == STAGE_COUNT,
            forall|i: int| 0 <= i < STAGE_COUNT ==> #[trigger] r@[i] == stage_at(i),
    {
        let mut out: Vec<BootstrapStage> = Vec::new();
        let mut i: usize = 0;
        while i < STAGE_COUNT
            invariant
                i <= STAGE_COUNT,
                out@.len() == i,
                forall|j: int| 0 <= j < i ==> #[trigger] out@[j] == stage_at(j),
            decreases STAGE_COUNT - i,
        {
            out.push(BootstrapStage::at(i));
            i = i + 1;
        }
        out
    }
}

#[derive(Clone, Copy, Debug, PartialEq, Eq)]
pub enum BootstrapMode {
    Interactive,
    NonInteractive,
    Recovery,
}

/// What an installation enables before the first boot.
#[derive(Clone, Debug, PartialEq, Eq)]
pub struct InstallSecurityPolicy {
    pub require_disk_encryption: bool,
    pub inbound_firewall_default_deny: bool,
    pub ssh_enabled_initially: bool,
    pub untrusted_package_sources_enabled: bool,
}

impl Default for InstallSecurityPolicy {
    /// The fail-closed default: encrypted disks, a deny-by-default inbound
    /// firewall, no SSH and no untrusted package sources.
    fn default() -> (r: Self)
        ensures
            r.require_disk_encryption,
            r.inbound_firewall_default_deny,
            !r.ssh_enabled_initially,
            !r.untrusted_package_sources_enabled,
    {
        InstallSecurityPolicy {
            require_disk_encryption: true,
            inbound_firewall_default_deny: true,
            ssh_enabled_initially: false,
            untrusted_package_sources_enabled: false,
        }
    }
}

/// Marking a stage completed completes that stage and leaves every other
/// stage as it was; marking it again changes nothing more.
pub proof fn law_marking_completes_only_that_stage(
    before: Seq<bool>,
    stage: BootstrapStage,
    after: Seq<bool>,
    t: BootstrapStage,
)
    requires
        before.len() == STAGE_COUNT,
        after == before.update(stage_index(stage), true),
    ensures
        after[stage_index(t)] == (before[stage_index(t)] || t == stage),
        after.update(stage_index(stage), true) == after,
{
    assert(after.update(stage_index(stage), true) =~= after);
}

/// Which stages have completed, by position in the fixed order.
#[derive(Debug, PartialEq, Eq)]
pub struct BootstrapLedger {
    completed: Vec<bool>,
}

/// A completed stage that follows an incomplete one.
#[derive(Clone, Copy, Debug, PartialEq, Eq)]
pub enum BootstrapError {
    OutOfOrder(BootstrapStage),
}

impl BootstrapLedger {
    #[verifier::type_invariant]
    closed spec fn inv(self) -> bool {
        self.completed@.len() == STAGE_COUNT
    }

    /// Completion of each stage, by position.
    pub closed spec fn done(self) -> Seq<bool> {
        self.completed@
    }

    /// A ledger with no stage completed.
    pub fn new() -> (r: Self)
        ensures
            r.done().len() == STAGE_COUNT,
            forall|i: int| 0 <= i < STAGE_COUNT ==> !#[trigger] r.done()[i],
    {
        let mut completed: Vec<bool> = Vec::new();
        let mut i: usize = 0;
        while i < STAGE_COUNT
            invariant
                i <= STAGE_COUNT,
                completed@.len() == i,
                forall|j: int| 0 <= j < i ==> !#[trigger] completed@[j],
            decreases STAGE_COUNT - i,
        {
            completed.push(false);
            i = i + 1;
        }
        BootstrapLedger { completed }
    }

    /// Records a stage as completed.
    pub fn mark_completed(&mut self, stage: BootstrapStage)
        ensures
            old(self).done().len() == STAGE_COUNT,
            final(self).done().len() == STAGE_COUNT,
            final(self).done() == old(self).done().update(stage_index(stage), true),
    {
        proof {
            use_type_invariant(&*self);
        }
        let i = stage.index();
        let mut taken = BootstrapLedger::new();
        std::mem::swap(&mut taken, self);
        let BootstrapLedger { mut completed } = taken;
        completed.set(i, true);
        *self = BootstrapLedger { completed };
    }

    /// Whether a stage has completed.
    pub fn is_completed(&self, stage: BootstrapStage) -> (r: bool)
        ensures
            self.done().len() == STAGE_COUNT,
            r == self.done()[stage_index(stage)],
    {
        proof {
            use_type_invariant(self);
        }
        self.completed[stage.index()]
    }

    /// The first stage, in the fixed order, that has not completed.
    pub fn next_stage(&self) -> (r: Option<BootstrapStage>)
        ensures
            self.done().len() == STAGE_COUNT,
            match r {
                Some(s) => !self.done()[stage_index(s)] && forall|j: int|
                    0 <= j < stage_index(s) ==> #[trigger] self.done()[j],
                None => forall|j: int| 0 <= j < STAGE_COUNT ==> #[trigger] self.done()[j],
            },
    {
        proof {
            use_type_invariant(self);
        }
        let mut i: usize = 0;
        while i < STAGE_COUNT
            invariant
                i <= STAGE_COUNT,
                self.completed@.len() == STAGE_COUNT,
                forall|j: int| 0 <= j < i ==> #[trigger] self.completed@[j],
            decreases STAGE_COUNT - i,
        {
            if !self.completed[i] {
                return Some(BootstrapStage::at(i));
            }
            i = i + 1;
        }
        None
    }

    /// Checks that the completed stages form a prefix of the fixed order.
    pub fn validate_prefix(&self) -> (r: Result<(), BootstrapError>)
        ensures
            match r {
                Ok(()) => forall|i: int, j: int|
                    0 <= j < i < STAGE_COUNT && #[trigger] self.done()[i] ==> #[trigger] self.done()[j],
                Err(BootstrapError::OutOfOrder(s)) => self.done()[stage_index(s)] && (exists|j: int|
                    0 <= j < stage_index(s) && !#[trigger] self.done()[j]) && forall|k: int, j: int|
                    0 <= j < k < stage_index(s) && #[trigger] self.done()[k] ==> #[trigger] self.done()[j],
            },
    {
        proof {
            use_type_invariant(self);
        }
        let mut saw_gap = false;
        let mut gap: usize = 0;
        let mut i: usize = 0;
        while i < STAGE_COUNT
            invariant
                i <= STAGE_COUNT,
                self.completed@.len() == STAGE_COUNT,
                saw_gap ==> gap < i && !self.completed@[gap as int],
                !saw_gap ==> forall|j: int| 0 <= j < i ==> #[trigger] self.completed@[j],
                forall|k: int, j: int|
                    0 <= j < k < i && #[trigger] self.completed@[k] ==> #[trigger] self.completed@[j],
            decreases STAGE_COUNT - i,
        {
            if self.completed[i] {
                if saw_gap {
                    assert(!self.done()[gap as int]);
                    return Err(BootstrapError::OutOfOrder(BootstrapStage::at(i)));
                }
            } else {
                if !saw_gap {
                    gap = i;
                }
                saw_gap = true;
            }
            i = i + 1;
        }
        Ok(())
    }
}

impl Clone for BootstrapLedger {
    fn clone(&self) -> (r: Self)
        ensures
            r.done() == self.done(),
    {
        proof {
            use_type_invariant(self);
        }
        BootstrapLedger { completed: self.completed.clone() }
    }
}

impl Default for BootstrapLedger {
    fn default() -> (r: Self)
        ensures
            r.done().len() == STAGE_COUNT,
            forall|i: int| 0 <= i < STAGE_COUNT ==> !#[trigger] r.done()[i],
    {
        BootstrapLedger::new()
    }
}

} // verus!
