//! Evidence of how well hardware support has been qualified.
use vstd::prelude::*;

verus! {

/// Strength of hardware evidence, from weakest to strongest.
#[derive(Clone, Copy, Debug, PartialEq, Eq, PartialOrd, Ord)]
pub enum EvidenceTier {
    Unknown,
    FixtureOnly,
    VirtualMachine,
    CommunityHardware,
    MaintainerHardware,
    ReleaseQualified,
}

/// Position of a tier in the order `Unknown < ... < ReleaseQualified`.
pub open spec fn tier_rank(t: EvidenceTier) -> nat {
    match t {
        EvidenceTier::Unknown => 0,
        EvidenceTier::FixtureOnly => 1,
        EvidenceTier::VirtualMachine => 2,
        EvidenceTier::CommunityHardware => 3,
        EvidenceTier::MaintainerHardware => 4,
        EvidenceTier::ReleaseQualified => 5,
    }
}

fn rank(t: EvidenceTier) -> (r: u8)
    ensures
        r == tier_rank(t),
{
    match t {
        EvidenceTier::Unknown => 0,
        EvidenceTier::FixtureOnly => 1,
        EvidenceTier::VirtualMachine => 2,
        EvidenceTier::CommunityHardware => 3,
        EvidenceTier::MaintainerHardware => 4,
        EvidenceTier::ReleaseQualified => 5,
    }
}

/// Evidence about one component.
#[derive(Clone, Debug, PartialEq, Eq)]
pub struct HardwareEvidence {
    pub component: String,
    pub vendor: String,
    pub model: String,
    pub tier: EvidenceTier,
    pub profile: String,
    pub evidence_reference: Option<String>,
}

impl HardwareEvidence {
    /// Whether the evidence reaches release qualification.
    pub fn release_qualified(&self) -> (r: bool)
        ensures
            r == (tier_rank(self.tier) >= tier_rank(EvidenceTier::ReleaseQualified)),
    {
        rank(self.tier) >= 5
    }
}

/// Evidence for every component of a machine.
#[derive(Clone, Debug, PartialEq, Eq)]
pub struct HardwareSnapshot {
    pub components: Vec<HardwareEvidence>,
}

/// The weakest tier among components, `Unknown` when there are none.
pub open spec fn weakest(s: Seq<HardwareEvidence>) -> EvidenceTier
    decreases s.len(),
{
    if s.len() == 0 {
        EvidenceTier::Unknown
    } else if s.len() == 1 {
        s[0].tier
    } else {
        let rest = weakest(s.drop_last());
        if tier_rank(s.last().tier) < tier_rank(rest) {
            s.last().tier
        } else {
            rest
        }
    }
}

impl HardwareSnapshot {
    /// A snapshot without components.
    pub fn new() -> (r: Self)
        ensures
            r.components@.len() == 0,
    {
        HardwareSnapshot { components: Vec::new() }
    }

    /// The weakest tier among components.
    pub fn weakest_tier(&self) -> (r: EvidenceTier)
        ensures
            r == weakest(self.components@),
    {
        if self.components.len() == 0 {
            return EvidenceTier::Unknown;
        }
        let mut best = self.components[0].tier;
        let mut i: usize = 1;
        assert(self.components@.take(1).drop_last() =~= Seq::<HardwareEvidence>::empty());
        assert(weakest(self.components@.take(1)) == self.components@[0].tier);
        while i < self.components.len()
            invariant
                1 <= i <= self.components@.len(),
                best == weakest(self.components@.take(i as int)),
            decreases self.components@.len() - i,
        {
            let t = self.components[i].tier;
            let ghost prev = self.components@.take(i as int);
            assert(self.components@.take(i + 1).drop_last() =~= prev);
            assert(self.components@.take(i + 1).last() == self.components@[i as int]);
            if rank(t) < rank(best) {
                best = t;
            }
            i = i + 1;
        }
        assert(self.components@.take(i as int) =~= self.components@);
        best
    }
}

impl Default for HardwareSnapshot {
    fn default() -> (r: Self)
        ensures
            r.components@.len() == 0,
    {
        HardwareSnapshot::new()
    }
}

/// The weakest tier is no stronger than the tier of any component.
pub proof fn law_weakest_is_a_lower_bound(s: Seq<HardwareEvidence>, i: int)
    requires
        0 <= i < s.len(),
    ensures
        tier_rank(weakest(s)) <= tier_rank(s[i].tier),
    decreases s.len(),
{
    if s.len() > 1 && i < s.len() - 1 {
        law_weakest_is_a_lower_bound(s.drop_last(), i);
    }
}

} // verus!
