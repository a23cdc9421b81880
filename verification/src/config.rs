//! Who owns a managed resource, and what drift from its desired state means.
use vstd::prelude::*;

use crate::keyed::{lookup, TextMap};
use crate::planner::{clone_opt, opt_view};
use crate::text::owned;

verus! {

#[derive(Clone, Copy, Debug, PartialEq, Eq)]
pub enum Ownership {
    PackageOwned,
    UserOwned,
    LinuraManaged,
    ExternallyManaged,
    Generated,
    Ephemeral,
}

#[derive(Clone, Copy, Debug, PartialEq, Eq)]
pub enum DriftDisposition {
    Accept,
    Reconcile,
    RequireApproval,
    ReportOnly,
    Ignore,
}

/// A resource with its owner and its desired and observed digests.
#[derive(Debug, PartialEq, Eq)]
pub struct ManagedResource {
    pub resource_id: String,
    pub ownership: Ownership,
    pub desired_digest: Option<String>,
    pub observed_digest: Option<String>,
}

impl View for ManagedResource {
    type V = (Seq<char>, Ownership, Option<Seq<char>>, Option<Seq<char>>);

    open spec fn view(&self) -> (Seq<char>, Ownership, Option<Seq<char>>, Option<Seq<char>>) {
        (self.resource_id@, self.ownership, opt_view(self.desired_digest), opt_view(self.observed_digest))
    }
}

impl Clone for ManagedResource {
    fn clone(&self) -> (r: Self)
        ensures
            r@ == self@,
    {
        ManagedResource {
            resource_id: self.resource_id.clone(),
            ownership: self.ownership,
            desired_digest: clone_opt(&self.desired_digest),
            observed_digest: clone_opt(&self.observed_digest),
        }
    }
}

/// Drift: both digests are known and they differ.
pub open spec fn drifted(desired: Option<Seq<char>>, observed: Option<Seq<char>>) -> bool {
    desired is Some && observed is Some && desired.unwrap() != observed.unwrap()
}

/// What to do about a resource of this owner, drifted or not.
pub open spec fn disposition(ownership: Ownership, is_drifted: bool) -> DriftDisposition {
    if !is_drifted {
        DriftDisposition::Accept
    } else {
        match ownership {
            Ownership::LinuraManaged => DriftDisposition::RequireApproval,
            Ownership::PackageOwned => DriftDisposition::ReportOnly,
            Ownership::UserOwned | Ownership::ExternallyManaged => DriftDisposition::ReportOnly,
            Ownership::Generated => DriftDisposition::Reconcile,
            Ownership::Ephemeral => DriftDisposition::Ignore,
        }
    }
}

impl ManagedResource {
    /// Whether the observed digest differs from the desired one.
    pub fn is_drifted(&self) -> (r: bool)
        ensures
            r == drifted(opt_view(self.desired_digest), opt_view(self.observed_digest)),
    {
        match (&self.desired_digest, &self.observed_digest) {
            (Some(a), Some(b)) => !(*a == *b),
            _ => false,
        }
    }

    /// What to do about drift of this resource.
    pub fn drift_disposition(&self) -> (r: DriftDisposition)
        ensures
            r == disposition(
                self.ownership,
                drifted(opt_view(self.desired_digest), opt_view(self.observed_digest)),
            ),
    {
        if !self.is_drifted() {
            return DriftDisposition::Accept;
        }
        match self.ownership {
            Ownership::LinuraManaged => DriftDisposition::RequireApproval,
            Ownership::PackageOwned => DriftDisposition::ReportOnly,
            Ownership::UserOwned | Ownership::ExternallyManaged => DriftDisposition::ReportOnly,
            Ownership::Generated => DriftDisposition::Reconcile,
            Ownership::Ephemeral => DriftDisposition::Ignore,
        }
    }
}

/// Drift of a resource that Linura manages is never overwritten silently:
/// it always requires approval.
pub proof fn law_managed_drift_requires_approval(desired: Option<Seq<char>>, observed: Option<Seq<char>>)
    requires
        drifted(desired, observed),
    ensures
        disposition(Ownership::LinuraManaged, drifted(desired, observed))
            == DriftDisposition::RequireApproval,
{
}

/// Drift is overwritten only where Linura generated the resource. Undrifted
/// resources are accepted whoever owns them; drift of a resource that a
/// user, a package or an outside manager owns is only reported, never
/// reconciled; drift of Linura-managed state needs approval; ephemeral drift
/// is ignored.
pub proof fn law_only_generated_drift_is_reconciled(
    ownership: Ownership,
    desired: Option<Seq<char>>,
    observed: Option<Seq<char>>,
)
    ensures
        !(desired is Some && observed is Some && desired->0 != observed->0) ==> disposition(
            ownership,
            drifted(desired, observed),
        ) == DriftDisposition::Accept,
        (disposition(ownership, drifted(desired, observed)) == DriftDisposition::Reconcile) <==> (ownership
            == Ownership::Generated && desired is Some && observed is Some && desired->0 != observed->0),
        desired is Some && observed is Some && desired->0 != observed->0 ==> {
            &&& (ownership == Ownership::UserOwned || ownership == Ownership::ExternallyManaged
                || ownership == Ownership::PackageOwned) ==> disposition(ownership, drifted(desired, observed))
                == DriftDisposition::ReportOnly
            &&& ownership == Ownership::LinuraManaged ==> disposition(ownership, drifted(desired, observed))
                == DriftDisposition::RequireApproval
            &&& ownership == Ownership::Ephemeral ==> disposition(ownership, drifted(desired, observed))
                == DriftDisposition::Ignore
        },
{
}

/// Managed resources by resource id.
#[derive(Debug)]
pub struct OwnershipRegistry {
    resources: TextMap<ManagedResource>,
}

impl OwnershipRegistry {
    /// The registered resources keyed by id.
    pub closed spec fn resources_spec(self) -> Seq<(Seq<char>, (Seq<char>, Ownership, Option<Seq<char>>, Option<Seq<char>>))> {
        self.resources@
    }

    /// An empty registry.
    pub fn new() -> (r: Self)
        ensures
            r.resources_spec().len() == 0,
    {
        OwnershipRegistry { resources: TextMap::new() }
    }

    /// Registers a resource under its id, returning the one it replaces.
    pub fn register(&mut self, resource: ManagedResource) -> (r: Option<ManagedResource>)
        ensures
            match r {
                Some(old_res) => lookup(old(self).resources_spec(), resource@.0) == Some(old_res@),
                None => lookup(old(self).resources_spec(), resource@.0) is None,
            },
            forall|k: Seq<char>|
                #[trigger] lookup(final(self).resources_spec(), k) == if k == resource@.0 {
                    Some(resource@)
                } else {
                    lookup(old(self).resources_spec(), k)
                },
    {
        let key = owned(resource.resource_id.as_str());
        self.resources.insert(key, resource)
    }

    /// The resource registered under an id.
    pub fn get(&self, id: &str) -> (r: Option<&ManagedResource>)
        ensures
            match r {
                Some(res) => lookup(self.resources_spec(), id@) == Some(res@),
                None => lookup(self.resources_spec(), id@) is None,
            },
    {
        self.resources.get(id)
    }
}

impl Default for OwnershipRegistry {
    fn default() -> (r: Self)
        ensures
            r.resources_spec().len() == 0,
    {
        OwnershipRegistry::new()
    }
}

} // verus!
