//! The local bus surface, apart from the bus itself: names, the caller
//! identity derived from bus credentials, and the wire forms of snapshots,
//! observations and graph identifiers.
use vstd::prelude::*;

use crate::base::{Actor, ActorKind, SupportLevel};
use crate::graph::{EdgeKind, EdgeModel, NodeId, NodeIdModel, SystemGraph};
use crate::keyed::{
    compare_text, lemma_text_lt_irreflexive, lemma_text_lt_transitive, text_lt, KeyOrder,
};
use crate::ids::{token_error, valid_token, validation_message, ActorId, PrincipalId};
use crate::observation::{authority_name, availability_name, freshness_state_name};
use crate::managed::{ManagedMutationReceipt, TrustedHumanApproval};
use crate::preview::AuthenticatedPrincipal;
use crate::protocol::{ObservationExplanation, ObservationResponse, ProviderSnapshot};
use crate::text::{append_decimal, append_str, decimal, owned, utf8_len};
use crate::wire::{actor_kind_name, actor_kind_name_spec};

verus! {

pub const SERVICE_NAME: &'static str = "org.linura.Control";
pub const OBJECT_PATH: &'static str = "/org/linura/Control1";
pub const INTERFACE_NAME: &'static str = "org.linura.Control1";
pub const AUTHORITY_SERVICE_NAME: &'static str = "org.linura.Authority1";
pub const AUTHORITY_OBJECT_PATH: &'static str = "/org/linura/Authority1";
pub const AUTHORITY_INTERFACE_NAME: &'static str = "org.linura.Authority1";
pub const AUTHORITY_CONTRACT_ID: &'static str = "dbus.org.linura.Authority1";
pub const AUTHORITY_CONTRACT_VERSION: &'static str = "1";
pub const AUTHORITY_CONTRACT_STABILITY: &'static str = "experimental";
pub const MANAGE_SYSTEMD_ACTIVE_STATE_ACTION: &'static str = "org.linura.authority.manage-systemd-active-state";

/// A caller as the wire carries it: actor id, actor kind, interactive, uid,
/// pid, unique bus name.
pub type CallerWire = (String, String, bool, u32, u32, String);

/// The authenticated identity of a bus caller.
#[derive(Debug, PartialEq, Eq)]
pub struct CallerIdentity {
    pub actor: Actor,
    pub uid: u32,
    pub pid: u32,
    pub unique_bus_name: String,
}

impl CallerIdentity {
    /// The caller as the wire carries it.
    pub fn to_wire(&self) -> (r: CallerWire)
        ensures
            r.0@ == self.actor.id@,
            r.1@ == actor_kind_name_spec(self.actor.kind),
            r.2 == self.actor.interactive,
            r.3 == self.uid,
            r.4 == self.pid,
            r.5@ == self.unique_bus_name@,
    {
        (
            owned(self.actor.id.as_str()),
            owned(actor_kind_name(self.actor.kind)),
            self.actor.interactive,
            self.uid,
            self.pid,
            self.unique_bus_name.clone(),
        )
    }
}

/// The actor identifier text of a bus caller: the unique bus name, prefixed
/// by its length, and the caller's uid and pid.
pub open spec fn caller_actor_text(name: Seq<char>, uid: u32, pid: u32) -> Seq<char> {
    "dbus:v1:"@ + decimal(utf8_len(name)) + ":"@ + name + ":uid:"@ + decimal(uid as nat) + ":pid:"@
        + decimal(pid as nat)
}

/// The identity of a bus caller from its credentials: a non-interactive
/// service actor bound to the bus name, uid and pid, when that makes a valid
/// actor identifier.
pub fn actor_from_credentials(unique_bus_name: &str, uid: u32, pid: u32) -> (r: Result<CallerIdentity, String>)
    ensures
        ({
            let t = caller_actor_text(unique_bus_name@, uid, pid);
            if valid_token(t) {
                r matches Ok(c) && c.actor.id@ == t && c.actor.kind == ActorKind::Service && !c.actor.interactive
                    && c.uid == uid && c.pid == pid && c.unique_bus_name@ == unique_bus_name@
            } else {
                r matches Err(m) && m@ == validation_message(token_error("actor id", t)->0)
            }
        }),
{
    let mut text = owned("dbus:v1:");
    append_decimal(&mut text, crate::text::byte_len(unique_bus_name) as u64);
    append_str(&mut text, ":");
    append_str(&mut text, unique_bus_name);
    append_str(&mut text, ":uid:");
    append_decimal(&mut text, uid as u64);
    append_str(&mut text, ":pid:");
    append_decimal(&mut text, pid as u64);
    match ActorId::new(text.as_str()) {
        Ok(id) => Ok(
            CallerIdentity {
                actor: Actor { id, kind: ActorKind::Service, interactive: false },
                uid,
                pid,
                unique_bus_name: owned(unique_bus_name),
            },
        ),
        Err(e) => Err(e.message()),
    }
}

/// The wire name of a graph node: its kind, a colon, its text.
pub open spec fn node_wire_name(id: NodeIdModel) -> Seq<char> {
    let prefix = if id.0 == 0 {
        "intent:"@
    } else if id.0 == 1 {
        "setup:"@
    } else if id.0 == 2 {
        "requirement:"@
    } else if id.0 == 3 {
        "capability:"@
    } else if id.0 == 4 {
        "provider:"@
    } else if id.0 == 5 {
        "resource:"@
    } else if id.0 == 6 {
        "evidence:"@
    } else {
        "workflow:"@
    };
    prefix + id.1
}

/// The wire name of a graph node, namespaced by its kind.
pub fn node_id_name(node: &NodeId) -> (r: String)
    ensures
        r@ == node_wire_name(node@),
{
    let prefix = match node {
        NodeId::Intent(_) => "intent:",
        NodeId::Setup(_) => "setup:",
        NodeId::Requirement(_) => "requirement:",
        NodeId::Capability(_) => "capability:",
        NodeId::Provider(_) => "provider:",
        NodeId::Resource(_) => "resource:",
        NodeId::Evidence(_) => "evidence:",
        NodeId::Workflow(_) => "workflow:",
    };
    let mut out = owned(prefix);
    append_str(&mut out, node.text());
    out
}

/// The wire name of an edge kind.
pub open spec fn edge_kind_wire(kind: EdgeKind) -> Seq<char> {
    match kind {
        EdgeKind::Requires => "requires"@,
        EdgeKind::Provides => "provides"@,
        EdgeKind::Conflicts => "conflicts"@,
        EdgeKind::Replaces => "replaces"@,
        EdgeKind::Recommends => "recommends"@,
        EdgeKind::Optional => "optional"@,
        EdgeKind::Owns => "owns"@,
        EdgeKind::SharedBy => "shared-by"@,
        EdgeKind::DerivedFrom => "derived-from"@,
        EdgeKind::Realizes => "realizes"@,
        EdgeKind::ObservedBy => "observed-by"@,
        EdgeKind::EvidenceFor => "evidence-for"@,
    }
}

/// The wire name of an edge kind.
pub fn edge_kind_name(kind: EdgeKind) -> (r: &'static str)
    ensures
        r@ == edge_kind_wire(kind),
{
    match kind {
        EdgeKind::Requires => "requires",
        EdgeKind::Provides => "provides",
        EdgeKind::Conflicts => "conflicts",
        EdgeKind::Replaces => "replaces",
        EdgeKind::Recommends => "recommends",
        EdgeKind::Optional => "optional",
        EdgeKind::Owns => "owns",
        EdgeKind::SharedBy => "shared-by",
        EdgeKind::DerivedFrom => "derived-from",
        EdgeKind::Realizes => "realizes",
        EdgeKind::ObservedBy => "observed-by",
        EdgeKind::EvidenceFor => "evidence-for",
    }
}

/// The wire name of a support level.
pub open spec fn support_wire(level: SupportLevel) -> Seq<char> {
    match level {
        SupportLevel::Supported => "supported"@,
        SupportLevel::Unsupported => "unsupported"@,
        SupportLevel::Degraded => "degraded"@,
        SupportLevel::Unknown => "unknown"@,
    }
}

/// The wire name of a support level.
pub fn support_level_name(level: SupportLevel) -> (r: &'static str)
    ensures
        r@ == support_wire(level),
{
    match level {
        SupportLevel::Supported => "supported",
        SupportLevel::Unsupported => "unsupported",
        SupportLevel::Degraded => "degraded",
        SupportLevel::Unknown => "unknown",
    }
}

/// An optional text, none as empty.
pub open spec fn text_or_empty(o: Option<String>) -> Seq<char> {
    match o {
        Some(s) => s@,
        None => Seq::empty(),
    }
}

/// A provider as the wire carries it: identity, availability, reason.
pub type ProviderWire = (String, String, String);

/// A capability as the wire carries it: identity, provider, support, reason.
pub type CapabilityWire = (String, String, String, String);

/// Provider health and capabilities as the wire carries them, in the
/// snapshot's order.
pub fn provider_wire(snapshot: &ProviderSnapshot) -> (r: (Vec<ProviderWire>, Vec<CapabilityWire>))
    ensures
        r.0@.len() == snapshot.providers@.len(),
        forall|i: int| 0 <= i < r.0@.len() ==> {
            let w = #[trigger] r.0@[i];
            let h = snapshot.providers@[i];
            w.0@ == h.provider@ && w.1@ == availability_name(h.availability) && w.2@ == text_or_empty(h.reason)
        },
        r.1@.len() == snapshot.capabilities@.len(),
        forall|i: int| 0 <= i < r.1@.len() ==> {
            let w = #[trigger] r.1@[i];
            let c = snapshot.capabilities@[i];
            &&& w.0@ == c.id@
            &&& w.1@ == match c.provider {
                Some(p) => p@,
                None => Seq::empty(),
            }
            &&& w.2@ == support_wire(c.support)
            &&& w.3@ == text_or_empty(c.reason)
        },
{
    let mut providers: Vec<ProviderWire> = Vec::new();
    let mut i: usize = 0;
    while i < snapshot.providers.len()
        invariant
            i <= snapshot.providers@.len(),
            providers@.len() == i,
            forall|k: int| 0 <= k < i ==> {
                let w = #[trigger] providers@[k];
                let h = snapshot.providers@[k];
                w.0@ == h.provider@ && w.1@ == availability_name(h.availability) && w.2@ == text_or_empty(h.reason)
            },
        decreases snapshot.providers@.len() - i,
    {
        let h = &snapshot.providers[i];
        let reason = match &h.reason {
            Some(r) => r.clone(),
            None => String::new(),
        };
        providers.push((owned(h.provider.as_str()), owned(h.availability.as_str()), reason));
        i = i + 1;
    }
    let mut capabilities: Vec<CapabilityWire> = Vec::new();
    let mut j: usize = 0;
    while j < snapshot.capabilities.len()
        invariant
            j <= snapshot.capabilities@.len(),
            capabilities@.len() == j,
            forall|k: int| 0 <= k < j ==> {
                let w = #[trigger] capabilities@[k];
                let c = snapshot.capabilities@[k];
                &&& w.0@ == c.id@
                &&& w.1@ == match c.provider {
                    Some(p) => p@,
                    None => Seq::empty(),
                }
                &&& w.2@ == support_wire(c.support)
                &&& w.3@ == text_or_empty(c.reason)
            },
        decreases snapshot.capabilities@.len() - j,
    {
        let c = &snapshot.capabilities[j];
        let provider = match &c.provider {
            Some(p) => owned(p.as_str()),
            None => String::new(),
        };
        let reason = match &c.reason {
            Some(r) => r.clone(),
            None => String::new(),
        };
        capabilities.push((owned(c.id.as_str()), provider, owned(support_level_name(c.support)), reason));
        j = j + 1;
    }
    (providers, capabilities)
}

/// An observation as the wire carries it.
pub type ObservationWire = (String, String, String, String, String, u64, u64, u64, Vec<(String, String)>);

/// An observation response as the wire carries it: route, authority,
/// freshness, times, sequence, and attributes as texts in key order.
pub fn observation_wire(response: &ObservationResponse) -> (r: ObservationWire)
    ensures
        ({
            let o = response.observation@;
            &&& r.0@ == o.provider
            &&& r.1@ == o.resource
            &&& r.2@ == o.capability
            &&& r.3@ == authority_name(o.authority)
            &&& r.4@ == freshness_state_name(response.freshness)
            &&& r.5 == o.observed_at
            &&& r.6 == o.valid_for
            &&& r.7 == o.sequence
            &&& r.8@.len() == o.attributes.len()
            &&& forall|i: int| 0 <= i < r.8@.len() ==> (#[trigger] r.8@[i]).0@ == o.attributes[i].0
                && r.8@[i].1@ == crate::observation::value_text(o.attributes[i].1)
        }),
{
    let o = &response.observation;
    let n = o.attributes.len();
    let mut attributes: Vec<(String, String)> = Vec::new();
    let mut i: usize = 0;
    while i < n
        invariant
            i <= n,
            n == o.attributes@.len(),
            attributes@.len() == i,
            forall|k: int| 0 <= k < i ==> (#[trigger] attributes@[k]).0@ == o.attributes@[k].0
                && attributes@[k].1@ == crate::observation::value_text(o.attributes@[k].1),
        decreases n - i,
    {
        attributes.push((o.attributes.key_at(i).clone(), o.attributes.value_at(i).to_text()));
        i = i + 1;
    }
    (
        owned(o.provider.as_str()),
        owned(o.resource.as_str()),
        owned(o.capability.as_str()),
        owned(o.authority.as_str()),
        owned(response.freshness.as_str()),
        o.observed_at_unix_ms,
        o.valid_for_ms,
        o.sequence,
        attributes,
    )
}

/// An edge as the wire carries it: from, to, kind and reason.
pub type EdgeWire = (String, String, String, String);

/// The graph as the wire carries it: named nodes with their attributes, and
/// edges.
pub type GraphWire = (Vec<(String, Vec<(String, String)>)>, Vec<EdgeWire>);

/// Four texts.
pub type Quad = (Seq<char>, Seq<char>, Seq<char>, Seq<char>);

/// The texts of a wire edge.
pub open spec fn quad_of(w: EdgeWire) -> Quad {
    (w.0@, w.1@, w.2@, w.3@)
}

/// The wire texts of a graph edge.
pub open spec fn edge_quad(e: EdgeModel) -> Quad {
    (node_wire_name(e.0), node_wire_name(e.1), edge_kind_wire(e.2), e.3)
}

/// Lexicographic order of four texts.
pub open spec fn quad_lt(a: Quad, b: Quad) -> bool {
    ||| text_lt(a.0, b.0)
    ||| a.0 == b.0 && text_lt(a.1, b.1)
    ||| a.0 == b.0 && a.1 == b.1 && text_lt(a.2, b.2)
    ||| a.0 == b.0 && a.1 == b.1 && a.2 == b.2 && text_lt(a.3, b.3)
}

/// Texts in non-decreasing lexicographic order.
pub open spec fn quads_sorted(s: Seq<Quad>) -> bool {
    forall|i: int, j: int| 0 <= i < j < s.len() ==> !quad_lt(#[trigger] s[j], #[trigger] s[i])
}

proof fn lemma_quad_lt_transitive(a: Quad, b: Quad, c: Quad)
    requires
        quad_lt(a, b),
        quad_lt(b, c),
    ensures
        quad_lt(a, c),
{
    if text_lt(a.0, b.0) && text_lt(b.0, c.0) {
        lemma_text_lt_transitive(a.0, b.0, c.0);
    }
    if text_lt(a.1, b.1) && text_lt(b.1, c.1) {
        lemma_text_lt_transitive(a.1, b.1, c.1);
    }
    if text_lt(a.2, b.2) && text_lt(b.2, c.2) {
        lemma_text_lt_transitive(a.2, b.2, c.2);
    }
    if text_lt(a.3, b.3) && text_lt(b.3, c.3) {
        lemma_text_lt_transitive(a.3, b.3, c.3);
    }
}

proof fn lemma_quad_lt_irreflexive(a: Quad)
    ensures
        !quad_lt(a, a),
{
    lemma_text_lt_irreflexive(a.0);
    lemma_text_lt_irreflexive(a.1);
    lemma_text_lt_irreflexive(a.2);
    lemma_text_lt_irreflexive(a.3);
}

/// Whether text `a` sorts strictly before text `b`.
fn text_before(a: &str, b: &str) -> (r: bool)
    ensures
        r == text_lt(a@, b@),
{
    match compare_text(a, b) {
        KeyOrder::Less => true,
        _ => {
            proof {
                lemma_text_lt_irreflexive(a@);
            }
            false
        },
    }
}

/// Whether wire edge `a` sorts strictly before wire edge `b`.
fn edge_before(a: &EdgeWire, b: &EdgeWire) -> (r: bool)
    ensures
        r == quad_lt(quad_of(*a), quad_of(*b)),
{
    if text_before(a.0.as_str(), b.0.as_str()) {
        return true;
    }
    if !crate::text::str_eq(a.0.as_str(), b.0.as_str()) {
        return false;
    }
    if text_before(a.1.as_str(), b.1.as_str()) {
        return true;
    }
    if !crate::text::str_eq(a.1.as_str(), b.1.as_str()) {
        return false;
    }
    if text_before(a.2.as_str(), b.2.as_str()) {
        return true;
    }
    if !crate::text::str_eq(a.2.as_str(), b.2.as_str()) {
        return false;
    }
    text_before(a.3.as_str(), b.3.as_str())
}

/// Inserts a wire edge into a sorted list after every edge it does not
/// sort before.
fn insert_edge(v: &mut Vec<EdgeWire>, e: EdgeWire)
    requires
        quads_sorted(old(v)@.map_values(|w: EdgeWire| quad_of(w))),
    ensures
        quads_sorted(final(v)@.map_values(|w: EdgeWire| quad_of(w))),
        final(v)@.map_values(|w: EdgeWire| quad_of(w)).to_multiset() == old(v)@.map_values(
            |w: EdgeWire| quad_of(w),
        ).to_multiset().insert(quad_of(e)),
{
    let ghost before = v@.map_values(|w: EdgeWire| quad_of(w));
    let ghost x = quad_of(e);
    let mut p: usize = 0;
    while p < v.len() && !edge_before(&e, &v[p])
        invariant
            p <= v@.len(),
            before == v@.map_values(|w: EdgeWire| quad_of(w)),
            x == quad_of(e),
            forall|i: int| 0 <= i < p ==> !quad_lt(x, #[trigger] before[i]),
        decreases v@.len() - p,
    {
        p = p + 1;
    }
    proof {
        if p < before.len() {
            assert(before[p as int] == quad_of(v@[p as int]));
            assert(quad_lt(x, before[p as int]));
        }
    }
    v.insert(p, e);
    proof {
        let after = v@.map_values(|w: EdgeWire| quad_of(w));
        assert(after =~= before.insert(p as int, x));
        assert forall|i: int, j: int| 0 <= i < j < after.len() implies !quad_lt(
            #[trigger] after[j],
            #[trigger] after[i],
        ) by {
            if j < p {
                assert(after[i] == before[i] && after[j] == before[j]);
            } else if j == p {
                assert(after[i] == before[i]);
            } else if i < p {
                assert(after[i] == before[i] && after[j] == before[j - 1]);
            } else if i == p {
                assert(after[j] == before[j - 1]);
                if quad_lt(before[j - 1], x) {
                    lemma_quad_lt_transitive(before[j - 1], x, before[p as int]);
                    if j - 1 > p {
                        assert(!quad_lt(before[j - 1], before[p as int]));
                    } else {
                        lemma_quad_lt_irreflexive(before[p as int]);
                    }
                }
            } else {
                assert(after[i] == before[i - 1] && after[j] == before[j - 1]);
            }
        }
        assert(after.remove(p as int) =~= before);
        broadcast use vstd::seq_lib::group_to_multiset_ensures;
        assert(after[p as int] == x);
        assert(after.to_multiset().remove(x) == before.to_multiset());
        assert(after.to_multiset().count(x) > 0);
        assert(after.to_multiset() =~= before.to_multiset().insert(x));
    }
}

/// The graph as the wire carries it: each node, in graph order, by its
/// namespaced name with its attributes in key order; and every edge by
/// names, kind and reason, sorted lexicographically.
pub fn graph_wire(graph: &SystemGraph) -> (r: GraphWire)
    ensures
        r.0@.len() == graph.nodes_spec().len(),
        forall|i: int| 0 <= i < r.0@.len() ==> {
            let node = graph.nodes_spec()[i].1;
            &&& (#[trigger] r.0@[i]).0@ == node_wire_name(node.0)
            &&& r.0@[i].1@.map_values(|p: (String, String)| (p.0@, p.1@)) == node.1
        },
        quads_sorted(r.1@.map_values(|w: EdgeWire| quad_of(w))),
        r.1@.map_values(|w: EdgeWire| quad_of(w)).to_multiset() == graph.edges_spec().map_values(
            |e: EdgeModel| edge_quad(e),
        ).to_multiset(),
{
    let node_refs = graph.nodes();
    let mut nodes: Vec<(String, Vec<(String, String)>)> = Vec::new();
    let mut i: usize = 0;
    while i < node_refs.len()
        invariant
            i <= node_refs@.len(),
            node_refs@.len() == graph.nodes_spec().len(),
            forall|k: int| 0 <= k < node_refs@.len() ==> #[trigger] node_refs@[k]@ == graph.nodes_spec()[k].1,
            nodes@.len() == i,
            forall|k: int| 0 <= k < i ==> {
                let node = graph.nodes_spec()[k].1;
                &&& (#[trigger] nodes@[k]).0@ == node_wire_name(node.0)
                &&& nodes@[k].1@.map_values(|p: (String, String)| (p.0@, p.1@)) == node.1
            },
        decreases node_refs@.len() - i,
    {
        let node = node_refs[i];
        let n = node.attributes.len();
        let mut attributes: Vec<(String, String)> = Vec::new();
        let mut j: usize = 0;
        while j < n
            invariant
                j <= n,
                n == node.attributes@.len(),
                attributes@.map_values(|p: (String, String)| (p.0@, p.1@)) == node.attributes@.take(
                    j as int,
                ),
            decreases n - j,
        {
            let ghost prev = attributes@;
            attributes.push((node.attributes.key_at(j).clone(), node.attributes.value_at(j).clone()));
            assert(attributes@.map_values(|p: (String, String)| (p.0@, p.1@)) =~= prev.map_values(
                |p: (String, String)| (p.0@, p.1@),
            ).push(node.attributes@[j as int]));
            assert(node.attributes@.take(j + 1) =~= node.attributes@.take(j as int).push(
                node.attributes@[j as int],
            ));
            j = j + 1;
        }
        assert(node.attributes@.take(n as int) =~= node.attributes@);
        let name = node_id_name(&node.id);
        let ghost prev_nodes = nodes@;
        nodes.push((name, attributes));
        proof {
            assert(node_refs@[i as int]@ == graph.nodes_spec()[i as int].1);
            assert(node@.0 == graph.nodes_spec()[i as int].1.0);
            assert forall|k: int| 0 <= k < i + 1 implies {
                let nd = graph.nodes_spec()[k].1;
                &&& (#[trigger] nodes@[k]).0@ == node_wire_name(nd.0)
                &&& nodes@[k].1@.map_values(|p: (String, String)| (p.0@, p.1@)) == nd.1
            } by {
                if k < i {
                    assert(nodes@[k] == prev_nodes[k]);
                }
            }
        }
        i = i + 1;
    }
    let source = graph.edges();
    let ghost all = graph.edges_spec().map_values(|e: EdgeModel| edge_quad(e));
    let mut edges: Vec<EdgeWire> = Vec::new();
    let mut k: usize = 0;
    proof {
        assert(edges@.map_values(|w: EdgeWire| quad_of(w)) =~= Seq::<Quad>::empty());
        assert(all.take(0) =~= Seq::<Quad>::empty());
        broadcast use vstd::seq_lib::group_to_multiset_ensures;
    }
    while k < source.len()
        invariant
            k <= source@.len(),
            crate::planner::views(source@) == graph.edges_spec(),
            all == graph.edges_spec().map_values(|e: EdgeModel| edge_quad(e)),
            quads_sorted(edges@.map_values(|w: EdgeWire| quad_of(w))),
            edges@.map_values(|w: EdgeWire| quad_of(w)).to_multiset() == all.take(k as int).to_multiset(),
        decreases source@.len() - k,
    {
        let edge = &source[k];
        let wire: EdgeWire = (
            node_id_name(&edge.from),
            node_id_name(&edge.to),
            owned(edge_kind_name(edge.kind)),
            edge.reason.clone(),
        );
        proof {
            assert(crate::planner::views(source@)[k as int] == edge@);
            assert(quad_of(wire) == all[k as int]);
            assert(all.take(k + 1) =~= all.take(k as int).push(all[k as int]));
            broadcast use vstd::seq_lib::group_to_multiset_ensures;
        }
        insert_edge(&mut edges, wire);
        k = k + 1;
    }
    proof {
        assert(all.take(k as int) =~= all);
    }
    (nodes, edges)
}

/// An explanation as the wire carries it.
pub type ExplanationWire = (String, String, String, String, String, String);

/// An explanation as the wire carries it: route, freshness, evidence and
/// authority.
pub fn explanation_wire(explanation: &ObservationExplanation) -> (r: ExplanationWire)
    ensures
        r.0@ == explanation.resource@,
        r.1@ == explanation.provider@,
        r.2@ == explanation.capability@,
        r.3@ == freshness_state_name(explanation.freshness),
        r.4@ == explanation.evidence_id@,
        r.5@ == explanation.authority@,
{
    (
        owned(explanation.resource.as_str()),
        owned(explanation.provider.as_str()),
        owned(explanation.capability.as_str()),
        owned(explanation.freshness.as_str()),
        explanation.evidence_id.clone(),
        explanation.authority.clone(),
    )
}

/// A transport failure, with its text.
#[derive(Debug, PartialEq, Eq)]
pub struct TransportError {
    message: String,
}

impl TransportError {
    /// A failure with the given text.
    pub fn new(message: &str) -> (r: Self)
        ensures
            r.message_spec() == message@,
    {
        TransportError { message: owned(message) }
    }

    /// The failure's text.
    pub closed spec fn message_spec(self) -> Seq<char> {
        self.message@
    }

    /// The failure's text.
    pub fn message(&self) -> (r: String)
        ensures
            r@ == self.message_spec(),
    {
        self.message.clone()
    }
}

/// A managed request as the authority interface receives it.
#[derive(Clone, Debug, PartialEq, Eq)]
pub struct Authority1ManagedRequest {
    pub operation_id: String,
    pub unit: String,
    pub desired_active_state: String,
    pub reason: String,
}

/// A managed mutation receipt as the authority interface carries it.
pub type AuthorityReceiptWire = (
    String,
    String,
    String,
    String,
    String,
    String,
    String,
    String,
    String,
    bool,
    Vec<String>,
);

/// A receipt as the authority interface carries it, field by field; an
/// absent dispatch digest or execution disposition becomes an empty text.
pub fn receipt_wire(receipt: ManagedMutationReceipt) -> (r: AuthorityReceiptWire)
    ensures
        r.0@ == receipt.transaction_id@,
        r.1@ == receipt.plan_id@,
        r.2@ == receipt.resource@,
        r.3@ == receipt.desired_active_state@,
        r.4@ == receipt.effect_digest@,
        r.5@ == text_or_empty(receipt.dispatch_digest),
        r.6@ == text_or_empty(receipt.execution_disposition),
        r.7@ == receipt.verification_disposition@,
        r.8@ == receipt.final_state@,
        r.9 == receipt.recovered,
        r.10@ == receipt.stages@,
{
    let ManagedMutationReceipt {
        transaction_id,
        plan_id,
        resource,
        desired_active_state,
        effect_digest,
        dispatch_digest,
        execution_disposition,
        verification_disposition,
        final_state,
        recovered,
        stages,
    } = receipt;
    proof {
        reveal_strlit("");
    }
    let dispatch = match dispatch_digest {
        Some(d) => d,
        None => owned(""),
    };
    let execution = match execution_disposition {
        Some(e) => e,
        None => owned(""),
    };
    (
        transaction_id,
        plan_id,
        resource,
        desired_active_state,
        effect_digest,
        dispatch,
        execution,
        verification_disposition,
        final_state,
        recovered,
        stages,
    )
}

/// Who asks the authority interface: the authenticated principal, its actor,
/// and the approval its privileged local boundary stands for.
pub struct Authority1Context {
    pub principal: AuthenticatedPrincipal,
    pub actor: Actor,
    pub approval: TrustedHumanApproval,
}

/// The actor identifier text of an authority caller: the unique bus name,
/// prefixed by its length, and the caller's uid and pid.
pub open spec fn authority_actor_text(name: Seq<char>, uid: u32, pid: u32) -> Seq<char> {
    "authority-dbus:v1:"@ + decimal(utf8_len(name)) + ":"@ + name + ":uid:"@ + decimal(uid as nat)
        + ":pid:"@ + decimal(pid as nat)
}

/// Who asks the authority interface, from the authenticated principal and
/// the caller's credentials: the principal, an interactive human actor bound
/// to the bus name, uid and pid, and the approval of the privileged local
/// boundary for that principal. The principal must be a valid principal
/// identifier and the actor text a valid actor identifier, in that order.
pub fn authority_context(
    principal: AuthenticatedPrincipal,
    unique_bus_name: &str,
    uid: u32,
    pid: u32,
) -> (r: Result<Authority1Context, String>)
    ensures
        ({
            let t = authority_actor_text(unique_bus_name@, uid, pid);
            if !valid_token(principal@) {
                r matches Err(m) && m@ == validation_message(token_error("principal id", principal@)->0)
            } else if !valid_token(t) {
                r matches Err(m) && m@ == validation_message(token_error("actor id", t)->0)
            } else {
                r matches Ok(c) && c.principal@ == principal@ && c.actor.id@ == t && c.actor.kind
                    == ActorKind::Human && c.actor.interactive && c.approval.principal_spec() == principal@
            }
        }),
{
    let principal_id = match PrincipalId::new(principal.as_str()) {
        Ok(id) => id,
        Err(e) => {
            return Err(e.message());
        },
    };
    let mut text = owned("authority-dbus:v1:");
    append_decimal(&mut text, crate::text::byte_len(unique_bus_name) as u64);
    append_str(&mut text, ":");
    append_str(&mut text, unique_bus_name);
    append_str(&mut text, ":uid:");
    append_decimal(&mut text, uid as u64);
    append_str(&mut text, ":pid:");
    append_decimal(&mut text, pid as u64);
    let id = match ActorId::new(text.as_str()) {
        Ok(id) => id,
        Err(e) => {
            return Err(e.message());
        },
    };
    Ok(
        Authority1Context {
            principal,
            actor: Actor { id, kind: ActorKind::Human, interactive: true },
            approval: TrustedHumanApproval::from_privileged_local_boundary(principal_id),
        },
    )
}

/// What serves managed requests that reach the authority interface.
pub trait Authority1Handler {
    fn converge_systemd_active_state(
        &mut self,
        context: Authority1Context,
        request: Authority1ManagedRequest,
    ) -> Result<ManagedMutationReceipt, String>;
}

} // verus!
