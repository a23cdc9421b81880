//! The system graph: typed nodes and causal edges, observations recorded
//! into it, and what retiring an origin would remove.
use vstd::prelude::*;

use crate::ids::{CapabilityId, IntentId, ProviderId, RequirementId, ResourceId, SetupId};
use crate::keyed::{lookup, sorted_keys, TextMap};
use crate::observation::{
    authority_name, evidence_id_spec, freshness_state_name, value_text, EnvelopeModel,
    FreshnessState, ObservationEnvelope, ValueModel,
};
use crate::planner::views;
use crate::text::{
    append_str, decimal, decimal_string, digit_char, lemma_parse_decimal, owned, parse_u64,
    parse_u64_spec,
};

verus! {

/// A typed node identifier.
#[derive(Debug, PartialEq, Eq, PartialOrd, Ord)]
pub enum NodeId {
    Intent(IntentId),
    Setup(SetupId),
    Requirement(RequirementId),
    Capability(CapabilityId),
    Provider(ProviderId),
    Resource(ResourceId),
    Evidence(String),
    Workflow(String),
}

/// A node identifier as its kind (in declaration order) and its text.
pub type NodeIdModel = (u8, Seq<char>);

impl View for NodeId {
    type V = NodeIdModel;

    open spec fn view(&self) -> NodeIdModel {
        match self {
            NodeId::Intent(i) => (0u8, i@),
            NodeId::Setup(i) => (1u8, i@),
            NodeId::Requirement(i) => (2u8, i@),
            NodeId::Capability(i) => (3u8, i@),
            NodeId::Provider(i) => (4u8, i@),
            NodeId::Resource(i) => (5u8, i@),
            NodeId::Evidence(s) => (6u8, s@),
            NodeId::Workflow(s) => (7u8, s@),
        }
    }
}

/// The key a node is stored under: its kind digit, a colon, its text. Keys
/// order as the identifiers do: by kind, then by text.
pub open spec fn node_key(id: NodeIdModel) -> Seq<char> {
    seq![digit_char(id.0 as nat), ':'] + id.1
}

/// Distinct identifiers have distinct keys.
pub proof fn lemma_node_key_injective(a: NodeIdModel, b: NodeIdModel)
    requires
        a.0 < 8,
        b.0 < 8,
        node_key(a) == node_key(b),
    ensures
        a == b,
{
    assert(node_key(a)[0] == digit_char(a.0 as nat));
    assert(node_key(b)[0] == digit_char(b.0 as nat));
    assert(a.1 =~= node_key(a).skip(2));
    assert(b.1 =~= node_key(b).skip(2));
}

impl Clone for NodeId {
    fn clone(&self) -> (r: Self)
        ensures
            r@ == self@,
    {
        match self {
            NodeId::Intent(i) => NodeId::Intent(i.clone()),
            NodeId::Setup(i) => NodeId::Setup(i.clone()),
            NodeId::Requirement(i) => NodeId::Requirement(i.clone()),
            NodeId::Capability(i) => NodeId::Capability(i.clone()),
            NodeId::Provider(i) => NodeId::Provider(i.clone()),
            NodeId::Resource(i) => NodeId::Resource(i.clone()),
            NodeId::Evidence(s) => NodeId::Evidence(s.clone()),
            NodeId::Workflow(s) => NodeId::Workflow(s.clone()),
        }
    }
}

impl NodeId {
    /// The kind of this identifier, in declaration order.
    pub fn kind_index(&self) -> (r: u8)
        ensures
            r == self@.0,
            r < 8,
    {
        match self {
            NodeId::Intent(_) => 0,
            NodeId::Setup(_) => 1,
            NodeId::Requirement(_) => 2,
            NodeId::Capability(_) => 3,
            NodeId::Provider(_) => 4,
            NodeId::Resource(_) => 5,
            NodeId::Evidence(_) => 6,
            NodeId::Workflow(_) => 7,
        }
    }

    /// The text of this identifier.
    pub fn text(&self) -> (r: &str)
        ensures
            r@ == self@.1,
    {
        match self {
            NodeId::Intent(i) => i.as_str(),
            NodeId::Setup(i) => i.as_str(),
            NodeId::Requirement(i) => i.as_str(),
            NodeId::Capability(i) => i.as_str(),
            NodeId::Provider(i) => i.as_str(),
            NodeId::Resource(i) => i.as_str(),
            NodeId::Evidence(s) => s.as_str(),
            NodeId::Workflow(s) => s.as_str(),
        }
    }

    /// The key this node is stored under.
    pub fn key(&self) -> (r: String)
        ensures
            r@ == node_key(self@),
    {
        let k = self.kind_index();
        let mut out = String::new();
        let digit: char = if k == 0 {
            '0'
        } else if k == 1 {
            '1'
        } else if k == 2 {
            '2'
        } else if k == 3 {
            '3'
        } else if k == 4 {
            '4'
        } else if k == 5 {
            '5'
        } else if k == 6 {
            '6'
        } else {
            '7'
        };
        crate::text::push_char(&mut out, digit);
        crate::text::push_char(&mut out, ':');
        append_str(&mut out, self.text());
        assert(out@ =~= node_key(self@));
        out
    }

    /// Whether two identifiers are the same.
    pub fn same(&self, other: &Self) -> (r: bool)
        ensures
            r == (self@ == other@),
    {
        self.kind_index() == other.kind_index() && crate::text::str_eq(self.text(), other.text())
    }
}

/// A node and its attributes.
#[derive(Debug)]
pub struct Node {
    pub id: NodeId,
    pub attributes: TextMap<String>,
}

/// The texts of a node.
pub type NodeModel = (NodeIdModel, Seq<(Seq<char>, Seq<char>)>);

impl View for Node {
    type V = NodeModel;

    open spec fn view(&self) -> NodeModel {
        (self.id@, self.attributes@)
    }
}

impl Clone for Node {
    fn clone(&self) -> (r: Self)
        ensures
            r@ == self@,
    {
        Node { id: self.id.clone(), attributes: self.attributes.clone() }
    }
}

#[derive(Clone, Copy, Debug, PartialEq, Eq)]
pub enum EdgeKind {
    Requires,
    Provides,
    Conflicts,
    Replaces,
    Recommends,
    Optional,
    Owns,
    SharedBy,
    DerivedFrom,
    Realizes,
    ObservedBy,
    EvidenceFor,
}

/// Equality of edge kinds.
pub fn edge_kind_eq(a: EdgeKind, b: EdgeKind) -> (r: bool)
    ensures
        r == (a == b),
{
    match (a, b) {
        (EdgeKind::Requires, EdgeKind::Requires) => true,
        (EdgeKind::Provides, EdgeKind::Provides) => true,
        (EdgeKind::Conflicts, EdgeKind::Conflicts) => true,
        (EdgeKind::Replaces, EdgeKind::Replaces) => true,
        (EdgeKind::Recommends, EdgeKind::Recommends) => true,
        (EdgeKind::Optional, EdgeKind::Optional) => true,
        (EdgeKind::Owns, EdgeKind::Owns) => true,
        (EdgeKind::SharedBy, EdgeKind::SharedBy) => true,
        (EdgeKind::DerivedFrom, EdgeKind::DerivedFrom) => true,
        (EdgeKind::Realizes, EdgeKind::Realizes) => true,
        (EdgeKind::ObservedBy, EdgeKind::ObservedBy) => true,
        (EdgeKind::EvidenceFor, EdgeKind::EvidenceFor) => true,
        _ => false,
    }
}

/// A causal edge with its reason.
#[derive(Debug, PartialEq, Eq)]
pub struct Edge {
    pub from: NodeId,
    pub to: NodeId,
    pub kind: EdgeKind,
    pub reason: String,
}

/// The texts of an edge.
pub type EdgeModel = (NodeIdModel, NodeIdModel, EdgeKind, Seq<char>);

impl View for Edge {
    type V = EdgeModel;

    open spec fn view(&self) -> EdgeModel {
        (self.from@, self.to@, self.kind, self.reason@)
    }
}

impl Clone for Edge {
    fn clone(&self) -> (r: Self)
        ensures
            r@ == self@,
    {
        Edge {
            from: self.from.clone(),
            to: self.to.clone(),
            kind: self.kind,
            reason: self.reason.clone(),
        }
    }
}

impl Edge {
    /// Whether two edges agree on every field.
    pub fn same(&self, other: &Self) -> (r: bool)
        ensures
            r == (self@ == other@),
    {
        self.from.same(&other.from) && self.to.same(&other.to) && edge_kind_eq(
            self.kind,
            other.kind,
        ) && self.reason == other.reason
    }
}

#[derive(Clone, Copy, Debug, PartialEq, Eq)]
pub enum ObservationRecordOutcome {
    CurrentStateUpdated,
    HistoricalEvidenceRetained,
}

/// The value the last pair with key `k` gives.
pub open spec fn pairs_lookup(pairs: Seq<(Seq<char>, Seq<char>)>, k: Seq<char>) -> Option<Seq<char>>
    decreases pairs.len(),
{
    if pairs.len() == 0 {
        None
    } else if pairs.last().0 == k {
        Some(pairs.last().1)
    } else {
        pairs_lookup(pairs.drop_last(), k)
    }
}

/// A map holding, for each key, the value of the last pair with that key.
pub fn map_of(pairs: &Vec<(String, String)>) -> (r: TextMap<String>)
    ensures
        forall|k: Seq<char>| #[trigger] lookup(r@, k) == pairs_lookup(views(pairs@), k),
{
    let mut m: TextMap<String> = TextMap::new();
    let mut i: usize = 0;
    while i < pairs.len()
        invariant
            i <= pairs@.len(),
            forall|k: Seq<char>|
                #[trigger] lookup(m@, k) == pairs_lookup(views(pairs@.take(i as int)), k),
        decreases pairs@.len() - i,
    {
        let key = pairs[i].0.clone();
        let value = pairs[i].1.clone();
        let ghost before = views(pairs@.take(i as int));
        m.insert(key, value);
        proof {
            let after = views(pairs@.take(i + 1));
            assert(after.drop_last() =~= before);
            assert(after.last() == (pairs@[i as int].0@, pairs@[i as int].1@));
        }
        i = i + 1;
    }
    assert(pairs@.take(i as int) =~= pairs@);
    m
}

/// The attributes of a node of the given kind label only.
pub open spec fn kind_pairs(kind: Seq<char>) -> Seq<(Seq<char>, Seq<char>)> {
    seq![("kind"@, kind)]
}

/// The identifier of an observation's provider node.
pub open spec fn provider_node(o: EnvelopeModel) -> NodeIdModel {
    (4u8, o.provider)
}

/// The identifier of an observation's capability node.
pub open spec fn capability_node(o: EnvelopeModel) -> NodeIdModel {
    (3u8, o.capability)
}

/// The identifier of an observation's resource node.
pub open spec fn resource_node(o: EnvelopeModel) -> NodeIdModel {
    (5u8, o.resource)
}

/// The identifier of an observation's evidence node.
pub open spec fn evidence_node(o: EnvelopeModel) -> NodeIdModel {
    (6u8, evidence_id_spec(o.provider, o.resource, o.capability, o.observed_at, o.sequence))
}

/// The attributes of an observation's evidence node.
pub open spec fn evidence_pairs(o: EnvelopeModel, f: FreshnessState) -> Seq<(Seq<char>, Seq<char>)> {
    seq![
        ("kind"@, "observation-evidence"@),
        ("provider"@, o.provider),
        ("resource"@, o.resource),
        ("capability"@, o.capability),
        ("authority"@, authority_name(o.authority)),
        ("observed_at_unix_ms"@, decimal(o.observed_at as nat)),
        ("sequence"@, decimal(o.sequence as nat)),
        ("freshness"@, freshness_state_name(f)),
    ]
}

/// The observed attributes, each under `observed.` and its key.
pub open spec fn observed_pairs(attrs: Seq<(Seq<char>, ValueModel)>) -> Seq<(Seq<char>, Seq<char>)> {
    attrs.map_values(|a: (Seq<char>, ValueModel)| ("observed."@ + a.0, value_text(a.1)))
}

/// The attributes of a resource node whose state an observation sets.
pub open spec fn resource_pairs(o: EnvelopeModel, f: FreshnessState) -> Seq<(Seq<char>, Seq<char>)> {
    seq![
        ("kind"@, "resource"@),
        ("provider"@, o.provider),
        ("capability"@, o.capability),
        ("observed_at_unix_ms"@, decimal(o.observed_at as nat)),
        ("sequence"@, decimal(o.sequence as nat)),
        ("freshness"@, freshness_state_name(f)),
        ("authority"@, authority_name(o.authority)),
        ("evidence_id"@, evidence_node(o).1),
    ] + observed_pairs(o.attributes)
}

/// A number stored under an attribute, if it parses.
pub open spec fn attr_number(attrs: Seq<(Seq<char>, Seq<char>)>, k: Seq<char>) -> Option<u64> {
    match lookup(attrs, k) {
        Some(v) => parse_u64_spec(v),
        None => None,
    }
}

/// Whether an incoming observation is newer than the state a resource node
/// records. From the same provider the sequence decides, so a clock step
/// back cannot make newer evidence look old; otherwise time, then
/// sequence, decide; without recorded time and sequence it is newer.
pub open spec fn newer_than(attrs: Seq<(Seq<char>, Seq<char>)>, o: EnvelopeModel) -> bool {
    let time = attr_number(attrs, "observed_at_unix_ms"@);
    let sequence = attr_number(attrs, "sequence"@);
    let provider = lookup(attrs, "provider"@);
    if provider is Some && sequence is Some && provider.unwrap() == o.provider {
        o.sequence > sequence.unwrap()
    } else if time is Some && sequence is Some {
        o.observed_at > time.unwrap() || (o.observed_at == time.unwrap() && o.sequence
            > sequence.unwrap())
    } else {
        true
    }
}

/// Edges after adding `e` unless it is already there.
pub open spec fn with_edge(edges: Seq<EdgeModel>, e: EdgeModel) -> Seq<EdgeModel> {
    if edges.contains(e) {
        edges
    } else {
        edges.push(e)
    }
}

/// The four edges an observation adds, in order.
pub open spec fn observation_edges(o: EnvelopeModel) -> Seq<EdgeModel> {
    seq![
        (provider_node(o), capability_node(o), EdgeKind::Provides,
            "provider declares observation capability"@),
        (resource_node(o), provider_node(o), EdgeKind::ObservedBy,
            "resource has evidence from this authoritative provider"@),
        (capability_node(o), resource_node(o), EdgeKind::Realizes,
            "observation capability realizes this resource view"@),
        (evidence_node(o), resource_node(o), EdgeKind::EvidenceFor,
            "observation envelope is evidence for the resource state"@),
    ]
}

/// What recording observation `o_in` with freshness `f` does to a graph's
/// nodes and edges, and the outcome it reports.
pub open spec fn records_observation(
    old_nodes: Seq<(Seq<char>, NodeModel)>,
    old_edges: Seq<EdgeModel>,
    new_nodes: Seq<(Seq<char>, NodeModel)>,
    new_edges: Seq<EdgeModel>,
    o_in: EnvelopeModel,
    f: FreshnessState,
    outcome: ObservationRecordOutcome,
) -> bool {
    let o = o_in;
    let res_key = node_key(resource_node(o));
    let update = f == FreshnessState::Current && match lookup(
        old_nodes,
        res_key,
    ) {
        None => true,
        Some(n) => newer_than(n.1, o),
    };
    &&& (outcome == ObservationRecordOutcome::CurrentStateUpdated) == update
    &&& lookup(new_nodes, node_key(provider_node(o))) matches Some(n)
        && node_is(n, provider_node(o), kind_pairs("provider"@))
    &&& lookup(new_nodes, node_key(capability_node(o))) matches Some(n)
        && node_is(n, capability_node(o), kind_pairs("capability"@))
    &&& lookup(new_nodes, node_key(evidence_node(o))) matches Some(n)
        && node_is(n, evidence_node(o), evidence_pairs(o, f))
    &&& update ==> (lookup(new_nodes, res_key) matches Some(n)
        && node_is(n, resource_node(o), resource_pairs(o, f)))
    &&& !update ==> match lookup(old_nodes, res_key) {
        Some(n) => lookup(new_nodes, res_key) == Some(n),
        None => lookup(new_nodes, res_key) matches Some(n) && node_is(
            n,
            resource_node(o),
            kind_pairs("resource"@),
        ),
    }
    &&& forall|k: Seq<char>|
        k != node_key(provider_node(o)) && k != node_key(capability_node(o)) && k
            != node_key(evidence_node(o)) && k != res_key ==> #[trigger] lookup(
            new_nodes,
            k,
        ) == lookup(old_nodes, k)
    &&& new_edges == with_edge(
        with_edge(
            with_edge(
                with_edge(old_edges, observation_edges(o)[0]),
                observation_edges(o)[1],
            ),
            observation_edges(o)[2],
        ),
        observation_edges(o)[3],
    )
}

/// Whether a node has the identifier and the attributes the pairs give.
pub open spec fn node_is(n: NodeModel, id: NodeIdModel, pairs: Seq<(Seq<char>, Seq<char>)>) -> bool {
    n.0 == id && forall|k: Seq<char>| #[trigger] lookup(n.1, k) == pairs_lookup(pairs, k)
}

/// Whether `o` is newer evidence than `cur`: from the same provider by
/// sequence; otherwise by time, then sequence.
pub open spec fn newer_evidence(cur: EnvelopeModel, o: EnvelopeModel) -> bool {
    if cur.provider == o.provider {
        o.sequence > cur.sequence
    } else {
        o.observed_at > cur.observed_at || (o.observed_at == cur.observed_at && o.sequence > cur.sequence)
    }
}

proof fn lemma_pairs_lookup_skip(
    base: Seq<(Seq<char>, Seq<char>)>,
    extra: Seq<(Seq<char>, Seq<char>)>,
    k: Seq<char>,
)
    requires
        forall|i: int| 0 <= i < extra.len() ==> #[trigger] extra[i].0 != k,
    ensures
        pairs_lookup(base + extra, k) == pairs_lookup(base, k),
    decreases extra.len(),
{
    if extra.len() > 0 {
        let all = base + extra;
        assert(all.last() == extra.last());
        assert(all.drop_last() =~= base + extra.drop_last());
        assert forall|i: int| 0 <= i < extra.drop_last().len() implies #[trigger] extra.drop_last()[i].0 != k by {
            assert(extra.drop_last()[i] == extra[i]);
        }
        lemma_pairs_lookup_skip(base, extra.drop_last(), k);
    } else {
        assert(base + extra =~= base);
    }
}

proof fn lemma_observed_keys_differ(attrs: Seq<(Seq<char>, ValueModel)>, k: Seq<char>)
    requires
        k.len() < 9 || k[8] != '.',
    ensures
        forall|i: int| 0 <= i < observed_pairs(attrs).len() ==> #[trigger] observed_pairs(attrs)[i].0 != k,
{
    reveal_strlit("observed.");
    assert forall|i: int| 0 <= i < observed_pairs(attrs).len() implies #[trigger] observed_pairs(attrs)[i].0 != k by {
        let x = observed_pairs(attrs)[i].0;
        assert(x == "observed."@ + attrs[i].0);
        assert(x[8] == '.');
    }
}

/// A resource node set by an observation records the observation's
/// provider, time and sequence, so newer evidence is decided against it.
pub proof fn lemma_resource_node_newer(n: NodeModel, cur: EnvelopeModel, f: FreshnessState, o: EnvelopeModel)
    requires
        node_is(n, resource_node(cur), resource_pairs(cur, f)),
    ensures
        newer_than(n.1, o) == newer_evidence(cur, o),
{
    reveal_strlit("kind");
    reveal_strlit("provider");
    reveal_strlit("capability");
    reveal_strlit("observed_at_unix_ms");
    reveal_strlit("sequence");
    reveal_strlit("freshness");
    reveal_strlit("authority");
    reveal_strlit("evidence_id");
    reveal_strlit("observed.");
    let fixed = seq![
        ("kind"@, "resource"@),
        ("provider"@, cur.provider),
        ("capability"@, cur.capability),
        ("observed_at_unix_ms"@, decimal(cur.observed_at as nat)),
        ("sequence"@, decimal(cur.sequence as nat)),
        ("freshness"@, freshness_state_name(f)),
        ("authority"@, authority_name(cur.authority)),
        ("evidence_id"@, evidence_node(cur).1),
    ];
    let extra = observed_pairs(cur.attributes);
    assert(resource_pairs(cur, f) == fixed + extra);
    assert("provider"@.len() == 8);
    assert("sequence"@.len() == 8);
    assert("observed_at_unix_ms"@[8] == '_');
    lemma_observed_keys_differ(cur.attributes, "provider"@);
    lemma_observed_keys_differ(cur.attributes, "sequence"@);
    lemma_observed_keys_differ(cur.attributes, "observed_at_unix_ms"@);
    lemma_pairs_lookup_skip(fixed, extra, "provider"@);
    lemma_pairs_lookup_skip(fixed, extra, "sequence"@);
    lemma_pairs_lookup_skip(fixed, extra, "observed_at_unix_ms"@);
    reveal_with_fuel(pairs_lookup, 9);
    let f4 = fixed.take(5);
    let f3 = fixed.take(4);
    let f2 = fixed.take(2);
    assert(fixed.drop_last().drop_last().drop_last() =~= f4);
    assert(f4.drop_last() =~= f3);
    assert(f3.drop_last().drop_last() =~= f2);
    assert("sequence"@ != "provider"@) by {
        assert("sequence"@[0] != "provider"@[0]);
    }
    assert("sequence"@ != "observed_at_unix_ms"@);
    assert("capability"@ != "provider"@);
    assert("observed_at_unix_ms"@ != "provider"@);
    assert("evidence_id"@ != "provider"@) by {
        assert("evidence_id"@[0] != "provider"@[0]);
    }
    assert("authority"@ != "provider"@) by {
        assert("authority"@[0] != "provider"@[0]);
    }
    assert("freshness"@ != "provider"@) by {
        assert("freshness"@[0] != "provider"@[0]);
    }
    assert("evidence_id"@ != "observed_at_unix_ms"@) by {
        assert("evidence_id"@[0] != "observed_at_unix_ms"@[0]);
    }
    assert("authority"@ != "observed_at_unix_ms"@) by {
        assert("authority"@[0] != "observed_at_unix_ms"@[0]);
    }
    assert("freshness"@ != "observed_at_unix_ms"@) by {
        assert("freshness"@[0] != "observed_at_unix_ms"@[0]);
    }
    assert(pairs_lookup(f3, "observed_at_unix_ms"@) == Some(decimal(cur.observed_at as nat)));
    assert(pairs_lookup(f2, "provider"@) == Some(cur.provider));
    assert(pairs_lookup(fixed, "sequence"@) == Some(decimal(cur.sequence as nat)));
    assert(pairs_lookup(fixed, "provider"@) == Some(cur.provider));
    assert(pairs_lookup(fixed, "observed_at_unix_ms"@) == Some(decimal(cur.observed_at as nat)));
    assert(lookup(n.1, "sequence"@) == Some(decimal(cur.sequence as nat)));
    assert(lookup(n.1, "provider"@) == Some(cur.provider));
    assert(lookup(n.1, "observed_at_unix_ms"@) == Some(decimal(cur.observed_at as nat)));
    lemma_parse_decimal(cur.sequence);
    lemma_parse_decimal(cur.observed_at);
}

/// Whether an edge kind states where a node comes from.
pub open spec fn reason_kind(k: EdgeKind) -> bool {
    k == EdgeKind::DerivedFrom || k == EdgeKind::Realizes || k == EdgeKind::Requires || k
        == EdgeKind::Owns || k == EdgeKind::EvidenceFor
}

/// Whether an edge kind makes its source an origin of its target.
pub open spec fn origin_kind(k: EdgeKind) -> bool {
    k == EdgeKind::DerivedFrom || k == EdgeKind::Owns || k == EdgeKind::Requires || k
        == EdgeKind::Realizes
}

/// Whether `e` is a conflict that touches `n`.
pub open spec fn conflict_of(e: EdgeModel, n: NodeIdModel) -> bool {
    e.2 == EdgeKind::Conflicts && (e.0 == n || e.1 == n)
}

/// The edges that do not touch `n`.
pub open spec fn not_incident(n: NodeIdModel) -> spec_fn(EdgeModel) -> bool {
    |e: EdgeModel| e.0 != n && e.1 != n
}

/// The conflicts that touch `n`.
pub open spec fn conflicts_touching(n: NodeIdModel) -> spec_fn(EdgeModel) -> bool {
    |e: EdgeModel| conflict_of(e, n)
}

/// The edges that state a reason for `n`.
pub open spec fn reasons_toward(n: NodeIdModel) -> spec_fn(EdgeModel) -> bool {
    |e: EdgeModel| reason_of(e, n)
}

/// Whether `e` states a reason for `n`.
pub open spec fn reason_of(e: EdgeModel, n: NodeIdModel) -> bool {
    e.1 == n && reason_kind(e.2)
}

/// Whether `o` is an origin of `t`.
pub open spec fn is_origin(edges: Seq<EdgeModel>, o: NodeIdModel, t: NodeIdModel) -> bool {
    exists|i: int| 0 <= i < edges.len() && origin_kind(#[trigger] edges[i].2) && edges[i].0 == o
        && edges[i].1 == t
}

/// Whether `t` has an origin other than `o`.
pub open spec fn other_origin(edges: Seq<EdgeModel>, o: NodeIdModel, t: NodeIdModel) -> bool {
    exists|i: int| 0 <= i < edges.len() && origin_kind(#[trigger] edges[i].2) && edges[i].0 != o
        && edges[i].1 == t
}

/// The edges that explain a target are exactly its requires, derived-from,
/// owns and realizes edges: retiring an origin makes removable a target that
/// such an edge from it reaches and that no such edge from another node
/// reaches, and retains a target that another node also explains; provides,
/// conflicts, evidence and the other edges explain nothing.
pub proof fn law_explaining_edges_decide_removal(edges: Seq<EdgeModel>, o: NodeIdModel, t: NodeIdModel)
    ensures
        is_origin(edges, o, t) <==> exists|i: int|
            0 <= i < edges.len() && edges[i].0 == o && edges[i].1 == t && (#[trigger] edges[i].2
                == EdgeKind::Requires || edges[i].2 == EdgeKind::DerivedFrom || edges[i].2 == EdgeKind::Owns
                || edges[i].2 == EdgeKind::Realizes),
        other_origin(edges, o, t) <==> exists|i: int|
            0 <= i < edges.len() && edges[i].0 != o && edges[i].1 == t && (#[trigger] edges[i].2
                == EdgeKind::Requires || edges[i].2 == EdgeKind::DerivedFrom || edges[i].2 == EdgeKind::Owns
                || edges[i].2 == EdgeKind::Realizes),
{
    if is_origin(edges, o, t) {
        let i = choose|i: int| 0 <= i < edges.len() && origin_kind(#[trigger] edges[i].2) && edges[i].0 == o
            && edges[i].1 == t;
        assert(edges[i].2 == EdgeKind::Requires || edges[i].2 == EdgeKind::DerivedFrom || edges[i].2
            == EdgeKind::Owns || edges[i].2 == EdgeKind::Realizes);
    }
    if other_origin(edges, o, t) {
        let i = choose|i: int| 0 <= i < edges.len() && origin_kind(#[trigger] edges[i].2) && edges[i].0 != o
            && edges[i].1 == t;
        assert(edges[i].2 == EdgeKind::Requires || edges[i].2 == EdgeKind::DerivedFrom || edges[i].2
            == EdgeKind::Owns || edges[i].2 == EdgeKind::Realizes);
    }
}

/// What retiring an origin would do: targets it alone explains become
/// removable, targets others also explain are retained, and the conflicts
/// that touch it are listed.
#[derive(Debug)]
pub struct RemovalImpact {
    pub removable: Vec<NodeId>,
    pub retained_shared: Vec<NodeId>,
    pub conflicts: Vec<Edge>,
}

/// Whether an observation is newer than the state a node records, per
/// `newer_than`.
fn observation_is_newer(current: &Node, incoming: &ObservationEnvelope) -> (r: bool)
    ensures
        r == newer_than(current@.1, incoming@),
{
    let time = match current.attributes.get("observed_at_unix_ms") {
        Some(v) => parse_u64(v.as_str()),
        None => None,
    };
    let sequence = match current.attributes.get("sequence") {
        Some(v) => parse_u64(v.as_str()),
        None => None,
    };
    match (current.attributes.get("provider"), sequence) {
        (Some(p), Some(s)) => {
            if crate::text::str_eq(p.as_str(), incoming.provider.as_str()) {
                return incoming.sequence > s;
            }
        },
        _ => {},
    }
    match (time, sequence) {
        (Some(t), Some(s)) => incoming.observed_at_unix_ms > t || (incoming.observed_at_unix_ms
            == t && incoming.sequence > s),
        _ => true,
    }
}

/// Whether some identifier in `ids` is `id`.
/// Identifiers in strictly increasing order of their keys, which is the
/// order of identifiers: by kind, then by text.
pub open spec fn ids_in_order(s: Seq<NodeIdModel>) -> bool {
    forall|i: int, j: int| 0 <= i < j < s.len() ==> crate::keyed::text_lt(#[trigger] node_key(s[i]), #[trigger] node_key(s[j]))
}

/// Inserts an identifier not yet present at its place in order.
fn insert_in_order(v: &mut Vec<NodeId>, id: NodeId)
    requires
        ids_in_order(views(old(v)@)),
        !views(old(v)@).contains(id@),
    ensures
        ids_in_order(views(final(v)@)),
        forall|t: NodeIdModel| #[trigger] views(final(v)@).contains(t) <==> (views(old(v)@).contains(t) || t == id@),
{
    let ghost before = views(v@);
    let key = id.key();
    let mut i: usize = 0;
    while i < v.len()
        invariant
            i <= v@.len(),
            before == views(v@),
            key@ == node_key(id@),
            ids_in_order(before),
            forall|j: int| 0 <= j < i ==> crate::keyed::text_lt(#[trigger] node_key(before[j]), key@),
        ensures
            i < before.len() ==> !crate::keyed::text_lt(node_key(before[i as int]), key@),
        decreases v@.len() - i,
    {
        let k = v[i].key();
        assert(before[i as int] == v@[i as int]@);
        match crate::keyed::compare_text(k.as_str(), key.as_str()) {
            crate::keyed::KeyOrder::Less => {},
            _ => {
                proof {
                    crate::keyed::lemma_text_lt_irreflexive(key@);
                }
                break;
            },
        }
        i = i + 1;
    }
    proof {
        if i < before.len() {
            assert(before[i as int] == v@[i as int]@);
            if node_key(before[i as int]) == key@ {
                lemma_node_key_injective(before[i as int], id@);
                assert(before.contains(id@));
            }
            assert(!crate::keyed::text_lt(node_key(before[i as int]), key@));
            crate::keyed::lemma_text_lt_total(node_key(before[i as int]), key@);
            assert(crate::keyed::text_lt(key@, node_key(before[i as int])));
        }
    }
    v.insert(i, id);
    proof {
        let after = views(v@);
        assert(after =~= before.take(i as int).push(id@) + before.skip(i as int));
        assert forall|x: int, y: int| 0 <= x < y < after.len() implies crate::keyed::text_lt(
            #[trigger] node_key(after[x]),
            #[trigger] node_key(after[y]),
        ) by {
            if x < i && y < i {
                assert(after[x] == before[x]);
                assert(after[y] == before[y]);
            } else if x < i && y == i {
                assert(after[x] == before[x]);
            } else if x < i && y > i {
                assert(after[x] == before[x]);
                assert(after[y] == before[y - 1]);
            } else if x == i {
                assert(after[y] == before[y - 1]);
                if y - 1 > i {
                    assert(crate::keyed::text_lt(node_key(before[i as int]), node_key(before[y - 1])));
                    crate::keyed::lemma_text_lt_transitive(key@, node_key(before[i as int]), node_key(before[y - 1]));
                }
            } else {
                assert(after[x] == before[x - 1]);
                assert(after[y] == before[y - 1]);
            }
        }
        assert forall|t: NodeIdModel| #[trigger] after.contains(t) <==> (before.contains(t) || t == id@) by {
            if after.contains(t) {
                let j = choose|j: int| 0 <= j < after.len() && after[j] == t;
                if j < i {
                    assert(before[j] == t);
                } else if j > i {
                    assert(before[j - 1] == t);
                }
            }
            if before.contains(t) {
                let j = choose|j: int| 0 <= j < before.len() && before[j] == t;
                if j < i {
                    assert(after[j] == t);
                } else {
                    assert(after[j + 1] == t);
                }
            }
            if t == id@ {
                assert(after[i as int] == t);
            }
        }
    }
}

proof fn lemma_in_order_distinct(s: Seq<NodeIdModel>)
    requires
        ids_in_order(s),
    ensures
        s.no_duplicates(),
{
    assert forall|i: int, j: int| 0 <= i < s.len() && 0 <= j < s.len() && i != j implies s[i] != s[j] by {
        if i < j {
            assert(crate::keyed::text_lt(node_key(s[i]), node_key(s[j])));
        } else {
            assert(crate::keyed::text_lt(node_key(s[j]), node_key(s[i])));
        }
        crate::keyed::lemma_text_lt_irreflexive(node_key(s[i]));
    }
}

fn contains_id(ids: &Vec<NodeId>, id: &NodeId) -> (r: bool)
    ensures
        r == views(ids@).contains(id@),
{
    let mut i: usize = 0;
    while i < ids.len()
        invariant
            i <= ids@.len(),
            forall|j: int| 0 <= j < i ==> ids@[j]@ != id@,
        decreases ids@.len() - i,
    {
        if ids[i].same(id) {
            assert(views(ids@)[i as int] == id@);
            return true;
        }
        i = i + 1;
    }
    assert(!views(ids@).contains(id@)) by {
        if views(ids@).contains(id@) {
            let j = choose|j: int| 0 <= j < views(ids@).len() && #[trigger] views(ids@)[j] == id@;
            assert(ids@[j]@ == id@);
        }
    }
    false
}

/// The nodes and edges of the system.
#[derive(Debug)]
pub struct SystemGraph {
    nodes: TextMap<Node>,
    edges: Vec<Edge>,
}

impl SystemGraph {
    /// Nodes keyed by `node_key`.
    pub closed spec fn nodes_spec(self) -> Seq<(Seq<char>, NodeModel)> {
        self.nodes@
    }

    /// Edges in insertion order.
    pub closed spec fn edges_spec(self) -> Seq<EdgeModel> {
        views(self.edges@)
    }

    /// An empty graph.
    pub fn new() -> (r: Self)
        ensures
            r.nodes_spec().len() == 0,
            r.edges_spec().len() == 0,
    {
        let g = SystemGraph { nodes: TextMap::new(), edges: Vec::new() };
        assert(views(g.edges@) =~= Seq::<EdgeModel>::empty());
        g
    }

    /// Inserts or replaces a node.
    pub fn upsert_node(&mut self, node: Node)
        ensures
            final(self).edges_spec() == old(self).edges_spec(),
            forall|k: Seq<char>|
                #[trigger] lookup(final(self).nodes_spec(), k) == if k == node_key(node@.0) {
                    Some(node@)
                } else {
                    lookup(old(self).nodes_spec(), k)
                },
    {
        let key = node.id.key();
        self.nodes.insert(key, node);
    }

    /// Removes a node and every edge incident to it.
    pub fn remove_node(&mut self, id: &NodeId) -> (r: Option<Node>)
        ensures
            forall|k: Seq<char>|
                #[trigger] lookup(final(self).nodes_spec(), k) == if k == node_key(id@) {
                    None
                } else {
                    lookup(old(self).nodes_spec(), k)
                },
            match r {
                Some(n) => lookup(old(self).nodes_spec(), node_key(id@)) == Some(n@)
                    && final(self).edges_spec() == old(self).edges_spec().filter(not_incident(id@)),
                None => lookup(old(self).nodes_spec(), node_key(id@)) is None
                    && final(self).edges_spec() == old(self).edges_spec(),
            },
    {
        let key = id.key();
        let removed = self.nodes.remove(key.as_str());
        match removed {
            Some(n) => {
                let ghost old_edges = views(self.edges@);
                let mut kept: Vec<Edge> = Vec::new();
                let mut i: usize = 0;
                while i < self.edges.len()
                    invariant
                        i <= self.edges@.len(),
                        old_edges == views(self.edges@),
                        views(kept@) == old_edges.take(i as int).filter(not_incident(id@)),
                    decreases self.edges@.len() - i,
                {
                    let e = &self.edges[i];
                    proof {
                        reveal(Seq::filter);
                        assert(old_edges.take(i + 1).drop_last() =~= old_edges.take(i as int));
                        assert(old_edges.take(i + 1).last() == e@);
                    }
                    if !e.from.same(id) && !e.to.same(id) {
                        let ghost before = views(kept@);
                        kept.push(e.clone());
                        assert(views(kept@) =~= before.push(e@));
                    }
                    i = i + 1;
                }
                assert(old_edges.take(i as int) =~= old_edges);
                self.edges = kept;
                Some(n)
            },
            None => None,
        }
    }

    /// The node with an identifier.
    pub fn node(&self, id: &NodeId) -> (r: Option<&Node>)
        ensures
            match r {
                Some(n) => lookup(self.nodes_spec(), node_key(id@)) == Some(n@),
                None => lookup(self.nodes_spec(), node_key(id@)) is None,
            },
    {
        let key = id.key();
        self.nodes.get(key.as_str())
    }

    /// Every node, in key order.
    pub fn nodes(&self) -> (r: Vec<&Node>)
        ensures
            sorted_keys(self.nodes_spec()),
            r@.len() == self.nodes_spec().len(),
            forall|i: int| 0 <= i < r@.len() ==> #[trigger] r@[i]@ == self.nodes_spec()[i].1,
    {
        let mut out: Vec<&Node> = Vec::new();
        let mut i: usize = 0;
        let _count = self.nodes.len();
        while i < self.nodes.len()
            invariant
                i <= self.nodes@.len(),
                out@.len() == i,
                forall|j: int| 0 <= j < i ==> #[trigger] out@[j]@ == self.nodes@[j].1,
            decreases self.nodes@.len() - i,
        {
            out.push(self.nodes.value_at(i));
            i = i + 1;
        }
        out
    }

    /// Adds an edge unless an identical one is present.
    pub fn add_edge(&mut self, edge: Edge)
        ensures
            final(self).nodes_spec() == old(self).nodes_spec(),
            final(self).edges_spec() == with_edge(old(self).edges_spec(), edge@),
    {
        let ghost old_edges = views(self.edges@);
        let mut i: usize = 0;
        while i < self.edges.len()
            invariant
                i <= self.edges@.len(),
                old_edges == views(self.edges@),
                forall|j: int| 0 <= j < i ==> old_edges[j] != edge@,
            decreases self.edges@.len() - i,
        {
            if self.edges[i].same(&edge) {
                assert(old_edges[i as int] == edge@);
                assert(old_edges.contains(edge@));
                return;
            }
            i = i + 1;
        }
        assert(!old_edges.contains(edge@));
        self.edges.push(edge);
        assert(views(self.edges@) =~= old_edges.push(edge@));
    }

    /// Every edge, in insertion order.
    pub fn edges(&self) -> (r: &[Edge])
        ensures
            views(r@) == self.edges_spec(),
    {
        self.edges.as_slice()
    }

    /// Records an observation: provider, capability and evidence nodes and
    /// the four edges between them and the resource. The resource's state is
    /// replaced only by current evidence that is newer than what it records;
    /// otherwise the evidence is retained as history and a resource without
    /// a node gets a bare one.
    pub fn record_observation(
        &mut self,
        observation: &ObservationEnvelope,
        freshness: FreshnessState,
    ) -> (r: ObservationRecordOutcome)
        ensures
            sorted_keys(final(self).nodes_spec()),
            records_observation(
                old(self).nodes_spec(),
                old(self).edges_spec(),
                final(self).nodes_spec(),
                final(self).edges_spec(),
                observation@,
                freshness,
                r,
            ),
    {
        let ghost o = observation@;
        let ghost old_nodes = self.nodes@;
        let provider = NodeId::Provider(observation.provider.clone());
        let resource = NodeId::Resource(observation.resource.clone());
        let capability = NodeId::Capability(observation.capability.clone());
        let evidence_text = observation.evidence_id();
        let evidence = NodeId::Evidence(evidence_text.clone());
        proof {
            assert(node_key(provider_node(o))[0] == '4');
            assert(node_key(capability_node(o))[0] == '3');
            assert(node_key(resource_node(o))[0] == '5');
            assert(node_key(evidence_node(o))[0] == '6');
        }
        let provider_pairs = vec![(owned("kind"), owned("provider"))];
        assert(views(provider_pairs@) =~= kind_pairs("provider"@));
        self.upsert_node(Node { id: provider.clone(), attributes: map_of(&provider_pairs) });
        let capability_pairs = vec![(owned("kind"), owned("capability"))];
        assert(views(capability_pairs@) =~= kind_pairs("capability"@));
        self.upsert_node(Node { id: capability.clone(), attributes: map_of(&capability_pairs) });
        let evidence_attrs = vec![
            (owned("kind"), owned("observation-evidence")),
            (owned("provider"), owned(observation.provider.as_str())),
            (owned("resource"), owned(observation.resource.as_str())),
            (owned("capability"), owned(observation.capability.as_str())),
            (owned("authority"), owned(observation.authority.as_str())),
            (owned("observed_at_unix_ms"), decimal_string(observation.observed_at_unix_ms)),
            (owned("sequence"), decimal_string(observation.sequence)),
            (owned("freshness"), owned(freshness.as_str())),
        ];
        assert(views(evidence_attrs@) =~= evidence_pairs(o, freshness));
        self.upsert_node(Node { id: evidence.clone(), attributes: map_of(&evidence_attrs) });
        let ghost after_upserts = self.nodes@;
        assert(lookup(after_upserts, node_key(resource_node(o))) == lookup(
            old_nodes,
            node_key(resource_node(o)),
        ));
        self.add_edge(
            Edge {
                from: provider.clone(),
                to: capability.clone(),
                kind: EdgeKind::Provides,
                reason: owned("provider declares observation capability"),
            },
        );
        self.add_edge(
            Edge {
                from: resource.clone(),
                to: provider,
                kind: EdgeKind::ObservedBy,
                reason: owned("resource has evidence from this authoritative provider"),
            },
        );
        self.add_edge(
            Edge {
                from: capability,
                to: resource.clone(),
                kind: EdgeKind::Realizes,
                reason: owned("observation capability realizes this resource view"),
            },
        );
        self.add_edge(
            Edge {
                from: evidence,
                to: resource.clone(),
                kind: EdgeKind::EvidenceFor,
                reason: owned("observation envelope is evidence for the resource state"),
            },
        );
        let is_current = match freshness {
            FreshnessState::Current => true,
            _ => false,
        };
        let resource_key = resource.key();
        let should_update = is_current && match self.nodes.get(resource_key.as_str()) {
            None => true,
            Some(current) => observation_is_newer(current, observation),
        };
        if should_update {
            let mut attrs: Vec<(String, String)> = vec![
                (owned("kind"), owned("resource")),
                (owned("provider"), owned(observation.provider.as_str())),
                (owned("capability"), owned(observation.capability.as_str())),
                (owned("observed_at_unix_ms"), decimal_string(observation.observed_at_unix_ms)),
                (owned("sequence"), decimal_string(observation.sequence)),
                (owned("freshness"), owned(freshness.as_str())),
                (owned("authority"), owned(observation.authority.as_str())),
                (owned("evidence_id"), evidence_text),
            ];
            let ghost fixed = views(attrs@);
            let mut i: usize = 0;
            while i < observation.attributes.len()
                invariant
                    i <= o.attributes.len(),
                    o == observation@,
                    views(attrs@) == fixed + observed_pairs(o.attributes.take(i as int)),
                decreases o.attributes.len() - i,
            {
                let mut key = owned("observed.");
                append_str(&mut key, observation.attributes.key_at(i).as_str());
                let value = observation.attributes.value_at(i).to_text();
                let ghost before = views(attrs@);
                attrs.push((key, value));
                proof {
                    assert(o.attributes.take(i + 1) =~= o.attributes.take(i as int).push(
                        o.attributes[i as int],
                    ));
                    assert(observed_pairs(o.attributes.take(i + 1)) =~= observed_pairs(
                        o.attributes.take(i as int),
                    ).push(("observed."@ + o.attributes[i as int].0, value_text(o.attributes[i as int].1))));
                    assert(views(attrs@) =~= before.push((key@, value@)));
                }
                i = i + 1;
            }
            assert(o.attributes.take(i as int) =~= o.attributes);
            assert(views(attrs@) =~= resource_pairs(o, freshness));
            self.upsert_node(Node { id: resource, attributes: map_of(&attrs) });
            let _count = self.nodes.len();
            ObservationRecordOutcome::CurrentStateUpdated
        } else {
            if self.nodes.get(resource_key.as_str()).is_none() {
                let bare = vec![(owned("kind"), owned("resource"))];
                assert(views(bare@) =~= kind_pairs("resource"@));
                self.upsert_node(Node { id: resource, attributes: map_of(&bare) });
            }
            let _count = self.nodes.len();
            ObservationRecordOutcome::HistoricalEvidenceRetained
        }
    }

    /// Whether `target` has an origin other than `origin`.
    fn has_other_origin(&self, origin: &NodeId, target: &NodeId) -> (r: bool)
        ensures
            r == other_origin(self.edges_spec(), origin@, target@),
    {
        let ghost all = views(self.edges@);
        let mut j: usize = 0;
        while j < self.edges.len()
            invariant
                j <= self.edges@.len(),
                all == views(self.edges@),
                forall|k: int|
                    0 <= k < j ==> !(origin_kind(#[trigger] all[k].2) && all[k].0 != origin@
                        && all[k].1 == target@),
            decreases self.edges@.len() - j,
        {
            let e = &self.edges[j];
            assert(all[j as int] == e@);
            let kind_ok = match e.kind {
                EdgeKind::DerivedFrom | EdgeKind::Owns | EdgeKind::Requires | EdgeKind::Realizes => true,
                _ => false,
            };
            if kind_ok && !e.from.same(origin) && e.to.same(target) {
                assert(origin_kind(self.edges_spec()[j as int].2) && self.edges_spec()[j as int].0
                    != origin@ && self.edges_spec()[j as int].1 == target@);
                return true;
            }
            j = j + 1;
        }
        false
    }

    /// What retiring `retired_origin` would do.
    pub fn removal_impact(&self, retired_origin: &NodeId) -> (r: RemovalImpact)
        ensures
            forall|t: NodeIdModel|
                #[trigger] views(r.removable@).contains(t) <==> (is_origin(
                    self.edges_spec(),
                    retired_origin@,
                    t,
                ) && !other_origin(self.edges_spec(), retired_origin@, t)),
            forall|t: NodeIdModel|
                #[trigger] views(r.retained_shared@).contains(t) <==> (is_origin(
                    self.edges_spec(),
                    retired_origin@,
                    t,
                ) && other_origin(self.edges_spec(), retired_origin@, t)),
            views(r.removable@).no_duplicates(),
            views(r.retained_shared@).no_duplicates(),
            ids_in_order(views(r.removable@)),
            ids_in_order(views(r.retained_shared@)),
            views(r.conflicts@) == self.edges_spec().filter(conflicts_touching(retired_origin@)),
    {
        let ghost all = views(self.edges@);
        let ghost o = retired_origin@;
        let mut removable: Vec<NodeId> = Vec::new();
        let mut shared: Vec<NodeId> = Vec::new();
        let mut i: usize = 0;
        while i < self.edges.len()
            invariant
                i <= self.edges@.len(),
                all == views(self.edges@),
                all == self.edges_spec(),
                o == retired_origin@,
                ids_in_order(views(removable@)),
                ids_in_order(views(shared@)),
                forall|t: NodeIdModel|
                    #[trigger] views(removable@).contains(t) <==> (is_origin(all.take(i as int), o, t)
                        && !other_origin(all, o, t)),
                forall|t: NodeIdModel|
                    #[trigger] views(shared@).contains(t) <==> (is_origin(all.take(i as int), o, t)
                        && other_origin(all, o, t)),
            decreases self.edges@.len() - i,
        {
            let e = &self.edges[i];
            let ghost pre = all.take(i as int);
            let ghost cur = all.take(i + 1);
            proof {
                assert(cur =~= pre.push(e@));
                assert forall|t: NodeIdModel| #[trigger] is_origin(cur, o, t) <==> (is_origin(pre, o, t)
                    || (origin_kind(e@.2) && e@.0 == o && e@.1 == t)) by {
                    if is_origin(cur, o, t) {
                        let k = choose|k: int| 0 <= k < cur.len() && origin_kind(#[trigger] cur[k].2) && cur[k].0 == o && cur[k].1 == t;
                        if k < pre.len() {
                            assert(pre[k] == cur[k]);
                        }
                    }
                    if is_origin(pre, o, t) {
                        let k = choose|k: int| 0 <= k < pre.len() && origin_kind(#[trigger] pre[k].2) && pre[k].0 == o && pre[k].1 == t;
                        assert(cur[k] == pre[k]);
                    }
                    if origin_kind(e@.2) && e@.0 == o && e@.1 == t {
                        assert(cur[i as int] == e@);
                    }
                }
            }
            let kind_ok = match e.kind {
                EdgeKind::DerivedFrom | EdgeKind::Owns | EdgeKind::Requires | EdgeKind::Realizes => true,
                _ => false,
            };
            if kind_ok && e.from.same(retired_origin) {
                let seen = contains_id(&removable, &e.to) || contains_id(&shared, &e.to);
                if !seen {
                    let other = self.has_other_origin(retired_origin, &e.to);
                    if other {
                        insert_in_order(&mut shared, e.to.clone());
                    } else {
                        insert_in_order(&mut removable, e.to.clone());
                    }
                }
            }
            i = i + 1;
        }
        assert(all.take(i as int) =~= all);
        proof {
            lemma_in_order_distinct(views(removable@));
            lemma_in_order_distinct(views(shared@));
        }
        let conflicts_refs = self.conflicts_for(retired_origin);
        let mut conflicts: Vec<Edge> = Vec::new();
        let mut k: usize = 0;
        while k < conflicts_refs.len()
            invariant
                k <= conflicts_refs@.len(),
                views(conflicts@) == views(conflicts_refs@).take(k as int),
            decreases conflicts_refs@.len() - k,
        {
            let ghost before = views(conflicts@);
            conflicts.push(conflicts_refs[k].clone());
            assert(views(conflicts@) =~= before.push(conflicts_refs@[k as int]@));
            assert(views(conflicts_refs@).take(k + 1) =~= views(conflicts_refs@).take(k as int).push(conflicts_refs@[k as int]@));
            k = k + 1;
        }
        assert(views(conflicts_refs@).take(k as int) =~= views(conflicts_refs@));
        RemovalImpact { removable, retained_shared: shared, conflicts }
    }

    /// Edges that are conflicts touching a node, in order.
    pub fn conflicts_for(&self, node: &NodeId) -> (r: Vec<&Edge>)
        ensures
            views(r@) == self.edges_spec().filter(conflicts_touching(node@)),
    {
        let ghost all = views(self.edges@);
        let mut out: Vec<&Edge> = Vec::new();
        let mut i: usize = 0;
        while i < self.edges.len()
            invariant
                i <= self.edges@.len(),
                all == views(self.edges@),
                views(out@) == all.take(i as int).filter(conflicts_touching(node@)),
            decreases self.edges@.len() - i,
        {
            let e = &self.edges[i];
            proof {
                reveal(Seq::filter);
                assert(all.take(i + 1).drop_last() =~= all.take(i as int));
                assert(all.take(i + 1).last() == e@);
            }
            if edge_kind_eq(e.kind, EdgeKind::Conflicts) && (e.from.same(node) || e.to.same(node)) {
                let ghost before = views(out@);
                out.push(e);
                assert(views(out@) =~= before.push(e@));
            }
            i = i + 1;
        }
        assert(all.take(i as int) =~= all);
        out
    }

    /// Edges that explain where a node comes from, in order.
    pub fn reasons_for(&self, node: &NodeId) -> (r: Vec<&Edge>)
        ensures
            views(r@) == self.edges_spec().filter(reasons_toward(node@)),
    {
        let ghost all = views(self.edges@);
        let mut out: Vec<&Edge> = Vec::new();
        let mut i: usize = 0;
        while i < self.edges.len()
            invariant
                i <= self.edges@.len(),
                all == views(self.edges@),
                views(out@) == all.take(i as int).filter(reasons_toward(node@)),
            decreases self.edges@.len() - i,
        {
            let e = &self.edges[i];
            proof {
                reveal(Seq::filter);
                assert(all.take(i + 1).drop_last() =~= all.take(i as int));
                assert(all.take(i + 1).last() == e@);
            }
            let is_reason = match e.kind {
                EdgeKind::DerivedFrom | EdgeKind::Realizes | EdgeKind::Requires | EdgeKind::Owns
                | EdgeKind::EvidenceFor => true,
                _ => false,
            };
            if e.to.same(node) && is_reason {
                let ghost before = views(out@);
                out.push(e);
                assert(views(out@) =~= before.push(e@));
            }
            i = i + 1;
        }
        assert(all.take(i as int) =~= all);
        out
    }
}

impl Clone for SystemGraph {
    fn clone(&self) -> (r: Self)
        ensures
            r.nodes_spec() == self.nodes_spec(),
            r.edges_spec() == self.edges_spec(),
    {
        let mut edges: Vec<Edge> = Vec::new();
        let mut i: usize = 0;
        while i < self.edges.len()
            invariant
                i <= self.edges@.len(),
                views(edges@) == views(self.edges@).take(i as int),
            decreases self.edges@.len() - i,
        {
            let ghost before = views(edges@);
            edges.push(self.edges[i].clone());
            assert(views(edges@) =~= before.push(self.edges@[i as int]@));
            assert(views(self.edges@).take(i + 1) =~= views(self.edges@).take(i as int).push(
                self.edges@[i as int]@,
            ));
            i = i + 1;
        }
        assert(views(self.edges@).take(i as int) =~= views(self.edges@));
        SystemGraph { nodes: self.nodes.clone_exact(), edges }
    }
}

impl Default for SystemGraph {
    fn default() -> (r: Self)
        ensures
            r.nodes_spec().len() == 0,
            r.edges_spec().len() == 0,
    {
        SystemGraph::new()
    }
}

} // verus!
