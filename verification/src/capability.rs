//! Capability blueprints, their catalog, and the resolution of a requested
//! selection: what the requested capabilities require, which are unknown, and
//! which conflict.
use vstd::prelude::*;

use crate::ids::{texts, CapabilityId, ProviderId, ResourceId, TextId};
use crate::keyed::{lookup, text_lt, TextMap};

verus! {

/// How one capability relates to another.
#[derive(Clone, Copy, Debug, PartialEq, Eq, Structural)]
pub enum CapabilityRelationKind {
    Requires,
    Provides,
    Conflicts,
    Replaces,
    Recommends,
    Optional,
}

/// One relation of a capability to another.
#[derive(Debug, PartialEq, Eq)]
pub struct CapabilityRelation {
    pub kind: CapabilityRelationKind,
    pub capability: CapabilityId,
}

impl View for CapabilityRelation {
    type V = (CapabilityRelationKind, Seq<char>);

    open spec fn view(&self) -> (CapabilityRelationKind, Seq<char>) {
        (self.kind, self.capability@)
    }
}

impl Clone for CapabilityRelation {
    fn clone(&self) -> (r: Self)
        ensures
            r == *self,
    {
        CapabilityRelation { kind: self.kind, capability: self.capability.clone() }
    }
}

/// A desired resource that a capability contributes.
#[derive(Debug, PartialEq, Eq)]
pub struct DesiredResourceBlueprint {
    pub provider: ProviderId,
    pub resource: ResourceId,
    pub observation_capability: CapabilityId,
    pub state: TextMap<String>,
}

/// The texts of a resource blueprint: route and desired attributes.
pub type TemplateModel = (Seq<char>, Seq<char>, Seq<char>, Seq<(Seq<char>, Seq<char>)>);

impl View for DesiredResourceBlueprint {
    type V = TemplateModel;

    open spec fn view(&self) -> TemplateModel {
        (self.provider@, self.resource@, self.observation_capability@, self.state@)
    }
}

impl Clone for DesiredResourceBlueprint {
    fn clone(&self) -> (r: Self)
        ensures
            r@ == self@,
    {
        DesiredResourceBlueprint {
            provider: self.provider.clone(),
            resource: self.resource.clone(),
            observation_capability: self.observation_capability.clone(),
            state: self.state.clone(),
        }
    }
}

/// A capability: its relations and the desired resources it contributes.
#[derive(Debug, PartialEq, Eq)]
pub struct CapabilityBlueprint {
    pub id: CapabilityId,
    pub title: String,
    pub relations: Vec<CapabilityRelation>,
    pub desired_resources: Vec<DesiredResourceBlueprint>,
}

/// The texts of a blueprint.
pub struct BlueprintModel {
    pub id: Seq<char>,
    pub title: Seq<char>,
    pub relations: Seq<(CapabilityRelationKind, Seq<char>)>,
    pub resources: Seq<TemplateModel>,
}

impl View for CapabilityBlueprint {
    type V = BlueprintModel;

    open spec fn view(&self) -> BlueprintModel {
        BlueprintModel {
            id: self.id@,
            title: self.title@,
            relations: crate::planner::views(self.relations@),
            resources: crate::planner::views(self.desired_resources@),
        }
    }
}

/// Blueprints by capability identifier.
#[derive(Debug, PartialEq, Eq)]
pub struct CapabilityCatalog {
    blueprints: TextMap<CapabilityBlueprint>,
}

impl View for CapabilityCatalog {
    type V = Seq<(Seq<char>, BlueprintModel)>;

    closed spec fn view(&self) -> Seq<(Seq<char>, BlueprintModel)> {
        self.blueprints@
    }
}

impl CapabilityCatalog {
    /// An empty catalog.
    pub fn new() -> (r: Self)
        ensures
            r@.len() == 0,
    {
        CapabilityCatalog { blueprints: TextMap::new() }
    }

    /// Registers a blueprint under its identifier, replacing any earlier one.
    pub fn register(&mut self, blueprint: CapabilityBlueprint)
        ensures
            forall|k: Seq<char>| #[trigger] lookup(final(self)@, k) == if k == blueprint.id@ {
                Some(blueprint@)
            } else {
                lookup(old(self)@, k)
            },
    {
        let key = crate::text::owned(blueprint.id.as_str());
        self.blueprints.insert(key, blueprint);
    }

    /// The blueprint registered under an identifier.
    pub fn blueprint(&self, id: &CapabilityId) -> (r: Option<&CapabilityBlueprint>)
        ensures
            match r {
                Some(b) => lookup(self@, id@) == Some(b@),
                None => lookup(self@, id@) is None,
            },
    {
        self.blueprints.get(id.as_str())
    }
}

impl Default for CapabilityCatalog {
    fn default() -> (r: Self)
        ensures
            r@.len() == 0,
    {
        CapabilityCatalog::new()
    }
}

/// Identifier texts strictly increasing, hence a set in order.
pub open spec fn strictly_sorted(s: Seq<Seq<char>>) -> bool {
    forall|i: int, j: int| 0 <= i < j < s.len() ==> text_lt(#[trigger] s[i], #[trigger] s[j])
}

/// Whether an identifier list, sorted and without repeats, holds the text.
pub fn sorted_contains<T: TextId>(v: &Vec<T>, id: &T) -> (r: bool)
    ensures
        r == texts(v@).contains(id@),
{
    let mut i: usize = 0;
    while i < v.len()
        invariant
            i <= v@.len(),
            forall|j: int| 0 <= j < i ==> v@[j]@ != id@,
        decreases v@.len() - i,
    {
        if v[i].same_text(id) {
            assert(texts(v@)[i as int] == id@);
            return true;
        }
        i = i + 1;
    }
    assert(!texts(v@).contains(id@)) by {
        if texts(v@).contains(id@) {
            let j = choose|j: int| 0 <= j < texts(v@).len() && texts(v@)[j] == id@;
            assert(v@[j]@ == id@);
        }
    }
    false
}

/// Inserts an identifier into a sorted list without repeats, in order;
/// reports whether it was absent.
pub fn sorted_insert<T: TextId>(v: &mut Vec<T>, id: T) -> (inserted: bool)
    requires
        strictly_sorted(texts(old(v)@)),
    ensures
        strictly_sorted(texts(final(v)@)),
        inserted == !texts(old(v)@).contains(id@),
        forall|x: Seq<char>| #[trigger] texts(final(v)@).contains(x) == (texts(old(v)@).contains(x) || x
            == id@),
        final(v)@.len() == old(v)@.len() + if inserted { 1int } else { 0int },
{
    let ghost before = texts(v@);
    let mut i: usize = 0;
    while i < v.len() && text_lt_exec(&v[i], &id)
        invariant
            i <= v@.len(),
            before == texts(v@),
            strictly_sorted(before),
            forall|j: int| 0 <= j < i ==> text_lt(#[trigger] before[j], id@),
        decreases v@.len() - i,
    {
        i = i + 1;
    }
    if i < v.len() && v[i].same_text(&id) {
        proof {
            assert(before[i as int] == id@);
        }
        return false;
    }
    proof {
        assert(!before.contains(id@)) by {
            if before.contains(id@) {
                let j = choose|j: int| 0 <= j < before.len() && before[j] == id@;
                if j < i {
                    crate::keyed::lemma_text_lt_irreflexive(id@);
                } else if j > i {
                    assert(!text_lt(before[i as int], id@));
                    crate::keyed::lemma_text_lt_total(before[i as int], id@);
                    crate::keyed::lemma_text_lt_transitive(id@, before[i as int], before[j]);
                    crate::keyed::lemma_text_lt_irreflexive(id@);
                }
            }
        }
        if i < before.len() {
            assert(before[i as int] != id@);
            crate::keyed::lemma_text_lt_total(before[i as int], id@);
        }
    }
    let ghost k = id@;
    v.insert(i, id);
    proof {
        let after = texts(v@);
        assert(after =~= before.insert(i as int, k));
        assert forall|a: int, b: int| 0 <= a < b < after.len() implies text_lt(#[trigger] after[a], #[trigger] after[b]) by {
            if b < i {
            } else if b == i {
            } else if a < i {
                assert(after[b] == before[b - 1]);
                assert(after[a] == before[a]);
            } else if a == i {
                assert(after[b] == before[b - 1]);
                if b - 1 > i {
                    crate::keyed::lemma_text_lt_transitive(k, before[i as int], before[b - 1]);
                }
            } else {
                assert(after[a] == before[a - 1] && after[b] == before[b - 1]);
            }
        }
        assert forall|x: Seq<char>| #[trigger] after.contains(x) == (before.contains(x) || x == k) by {
            if after.contains(x) {
                let j = choose|j: int| 0 <= j < after.len() && after[j] == x;
                if j < i {
                    assert(before[j] == x);
                } else if j > i {
                    assert(before[j - 1] == x);
                }
            }
            if before.contains(x) {
                let j = choose|j: int| 0 <= j < before.len() && before[j] == x;
                if j < i {
                    assert(after[j] == x);
                } else {
                    assert(after[j + 1] == x);
                }
            }
            if x == k {
                assert(after[i as int] == x);
            }
        }
    }
    true
}

/// Whether `a`'s text sorts strictly before `b`'s.
fn text_lt_exec<T: TextId>(a: &T, b: &T) -> (r: bool)
    ensures
        r == text_lt(a@, b@),
{
    match crate::keyed::compare_text(a.text_of(), b.text_of()) {
        crate::keyed::KeyOrder::Less => true,
        _ => {
            proof {
                crate::keyed::lemma_text_lt_irreflexive(a@);
            }
            false
        },
    }
}

/// What resolving a requested selection gives: the selected capabilities,
/// the conflicting pairs among them, and the selected ones no blueprint
/// describes.
#[derive(Debug, PartialEq, Eq)]
pub struct Resolution {
    pub selected: Vec<CapabilityId>,
    pub conflicts: Vec<(CapabilityId, CapabilityId)>,
    pub missing: Vec<CapabilityId>,
}

impl Default for Resolution {
    fn default() -> (r: Self)
        ensures
            r.selected@.len() == 0,
            r.conflicts@.len() == 0,
            r.missing@.len() == 0,
    {
        Resolution { selected: Vec::new(), conflicts: Vec::new(), missing: Vec::new() }
    }
}

/// The texts of identifier pairs.
pub open spec fn pair_texts(s: Seq<(CapabilityId, CapabilityId)>) -> Seq<(Seq<char>, Seq<char>)> {
    s.map_values(|p: (CapabilityId, CapabilityId)| (p.0@, p.1@))
}

/// Whether the blueprint registered under `a` relates it to `b` by `kind`.
pub open spec fn has_relation(
    cat: Seq<(Seq<char>, BlueprintModel)>,
    a: Seq<char>,
    kind: CapabilityRelationKind,
    b: Seq<char>,
) -> bool {
    match lookup(cat, a) {
        Some(bp) => bp.relations.contains((kind, b)),
        None => false,
    }
}

/// Whether a set holds every capability its members require.
pub open spec fn closed_under_requires(cat: Seq<(Seq<char>, BlueprintModel)>, t: Set<Seq<char>>) -> bool {
    forall|a: Seq<char>, b: Seq<char>|
        #![trigger t.contains(a), has_relation(cat, a, CapabilityRelationKind::Requires, b)]
        t.contains(a) && has_relation(cat, a, CapabilityRelationKind::Requires, b) ==> t.contains(b)
}

/// Whether a set holds every requested capability.
pub open spec fn covers(requested: Seq<Seq<char>>, t: Set<Seq<char>>) -> bool {
    forall|c: Seq<char>| #[trigger] requested.contains(c) ==> t.contains(c)
}

/// What a resolution of `requested` against `cat` is: the selection is the
/// least set holding the requested capabilities and everything they require,
/// in order; the missing ones are exactly the selected ones without a
/// blueprint, in order; every listed conflict is a conflict relation between
/// selected capabilities, and every such relation is listed one way or the
/// other.
pub open spec fn resolves(
    cat: Seq<(Seq<char>, BlueprintModel)>,
    requested: Seq<Seq<char>>,
    selected: Seq<Seq<char>>,
    conflicts: Seq<(Seq<char>, Seq<char>)>,
    missing: Seq<Seq<char>>,
) -> bool {
    &&& strictly_sorted(selected)
    &&& strictly_sorted(missing)
    &&& forall|c: Seq<char>| #[trigger] requested.contains(c) ==> selected.contains(c)
    &&& forall|a: Seq<char>, b: Seq<char>|
        #![trigger selected.contains(a), has_relation(cat, a, CapabilityRelationKind::Requires, b)]
        selected.contains(a) && has_relation(cat, a, CapabilityRelationKind::Requires, b) ==> selected.contains(b)
    &&& forall|t: Set<Seq<char>>| covers(requested, t) && closed_under_requires(cat, t)
        ==> forall|c: Seq<char>| #[trigger] selected.contains(c) ==> t.contains(c)
    &&& forall|c: Seq<char>| #[trigger] missing.contains(c) == (selected.contains(c) && lookup(cat, c) is None)
    &&& forall|i: int| 0 <= i < conflicts.len() ==> {
        let p = #[trigger] conflicts[i];
        &&& selected.contains(p.0)
        &&& selected.contains(p.1)
        &&& has_relation(cat, p.0, CapabilityRelationKind::Conflicts, p.1)
    }
    &&& forall|a: Seq<char>, b: Seq<char>|
        #![trigger selected.contains(a), has_relation(cat, a, CapabilityRelationKind::Conflicts, b)]
        selected.contains(a) && selected.contains(b) && has_relation(cat, a, CapabilityRelationKind::Conflicts, b)
            ==> conflicts.contains((a, b)) || conflicts.contains((b, a))
}

/// The members of a sequence as a set.
pub open spec fn member_set(s: Seq<Seq<char>>) -> Set<Seq<char>> {
    Set::new(|x: Seq<char>| s.contains(x))
}

/// The capabilities that relations require, in relation order.
pub open spec fn required_targets(rels: Seq<(CapabilityRelationKind, Seq<char>)>) -> Seq<Seq<char>>
    decreases rels.len(),
{
    if rels.len() == 0 {
        Seq::empty()
    } else {
        required_targets(rels.drop_last()) + if rels.last().0 == CapabilityRelationKind::Requires {
            seq![rels.last().1]
        } else {
            Seq::empty()
        }
    }
}

/// The conflicts of a newly selected `id` with selected capabilities, in
/// relation order.
pub open spec fn conflict_pairs(
    id: Seq<char>,
    rels: Seq<(CapabilityRelationKind, Seq<char>)>,
    selected: Set<Seq<char>>,
) -> Seq<(Seq<char>, Seq<char>)>
    decreases rels.len(),
{
    if rels.len() == 0 {
        Seq::empty()
    } else {
        conflict_pairs(id, rels.drop_last(), selected) + if rels.last().0 == CapabilityRelationKind::Conflicts
            && selected.contains(rels.last().1) {
            seq![(id, rels.last().1)]
        } else {
            Seq::empty()
        }
    }
}

/// Where the selection stands: capabilities still pending (the last is taken
/// next), those selected, and the conflicts found so far.
pub struct Traversal {
    pub pending: Seq<Seq<char>>,
    pub selected: Set<Seq<char>>,
    pub conflicts: Seq<(Seq<char>, Seq<char>)>,
}

/// One step of selection: the last pending capability is taken; if it is
/// new it is selected, what its blueprint requires becomes pending, and its
/// conflicts with selected capabilities (itself included) are recorded.
pub open spec fn traversal_step(cat: Seq<(Seq<char>, BlueprintModel)>, t: Traversal) -> Traversal {
    if t.pending.len() == 0 {
        t
    } else {
        let id = t.pending.last();
        let rest = t.pending.drop_last();
        if t.selected.contains(id) {
            Traversal { pending: rest, selected: t.selected, conflicts: t.conflicts }
        } else {
            let sel = t.selected.insert(id);
            match lookup(cat, id) {
                None => Traversal { pending: rest, selected: sel, conflicts: t.conflicts },
                Some(bp) => Traversal {
                    pending: rest + required_targets(bp.relations),
                    selected: sel,
                    conflicts: t.conflicts + conflict_pairs(id, bp.relations, sel),
                },
            }
        }
    }
}

/// The selection after `n` steps from the requested capabilities.
pub open spec fn traversal(cat: Seq<(Seq<char>, BlueprintModel)>, requested: Seq<Seq<char>>, n: nat) -> Traversal
    decreases n,
{
    if n == 0 {
        Traversal { pending: requested, selected: Set::empty(), conflicts: Seq::empty() }
    } else {
        traversal_step(cat, traversal(cat, requested, (n - 1) as nat))
    }
}

/// The conflicts found while selecting, once nothing is pending.
pub open spec fn traversal_conflicts(cat: Seq<(Seq<char>, BlueprintModel)>, requested: Seq<Seq<char>>) -> Seq<
    (Seq<char>, Seq<char>),
> {
    traversal(cat, requested, choose|n: nat| traversal(cat, requested, n).pending.len() == 0).conflicts
}

/// The conflicts of selected `a` with selected capabilities that `c` does
/// not yet record either way, appended in relation order.
pub open spec fn conflicts_added(
    a: Seq<char>,
    rels: Seq<(CapabilityRelationKind, Seq<char>)>,
    selected: Seq<Seq<char>>,
    c: Seq<(Seq<char>, Seq<char>)>,
) -> Seq<(Seq<char>, Seq<char>)>
    decreases rels.len(),
{
    if rels.len() == 0 {
        c
    } else {
        let c0 = conflicts_added(a, rels.drop_last(), selected, c);
        let b = rels.last().1;
        if rels.last().0 == CapabilityRelationKind::Conflicts && selected.contains(b) && !c0.contains((a, b))
            && !c0.contains((b, a)) {
            c0.push((a, b))
        } else {
            c0
        }
    }
}

/// The conflicts after scanning the first `k` selected capabilities in order.
pub open spec fn scan_conflicts(
    cat: Seq<(Seq<char>, BlueprintModel)>,
    selected: Seq<Seq<char>>,
    c: Seq<(Seq<char>, Seq<char>)>,
    k: nat,
) -> Seq<(Seq<char>, Seq<char>)>
    decreases k,
{
    if k == 0 {
        c
    } else {
        let c0 = scan_conflicts(cat, selected, c, (k - 1) as nat);
        match lookup(cat, selected[k - 1]) {
            None => c0,
            Some(bp) => conflicts_added(selected[k - 1], bp.relations, selected, c0),
        }
    }
}

/// The conflicts a resolution lists, in order: those found while selecting,
/// then those found scanning the selection in order.
pub open spec fn resolution_conflicts(
    cat: Seq<(Seq<char>, BlueprintModel)>,
    requested: Seq<Seq<char>>,
    selected: Seq<Seq<char>>,
) -> Seq<(Seq<char>, Seq<char>)> {
    scan_conflicts(cat, selected, traversal_conflicts(cat, requested), selected.len())
}

/// Once nothing is pending, further steps change nothing.
proof fn lemma_traversal_settled(cat: Seq<(Seq<char>, BlueprintModel)>, requested: Seq<Seq<char>>, n: nat, m: nat)
    requires
        traversal(cat, requested, n).pending.len() == 0,
        n <= m,
    ensures
        traversal(cat, requested, m) == traversal(cat, requested, n),
    decreases m,
{
    if m > n {
        lemma_traversal_settled(cat, requested, n, (m - 1) as nat);
    }
}

/// The conflicts found while selecting are those of any step count at which
/// nothing is pending.
proof fn lemma_traversal_conflicts(cat: Seq<(Seq<char>, BlueprintModel)>, requested: Seq<Seq<char>>, n: nat)
    requires
        traversal(cat, requested, n).pending.len() == 0,
    ensures
        traversal_conflicts(cat, requested) == traversal(cat, requested, n).conflicts,
{
    let m = choose|m: nat| traversal(cat, requested, m).pending.len() == 0;
    assert(traversal(cat, requested, m).pending.len() == 0);
    if m >= n {
        lemma_traversal_settled(cat, requested, n, m);
    } else {
        lemma_traversal_settled(cat, requested, m, n);
    }
}

proof fn lemma_sorted_same_members(a: Seq<Seq<char>>, b: Seq<Seq<char>>)
    requires
        strictly_sorted(a),
        strictly_sorted(b),
        forall|x: Seq<char>| #[trigger] a.contains(x) == b.contains(x),
    ensures
        a == b,
    decreases a.len(),
{
    if a.len() == 0 {
        if b.len() > 0 {
            assert(b.contains(b[0]));
            assert(a.contains(b[0]));
            assert(false);
        }
        assert(a =~= b);
    } else {
        assert(a.contains(a[0]));
        assert(b.contains(a[0]));
        assert(b.contains(b[0]));
        assert(a.contains(b[0]));
        let j = choose|j: int| 0 <= j < b.len() && b[j] == a[0];
        let i = choose|i: int| 0 <= i < a.len() && a[i] == b[0];
        if j > 0 {
            assert(text_lt(b[0], b[j]));
            if i > 0 {
                assert(text_lt(a[0], a[i]));
                crate::keyed::lemma_text_lt_asymmetric(a[0], a[i]);
            } else {
                crate::keyed::lemma_text_lt_irreflexive(a[0]);
            }
        }
        assert(a[0] == b[0]);
        let a1 = a.drop_first();
        let b1 = b.drop_first();
        assert forall|x: int, y: int| 0 <= x < y < a1.len() implies text_lt(#[trigger] a1[x], #[trigger] a1[y]) by {
            assert(a1[x] == a[x + 1] && a1[y] == a[y + 1]);
        }
        assert forall|x: int, y: int| 0 <= x < y < b1.len() implies text_lt(#[trigger] b1[x], #[trigger] b1[y]) by {
            assert(b1[x] == b[x + 1] && b1[y] == b[y + 1]);
        }
        assert forall|x: Seq<char>| #[trigger] a1.contains(x) == b1.contains(x) by {
            if a1.contains(x) {
                let k = choose|k: int| 0 <= k < a1.len() && a1[k] == x;
                assert(a[k + 1] == x);
                assert(text_lt(a[0], x));
                crate::keyed::lemma_text_lt_irreflexive(x);
                assert(a.contains(x));
                let m = choose|m: int| 0 <= m < b.len() && b[m] == x;
                assert(m != 0);
                assert(b1[m - 1] == x);
            }
            if b1.contains(x) {
                let k = choose|k: int| 0 <= k < b1.len() && b1[k] == x;
                assert(b[k + 1] == x);
                assert(text_lt(b[0], x));
                crate::keyed::lemma_text_lt_irreflexive(x);
                assert(b.contains(x));
                assert(a.contains(x));
                let m = choose|m: int| 0 <= m < a.len() && a[m] == x;
                if m == 0 {
                    assert(b[0] == x);
                    assert(false);
                }
                assert(a1[m - 1] == x);
            }
        }
        lemma_sorted_same_members(a1, b1);
        assert(a =~= b) by {
            assert forall|k: int| 0 <= k < a.len() implies a[k] == b[k] by {
                if k > 0 {
                    assert(a[k] == a1[k - 1]);
                    assert(b[k] == b1[k - 1]);
                }
            }
        }
    }
}

/// A resolution is determined by the catalog and the request: whatever
/// satisfies `resolves` has the same selection and the same missing
/// capabilities, and so the same conflicts in resolution order.
pub proof fn law_resolution_is_unique(
    cat: Seq<(Seq<char>, BlueprintModel)>,
    requested: Seq<Seq<char>>,
    s1: Seq<Seq<char>>,
    k1: Seq<(Seq<char>, Seq<char>)>,
    m1: Seq<Seq<char>>,
    s2: Seq<Seq<char>>,
    k2: Seq<(Seq<char>, Seq<char>)>,
    m2: Seq<Seq<char>>,
)
    requires
        resolves(cat, requested, s1, k1, m1),
        resolves(cat, requested, s2, k2, m2),
    ensures
        s1 == s2,
        m1 == m2,
        resolution_conflicts(cat, requested, s1) == resolution_conflicts(cat, requested, s2),
{
    let t1 = member_set(s1);
    let t2 = member_set(s2);
    assert(covers(requested, t1));
    assert(covers(requested, t2));
    assert(closed_under_requires(cat, t1));
    assert(closed_under_requires(cat, t2));
    assert forall|x: Seq<char>| #[trigger] s1.contains(x) == s2.contains(x) by {
        if s1.contains(x) {
            assert(t2.contains(x));
        }
        if s2.contains(x) {
            assert(t1.contains(x));
        }
    }
    lemma_sorted_same_members(s1, s2);
    assert forall|x: Seq<char>| #[trigger] m1.contains(x) == m2.contains(x) by {}
    lemma_sorted_same_members(m1, m2);
}

/// Every capability that some blueprint relates another to.
pub open spec fn relation_targets(cat: Seq<(Seq<char>, BlueprintModel)>) -> Seq<Seq<char>>
    decreases cat.len(),
{
    if cat.len() == 0 {
        Seq::empty()
    } else {
        cat[0].1.relations.map_values(|r: (CapabilityRelationKind, Seq<char>)| r.1) + relation_targets(
            cat.drop_first(),
        )
    }
}

proof fn lemma_relation_target(cat: Seq<(Seq<char>, BlueprintModel)>, a: Seq<char>, kind: CapabilityRelationKind, b: Seq<char>)
    requires
        has_relation(cat, a, kind, b),
    ensures
        relation_targets(cat).contains(b),
    decreases cat.len(),
{
    if cat.len() > 0 {
        let here = cat[0].1.relations.map_values(|r: (CapabilityRelationKind, Seq<char>)| r.1);
        if cat[0].0 == a {
            let j = choose|j: int| 0 <= j < cat[0].1.relations.len() && cat[0].1.relations[j] == (kind, b);
            assert(here[j] == b);
            assert((here + relation_targets(cat.drop_first()))[j] == b);
        } else {
            lemma_relation_target(cat.drop_first(), a, kind, b);
            let j = choose|j: int| 0 <= j < relation_targets(cat.drop_first()).len() && relation_targets(cat.drop_first())[j] == b;
            assert((here + relation_targets(cat.drop_first()))[here.len() + j] == b);
        }
    }
}

proof fn lemma_sorted_len_bound(s: Seq<Seq<char>>, u: Seq<Seq<char>>)
    requires
        strictly_sorted(s),
        forall|i: int| 0 <= i < s.len() ==> u.contains(#[trigger] s[i]),
    ensures
        s.len() <= u.len(),
{
    assert(s.no_duplicates()) by {
        assert forall|i: int, j: int| 0 <= i < s.len() && 0 <= j < s.len() && i != j implies s[i] != s[j] by {
            if i < j {
                assert(text_lt(s[i], s[j]));
            } else {
                assert(text_lt(s[j], s[i]));
            }
            crate::keyed::lemma_text_lt_irreflexive(s[i]);
        }
    }
    s.unique_seq_to_set();
    u.lemma_cardinality_of_set();
    assert(s.to_set().subset_of(u.to_set())) by {
        assert forall|x: Seq<char>| s.to_set().contains(x) implies u.to_set().contains(x) by {
            let i = choose|i: int| 0 <= i < s.len() && s[i] == x;
            assert(u.contains(s[i]));
        }
    }
    vstd::seq_lib::seq_to_set_is_finite(u);
    vstd::set_lib::lemma_len_subset(s.to_set(), u.to_set());
}

proof fn lemma_take_next_contains<A>(s: Seq<A>, j: int, x: A)
    requires
        0 <= j < s.len(),
    ensures
        s.take(j + 1).contains(x) == (s.take(j).contains(x) || s[j] == x),
{
    assert(s.take(j + 1) =~= s.take(j).push(s[j]));
    if s.take(j + 1).contains(x) && s[j] != x {
        let k = choose|k: int| 0 <= k < s.take(j + 1).len() && #[trigger] s.take(j + 1)[k] == x;
        assert(s.take(j)[k] == x);
    }
    if s.take(j).contains(x) {
        let k = choose|k: int| 0 <= k < s.take(j).len() && #[trigger] s.take(j)[k] == x;
        assert(s.take(j + 1)[k] == x);
    }
    if s[j] == x {
        assert(s.take(j + 1)[j] == x);
    }
}

/// Whether the pair list holds the pair of texts.
fn pair_contains(pairs: &Vec<(CapabilityId, CapabilityId)>, a: &CapabilityId, b: &CapabilityId) -> (r: bool)
    ensures
        r == pair_texts(pairs@).contains((a@, b@)),
{
    let mut i: usize = 0;
    while i < pairs.len()
        invariant
            i <= pairs@.len(),
            forall|j: int| 0 <= j < i ==> pair_texts(pairs@)[j] != (a@, b@),
        decreases pairs@.len() - i,
    {
        if pairs[i].0.same(a) && pairs[i].1.same(b) {
            assert(pair_texts(pairs@)[i as int] == (a@, b@));
            return true;
        }
        i = i + 1;
    }
    false
}

/// A copy of a list of identifiers.
fn copy_ids(ids: &[CapabilityId]) -> (r: Vec<CapabilityId>)
    ensures
        r@ == ids@,
{
    let mut out: Vec<CapabilityId> = Vec::new();
    let mut i: usize = 0;
    while i < ids.len()
        invariant
            i <= ids@.len(),
            out@ == ids@.take(i as int),
        decreases ids@.len() - i,
    {
        out.push(ids[i].clone());
        assert(ids@.take(i + 1) =~= ids@.take(i as int).push(ids@[i as int]));
        i = i + 1;
    }
    assert(ids@.take(i as int) =~= ids@);
    out
}

impl CapabilityCatalog {
    /// Records each conflict of selected capability `a` with another selected
    /// capability, unless the pair is already recorded either way.
    fn add_conflicts(
        &self,
        a: &CapabilityId,
        bp: &CapabilityBlueprint,
        selected: &Vec<CapabilityId>,
        conflicts: &mut Vec<(CapabilityId, CapabilityId)>,
    )
        requires
            lookup(self@, a@) == Some(bp@),
            texts(selected@).contains(a@),
        ensures
            forall|x: (Seq<char>, Seq<char>)| #[trigger] pair_texts(old(conflicts)@).contains(x)
                ==> pair_texts(final(conflicts)@).contains(x),
            forall|i: int| 0 <= i < pair_texts(final(conflicts)@).len() ==> {
                let p = #[trigger] pair_texts(final(conflicts)@)[i];
                pair_texts(old(conflicts)@).contains(p) || (p.0 == a@ && texts(selected@).contains(p.1)
                    && has_relation(self@, a@, CapabilityRelationKind::Conflicts, p.1))
            },
            forall|b: Seq<char>| #[trigger] texts(selected@).contains(b) && has_relation(
                self@,
                a@,
                CapabilityRelationKind::Conflicts,
                b,
            ) ==> pair_texts(final(conflicts)@).contains((a@, b)) || pair_texts(final(conflicts)@).contains(
                (b, a@),
            ),
            pair_texts(final(conflicts)@) == conflicts_added(a@, bp@.relations, texts(selected@), pair_texts(old(conflicts)@)),
    {
        let ghost rels = bp@.relations;
        let ghost c0 = pair_texts(conflicts@);
        let ghost sel = texts(selected@);
        let mut j: usize = 0;
        while j < bp.relations.len()
            invariant
                j <= bp.relations@.len(),
                rels == crate::planner::views(bp.relations@),
                lookup(self@, a@) == Some(bp@),
                sel == texts(selected@),
                forall|x: (Seq<char>, Seq<char>)| #[trigger] c0.contains(x) ==> pair_texts(conflicts@).contains(x),
                forall|i: int| 0 <= i < pair_texts(conflicts@).len() ==> {
                    let p = #[trigger] pair_texts(conflicts@)[i];
                    c0.contains(p) || (p.0 == a@ && sel.contains(p.1) && has_relation(
                        self@,
                        a@,
                        CapabilityRelationKind::Conflicts,
                        p.1,
                    ))
                },
                forall|b: Seq<char>| #[trigger] sel.contains(b) && rels.take(j as int).contains(
                    (CapabilityRelationKind::Conflicts, b),
                ) ==> pair_texts(conflicts@).contains((a@, b)) || pair_texts(conflicts@).contains((b, a@)),
                pair_texts(conflicts@) == conflicts_added(a@, rels.take(j as int), sel, c0),
            decreases bp.relations@.len() - j,
        {
            let relation = &bp.relations[j];
            let ghost before = pair_texts(conflicts@);
            proof {
                assert(rels.take(j + 1).drop_last() =~= rels.take(j as int));
                assert(rels.take(j + 1).last() == rels[j as int]);
                assert(rels[j as int] == relation@);
            }
            let mut pushed = false;
            if relation.kind == CapabilityRelationKind::Conflicts && sorted_contains(selected, &relation.capability) {
                if !pair_contains(conflicts, a, &relation.capability) && !pair_contains(conflicts, &relation.capability, a) {
                    assert(rels[j as int] == relation@);
                    conflicts.push((a.clone(), relation.capability.clone()));
                    pushed = true;
                }
            }
            proof {
                let after = pair_texts(conflicts@);
                if pushed {
                    assert(after =~= before.push((a@, relation.capability@)));
                } else {
                    assert(after == before);
                }
                assert forall|x: (Seq<char>, Seq<char>)| #[trigger] before.contains(x) implies after.contains(x) by {
                    let k = choose|k: int| 0 <= k < before.len() && #[trigger] before[k] == x;
                    assert(after[k] == x);
                }
                assert forall|i: int| 0 <= i < after.len() implies {
                    let p = #[trigger] after[i];
                    c0.contains(p) || (p.0 == a@ && sel.contains(p.1) && has_relation(
                        self@,
                        a@,
                        CapabilityRelationKind::Conflicts,
                        p.1,
                    ))
                } by {
                    if i < before.len() {
                        assert(after[i] == before[i]);
                    } else {
                        assert(rels.contains(relation@));
                    }
                }
                assert forall|b: Seq<char>| #[trigger] sel.contains(b) && rels.take(j + 1).contains(
                    (CapabilityRelationKind::Conflicts, b),
                ) implies after.contains((a@, b)) || after.contains((b, a@)) by {
                    lemma_take_next_contains(rels, j as int, (CapabilityRelationKind::Conflicts, b));
                    if rels.take(j as int).contains((CapabilityRelationKind::Conflicts, b)) {
                        if before.contains((a@, b)) {
                            let k = choose|k: int| 0 <= k < before.len() && #[trigger] before[k] == (a@, b);
                            assert(after[k] == (a@, b));
                        } else {
                            let k = choose|k: int| 0 <= k < before.len() && #[trigger] before[k] == (b, a@);
                            assert(after[k] == (b, a@));
                        }
                    } else {
                        assert(relation@ == (CapabilityRelationKind::Conflicts, b));
                        if pushed {
                            assert(after[after.len() - 1] == (a@, b));
                        } else if before.contains((a@, b)) {
                            let k = choose|k: int| 0 <= k < before.len() && #[trigger] before[k] == (a@, b);
                            assert(after[k] == (a@, b));
                        } else {
                            let k = choose|k: int| 0 <= k < before.len() && #[trigger] before[k] == (b, a@);
                            assert(after[k] == (b, a@));
                        }
                    }
                }
            }
            j = j + 1;
        }
        proof {
            assert(rels.take(j as int) =~= rels);
        }
    }

    /// Resolves a requested selection: every requested capability and,
    /// transitively, what it requires is selected; selected capabilities
    /// without a blueprint are missing; and conflicts among selected
    /// capabilities are listed.
    pub fn resolve(&self, requested: &[CapabilityId]) -> (r: Resolution)
        ensures
            resolves(self@, texts(requested@), texts(r.selected@), pair_texts(r.conflicts@), texts(r.missing@)),
            pair_texts(r.conflicts@) == resolution_conflicts(self@, texts(requested@), texts(r.selected@)),
    {
        let ghost req = texts(requested@);
        let ghost univ = req + relation_targets(self@);
        let mut selected: Vec<CapabilityId> = Vec::new();
        let mut conflicts: Vec<(CapabilityId, CapabilityId)> = Vec::new();
        let mut missing: Vec<CapabilityId> = Vec::new();
        let mut pending = copy_ids(requested);
        proof {
            assert(texts(selected@) =~= Seq::<Seq<char>>::empty());
            assert(texts(missing@) =~= Seq::<Seq<char>>::empty());
            assert forall|c: Seq<char>| #[trigger] texts(pending@).contains(c) implies univ.contains(c) by {
                let k = choose|k: int| 0 <= k < texts(pending@).len() && texts(pending@)[k] == c;
                assert(univ[k] == c);
            }
        }
        let ghost mut n: nat = 0;
        assert(pair_texts(conflicts@) =~= Seq::<(Seq<char>, Seq<char>)>::empty());
        while pending.len() > 0
            invariant
                traversal(self@, texts(requested@), n).pending == texts(pending@),
                traversal(self@, texts(requested@), n).conflicts == pair_texts(conflicts@),
                forall|x: Seq<char>| #[trigger] traversal(self@, texts(requested@), n).selected.contains(x)
                    == texts(selected@).contains(x),
                req == texts(requested@),
                univ == req + relation_targets(self@),
                strictly_sorted(texts(selected@)),
                strictly_sorted(texts(missing@)),
                texts(selected@).len() <= univ.len(),
                forall|c: Seq<char>| #[trigger] texts(selected@).contains(c) ==> univ.contains(c),
                forall|c: Seq<char>| #[trigger] texts(pending@).contains(c) ==> univ.contains(c),
                forall|c: Seq<char>| #[trigger] req.contains(c) ==> texts(selected@).contains(c)
                    || texts(pending@).contains(c),
                forall|x: Seq<char>, y: Seq<char>|
                    #![trigger texts(selected@).contains(x), has_relation(self@, x, CapabilityRelationKind::Requires, y)]
                    texts(selected@).contains(x) && has_relation(self@, x, CapabilityRelationKind::Requires, y)
                        ==> texts(selected@).contains(y) || texts(pending@).contains(y),
                forall|t: Set<Seq<char>>| covers(req, t) && closed_under_requires(self@, t) ==> (forall|c: Seq<char>|
                    #[trigger] texts(selected@).contains(c) ==> t.contains(c)) && (forall|c: Seq<char>|
                    #[trigger] texts(pending@).contains(c) ==> t.contains(c)),
                forall|c: Seq<char>| #[trigger] texts(missing@).contains(c) == (texts(selected@).contains(c)
                    && lookup(self@, c) is None),
                forall|i: int| 0 <= i < pair_texts(conflicts@).len() ==> {
                    let p = #[trigger] pair_texts(conflicts@)[i];
                    &&& texts(selected@).contains(p.0)
                    &&& texts(selected@).contains(p.1)
                    &&& has_relation(self@, p.0, CapabilityRelationKind::Conflicts, p.1)
                },
            decreases univ.len() - texts(selected@).len(), pending@.len(),
        {
            let ghost s0 = texts(selected@);
            let ghost p0 = texts(pending@);
            let ghost m0 = texts(missing@);
            let ghost k0 = pair_texts(conflicts@);
            let id = pending.pop().unwrap();
            proof {
                assert(p0 =~= texts(pending@).push(id@));
                assert forall|c: Seq<char>| #[trigger] p0.contains(c) implies texts(pending@).contains(c) || c == id@ by {
                    let k = choose|k: int| 0 <= k < p0.len() && p0[k] == c;
                    if k < p0.len() - 1 {
                        assert(texts(pending@)[k] == c);
                    }
                }
                assert forall|c: Seq<char>| #[trigger] texts(pending@).contains(c) implies p0.contains(c) by {
                    let k = choose|k: int| 0 <= k < texts(pending@).len() && texts(pending@)[k] == c;
                    assert(p0[k] == c);
                }
                assert(p0[p0.len() - 1] == id@);
                assert(p0.contains(id@));
                assert(univ.contains(id@));
            }
            let inserted = sorted_insert(&mut selected, id.clone());
            if inserted {
                proof {
                    assert forall|k: int| 0 <= k < texts(selected@).len() implies univ.contains(#[trigger] texts(selected@)[k]) by {
                        assert(texts(selected@).contains(texts(selected@)[k]));
                    }
                    lemma_sorted_len_bound(texts(selected@), univ);
                }
                let ghost p1 = texts(pending@);
                self.expand(&id, &selected, &mut pending, &mut conflicts, &mut missing);
                proof {
                    let s1 = texts(selected@);
                    let pn = texts(pending@);
                    assert forall|c: Seq<char>| #[trigger] pn.contains(c) implies univ.contains(c) by {
                        if !p1.contains(c) {
                            lemma_relation_target(self@, id@, CapabilityRelationKind::Requires, c);
                            let k = choose|k: int| 0 <= k < relation_targets(self@).len() && relation_targets(self@)[k] == c;
                            assert(univ[req.len() + k] == c);
                        }
                    }
                    assert forall|t: Set<Seq<char>>| covers(req, t) && closed_under_requires(self@, t) implies (forall|c: Seq<char>|
                        #[trigger] s1.contains(c) ==> t.contains(c)) && (forall|c: Seq<char>|
                        #[trigger] pn.contains(c) ==> t.contains(c)) by {
                        assert(p0.contains(id@));
                        assert(t.contains(id@));
                        assert forall|c: Seq<char>| #[trigger] pn.contains(c) implies t.contains(c) by {
                            if !p1.contains(c) {
                                assert(has_relation(self@, id@, CapabilityRelationKind::Requires, c));
                            }
                        }
                    }
                    assert forall|i: int| 0 <= i < pair_texts(conflicts@).len() implies {
                        let p = #[trigger] pair_texts(conflicts@)[i];
                        &&& s1.contains(p.0)
                        &&& s1.contains(p.1)
                        &&& has_relation(self@, p.0, CapabilityRelationKind::Conflicts, p.1)
                    } by {
                        if i < k0.len() {
                            assert(pair_texts(conflicts@)[i] == k0[i]);
                        }
                    }
                }
            } else {
                proof {
                    assert forall|i: int| 0 <= i < pair_texts(conflicts@).len() implies {
                        let p = #[trigger] pair_texts(conflicts@)[i];
                        &&& texts(selected@).contains(p.0)
                        &&& texts(selected@).contains(p.1)
                        &&& has_relation(self@, p.0, CapabilityRelationKind::Conflicts, p.1)
                    } by {
                        assert(pair_texts(conflicts@)[i] == k0[i]);
                    }
                }
            }
            proof {
                let t = traversal(self@, req, n);
                assert(t.pending == p0);
                assert(p0.last() == id@);
                assert(traversal(self@, req, n + 1) == traversal_step(self@, t));
                if inserted {
                    assert(!t.selected.contains(id@));
                    assert(t.selected.insert(id@) =~= member_set(texts(selected@)));
                    assert forall|x: Seq<char>| #[trigger] t.selected.insert(id@).contains(x) == texts(selected@).contains(x) by {}
                } else {
                    assert(t.selected.contains(id@));
                    assert(texts(pending@) =~= p0.drop_last());
                }
                n = n + 1;
            }
        }
        proof {
            lemma_traversal_conflicts(self@, req, n);
        }
        let ghost sel = texts(selected@);
        let ghost c1 = pair_texts(conflicts@);
        let mut i: usize = 0;
        while i < selected.len()
            invariant
                i <= selected@.len(),
                sel == texts(selected@),
                forall|x: (Seq<char>, Seq<char>)| #[trigger] c1.contains(x) ==> pair_texts(conflicts@).contains(x),
                forall|k: int| 0 <= k < pair_texts(conflicts@).len() ==> {
                    let p = #[trigger] pair_texts(conflicts@)[k];
                    &&& sel.contains(p.0)
                    &&& sel.contains(p.1)
                    &&& has_relation(self@, p.0, CapabilityRelationKind::Conflicts, p.1)
                },
                forall|a: Seq<char>, b: Seq<char>|
                    #![trigger sel.take(i as int).contains(a), has_relation(self@, a, CapabilityRelationKind::Conflicts, b)]
                    sel.take(i as int).contains(a) && sel.contains(b) && has_relation(self@, a, CapabilityRelationKind::Conflicts, b)
                        ==> pair_texts(conflicts@).contains((a, b)) || pair_texts(conflicts@).contains((b, a)),
                pair_texts(conflicts@) == scan_conflicts(self@, sel, c1, i as nat),
            decreases selected@.len() - i,
        {
            let ghost before = pair_texts(conflicts@);
            let a = &selected[i];
            assert(sel[i as int] == a@);
            match self.blueprint(a) {
                None => {},
                Some(bp) => {
                    self.add_conflicts(a, bp, &selected, &mut conflicts);
                },
            }
            proof {
                let after = pair_texts(conflicts@);
                assert forall|k: int| 0 <= k < after.len() implies {
                    let p = #[trigger] after[k];
                    &&& sel.contains(p.0)
                    &&& sel.contains(p.1)
                    &&& has_relation(self@, p.0, CapabilityRelationKind::Conflicts, p.1)
                } by {
                    if before.contains(after[k]) {
                        let m = choose|m: int| 0 <= m < before.len() && #[trigger] before[m] == after[k];
                        assert(sel.contains(before[m].0));
                    }
                }
                assert forall|a2: Seq<char>, b: Seq<char>|
                    #![trigger sel.take(i + 1).contains(a2), has_relation(self@, a2, CapabilityRelationKind::Conflicts, b)]
                    sel.take(i + 1).contains(a2) && sel.contains(b) && has_relation(self@, a2, CapabilityRelationKind::Conflicts, b)
                        implies after.contains((a2, b)) || after.contains((b, a2)) by {
                    lemma_take_next_contains(sel, i as int, a2);
                    if sel.take(i as int).contains(a2) {
                        if before.contains((a2, b)) {
                        } else {
                            assert(before.contains((b, a2)));
                        }
                    }
                }
            }
            i = i + 1;
        }
        proof {
            assert(sel.take(i as int) =~= sel);
            let s = texts(selected@);
            assert forall|t: Set<Seq<char>>| covers(req, t) && closed_under_requires(self@, t) implies forall|c: Seq<char>|
                #[trigger] s.contains(c) ==> t.contains(c) by {}
        }
        Resolution { selected, conflicts, missing }
    }

    /// Works through a newly selected capability: what it requires becomes
    /// pending, its conflicts with capabilities already selected are recorded,
    /// and it is missing when no blueprint describes it.
    fn expand(
        &self,
        id: &CapabilityId,
        selected: &Vec<CapabilityId>,
        pending: &mut Vec<CapabilityId>,
        conflicts: &mut Vec<(CapabilityId, CapabilityId)>,
        missing: &mut Vec<CapabilityId>,
    )
        requires
            strictly_sorted(texts(old(missing)@)),
        ensures
            strictly_sorted(texts(final(missing)@)),
            forall|c: Seq<char>| #[trigger] texts(final(missing)@).contains(c) == (texts(old(missing)@).contains(c)
                || (c == id@ && lookup(self@, id@) is None)),
            forall|b: Seq<char>| #[trigger] texts(final(pending)@).contains(b) == (texts(old(pending)@).contains(b)
                || has_relation(self@, id@, CapabilityRelationKind::Requires, b)),
            final(conflicts)@.len() >= old(conflicts)@.len(),
            forall|i: int| 0 <= i < old(conflicts)@.len() ==> #[trigger] final(conflicts)@[i] == old(conflicts)@[i],
            forall|i: int| old(conflicts)@.len() <= i < final(conflicts)@.len() ==> {
                let p = #[trigger] pair_texts(final(conflicts)@)[i];
                &&& p.0 == id@
                &&& texts(selected@).contains(p.1)
                &&& has_relation(self@, id@, CapabilityRelationKind::Conflicts, p.1)
            },
            match lookup(self@, id@) {
                None => texts(final(pending)@) == texts(old(pending)@) && pair_texts(final(conflicts)@)
                    == pair_texts(old(conflicts)@),
                Some(bp) => texts(final(pending)@) == texts(old(pending)@) + required_targets(bp.relations)
                    && pair_texts(final(conflicts)@) == pair_texts(old(conflicts)@) + conflict_pairs(
                    id@,
                    bp.relations,
                    member_set(texts(selected@)),
                ),
            },
    {
        match self.blueprint(id) {
            None => {
                sorted_insert(missing, id.clone());
            },
            Some(bp) => {
                let ghost rels = bp@.relations;
                let ghost p0 = texts(pending@);
                let ghost c0 = conflicts@;
                let mut j: usize = 0;
                while j < bp.relations.len()
                    invariant
                        j <= bp.relations@.len(),
                        rels == crate::planner::views(bp.relations@),
                        lookup(self@, id@) == Some(bp@),
                        forall|b: Seq<char>| #[trigger] texts(pending@).contains(b) == (p0.contains(b)
                            || rels.take(j as int).contains((CapabilityRelationKind::Requires, b))),
                        conflicts@.len() >= c0.len(),
                        forall|i: int| 0 <= i < c0.len() ==> #[trigger] conflicts@[i] == c0[i],
                        forall|i: int| c0.len() <= i < conflicts@.len() ==> {
                            let p = #[trigger] pair_texts(conflicts@)[i];
                            &&& p.0 == id@
                            &&& texts(selected@).contains(p.1)
                            &&& has_relation(self@, id@, CapabilityRelationKind::Conflicts, p.1)
                        },
                        texts(pending@) == p0 + required_targets(rels.take(j as int)),
                        pair_texts(conflicts@) == pair_texts(c0) + conflict_pairs(
                            id@,
                            rels.take(j as int),
                            member_set(texts(selected@)),
                        ),
                    decreases bp.relations@.len() - j,
                {
                    let relation = &bp.relations[j];
                    let ghost before = texts(pending@);
                    let ghost cbefore = pair_texts(conflicts@);
                    assert(rels.take(j + 1) =~= rels.take(j as int).push(relation@));
                    assert(rels.take(j + 1).drop_last() =~= rels.take(j as int));
                    assert(rels[j as int] == relation@);
                    match relation.kind {
                        CapabilityRelationKind::Requires => {
                            pending.push(relation.capability.clone());
                            assert(texts(pending@) =~= before.push(relation.capability@));
                        },
                        CapabilityRelationKind::Conflicts => {
                            if sorted_contains(selected, &relation.capability) {
                                let ghost cb = conflicts@;
                                assert(rels.contains(relation@)) by {
                                    assert(rels[j as int] == relation@);
                                }
                                conflicts.push((id.clone(), relation.capability.clone()));
                                assert(pair_texts(conflicts@)[conflicts@.len() - 1] == (id@, relation.capability@));
                                assert forall|i: int| 0 <= i < cb.len() implies #[trigger] conflicts@[i] == cb[i] by {}
                                assert forall|i: int| 0 <= i < cb.len() implies #[trigger] pair_texts(conflicts@)[i] == pair_texts(cb)[i] by {}
                            }
                        },
                        _ => {},
                    }
                    proof {
                        let sset = member_set(texts(selected@));
                        if relation.kind == CapabilityRelationKind::Requires {
                            assert(texts(pending@) =~= p0 + required_targets(rels.take(j + 1)));
                            assert(pair_texts(conflicts@) =~= pair_texts(c0) + conflict_pairs(id@, rels.take(j + 1), sset));
                        } else if relation.kind == CapabilityRelationKind::Conflicts && sset.contains(relation.capability@) {
                            assert(texts(pending@) =~= p0 + required_targets(rels.take(j + 1)));
                            assert(pair_texts(conflicts@) =~= cbefore.push((id@, relation.capability@)));
                            assert(pair_texts(conflicts@) =~= pair_texts(c0) + conflict_pairs(id@, rels.take(j + 1), sset));
                        } else {
                            assert(texts(pending@) =~= p0 + required_targets(rels.take(j + 1)));
                            assert(pair_texts(conflicts@) =~= pair_texts(c0) + conflict_pairs(id@, rels.take(j + 1), sset));
                        }
                        assert forall|b: Seq<char>| #[trigger] texts(pending@).contains(b) == (p0.contains(b)
                            || rels.take(j + 1).contains((CapabilityRelationKind::Requires, b))) by {
                            lemma_take_next_contains(rels, j as int, (CapabilityRelationKind::Requires, b));
                            if relation.kind == CapabilityRelationKind::Requires {
                                assert(texts(pending@) =~= before.push(relation.capability@));
                                if texts(pending@).contains(b) && !before.contains(b) {
                                    let k = choose|k: int| 0 <= k < texts(pending@).len() && #[trigger] texts(pending@)[k] == b;
                                    assert(k == before.len());
                                }
                                if before.contains(b) {
                                    let k = choose|k: int| 0 <= k < before.len() && #[trigger] before[k] == b;
                                    assert(texts(pending@)[k] == b);
                                }
                                if b == relation.capability@ {
                                    assert(texts(pending@)[before.len() as int] == b);
                                }
                            } else {
                                assert(texts(pending@) == before);
                            }
                        }
                    }
                    j = j + 1;
                }
                proof {
                    assert(rels.take(j as int) =~= rels);
                }
            },
        }
    }
}

} // verus!
