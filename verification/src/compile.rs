//! Compiling a hand-authored intent and a capability selection into
//! declarative desired state.
use vstd::prelude::*;

use crate::capability::{
    pair_texts, resolution_conflicts, resolves, strictly_sorted, BlueprintModel, CapabilityCatalog,
    DesiredResourceBlueprint, Resolution, TemplateModel,
};
use crate::base::{ReasonModel, SemanticReason};
use crate::capability::sorted_insert;
use crate::ids::{texts, CapabilityId, IntentId, RequirementId};
use crate::intent::{managed_status, Intent, IntentStatus, Requirement};
use crate::keyed::{
    compare_text, lemma_text_lt_irreflexive, lemma_text_lt_total,
    lemma_text_lt_transitive, lookup, sorted_keys, text_lt, KeyOrder, TextMap,
};
use crate::planner::{
    desired_error_message, desired_models, validation_outcome, views, DesiredModel,
    DesiredResource, DesiredState, DesiredStateValidationError, DeterministicPlanner,
    PlanningError,
};
use crate::text::{append_str, is_blank, is_blank_seq, owned};

verus! {

/// What resolving the capabilities of an intent gives: a managed intent and a
/// resolution without missing or conflicting capabilities; otherwise the
/// first reason it fails: the least missing capability, then the first
/// conflict in the order the resolution lists them.
pub open spec fn resolution_outcome(
    status: IntentStatus,
    cat: Seq<(Seq<char>, BlueprintModel)>,
    requested: Seq<Seq<char>>,
    r: Result<Resolution, PlanningError>,
) -> bool {
    match r {
        Ok(res) => {
            &&& managed_status(status)
            &&& resolves(cat, requested, texts(res.selected@), pair_texts(res.conflicts@), texts(res.missing@))
            &&& res.missing@.len() == 0
            &&& res.conflicts@.len() == 0
        },
        Err(PlanningError::RetiredIntent) => !managed_status(status),
        Err(PlanningError::MissingCapability(c)) => {
            &&& managed_status(status)
            &&& exists|s: Seq<Seq<char>>, k: Seq<(Seq<char>, Seq<char>)>, m: Seq<Seq<char>>|
                #[trigger] resolves(cat, requested, s, k, m) && m.len() > 0 && m[0] == c@
        },
        Err(PlanningError::Conflict(a, b)) => {
            &&& managed_status(status)
            &&& exists|s: Seq<Seq<char>>|
                #[trigger] resolves(cat, requested, s, resolution_conflicts(cat, requested, s), Seq::empty())
                    && resolution_conflicts(cat, requested, s).len() > 0 && resolution_conflicts(
                    cat,
                    requested,
                    s,
                )[0] == (a@, b@)
        },
        Err(_) => false,
    }
}

impl DeterministicPlanner {
    /// Resolves the capabilities requested for a managed intent, failing on
    /// the first missing capability and then on the first conflict.
    pub fn resolve_capabilities(
        &self,
        intent: &Intent,
        catalog: &CapabilityCatalog,
        requested: &[CapabilityId],
    ) -> (r: Result<Resolution, PlanningError>)
        ensures
            resolution_outcome(intent.status, catalog@, texts(requested@), r),
    {
        if !intent.is_managed() {
            return Err(PlanningError::RetiredIntent);
        }
        let resolution = catalog.resolve(requested);
        if resolution.missing.len() > 0 {
            let missing = resolution.missing[0].clone();
            proof {
                let s = texts(resolution.selected@);
                let k = pair_texts(resolution.conflicts@);
                let m = texts(resolution.missing@);
                assert(m[0] == missing@);
            }
            return Err(PlanningError::MissingCapability(missing));
        }
        if resolution.conflicts.len() > 0 {
            let left = resolution.conflicts[0].0.clone();
            let right = resolution.conflicts[0].1.clone();
            proof {
                let s = texts(resolution.selected@);
                let k = pair_texts(resolution.conflicts@);
                assert(texts(resolution.missing@) =~= Seq::<Seq<char>>::empty());
                assert(k[0] == (left@, right@));
            }
            return Err(PlanningError::Conflict(left, right));
        }
        Ok(resolution)
    }
}

/// Where a desired resource is observed: provider, resource and observation
/// capability.
pub type Route = (Seq<char>, Seq<char>, Seq<char>);

/// One desired attribute: its route, key and value.
pub type Contribution = (Route, Seq<char>, Seq<char>);

/// Lexicographic order of routes, component by component.
pub open spec fn route_lt(a: Route, b: Route) -> bool {
    ||| text_lt(a.0, b.0)
    ||| a.0 == b.0 && text_lt(a.1, b.1)
    ||| a.0 == b.0 && a.1 == b.1 && text_lt(a.2, b.2)
}

/// What comparing route `a` with route `b` gives.
pub open spec fn route_order(a: Route, b: Route) -> KeyOrder {
    if a == b {
        KeyOrder::Same
    } else if route_lt(a, b) {
        KeyOrder::Less
    } else {
        KeyOrder::Greater
    }
}

proof fn lemma_route_lt_irreflexive(a: Route)
    ensures
        !route_lt(a, a),
{
    lemma_text_lt_irreflexive(a.0);
    lemma_text_lt_irreflexive(a.1);
    lemma_text_lt_irreflexive(a.2);
}

proof fn lemma_route_lt_transitive(a: Route, b: Route, c: Route)
    requires
        route_lt(a, b),
        route_lt(b, c),
    ensures
        route_lt(a, c),
{
    if text_lt(a.0, b.0) && text_lt(b.0, c.0) {
        lemma_text_lt_transitive(a.0, b.0, c.0);
    }
    if text_lt(a.1, b.1) && text_lt(b.1, c.1) {
        lemma_text_lt_transitive(a.1, b.1, c.1);
    }
    if text_lt(a.2, b.2) && text_lt(b.2, c.2) {
        lemma_text_lt_transitive(a.2, b.2, c.2);
    }
}

proof fn lemma_route_lt_total(a: Route, b: Route)
    requires
        a != b,
    ensures
        route_lt(a, b) || route_lt(b, a),
{
    if a.0 != b.0 {
        lemma_text_lt_total(a.0, b.0);
    } else if a.1 != b.1 {
        lemma_text_lt_total(a.1, b.1);
    } else {
        lemma_text_lt_total(a.2, b.2);
    }
}

/// The route of a resource blueprint.
pub open spec fn template_route(t: TemplateModel) -> Route {
    (t.0, t.1, t.2)
}

/// The route of a desired resource.
pub open spec fn model_route(d: DesiredModel) -> Route {
    (d.provider, d.resource, d.capability)
}

/// Compares the route of a desired resource with that of a blueprint.
fn compare_route(d: &DesiredResource, t: &DesiredResourceBlueprint) -> (r: KeyOrder)
    ensures
        r == route_order(model_route(d@), template_route(t@)),
{
    let ghost a = model_route(d@);
    let ghost b = template_route(t@);
    match compare_text(d.provider.as_str(), t.provider.as_str()) {
        KeyOrder::Less => {
            return KeyOrder::Less;
        },
        KeyOrder::Greater => {
            proof {
                lemma_text_lt_irreflexive(a.0);
            }
            return KeyOrder::Greater;
        },
        KeyOrder::Same => {},
    }
    match compare_text(d.resource.as_str(), t.resource.as_str()) {
        KeyOrder::Less => {
            return KeyOrder::Less;
        },
        KeyOrder::Greater => {
            proof {
                lemma_text_lt_irreflexive(a.0);
                lemma_text_lt_irreflexive(a.1);
            }
            return KeyOrder::Greater;
        },
        KeyOrder::Same => {},
    }
    let r = compare_text(d.observation_capability.as_str(), t.observation_capability.as_str());
    proof {
        lemma_text_lt_irreflexive(a.0);
        lemma_text_lt_irreflexive(a.1);
        if r == KeyOrder::Same {
            assert(a == b);
        }
    }
    r
}

/// The attributes a resource blueprint contributes, in key order.
pub open spec fn template_attributes(t: TemplateModel) -> Seq<Contribution> {
    t.3.map_values(|p: (Seq<char>, Seq<char>)| (template_route(t), p.0, p.1))
}

/// The attributes a list of contributed blueprints gives, in order.
pub open spec fn attributes_of(ts: Seq<(TemplateModel, Seq<char>)>) -> Seq<Contribution>
    decreases ts.len(),
{
    if ts.len() == 0 {
        Seq::empty()
    } else {
        attributes_of(ts.drop_last()) + template_attributes(ts.last().0)
    }
}

/// Attribute `j` gives a key of its route another value than attribute `i` before it.
pub open spec fn clashes(ev: Seq<Contribution>, i: int, j: int) -> bool {
    &&& 0 <= i < j < ev.len()
    &&& ev[i].0 == ev[j].0
    &&& ev[i].1 == ev[j].1
    &&& ev[i].2 != ev[j].2
}

/// Attribute `j` clashes with an earlier one.
pub open spec fn clash_at(ev: Seq<Contribution>, j: int) -> bool {
    exists|i: int| #[trigger] clashes(ev, i, j)
}

/// Attribute `j` is the first that clashes with an earlier one.
pub open spec fn first_clash(ev: Seq<Contribution>, j: int) -> bool {
    &&& clash_at(ev, j)
    &&& forall|i: int| 0 <= i < j ==> !#[trigger] clash_at(ev, i)
}

/// No attribute clashes with an earlier one.
pub open spec fn clash_free(ev: Seq<Contribution>) -> bool {
    forall|j: int| !#[trigger] clash_at(ev, j)
}

/// The error reports the first clash: the resource and key of the clashing
/// attribute, the value given before and the value given then.
pub open spec fn reports_clash(ev: Seq<Contribution>, e: PlanningError) -> bool {
    exists|j: int|
        #[trigger] first_clash(ev, j) && match e {
            PlanningError::DesiredStateConflict { resource, key, first, second } => {
                &&& resource@ == ev[j].0.1
                &&& key@ == ev[j].1
                &&& second@ == ev[j].2
                &&& exists|i: int| #[trigger] clashes(ev, i, j) && ev[i].2 == first@
            },
            _ => false,
        }
}

/// Clashes up to the end of a prefix are those of the whole.
proof fn lemma_clash_prefix(ev: Seq<Contribution>, p: Seq<Contribution>)
    requires
        p.len() <= ev.len(),
        ev.take(p.len() as int) == p,
    ensures
        forall|i: int, j: int| j < p.len() ==> #[trigger] clashes(ev, i, j) == clashes(p, i, j),
        forall|j: int| j < p.len() ==> #[trigger] clash_at(ev, j) == clash_at(p, j),
{
    assert forall|i: int, j: int| j < p.len() implies #[trigger] clashes(ev, i, j) == clashes(p, i, j) by {
        if 0 <= i < j {
            assert(ev[i] == p[i] && ev[j] == p[j]);
        }
    }
    assert forall|j: int| j < p.len() implies #[trigger] clash_at(ev, j) == clash_at(p, j) by {
        if clash_at(ev, j) {
            let i = choose|i: int| #[trigger] clashes(ev, i, j);
            assert(clashes(p, i, j));
        }
        if clash_at(p, j) {
            let i = choose|i: int| #[trigger] clashes(p, i, j);
            assert(clashes(ev, i, j));
        }
    }
}

/// A first clash reported in a prefix is the first clash of the whole.
proof fn lemma_reports_clash_prefix(ev: Seq<Contribution>, p: Seq<Contribution>, e: PlanningError)
    requires
        p.len() <= ev.len(),
        ev.take(p.len() as int) == p,
        reports_clash(p, e),
    ensures
        reports_clash(ev, e),
{
    lemma_clash_prefix(ev, p);
    let j = choose|j: int|
        #[trigger] first_clash(p, j) && match e {
            PlanningError::DesiredStateConflict { resource, key, first, second } => {
                &&& resource@ == p[j].0.1
                &&& key@ == p[j].1
                &&& second@ == p[j].2
                &&& exists|i: int| #[trigger] clashes(p, i, j) && p[i].2 == first@
            },
            _ => false,
        };
    assert(ev[j] == p[j]);
    assert(first_clash(ev, j));
    match e {
        PlanningError::DesiredStateConflict { resource, key, first, second } => {
            let i = choose|i: int| #[trigger] clashes(p, i, j) && p[i].2 == first@;
            assert(clashes(ev, i, j) && ev[i] == p[i]);
        },
        _ => {},
    }
}

/// The attributes of one route in `ev` are those the state holds, and the
/// state is sorted by key.
pub open spec fn state_from(ev: Seq<Contribution>, x: Route, st: Seq<(Seq<char>, Seq<char>)>) -> bool {
    &&& sorted_keys(st)
    &&& forall|a: Seq<char>, v: Seq<char>| #[trigger] ev.contains((x, a, v)) ==> lookup(st, a) == Some(v)
    &&& forall|a: Seq<char>| #[trigger] lookup(st, a) is Some ==> ev.contains((x, a, lookup(st, a)->0))
}

/// Merges the attributes of one blueprint into the state of its route,
/// failing on the first attribute that gives a key another value.
fn merge_template(
    st: &mut TextMap<String>,
    t: &DesiredResourceBlueprint,
    Ghost(ev0): Ghost<Seq<Contribution>>,
) -> (r: Result<(), PlanningError>)
    requires
        state_from(ev0, template_route(t@), old(st)@),
        clash_free(ev0),
    ensures
        match r {
            Ok(()) => {
                &&& state_from(ev0 + template_attributes(t@), template_route(t@), final(st)@)
                &&& clash_free(ev0 + template_attributes(t@))
            },
            Err(e) => reports_clash(ev0 + template_attributes(t@), e),
        },
{
    let ghost x = template_route(t@);
    let ghost ta = template_attributes(t@);
    let n = t.state.len();
    let mut i: usize = 0;
    assert(ev0 + ta.take(0) =~= ev0);
    while i < n
        invariant
            n == t@.3.len(),
            ta == template_attributes(t@),
            x == template_route(t@),
            i <= n,
            state_from(ev0 + ta.take(i as int), x, st@),
            clash_free(ev0 + ta.take(i as int)),
        decreases n - i,
    {
        let ghost e0 = ev0 + ta.take(i as int);
        let key = t.state.key_at(i);
        let value = t.state.value_at(i);
        let ghost here: Contribution = (x, key@, value@);
        assert(ta[i as int] == here);
        let ghost e1 = e0.push(here);
        assert(ev0 + ta.take(i + 1) =~= e1);
        proof {
            assert(e1.take(e0.len() as int) =~= e0);
            lemma_clash_prefix(e1, e0);
        }
        let existing = st.get(key.as_str());
        match existing {
            Some(prior) => {
                if !crate::text::str_eq(prior.as_str(), value.as_str()) {
                    let err = PlanningError::DesiredStateConflict {
                        resource: t.resource.clone(),
                        key: key.clone(),
                        first: prior.clone(),
                        second: value.clone(),
                    };
                    proof {
                        assert(lookup(st@, key@) is Some);
                        assert(e0.contains((x, key@, prior@)));
                        let q = choose|q: int| 0 <= q < e0.len() && e0[q] == (x, key@, prior@);
                        assert(clashes(e1, q, e0.len() as int));
                        assert(first_clash(e1, e0.len() as int));
                        let whole = ev0 + ta;
                        assert(whole.take(e1.len() as int) =~= e1);
                        assert(reports_clash(e1, err));
                        lemma_reports_clash_prefix(whole, e1, err);
                    }
                    return Err(err);
                }
            },
            None => {},
        }
        let ghost before = st@;
        st.insert(key.clone(), value.clone());
        proof {
            assert forall|a: Seq<char>, v: Seq<char>| #[trigger] e1.contains((x, a, v)) implies lookup(st@, a) == Some(v) by {
                let q = choose|q: int| 0 <= q < e1.len() && e1[q] == (x, a, v);
                if q < e0.len() {
                    assert(e0[q] == (x, a, v));
                    assert(e0.contains((x, a, v)));
                }
            }
            assert forall|a: Seq<char>| #[trigger] lookup(st@, a) is Some implies e1.contains((x, a, lookup(st@, a)->0)) by {
                if a == key@ {
                    assert(e1[e0.len() as int] == here);
                } else {
                    assert(lookup(before, a) is Some);
                    assert(e0.contains((x, a, lookup(before, a)->0)));
                    let q = choose|q: int| 0 <= q < e0.len() && e0[q] == (x, a, lookup(before, a)->0);
                    assert(e1[q] == e0[q]);
                }
            }
            assert forall|j: int| !#[trigger] clash_at(e1, j) by {
                if j < e0.len() {
                    assert(!clash_at(e0, j));
                } else if clash_at(e1, j) {
                    let q = choose|q: int| #[trigger] clashes(e1, q, j);
                    assert(j == e0.len());
                    assert(e0[q] == e1[q]);
                    assert(e0.contains(e1[q]));
                    assert(e0.contains((x, key@, e1[q].2)));
                }
            }
        }
        i = i + 1;
    }
    assert(ta.take(n as int) =~= ta);
    Ok(())
}

/// The blueprints and capabilities of a contribution list.
pub open spec fn contribution_views(v: Seq<(DesiredResourceBlueprint, CapabilityId)>) -> Seq<
    (TemplateModel, Seq<char>),
> {
    v.map_values(|p: (DesiredResourceBlueprint, CapabilityId)| (p.0@, p.1@))
}

/// The identifiers of an intent's requirements, in order.
pub open spec fn requirement_texts(reqs: Seq<Requirement>) -> Seq<Seq<char>> {
    reqs.map_values(|r: Requirement| r.id@)
}

/// Desired resources in strictly increasing route order.
pub open spec fn routes_sorted(rs: Seq<DesiredModel>) -> bool {
    forall|i: int, j: int|
        0 <= i < j < rs.len() ==> route_lt(#[trigger] model_route(rs[i]), #[trigger] model_route(rs[j]))
}

/// Some desired resource has the route.
pub open spec fn has_route(rs: Seq<DesiredModel>, x: Route) -> bool {
    exists|i: int| 0 <= i < rs.len() && #[trigger] model_route(rs[i]) == x
}

/// Some contributed blueprint has the route.
pub open spec fn contributes_route(ts: Seq<(TemplateModel, Seq<char>)>, x: Route) -> bool {
    exists|q: int| 0 <= q < ts.len() && #[trigger] template_route(ts[q].0) == x
}

/// The capability contributed a blueprint with the route.
pub open spec fn contributes_capability(
    ts: Seq<(TemplateModel, Seq<char>)>,
    x: Route,
    c: Seq<char>,
) -> bool {
    exists|q: int| 0 <= q < ts.len() && #[trigger] template_route(ts[q].0) == x && ts[q].1 == c
}

/// The semantic reason of a merged resource: the intent's statement, its
/// identifier and requirements, and the capabilities that contributed to the
/// route, sorted.
pub open spec fn reason_from(
    ts: Seq<(TemplateModel, Seq<char>)>,
    x: Route,
    summary: Seq<char>,
    intent: Seq<char>,
    reqs: Seq<Seq<char>>,
    r: ReasonModel,
) -> bool {
    &&& r.summary == summary
    &&& r.intent_ids == seq![intent]
    &&& r.requirement_ids == reqs
    &&& strictly_sorted(r.capability_ids)
    &&& forall|c: Seq<char>|
        #![trigger r.capability_ids.contains(c)]
        #![trigger contributes_capability(ts, x, c)]
        r.capability_ids.contains(c) == contributes_capability(ts, x, c)
}

/// One merged resource: the attributes contributed to its route, and its reason.
pub open spec fn resource_from(
    ts: Seq<(TemplateModel, Seq<char>)>,
    summary: Seq<char>,
    intent: Seq<char>,
    reqs: Seq<Seq<char>>,
    d: DesiredModel,
) -> bool {
    &&& state_from(attributes_of(ts), model_route(d), d.state)
    &&& reason_from(ts, model_route(d), summary, intent, reqs, d.reason)
}

/// The merge of contributed blueprints: one resource per contributed route,
/// in route order, each holding the attributes given for its route.
pub open spec fn merged(
    ts: Seq<(TemplateModel, Seq<char>)>,
    summary: Seq<char>,
    intent: Seq<char>,
    reqs: Seq<Seq<char>>,
    rs: Seq<DesiredModel>,
) -> bool {
    &&& routes_sorted(rs)
    &&& forall|x: Route|
        #![trigger has_route(rs, x)]
        #![trigger contributes_route(ts, x)]
        has_route(rs, x) == contributes_route(ts, x)
    &&& forall|i: int| 0 <= i < rs.len() ==> #[trigger] resource_from(ts, summary, intent, reqs, rs[i])
}

proof fn lemma_attributes_push(ts: Seq<(TemplateModel, Seq<char>)>, t: (TemplateModel, Seq<char>))
    ensures
        attributes_of(ts.push(t)) == attributes_of(ts) + template_attributes(t.0),
{
    assert(ts.push(t).drop_last() =~= ts);
}

/// Every attribute comes from a contributed blueprint of its route.
proof fn lemma_attribute_route(ts: Seq<(TemplateModel, Seq<char>)>, q: int)
    requires
        0 <= q < attributes_of(ts).len(),
    ensures
        contributes_route(ts, attributes_of(ts)[q].0),
    decreases ts.len(),
{
    let rest = attributes_of(ts.drop_last());
    if q < rest.len() {
        lemma_attribute_route(ts.drop_last(), q);
        let p = choose|p: int|
            0 <= p < ts.drop_last().len() && #[trigger] template_route(ts.drop_last()[p].0)
                == rest[q].0;
        assert(ts[p] == ts.drop_last()[p]);
    } else {
        assert(attributes_of(ts)[q].0 == template_route(ts.last().0));
        assert(template_route(ts[ts.len() - 1].0) == attributes_of(ts)[q].0);
    }
}

/// The attributes of a prefix of the blueprints are a prefix of the attributes.
proof fn lemma_attributes_prefix(ts: Seq<(TemplateModel, Seq<char>)>, n: int)
    requires
        0 <= n <= ts.len(),
    ensures
        attributes_of(ts.take(n)).len() <= attributes_of(ts).len(),
        attributes_of(ts).take(attributes_of(ts.take(n)).len() as int) == attributes_of(ts.take(n)),
    decreases ts.len(),
{
    if n == ts.len() {
        assert(ts.take(n) =~= ts);
        assert(attributes_of(ts).take(attributes_of(ts).len() as int) =~= attributes_of(ts));
    } else {
        let d = ts.drop_last();
        assert(d.take(n) =~= ts.take(n));
        lemma_attributes_prefix(d, n);
        let p = attributes_of(ts.take(n));
        assert(attributes_of(ts).take(p.len() as int) =~= attributes_of(d).take(p.len() as int));
    }
}

/// What contributing one more blueprint changes.
proof fn lemma_contribute_step(ts: Seq<(TemplateModel, Seq<char>)>, t: (TemplateModel, Seq<char>))
    ensures
        forall|y: Route| #[trigger]
            contributes_route(ts.push(t), y) == (contributes_route(ts, y) || y == template_route(t.0)),
        forall|y: Route, c: Seq<char>| #[trigger]
            contributes_capability(ts.push(t), y, c) == (contributes_capability(ts, y, c) || (y
                == template_route(t.0) && c == t.1)),
        forall|y: Route, a: Seq<char>, v: Seq<char>|
            y != template_route(t.0) ==> #[trigger] attributes_of(ts.push(t)).contains((y, a, v))
                == attributes_of(ts).contains((y, a, v)),
        forall|a: Seq<char>, v: Seq<char>|
            #[trigger] attributes_of(ts).contains((template_route(t.0), a, v)) ==> contributes_route(
                ts,
                template_route(t.0),
            ),
{
    let u = ts.push(t);
    let x = template_route(t.0);
    lemma_attributes_push(ts, t);
    let ev = attributes_of(ts);
    let ta = template_attributes(t.0);
    assert forall|y: Route| #[trigger] contributes_route(u, y) == (contributes_route(ts, y) || y == x) by {
        if contributes_route(ts, y) {
            let q = choose|q: int| 0 <= q < ts.len() && #[trigger] template_route(ts[q].0) == y;
            assert(u[q] == ts[q]);
        }
        if y == x {
            assert(template_route(u[ts.len() as int].0) == y);
        }
        if contributes_route(u, y) {
            let q = choose|q: int| 0 <= q < u.len() && #[trigger] template_route(u[q].0) == y;
            if q < ts.len() {
                assert(u[q] == ts[q]);
            }
        }
    }
    assert forall|y: Route, c: Seq<char>| #[trigger] contributes_capability(u, y, c) == (
    contributes_capability(ts, y, c) || (y == x && c == t.1)) by {
        if contributes_capability(ts, y, c) {
            let q = choose|q: int|
                0 <= q < ts.len() && #[trigger] template_route(ts[q].0) == y && ts[q].1 == c;
            assert(u[q] == ts[q]);
        }
        if y == x && c == t.1 {
            assert(template_route(u[ts.len() as int].0) == y);
        }
        if contributes_capability(u, y, c) {
            let q = choose|q: int|
                0 <= q < u.len() && #[trigger] template_route(u[q].0) == y && u[q].1 == c;
            if q < ts.len() {
                assert(u[q] == ts[q]);
            }
        }
    }
    assert forall|y: Route, a: Seq<char>, v: Seq<char>|
        y != x implies #[trigger] attributes_of(u).contains((y, a, v)) == ev.contains((y, a, v)) by {
        if attributes_of(u).contains((y, a, v)) {
            let q = choose|q: int|
                0 <= q < attributes_of(u).len() && attributes_of(u)[q] == (y, a, v);
            if q >= ev.len() {
                assert(ta[q - ev.len()].0 == x);
            } else {
                assert(ev[q] == (y, a, v));
            }
        }
        if ev.contains((y, a, v)) {
            let q = choose|q: int| 0 <= q < ev.len() && ev[q] == (y, a, v);
            assert(attributes_of(u)[q] == (y, a, v));
        }
    }
    assert forall|a: Seq<char>, v: Seq<char>|
        #[trigger] ev.contains((x, a, v)) implies contributes_route(ts, x) by {
        let q = choose|q: int| 0 <= q < ev.len() && ev[q] == (x, a, v);
        lemma_attribute_route(ts, q);
    }
}

/// Merging one more blueprint into the resources of its route, updating the
/// resource of that route or inserting one at its place, keeps the merge.
proof fn lemma_merge_step(
    tk: Seq<(TemplateModel, Seq<char>)>,
    t: (TemplateModel, Seq<char>),
    summary: Seq<char>,
    intent: Seq<char>,
    reqs: Seq<Seq<char>>,
    rs: Seq<DesiredModel>,
    pos: int,
    found: bool,
    after: DesiredModel,
    rs1: Seq<DesiredModel>,
)
    requires
        merged(tk, summary, intent, reqs, rs),
        0 <= pos <= rs.len(),
        forall|i: int| 0 <= i < pos ==> route_lt(#[trigger] model_route(rs[i]), template_route(t.0)),
        found ==> pos < rs.len() && model_route(rs[pos]) == template_route(t.0) && rs1 == rs.update(
            pos,
            after,
        ),
        !found ==> (pos < rs.len() ==> route_lt(template_route(t.0), model_route(rs[pos])))
            && !contributes_route(tk, template_route(t.0)) && rs1 == rs.insert(pos, after),
        model_route(after) == template_route(t.0),
        resource_from(tk.push(t), summary, intent, reqs, after),
    ensures
        merged(tk.push(t), summary, intent, reqs, rs1),
{
    let x = template_route(t.0);
    let tk1 = tk.push(t);
    lemma_contribute_step(tk, t);
    lemma_route_lt_irreflexive(x);
    // Each resource of another route keeps what it was.
    assert forall|d: DesiredModel|
        model_route(d) != x && #[trigger] resource_from(tk, summary, intent, reqs, d) implies resource_from(
        tk1,
        summary,
        intent,
        reqs,
        d,
    ) by {
        let y = model_route(d);
        assert forall|a: Seq<char>, v: Seq<char>| #[trigger] attributes_of(tk1).contains((y, a, v))
            implies lookup(d.state, a) == Some(v) by {
            assert(attributes_of(tk).contains((y, a, v)));
        }
        assert forall|a: Seq<char>| #[trigger] lookup(d.state, a) is Some implies attributes_of(
            tk1,
        ).contains((y, a, lookup(d.state, a)->0)) by {
            assert(attributes_of(tk).contains((y, a, lookup(d.state, a)->0)));
        }
        assert forall|c: Seq<char>| #[trigger] d.reason.capability_ids.contains(c)
            == contributes_capability(tk1, y, c) by {
            assert(contributes_capability(tk1, y, c) == contributes_capability(tk, y, c));
        }
    }
    if found {
        assert forall|i: int| 0 <= i < rs.len() && i != pos implies #[trigger] model_route(rs[i]) != x by {
            if i < pos {
            } else {
                assert(route_lt(model_route(rs[pos]), model_route(rs[i])));
            }
        }
        assert forall|i: int| 0 <= i < rs1.len() implies #[trigger] model_route(rs1[i]) == model_route(
            rs[i],
        ) by {
        }
        assert(has_route(rs, x));
        assert forall|y: Route| #[trigger] has_route(rs1, y) == contributes_route(tk1, y) by {
            if has_route(rs1, y) {
                let i = choose|i: int| 0 <= i < rs1.len() && #[trigger] model_route(rs1[i]) == y;
                assert(model_route(rs[i]) == y);
                assert(has_route(rs, y));
            }
            if has_route(rs, y) {
                let i = choose|i: int| 0 <= i < rs.len() && #[trigger] model_route(rs[i]) == y;
                assert(model_route(rs1[i]) == y);
            }
        }
        assert forall|i: int| 0 <= i < rs1.len() implies #[trigger] resource_from(
            tk1,
            summary,
            intent,
            reqs,
            rs1[i],
        ) by {
            if i != pos {
                assert(resource_from(tk, summary, intent, reqs, rs[i]));
            }
        }
    } else {
        assert forall|i: int| 0 <= i < rs.len() implies #[trigger] model_route(rs[i]) != x by {
            if model_route(rs[i]) == x {
                assert(has_route(rs, x));
            }
        }
        assert forall|i: int, j: int| 0 <= i < j < rs1.len() implies route_lt(
            #[trigger] model_route(rs1[i]),
            #[trigger] model_route(rs1[j]),
        ) by {
            if j < pos {
                assert(rs1[i] == rs[i] && rs1[j] == rs[j]);
            } else if j == pos {
                assert(rs1[i] == rs[i]);
            } else if i < pos {
                assert(rs1[i] == rs[i] && rs1[j] == rs[j - 1]);
                assert(route_lt(model_route(rs[i]), model_route(rs[j - 1])));
            } else if i == pos {
                assert(rs1[j] == rs[j - 1]);
                if j - 1 > pos {
                    assert(route_lt(model_route(rs[pos]), model_route(rs[j - 1])));
                    lemma_route_lt_transitive(x, model_route(rs[pos]), model_route(rs[j - 1]));
                }
            } else {
                assert(rs1[i] == rs[i - 1] && rs1[j] == rs[j - 1]);
                assert(route_lt(model_route(rs[i - 1]), model_route(rs[j - 1])));
            }
        }
        assert forall|y: Route| #[trigger] has_route(rs1, y) == contributes_route(tk1, y) by {
            if has_route(rs1, y) {
                let i = choose|i: int| 0 <= i < rs1.len() && #[trigger] model_route(rs1[i]) == y;
                if i < pos {
                    assert(rs1[i] == rs[i]);
                    assert(has_route(rs, y));
                } else if i > pos {
                    assert(rs1[i] == rs[i - 1]);
                    assert(has_route(rs, y));
                }
            }
            if has_route(rs, y) {
                let i = choose|i: int| 0 <= i < rs.len() && #[trigger] model_route(rs[i]) == y;
                if i < pos {
                    assert(model_route(rs1[i]) == y);
                } else {
                    assert(rs1[i + 1] == rs[i]);
                    assert(model_route(rs1[i + 1]) == y);
                }
            }
            if y == x {
                assert(model_route(rs1[pos]) == y);
            }
        }
        assert forall|i: int| 0 <= i < rs1.len() implies #[trigger] resource_from(
            tk1,
            summary,
            intent,
            reqs,
            rs1[i],
        ) by {
            if i < pos {
                assert(rs1[i] == rs[i]);
                assert(resource_from(tk, summary, intent, reqs, rs[i]));
            } else if i > pos {
                assert(rs1[i] == rs[i - 1]);
                assert(resource_from(tk, summary, intent, reqs, rs[i - 1]));
            }
        }
    }
}

/// Whether the resource's route sorts before the blueprint's.
fn route_before(d: &DesiredResource, t: &DesiredResourceBlueprint) -> (r: bool)
    ensures
        r == route_lt(model_route(d@), template_route(t@)),
{
    match compare_route(d, t) {
        KeyOrder::Less => true,
        _ => {
            proof {
                lemma_route_lt_irreflexive(model_route(d@));
            }
            false
        },
    }
}

/// The identifiers of an intent's requirements.
fn requirement_ids_of(intent: &Intent) -> (r: Vec<RequirementId>)
    ensures
        texts(r@) == requirement_texts(intent.requirements@),
{
    let mut out: Vec<RequirementId> = Vec::new();
    let mut i: usize = 0;
    while i < intent.requirements.len()
        invariant
            i <= intent.requirements@.len(),
            texts(out@) == requirement_texts(intent.requirements@).take(i as int),
        decreases intent.requirements@.len() - i,
    {
        let ghost prev = out@;
        out.push(intent.requirements[i].id.clone());
        assert(out@ == prev.push(intent.requirements@[i as int].id));
        assert(texts(out@) =~= texts(prev).push(intent.requirements@[i as int].id@));
        assert(requirement_texts(intent.requirements@).take(i + 1) =~= requirement_texts(
            intent.requirements@,
        ).take(i as int).push(intent.requirements@[i as int].id@));
        i = i + 1;
    }
    assert(requirement_texts(intent.requirements@).take(i as int) =~= requirement_texts(
        intent.requirements@,
    ));
    out
}

/// A desired resource for the blueprint's route with no attributes yet,
/// carrying the intent's provenance.
fn fresh_resource(intent: &Intent, t: &DesiredResourceBlueprint) -> (r: DesiredResource)
    ensures
        model_route(r@) == template_route(t@),
        r@.state.len() == 0,
        r@.reason.summary == intent.statement@,
        r@.reason.intent_ids == seq![intent.id@],
        r@.reason.requirement_ids == requirement_texts(intent.requirements@),
        r@.reason.capability_ids.len() == 0,
{
    let ids = vec![intent.id.clone()];
    assert(texts(ids@) =~= seq![intent.id@]);
    let r = DesiredResource {
        provider: t.provider.clone(),
        resource: t.resource.clone(),
        observation_capability: t.observation_capability.clone(),
        state: TextMap::new(),
        reason: SemanticReason {
            summary: intent.statement.clone(),
            intent_ids: ids,
            requirement_ids: requirement_ids_of(intent),
            capability_ids: Vec::new(),
        },
    };
    assert(texts(r.reason.capability_ids@) =~= Seq::<Seq<char>>::empty());
    r
}

/// Merges the contributed blueprints into desired resources, one per route
/// in route order, failing on the first attribute that gives a key of a
/// route another value.
fn merge_contributions(contribs: &Vec<(DesiredResourceBlueprint, CapabilityId)>, intent: &Intent) -> (r:
    Result<Vec<DesiredResource>, PlanningError>)
    ensures
        match r {
            Ok(rs) => {
                &&& clash_free(attributes_of(contribution_views(contribs@)))
                &&& merged(
                    contribution_views(contribs@),
                    intent.statement@,
                    intent.id@,
                    requirement_texts(intent.requirements@),
                    desired_models(rs@),
                )
            },
            Err(e) => reports_clash(attributes_of(contribution_views(contribs@)), e),
        },
{
    let ghost ts = contribution_views(contribs@);
    let ghost summary = intent.statement@;
    let ghost id = intent.id@;
    let ghost reqs = requirement_texts(intent.requirements@);
    let mut out: Vec<DesiredResource> = Vec::new();
    let mut k: usize = 0;
    proof {
        assert(ts.take(0) =~= Seq::<(TemplateModel, Seq<char>)>::empty());
        assert(attributes_of(ts.take(0)) =~= Seq::<Contribution>::empty());
    }
    while k < contribs.len()
        invariant
            ts == contribution_views(contribs@),
            summary == intent.statement@,
            id == intent.id@,
            reqs == requirement_texts(intent.requirements@),
            k <= contribs@.len(),
            clash_free(attributes_of(ts.take(k as int))),
            merged(ts.take(k as int), summary, id, reqs, desired_models(out@)),
        decreases contribs@.len() - k,
    {
        let ghost tk = ts.take(k as int);
        let ghost rs = desired_models(out@);
        let ghost ev = attributes_of(tk);
        let t = &contribs[k].0;
        let ghost x = template_route(t@);
        let mut pos: usize = 0;
        while pos < out.len() && route_before(&out[pos], t)
            invariant
                rs == desired_models(out@),
                x == template_route(t@),
                pos <= out@.len(),
                forall|i: int| 0 <= i < pos ==> route_lt(#[trigger] model_route(rs[i]), x),
            decreases out@.len() - pos,
        {
            pos = pos + 1;
        }
        let found = pos < out.len() && match compare_route(&out[pos], t) {
            KeyOrder::Same => true,
            _ => false,
        };
        proof {
            assert(ts[k as int] == (t@, contribs@[k as int].1@));
            assert(ts.take(k + 1) =~= tk.push(ts[k as int]));
            lemma_contribute_step(tk, ts[k as int]);
            lemma_attributes_push(tk, ts[k as int]);
            if !found {
                assert forall|i: int| 0 <= i < rs.len() implies #[trigger] model_route(rs[i]) != x by {
                    lemma_route_lt_irreflexive(x);
                    if i >= pos {
                        assert(!route_lt(model_route(rs[pos as int]), x));
                        assert(model_route(rs[pos as int]) != x);
                        lemma_route_lt_total(model_route(rs[pos as int]), x);
                        if i > pos {
                            lemma_route_lt_transitive(x, model_route(rs[pos as int]), model_route(rs[i]));
                        }
                    }
                }
                assert(!has_route(rs, x));
                assert(!contributes_route(tk, x));
            }
        }
        let mut entry = if found {
            out.remove(pos)
        } else {
            fresh_resource(intent, t)
        };
        let ghost before = entry@;
        proof {
            if found {
                assert(before == rs[pos as int]);
                assert(resource_from(tk, summary, id, reqs, rs[pos as int]));
            } else {
                assert(texts(entry.reason.capability_ids@).len() == 0);
                assert forall|a: Seq<char>, v: Seq<char>| #[trigger] ev.contains((x, a, v)) implies lookup(
                    entry.state@,
                    a,
                ) == Some(v) by {
                }
            }
        }
        match merge_template(&mut entry.state, t, Ghost(ev)) {
            Ok(()) => {},
            Err(e) => {
                proof {
                    lemma_attributes_prefix(ts, k + 1);
                    lemma_reports_clash_prefix(attributes_of(ts), attributes_of(ts.take(k + 1)), e);
                }
                return Err(e);
            },
        }
        sorted_insert(&mut entry.reason.capability_ids, contribs[k].1.clone());
        let ghost after = entry@;
        out.insert(pos, entry);
        proof {
            let tk1 = ts.take(k + 1);
            let rs1 = desired_models(out@);
            assert forall|c: Seq<char>| #[trigger] after.reason.capability_ids.contains(c)
                == contributes_capability(tk1, x, c) by {
                assert(contributes_capability(tk1, x, c) == (contributes_capability(tk, x, c) || c
                    == ts[k as int].1));
                if !found {
                    assert(!before.reason.capability_ids.contains(c));
                    if contributes_capability(tk, x, c) {
                        let q = choose|q: int|
                            0 <= q < tk.len() && #[trigger] template_route(tk[q].0) == x && tk[q].1 == c;
                        assert(contributes_route(tk, x));
                    }
                }
            }
            assert(resource_from(tk1, summary, id, reqs, after));
            if found {
                assert(rs1 =~= rs.update(pos as int, after));
            } else {
                assert(rs1 =~= rs.insert(pos as int, after));
                if pos < rs.len() {
                    assert(!route_lt(model_route(rs[pos as int]), x));
                    lemma_route_lt_total(model_route(rs[pos as int]), x);
                }
            }
            lemma_merge_step(tk, ts[k as int], summary, id, reqs, rs, pos as int, found, after, rs1);
            assert(clash_free(attributes_of(tk1)));
        }
        k = k + 1;
    }
    proof {
        assert(ts.take(k as int) =~= ts);
    }
    Ok(out)
}

/// The resource blueprints of a capability, none when it has no blueprint.
pub open spec fn templates_of(cat: Seq<(Seq<char>, BlueprintModel)>, c: Seq<char>) -> Seq<
    TemplateModel,
> {
    match lookup(cat, c) {
        Some(bp) => bp.resources,
        None => Seq::empty(),
    }
}

/// The resource blueprints of the selected capabilities, in selection order,
/// each with the capability that contributes it.
pub open spec fn contributions(cat: Seq<(Seq<char>, BlueprintModel)>, sel: Seq<Seq<char>>) -> Seq<
    (TemplateModel, Seq<char>),
>
    decreases sel.len(),
{
    if sel.len() == 0 {
        Seq::empty()
    } else {
        contributions(cat, sel.drop_last()) + templates_of(cat, sel.last()).map_values(
            |t: TemplateModel| (t, sel.last()),
        )
    }
}

/// The warning for a capability that contributes no desired resource.
pub open spec fn warning_text(c: Seq<char>) -> Seq<char> {
    "capability "@ + c + " contributes no desired resources"@
}

/// The capability has a blueprint that contributes no desired resource.
pub open spec fn silent(cat: Seq<(Seq<char>, BlueprintModel)>, c: Seq<char>) -> bool {
    match lookup(cat, c) {
        Some(bp) => bp.resources.len() == 0,
        None => false,
    }
}

/// The warnings, sorted, are those of the selected silent capabilities.
pub open spec fn warnings_for(
    cat: Seq<(Seq<char>, BlueprintModel)>,
    sel: Seq<Seq<char>>,
    w: Seq<Seq<char>>,
) -> bool {
    &&& strictly_sorted(w)
    &&& forall|m: Seq<char>| #[trigger]
        w.contains(m) == exists|c: Seq<char>| #[trigger]
            sel.contains(c) && silent(cat, c) && m == warning_text(c)
}

proof fn lemma_warning_text_injective(a: Seq<char>, b: Seq<char>)
    requires
        warning_text(a) == warning_text(b),
    ensures
        a == b,
{
    let p = "capability "@;
    let q = " contributes no desired resources"@;
    assert(warning_text(a).len() == p.len() + a.len() + q.len());
    assert(warning_text(a).subrange(p.len() as int, (p.len() + a.len()) as int) =~= a);
    assert(warning_text(b).subrange(p.len() as int, (p.len() + b.len()) as int) =~= b);
}

/// Inserts a text that is not yet there into a strictly sorted list, in order.
fn insert_text(v: &mut Vec<String>, s: String)
    requires
        strictly_sorted(views(old(v)@)),
        !views(old(v)@).contains(s@),
    ensures
        strictly_sorted(views(final(v)@)),
        forall|x: Seq<char>| #[trigger]
            views(final(v)@).contains(x) == (views(old(v)@).contains(x) || x == s@),
{
    let ghost before = views(v@);
    let mut i: usize = 0;
    while i < v.len() && text_before(v[i].as_str(), s.as_str())
        invariant
            i <= v@.len(),
            before == views(v@),
            strictly_sorted(before),
            forall|j: int| 0 <= j < i ==> text_lt(#[trigger] before[j], s@),
        decreases v@.len() - i,
    {
        i = i + 1;
    }
    proof {
        if i < before.len() {
            assert(before[i as int] != s@);
            lemma_text_lt_total(before[i as int], s@);
        }
    }
    let ghost k = s@;
    v.insert(i, s);
    proof {
        let after = views(v@);
        assert(after =~= before.insert(i as int, k));
        assert forall|a: int, b: int| 0 <= a < b < after.len() implies text_lt(
            #[trigger] after[a],
            #[trigger] after[b],
        ) by {
            if b < i {
            } else if b == i {
            } else if a < i {
                assert(after[b] == before[b - 1]);
                assert(after[a] == before[a]);
            } else if a == i {
                assert(after[b] == before[b - 1]);
                if b - 1 > i {
                    lemma_text_lt_transitive(k, before[i as int], before[b - 1]);
                }
            } else {
                assert(after[a] == before[a - 1] && after[b] == before[b - 1]);
            }
        }
        assert forall|x: Seq<char>| #[trigger] after.contains(x) == (before.contains(x) || x == k) by {
            if after.contains(x) {
                let j = choose|j: int| 0 <= j < after.len() && after[j] == x;
                if j < i {
                    assert(before[j] == x);
                } else if j > i {
                    assert(before[j - 1] == x);
                }
            }
            if before.contains(x) {
                let j = choose|j: int| 0 <= j < before.len() && before[j] == x;
                if j < i {
                    assert(after[j] == x);
                } else {
                    assert(after[j + 1] == x);
                }
            }
            if x == k {
                assert(after[i as int] == x);
            }
        }
    }
}

/// Whether text `a` sorts strictly before text `b`.
fn text_before(a: &str, b: &str) -> (r: bool)
    ensures
        r == text_lt(a@, b@),
{
    match compare_text(a, b) {
        KeyOrder::Less => true,
        _ => {
            proof {
                lemma_text_lt_irreflexive(a@);
            }
            false
        },
    }
}

/// The resource blueprints the selected capabilities contribute, in
/// selection order, and the sorted warnings for those that contribute none.
fn contribution_list(catalog: &CapabilityCatalog, selected: &Vec<CapabilityId>) -> (r: (
    Vec<(DesiredResourceBlueprint, CapabilityId)>,
    Vec<String>,
))
    requires
        strictly_sorted(texts(selected@)),
    ensures
        contribution_views(r.0@) == contributions(catalog@, texts(selected@)),
        warnings_for(catalog@, texts(selected@), views(r.1@)),
{
    let ghost cat = catalog@;
    let ghost sel = texts(selected@);
    let mut out: Vec<(DesiredResourceBlueprint, CapabilityId)> = Vec::new();
    let mut warnings: Vec<String> = Vec::new();
    let mut i: usize = 0;
    proof {
        assert(sel.take(0) =~= Seq::<Seq<char>>::empty());
        assert(contribution_views(out@) =~= Seq::<(TemplateModel, Seq<char>)>::empty());
        assert(views(warnings@) =~= Seq::<Seq<char>>::empty());
    }
    while i < selected.len()
        invariant
            cat == catalog@,
            sel == texts(selected@),
            strictly_sorted(sel),
            i <= sel.len(),
            contribution_views(out@) == contributions(cat, sel.take(i as int)),
            strictly_sorted(views(warnings@)),
            forall|m: Seq<char>| #[trigger]
                views(warnings@).contains(m) == exists|c: Seq<char>| #[trigger]
                    sel.take(i as int).contains(c) && silent(cat, c) && m == warning_text(c),
        decreases sel.len() - i,
    {
        let c = &selected[i];
        let ghost cv = c@;
        let ghost before_w = views(warnings@);
        let ghost before_out = contribution_views(out@);
        proof {
            assert(sel[i as int] == cv);
            assert(sel.take(i + 1).drop_last() =~= sel.take(i as int));
            assert(sel.take(i + 1).last() == cv);
            let t0 = sel.take(i as int);
            let t1 = sel.take(i + 1);
            assert forall|c2: Seq<char>| #[trigger] t1.contains(c2) == (t0.contains(c2) || c2 == cv) by {
                if t1.contains(c2) {
                    let j = choose|j: int| 0 <= j < t1.len() && t1[j] == c2;
                    if j < i {
                        assert(t0[j] == c2);
                    }
                }
                if t0.contains(c2) {
                    let j = choose|j: int| 0 <= j < t0.len() && t0[j] == c2;
                    assert(t1[j] == c2);
                }
                if c2 == cv {
                    assert(t1[i as int] == c2);
                }
            }
            assert(!sel.take(i as int).contains(cv)) by {
                if sel.take(i as int).contains(cv) {
                    let j = choose|j: int| 0 <= j < i && sel.take(i as int)[j] == cv;
                    assert(text_lt(sel[j], sel[i as int]));
                    lemma_text_lt_irreflexive(cv);
                }
            }
        }
        match catalog.blueprint(c) {
            Some(bp) => {
                if bp.desired_resources.len() == 0 {
                    let mut message = owned("capability ");
                    append_str(&mut message, c.as_str());
                    append_str(&mut message, " contributes no desired resources");
                    proof {
                        assert(message@ == warning_text(cv));
                        if before_w.contains(message@) {
                            let c2 = choose|c2: Seq<char>| #[trigger]
                                sel.take(i as int).contains(c2) && silent(cat, c2) && message@
                                    == warning_text(c2);
                            lemma_warning_text_injective(c2, cv);
                        }
                    }
                    insert_text(&mut warnings, message);
                }
                proof {
                    assert(silent(cat, cv) == (bp@.resources.len() == 0));
                    assert forall|x: Seq<char>| #[trigger] views(warnings@).contains(x) == (
                    before_w.contains(x) || (silent(cat, cv) && x == warning_text(cv))) by {}
                }
                let n = bp.desired_resources.len();
                let mut j: usize = 0;
                while j < n
                    invariant
                        n == bp@.resources.len(),
                        j <= n,
                        contribution_views(out@) == before_out + bp@.resources.take(j as int).map_values(
                            |t: TemplateModel| (t, cv),
                        ),
                        cv == c@,
                    decreases n - j,
                {
                    let ghost prev = out@;
                    out.push((bp.desired_resources[j].clone(), c.clone()));
                    proof {
                        assert(contribution_views(out@) =~= contribution_views(prev).push(
                            (bp@.resources[j as int], cv),
                        ));
                        assert(bp@.resources.take(j + 1).map_values(|t: TemplateModel| (t, cv))
                            =~= bp@.resources.take(j as int).map_values(|t: TemplateModel| (t, cv)).push(
                            (bp@.resources[j as int], cv),
                        ));
                    }
                    j = j + 1;
                }
                proof {
                    assert(bp@.resources.take(n as int) =~= bp@.resources);
                    assert(templates_of(cat, cv) == bp@.resources);
                }
            },
            None => {
                proof {
                    assert(!silent(cat, cv));
                    assert(templates_of(cat, cv) =~= Seq::<TemplateModel>::empty());
                    assert(contribution_views(out@) =~= before_out + templates_of(cat, cv).map_values(
                        |t: TemplateModel| (t, cv),
                    ));
                }
            },
        }
        proof {
            assert(contributions(cat, sel.take(i + 1)) == contributions(cat, sel.take(i as int))
                + templates_of(cat, cv).map_values(|t: TemplateModel| (t, cv)));
            assert forall|m: Seq<char>| #[trigger]
                views(warnings@).contains(m) == exists|c2: Seq<char>| #[trigger]
                    sel.take(i + 1).contains(c2) && silent(cat, c2) && m == warning_text(c2) by {
                if views(warnings@).contains(m) {
                    if before_w.contains(m) {
                        let c2 = choose|c2: Seq<char>| #[trigger]
                            sel.take(i as int).contains(c2) && silent(cat, c2) && m == warning_text(c2);
                        assert(sel.take(i + 1).contains(c2));
                    } else {
                        assert(sel.take(i + 1).contains(cv));
                    }
                }
                if exists|c2: Seq<char>| #[trigger]
                    sel.take(i + 1).contains(c2) && silent(cat, c2) && m == warning_text(c2) {
                    let c2 = choose|c2: Seq<char>| #[trigger]
                        sel.take(i + 1).contains(c2) && silent(cat, c2) && m == warning_text(c2);
                    if c2 != cv {
                        assert(sel.take(i as int).contains(c2));
                    }
                }
            }
        }
        i = i + 1;
    }
    proof {
        assert(sel.take(i as int) =~= sel);
    }
    (out, warnings)
}

/// An intent compiled into declarative desired state.
#[derive(Debug, PartialEq, Eq)]
pub struct IntentPlan {
    pub intent_id: IntentId,
    pub capability_resolution: Resolution,
    pub desired_state: DesiredState,
    pub warnings: Vec<String>,
}

/// The selection resolves the request for a managed intent with nothing
/// missing and no conflict.
pub open spec fn clean_selection(
    status: IntentStatus,
    cat: Seq<(Seq<char>, BlueprintModel)>,
    requested: Seq<Seq<char>>,
    sel: Seq<Seq<char>>,
) -> bool {
    managed_status(status) && resolves(cat, requested, sel, Seq::empty(), Seq::empty())
}

/// What compiling an intent gives. A blank statement is refused first, then
/// what resolving the capabilities refuses. The blueprints of the selected
/// capabilities are merged by route: the first attribute that gives a key of
/// a route another value is refused, and so is a merged desired state that
/// does not validate. Otherwise the plan holds the resolution, one desired
/// resource per contributed route in route order with the attributes given
/// for it and the intent as its reason, and the sorted warnings for selected
/// capabilities that contribute nothing.
pub open spec fn compile_outcome(
    intent: Intent,
    cat: Seq<(Seq<char>, BlueprintModel)>,
    requested: Seq<Seq<char>>,
    r: Result<IntentPlan, PlanningError>,
) -> bool {
    let statement = intent.statement@;
    let reqs = requirement_texts(intent.requirements@);
    match r {
        Ok(plan) => {
            let sel = texts(plan.capability_resolution.selected@);
            let ts = contributions(cat, sel);
            let rs = desired_models(plan.desired_state.resources@);
            &&& !is_blank_seq(statement)
            &&& resolution_outcome(intent.status, cat, requested, Ok(plan.capability_resolution))
            &&& plan.intent_id@ == intent.id@
            &&& clash_free(attributes_of(ts))
            &&& merged(ts, statement, intent.id@, reqs, rs)
            &&& validation_outcome(rs, Ok(()))
            &&& warnings_for(cat, sel, views(plan.warnings@))
        },
        Err(e) => if is_blank_seq(statement) {
            e == PlanningError::EmptyIntentStatement
        } else {
            match e {
                PlanningError::DesiredStateConflict { .. } => exists|sel: Seq<Seq<char>>|
                    #[trigger] clean_selection(intent.status, cat, requested, sel) && reports_clash(
                        attributes_of(contributions(cat, sel)),
                        e,
                    ),
                PlanningError::InvalidDesiredState(m) => exists|
                    sel: Seq<Seq<char>>,
                    rs: Seq<DesiredModel>,
                    v: DesiredStateValidationError,
                |
                    #[trigger] clean_selection(intent.status, cat, requested, sel) && clash_free(
                        attributes_of(contributions(cat, sel)),
                    ) && #[trigger] merged(contributions(cat, sel), statement, intent.id@, reqs, rs)
                        && #[trigger] validation_outcome(rs, Err(v)) && m@ == desired_error_message(v),
                _ => resolution_outcome(intent.status, cat, requested, Err(e)),
            }
        },
    }
}

impl DeterministicPlanner {
    /// Compiles a hand-authored intent and capability selection into
    /// deterministic declarative desired state. No model provider, shell
    /// command, executor or machine mutation takes part.
    pub fn compile_intent(
        &self,
        intent: &Intent,
        catalog: &CapabilityCatalog,
        requested: &[CapabilityId],
    ) -> (r: Result<IntentPlan, PlanningError>)
        ensures
            compile_outcome(*intent, catalog@, texts(requested@), r),
    {
        if is_blank(intent.statement.as_str()) {
            return Err(PlanningError::EmptyIntentStatement);
        }
        let resolution = match self.resolve_capabilities(intent, catalog, requested) {
            Ok(res) => res,
            Err(e) => {
                return Err(e);
            },
        };
        let ghost sel = texts(resolution.selected@);
        proof {
            assert(pair_texts(resolution.conflicts@) =~= Seq::<(Seq<char>, Seq<char>)>::empty());
            assert(texts(resolution.missing@) =~= Seq::<Seq<char>>::empty());
            assert(clean_selection(intent.status, catalog@, texts(requested@), sel));
        }
        let (contribs, warnings) = contribution_list(catalog, &resolution.selected);
        let resources = match merge_contributions(&contribs, intent) {
            Ok(rs) => rs,
            Err(e) => {
                return Err(e);
            },
        };
        let desired_state = DesiredState { resources };
        match desired_state.validate() {
            Ok(()) => {},
            Err(v) => {
                let m = v.message();
                return Err(PlanningError::InvalidDesiredState(m));
            },
        }
        Ok(
            IntentPlan {
                intent_id: intent.id.clone(),
                capability_resolution: resolution,
                desired_state,
                warnings,
            },
        )
    }
}

/// Two sequences sorted strictly by the same asymmetric order and holding
/// the same elements are equal.
proof fn lemma_sorted_unique<T>(a: Seq<T>, b: Seq<T>, lt: spec_fn(T, T) -> bool)
    requires
        forall|i: int, j: int| 0 <= i < j < a.len() ==> lt(#[trigger] a[i], #[trigger] a[j]),
        forall|i: int, j: int| 0 <= i < j < b.len() ==> lt(#[trigger] b[i], #[trigger] b[j]),
        forall|x: T, y: T| #[trigger] lt(x, y) ==> !lt(y, x),
        forall|x: T| #![trigger a.contains(x)] #![trigger b.contains(x)] a.contains(x) == b.contains(x),
    ensures
        a == b,
    decreases a.len(),
{
    if a.len() == 0 {
        if b.len() > 0 {
            assert(b.contains(b[0]));
            assert(a.contains(b[0]));
        }
        assert(a =~= b);
    } else {
        assert(a.contains(a[0]));
        assert(b.len() > 0);
        assert(b.contains(b[0]));
        if a[0] != b[0] {
            let i = choose|i: int| 0 <= i < a.len() && a[i] == b[0];
            let j = choose|j: int| 0 <= j < b.len() && b[j] == a[0];
            assert(lt(a[0], a[i]));
            assert(lt(b[0], b[j]));
        }
        let ta = a.drop_first();
        let tb = b.drop_first();
        assert forall|x: T| #![trigger ta.contains(x)] #![trigger tb.contains(x)] ta.contains(x) == tb.contains(x) by {
            if ta.contains(x) {
                let i = choose|i: int| 0 <= i < ta.len() && ta[i] == x;
                assert(a[i + 1] == x);
                assert(lt(a[0], a[i + 1]));
                assert(b.contains(x));
                let j = choose|j: int| 0 <= j < b.len() && b[j] == x;
                if j == 0 {
                    assert(lt(x, x));
                }
                assert(tb[j - 1] == x);
            }
            if tb.contains(x) {
                let j = choose|j: int| 0 <= j < tb.len() && tb[j] == x;
                assert(b[j + 1] == x);
                assert(lt(b[0], b[j + 1]));
                assert(a.contains(x));
                let i = choose|i: int| 0 <= i < a.len() && a[i] == x;
                if i == 0 {
                    assert(lt(x, x));
                }
                assert(ta[i - 1] == x);
            }
        }
        assert forall|i: int, j: int| 0 <= i < j < ta.len() implies lt(#[trigger] ta[i], #[trigger] ta[j]) by {
            assert(ta[i] == a[i + 1] && ta[j] == a[j + 1]);
        }
        assert forall|i: int, j: int| 0 <= i < j < tb.len() implies lt(#[trigger] tb[i], #[trigger] tb[j]) by {
            assert(tb[i] == b[i + 1] && tb[j] == b[j + 1]);
        }
        lemma_sorted_unique(ta, tb, lt);
        assert(a =~= seq![a[0]] + ta);
        assert(b =~= seq![b[0]] + tb);
    }
}

proof fn lemma_text_sorted_unique(a: Seq<Seq<char>>, b: Seq<Seq<char>>)
    requires
        strictly_sorted(a),
        strictly_sorted(b),
        forall|x: Seq<char>| #[trigger] a.contains(x) == b.contains(x),
    ensures
        a == b,
{
    let lt = |x: Seq<char>, y: Seq<char>| text_lt(x, y);
    assert forall|x: Seq<char>, y: Seq<char>| #[trigger] lt(x, y) implies !lt(y, x) by {
        crate::keyed::lemma_text_lt_asymmetric(x, y);
    }
    lemma_sorted_unique(a, b, lt);
}

/// A resolution without missing or conflicting capabilities selects exactly
/// one sequence.
proof fn lemma_selection_unique(
    cat: Seq<(Seq<char>, BlueprintModel)>,
    requested: Seq<Seq<char>>,
    s1: Seq<Seq<char>>,
    s2: Seq<Seq<char>>,
)
    requires
        resolves(cat, requested, s1, Seq::empty(), Seq::empty()),
        resolves(cat, requested, s2, Seq::empty(), Seq::empty()),
    ensures
        s1 == s2,
{
    let t1 = Set::new(|c: Seq<char>| s1.contains(c));
    let t2 = Set::new(|c: Seq<char>| s2.contains(c));
    assert(crate::capability::covers(requested, t2));
    assert(crate::capability::closed_under_requires(cat, t2));
    assert(crate::capability::covers(requested, t1));
    assert(crate::capability::closed_under_requires(cat, t1));
    assert forall|x: Seq<char>| #[trigger] s1.contains(x) == s2.contains(x) by {
        if s1.contains(x) {
            assert(t2.contains(x));
        }
        if s2.contains(x) {
            assert(t1.contains(x));
        }
    }
    lemma_text_sorted_unique(s1, s2);
}

/// A merge of the same contributions with the same provenance is unique.
proof fn lemma_merge_unique(
    ts: Seq<(TemplateModel, Seq<char>)>,
    summary: Seq<char>,
    intent: Seq<char>,
    reqs: Seq<Seq<char>>,
    r1: Seq<DesiredModel>,
    r2: Seq<DesiredModel>,
)
    requires
        clash_free(attributes_of(ts)),
        merged(ts, summary, intent, reqs, r1),
        merged(ts, summary, intent, reqs, r2),
    ensures
        r1 == r2,
{
    let ev = attributes_of(ts);
    let m1 = r1.map_values(|d: DesiredModel| model_route(d));
    let m2 = r2.map_values(|d: DesiredModel| model_route(d));
    let lt = |x: Route, y: Route| route_lt(x, y);
    assert forall|x: Route, y: Route| #[trigger] lt(x, y) implies !lt(y, x) by {
        if route_lt(y, x) {
            lemma_route_lt_transitive(x, y, x);
            lemma_route_lt_irreflexive(x);
        }
    }
    assert forall|i: int, j: int| 0 <= i < j < m1.len() implies lt(#[trigger] m1[i], #[trigger] m1[j]) by {
        assert(route_lt(model_route(r1[i]), model_route(r1[j])));
    }
    assert forall|i: int, j: int| 0 <= i < j < m2.len() implies lt(#[trigger] m2[i], #[trigger] m2[j]) by {
        assert(route_lt(model_route(r2[i]), model_route(r2[j])));
    }
    assert forall|x: Route| #[trigger] m1.contains(x) == m2.contains(x) by {
        if m1.contains(x) {
            let i = choose|i: int| 0 <= i < m1.len() && m1[i] == x;
            assert(has_route(r1, x));
            assert(contributes_route(ts, x));
            assert(has_route(r2, x));
            let j = choose|j: int| 0 <= j < r2.len() && #[trigger] model_route(r2[j]) == x;
            assert(m2[j] == x);
        }
        if m2.contains(x) {
            let i = choose|i: int| 0 <= i < m2.len() && m2[i] == x;
            assert(has_route(r2, x));
            assert(contributes_route(ts, x));
            assert(has_route(r1, x));
            let j = choose|j: int| 0 <= j < r1.len() && #[trigger] model_route(r1[j]) == x;
            assert(m1[j] == x);
        }
    }
    lemma_sorted_unique(m1, m2, lt);
    assert(r1.len() == r2.len());
    assert forall|i: int| 0 <= i < r1.len() implies r1[i] == r2[i] by {
        let d1 = r1[i];
        let d2 = r2[i];
        assert(m1[i] == m2[i]);
        let x = model_route(d1);
        assert(resource_from(ts, summary, intent, reqs, d1));
        assert(resource_from(ts, summary, intent, reqs, d2));
        assert forall|a: Seq<char>| #[trigger] lookup(d1.state, a) == lookup(d2.state, a) by {
            if lookup(d1.state, a) is Some {
                assert(ev.contains((x, a, lookup(d1.state, a)->0)));
            }
            if lookup(d2.state, a) is Some {
                assert(ev.contains((x, a, lookup(d2.state, a)->0)));
            }
        }
        crate::keyed::lemma_sorted_ext(d1.state, d2.state);
        assert forall|c: Seq<char>| #[trigger] d1.reason.capability_ids.contains(c)
            == d2.reason.capability_ids.contains(c) by {
            assert(d1.reason.capability_ids.contains(c) == contributes_capability(ts, x, c));
            assert(d2.reason.capability_ids.contains(c) == contributes_capability(ts, x, c));
        }
        lemma_text_sorted_unique(d1.reason.capability_ids, d2.reason.capability_ids);
        assert(d1.reason == d2.reason);
    }
    assert(r1 =~= r2);
}

/// Compilation is deterministic: two successful compilations of the same
/// intent against the same catalog and request select the same
/// capabilities and give the same desired resources and warnings.
pub proof fn law_compilation_is_deterministic(
    intent: Intent,
    cat: Seq<(Seq<char>, BlueprintModel)>,
    requested: Seq<Seq<char>>,
    p1: IntentPlan,
    p2: IntentPlan,
)
    requires
        compile_outcome(intent, cat, requested, Ok(p1)),
        compile_outcome(intent, cat, requested, Ok(p2)),
    ensures
        texts(p1.capability_resolution.selected@) == texts(p2.capability_resolution.selected@),
        desired_models(p1.desired_state.resources@) == desired_models(p2.desired_state.resources@),
        views(p1.warnings@) == views(p2.warnings@),
        p1.intent_id@ == p2.intent_id@,
{
    let s1 = texts(p1.capability_resolution.selected@);
    let s2 = texts(p2.capability_resolution.selected@);
    assert(pair_texts(p1.capability_resolution.conflicts@) =~= Seq::<(Seq<char>, Seq<char>)>::empty());
    assert(texts(p1.capability_resolution.missing@) =~= Seq::<Seq<char>>::empty());
    assert(pair_texts(p2.capability_resolution.conflicts@) =~= Seq::<(Seq<char>, Seq<char>)>::empty());
    assert(texts(p2.capability_resolution.missing@) =~= Seq::<Seq<char>>::empty());
    lemma_selection_unique(cat, requested, s1, s2);
    let ts = contributions(cat, s1);
    lemma_merge_unique(
        ts,
        intent.statement@,
        intent.id@,
        requirement_texts(intent.requirements@),
        desired_models(p1.desired_state.resources@),
        desired_models(p2.desired_state.resources@),
    );
    let w1 = views(p1.warnings@);
    let w2 = views(p2.warnings@);
    assert forall|m: Seq<char>| #[trigger] w1.contains(m) == w2.contains(m) by {
        assert(w1.contains(m) == exists|c: Seq<char>| #[trigger]
            s1.contains(c) && silent(cat, c) && m == warning_text(c));
        assert(w2.contains(m) == exists|c: Seq<char>| #[trigger]
            s2.contains(c) && silent(cat, c) && m == warning_text(c));
    }
    lemma_text_sorted_unique(w1, w2);
}

} // verus!
