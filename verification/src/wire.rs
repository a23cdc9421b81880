//! The tuple encoding of planning requests, previews and reviews on the
//! message bus, and the decoders that refuse malformed or inconsistent
//! values.
use vstd::prelude::*;

use crate::base::{reason_fault, Actor, ActorKind, ReasonModel, RiskClass, SemanticReason, risk_rank};
use crate::ids::{
    texts, token_error, validation_message, ActorId, CapabilityId, IntentId, PlanId, PolicyId,
    PolicyRevisionId, PrincipalId, ProviderId, RequestId, RequirementId, ResourceId, TextId,
};
use crate::keyed::{lookup, sorted_keys, TextMap};
use crate::graph::pairs_lookup;
use crate::planner::{
    any_blocker, level_name, status_name, views, PlanFinding, PlanFindingLevel, PlanModel,
    PlanStatus, StateChange,
};
use crate::policy::{approval_class_name, required_class, ApprovalClass};
use crate::preview::{MAX_DESIRED_ATTRIBUTES, MAX_ORIGINS_PER_KIND, MAX_SUMMARY_BYTES, MAX_TOTAL_ORIGINS};
use crate::protocol::{
    decision_name, PlanDesiredStateRequest, PlanPreview, PlanReview, PlanReviewDecision,
    RequestModel, ReviewModel,
};
use crate::text::{
    append_str, byte_len, contains_control, debug_quote, debug_quoted, has_control, is_blank,
    is_blank_seq, owned, str_eq, utf8_len,
};

verus! {

pub type PlanRequestRouteWire = (String, String, String, String);

pub type PlanReasonWire = (String, Vec<String>, Vec<String>, Vec<String>);

pub type PlanRequestWire = (PlanRequestRouteWire, PlanReasonWire, Vec<(String, String)>);

/// The texts of a reason on the wire.
pub open spec fn reason_texts(w: PlanReasonWire) -> ReasonModel {
    ReasonModel {
        summary: w.0@,
        intent_ids: views(w.1@),
        requirement_ids: views(w.2@),
        capability_ids: views(w.3@),
    }
}

/// A summary within transport bounds: at most 4 KiB and no control characters.
pub open spec fn summary_in_bounds(w: PlanReasonWire) -> bool {
    utf8_len(w.0@) <= MAX_SUMMARY_BYTES && !has_control(w.0@)
}

/// Origins within transport bounds: at most 64 of each kind, 128 in all.
pub open spec fn origins_in_bounds(w: PlanReasonWire) -> bool {
    w.1@.len() <= MAX_ORIGINS_PER_KIND && w.2@.len() <= MAX_ORIGINS_PER_KIND && w.3@.len()
        <= MAX_ORIGINS_PER_KIND && w.1@.len() + w.2@.len() + w.3@.len() <= MAX_TOTAL_ORIGINS
}

/// The message of the first text that is not a token, as an identifier
/// with this label reports it.
pub open spec fn first_bad_id(vals: Seq<Seq<char>>, label: &'static str) -> Option<Seq<char>>
    decreases vals.len(),
{
    if vals.len() == 0 {
        None
    } else {
        match token_error(label, vals[0]) {
            Some(e) => Some(validation_message(e)),
            None => first_bad_id(vals.drop_first(), label),
        }
    }
}

/// The first fault of the identifiers of a reason on the wire, then of the
/// reason they make.
pub open spec fn reason_wire_fault(w: PlanReasonWire) -> Option<Seq<char>> {
    if first_bad_id(views(w.1@), "intent id") is Some {
        first_bad_id(views(w.1@), "intent id")
    } else if first_bad_id(views(w.2@), "requirement id") is Some {
        first_bad_id(views(w.2@), "requirement id")
    } else if first_bad_id(views(w.3@), "capability id") is Some {
        first_bad_id(views(w.3@), "capability id")
    } else {
        match reason_fault(reason_texts(w)) {
            Some(e) => Some(validation_message(e)),
            None => None,
        }
    }
}

/// The key of the first pair whose key an earlier pair already has.
pub open spec fn first_duplicate(pairs: Seq<(Seq<char>, Seq<char>)>, from: int) -> Option<Seq<char>>
    decreases pairs.len() - from,
{
    if from < 0 || from >= pairs.len() {
        None
    } else if exists|j: int| 0 <= j < from && #[trigger] pairs[j].0 == pairs[from].0 {
        Some(pairs[from].0)
    } else {
        first_duplicate(pairs, from + 1)
    }
}

/// The message of a token fault of a route text, if any.
pub open spec fn route_fault(label: &'static str, s: Seq<char>) -> Option<Seq<char>> {
    match token_error(label, s) {
        Some(e) => Some(validation_message(e)),
        None => None,
    }
}

/// The first rule a request on the wire breaks, as its message.
pub open spec fn request_wire_fault(w: PlanRequestWire) -> Option<Seq<char>> {
    if !summary_in_bounds(w.1) {
        Some("plan request semantic summary violates transport bounds"@)
    } else if !origins_in_bounds(w.1) {
        Some("plan request semantic origins violate transport bounds"@)
    } else if w.2@.len() == 0 || w.2@.len() > MAX_DESIRED_ATTRIBUTES {
        Some("plan request desired-state count violates transport bounds"@)
    } else if reason_wire_fault(w.1) is Some {
        reason_wire_fault(w.1)
    } else if first_duplicate(views(w.2@), 0) is Some {
        Some("desired state contains duplicate attribute "@ + debug_quoted(first_duplicate(views(w.2@), 0)->0))
    } else if route_fault("request id", w.0.0@) is Some {
        route_fault("request id", w.0.0@)
    } else if route_fault("provider id", w.0.1@) is Some {
        route_fault("provider id", w.0.1@)
    } else if route_fault("resource id", w.0.2@) is Some {
        route_fault("resource id", w.0.2@)
    } else {
        route_fault("capability id", w.0.3@)
    }
}

/// What a request on the wire decodes to: its texts, with the desired
/// state holding for each key the value of its pair.
pub open spec fn decodes_request(w: PlanRequestWire, m: RequestModel) -> bool {
    &&& m.request_id == w.0.0@
    &&& m.provider == w.0.1@
    &&& m.resource == w.0.2@
    &&& m.capability == w.0.3@
    &&& m.reason == reason_texts(w.1)
    &&& sorted_keys(m.desired)
    &&& m.desired.len() == w.2@.len()
    &&& forall|k: Seq<char>| #[trigger] lookup(m.desired, k) == pairs_lookup(views(w.2@), k)
}

/// What a request encodes to.
pub open spec fn encodes_request(w: PlanRequestWire, m: RequestModel) -> bool {
    &&& w.0.0@ == m.request_id
    &&& w.0.1@ == m.provider
    &&& w.0.2@ == m.resource
    &&& w.0.3@ == m.capability
    &&& reason_texts(w.1) == m.reason
    &&& views(w.2@) == m.desired
}

/// The texts of identifiers, as owned strings.
fn id_strings<T: TextId>(ids: &Vec<T>) -> (r: Vec<String>)
    ensures
        views(r@) == texts(ids@),
{
    let mut out: Vec<String> = Vec::new();
    let mut i: usize = 0;
    while i < ids.len()
        invariant
            i <= ids@.len(),
            views(out@) == texts(ids@.take(i as int)),
        decreases ids@.len() - i,
    {
        let ghost before = views(out@);
        out.push(owned(ids[i].text_of()));
        assert(views(out@) =~= before.push(ids@[i as int]@));
        assert(texts(ids@.take(i + 1)) =~= texts(ids@.take(i as int)).push(ids@[i as int]@));
        i = i + 1;
    }
    assert(ids@.take(i as int) =~= ids@);
    out
}

/// Parses identifiers in order, stopping at the first that is not a token.
fn parse_ids<T: TextId>(values: &Vec<String>) -> (r: Result<Vec<T>, String>)
    ensures
        match r {
            Ok(ids) => first_bad_id(views(values@), T::label()) is None && texts(ids@) == views(values@),
            Err(m) => first_bad_id(views(values@), T::label()) == Some(m@),
        },
{
    let mut out: Vec<T> = Vec::new();
    let mut i: usize = 0;
    assert(views(values@).skip(0) =~= views(values@));
    assert(texts(out@) =~= views(values@).take(0));
    while i < values.len()
        invariant
            i <= values@.len(),
            texts(out@) == views(values@).take(i as int),
            first_bad_id(views(values@), T::label()) == first_bad_id(views(values@).skip(i as int), T::label()),
        decreases values@.len() - i,
    {
        let ghost rest = views(values@).skip(i as int);
        assert(rest[0] == values@[i as int]@);
        assert(rest.drop_first() =~= views(values@).skip(i + 1));
        match T::parse_text(values[i].as_str()) {
            Ok(id) => {
                let ghost before = texts(out@);
                out.push(id);
                assert(texts(out@) =~= before.push(values@[i as int]@));
                assert(views(values@).take(i + 1) =~= views(values@).take(i as int).push(values@[i as int]@));
            },
            Err(e) => {
                return Err(e.message());
            },
        }
        i = i + 1;
    }
    assert(views(values@).skip(i as int) =~= Seq::<Seq<char>>::empty());
    assert(views(values@).take(i as int) =~= views(values@));
    Ok(out)
}

/// Decodes the identifiers of a reason and checks the reason they make.
fn reason_from_wire(w: &PlanReasonWire) -> (r: Result<SemanticReason, String>)
    ensures
        match r {
            Ok(reason) => reason_wire_fault(*w) is None && reason@ == reason_texts(*w),
            Err(m) => reason_wire_fault(*w) == Some(m@),
        },
{
    let intent_ids = match parse_ids::<IntentId>(&w.1) {
        Ok(ids) => ids,
        Err(m) => {
            return Err(m);
        },
    };
    let requirement_ids = match parse_ids::<RequirementId>(&w.2) {
        Ok(ids) => ids,
        Err(m) => {
            return Err(m);
        },
    };
    let capability_ids = match parse_ids::<CapabilityId>(&w.3) {
        Ok(ids) => ids,
        Err(m) => {
            return Err(m);
        },
    };
    let reason = SemanticReason {
        summary: w.0.clone(),
        intent_ids,
        requirement_ids,
        capability_ids,
    };
    match reason.validate() {
        Err(e) => Err(e.message()),
        Ok(()) => Ok(reason),
    }
}

/// Whether a summary is within transport bounds.
fn summary_ok(w: &PlanReasonWire) -> (r: bool)
    ensures
        r == summary_in_bounds(*w),
{
    !(byte_len(w.0.as_str()) > MAX_SUMMARY_BYTES || contains_control(w.0.as_str()))
}

/// Whether origins are within transport bounds.
fn origins_ok(w: &PlanReasonWire) -> (r: bool)
    ensures
        r == origins_in_bounds(*w),
{
    !(w.1.len() > MAX_ORIGINS_PER_KIND || w.2.len() > MAX_ORIGINS_PER_KIND || w.3.len()
        > MAX_ORIGINS_PER_KIND || w.1.len() + w.2.len() + w.3.len() > MAX_TOTAL_ORIGINS)
}

/// The last pair with a key decides what it finds; a key finds a value
/// exactly when some pair has it.
proof fn lemma_pairs_lookup_some(pairs: Seq<(Seq<char>, Seq<char>)>, k: Seq<char>)
    ensures
        pairs_lookup(pairs, k) is Some <==> exists|j: int| 0 <= j < pairs.len() && #[trigger] pairs[j].0 == k,
    decreases pairs.len(),
{
    if pairs.len() > 0 {
        let p = pairs.drop_last();
        lemma_pairs_lookup_some(p, k);
        if exists|j: int| 0 <= j < pairs.len() && #[trigger] pairs[j].0 == k {
            let j = choose|j: int| 0 <= j < pairs.len() && #[trigger] pairs[j].0 == k;
            if j < pairs.len() - 1 {
                assert(p[j].0 == k);
            }
        }
        if exists|j: int| 0 <= j < p.len() && #[trigger] p[j].0 == k {
            let j = choose|j: int| 0 <= j < p.len() && #[trigger] p[j].0 == k;
            assert(pairs[j].0 == k);
        }
    }
}

/// Builds the desired state from pairs, refusing the first duplicated key.
fn desired_from_pairs(pairs: &Vec<(String, String)>) -> (r: Result<TextMap<String>, String>)
    ensures
        match r {
            Ok(m) => first_duplicate(views(pairs@), 0) is None && sorted_keys(m@) && m@.len()
                == pairs@.len() && forall|k: Seq<char>|
                #[trigger] lookup(m@, k) == pairs_lookup(views(pairs@), k),
            Err(msg) => first_duplicate(views(pairs@), 0) matches Some(key) && msg@
                == "desired state contains duplicate attribute "@ + debug_quoted(key),
        },
{
    let ghost all = views(pairs@);
    let mut m: TextMap<String> = TextMap::new();
    let mut i: usize = 0;
    while i < pairs.len()
        invariant
            i <= pairs@.len(),
            all == views(pairs@),
            sorted_keys(m@),
            m@.len() == i,
            forall|k: Seq<char>| #[trigger] lookup(m@, k) == pairs_lookup(all.take(i as int), k),
            first_duplicate(all, 0) == first_duplicate(all, i as int),
        decreases pairs@.len() - i,
    {
        let key = pairs[i].0.clone();
        let value = pairs[i].1.clone();
        let ghost before = m@;
        let ghost prefix = all.take(i as int);
        proof {
            lemma_pairs_lookup_some(prefix, key@);
            assert(all[i as int].0 == key@);
        }
        let quoted = debug_quote(key.as_str());
        match m.insert(key, value) {
            Some(_) => {
                proof {
                    let j = choose|j: int| 0 <= j < prefix.len() && #[trigger] prefix[j].0 == key@;
                    assert(all[j].0 == all[i as int].0);
                }
                let mut msg = owned("desired state contains duplicate attribute ");
                append_str(&mut msg, quoted.as_str());
                return Err(msg);
            },
            None => {
                proof {
                    assert forall|j: int| 0 <= j < i implies #[trigger] all[j].0 != all[i as int].0 by {
                        if all[j].0 == all[i as int].0 {
                            assert(prefix[j].0 == key@);
                        }
                    }
                    let next = all.take(i + 1);
                    assert(next.drop_last() =~= prefix);
                    assert(next.last() == all[i as int]);
                }
            },
        }
        i = i + 1;
    }
    assert(all.take(i as int) =~= all);
    Ok(m)
}

/// The wire form of a planning request.
pub fn plan_request_wire(request: &PlanDesiredStateRequest) -> (r: PlanRequestWire)
    ensures
        encodes_request(r, request@),
{
    let mut pairs: Vec<(String, String)> = Vec::new();
    let n = request.desired_state.len();
    let mut i: usize = 0;
    while i < n
        invariant
            i <= n,
            n == request.desired_state@.len(),
            views(pairs@) == request.desired_state@.take(i as int),
        decreases n - i,
    {
        let ghost before = views(pairs@);
        pairs.push((request.desired_state.key_at(i).clone(), request.desired_state.value_at(i).clone()));
        assert(views(pairs@) =~= before.push(request.desired_state@[i as int]));
        assert(request.desired_state@.take(i + 1) =~= request.desired_state@.take(i as int).push(request.desired_state@[i as int]));
        i = i + 1;
    }
    assert(request.desired_state@.take(i as int) =~= request.desired_state@);
    (
        (
            owned(request.request_id.as_str()),
            owned(request.provider.as_str()),
            owned(request.resource.as_str()),
            owned(request.observation_capability.as_str()),
        ),
        (
            request.reason.summary.clone(),
            id_strings(&request.reason.intent_ids),
            id_strings(&request.reason.requirement_ids),
            id_strings(&request.reason.capability_ids),
        ),
        pairs,
    )
}

/// Decodes a planning request, refusing malformed values and values
/// outside transport bounds; the first rule broken is reported.
pub fn plan_request_from_wire(wire: PlanRequestWire) -> (r: Result<PlanDesiredStateRequest, String>)
    ensures
        match r {
            Ok(req) => request_wire_fault(wire) is None && decodes_request(wire, req@),
            Err(m) => request_wire_fault(wire) == Some(m@),
        },
{
    if !summary_ok(&wire.1) {
        return Err(owned("plan request semantic summary violates transport bounds"));
    }
    if !origins_ok(&wire.1) {
        return Err(owned("plan request semantic origins violate transport bounds"));
    }
    if wire.2.len() == 0 || wire.2.len() > MAX_DESIRED_ATTRIBUTES {
        return Err(owned("plan request desired-state count violates transport bounds"));
    }
    let reason = match reason_from_wire(&wire.1) {
        Ok(reason) => reason,
        Err(m) => {
            return Err(m);
        },
    };
    let desired_state = match desired_from_pairs(&wire.2) {
        Ok(m) => m,
        Err(m) => {
            return Err(m);
        },
    };
    let request_id = match RequestId::new(wire.0.0.as_str()) {
        Ok(id) => id,
        Err(e) => {
            return Err(e.message());
        },
    };
    let provider = match ProviderId::new(wire.0.1.as_str()) {
        Ok(id) => id,
        Err(e) => {
            return Err(e.message());
        },
    };
    let resource = match ResourceId::new(wire.0.2.as_str()) {
        Ok(id) => id,
        Err(e) => {
            return Err(e.message());
        },
    };
    let observation_capability = match CapabilityId::new(wire.0.3.as_str()) {
        Ok(id) => id,
        Err(e) => {
            return Err(e.message());
        },
    };
    Ok(PlanDesiredStateRequest { request_id, provider, resource, observation_capability, reason, desired_state })
}

/// Decoding the wire form of a request gives the request back: whatever a
/// request encodes to, if it decodes, it decodes to the same request.
pub proof fn law_request_wire_round_trip(m: RequestModel, w: PlanRequestWire, d: RequestModel)
    requires
        sorted_keys(m.desired),
        encodes_request(w, m),
        decodes_request(w, d),
    ensures
        d == m,
{
    assert forall|k: Seq<char>| #[trigger] lookup(d.desired, k) == lookup(m.desired, k) by {
        lemma_sorted_pairs_lookup(m.desired, k);
    }
    crate::keyed::lemma_sorted_ext(d.desired, m.desired);
}

/// A request the transport carries: a summary of at most 4 KiB without
/// control characters, at most 64 origins of each kind and 128 in all, and
/// between one and the maximum number of desired attributes.
pub open spec fn request_in_bounds(m: RequestModel) -> bool {
    &&& utf8_len(m.reason.summary) <= MAX_SUMMARY_BYTES
    &&& !has_control(m.reason.summary)
    &&& m.reason.intent_ids.len() <= MAX_ORIGINS_PER_KIND
    &&& m.reason.requirement_ids.len() <= MAX_ORIGINS_PER_KIND
    &&& m.reason.capability_ids.len() <= MAX_ORIGINS_PER_KIND
    &&& m.reason.intent_ids.len() + m.reason.requirement_ids.len() + m.reason.capability_ids.len()
        <= MAX_TOTAL_ORIGINS
    &&& 0 < m.desired.len() <= MAX_DESIRED_ATTRIBUTES
}

/// A well-formed request: valid identifiers, a valid semantic reason, and
/// desired attributes sorted by distinct keys.
pub open spec fn request_well_formed(m: RequestModel) -> bool {
    &&& crate::ids::valid_token(m.request_id)
    &&& crate::ids::valid_token(m.provider)
    &&& crate::ids::valid_token(m.resource)
    &&& crate::ids::valid_token(m.capability)
    &&& forall|i: int| 0 <= i < m.reason.intent_ids.len() ==> crate::ids::valid_token(#[trigger] m.reason.intent_ids[i])
    &&& forall|i: int| 0 <= i < m.reason.requirement_ids.len() ==> crate::ids::valid_token(
        #[trigger] m.reason.requirement_ids[i],
    )
    &&& forall|i: int| 0 <= i < m.reason.capability_ids.len() ==> crate::ids::valid_token(
        #[trigger] m.reason.capability_ids[i],
    )
    &&& reason_fault(m.reason) is None
    &&& sorted_keys(m.desired)
}

proof fn lemma_no_bad_id(vals: Seq<Seq<char>>, label: &'static str)
    requires
        forall|i: int| 0 <= i < vals.len() ==> crate::ids::valid_token(#[trigger] vals[i]),
    ensures
        first_bad_id(vals, label) is None,
    decreases vals.len(),
{
    if vals.len() > 0 {
        assert(crate::ids::valid_token(vals[0]));
        assert forall|i: int| 0 <= i < vals.drop_first().len() implies crate::ids::valid_token(
            #[trigger] vals.drop_first()[i],
        ) by {
            assert(vals.drop_first()[i] == vals[i + 1]);
        }
        lemma_no_bad_id(vals.drop_first(), label);
    }
}

proof fn lemma_no_duplicate(p: Seq<(Seq<char>, Seq<char>)>, from: int)
    requires
        sorted_keys(p),
        0 <= from,
    ensures
        first_duplicate(p, from) is None,
    decreases p.len() - from,
{
    if from < p.len() {
        assert forall|j: int| 0 <= j < from implies #[trigger] p[j].0 != p[from].0 by {
            if p[j].0 == p[from].0 {
                crate::keyed::lemma_keys_distinct(p, j, from);
            }
        }
        lemma_no_duplicate(p, from + 1);
    }
}

/// The wire form of a well-formed request within transport bounds is
/// accepted: decoding it finds no fault, so it decodes, and by
/// `law_request_wire_round_trip` to the request itself.
pub proof fn law_request_wire_accepts_encoded(m: RequestModel, w: PlanRequestWire)
    requires
        request_well_formed(m),
        request_in_bounds(m),
        encodes_request(w, m),
    ensures
        request_wire_fault(w) is None,
{
    assert(reason_texts(w.1) == m.reason);
    assert(views(w.1.1@) == m.reason.intent_ids);
    assert(views(w.1.2@) == m.reason.requirement_ids);
    assert(views(w.1.3@) == m.reason.capability_ids);
    lemma_no_bad_id(views(w.1.1@), "intent id");
    lemma_no_bad_id(views(w.1.2@), "requirement id");
    lemma_no_bad_id(views(w.1.3@), "capability id");
    lemma_no_duplicate(views(w.2@), 0);
}

proof fn lemma_duplicate_found(pairs: Seq<(Seq<char>, Seq<char>)>, from: int, at: int, j: int)
    requires
        0 <= from <= at < pairs.len(),
        0 <= j < at,
        pairs[j].0 == pairs[at].0,
    ensures
        first_duplicate(pairs, from) is Some,
    decreases at - from,
{
    if !(exists|k: int| 0 <= k < from && #[trigger] pairs[k].0 == pairs[from].0) {
        if from < at {
            lemma_duplicate_found(pairs, from + 1, at, j);
        }
    }
}

/// A request on the wire whose desired state repeats a key is refused:
/// appending a pair whose key already occurs makes any request undecodable.
pub proof fn law_request_wire_refuses_repeated_key(w: PlanRequestWire, w2: PlanRequestWire, k: Seq<char>, v: Seq<char>)
    requires
        w2.0 == w.0,
        w2.1 == w.1,
        views(w2.2@) == views(w.2@).push((k, v)),
        exists|j: int| 0 <= j < views(w.2@).len() && #[trigger] views(w.2@)[j].0 == k,
    ensures
        request_wire_fault(w2) is Some,
{
    let p = views(w2.2@);
    let j = choose|j: int| 0 <= j < views(w.2@).len() && #[trigger] views(w.2@)[j].0 == k;
    assert(p[j] == views(w.2@)[j]);
    assert(p[p.len() - 1] == (k, v));
    lemma_duplicate_found(p, 0, p.len() - 1, j);
}

/// In sorted entries, the last pair with a key is its only pair.
proof fn lemma_sorted_pairs_lookup(p: Seq<(Seq<char>, Seq<char>)>, k: Seq<char>)
    requires
        sorted_keys(p),
    ensures
        pairs_lookup(p, k) == lookup(p, k),
    decreases p.len(),
{
    if p.len() > 0 {
        let q = p.drop_last();
        assert(sorted_keys(q)) by {
            assert forall|a: int, b: int| 0 <= a < b < q.len() implies crate::keyed::text_lt(
                #[trigger] q[a].0,
                #[trigger] q[b].0,
            ) by {
                assert(q[a] == p[a]);
                assert(q[b] == p[b]);
            }
        }
        lemma_sorted_pairs_lookup(q, k);
        if p.last().0 == k {
            crate::keyed::lemma_lookup_at(p, p.len() - 1);
        } else {
            crate::keyed::lemma_has_key_lookup(p, k);
            crate::keyed::lemma_has_key_lookup(q, k);
            if crate::keyed::has_key(p, k) {
                let j = choose|j: int| 0 <= j < p.len() && #[trigger] p[j].0 == k;
                assert(q[j].0 == k);
                crate::keyed::lemma_lookup_at(p, j);
                crate::keyed::lemma_lookup_at(q, j);
            } else {
                if crate::keyed::has_key(q, k) {
                    let j = choose|j: int| 0 <= j < q.len() && #[trigger] q[j].0 == k;
                    assert(p[j].0 == k);
                }
            }
        }
    }
}

pub type PlanIdsWire = (String, String);

pub type PlanActorWire = (String, String, bool);

pub type PlanRouteWire = (String, String, String);

pub type PlanChangeWire = (String, bool, String, String);

pub type PlanFindingWire = (String, String, String);

pub type PlanPreviewWire = (
    PlanIdsWire,
    PlanActorWire,
    PlanRouteWire,
    PlanReasonWire,
    String,
    String,
    String,
    bool,
    Vec<PlanChangeWire>,
    Vec<PlanFindingWire>,
);

pub type PlanReviewPolicyWire = (String, String, String, String, String);

pub type PlanReviewDecisionWire = (String, bool, String, String, bool);

pub type PlanReviewWire = (
    PlanIdsWire,
    String,
    PlanActorWire,
    PlanRouteWire,
    PlanReasonWire,
    String,
    PlanReviewPolicyWire,
    PlanReviewDecisionWire,
    Vec<PlanChangeWire>,
    Vec<PlanFindingWire>,
);

/// The wire name of an actor kind.
pub open spec fn actor_kind_name_spec(k: ActorKind) -> Seq<char> {
    match k {
        ActorKind::Human => "human"@,
        ActorKind::Service => "service"@,
        ActorKind::Agent => "agent"@,
        ActorKind::Remote => "remote"@,
    }
}

/// The actor kind a wire name names.
pub open spec fn actor_kind_of(s: Seq<char>) -> Option<ActorKind> {
    if s == "human"@ {
        Some(ActorKind::Human)
    } else if s == "service"@ {
        Some(ActorKind::Service)
    } else if s == "agent"@ {
        Some(ActorKind::Agent)
    } else if s == "remote"@ {
        Some(ActorKind::Remote)
    } else {
        None
    }
}

/// The wire name of an actor kind.
pub fn actor_kind_name(kind: ActorKind) -> (r: &'static str)
    ensures
        r@ == actor_kind_name_spec(kind),
{
    match kind {
        ActorKind::Human => "human",
        ActorKind::Service => "service",
        ActorKind::Agent => "agent",
        ActorKind::Remote => "remote",
    }
}

/// Reads an actor kind from its wire name.
pub fn parse_actor_kind(value: &str) -> (r: Result<ActorKind, String>)
    ensures
        match r {
            Ok(k) => actor_kind_of(value@) == Some(k),
            Err(m) => actor_kind_of(value@) is None && m@ == "unknown actor kind "@ + debug_quoted(value@),
        },
{
    if str_eq(value, "human") {
        Ok(ActorKind::Human)
    } else if str_eq(value, "service") {
        Ok(ActorKind::Service)
    } else if str_eq(value, "agent") {
        Ok(ActorKind::Agent)
    } else if str_eq(value, "remote") {
        Ok(ActorKind::Remote)
    } else {
        let mut m = owned("unknown actor kind ");
        append_str(&mut m, debug_quote(value).as_str());
        Err(m)
    }
}

/// The wire name of a risk class.
pub open spec fn risk_name_spec(r: RiskClass) -> Seq<char> {
    match r {
        RiskClass::ReadOnly => "read-only"@,
        RiskClass::UserState => "user-state"@,
        RiskClass::SystemMutation => "system-mutation"@,
        RiskClass::SecuritySensitive => "security-sensitive"@,
        RiskClass::Destructive => "destructive"@,
    }
}

/// The risk class a wire name names.
pub open spec fn risk_of(s: Seq<char>) -> Option<RiskClass> {
    if s == "read-only"@ {
        Some(RiskClass::ReadOnly)
    } else if s == "user-state"@ {
        Some(RiskClass::UserState)
    } else if s == "system-mutation"@ {
        Some(RiskClass::SystemMutation)
    } else if s == "security-sensitive"@ {
        Some(RiskClass::SecuritySensitive)
    } else if s == "destructive"@ {
        Some(RiskClass::Destructive)
    } else {
        None
    }
}

/// The wire name of a risk class.
pub fn risk_name(risk: RiskClass) -> (r: &'static str)
    ensures
        r@ == risk_name_spec(risk),
{
    match risk {
        RiskClass::ReadOnly => "read-only",
        RiskClass::UserState => "user-state",
        RiskClass::SystemMutation => "system-mutation",
        RiskClass::SecuritySensitive => "security-sensitive",
        RiskClass::Destructive => "destructive",
    }
}

/// Reads a risk class from its wire name.
pub fn parse_risk(value: &str) -> (r: Result<RiskClass, String>)
    ensures
        match r {
            Ok(k) => risk_of(value@) == Some(k),
            Err(m) => risk_of(value@) is None && m@ == "unknown plan risk "@ + debug_quoted(value@),
        },
{
    if str_eq(value, "read-only") {
        Ok(RiskClass::ReadOnly)
    } else if str_eq(value, "user-state") {
        Ok(RiskClass::UserState)
    } else if str_eq(value, "system-mutation") {
        Ok(RiskClass::SystemMutation)
    } else if str_eq(value, "security-sensitive") {
        Ok(RiskClass::SecuritySensitive)
    } else if str_eq(value, "destructive") {
        Ok(RiskClass::Destructive)
    } else {
        let mut m = owned("unknown plan risk ");
        append_str(&mut m, debug_quote(value).as_str());
        Err(m)
    }
}

/// The plan status a wire name names.
pub open spec fn status_of(s: Seq<char>) -> Option<PlanStatus> {
    if s == "no-change"@ {
        Some(PlanStatus::NoChange)
    } else if s == "change-proposed"@ {
        Some(PlanStatus::ChangeProposed)
    } else if s == "blocked"@ {
        Some(PlanStatus::Blocked)
    } else {
        None
    }
}

/// Reads a plan status from its wire name.
pub fn parse_status(value: &str) -> (r: Result<PlanStatus, String>)
    ensures
        match r {
            Ok(k) => status_of(value@) == Some(k),
            Err(m) => status_of(value@) is None && m@ == "unknown plan preview status "@
                + debug_quoted(value@),
        },
{
    if str_eq(value, "no-change") {
        Ok(PlanStatus::NoChange)
    } else if str_eq(value, "change-proposed") {
        Ok(PlanStatus::ChangeProposed)
    } else if str_eq(value, "blocked") {
        Ok(PlanStatus::Blocked)
    } else {
        let mut m = owned("unknown plan preview status ");
        append_str(&mut m, debug_quote(value).as_str());
        Err(m)
    }
}

/// The finding level a wire name names.
pub open spec fn level_of(s: Seq<char>) -> Option<PlanFindingLevel> {
    if s == "pass"@ {
        Some(PlanFindingLevel::Pass)
    } else if s == "warning"@ {
        Some(PlanFindingLevel::Warning)
    } else if s == "blocker"@ {
        Some(PlanFindingLevel::Blocker)
    } else {
        None
    }
}

/// Reads a finding level from its wire name.
pub fn parse_finding_level(value: &str) -> (r: Result<PlanFindingLevel, String>)
    ensures
        match r {
            Ok(k) => level_of(value@) == Some(k),
            Err(m) => level_of(value@) is None && m@ == "unknown plan finding level "@
                + debug_quoted(value@),
        },
{
    if str_eq(value, "pass") {
        Ok(PlanFindingLevel::Pass)
    } else if str_eq(value, "warning") {
        Ok(PlanFindingLevel::Warning)
    } else if str_eq(value, "blocker") {
        Ok(PlanFindingLevel::Blocker)
    } else {
        let mut m = owned("unknown plan finding level ");
        append_str(&mut m, debug_quote(value).as_str());
        Err(m)
    }
}

/// The review decision a wire name names.
pub open spec fn decision_of(s: Seq<char>) -> Option<PlanReviewDecision> {
    if s == "allow"@ {
        Some(PlanReviewDecision::Allow)
    } else if s == "deny"@ {
        Some(PlanReviewDecision::Deny)
    } else if s == "require-approval"@ {
        Some(PlanReviewDecision::RequireApproval)
    } else if s == "blocked"@ {
        Some(PlanReviewDecision::Blocked)
    } else {
        None
    }
}

/// Reads a review decision from its wire name.
pub fn parse_review_decision(value: &str) -> (r: Result<PlanReviewDecision, String>)
    ensures
        match r {
            Ok(k) => decision_of(value@) == Some(k),
            Err(m) => decision_of(value@) is None && m@ == "unknown plan review decision "@
                + debug_quoted(value@),
        },
{
    if str_eq(value, "allow") {
        Ok(PlanReviewDecision::Allow)
    } else if str_eq(value, "deny") {
        Ok(PlanReviewDecision::Deny)
    } else if str_eq(value, "require-approval") {
        Ok(PlanReviewDecision::RequireApproval)
    } else if str_eq(value, "blocked") {
        Ok(PlanReviewDecision::Blocked)
    } else {
        let mut m = owned("unknown plan review decision ");
        append_str(&mut m, debug_quote(value).as_str());
        Err(m)
    }
}

/// The approval class a wire name names.
pub open spec fn approval_class_of(s: Seq<char>) -> Option<ApprovalClass> {
    if s == "interactive-user"@ {
        Some(ApprovalClass::InteractiveUser)
    } else if s == "administrator"@ {
        Some(ApprovalClass::Administrator)
    } else if s == "destructive-action"@ {
        Some(ApprovalClass::DestructiveAction)
    } else {
        None
    }
}

/// Reads an approval class from its wire name.
pub fn parse_review_approval_class(value: &str) -> (r: Result<ApprovalClass, String>)
    ensures
        match r {
            Ok(k) => approval_class_of(value@) == Some(k),
            Err(m) => approval_class_of(value@) is None && m@ == "unknown plan review approval class "@
                + debug_quoted(value@),
        },
{
    if str_eq(value, "interactive-user") {
        Ok(ApprovalClass::InteractiveUser)
    } else if str_eq(value, "administrator") {
        Ok(ApprovalClass::Administrator)
    } else if str_eq(value, "destructive-action") {
        Ok(ApprovalClass::DestructiveAction)
    } else {
        let mut m = owned("unknown plan review approval class ");
        append_str(&mut m, debug_quote(value).as_str());
        Err(m)
    }
}

/// A change on the wire: key, whether there is a current value, the
/// current value or empty, and the desired value.
pub type ChangeWireModel = (Seq<char>, bool, Seq<char>, Seq<char>);

/// A finding on the wire: code, level name, message.
pub type FindingWireModel = (Seq<char>, Seq<char>, Seq<char>);

/// Why a change on the wire is refused, given the changes before it.
pub open spec fn change_fault(c: ChangeWireModel, earlier: Seq<ChangeWireModel>) -> Option<Seq<char>> {
    if is_blank_seq(c.0) || utf8_len(c.0) > 256 || has_control(c.0) || (exists|j: int|
        0 <= j < earlier.len() && #[trigger] earlier[j].0 == c.0) {
        Some("plan preview contains invalid or duplicate change key "@ + debug_quoted(c.0))
    } else if utf8_len(c.3) > 4096 || has_control(c.3) {
        Some("plan preview contains invalid desired value for "@ + debug_quoted(c.0))
    } else if !c.1 && c.2.len() > 0 {
        Some("plan preview supplied a current value for "@ + debug_quoted(c.0)
            + " while has_current=false"@)
    } else {
        None
    }
}

/// The first refused change from position `i` on.
pub open spec fn first_change_fault(cs: Seq<ChangeWireModel>, i: int) -> Option<Seq<char>>
    decreases cs.len() - i,
{
    if i < 0 || i >= cs.len() {
        None
    } else {
        match change_fault(cs[i], cs.take(i)) {
            Some(m) => Some(m),
            None => first_change_fault(cs, i + 1),
        }
    }
}

/// A change as decoded from the wire.
pub open spec fn decoded_change(c: ChangeWireModel) -> (Seq<char>, Option<Seq<char>>, Seq<char>) {
    (c.0, if c.1 {
        Some(c.2)
    } else {
        None
    }, c.3)
}

/// Changes as decoded from the wire.
pub open spec fn decoded_changes(cs: Seq<ChangeWireModel>) -> Seq<(Seq<char>, Option<Seq<char>>, Seq<char>)> {
    cs.map_values(|c: ChangeWireModel| decoded_change(c))
}

/// A change as encoded on the wire.
pub open spec fn encoded_change(c: (Seq<char>, Option<Seq<char>>, Seq<char>)) -> ChangeWireModel {
    (c.0, c.1 is Some, match c.1 {
        Some(v) => v,
        None => Seq::empty(),
    }, c.2)
}

/// Why a finding on the wire is refused.
pub open spec fn finding_fault(f: FindingWireModel) -> Option<Seq<char>> {
    if is_blank_seq(f.0) || utf8_len(f.0) > 256 || has_control(f.0) || is_blank_seq(f.2)
        || utf8_len(f.2) > 16384 || has_control(f.2) {
        Some("plan preview contains an invalid finding"@)
    } else if level_of(f.1) is None {
        Some("unknown plan finding level "@ + debug_quoted(f.1))
    } else {
        None
    }
}

/// The first refused finding from position `i` on.
pub open spec fn first_finding_fault(fs: Seq<FindingWireModel>, i: int) -> Option<Seq<char>>
    decreases fs.len() - i,
{
    if i < 0 || i >= fs.len() {
        None
    } else {
        match finding_fault(fs[i]) {
            Some(m) => Some(m),
            None => first_finding_fault(fs, i + 1),
        }
    }
}

/// Findings as decoded from the wire.
pub open spec fn decoded_findings(fs: Seq<FindingWireModel>) -> Seq<(Seq<char>, PlanFindingLevel, Seq<char>)> {
    fs.map_values(|f: FindingWireModel| (f.0, level_of(f.1)->0, f.2))
}

/// Why the status disagrees with the changes, the risk or the blockers.
pub open spec fn preview_status_fault(
    status: PlanStatus,
    risk: RiskClass,
    change_count: nat,
    blocked: bool,
) -> Option<Seq<char>> {
    match status {
        PlanStatus::NoChange => if change_count > 0 || risk != RiskClass::ReadOnly || blocked {
            Some("no-change preview violates change/risk/blocker invariants"@)
        } else {
            None
        },
        PlanStatus::ChangeProposed => if change_count == 0 || risk == RiskClass::ReadOnly
            || blocked {
            Some("change-proposed preview violates change/risk/blocker invariants"@)
        } else {
            None
        },
        PlanStatus::Blocked => if !blocked {
            Some("blocked preview does not contain a blocker finding"@)
        } else {
            None
        },
    }
}

/// The first rule the head of a preview on the wire breaks: executability,
/// transport bounds, the reason, the evidence id, and the plan and request ids.
pub open spec fn preview_head_fault(w: PlanPreviewWire) -> Option<Seq<char>> {
    if w.7 {
        Some("Control1 returned an executable preview, which v0.2.0 forbids"@)
    } else if !summary_in_bounds(w.3) {
        Some("plan preview semantic summary violates transport bounds"@)
    } else if !origins_in_bounds(w.3) {
        Some("plan preview semantic origins violate transport bounds"@)
    } else if w.8@.len() > MAX_DESIRED_ATTRIBUTES {
        Some("plan preview contains too many state changes"@)
    } else if w.9@.len() == 0 || w.9@.len() > MAX_DESIRED_ATTRIBUTES + 16 {
        Some("plan preview finding count violates transport bounds"@)
    } else if reason_wire_fault(w.3) is Some {
        reason_wire_fault(w.3)
    } else if is_blank_seq(w.4@) || has_control(w.4@) {
        Some("plan preview evidence id is invalid"@)
    } else if route_fault("plan id", w.0.0@) is Some {
        route_fault("plan id", w.0.0@)
    } else if route_fault("request id", w.0.1@) is Some {
        route_fault("request id", w.0.1@)
    } else if w.0.0@ != w.0.1@ {
        Some("plan preview plan id does not match request id"@)
    } else {
        None
    }
}

/// The first rule the body of a preview on the wire breaks: the changes,
/// the findings, the status and risk names, and their agreement.
pub open spec fn preview_body_fault(w: PlanPreviewWire) -> Option<Seq<char>> {
    if first_change_fault(views(w.8@), 0) is Some {
        first_change_fault(views(w.8@), 0)
    } else if first_finding_fault(views(w.9@), 0) is Some {
        first_finding_fault(views(w.9@), 0)
    } else if status_of(w.6@) is None {
        Some("unknown plan preview status "@ + debug_quoted(w.6@))
    } else if risk_of(w.5@) is None {
        Some("unknown plan risk "@ + debug_quoted(w.5@))
    } else {
        preview_status_fault(
            status_of(w.6@)->0,
            risk_of(w.5@)->0,
            w.8@.len(),
            any_blocker(decoded_findings(views(w.9@))),
        )
    }
}

/// The first rule the actor and route of a preview on the wire break.
pub open spec fn preview_tail_fault(w: PlanPreviewWire) -> Option<Seq<char>> {
    if route_fault("actor id", w.1.0@) is Some {
        route_fault("actor id", w.1.0@)
    } else if actor_kind_of(w.1.1@) is None {
        Some("unknown actor kind "@ + debug_quoted(w.1.1@))
    } else if route_fault("provider id", w.2.0@) is Some {
        route_fault("provider id", w.2.0@)
    } else if route_fault("resource id", w.2.1@) is Some {
        route_fault("resource id", w.2.1@)
    } else {
        route_fault("capability id", w.2.2@)
    }
}

/// The first rule a preview on the wire breaks, as its message.
pub open spec fn preview_wire_fault(w: PlanPreviewWire) -> Option<Seq<char>> {
    if preview_head_fault(w) is Some {
        preview_head_fault(w)
    } else if preview_body_fault(w) is Some {
        preview_body_fault(w)
    } else {
        preview_tail_fault(w)
    }
}

/// What a preview on the wire decodes to.
pub open spec fn decodes_preview(w: PlanPreviewWire, m: PlanModel) -> bool {
    &&& m.id == w.0.0@
    &&& m.request_id == w.0.1@
    &&& m.actor == (w.1.0@, actor_kind_of(w.1.1@)->0, w.1.2)
    &&& m.provider == w.2.0@
    &&& m.resource == w.2.1@
    &&& m.capability == w.2.2@
    &&& m.reason == reason_texts(w.3)
    &&& m.evidence_id == w.4@
    &&& m.risk == risk_of(w.5@)->0
    &&& m.status == status_of(w.6@)->0
    &&& !m.execution_authorized
    &&& m.changes == decoded_changes(views(w.8@))
    &&& m.findings == decoded_findings(views(w.9@))
}

/// What a preview encodes to.
pub open spec fn encodes_preview(w: PlanPreviewWire, m: PlanModel) -> bool {
    &&& w.0.0@ == m.id
    &&& w.0.1@ == m.request_id
    &&& w.1.0@ == m.actor.0
    &&& w.1.1@ == actor_kind_name_spec(m.actor.1)
    &&& w.1.2 == m.actor.2
    &&& w.2.0@ == m.provider
    &&& w.2.1@ == m.resource
    &&& w.2.2@ == m.capability
    &&& reason_texts(w.3) == m.reason
    &&& w.4@ == m.evidence_id
    &&& w.5@ == risk_name_spec(m.risk)
    &&& w.6@ == status_name(m.status)
    &&& w.7 == m.execution_authorized
    &&& views(w.8@) == m.changes.map_values(|c: (Seq<char>, Option<Seq<char>>, Seq<char>)| encoded_change(c))
    &&& views(w.9@) == m.findings.map_values(
        |f: (Seq<char>, PlanFindingLevel, Seq<char>)| (f.0, level_name(f.1), f.2),
    )
}

proof fn lemma_names_read_back(k: ActorKind, r: RiskClass, st: PlanStatus, l: PlanFindingLevel)
    ensures
        actor_kind_of(actor_kind_name_spec(k)) == Some(k),
        risk_of(risk_name_spec(r)) == Some(r),
        status_of(status_name(st)) == Some(st),
        level_of(level_name(l)) == Some(l),
{
    reveal_strlit("human");
    reveal_strlit("service");
    reveal_strlit("agent");
    reveal_strlit("remote");
    reveal_strlit("read-only");
    reveal_strlit("user-state");
    reveal_strlit("system-mutation");
    reveal_strlit("security-sensitive");
    reveal_strlit("destructive");
    reveal_strlit("no-change");
    reveal_strlit("change-proposed");
    reveal_strlit("blocked");
    reveal_strlit("pass");
    reveal_strlit("warning");
    reveal_strlit("blocker");
    assert("service"@ != "human"@) by { assert("service"@[0] != "human"@[0]); }
    assert("agent"@ != "human"@) by { assert("agent"@[0] != "human"@[0]); }
    assert("agent"@ != "service"@) by { assert("agent"@[0] != "service"@[0]); }
    assert("remote"@ != "human"@) by { assert("remote"@[0] != "human"@[0]); }
    assert("remote"@ != "service"@) by { assert("remote"@[0] != "service"@[0]); }
    assert("remote"@ != "agent"@) by { assert("remote"@[0] != "agent"@[0]); }
    assert("user-state"@ != "read-only"@) by { assert("user-state"@[0] != "read-only"@[0]); }
    assert("system-mutation"@ != "read-only"@) by { assert("system-mutation"@[0] != "read-only"@[0]); }
    assert("system-mutation"@ != "user-state"@) by { assert("system-mutation"@[0] != "user-state"@[0]); }
    assert("security-sensitive"@ != "read-only"@) by { assert("security-sensitive"@[0] != "read-only"@[0]); }
    assert("security-sensitive"@ != "user-state"@) by { assert("security-sensitive"@[0] != "user-state"@[0]); }
    assert("security-sensitive"@ != "system-mutation"@) by { assert("security-sensitive"@[1] != "system-mutation"@[1]); }
    assert("destructive"@ != "read-only"@) by { assert("destructive"@[0] != "read-only"@[0]); }
    assert("destructive"@ != "user-state"@) by { assert("destructive"@[0] != "user-state"@[0]); }
    assert("destructive"@ != "system-mutation"@) by { assert("destructive"@[0] != "system-mutation"@[0]); }
    assert("destructive"@ != "security-sensitive"@) by { assert("destructive"@[0] != "security-sensitive"@[0]); }
    assert("change-proposed"@ != "no-change"@) by { assert("change-proposed"@[0] != "no-change"@[0]); }
    assert("blocked"@ != "no-change"@) by { assert("blocked"@[0] != "no-change"@[0]); }
    assert("blocked"@ != "change-proposed"@) by { assert("blocked"@[0] != "change-proposed"@[0]); }
    assert("warning"@ != "pass"@) by { assert("warning"@[0] != "pass"@[0]); }
    assert("blocker"@ != "pass"@) by { assert("blocker"@[0] != "pass"@[0]); }
    assert("blocker"@ != "warning"@) by { assert("blocker"@[0] != "warning"@[0]); }
}

/// Decoding the wire form of a preview gives the preview back: whatever a
/// preview that authorizes no execution encodes to, if it decodes, it
/// decodes to the same preview.
pub proof fn law_preview_wire_round_trip(m: PlanModel, w: PlanPreviewWire, d: PlanModel)
    requires
        !m.execution_authorized,
        encodes_preview(w, m),
        decodes_preview(w, d),
    ensures
        d == m,
{
    lemma_names_read_back(m.actor.1, m.risk, m.status, PlanFindingLevel::Pass);
    assert(d.actor == m.actor);
    let ec = views(w.8@);
    assert(d.changes =~= m.changes) by {
        assert forall|i: int| 0 <= i < m.changes.len() implies d.changes[i] == m.changes[i] by {
            assert(ec[i] == encoded_change(m.changes[i]));
        }
    }
    let ef = views(w.9@);
    assert(d.findings =~= m.findings) by {
        assert forall|i: int| 0 <= i < m.findings.len() implies d.findings[i] == m.findings[i] by {
            lemma_names_read_back(m.actor.1, m.risk, m.status, m.findings[i].1);
            assert(ef[i] == (m.findings[i].0, level_name(m.findings[i].1), m.findings[i].2));
        }
    }
}

/// A preview the transport carries and the decoder accepts: it authorizes
/// no execution; its reason is within transport bounds and valid; it has at
/// most the maximum number of changes, with valid distinct keys and valid
/// desired values, and between one and the maximum number of valid findings;
/// its evidence id is non-blank and control-free; its identifiers are valid,
/// with the plan id equal to the request id; and its status agrees with its
/// changes, risk and blockers.
pub open spec fn preview_well_formed(m: PlanModel) -> bool {
    &&& !m.execution_authorized
    &&& utf8_len(m.reason.summary) <= MAX_SUMMARY_BYTES
    &&& !has_control(m.reason.summary)
    &&& m.reason.intent_ids.len() <= MAX_ORIGINS_PER_KIND
    &&& m.reason.requirement_ids.len() <= MAX_ORIGINS_PER_KIND
    &&& m.reason.capability_ids.len() <= MAX_ORIGINS_PER_KIND
    &&& m.reason.intent_ids.len() + m.reason.requirement_ids.len() + m.reason.capability_ids.len()
        <= MAX_TOTAL_ORIGINS
    &&& forall|i: int| 0 <= i < m.reason.intent_ids.len() ==> crate::ids::valid_token(#[trigger] m.reason.intent_ids[i])
    &&& forall|i: int| 0 <= i < m.reason.requirement_ids.len() ==> crate::ids::valid_token(
        #[trigger] m.reason.requirement_ids[i],
    )
    &&& forall|i: int| 0 <= i < m.reason.capability_ids.len() ==> crate::ids::valid_token(
        #[trigger] m.reason.capability_ids[i],
    )
    &&& reason_fault(m.reason) is None
    &&& m.changes.len() <= MAX_DESIRED_ATTRIBUTES
    &&& forall|i: int| 0 <= i < m.changes.len() ==> valid_change(#[trigger] m.changes[i])
    &&& forall|i: int, j: int| 0 <= i < j < m.changes.len() ==> #[trigger] m.changes[i].0 != #[trigger] m.changes[j].0
    &&& 0 < m.findings.len() <= MAX_DESIRED_ATTRIBUTES + 16
    &&& forall|i: int| 0 <= i < m.findings.len() ==> valid_finding(#[trigger] m.findings[i])
    &&& !is_blank_seq(m.evidence_id)
    &&& !has_control(m.evidence_id)
    &&& crate::ids::valid_token(m.id)
    &&& m.id == m.request_id
    &&& crate::ids::valid_token(m.actor.0)
    &&& crate::ids::valid_token(m.provider)
    &&& crate::ids::valid_token(m.resource)
    &&& crate::ids::valid_token(m.capability)
    &&& preview_status_fault(m.status, m.risk, m.changes.len(), any_blocker(m.findings)) is None
}

/// A change whose key and desired value the decoder accepts.
pub open spec fn valid_change(c: (Seq<char>, Option<Seq<char>>, Seq<char>)) -> bool {
    !is_blank_seq(c.0) && utf8_len(c.0) <= 256 && !has_control(c.0) && utf8_len(c.2) <= 4096
        && !has_control(c.2)
}

/// A finding whose code and message the decoder accepts.
pub open spec fn valid_finding(f: (Seq<char>, PlanFindingLevel, Seq<char>)) -> bool {
    !is_blank_seq(f.0) && utf8_len(f.0) <= 256 && !has_control(f.0) && !is_blank_seq(f.2)
        && utf8_len(f.2) <= 16384 && !has_control(f.2)
}

proof fn lemma_no_change_fault(m: PlanModel, cs: Seq<ChangeWireModel>, i: int)
    requires
        cs == m.changes.map_values(|c: (Seq<char>, Option<Seq<char>>, Seq<char>)| encoded_change(c)),
        forall|k: int| 0 <= k < m.changes.len() ==> valid_change(#[trigger] m.changes[k]),
        forall|a: int, b: int| 0 <= a < b < m.changes.len() ==> #[trigger] m.changes[a].0 != #[trigger] m.changes[b].0,
        0 <= i,
    ensures
        first_change_fault(cs, i) is None,
    decreases cs.len() - i,
{
    if i < cs.len() {
        let c = cs[i];
        assert(c == encoded_change(m.changes[i]));
        assert(valid_change(m.changes[i]));
        assert forall|j: int| 0 <= j < cs.take(i).len() implies #[trigger] cs.take(i)[j].0 != c.0 by {
            assert(cs.take(i)[j] == encoded_change(m.changes[j]));
            assert(m.changes[j].0 != m.changes[i].0);
        }
        assert(change_fault(c, cs.take(i)) is None);
        lemma_no_change_fault(m, cs, i + 1);
    }
}

proof fn lemma_no_finding_fault(m: PlanModel, fs: Seq<FindingWireModel>, i: int)
    requires
        fs == m.findings.map_values(
            |f: (Seq<char>, PlanFindingLevel, Seq<char>)| (f.0, level_name(f.1), f.2),
        ),
        forall|k: int| 0 <= k < m.findings.len() ==> valid_finding(#[trigger] m.findings[k]),
        0 <= i,
    ensures
        first_finding_fault(fs, i) is None,
    decreases fs.len() - i,
{
    if i < fs.len() {
        assert(fs[i] == (m.findings[i].0, level_name(m.findings[i].1), m.findings[i].2));
        assert(valid_finding(m.findings[i]));
        lemma_names_read_back(m.actor.1, m.risk, m.status, m.findings[i].1);
        assert(finding_fault(fs[i]) is None);
        lemma_no_finding_fault(m, fs, i + 1);
    }
}

/// The wire form of a well-formed preview is accepted: decoding it finds
/// no fault, and what it decodes to is the preview itself.
pub proof fn law_preview_wire_accepts_encoded(m: PlanModel, w: PlanPreviewWire)
    requires
        preview_well_formed(m),
        encodes_preview(w, m),
    ensures
        preview_wire_fault(w) is None,
        forall|d: PlanModel| decodes_preview(w, d) ==> d == m,
{
    lemma_names_read_back(m.actor.1, m.risk, m.status, PlanFindingLevel::Pass);
    assert(reason_texts(w.3) == m.reason);
    assert(views(w.3.1@) == m.reason.intent_ids);
    assert(views(w.3.2@) == m.reason.requirement_ids);
    assert(views(w.3.3@) == m.reason.capability_ids);
    lemma_no_bad_id(views(w.3.1@), "intent id");
    lemma_no_bad_id(views(w.3.2@), "requirement id");
    lemma_no_bad_id(views(w.3.3@), "capability id");
    assert(reason_wire_fault(w.3) is None);
    assert(w.8@.len() == views(w.8@).len());
    assert(w.9@.len() == views(w.9@).len());
    assert(preview_head_fault(w) is None);
    lemma_no_change_fault(m, views(w.8@), 0);
    lemma_no_finding_fault(m, views(w.9@), 0);
    let ef = views(w.9@);
    assert(decoded_findings(ef) =~= m.findings) by {
        assert forall|i: int| 0 <= i < m.findings.len() implies decoded_findings(ef)[i] == m.findings[i] by {
            lemma_names_read_back(m.actor.1, m.risk, m.status, m.findings[i].1);
            assert(ef[i] == (m.findings[i].0, level_name(m.findings[i].1), m.findings[i].2));
        }
    }
    assert(preview_body_fault(w) is None);
    assert(preview_tail_fault(w) is None);
    assert forall|d: PlanModel| decodes_preview(w, d) implies d == m by {
        law_preview_wire_round_trip(m, w, d);
    }
}

/// The wire form of a reason.
fn reason_wire(reason: &SemanticReason) -> (r: PlanReasonWire)
    ensures
        reason_texts(r) == reason@,
{
    (
        reason.summary.clone(),
        id_strings(&reason.intent_ids),
        id_strings(&reason.requirement_ids),
        id_strings(&reason.capability_ids),
    )
}

/// The wire form of changes.
fn changes_wire(changes: &Vec<StateChange>) -> (r: Vec<PlanChangeWire>)
    ensures
        views(r@) == views(changes@).map_values(
            |c: (Seq<char>, Option<Seq<char>>, Seq<char>)| encoded_change(c),
        ),
{
    let ghost target = views(changes@).map_values(
        |c: (Seq<char>, Option<Seq<char>>, Seq<char>)| encoded_change(c),
    );
    let mut out: Vec<PlanChangeWire> = Vec::new();
    let mut i: usize = 0;
    while i < changes.len()
        invariant
            i <= changes@.len(),
            target == views(changes@).map_values(
                |c: (Seq<char>, Option<Seq<char>>, Seq<char>)| encoded_change(c),
            ),
            views(out@) == target.take(i as int),
        decreases changes@.len() - i,
    {
        let c = &changes[i];
        let current = match &c.current {
            Some(v) => v.clone(),
            None => String::new(),
        };
        let ghost before = views(out@);
        out.push((c.key.clone(), c.current.is_some(), current, c.desired.clone()));
        assert(views(out@) =~= before.push(target[i as int]));
        assert(target.take(i + 1) =~= target.take(i as int).push(target[i as int]));
        i = i + 1;
    }
    assert(target.take(i as int) =~= target);
    out
}

/// The wire form of findings.
fn findings_wire(findings: &Vec<PlanFinding>) -> (r: Vec<PlanFindingWire>)
    ensures
        views(r@) == views(findings@).map_values(
            |f: (Seq<char>, PlanFindingLevel, Seq<char>)| (f.0, level_name(f.1), f.2),
        ),
{
    let ghost target = views(findings@).map_values(
        |f: (Seq<char>, PlanFindingLevel, Seq<char>)| (f.0, level_name(f.1), f.2),
    );
    let mut out: Vec<PlanFindingWire> = Vec::new();
    let mut i: usize = 0;
    while i < findings.len()
        invariant
            i <= findings@.len(),
            target == views(findings@).map_values(
                |f: (Seq<char>, PlanFindingLevel, Seq<char>)| (f.0, level_name(f.1), f.2),
            ),
            views(out@) == target.take(i as int),
        decreases findings@.len() - i,
    {
        let f = &findings[i];
        let ghost before = views(out@);
        out.push((f.code.clone(), owned(f.level.as_str()), f.message.clone()));
        assert(views(out@) =~= before.push(target[i as int]));
        assert(target.take(i + 1) =~= target.take(i as int).push(target[i as int]));
        i = i + 1;
    }
    assert(target.take(i as int) =~= target);
    out
}

/// The wire form of a plan preview.
pub fn plan_preview_wire(preview: &PlanPreview) -> (r: PlanPreviewWire)
    ensures
        encodes_preview(r, preview@),
{
    (
        (owned(preview.plan_id.as_str()), owned(preview.request_id.as_str())),
        (
            owned(preview.actor.id.as_str()),
            owned(actor_kind_name(preview.actor.kind)),
            preview.actor.interactive,
        ),
        (
            owned(preview.provider.as_str()),
            owned(preview.resource.as_str()),
            owned(preview.observation_capability.as_str()),
        ),
        reason_wire(&preview.reason),
        preview.observed_evidence_id.clone(),
        owned(risk_name(preview.prospective_risk)),
        owned(preview.status.as_str()),
        preview.execution_authorized,
        changes_wire(&preview.changes),
        findings_wire(&preview.findings),
    )
}

/// Whether change `j < i` has the key.
fn key_seen(changes: &Vec<PlanChangeWire>, i: usize, key: &str) -> (r: bool)
    requires
        i <= changes@.len(),
    ensures
        r == exists|j: int| 0 <= j < i && #[trigger] views(changes@)[j].0 == key@,
{
    let mut j: usize = 0;
    while j < i
        invariant
            j <= i <= changes@.len(),
            forall|k: int| 0 <= k < j ==> views(changes@)[k].0 != key@,
        decreases i - j,
    {
        if str_eq(changes[j].0.as_str(), key) {
            assert(views(changes@)[j as int].0 == key@);
            return true;
        }
        j = j + 1;
    }
    false
}

/// Decodes changes, refusing the first bad one.
fn changes_from_wire(changes: &Vec<PlanChangeWire>) -> (r: Result<Vec<StateChange>, String>)
    ensures
        match r {
            Ok(out) => first_change_fault(views(changes@), 0) is None && views(out@)
                == decoded_changes(views(changes@)),
            Err(m) => first_change_fault(views(changes@), 0) == Some(m@),
        },
{
    let ghost cs = views(changes@);
    let mut out: Vec<StateChange> = Vec::new();
    let mut i: usize = 0;
    while i < changes.len()
        invariant
            i <= changes@.len(),
            cs == views(changes@),
            first_change_fault(cs, 0) == first_change_fault(cs, i as int),
            views(out@) == decoded_changes(cs.take(i as int)),
        decreases changes@.len() - i,
    {
        let c = &changes[i];
        let ghost cw = cs[i as int];
        assert(cw == (c.0@, c.1, c.2@, c.3@));
        let seen = key_seen(changes, i, c.0.as_str());
        proof {
            assert(seen == exists|j: int| 0 <= j < cs.take(i as int).len() && #[trigger] cs.take(i as int)[j].0 == cw.0) by {
                if seen {
                    let j = choose|j: int| 0 <= j < i && #[trigger] views(changes@)[j].0 == c.0@;
                    assert(cs.take(i as int)[j].0 == cw.0);
                }
                if exists|j: int| 0 <= j < cs.take(i as int).len() && #[trigger] cs.take(i as int)[j].0 == cw.0 {
                    let j = choose|j: int| 0 <= j < cs.take(i as int).len() && #[trigger] cs.take(i as int)[j].0 == cw.0;
                    assert(views(changes@)[j].0 == c.0@);
                }
            }
        }
        if is_blank(c.0.as_str()) || byte_len(c.0.as_str()) > 256 || contains_control(c.0.as_str()) || seen {
            let mut m = owned("plan preview contains invalid or duplicate change key ");
            append_str(&mut m, debug_quote(c.0.as_str()).as_str());
            return Err(m);
        }
        if byte_len(c.3.as_str()) > 4096 || contains_control(c.3.as_str()) {
            let mut m = owned("plan preview contains invalid desired value for ");
            append_str(&mut m, debug_quote(c.0.as_str()).as_str());
            return Err(m);
        }
        if !c.1 && !c.2.as_str().is_empty() {
            let mut m = owned("plan preview supplied a current value for ");
            append_str(&mut m, debug_quote(c.0.as_str()).as_str());
            append_str(&mut m, " while has_current=false");
            return Err(m);
        }
        let current = if c.1 {
            Some(c.2.clone())
        } else {
            None
        };
        let ghost before = views(out@);
        out.push(StateChange { key: c.0.clone(), current, desired: c.3.clone() });
        proof {
            assert(views(out@) =~= before.push(decoded_change(cw)));
            assert(cs.take(i + 1) =~= cs.take(i as int).push(cw));
            assert(decoded_changes(cs.take(i + 1)) =~= decoded_changes(cs.take(i as int)).push(decoded_change(cw)));
        }
        i = i + 1;
    }
    assert(cs.take(i as int) =~= cs);
    Ok(out)
}

/// Decodes findings, refusing the first bad one.
fn findings_from_wire(findings: &Vec<PlanFindingWire>) -> (r: Result<Vec<PlanFinding>, String>)
    ensures
        match r {
            Ok(out) => first_finding_fault(views(findings@), 0) is None && views(out@)
                == decoded_findings(views(findings@)),
            Err(m) => first_finding_fault(views(findings@), 0) == Some(m@),
        },
{
    let ghost fs = views(findings@);
    let mut out: Vec<PlanFinding> = Vec::new();
    let mut i: usize = 0;
    while i < findings.len()
        invariant
            i <= findings@.len(),
            fs == views(findings@),
            first_finding_fault(fs, 0) == first_finding_fault(fs, i as int),
            views(out@) == decoded_findings(fs.take(i as int)),
        decreases findings@.len() - i,
    {
        let f = &findings[i];
        let ghost fw = fs[i as int];
        assert(fw == (f.0@, f.1@, f.2@));
        if is_blank(f.0.as_str()) || byte_len(f.0.as_str()) > 256 || contains_control(f.0.as_str())
            || is_blank(f.2.as_str()) || byte_len(f.2.as_str()) > 16384 || contains_control(
            f.2.as_str(),
        ) {
            return Err(owned("plan preview contains an invalid finding"));
        }
        let level = match parse_finding_level(f.1.as_str()) {
            Ok(level) => level,
            Err(m) => {
                return Err(m);
            },
        };
        let ghost before = views(out@);
        out.push(PlanFinding { code: f.0.clone(), level, message: f.2.clone() });
        proof {
            assert(views(out@) =~= before.push((fw.0, level_of(fw.1)->0, fw.2)));
            assert(fs.take(i + 1) =~= fs.take(i as int).push(fw));
            assert(decoded_findings(fs.take(i + 1)) =~= decoded_findings(fs.take(i as int)).push((fw.0, level_of(fw.1)->0, fw.2)));
        }
        i = i + 1;
    }
    assert(fs.take(i as int) =~= fs);
    Ok(out)
}

/// Checks the status against the changes, the risk and the blockers.
fn status_check(status: PlanStatus, risk: RiskClass, change_count: usize, blocked: bool) -> (r: Result<(), String>)
    ensures
        match r {
            Ok(()) => preview_status_fault(status, risk, change_count as nat, blocked) is None,
            Err(m) => preview_status_fault(status, risk, change_count as nat, blocked) == Some(m@),
        },
{
    match status {
        PlanStatus::NoChange => {
            if change_count > 0 || !risk.is(RiskClass::ReadOnly) || blocked {
                return Err(owned("no-change preview violates change/risk/blocker invariants"));
            }
        },
        PlanStatus::ChangeProposed => {
            if change_count == 0 || risk.is(RiskClass::ReadOnly) || blocked {
                return Err(owned("change-proposed preview violates change/risk/blocker invariants"));
            }
        },
        PlanStatus::Blocked => {
            if !blocked {
                return Err(owned("blocked preview does not contain a blocker finding"));
            }
        },
    }
    Ok(())
}

/// Decodes the head of a preview: its reason and its plan and request ids.
fn preview_head(wire: &PlanPreviewWire) -> (r: Result<(SemanticReason, PlanId, RequestId), String>)
    ensures
        match r {
            Ok((reason, plan_id, request_id)) => preview_head_fault(*wire) is None && reason@
                == reason_texts(wire.3) && plan_id@ == wire.0.0@ && request_id@ == wire.0.1@,
            Err(m) => preview_head_fault(*wire) == Some(m@),
        },
{
    if wire.7 {
        return Err(owned("Control1 returned an executable preview, which v0.2.0 forbids"));
    }
    if !summary_ok(&wire.3) {
        return Err(owned("plan preview semantic summary violates transport bounds"));
    }
    if !origins_ok(&wire.3) {
        return Err(owned("plan preview semantic origins violate transport bounds"));
    }
    if wire.8.len() > MAX_DESIRED_ATTRIBUTES {
        return Err(owned("plan preview contains too many state changes"));
    }
    if wire.9.len() == 0 || wire.9.len() > MAX_DESIRED_ATTRIBUTES + 16 {
        return Err(owned("plan preview finding count violates transport bounds"));
    }
    let reason = match reason_from_wire(&wire.3) {
        Ok(reason) => reason,
        Err(m) => {
            return Err(m);
        },
    };
    if is_blank(wire.4.as_str()) || contains_control(wire.4.as_str()) {
        return Err(owned("plan preview evidence id is invalid"));
    }
    let plan_id = match PlanId::new(wire.0.0.as_str()) {
        Ok(id) => id,
        Err(e) => {
            return Err(e.message());
        },
    };
    let request_id = match RequestId::new(wire.0.1.as_str()) {
        Ok(id) => id,
        Err(e) => {
            return Err(e.message());
        },
    };
    if !str_eq(plan_id.as_str(), request_id.as_str()) {
        return Err(owned("plan preview plan id does not match request id"));
    }
    Ok((reason, plan_id, request_id))
}

/// Decodes the body of a preview: changes, findings, status and risk.
fn preview_body(wire: &PlanPreviewWire) -> (r: Result<(Vec<StateChange>, Vec<PlanFinding>, PlanStatus, RiskClass), String>)
    ensures
        match r {
            Ok((changes, findings, status, risk)) => preview_body_fault(*wire) is None
                && views(changes@) == decoded_changes(views(wire.8@)) && views(findings@)
                == decoded_findings(views(wire.9@)) && Some(status) == status_of(wire.6@)
                && Some(risk) == risk_of(wire.5@),
            Err(m) => preview_body_fault(*wire) == Some(m@),
        },
{
    let changes = match changes_from_wire(&wire.8) {
        Ok(c) => c,
        Err(m) => {
            return Err(m);
        },
    };
    let findings = match findings_from_wire(&wire.9) {
        Ok(f) => f,
        Err(m) => {
            return Err(m);
        },
    };
    let status = match parse_status(wire.6.as_str()) {
        Ok(s) => s,
        Err(m) => {
            return Err(m);
        },
    };
    let risk = match parse_risk(wire.5.as_str()) {
        Ok(r) => r,
        Err(m) => {
            return Err(m);
        },
    };
    let blocked = crate::planner::findings_have_blocker(&findings);
    assert(views(changes@).len() == changes@.len());
    assert(decoded_changes(views(wire.8@)).len() == wire.8@.len());
    match status_check(status, risk, changes.len(), blocked) {
        Ok(()) => {},
        Err(m) => {
            return Err(m);
        },
    }
    Ok((changes, findings, status, risk))
}

/// Decodes the actor and route of a preview.
fn preview_tail(wire: &PlanPreviewWire) -> (r: Result<(Actor, ProviderId, ResourceId, CapabilityId), String>)
    ensures
        match r {
            Ok((actor, provider, resource, capability)) => preview_tail_fault(*wire) is None
                && actor@ == (wire.1.0@, actor_kind_of(wire.1.1@)->0, wire.1.2) && provider@
                == wire.2.0@ && resource@ == wire.2.1@ && capability@ == wire.2.2@,
            Err(m) => preview_tail_fault(*wire) == Some(m@),
        },
{
    let actor_id = match ActorId::new(wire.1.0.as_str()) {
        Ok(id) => id,
        Err(e) => {
            return Err(e.message());
        },
    };
    let kind = match parse_actor_kind(wire.1.1.as_str()) {
        Ok(k) => k,
        Err(m) => {
            return Err(m);
        },
    };
    let provider = match ProviderId::new(wire.2.0.as_str()) {
        Ok(id) => id,
        Err(e) => {
            return Err(e.message());
        },
    };
    let resource = match ResourceId::new(wire.2.1.as_str()) {
        Ok(id) => id,
        Err(e) => {
            return Err(e.message());
        },
    };
    let capability = match CapabilityId::new(wire.2.2.as_str()) {
        Ok(id) => id,
        Err(e) => {
            return Err(e.message());
        },
    };
    Ok((Actor { id: actor_id, kind, interactive: wire.1.2 }, provider, resource, capability))
}

/// Decodes a plan preview, refusing executable previews, values outside
/// transport bounds, malformed values, and previews whose status disagrees
/// with their changes, risk or blockers; the first rule broken is reported.
pub fn plan_preview_from_wire(wire: PlanPreviewWire) -> (r: Result<PlanPreview, String>)
    ensures
        match r {
            Ok(p) => preview_wire_fault(wire) is None && decodes_preview(wire, p@),
            Err(m) => preview_wire_fault(wire) == Some(m@),
        },
{
    let (reason, plan_id, request_id) = match preview_head(&wire) {
        Ok(head) => head,
        Err(m) => {
            return Err(m);
        },
    };
    let (changes, findings, status, prospective_risk) = match preview_body(&wire) {
        Ok(body) => body,
        Err(m) => {
            return Err(m);
        },
    };
    let (actor, provider, resource, observation_capability) = match preview_tail(&wire) {
        Ok(tail) => tail,
        Err(m) => {
            return Err(m);
        },
    };
    Ok(
        PlanPreview {
            plan_id,
            request_id,
            actor,
            provider,
            resource,
            observation_capability,
            reason,
            observed_evidence_id: wire.4.clone(),
            prospective_risk,
            status,
            execution_authorized: false,
            changes,
            findings,
        },
    )
}

/// The preview a review on the wire carries: its planner risk floor is the
/// preview's risk, and its execution flag is the preview's.
pub open spec fn review_preview_part(w: PlanReviewWire) -> PlanPreviewWire {
    (w.0, w.2, w.3, w.4, w.5, w.6.0, w.6.2, w.7.4, w.8, w.9)
}

/// The approval class a review on the wire carries.
pub open spec fn review_class(w: PlanReviewWire) -> Option<ApprovalClass> {
    if w.7.1 {
        approval_class_of(w.7.2@)
    } else {
        None
    }
}

/// The first rule the decision of a review on the wire breaks, once its
/// preview decodes.
pub open spec fn review_decision_fault(w: PlanReviewWire) -> Option<Seq<char>> {
    let status = status_of(w.6.2@)->0;
    let decision = decision_of(w.7.0@)->0;
    let reviewed = risk_of(w.6.1@)->0;
    let floor = risk_of(w.6.0@)->0;
    let class = review_class(w);
    let required = required_class(reviewed);
    if utf8_len(w.7.3@) > 16384 || has_control(w.7.3@) {
        Some("plan review decision reason violates transport bounds"@)
    } else if decision_of(w.7.0@) is None {
        Some("unknown plan review decision "@ + debug_quoted(w.7.0@))
    } else if status == PlanStatus::Blocked && decision != PlanReviewDecision::Blocked {
        Some("blocked plan review must carry a blocked decision"@)
    } else if w.7.1 && approval_class_of(w.7.2@) is None {
        Some("unknown plan review approval class "@ + debug_quoted(w.7.2@))
    } else if !w.7.1 && w.7.2@.len() > 0 {
        Some("plan review supplied an approval class while has_approval_class=false"@)
    } else if risk_of(w.6.1@) is None {
        Some("unknown plan risk "@ + debug_quoted(w.6.1@))
    } else if decision == PlanReviewDecision::RequireApproval && (class != required
        || is_blank_seq(w.7.3@)) {
        Some("require-approval review class does not match the reviewed risk"@)
    } else if decision == PlanReviewDecision::RequireApproval && required is None {
        Some("require-approval review uses an unprotected risk class"@)
    } else if (decision == PlanReviewDecision::Deny || decision == PlanReviewDecision::Blocked)
        && (class is Some || is_blank_seq(w.7.3@)) {
        Some("deny/blocked review has inconsistent approval metadata"@)
    } else if decision == PlanReviewDecision::Allow && (class is Some || required is Some) {
        Some("allow review conflicts with the reviewed risk approval floor"@)
    } else if risk_rank(reviewed) < risk_rank(floor) && decision != PlanReviewDecision::Blocked {
        Some("plan review lowered the planner risk floor without blocking"@)
    } else {
        None
    }
}

/// The first rule a review on the wire breaks, as its message.
pub open spec fn review_wire_fault(w: PlanReviewWire) -> Option<Seq<char>> {
    if preview_wire_fault(review_preview_part(w)) is Some {
        preview_wire_fault(review_preview_part(w))
    } else if review_decision_fault(w) is Some {
        review_decision_fault(w)
    } else if route_fault("principal id", w.1@) is Some {
        route_fault("principal id", w.1@)
    } else if route_fault("policy id", w.6.3@) is Some {
        route_fault("policy id", w.6.3@)
    } else {
        route_fault("policy revision id", w.6.4@)
    }
}

/// What a review on the wire decodes to.
pub open spec fn decodes_review(w: PlanReviewWire, m: ReviewModel) -> bool {
    let p = review_preview_part(w);
    &&& m.plan_id == p.0.0@
    &&& m.request_id == p.0.1@
    &&& m.principal == w.1@
    &&& m.actor == (p.1.0@, actor_kind_of(p.1.1@)->0, p.1.2)
    &&& m.provider == p.2.0@
    &&& m.resource == p.2.1@
    &&& m.capability == p.2.2@
    &&& m.reason == reason_texts(p.3)
    &&& m.evidence_id == p.4@
    &&& m.planner_risk_floor == risk_of(w.6.0@)->0
    &&& m.reviewed_risk == risk_of(w.6.1@)->0
    &&& m.status == status_of(w.6.2@)->0
    &&& m.policy_id == w.6.3@
    &&& m.policy_revision_id == w.6.4@
    &&& m.decision == decision_of(w.7.0@)->0
    &&& m.approval_class == review_class(w)
    &&& m.decision_reason == w.7.3@
    &&& !m.execution_authorized
    &&& m.changes == decoded_changes(views(p.8@))
    &&& m.findings == decoded_findings(views(p.9@))
}

/// What a review encodes to.
pub open spec fn encodes_review(w: PlanReviewWire, m: ReviewModel) -> bool {
    &&& w.0.0@ == m.plan_id
    &&& w.0.1@ == m.request_id
    &&& w.1@ == m.principal
    &&& w.2.0@ == m.actor.0
    &&& w.2.1@ == actor_kind_name_spec(m.actor.1)
    &&& w.2.2 == m.actor.2
    &&& w.3.0@ == m.provider
    &&& w.3.1@ == m.resource
    &&& w.3.2@ == m.capability
    &&& reason_texts(w.4) == m.reason
    &&& w.5@ == m.evidence_id
    &&& w.6.0@ == risk_name_spec(m.planner_risk_floor)
    &&& w.6.1@ == risk_name_spec(m.reviewed_risk)
    &&& w.6.2@ == status_name(m.status)
    &&& w.6.3@ == m.policy_id
    &&& w.6.4@ == m.policy_revision_id
    &&& w.7.0@ == decision_name(m.decision)
    &&& w.7.1 == m.approval_class is Some
    &&& w.7.2@ == match m.approval_class {
        Some(c) => approval_class_name(c),
        None => Seq::empty(),
    }
    &&& w.7.3@ == m.decision_reason
    &&& w.7.4 == m.execution_authorized
    &&& views(w.8@) == m.changes.map_values(|c: (Seq<char>, Option<Seq<char>>, Seq<char>)| encoded_change(c))
    &&& views(w.9@) == m.findings.map_values(
        |f: (Seq<char>, PlanFindingLevel, Seq<char>)| (f.0, level_name(f.1), f.2),
    )
}

/// The wire form of a plan review.
pub fn plan_review_wire(review: &PlanReview) -> (r: PlanReviewWire)
    ensures
        encodes_review(r, review@),
{
    let approval_class = match review.approval_class {
        Some(class) => owned(class.as_str()),
        None => String::new(),
    };
    (
        (owned(review.plan_id.as_str()), owned(review.request_id.as_str())),
        owned(review.principal.as_str()),
        (
            owned(review.actor.id.as_str()),
            owned(actor_kind_name(review.actor.kind)),
            review.actor.interactive,
        ),
        (
            owned(review.provider.as_str()),
            owned(review.resource.as_str()),
            owned(review.observation_capability.as_str()),
        ),
        reason_wire(&review.reason),
        review.observed_evidence_id.clone(),
        (
            owned(risk_name(review.planner_risk_floor)),
            owned(risk_name(review.reviewed_risk)),
            owned(review.status.as_str()),
            owned(review.policy_id.as_str()),
            owned(review.policy_revision_id.as_str()),
        ),
        (
            owned(review.decision.as_str()),
            review.approval_class.is_some(),
            approval_class,
            review.decision_reason.clone(),
            review.execution_authorized,
        ),
        changes_wire(&review.changes),
        findings_wire(&review.findings),
    )
}

/// Equality of review decisions.
fn decision_eq(a: PlanReviewDecision, b: PlanReviewDecision) -> (r: bool)
    ensures
        r == (a == b),
{
    match (a, b) {
        (PlanReviewDecision::Allow, PlanReviewDecision::Allow) => true,
        (PlanReviewDecision::Deny, PlanReviewDecision::Deny) => true,
        (PlanReviewDecision::RequireApproval, PlanReviewDecision::RequireApproval) => true,
        (PlanReviewDecision::Blocked, PlanReviewDecision::Blocked) => true,
        _ => false,
    }
}

/// The approval class a risk requires.
fn required_approval_class_for_reviewed_risk(risk: RiskClass) -> (r: Option<ApprovalClass>)
    ensures
        r == required_class(risk),
{
    match risk {
        RiskClass::ReadOnly | RiskClass::UserState => None,
        RiskClass::SystemMutation => Some(ApprovalClass::InteractiveUser),
        RiskClass::SecuritySensitive => Some(ApprovalClass::Administrator),
        RiskClass::Destructive => Some(ApprovalClass::DestructiveAction),
    }
}

/// Equality of optional approval classes.
fn class_opt_eq(a: Option<ApprovalClass>, b: Option<ApprovalClass>) -> (r: bool)
    ensures
        r == (a == b),
{
    match (a, b) {
        (Some(x), Some(y)) => x.is(y),
        (None, None) => true,
        _ => false,
    }
}

/// Decodes and checks the decision of a review whose preview decoded.
fn review_decision(wire: &PlanReviewWire, status: PlanStatus) -> (r: Result<(PlanReviewDecision, Option<ApprovalClass>, RiskClass, RiskClass), String>)
    requires
        status_of(wire.6.2@) == Some(status),
        risk_of(wire.6.0@) is Some,
    ensures
        match r {
            Ok((decision, class, floor, reviewed)) => review_decision_fault(*wire) is None
                && decision_of(wire.7.0@) == Some(decision) && class == review_class(*wire)
                && Some(floor) == risk_of(wire.6.0@) && Some(reviewed) == risk_of(wire.6.1@),
            Err(m) => review_decision_fault(*wire) == Some(m@),
        },
{
    let reason = wire.7.3.as_str();
    if byte_len(reason) > 16384 || contains_control(reason) {
        return Err(owned("plan review decision reason violates transport bounds"));
    }
    let decision = match parse_review_decision(wire.7.0.as_str()) {
        Ok(d) => d,
        Err(m) => {
            return Err(m);
        },
    };
    if crate::planner::status_eq(status, PlanStatus::Blocked) && !decision_eq(decision, PlanReviewDecision::Blocked) {
        return Err(owned("blocked plan review must carry a blocked decision"));
    }
    let class = if wire.7.1 {
        match parse_review_approval_class(wire.7.2.as_str()) {
            Ok(c) => Some(c),
            Err(m) => {
                return Err(m);
            },
        }
    } else {
        if !wire.7.2.as_str().is_empty() {
            return Err(owned("plan review supplied an approval class while has_approval_class=false"));
        }
        None
    };
    let floor = match parse_risk(wire.6.0.as_str()) {
        Ok(r) => r,
        Err(m) => {
            return Err(m);
        },
    };
    let reviewed = match parse_risk(wire.6.1.as_str()) {
        Ok(r) => r,
        Err(m) => {
            return Err(m);
        },
    };
    let required = required_approval_class_for_reviewed_risk(reviewed);
    let blank = is_blank(reason);
    match decision {
        PlanReviewDecision::RequireApproval => {
            if !class_opt_eq(class, required) || blank {
                return Err(owned("require-approval review class does not match the reviewed risk"));
            }
            if required.is_none() {
                return Err(owned("require-approval review uses an unprotected risk class"));
            }
        },
        PlanReviewDecision::Deny | PlanReviewDecision::Blocked => {
            if class.is_some() || blank {
                return Err(owned("deny/blocked review has inconsistent approval metadata"));
            }
        },
        PlanReviewDecision::Allow => {
            if class.is_some() || required.is_some() {
                return Err(owned("allow review conflicts with the reviewed risk approval floor"));
            }
        },
    }
    if reviewed.rank() < floor.rank() && !decision_eq(decision, PlanReviewDecision::Blocked) {
        return Err(owned("plan review lowered the planner risk floor without blocking"));
    }
    Ok((decision, class, floor, reviewed))
}

/// Decodes a plan review: its preview as `plan_preview_from_wire` does,
/// then a decision whose approval class is exactly the one the reviewed
/// risk requires, a blocked decision for a blocked plan, and no lowering
/// of the planner's risk floor unless blocked.
pub fn plan_review_from_wire(wire: PlanReviewWire) -> (r: Result<PlanReview, String>)
    ensures
        match r {
            Ok(review) => review_wire_fault(wire) is None && decodes_review(wire, review@),
            Err(m) => review_wire_fault(wire) == Some(m@),
        },
{
    let ghost w = wire;
    let (ids, principal, actor, route, reason, evidence, policy, decision_wire, changes, findings) = wire;
    let preview_wire = (
        ids,
        actor,
        route,
        reason,
        evidence,
        policy.0.clone(),
        policy.2.clone(),
        decision_wire.4,
        changes,
        findings,
    );
    assert(preview_wire == review_preview_part(w));
    let preview = match plan_preview_from_wire(preview_wire) {
        Ok(p) => p,
        Err(m) => {
            return Err(m);
        },
    };
    let rest = (
        (String::new(), String::new()),
        principal,
        (String::new(), String::new(), false),
        (String::new(), String::new(), String::new()),
        (String::new(), Vec::new(), Vec::new(), Vec::new()),
        String::new(),
        policy,
        decision_wire,
        Vec::new(),
        Vec::new(),
    );
    assert(rest.1 == w.1 && rest.6 == w.6 && rest.7 == w.7);
    assert(review_decision_fault(rest) == review_decision_fault(w));
    let (decision, approval_class, planner_risk_floor, reviewed_risk) = match review_decision(&rest, preview.status) {
        Ok(d) => d,
        Err(m) => {
            return Err(m);
        },
    };
    let principal_id = match PrincipalId::new(rest.1.as_str()) {
        Ok(id) => id,
        Err(e) => {
            return Err(e.message());
        },
    };
    let policy_id = match PolicyId::new(rest.6.3.as_str()) {
        Ok(id) => id,
        Err(e) => {
            return Err(e.message());
        },
    };
    let policy_revision_id = match PolicyRevisionId::new(rest.6.4.as_str()) {
        Ok(id) => id,
        Err(e) => {
            return Err(e.message());
        },
    };
    Ok(
        PlanReview {
            plan_id: preview.plan_id,
            request_id: preview.request_id,
            principal: principal_id,
            actor: preview.actor,
            provider: preview.provider,
            resource: preview.resource,
            observation_capability: preview.observation_capability,
            reason: preview.reason,
            observed_evidence_id: preview.observed_evidence_id,
            planner_risk_floor,
            reviewed_risk,
            status: preview.status,
            policy_id,
            policy_revision_id,
            decision,
            approval_class,
            decision_reason: rest.7.3,
            execution_authorized: false,
            changes: preview.changes,
            findings: preview.findings,
        },
    )
}

/// A decoded review that requires approval names exactly the approval class
/// its reviewed risk requires, and that class exists.
pub proof fn law_review_approval_strength_follows_reviewed_risk(w: PlanReviewWire)
    requires
        review_wire_fault(w) is None,
        decision_of(w.7.0@) == Some(PlanReviewDecision::RequireApproval),
    ensures
        review_class(w) == required_class(risk_of(w.6.1@)->0),
        review_class(w) is Some,
{
}

/// A decoded review of a blocked plan carries a blocked decision, and a
/// decoded review never lowers the planner's risk floor unless blocked.
pub proof fn law_review_blocks_and_keeps_risk_floor(w: PlanReviewWire)
    requires
        review_wire_fault(w) is None,
    ensures
        status_of(w.6.2@) == Some(PlanStatus::Blocked) ==> decision_of(w.7.0@) == Some(
            PlanReviewDecision::Blocked,
        ),
        decision_of(w.7.0@) != Some(PlanReviewDecision::Blocked) ==> risk_rank(risk_of(w.6.0@)->0)
            <= risk_rank(risk_of(w.6.1@)->0),
{
}

} // verus!
