//! Byte estimates of retained planning material. Every sum saturates at the
//! largest `usize`, so an estimate is the exact byte count capped there.
use vstd::prelude::*;

use crate::base::{ReasonModel, SemanticReason};
use crate::ids::{texts, TextId};
use crate::keyed::TextMap;
use crate::planner::{PlanFinding, StateChange};
use crate::text::{byte_len, utf8_len};

verus! {

/// `x`, capped at the largest `usize`.
pub open spec fn capped(x: int) -> int {
    if x < usize::MAX {
        x
    } else {
        usize::MAX as int
    }
}

/// Adding two capped sums and capping again caps the exact sum.
pub proof fn lemma_capped_add(x: int, y: int)
    requires
        x >= 0,
        y >= 0,
    ensures
        capped(capped(x) + capped(y)) == capped(x + y),
{
}

/// Saturating addition of two capped sums.
pub(crate) fn add_capped(a: usize, b: usize, Ghost(x): Ghost<int>, Ghost(y): Ghost<int>) -> (r: usize)
    requires
        x >= 0,
        y >= 0,
        a == capped(x),
        b == capped(y),
    ensures
        r == capped(x + y),
{
    proof {
        lemma_capped_add(x, y);
    }
    a.saturating_add(b)
}

/// Total UTF-8 bytes of a list of texts.
pub open spec fn text_bytes(s: Seq<Seq<char>>) -> int
    decreases s.len(),
{
    if s.len() == 0 {
        0
    } else {
        text_bytes(s.drop_last()) + utf8_len(s.last())
    }
}

/// Total UTF-8 bytes of the keys and values of a list of pairs.
pub open spec fn pair_bytes(s: Seq<(Seq<char>, Seq<char>)>) -> int
    decreases s.len(),
{
    if s.len() == 0 {
        0
    } else {
        pair_bytes(s.drop_last()) + utf8_len(s.last().0) + utf8_len(s.last().1)
    }
}

/// UTF-8 bytes of an optional text, none counting as empty.
pub open spec fn opt_bytes(o: Option<Seq<char>>) -> int {
    match o {
        Some(s) => utf8_len(s) as int,
        None => 0,
    }
}

/// Total UTF-8 bytes of the keys, current values and desired values of changes.
pub open spec fn change_bytes(s: Seq<(Seq<char>, Option<Seq<char>>, Seq<char>)>) -> int
    decreases s.len(),
{
    if s.len() == 0 {
        0
    } else {
        change_bytes(s.drop_last()) + utf8_len(s.last().0) + opt_bytes(s.last().1) + utf8_len(
            s.last().2,
        )
    }
}

/// Total UTF-8 bytes of the codes and messages of findings.
pub open spec fn finding_bytes(s: Seq<(Seq<char>, crate::planner::PlanFindingLevel, Seq<char>)>) -> int
    decreases s.len(),
{
    if s.len() == 0 {
        0
    } else {
        finding_bytes(s.drop_last()) + utf8_len(s.last().0) + utf8_len(s.last().2)
    }
}

/// UTF-8 bytes of a semantic reason: its summary and every origin.
pub open spec fn reason_bytes(r: ReasonModel) -> int {
    utf8_len(r.summary) + text_bytes(r.intent_ids) + text_bytes(r.requirement_ids) + text_bytes(
        r.capability_ids,
    )
}

proof fn lemma_text_bytes_nonneg(s: Seq<Seq<char>>)
    ensures
        text_bytes(s) >= 0,
    decreases s.len(),
{
    if s.len() > 0 {
        lemma_text_bytes_nonneg(s.drop_last());
    }
}

proof fn lemma_pair_bytes_nonneg(s: Seq<(Seq<char>, Seq<char>)>)
    ensures
        pair_bytes(s) >= 0,
    decreases s.len(),
{
    if s.len() > 0 {
        lemma_pair_bytes_nonneg(s.drop_last());
    }
}

proof fn lemma_change_bytes_nonneg(s: Seq<(Seq<char>, Option<Seq<char>>, Seq<char>)>)
    ensures
        change_bytes(s) >= 0,
    decreases s.len(),
{
    if s.len() > 0 {
        lemma_change_bytes_nonneg(s.drop_last());
    }
}

proof fn lemma_finding_bytes_nonneg(s: Seq<(Seq<char>, crate::planner::PlanFindingLevel, Seq<char>)>)
    ensures
        finding_bytes(s) >= 0,
    decreases s.len(),
{
    if s.len() > 0 {
        lemma_finding_bytes_nonneg(s.drop_last());
    }
}

/// Every byte estimate is a count, never negative.
pub proof fn lemma_bytes_nonneg(r: ReasonModel, p: Seq<(Seq<char>, Seq<char>)>)
    ensures
        reason_bytes(r) >= 0,
        pair_bytes(p) >= 0,
{
    lemma_text_bytes_nonneg(r.intent_ids);
    lemma_text_bytes_nonneg(r.requirement_ids);
    lemma_text_bytes_nonneg(r.capability_ids);
    lemma_pair_bytes_nonneg(p);
}

/// Every byte estimate of a plan's changes and findings is a count.
pub proof fn lemma_plan_bytes_nonneg(
    c: Seq<(Seq<char>, Option<Seq<char>>, Seq<char>)>,
    f: Seq<(Seq<char>, crate::planner::PlanFindingLevel, Seq<char>)>,
)
    ensures
        change_bytes(c) >= 0,
        finding_bytes(f) >= 0,
{
    lemma_change_bytes_nonneg(c);
    lemma_finding_bytes_nonneg(f);
}

/// UTF-8 bytes of a text, as a capped count.
pub fn str_bytes(s: &str) -> (r: usize)
    ensures
        r == capped(utf8_len(s@) as int),
{
    byte_len(s)
}

/// Total bytes of a list of identifiers, capped.
pub fn ids_bytes<T: TextId>(ids: &Vec<T>) -> (r: usize)
    ensures
        r == capped(text_bytes(texts(ids@))),
{
    let ghost s = texts(ids@);
    let mut acc: usize = 0;
    let mut i: usize = 0;
    while i < ids.len()
        invariant
            i <= ids@.len(),
            s == texts(ids@),
            acc == capped(text_bytes(s.take(i as int))),
        decreases ids@.len() - i,
    {
        proof {
            lemma_text_bytes_nonneg(s.take(i as int));
            assert(s.take(i + 1).drop_last() =~= s.take(i as int));
            assert(s.take(i + 1).last() == ids@[i as int]@);
        }
        let t = str_bytes(ids[i].text_of());
        acc = add_capped(acc, t, Ghost(text_bytes(s.take(i as int))), Ghost(utf8_len(ids@[i as int]@) as int));
        i = i + 1;
    }
    assert(s.take(i as int) =~= s);
    acc
}

/// Total bytes of the keys and values of a text map, capped.
pub fn state_bytes(state: &TextMap<String>) -> (r: usize)
    ensures
        r == capped(pair_bytes(state@)),
{
    let ghost s = state@;
    let mut acc: usize = 0;
    let mut i: usize = 0;
    let n = state.len();
    while i < n
        invariant
            i <= n,
            n == s.len(),
            s == state@,
            acc == capped(pair_bytes(s.take(i as int))),
        decreases n - i,
    {
        proof {
            lemma_pair_bytes_nonneg(s.take(i as int));
            assert(s.take(i + 1).drop_last() =~= s.take(i as int));
            assert(s.take(i + 1).last() == s[i as int]);
        }
        let k = str_bytes(state.key_at(i).as_str());
        let v = str_bytes(state.value_at(i).as_str());
        let kv = add_capped(k, v, Ghost(utf8_len(s[i as int].0) as int), Ghost(utf8_len(s[i as int].1) as int));
        acc = add_capped(
            acc,
            kv,
            Ghost(pair_bytes(s.take(i as int))),
            Ghost((utf8_len(s[i as int].0) + utf8_len(s[i as int].1)) as int),
        );
        i = i + 1;
    }
    assert(s.take(i as int) =~= s);
    acc
}

/// Total bytes of a plan's changes, capped.
pub fn changes_bytes(changes: &Vec<StateChange>) -> (r: usize)
    ensures
        r == capped(change_bytes(crate::planner::views(changes@))),
{
    let ghost s = crate::planner::views(changes@);
    let mut acc: usize = 0;
    let mut i: usize = 0;
    while i < changes.len()
        invariant
            i <= changes@.len(),
            s == crate::planner::views(changes@),
            acc == capped(change_bytes(s.take(i as int))),
        decreases changes@.len() - i,
    {
        proof {
            lemma_change_bytes_nonneg(s.take(i as int));
            assert(s.take(i + 1).drop_last() =~= s.take(i as int));
            assert(s.take(i + 1).last() == changes@[i as int]@);
        }
        let c = &changes[i];
        let key = str_bytes(c.key.as_str());
        let current = match &c.current {
            Some(v) => str_bytes(v.as_str()),
            None => 0,
        };
        let desired = str_bytes(c.desired.as_str());
        let ghost kb = utf8_len(c.key@) as int;
        let ghost cb = opt_bytes(crate::planner::opt_view(c.current));
        let ghost db = utf8_len(c.desired@) as int;
        let kc = add_capped(key, current, Ghost(kb), Ghost(cb));
        let kcd = add_capped(kc, desired, Ghost(kb + cb), Ghost(db));
        acc = add_capped(acc, kcd, Ghost(change_bytes(s.take(i as int))), Ghost(kb + cb + db));
        i = i + 1;
    }
    assert(s.take(i as int) =~= s);
    acc
}

/// Total bytes of a plan's findings, capped.
pub fn findings_bytes(findings: &Vec<PlanFinding>) -> (r: usize)
    ensures
        r == capped(finding_bytes(crate::planner::views(findings@))),
{
    let ghost s = crate::planner::views(findings@);
    let mut acc: usize = 0;
    let mut i: usize = 0;
    while i < findings.len()
        invariant
            i <= findings@.len(),
            s == crate::planner::views(findings@),
            acc == capped(finding_bytes(s.take(i as int))),
        decreases findings@.len() - i,
    {
        proof {
            lemma_finding_bytes_nonneg(s.take(i as int));
            assert(s.take(i + 1).drop_last() =~= s.take(i as int));
            assert(s.take(i + 1).last() == findings@[i as int]@);
        }
        let f = &findings[i];
        let code = str_bytes(f.code.as_str());
        let message = str_bytes(f.message.as_str());
        let ghost cb = utf8_len(f.code@) as int;
        let ghost mb = utf8_len(f.message@) as int;
        let cm = add_capped(code, message, Ghost(cb), Ghost(mb));
        acc = add_capped(acc, cm, Ghost(finding_bytes(s.take(i as int))), Ghost(cb + mb));
        i = i + 1;
    }
    assert(s.take(i as int) =~= s);
    acc
}

/// Bytes of a semantic reason: its summary and every origin, capped.
pub fn semantic_reason_bytes(reason: &SemanticReason) -> (r: usize)
    ensures
        r == capped(reason_bytes(reason@)),
{
    let ghost m = reason@;
    proof {
        lemma_text_bytes_nonneg(m.intent_ids);
        lemma_text_bytes_nonneg(m.requirement_ids);
        lemma_text_bytes_nonneg(m.capability_ids);
    }
    let summary = str_bytes(reason.summary.as_str());
    let intents = ids_bytes(&reason.intent_ids);
    let requirements = ids_bytes(&reason.requirement_ids);
    let capabilities = ids_bytes(&reason.capability_ids);
    let ghost sb = utf8_len(m.summary) as int;
    let a = add_capped(summary, intents, Ghost(sb), Ghost(text_bytes(m.intent_ids)));
    let b = add_capped(
        a,
        requirements,
        Ghost(sb + text_bytes(m.intent_ids)),
        Ghost(text_bytes(m.requirement_ids)),
    );
    add_capped(
        b,
        capabilities,
        Ghost(sb + text_bytes(m.intent_ids) + text_bytes(m.requirement_ids)),
        Ghost(text_bytes(m.capability_ids)),
    )
}

} // verus!
