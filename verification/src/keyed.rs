//! Text keys in lexicographic order and a map kept sorted by them.
use vstd::prelude::*;

use crate::text::chars_of;

verus! {

/// Lexicographic order of character sequences, comparing code points.
pub open spec fn text_lt(a: Seq<char>, b: Seq<char>) -> bool
    decreases a.len(),
{
    if a.len() == 0 {
        b.len() > 0
    } else if b.len() == 0 {
        false
    } else if (a[0] as int) < (b[0] as int) {
        true
    } else if a[0] == b[0] {
        text_lt(a.drop_first(), b.drop_first())
    } else {
        false
    }
}

pub proof fn lemma_text_lt_irreflexive(a: Seq<char>)
    ensures
        !text_lt(a, a),
    decreases a.len(),
{
    if a.len() > 0 {
        lemma_text_lt_irreflexive(a.drop_first());
    }
}

pub proof fn lemma_text_lt_transitive(a: Seq<char>, b: Seq<char>, c: Seq<char>)
    requires
        text_lt(a, b),
        text_lt(b, c),
    ensures
        text_lt(a, c),
    decreases a.len(),
{
    if a.len() > 0 && b.len() > 0 && c.len() > 0 {
        if a[0] == b[0] && b[0] == c[0] {
            lemma_text_lt_transitive(a.drop_first(), b.drop_first(), c.drop_first());
        }
    }
}

pub proof fn lemma_text_lt_total(a: Seq<char>, b: Seq<char>)
    requires
        a != b,
    ensures
        text_lt(a, b) || text_lt(b, a),
    decreases a.len(),
{
    if a.len() > 0 && b.len() > 0 {
        if a[0] == b[0] {
            if a.drop_first() == b.drop_first() {
                assert(a =~= seq![a[0]] + a.drop_first());
                assert(b =~= seq![b[0]] + b.drop_first());
            }
            lemma_text_lt_total(a.drop_first(), b.drop_first());
        } else {
        }
    } else if a.len() == 0 && b.len() == 0 {
        assert(a =~= b);
    }
}

pub proof fn lemma_text_lt_asymmetric(a: Seq<char>, b: Seq<char>)
    requires
        text_lt(a, b),
    ensures
        !text_lt(b, a),
{
    if text_lt(b, a) {
        lemma_text_lt_transitive(a, b, a);
        lemma_text_lt_irreflexive(a);
    }
}

/// Outcome of comparing two keys.
#[derive(Clone, Copy, Debug, PartialEq, Eq)]
pub enum KeyOrder {
    Less,
    Same,
    Greater,
}

/// What comparing `a` with `b` gives.
pub open spec fn key_order(a: Seq<char>, b: Seq<char>) -> KeyOrder {
    if a == b {
        KeyOrder::Same
    } else if text_lt(a, b) {
        KeyOrder::Less
    } else {
        KeyOrder::Greater
    }
}

proof fn lemma_lt_skip(a: Seq<char>, b: Seq<char>, i: int)
    requires
        0 <= i <= a.len(),
        i <= b.len(),
        a.take(i) == b.take(i),
    ensures
        text_lt(a, b) == text_lt(a.skip(i), b.skip(i)),
    decreases i,
{
    if i > 0 {
        assert(a[0] == a.take(i)[0]);
        assert(b[0] == b.take(i)[0]);
        assert(a.drop_first().take(i - 1) =~= a.take(i).drop_first());
        assert(b.drop_first().take(i - 1) =~= b.take(i).drop_first());
        lemma_lt_skip(a.drop_first(), b.drop_first(), i - 1);
        assert(a.drop_first().skip(i - 1) =~= a.skip(i));
        assert(b.drop_first().skip(i - 1) =~= b.skip(i));
    } else {
        assert(a.skip(0) =~= a);
        assert(b.skip(0) =~= b);
    }
}

/// Compares two character slices lexicographically.
pub fn compare_chars(a: &[char], b: &[char]) -> (r: KeyOrder)
    ensures
        r == key_order(a@, b@),
{
    let mut i: usize = 0;
    while i < a.len() && i < b.len()
        invariant
            i <= a@.len(),
            i <= b@.len(),
            a@.take(i as int) == b@.take(i as int),
        decreases a@.len() - i,
    {
        if a[i] < b[i] {
            proof {
                lemma_lt_skip(a@, b@, i as int);
                assert(a@.skip(i as int)[0] == a@[i as int]);
                assert(b@.skip(i as int)[0] == b@[i as int]);
                assert(a@ != b@);
            }
            return KeyOrder::Less;
        }
        if a[i] != b[i] {
            proof {
                lemma_lt_skip(a@, b@, i as int);
                lemma_lt_skip(b@, a@, i as int);
                assert(a@.skip(i as int)[0] == a@[i as int]);
                assert(b@.skip(i as int)[0] == b@[i as int]);
                assert(a@ != b@);
            }
            return KeyOrder::Greater;
        }
        assert(a@.take(i + 1) =~= a@.take(i as int).push(a@[i as int]));
        assert(b@.take(i + 1) =~= b@.take(i as int).push(b@[i as int]));
        i = i + 1;
    }
    proof {
        lemma_lt_skip(a@, b@, i as int);
        lemma_lt_skip(b@, a@, i as int);
    }
    if a.len() == b.len() {
        assert(a@ =~= a@.take(i as int));
        assert(b@ =~= b@.take(i as int));
        KeyOrder::Same
    } else if i == a.len() {
        assert(a@ != b@ ) by {
            assert(a@.len() != b@.len());
        }
        KeyOrder::Less
    } else {
        assert(a@ != b@) by {
            assert(a@.len() != b@.len());
        }
        KeyOrder::Greater
    }
}

/// Compares two strings lexicographically.
pub fn compare_text(a: &str, b: &str) -> (r: KeyOrder)
    ensures
        r == key_order(a@, b@),
{
    let x = chars_of(a);
    let y = chars_of(b);
    compare_chars(x.as_slice(), y.as_slice())
}

/// Keys strictly increasing, hence distinct.
pub open spec fn sorted_keys<V>(p: Seq<(Seq<char>, V)>) -> bool {
    forall|i: int, j: int| 0 <= i < j < p.len() ==> text_lt(#[trigger] p[i].0, #[trigger] p[j].0)
}

/// Whether some entry has the key.
pub open spec fn has_key<V>(p: Seq<(Seq<char>, V)>, k: Seq<char>) -> bool {
    exists|i: int| 0 <= i < p.len() && #[trigger] p[i].0 == k
}

/// The value stored under a key: that of the first entry with the key.
pub open spec fn lookup<V>(p: Seq<(Seq<char>, V)>, k: Seq<char>) -> Option<V>
    decreases p.len(),
{
    if p.len() == 0 {
        None
    } else if p[0].0 == k {
        Some(p[0].1)
    } else {
        lookup(p.drop_first(), k)
    }
}

/// In sorted entries, the key of entry `i` finds entry `i`.
pub proof fn lemma_lookup_at<V>(p: Seq<(Seq<char>, V)>, i: int)
    requires
        sorted_keys(p),
        0 <= i < p.len(),
    ensures
        lookup(p, p[i].0) == Some(p[i].1),
    decreases i,
{
    if i > 0 {
        assert(text_lt(p[0].0, p[i].0));
        lemma_text_lt_irreflexive(p[i].0);
        let q = p.drop_first();
        assert(sorted_keys(q)) by {
            assert forall|a: int, b: int| 0 <= a < b < q.len() implies text_lt(
                #[trigger] q[a].0,
                #[trigger] q[b].0,
            ) by {
                assert(q[a] == p[a + 1]);
                assert(q[b] == p[b + 1]);
            }
        }
        lemma_lookup_at(q, i - 1);
    }
}

/// A key that finds a value is the key of some entry.
pub proof fn lemma_lookup_present<V>(p: Seq<(Seq<char>, V)>, k: Seq<char>)
    requires
        lookup(p, k) is Some,
    ensures
        has_key(p, k),
    decreases p.len(),
{
    if p[0].0 != k {
        let q = p.drop_first();
        lemma_lookup_present(q, k);
        let j = choose|j: int| 0 <= j < q.len() && #[trigger] q[j].0 == k;
        assert(p[j + 1].0 == k);
    }
}

/// A key of some entry finds a value.
pub proof fn lemma_has_key_finds<V>(p: Seq<(Seq<char>, V)>, k: Seq<char>)
    requires
        has_key(p, k),
    ensures
        lookup(p, k) is Some,
    decreases p.len(),
{
    if p[0].0 != k {
        let q = p.drop_first();
        let j = choose|j: int| 0 <= j < p.len() && #[trigger] p[j].0 == k;
        assert(q[j - 1].0 == k);
        lemma_has_key_finds(q, k);
    }
}

/// A key that no entry has finds nothing.
pub proof fn lemma_lookup_absent<V>(p: Seq<(Seq<char>, V)>, k: Seq<char>)
    requires
        !has_key(p, k),
    ensures
        lookup(p, k) is None,
    decreases p.len(),
{
    if p.len() > 0 {
        assert(p[0].0 != k);
        let q = p.drop_first();
        assert(!has_key(q, k)) by {
            if has_key(q, k) {
                let j = choose|j: int| 0 <= j < q.len() && #[trigger] q[j].0 == k;
                assert(p[j + 1].0 == k);
            }
        }
        lemma_lookup_absent(q, k);
    }
}

/// In sorted entries, two entries with one key are the same entry.
pub proof fn lemma_keys_distinct<V>(p: Seq<(Seq<char>, V)>, a: int, b: int)
    requires
        sorted_keys(p),
        0 <= a < p.len(),
        0 <= b < p.len(),
        p[a].0 == p[b].0,
    ensures
        a == b,
{
    if a != b {
        lemma_text_lt_irreflexive(p[a].0);
    }
}

/// Sorted entries are determined by what each key finds.
pub proof fn lemma_sorted_ext<V>(p: Seq<(Seq<char>, V)>, q: Seq<(Seq<char>, V)>)
    requires
        sorted_keys(p),
        sorted_keys(q),
        forall|k: Seq<char>| #[trigger] lookup(p, k) == lookup(q, k),
    ensures
        p == q,
    decreases p.len() + q.len(),
{
    if p.len() == 0 {
        if q.len() > 0 {
            lemma_lookup_at(q, 0);
            assert(lookup(p, q[0].0) == lookup(q, q[0].0));
        }
        assert(p =~= q);
    } else if q.len() == 0 {
        lemma_lookup_at(p, 0);
        assert(lookup(p, p[0].0) == lookup(q, p[0].0));
    } else {
        lemma_lookup_at(p, 0);
        lemma_lookup_at(q, 0);
        assert(lookup(p, p[0].0) == lookup(q, p[0].0));
        assert(lookup(p, q[0].0) == lookup(q, q[0].0));
        lemma_lookup_present(q, p[0].0);
        lemma_lookup_present(p, q[0].0);
        let j = choose|j: int| 0 <= j < q.len() && #[trigger] q[j].0 == p[0].0;
        let i = choose|i: int| 0 <= i < p.len() && #[trigger] p[i].0 == q[0].0;
        if p[0].0 != q[0].0 {
            assert(j > 0);
            assert(i > 0);
            assert(text_lt(q[0].0, q[j].0));
            assert(text_lt(p[0].0, p[i].0));
            lemma_text_lt_asymmetric(q[0].0, p[0].0);
        }
        let pt = p.drop_first();
        let qt = q.drop_first();
        assert(sorted_keys(pt)) by {
            assert forall|a: int, b: int| 0 <= a < b < pt.len() implies text_lt(
                #[trigger] pt[a].0,
                #[trigger] pt[b].0,
            ) by {
                assert(pt[a] == p[a + 1]);
                assert(pt[b] == p[b + 1]);
            }
        }
        assert(sorted_keys(qt)) by {
            assert forall|a: int, b: int| 0 <= a < b < qt.len() implies text_lt(
                #[trigger] qt[a].0,
                #[trigger] qt[b].0,
            ) by {
                assert(qt[a] == q[a + 1]);
                assert(qt[b] == q[b + 1]);
            }
        }
        assert forall|k: Seq<char>| #[trigger] lookup(pt, k) == lookup(qt, k) by {
            assert(lookup(p, k) == lookup(q, k));
            if k == p[0].0 {
                if has_key(pt, k) {
                    let a = choose|a: int| 0 <= a < pt.len() && #[trigger] pt[a].0 == k;
                    assert(p[a + 1].0 == k);
                    lemma_keys_distinct(p, 0, a + 1);
                }
                if has_key(qt, k) {
                    let a = choose|a: int| 0 <= a < qt.len() && #[trigger] qt[a].0 == k;
                    assert(q[a + 1].0 == k);
                    lemma_keys_distinct(q, 0, a + 1);
                }
                lemma_lookup_absent(pt, k);
                lemma_lookup_absent(qt, k);
            }
        }
        lemma_sorted_ext(pt, qt);
        assert(p =~= seq![p[0]] + pt);
        assert(q =~= seq![q[0]] + qt);
    }
}

/// A key has an entry exactly when it finds a value.
pub proof fn lemma_has_key_lookup<V>(p: Seq<(Seq<char>, V)>, k: Seq<char>)
    ensures
        has_key(p, k) == lookup(p, k) is Some,
{
    if has_key(p, k) {
        lemma_has_key_finds(p, k);
    } else {
        lemma_lookup_absent(p, k);
    }
}

/// Removing entry `i` from sorted entries keeps them sorted, loses its key
/// and keeps every other key's value.
pub proof fn lemma_lookup_removed<V>(p: Seq<(Seq<char>, V)>, i: int, k: Seq<char>)
    requires
        sorted_keys(p),
        0 <= i < p.len(),
    ensures
        sorted_keys(p.remove(i)),
        lookup(p.remove(i), k) == if k == p[i].0 {
            None
        } else {
            lookup(p, k)
        },
{
    let q = p.remove(i);
    assert forall|a: int, b: int| 0 <= a < b < q.len() implies text_lt(
        #[trigger] q[a].0,
        #[trigger] q[b].0,
    ) by {
        let pa = if a < i { a } else { a + 1 };
        let pb = if b < i { b } else { b + 1 };
        assert(q[a] == p[pa]);
        assert(q[b] == p[pb]);
    }
    if has_key(q, k) {
        let j = choose|j: int| 0 <= j < q.len() && #[trigger] q[j].0 == k;
        let pj = if j < i { j } else { j + 1 };
        assert(q[j] == p[pj]);
        if k == p[i].0 {
            lemma_keys_distinct(p, i, pj);
        } else {
            lemma_lookup_at(q, j);
            lemma_lookup_at(p, pj);
        }
    } else {
        lemma_lookup_absent(q, k);
        if k != p[i].0 && has_key(p, k) {
            let m = choose|m: int| 0 <= m < p.len() && #[trigger] p[m].0 == k;
            let qm = if m < i { m } else { m - 1 };
            assert(q[qm] == p[m]);
        }
        if k != p[i].0 {
            lemma_has_key_lookup(p, k);
        }
    }
}

/// Placing `(k, v)` at `i` in entries that stay sorted makes `k` find `v` and
/// keeps every other key's value.
pub proof fn lemma_lookup_inserted<V>(p: Seq<(Seq<char>, V)>, i: int, k: Seq<char>, v: V, k2: Seq<char>)
    requires
        0 <= i <= p.len(),
        sorted_keys(p.insert(i, (k, v))),
    ensures
        lookup(p.insert(i, (k, v)), k2) == if k2 == k {
            Some(v)
        } else {
            lookup(p, k2)
        },
        !has_key(p, k),
{
    let q = p.insert(i, (k, v));
    assert(q[i] == (k, v));
    if has_key(p, k) {
        let m = choose|m: int| 0 <= m < p.len() && #[trigger] p[m].0 == k;
        let qm = if m < i { m } else { m + 1 };
        assert(q[qm] == p[m]);
        lemma_keys_distinct(q, i, qm);
    }
    if k2 == k {
        lemma_lookup_at(q, i);
    } else if has_key(p, k2) {
        let m = choose|m: int| 0 <= m < p.len() && #[trigger] p[m].0 == k2;
        let qm = if m < i { m } else { m + 1 };
        assert(q[qm] == p[m]);
        assert(sorted_keys(p)) by {
            assert forall|a: int, b: int| 0 <= a < b < p.len() implies text_lt(
                #[trigger] p[a].0,
                #[trigger] p[b].0,
            ) by {
                let qa = if a < i { a } else { a + 1 };
                let qb = if b < i { b } else { b + 1 };
                assert(q[qa] == p[a]);
                assert(q[qb] == p[b]);
            }
        }
        lemma_lookup_at(q, qm);
        lemma_lookup_at(p, m);
    } else {
        lemma_lookup_absent(p, k2);
        if has_key(q, k2) {
            let j = choose|j: int| 0 <= j < q.len() && #[trigger] q[j].0 == k2;
            let pj = if j < i { j } else { j - 1 };
            assert(j != i);
            assert(q[j] == p[pj]);
        }
        lemma_lookup_absent(q, k2);
    }
}

/// Replacing the value of entry `i` in sorted entries keeps them sorted and
/// changes what its key finds only.
pub proof fn lemma_lookup_updated<V>(p: Seq<(Seq<char>, V)>, i: int, v: V, k2: Seq<char>)
    requires
        sorted_keys(p),
        0 <= i < p.len(),
    ensures
        sorted_keys(p.update(i, (p[i].0, v))),
        lookup(p.update(i, (p[i].0, v)), k2) == if k2 == p[i].0 {
            Some(v)
        } else {
            lookup(p, k2)
        },
{
    let q = p.update(i, (p[i].0, v));
    assert forall|a: int, b: int| 0 <= a < b < q.len() implies text_lt(
        #[trigger] q[a].0,
        #[trigger] q[b].0,
    ) by {
        assert(q[a].0 == p[a].0);
        assert(q[b].0 == p[b].0);
    }
    if k2 == p[i].0 {
        lemma_lookup_at(q, i);
    } else if has_key(p, k2) {
        let m = choose|m: int| 0 <= m < p.len() && #[trigger] p[m].0 == k2;
        assert(q[m] == p[m]);
        lemma_lookup_at(q, m);
        lemma_lookup_at(p, m);
    } else {
        lemma_lookup_absent(p, k2);
        if has_key(q, k2) {
            let j = choose|j: int| 0 <= j < q.len() && #[trigger] q[j].0 == k2;
            assert(q[j].0 == p[j].0);
        }
        lemma_lookup_absent(q, k2);
    }
}

/// A map from text keys to values whose entries stay sorted by key.
#[derive(Debug, PartialEq, Eq)]
pub struct TextMap<V: View> {
    entries: Vec<(String, V)>,
}

/// The entries of a map, each key taken by its text.
pub open spec fn entry_views<V: View>(entries: Seq<(String, V)>) -> Seq<(Seq<char>, V::V)> {
    entries.map_values(|e: (String, V)| (e.0@, e.1@))
}

impl<V: View> View for TextMap<V> {
    type V = Seq<(Seq<char>, V::V)>;

    closed spec fn view(&self) -> Seq<(Seq<char>, V::V)> {
        entry_views(self.entries@)
    }
}

impl<V: View> TextMap<V> {
    #[verifier::type_invariant]
    closed spec fn well_formed(self) -> bool {
        sorted_keys(entry_views(self.entries@))
    }

    /// An empty map.
    pub fn new() -> (r: Self)
        ensures
            r@ == Seq::<(Seq<char>, V::V)>::empty(),
            sorted_keys(r@),
    {
        let r = TextMap { entries: Vec::new() };
        assert(entry_views(r.entries@) =~= Seq::<(Seq<char>, V::V)>::empty());
        r
    }

    /// Number of entries; the entries are always sorted by key.
    pub fn len(&self) -> (r: usize)
        ensures
            r == self@.len(),
            sorted_keys(self@),
    {
        proof {
            use_type_invariant(self);
        }
        self.entries.len()
    }

    /// Whether there are no entries.
    pub fn is_empty(&self) -> (r: bool)
        ensures
            r == (self@.len() == 0),
    {
        self.entries.len() == 0
    }

    /// The key of entry `i`, in key order.
    pub fn key_at(&self, i: usize) -> (r: &String)
        requires
            i < self@.len(),
        ensures
            r@ == self@[i as int].0,
    {
        &self.entries[i].0
    }

    /// The value of entry `i`, in key order.
    pub fn value_at(&self, i: usize) -> (r: &V)
        requires
            i < self@.len(),
        ensures
            r@ == self@[i as int].1,
    {
        &self.entries[i].1
    }

    /// Index of the first entry whose key is not below `key`.
    fn lower_bound(&self, key: &str) -> (r: usize)
        ensures
            r <= self@.len(),
            forall|i: int| 0 <= i < r ==> text_lt(#[trigger] self@[i].0, key@),
            r == self@.len() || !text_lt(self@[r as int].0, key@),
    {
        let mut i: usize = 0;
        while i < self.entries.len()
            invariant
                i <= self@.len(),
                self@.len() == self.entries@.len(),
                forall|j: int| 0 <= j < i ==> text_lt(#[trigger] self@[j].0, key@),
            decreases self@.len() - i,
        {
            assert(self@[i as int].0 == self.entries@[i as int].0@);
            match compare_text(self.entries[i].0.as_str(), key) {
                KeyOrder::Less => {
                    i = i + 1;
                },
                _ => {
                    proof {
                        lemma_text_lt_irreflexive(key@);
                    }
                    return i;
                },
            }
        }
        i
    }

    /// The value stored under `key`.
    pub fn get(&self, key: &str) -> (r: Option<&V>)
        ensures
            match r {
                Some(v) => lookup(self@, key@) == Some(v@),
                None => lookup(self@, key@) is None,
            },
    {
        proof {
            use_type_invariant(self);
        }
        match self.find(key) {
            Some(i) => {
                proof {
                    lemma_lookup_at(self@, i as int);
                }
                Some(&self.entries[i].1)
            },
            None => {
                proof {
                    lemma_lookup_absent(self@, key@);
                }
                None
            },
        }
    }

    /// Whether `key` has an entry.
    pub fn contains_key(&self, key: &str) -> (r: bool)
        ensures
            r == has_key(self@, key@),
    {
        match self.get(key) {
            Some(_) => {
                proof {
                    lemma_lookup_present(self@, key@);
                }
                true
            },
            None => {
                proof {
                    if has_key(self@, key@) {
                        lemma_has_key_finds(self@, key@);
                    }
                }
                false
            },
        }
    }

    /// Index of the entry with `key`, if there is one.
    fn find(&self, key: &str) -> (r: Option<usize>)
        ensures
            match r {
                Some(i) => i < self@.len() && self@[i as int].0 == key@,
                None => !has_key(self@, key@),
            },
    {
        proof {
            use_type_invariant(self);
        }
        let i = self.lower_bound(key);
        if i < self.entries.len() {
            assert(self@[i as int].0 == self.entries@[i as int].0@);
            match compare_text(self.entries[i].0.as_str(), key) {
                KeyOrder::Same => {
                    return Some(i);
                },
                _ => {},
            }
        }
        proof {
            if has_key(self@, key@) {
                let j = choose|j: int| 0 <= j < self@.len() && #[trigger] self@[j].0 == key@;
                if j < i {
                    lemma_text_lt_irreflexive(key@);
                } else if j > i {
                    lemma_text_lt_total(self@[i as int].0, key@);
                    lemma_text_lt_transitive(key@, self@[i as int].0, self@[j].0);
                    lemma_text_lt_irreflexive(key@);
                }
            }
        }
        None
    }

    /// Removes the entry stored under `key`, returning its value.
    pub fn remove(&mut self, key: &str) -> (r: Option<V>)
        ensures
            match r {
                Some(v) => lookup(old(self)@, key@) == Some(v@) && final(self)@.len() + 1
                    == old(self)@.len(),
                None => lookup(old(self)@, key@) is None && final(self)@ == old(self)@,
            },
            forall|k: Seq<char>|
                #[trigger] lookup(final(self)@, k) == if k == key@ {
                    None
                } else {
                    lookup(old(self)@, k)
                },
            sorted_keys(final(self)@),
    {
        proof {
            use_type_invariant(&*self);
        }
        let ghost p = self@;
        match self.find(key) {
            Some(i) => {
                proof {
                    lemma_lookup_at(p, i as int);
                }
                let mut entries = Vec::new();
                std::mem::swap(&mut entries, &mut self.entries);
                let old_entry = entries.remove(i);
                proof {
                    assert(entry_views(entries@) =~= p.remove(i as int));
                    assert forall|k: Seq<char>| #[trigger]
                        lookup(p.remove(i as int), k) == if k == key@ {
                            None
                        } else {
                            lookup(p, k)
                        } by {
                        lemma_lookup_removed(p, i as int, k);
                    }
                    lemma_lookup_removed(p, i as int, key@);
                }
                self.entries = entries;
                Some(old_entry.1)
            },
            None => {
                proof {
                    lemma_lookup_absent(p, key@);
                }
                None
            },
        }
    }

    /// Appends an entry whose key sorts after every key present.
    pub fn push_last(&mut self, key: String, value: V)
        requires
            old(self)@.len() == 0 || text_lt(old(self)@.last().0, key@),
        ensures
            final(self)@ == old(self)@.push((key@, value@)),
    {
        proof {
            use_type_invariant(&*self);
        }
        let ghost k = key@;
        let ghost v = value@;
        let ghost before = entry_views(self.entries@);
        let mut entries = Vec::new();
        std::mem::swap(&mut entries, &mut self.entries);
        entries.push((key, value));
        proof {
            assert(entry_views(entries@) =~= before.push((k, v)));
            assert forall|i: int, j: int| 0 <= i < j < before.len() + 1 implies text_lt(
                #[trigger] before.push((k, v))[i].0,
                #[trigger] before.push((k, v))[j].0,
            ) by {
                if j == before.len() && i < before.len() - 1 {
                    lemma_text_lt_transitive(before[i].0, before.last().0, k);
                }
            }
        }
        self.entries = entries;
    }

    /// Stores `value` under `key`, returning the value it replaces.
    pub fn insert(&mut self, key: String, value: V) -> (r: Option<V>)
        ensures
            match r {
                Some(v) => lookup(old(self)@, key@) == Some(v@) && final(self)@.len()
                    == old(self)@.len(),
                None => lookup(old(self)@, key@) is None && final(self)@.len() == old(self)@.len()
                    + 1,
            },
            forall|k: Seq<char>|
                #[trigger] lookup(final(self)@, k) == if k == key@ {
                    Some(value@)
                } else {
                    lookup(old(self)@, k)
                },
            sorted_keys(final(self)@),
    {
        proof {
            use_type_invariant(&*self);
        }
        let ghost p = self@;
        let ghost k = key@;
        let ghost vv = value@;
        match self.find(key.as_str()) {
            Some(i) => {
                proof {
                    lemma_lookup_at(p, i as int);
                }
                let mut entries = Vec::new();
                std::mem::swap(&mut entries, &mut self.entries);
                let old_entry = entries.remove(i);
                entries.insert(i, (key, value));
                proof {
                    assert(entry_views(entries@) =~= p.update(i as int, (p[i as int].0, vv)));
                    lemma_lookup_updated(p, i as int, vv, k);
                    assert forall|k2: Seq<char>| #[trigger]
                        lookup(p.update(i as int, (p[i as int].0, vv)), k2) == if k2 == k {
                            Some(vv)
                        } else {
                            lookup(p, k2)
                        } by {
                        lemma_lookup_updated(p, i as int, vv, k2);
                    }
                }
                self.entries = entries;
                Some(old_entry.1)
            },
            None => {
                proof {
                    lemma_lookup_absent(p, k);
                }
                let i = self.lower_bound(key.as_str());
                let mut entries = Vec::new();
                std::mem::swap(&mut entries, &mut self.entries);
                entries.insert(i, (key, value));
                proof {
                    let q = entry_views(entries@);
                    assert(q =~= p.insert(i as int, (k, vv)));
                    if i < p.len() {
                        assert(p[i as int].0 != k);
                        lemma_text_lt_total(p[i as int].0, k);
                    }
                    assert forall|a: int, b: int| 0 <= a < b < q.len() implies text_lt(
                        #[trigger] q[a].0,
                        #[trigger] q[b].0,
                    ) by {
                        if b < i {
                        } else if a < i && b == i {
                        } else if a < i && b > i {
                            assert(q[b].0 == p[b - 1].0);
                        } else if a == i {
                            assert(q[b].0 == p[b - 1].0);
                            if b - 1 > i {
                                lemma_text_lt_transitive(k, p[i as int].0, p[b - 1].0);
                            }
                        } else {
                            assert(q[a].0 == p[a - 1].0);
                            assert(q[b].0 == p[b - 1].0);
                        }
                    }
                    assert forall|k2: Seq<char>| #[trigger]
                        lookup(q, k2) == if k2 == k {
                            Some(vv)
                        } else {
                            lookup(p, k2)
                        } by {
                        lemma_lookup_inserted(p, i as int, k, vv, k2);
                    }
                }
                self.entries = entries;
                None
            },
        }
    }
}

impl<V: View + Clone> TextMap<V> {
    /// A copy with the same entries, given a value clone that keeps the view.
    pub fn clone_exact(&self) -> (r: Self)
        requires
            forall|a: V, b: V| #[trigger] call_ensures(V::clone, (&a,), b) ==> a@ == b@,
        ensures
            r@ == self@,
    {
        let mut out: Vec<(String, V)> = Vec::new();
        let mut i: usize = 0;
        while i < self.entries.len()
            invariant
                i <= self.entries@.len(),
                entry_views(out@) == entry_views(self.entries@.take(i as int)),
                forall|a: V, b: V| #[trigger] call_ensures(V::clone, (&a,), b) ==> a@ == b@,
            decreases self.entries@.len() - i,
        {
            let k = self.entries[i].0.clone();
            let v = self.entries[i].1.clone();
            let ghost before = out@;
            out.push((k, v));
            assert(entry_views(out@) =~= entry_views(before).push((k@, v@)));
            assert(self.entries@.take(i + 1) == self.entries@.take(i as int).push(
                self.entries@[i as int],
            ));
            assert(entry_views(self.entries@.take(i + 1)) =~= entry_views(
                self.entries@.take(i as int),
            ).push((self.entries@[i as int].0@, self.entries@[i as int].1@)));
            i = i + 1;
        }
        assert(self.entries@.take(i as int) == self.entries@);
        proof {
            use_type_invariant(self);
        }
        TextMap { entries: out }
    }
}

impl Clone for TextMap<String> {
    fn clone(&self) -> (r: Self)
        ensures
            r@ == self@,
    {
        self.clone_exact()
    }
}

impl TextMap<String> {
    /// Whether both maps hold the same keys with the same values.
    pub fn same_as(&self, other: &Self) -> (r: bool)
        ensures
            r == (self@ == other@),
    {
        if self.entries.len() != other.entries.len() {
            assert(self@.len() != other@.len());
            return false;
        }
        let mut i: usize = 0;
        while i < self.entries.len()
            invariant
                i <= self@.len(),
                self@.len() == other@.len(),
                self@.len() == self.entries@.len(),
                forall|j: int| 0 <= j < i ==> self@[j] == other@[j],
            decreases self@.len() - i,
        {
            assert(self@[i as int] == (self.entries@[i as int].0@, self.entries@[i as int].1@));
            assert(other@[i as int] == (other.entries@[i as int].0@, other.entries@[i as int].1@));
            if !(self.entries[i].0 == other.entries[i].0 && self.entries[i].1 == other.entries[i].1) {
                return false;
            }
            i = i + 1;
        }
        assert(self@ =~= other@);
        true
    }
}

} // verus!
