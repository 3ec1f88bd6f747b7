//! Ordered maps and sets keyed by strings.
//!
//! The documents built by this library keep their named members (schema
//! properties, responses by status code, definitions by name, scopes) in maps
//! that are walked in ascending key order. `StrMap` keeps its entries in a
//! vector sorted by key, with that order as its type invariant, so that
//! walking the entries yields the keys in the order a `BTreeMap<String, _>`
//! yields them.
//!
//! Keys are compared character by character by code point. UTF-8 encodes
//! code points so that byte order and code point order agree, so this is the
//! order of `str`'s `Ord`.
use vstd::prelude::*;
use vstd::string::*;

verus! {

/// Three-way outcome of comparing two keys.
pub enum KeyOrder {
    Less,
    Equal,
    Greater,
}

/// `a` sorts before `b`, and the two first differ at position `i`
/// (or `a` ends there while `b` goes on).
pub open spec fn key_lt_at(a: Seq<char>, b: Seq<char>, i: int) -> bool {
    &&& 0 <= i <= a.len()
    &&& i < b.len()
    &&& forall|j: int| 0 <= j < i ==> a[j] == b[j]
    &&& (i == a.len() || (a[i] as int) < (b[i] as int))
}

/// Lexicographic order on keys, comparing characters by code point.
pub open spec fn key_lt(a: Seq<char>, b: Seq<char>) -> bool {
    exists|i: int| #[trigger] key_lt_at(a, b, i)
}

/// Keys strictly ascending: the shape of a key list walked in order.
pub open spec fn keys_ascending(ks: Seq<Seq<char>>) -> bool {
    forall|i: int, j: int| 0 <= i < j < ks.len() ==> key_lt(ks[i], ks[j])
}

/// The keys of a list of entries, in order.
pub open spec fn entry_keys<V>(es: Seq<(String, V)>) -> Seq<Seq<char>> {
    es.map_values(|e: (String, V)| e.0@)
}

/// No key occurs twice among the entries.
pub open spec fn keys_distinct<V>(es: Seq<(String, V)>) -> bool {
    forall|i: int, j: int|
        0 <= i < es.len() && 0 <= j < es.len() && i != j ==> es[i].0@ != es[j].0@
}

/// Entry `i` carries key `k`.
pub open spec fn has_key_at<V>(es: Seq<(String, V)>, k: Seq<char>, i: int) -> bool {
    0 <= i < es.len() && es[i].0@ == k
}

/// The map that a list of entries with distinct keys stands for.
pub open spec fn entries_map<V>(es: Seq<(String, V)>) -> Map<Seq<char>, V> {
    Map::new(
        |k: Seq<char>| exists|i: int| #[trigger] has_key_at(es, k, i),
        |k: Seq<char>| es[choose|i: int| #[trigger] has_key_at(es, k, i)].1,
    )
}

pub proof fn lemma_key_lt_irreflexive(a: Seq<char>)
    ensures
        !key_lt(a, a),
{
    assert forall|i: int| !key_lt_at(a, a, i) by {}
}

pub proof fn lemma_key_lt_transitive(a: Seq<char>, b: Seq<char>, c: Seq<char>)
    requires
        key_lt(a, b),
        key_lt(b, c),
    ensures
        key_lt(a, c),
{
    let i = choose|i: int| key_lt_at(a, b, i);
    let j = choose|j: int| key_lt_at(b, c, j);
    if i < j {
        assert(key_lt_at(a, c, i));
    } else if j < i {
        assert(key_lt_at(a, c, j));
    } else {
        assert(key_lt_at(a, c, i));
    }
}

/// Keys that ascend are distinct.
pub proof fn lemma_ascending_distinct<V>(es: Seq<(String, V)>)
    requires
        keys_ascending(entry_keys(es)),
    ensures
        keys_distinct(es),
{
    assert forall|i: int, j: int|
        0 <= i < es.len() && 0 <= j < es.len() && i != j implies es[i].0@ != es[j].0@ by {
        if i < j {
            assert(key_lt(entry_keys(es)[i], entry_keys(es)[j]));
        } else {
            assert(key_lt(entry_keys(es)[j], entry_keys(es)[i]));
        }
        lemma_key_lt_irreflexive(es[i].0@);
    }
}

/// Entry `i` is what the map holds under its key.
pub proof fn lemma_entries_map_at<V>(es: Seq<(String, V)>, i: int)
    requires
        keys_distinct(es),
        0 <= i < es.len(),
    ensures
        entries_map(es).contains_key(es[i].0@),
        entries_map(es)[es[i].0@] == es[i].1,
{
    let k = es[i].0@;
    assert(has_key_at(es, k, i));
    let j = choose|j: int| #[trigger] has_key_at(es, k, j);
}

/// A key that no entry carries is not in the map.
pub proof fn lemma_entries_map_absent<V>(es: Seq<(String, V)>, k: Seq<char>)
    requires
        forall|i: int| 0 <= i < es.len() ==> es[i].0@ != k,
    ensures
        !entries_map(es).contains_key(k),
{
}

/// Inserting an entry with a new key anywhere in the list inserts it in the map.
pub proof fn lemma_entries_map_insert<V>(es: Seq<(String, V)>, p: int, e: (String, V))
    requires
        keys_distinct(es),
        0 <= p <= es.len(),
        forall|i: int| 0 <= i < es.len() ==> es[i].0@ != e.0@,
    ensures
        keys_distinct(es.insert(p, e)),
        entries_map(es.insert(p, e)) == entries_map(es).insert(e.0@, e.1),
{
    let ns = es.insert(p, e);
    let lhs = entries_map(ns);
    let rhs = entries_map(es).insert(e.0@, e.1);
    assert forall|k: Seq<char>| #[trigger] lhs.contains_key(k) <==> rhs.contains_key(k) by {
        if lhs.contains_key(k) {
            let i = choose|i: int| #[trigger] has_key_at(ns, k, i);
            if i < p {
                assert(has_key_at(es, k, i));
            } else if i > p {
                assert(has_key_at(es, k, i - 1));
            }
        }
        if rhs.contains_key(k) {
            if k == e.0@ {
                assert(has_key_at(ns, k, p));
            } else {
                let i = choose|i: int| #[trigger] has_key_at(es, k, i);
                if i < p {
                    assert(has_key_at(ns, k, i));
                } else {
                    assert(has_key_at(ns, k, i + 1));
                }
            }
        }
    }
    assert forall|k: Seq<char>| #[trigger] lhs.contains_key(k) implies lhs[k] == rhs[k] by {
        let i = choose|i: int| #[trigger] has_key_at(ns, k, i);
        lemma_entries_map_at(ns, i);
        if i < p {
            lemma_entries_map_at(es, i);
        } else if i > p {
            lemma_entries_map_at(es, i - 1);
        }
    }
}

/// Replacing the value of an entry replaces it in the map.
pub proof fn lemma_entries_map_update<V>(es: Seq<(String, V)>, p: int, e: (String, V))
    requires
        keys_distinct(es),
        0 <= p < es.len(),
        es[p].0@ == e.0@,
    ensures
        keys_distinct(es.update(p, e)),
        entry_keys(es.update(p, e)) == entry_keys(es),
        entries_map(es.update(p, e)) == entries_map(es).insert(e.0@, e.1),
{
    let ns = es.update(p, e);
    let lhs = entries_map(ns);
    let rhs = entries_map(es).insert(e.0@, e.1);
    assert forall|k: Seq<char>| #[trigger] lhs.contains_key(k) <==> rhs.contains_key(k) by {
        if lhs.contains_key(k) {
            let i = choose|i: int| #[trigger] has_key_at(ns, k, i);
            if i != p {
                assert(has_key_at(es, k, i));
            }
        }
        if rhs.contains_key(k) {
            if k == e.0@ {
                assert(has_key_at(ns, k, p));
            } else {
                let i = choose|i: int| #[trigger] has_key_at(es, k, i);
                assert(has_key_at(ns, k, i));
            }
        }
    }
    assert forall|k: Seq<char>| #[trigger] lhs.contains_key(k) implies lhs[k] == rhs[k] by {
        let i = choose|i: int| #[trigger] has_key_at(ns, k, i);
        lemma_entries_map_at(ns, i);
        if i != p {
            lemma_entries_map_at(es, i);
        }
    }
}

/// Removing an entry removes its key from the map.
pub proof fn lemma_entries_map_remove<V>(es: Seq<(String, V)>, p: int)
    requires
        keys_distinct(es),
        0 <= p < es.len(),
    ensures
        keys_distinct(es.remove(p)),
        entries_map(es.remove(p)) == entries_map(es).remove(es[p].0@),
{
    let ns = es.remove(p);
    let k0 = es[p].0@;
    let lhs = entries_map(ns);
    let rhs = entries_map(es).remove(k0);
    assert forall|k: Seq<char>| #[trigger] lhs.contains_key(k) <==> rhs.contains_key(k) by {
        if lhs.contains_key(k) {
            let i = choose|i: int| #[trigger] has_key_at(ns, k, i);
            let oi = if i < p { i } else { i + 1 };
            assert(has_key_at(es, k, oi));
        }
        if rhs.contains_key(k) {
            let i = choose|i: int| #[trigger] has_key_at(es, k, i);
            if i < p {
                assert(has_key_at(ns, k, i));
            } else {
                assert(has_key_at(ns, k, i - 1));
            }
        }
    }
    assert forall|k: Seq<char>| #[trigger] lhs.contains_key(k) implies lhs[k] == rhs[k] by {
        let i = choose|i: int| #[trigger] has_key_at(ns, k, i);
        lemma_entries_map_at(ns, i);
        let oi = if i < p { i } else { i + 1 };
        lemma_entries_map_at(es, oi);
    }
}

/// Compares two keys in the order `StrMap` keeps them.
pub fn compare_keys(a: &str, b: &str) -> (r: KeyOrder)
    ensures
        match r {
            KeyOrder::Less => key_lt(a@, b@),
            KeyOrder::Equal => a@ == b@,
            KeyOrder::Greater => key_lt(b@, a@),
        },
{
    let la = a.unicode_len();
    let lb = b.unicode_len();
    let mut i: usize = 0;
    while i < la && i < lb
        invariant
            la == a@.len(),
            lb == b@.len(),
            i <= la,
            i <= lb,
            forall|j: int| 0 <= j < i ==> a@[j] == b@[j],
        decreases la - i,
    {
        let ca = a.get_char(i);
        let cb = b.get_char(i);
        if ca != cb {
            if (ca as u32) < (cb as u32) {
                assert(key_lt_at(a@, b@, i as int));
                return KeyOrder::Less;
            } else {
                assert(key_lt_at(b@, a@, i as int));
                return KeyOrder::Greater;
            }
        }
        i = i + 1;
    }
    if la == lb {
        KeyOrder::Equal
    } else if la < lb {
        assert(key_lt_at(a@, b@, la as int));
        KeyOrder::Less
    } else {
        assert(key_lt_at(b@, a@, lb as int));
        KeyOrder::Greater
    }
}

/// Where `key` stands among ascending entries: every entry before the
/// returned position sorts before `key`; the flag says whether the entry at
/// that position carries `key` itself; otherwise that entry, if any, sorts
/// after `key`.
fn locate<V>(es: &Vec<(String, V)>, key: &str) -> (r: (usize, bool))
    ensures
        r.0 <= es@.len(),
        forall|j: int| 0 <= j < r.0 ==> key_lt(#[trigger] es@[j].0@, key@),
        r.1 ==> r.0 < es@.len() && es@[r.0 as int].0@ == key@,
        !r.1 && r.0 < es@.len() ==> key_lt(key@, es@[r.0 as int].0@),
{
    let n = es.len();
    let mut p: usize = 0;
    while p < n
        invariant
            n == es@.len(),
            p <= n,
            forall|j: int| 0 <= j < p ==> key_lt(#[trigger] es@[j].0@, key@),
        decreases n - p,
    {
        match compare_keys(es[p].0.as_str(), key) {
            KeyOrder::Less => {
                p = p + 1;
            },
            KeyOrder::Equal => {
                return (p, true);
            },
            KeyOrder::Greater => {
                return (p, false);
            },
        }
    }
    (p, false)
}

/// Ascending entries, as `StrMap` and the schema's properties keep them.
pub open spec fn ascending_entries<V>(es: Seq<(String, V)>) -> bool {
    keys_ascending(entry_keys(es))
}

/// Whether an entry list is empty, said of the map it stands for.
pub proof fn lemma_entries_empty<V>(es: Seq<(String, V)>)
    requires
        keys_distinct(es),
    ensures
        (es.len() == 0) == (entries_map(es) == Map::<Seq<char>, V>::empty()),
{
    if es.len() == 0 {
        assert(entries_map(es) =~= Map::<Seq<char>, V>::empty());
    } else {
        lemma_entries_map_at(es, 0);
    }
}

/// A key that sorts between the entries before and after position `p`
/// is not among them.
proof fn lemma_absent_at<V>(es: Seq<(String, V)>, key: Seq<char>, p: int)
    requires
        ascending_entries(es),
        0 <= p <= es.len(),
        forall|j: int| 0 <= j < p ==> key_lt(#[trigger] es[j].0@, key),
        p < es.len() ==> key_lt(key, es[p].0@),
    ensures
        forall|i: int| 0 <= i < es.len() ==> es[i].0@ != key,
        !entries_map(es).contains_key(key),
{
    assert forall|i: int| 0 <= i < es.len() implies es[i].0@ != key by {
        lemma_key_lt_irreflexive(key);
        if i > p {
            assert(key_lt(entry_keys(es)[p], entry_keys(es)[i]));
            lemma_key_lt_transitive(key, es[p].0@, es[i].0@);
        }
    }
    lemma_entries_map_absent(es, key);
}

/// The value stored under `key` among ascending entries.
pub(crate) fn entries_get<'a, V>(es: &'a Vec<(String, V)>, key: &str) -> (r: Option<&'a V>)
    requires
        ascending_entries(es@),
    ensures
        match r {
            Some(v) => entries_map(es@).contains_key(key@) && *v == entries_map(es@)[key@],
            None => !entries_map(es@).contains_key(key@),
        },
{
    proof {
        lemma_ascending_distinct(es@);
    }
    let (p, found) = locate(es, key);
    if found {
        proof {
            lemma_entries_map_at(es@, p as int);
        }
        Some(&es[p].1)
    } else {
        proof {
            lemma_absent_at(es@, key@, p as int);
        }
        None
    }
}

/// Stores `value` under `key` among ascending entries, keeping them
/// ascending, and gives back the value it replaces.
pub(crate) fn entries_insert<V>(es: &mut Vec<(String, V)>, key: String, value: V) -> (prev: Option<V>)
    requires
        ascending_entries(old(es)@),
    ensures
        ascending_entries(final(es)@),
        entries_map(final(es)@) == entries_map(old(es)@).insert(key@, value),
        match prev {
            Some(v) => entries_map(old(es)@).contains_key(key@) && v == entries_map(old(es)@)[key@],
            None => !entries_map(old(es)@).contains_key(key@),
        },
{
    let ghost old_es = es@;
    proof {
        lemma_ascending_distinct(old_es);
    }
    let (p, found) = locate(es, key.as_str());
    if found {
        let (_, prev_value) = es.remove(p);
        es.insert(p, (key, value));
        proof {
            assert(es@ =~= old_es.update(p as int, (key, value)));
            lemma_entries_map_at(old_es, p as int);
            lemma_entries_map_update(old_es, p as int, (key, value));
        }
        Some(prev_value)
    } else {
        proof {
            lemma_absent_at(old_es, key@, p as int);
        }
        let ghost k = key@;
        es.insert(p, (key, value));
        proof {
            let ns = es@;
            lemma_entries_map_insert(old_es, p as int, (key, value));
            assert forall|i: int, j: int| 0 <= i < j < ns.len() implies key_lt(
                entry_keys(ns)[i],
                entry_keys(ns)[j],
            ) by {
                if j < p {
                    assert(key_lt(entry_keys(old_es)[i], entry_keys(old_es)[j]));
                } else if j == p {
                } else if i < p {
                    if j - 1 == p {
                        lemma_key_lt_transitive(ns[i].0@, k, ns[j].0@);
                    } else {
                        assert(key_lt(entry_keys(old_es)[p as int], entry_keys(old_es)[j - 1]));
                        lemma_key_lt_transitive(k, old_es[p as int].0@, old_es[j - 1].0@);
                        lemma_key_lt_transitive(ns[i].0@, k, ns[j].0@);
                    }
                } else if i == p {
                    if j - 1 > p {
                        assert(key_lt(entry_keys(old_es)[p as int], entry_keys(old_es)[j - 1]));
                        lemma_key_lt_transitive(k, old_es[p as int].0@, old_es[j - 1].0@);
                    }
                } else {
                    assert(key_lt(entry_keys(old_es)[i - 1], entry_keys(old_es)[j - 1]));
                }
            }
        }
        None
    }
}

/// Takes the value stored under `key` out of ascending entries.
pub(crate) fn entries_remove<V>(es: &mut Vec<(String, V)>, key: &str) -> (prev: Option<V>)
    requires
        ascending_entries(old(es)@),
    ensures
        ascending_entries(final(es)@),
        entries_map(final(es)@) == entries_map(old(es)@).remove(key@),
        match prev {
            Some(v) => entries_map(old(es)@).contains_key(key@) && v == entries_map(old(es)@)[key@],
            None => !entries_map(old(es)@).contains_key(key@),
        },
{
    let ghost old_es = es@;
    proof {
        lemma_ascending_distinct(old_es);
    }
    let (p, found) = locate(es, key);
    if found {
        proof {
            lemma_entries_map_at(old_es, p as int);
            lemma_entries_map_remove(old_es, p as int);
        }
        let (_, prev_value) = es.remove(p);
        proof {
            let ns = es@;
            assert forall|i: int, j: int| 0 <= i < j < ns.len() implies key_lt(
                entry_keys(ns)[i],
                entry_keys(ns)[j],
            ) by {
                let oi = if i < p { i } else { i + 1 };
                let oj = if j < p { j } else { j + 1 };
                assert(key_lt(entry_keys(old_es)[oi], entry_keys(old_es)[oj]));
            }
        }
        Some(prev_value)
    } else {
        proof {
            lemma_absent_at(old_es, key@, p as int);
        }
        None
    }
}

/// The map's domain is the set of the entries' keys, as many as there are entries.
pub proof fn lemma_dom_is_keys<V>(es: Seq<(String, V)>)
    requires
        keys_distinct(es),
    ensures
        entries_map(es).dom() == entry_keys(es).to_set(),
        entries_map(es).dom().len() == es.len(),
{
    let m = entries_map(es);
    let ks = entry_keys(es);
    assert forall|k: Seq<char>| #[trigger] m.dom().contains(k) <==> ks.to_set().contains(k) by {
        if m.dom().contains(k) {
            let i = choose|i: int| #[trigger] has_key_at(es, k, i);
            assert(ks[i] == k);
        }
        if ks.to_set().contains(k) {
            let i = choose|i: int| 0 <= i < ks.len() && ks[i] == k;
            assert(has_key_at(es, k, i));
        }
    }
    ks.unique_seq_to_set();
}

/// A map from strings to values that is walked in ascending key order.
pub struct StrMap<V> {
    entries: Vec<(String, V)>,
}

impl<V> StrMap<V> {
    #[verifier::type_invariant]
    spec fn ascending(self) -> bool {
        ascending_entries(self.entries@)
    }

    /// The entries in ascending key order.
    pub closed spec fn entries(self) -> Seq<(String, V)> {
        self.entries@
    }

    /// The keys in ascending order.
    pub open spec fn key_views(self) -> Seq<Seq<char>> {
        entry_keys(self.entries())
    }

    /// The map is empty.
    pub fn new() -> (m: Self)
        ensures
            m@ == Map::<Seq<char>, V>::empty(),
            m.entries().len() == 0,
    {
        let m = StrMap { entries: Vec::new() };
        m
    }

    /// The number of entries.
    pub fn len(&self) -> (n: usize)
        ensures
            n == self.entries().len(),
            n == self@.dom().len(),
    {
        proof {
            use_type_invariant(self);
            lemma_ascending_distinct(self.entries@);
            lemma_dom_is_keys(self.entries@);
        }
        self.entries.len()
    }

    /// Whether the map holds no entry.
    pub fn is_empty(&self) -> (b: bool)
        ensures
            b == (self@ == Map::<Seq<char>, V>::empty()),
            b == (self.entries().len() == 0),
    {
        proof {
            use_type_invariant(self);
            lemma_ascending_distinct(self.entries@);
            lemma_entries_empty(self.entries@);
        }
        self.entries.len() == 0
    }

    /// The value stored under `key`, if any.
    pub fn get(&self, key: &str) -> (r: Option<&V>)
        ensures
            match r {
                Some(v) => self@.contains_key(key@) && *v == self@[key@],
                None => !self@.contains_key(key@),
            },
    {
        proof {
            use_type_invariant(self);
        }
        entries_get(&self.entries, key)
    }

    /// Whether some entry carries `key`.
    pub fn contains_key(&self, key: &str) -> (b: bool)
        ensures
            b == self@.contains_key(key@),
    {
        match self.get(key) {
            Some(_) => true,
            None => false,
        }
    }

    /// Stores `value` under `key`, giving back the value it replaces.
    pub fn insert(&mut self, key: String, value: V) -> (prev: Option<V>)
        ensures
            final(self)@ == old(self)@.insert(key@, value),
            match prev {
                Some(v) => old(self)@.contains_key(key@) && v == old(self)@[key@],
                None => !old(self)@.contains_key(key@),
            },
    {
        proof {
            use_type_invariant(&*self);
        }
        let mut es: Vec<(String, V)> = Vec::new();
        std::mem::swap(&mut es, &mut self.entries);
        let prev = entries_insert(&mut es, key, value);
        self.entries = es;
        prev
    }

    /// Takes the value stored under `key` out of the map.
    pub fn remove(&mut self, key: &str) -> (prev: Option<V>)
        ensures
            final(self)@ == old(self)@.remove(key@),
            match prev {
                Some(v) => old(self)@.contains_key(key@) && v == old(self)@[key@],
                None => !old(self)@.contains_key(key@),
            },
    {
        proof {
            use_type_invariant(&*self);
        }
        let mut es: Vec<(String, V)> = Vec::new();
        std::mem::swap(&mut es, &mut self.entries);
        let prev = entries_remove(&mut es, key);
        self.entries = es;
        prev
    }

    /// The keys, in ascending order.
    pub fn keys(&self) -> (ks: Vec<String>)
        ensures
            ks@.map_values(|s: String| s@) == self.key_views(),
            keys_ascending(self.key_views()),
            self.key_views().to_set() == self@.dom(),
    {
        proof {
            use_type_invariant(self);
            lemma_ascending_distinct(self.entries@);
            lemma_dom_is_keys(self.entries@);
        }
        let mut ks: Vec<String> = Vec::new();
        let n = self.entries.len();
        for i in 0..n
            invariant
                n == self.entries@.len(),
                ks@.len() == i,
                forall|j: int| 0 <= j < i ==> #[trigger] ks@[j]@ == self.entries@[j].0@,
        {
            ks.push(self.entries[i].0.clone());
        }
        ks
    }

    /// Hands out the entries in ascending key order.
    pub fn into_entries(self) -> (es: Vec<(String, V)>)
        ensures
            es@ == self.entries(),
            keys_ascending(entry_keys(es@)),
            keys_distinct(es@),
            entries_map(es@) == self@,
    {
        proof {
            use_type_invariant(&self);
            lemma_ascending_distinct(self.entries@);
        }
        self.entries
    }

    /// Moves every entry of `other` into this map; where both hold a key,
    /// the value from `other` wins.
    pub fn append(&mut self, other: StrMap<V>)
        ensures
            final(self)@ == old(self)@.union_prefer_right(other@),
    {
        let es = other.into_entries();
        let ghost oes = es@;
        let ghost start = self@;
        let n = es.len();
        let mut rest = es;
        // Walk from the back so that each entry leaves `rest` in O(1).
        let mut i: usize = n;
        while i > 0
            invariant
                rest@ == oes.take(i as int),
                i <= n,
                n == oes.len(),
                keys_distinct(oes),
                self@ == start.union_prefer_right(entries_map(oes.skip(i as int))),
            decreases i,
        {
            let e = rest.pop().unwrap();
            i = i - 1;
            proof {
                let tail = oes.skip(i as int);
                let tail1 = oes.skip(i + 1);
                assert(tail =~= tail1.insert(0, e));
                assert forall|j: int| 0 <= j < tail1.len() implies tail1[j].0@ != e.0@ by {}
                lemma_entries_map_insert(tail1, 0, e);
                assert(start.union_prefer_right(entries_map(tail)) =~= start.union_prefer_right(
                    entries_map(tail1),
                ).insert(e.0@, e.1));
            }
            self.insert(e.0, e.1);
        }
        proof {
            assert(oes.skip(0) =~= oes);
        }
    }
}

impl<V> View for StrMap<V> {
    type V = Map<Seq<char>, V>;

    open spec fn view(&self) -> Map<Seq<char>, V> {
        entries_map(self.entries())
    }
}

impl StrMap<String> {
    /// A copy of a map of strings.
    pub fn duplicate(&self) -> (m: Self)
        ensures
            m@ == self@,
            m.key_views() == self.key_views(),
    {
        proof {
            use_type_invariant(self);
        }
        let mut es: Vec<(String, String)> = Vec::new();
        let n = self.entries.len();
        for i in 0..n
            invariant
                n == self.entries@.len(),
                es@.len() == i,
                forall|j: int| 0 <= j < i ==> #[trigger] es@[j] == self.entries@[j],
        {
            let k = self.entries[i].0.clone();
            let v = self.entries[i].1.clone();
            es.push((k, v));
        }
        assert(es@ =~= self.entries@);
        StrMap { entries: es }
    }
}

/// A set of strings, kept in ascending order.
pub struct StrSet {
    members: StrMap<()>,
}

impl View for StrSet {
    type V = Set<Seq<char>>;

    open spec fn view(&self) -> Set<Seq<char>> {
        self.members_view().dom()
    }
}

impl StrSet {
    pub closed spec fn members_view(self) -> Map<Seq<char>, ()> {
        self.members@
    }

    /// The set is empty.
    pub fn new() -> (s: Self)
        ensures
            s@ == Set::<Seq<char>>::empty(),
    {
        let s = StrSet { members: StrMap::new() };
        s
    }

    /// Adds `member`; says whether it was new.
    pub fn insert(&mut self, member: String) -> (added: bool)
        ensures
            final(self)@ == old(self)@.insert(member@),
            added == !old(self)@.contains(member@),
    {
        let prev = self.members.insert(member, ());
        prev.is_none()
    }

    /// Whether `member` belongs to the set.
    pub fn contains(&self, member: &str) -> (b: bool)
        ensures
            b == self@.contains(member@),
    {
        self.members.contains_key(member)
    }
}

} // verus!
