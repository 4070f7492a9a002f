//! Maps and sets that keep their keys in the order of their texts.
use vstd::prelude::*;
use crate::text::{text_eq, text_less, text_lt};
use crate::text::{lemma_text_less_irreflexive, lemma_text_less_total, lemma_text_less_transitive};

verus! {

/// A key that is identified and ordered by a text.
pub trait TextKey: Sized {
    /// The text of the key.
    spec fn text(&self) -> Seq<char>;

    /// The text of the key, as a string.
    fn as_text(&self) -> (r: &str)
        ensures
            r@ == self.text(),
    ;

    /// A key with the same text.
    fn duplicate(&self) -> (r: Self)
        ensures
            r == *self,
    ;
}

impl TextKey for String {
    open spec fn text(&self) -> Seq<char> {
        self@
    }

    fn as_text(&self) -> (r: &str) {
        self.as_str()
    }

    fn duplicate(&self) -> (r: Self) {
        self.clone()
    }
}

/// The keys of a map in increasing order, each once.
pub open spec fn lists_keys<V>(keys: Seq<Seq<char>>, map: Map<Seq<char>, V>) -> bool {
    &&& forall|i: int, j: int| 0 <= i < j < keys.len() ==> text_less(keys[i], keys[j])
    &&& forall|i: int| 0 <= i < keys.len() ==> map.contains_key(#[trigger] keys[i])
    &&& forall|k: Seq<char>| map.contains_key(k) ==> keys.contains(k)
}

/// The first text of a set in the order of texts.
pub open spec fn is_least(set: Set<Seq<char>>, k: Seq<char>) -> bool {
    &&& set.contains(k)
    &&& forall|other: Seq<char>| #[trigger] set.contains(other) ==> other == k || text_less(k, other)
}

/// The first text of a set, where it has one.
pub open spec fn least(set: Set<Seq<char>>) -> Option<Seq<char>> {
    if exists|k: Seq<char>| is_least(set, k) {
        Some(choose|k: Seq<char>| is_least(set, k))
    } else {
        None
    }
}

/// A set has at most one first text.
pub proof fn lemma_least_is(set: Set<Seq<char>>, k: Seq<char>)
    requires
        is_least(set, k),
    ensures
        least(set) == Some(k),
{
    let other = choose|other: Seq<char>| is_least(set, other);
    if other != k {
        assert(text_less(k, other) && text_less(other, k));
        lemma_text_less_transitive(k, other, k);
        lemma_text_less_irreflexive(k);
    }
}

/// The texts stored in a map of strings.
pub open spec fn value_texts(map: Map<Seq<char>, String>) -> Map<Seq<char>, Seq<char>> {
    map.map_values(|s: String| s@)
}

/// A map whose entries are kept in the order of their keys' texts.
#[derive(Debug, PartialEq, Eq)]
pub struct OrderedMap<K: TextKey, V> {
    entries: Vec<(K, V)>,
}

spec fn sorted<K: TextKey, V>(entries: Seq<(K, V)>) -> bool {
    forall|i: int, j: int|
        0 <= i < j < entries.len() ==> text_less(
            #[trigger] entries[i].0.text(),
            #[trigger] entries[j].0.text(),
        )
}

spec fn holds_at<K: TextKey, V>(entries: Seq<(K, V)>, key: Seq<char>, i: int) -> bool {
    0 <= i < entries.len() && entries[i].0.text() == key
}

spec fn as_map<K: TextKey, V>(entries: Seq<(K, V)>) -> Map<Seq<char>, V> {
    Map::new(
        |k: Seq<char>| exists|i: int| holds_at(entries, k, i),
        |k: Seq<char>| entries[choose|i: int| holds_at(entries, k, i)].1,
    )
}

/// In a sorted list of entries each key stands at one place.
proof fn lemma_one_place<K: TextKey, V>(entries: Seq<(K, V)>, key: Seq<char>, i: int, j: int)
    requires
        sorted(entries),
        holds_at(entries, key, i),
        holds_at(entries, key, j),
    ensures
        i == j,
{
    lemma_text_less_irreflexive(key);
    if i < j {
        assert(text_less(entries[i].0.text(), entries[j].0.text()));
    } else if j < i {
        assert(text_less(entries[j].0.text(), entries[i].0.text()));
    }
}

proof fn lemma_value_at<K: TextKey, V>(entries: Seq<(K, V)>, i: int)
    requires
        sorted(entries),
        0 <= i < entries.len(),
    ensures
        as_map(entries).contains_key(entries[i].0.text()),
        as_map(entries)[entries[i].0.text()] == entries[i].1,
{
    let key = entries[i].0.text();
    assert(holds_at(entries, key, i));
    let j = choose|j: int| holds_at(entries, key, j);
    lemma_one_place(entries, key, i, j);
}

impl<K: TextKey, V> View for OrderedMap<K, V> {
    type V = Map<Seq<char>, V>;

    closed spec fn view(&self) -> Map<Seq<char>, V> {
        as_map(self.entries@)
    }
}

impl<K: TextKey, V> OrderedMap<K, V> {
    #[verifier::type_invariant]
    spec fn wf(self) -> bool {
        sorted(self.entries@)
    }

    /// The texts of the keys, in order.
    pub closed spec fn keys(&self) -> Seq<Seq<char>> {
        self.entries@.map_values(|e: (K, V)| e.0.text())
    }

    /// The keys themselves, in order.
    pub closed spec fn key_list(&self) -> Seq<K> {
        self.entries@.map_values(|e: (K, V)| e.0)
    }

    /// The empty map.
    pub fn new() -> (r: Self)
        ensures
            r@ == Map::<Seq<char>, V>::empty(),
            r.keys().len() == 0,
    {
        let r = OrderedMap { entries: Vec::new() };
        assert(r@ =~= Map::<Seq<char>, V>::empty());
        r
    }

    /// The number of entries.
    pub fn len(&self) -> (n: usize)
        ensures
            n == self.keys().len(),
            n == self.key_list().len(),
            lists_keys(self.keys(), self@),
    {
        proof {
            use_type_invariant(self);
            let keys = self.keys();
            assert forall|i: int| 0 <= i < keys.len() implies self@.contains_key(
                #[trigger] keys[i],
            ) by {
                lemma_value_at(self.entries@, i);
            }
            assert forall|k: Seq<char>| self@.contains_key(k) implies keys.contains(k) by {
                let i = choose|i: int| holds_at(self.entries@, k, i);
                assert(keys[i] == k);
            }
        }
        self.entries.len()
    }

    /// The key at a place in the order.
    pub fn key_at(&self, i: usize) -> (r: &K)
        requires
            i < self.keys().len(),
        ensures
            r.text() == self.keys()[i as int],
            *r == self.key_list()[i as int],
    {
        &self.entries[i].0
    }

    /// The value at a place in the order.
    pub fn value_at(&self, i: usize) -> (r: &V)
        requires
            i < self.keys().len(),
        ensures
            self@.contains_key(self.keys()[i as int]),
            *r == self@[self.keys()[i as int]],
    {
        proof {
            use_type_invariant(self);
            lemma_value_at(self.entries@, i as int);
        }
        &self.entries[i].1
    }

    /// The first place whose key is not less than `key`.
    fn position(&self, key: &str) -> (p: usize)
        ensures
            p <= self.entries@.len(),
            forall|i: int| 0 <= i < p ==> text_less(#[trigger] self.entries@[i].0.text(), key@),
            forall|i: int|
                p <= i < self.entries@.len() ==> !text_less(
                    #[trigger] self.entries@[i].0.text(),
                    key@,
                ),
    {
        proof {
            use_type_invariant(self);
        }
        let mut p: usize = 0;
        while p < self.entries.len()
            invariant_except_break
                forall|i: int| 0 <= i < p ==> text_less(#[trigger] self.entries@[i].0.text(), key@),
            invariant
                p <= self.entries@.len(),
                sorted(self.entries@),
            ensures
                forall|i: int| 0 <= i < p ==> text_less(#[trigger] self.entries@[i].0.text(), key@),
                p < self.entries@.len() ==> !text_less(self.entries@[p as int].0.text(), key@),
            decreases self.entries@.len() - p,
        {
            if !text_lt(self.entries[p].0.as_text(), key) {
                break;
            }
            p = p + 1;
        }
        proof {
            assert forall|i: int| p <= i < self.entries@.len() implies !text_less(
                #[trigger] self.entries@[i].0.text(),
                key@,
            ) by {
                if i > p && text_less(self.entries@[i].0.text(), key@) {
                    lemma_text_less_transitive(
                        self.entries@[p as int].0.text(),
                        self.entries@[i].0.text(),
                        key@,
                    );
                }
            }
        }
        p
    }

    /// The value stored under a key.
    pub fn get(&self, key: &str) -> (r: Option<&V>)
        ensures
            match r {
                Some(v) => self@.contains_key(key@) && *v == self@[key@],
                None => !self@.contains_key(key@),
            },
    {
        proof {
            use_type_invariant(self);
        }
        let p = self.position(key);
        if p < self.entries.len() && text_eq(self.entries[p].0.as_text(), key) {
            proof {
                lemma_value_at(self.entries@, p as int);
            }
            Some(&self.entries[p].1)
        } else {
            proof {
                if self@.contains_key(key@) {
                    let i = choose|i: int| holds_at(self.entries@, key@, i);
                    lemma_text_less_irreflexive(key@);
                    if i > p {
                        assert(text_less(
                            self.entries@[p as int].0.text(),
                            self.entries@[i].0.text(),
                        ));
                    }
                }
            }
            None
        }
    }

    /// Whether a key is present.
    pub fn contains(&self, key: &str) -> (r: bool)
        ensures
            r == self@.contains_key(key@),
    {
        self.get(key).is_some()
    }

    /// Stores a value under a key, in place of the one that was there.
    pub fn insert(&mut self, key: K, value: V)
        ensures
            final(self)@ == old(self)@.insert(key.text(), value),
            old(self)@.contains_key(key.text()) ==> final(self).keys() == old(self).keys(),
    {
        proof {
            use_type_invariant(&*self);
        }
        let ghost before = self.entries@;
        let ghost text = key.text();
        let p = self.position(key.as_text());
        let present = p < self.entries.len() && text_eq(
            self.entries[p].0.as_text(),
            key.as_text(),
        );
        let mut entries: Vec<(K, V)> = Vec::new();
        std::mem::swap(&mut entries, &mut self.entries);
        if present {
            entries.set(p, (key, value));
            proof {
                let after = entries@;
                assert forall|i: int, j: int| 0 <= i < j < after.len() implies text_less(
                    #[trigger] after[i].0.text(),
                    #[trigger] after[j].0.text(),
                ) by {
                    assert(text_less(before[i].0.text(), before[j].0.text()));
                }
                assert(after.map_values(|e: (K, V)| e.0.text()) =~= before.map_values(
                    |e: (K, V)| e.0.text(),
                ));
                assert forall|k: Seq<char>|
                    as_map(after).contains_key(k) == as_map(before).insert(
                        text,
                        value,
                    ).contains_key(k) by {
                    assert forall|i: int| holds_at(before, k, i) == holds_at(after, k, i) by {}
                    if k == text {
                        assert(holds_at(after, k, p as int));
                    }
                }
                assert forall|k: Seq<char>| as_map(after).contains_key(k) implies as_map(after)[k]
                    == as_map(before).insert(text, value)[k] by {
                    let i = choose|i: int| holds_at(after, k, i);
                    lemma_value_at(after, i);
                    lemma_value_at(before, i);
                    assert(holds_at(after, text, p as int));
                    if k == text {
                        lemma_one_place(after, text, i, p as int);
                    }
                }
                assert(as_map(after) =~= as_map(before).insert(text, value));
            }
        } else {
            entries.insert(p, (key, value));
            proof {
                let after = entries@;
                assert forall|i: int| 0 <= i < before.len() implies before[i].0.text() != text by {
                    lemma_text_less_irreflexive(text);
                    if before[i].0.text() == text && i > p {
                        assert(text_less(before[p as int].0.text(), before[i].0.text()));
                    }
                }
                assert forall|i: int| p <= i < before.len() implies text_less(
                    text,
                    before[i].0.text(),
                ) by {
                    lemma_text_less_total(text, before[i].0.text());
                }
                assert forall|i: int, j: int| 0 <= i < j < after.len() implies text_less(
                    #[trigger] after[i].0.text(),
                    #[trigger] after[j].0.text(),
                ) by {
                    let a = if i < p { i } else { i - 1 };
                    let b = if j < p { j } else { j - 1 };
                    if i != p && j != p {
                        assert(after[i] == before[a]);
                        assert(after[j] == before[b]);
                        assert(text_less(before[a].0.text(), before[b].0.text()));
                    } else if i == p {
                        assert(after[j] == before[b]);
                    } else {
                        assert(after[i] == before[a]);
                    }
                }
                assert(after[p as int] == (key, value));
                assert forall|k: Seq<char>|
                    as_map(after).contains_key(k) == as_map(before).insert(
                        text,
                        value,
                    ).contains_key(k) by {
                    if k == text {
                        assert(holds_at(after, k, p as int));
                    } else if as_map(after).contains_key(k) {
                        let i = choose|i: int| holds_at(after, k, i);
                        assert(holds_at(before, k, if i < p { i } else { i - 1 }));
                    } else if as_map(before).contains_key(k) {
                        let i = choose|i: int| holds_at(before, k, i);
                        assert(holds_at(after, k, if i < p { i } else { i + 1 }));
                    }
                }
                assert forall|k: Seq<char>| as_map(after).contains_key(k) implies as_map(after)[k]
                    == as_map(before).insert(text, value)[k] by {
                    let i = choose|i: int| holds_at(after, k, i);
                    lemma_value_at(after, i);
                    assert(holds_at(after, text, p as int));
                    if k == text {
                        lemma_one_place(after, text, i, p as int);
                    } else {
                        lemma_value_at(before, if i < p { i } else { i - 1 });
                    }
                }
                assert(as_map(after) =~= as_map(before).insert(text, value));
                assert(!as_map(before).contains_key(text)) by {
                    if as_map(before).contains_key(text) {
                        let i = choose|i: int| holds_at(before, text, i);
                    }
                }
            }
        }
        self.entries = entries;
    }

    /// Two maps with the same keys in the same order hold the same keys.
    proof fn lemma_same_keys(a: Seq<(K, V)>, b: Seq<(K, V)>)
        requires
            sorted(a),
            a.len() == b.len(),
            forall|i: int| 0 <= i < a.len() ==> (#[trigger] a[i]).0 == b[i].0,
        ensures
            sorted(b),
            as_map(a).dom() == as_map(b).dom(),
            forall|k: Seq<char>| #[trigger]
                as_map(a).contains_key(k) ==> exists|i: int|
                    0 <= i < a.len() && as_map(a)[k] == (#[trigger] a[i]).1 && as_map(b)[k]
                        == b[i].1,
    {
        assert forall|i: int, j: int| 0 <= i < j < b.len() implies text_less(
            #[trigger] b[i].0.text(),
            #[trigger] b[j].0.text(),
        ) by {
            assert(a[i].0 == b[i].0 && a[j].0 == b[j].0);
            assert(text_less(a[i].0.text(), a[j].0.text()));
        }
        assert forall|k: Seq<char>, i: int| holds_at(a, k, i) == holds_at(b, k, i) by {
            if 0 <= i < a.len() {
                assert(a[i].0 == b[i].0);
            }
        }
        assert forall|k: Seq<char>| as_map(a).contains_key(k) == as_map(b).contains_key(k) by {
            if as_map(a).contains_key(k) {
                let i = choose|i: int| holds_at(a, k, i);
                assert(holds_at(b, k, i));
            }
            if as_map(b).contains_key(k) {
                let i = choose|i: int| holds_at(b, k, i);
                assert(holds_at(a, k, i));
            }
        }
        assert(as_map(a).dom() =~= as_map(b).dom());
        assert forall|k: Seq<char>| #[trigger] as_map(a).contains_key(k) implies exists|i: int|
            0 <= i < a.len() && as_map(a)[k] == (#[trigger] a[i]).1 && as_map(b)[k] == b[i].1 by {
            let i = choose|i: int| holds_at(a, k, i);
            lemma_value_at(a, i);
            assert(holds_at(b, k, i));
            lemma_value_at(b, i);
            assert(as_map(a)[k] == a[i].1);
        }
    }
}

impl<K: TextKey, V: Clone> Clone for OrderedMap<K, V> {
    fn clone(&self) -> (r: Self)
        ensures
            r.key_list() == self.key_list(),
            r.keys() == self.keys(),
            r@.dom() == self@.dom(),
            forall|k: Seq<char>| #[trigger]
                self@.contains_key(k) ==> cloned::<V>(self@[k], r@[k]),
    {
        proof {
            use_type_invariant(self);
        }
        let mut entries: Vec<(K, V)> = Vec::new();
        let mut i: usize = 0;
        while i < self.entries.len()
            invariant
                i <= self.entries@.len(),
                entries@.len() == i,
                sorted(self.entries@),
                forall|j: int| 0 <= j < i ==> (#[trigger] self.entries@[j]).0 == entries@[j].0,
                forall|j: int|
                    0 <= j < i ==> cloned::<V>((#[trigger] self.entries@[j]).1, entries@[j].1),
            decreases self.entries@.len() - i,
        {
            let key = self.entries[i].0.duplicate();
            let value = self.entries[i].1.clone();
            entries.push((key, value));
            i = i + 1;
        }
        proof {
            Self::lemma_same_keys(self.entries@, entries@);
        }
        let r = OrderedMap { entries };
        assert(r.key_list() =~= self.key_list());
        assert(r.keys() =~= self.keys());
        r
    }
}

/// A set whose members are kept in the order of their texts.
#[derive(Debug, PartialEq, Eq)]
pub struct TextSet<K: TextKey> {
    members: OrderedMap<K, ()>,
}

impl<K: TextKey> View for TextSet<K> {
    type V = Set<Seq<char>>;

    closed spec fn view(&self) -> Set<Seq<char>> {
        self.members@.dom()
    }
}

/// The members of a set in increasing order, each once.
pub open spec fn lists_members(list: Seq<Seq<char>>, set: Set<Seq<char>>) -> bool {
    &&& forall|i: int, j: int| 0 <= i < j < list.len() ==> text_less(list[i], list[j])
    &&& forall|i: int| 0 <= i < list.len() ==> set.contains(#[trigger] list[i])
    &&& forall|k: Seq<char>| set.contains(k) ==> list.contains(k)
}

impl<K: TextKey> TextSet<K> {
    /// The texts of the members, in order.
    pub closed spec fn list(&self) -> Seq<Seq<char>> {
        self.members.keys()
    }

    /// The empty set.
    pub fn new() -> (r: Self)
        ensures
            r@ == Set::<Seq<char>>::empty(),
            r.list().len() == 0,
    {
        let r = TextSet { members: OrderedMap::new() };
        assert(r@ =~= Set::<Seq<char>>::empty());
        r
    }

    /// The number of members.
    pub fn len(&self) -> (n: usize)
        ensures
            n == self.list().len(),
            lists_members(self.list(), self@),
    {
        self.members.len()
    }

    /// Whether the set has no member.
    pub fn is_empty(&self) -> (r: bool)
        ensures
            r == (self@ == Set::<Seq<char>>::empty()),
            r == (self.list().len() == 0),
    {
        let n = self.len();
        proof {
            if n > 0 {
                assert(self@.contains(self.list()[0]));
            } else {
                assert(self@ =~= Set::<Seq<char>>::empty());
            }
        }
        n == 0
    }

    /// The member at a place in the order.
    pub fn at(&self, i: usize) -> (r: &K)
        requires
            i < self.list().len(),
        ensures
            r.text() == self.list()[i as int],
    {
        self.members.key_at(i)
    }

    /// Whether a text belongs to the set.
    pub fn contains(&self, key: &str) -> (r: bool)
        ensures
            r == self@.contains(key@),
    {
        self.members.contains(key)
    }

    /// Adds a member and says whether it was new.
    pub fn insert(&mut self, key: K) -> (r: bool)
        ensures
            final(self)@ == old(self)@.insert(key.text()),
            r == !old(self)@.contains(key.text()),
    {
        let fresh = !self.members.contains(key.as_text());
        if fresh {
            self.members.insert(key, ());
        }
        assert(self@ =~= old(self)@.insert(key.text()));
        fresh
    }
}

impl<K: TextKey> Clone for TextSet<K> {
    fn clone(&self) -> (r: Self)
        ensures
            r@ == self@,
            r.list() == self.list(),
    {
        TextSet { members: self.members.clone() }
    }
}

/// Among the keys of a map that fulfil something there is a first one, exactly where there is one
/// at all.
pub proof fn listed_keys_have_a_first<V>(
    keys: Seq<Seq<char>>,
    map: Map<Seq<char>, V>,
    set: Set<Seq<char>>,
)
    requires
        lists_keys(keys, map),
        forall|k: Seq<char>| #[trigger] set.contains(k) ==> map.contains_key(k),
    ensures
        least(set) is None <==> forall|k: Seq<char>| !#[trigger] set.contains(k),
        least(set) is Some ==> is_least(set, least(set)->0),
{
    if exists|k: Seq<char>| #[trigger] set.contains(k) {
        let k = choose|k: Seq<char>| #[trigger] set.contains(k);
        assert(keys.contains(k));
        let n = choose|n: int| 0 <= n < keys.len() && keys[n] == k;
        let first = lemma_first_listed(keys, set, n);
        assert forall|other: Seq<char>| #[trigger] set.contains(other) implies other == keys[first]
            || text_less(keys[first], other) by {
            assert(keys.contains(other));
            let j = choose|j: int| 0 <= j < keys.len() && keys[j] == other;
            assert(!(j < first));
        }
        assert(is_least(set, keys[first]));
        lemma_least_is(set, keys[first]);
    }
}

proof fn lemma_first_listed(keys: Seq<Seq<char>>, set: Set<Seq<char>>, n: int) -> (first: int)
    requires
        0 <= n < keys.len(),
        set.contains(keys[n]),
    ensures
        0 <= first < keys.len(),
        set.contains(keys[first]),
        forall|j: int| 0 <= j < first ==> !set.contains(#[trigger] keys[j]),
    decreases n,
{
    if exists|j: int| 0 <= j < n && set.contains(#[trigger] keys[j]) {
        let j = choose|j: int| 0 <= j < n && set.contains(#[trigger] keys[j]);
        lemma_first_listed(keys, set, j)
    } else {
        n
    }
}

} // verus!
