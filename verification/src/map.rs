//! A map from texts to values that keeps its keys in order.
use crate::text::{
    lemma_lex_asymmetric, lemma_lex_irreflexive, lemma_lex_total, lemma_lex_transitive, lex_less,
    str_eq, str_less,
};
use vstd::prelude::*;

verus! {

// ---------------------------------------------------------------------------
// Keys in order
// ---------------------------------------------------------------------------
/// Each key comes strictly before the next.
pub open spec fn increasing(keys: Seq<Seq<char>>) -> bool {
    forall|i: int, j: int| 0 <= i < j < keys.len() ==> lex_less(#[trigger] keys[i], #[trigger] keys[j])
}

/// The given keys are all keys of the map, in order.
pub open spec fn lists_keys<V>(keys: Seq<Seq<char>>, m: Map<Seq<char>, V>) -> bool {
    increasing(keys) && keys.to_set() == m.dom()
}

/// The keys of a map in order.
pub open spec fn sorted_keys<V>(m: Map<Seq<char>, V>) -> Seq<Seq<char>> {
    choose|keys: Seq<Seq<char>>| lists_keys(keys, m)
}

/// Two increasing lists of the same keys are the same list.
pub proof fn lemma_increasing_unique(a: Seq<Seq<char>>, b: Seq<Seq<char>>)
    requires
        increasing(a),
        increasing(b),
        a.to_set() == b.to_set(),
    ensures
        a == b,
    decreases a.len(),
{
    if a.len() == 0 {
        if b.len() > 0 {
            assert(b.to_set().contains(b[0]));
            assert(a.contains(b[0]));
        }
        assert(a =~= b);
    } else {
        assert(a.to_set().contains(a.last()));
        assert(b.contains(a.last()));
        let j = b.index_of(a.last());
        assert(b.to_set().contains(b.last()));
        assert(a.contains(b.last()));
        let i = a.index_of(b.last());
        assert(a.last() == b.last()) by {
            if i < a.len() - 1 && j < b.len() - 1 {
                assert(lex_less(a[i], a[a.len() - 1]));
                assert(lex_less(b[j], b[b.len() - 1]));
                lemma_lex_asymmetric(a.last(), b.last());
            }
        }
        let x = a.drop_last();
        let y = b.drop_last();
        assert forall|k: Seq<char>| x.to_set().contains(k) implies y.to_set().contains(k) by {
            let n = x.index_of(k);
            assert(a[n] == k);
            assert(lex_less(a[n], a[a.len() - 1]));
            lemma_lex_asymmetric(k, a.last());
            assert(a.to_set().contains(k));
            assert(b.contains(k));
            let m = b.index_of(k);
            assert(y[m] == k);
        }
        assert forall|k: Seq<char>| y.to_set().contains(k) implies x.to_set().contains(k) by {
            let n = y.index_of(k);
            assert(b[n] == k);
            assert(lex_less(b[n], b[b.len() - 1]));
            lemma_lex_asymmetric(k, b.last());
            assert(b.to_set().contains(k));
            assert(a.contains(k));
            let m = a.index_of(k);
            assert(x[m] == k);
        }
        assert(x.to_set() =~= y.to_set());
        lemma_increasing_unique(x, y);
        assert(a =~= x.push(a.last()));
        assert(b =~= y.push(b.last()));
    }
}

/// A list of all keys of a map in order is the list of its sorted keys.
pub proof fn lemma_lists_keys<V>(keys: Seq<Seq<char>>, m: Map<Seq<char>, V>)
    requires
        lists_keys(keys, m),
    ensures
        keys == sorted_keys(m),
{
    lemma_increasing_unique(keys, sorted_keys(m));
}

/// An increasing list stays increasing when a new key is put in its place.
proof fn lemma_increasing_insert(keys: Seq<Seq<char>>, k: Seq<char>) -> (r: Seq<Seq<char>>)
    requires
        increasing(keys),
        !keys.contains(k),
    ensures
        increasing(r),
        r.to_set() == keys.to_set().insert(k),
    decreases keys.len(),
{
    if keys.len() == 0 {
        let r = seq![k];
        assert(r[0] == k);
        assert(r.to_set() =~= keys.to_set().insert(k));
        r
    } else if lex_less(keys.last(), k) {
        let r = keys.push(k);
        assert forall|i: int, j: int| 0 <= i < j < r.len() implies lex_less(
            #[trigger] r[i],
            #[trigger] r[j],
        ) by {
            if j == keys.len() && i < keys.len() - 1 {
                lemma_lex_transitive(keys[i], keys[keys.len() - 1], k);
            }
        }
        assert(r[keys.len() as int] == k);
        assert(r.to_set() =~= keys.to_set().insert(k)) by {
            assert forall|x: Seq<char>| keys.to_set().insert(k).contains(x) implies r.to_set().contains(
                x,
            ) by {
                if x != k {
                    let n = keys.index_of(x);
                    assert(r[n] == x);
                }
            }
        }
        r
    } else {
        assert(keys.contains(keys[keys.len() - 1]));
        lemma_lex_total(keys.last(), k);
        let init = keys.drop_last();
        assert(!init.contains(k)) by {
            if init.contains(k) {
                let n = init.index_of(k);
                assert(keys[n] == k);
            }
        }
        let s = lemma_increasing_insert(init, k);
        let r = s.push(keys.last());
        assert forall|i: int, j: int| 0 <= i < j < r.len() implies lex_less(
            #[trigger] r[i],
            #[trigger] r[j],
        ) by {
            if j == s.len() {
                assert(s.to_set().contains(s[i]));
                assert(init.to_set().insert(k).contains(s[i]));
                if s[i] != k {
                    assert(init.contains(s[i]));
                    let n = init.index_of(s[i]);
                    assert(keys[n] == s[i]);
                }
            }
        }
        assert(r.to_set() =~= keys.to_set().insert(k)) by {
            assert forall|x: Seq<char>| keys.to_set().insert(k).contains(x) implies r.to_set().contains(
                x,
            ) by {
                if x == keys.last() {
                    assert(r[s.len() as int] == x);
                } else {
                    if x != k {
                        let n = keys.index_of(x);
                        assert(init[n] == x);
                        assert(init.to_set().contains(x));
                    }
                    assert(s.to_set().contains(x));
                    let m = s.index_of(x);
                    assert(r[m] == x);
                }
            }
            assert forall|x: Seq<char>| r.to_set().contains(x) implies keys.to_set().insert(
                k,
            ).contains(x) by {
                let n = r.index_of(x);
                if n < s.len() {
                    assert(s[n] == x);
                    assert(s.to_set().contains(x));
                    if x != k {
                        assert(init.to_set().contains(x));
                        let m = init.index_of(x);
                        assert(keys[m] == x);
                    }
                } else {
                    assert(keys[keys.len() - 1] == x);
                }
            }
        }
        r
    }
}

/// The keys of a finite set can be listed in order.
proof fn lemma_increasing_exists(dom: Set<Seq<char>>) -> (r: Seq<Seq<char>>)
    requires
        dom.finite(),
    ensures
        increasing(r),
        r.to_set() == dom,
    decreases dom.len(),
{
    if dom.len() == 0 {
        let r = Seq::<Seq<char>>::empty();
        assert(r.to_set() =~= dom);
        r
    } else {
        let k = dom.choose();
        let s = lemma_increasing_exists(dom.remove(k));
        assert(!s.contains(k)) by {
            if s.contains(k) {
                assert(s.to_set().contains(k));
            }
        }
        assert(dom.remove(k).insert(k) =~= dom);
        lemma_increasing_insert(s, k)
    }
}

/// The sorted keys of a finite map are all its keys, in order.
pub proof fn lemma_sorted_keys<V>(m: Map<Seq<char>, V>)
    requires
        m.dom().finite(),
    ensures
        lists_keys(sorted_keys(m), m),
        forall|i: int|
            0 <= i < sorted_keys(m).len() ==> m.contains_key(#[trigger] sorted_keys(m)[i]),
        forall|k: Seq<char>| m.contains_key(k) ==> sorted_keys(m).contains(k),
{
    let keys = lemma_increasing_exists(m.dom());
    assert(lists_keys(keys, m));
    let s = sorted_keys(m);
    assert forall|i: int| 0 <= i < s.len() implies m.contains_key(#[trigger] s[i]) by {
        assert(s.to_set().contains(s[i]));
    }
    assert forall|k: Seq<char>| m.contains_key(k) implies s.contains(k) by {
        assert(s.to_set().contains(k));
    }
}

/// No key occurs twice in an increasing list.
pub proof fn lemma_increasing_distinct(keys: Seq<Seq<char>>)
    requires
        increasing(keys),
    ensures
        keys.no_duplicates(),
{
    assert forall|i: int, j: int| 0 <= i < keys.len() && 0 <= j < keys.len() && i != j implies keys[i]
        != keys[j] by {
        if i < j {
            lemma_lex_asymmetric(keys[i], keys[j]);
        } else {
            lemma_lex_asymmetric(keys[j], keys[i]);
        }
    }
}

// ---------------------------------------------------------------------------
// The map
// ---------------------------------------------------------------------------
/// A map from texts to values. Its entries stand in the order of their keys, and
/// no key occurs twice.
#[derive(Debug, PartialEq, Eq)]
pub struct StrMap<V> {
    pub(crate) entries: Vec<(String, V)>,
}

/// The keys of a list of entries.
pub open spec fn entry_keys<V>(entries: Seq<(String, V)>) -> Seq<Seq<char>> {
    entries.map_values(|e: (String, V)| e.0@)
}

/// The map that a list of entries stands for.
pub open spec fn entry_map<V: DeepView>(entries: Seq<(String, V)>) -> Map<Seq<char>, V::V>
    decreases entries.len(),
{
    if entries.len() == 0 {
        Map::empty()
    } else {
        let e = entries.last();
        entry_map(entries.drop_last()).insert(e.0@, e.1.deep_view())
    }
}

/// What a list of entries in order stands for.
pub(crate) proof fn lemma_entry_map<V: DeepView>(entries: Seq<(String, V)>)
    requires
        increasing(entry_keys(entries)),
    ensures
        entry_map(entries).dom().finite(),
        lists_keys(entry_keys(entries), entry_map(entries)),
        entry_keys(entries) == sorted_keys(entry_map(entries)),
        forall|i: int|
            #![trigger entries[i]]
            0 <= i < entries.len() ==> entry_map(entries).contains_key(entries[i].0@) && entry_map(
                entries,
            )[entries[i].0@] == entries[i].1.deep_view(),
        forall|k: Seq<char>|
            entry_map(entries).contains_key(k) ==> exists|i: int|
                0 <= i < entries.len() && (#[trigger] entries[i]).0@ == k,
    decreases entries.len(),
{
    let keys = entry_keys(entries);
    let m = entry_map(entries);
    if entries.len() == 0 {
        assert(keys.to_set() =~= m.dom());
    } else {
        let init = entries.drop_last();
        assert(entry_keys(init) =~= keys.drop_last());
        lemma_entry_map(init);
        lemma_increasing_distinct(keys);
        assert forall|i: int| #![trigger entries[i]] 0 <= i < entries.len() implies m.contains_key(
            entries[i].0@,
        ) && m[entries[i].0@] == entries[i].1.deep_view() by {
            if i < entries.len() - 1 {
                assert(init[i] == entries[i]);
                assert(keys[i] != keys[entries.len() - 1]);
            }
        }
        assert forall|k: Seq<char>| m.contains_key(k) implies exists|i: int|
            0 <= i < entries.len() && (#[trigger] entries[i]).0@ == k by {
            if k == entries.last().0@ {
                assert(entries[entries.len() - 1].0@ == k);
            } else {
                let i = choose|i: int| 0 <= i < init.len() && (#[trigger] init[i]).0@ == k;
                assert(entries[i].0@ == k);
            }
        }
        assert(keys.to_set() =~= m.dom()) by {
            assert forall|k: Seq<char>| keys.to_set().contains(k) implies m.dom().contains(k) by {
                let i = keys.index_of(k);
                assert(entries[i].0@ == k);
            }
            assert forall|k: Seq<char>| m.dom().contains(k) implies keys.to_set().contains(k) by {
                let i = choose|i: int| 0 <= i < entries.len() && (#[trigger] entries[i]).0@ == k;
                assert(keys[i] == k);
            }
        }
    }
    lemma_lists_keys(keys, m);
}

/// A list of entries stands for finitely many keys, each with the value of an entry.
proof fn lemma_entry_map_is_finite<V: DeepView>(entries: Seq<(String, V)>)
    ensures
        entry_map(entries).dom().finite(),
        forall|k: Seq<char>| #[trigger]
            entry_map(entries).contains_key(k) ==> exists|v: V| #[trigger]
                v.deep_view() == entry_map(entries)[k],
    decreases entries.len(),
{
    if entries.len() > 0 {
        let init = entry_map(entries.drop_last());
        let m = entry_map(entries);
        lemma_entry_map_is_finite(entries.drop_last());
        assert forall|k: Seq<char>| #[trigger] m.contains_key(k) implies exists|v: V| #[trigger]
            v.deep_view() == m[k] by {
            if k == entries.last().0@ {
                assert(entries.last().1.deep_view() == m[k]);
            } else {
                assert(init.contains_key(k));
            }
        }
    }
}

/// A list of entries in order stands for any map that has the same keys with the
/// same values.
proof fn lemma_entry_map_is<V: DeepView>(entries: Seq<(String, V)>, m: Map<Seq<char>, V::V>)
    requires
        increasing(entry_keys(entries)),
        forall|i: int|
            #![trigger entries[i]]
            0 <= i < entries.len() ==> m.contains_key(entries[i].0@) && m[entries[i].0@]
                == entries[i].1.deep_view(),
        forall|k: Seq<char>|
            m.contains_key(k) ==> exists|i: int|
                0 <= i < entries.len() && (#[trigger] entries[i]).0@ == k,
    ensures
        entry_map(entries) == m,
{
    lemma_entry_map(entries);
    assert forall|k: Seq<char>| entry_map(entries).contains_key(k) implies m.contains_key(k) && m[k]
        == entry_map(entries)[k] by {
        let i = choose|i: int| 0 <= i < entries.len() && (#[trigger] entries[i]).0@ == k;
        assert(entries[i].0@ == k);
    }
    assert forall|k: Seq<char>| m.contains_key(k) implies entry_map(entries).contains_key(k) by {
        let i = choose|i: int| 0 <= i < entries.len() && (#[trigger] entries[i]).0@ == k;
        assert(entries[i].0@ == k);
    }
    assert(entry_map(entries) =~= m);
}

impl<V: DeepView> View for StrMap<V> {
    type V = Map<Seq<char>, V::V>;

    closed spec fn view(&self) -> Map<Seq<char>, V::V> {
        entry_map(self.entries@)
    }
}

impl<V: DeepView> DeepView for StrMap<V> {
    type V = Map<Seq<char>, V::V>;

    open spec fn deep_view(&self) -> Map<Seq<char>, V::V> {
        self@
    }
}

impl<V: DeepView> Default for StrMap<V> {
    fn default() -> (r: Self)
        ensures
            r@ == Map::<Seq<char>, V::V>::empty(),
    {
        StrMap::new()
    }
}

/// The value of the entry at position `i`, for writing.
fn value_slot<V>(entries: &mut Vec<(String, V)>, i: usize) -> (r: &mut V)
    requires
        i < old(entries)@.len(),
    ensures
        *r == old(entries)@[i as int].1,
        final(entries)@ == old(entries)@.update(i as int, (old(entries)@[i as int].0, *final(r))),
    no_unwind
{
    &mut entries[i].1
}

impl<V> StrMap<V> {
    #[verifier::type_invariant]
    pub(crate) open spec fn ordered(self) -> bool {
        increasing(entry_keys(self.entries@))
    }
}

/// A value that can be copied without loss.
pub trait Duplicate: DeepView + Sized {
    /// A copy that holds what the value holds.
    fn duplicate(&self) -> (r: Self)
        ensures
            r.deep_view() == self.deep_view(),
    ;
}

impl Duplicate for String {
    fn duplicate(&self) -> (r: String) {
        self.clone()
    }
}

impl<T: Duplicate> Duplicate for Option<T> {
    fn duplicate(&self) -> (r: Option<T>) {
        match self {
            Some(v) => Some(v.duplicate()),
            None => None,
        }
    }
}

impl<T: Duplicate> Duplicate for Vec<T> {
    fn duplicate(&self) -> (r: Vec<T>) {
        let mut copy: Vec<T> = Vec::new();
        let mut i: usize = 0;
        while i < self.len()
            invariant
                i <= self@.len(),
                copy@.len() == i,
                forall|k: int|
                    0 <= k < i ==> (#[trigger] copy@[k]).deep_view() == self@[k].deep_view(),
            decreases self@.len() - i,
        {
            copy.push(self[i].duplicate());
            i += 1;
        }
        assert(copy.deep_view() =~= self.deep_view());
        copy
    }
}

impl<V: Duplicate> Clone for StrMap<V> {
    fn clone(&self) -> (r: Self)
        ensures
            r@ == self@,
    {
        self.duplicate()
    }
}

impl<V: Duplicate> Duplicate for StrMap<V> {
    fn duplicate(&self) -> (r: Self) {
        let mut copy = StrMap::new();
        let n: usize = self.len();
        let ghost keys = sorted_keys(self@);
        let mut i: usize = 0;
        while i < n
            invariant
                i <= n,
                n == keys.len(),
                keys == sorted_keys(self@),
                lists_keys(keys, self@),
                forall|k: Seq<char>|
                    copy@.contains_key(k) <==> exists|j: int| 0 <= j < i && #[trigger] keys[j] == k,
                forall|k: Seq<char>| copy@.contains_key(k) ==> copy@[k] == self@[k],
            decreases n - i,
        {
            copy.insert(self.key_at(i).clone(), self.value_at(i).duplicate());
            assert forall|k: Seq<char>| copy@.contains_key(k) implies exists|j: int|
                0 <= j < i + 1 && #[trigger] keys[j] == k by {
                assert(keys[i as int] == keys[i as int]);
            }
            i += 1;
        }
        assert forall|k: Seq<char>| self@.contains_key(k) implies copy@.contains_key(k) by {
            assert(keys.to_set().contains(k));
            assert(keys[keys.index_of(k)] == k);
        }
        assert forall|k: Seq<char>| copy@.contains_key(k) implies self@.contains_key(k) by {
            assert(keys.to_set().contains(k));
        }
        assert(copy@ =~= self@);
        copy
    }
}

impl<V: DeepView> StrMap<V> {
    /// Every map has finitely many keys, and its values are those of values that it holds.
    pub proof fn every_map_is_finite(self)
        ensures
            self@.dom().finite(),
            forall|k: Seq<char>| #[trigger]
                self@.contains_key(k) ==> exists|v: V| #[trigger] v.deep_view() == self@[k],
    {
        lemma_entry_map_is_finite(self.entries@);
    }

    /// The view of a map unfolds to the map of its entries.
    pub(crate) proof fn lemma_view(self)
        ensures
            self@ == entry_map(self.entries@),
    {
    }

    /// The empty map.
    pub fn new() -> (r: Self)
        ensures
            r@ == Map::<Seq<char>, V::V>::empty(),
    {
        StrMap { entries: Vec::new() }
    }

    /// The number of keys.
    pub fn len(&self) -> (r: usize)
        ensures
            r == sorted_keys(self@).len(),
            lists_keys(sorted_keys(self@), self@),
            self@.dom().finite(),
    {
        proof {
            use_type_invariant(self);
            lemma_entry_map(self.entries@);
        }
        self.entries.len()
    }

    /// Has the map no key?
    pub fn is_empty(&self) -> (r: bool)
        ensures
            r == (self@ == Map::<Seq<char>, V::V>::empty()),
    {
        proof {
            use_type_invariant(self);
            lemma_entry_map(self.entries@);
            if self.entries@.len() == 0 {
                assert(self@ =~= Map::<Seq<char>, V::V>::empty());
            } else {
                assert(self@.contains_key(self.entries@[0].0@));
            }
        }
        self.entries.len() == 0
    }

    /// The key at a position in the order of the keys.
    pub fn key_at(&self, i: usize) -> (r: &String)
        requires
            i < sorted_keys(self@).len(),
        ensures
            r@ == sorted_keys(self@)[i as int],
            self@.contains_key(r@),
    {
        proof {
            use_type_invariant(self);
            lemma_entry_map(self.entries@);
        }
        &self.entries[i].0
    }

    /// The value of the key at a position in the order of the keys.
    pub fn value_at(&self, i: usize) -> (r: &V)
        requires
            i < sorted_keys(self@).len(),
        ensures
            self@.contains_key(sorted_keys(self@)[i as int]),
            r.deep_view() == self@[sorted_keys(self@)[i as int]],
    {
        proof {
            use_type_invariant(self);
            lemma_entry_map(self.entries@);
        }
        &self.entries[i].1
    }

    /// The position of a key: where it stands, or where it would have to.
    fn position(&self, key: &str) -> (r: (usize, bool))
        ensures
            r.0 <= self.entries@.len(),
            forall|j: int| 0 <= j < r.0 ==> lex_less((#[trigger] self.entries@[j]).0@, key@),
            forall|j: int|
                r.0 <= j < self.entries@.len() ==> !lex_less(
                    (#[trigger] self.entries@[j]).0@,
                    key@,
                ),
            r.1 ==> r.0 < self.entries@.len() && self.entries@[r.0 as int].0@ == key@,
            !r.1 ==> forall|j: int|
                0 <= j < self.entries@.len() ==> (#[trigger] self.entries@[j]).0@ != key@,
            r.1 == self@.contains_key(key@),
            r.1 ==> self@[key@] == self.entries@[r.0 as int].1.deep_view(),
    {
        proof {
            use_type_invariant(self);
            lemma_entry_map(self.entries@);
            lemma_lex_irreflexive(key@);
        }
        let ghost keys = entry_keys(self.entries@);
        let mut i: usize = 0;
        while i < self.entries.len()
            invariant
                i <= self.entries@.len(),
                increasing(keys),
                keys == entry_keys(self.entries@),
                forall|j: int| 0 <= j < i ==> lex_less((#[trigger] self.entries@[j]).0@, key@),
            ensures
                i <= self.entries@.len(),
                forall|j: int| 0 <= j < i ==> lex_less((#[trigger] self.entries@[j]).0@, key@),
                forall|j: int|
                    i <= j < self.entries@.len() ==> !lex_less(
                        (#[trigger] self.entries@[j]).0@,
                        key@,
                    ),
            decreases self.entries@.len() - i,
        {
            if !str_less(self.entries[i].0.as_str(), key) {
                proof {
                    assert forall|j: int| i <= j < self.entries@.len() implies !lex_less(
                        (#[trigger] self.entries@[j]).0@,
                        key@,
                    ) by {
                        if i < j && lex_less(self.entries@[j].0@, key@) {
                            assert(lex_less(keys[i as int], keys[j]));
                            lemma_lex_transitive(keys[i as int], keys[j], key@);
                        }
                    }
                }
                break;
            }
            i += 1;
        }
        if i < self.entries.len() && str_eq(self.entries[i].0.as_str(), key) {
            (i, true)
        } else {
            proof {
                assert forall|j: int| 0 <= j < self.entries@.len() implies (
                #[trigger] self.entries@[j]).0@ != key@ by {
                    if i < j && self.entries@[j].0@ == key@ {
                        assert(lex_less(keys[i as int], keys[j]));
                    }
                }
            }
            (i, false)
        }
    }

    /// The value of a key.
    pub fn get(&self, key: &str) -> (r: Option<&V>)
        ensures
            r is Some <==> self@.contains_key(key@),
            r matches Some(v) ==> v.deep_view() == self@[key@],
    {
        let (i, found) = self.position(key);
        if found {
            Some(&self.entries[i].1)
        } else {
            None
        }
    }

    /// Is there a value for the key?
    pub fn contains_key(&self, key: &str) -> (r: bool)
        ensures
            r == self@.contains_key(key@),
    {
        let (_i, found) = self.position(key);
        found
    }

    /// The value of a key, for writing.
    pub fn get_mut(&mut self, key: &str) -> (r: Option<&mut V>)
        ensures
            r is Some <==> old(self)@.contains_key(key@),
            r matches Some(v) ==> (*v).deep_view() == old(self)@[key@] && final(self)@ == old(
                self,
            )@.insert(key@, (*final(v)).deep_view()),
            r is None ==> *final(self) == *old(self),
    {
        let (i, found) = self.position(key);
        if found {
            proof {
                use_type_invariant(&*self);
                lemma_entry_map(self.entries@);
                let before = self.entries@;
                assert forall|v: V|
                    entry_map(
                        #[trigger] before.update(i as int, (before[i as int].0, v)),
                    ) == entry_map(before).insert(key@, v.deep_view()) && increasing(
                        entry_keys(before.update(i as int, (before[i as int].0, v))),
                    ) by {
                    let after = before.update(i as int, (before[i as int].0, v));
                    assert(entry_keys(after) =~= entry_keys(before));
                    lemma_increasing_distinct(entry_keys(before));
                    let m = entry_map(before).insert(key@, v.deep_view());
                    assert forall|j: int| #![trigger after[j]] 0 <= j < after.len() implies
                        m.contains_key(after[j].0@) && m[after[j].0@] == after[j].1.deep_view() by {
                        assert(before[j].0@ == entry_keys(before)[j]);
                        assert(entry_keys(before)[i as int] == key@);
                        if j != i {
                            assert(after[j] == before[j]);
                        }
                    }
                    assert forall|k: Seq<char>| m.contains_key(k) implies exists|j: int|
                        0 <= j < after.len() && (#[trigger] after[j]).0@ == k by {
                        if k == key@ {
                            assert(after[i as int].0@ == k);
                        } else {
                            let j = choose|j: int|
                                0 <= j < before.len() && (#[trigger] before[j]).0@ == k;
                            assert(after[j].0@ == k);
                        }
                    }
                    lemma_entry_map_is(after, m);
                }
            }
            Some(value_slot(&mut self.entries, i))
        } else {
            None
        }
    }

    /// Gives a key a value, whether or not it had one.
    pub fn insert(&mut self, key: String, value: V)
        ensures
            final(self)@ == old(self)@.insert(key@, value.deep_view()),
    {
        let (i, found) = self.position(key.as_str());
        proof {
            use_type_invariant(&*self);
            lemma_entry_map(self.entries@);
            lemma_increasing_distinct(entry_keys(self.entries@));
        }
        let mut entries: Vec<(String, V)> = Vec::new();
        std::mem::swap(&mut self.entries, &mut entries);
        let ghost before = entries@;
        let ghost m = entry_map(before).insert(key@, value.deep_view());
        let ghost at = key@;
        if found {
            entries[i] = (key, value);
            proof {
                let after = entries@;
                assert(entry_keys(after) =~= entry_keys(before));
                assert forall|j: int| #![trigger after[j]] 0 <= j < after.len() implies
                    m.contains_key(after[j].0@) && m[after[j].0@] == after[j].1.deep_view() by {
                    assert(before[j].0@ == entry_keys(before)[j]);
                    assert(entry_keys(before)[i as int] == at);
                    if j != i {
                        assert(after[j] == before[j]);
                    }
                }
                assert forall|k: Seq<char>| m.contains_key(k) implies exists|j: int|
                    0 <= j < after.len() && (#[trigger] after[j]).0@ == k by {
                    if k == at {
                        assert(after[i as int].0@ == k);
                    } else {
                        let j = choose|j: int|
                            0 <= j < before.len() && (#[trigger] before[j]).0@ == k;
                        assert(after[j].0@ == k);
                    }
                }
                lemma_entry_map_is(after, m);
            }
        } else {
            entries.insert(i, (key, value));
            proof {
                let after = entries@;
                let keys = entry_keys(after);
                assert forall|a: int, b: int| 0 <= a < b < keys.len() implies lex_less(
                    #[trigger] keys[a],
                    #[trigger] keys[b],
                ) by {
                    let old_keys = entry_keys(before);
                    if a < i {
                        assert(keys[a] == before[a].0@);
                        assert(keys[a] == old_keys[a]);
                    }
                    if b > i {
                        assert(keys[b] == before[b - 1].0@);
                        assert(keys[b] == old_keys[b - 1]);
                    }
                    if a > i {
                        assert(keys[a] == old_keys[a - 1]);
                    }
                    if b < i {
                        assert(keys[b] == old_keys[b]);
                    }
                    if a == i {
                        lemma_lex_total(before[b - 1].0@, at);
                    }
                }
                assert forall|j: int| #![trigger after[j]] 0 <= j < after.len() implies
                    m.contains_key(after[j].0@) && m[after[j].0@] == after[j].1.deep_view() by {
                    if j < i {
                        assert(after[j] == before[j]);
                    } else if j > i {
                        assert(after[j] == before[j - 1]);
                    }
                }
                assert forall|k: Seq<char>| m.contains_key(k) implies exists|j: int|
                    0 <= j < after.len() && (#[trigger] after[j]).0@ == k by {
                    if k == at {
                        assert(after[i as int].0@ == k);
                    } else {
                        let j = choose|j: int|
                            0 <= j < before.len() && (#[trigger] before[j]).0@ == k;
                        if j < i {
                            assert(after[j].0@ == k);
                        } else {
                            assert(after[j + 1].0@ == k);
                        }
                    }
                }
                lemma_entry_map_is(after, m);
            }
        }
        self.entries = entries;
    }

    /// The value of a key, for writing. A key that has none gets `default`.
    pub fn get_or_insert(&mut self, key: &str, default: V) -> (r: &mut V)
        ensures
            (*r).deep_view() == if old(self)@.contains_key(key@) {
                old(self)@[key@]
            } else {
                default.deep_view()
            },
            final(self)@ == old(self)@.insert(key@, (*final(r)).deep_view()),
    {
        if !self.contains_key(key) {
            self.insert(key.to_string(), default);
        }
        let ghost mid = self@;
        proof {
            assert forall|v: V::V| mid.insert(key@, v) == #[trigger] old(self)@.insert(key@, v) by {
                assert(mid.insert(key@, v) =~= old(self)@.insert(key@, v));
            }
        }
        match self.get_mut(key) {
            Some(v) => v,
            None => vstd::pervasive::unreached(),
        }
    }

    /// Takes a key and its value out of the map.
    pub fn remove(&mut self, key: &str) -> (r: Option<V>)
        ensures
            r is Some <==> old(self)@.contains_key(key@),
            r matches Some(v) ==> v.deep_view() == old(self)@[key@],
            final(self)@ == old(self)@.remove(key@),
    {
        let (i, found) = self.position(key);
        proof {
            use_type_invariant(&*self);
            lemma_entry_map(self.entries@);
            lemma_increasing_distinct(entry_keys(self.entries@));
        }
        if !found {
            assert(self@.remove(key@) =~= self@);
            return None;
        }
        let mut entries: Vec<(String, V)> = Vec::new();
        std::mem::swap(&mut self.entries, &mut entries);
        let ghost before = entries@;
        let ghost m = entry_map(before).remove(key@);
        let (_key, value) = entries.remove(i);
        proof {
            let after = entries@;
            let keys = entry_keys(after);
            let old_keys = entry_keys(before);
            assert forall|j: int| 0 <= j < keys.len() implies #[trigger] keys[j] == old_keys[if j
                < i {
                j
            } else {
                j + 1
            }] by {
                if j < i {
                    assert(after[j] == before[j]);
                } else {
                    assert(after[j] == before[j + 1]);
                }
            }
            assert(increasing(keys));
            assert(old_keys[i as int] == key@);
            assert forall|j: int| #![trigger after[j]] 0 <= j < after.len() implies m.contains_key(
                after[j].0@,
            ) && m[after[j].0@] == after[j].1.deep_view() by {
                if j < i {
                    assert(after[j] == before[j]);
                    assert(old_keys[j] != old_keys[i as int]);
                } else {
                    assert(after[j] == before[j + 1]);
                    assert(old_keys[j + 1] != old_keys[i as int]);
                }
            }
            assert forall|k: Seq<char>| m.contains_key(k) implies exists|j: int|
                0 <= j < after.len() && (#[trigger] after[j]).0@ == k by {
                let j = choose|j: int| 0 <= j < before.len() && (#[trigger] before[j]).0@ == k;
                if j < i {
                    assert(after[j].0@ == k);
                } else {
                    assert(j != i);
                    assert(after[j - 1].0@ == k);
                }
            }
            lemma_entry_map_is(after, m);
        }
        self.entries = entries;
        Some(value)
    }

    /// The entries of the map in the order of their keys.
    pub fn into_entries(self) -> (r: Vec<(String, V)>)
        ensures
            r@.len() == sorted_keys(self@).len(),
            lists_keys(sorted_keys(self@), self@),
            self@.dom().finite(),
            forall|i: int|
                #![trigger r@[i]]
                0 <= i < r@.len() ==> r@[i].0@ == sorted_keys(self@)[i] && self@.contains_key(
                    r@[i].0@,
                ) && r@[i].1.deep_view() == self@[r@[i].0@],
    {
        proof {
            use_type_invariant(&self);
            lemma_entry_map(self.entries@);
        }
        let ghost whole = self.entries@;
        let mut this = self;
        let mut entries: Vec<(String, V)> = Vec::new();
        std::mem::swap(&mut this.entries, &mut entries);
        proof {
            assert forall|i: int| #![trigger entries@[i]] 0 <= i < entries@.len() implies entries@[i].0@
                == sorted_keys(self@)[i] by {
                assert(entry_keys(whole)[i] == entries@[i].0@);
            }
        }
        entries
    }
}

} // verus!
