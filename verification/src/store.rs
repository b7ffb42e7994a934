//! Values kept by a text key, at most one value per key (a map from key to
//! value that can be walked in order).
use vstd::prelude::*;

use crate::text::same_text;

verus! {

/// A value that carries its own key.
pub trait Keyed {
    /// The key of the value.
    spec fn key(&self) -> Seq<char>;

    /// The key of the value, as a string.
    fn key_string(&self) -> (k: &String)
        ensures
            k@ == self.key(),
    ;
}

/// No two of `s` share a key.
pub open spec fn keys_distinct<T: Keyed>(s: Seq<T>) -> bool {
    forall|i: int, j: int| 0 <= i < s.len() && 0 <= j < s.len() && i != j ==> #[trigger] s[i].key() != #[trigger] s[j].key()
}

/// Some value of `s` has key `k`.
pub open spec fn has_key<T: Keyed>(s: Seq<T>, k: Seq<char>) -> bool {
    exists|i: int| 0 <= i < s.len() && #[trigger] s[i].key() == k
}

/// The map from each key of `s` to the value of `s` with that key.
pub open spec fn as_map<T: Keyed>(s: Seq<T>) -> Map<Seq<char>, T> {
    Map::new(
        |k: Seq<char>| has_key(s, k),
        |k: Seq<char>| s[choose|i: int| 0 <= i < s.len() && #[trigger] s[i].key() == k],
    )
}

/// `v` lists, each once and in some order, the values of `m` that satisfy
/// `keep`.
pub open spec fn lists_values<T: Keyed>(v: Seq<T>, m: Map<Seq<char>, T>, keep: spec_fn(T) -> bool) -> bool {
    &&& keys_distinct(v)
    &&& forall|i: int| 0 <= i < v.len() ==> m.contains_key(#[trigger] v[i].key()) && m[v[i].key()] == v[i] && keep(v[i])
    &&& forall|k: Seq<char>| #[trigger] m.contains_key(k) && keep(m[k]) ==> has_key(v, k)
}

/// In a sequence with distinct keys, each value is what its key maps to.
pub proof fn lemma_as_map<T: Keyed>(s: Seq<T>)
    requires
        keys_distinct(s),
    ensures
        forall|k: Seq<char>| #[trigger] as_map(s).contains_key(k) <==> has_key(s, k),
        forall|i: int| 0 <= i < s.len() ==> #[trigger] as_map(s)[s[i].key()] == s[i],
        forall|k: Seq<char>| #[trigger] as_map(s).contains_key(k) ==> as_map(s)[k].key() == k,
{
    assert forall|i: int| 0 <= i < s.len() implies #[trigger] as_map(s)[s[i].key()] == s[i] by {
        let k = s[i].key();
        assert(has_key(s, k));
        let j = choose|j: int| 0 <= j < s.len() && #[trigger] s[j].key() == k;
        assert(j == i);
    }
    assert forall|k: Seq<char>| #[trigger] as_map(s).contains_key(k) implies as_map(s)[k].key() == k by {
        let j = choose|j: int| 0 <= j < s.len() && #[trigger] s[j].key() == k;
    }
}

/// Values by key, at most one per key.
#[derive(Debug)]
pub struct KeyedStore<T: Keyed> {
    entries: Vec<T>,
}

impl<T: Keyed> View for KeyedStore<T> {
    type V = Map<Seq<char>, T>;

    closed spec fn view(&self) -> Map<Seq<char>, T> {
        as_map(self.entries@)
    }
}

/// The values of `s` that satisfy `keep`, in order.
pub open spec fn filtered<T>(s: Seq<T>, keep: spec_fn(T) -> bool) -> Seq<T>
    decreases s.len(),
{
    if s.len() == 0 {
        Seq::<T>::empty()
    } else if keep(s.last()) {
        filtered(s.drop_last(), keep).push(s.last())
    } else {
        filtered(s.drop_last(), keep)
    }
}

impl<T: Keyed> KeyedStore<T> {
    /// The values in the order they were first stored.
    pub closed spec fn listing(self) -> Seq<T> {
        self.entries@
    }

    #[verifier::type_invariant]
    closed spec fn one_value_per_key(self) -> bool {
        keys_distinct(self.entries@)
    }

    /// The empty store.
    pub fn new() -> (r: Self)
        ensures
            r@ == Map::<Seq<char>, T>::empty(),
    {
        let r = KeyedStore { entries: Vec::new() };
        assert(r@ =~= Map::<Seq<char>, T>::empty());
        r
    }

    /// Where the value with key `key` stands, if there is one.
    fn position(&self, key: &str) -> (r: Option<usize>)
        ensures
            match r {
                Some(i) => i < self.entries@.len() && self.entries@[i as int].key() == key@,
                None => !has_key(self.entries@, key@),
            },
    {
        let mut i: usize = 0;
        while i < self.entries.len()
            invariant
                i <= self.entries@.len(),
                forall|j: int| 0 <= j < i ==> #[trigger] self.entries@[j].key() != key@,
            decreases self.entries@.len() - i,
        {
            if same_text(self.entries[i].key_string().as_str(), key) {
                return Some(i);
            }
            i = i + 1;
        }
        None
    }

    /// The value with key `key`, if there is one.
    pub fn get(&self, key: &str) -> (r: Option<&T>)
        ensures
            match r {
                Some(v) => self@.contains_key(key@) && *v == self@[key@] && v.key() == key@,
                None => !self@.contains_key(key@),
            },
    {
        proof {
            use_type_invariant(self);
            lemma_as_map(self.entries@);
        }
        match self.position(key) {
            Some(i) => Some(&self.entries[i]),
            None => None,
        }
    }

    /// Whether some value has key `key`.
    pub fn contains_key(&self, key: &str) -> (r: bool)
        ensures
            r == self@.contains_key(key@),
    {
        proof {
            use_type_invariant(self);
            lemma_as_map(self.entries@);
        }
        self.position(key).is_some()
    }

    /// Stores `v` under its key, replacing the value that had that key.
    pub fn insert(&mut self, v: T)
        ensures
            final(self)@ == old(self)@.insert(v.key(), v),
    {
        proof {
            use_type_invariant(&*self);
            lemma_as_map(self.entries@);
        }
        let ghost before = self.entries@;
        let ghost key = v.key();
        let pos = self.position(v.key_string().as_str());
        let mut entries = Vec::new();
        std::mem::swap(&mut entries, &mut self.entries);
        match pos {
            Some(i) => {
                entries.set(i, v);
                assert(entries@ == before.update(i as int, v));
            },
            None => {
                entries.push(v);
                assert(entries@ == before.push(v));
            },
        }
        let ghost after = entries@;
        assert(keys_distinct(after)) by {
            assert forall|a: int, b: int|
                0 <= a < after.len() && 0 <= b < after.len() && a != b implies #[trigger] after[a].key()
                != #[trigger] after[b].key() by {
                if pos is None {
                    if a == before.len() {
                        assert(before[b].key() == after[b].key());
                    } else if b == before.len() {
                        assert(before[a].key() == after[a].key());
                    }
                } else {
                    let i = pos->0 as int;
                    if a == i {
                        assert(after[a].key() == before[i].key());
                    } else if b == i {
                        assert(after[b].key() == before[i].key());
                    }
                }
            }
        }
        self.entries = entries;
        proof {
            lemma_as_map(after);
            assert(as_map(after) =~= as_map(before).insert(key, v)) by {
                assert forall|k: Seq<char>| as_map(after).contains_key(k) <==> as_map(before).insert(key, v).contains_key(k) by {
                    if has_key(after, k) {
                        let j = choose|j: int| 0 <= j < after.len() && #[trigger] after[j].key() == k;
                        if k != key {
                            assert(before[j].key() == k);
                        }
                    }
                    if has_key(before, k) {
                        let j = choose|j: int| 0 <= j < before.len() && #[trigger] before[j].key() == k;
                        if k != key {
                            assert(after[j].key() == k);
                        }
                    }
                    if k == key {
                        if pos is None {
                            assert(after[before.len() as int].key() == k);
                        } else {
                            assert(after[pos->0 as int].key() == k);
                        }
                    }
                }
                assert forall|k: Seq<char>| #[trigger] as_map(after).contains_key(k) implies as_map(after)[k] == as_map(before).insert(key, v)[k] by {
                    let j = choose|j: int| 0 <= j < after.len() && #[trigger] after[j].key() == k;
                    assert(as_map(after)[after[j].key()] == after[j]);
                    if k != key {
                        assert(before[j] == after[j]);
                        assert(as_map(before)[before[j].key()] == before[j]);
                    }
                }
            }
        }
    }

    /// Takes out the value with key `key`, if there is one.
    pub fn remove(&mut self, key: &str)
        ensures
            final(self)@ == old(self)@.remove(key@),
    {
        proof {
            use_type_invariant(&*self);
            lemma_as_map(self.entries@);
        }
        match self.position(key) {
            None => {
                assert(old(self)@.remove(key@) =~= old(self)@);
            },
            Some(i) => {
                let ghost before = self.entries@;
                let mut entries = Vec::new();
                std::mem::swap(&mut entries, &mut self.entries);
                entries.remove(i);
                let ghost after = entries@;
                assert(after =~= before.remove(i as int));
                assert(forall|j: int| 0 <= j < after.len() ==> #[trigger] after[j] == before[if j < i { j } else { j + 1 }]);
                assert(keys_distinct(after)) by {
                    assert forall|a: int, b: int|
                        0 <= a < after.len() && 0 <= b < after.len() && a != b implies #[trigger] after[a].key()
                        != #[trigger] after[b].key() by {
                        let a2 = if a < i { a } else { a + 1 };
                        let b2 = if b < i { b } else { b + 1 };
                        assert(after[a] == before[a2]);
                        assert(after[b] == before[b2]);
                    }
                }
                self.entries = entries;
                proof {
                    lemma_as_map(after);
                    assert(as_map(after) =~= as_map(before).remove(key@)) by {
                        assert forall|k: Seq<char>| as_map(after).contains_key(k) <==> as_map(before).remove(key@).contains_key(k) by {
                            if has_key(after, k) {
                                let j = choose|j: int| 0 <= j < after.len() && #[trigger] after[j].key() == k;
                                let j2 = if j < i { j } else { j + 1 };
                                assert(after[j] == before[j2]);
                                assert(before[j2].key() != before[i as int].key());
                            }
                            if has_key(before, k) && k != key@ {
                                let j = choose|j: int| 0 <= j < before.len() && #[trigger] before[j].key() == k;
                                if j < i {
                                    assert(after[j] == before[j]);
                                } else {
                                    assert(after[j - 1] == before[j]);
                                }
                            }
                        }
                        assert forall|k: Seq<char>| #[trigger] as_map(after).contains_key(k) implies as_map(after)[k] == as_map(before).remove(key@)[k] by {
                            let j = choose|j: int| 0 <= j < after.len() && #[trigger] after[j].key() == k;
                            let j2 = if j < i { j } else { j + 1 };
                            assert(after[j] == before[j2]);
                            assert(as_map(after)[after[j].key()] == after[j]);
                            assert(as_map(before)[before[j2].key()] == before[j2]);
                        }
                    }
                }
            },
        }
    }

    /// How many values the store holds.
    pub fn len(&self) -> (n: usize)
        ensures
            n == self@.len(),
    {
        proof {
            use_type_invariant(self);
            lemma_as_map(self.entries@);
            lemma_store_len(self.entries@);
        }
        self.entries.len()
    }

    /// The values, each once, in the order they were first stored.
    pub fn values(&self) -> (v: &Vec<T>)
        ensures
            v@ == self.listing(),
            keys_distinct(v@),
            as_map(v@) == self@,
            lists_values(v@, self@, |t: T| true),
            v@.len() == self@.len(),
    {
        proof {
            use_type_invariant(self);
            lemma_as_map(self.entries@);
            lemma_store_len(self.entries@);
            let s = self.entries@;
            assert forall|k: Seq<char>| #[trigger] self@.contains_key(k) && (|t: T| true)(self@[k]) implies has_key(s, k) by {}
        }
        &self.entries
    }
}

/// How many of `s` satisfy `p`.
pub open spec fn count_matching<T>(s: Seq<T>, p: spec_fn(T) -> bool) -> nat
    decreases s.len(),
{
    if s.len() == 0 {
        0
    } else {
        count_matching(s.drop_last(), p) + if p(s.last()) {
            1nat
        } else {
            0nat
        }
    }
}

/// The keys of `m` whose values satisfy `p`.
pub open spec fn keys_matching<T>(m: Map<Seq<char>, T>, p: spec_fn(T) -> bool) -> Set<Seq<char>> {
    m.dom().filter(|k: Seq<char>| p(m[k]))
}

proof fn lemma_prefix_distinct<T: Keyed>(s: Seq<T>)
    requires
        keys_distinct(s),
        s.len() > 0,
    ensures
        keys_distinct(s.drop_last()),
        !has_key(s.drop_last(), s.last().key()),
{
    let prefix = s.drop_last();
    assert forall|a: int, b: int|
        0 <= a < prefix.len() && 0 <= b < prefix.len() && a != b implies #[trigger] prefix[a].key()
        != #[trigger] prefix[b].key() by {
        assert(prefix[a] == s[a]);
        assert(prefix[b] == s[b]);
    }
    if has_key(prefix, s.last().key()) {
        let j = choose|j: int| 0 <= j < prefix.len() && #[trigger] prefix[j].key() == s.last().key();
        assert(s[j].key() == s[s.len() - 1].key());
    }
}

/// Counting the values of a sequence with distinct keys that satisfy `p`
/// counts the keys of its map whose values satisfy `p`.
pub proof fn lemma_count_matching<T: Keyed>(s: Seq<T>, p: spec_fn(T) -> bool)
    requires
        keys_distinct(s),
    ensures
        keys_matching(as_map(s), p).finite(),
        count_matching(s, p) == keys_matching(as_map(s), p).len(),
    decreases s.len(),
{
    lemma_as_map(s);
    if s.len() == 0 {
        assert(keys_matching(as_map(s), p) =~= Set::<Seq<char>>::empty());
    } else {
        let prefix = s.drop_last();
        lemma_prefix_distinct(s);
        lemma_count_matching(prefix, p);
        lemma_as_map(prefix);
        let k = s.last().key();
        let old_keys = keys_matching(as_map(prefix), p);
        let new_keys = keys_matching(as_map(s), p);
        let expected = if p(s.last()) { old_keys.insert(k) } else { old_keys };
        assert(new_keys =~= expected) by {
            assert forall|x: Seq<char>| new_keys.contains(x) <==> expected.contains(x) by {
                if has_key(prefix, x) {
                    let j = choose|j: int| 0 <= j < prefix.len() && #[trigger] prefix[j].key() == x;
                    assert(s[j] == prefix[j]);
                    assert(as_map(s)[s[j].key()] == s[j]);
                    assert(as_map(prefix)[prefix[j].key()] == prefix[j]);
                    assert(has_key(s, x));
                }
                if has_key(s, x) && x != k {
                    let j = choose|j: int| 0 <= j < s.len() && #[trigger] s[j].key() == x;
                    assert(j < s.len() - 1);
                    assert(prefix[j].key() == x);
                }
                if x == k {
                    assert(as_map(s)[s[s.len() - 1].key()] == s[s.len() - 1]);
                    assert(has_key(s, x));
                }
            }
        }
    }
}

/// A sequence with distinct keys has as many values as its map has keys.
proof fn lemma_store_len<T: Keyed>(s: Seq<T>)
    requires
        keys_distinct(s),
    ensures
        as_map(s).dom().finite(),
        as_map(s).len() == s.len(),
    decreases s.len(),
{
    lemma_as_map(s);
    if s.len() == 0 {
        assert(as_map(s).dom() =~= Set::<Seq<char>>::empty());
    } else {
        let prefix = s.drop_last();
        assert(keys_distinct(prefix)) by {
            assert forall|a: int, b: int|
                0 <= a < prefix.len() && 0 <= b < prefix.len() && a != b implies #[trigger] prefix[a].key()
                != #[trigger] prefix[b].key() by {
                assert(prefix[a] == s[a]);
                assert(prefix[b] == s[b]);
            }
        }
        lemma_store_len(prefix);
        lemma_as_map(prefix);
        let k = s.last().key();
        assert(!has_key(prefix, k)) by {
            if has_key(prefix, k) {
                let j = choose|j: int| 0 <= j < prefix.len() && #[trigger] prefix[j].key() == k;
                assert(s[j].key() == s[s.len() - 1].key());
            }
        }
        assert(as_map(s).dom() =~= as_map(prefix).dom().insert(k)) by {
            assert forall|x: Seq<char>| as_map(s).dom().contains(x) <==> as_map(prefix).dom().insert(k).contains(x) by {
                if has_key(s, x) && x != k {
                    let j = choose|j: int| 0 <= j < s.len() && #[trigger] s[j].key() == x;
                    assert(j < s.len() - 1);
                    assert(prefix[j].key() == x);
                }
                if has_key(prefix, x) {
                    let j = choose|j: int| 0 <= j < prefix.len() && #[trigger] prefix[j].key() == x;
                    assert(s[j].key() == x);
                }
                if x == k {
                    assert(s[s.len() - 1].key() == x);
                }
            }
        }
    }
}

} // verus!
