//! A set of strings, kept as a list in which no text occurs twice.
use vstd::prelude::*;

verus! {

/// The texts of a list of strings.
pub open spec fn texts(v: Seq<String>) -> Seq<Seq<char>> {
    v.map_values(|s: String| s@)
}

/// A set of strings (ids of notes, names of participants).
#[derive(Debug)]
pub struct StringSet {
    items: Vec<String>,
}

impl View for StringSet {
    type V = Set<Seq<char>>;

    closed spec fn view(&self) -> Set<Seq<char>> {
        texts(self.items@).to_set()
    }
}

impl StringSet {
    #[verifier::type_invariant]
    closed spec fn no_text_twice(self) -> bool {
        texts(self.items@).no_duplicates()
    }

    /// The empty set.
    pub fn new() -> (r: StringSet)
        ensures
            r@ == Set::<Seq<char>>::empty(),
    {
        let r = StringSet { items: Vec::new() };
        assert(texts(r.items@) =~= Seq::<Seq<char>>::empty());
        assert(r@ =~= Set::<Seq<char>>::empty());
        r
    }

    /// Where `s` stands in the list, if it is there.
    fn position(&self, s: &str) -> (r: Option<usize>)
        ensures
            match r {
                Some(i) => i < self.items@.len() && self.items@[i as int]@ == s@,
                None => !self@.contains(s@),
            },
    {
        let mut i: usize = 0;
        while i < self.items.len()
            invariant
                i <= self.items@.len(),
                forall|j: int| 0 <= j < i ==> self.items@[j]@ != s@,
            decreases self.items@.len() - i,
        {
            if crate::text::same_text(self.items[i].as_str(), s) {
                return Some(i);
            }
            i = i + 1;
        }
        proof {
            if self@.contains(s@) {
                let k = choose|k: int| 0 <= k < texts(self.items@).len() && texts(self.items@)[k] == s@;
                assert(self.items@[k]@ == s@);
            }
        }
        None
    }

    /// Whether `s` is in the set.
    pub fn contains(&self, s: &str) -> (r: bool)
        ensures
            r == self@.contains(s@),
    {
        match self.position(s) {
            Some(i) => {
                assert(texts(self.items@)[i as int] == s@);
                true
            },
            None => false,
        }
    }

    /// Adds `s` to the set.
    pub fn insert(&mut self, s: String)
        ensures
            final(self)@ == old(self)@.insert(s@),
    {
        proof {
            use_type_invariant(&*self);
        }
        if self.contains(s.as_str()) {
            assert(old(self)@.insert(s@) =~= old(self)@);
            return;
        }
        let ghost before = texts(self.items@);
        let mut items = Vec::new();
        std::mem::swap(&mut items, &mut self.items);
        items.push(s);
        assert(texts(items@) =~= before.push(s@));
        proof {
            assert forall|i: int, j: int|
                0 <= i < texts(items@).len() && 0 <= j < texts(items@).len() && i != j
                    implies texts(items@)[i] != texts(items@)[j] by {
                if i < before.len() && j < before.len() {
                } else if i == before.len() {
                    assert(before.contains(before[j]));
                } else {
                    assert(before.contains(before[i]));
                }
            }
        }
        self.items = items;
        assert(self@ =~= old(self)@.insert(s@)) by {
            assert forall|t: Seq<char>| self@.contains(t) <==> old(self)@.insert(s@).contains(t) by {
                if before.contains(t) {
                    let k = choose|k: int| 0 <= k < before.len() && before[k] == t;
                    assert(texts(self.items@)[k] == t);
                }
                if t == s@ {
                    assert(texts(self.items@)[before.len() as int] == t);
                }
            }
        }
    }

    /// Takes `s` out of the set.
    pub fn remove(&mut self, s: &str)
        ensures
            final(self)@ == old(self)@.remove(s@),
    {
        proof {
            use_type_invariant(&*self);
        }
        match self.position(s) {
            None => {
                assert(old(self)@.remove(s@) =~= old(self)@);
            },
            Some(i) => {
                let ghost before = texts(self.items@);
                let mut items = Vec::new();
                std::mem::swap(&mut items, &mut self.items);
                items.remove(i);
                assert(texts(items@) =~= before.remove(i as int));
                self.items = items;
                assert(self@ =~= old(self)@.remove(s@)) by {
                    assert forall|t: Seq<char>|
                        self@.contains(t) <==> old(self)@.remove(s@).contains(t) by {
                        let after = texts(self.items@);
                        if after.contains(t) {
                            let k = choose|k: int| 0 <= k < after.len() && after[k] == t;
                            if k < i {
                                assert(before[k] == t);
                                assert(before[k] != before[i as int]);
                            } else {
                                assert(before[k + 1] == t);
                                assert(before[k + 1] != before[i as int]);
                            }
                        }
                        if old(self)@.remove(s@).contains(t) {
                            let k = choose|k: int| 0 <= k < before.len() && before[k] == t;
                            if k < i {
                                assert(after[k] == t);
                            } else {
                                assert(after[k - 1] == t);
                            }
                        }
                    }
                }
            },
        }
    }

    /// How many strings the set holds.
    pub fn len(&self) -> (n: usize)
        ensures
            n == self@.len(),
    {
        proof {
            use_type_invariant(self);
            texts(self.items@).unique_seq_to_set();
        }
        self.items.len()
    }

    /// The set of the texts in `v`.
    pub fn from_vec(v: Vec<String>) -> (r: StringSet)
        ensures
            r@ == texts(v@).to_set(),
    {
        let mut r = StringSet::new();
        let mut rest = v;
        let ghost all = texts(rest@);
        assert(all.to_set() + r@ =~= all.to_set());
        while rest.len() > 0
            invariant
                all == texts(v@),
                texts(rest@).to_set() + r@ == all.to_set(),
            decreases rest@.len(),
        {
            let ghost before = texts(rest@);
            let ghost r_before = r@;
            let s = rest.pop().unwrap();
            assert(before =~= texts(rest@).push(s@));
            r.insert(s);
            assert(texts(rest@).to_set() + r@ =~= before.to_set() + r_before) by {
                assert forall|t: Seq<char>|
                    (texts(rest@).to_set() + r@).contains(t) <==> (before.to_set() + r_before).contains(t) by {
                    if texts(rest@).contains(t) {
                        let k = choose|k: int| 0 <= k < texts(rest@).len() && texts(rest@)[k] == t;
                        assert(before[k] == t);
                    }
                    if before.contains(t) && t != s@ {
                        let k = choose|k: int| 0 <= k < before.len() && before[k] == t;
                        assert(texts(rest@)[k] == t);
                    }
                    if t == s@ {
                        assert(before[before.len() - 1] == t);
                    }
                }
            }
        }
        assert(texts(rest@).to_set() =~= Set::<Seq<char>>::empty());
        assert(r@ =~= all.to_set());
        r
    }

    /// The strings of the set, each once.
    pub fn to_vec(&self) -> (v: Vec<String>)
        ensures
            texts(v@).to_set() == self@,
            texts(v@).no_duplicates(),
    {
        proof {
            use_type_invariant(self);
        }
        self.items.clone()
    }
}

} // verus!
