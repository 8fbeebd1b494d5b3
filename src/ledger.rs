//! A table from names to values: the inventory, the market's prices and its
//! supply/demand factors. Each name occurs at most once, and entries keep the
//! order in which their names were first added.

use vstd::prelude::*;

verus! {

/// Names mapped to values, in the order the names were first added.
pub struct Ledger<V: Copy> {
    entries: Vec<(String, V)>,
}

/// The names of an association list, each with the position it stands at,
/// hold no name twice.
pub open spec fn keys_unique<V>(s: Seq<(Seq<char>, V)>) -> bool {
    forall|i: int, j: int|
        0 <= i < s.len() && 0 <= j < s.len() && #[trigger] s[i].0 == #[trigger] s[j].0 ==> i == j
}

/// The value held for `key` in an association list, if any.
pub open spec fn lookup<V>(s: Seq<(Seq<char>, V)>, key: Seq<char>) -> Option<V> {
    if exists|i: int| 0 <= i < s.len() && #[trigger] s[i].0 == key {
        Some(s[choose|i: int| 0 <= i < s.len() && #[trigger] s[i].0 == key].1)
    } else {
        None
    }
}

/// Looking up the name at a position of a list without repeated names
/// finds the value at that position.
pub proof fn lemma_lookup_at<V>(s: Seq<(Seq<char>, V)>, i: int)
    requires
        keys_unique(s),
        0 <= i < s.len(),
    ensures
        lookup(s, s[i].0) == Some(s[i].1),
{
    let k = s[i].0;
    assert(s[i].0 == k);
    let j = choose|j: int| 0 <= j < s.len() && #[trigger] s[j].0 == k;
    assert(s[j].0 == s[i].0);
}

/// Replacing the value at a position changes the lookup of that name only.
pub proof fn lemma_lookup_update<V>(s: Seq<(Seq<char>, V)>, i: int, v: V, key: Seq<char>)
    requires
        keys_unique(s),
        0 <= i < s.len(),
    ensures
        keys_unique(s.update(i, (s[i].0, v))),
        lookup(s.update(i, (s[i].0, v)), key) == if key == s[i].0 {
            Some(v)
        } else {
            lookup(s, key)
        },
{
    let t = s.update(i, (s[i].0, v));
    assert forall|a: int, b: int|
        0 <= a < t.len() && 0 <= b < t.len() && #[trigger] t[a].0 == #[trigger] t[b].0 implies a
        == b by {
        assert(t[a].0 == s[a].0 && t[b].0 == s[b].0);
    }
    if key == s[i].0 {
        lemma_lookup_at(t, i);
    } else {
        if exists|j: int| 0 <= j < s.len() && #[trigger] s[j].0 == key {
            let j = choose|j: int| 0 <= j < s.len() && #[trigger] s[j].0 == key;
            lemma_lookup_at(s, j);
            assert(t[j].0 == key);
            lemma_lookup_at(t, j);
        } else {
            assert forall|j: int| 0 <= j < t.len() implies #[trigger] t[j].0 != key by {
                assert(t[j].0 == s[j].0 || j == i);
            }
        }
    }
}

/// Appending a new name adds it and leaves the other names as they were.
pub proof fn lemma_lookup_push<V>(s: Seq<(Seq<char>, V)>, k: Seq<char>, v: V, key: Seq<char>)
    requires
        keys_unique(s),
        lookup(s, k) is None,
    ensures
        keys_unique(s.push((k, v))),
        lookup(s.push((k, v)), key) == if key == k {
            Some(v)
        } else {
            lookup(s, key)
        },
{
    let t = s.push((k, v));
    assert forall|i: int| 0 <= i < s.len() implies #[trigger] s[i].0 != k by {
        if s[i].0 == k {
            assert(exists|j: int| 0 <= j < s.len() && #[trigger] s[j].0 == k);
        }
    }
    assert forall|a: int, b: int|
        0 <= a < t.len() && 0 <= b < t.len() && #[trigger] t[a].0 == #[trigger] t[b].0 implies a
        == b by {
        if a < s.len() {
            assert(t[a].0 == s[a].0);
        }
        if b < s.len() {
            assert(t[b].0 == s[b].0);
        }
    }
    if key == k {
        lemma_lookup_at(t, s.len() as int);
    } else {
        if exists|j: int| 0 <= j < s.len() && #[trigger] s[j].0 == key {
            let j = choose|j: int| 0 <= j < s.len() && #[trigger] s[j].0 == key;
            lemma_lookup_at(s, j);
            assert(t[j].0 == key);
            lemma_lookup_at(t, j);
        } else {
            assert forall|j: int| 0 <= j < t.len() implies #[trigger] t[j].0 != key by {
                if j < s.len() {
                    assert(t[j].0 == s[j].0);
                }
            }
        }
    }
}

/// An association list of exec names, seen through the names' views.
pub open spec fn names_of<V>(s: Seq<(String, V)>) -> Seq<(Seq<char>, V)> {
    Seq::new(s.len(), |i: int| (s[i].0@, s[i].1))
}

impl<V: Copy> Ledger<V> {
    /// The entries as names and values, in order.
    pub closed spec fn view(&self) -> Seq<(Seq<char>, V)> {
        names_of(self.entries@)
    }

    #[verifier::type_invariant]
    pub open spec fn names_unique(&self) -> bool {
        keys_unique(self@)
    }

    /// The value held for `key`, if any.
    pub open spec fn spec_get(&self, key: Seq<char>) -> Option<V> {
        lookup(self@, key)
    }

    /// A table with no entries.
    pub fn new() -> (r: Self)
        ensures
            r@ == Seq::<(Seq<char>, V)>::empty(),
    {
        let r = Ledger { entries: Vec::new() };
        assert(r@ =~= Seq::<(Seq<char>, V)>::empty());
        r
    }

    /// The number of entries.
    pub fn len(&self) -> (n: usize)
        ensures
            n == self@.len(),
    {
        self.entries.len()
    }

    /// The name of the entry at `index`.
    pub fn name_at(&self, index: usize) -> (r: &String)
        requires
            index < self@.len(),
        ensures
            r@ == self@[index as int].0,
    {
        &self.entries[index].0
    }

    /// The value of the entry at `index`.
    pub fn value_at(&self, index: usize) -> (r: V)
        requires
            index < self@.len(),
        ensures
            r == self@[index as int].1,
    {
        self.entries[index].1
    }

    /// The position of `key`, if the table holds it.
    pub fn position(&self, key: &str) -> (r: Option<usize>)
        ensures
            match r {
                Some(i) => i < self@.len() && self@[i as int].0 == key@,
                None => self.spec_get(key@) is None,
            },
    {
        proof {
            use_type_invariant(self);
        }
        let wanted = key.to_owned();
        let mut i: usize = 0;
        while i < self.entries.len()
            invariant
                i <= self@.len(),
                wanted@ == key@,
                forall|j: int| 0 <= j < i ==> #[trigger] self@[j].0 != key@,
            decreases self@.len() - i,
        {
            if self.entries[i].0 == wanted {
                return Some(i);
            }
            i += 1;
        }
        assert forall|j: int| 0 <= j < self@.len() implies #[trigger] self@[j].0 != key@ by {}
        None
    }

    /// The value held for `key`, if any.
    pub fn get(&self, key: &str) -> (r: Option<V>)
        ensures
            r == self.spec_get(key@),
    {
        proof {
            use_type_invariant(self);
        }
        match self.position(key) {
            Some(i) => {
                proof {
                    lemma_lookup_at(self@, i as int);
                }
                Some(self.entries[i].1)
            },
            None => None,
        }
    }

    /// Replaces the value at `index`, keeping its name and position.
    pub fn set_at(&mut self, index: usize, value: V)
        requires
            index < old(self)@.len(),
        ensures
            final(self)@ == old(self)@.update(index as int, (old(self)@[index as int].0, value)),
    {
        proof {
            use_type_invariant(&*self);
            lemma_lookup_update(self@, index as int, value, Seq::empty());
        }
        let mut entries: Vec<(String, V)> = Vec::new();
        std::mem::swap(&mut entries, &mut self.entries);
        entries[index].1 = value;
        assert(names_of(entries@) =~= old(self)@.update(
            index as int,
            (old(self)@[index as int].0, value),
        ));
        *self = Ledger { entries };
    }

    /// Sets the value for `key`: in place where the name is held, else as a
    /// new last entry.
    pub fn insert(&mut self, key: &str, value: V)
        ensures
            old(self).spec_get(key@) is Some ==> final(self)@.len() == old(self)@.len(),
            old(self).spec_get(key@) is None ==> final(self)@ == old(self)@.push((key@, value)),
            forall|k: Seq<char>| #[trigger]
                final(self).spec_get(k) == if k == key@ {
                    Some(value)
                } else {
                    old(self).spec_get(k)
                },
    {
        proof {
            use_type_invariant(&*self);
        }
        match self.position(key) {
            Some(i) => {
                self.set_at(i, value);
                proof {
                    assert forall|k: Seq<char>| #[trigger]
                        self.spec_get(k) == if k == key@ {
                            Some(value)
                        } else {
                            old(self).spec_get(k)
                        } by {
                        lemma_lookup_update(old(self)@, i as int, value, k);
                    }
                }
            },
            None => {
                proof {
                    lemma_lookup_push(self@, key@, value, Seq::empty());
                }
                let mut entries: Vec<(String, V)> = Vec::new();
                std::mem::swap(&mut entries, &mut self.entries);
                entries.push((key.to_owned(), value));
                assert(names_of(entries@) =~= old(self)@.push((key@, value)));
                *self = Ledger { entries };
                assert(self@ =~= old(self)@.push((key@, value)));
                proof {
                    assert forall|k: Seq<char>| #[trigger]
                        self.spec_get(k) == if k == key@ {
                            Some(value)
                        } else {
                            old(self).spec_get(k)
                        } by {
                        lemma_lookup_push(old(self)@, key@, value, k);
                    }
                }
            },
        }
    }
}

} // verus!
