//! A map keyed by names, kept in insertion order.
use vstd::prelude::*;

use crate::text::str_eq;

verus! {

/// A finite map from names to values. Each name occurs once; entries keep the order in
/// which their names were first inserted.
#[derive(Debug, PartialEq, Eq, Hash)]
pub struct NameMap<V> {
    items: Vec<(String, V)>,
}

/// The predicate "is not `name`".
pub open spec fn other_than(name: Seq<char>) -> spec_fn(Seq<char>) -> bool {
    |k: Seq<char>| k != name
}

/// The names of a sequence of pairs.
pub open spec fn names_of<V>(s: Seq<(String, V)>) -> Seq<Seq<char>> {
    s.map_values(|p: (String, V)| p.0@)
}

impl<V> NameMap<V> {
    /// Names occur once.
    #[verifier::type_invariant]
    pub closed spec fn inv(self) -> bool {
        forall|i: int, j: int|
            0 <= i < self.items.len() && 0 <= j < self.items.len() && i != j
                ==> self.items[i].0@ != self.items[j].0@
    }

    /// The entries, in order.
    pub closed spec fn pairs(&self) -> Seq<(String, V)> {
        self.items@
    }

    /// The names, in order.
    pub open spec fn key_seq(&self) -> Seq<Seq<char>> {
        names_of(self.pairs())
    }

    /// The index of the entry named `k`.
    pub open spec fn index_of_key(&self, k: Seq<char>) -> int {
        choose|i: int| 0 <= i < self.pairs().len() && self.pairs()[i].0@ == k
    }

    /// The names occur once (a consequence of the type's invariant).
    pub proof fn lemma_unique(&self)
        requires
            self.inv(),
        ensures
            forall|i: int, j: int|
                0 <= i < self.pairs().len() && 0 <= j < self.pairs().len() && i != j
                    ==> self.pairs()[i].0@ != self.pairs()[j].0@,
            self.key_seq().no_duplicates(),
    {
    }

    /// An empty map.
    pub fn new() -> (r: Self)
        ensures
            r@ == Map::<Seq<char>, V>::empty(),
            r.pairs().len() == 0,
    {
        let r = NameMap { items: Vec::new() };
        assert(r@ =~= Map::<Seq<char>, V>::empty());
        r
    }

    /// The number of entries.
    pub fn len(&self) -> (r: usize)
        ensures
            r == self.pairs().len(),
            r == self@.len(),
    {
        proof {
            use_type_invariant(self);
            self.lemma_len();
        }
        self.items.len()
    }

    /// Whether the map has no entries.
    pub fn is_empty(&self) -> (r: bool)
        ensures
            r == (self@.len() == 0),
            r == (self.pairs().len() == 0),
    {
        proof {
            use_type_invariant(self);
            self.lemma_len();
        }
        self.items.len() == 0
    }

    /// The map has as many entries as pairs.
    pub proof fn lemma_len(&self)
        requires
            self.inv(),
        ensures
            self@.dom().finite(),
            self@.len() == self.pairs().len(),
            self@.dom() == self.key_seq().to_set(),
    {
        assert(self@.dom() =~= self.key_seq().to_set()) by {
            assert forall|k: Seq<char>| self@.dom().contains(k) implies self.key_seq().to_set().contains(k) by {
                let i = choose|i: int| 0 <= i < self.pairs().len() && self.pairs()[i].0@ == k;
                assert(self.key_seq()[i] == k);
            }
            assert forall|k: Seq<char>| self.key_seq().to_set().contains(k) implies self@.dom().contains(k) by {
                let i = choose|i: int| 0 <= i < self.key_seq().len() && self.key_seq()[i] == k;
                assert(self.pairs()[i].0@ == k);
            }
        }
        self.key_seq().unique_seq_to_set();
    }

    /// The position of the entry named `name`, if any.
    pub fn find(&self, name: &str) -> (r: Option<usize>)
        ensures
            r is None <==> !self@.contains_key(name@),
            r matches Some(i) ==> i < self.pairs().len() && self.pairs()[i as int].0@ == name@,
    {
        let n = self.items.len();
        let mut i: usize = 0;
        while i < n
            invariant
                n == self.items.len(),
                i <= n,
                forall|j: int| 0 <= j < i ==> self.items[j].0@ != name@,
            decreases n - i,
        {
            if str_eq(self.items[i].0.as_str(), name) {
                return Some(i);
            }
            i = i + 1;
        }
        None
    }

    /// The name and value at position `i`.
    pub fn entry_at(&self, i: usize) -> (r: (&String, &V))
        requires
            i < self.pairs().len(),
        ensures
            *r.0 == self.pairs()[i as int].0,
            *r.1 == self.pairs()[i as int].1,
    {
        let p = &self.items[i];
        (&p.0, &p.1)
    }

    /// The value named `name`, if any.
    pub fn get(&self, name: &str) -> (r: Option<&V>)
        ensures
            r is Some <==> self@.contains_key(name@),
            r matches Some(v) ==> *v == self@[name@],
    {
        match self.find(name) {
            Some(i) => {
                proof {
                    use_type_invariant(self);
                    self.lemma_index(i as int);
                }
                Some(&self.items[i].1)
            },
            None => None,
        }
    }

    /// The entry at a position is the map's value for its name.
    pub proof fn lemma_index(&self, i: int)
        requires
            self.inv(),
            0 <= i < self.pairs().len(),
        ensures
            self@.contains_key(self.pairs()[i].0@),
            self@[self.pairs()[i].0@] == self.pairs()[i].1,
            self.index_of_key(self.pairs()[i].0@) == i,
    {
        let k = self.pairs()[i].0@;
        assert(0 <= i < self.pairs().len() && self.pairs()[i].0@ == k);
        let j = self.index_of_key(k);
        assert(j == i);
    }

    /// A name of the map is found at its index, and its value is the one stored there.
    pub proof fn lemma_key(&self, k: Seq<char>)
        requires
            self.inv(),
            self@.contains_key(k),
        ensures
            0 <= self.index_of_key(k) < self.pairs().len(),
            self.pairs()[self.index_of_key(k)].0@ == k,
            self@[k] == self.pairs()[self.index_of_key(k)].1,
    {
        let i = self.index_of_key(k);
        assert(0 <= i < self.pairs().len() && self.pairs()[i].0@ == k);
        self.lemma_index(i);
    }

    /// Whether an entry is named `name`.
    pub fn contains_key(&self, name: &str) -> (r: bool)
        ensures
            r == self@.contains_key(name@),
    {
        self.find(name).is_some()
    }

    /// Insert or replace the value named `name`; a replaced entry keeps its position,
    /// a new one goes last. Returns the replaced value.
    pub fn insert(&mut self, name: String, value: V) -> (r: Option<V>)
        ensures
            final(self)@ == old(self)@.insert(name@, value),
            r is Some <==> old(self)@.contains_key(name@),
            r matches Some(v) ==> v == old(self)@[name@],
            old(self)@.contains_key(name@) ==> final(self).key_seq() == old(self).key_seq(),
            !old(self)@.contains_key(name@) ==> final(self).key_seq() == old(self).key_seq().push(
                name@,
            ),
    {
        proof {
            use_type_invariant(&*self);
        }
        let ghost old_items = self.items@;
        match self.find(name.as_str()) {
            Some(i) => {
                proof {
                    self.lemma_index(i as int);
                }
                let mut tmp = Vec::new();
                std::mem::swap(&mut tmp, &mut self.items);
                let (_, old_value) = tmp.remove(i);
                tmp.insert(i, (name, value));
                proof {
                    assert(tmp@ =~= old_items.update(i as int, tmp@[i as int]));
                }
                self.items = tmp;
                proof {
                    assert(names_of(self.items@) =~= names_of(old_items));
                    assert(self@ =~= old(self)@.insert(name@, value)) by {
                        assert forall|k: Seq<char>| #[trigger] self@.contains_key(k) == old(
                            self,
                        )@.insert(name@, value).contains_key(k) by {
                            if k != name@ {
                                if self@.contains_key(k) {
                                    let j = choose|j: int|
                                        0 <= j < self.pairs().len() && self.pairs()[j].0@ == k;
                                    assert(old_items[j].0@ == k);
                                }
                                if old(self)@.contains_key(k) {
                                    let j = choose|j: int|
                                        0 <= j < old_items.len() && old_items[j].0@ == k;
                                    assert(self.items@[j].0@ == k);
                                }
                            }
                        }
                        assert forall|k: Seq<char>| self@.contains_key(k) implies #[trigger] self@[k]
                            == old(self)@.insert(name@, value)[k] by {
                            let j = self.index_of_key(k);
                            self.lemma_index(j);
                            if k != name@ {
                                old(self).lemma_index(j);
                            }
                        }
                    }
                }
                Some(old_value)
            },
            None => {
                let mut tmp = Vec::new();
                std::mem::swap(&mut tmp, &mut self.items);
                tmp.push((name, value));
                proof {
                    assert forall|j: int| 0 <= j < old_items.len() implies old_items[j].0@
                        != name@ by {
                        if old_items[j].0@ == name@ {
                            assert(old(self)@.contains_key(name@));
                        }
                    }
                }
                self.items = tmp;
                proof {
                    assert(names_of(self.items@) =~= names_of(old_items).push(name@));
                    assert(self@ =~= old(self)@.insert(name@, value)) by {
                        assert forall|k: Seq<char>| #[trigger] self@.contains_key(k) == old(
                            self,
                        )@.insert(name@, value).contains_key(k) by {
                            if k != name@ {
                                if self@.contains_key(k) {
                                    let j = choose|j: int|
                                        0 <= j < self.pairs().len() && self.pairs()[j].0@ == k;
                                    assert(old_items[j].0@ == k);
                                }
                                if old(self)@.contains_key(k) {
                                    let j = choose|j: int|
                                        0 <= j < old_items.len() && old_items[j].0@ == k;
                                    assert(self.items@[j].0@ == k);
                                }
                            } else {
                                assert(self.items@[old_items.len() as int].0@ == k);
                            }
                        }
                        assert forall|k: Seq<char>| self@.contains_key(k) implies #[trigger] self@[k]
                            == old(self)@.insert(name@, value)[k] by {
                            let j = self.index_of_key(k);
                            self.lemma_index(j);
                            if k != name@ {
                                old(self).lemma_index(j);
                            }
                        }
                    }
                }
                None
            },
        }
    }

    /// Remove the entry named `name`, returning its value; the other entries keep their
    /// order.
    pub fn remove(&mut self, name: &str) -> (r: Option<V>)
        ensures
            final(self)@ == old(self)@.remove(name@),
            r is Some <==> old(self)@.contains_key(name@),
            r matches Some(v) ==> v == old(self)@[name@],
            final(self).key_seq() == old(self).key_seq().filter(other_than(name@)),
    {
        proof {
            use_type_invariant(&*self);
        }
        let ghost old_items = self.items@;
        match self.find(name) {
            Some(i) => {
                proof {
                    self.lemma_index(i as int);
                }
                let mut tmp = Vec::new();
                std::mem::swap(&mut tmp, &mut self.items);
                let (_, old_value) = tmp.remove(i);
                self.items = tmp;
                proof {
                    assert(self.items@ =~= old_items.remove(i as int));
                    lemma_remove_names(old_items, i as int, name@);
                    assert(self@ =~= old(self)@.remove(name@)) by {
                        assert forall|k: Seq<char>| #[trigger] self@.contains_key(k) == old(
                            self,
                        )@.remove(name@).contains_key(k) by {
                            if self@.contains_key(k) {
                                let j = choose|j: int|
                                    0 <= j < self.pairs().len() && self.pairs()[j].0@ == k;
                                if j < i {
                                    assert(old_items[j].0@ == k);
                                } else {
                                    assert(old_items[j + 1].0@ == k);
                                }
                            }
                            if k != name@ && old(self)@.contains_key(k) {
                                let j = choose|j: int|
                                    0 <= j < old_items.len() && old_items[j].0@ == k;
                                if j < i {
                                    assert(self.items@[j].0@ == k);
                                } else {
                                    assert(self.items@[j - 1].0@ == k);
                                }
                            }
                        }
                        assert forall|k: Seq<char>| self@.contains_key(k) implies #[trigger] self@[k]
                            == old(self)@.remove(name@)[k] by {
                            let j = self.index_of_key(k);
                            self.lemma_index(j);
                            if j < i {
                                old(self).lemma_index(j);
                            } else {
                                old(self).lemma_index(j + 1);
                            }
                        }
                    }
                }
                Some(old_value)
            },
            None => {
                proof {
                    assert(old(self)@.remove(name@) =~= old(self)@);
                    assert forall|j: int| 0 <= j < old_items.len() implies old_items[j].0@
                        != name@ by {
                        if old_items[j].0@ == name@ {
                            assert(old(self)@.contains_key(name@));
                        }
                    }
                    lemma_filter_all(names_of(old_items), name@);
                }
                None
            },
        }
    }

    /// Replace the value at position `i`, keeping its name.
    pub fn set_value_at(&mut self, i: usize, value: V)
        requires
            i < old(self).pairs().len(),
        ensures
            final(self)@ == old(self)@.insert(old(self).pairs()[i as int].0@, value),
            final(self).key_seq() == old(self).key_seq(),
            final(self).pairs().len() == old(self).pairs().len(),
    {
        proof {
            use_type_invariant(&*self);
            self.lemma_index(i as int);
        }
        let ghost old_items = self.items@;
        let ghost key = old_items[i as int].0@;
        let mut tmp = Vec::new();
        std::mem::swap(&mut tmp, &mut self.items);
        let (name, _) = tmp.remove(i);
        tmp.insert(i, (name, value));
        self.items = tmp;
        proof {
            assert(names_of(self.items@) =~= names_of(old_items));
            assert(self@ =~= old(self)@.insert(key, value)) by {
                assert forall|k: Seq<char>| #[trigger] self@.contains_key(k) == old(self)@.insert(
                    key,
                    value,
                ).contains_key(k) by {
                    if self@.contains_key(k) {
                        let j = choose|j: int| 0 <= j < self.pairs().len() && self.pairs()[j].0@ == k;
                        assert(old_items[j].0@ == k);
                    }
                    if old(self)@.contains_key(k) {
                        let j = choose|j: int| 0 <= j < old_items.len() && old_items[j].0@ == k;
                        assert(self.items@[j].0@ == k);
                    }
                    if k == key {
                        assert(self.items@[i as int].0@ == k);
                    }
                }
                assert forall|k: Seq<char>| self@.contains_key(k) implies #[trigger] self@[k]
                    == old(self)@.insert(key, value)[k] by {
                    let j = self.index_of_key(k);
                    self.lemma_index(j);
                    if k != key {
                        old(self).lemma_index(j);
                    }
                }
            }
        }
    }
}

impl<V> NameMap<V> {
    /// The entries as name-value pairs, in order.
    pub fn into_pairs(self) -> (r: Vec<(String, V)>)
        ensures
            r@ == self.pairs(),
    {
        self.items
    }

    /// References to the entries, in order.
    pub fn pair_refs(&self) -> (r: Vec<(&String, &V)>)
        ensures
            r@.len() == self.pairs().len(),
            forall|i: int|
                0 <= i < r@.len() ==> *r@[i].0 == self.pairs()[i].0 && *r@[i].1
                    == self.pairs()[i].1,
    {
        let n = self.items.len();
        let mut r: Vec<(&String, &V)> = Vec::new();
        let mut i: usize = 0;
        while i < n
            invariant
                n == self.items.len(),
                i <= n,
                r@.len() == i,
                forall|j: int|
                    0 <= j < i ==> *r@[j].0 == self.items@[j].0 && *r@[j].1 == self.items@[j].1,
            decreases n - i,
        {
            let p = &self.items[i];
            r.push((&p.0, &p.1));
            i = i + 1;
        }
        r
    }
}

impl<V> View for NameMap<V> {
    type V = Map<Seq<char>, V>;

    closed spec fn view(&self) -> Map<Seq<char>, V> {
        Map::new(
            |k: Seq<char>|
                exists|i: int| 0 <= i < self.items.len() && self.items[i].0@ == k,
            |k: Seq<char>|
                self.items[choose|i: int| 0 <= i < self.items.len() && self.items[i].0@ == k].1,
        )
    }
}

impl<V: Clone> Clone for NameMap<V> {
    fn clone(&self) -> (r: Self)
        ensures
            r.key_seq() == self.key_seq(),
    {
        proof {
            use_type_invariant(self);
        }
        let n = self.items.len();
        let mut items: Vec<(String, V)> = Vec::new();
        let mut i: usize = 0;
        while i < n
            invariant
                n == self.items.len(),
                i <= n,
                items.len() == i,
                forall|j: int| 0 <= j < i ==> items[j].0 == self.items[j].0,
                self.inv(),
            decreases n - i,
        {
            let p = &self.items[i];
            items.push((p.0.clone(), p.1.clone()));
            i = i + 1;
        }
        let r = NameMap { items };
        assert(r.key_seq() =~= self.key_seq());
        r
    }
}

impl<V> Default for NameMap<V> {
    fn default() -> (r: Self)
        ensures
            r@ == Map::<Seq<char>, V>::empty(),
            r.pairs().len() == 0,
    {
        Self::new()
    }
}

proof fn lemma_remove_names<V>(s: Seq<(String, V)>, i: int, name: Seq<char>)
    requires
        0 <= i < s.len(),
        s[i].0@ == name,
        forall|a: int, b: int| 0 <= a < s.len() && 0 <= b < s.len() && a != b ==> s[a].0@ != s[b].0@,
    ensures
        names_of(s.remove(i)) == names_of(s).filter(other_than(name)),
    decreases s.len(),
{
    reveal(Seq::filter);
    if i == s.len() - 1 {
        assert(s.remove(i) =~= s.drop_last());
        assert(names_of(s).drop_last() =~= names_of(s.drop_last()));
        assert forall|j: int| 0 <= j < s.drop_last().len() implies s.drop_last()[j].0@ != name by {
            assert(s[j].0@ != s[i].0@);
        }
        lemma_filter_all(names_of(s.drop_last()), name);
    } else {
        let t = s.drop_last();
        lemma_remove_names(t, i, name);
        assert(s.remove(i) =~= t.remove(i).push(s.last()));
        assert(names_of(s.remove(i)) =~= names_of(t.remove(i)).push(s.last().0@));
        assert(names_of(s).drop_last() =~= names_of(t));
        assert(s.last().0@ != name);
    }
}

proof fn lemma_filter_all(s: Seq<Seq<char>>, name: Seq<char>)
    requires
        forall|j: int| 0 <= j < s.len() ==> s[j] != name,
    ensures
        s.filter(other_than(name)) == s,
    decreases s.len(),
{
    reveal(Seq::filter);
    if s.len() > 0 {
        lemma_filter_all(s.drop_last(), name);
        assert(s.drop_last().push(s.last()) =~= s);
    }
}

} // verus!
