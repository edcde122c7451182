//! Directories: tables from names to values.

use crate::text::{same, texts};
use vstd::prelude::*;

verus! {

/// What a [`Directory`] holds: a value for each name, and the order in which the
/// names are listed.
#[verifier::ext_equal]
pub struct Table<T> {
    pub order: Seq<Seq<char>>,
    pub map: Map<Seq<char>, T>,
}

impl<T> Table<T> {
    /// Whether each name is listed once, and no other.
    pub open spec fn valid(self) -> bool {
        &&& self.order.no_duplicates()
        &&& forall|name: Seq<char>| #[trigger]
            self.order.contains(name) <==> self.map.contains_key(name)
    }

    /// Whether `name` has a value.
    pub open spec fn has(self, name: Seq<char>) -> bool {
        self.map.contains_key(name)
    }

    /// The table of nothing.
    pub open spec fn empty() -> Self {
        Table { order: Seq::empty(), map: Map::empty() }
    }

    /// The table with `value` for `name`. A new name is listed last.
    pub open spec fn put(self, name: Seq<char>, value: T) -> Self {
        Table {
            order: if self.has(name) {
                self.order
            } else {
                self.order.push(name)
            },
            map: self.map.insert(name, value),
        }
    }

    /// The table without `name`.
    pub open spec fn without(self, name: Seq<char>) -> Self {
        Table {
            order: if self.has(name) {
                self.order.remove(self.order.index_of(name))
            } else {
                self.order
            },
            map: self.map.remove(name),
        }
    }

    /// A table that is in order stays so when a name is given a value.
    pub proof fn put_keeps_order(self, name: Seq<char>, value: T)
        requires
            self.valid(),
        ensures
            self.put(name, value).valid(),
    {
        let after = self.put(name, value);
        assert(self.order.contains(name) <==> self.has(name));
        assert forall|n: Seq<char>| #[trigger]
            after.order.contains(n) <==> after.map.contains_key(n) by {
            if !self.has(name) {
                assert(after.order.last() == name);
                if self.order.contains(n) {
                    assert(after.order[self.order.index_of(n)] == n);
                }
            }
        }
    }

    /// A table that is in order stays so when a name is taken out.
    pub proof fn without_keeps_order(self, name: Seq<char>)
        requires
            self.valid(),
        ensures
            self.without(name).valid(),
    {
        let after = self.without(name);
        if self.has(name) {
            assert(self.order.contains(name));
            let i = self.order.index_of(name);
            assert(self.order[i] == name);
            assert forall|n: Seq<char>| #[trigger]
                after.order.contains(n) <==> after.map.contains_key(n) by {
                if after.order.contains(n) {
                    let k = after.order.index_of(n);
                    assert(self.order[if k < i { k } else { k + 1 }] == n);
                    assert(self.order.contains(n));
                }
                if after.map.contains_key(n) {
                    assert(self.order.contains(n));
                    let k = self.order.index_of(n);
                    assert(after.order[if k < i { k } else { k - 1 }] == n);
                }
            }
        }
    }
}

/// A table from names to values.
pub struct Directory<V> {
    entries: Vec<(String, V)>,
}

impl<V: View> View for Directory<V> {
    type V = Table<V::V>;

    closed spec fn view(&self) -> Table<V::V> {
        let order = self.entries@.map_values(|e: (String, V)| e.0@);
        Table {
            order,
            map: Map::new(
                |name: Seq<char>| order.contains(name),
                |name: Seq<char>| self.entries@[order.index_of(name)].1@,
            ),
        }
    }
}

/// In a list without repetitions a name is where it was found.
proof fn lemma_index_of(order: Seq<Seq<char>>, i: int)
    requires
        order.no_duplicates(),
        0 <= i < order.len(),
    ensures
        order.index_of(order[i]) == i,
        order.contains(order[i]),
{
    let k = order.index_of(order[i]);
    assert(order[i] == order[k]);
}

impl<V: View> Directory<V> {
    /// A directory of nothing.
    pub fn new() -> (r: Self)
        ensures
            r@ == Table::<V::V>::empty(),
            r@.map == Map::<Seq<char>, V::V>::empty(),
            r@.order.len() == 0,
    {
        let r: Self = Directory { entries: Vec::new() };
        assert(r@ =~= Table::<V::V>::empty());
        r
    }

    /// The place of `name` among the entries.
    fn find(&self, name: &str) -> (r: Option<usize>)
        ensures
            r is Some <==> self@.has(name@),
            r matches Some(i) ==> i < self.entries.len() && self.entries[i as int].0@ == name@
                && self@.order[i as int] == name@ && self@.order.len() == self.entries.len(),
    {
        for i in 0..self.entries.len()
            invariant
                forall|j: int| 0 <= j < i ==> #[trigger] self.entries[j].0@ != name@,
        {
            if same(self.entries[i].0.as_str(), name) {
                assert(self@.order[i as int] == name@);
                return Some(i);
            }
        }
        None
    }

    /// Tells whether `name` has a value.
    pub fn contains(&self, name: &str) -> (b: bool)
        ensures
            b == self@.has(name@),
            b == self@.map.contains_key(name@),
    {
        self.find(name).is_some()
    }

    /// The value for `name`.
    pub fn get(&self, name: &str) -> (r: Option<&V>)
        requires
            self@.valid(),
        ensures
            r is Some <==> self@.has(name@),
            r is Some <==> self@.map.contains_key(name@),
            r matches Some(value) ==> value@ == self@.map[name@],
    {
        match self.find(name) {
            Some(i) => {
                proof {
                    lemma_index_of(self@.order, i as int);
                }
                Some(&self.entries[i].1)
            },
            None => None,
        }
    }

    /// Gives `name` the value `value`, in place of any that it had.
    pub fn insert(&mut self, name: &str, value: V)
        requires
            old(self)@.valid(),
        ensures
            final(self)@ == old(self)@.put(name@, value@),
            final(self)@.map == old(self)@.map.insert(name@, value@),
            old(self)@.map.contains_key(name@) ==> final(self)@.order == old(self)@.order,
            !old(self)@.map.contains_key(name@) ==> final(self)@.order == old(self)@.order.push(
                name@,
            ),
            final(self)@.valid(),
    {
        let ghost before = self@;
        match self.find(name) {
            Some(i) => {
                let key = name.to_string();
                self.entries.set(i, (key, value));
                proof {
                    lemma_index_of(before.order, i as int);
                    assert(self@.order =~= before.order);
                    assert forall|n: Seq<char>|
                        before.has(n) && n != name@ implies self@.map[n] == before.map[n] by {
                        let k = before.order.index_of(n);
                        assert(before.order[k] == n);
                    }
                    assert(self@.map =~= before.map.insert(name@, value@));
                }
            },
            None => {
                self.entries.push((name.to_string(), value));
                proof {
                    assert(self@.order =~= before.order.push(name@));
                    assert forall|n: Seq<char>|
                        self@.order.contains(n) <==> (before.order.contains(n) || n == name@) by {
                        if before.order.contains(n) {
                            let k = before.order.index_of(n);
                            assert(self@.order[k] == n);
                        }
                        if n == name@ {
                            assert(self@.order[before.order.len() as int] == n);
                        }
                    }
                    assert(self@.order.no_duplicates());
                    lemma_index_of(self@.order, before.order.len() as int);
                    assert forall|n: Seq<char>|
                        before.has(n) implies self@.map[n] == before.map[n] by {
                        let k = before.order.index_of(n);
                        lemma_index_of(before.order, k);
                        lemma_index_of(self@.order, k);
                    }
                    assert(self@.map =~= before.map.insert(name@, value@));
                }
            },
        }
        assert(self@ =~= before.put(name@, value@));
    }

    /// Access to the value for `name`.
    pub fn get_mut(&mut self, name: &str) -> (r: Option<&mut V>)
        requires
            old(self)@.valid(),
        ensures
            r is Some <==> old(self)@.has(name@),
            r is None ==> final(self)@ == old(self)@,
            r matches Some(value) ==> {
                &&& value@ == old(self)@.map[name@]
                &&& final(self)@ == old(self)@.put(name@, final(value)@)
                &&& final(self)@.map == old(self)@.map.insert(name@, final(value)@)
                &&& final(self)@.order == old(self)@.order
            },
    {
        match self.find(name) {
            Some(i) => {
                proof {
                    lemma_index_of(self@.order, i as int);
                }
                Some(&mut self.entries[i].1)
            },
            None => None,
        }
    }

    /// Takes `name` and its value out, where it is there.
    pub fn remove(&mut self, name: &str)
        requires
            old(self)@.valid(),
        ensures
            final(self)@ == old(self)@.without(name@),
            final(self)@.map == old(self)@.map.remove(name@),
            final(self)@.valid(),
    {
        let ghost before = self@;
        match self.find(name) {
            Some(i) => {
                let _ = self.entries.remove(i);
                proof {
                    lemma_index_of(before.order, i as int);
                    assert(self@.order =~= before.order.remove(i as int));
                    assert(self@.order.no_duplicates());
                    assert forall|n: Seq<char>| #[trigger]
                        self@.order.contains(n) <==> (before.order.contains(n) && n != name@) by {
                        if self@.order.contains(n) {
                            let k = self@.order.index_of(n);
                            assert(before.order[if k < i { k } else { k + 1 }] == n);
                        }
                        if before.order.contains(n) && n != name@ {
                            let k = before.order.index_of(n);
                            assert(self@.order[if k < i { k } else { k - 1 }] == n);
                        }
                    }
                    assert forall|n: Seq<char>|
                        self@.has(n) implies self@.map[n] == before.map[n] by {
                        assert(self@.order.contains(n));
                        let k = self@.order.index_of(n);
                        lemma_index_of(before.order, if k < i { k } else { k + 1 });
                    }
                    assert(self@.map =~= before.map.remove(name@));
                }
            },
            None => {
                assert(self@.map =~= before.map.remove(name@));
            },
        }
        assert(self@ =~= before.without(name@));
    }

    /// How many names there are.
    pub fn len(&self) -> (n: usize)
        ensures
            n == self@.order.len(),
    {
        self.entries.len()
    }

    /// The name that is listed at `i`, and its value.
    pub fn entry(&self, i: usize) -> (r: (&str, &V))
        requires
            self@.valid(),
            i < self@.order.len(),
        ensures
            r.0@ == self@.order[i as int],
            self@.has(r.0@),
            r.1@ == self@.map[r.0@],
    {
        proof {
            lemma_index_of(self@.order, i as int);
        }
        (self.entries[i].0.as_str(), &self.entries[i].1)
    }

    /// The names, in the order in which they are listed.
    pub fn names(&self) -> (r: Vec<String>)
        requires
            self@.valid(),
        ensures
            texts(r@) == self@.order,
            r@.len() == self@.order.len(),
            forall|i: int| 0 <= i < r@.len() ==> (#[trigger] r@[i])@ == self@.order[i],
    {
        let mut r: Vec<String> = Vec::new();
        let n: usize = self.len();
        for i in 0..n
            invariant
                n == self@.order.len(),
                self@.valid(),
                texts(r@) == self@.order.take(i as int),
        {
            let ghost before = r@;
            r.push(self.entry(i).0.to_string());
            assert(texts(r@) =~= texts(before).push(self@.order[i as int]));
            assert(texts(r@) =~= self@.order.take(i + 1));
        }
        assert(self@.order.take(self@.order.len() as int) == self@.order);
        r
    }
}

} // verus!
