//! A map from texts to values that remembers the order in which its keys came.

use crate::text::same_text;
use vstd::prelude::*;

verus! {

/// A map from texts to values. Its entries stand in the order in which their keys were first
/// inserted, and no key stands twice.
#[derive(Debug, Clone)]
pub struct TextMap<V> {
    list: Vec<(String, V)>,
}

impl<V> View for TextMap<V> {
    type V = Map<Seq<char>, V>;

    open spec fn view(&self) -> Map<Seq<char>, V> {
        Map::new(
            |k: Seq<char>| self.holds(k),
            |k: Seq<char>| self.entries()[self.place(k)].1,
        )
    }
}

impl<V> TextMap<V> {
    /// The entries in the order in which their keys came.
    pub closed spec fn entries(&self) -> Seq<(String, V)> {
        self.list@
    }

    pub open spec fn key_at(&self, i: int) -> Seq<char> {
        self.entries()[i].0@
    }

    pub open spec fn holds(&self, k: Seq<char>) -> bool {
        exists|i: int| 0 <= i < self.entries().len() && #[trigger] self.key_at(i) == k
    }

    /// The position of a key's entry.
    pub open spec fn place(&self, k: Seq<char>) -> int {
        choose|i: int| 0 <= i < self.entries().len() && #[trigger] self.key_at(i) == k
    }

    /// No key stands twice.
    pub open spec fn wf(&self) -> bool {
        forall|i: int, j: int|
            0 <= i < j < self.entries().len() ==> #[trigger] self.key_at(i) != #[trigger] self.key_at(
                j,
            )
    }

    /// Each entry is what the map gives for its key.
    pub proof fn lemma_entry(&self, i: int)
        requires
            self.wf(),
            0 <= i < self.entries().len(),
        ensures
            self@.contains_key(self.key_at(i)),
            self@[self.key_at(i)] == self.entries()[i].1,
            self.place(self.key_at(i)) == i,
    {
        let k = self.key_at(i);
        assert(self.holds(k));
        let p = self.place(k);
        assert(self.key_at(p) == k);
    }

    /// An empty map.
    pub fn new() -> (r: TextMap<V>)
        ensures
            r.wf(),
            r.entries() == Seq::<(String, V)>::empty(),
            r@ == Map::<Seq<char>, V>::empty(),
    {
        let r = TextMap { list: Vec::new() };
        assert(r@ =~= Map::<Seq<char>, V>::empty());
        r
    }

    /// The number of entries.
    pub fn len(&self) -> (r: usize)
        ensures
            r == self.entries().len(),
    {
        self.list.len()
    }

    /// Whether the map has no entry.
    pub fn is_empty(&self) -> (r: bool)
        ensures
            r == (self.entries().len() == 0),
            r <==> self@ == Map::<Seq<char>, V>::empty(),
    {
        proof {
            if self.entries().len() > 0 {
                assert(self.holds(self.key_at(0)));
                assert(self@.contains_key(self.key_at(0)));
            } else {
                assert(self@ =~= Map::<Seq<char>, V>::empty());
            }
        }
        self.list.len() == 0
    }

    /// The key of the entry at position `i`.
    pub fn key(&self, i: usize) -> (r: &String)
        requires
            i < self.entries().len(),
        ensures
            r@ == self.key_at(i as int),
    {
        &self.list[i].0
    }

    /// The value of the entry at position `i`.
    pub fn value_at(&self, i: usize) -> (r: &V)
        requires
            i < self.entries().len(),
        ensures
            *r == self.entries()[i as int].1,
    {
        &self.list[i].1
    }

    /// The position of a key's entry.
    pub fn position(&self, k: &str) -> (r: Option<usize>)
        requires
            self.wf(),
        ensures
            match r {
                Some(i) => i < self.entries().len() && self.key_at(i as int) == k@ && self.place(k@)
                    == i && self@.contains_key(k@) && self@[k@] == self.entries()[i as int].1,
                None => !self.holds(k@) && !self@.contains_key(k@),
            },
    {
        let mut i: usize = 0;
        while i < self.list.len()
            invariant
                self.wf(),
                0 <= i <= self.entries().len(),
                forall|j: int| 0 <= j < i ==> #[trigger] self.key_at(j) != k@,
            decreases self.entries().len() - i,
        {
            if same_text(self.list[i].0.as_str(), k) {
                assert(self.key_at(i as int) == k@);
                proof {
                    self.lemma_entry(i as int);
                }
                return Some(i);
            }
            i = i + 1;
        }
        None
    }

    /// The value of a key.
    pub fn get(&self, k: &str) -> (r: Option<&V>)
        requires
            self.wf(),
        ensures
            match r {
                Some(v) => self@.contains_key(k@) && *v == self@[k@],
                None => !self@.contains_key(k@),
            },
    {
        match self.position(k) {
            Some(i) => Some(&self.list[i].1),
            None => None,
        }
    }

    /// Gives a key a value, in place of the one that it has.
    pub fn insert(&mut self, k: String, v: V)
        requires
            old(self).wf(),
        ensures
            final(self).wf(),
            final(self)@ == old(self)@.insert(k@, v),
            old(self).holds(k@) ==> final(self).entries() == old(self).entries().update(
                old(self).place(k@),
                (k, v),
            ),
            !old(self).holds(k@) ==> final(self).entries() == old(self).entries().push((k, v)),
    {
        let ghost before = *self;
        match self.position(k.as_str()) {
            Some(i) => {
                let ghost key = k@;
                let ghost e = (k, v);
                self.list[i] = (k, v);
                proof {
                    assert(self.entries() == before.entries().update(i as int, e));
                    assert forall|j: int| 0 <= j < self.entries().len() implies #[trigger] self.key_at(
                        j,
                    ) == before.key_at(j) by {}
                    lemma_same_keys(*self, before);
                    assert forall|q: Seq<char>| self@.contains_key(q) implies self@[q] == before@.insert(
                        key,
                        v,
                    )[q] by {
                        let j = self.place(q);
                        assert(self.key_at(j) == q);
                        self.lemma_entry(j);
                        before.lemma_entry(j);
                    }
                    assert(self@ =~= before@.insert(key, v));
                }
            },
            None => {
                let ghost key = k@;
                let ghost e = (k, v);
                self.list.push((k, v));
                proof {
                    let n = before.entries().len() as int;
                    assert(self.entries() == before.entries().push(e));
                    assert forall|j: int| 0 <= j < n implies #[trigger] self.key_at(j)
                        == before.key_at(j) by {}
                    assert(self.key_at(n) == key);
                    assert forall|i: int, j: int|
                        0 <= i < j < self.entries().len() implies #[trigger] self.key_at(i)
                        != #[trigger] self.key_at(j) by {
                        if j == n {
                            assert(before.key_at(i) != key);
                        } else {
                            assert(before.key_at(i) != before.key_at(j));
                        }
                    }
                    assert forall|q: Seq<char>| self.holds(q) <==> before.holds(q) || q == key by {
                        if before.holds(q) {
                            assert(self.key_at(before.place(q)) == q);
                        }
                        if self.holds(q) && q != key {
                            assert(before.key_at(self.place(q)) == q);
                        }
                    }
                    assert forall|q: Seq<char>| self@.contains_key(q) implies self@[q] == before@.insert(
                        key,
                        v,
                    )[q] by {
                        let j = self.place(q);
                        assert(self.key_at(j) == q);
                        self.lemma_entry(j);
                        if j < n {
                            before.lemma_entry(j);
                        }
                    }
                    assert(self@ =~= before@.insert(key, v));
                }
            },
        }
    }

    /// Access to the value of the entry at position `i`.
    pub fn value_mut(&mut self, i: usize) -> (r: &mut V)
        requires
            old(self).wf(),
            i < old(self).entries().len(),
        ensures
            *r == old(self).entries()[i as int].1,
            final(self).entries() == old(self).entries().update(
                i as int,
                (old(self).entries()[i as int].0, *final(r)),
            ),
    {
        &mut self.list[i].1
    }
}

/// Two maps with the same keys at the same positions hold the same keys.
pub proof fn lemma_same_keys<V>(a: TextMap<V>, b: TextMap<V>)
    requires
        b.wf(),
        a.entries().len() == b.entries().len(),
        forall|j: int| 0 <= j < a.entries().len() ==> #[trigger] a.key_at(j) == b.key_at(j),
    ensures
        a.wf(),
        forall|k: Seq<char>| #[trigger] a.holds(k) == b.holds(k),
{
    assert forall|i: int, j: int| 0 <= i < j < a.entries().len() implies #[trigger] a.key_at(i)
        != #[trigger] a.key_at(j) by {
        assert(b.key_at(i) != b.key_at(j));
    }
    assert forall|k: Seq<char>| #[trigger] a.holds(k) == b.holds(k) by {
        if a.holds(k) {
            assert(b.key_at(a.place(k)) == k);
        }
        if b.holds(k) {
            assert(a.key_at(b.place(k)) == k);
        }
    }
}

} // verus!
