//! Typed repositories: a set of rows and a map from keys to records, both
//! kept in vectors without repetition.

use vstd::prelude::*;

verus! {

/// A value that can stand as a row or as a key of a repository: it has a
/// mathematical model, can be compared with another by that model, and can
/// be copied.
pub trait Row: View + Sized {
    fn same(&self, other: &Self) -> (b: bool)
        ensures
            b == (self@ == other@),
    ;

    fn dup(&self) -> (r: Self)
        ensures
            r@ == self@,
    ;
}

impl Row for u32 {
    fn same(&self, other: &Self) -> (b: bool) {
        *self == *other
    }

    fn dup(&self) -> (r: Self) {
        *self
    }
}

impl Row for i32 {
    fn same(&self, other: &Self) -> (b: bool) {
        *self == *other
    }

    fn dup(&self) -> (r: Self) {
        *self
    }
}

impl Row for String {
    fn same(&self, other: &Self) -> (b: bool) {
        *self == *other
    }

    fn dup(&self) -> (r: Self) {
        self.clone()
    }
}

impl<A: Row, B: Row> Row for (A, B) {
    fn same(&self, other: &Self) -> (b: bool) {
        self.0.same(&other.0) && self.1.same(&other.1)
    }

    fn dup(&self) -> (r: Self) {
        (self.0.dup(), self.1.dup())
    }
}

impl<A: Row, B: Row, C: Row> Row for (A, B, C) {
    fn same(&self, other: &Self) -> (b: bool) {
        self.0.same(&other.0) && self.1.same(&other.1) && self.2.same(&other.2)
    }

    fn dup(&self) -> (r: Self) {
        (self.0.dup(), self.1.dup(), self.2.dup())
    }
}

/// A finite set of rows.
#[derive(Debug)]
pub struct Table<T: Row> {
    rows: Vec<T>,
}

impl<T: Row> View for Table<T> {
    type V = Set<T::V>;

    open spec fn view(&self) -> Set<T::V> {
        self.models().to_set()
    }
}

impl<T: Row> Table<T> {
    /// The models of the rows, in the order in which they are held.
    pub closed spec fn models(&self) -> Seq<T::V> {
        self.rows@.map_values(|r: T| r@)
    }

    /// No row is held twice.
    pub open spec fn wf(&self) -> bool {
        self.models().no_duplicates()
    }

    /// A table without rows is the empty set.
    pub proof fn lemma_none(&self)
        requires
            self.models().len() == 0,
        ensures
            self@ == Set::<T::V>::empty(),
    {
        assert(self@ =~= Set::<T::V>::empty());
    }

    /// A table without rows.
    pub fn new() -> (t: Self)
        ensures
            t.wf(),
            t.models() == Seq::<T::V>::empty(),
            t@ == Set::<T::V>::empty(),
    {
        let t = Table { rows: Vec::new() };
        assert(t.models() =~= Seq::<T::V>::empty());
        assert(t@ =~= Set::<T::V>::empty());
        t
    }

    /// How many rows are held.
    pub fn len(&self) -> (n: usize)
        ensures
            n == self.models().len(),
    {
        self.rows.len()
    }

    /// The row held at a place.
    pub fn row(&self, i: usize) -> (r: &T)
        requires
            i < self.models().len(),
        ensures
            r@ == self.models()[i as int],
    {
        &self.rows[i]
    }

    /// Where the row with the model of `k` is held, if it is.
    pub fn position(&self, k: &T) -> (r: Option<usize>)
        ensures
            match r {
                Some(i) => i < self.models().len() && self.models()[i as int] == k@,
                None => !self@.contains(k@),
            },
    {
        let mut i: usize = 0;
        while i < self.rows.len()
            invariant
                i <= self.rows.len(),
                forall|j: int| 0 <= j < i ==> self.models()[j] != k@,
            decreases self.rows.len() - i,
        {
            if self.rows[i].same(k) {
                return Some(i);
            }
            i += 1;
        }
        None
    }

    /// Whether a row with the model of `k` is held.
    pub fn contains(&self, k: &T) -> (b: bool)
        ensures
            b == self@.contains(k@),
    {
        match self.position(k) {
            Some(i) => {
                assert(self.models().contains(k@));
                true
            },
            None => false,
        }
    }

    /// Adds a row; says whether it was new.
    pub fn insert(&mut self, k: T) -> (fresh: bool)
        requires
            old(self).wf(),
        ensures
            final(self).wf(),
            final(self)@ == old(self)@.insert(k@),
            fresh == !old(self)@.contains(k@),
            fresh ==> final(self).models() == old(self).models().push(k@),
            !fresh ==> final(self).models() == old(self).models(),
    {
        match self.position(&k) {
            Some(i) => {
                assert(self.models().contains(k@));
                assert(self@.insert(k@) =~= self@);
                false
            },
            None => {
                let ghost before = self.models();
                self.rows.push(k);
                assert(self.models() =~= before.push(k@));
                proof {
                    before.lemma_push_to_set_commute(k@);
                }
                true
            },
        }
    }

    /// Takes out the row held last, if any row is held.
    pub fn pop(&mut self) -> (r: Option<T>)
        requires
            old(self).wf(),
        ensures
            final(self).wf(),
            match r {
                Some(row) => old(self).models().len() > 0 && final(self).models() == old(
                    self,
                ).models().drop_last() && row@ == old(self).models().last(),
                None => old(self).models().len() == 0 && final(self).models() == old(self).models(),
            },
    {
        let ghost before = self.models();
        let r = self.rows.pop();
        proof {
            if r is Some {
                assert(self.models() =~= before.drop_last());
            }
        }
        r
    }

    /// Takes a row out; says whether it was there.
    pub fn remove(&mut self, k: &T) -> (found: bool)
        requires
            old(self).wf(),
        ensures
            final(self).wf(),
            final(self)@ == old(self)@.remove(k@),
            found == old(self)@.contains(k@),
            !found ==> final(self).models() == old(self).models(),
    {
        match self.position(k) {
            Some(i) => {
                let ghost before = self.models();
                self.rows.remove(i);
                assert(self.models() =~= before.remove(i as int));
                assert(before.contains(k@));
                assert forall|m: T::V| self@.contains(m) <==> before.to_set().remove(k@).contains(
                    m,
                ) by {
                    if self.models().contains(m) {
                        let j = choose|j: int| 0 <= j < self.models().len() && self.models()[j] == m;
                        if j < i {
                            assert(before[j] == m);
                        } else {
                            assert(before[j + 1] == m);
                        }
                    }
                    if before.contains(m) && m != k@ {
                        let j = choose|j: int| 0 <= j < before.len() && before[j] == m;
                        if j < i {
                            assert(self.models()[j] == m);
                        } else {
                            assert(self.models()[j - 1] == m);
                        }
                    }
                }
                assert(self@ =~= before.to_set().remove(k@));
                true
            },
            None => {
                assert(self@.remove(k@) =~= self@);
                false
            },
        }
    }
}

/// A finite map from keys to records.
#[derive(Debug)]
pub struct Dict<K: Row, V> {
    keys: Vec<K>,
    vals: Vec<V>,
}

impl<K: Row, V> View for Dict<K, V> {
    type V = Map<K::V, V>;

    open spec fn view(&self) -> Map<K::V, V> {
        Map::new(
            |k: K::V| self.key_models().contains(k),
            |k: K::V| self.values()[self.key_models().index_of(k)],
        )
    }
}

impl<K: Row, V> Dict<K, V> {
    /// The models of the keys, in the order in which they are held.
    pub closed spec fn key_models(&self) -> Seq<K::V> {
        self.keys@.map_values(|k: K| k@)
    }

    /// The records, each at the place of its key.
    pub closed spec fn values(&self) -> Seq<V> {
        self.vals@
    }

    /// Each key is held once, beside its record.
    pub open spec fn wf(&self) -> bool {
        &&& self.key_models().len() == self.values().len()
        &&& self.key_models().no_duplicates()
    }

    /// The record at a place is the record of the key at that place.
    pub proof fn lemma_at(&self, i: int)
        requires
            self.wf(),
            0 <= i < self.key_models().len(),
        ensures
            self@.contains_key(self.key_models()[i]),
            self@[self.key_models()[i]] == self.values()[i],
            self.key_models().index_of(self.key_models()[i]) == i,
    {
        assert(self.key_models().contains(self.key_models()[i]));
    }

    /// The map is finite and has as many keys as there are places.
    pub proof fn lemma_len(&self)
        ensures
            self@.dom().finite(),
            self.wf() ==> self@.dom().len() == self.key_models().len(),
    {
        vstd::seq_lib::seq_to_set_is_finite(self.key_models());
        assert(self@.dom() =~= self.key_models().to_set());
        if self.wf() {
            self.key_models().unique_seq_to_set();
        }
    }

    /// A map without keys.
    pub fn new() -> (d: Self)
        ensures
            d.wf(),
            d@ == Map::<K::V, V>::empty(),
            d.key_models().len() == 0,
    {
        let d = Dict { keys: Vec::new(), vals: Vec::new() };
        assert(d@ =~= Map::<K::V, V>::empty());
        d
    }

    /// How many keys are held.
    pub fn len(&self) -> (n: usize)
        requires
            self.wf(),
        ensures
            n == self.key_models().len(),
    {
        self.keys.len()
    }

    /// The place of a key, if it is held.
    pub fn find(&self, k: &K) -> (r: Option<usize>)
        requires
            self.wf(),
        ensures
            match r {
                Some(i) => i < self.key_models().len() && self.key_models()[i as int] == k@
                    && self@.contains_key(k@) && self@[k@] == self.values()[i as int],
                None => !self@.contains_key(k@),
            },
    {
        let mut i: usize = 0;
        while i < self.keys.len()
            invariant
                self.wf(),
                i <= self.keys.len(),
                forall|j: int| 0 <= j < i ==> self.key_models()[j] != k@,
            decreases self.keys.len() - i,
        {
            if self.keys[i].same(k) {
                proof {
                    self.lemma_at(i as int);
                }
                return Some(i);
            }
            i += 1;
        }
        None
    }

    /// Whether a key is held.
    pub fn contains_key(&self, k: &K) -> (b: bool)
        requires
            self.wf(),
        ensures
            b == self@.contains_key(k@),
    {
        self.find(k).is_some()
    }

    /// The record of a key, if the key is held.
    pub fn get(&self, k: &K) -> (r: Option<&V>)
        requires
            self.wf(),
        ensures
            match r {
                Some(v) => self@.contains_key(k@) && *v == self@[k@],
                None => !self@.contains_key(k@),
            },
    {
        match self.find(k) {
            Some(i) => Some(&self.vals[i]),
            None => None,
        }
    }

    /// The record held at a place.
    pub fn value(&self, i: usize) -> (r: &V)
        requires
            self.wf(),
            i < self.key_models().len(),
        ensures
            *r == self.values()[i as int],
            self@.contains_key(self.key_models()[i as int]),
            *r == self@[self.key_models()[i as int]],
    {
        proof {
            self.lemma_at(i as int);
        }
        &self.vals[i]
    }

    /// The record at a place, to be changed where it stands.
    pub fn value_mut(&mut self, i: usize) -> (r: &mut V)
        requires
            old(self).wf(),
            i < old(self).key_models().len(),
        ensures
            *r == old(self).values()[i as int],
            final(self).wf(),
            final(self).key_models() == old(self).key_models(),
            final(self).values() == old(self).values().update(i as int, *final(r)),
            final(self)@ == old(self)@.insert(old(self).key_models()[i as int], *final(r)),
    {
        proof {
            let km = self.key_models();
            let vs = self.values();
            assert forall|nv: V| #![auto]
                Map::new(|k: K::V| km.contains(k), |k: K::V| vs.update(i as int, nv)[km.index_of(k)])
                    =~= self@.insert(km[i as int], nv) by {
                self.lemma_at(i as int);
                assert forall|k: K::V| km.contains(k) && k != km[i as int] implies km.index_of(k)
                    != i by {}
            }
        }
        &mut self.vals[i]
    }

    /// Sets the record of a key, new or not.
    pub fn put(&mut self, k: K, v: V)
        requires
            old(self).wf(),
        ensures
            final(self).wf(),
            final(self)@ == old(self)@.insert(k@, v),
    {
        let ghost before = *self;
        match self.find(&k) {
            Some(i) => {
                self.vals[i] = v;
                assert(self.key_models() == before.key_models());
                assert(self@ =~= before@.insert(k@, v)) by {
                    before.lemma_at(i as int);
                    assert forall|x: K::V| before.key_models().contains(x) && x != k@ implies before.key_models().index_of(
                        x,
                    ) != i by {}
                }
            },
            None => {
                self.keys.push(k);
                self.vals.push(v);
                assert(self.key_models() =~= before.key_models().push(k@));
                assert(self@ =~= before@.insert(k@, v)) by {
                    let n = before.key_models().len() as int;
                    assert(self.key_models()[n] == k@);
                    self.lemma_at(n);
                    assert forall|x: K::V| before.key_models().contains(x) implies self.key_models().contains(
                        x,
                    ) && self.values()[self.key_models().index_of(x)] == before.values()[before.key_models().index_of(
                        x,
                    )] by {
                        let j = before.key_models().index_of(x);
                        assert(self.key_models()[j] == x);
                        self.lemma_at(j);
                    }
                    assert forall|x: K::V| self.key_models().contains(x) && x != k@ implies before.key_models().contains(
                        x,
                    ) by {
                        let j = self.key_models().index_of(x);
                        assert(before.key_models()[j] == x);
                    }
                }
            },
        }
    }

    /// Takes out the key held last with its record, if any key is held.
    pub fn pop(&mut self) -> (r: Option<(K, V)>)
        requires
            old(self).wf(),
        ensures
            final(self).wf(),
            match r {
                Some(pair) => old(self).key_models().len() > 0 && final(self).key_models()
                    == old(self).key_models().drop_last() && pair.0@ == old(
                    self,
                ).key_models().last() && pair.1 == old(self).values().last(),
                None => old(self).key_models().len() == 0 && final(self).key_models() == old(
                    self,
                ).key_models(),
            },
            final(self)@.submap_of(old(self)@),
    {
        let ghost before = *self;
        match self.keys.pop() {
            Some(k) => {
                let v = self.vals.pop();
                proof {
                    assert(self.key_models() =~= before.key_models().drop_last());
                    assert forall|x: K::V| self@.contains_key(x) implies before@.contains_key(x)
                        && self@[x] == before@[x] by {
                        let i = self.key_models().index_of(x);
                        self.lemma_at(i);
                        assert(before.key_models()[i] == x);
                        before.lemma_at(i);
                    }
                }
                match v {
                    Some(v) => Some((k, v)),
                    None => None,
                }
            },
            None => None,
        }
    }

    /// A map without keys is the empty map.
    pub proof fn lemma_none(&self)
        requires
            self.key_models().len() == 0,
        ensures
            self@ == Map::<K::V, V>::empty(),
    {
        assert(self@ =~= Map::<K::V, V>::empty());
    }

    /// Takes a key out with its record.
    pub fn remove(&mut self, k: &K) -> (r: Option<V>)
        requires
            old(self).wf(),
        ensures
            final(self).wf(),
            final(self)@ == old(self)@.remove(k@),
            match r {
                Some(v) => old(self)@.contains_key(k@) && v == old(self)@[k@],
                None => !old(self)@.contains_key(k@),
            },
    {
        let ghost before = *self;
        match self.find(k) {
            Some(i) => {
                self.keys.remove(i);
                let v = self.vals.remove(i);
                assert(self.key_models() =~= before.key_models().remove(i as int));
                assert(self.values() =~= before.values().remove(i as int));
                assert(self@ =~= before@.remove(k@)) by {
                    assert forall|x: K::V| self.key_models().contains(x) implies x != k@
                        && before.key_models().contains(x) && self.values()[self.key_models().index_of(
                        x,
                    )] == before.values()[before.key_models().index_of(x)] by {
                        let j = self.key_models().index_of(x);
                        self.lemma_at(j);
                        if j < i {
                            assert(before.key_models()[j] == x);
                            before.lemma_at(j);
                        } else {
                            assert(before.key_models()[j + 1] == x);
                            before.lemma_at(j + 1);
                        }
                    }
                    assert forall|x: K::V| before.key_models().contains(x) && x != k@ implies self.key_models().contains(
                        x,
                    ) by {
                        let j = before.key_models().index_of(x);
                        if j < i {
                            assert(self.key_models()[j] == x);
                        } else {
                            assert(self.key_models()[j - 1] == x);
                        }
                    }
                }
                Some(v)
            },
            None => {
                assert(self@ =~= before@.remove(k@));
                None
            },
        }
    }
}

} // verus!
