//! A table from identities, which are rows of bytes, to values.
use super::bytes::bytes_eq;
use vstd::prelude::*;

verus! {

/// A table in which every identity occurs once.
pub struct IdTable<V> {
    ids: Vec<Vec<u8>>,
    values: Vec<V>,
}

/// The map that two rows of equal length make.
pub open spec fn table<V>(ids: Seq<Seq<u8>>, values: Seq<V>) -> Map<Seq<u8>, V>
    decreases ids.len(),
{
    if ids.len() == 0 {
        Map::empty()
    } else {
        table(ids.drop_last(), values.drop_last()).insert(ids.last(), values.last())
    }
}

/// What the identities are.
pub open spec fn id_views(ids: Seq<Vec<u8>>) -> Seq<Seq<u8>> {
    ids.map_values(|id: Vec<u8>| id@)
}

proof fn table_entries<V>(ids: Seq<Seq<u8>>, values: Seq<V>)
    requires
        ids.len() == values.len(),
        ids.no_duplicates(),
    ensures
        forall|id: Seq<u8>| #[trigger]
            table(ids, values).contains_key(id) <==> ids.contains(id),
        forall|i: int|
            0 <= i < ids.len() ==> table(ids, values).contains_key(#[trigger] ids[i]) && table(
                ids,
                values,
            )[ids[i]] == values[i],
    decreases ids.len(),
{
    if ids.len() > 0 {
        let before = ids.drop_last();
        table_entries(before, values.drop_last());
        assert forall|id: Seq<u8>| #[trigger]
            table(ids, values).contains_key(id) <==> ids.contains(id) by {
            let t = table(before, values.drop_last());
            assert(t.contains_key(id) <==> before.contains(id));
            if before.contains(id) {
                let k = choose|k: int| 0 <= k < before.len() && before[k] == id;
                assert(ids[k] == id);
            }
            if ids.contains(id) {
                let k = choose|k: int| 0 <= k < ids.len() && ids[k] == id;
                if k < before.len() {
                    assert(before[k] == id);
                }
            }
            if id == ids.last() {
                assert(ids[ids.len() - 1] == id);
            }
        }
        assert forall|i: int| 0 <= i < ids.len() implies table(ids, values).contains_key(
            #[trigger] ids[i],
        ) && table(ids, values)[ids[i]] == values[i] by {
            if i < before.len() {
                assert(before[i] == ids[i]);
                assert(ids[i] != ids[ids.len() - 1]);
            }
        }
    }
}

impl<V> View for IdTable<V> {
    type V = Map<Seq<u8>, V>;

    closed spec fn view(&self) -> Map<Seq<u8>, V> {
        table(id_views(self.ids@), self.values@)
    }
}

impl<V> IdTable<V> {
    /// No identity occurs twice, and each has its value.
    pub closed spec fn well_formed(self) -> bool {
        self.ids@.len() == self.values@.len() && id_views(self.ids@).no_duplicates()
    }

    /// The number of entries.
    pub closed spec fn spec_len(self) -> nat {
        self.ids@.len()
    }

    /// The identity of entry `i`.
    pub closed spec fn id_at(self, i: int) -> Seq<u8> {
        self.ids@[i]@
    }

    /// The value of entry `i`.
    pub closed spec fn value_at(self, i: int) -> V {
        self.values@[i]
    }

    /// The entries are those of the map, each once.
    pub proof fn entries_are_the_map(&self)
        requires
            self.well_formed(),
        ensures
            forall|i: int|
                0 <= i < self.spec_len() ==> self@.contains_key(#[trigger] self.id_at(i))
                    && self@[self.id_at(i)] == self.value_at(i),
            forall|i: int, j: int|
                0 <= i < j < self.spec_len() ==> #[trigger] self.id_at(i) != #[trigger] self.id_at(
                    j,
                ),
            forall|id: Seq<u8>| #[trigger]
                self@.contains_key(id) ==> exists|i: int|
                    0 <= i < self.spec_len() && #[trigger] self.id_at(i) == id,
    {
        let ids = id_views(self.ids@);
        table_entries(ids, self.values@);
        assert forall|i: int| 0 <= i < self.spec_len() implies self@.contains_key(
            #[trigger] self.id_at(i),
        ) && self@[self.id_at(i)] == self.value_at(i) by {
            assert(ids[i] == self.id_at(i));
        }
        assert forall|i: int, j: int|
            0 <= i < j < self.spec_len() implies #[trigger] self.id_at(i) != #[trigger] self.id_at(
            j,
        ) by {
            assert(ids[i] == self.id_at(i) && ids[j] == self.id_at(j));
        }
        assert forall|id: Seq<u8>| #[trigger] self@.contains_key(id) implies exists|i: int|
            0 <= i < self.spec_len() && #[trigger] self.id_at(i) == id by {
            let i = choose|i: int| 0 <= i < ids.len() && ids[i] == id;
            assert(self.id_at(i) == id);
        }
    }

    /// An empty table.
    pub fn new() -> (t: IdTable<V>)
        ensures
            t.well_formed(),
            t@ == Map::<Seq<u8>, V>::empty(),
    {
        IdTable { ids: Vec::new(), values: Vec::new() }
    }

    /// The number of entries.
    pub fn len(&self) -> (n: usize)
        ensures
            n == self.spec_len(),
    {
        self.ids.len()
    }

    /// The identity of entry `i`.
    pub fn id(&self, i: usize) -> (r: &Vec<u8>)
        requires
            i < self.spec_len(),
        ensures
            r@ == self.id_at(i as int),
    {
        &self.ids[i]
    }

    /// The value of entry `i`.
    pub fn value(&self, i: usize) -> (r: &V)
        requires
            self.well_formed(),
            i < self.spec_len(),
        ensures
            *r == self.value_at(i as int),
    {
        &self.values[i]
    }

    fn find(&self, id: &[u8]) -> (r: Option<usize>)
        requires
            self.well_formed(),
        ensures
            r matches Some(i) ==> i < self.ids@.len() && self.ids@[i as int]@ == id@,
            r is Some == self@.contains_key(id@),
    {
        let mut i: usize = 0;
        proof {
            table_entries(id_views(self.ids@), self.values@);
        }
        while i < self.ids.len()
            invariant
                i <= self.ids@.len(),
                forall|j: int| 0 <= j < i ==> (#[trigger] self.ids@[j])@ != id@,
                forall|k: Seq<u8>| #[trigger]
                    self@.contains_key(k) <==> id_views(self.ids@).contains(k),
            decreases self.ids.len() - i,
        {
            if bytes_eq(self.ids[i].as_slice(), id) {
                assert(id_views(self.ids@)[i as int] == id@);
                return Some(i);
            }
            i += 1;
        }
        proof {
            if id_views(self.ids@).contains(id@) {
                let k = choose|k: int|
                    0 <= k < id_views(self.ids@).len() && id_views(self.ids@)[k] == id@;
                assert(self.ids@[k]@ == id@);
            }
        }
        None
    }

    /// The value of an identity.
    pub fn get(&self, id: &[u8]) -> (r: Option<&V>)
        requires
            self.well_formed(),
        ensures
            match r {
                Some(v) => self@.contains_key(id@) && *v == self@[id@],
                None => !self@.contains_key(id@),
            },
    {
        match self.find(id) {
            Some(i) => {
                proof {
                    table_entries(id_views(self.ids@), self.values@);
                    assert(id_views(self.ids@)[i as int] == id@);
                }
                Some(&self.values[i])
            },
            None => None,
        }
    }

    /// Removes an identity; returns its value.
    pub fn remove(&mut self, id: &[u8]) -> (r: Option<V>)
        requires
            old(self).well_formed(),
        ensures
            final(self).well_formed(),
            final(self)@ == old(self)@.remove(id@),
            match r {
                Some(v) => old(self)@.contains_key(id@) && v == old(self)@[id@],
                None => !old(self)@.contains_key(id@),
            },
    {
        let ghost ids = id_views(self.ids@);
        let ghost values = self.values@;
        proof {
            table_entries(ids, values);
        }
        match self.find(id) {
            Some(i) => {
                self.ids.remove(i);
                let v = self.values.remove(i);
                proof {
                    let less = id_views(self.ids@);
                    assert(less =~= ids.remove(i as int));
                    assert(ids[i as int] == id@);
                    assert forall|a: int, b: int| 0 <= a < b < less.len() implies less[a]
                        != less[b] by {
                        let x = if a < i {
                            a
                        } else {
                            a + 1
                        };
                        let y = if b < i {
                            b
                        } else {
                            b + 1
                        };
                        assert(less[a] == ids[x] && less[b] == ids[y]);
                    }
                    table_entries(less, self.values@);
                    assert forall|k: Seq<u8>| #[trigger]
                        self@.contains_key(k) <==> old(self)@.contains_key(k) && k != id@ by {
                        if less.contains(k) {
                            let a = choose|a: int| 0 <= a < less.len() && less[a] == k;
                            let x = if a < i {
                                a
                            } else {
                                a + 1
                            };
                            assert(ids[x] == k);
                            assert(x != i);
                        }
                        if ids.contains(k) && k != id@ {
                            let x = choose|x: int| 0 <= x < ids.len() && ids[x] == k;
                            let a = if x < i {
                                x
                            } else {
                                x - 1
                            };
                            assert(less[a] == k);
                        }
                    }
                    assert forall|k: Seq<u8>| #[trigger] self@.contains_key(k) implies self@[k]
                        == old(self)@[k] by {
                        let a = choose|a: int| 0 <= a < less.len() && less[a] == k;
                        let x = if a < i {
                            a
                        } else {
                            a + 1
                        };
                        assert(ids[x] == k);
                    }
                    assert(self@ =~= old(self)@.remove(id@));
                }
                Some(v)
            },
            None => {
                assert(old(self)@.remove(id@) =~= old(self)@);
                None
            },
        }
    }

    /// Gives an identity a value, in place of the one that it may have.
    pub fn insert(&mut self, id: Vec<u8>, value: V)
        requires
            old(self).well_formed(),
        ensures
            final(self).well_formed(),
            final(self)@ == old(self)@.insert(id@, value),
    {
        let ghost before = self@;
        self.remove(id.as_slice());
        let ghost ids = id_views(self.ids@);
        let ghost values = self.values@;
        proof {
            table_entries(ids, values);
        }
        self.ids.push(id);
        self.values.push(value);
        proof {
            let more = id_views(self.ids@);
            assert(more =~= ids.push(id@));
            assert(!ids.contains(id@));
            assert forall|a: int, b: int| 0 <= a < b < more.len() implies more[a] != more[b] by {
                if b == ids.len() {
                    assert(ids[a] != id@);
                }
            }
            assert(more.drop_last() =~= ids);
            assert(self.values@.drop_last() =~= values);
            assert(self@ =~= before.insert(id@, value));
        }
    }
}

} // verus!
