use vstd::prelude::*;

verus! {

/// A record that can live in a [`Table`]: it carries its own lookup key.
pub trait TableItem: View + Sized {
    /// The key under which a record with view `v` is filed.
    spec fn view_key(v: Self::V) -> Seq<char>;

    /// The key carried by the record itself.
    fn key(&self) -> (k: &String)
        ensures
            k@ == Self::view_key(self@),
    ;
}

/// The keyed content described by a sequence of record views.
pub open spec fn map_of<R: TableItem>(s: Seq<R::V>) -> Map<Seq<char>, R::V>
    decreases s.len(),
{
    if s.len() == 0 {
        Map::<Seq<char>, R::V>::empty()
    } else {
        map_of::<R>(s.drop_last()).insert(R::view_key(s.last()), s.last())
    }
}

/// No two records of `s` share a key.
pub open spec fn keys_distinct<R: TableItem>(s: Seq<R::V>) -> bool {
    forall|i: int, j: int| 0 <= i < j < s.len() ==> R::view_key(s[i]) != R::view_key(s[j])
}

proof fn lemma_contains<R: TableItem>(s: Seq<R::V>, k: Seq<char>)
    ensures
        map_of::<R>(s).contains_key(k) <==> (exists|i: int|
            0 <= i < s.len() && R::view_key(s[i]) == k),
    decreases s.len(),
{
    if s.len() > 0 {
        lemma_contains::<R>(s.drop_last(), k);
        if map_of::<R>(s).contains_key(k) {
            if R::view_key(s.last()) == k {
                assert(R::view_key(s[s.len() - 1]) == k);
            } else {
                let i = choose|i: int|
                    0 <= i < s.drop_last().len() && R::view_key(s.drop_last()[i]) == k;
                assert(R::view_key(s[i]) == k);
            }
        }
        if exists|i: int| 0 <= i < s.len() && R::view_key(s[i]) == k {
            let i = choose|i: int| 0 <= i < s.len() && R::view_key(s[i]) == k;
            if i < s.len() - 1 {
                assert(R::view_key(s.drop_last()[i]) == k);
            }
        }
    }
}

proof fn lemma_distinct_drop_last<R: TableItem>(s: Seq<R::V>)
    requires
        keys_distinct::<R>(s),
        s.len() > 0,
    ensures
        keys_distinct::<R>(s.drop_last()),
{
    assert forall|i: int, j: int| 0 <= i < j < s.drop_last().len() implies R::view_key(
        s.drop_last()[i],
    ) != R::view_key(s.drop_last()[j]) by {
        assert(s.drop_last()[i] == s[i]);
        assert(s.drop_last()[j] == s[j]);
    }
}

proof fn lemma_index<R: TableItem>(s: Seq<R::V>, i: int)
    requires
        keys_distinct::<R>(s),
        0 <= i < s.len(),
    ensures
        map_of::<R>(s).contains_key(R::view_key(s[i])),
        map_of::<R>(s)[R::view_key(s[i])] == s[i],
    decreases s.len(),
{
    if i < s.len() - 1 {
        lemma_distinct_drop_last::<R>(s);
        lemma_index::<R>(s.drop_last(), i);
        assert(R::view_key(s.last()) != R::view_key(s[i]));
    }
}

proof fn lemma_update<R: TableItem>(s: Seq<R::V>, i: int, v: R::V)
    requires
        keys_distinct::<R>(s),
        0 <= i < s.len(),
        R::view_key(v) == R::view_key(s[i]),
    ensures
        keys_distinct::<R>(s.update(i, v)),
        map_of::<R>(s.update(i, v)) == map_of::<R>(s).insert(R::view_key(v), v),
    decreases s.len(),
{
    let t = s.update(i, v);
    assert forall|p: int, q: int| 0 <= p < q < t.len() implies R::view_key(t[p]) != R::view_key(
        t[q],
    ) by {
        assert(R::view_key(t[p]) == R::view_key(s[p]));
        assert(R::view_key(t[q]) == R::view_key(s[q]));
    }
    if i == s.len() - 1 {
        assert(t.drop_last() =~= s.drop_last());
        assert(t.last() == v);
        assert(map_of::<R>(t) =~= map_of::<R>(s).insert(R::view_key(v), v));
    } else {
        lemma_distinct_drop_last::<R>(s);
        assert(t.drop_last() =~= s.drop_last().update(i, v));
        lemma_update::<R>(s.drop_last(), i, v);
        assert(t.last() == s.last());
        assert(R::view_key(s.last()) != R::view_key(v));
        assert(map_of::<R>(t) =~= map_of::<R>(s).insert(R::view_key(v), v));
    }
}

proof fn lemma_remove<R: TableItem>(s: Seq<R::V>, i: int)
    requires
        keys_distinct::<R>(s),
        0 <= i < s.len(),
    ensures
        keys_distinct::<R>(s.remove(i)),
        map_of::<R>(s.remove(i)) == map_of::<R>(s).remove(R::view_key(s[i])),
    decreases s.len(),
{
    let t = s.remove(i);
    assert forall|p: int, q: int| 0 <= p < q < t.len() implies R::view_key(t[p]) != R::view_key(
        t[q],
    ) by {
        let sp: int = if p < i { p } else { p + 1 };
        let sq_: int = if q < i { q } else { q + 1 };
        assert(t[p] == s[sp]);
        assert(t[q] == s[sq_]);
    }
    if i == s.len() - 1 {
        assert(t =~= s.drop_last());
        lemma_distinct_drop_last::<R>(s);
        lemma_contains::<R>(s.drop_last(), R::view_key(s[i]));
        assert(map_of::<R>(t) =~= map_of::<R>(s).remove(R::view_key(s[i])));
    } else {
        lemma_distinct_drop_last::<R>(s);
        assert(t.drop_last() =~= s.drop_last().remove(i));
        lemma_remove::<R>(s.drop_last(), i);
        assert(t.last() == s.last());
        assert(R::view_key(s.last()) != R::view_key(s[i]));
        assert(map_of::<R>(t) =~= map_of::<R>(s).remove(R::view_key(s[i])));
    }
}

proof fn lemma_map_of_own_key<R: TableItem>(s: Seq<R::V>, k: Seq<char>)
    requires
        map_of::<R>(s).contains_key(k),
    ensures
        R::view_key(map_of::<R>(s)[k]) == k,
    decreases s.len(),
{
    if s.len() > 0 {
        if R::view_key(s.last()) != k {
            lemma_map_of_own_key::<R>(s.drop_last(), k);
        }
    }
}

/// The contents of a list of keys, as a set.
pub open spec fn key_set(keys: Seq<String>) -> Set<Seq<char>> {
    Set::new(|s: Seq<char>| exists|i: int| 0 <= i < keys.len() && keys[i]@ == s)
}

/// An in-memory record table with map semantics: at most one record per key.
pub struct Table<R: TableItem> {
    items: Vec<R>,
}

impl<R: TableItem> Table<R> {
    /// The views of the stored records, in storage order.
    pub closed spec fn sq(&self) -> Seq<R::V> {
        self.items@.map_values(|r: R| r@)
    }

    /// The table content as a map from key to record view.
    pub closed spec fn m(&self) -> Map<Seq<char>, R::V> {
        map_of::<R>(self.sq())
    }

    /// Each stored record owns its key: no two records share one.
    pub closed spec fn wf(&self) -> bool {
        keys_distinct::<R>(self.sq())
    }

    /// A key is in the map exactly when some stored record carries it.
    pub proof fn lemma_key_present(&self, k: Seq<char>)
        ensures
            self.m().contains_key(k) <==> (exists|i: int|
                0 <= i < self.sq().len() && R::view_key(self.sq()[i]) == k),
    {
        lemma_contains::<R>(self.sq(), k);
    }

    /// Every value of the map carries the key it is filed under.
    pub proof fn lemma_filed_under_own_key(&self, k: Seq<char>)
        ensures
            self.m().contains_key(k) ==> R::view_key(self.m()[k]) == k,
    {
        if self.m().contains_key(k) {
            lemma_map_of_own_key::<R>(self.sq(), k);
        }
    }

    /// A stored record is filed in the map under its own key.
    pub proof fn lemma_nth_present(&self, i: int)
        requires
            self.wf(),
            0 <= i < self.sq().len(),
        ensures
            self.m().contains_key(R::view_key(self.sq()[i])),
            self.m()[R::view_key(self.sq()[i])] == self.sq()[i],
    {
        lemma_index::<R>(self.sq(), i);
    }

    pub fn new() -> (t: Self)
        ensures
            t.wf(),
            t.m() == Map::<Seq<char>, R::V>::empty(),
            t.sq() == Seq::<R::V>::empty(),
    {
        let t = Table { items: Vec::new() };
        proof {
            assert(t.sq() =~= Seq::<R::V>::empty());
        }
        t
    }

    pub fn len(&self) -> (n: usize)
        ensures
            n == self.sq().len(),
    {
        self.items.len()
    }

    pub fn nth(&self, i: usize) -> (r: &R)
        requires
            i < self.sq().len(),
        ensures
            r@ == self.sq()[i as int],
    {
        &self.items[i]
    }

    /// Borrows every stored record, in storage order.
    pub fn all(&self) -> (r: Vec<&R>)
        ensures
            crate::util::ref_views(r@) == self.sq(),
    {
        let n = self.items.len();
        let mut r: Vec<&R> = Vec::new();
        let mut i: usize = 0;
        while i < n
            invariant
                n == self.items@.len(),
                i <= n,
                r@.len() == i,
                forall|j: int| 0 <= j < i ==> #[trigger] r@[j]@ == self.sq()[j],
            decreases n - i,
        {
            r.push(&self.items[i]);
            i += 1;
        }
        proof {
            assert(crate::util::ref_views(r@) =~= self.sq());
        }
        r
    }

    fn index_of(&self, k: &String) -> (r: Option<usize>)
        ensures
            match r {
                Some(i) => i < self.sq().len() && R::view_key(self.sq()[i as int]) == k@,
                None => forall|i: int|
                    0 <= i < self.sq().len() ==> R::view_key(self.sq()[i]) != k@,
            },
    {
        let n = self.items.len();
        let mut i: usize = 0;
        while i < n
            invariant
                n == self.sq().len(),
                i <= n,
                forall|j: int| 0 <= j < i ==> R::view_key(self.sq()[j]) != k@,
            decreases n - i,
        {
            if self.items[i].key().eq(k) {
                return Some(i);
            }
            i += 1;
        }
        None
    }

    pub fn get(&self, k: &String) -> (r: Option<&R>)
        requires
            self.wf(),
        ensures
            match r {
                Some(t) => self.m().contains_key(k@) && t@ == self.m()[k@],
                None => !self.m().contains_key(k@),
            },
    {
        match self.index_of(k) {
            Some(i) => {
                proof {
                    lemma_index::<R>(self.sq(), i as int);
                }
                Some(&self.items[i])
            },
            None => {
                proof {
                    lemma_contains::<R>(self.sq(), k@);
                }
                None
            },
        }
    }

    pub fn contains(&self, k: &String) -> (r: bool)
        requires
            self.wf(),
        ensures
            r == self.m().contains_key(k@),
    {
        self.get(k).is_some()
    }

    /// Files `r` under its key, replacing any record already there.
    pub fn insert(&mut self, r: R)
        requires
            old(self).wf(),
        ensures
            final(self).wf(),
            final(self).m() == old(self).m().insert(R::view_key(r@), r@),
    {
        let ghost old_sq = self.sq();
        let idx = self.index_of(r.key());
        match idx {
            Some(i) => {
                proof {
                    lemma_update::<R>(old_sq, i as int, r@);
                }
                self.items[i] = r;
                proof {
                    assert(self.sq() =~= old_sq.update(i as int, r@));
                }
            },
            None => {
                self.items.push(r);
                proof {
                    assert(self.sq() =~= old_sq.push(r@));
                    assert(self.sq().drop_last() =~= old_sq);
                    assert forall|p: int, q: int| 0 <= p < q < self.sq().len() implies R::view_key(
                        self.sq()[p],
                    ) != R::view_key(self.sq()[q]) by {
                        if q < self.sq().len() - 1 {
                            assert(self.sq()[p] == old_sq[p]);
                            assert(self.sq()[q] == old_sq[q]);
                        } else {
                            assert(self.sq()[p] == old_sq[p]);
                        }
                    }
                }
            },
        }
    }

    /// Removes the record filed under `k`, handing it back if it was there.
    pub fn remove(&mut self, k: &String) -> (r: Option<R>)
        requires
            old(self).wf(),
        ensures
            final(self).wf(),
            final(self).m() == old(self).m().remove(k@),
            match r {
                Some(t) => old(self).m().contains_key(k@) && t@ == old(self).m()[k@],
                None => !old(self).m().contains_key(k@),
            },
    {
        let ghost old_sq = self.sq();
        match self.index_of(k) {
            Some(i) => {
                proof {
                    lemma_index::<R>(old_sq, i as int);
                    lemma_remove::<R>(old_sq, i as int);
                }
                let t = self.items.remove(i);
                proof {
                    assert(self.sq() =~= old_sq.remove(i as int));
                }
                Some(t)
            },
            None => {
                proof {
                    lemma_contains::<R>(old_sq, k@);
                    assert(self.m() =~= old(self).m().remove(k@));
                }
                None
            },
        }
    }

    /// Removes every record filed under one of `keys`.
    pub fn drain_keys(&mut self, keys: &Vec<String>)
        requires
            old(self).wf(),
        ensures
            final(self).wf(),
            final(self).m() == old(self).m().remove_keys(key_set(keys@)),
    {
        let n = keys.len();
        let mut i: usize = 0;
        proof {
            assert(self.m() =~= old(self).m().remove_keys(key_set(keys@.take(0))));
        }
        while i < n
            invariant
                n == keys@.len(),
                i <= n,
                self.wf(),
                self.m() == old(self).m().remove_keys(key_set(keys@.take(i as int))),
            decreases n - i,
        {
            self.remove(&keys[i]);
            proof {
                assert forall|s: Seq<char>| key_set(keys@.take(i + 1)).contains(s) implies
                    key_set(keys@.take(i as int)).insert(keys@[i as int]@).contains(s) by {
                    let j = choose|j: int| 0 <= j < i + 1 && (#[trigger] keys@.take(i + 1)[j])@ == s;
                    if j < i {
                        assert(keys@.take(i as int)[j]@ == s);
                    }
                }
                assert forall|s: Seq<char>| key_set(keys@.take(i as int)).insert(
                    keys@[i as int]@,
                ).contains(s) implies key_set(keys@.take(i + 1)).contains(s) by {
                    if key_set(keys@.take(i as int)).contains(s) {
                        let j = choose|j: int| 0 <= j < i && (#[trigger] keys@.take(i as int)[j])@ == s;
                        assert(keys@.take(i + 1)[j]@ == s);
                    } else {
                        assert(keys@.take(i + 1)[i as int]@ == s);
                    }
                }
                assert(key_set(keys@.take(i + 1)) =~= key_set(keys@.take(i as int)).insert(
                    keys@[i as int]@,
                ));
                assert(self.m() =~= old(self).m().remove_keys(key_set(keys@.take(i + 1))));
            }
            i += 1;
        }
        proof {
            assert(keys@.take(n as int) =~= keys@);
        }
    }

    /// Drops every record.
    pub fn clear(&mut self)
        ensures
            final(self).wf(),
            final(self).m() == Map::<Seq<char>, R::V>::empty(),
            final(self).sq() == Seq::<R::V>::empty(),
    {
        self.items.clear();
        proof {
            assert(self.sq() =~= Seq::<R::V>::empty());
        }
    }
}

} // verus!
