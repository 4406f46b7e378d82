use vstd::prelude::*;

verus! {

/// A value that can serve as the key of a [`Table`]: two keys are the same
/// key exactly when their views are equal.
pub trait Key: View + Sized {
    fn same(&self, other: &Self) -> (r: bool)
        ensures
            r == (self@ == other@),
    ;

    fn dup_key(&self) -> (r: Self)
        ensures
            r@ == self@,
    ;
}

/// A value that can be stored in a [`Table`] and copied out of it.
pub trait Value: View + Sized {
    fn dup(&self) -> (r: Self)
        ensures
            r@ == self@,
    ;
}

/// A finite map that keeps its entries in the order in which their keys
/// were first inserted. No key occurs twice.
pub struct Table<K: Key, V: Value> {
    entries: Vec<(K, V)>,
}

pub open spec fn keys_of<K: Key, V: Value>(entries: Seq<(K, V)>) -> Seq<K::V> {
    Seq::new(entries.len(), |i: int| entries[i].0@)
}

impl<K: Key, V: Value> View for Table<K, V> {
    type V = Map<K::V, V::V>;

    closed spec fn view(&self) -> Map<K::V, V::V> {
        Map::new(
            |k: K::V| keys_of(self.entries@).contains(k),
            |k: K::V| self.entries@[keys_of(self.entries@).index_of(k)].1@,
        )
    }
}

impl<K: Key, V: Value> Table<K, V> {
    #[verifier::type_invariant]
    closed spec fn inv(&self) -> bool {
        keys_of(self.entries@).no_duplicates()
    }

    /// The keys of the table in the order of their first insertion.
    pub closed spec fn spec_keys(&self) -> Seq<K::V> {
        keys_of(self.entries@)
    }

    pub fn new() -> (t: Self)
        ensures
            t@ == Map::<K::V, V::V>::empty(),
            t.spec_keys() == Seq::<K::V>::empty(),
    {
        let t = Table { entries: Vec::new() };
        assert(keys_of(t.entries@) =~= Seq::<K::V>::empty());
        assert(t@ =~= Map::<K::V, V::V>::empty());
        t
    }

    /// Position of the key among the entries.
    fn position(&self, key: &K) -> (r: Option<usize>)
        ensures
            match r {
                Some(i) => i < self.entries.len() && keys_of(self.entries@)[i as int] == key@
                    && keys_of(self.entries@).index_of(key@) == i,
                None => !keys_of(self.entries@).contains(key@),
            },
    {
        proof {
            use_type_invariant(self);
        }
        let ghost ks = keys_of(self.entries@);
        let mut i: usize = 0;
        while i < self.entries.len()
            invariant
                i <= self.entries.len(),
                ks == keys_of(self.entries@),
                ks.no_duplicates(),
                forall|j: int| 0 <= j < i ==> ks[j] != key@,
            decreases self.entries.len() - i,
        {
            if self.entries[i].0.same(key) {
                assert(ks[i as int] == key@);
                assert(ks.contains(key@));
                let ghost j = ks.index_of(key@);
                assert(ks[j] == key@);
                return Some(i);
            }
            i = i + 1;
        }
        None
    }

    pub fn contains_key(&self, key: &K) -> (r: bool)
        ensures
            r == self@.contains_key(key@),
    {
        self.position(key).is_some()
    }

    pub fn get(&self, key: &K) -> (r: Option<&V>)
        ensures
            match r {
                Some(v) => self@.contains_key(key@) && v@ == self@[key@],
                None => !self@.contains_key(key@),
            },
    {
        match self.position(key) {
            Some(i) => Some(&self.entries[i].1),
            None => None,
        }
    }

    /// A copy of the value stored under the key.
    pub fn get_cloned(&self, key: &K) -> (r: Option<V>)
        ensures
            match r {
                Some(v) => self@.contains_key(key@) && v@ == self@[key@],
                None => !self@.contains_key(key@),
            },
    {
        match self.position(key) {
            Some(i) => Some(self.entries[i].1.dup()),
            None => None,
        }
    }

    pub fn insert(&mut self, key: K, value: V)
        ensures
            final(self)@ == old(self)@.insert(key@, value@),
            old(self)@.contains_key(key@) ==> final(self).spec_keys() == old(self).spec_keys(),
            !old(self)@.contains_key(key@) ==> final(self).spec_keys() == old(self).spec_keys().push(
                key@,
            ),
    {
        proof {
            use_type_invariant(&*self);
        }
        let ghost before = self.entries@;
        let ghost kb = keys_of(before);
        let found = self.position(&key);
        let mut entries: Vec<(K, V)> = Vec::new();
        core::mem::swap(&mut self.entries, &mut entries);
        match found {
            Some(i) => {
                entries.set(i, (key, value));
                proof {
                    assert(keys_of(entries@) =~= kb);
                }
                self.entries = entries;
                proof {
                    let after = self.entries@;
                    assert(keys_of(after) =~= kb);
                    assert forall|k: K::V| #[trigger]
                        old(self)@.insert(key@, value@).contains_key(k) implies final(self)@[k]
                        == old(self)@.insert(key@, value@)[k] by {
                        let j = kb.index_of(k);
                        assert(kb[j] == k);
                    }
                    assert(final(self)@ =~= old(self)@.insert(key@, value@));
                }
            },
            None => {
                entries.push((key, value));
                proof {
                    assert(keys_of(entries@) =~= kb.push(key@));
                    assert forall|a: int, b: int|
                        0 <= a < kb.len() + 1 && 0 <= b < kb.len() + 1 && a != b implies kb.push(
                        key@,
                    )[a] != kb.push(key@)[b] by {
                        if a < kb.len() && b < kb.len() {
                        } else if a < kb.len() {
                            assert(kb.contains(kb[a]));
                        } else {
                            assert(kb.contains(kb[b]));
                        }
                    }
                }
                self.entries = entries;
                proof {
                    let after = self.entries@;
                    let ka = keys_of(after);
                    assert(ka =~= kb.push(key@));
                    assert forall|k: K::V| kb.contains(k) implies ka.index_of(k) == kb.index_of(
                        k,
                    ) by {
                        let j = kb.index_of(k);
                        assert(kb[j] == k);
                        assert(ka[j] == k);
                        let j2 = ka.index_of(k);
                        assert(ka.contains(k));
                        assert(ka[j2] == k);
                    }
                    assert(ka.contains(key@)) by {
                        assert(ka[kb.len() as int] == key@);
                    }
                    assert(ka.index_of(key@) == kb.len()) by {
                        let j2 = ka.index_of(key@);
                        assert(ka[j2] == key@);
                        assert(ka[kb.len() as int] == key@);
                    }
                    assert forall|k: K::V| ka.contains(k) implies kb.contains(k) || k == key@ by {
                        let j = ka.index_of(k);
                        assert(ka[j] == k);
                        if j < kb.len() {
                            assert(kb[j] == k);
                        }
                    }
                    assert forall|k: K::V| kb.contains(k) implies ka.contains(k) by {
                        let j = kb.index_of(k);
                        assert(kb[j] == k);
                        assert(ka[j] == k);
                    }
                    assert(final(self)@ =~= old(self)@.insert(key@, value@));
                }
            },
        }
    }

    pub fn remove(&mut self, key: &K)
        ensures
            final(self)@ == old(self)@.remove(key@),
            final(self).spec_keys() == old(self).spec_keys().filter(|k: K::V| k != key@),
    {
        proof {
            use_type_invariant(&*self);
        }
        let ghost before = self.entries@;
        let ghost kb = keys_of(before);
        let found = self.position(key);
        match found {
            Some(i) => {
                let mut entries: Vec<(K, V)> = Vec::new();
                core::mem::swap(&mut self.entries, &mut entries);
                entries.remove(i);
                proof {
                    let ka = keys_of(entries@);
                    assert(ka =~= kb.remove(i as int));
                    assert(ka.no_duplicates()) by {
                        assert forall|a: int, b: int|
                            0 <= a < ka.len() && 0 <= b < ka.len() && a != b implies ka[a]
                            != ka[b] by {
                            let a2 = if a < i { a } else { a + 1 };
                            let b2 = if b < i { b } else { b + 1 };
                            assert(ka[a] == kb[a2]);
                            assert(ka[b] == kb[b2]);
                        }
                    }
                }
                self.entries = entries;
                proof {
                    let after = self.entries@;
                    let ka = keys_of(after);
                    assert forall|k: K::V| ka.contains(k) <==> (kb.contains(k) && k != key@) by {
                        if ka.contains(k) {
                            let j = ka.index_of(k);
                            assert(ka[j] == k);
                            let j2 = if j < i { j } else { j + 1 };
                            assert(kb[j2] == k);
                        }
                        if kb.contains(k) && k != key@ {
                            let j = kb.index_of(k);
                            assert(kb[j] == k);
                            let j2 = if j < i { j } else { j - 1 };
                            assert(ka[j2] == k);
                        }
                    }
                    assert forall|k: K::V| ka.contains(k) implies after[ka.index_of(k)].1@
                        == before[kb.index_of(k)].1@ by {
                        let j = ka.index_of(k);
                        assert(ka[j] == k);
                        let j2 = if j < i { j } else { j + 1 };
                        assert(kb[j2] == k);
                        let j3 = kb.index_of(k);
                        assert(kb[j3] == k);
                    }
                    assert(final(self)@ =~= old(self)@.remove(key@));
                    lemma_filter_removes(kb, i as int);
                }
            },
            None => {
                proof {
                    assert(final(self)@ =~= old(self)@.remove(key@));
                    lemma_filter_keeps(kb, key@);
                }
            },
        }
    }

    pub fn len(&self) -> (n: usize)
        ensures
            n == self@.len(),
            n == self.spec_keys().len(),
            self@.dom().finite(),
    {
        proof {
            use_type_invariant(self);
            self.lemma_keys();
            keys_of(self.entries@).unique_seq_to_set();
        }
        self.entries.len()
    }

    pub fn is_empty(&self) -> (r: bool)
        ensures
            r == (self@ == Map::<K::V, V::V>::empty()),
            r == (self.spec_keys().len() == 0),
    {
        proof {
            use_type_invariant(self);
            self.lemma_keys();
            if self.entries.len() > 0 {
                assert(keys_of(self.entries@)[0] == self.entries@[0].0@);
                assert(self@.contains_key(self.entries@[0].0@));
            } else {
                assert(self@ =~= Map::<K::V, V::V>::empty());
            }
        }
        self.entries.len() == 0
    }

    /// The domain of the table is the set of its keys.
    pub proof fn lemma_keys(&self)
        ensures
            self@.dom() == self.spec_keys().to_set(),
            forall|k: K::V| self.spec_keys().contains(k) <==> #[trigger] self@.contains_key(k),
    {
        assert(self@.dom() =~= self.spec_keys().to_set());
    }

    /// Copies of the keys, in the order of their first insertion.
    pub fn keys(&self) -> (r: Vec<K>)
        ensures
            r@.len() == self.spec_keys().len(),
            forall|i: int| 0 <= i < r@.len() ==> (#[trigger] r@[i])@ == self.spec_keys()[i],
            self.spec_keys().no_duplicates(),
            forall|k: K::V| self.spec_keys().contains(k) <==> #[trigger] self@.contains_key(k),
    {
        proof {
            use_type_invariant(self);
            self.lemma_keys();
        }
        let mut out: Vec<K> = Vec::new();
        let mut i: usize = 0;
        while i < self.entries.len()
            invariant
                i <= self.entries.len(),
                out@.len() == i,
                forall|j: int| 0 <= j < i ==> (#[trigger] out@[j])@ == keys_of(self.entries@)[j],
            decreases self.entries.len() - i,
        {
            out.push(self.entries[i].0.dup_key());
            i = i + 1;
        }
        out
    }

    /// Copies every entry of `other` into the table; where both have a key,
    /// the value of `other` stays.
    pub fn extend(&mut self, other: &Table<K, V>)
        ensures
            final(self)@ == old(self)@.union_prefer_right(other@),
    {
        let keys = other.keys();
        let ghost ks = other.spec_keys();
        let mut i: usize = 0;
        while i < keys.len()
            invariant
                i <= keys.len(),
                keys@.len() == ks.len(),
                ks == other.spec_keys(),
                forall|j: int| 0 <= j < keys@.len() ==> (#[trigger] keys@[j])@ == ks[j],
                forall|k: K::V| ks.contains(k) <==> #[trigger] other@.contains_key(k),
                self@ == old(self)@.union_prefer_right(
                    other@.restrict(ks.take(i as int).to_set()),
                ),
            decreases keys.len() - i,
        {
            let key = keys[i].dup_key();
            proof {
                assert(ks[i as int] == key@);
                assert(ks.contains(key@));
            }
            let value = other.get_cloned(&keys[i]).unwrap();
            proof {
                let t0 = ks.take(i as int);
                let t1 = ks.take(i + 1);
                assert(t1 =~= t0.push(key@));
                assert forall|k: K::V| t1.to_set().contains(k) <==> (t0.to_set().contains(k) || k
                    == key@) by {
                    if t1.contains(k) {
                        let j = choose|j: int| 0 <= j < t1.len() && t1[j] == k;
                        if j < i {
                            assert(t0[j] == k);
                        }
                    }
                    if t0.contains(k) {
                        let j = choose|j: int| 0 <= j < t0.len() && t0[j] == k;
                        assert(t1[j] == k);
                    }
                    if k == key@ {
                        assert(t1[i as int] == k);
                    }
                }
                assert(old(self)@.union_prefer_right(other@.restrict(t0.to_set())).insert(
                    key@,
                    value@,
                ) =~= old(self)@.union_prefer_right(other@.restrict(t1.to_set())));
            }
            self.insert(key, value);
            i = i + 1;
        }
        proof {
            assert(ks.take(keys.len() as int) =~= ks);
            assert(other@.restrict(ks.to_set()) =~= other@);
        }
    }

    /// Removes every key that `keys` holds.
    pub fn remove_keys<W: Value>(&mut self, keys: &Table<K, W>)
        ensures
            final(self)@ == old(self)@.remove_keys(keys@.dom()),
    {
        let list = keys.keys();
        let ghost ks = keys.spec_keys();
        let mut i: usize = 0;
        while i < list.len()
            invariant
                i <= list.len(),
                list@.len() == ks.len(),
                forall|j: int| 0 <= j < list@.len() ==> (#[trigger] list@[j])@ == ks[j],
                forall|k: K::V| ks.contains(k) <==> #[trigger] keys@.contains_key(k),
                self@ == old(self)@.remove_keys(ks.take(i as int).to_set()),
            decreases list.len() - i,
        {
            proof {
                let t0 = ks.take(i as int);
                let t1 = ks.take(i + 1);
                let x = ks[i as int];
                assert(t1 =~= t0.push(x));
                assert forall|k: K::V| t1.to_set().contains(k) <==> (t0.to_set().contains(k) || k
                    == x) by {
                    if t1.contains(k) {
                        let j = choose|j: int| 0 <= j < t1.len() && t1[j] == k;
                        if j < i {
                            assert(t0[j] == k);
                        }
                    }
                    if t0.contains(k) {
                        let j = choose|j: int| 0 <= j < t0.len() && t0[j] == k;
                        assert(t1[j] == k);
                    }
                    if k == x {
                        assert(t1[i as int] == k);
                    }
                }
                assert(old(self)@.remove_keys(t0.to_set()).remove(x) =~= old(self)@.remove_keys(
                    t1.to_set(),
                ));
            }
            self.remove(&list[i]);
            i = i + 1;
        }
        proof {
            assert(ks.take(list.len() as int) =~= ks);
            assert(ks.to_set() =~= keys@.dom());
        }
    }

    /// A copy of the table.
    pub fn dup(&self) -> (r: Self)
        ensures
            r@ == self@,
            r.spec_keys() == self.spec_keys(),
    {
        proof {
            use_type_invariant(self);
        }
        let mut entries: Vec<(K, V)> = Vec::new();
        let mut i: usize = 0;
        while i < self.entries.len()
            invariant
                i <= self.entries.len(),
                entries@.len() == i,
                forall|j: int|
                    0 <= j < i ==> (#[trigger] entries@[j]).0@ == self.entries@[j].0@ && entries@[j].1@
                        == self.entries@[j].1@,
            decreases self.entries.len() - i,
        {
            entries.push((self.entries[i].0.dup_key(), self.entries[i].1.dup()));
            i = i + 1;
        }
        proof {
            assert(keys_of(entries@) =~= keys_of(self.entries@));
        }
        let r = Table { entries };
        proof {
            assert(r@ =~= self@);
        }
        r
    }
}

/// A finite set that keeps its elements in the order of their insertion.
pub struct KeySet<K: Key> {
    table: Table<K, bool>,
}

impl Value for bool {
    fn dup(&self) -> (r: Self) {
        *self
    }
}

impl<K: Key> View for KeySet<K> {
    type V = Set<K::V>;

    closed spec fn view(&self) -> Set<K::V> {
        self.table@.dom()
    }
}

impl<K: Key> KeySet<K> {
    /// The elements of the set in the order of their insertion.
    pub closed spec fn spec_items(&self) -> Seq<K::V> {
        self.table.spec_keys()
    }

    pub fn new() -> (s: Self)
        ensures
            s@ == Set::<K::V>::empty(),
    {
        let s = KeySet { table: Table::new() };
        assert(s@ =~= Set::<K::V>::empty());
        s
    }

    pub fn contains(&self, key: &K) -> (r: bool)
        ensures
            r == self@.contains(key@),
    {
        self.table.contains_key(key)
    }

    pub fn insert(&mut self, key: K)
        ensures
            final(self)@ == old(self)@.insert(key@),
    {
        let ghost k = key@;
        self.table.insert(key, true);
        assert(self.table@.dom() =~= old(self).table@.dom().insert(k));
    }

    pub fn remove(&mut self, key: &K)
        ensures
            final(self)@ == old(self)@.remove(key@),
    {
        self.table.remove(key);
        assert(self.table@.dom() =~= old(self).table@.dom().remove(key@));
    }

    pub fn len(&self) -> (n: usize)
        ensures
            n == self@.len(),
            self@.finite(),
    {
        self.table.len()
    }

    pub fn is_empty(&self) -> (r: bool)
        ensures
            r == (self@ == Set::<K::V>::empty()),
    {
        let r = self.table.is_empty();
        proof {
            if r {
                assert(self@ =~= Set::<K::V>::empty());
            } else {
                if self@ == Set::<K::V>::empty() {
                    assert(self.table@ =~= Map::<K::V, bool>::empty());
                }
            }
        }
        r
    }

    /// Copies of the elements, in the order of their insertion.
    pub fn items(&self) -> (r: Vec<K>)
        ensures
            r@.len() == self.spec_items().len(),
            forall|i: int| 0 <= i < r@.len() ==> (#[trigger] r@[i])@ == self.spec_items()[i],
            self.spec_items().no_duplicates(),
            forall|k: K::V| self.spec_items().contains(k) <==> #[trigger] self@.contains(k),
    {
        self.table.keys()
    }

    /// Adds every element of `other`.
    pub fn extend(&mut self, other: &KeySet<K>)
        ensures
            final(self)@ == old(self)@.union(other@),
    {
        self.table.extend(&other.table);
        assert(self.table@.dom() =~= old(self).table@.dom().union(other.table@.dom()));
    }

    pub fn dup(&self) -> (r: Self)
        ensures
            r@ == self@,
    {
        KeySet { table: self.table.dup() }
    }
}

impl<K: Key, V: Value> Table<K, V> {
    /// Removes every key that is an element of `keys`.
    pub fn remove_set(&mut self, keys: &KeySet<K>)
        ensures
            final(self)@ == old(self)@.remove_keys(keys@),
    {
        self.remove_keys(&keys.table);
    }
}

/// The elements of the first `i + 1` items are those of the first `i`
/// and item `i`.
pub proof fn lemma_take_push_set<A>(s: Seq<A>, i: int)
    requires
        0 <= i < s.len(),
    ensures
        s.take(i + 1).to_set() == s.take(i).to_set().insert(s[i]),
        s.take(0).to_set() == Set::<A>::empty(),
{
    assert(s.take(i + 1) =~= s.take(i).push(s[i]));
    let t0 = s.take(i);
    let t1 = s.take(i + 1);
    assert forall|x: A| t1.to_set().contains(x) <==> t0.to_set().insert(s[i]).contains(x) by {
        if t1.contains(x) {
            let j = choose|j: int| 0 <= j < t1.len() && t1[j] == x;
            if j < i {
                assert(t0[j] == x);
            }
        }
        if t0.contains(x) {
            let j = choose|j: int| 0 <= j < t0.len() && t0[j] == x;
            assert(t1[j] == x);
        }
        if x == s[i] {
            assert(t1[i] == x);
        }
    }
    assert(s.take(i + 1).to_set() =~= s.take(i).to_set().insert(s[i]));
    assert(s.take(0).to_set() =~= Set::<A>::empty());
}

pub proof fn lemma_filter_removes<A>(s: Seq<A>, i: int)
    requires
        0 <= i < s.len(),
        s.no_duplicates(),
    ensures
        s.filter(|k: A| k != s[i]) == s.remove(i),
    decreases s.len(),
{
    reveal(Seq::filter);
    let p = |k: A| k != s[i];
    if i == s.len() - 1 {
        lemma_filter_keeps(s.drop_last(), s[i]);
        assert(s.remove(i) =~= s.drop_last());
    } else {
        assert(s.drop_last()[i] == s[i]);
        lemma_filter_removes(s.drop_last(), i);
        assert(s.remove(i) =~= s.drop_last().remove(i).push(s.last()));
    }
}

pub proof fn lemma_filter_keeps<A>(s: Seq<A>, x: A)
    requires
        !s.contains(x),
    ensures
        s.filter(|k: A| k != x) == s,
    decreases s.len(),
{
    reveal(Seq::filter);
    if s.len() > 0 {
        assert forall|j: int| 0 <= j < s.drop_last().len() implies s.drop_last()[j] != x by {
            assert(s[j] == s.drop_last()[j]);
        }
        assert(!s.drop_last().contains(x));
        lemma_filter_keeps(s.drop_last(), x);
        assert(s.last() != x);
        assert(s.drop_last().push(s.last()) =~= s);
    } else {
        assert(s.filter(|k: A| k != x) =~= s);
    }
}

} // verus!
