use vstd::prelude::*;

verus! {

/// A finite map with handles for keys.
#[derive(Debug)]
pub struct IdMap<V> {
    entries: Vec<(usize, V)>,
}

/// No key stands in two entries.
pub open spec fn ids_distinct<V>(entries: Seq<(usize, V)>) -> bool {
    forall|i: int, j: int|
        0 <= i < entries.len() && 0 <= j < entries.len() && (#[trigger] entries[i]).0 == (
        #[trigger] entries[j]).0 ==> i == j
}

pub open spec fn has_id<V>(entries: Seq<(usize, V)>, key: usize) -> bool {
    exists|i: int| 0 <= i < entries.len() && (#[trigger] entries[i]).0 == key
}

/// The position of the entry with key `key`.
pub open spec fn id_position<V>(entries: Seq<(usize, V)>, key: usize) -> int {
    choose|i: int| 0 <= i < entries.len() && (#[trigger] entries[i]).0 == key
}

/// The map that a list of entries stands for.
pub open spec fn id_entries_map<V>(entries: Seq<(usize, V)>) -> Map<usize, V> {
    Map::new(|k: usize| has_id(entries, k), |k: usize| entries[id_position(entries, k)].1)
}

impl<V> View for IdMap<V> {
    type V = Map<usize, V>;

    closed spec fn view(&self) -> Map<usize, V> {
        id_entries_map(self.entries@)
    }
}

impl<V> IdMap<V> {
    #[verifier::type_invariant]
    spec fn distinct(self) -> bool {
        ids_distinct(self.entries@)
    }

    /// The entries in the order in which they are listed.
    pub closed spec fn listed(self) -> Seq<(usize, V)> {
        self.entries@
    }

    pub fn new() -> (m: IdMap<V>)
        ensures
            m@ == Map::<usize, V>::empty(),
            m.listed().len() == 0,
    {
        let m = IdMap { entries: Vec::new() };
        assert(m@ =~= Map::<usize, V>::empty());
        m
    }

    fn find(&self, key: usize) -> (r: Option<usize>)
        ensures
            match r {
                Some(i) => i < self.listed().len() && self.listed()[i as int].0 == key,
                None => !has_id(self.listed(), key),
            },
    {
        let mut i: usize = 0;
        while i < self.entries.len()
            invariant
                i <= self.entries@.len(),
                forall|j: int| 0 <= j < i ==> (#[trigger] self.entries@[j]).0 != key,
            decreases self.entries@.len() - i,
        {
            if self.entries[i].0 == key {
                return Some(i);
            }
            i += 1;
        }
        None
    }

    pub fn contains_key(&self, key: usize) -> (b: bool)
        ensures
            b == self@.dom().contains(key),
    {
        self.find(key).is_some()
    }

    pub fn get(&self, key: usize) -> (r: Option<&V>)
        ensures
            match r {
                Some(v) => self@.dom().contains(key) && *v == self@[key],
                None => !self@.dom().contains(key),
            },
    {
        proof {
            use_type_invariant(self);
        }
        match self.find(key) {
            Some(i) => Some(&self.entries[i].1),
            None => None,
        }
    }

    /// Removes a key, handing back what it stood for.
    pub fn remove(&mut self, key: usize) -> (r: Option<V>)
        ensures
            final(self)@ == old(self)@.remove(key),
            match r {
                Some(v) => old(self)@.dom().contains(key) && v == old(self)@[key],
                None => !old(self)@.dom().contains(key) && *final(self) == *old(self),
            },
    {
        proof {
            use_type_invariant(&*self);
        }
        match self.find(key) {
            Some(i) => {
                let ghost before = self.entries@;
                let mut entries: Vec<(usize, V)> = Vec::new();
                std::mem::swap(&mut entries, &mut self.entries);
                let (_k, v) = entries.remove(i);
                proof {
                    lemma_id_removed(before, i as int);
                }
                self.entries = entries;
                Some(v)
            },
            None => {
                assert(self@.remove(key) =~= self@);
                None
            },
        }
    }

    /// Sets a key, handing back what it stood for before.
    pub fn insert(&mut self, key: usize, value: V) -> (r: Option<V>)
        ensures
            final(self)@ == old(self)@.insert(key, value),
            match r {
                Some(v) => old(self)@.dom().contains(key) && v == old(self)@[key],
                None => !old(self)@.dom().contains(key),
            },
    {
        let r = self.remove(key);
        let ghost before = self.entries@;
        proof {
            use_type_invariant(&*self);
        }
        let mut entries: Vec<(usize, V)> = Vec::new();
        std::mem::swap(&mut entries, &mut self.entries);
        entries.push((key, value));
        proof {
            assert(!id_entries_map(before).dom().contains(key));
            lemma_id_pushed(before, key, value);
        }
        self.entries = entries;
        assert(self@ =~= old(self)@.insert(key, value));
        r
    }

    pub fn len(&self) -> (n: usize)
        ensures
            n == self.listed().len(),
            n == 0 <==> self@ == Map::<usize, V>::empty(),
    {
        proof {
            if self.entries@.len() == 0 {
                assert(self@ =~= Map::<usize, V>::empty());
            } else {
                assert(has_id(self.entries@, self.entries@[0].0));
                assert(self@.dom().contains(self.entries@[0].0));
            }
        }
        self.entries.len()
    }

    /// The `i`-th listed entry.
    pub fn entry(&self, i: usize) -> (r: (usize, &V))
        requires
            i < self.listed().len(),
        ensures
            r.0 == self.listed()[i as int].0,
            *r.1 == self.listed()[i as int].1,
            self@.dom().contains(r.0),
            self@[r.0] == *r.1,
    {
        proof {
            use_type_invariant(self);
        }
        assert(has_id(self.entries@, self.entries@[i as int].0));
        (self.entries[i].0, &self.entries[i].1)
    }

    /// Every key is listed.
    pub proof fn lemma_listed(self)
        ensures
            forall|k: usize| #[trigger] self@.dom().contains(k) <==> has_id(self.listed(), k),
    {
    }
}

proof fn lemma_id_removed<V>(s: Seq<(usize, V)>, i: int)
    requires
        ids_distinct(s),
        0 <= i < s.len(),
    ensures
        ids_distinct(s.remove(i)),
        id_entries_map(s.remove(i)) == id_entries_map(s).remove(s[i].0),
        id_entries_map(s).dom().contains(s[i].0),
        id_entries_map(s)[s[i].0] == s[i].1,
{
    let t = s.remove(i);
    let key = s[i].0;
    assert forall|a: int, b: int|
        0 <= a < t.len() && 0 <= b < t.len() && (#[trigger] t[a]).0 == (#[trigger] t[b]).0 implies a
        == b by {
        let a2 = if a < i { a } else { a + 1 };
        let b2 = if b < i { b } else { b + 1 };
        assert(s[a2].0 == s[b2].0);
    }
    assert(has_id(s, key));
    assert forall|k: usize| has_id(t, k) <==> (has_id(s, k) && k != key) by {
        if has_id(t, k) {
            let a = id_position(t, k);
            let a2 = if a < i { a } else { a + 1 };
            assert(s[a2].0 == k);
        }
        if has_id(s, k) && k != key {
            let a = id_position(s, k);
            let a2 = if a < i { a } else { a - 1 };
            assert(t[a2].0 == k);
        }
    }
    assert forall|k: usize| has_id(t, k) implies t[id_position(t, k)].1 == s[id_position(s, k)].1 by {
        let a = id_position(t, k);
        let a2 = if a < i { a } else { a + 1 };
        assert(s[a2].0 == k);
        assert(a2 == id_position(s, k));
    }
    assert(id_entries_map(t) =~= id_entries_map(s).remove(key));
}

proof fn lemma_id_pushed<V>(s: Seq<(usize, V)>, key: usize, value: V)
    requires
        ids_distinct(s),
        !has_id(s, key),
    ensures
        ids_distinct(s.push((key, value))),
        id_entries_map(s.push((key, value))) == id_entries_map(s).insert(key, value),
{
    let t = s.push((key, value));
    assert(forall|a: int| 0 <= a < s.len() ==> #[trigger] t[a] == s[a]);
    assert(t[s.len() as int].0 == key);
    assert forall|a: int, b: int|
        0 <= a < t.len() && 0 <= b < t.len() && (#[trigger] t[a]).0 == (#[trigger] t[b]).0 implies a
        == b by {
        if a < s.len() && b < s.len() {
            assert(s[a].0 == s[b].0);
        } else if a < s.len() {
            assert(s[a].0 == key);
        } else if b < s.len() {
            assert(s[b].0 == key);
        }
    }
    assert forall|k: usize| has_id(t, k) <==> (has_id(s, k) || k == key) by {
        if has_id(s, k) {
            let a = id_position(s, k);
            assert(t[a].0 == k);
        }
        if has_id(t, k) && k != key {
            let a = id_position(t, k);
            assert(s[a].0 == k);
        }
    }
    assert forall|k: usize| has_id(t, k) implies t[id_position(t, k)].1 == (if k == key {
        value
    } else {
        s[id_position(s, k)].1
    }) by {
        let a = id_position(t, k);
        if a < s.len() {
            assert(s[a].0 == k);
            assert(a == id_position(s, k));
        }
    }
    assert(id_entries_map(t) =~= id_entries_map(s).insert(key, value));
}

/// What is set is what is found; other keys find what they found before.
pub proof fn set_key_is_found<V>(
    m: &mut IdMap<V>,
    key: usize,
    value: V,
    r: Option<V>,
    other: usize,
)
    requires
        call_ensures(IdMap::<V>::insert, (m, key, value), r),
        other != key,
    ensures
        final(m)@.dom().contains(key) && final(m)@[key] == value,
        final(m)@.dom().contains(other) <==> old(m)@.dom().contains(other),
        old(m)@.dom().contains(other) ==> final(m)@[other] == old(m)@[other],
        old(m)@.dom().contains(key) ==> r == Some(old(m)@[key]),
        !old(m)@.dom().contains(key) ==> r is None,
{
}

/// What is removed is handed back and found no more; other keys find what they found before.
pub proof fn removed_key_is_not_found<V>(m: &mut IdMap<V>, key: usize, r: Option<V>, other: usize)
    requires
        call_ensures(IdMap::<V>::remove, (m, key), r),
        other != key,
    ensures
        !final(m)@.dom().contains(key),
        final(m)@.dom().contains(other) <==> old(m)@.dom().contains(other),
        old(m)@.dom().contains(other) ==> final(m)@[other] == old(m)@[other],
        old(m)@.dom().contains(key) ==> r == Some(old(m)@[key]),
        !old(m)@.dom().contains(key) ==> r is None,
{
}

/// A key is found exactly where it is set, and every listed entry is one that is set.
pub proof fn lookups_find_what_is_set<V>(
    m: &IdMap<V>,
    key: usize,
    b: bool,
    r: Option<&V>,
    n: usize,
    i: usize,
    e: (usize, &V),
    fresh: IdMap<V>,
)
    requires
        call_ensures(IdMap::<V>::contains_key, (m, key), b),
        call_ensures(IdMap::<V>::get, (m, key), r),
        call_ensures(IdMap::<V>::len, (m,), n),
        call_ensures(IdMap::<V>::entry, (m, i), e),
        call_ensures(IdMap::<V>::new, (), fresh),
    ensures
        b <==> m@.dom().contains(key),
        r is Some <==> m@.dom().contains(key),
        r matches Some(v) ==> *v == m@[key],
        n == m.listed().len(),
        n == 0 ==> !m@.dom().contains(key),
        m@.dom().contains(e.0) && m@[e.0] == *e.1,
        e.0 == m.listed()[i as int].0,
        !fresh@.dom().contains(key),
{
}

} // verus!
