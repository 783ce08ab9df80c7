use vstd::prelude::*;

use crate::text::same_text;

verus! {

/// A finite map with texts for keys.
#[derive(Debug)]
pub struct UriMap<V> {
    entries: Vec<(String, V)>,
}

/// No key stands in two entries.
pub open spec fn keys_distinct<V>(entries: Seq<(String, V)>) -> bool {
    forall|i: int, j: int|
        0 <= i < entries.len() && 0 <= j < entries.len() && #[trigger] entries[i].0@
            == #[trigger] entries[j].0@ ==> i == j
}

/// The position of the entry with key `key`.
pub open spec fn position_of<V>(entries: Seq<(String, V)>, key: Seq<char>) -> int {
    choose|i: int| 0 <= i < entries.len() && #[trigger] entries[i].0@ == key
}

pub open spec fn has_key<V>(entries: Seq<(String, V)>, key: Seq<char>) -> bool {
    exists|i: int| 0 <= i < entries.len() && #[trigger] entries[i].0@ == key
}

/// The map that a list of entries stands for.
pub open spec fn entries_map<V>(entries: Seq<(String, V)>) -> Map<Seq<char>, V> {
    Map::new(|k: Seq<char>| has_key(entries, k), |k: Seq<char>| entries[position_of(entries, k)].1)
}

impl<V> View for UriMap<V> {
    type V = Map<Seq<char>, V>;

    closed spec fn view(&self) -> Map<Seq<char>, V> {
        entries_map(self.entries@)
    }
}

impl<V> UriMap<V> {
    #[verifier::type_invariant]
    spec fn distinct(self) -> bool {
        keys_distinct(self.entries@)
    }

    /// The entries in the order in which they are listed.
    pub closed spec fn listed(self) -> Seq<(String, V)> {
        self.entries@
    }

    pub fn new() -> (m: UriMap<V>)
        ensures
            m@ == Map::<Seq<char>, V>::empty(),
            m.listed().len() == 0,
    {
        let m = UriMap { entries: Vec::new() };
        assert(m@ =~= Map::<Seq<char>, V>::empty());
        m
    }

    fn find(&self, key: &str) -> (r: Option<usize>)
        ensures
            match r {
                Some(i) => i < self.listed().len() && self.listed()[i as int].0@ == key@,
                None => !has_key(self.listed(), key@),
            },
    {
        let mut i: usize = 0;
        while i < self.entries.len()
            invariant
                i <= self.entries@.len(),
                forall|j: int| 0 <= j < i ==> #[trigger] self.entries@[j].0@ != key@,
            decreases self.entries@.len() - i,
        {
            if same_text(self.entries[i].0.as_str(), key) {
                return Some(i);
            }
            i += 1;
        }
        None
    }

    pub fn contains_key(&self, key: &str) -> (b: bool)
        ensures
            b == self@.dom().contains(key@),
    {
        self.find(key).is_some()
    }

    pub fn get(&self, key: &str) -> (r: Option<&V>)
        ensures
            match r {
                Some(v) => self@.dom().contains(key@) && *v == self@[key@],
                None => !self@.dom().contains(key@),
            },
    {
        proof {
            use_type_invariant(self);
        }
        match self.find(key) {
            Some(i) => Some(&self.entries[i].1),
            None => None,
        }
    }

    /// Removes a key, handing back what it stood for.
    pub fn remove(&mut self, key: &str) -> (r: Option<V>)
        ensures
            final(self)@ == old(self)@.remove(key@),
            match r {
                Some(v) => old(self)@.dom().contains(key@) && v == old(self)@[key@],
                None => !old(self)@.dom().contains(key@) && *final(self) == *old(self),
            },
    {
        proof {
            use_type_invariant(&*self);
        }
        match self.find(key) {
            Some(i) => {
                let ghost before = self.entries@;
                let mut entries: Vec<(String, V)> = Vec::new();
                std::mem::swap(&mut entries, &mut self.entries);
                let (_k, v) = entries.remove(i);
                proof {
                    lemma_removed(before, i as int);
                }
                self.entries = entries;
                Some(v)
            },
            None => {
                assert(self@.remove(key@) =~= self@);
                None
            },
        }
    }

    /// Sets a key, handing back what it stood for before.
    pub fn insert(&mut self, key: String, value: V) -> (r: Option<V>)
        ensures
            final(self)@ == old(self)@.insert(key@, value),
            match r {
                Some(v) => old(self)@.dom().contains(key@) && v == old(self)@[key@],
                None => !old(self)@.dom().contains(key@),
            },
    {
        let r = self.remove(key.as_str());
        let ghost before = self.entries@;
        proof {
            use_type_invariant(&*self);
        }
        let mut entries: Vec<(String, V)> = Vec::new();
        std::mem::swap(&mut entries, &mut self.entries);
        entries.push((key, value));
        proof {
            assert(!entries_map(before).dom().contains(key@));
            lemma_pushed(before, key, value);
        }
        self.entries = entries;
        assert(self@ =~= old(self)@.insert(key@, value));
        r
    }

    pub fn len(&self) -> (n: usize)
        ensures
            n == self.listed().len(),
            keys_distinct(self.listed()),
    {
        proof {
            use_type_invariant(self);
        }
        self.entries.len()
    }

    /// Every key is listed, with what it stands for.
    pub proof fn lemma_listed(&self)
        ensures
            forall|k: Seq<char>| #[trigger] self@.dom().contains(k) <==> has_key(self.listed(), k),
            keys_distinct(self.listed()) ==> forall|i: int|
                0 <= i < self.listed().len() ==> self@[#[trigger] self.listed()[i].0@]
                    == self.listed()[i].1,
    {
        if keys_distinct(self.listed()) {
            assert forall|i: int| 0 <= i < self.listed().len() implies self@[#[trigger] self.listed()[i].0@]
                == self.listed()[i].1 by {
                assert(has_key(self.entries@, self.entries@[i].0@));
                assert(position_of(self.entries@, self.entries@[i].0@) == i);
            }
        }
    }

    /// The `i`-th listed entry.
    pub fn entry(&self, i: usize) -> (r: (&String, &V))
        requires
            i < self.listed().len(),
        ensures
            *r.0 == self.listed()[i as int].0,
            *r.1 == self.listed()[i as int].1,
            self@.dom().contains(r.0@),
            self@[r.0@] == *r.1,
    {
        proof {
            use_type_invariant(self);
        }
        assert(has_key(self.entries@, self.entries@[i as int].0@));
        (&self.entries[i].0, &self.entries[i].1)
    }
}

proof fn lemma_removed<V>(s: Seq<(String, V)>, i: int)
    requires
        keys_distinct(s),
        0 <= i < s.len(),
    ensures
        keys_distinct(s.remove(i)),
        entries_map(s.remove(i)) == entries_map(s).remove(s[i].0@),
        entries_map(s).dom().contains(s[i].0@),
        entries_map(s)[s[i].0@] == s[i].1,
{
    let t = s.remove(i);
    let key = s[i].0@;
    assert forall|a: int, b: int|
        0 <= a < t.len() && 0 <= b < t.len() && #[trigger] t[a].0@ == #[trigger] t[b].0@ implies a
        == b by {
        let a2 = if a < i { a } else { a + 1 };
        let b2 = if b < i { b } else { b + 1 };
        assert(s[a2].0@ == s[b2].0@);
    }
    assert(has_key(s, key));
    assert forall|k: Seq<char>| has_key(t, k) <==> (has_key(s, k) && k != key) by {
        if has_key(t, k) {
            let a = position_of(t, k);
            let a2 = if a < i { a } else { a + 1 };
            assert(s[a2].0@ == k);
        }
        if has_key(s, k) && k != key {
            let a = position_of(s, k);
            let a2 = if a < i { a } else { a - 1 };
            assert(t[a2].0@ == k);
        }
    }
    assert forall|k: Seq<char>| has_key(t, k) implies t[position_of(t, k)].1 == s[position_of(
        s,
        k,
    )].1 by {
        let a = position_of(t, k);
        let a2 = if a < i { a } else { a + 1 };
        assert(s[a2].0@ == k);
        assert(a2 == position_of(s, k));
    }
    assert(entries_map(t) =~= entries_map(s).remove(key));
}

proof fn lemma_pushed<V>(s: Seq<(String, V)>, key: String, value: V)
    requires
        keys_distinct(s),
        !has_key(s, key@),
    ensures
        keys_distinct(s.push((key, value))),
        entries_map(s.push((key, value))) == entries_map(s).insert(key@, value),
{
    let t = s.push((key, value));
    assert(forall|a: int| 0 <= a < s.len() ==> #[trigger] t[a] == s[a]);
    assert(t[s.len() as int].0@ == key@);
    assert forall|a: int, b: int|
        0 <= a < t.len() && 0 <= b < t.len() && #[trigger] t[a].0@ == #[trigger] t[b].0@ implies a
        == b by {
        if a < s.len() && b < s.len() {
            assert(s[a].0@ == s[b].0@);
        } else if a < s.len() {
            assert(s[a].0@ == key@);
        } else if b < s.len() {
            assert(s[b].0@ == key@);
        }
    }
    assert forall|k: Seq<char>| has_key(t, k) <==> (has_key(s, k) || k == key@) by {
        if has_key(s, k) {
            let a = position_of(s, k);
            assert(t[a].0@ == k);
        }
        if has_key(t, k) && k != key@ {
            let a = position_of(t, k);
            assert(s[a].0@ == k);
        }
    }
    assert forall|k: Seq<char>| has_key(t, k) implies t[position_of(t, k)].1 == (if k == key@ {
        value
    } else {
        s[position_of(s, k)].1
    }) by {
        let a = position_of(t, k);
        if a < s.len() {
            assert(s[a].0@ == k);
            assert(a == position_of(s, k));
        }
    }
    assert(entries_map(t) =~= entries_map(s).insert(key@, value));
}

/// What is set is what is found; other keys find what they found before.
pub proof fn set_key_is_found<V>(
    m: &mut UriMap<V>,
    key: String,
    value: V,
    r: Option<V>,
    other: Seq<char>,
)
    requires
        call_ensures(UriMap::<V>::insert, (m, key, value), r),
        other != key@,
    ensures
        final(m)@.dom().contains(key@) && final(m)@[key@] == value,
        final(m)@.dom().contains(other) <==> old(m)@.dom().contains(other),
        old(m)@.dom().contains(other) ==> final(m)@[other] == old(m)@[other],
        old(m)@.dom().contains(key@) ==> r == Some(old(m)@[key@]),
        !old(m)@.dom().contains(key@) ==> r is None,
{
}

/// What is removed is handed back and found no more; other keys find what they found before.
pub proof fn removed_key_is_not_found<V>(m: &mut UriMap<V>, key: &str, r: Option<V>, other: Seq<char>)
    requires
        call_ensures(UriMap::<V>::remove, (m, key), r),
        other != key@,
    ensures
        !final(m)@.dom().contains(key@),
        final(m)@.dom().contains(other) <==> old(m)@.dom().contains(other),
        old(m)@.dom().contains(other) ==> final(m)@[other] == old(m)@[other],
        old(m)@.dom().contains(key@) ==> r == Some(old(m)@[key@]),
        !old(m)@.dom().contains(key@) ==> r is None,
{
}

/// A key is found exactly where it is set, and every listed entry is one that is set.
pub proof fn lookups_find_what_is_set<V>(
    m: &UriMap<V>,
    key: &str,
    b: bool,
    r: Option<&V>,
    n: usize,
    i: usize,
    e: (&String, &V),
    fresh: UriMap<V>,
)
    requires
        call_ensures(UriMap::<V>::contains_key, (m, key), b),
        call_ensures(UriMap::<V>::get, (m, key), r),
        call_ensures(UriMap::<V>::len, (m,), n),
        call_ensures(UriMap::<V>::entry, (m, i), e),
        call_ensures(UriMap::<V>::new, (), fresh),
    ensures
        b <==> m@.dom().contains(key@),
        r is Some <==> m@.dom().contains(key@),
        r matches Some(v) ==> *v == m@[key@],
        n == m.listed().len(),
        m@.dom().contains(e.0@) && m@[e.0@] == *e.1,
        *e.0 == m.listed()[i as int].0,
        !fresh@.dom().contains(key@),
{
}

} // verus!
