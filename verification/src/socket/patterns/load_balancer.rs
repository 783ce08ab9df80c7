use vstd::prelude::*;

use crate::text::same_text;

verus! {

/// Shares work out among connections: each is chosen in its turn.
#[derive(Debug)]
pub struct LoadBalancer {
    /// The connections, the one whose turn it is in front.
    connections: Vec<String>,
}

/// No two of the texts are the same.
pub open spec fn texts_distinct(v: Seq<String>) -> bool {
    forall|i: int, j: int|
        0 <= i < v.len() && 0 <= j < v.len() && (#[trigger] v[i])@ == (#[trigger] v[j])@ ==> i == j
}

/// One of the texts is `t`.
pub open spec fn has_text(v: Seq<String>, t: Seq<char>) -> bool {
    exists|i: int| 0 <= i < v.len() && (#[trigger] v[i])@ == t
}

/// The position of the text `t`.
pub fn find_text(v: &Vec<String>, t: &str) -> (r: Option<usize>)
    ensures
        match r {
            Some(i) => i < v@.len() && v@[i as int]@ == t@,
            None => !has_text(v@, t@),
        },
{
    let mut i: usize = 0;
    while i < v.len()
        invariant
            i <= v@.len(),
            forall|j: int| 0 <= j < i ==> (#[trigger] v@[j])@ != t@,
        decreases v@.len() - i,
    {
        if same_text(v[i].as_str(), t) {
            return Some(i);
        }
        i += 1;
    }
    None
}

impl LoadBalancer {
    /// The connections in the order of their turns.
    pub closed spec fn turns(self) -> Seq<String> {
        self.connections@
    }

    /// No connection is listed twice.
    pub open spec fn wf(self) -> bool {
        texts_distinct(self.turns())
    }

    pub fn new() -> (b: LoadBalancer)
        ensures
            b.wf(),
            b.turns() == Seq::<String>::empty(),
    {
        LoadBalancer { connections: Vec::new() }
    }

    /// Adds a connection behind the others, unless it is listed.
    pub fn add_connection(&mut self, uri: String)
        requires
            old(self).wf(),
        ensures
            final(self).wf(),
            final(self).turns() == if has_text(old(self).turns(), uri@) {
                old(self).turns()
            } else {
                old(self).turns().push(uri)
            },
    {
        if find_text(&self.connections, uri.as_str()).is_none() {
            proof {
                lemma_push_distinct(self.connections@, uri);
            }
            self.connections.push(uri);
        }
    }

    /// Takes a connection out.
    pub fn remove_connection(&mut self, uri: &str)
        requires
            old(self).wf(),
        ensures
            final(self).wf(),
            final(self).turns() == without_text(old(self).turns(), uri@),
            !has_text(final(self).turns(), uri@),
    {
        if let Some(i) = find_text(&self.connections, uri) {
            proof {
                lemma_remove_distinct(self.connections@, i as int);
            }
            let _ = self.connections.remove(i);
        }
    }

    /// The connection whose turn it is; it goes behind the others.
    pub fn get_next_connection_uri(&mut self) -> (r: Option<String>)
        requires
            old(self).wf(),
        ensures
            final(self).wf(),
            if old(self).turns().len() == 0 {
                r is None && *final(self) == *old(self)
            } else {
                &&& r == Some(old(self).turns()[0])
                &&& final(self).turns() == old(self).turns().skip(1).push(old(self).turns()[0])
            },
    {
        if self.connections.len() == 0 {
            return None;
        }
        let ghost before = self.connections@;
        let uri = self.connections.remove(0);
        self.connections.push(uri.clone());
        proof {
            assert(self.connections@ =~= before.skip(1).push(before[0]));
            let v = self.connections@;
            assert forall|i: int, j: int|
                0 <= i < v.len() && 0 <= j < v.len() && (#[trigger] v[i])@ == (#[trigger] v[j])@ implies i
                == j by {
                let i2 = if i < v.len() - 1 { i + 1 } else { 0 };
                let j2 = if j < v.len() - 1 { j + 1 } else { 0 };
                assert(before[i2]@ == before[j2]@);
            }
        }
        Some(uri)
    }

    pub fn has_connections(&self) -> (b: bool)
        ensures
            b == (self.turns().len() > 0),
    {
        self.connections.len() > 0
    }

    pub fn connection_count(&self) -> (n: usize)
        ensures
            n == self.turns().len(),
    {
        self.connections.len()
    }
}

/// The texts without `t`, where none occurs twice.
pub open spec fn without_text(v: Seq<String>, t: Seq<char>) -> Seq<String> {
    if has_text(v, t) {
        v.remove(choose|i: int| 0 <= i < v.len() && (#[trigger] v[i])@ == t)
    } else {
        v
    }
}

pub proof fn lemma_push_distinct(v: Seq<String>, s: String)
    requires
        texts_distinct(v),
        !has_text(v, s@),
    ensures
        texts_distinct(v.push(s)),
{
    let w = v.push(s);
    assert forall|i: int, j: int|
        0 <= i < w.len() && 0 <= j < w.len() && (#[trigger] w[i])@ == (#[trigger] w[j])@ implies i
        == j by {
        if i < v.len() && j < v.len() {
            assert(v[i]@ == v[j]@);
        } else if i < v.len() {
            assert(v[i]@ == s@);
        } else if j < v.len() {
            assert(v[j]@ == s@);
        }
    }
}

pub proof fn lemma_remove_distinct(v: Seq<String>, i: int)
    requires
        texts_distinct(v),
        0 <= i < v.len(),
    ensures
        texts_distinct(v.remove(i)),
        !has_text(v.remove(i), v[i]@),
        v.remove(i) == without_text(v, v[i]@),
{
    let w = v.remove(i);
    assert(has_text(v, v[i]@));
    let k = choose|k: int| 0 <= k < v.len() && (#[trigger] v[k])@ == v[i]@;
    assert(k == i);
    assert forall|a: int, b: int|
        0 <= a < w.len() && 0 <= b < w.len() && (#[trigger] w[a])@ == (#[trigger] w[b])@ implies a
        == b by {
        let a2 = if a < i { a } else { a + 1 };
        let b2 = if b < i { b } else { b + 1 };
        assert(v[a2]@ == v[b2]@);
    }
    if has_text(w, v[i]@) {
        let a = choose|a: int| 0 <= a < w.len() && (#[trigger] w[a])@ == v[i]@;
        let a2 = if a < i { a } else { a + 1 };
        assert(v[a2]@ == v[i]@);
    }
}

/// Adding a connection that is not listed and taking it out again changes nothing.
pub proof fn add_then_remove(turns: Seq<String>, uri: String)
    requires
        texts_distinct(turns),
        !has_text(turns, uri@),
    ensures
        without_text(turns.push(uri), uri@) == turns,
{
    lemma_push_distinct(turns, uri);
    lemma_remove_distinct(turns.push(uri), turns.len() as int);
    assert(turns.push(uri).remove(turns.len() as int) =~= turns);
}

/// The turns after `n` choices.
pub open spec fn turns_after(turns: Seq<String>, n: nat) -> Seq<String>
    decreases n,
{
    if n == 0 || turns.len() == 0 {
        turns
    } else {
        let t = turns_after(turns, (n - 1) as nat);
        t.skip(1).push(t[0])
    }
}

/// The `n`-th choice among connections that neither come nor go is the `n`-th in turn,
/// so that as many choices as there are connections choose each of them once.
pub proof fn choices_go_round(turns: Seq<String>, n: nat)
    requires
        n < turns.len(),
    ensures
        turns_after(turns, n)[0] == turns[n as int],
        turns_after(turns, turns.len() as nat) == turns,
{
    lemma_turns_after(turns, n);
    lemma_turns_after(turns, turns.len() as nat);
    assert(turns.skip(turns.len() as int) + turns.take(turns.len() as int) =~= turns);
}

proof fn lemma_turns_after(turns: Seq<String>, n: nat)
    requires
        n <= turns.len(),
    ensures
        turns_after(turns, n) == turns.skip(n as int) + turns.take(n as int),
    decreases n,
{
    if n == 0 || turns.len() == 0 {
        assert(turns.skip(0) + turns.take(0) =~= turns);
        if turns.len() == 0 {
            assert(turns.skip(n as int) + turns.take(n as int) =~= turns);
        }
    } else {
        lemma_turns_after(turns, (n - 1) as nat);
        let t = turns.skip(n - 1) + turns.take(n - 1);
        assert(t.skip(1).push(t[0]) =~= turns.skip(n as int) + turns.take(n as int));
    }
}

// ---------------------------------------------------------------------------
// Laws
// ---------------------------------------------------------------------------
/// The connection that has waited longest is chosen, and every other one moves up by one.
pub proof fn longest_waiting_is_chosen(b: &mut LoadBalancer, r: Option<String>)
    requires
        call_ensures(LoadBalancer::get_next_connection_uri, (b,), r),
    ensures
        r is None <==> old(b).turns().len() == 0,
        r is Some ==> r->0 == old(b).turns()[0] && final(b).turns().last() == r->0,
        final(b).turns().len() == old(b).turns().len(),
        forall|i: int|
            0 <= i < old(b).turns().len() - 1 ==> #[trigger] final(b).turns()[i] == old(b).turns()[i + 1],
{
}

/// A connection that comes is chosen after those that are there, which keep their turns, and
/// one that is listed is not listed twice.
pub proof fn new_connection_waits_its_turn(b: &mut LoadBalancer, uri: String)
    requires
        call_ensures(LoadBalancer::add_connection, (b, uri), ()),
    ensures
        forall|i: int|
            0 <= i < old(b).turns().len() ==> #[trigger] final(b).turns()[i] == old(b).turns()[i],
        (exists|i: int| 0 <= i < old(b).turns().len() && (#[trigger] old(b).turns()[i])@ == uri@)
            ==> final(b).turns().len() == old(b).turns().len(),
        (forall|i: int| 0 <= i < old(b).turns().len() ==> (#[trigger] old(b).turns()[i])@ != uri@)
            ==> final(b).turns().len() == old(b).turns().len() + 1 && final(b).turns().last()
            == uri,
{
}

/// A connection that is taken out is not chosen again, and no other one goes with it.
pub proof fn removed_connection_is_gone(b: &mut LoadBalancer, uri: &str, other: Seq<char>)
    requires
        call_ensures(LoadBalancer::remove_connection, (b, uri), ()),
        other != uri@,
    ensures
        forall|i: int| 0 <= i < final(b).turns().len() ==> (#[trigger] final(b).turns()[i])@ != uri@,
        has_text(final(b).turns(), other) <==> has_text(old(b).turns(), other),
        final(b).turns().len() >= old(b).turns().len() - 1,
{
    assert(!has_text(final(b).turns(), uri@));
    let v = old(b).turns();
    let w = final(b).turns();
    if has_text(v, uri@) {
        let k = choose|i: int| 0 <= i < v.len() && (#[trigger] v[i])@ == uri@;
        assert(w == v.remove(k));
        if has_text(v, other) {
            let i = choose|i: int| 0 <= i < v.len() && (#[trigger] v[i])@ == other;
            assert(w[if i < k { i } else { i - 1 }]@ == other);
        }
        if has_text(w, other) {
            let i = choose|i: int| 0 <= i < w.len() && (#[trigger] w[i])@ == other;
            assert(v[if i < k { i } else { i + 1 }]@ == other);
        }
    }
}

/// The connections that stay keep their order when one is taken out.
pub proof fn others_keep_their_order(v: Seq<String>, t: Seq<char>)
    requires
        texts_distinct(v),
    ensures
        (forall|i: int| 0 <= i < v.len() ==> (#[trigger] v[i])@ != t) ==> without_text(v, t) == v,
        forall|k: int|
            0 <= k < v.len() && (#[trigger] v[k])@ == t ==> without_text(v, t) == v.take(k)
                + v.skip(k + 1),
{
    assert forall|k: int| 0 <= k < v.len() && (#[trigger] v[k])@ == t implies without_text(v, t)
        == v.take(k) + v.skip(k + 1) by {
        assert(has_text(v, t));
        let c = choose|i: int| 0 <= i < v.len() && (#[trigger] v[i])@ == t;
        assert(v[c]@ == v[k]@);
        assert(v.remove(k) =~= v.take(k) + v.skip(k + 1));
    }
}

/// The number of connections is counted, and a text is found exactly where it is listed.
pub proof fn connections_are_counted(
    b: &LoadBalancer,
    any: bool,
    n: usize,
    fresh: LoadBalancer,
    v: &Vec<String>,
    t: &str,
    at: Option<usize>,
)
    requires
        call_ensures(LoadBalancer::has_connections, (b,), any),
        call_ensures(LoadBalancer::connection_count, (b,), n),
        call_ensures(LoadBalancer::new, (), fresh),
        call_ensures(find_text, (v, t), at),
    ensures
        n == b.turns().len(),
        any <==> n > 0,
        fresh.turns().len() == 0,
        at is None <==> forall|i: int| 0 <= i < v@.len() ==> (#[trigger] v@[i])@ != t@,
        at matches Some(i) ==> i < v@.len() && v@[i as int]@ == t@,
{
}

} // verus!
