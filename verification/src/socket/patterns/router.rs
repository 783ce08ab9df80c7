use vstd::prelude::*;

use crate::message::same_bytes;

verus! {

/// A peer that messages can be routed to.
#[derive(Debug)]
pub struct RouterPeer {
    pub identity: Vec<u8>,
    pub pipe_read_id: usize,
    pub uri: String,
    /// The peer's socket type, where it is known.
    pub peer_socket_type: Option<String>,
}

impl RouterPeer {
    /// The peer's socket type, as text.
    pub open spec fn peer_type(self) -> Option<Seq<char>> {
        match self.peer_socket_type {
            Some(t) => Some(t@),
            None => None,
        }
    }
}

/// The peers of a ROUTER, by identity.
#[derive(Debug)]
pub struct RouterMap {
    peers: Vec<RouterPeer>,
}

/// No two peers have one identity.
pub open spec fn identities_distinct(peers: Seq<RouterPeer>) -> bool {
    forall|i: int, j: int|
        0 <= i < peers.len() && 0 <= j < peers.len() && (#[trigger] peers[i]).identity@ == (
        #[trigger] peers[j]).identity@ ==> i == j
}

pub open spec fn has_identity(peers: Seq<RouterPeer>, identity: Seq<u8>) -> bool {
    exists|i: int| 0 <= i < peers.len() && (#[trigger] peers[i]).identity@ == identity
}

/// The peers without the one with the identity.
pub open spec fn without_identity(peers: Seq<RouterPeer>, identity: Seq<u8>) -> Seq<RouterPeer> {
    peers.filter(|p: RouterPeer| p.identity@ != identity)
}

/// The peers without those of the pipe.
pub open spec fn without_pipe(peers: Seq<RouterPeer>, pipe: usize) -> Seq<RouterPeer> {
    peers.filter(|p: RouterPeer| p.pipe_read_id != pipe)
}

proof fn lemma_filter_step(s: Seq<RouterPeer>, keep: spec_fn(RouterPeer) -> bool, n: int)
    requires
        0 <= n < s.len(),
    ensures
        s.take(n + 1).filter(keep) == if keep(s[n]) {
            s.take(n).filter(keep).push(s[n])
        } else {
            s.take(n).filter(keep)
        },
{
    reveal(Seq::filter);
    assert(s.take(n + 1).drop_last() =~= s.take(n));
    assert(s.take(n + 1).last() == s[n]);
}

proof fn lemma_filter_members(s: Seq<RouterPeer>, keep: spec_fn(RouterPeer) -> bool)
    ensures
        forall|i: int| 0 <= i < s.filter(keep).len() ==> keep(#[trigger] s.filter(keep)[i]),
        identities_distinct(s) ==> identities_distinct(s.filter(keep)),
        forall|i: int|
            0 <= i < s.len() && keep(#[trigger] s[i]) ==> has_identity(
                s.filter(keep),
                s[i].identity@,
            ),
        forall|d: Seq<u8>| #[trigger] has_identity(s.filter(keep), d) ==> has_identity(s, d),
    decreases s.len(),
{
    reveal(Seq::filter);
    if s.len() > 0 {
        let t = s.drop_last();
        lemma_filter_members(t, keep);
        let f = t.filter(keep);
        let g = s.filter(keep);
        assert(identities_distinct(s) ==> identities_distinct(t)) by {
            if identities_distinct(s) {
                assert forall|i: int, j: int|
                    0 <= i < t.len() && 0 <= j < t.len() && (#[trigger] t[i]).identity@ == (
                    #[trigger] t[j]).identity@ implies i == j by {
                    assert(s[i].identity@ == s[j].identity@);
                }
            }
        }
        assert forall|d: Seq<u8>| has_identity(t, d) implies has_identity(s, d) by {
            let i = choose|i: int| 0 <= i < t.len() && (#[trigger] t[i]).identity@ == d;
            assert(s[i].identity@ == d);
        }
        if keep(s.last()) {
            assert(g == f.push(s.last()));
            assert(g[f.len() as int].identity@ == s.last().identity@);
            assert(s[s.len() - 1].identity@ == s.last().identity@);
            assert forall|d: Seq<u8>| #[trigger] has_identity(g, d) implies has_identity(s, d) by {
                let i = choose|i: int| 0 <= i < g.len() && (#[trigger] g[i]).identity@ == d;
                if i < f.len() {
                    assert(f[i].identity@ == d);
                    assert(has_identity(f, d));
                }
            }
            assert forall|i: int| 0 <= i < s.len() && keep(#[trigger] s[i]) implies has_identity(
                g,
                s[i].identity@,
            ) by {
                if i < t.len() {
                    assert(t[i] == s[i]);
                    let k = choose|k: int|
                        0 <= k < f.len() && (#[trigger] f[k]).identity@ == s[i].identity@;
                    assert(g[k].identity@ == s[i].identity@);
                }
            }
            if identities_distinct(s) {
                assert forall|i: int, j: int|
                    0 <= i < g.len() && 0 <= j < g.len() && (#[trigger] g[i]).identity@ == (
                    #[trigger] g[j]).identity@ implies i == j by {
                    if i < f.len() && j < f.len() {
                        assert(f[i].identity@ == f[j].identity@);
                    } else if i < f.len() {
                        assert(f[i].identity@ == s.last().identity@);
                        assert(has_identity(f, s.last().identity@));
                        let k = choose|k: int|
                            0 <= k < t.len() && (#[trigger] t[k]).identity@ == s.last().identity@;
                        assert(s[k].identity@ == s[s.len() - 1].identity@);
                    } else if j < f.len() {
                        assert(f[j].identity@ == s.last().identity@);
                        assert(has_identity(f, s.last().identity@));
                        let k = choose|k: int|
                            0 <= k < t.len() && (#[trigger] t[k]).identity@ == s.last().identity@;
                        assert(s[k].identity@ == s[s.len() - 1].identity@);
                    }
                }
            }
        } else {
            assert(g == f);
            assert forall|i: int| 0 <= i < s.len() && keep(#[trigger] s[i]) implies has_identity(
                g,
                s[i].identity@,
            ) by {
                assert(t[i] == s[i]);
            }
        }
    }
}

impl RouterMap {
    /// The peers, in the order in which they came.
    pub closed spec fn list(self) -> Seq<RouterPeer> {
        self.peers@
    }

    /// No two peers have one identity.
    pub open spec fn wf(self) -> bool {
        identities_distinct(self.list())
    }

    /// The URI of the peer with the identity, where there is one.
    pub open spec fn uri_of(self, identity: Seq<u8>) -> Option<Seq<char>> {
        if has_identity(self.list(), identity) {
            Some(
                self.list()[choose|i: int|
                    0 <= i < self.list().len() && (#[trigger] self.list()[i]).identity@
                        == identity].uri@,
            )
        } else {
            None
        }
    }

    pub fn new() -> (m: RouterMap)
        ensures
            m.wf(),
            m.list() == Seq::<RouterPeer>::empty(),
    {
        RouterMap { peers: Vec::new() }
    }

    /// The URI of the peer with the identity.
    pub fn get_peer_uri_for_identity(&self, identity: &Vec<u8>) -> (r: Option<String>)
        requires
            self.wf(),
        ensures
            match r {
                Some(u) => self.uri_of(identity@) == Some(u@),
                None => self.uri_of(identity@) is None,
            },
    {
        let mut i: usize = 0;
        while i < self.peers.len()
            invariant
                i <= self.peers@.len(),
                self.wf(),
                forall|j: int| 0 <= j < i ==> (#[trigger] self.peers@[j]).identity@ != identity@,
            decreases self.peers@.len() - i,
        {
            if same_bytes(&self.peers[i].identity, identity) {
                return Some(self.peers[i].uri.clone());
            }
            i += 1;
        }
        None
    }

    /// Forgets the peer with the identity.
    pub fn remove_peer_by_identity(&mut self, identity: &Vec<u8>)
        requires
            old(self).wf(),
        ensures
            final(self).wf(),
            final(self).list() == without_identity(old(self).list(), identity@),
            !has_identity(final(self).list(), identity@),
    {
        let ghost all = self.peers@;
        let ghost keep = |p: RouterPeer| p.identity@ != identity@;
        let mut kept: Vec<RouterPeer> = Vec::new();
        let mut rest: Vec<RouterPeer> = Vec::new();
        std::mem::swap(&mut rest, &mut self.peers);
        let mut n: Ghost<int> = Ghost(0);
        assert(all.take(0).filter(keep) =~= Seq::empty()) by {
            reveal(Seq::filter);
        }
        while rest.len() > 0
            invariant
                0 <= n@ <= all.len(),
                rest@ == all.skip(n@),
                keep == (|p: RouterPeer| p.identity@ != identity@),
                kept@ == all.take(n@).filter(keep),
            decreases rest@.len(),
        {
            let peer = rest.remove(0);
            proof {
                lemma_filter_step(all, keep, n@);
                assert(peer == all[n@]);
            }
            if !same_bytes(&peer.identity, identity) {
                kept.push(peer);
            }
            proof {
                n@ = n@ + 1;
            }
        }
        proof {
            assert(all.take(n@) =~= all);
            lemma_filter_members(all, keep);
        }
        self.peers = kept;
    }

    /// Forgets the peers of a pipe.
    pub fn remove_peer_by_read_pipe(&mut self, pipe_read_id: usize)
        requires
            old(self).wf(),
        ensures
            final(self).wf(),
            final(self).list() == without_pipe(old(self).list(), pipe_read_id),
    {
        let ghost all = self.peers@;
        let ghost keep = |p: RouterPeer| p.pipe_read_id != pipe_read_id;
        let mut kept: Vec<RouterPeer> = Vec::new();
        let mut rest: Vec<RouterPeer> = Vec::new();
        std::mem::swap(&mut rest, &mut self.peers);
        let mut n: Ghost<int> = Ghost(0);
        assert(all.take(0).filter(keep) =~= Seq::empty()) by {
            reveal(Seq::filter);
        }
        while rest.len() > 0
            invariant
                0 <= n@ <= all.len(),
                rest@ == all.skip(n@),
                keep == (|p: RouterPeer| p.pipe_read_id != pipe_read_id),
                kept@ == all.take(n@).filter(keep),
            decreases rest@.len(),
        {
            let peer = rest.remove(0);
            proof {
                lemma_filter_step(all, keep, n@);
                assert(peer == all[n@]);
            }
            if peer.pipe_read_id != pipe_read_id {
                kept.push(peer);
            }
            proof {
                n@ = n@ + 1;
            }
        }
        proof {
            assert(all.take(n@) =~= all);
            lemma_filter_members(all, keep);
        }
        self.peers = kept;
    }

    /// Enters a peer. A peer that had the identity before is forgotten.
    pub fn add_peer(&mut self, identity: Vec<u8>, pipe_read_id: usize, uri: String)
        requires
            old(self).wf(),
        ensures
            final(self).wf(),
            final(self).list() == without_identity(old(self).list(), identity@).push(
                RouterPeer { identity, pipe_read_id, uri, peer_socket_type: None },
            ),
            final(self).uri_of(identity@) == Some(uri@),
    {
        self.remove_peer_by_identity(&identity);
        let ghost before = self.peers@;
        let ghost id = identity@;
        self.peers.push(RouterPeer { identity, pipe_read_id, uri, peer_socket_type: None });
        proof {
            lemma_pushed_distinct(before, self.peers@.last());
            assert(self.peers@[before.len() as int].identity@ == id);
        }
    }

    /// Enters the identity of a pipe's peer in place of the one that it had.
    pub fn update_peer_identity(
        &mut self,
        pipe_read_id: usize,
        identity: Vec<u8>,
        uri: String,
        peer_socket_type: Option<String>,
    )
        requires
            old(self).wf(),
        ensures
            final(self).wf(),
            final(self).list() == without_identity(
                without_pipe(old(self).list(), pipe_read_id),
                identity@,
            ).push(RouterPeer { identity, pipe_read_id, uri, peer_socket_type }),
            final(self).uri_of(identity@) == Some(uri@),
    {
        self.remove_peer_by_read_pipe(pipe_read_id);
        self.remove_peer_by_identity(&identity);
        let ghost before = self.peers@;
        let ghost id = identity@;
        self.peers.push(RouterPeer { identity, pipe_read_id, uri, peer_socket_type });
        proof {
            lemma_pushed_distinct(before, self.peers@.last());
            assert(self.peers@[before.len() as int].identity@ == id);
        }
    }
}

proof fn lemma_pushed_distinct(before: Seq<RouterPeer>, peer: RouterPeer)
    requires
        identities_distinct(before),
        !has_identity(before, peer.identity@),
    ensures
        identities_distinct(before.push(peer)),
{
    let v = before.push(peer);
    assert forall|i: int, j: int|
        0 <= i < v.len() && 0 <= j < v.len() && (#[trigger] v[i]).identity@ == (#[trigger] v[j]).identity@ implies i
        == j by {
        if i < before.len() && j < before.len() {
            assert(before[i].identity@ == before[j].identity@);
        } else if i < before.len() {
            assert(before[i].identity@ == peer.identity@);
        } else if j < before.len() {
            assert(before[j].identity@ == peer.identity@);
        }
    }
}

/// Once a pipe's peer has been given an identity, no other peer has that identity, and the
/// pipe has no other.
pub proof fn identity_and_pipe_are_one(before: Seq<RouterPeer>, peer: RouterPeer, i: int)
    requires
        0 <= i < without_identity(without_pipe(before, peer.pipe_read_id), peer.identity@).len(),
    ensures
        ({
            let other = without_identity(
                without_pipe(before, peer.pipe_read_id),
                peer.identity@,
            )[i];
            other.pipe_read_id != peer.pipe_read_id && other.identity@ != peer.identity@
        }),
{
    let of_pipe = |p: RouterPeer| p.pipe_read_id != peer.pipe_read_id;
    let of_identity = |p: RouterPeer| p.identity@ != peer.identity@;
    let kept = without_pipe(before, peer.pipe_read_id);
    let rest = without_identity(kept, peer.identity@);
    lemma_filter_members(before, of_pipe);
    lemma_filter_members(kept, of_identity);
    assert(of_identity(rest[i]));
    kept.lemma_filter_contains_rev(of_identity, rest[i]);
    let j = choose|j: int| 0 <= j < kept.len() && kept[j] == rest[i];
    assert(of_pipe(kept[j]));
}

// ---------------------------------------------------------------------------
// Laws
// ---------------------------------------------------------------------------
/// The URI found for an identity is that of the listed peer with that very identity, and none
/// is found exactly where no such peer is listed.
pub proof fn peer_is_found_by_its_identity(m: &RouterMap, identity: &Vec<u8>, r: Option<String>, i: int)
    requires
        m.wf(),
        call_ensures(RouterMap::get_peer_uri_for_identity, (m, identity), r),
    ensures
        0 <= i < m.list().len() && m.list()[i].identity@ == identity@ ==> (r matches Some(u) && u@
            == m.list()[i].uri@),
        (forall|j: int| 0 <= j < m.list().len() ==> (#[trigger] m.list()[j]).identity@ != identity@)
            ==> r is None,
{
    if 0 <= i < m.list().len() && m.list()[i].identity@ == identity@ {
        let k = choose|k: int|
            0 <= k < m.list().len() && (#[trigger] m.list()[k]).identity@ == identity@;
        assert(m.list()[k].identity@ == m.list()[i].identity@);
    }
}

/// Every listed peer is found by its identity.
pub proof fn listed_peer_is_found(m: RouterMap, i: int)
    requires
        m.wf(),
        0 <= i < m.list().len(),
    ensures
        m.uri_of(m.list()[i].identity@) == Some(m.list()[i].uri@),
{
    let id = m.list()[i].identity@;
    let k = choose|k: int| 0 <= k < m.list().len() && (#[trigger] m.list()[k]).identity@ == id;
    assert(m.list()[k].identity@ == m.list()[i].identity@);
}

proof fn lemma_kept(before: RouterMap, after: RouterMap, keep: spec_fn(RouterPeer) -> bool, i: int)
    requires
        before.wf(),
        after.wf(),
        0 <= i < before.list().len(),
        keep(before.list()[i]),
        exists|j: int|
            0 <= j < after.list().len() && #[trigger] after.list()[j] == before.list()[i],
    ensures
        after.uri_of(before.list()[i].identity@) == Some(before.list()[i].uri@),
{
    let j = choose|j: int|
        0 <= j < after.list().len() && #[trigger] after.list()[j] == before.list()[i];
    listed_peer_is_found(after, j);
}

/// A peer that is entered can be sent to by its identity, wherever a peer of that identity was
/// before, and every other peer can be sent to as before.
pub proof fn entered_peer_is_found(
    m: &mut RouterMap,
    identity: Vec<u8>,
    pipe: usize,
    uri: String,
    i: int,
)
    requires
        old(m).wf(),
        call_ensures(RouterMap::add_peer, (m, identity, pipe, uri), ()),
    ensures
        final(m).uri_of(identity@) == Some(uri@),
        0 <= i < old(m).list().len() && old(m).list()[i].identity@ != identity@ ==> final(m).uri_of(
            old(m).list()[i].identity@,
        ) == Some(old(m).list()[i].uri@),
        final(m).list().last().pipe_read_id == pipe,
{
    let keep = |p: RouterPeer| p.identity@ != identity@;
    let rest = old(m).list().filter(keep);
    if 0 <= i < old(m).list().len() && old(m).list()[i].identity@ != identity@ {
        old(m).list().lemma_filter_contains(keep, i);
        let j = choose|j: int| 0 <= j < rest.len() && rest[j] == old(m).list()[i];
        assert(final(m).list()[j] == old(m).list()[i]);
        lemma_kept(*old(m), *final(m), keep, i);
    }
}

/// A peer whose identity becomes known is found by it and no longer by the one that it had;
/// peers of other pipes and identities are found as before.
pub proof fn identity_replaces_the_one_before(
    m: &mut RouterMap,
    pipe: usize,
    identity: Vec<u8>,
    uri: String,
    peer_type: Option<String>,
    i: int,
)
    requires
        old(m).wf(),
        call_ensures(RouterMap::update_peer_identity, (m, pipe, identity, uri, peer_type), ()),
        0 <= i < old(m).list().len(),
    ensures
        final(m).uri_of(identity@) == Some(uri@),
        final(m).list().last().peer_socket_type == peer_type && final(m).list().last().pipe_read_id
            == pipe,
        old(m).list()[i].identity@ != identity@ && old(m).list()[i].pipe_read_id != pipe ==> final(m).uri_of(old(m).list()[i].identity@) == Some(old(m).list()[i].uri@),
        old(m).list()[i].identity@ != identity@ && old(m).list()[i].pipe_read_id == pipe ==> final(m).uri_of(old(m).list()[i].identity@) is None,
{
    let of_pipe = |p: RouterPeer| p.pipe_read_id != pipe;
    let of_identity = |p: RouterPeer| p.identity@ != identity@;
    let all = old(m).list();
    let kept = all.filter(of_pipe);
    let rest = kept.filter(of_identity);
    let after = final(m).list();
    if all[i].identity@ != identity@ && all[i].pipe_read_id != pipe {
        all.lemma_filter_contains(of_pipe, i);
        let j = choose|j: int| 0 <= j < kept.len() && kept[j] == all[i];
        kept.lemma_filter_contains(of_identity, j);
        let k = choose|k: int| 0 <= k < rest.len() && rest[k] == all[i];
        assert(after[k] == all[i]);
        lemma_kept(*old(m), *final(m), of_pipe, i);
    }
    if all[i].identity@ != identity@ && all[i].pipe_read_id == pipe && has_identity(
        after,
        all[i].identity@,
    ) {
        let k = choose|k: int| 0 <= k < after.len() && (#[trigger] after[k]).identity@ == all[i].identity@;
        assert(k < rest.len());
        kept.lemma_filter_contains_rev(of_identity, rest[k]);
        let j = choose|j: int| 0 <= j < kept.len() && kept[j] == rest[k];
        all.lemma_filter_contains_rev(of_pipe, kept[j]);
        let a = choose|a: int| 0 <= a < all.len() && all[a] == kept[j];
        assert(all[a].identity@ == all[i].identity@);
        lemma_filter_members(all, of_pipe);
        assert(of_pipe(kept[j]));
    }
}

/// The peers of a pipe that goes are not found any more, and all others are.
pub proof fn gone_pipe_is_not_routed_to(m: &mut RouterMap, pipe: usize, i: int)
    requires
        old(m).wf(),
        call_ensures(RouterMap::remove_peer_by_read_pipe, (m, pipe), ()),
        0 <= i < old(m).list().len(),
    ensures
        old(m).list()[i].pipe_read_id != pipe ==> final(m).uri_of(old(m).list()[i].identity@)
            == Some(old(m).list()[i].uri@),
        old(m).list()[i].pipe_read_id == pipe ==> final(m).uri_of(
            old(m).list()[i].identity@,
        ) is None,
{
    let keep = |p: RouterPeer| p.pipe_read_id != pipe;
    let all = old(m).list();
    let after = final(m).list();
    if keep(all[i]) {
        all.lemma_filter_contains(keep, i);
        let j = choose|j: int| 0 <= j < after.len() && after[j] == all[i];
        lemma_kept(*old(m), *final(m), keep, i);
    } else if has_identity(after, all[i].identity@) {
        let k = choose|k: int| 0 <= k < after.len() && (#[trigger] after[k]).identity@ == all[i].identity@;
        all.lemma_filter_contains_rev(keep, after[k]);
        let a = choose|a: int| 0 <= a < all.len() && all[a] == after[k];
        assert(all[a].identity@ == all[i].identity@);
        lemma_filter_members(all, keep);
        assert(keep(after[k]));
    }
}

/// A peer that is forgotten by its identity is not found any more, and all others are.
pub proof fn forgotten_peer_is_not_found(m: &mut RouterMap, identity: &Vec<u8>, i: int, fresh: RouterMap)
    requires
        old(m).wf(),
        call_ensures(RouterMap::remove_peer_by_identity, (m, identity), ()),
        call_ensures(RouterMap::new, (), fresh),
    ensures
        final(m).uri_of(identity@) is None,
        0 <= i < old(m).list().len() && old(m).list()[i].identity@ != identity@ ==> final(m).uri_of(
            old(m).list()[i].identity@,
        ) == Some(old(m).list()[i].uri@),
        fresh.list().len() == 0,
{
    let keep = |p: RouterPeer| p.identity@ != identity@;
    if 0 <= i < old(m).list().len() && old(m).list()[i].identity@ != identity@ {
        old(m).list().lemma_filter_contains(keep, i);
        let j = choose|j: int|
            0 <= j < final(m).list().len() && final(m).list()[j] == old(m).list()[i];
        lemma_kept(*old(m), *final(m), keep, i);
    }
}

} // verus!
