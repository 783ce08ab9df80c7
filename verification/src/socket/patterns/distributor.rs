use vstd::prelude::*;

use crate::error::ZmqError;
use crate::socket::patterns::load_balancer;
use crate::socket::patterns::load_balancer::find_text;
use crate::socket::socket_core::state::{ConnectionRef, CoreState};

verus! {

/// The peers that every message goes to.
#[derive(Debug)]
pub struct Distributor {
    peer_uris: Vec<String>,
}

/// A message on its way to every peer.
#[derive(Debug)]
pub struct Distribution {
    uris: Vec<String>,
    next: usize,
    failed: Vec<(String, ZmqError)>,
}

/// The next step of a distribution.
#[derive(Debug)]
pub enum DistributionStep {
    /// Send the message to the connection and hand the outcome to `peer_sent`.
    Send(ConnectionRef),
    /// The message has gone to every peer; `finish` says how.
    Done,
}

/// Whether a failed send says that a peer is gone. A peer that is merely too slow misses
/// the message.
pub open spec fn counts_as_failure(e: ZmqError) -> bool {
    !(e is ResourceLimitReached || e is Timeout)
}

impl Distributor {
    /// The peers, in the order in which they came.
    pub closed spec fn uris(self) -> Seq<String> {
        self.peer_uris@
    }

    /// No peer is listed twice.
    pub open spec fn wf(self) -> bool {
        load_balancer::texts_distinct(self.uris())
    }

    /// The peers as a set.
    pub open spec fn peers(self) -> Set<Seq<char>> {
        Set::new(|t: Seq<char>| load_balancer::has_text(self.uris(), t))
    }

    pub fn new() -> (d: Distributor)
        ensures
            d.wf(),
            d.uris() == Seq::<String>::empty(),
            d.peers() == Set::<Seq<char>>::empty(),
    {
        let d = Distributor { peer_uris: Vec::new() };
        assert(d.peers() =~= Set::<Seq<char>>::empty());
        d
    }

    /// Adds a peer, unless it is listed.
    pub fn add_peer_uri(&mut self, endpoint_uri: String)
        requires
            old(self).wf(),
        ensures
            final(self).wf(),
            final(self).peers() == old(self).peers().insert(endpoint_uri@),
    {
        let ghost before = self.peer_uris@;
        if find_text(&self.peer_uris, endpoint_uri.as_str()).is_none() {
            self.peer_uris.push(endpoint_uri);
            proof {
                load_balancer::lemma_push_distinct(before, endpoint_uri);
                let v = self.peer_uris@;
                assert forall|t: Seq<char>| load_balancer::has_text(v, t) <==> (
                load_balancer::has_text(before, t) || t == endpoint_uri@) by {
                    if load_balancer::has_text(before, t) {
                        let i = choose|i: int| 0 <= i < before.len() && (#[trigger] before[i])@ == t;
                        assert(v[i]@ == t);
                    }
                    if t == endpoint_uri@ {
                        assert(v[before.len() as int]@ == t);
                    }
                    if load_balancer::has_text(v, t) && t != endpoint_uri@ {
                        let i = choose|i: int| 0 <= i < v.len() && (#[trigger] v[i])@ == t;
                        assert(before[i]@ == t);
                    }
                }
            }
        }
        assert(self.peers() =~= old(self).peers().insert(endpoint_uri@));
    }

    /// Takes a peer out.
    pub fn remove_peer_uri(&mut self, endpoint_uri: &str)
        requires
            old(self).wf(),
        ensures
            final(self).wf(),
            final(self).peers() == old(self).peers().remove(endpoint_uri@),
    {
        let ghost before = self.peer_uris@;
        if let Some(i) = find_text(&self.peer_uris, endpoint_uri) {
            let _ = self.peer_uris.remove(i);
            proof {
                let v = self.peer_uris@;
                load_balancer::lemma_remove_distinct(before, i as int);
                assert forall|t: Seq<char>| load_balancer::has_text(v, t) <==> (
                load_balancer::has_text(before, t) && t != endpoint_uri@) by {
                    if load_balancer::has_text(v, t) {
                        let a = choose|a: int| 0 <= a < v.len() && (#[trigger] v[a])@ == t;
                        let a2 = if a < i { a } else { a + 1 };
                        assert(before[a2]@ == t);
                    }
                    if load_balancer::has_text(before, t) && t != endpoint_uri@ {
                        let a = choose|a: int| 0 <= a < before.len() && (#[trigger] before[a])@ == t;
                        let a2 = if a < i { a } else { a - 1 };
                        assert(v[a2]@ == t);
                    }
                }
            }
        }
        assert(self.peers() =~= old(self).peers().remove(endpoint_uri@));
    }

    /// The peers as they are now.
    pub fn get_peer_uris(&self) -> (r: Vec<String>)
        ensures
            r@ == self.uris(),
    {
        let mut r: Vec<String> = Vec::new();
        let mut i: usize = 0;
        while i < self.peer_uris.len()
            invariant
                i <= self.peer_uris@.len(),
                r@ == self.peer_uris@.take(i as int),
            decreases self.peer_uris@.len() - i,
        {
            r.push(self.peer_uris[i].clone());
            i += 1;
        }
        assert(r@ =~= self.peer_uris@);
        r
    }

    /// Starts to send a frame to every peer that there is now.
    pub fn send_to_all(&self) -> (d: Distribution)
        ensures
            d.wf(),
            d.targets() == self.uris(),
            d.position() == 0,
            d.failures() == Seq::<(String, ZmqError)>::empty(),
    {
        Distribution { uris: self.get_peer_uris(), next: 0, failed: Vec::new() }
    }

    /// Starts to send a message of `frames` frames to every peer that there is now. A
    /// message without frames goes to none.
    pub fn send_to_all_multipart(&self, frames: usize) -> (d: Distribution)
        ensures
            d.wf(),
            d.targets() == if frames == 0 {
                Seq::empty()
            } else {
                self.uris()
            },
            d.position() == 0,
            d.failures() == Seq::<(String, ZmqError)>::empty(),
    {
        Distribution {
            uris: if frames == 0 {
                Vec::new()
            } else {
                self.get_peer_uris()
            },
            next: 0,
            failed: Vec::new(),
        }
    }
}

/// What the failures are after the peers from `from` up to `to` were found to have no
/// connection.
pub open spec fn stale_failures(
    failed: Seq<(String, ZmqError)>,
    uris: Seq<String>,
    from: int,
    to: int,
    message: Seq<char>,
    after: Seq<(String, ZmqError)>,
) -> bool {
    &&& after.len() == failed.len() + (to - from)
    &&& forall|i: int| 0 <= i < failed.len() ==> #[trigger] after[i] == failed[i]
    &&& forall|i: int|
        failed.len() <= i < after.len() ==> (#[trigger] after[i]).0 == uris[from + i - failed.len()]
            && (after[i].1 matches ZmqError::Internal(m) && m@ == message)
}

impl Distribution {
    /// The peers that the message goes to.
    pub closed spec fn targets(self) -> Seq<String> {
        self.uris@
    }

    /// How many of them have been dealt with.
    pub closed spec fn position(self) -> int {
        self.next as int
    }

    /// The peers that could not be reached, with the reason.
    pub closed spec fn failures(self) -> Seq<(String, ZmqError)> {
        self.failed@
    }

    pub open spec fn wf(self) -> bool {
        0 <= self.position() <= self.targets().len()
    }

    /// Goes on to the next peer that has a connection. Those without one count as failed,
    /// with `stale` for the reason.
    pub fn next_peer(&mut self, core: &CoreState, stale: &str) -> (r: DistributionStep)
        requires
            old(self).wf(),
        ensures
            final(self).wf(),
            final(self).targets() == old(self).targets(),
            old(self).position() <= final(self).position(),
            forall|i: int|
                old(self).position() <= i < final(self).position()
                    ==> !core.endpoints@.dom().contains(#[trigger] old(self).targets()[i]@),
            stale_failures(
                old(self).failures(),
                old(self).targets(),
                old(self).position(),
                final(self).position(),
                stale@,
                final(self).failures(),
            ),
            match r {
                DistributionStep::Send(c) => final(self).position() < final(self).targets().len()
                    && core.endpoints@.dom().contains(
                    final(self).targets()[final(self).position()]@,
                ) && c == core.endpoints@[final(self).targets()[final(self).position()]@].connection,
                DistributionStep::Done => final(self).position() == final(self).targets().len(),
            },
    {
        while self.next < self.uris.len()
            invariant
                self.wf(),
                old(self).wf(),
                self.targets() == old(self).targets(),
                old(self).position() <= self.position(),
                forall|i: int|
                    old(self).position() <= i < self.position()
                        ==> !core.endpoints@.dom().contains(#[trigger] old(self).targets()[i]@),
                stale_failures(
                    old(self).failures(),
                    old(self).targets(),
                    old(self).position(),
                    self.position(),
                    stale@,
                    self.failures(),
                ),
            decreases self.targets().len() - self.position(),
        {
            match core.connection_of(self.uris[self.next].as_str()) {
                Some(c) => {
                    return DistributionStep::Send(c);
                },
                None => {
                    self.failed.push(
                        (self.uris[self.next].clone(), ZmqError::Internal(stale.to_owned())),
                    );
                    self.next += 1;
                },
            }
        }
        DistributionStep::Done
    }

    /// Notes the outcome of the send to the peer that `next_peer` gave.
    pub fn peer_sent(&mut self, result: Result<(), ZmqError>)
        requires
            old(self).wf(),
            old(self).position() < old(self).targets().len(),
        ensures
            final(self).wf(),
            final(self).targets() == old(self).targets(),
            final(self).position() == old(self).position() + 1,
            final(self).failures() == match result {
                Err(e) if counts_as_failure(e) => old(self).failures().push(
                    (old(self).targets()[old(self).position()], e),
                ),
                _ => old(self).failures(),
            },
    {
        if let Err(e) = result {
            match e {
                ZmqError::ResourceLimitReached => {},
                ZmqError::Timeout => {},
                other => {
                    self.failed.push((self.uris[self.next].clone(), other));
                },
            }
        }
        assert(self.next < self.uris.len());
        self.next += 1;
    }

    /// The peers that could not be reached, with the reason, if there are any.
    pub fn finish(self) -> (r: Result<(), Vec<(String, ZmqError)>>)
        ensures
            match r {
                Ok(()) => self.failures().len() == 0,
                Err(f) => self.failures().len() > 0 && f@ == self.failures(),
            },
    {
        if self.failed.len() == 0 {
            Ok(())
        } else {
            Err(self.failed)
        }
    }
}

/// Taking a peer out undoes adding it, where it was not listed.
pub proof fn removing_undoes_adding(
    before: Distributor,
    added: Distributor,
    removed: Distributor,
    uri: Seq<char>,
)
    requires
        !before.peers().contains(uri),
        added.peers() == before.peers().insert(uri),
        removed.peers() == added.peers().remove(uri),
    ensures
        removed.peers() == before.peers(),
{
    assert(removed.peers() =~= before.peers());
}

/// Every peer that is listed, and nobody else, is sent the message; a message without frames
/// goes to nobody.
pub proof fn everybody_is_sent_to(
    d: &Distributor,
    single: Distribution,
    frames: usize,
    whole: Distribution,
    now: Vec<String>,
)
    requires
        call_ensures(Distributor::send_to_all, (d,), single),
        call_ensures(Distributor::send_to_all_multipart, (d, frames), whole),
        call_ensures(Distributor::get_peer_uris, (d,), now),
    ensures
        single.targets() == d.uris() && single.position() == 0 && single.failures().len() == 0,
        frames > 0 ==> whole.targets() == d.uris(),
        frames == 0 ==> whole.targets().len() == 0,
        whole.position() == 0 && whole.failures().len() == 0,
        now@ == d.uris(),
{
}

/// A peer is listed from when it comes until it goes, and others come and go without it.
pub proof fn peers_are_those_that_came(
    coming: &mut Distributor,
    uri: String,
    going: &mut Distributor,
    gone: &str,
    other: Seq<char>,
)
    requires
        call_ensures(Distributor::add_peer_uri, (coming, uri), ()),
        call_ensures(Distributor::remove_peer_uri, (going, gone), ()),
    ensures
        exists|i: int|
            0 <= i < final(coming).uris().len() && (#[trigger] final(coming).uris()[i])@ == uri@,
        forall|i: int|
            0 <= i < final(going).uris().len() ==> (#[trigger] final(going).uris()[i])@ != gone@,
        other != uri@ ==> (load_balancer::has_text(final(coming).uris(), other)
            <==> load_balancer::has_text(old(coming).uris(), other)),
        other != gone@ ==> (load_balancer::has_text(final(going).uris(), other)
            <==> load_balancer::has_text(old(going).uris(), other)),
{
    assert(final(coming).peers().contains(uri@));
    assert(!final(going).peers().contains(gone@));
    assert(final(coming).peers().contains(other) <==> load_balancer::has_text(
        final(coming).uris(),
        other,
    ));
    assert(old(coming).peers().contains(other) <==> load_balancer::has_text(
        old(coming).uris(),
        other,
    ));
    assert(final(going).peers().contains(other) <==> load_balancer::has_text(
        final(going).uris(),
        other,
    ));
    assert(old(going).peers().contains(other) <==> load_balancer::has_text(
        old(going).uris(),
        other,
    ));
}

/// Nobody who has a connection is passed over: the next peer is the first one left that has
/// one, and the message is through exactly where none is left. Those without count as failed,
/// each once.
pub proof fn no_connected_peer_is_passed_over(
    d: &mut Distribution,
    core: &CoreState,
    stale: &str,
    r: DistributionStep,
)
    requires
        old(d).wf(),
        call_ensures(Distribution::next_peer, (d, core, stale), r),
    ensures
        final(d).targets() == old(d).targets(),
        forall|i: int|
            old(d).position() <= i < old(d).targets().len() && core.endpoints@.dom().contains(
                (#[trigger] old(d).targets()[i])@,
            ) ==> final(d).position() <= i,
        r is Done <==> forall|i: int|
            old(d).position() <= i < old(d).targets().len() ==> !core.endpoints@.dom().contains(
                (#[trigger] old(d).targets()[i])@,
            ),
        r matches DistributionStep::Send(c) ==> c == core.endpoints@[old(d).targets()[final(d).position()]@].connection,
        final(d).failures().len() == old(d).failures().len() + final(d).position() - old(d).position(),
        forall|i: int|
            0 <= i < final(d).position() - old(d).position() ==> (
            #[trigger] final(d).failures()[i + old(d).failures().len()]).0 == old(d).targets()[old(d).position() + i],
{
    assert forall|i: int| 0 <= i < final(d).position() - old(d).position() implies (
    #[trigger] final(d).failures()[i + old(d).failures().len()]).0 == old(d).targets()[old(d).position() + i] by {
        let k = i + old(d).failures().len();
        assert(final(d).failures()[k].0 == old(d).targets()[old(d).position() + k - old(d).failures().len()]);
    }
    if r is Send {
        assert(core.endpoints@.dom().contains(old(d).targets()[final(d).position()]@));
    }
}

/// A peer that is merely slow is kept; any other failure is held against the peer that was
/// sent to. Either way the next peer's turn comes.
pub proof fn only_slowness_is_forgiven(d: &mut Distribution, result: Result<(), ZmqError>)
    requires
        call_ensures(Distribution::peer_sent, (d, result), ()),
    ensures
        final(d).position() == old(d).position() + 1,
        final(d).targets() == old(d).targets(),
        result is Ok ==> final(d).failures() == old(d).failures(),
        result matches Err(e) ==> (e is ResourceLimitReached || e is Timeout ==> final(d).failures() == old(d).failures()),
        result matches Err(e) ==> (!(e is ResourceLimitReached) && !(e is Timeout) ==> final(d).failures() == old(d).failures().push((old(d).targets()[old(d).position()], e))),
{
}

/// A distribution succeeds exactly where nobody failed, and otherwise names all who did.
pub proof fn all_failures_are_named(d: Distribution, r: Result<(), Vec<(String, ZmqError)>>)
    requires
        call_ensures(Distribution::finish, (d,), r),
    ensures
        r is Ok <==> d.failures().len() == 0,
        r matches Err(f) ==> f@ == d.failures(),
{
}

} // verus!
