use vstd::prelude::*;

use fibre::mpmc::AsyncSender;

use crate::error::ZmqError;
use crate::id_map::IdMap;
use crate::message::Msg;
use crate::socket::socket_core::pipe_manager;
use crate::socket::socket_core::pipe_manager::{cleanup_stopped_child_resources, StoppedChild};
use crate::socket::socket_core::state;
use crate::socket::socket_core::state::{
    ConnectionRef, CoreState, EndpointInfo, EndpointType, ReconnectState, ShutdownCoordinator,
    ShutdownPhase,
};
use crate::text;
use crate::text::strip_prefix;
use crate::time;
use crate::time::{Duration, Instant};
use crate::uri_map::UriMap;

verus! {

/// What an actor does for a socket.
#[derive(Debug, Clone, Copy, PartialEq, Eq, Structural)]
pub enum ActorType {
    SocketCore,
    Listener,
    Connecter,
    Session,
    PipeReader,
}

// ---------------------------------------------------------------------------
// What a shutdown waits for
// ---------------------------------------------------------------------------
/// The listeners with a task of the core's, by handle. Of two with one handle the later
/// listed counts.
pub open spec fn listeners_of(listed: Seq<(String, EndpointInfo)>) -> Map<usize, String>
    decreases listed.len(),
{
    if listed.len() == 0 {
        Map::empty()
    } else {
        let rest = listeners_of(listed.drop_last());
        let (uri, info) = listed.last();
        if info.endpoint_type is Listener && info.task is Some {
            rest.insert(info.handle_id, uri)
        } else {
            rest
        }
    }
}

/// The connections, by handle. Of two with one handle the later listed counts.
pub open spec fn connections_of(listed: Seq<(String, EndpointInfo)>) -> Map<
    usize,
    (String, ConnectionRef),
>
    decreases listed.len(),
{
    if listed.len() == 0 {
        Map::empty()
    } else {
        let rest = connections_of(listed.drop_last());
        let (uri, info) = listed.last();
        if info.endpoint_type is Session {
            rest.insert(info.handle_id, (uri, info.connection))
        } else {
            rest
        }
    }
}

/// The endpoint is an in-process connection that the socket accepted.
pub open spec fn is_accepted_inproc(uri: String, info: EndpointInfo) -> bool {
    &&& info.endpoint_type is Session
    &&& text::has_prefix(uri@, "inproc://"@)
    &&& !info.is_outbound_connection
    &&& info.pipe_ids is Some
}

/// The accepted in-process connections, as write pipe, read pipe and URI.
pub open spec fn inproc_of(listed: Seq<(String, EndpointInfo)>) -> Seq<(usize, usize, String)>
    decreases listed.len(),
{
    if listed.len() == 0 {
        Seq::empty()
    } else {
        let rest = inproc_of(listed.drop_last());
        let (uri, info) = listed.last();
        if is_accepted_inproc(uri, info) {
            let p = info.pipe_ids->0;
            rest.push((p.0, p.1, uri))
        } else {
            rest
        }
    }
}

/// The first `n` listed endpoints, one more at a time.
proof fn lemma_one_more(listed: Seq<(String, EndpointInfo)>, n: int)
    requires
        0 <= n < listed.len(),
    ensures
        listed.take(n + 1).drop_last() == listed.take(n),
        listed.take(n + 1).last() == listed[n],
{
    assert(listed.take(n + 1).drop_last() =~= listed.take(n));
}

impl ShutdownCoordinator {
    /// Nothing is waited for.
    pub open spec fn nothing_pending(self) -> bool {
        &&& self.pending_child_actors@ == Map::<usize, String>::empty()
        &&& self.pending_connections_to_close@ == Map::<usize, (String, ConnectionRef)>::empty()
    }

    /// What is waited for is the same.
    pub open spec fn same_pending(self, other: ShutdownCoordinator) -> bool {
        &&& self.pending_child_actors == other.pending_child_actors
        &&& self.pending_connections_to_close == other.pending_connections_to_close
        &&& self.inproc_connections_to_cleanup == other.inproc_connections_to_cleanup
    }

    pub fn current_phase(&self) -> (p: ShutdownPhase)
        ensures
            p == self.state,
    {
        self.state
    }

    /// Whether the socket serves its users.
    pub fn is_running(&self) -> (b: bool)
        ensures
            b == (self.state is Running),
    {
        self.state == ShutdownPhase::Running
    }

    /// Lists what the shutdown of a running socket will wait for. The phase is left as it
    /// is.
    pub fn begin_shutdown_sequence(&mut self, core: &CoreState) -> (begun: bool)
        ensures
            begun == (old(self).state is Running),
            !begun ==> *final(self) == *old(self),
            begun ==> {
                &&& final(self).state == old(self).state
                &&& final(self).linger_deadline == old(self).linger_deadline
                &&& final(self).pending_child_actors@ == listeners_of(core.endpoints.listed())
                &&& final(self).pending_connections_to_close@ == connections_of(
                    core.endpoints.listed(),
                )
                &&& final(self).inproc_connections_to_cleanup@ == inproc_of(core.endpoints.listed())
            },
    {
        if self.state != ShutdownPhase::Running {
            return false;
        }
        let mut children: IdMap<String> = IdMap::new();
        let mut connections: IdMap<(String, ConnectionRef)> = IdMap::new();
        let mut inproc: Vec<(usize, usize, String)> = Vec::new();
        let ghost listed = core.endpoints.listed();
        let mut i: usize = 0;
        assert(listed.take(0) =~= Seq::empty());
        while i < core.endpoints.len()
            invariant
                i <= listed.len(),
                listed == core.endpoints.listed(),
                children@ == listeners_of(listed.take(i as int)),
                connections@ == connections_of(listed.take(i as int)),
                inproc@ == inproc_of(listed.take(i as int)),
            decreases listed.len() - i,
        {
            proof {
                lemma_one_more(listed, i as int);
            }
            let (uri, info) = core.endpoints.entry(i);
            match info.endpoint_type {
                EndpointType::Listener => {
                    if info.task.is_some() {
                        let _ = children.insert(info.handle_id, uri.clone());
                    }
                },
                EndpointType::Session => {
                    let _ = connections.insert(info.handle_id, (uri.clone(), info.connection));
                    if strip_prefix(uri.as_str(), "inproc://").is_some()
                        && !info.is_outbound_connection {
                        if let Some((write_id, read_id)) = info.pipe_ids {
                            inproc.push((write_id, read_id, uri.clone()));
                        }
                    }
                },
            }
            i += 1;
        }
        assert(listed.take(i as int) =~= listed);
        self.pending_child_actors = children;
        self.pending_connections_to_close = connections;
        self.inproc_connections_to_cleanup = inproc;
        true
    }

    /// A listener has stopped. Says whether it was the last that the shutdown waited for.
    pub fn record_child_actor_stopped(&mut self, child_actor_handle: usize) -> (last: bool)
        ensures
            final(self).state == old(self).state,
            final(self).linger_deadline == old(self).linger_deadline,
            final(self).pending_connections_to_close == old(self).pending_connections_to_close,
            final(self).inproc_connections_to_cleanup == old(self).inproc_connections_to_cleanup,
            if old(self).state is Finished || !old(self).pending_child_actors@.dom().contains(
                child_actor_handle,
            ) {
                !last && *final(self) == *old(self)
            } else {
                &&& final(self).pending_child_actors@ == old(self).pending_child_actors@.remove(
                    child_actor_handle,
                )
                &&& last == final(self).nothing_pending()
            },
    {
        if self.state == ShutdownPhase::Finished {
            return false;
        }
        if self.pending_child_actors.remove(child_actor_handle).is_some() {
            return self.pending_child_actors.len() == 0 && self.pending_connections_to_close.len()
                == 0;
        }
        false
    }

    /// A connection has closed. Says whether it was the last that the shutdown waited for.
    pub fn record_connection_closed(&mut self, connection_id: usize) -> (last: bool)
        ensures
            final(self).state == old(self).state,
            final(self).linger_deadline == old(self).linger_deadline,
            final(self).pending_child_actors == old(self).pending_child_actors,
            final(self).inproc_connections_to_cleanup == old(self).inproc_connections_to_cleanup,
            if old(self).state is Finished || !old(self).pending_connections_to_close@.dom().contains(connection_id) {
                !last && *final(self) == *old(self)
            } else {
                &&& final(self).pending_connections_to_close@ == old(self).pending_connections_to_close@.remove(connection_id)
                &&& last == final(self).nothing_pending()
            },
    {
        if self.state == ShutdownPhase::Finished {
            return false;
        }
        if self.pending_connections_to_close.remove(connection_id).is_some() {
            return self.pending_connections_to_close.len() == 0 && self.pending_child_actors.len()
                == 0;
        }
        false
    }

    /// The deadline of a lingering socket after `start_linger_if_needed`: a deadline that
    /// is set stays, unless the linger time is zero.
    pub open spec fn is_deadline(self, linger: Option<Duration>, now: Instant, d: Option<Instant>)
        -> bool {
        if self.state !is Lingering || (self.linger_deadline is Some && !(linger matches Some(l)
            && l.spec_nanos() == 0)) {
            d == self.linger_deadline
        } else {
            match linger {
                None => d is None,
                Some(l) => d matches Some(t) && t.spec_nanos() == now.spec_nanos()
                    + l.spec_nanos(),
            }
        }
    }

    /// A deadline that is to be set can be represented.
    pub open spec fn deadline_fits(self, linger: Option<Duration>, now: Instant) -> bool {
        match linger {
            Some(l) => self.linger_deadline is Some || l.spec_nanos() == 0 || now.spec_nanos()
                + l.spec_nanos() <= time::MAX_INSTANT_NANOS,
            None => true,
        }
    }

    /// Sets the time at which a lingering socket gives up.
    pub fn start_linger_if_needed(&mut self, linger_duration_option: Option<Duration>, now: Instant)
        requires
            old(self).state is Lingering ==> old(self).deadline_fits(linger_duration_option, now),
        ensures
            final(self).state == old(self).state,
            final(self).same_pending(*old(self)),
            old(self).is_deadline(linger_duration_option, now, final(self).linger_deadline),
    {
        if self.state != ShutdownPhase::Lingering {
            return;
        }
        match linger_duration_option {
            None => {},
            Some(d) => {
                if d.is_zero() {
                    self.linger_deadline = Some(now);
                } else if self.linger_deadline.is_none() {
                    self.linger_deadline = now.checked_add(d);
                }
            },
        }
    }

    /// Whether a lingering socket is done: what it had to send is sent, or its time is up.
    pub open spec fn linger_over(self, pipes_empty: bool, now: Instant) -> bool {
        self.state is Lingering && (pipes_empty || (self.linger_deadline matches Some(t)
            && now.spec_nanos() >= t.spec_nanos()))
    }

    /// Whether lingering is over, given whether all pipes are empty.
    pub fn is_linger_over(&self, pipes_empty: bool, now: Instant) -> (b: bool)
        ensures
            b == self.linger_over(pipes_empty, now),
    {
        if self.state != ShutdownPhase::Lingering {
            return false;
        }
        if pipes_empty {
            return true;
        }
        match self.linger_deadline {
            Some(t) => now.reached(t),
            None => false,
        }
    }

    /// Whether lingering is over. Each pipe is asked whether it is empty; what it answers rests
    /// with its reader.
    pub fn is_linger_expired_or_queues_empty(&self, core: &CoreState, now: Instant) -> (b: bool)
        ensures
            exists|pipes_empty: bool| #[trigger]
                emptiness_reported(core.pipes_tx.listed(), pipes_empty) && b == self.linger_over(
                    pipes_empty,
                    now,
                ),
            b ==> self.state is Lingering,
            self.linger_over(core.pipes_tx@ == Map::<usize, AsyncSender<Vec<Msg>>>::empty(), now)
                ==> b,
    {
        self.is_linger_over(all_pipes_empty(core), now)
    }
}

/// The channel was asked whether nothing waits in it, and gave this answer.
pub uninterp spec fn emptiness_answered(tx: AsyncSender<Vec<Msg>>, answer: bool) -> bool;

/// `fibre::mpmc::AsyncSender::is_empty`: the channel is asked whether nothing waits in it right
/// now. The answer rests with the reader at its other end, so nothing is stated of which it is.
#[verifier::external_body]
fn pipe_is_empty(tx: &AsyncSender<Vec<Msg>>) -> (b: bool)
    ensures
        emptiness_answered(*tx, b),
{
    tx.is_empty()
}

/// The answers of the pipes, in their order.
pub open spec fn pipes_answered(
    pipes: Seq<(usize, AsyncSender<Vec<Msg>>)>,
    reports: Seq<bool>,
) -> bool {
    &&& reports.len() == pipes.len()
    &&& forall|i: int|
        0 <= i < pipes.len() ==> emptiness_answered((#[trigger] pipes[i]).1, reports[i])
}

/// The pipes were asked, and their answers come to this: all of them are empty, or not all.
pub open spec fn emptiness_reported(
    pipes: Seq<(usize, AsyncSender<Vec<Msg>>)>,
    all_empty: bool,
) -> bool {
    exists|reports: Seq<bool>| #[trigger]
        pipes_answered(pipes, reports) && all_empty == none_waits(reports)
}

/// Every pipe was reported empty.
pub open spec fn none_waits(reports: Seq<bool>) -> bool {
    forall|i: int| 0 <= i < reports.len() ==> #[trigger] reports[i]
}

/// Whether every pipe was reported empty.
pub fn all_reported_empty(reports: &Vec<bool>) -> (b: bool)
    ensures
        b == none_waits(reports@),
{
    let mut i: usize = 0;
    while i < reports.len()
        invariant
            i <= reports@.len(),
            forall|j: int| 0 <= j < i ==> #[trigger] reports@[j],
        decreases reports@.len() - i,
    {
        if !reports[i] {
            assert(!reports@[i as int]);
            return false;
        }
        i += 1;
    }
    true
}

/// Asks each pipe that the core writes to whether it is empty, in the order in which the
/// pipes are listed.
fn report_pipes(core: &CoreState) -> (reports: Vec<bool>)
    ensures
        pipes_answered(core.pipes_tx.listed(), reports@),
{
    let mut reports: Vec<bool> = Vec::new();
    let mut i: usize = 0;
    while i < core.pipes_tx.len()
        invariant
            i <= core.pipes_tx.listed().len(),
            reports@.len() == i,
            forall|j: int|
                0 <= j < i ==> emptiness_answered(
                    (#[trigger] core.pipes_tx.listed()[j]).1,
                    reports@[j],
                ),
        decreases core.pipes_tx.listed().len() - i,
    {
        let (_, tx) = core.pipes_tx.entry(i);
        reports.push(pipe_is_empty(tx));
        i += 1;
    }
    reports
}

/// Whether nothing waits in any pipe that the core writes to: each pipe is asked once, and
/// `all_reported_empty` says what the answers come to. The answers rest with the readers.
pub fn all_pipes_empty(core: &CoreState) -> (b: bool)
    ensures
        core.pipes_tx@ == Map::<usize, AsyncSender<Vec<Msg>>>::empty() ==> b,
        emptiness_reported(core.pipes_tx.listed(), b),
{
    let n: usize = core.pipes_tx.len();
    let reports = report_pipes(core);
    assert(n == reports@.len());
    all_reported_empty(&reports)
}

// ---------------------------------------------------------------------------
// The shutdown, step by step
// ---------------------------------------------------------------------------
/// What is to be told to stop and to close at the start of a shutdown.
#[derive(Debug)]
pub struct ShutdownOrders {
    /// The handles of the listeners that are to be told to stop.
    pub stop_listeners: Vec<usize>,
    /// The connections that are to be closed: handle, URI, connection.
    pub close_connections: Vec<(usize, String, ConnectionRef)>,
}

/// The listener at `uri`, if there still is one.
pub open spec fn listener_at(core: CoreState, uri: String) -> Option<usize> {
    if core.endpoints@.dom().contains(uri@) && core.endpoints@[uri@].endpoint_type is Listener {
        Some(core.endpoints@[uri@].handle_id)
    } else {
        None
    }
}

/// The listeners that are still there of those that the shutdown waits for.
pub open spec fn listeners_to_stop(core: CoreState, pending: Seq<(usize, String)>) -> Seq<usize>
    decreases pending.len(),
{
    if pending.len() == 0 {
        Seq::empty()
    } else {
        let rest = listeners_to_stop(core, pending.drop_last());
        match listener_at(core, pending.last().1) {
            Some(h) => rest.push(h),
            None => rest,
        }
    }
}

/// The listeners that are to be told to stop.
pub fn stop_child_listener_actors(core: &CoreState, pending: &IdMap<String>) -> (r: Vec<usize>)
    ensures
        r@ == listeners_to_stop(*core, pending.listed()),
{
    let mut r: Vec<usize> = Vec::new();
    let ghost listed = pending.listed();
    let mut i: usize = 0;
    assert(listed.take(0) =~= Seq::empty());
    while i < pending.len()
        invariant
            i <= listed.len(),
            listed == pending.listed(),
            r@ == listeners_to_stop(*core, listed.take(i as int)),
        decreases listed.len() - i,
    {
        assert(listed.take(i + 1).drop_last() =~= listed.take(i as int));
        let (_, uri) = pending.entry(i);
        if let Some(info) = core.endpoints.get(uri.as_str()) {
            if info.endpoint_type == EndpointType::Listener {
                r.push(info.handle_id);
            }
        }
        i += 1;
    }
    assert(listed.take(i as int) =~= listed);
    r
}

/// The pending connections in the order in which they are listed.
pub open spec fn connection_list(listed: Seq<(usize, (String, ConnectionRef))>) -> Seq<
    (usize, String, ConnectionRef),
> {
    Seq::new(listed.len(), |i: int| (listed[i].0, listed[i].1.0, listed[i].1.1))
}

fn list_connections(pending: &IdMap<(String, ConnectionRef)>) -> (r: Vec<
    (usize, String, ConnectionRef),
>)
    ensures
        r@ == connection_list(pending.listed()),
{
    let mut r: Vec<(usize, String, ConnectionRef)> = Vec::new();
    let mut i: usize = 0;
    while i < pending.len()
        invariant
            i <= pending.listed().len(),
            r@ == connection_list(pending.listed()).take(i as int),
        decreases pending.listed().len() - i,
    {
        let (id, entry) = pending.entry(i);
        r.push((id, entry.0.clone(), entry.1));
        i += 1;
    }
    assert(r@ =~= connection_list(pending.listed()));
    r
}

/// A shutdown has begun, unless it had before: what it waits for is listed, and `r` says
/// what is to be told to stop and to close.
pub open spec fn shutdown_begun(
    before: ShutdownCoordinator,
    after: ShutdownCoordinator,
    core: CoreState,
    r: Option<ShutdownOrders>,
) -> bool {
    if before.state is Running {
        &&& r matches Some(o)
        &&& after.state is Running
        &&& after.linger_deadline == before.linger_deadline
        &&& after.pending_child_actors@ == listeners_of(core.endpoints.listed())
        &&& after.pending_connections_to_close@ == connections_of(core.endpoints.listed())
        &&& after.inproc_connections_to_cleanup@ == inproc_of(core.endpoints.listed())
        &&& o.stop_listeners@ == listeners_to_stop(core, after.pending_child_actors.listed())
        &&& o.close_connections@ == connection_list(after.pending_connections_to_close.listed())
    } else {
        r is None && after == before
    }
}

/// Starts the shutdown of a running socket: lists what it waits for and says what is to
/// be told to stop and to close. Hand the closed connections to
/// `close_active_connections`, then go on with `settle_shutdown`.
pub fn initiate_core_shutdown(coordinator: &mut ShutdownCoordinator, core: &CoreState) -> (r: Option<
    ShutdownOrders,
>)
    ensures
        final(coordinator).state.rank() >= old(coordinator).state.rank(),
        shutdown_begun(*old(coordinator), *final(coordinator), *core, r),
{
    if !coordinator.begin_shutdown_sequence(core) {
        return None;
    }
    let stop_listeners = stop_child_listener_actors(core, &coordinator.pending_child_actors);
    let close_connections = list_connections(&coordinator.pending_connections_to_close);
    Some(ShutdownOrders { stop_listeners, close_connections })
}

/// The connections left pending once the in-process ones of `closed` are done with: an
/// in-process connection has no actor that would report its end.
pub open spec fn without_inproc(
    pending: Map<usize, (String, ConnectionRef)>,
    closed: Seq<(usize, String, ConnectionRef)>,
) -> Map<usize, (String, ConnectionRef)>
    decreases closed.len(),
{
    if closed.len() == 0 {
        pending
    } else {
        let rest = without_inproc(pending, closed.drop_last());
        if text::has_prefix(closed.last().1@, "inproc://"@) {
            rest.remove(closed.last().0)
        } else {
            rest
        }
    }
}

/// Records the closing of the in-process connections among those that were told to close.
/// Where the last of what a lingering socket waited for is among them, the time at which it
/// gives up is set.
pub fn close_active_connections(
    coordinator: &mut ShutdownCoordinator,
    closed: &Vec<(usize, String, ConnectionRef)>,
    linger: Option<Duration>,
    now: Instant,
)
    requires
        old(coordinator).state is Lingering ==> old(coordinator).deadline_fits(linger, now),
    ensures
        final(coordinator).state == old(coordinator).state,
        final(coordinator).pending_child_actors == old(coordinator).pending_child_actors,
        final(coordinator).inproc_connections_to_cleanup == old(coordinator).inproc_connections_to_cleanup,
        final(coordinator).pending_connections_to_close@ == if old(coordinator).state is Finished {
            old(coordinator).pending_connections_to_close@
        } else {
            without_inproc(old(coordinator).pending_connections_to_close@, closed@)
        },
        if final(coordinator).nothing_pending() && !old(coordinator).nothing_pending() {
            old(coordinator).is_deadline(linger, now, final(coordinator).linger_deadline)
        } else {
            final(coordinator).linger_deadline == old(coordinator).linger_deadline
        },
{
    let mut i: usize = 0;
    let mut progress: bool = false;
    assert(closed@.take(0) =~= Seq::empty());
    while i < closed.len()
        invariant
            i <= closed@.len(),
            coordinator.state == old(coordinator).state,
            coordinator.linger_deadline == old(coordinator).linger_deadline,
            coordinator.pending_child_actors == old(coordinator).pending_child_actors,
            coordinator.inproc_connections_to_cleanup == old(coordinator).inproc_connections_to_cleanup,
            coordinator.pending_connections_to_close@ == if old(coordinator).state is Finished {
                old(coordinator).pending_connections_to_close@
            } else {
                without_inproc(
                    old(coordinator).pending_connections_to_close@,
                    closed@.take(i as int),
                )
            },
            old(coordinator).nothing_pending() ==> coordinator.nothing_pending(),
            progress == (coordinator.nothing_pending() && !old(coordinator).nothing_pending()),
        decreases closed@.len() - i,
    {
        assert(closed@.take(i + 1).drop_last() =~= closed@.take(i as int));
        if strip_prefix(closed[i].1.as_str(), "inproc://").is_some() {
            let ghost before = coordinator.pending_connections_to_close@;
            let id: usize = closed[i].0;
            if coordinator.record_connection_closed(id) {
                progress = true;
            }
            assert(before.dom().contains(id) ==> before != Map::<
                usize,
                (String, ConnectionRef),
            >::empty());
            assert(coordinator.state !is Finished ==> coordinator.pending_connections_to_close@
                =~= before.remove(id));
        }
        i += 1;
    }
    assert(closed@.take(i as int) =~= closed@);
    if progress {
        coordinator.start_linger_if_needed(linger, now);
    }
}

/// Goes on with a shutdown when everything has been told to stop and to close: the socket
/// lingers where nothing is pending, and waits for its children otherwise. Says whether
/// lingering is over at once; `perform_final_pipe_cleanup` then follows.
pub fn settle_shutdown(
    coordinator: &mut ShutdownCoordinator,
    linger: Option<Duration>,
    pipes_empty: bool,
    now: Instant,
) -> (clean: bool)
    requires
        old(coordinator).state is Running,
        old(coordinator).deadline_fits(linger, now),
    ensures
        final(coordinator).state.rank() >= old(coordinator).state.rank(),
        final(coordinator).same_pending(*old(coordinator)),
        if old(coordinator).nothing_pending() {
            let lingering = ShutdownCoordinator {
                state: ShutdownPhase::Lingering,
                linger_deadline: final(coordinator).linger_deadline,
                ..*old(coordinator)
            };
            &&& (ShutdownCoordinator {
                state: ShutdownPhase::Lingering,
                ..*old(coordinator)
            }).is_deadline(linger, now, final(coordinator).linger_deadline)
            &&& clean == lingering.linger_over(pipes_empty, now)
            &&& final(coordinator).state == if clean {
                ShutdownPhase::CleaningPipes
            } else {
                ShutdownPhase::Lingering
            }
        } else {
            &&& !clean
            &&& final(coordinator).state is StoppingChildren
            &&& final(coordinator).linger_deadline == old(coordinator).linger_deadline
        },
{
    if coordinator.pending_child_actors.len() == 0 && coordinator.pending_connections_to_close.len()
        == 0 {
        coordinator.state = ShutdownPhase::Lingering;
        coordinator.start_linger_if_needed(linger, now);
        if coordinator.is_linger_over(pipes_empty, now) {
            advance_to_cleaning_phase(coordinator);
            return true;
        }
        false
    } else {
        coordinator.state = ShutdownPhase::StoppingChildren;
        false
    }
}

/// Ends lingering.
pub fn advance_to_cleaning_phase(coordinator: &mut ShutdownCoordinator)
    ensures
        final(coordinator).state.rank() >= old(coordinator).state.rank(),
        final(coordinator).same_pending(*old(coordinator)),
        final(coordinator).linger_deadline == old(coordinator).linger_deadline,
        final(coordinator).state == if old(coordinator).state is Lingering {
            ShutdownPhase::CleaningPipes
        } else {
            old(coordinator).state
        },
{
    if coordinator.state == ShutdownPhase::Lingering {
        coordinator.state = ShutdownPhase::CleaningPipes;
    }
}

/// A lingering socket was looked at, with its pipes empty or not: the time at which it gives up
/// is set where there is none, and lingering ends where the socket is done.
pub open spec fn linger_advanced(
    before: ShutdownCoordinator,
    after: ShutdownCoordinator,
    linger: Option<Duration>,
    pipes_empty: bool,
    now: Instant,
    clean: bool,
) -> bool {
    &&& after.same_pending(before)
    &&& if before.state is Lingering {
        let lingering = ShutdownCoordinator { linger_deadline: after.linger_deadline, ..before };
        &&& if before.linger_deadline is None && !(linger matches Some(l) && l.spec_nanos() == 0) {
            before.is_deadline(linger, now, after.linger_deadline)
        } else {
            after.linger_deadline == before.linger_deadline
        }
        &&& clean == lingering.linger_over(pipes_empty, now)
        &&& after.state == if clean {
            ShutdownPhase::CleaningPipes
        } else {
            ShutdownPhase::Lingering
        }
    } else {
        !clean && after == before
    }
}

/// Looks whether a lingering socket is done, given whether all pipes are empty. Says
/// whether it is; `perform_final_pipe_cleanup` then follows.
pub fn advance_linger(
    coordinator: &mut ShutdownCoordinator,
    linger: Option<Duration>,
    pipes_empty: bool,
    now: Instant,
) -> (clean: bool)
    requires
        old(coordinator).state is Lingering ==> old(coordinator).deadline_fits(linger, now),
    ensures
        linger_advanced(*old(coordinator), *final(coordinator), linger, pipes_empty, now, clean),
        final(coordinator).state.rank() >= old(coordinator).state.rank(),
{
    if coordinator.state != ShutdownPhase::Lingering {
        return false;
    }
    let zero: bool = match &linger {
        Some(d) => d.is_zero(),
        None => false,
    };
    if coordinator.linger_deadline.is_none() && !zero {
        coordinator.start_linger_if_needed(linger, now);
    }
    if coordinator.is_linger_over(pipes_empty, now) {
        advance_to_cleaning_phase(coordinator);
        true
    } else {
        false
    }
}

/// Looks whether a lingering socket is done. Each pipe is asked whether it is empty; what it
/// answers rests with its reader.
pub fn check_and_advance_linger(
    coordinator: &mut ShutdownCoordinator,
    core: &CoreState,
    now: Instant,
) -> (clean: bool)
    requires
        old(coordinator).state is Lingering ==> old(coordinator).deadline_fits(
            core.options.linger,
            now,
        ),
    ensures
        exists|pipes_empty: bool|
            {
                &&& emptiness_reported(core.pipes_tx.listed(), pipes_empty)
                &&& core.pipes_tx@ == Map::<usize, AsyncSender<Vec<Msg>>>::empty() ==> pipes_empty
                &&& #[trigger] linger_advanced(
                    *old(coordinator),
                    *final(coordinator),
                    core.options.linger,
                    pipes_empty,
                    now,
                    clean,
                )
            },
        final(coordinator).state.rank() >= old(coordinator).state.rank(),
{
    let linger = core.options.linger;
    let pipes_empty: bool = all_pipes_empty(core);
    advance_linger(coordinator, linger, pipes_empty, now)
}

/// What is left to do once the tables of a socket have been emptied.
#[derive(Debug)]
pub struct FinalCleanup {
    /// The reader tasks to be stopped.
    pub abort_readers: Vec<usize>,
    /// The read pipes that the socket pattern is to be told of as detached.
    pub detached_pipes: Vec<usize>,
    /// The io_uring descriptors that are no longer the core's.
    pub unregister_fds: Vec<usize>,
    /// The connections that are still open, to be closed.
    pub close_connections: Vec<ConnectionRef>,
}

fn list_values(m: &IdMap<usize>) -> (r: Vec<usize>)
    ensures
        r@ == m.listed().map_values(|e: (usize, usize)| e.1),
{
    let mut r: Vec<usize> = Vec::new();
    let mut i: usize = 0;
    while i < m.len()
        invariant
            i <= m.listed().len(),
            r@ == m.listed().map_values(|e: (usize, usize)| e.1).take(i as int),
        decreases m.listed().len() - i,
    {
        let (_, v) = m.entry(i);
        r.push(*v);
        i += 1;
    }
    assert(r@ =~= m.listed().map_values(|e: (usize, usize)| e.1));
    r
}

fn list_keys(m: &IdMap<String>) -> (r: Vec<usize>)
    ensures
        r@ == m.listed().map_values(|e: (usize, String)| e.0),
{
    let mut r: Vec<usize> = Vec::new();
    let mut i: usize = 0;
    while i < m.len()
        invariant
            i <= m.listed().len(),
            r@ == m.listed().map_values(|e: (usize, String)| e.0).take(i as int),
        decreases m.listed().len() - i,
    {
        let (k, _) = m.entry(i);
        r.push(k);
        i += 1;
    }
    assert(r@ =~= m.listed().map_values(|e: (usize, String)| e.0));
    r
}

fn list_endpoint_connections(m: &UriMap<EndpointInfo>) -> (r: Vec<ConnectionRef>)
    ensures
        r@ == m.listed().map_values(|e: (String, EndpointInfo)| e.1.connection),
{
    let mut r: Vec<ConnectionRef> = Vec::new();
    let mut i: usize = 0;
    while i < m.len()
        invariant
            i <= m.listed().len(),
            r@ == m.listed().map_values(|e: (String, EndpointInfo)| e.1.connection).take(i as int),
        decreases m.listed().len() - i,
    {
        let (_, info) = m.entry(i);
        r.push(info.connection);
        i += 1;
    }
    assert(r@ =~= m.listed().map_values(|e: (String, EndpointInfo)| e.1.connection));
    r
}

/// Empties the socket's tables and finishes its shutdown.
pub fn perform_final_pipe_cleanup(
    coordinator: &mut ShutdownCoordinator,
    core: &mut CoreState,
) -> (r: FinalCleanup)
    ensures
        final(coordinator).state.rank() >= old(coordinator).state.rank(),
        final(coordinator).state is Finished,
        final(coordinator).same_pending(*old(coordinator)),
        final(coordinator).linger_deadline == old(coordinator).linger_deadline,
        final(core).same_settings(*old(core)),
        final(core).pipes_tx@ == Map::<usize, AsyncSender<Vec<Msg>>>::empty(),
        final(core).pipe_reader_tasks@ == Map::<usize, usize>::empty(),
        final(core).pipe_read_id_to_endpoint_uri@ == Map::<usize, String>::empty(),
        final(core).uring_fd_to_endpoint_uri@ == Map::<usize, String>::empty(),
        final(core).endpoints@ == Map::<Seq<char>, EndpointInfo>::empty(),
        r.abort_readers@ == old(core).pipe_reader_tasks.listed().map_values(
            |e: (usize, usize)| e.1,
        ),
        r.detached_pipes@ == old(coordinator).inproc_connections_to_cleanup@.map_values(
            |e: (usize, usize, String)| e.1,
        ),
        r.unregister_fds@ == old(core).uring_fd_to_endpoint_uri.listed().map_values(
            |e: (usize, String)| e.0,
        ),
        r.close_connections@ == old(core).endpoints.listed().map_values(
            |e: (String, EndpointInfo)| e.1.connection,
        ),
{
    let abort_readers = list_values(&core.pipe_reader_tasks);
    let mut detached_pipes: Vec<usize> = Vec::new();
    let ghost inproc = coordinator.inproc_connections_to_cleanup@;
    let mut i: usize = 0;
    while i < coordinator.inproc_connections_to_cleanup.len()
        invariant
            i <= inproc.len(),
            inproc == coordinator.inproc_connections_to_cleanup@,
            detached_pipes@ == inproc.map_values(|e: (usize, usize, String)| e.1).take(i as int),
        decreases inproc.len() - i,
    {
        detached_pipes.push(coordinator.inproc_connections_to_cleanup[i].1);
        i += 1;
    }
    assert(detached_pipes@ =~= inproc.map_values(|e: (usize, usize, String)| e.1));
    let unregister_fds = list_keys(&core.uring_fd_to_endpoint_uri);
    let close_connections = list_endpoint_connections(&core.endpoints);
    core.pipes_tx = IdMap::new();
    core.pipe_reader_tasks = IdMap::new();
    core.pipe_read_id_to_endpoint_uri = IdMap::new();
    core.uring_fd_to_endpoint_uri = IdMap::new();
    core.endpoints = UriMap::new();
    coordinator.state = ShutdownPhase::Finished;
    FinalCleanup { abort_readers, detached_pipes, unregister_fds, close_connections }
}

// ---------------------------------------------------------------------------
// A child has stopped
// ---------------------------------------------------------------------------
/// The interval before a first attempt to reconnect, where none is set.
pub const DEFAULT_RECONNECT_MILLIS: u64 = 100;

/// The longest interval between attempts to reconnect, where none is set.
pub const DEFAULT_RECONNECT_MAX_SECS: u64 = 60;

pub open spec fn base_nanos(core: CoreState) -> nat {
    match core.options.reconnect_ivl {
        Some(d) => d.spec_nanos(),
        None => (DEFAULT_RECONNECT_MILLIS * 1_000_000) as nat,
    }
}

pub open spec fn max_nanos(core: CoreState) -> nat {
    match core.options.reconnect_ivl_max {
        Some(d) => d.spec_nanos(),
        None => (DEFAULT_RECONNECT_MAX_SECS * 1_000_000_000) as nat,
    }
}

/// How often connecting to `uri` has failed in a row.
pub open spec fn failures(core: CoreState, uri: Seq<char>) -> nat {
    if core.reconnect_states@.dom().contains(uri) {
        core.reconnect_states@[uri].current_attempts as nat
    } else {
        0
    }
}

/// The wait before connecting to `uri` is tried again.
pub open spec fn next_backoff(core: CoreState, uri: Seq<char>) -> nat {
    state::backoff(base_nanos(core), max_nanos(core), failures(core, uri))
}

/// The time of an attempt after that wait can be represented.
pub open spec fn attempt_fits(core: CoreState, uri: Seq<char>, now: Instant) -> bool {
    now.spec_nanos() + next_backoff(core, uri) <= time::MAX_INSTANT_NANOS
}

/// `s` records one more failure than before, with the attempt set after the wait.
pub open spec fn is_next_attempt(
    core: CoreState,
    uri: Seq<char>,
    now: Instant,
    s: ReconnectState,
) -> bool {
    &&& s.current_attempts == if failures(core, uri) == u32::MAX {
        u32::MAX as nat
    } else {
        failures(core, uri) + 1
    }
    &&& s.next_attempt_at matches Some(t) && t.spec_nanos() == now.spec_nanos() + next_backoff(
        core,
        uri,
    )
}

/// Everything but the record of failed connections is the same.
pub open spec fn same_but_reconnects(a: CoreState, b: CoreState) -> bool {
    a == (CoreState { reconnect_states: a.reconnect_states, ..b })
}

/// One more failure to connect to `uri` has been recorded, and nothing else.
pub open spec fn failure_recorded(
    before: CoreState,
    after: CoreState,
    uri: Seq<char>,
    now: Instant,
) -> bool {
    &&& after.reconnect_states@.dom().contains(uri)
    &&& is_next_attempt(before, uri, now, after.reconnect_states@[uri])
    &&& after.reconnect_states@.remove(uri) == before.reconnect_states@.remove(uri)
}

/// Counts a failure to connect to `uri` and sets the time of the next attempt.
pub fn schedule_reconnect(core: &mut CoreState, uri: &str, now: Instant)
    requires
        attempt_fits(*old(core), uri@, now),
    ensures
        same_but_reconnects(*final(core), *old(core)),
        failure_recorded(*old(core), *final(core), uri@, now),
{
    let base = match core.options.reconnect_ivl {
        Some(d) => d,
        None => Duration::from_millis(DEFAULT_RECONNECT_MILLIS),
    };
    let max = match core.options.reconnect_ivl_max {
        Some(d) => d,
        None => Duration::from_secs(DEFAULT_RECONNECT_MAX_SECS),
    };
    let mut record = match core.reconnect_states.get(uri) {
        Some(s) => *s,
        None => ReconnectState::default(),
    };
    let _ = record.on_connection_failure(base, max, now);
    let _ = core.reconnect_states.insert(uri.to_owned(), record);
    assert(core.reconnect_states@.remove(uri@) =~= old(core).reconnect_states@.remove(uri@));
}

/// The times that the end of a child may set can be represented.
pub open spec fn stop_times_fit(
    coordinator: ShutdownCoordinator,
    core: CoreState,
    uri: Option<Seq<char>>,
    now: Instant,
) -> bool {
    &&& coordinator.state is Running ==> match uri {
        Some(u) => attempt_fits(core, u, now),
        None => true,
    }
    &&& coordinator.state is StoppingChildren ==> coordinator.deadline_fits(
        core.options.linger,
        now,
    )
}

/// The record of failed connections after a child has stopped: a running socket counts a
/// failure of a connection that is to be tried again.
pub open spec fn reconnect_set(
    coordinator: ShutdownCoordinator,
    before: CoreState,
    after: CoreState,
    uri: Option<Seq<char>>,
    should_reconnect: bool,
    now: Instant,
) -> bool {
    if coordinator.state is Running && should_reconnect && uri is Some {
        failure_recorded(before, after, uri->0, now)
    } else {
        after.reconnect_states == before.reconnect_states
    }
}

/// A child of the socket has stopped: takes it out of the tables, then acts by phase. A
/// running socket sets a time for reconnecting where the child was a connection that is
/// to be tried again; a socket that waits for its children counts it, and lingers once
/// the last is gone.
pub fn handle_actor_stopping_event(
    coordinator: &mut ShutdownCoordinator,
    core: &mut CoreState,
    stopped_actor_id: usize,
    stopped_actor_type: ActorType,
    endpoint_uri_opt: Option<&str>,
    error_opt: Option<&ZmqError>,
    error_text: &str,
    now: Instant,
) -> (r: StoppedChild)
    requires
        stop_times_fit(
            *old(coordinator),
            *old(core),
            pipe_manager::text_of(endpoint_uri_opt),
            now,
        ),
    ensures
        final(coordinator).state.rank() >= old(coordinator).state.rank(),
        child_taken_out(
            *old(core),
            *final(core),
            stopped_actor_id,
            pipe_manager::text_of(endpoint_uri_opt),
            pipe_manager::error_of(error_opt),
            error_text@,
            r,
        ),
        reconnect_set(
            *old(coordinator),
            *old(core),
            *final(core),
            pipe_manager::text_of(endpoint_uri_opt),
            r.should_reconnect,
            now,
        ),
        child_counted(
            *old(coordinator),
            *final(coordinator),
            old(core).options.linger,
            stopped_actor_id,
            stopped_actor_type,
            now,
        ),
{
    let r = cleanup_stopped_child_resources(
        core,
        stopped_actor_id,
        endpoint_uri_opt,
        error_opt,
        error_text,
        false,
    );
    match coordinator.state {
        ShutdownPhase::Running => {
            if r.should_reconnect {
                if let Some(uri) = endpoint_uri_opt {
                    schedule_reconnect(core, uri, now);
                }
            }
        },
        ShutdownPhase::StoppingChildren => {
            let was_last: bool = match stopped_actor_type {
                ActorType::Listener => coordinator.record_child_actor_stopped(stopped_actor_id),
                ActorType::Session => coordinator.record_connection_closed(stopped_actor_id),
                _ => false,
            };
            if was_last {
                coordinator.state = ShutdownPhase::Lingering;
                let linger = core.options.linger;
                coordinator.start_linger_if_needed(linger, now);
            }
        },
        _ => {},
    }
    r
}

/// The tables after a stopped child has been taken out of them, and what is left to do.
pub open spec fn child_taken_out(
    before: CoreState,
    after: CoreState,
    child: usize,
    uri: Option<Seq<char>>,
    error: Option<ZmqError>,
    error_text: Seq<char>,
    r: StoppedChild,
) -> bool {
    &&& after.same_settings(CoreState { reconnect_states: after.reconnect_states, ..before })
    &&& match pipe_manager::endpoint_of_child(before, child, uri) {
        None => {
            &&& after.endpoints == before.endpoints
            &&& after.pipes_tx == before.pipes_tx
            &&& after.pipe_reader_tasks == before.pipe_reader_tasks
            &&& after.pipe_read_id_to_endpoint_uri == before.pipe_read_id_to_endpoint_uri
            &&& after.uring_fd_to_endpoint_uri == before.uring_fd_to_endpoint_uri
            &&& !r.found && r.abort_task is None && r.abort_reader is None && r.unregister_fd
                is None && r.event is None && r.detached_pipe is None && !r.should_reconnect
        },
        Some(key) => {
            let info = before.endpoints@[key];
            &&& r.found
            &&& after.endpoints@ == before.endpoints@.remove(key)
            &&& pipe_manager::pipes_taken_out(before, after, info.pipe_ids, r.abort_reader)
            &&& pipe_manager::descriptor_taken_out(before, after, info, r.unregister_fd)
            &&& r.abort_task == info.task
            &&& r.detached_pipe == match info.pipe_ids {
                Some((_, read)) => Some(read),
                None => None::<usize>,
            }
            &&& r.event is Some == before.monitored
            &&& r.event matches Some(e) ==> pipe_manager::is_stop_event(e, info, error, error_text)
            &&& r.should_reconnect == pipe_manager::reconnects(before, info, error, false)
        },
    }
}

/// The shutdown after a child has stopped.
pub open spec fn child_counted(
    before: ShutdownCoordinator,
    after: ShutdownCoordinator,
    linger: Option<Duration>,
    child: usize,
    kind: ActorType,
    now: Instant,
) -> bool {
    if before.state is StoppingChildren {
        let counts_listener = kind is Listener && before.pending_child_actors@.dom().contains(child);
        let counts_session = kind is Session && before.pending_connections_to_close@.dom().contains(
            child,
        );
        &&& after.inproc_connections_to_cleanup == before.inproc_connections_to_cleanup
        &&& after.pending_child_actors@ == if counts_listener {
            before.pending_child_actors@.remove(child)
        } else {
            before.pending_child_actors@
        }
        &&& after.pending_connections_to_close@ == if counts_session {
            before.pending_connections_to_close@.remove(child)
        } else {
            before.pending_connections_to_close@
        }
        &&& if (counts_listener || counts_session) && after.nothing_pending() {
            &&& after.state is Lingering
            &&& (ShutdownCoordinator { state: ShutdownPhase::Lingering, ..before }).is_deadline(
                linger,
                now,
                after.linger_deadline,
            )
        } else {
            &&& after.state is StoppingChildren
            &&& after.linger_deadline == before.linger_deadline
        }
    } else {
        after == before
    }
}

/// What a shutdown waits for only shrinks as its children stop.
pub proof fn pending_only_shrinks(
    before: ShutdownCoordinator,
    after: ShutdownCoordinator,
    linger: Option<Duration>,
    child: usize,
    kind: ActorType,
    now: Instant,
)
    requires
        child_counted(before, after, linger, child, kind, now),
    ensures
        after.pending_child_actors@.submap_of(before.pending_child_actors@),
        after.pending_connections_to_close@.submap_of(before.pending_connections_to_close@),
{
}

// ---------------------------------------------------------------------------
// Laws
// ---------------------------------------------------------------------------
/// A socket that lingers without a limit gives up at no time while its pipes are not empty.
pub proof fn lingering_without_limit_never_gives_up(
    s: ShutdownCoordinator,
    now: Instant,
    d: Option<Instant>,
    t: Instant,
)
    requires
        s.state is Lingering,
        s.linger_deadline is None,
        s.is_deadline(None, now, d),
    ensures
        d is None,
        !(ShutdownCoordinator { linger_deadline: d, ..s }).linger_over(false, t),
{
}

/// A socket with a linger time gives up exactly when that time has passed since lingering
/// began, and at once where the time is zero; a deadline that is set is not moved.
pub proof fn lingering_lasts_as_long_as_is_set(
    s: ShutdownCoordinator,
    linger: Duration,
    now: Instant,
    d: Option<Instant>,
    t: Instant,
)
    requires
        s.state is Lingering,
        s.is_deadline(Some(linger), now, d),
    ensures
        s.linger_deadline is None || linger.spec_nanos() == 0 ==> ((ShutdownCoordinator {
            linger_deadline: d,
            ..s
        }).linger_over(false, t) <==> t.spec_nanos() >= now.spec_nanos() + linger.spec_nanos()),
        s.linger_deadline is Some && linger.spec_nanos() > 0 ==> d == s.linger_deadline,
{
}

/// Lingering ends at any time once the pipes are empty, and only for a socket that lingers.
pub proof fn empty_pipes_end_lingering(s: ShutdownCoordinator, pipes_empty: bool, now: Instant)
    ensures
        s.state is Lingering ==> s.linger_over(true, now),
        s.state !is Lingering ==> !s.linger_over(pipes_empty, now),
        s.linger_deadline is None ==> !s.linger_over(false, now),
{
}

/// Setting the deadline of a socket changes nothing else, and nothing of one that does not
/// linger.
pub proof fn deadline_is_set_once(
    s: &mut ShutdownCoordinator,
    linger: Option<Duration>,
    now: Instant,
)
    requires
        call_ensures(ShutdownCoordinator::start_linger_if_needed, (s, linger, now), ()),
    ensures
        final(s).state == old(s).state,
        final(s).pending_child_actors == old(s).pending_child_actors,
        final(s).pending_connections_to_close == old(s).pending_connections_to_close,
        final(s).inproc_connections_to_cleanup == old(s).inproc_connections_to_cleanup,
        old(s).state !is Lingering ==> final(s).linger_deadline == old(s).linger_deadline,
        linger is None ==> final(s).linger_deadline == old(s).linger_deadline,
        old(s).state is Lingering && (linger matches Some(l) && (l.spec_nanos() == 0 || old(s).linger_deadline is None)) ==> (final(s).linger_deadline matches Some(t)
            && t.spec_nanos() == now.spec_nanos() + linger->0.spec_nanos()),
        old(s).linger_deadline is Some && (linger matches Some(l) && l.spec_nanos() > 0)
            ==> final(s).linger_deadline == old(s).linger_deadline,
{
}

/// The question whether lingering is over is answered as the deadline and the pipes say.
pub proof fn linger_answer_is_exact(
    s: &ShutdownCoordinator,
    pipes_empty: bool,
    now: Instant,
    b: bool,
)
    requires
        call_ensures(ShutdownCoordinator::is_linger_over, (s, pipes_empty, now), b),
    ensures
        b <==> s.state is Lingering && (pipes_empty || (s.linger_deadline matches Some(t)
            && t.spec_nanos() <= now.spec_nanos())),
{
}

/// A shutdown that waits for nothing lingers until its pipes are empty or its time is up; one
/// that waits for something does not linger before that has gone. What is unsent is never
/// thrown away earlier.
pub proof fn shutdown_settles_by_what_is_pending(
    s: &mut ShutdownCoordinator,
    linger: Option<Duration>,
    pipes_empty: bool,
    now: Instant,
    clean: bool,
)
    requires
        call_ensures(settle_shutdown, (s, linger, pipes_empty, now), clean),
        old(s).linger_deadline is None,
    ensures
        final(s).pending_child_actors == old(s).pending_child_actors,
        final(s).pending_connections_to_close == old(s).pending_connections_to_close,
        final(s).inproc_connections_to_cleanup == old(s).inproc_connections_to_cleanup,
        old(s).pending_child_actors@.dom() =~= Set::<usize>::empty() && old(s).pending_connections_to_close@.dom() =~= Set::<usize>::empty() ==> {
            &&& clean <==> pipes_empty || (linger matches Some(l) && l.spec_nanos() == 0)
            &&& clean <==> final(s).state is CleaningPipes
            &&& !clean <==> final(s).state is Lingering
            &&& linger is None ==> final(s).linger_deadline is None
            &&& linger matches Some(l) ==> (final(s).linger_deadline matches Some(t)
                && t.spec_nanos() == now.spec_nanos() + l.spec_nanos())
        },
        (exists|h: usize| old(s).pending_child_actors@.dom().contains(h)) || (exists|h: usize|
            old(s).pending_connections_to_close@.dom().contains(h)) ==> {
            &&& !clean
            &&& final(s).state is StoppingChildren
            &&& final(s).linger_deadline is None
        },
{
    if old(s).pending_child_actors@.dom() =~= Set::<usize>::empty() && old(s).pending_connections_to_close@.dom() =~= Set::<usize>::empty() {
        assert(old(s).pending_child_actors@ =~= Map::<usize, String>::empty());
        assert(old(s).pending_connections_to_close@ =~= Map::<
            usize,
            (String, ConnectionRef),
        >::empty());
    }
}

/// A lingering socket is cleaned up exactly when its pipes are empty or its deadline has come;
/// a socket in another phase is left as it is.
pub proof fn lingering_advances_when_it_is_over(
    s: &mut ShutdownCoordinator,
    linger: Option<Duration>,
    pipes_empty: bool,
    now: Instant,
    clean: bool,
)
    requires
        call_ensures(advance_linger, (s, linger, pipes_empty, now), clean),
    ensures
        final(s).pending_child_actors == old(s).pending_child_actors,
        final(s).pending_connections_to_close == old(s).pending_connections_to_close,
        final(s).inproc_connections_to_cleanup == old(s).inproc_connections_to_cleanup,
        old(s).state !is Lingering ==> !clean && *final(s) == *old(s),
        old(s).state is Lingering ==> {
            &&& clean <==> pipes_empty || (final(s).linger_deadline matches Some(t)
                && t.spec_nanos() <= now.spec_nanos())
            &&& clean <==> final(s).state is CleaningPipes
            &&& !clean <==> final(s).state is Lingering
            &&& old(s).linger_deadline is Some ==> final(s).linger_deadline
                == old(s).linger_deadline
            &&& linger is None ==> final(s).linger_deadline == old(s).linger_deadline
            &&& old(s).linger_deadline is None && (linger matches Some(l) && l.spec_nanos() > 0)
                ==> (final(s).linger_deadline matches Some(t) && t.spec_nanos()
                == now.spec_nanos() + linger->0.spec_nanos())
        },
{
}

/// Lingering is left for the cleaning of the pipes, and from no other phase.
pub proof fn only_lingering_advances_to_cleaning(s: &mut ShutdownCoordinator)
    requires
        call_ensures(advance_to_cleaning_phase, (s,), ()),
    ensures
        old(s).state is Lingering ==> final(s).state is CleaningPipes,
        old(s).state !is Lingering ==> final(s).state == old(s).state,
        final(s).linger_deadline == old(s).linger_deadline,
{
}

/// A socket whose pipes were all reported empty is the only one that counts as having empty
/// pipes.
pub proof fn one_full_pipe_is_enough(reports: &Vec<bool>, i: int, b: bool)
    requires
        call_ensures(all_reported_empty, (reports,), b),
    ensures
        0 <= i < reports@.len() && !reports@[i] ==> !b,
        reports@.len() == 0 ==> b,
        (forall|j: int| 0 <= j < reports@.len() ==> #[trigger] reports@[j]) ==> b,
{
}

/// A shutdown waits for exactly the listeners that have a task, by handle.
pub proof fn listeners_are_waited_for(listed: Seq<(String, EndpointInfo)>, h: usize)
    ensures
        listeners_of(listed).dom().contains(h) <==> exists|i: int|
            0 <= i < listed.len() && (#[trigger] listed[i]).1.endpoint_type is Listener
                && listed[i].1.task is Some && listed[i].1.handle_id == h,
        listeners_of(listed).dom().contains(h) ==> exists|i: int|
            0 <= i < listed.len() && (#[trigger] listed[i]).1.handle_id == h && listed[i].0
                == listeners_of(listed)[h],
    decreases listed.len(),
{
    if listed.len() > 0 {
        let rest = listed.drop_last();
        let n = listed.len() - 1;
        listeners_are_waited_for(rest, h);
        if listeners_of(rest).dom().contains(h) {
            let i = choose|i: int|
                0 <= i < rest.len() && (#[trigger] rest[i]).1.endpoint_type is Listener
                    && rest[i].1.task is Some && rest[i].1.handle_id == h;
            assert(listed[i] == rest[i]);
            let j = choose|j: int|
                0 <= j < rest.len() && (#[trigger] rest[j]).1.handle_id == h && rest[j].0
                    == listeners_of(rest)[h];
            assert(listed[j] == rest[j]);
        }
        assert(listed[n] == listed.last());
        if exists|i: int|
            0 <= i < listed.len() && (#[trigger] listed[i]).1.endpoint_type is Listener
                && listed[i].1.task is Some && listed[i].1.handle_id == h {
            let i = choose|i: int|
                0 <= i < listed.len() && (#[trigger] listed[i]).1.endpoint_type is Listener
                    && listed[i].1.task is Some && listed[i].1.handle_id == h;
            if i < n {
                assert(rest[i] == listed[i]);
            }
        }
    }
}

/// A shutdown waits for exactly the connections, by handle.
pub proof fn connections_are_waited_for(listed: Seq<(String, EndpointInfo)>, h: usize)
    ensures
        connections_of(listed).dom().contains(h) <==> exists|i: int|
            0 <= i < listed.len() && (#[trigger] listed[i]).1.endpoint_type is Session
                && listed[i].1.handle_id == h,
        connections_of(listed).dom().contains(h) ==> exists|i: int|
            0 <= i < listed.len() && (#[trigger] listed[i]).1.endpoint_type is Session
                && listed[i].1.handle_id == h && connections_of(listed)[h] == (
                listed[i].0,
                listed[i].1.connection,
            ),
    decreases listed.len(),
{
    if listed.len() > 0 {
        let rest = listed.drop_last();
        let n = listed.len() - 1;
        connections_are_waited_for(rest, h);
        if connections_of(rest).dom().contains(h) {
            let i = choose|i: int|
                0 <= i < rest.len() && (#[trigger] rest[i]).1.endpoint_type is Session
                    && rest[i].1.handle_id == h && connections_of(rest)[h] == (
                    rest[i].0,
                    rest[i].1.connection,
                );
            assert(listed[i] == rest[i]);
        }
        assert(listed[n] == listed.last());
        if exists|i: int|
            0 <= i < listed.len() && (#[trigger] listed[i]).1.endpoint_type is Session
                && listed[i].1.handle_id == h {
            let i = choose|i: int|
                0 <= i < listed.len() && (#[trigger] listed[i]).1.endpoint_type is Session
                    && listed[i].1.handle_id == h;
            if i < n {
                assert(rest[i] == listed[i]);
            }
        }
    }
}

/// The in-process connections that are cleaned up are those that the socket accepted.
pub proof fn accepted_inproc_connections_are_cleaned_up(
    listed: Seq<(String, EndpointInfo)>,
    i: int,
)
    requires
        0 <= i < listed.len(),
        listed[i].1.endpoint_type is Session,
        text::has_prefix(listed[i].0@, "inproc://"@),
        !listed[i].1.is_outbound_connection,
        listed[i].1.pipe_ids is Some,
    ensures
        inproc_of(listed).contains(
            ((listed[i].1.pipe_ids->0).0, (listed[i].1.pipe_ids->0).1, listed[i].0),
        ),
    decreases listed.len(),
{
    let rest = listed.drop_last();
    let entry = ((listed[i].1.pipe_ids->0).0, (listed[i].1.pipe_ids->0).1, listed[i].0);
    if i < listed.len() - 1 {
        assert(rest[i] == listed[i]);
        accepted_inproc_connections_are_cleaned_up(rest, i);
        let k = choose|k: int| 0 <= k < inproc_of(rest).len() && inproc_of(rest)[k] == entry;
        assert(inproc_of(listed)[k] == entry);
    } else {
        assert(inproc_of(listed)[inproc_of(rest).len() as int] == entry);
    }
}

/// What is cleaned up as an in-process connection is one: no more than the connections listed,
/// and no outgoing one.
pub proof fn nothing_else_is_cleaned_up_as_inproc(listed: Seq<(String, EndpointInfo)>, k: int)
    requires
        0 <= k < inproc_of(listed).len(),
    ensures
        exists|i: int|
            0 <= i < listed.len() && text::has_prefix((#[trigger] listed[i]).0@, "inproc://"@)
                && !listed[i].1.is_outbound_connection && listed[i].1.endpoint_type is Session
                && listed[i].1.pipe_ids == Some((inproc_of(listed)[k].0, inproc_of(listed)[k].1))
                && listed[i].0 == inproc_of(listed)[k].2,
        inproc_of(listed).len() <= listed.len(),
    decreases listed.len(),
{
    let rest = listed.drop_last();
    let n = listed.len() - 1;
    assert(listed[n] == listed.last());
    if k < inproc_of(rest).len() {
        nothing_else_is_cleaned_up_as_inproc(rest, k);
        let i = choose|i: int|
            0 <= i < rest.len() && text::has_prefix((#[trigger] rest[i]).0@, "inproc://"@)
                && !rest[i].1.is_outbound_connection && rest[i].1.endpoint_type is Session
                && rest[i].1.pipe_ids == Some((inproc_of(rest)[k].0, inproc_of(rest)[k].1))
                && rest[i].0 == inproc_of(rest)[k].2;
        assert(listed[i] == rest[i]);
    }
    if inproc_of(rest).len() > 0 {
        nothing_else_is_cleaned_up_as_inproc(rest, 0);
    }
}

/// A shutdown begins once, on a running socket: every connection is to be closed, every
/// listener that is still there is to be stopped, and the phase is left for later.
pub proof fn shutdown_begins_once(
    s: &mut ShutdownCoordinator,
    core: &CoreState,
    r: Option<ShutdownOrders>,
)
    requires
        call_ensures(initiate_core_shutdown, (s, core), r),
    ensures
        r is Some <==> old(s).state is Running,
        r is None ==> *final(s) == *old(s),
        r is Some ==> final(s).state is Running && final(s).linger_deadline
            == old(s).linger_deadline,
        r matches Some(o) ==> {
            &&& o.close_connections@.len() == final(s).pending_connections_to_close.listed().len()
            &&& forall|i: int|
                0 <= i < o.close_connections@.len() ==> {
                    &&& (#[trigger] o.close_connections@[i]).0
                        == final(s).pending_connections_to_close.listed()[i].0
                    &&& o.close_connections@[i].1
                        == final(s).pending_connections_to_close.listed()[i].1.0
                    &&& o.close_connections@[i].2
                        == final(s).pending_connections_to_close.listed()[i].1.1
                }
        },
        r is Some ==> final(s).pending_child_actors@ == listeners_of(core.endpoints.listed())
            && final(s).pending_connections_to_close@ == connections_of(core.endpoints.listed())
            && final(s).inproc_connections_to_cleanup@ == inproc_of(core.endpoints.listed()),
        r matches Some(o) ==> o.stop_listeners@ == listeners_to_stop(
            *core,
            final(s).pending_child_actors.listed(),
        ),
{
}

/// Each listener that is waited for and is still there is told to stop, and nothing else is.
pub proof fn listeners_are_told_to_stop(core: CoreState, pending: Seq<(usize, String)>, h: usize)
    ensures
        listeners_to_stop(core, pending).contains(h) <==> exists|i: int|
            0 <= i < pending.len() && core.endpoints@.dom().contains((#[trigger] pending[i]).1@)
                && core.endpoints@[pending[i].1@].endpoint_type is Listener
                && core.endpoints@[pending[i].1@].handle_id == h,
        listeners_to_stop(core, pending).len() <= pending.len(),
    decreases pending.len(),
{
    if pending.len() > 0 {
        let rest = pending.drop_last();
        let n = pending.len() - 1;
        listeners_are_told_to_stop(core, rest, h);
        let before = listeners_to_stop(core, rest);
        let now = listeners_to_stop(core, pending);
        assert(pending[n] == pending.last());
        if before.contains(h) {
            let k = choose|k: int| 0 <= k < before.len() && before[k] == h;
            assert(now[k] == h);
            let i = choose|i: int|
                0 <= i < rest.len() && core.endpoints@.dom().contains((#[trigger] rest[i]).1@)
                    && core.endpoints@[rest[i].1@].endpoint_type is Listener
                    && core.endpoints@[rest[i].1@].handle_id == h;
            assert(pending[i] == rest[i]);
        }
        if listener_at(core, pending.last().1) == Some(h) {
            assert(now[before.len() as int] == h);
        }
        if now.contains(h) {
            let k = choose|k: int| 0 <= k < now.len() && now[k] == h;
            if k < before.len() {
                assert(before[k] == h);
            }
        }
        if exists|i: int|
            0 <= i < pending.len() && core.endpoints@.dom().contains((#[trigger] pending[i]).1@)
                && core.endpoints@[pending[i].1@].endpoint_type is Listener
                && core.endpoints@[pending[i].1@].handle_id == h {
            let i = choose|i: int|
                0 <= i < pending.len() && core.endpoints@.dom().contains(
                    (#[trigger] pending[i]).1@,
                ) && core.endpoints@[pending[i].1@].endpoint_type is Listener
                    && core.endpoints@[pending[i].1@].handle_id == h;
            if i < n {
                assert(rest[i] == pending[i]);
            }
        }
    }
}

/// A listener or a connection that ends is waited for no longer, and is reported as the last
/// exactly when nothing else is waited for.
pub proof fn last_child_is_noticed(
    a: &mut ShutdownCoordinator,
    b: &mut ShutdownCoordinator,
    child: usize,
    last_a: bool,
    last_b: bool,
)
    requires
        call_ensures(ShutdownCoordinator::record_child_actor_stopped, (a, child), last_a),
        call_ensures(ShutdownCoordinator::record_connection_closed, (b, child), last_b),
    ensures
        old(a).state !is Finished ==> final(a).pending_child_actors@
            =~= old(a).pending_child_actors@.remove(child),
        last_a ==> old(a).state !is Finished && old(a).pending_child_actors@.dom().contains(child),
        last_a ==> final(a).pending_child_actors@ == Map::<usize, String>::empty()
            && final(a).pending_connections_to_close@ == Map::<
            usize,
            (String, ConnectionRef),
        >::empty(),
        old(a).state !is Finished && old(a).pending_child_actors@.dom().contains(child)
            && final(a).pending_child_actors@ == Map::<usize, String>::empty()
            && final(a).pending_connections_to_close@ == Map::<
            usize,
            (String, ConnectionRef),
        >::empty() ==> last_a,
        final(a).state == old(a).state && final(a).pending_connections_to_close
            == old(a).pending_connections_to_close,
        old(b).state !is Finished ==> final(b).pending_connections_to_close@
            =~= old(b).pending_connections_to_close@.remove(child),
        last_b ==> old(b).state !is Finished && old(b).pending_connections_to_close@.dom().contains(child),
        last_b ==> final(b).pending_child_actors@ == Map::<usize, String>::empty()
            && final(b).pending_connections_to_close@ == Map::<
            usize,
            (String, ConnectionRef),
        >::empty(),
        old(b).state !is Finished && old(b).pending_connections_to_close@.dom().contains(child)
            && final(b).pending_child_actors@ == Map::<usize, String>::empty()
            && final(b).pending_connections_to_close@ == Map::<
            usize,
            (String, ConnectionRef),
        >::empty() ==> last_b,
        final(b).state == old(b).state && final(b).pending_child_actors
            == old(b).pending_child_actors,
{
}

/// Of the connections that were told to close, those within the process are done with at once,
/// and no other is.
pub proof fn inproc_connections_are_done_with_at_once(
    pending: Map<usize, (String, ConnectionRef)>,
    closed: Seq<(usize, String, ConnectionRef)>,
    h: usize,
)
    ensures
        without_inproc(pending, closed).dom().contains(h) <==> pending.dom().contains(h) && !(
        exists|i: int|
            0 <= i < closed.len() && (#[trigger] closed[i]).0 == h && text::has_prefix(
                closed[i].1@,
                "inproc://"@,
            )),
        without_inproc(pending, closed).submap_of(pending),
    decreases closed.len(),
{
    if closed.len() > 0 {
        let rest = closed.drop_last();
        let n = closed.len() - 1;
        inproc_connections_are_done_with_at_once(pending, rest, h);
        assert(closed[n] == closed.last());
        if exists|i: int|
            0 <= i < rest.len() && (#[trigger] rest[i]).0 == h && text::has_prefix(
                rest[i].1@,
                "inproc://"@,
            ) {
            let i = choose|i: int|
                0 <= i < rest.len() && (#[trigger] rest[i]).0 == h && text::has_prefix(
                    rest[i].1@,
                    "inproc://"@,
                );
            assert(closed[i] == rest[i]);
        }
        if exists|i: int|
            0 <= i < closed.len() && (#[trigger] closed[i]).0 == h && text::has_prefix(
                closed[i].1@,
                "inproc://"@,
            ) {
            let i = choose|i: int|
                0 <= i < closed.len() && (#[trigger] closed[i]).0 == h && text::has_prefix(
                    closed[i].1@,
                    "inproc://"@,
                );
            if i < n {
                assert(rest[i] == closed[i]);
            }
        }
    }
}

/// The end of a shutdown leaves no table with anything in it, and whatever stood there is
/// handed out to be stopped or closed.
pub proof fn cleanup_leaves_nothing(
    s: &mut ShutdownCoordinator,
    core: &mut CoreState,
    r: FinalCleanup,
)
    requires
        call_ensures(perform_final_pipe_cleanup, (s, core), r),
    ensures
        final(s).state is Finished,
        forall|p: usize| !(#[trigger] final(core).pipes_tx@.dom().contains(p)),
        forall|p: usize| !(#[trigger] final(core).pipe_reader_tasks@.dom().contains(p)),
        forall|p: usize| !(#[trigger] final(core).pipe_read_id_to_endpoint_uri@.dom().contains(p)),
        forall|p: usize| !(#[trigger] final(core).uring_fd_to_endpoint_uri@.dom().contains(p)),
        forall|u: Seq<char>| !(#[trigger] final(core).endpoints@.dom().contains(u)),
        r.close_connections@.len() == old(core).endpoints.listed().len(),
        forall|i: int|
            0 <= i < r.close_connections@.len() ==> (#[trigger] r.close_connections@[i])
                == old(core).endpoints.listed()[i].1.connection,
        r.abort_readers@.len() == old(core).pipe_reader_tasks.listed().len(),
        forall|i: int|
            0 <= i < r.abort_readers@.len() ==> (#[trigger] r.abort_readers@[i])
                == old(core).pipe_reader_tasks.listed()[i].1,
        r.detached_pipes@.len() == old(s).inproc_connections_to_cleanup@.len(),
        forall|i: int|
            0 <= i < r.detached_pipes@.len() ==> (#[trigger] r.detached_pipes@[i])
                == old(s).inproc_connections_to_cleanup@[i].1,
        r.unregister_fds@.len() == old(core).uring_fd_to_endpoint_uri.listed().len(),
        forall|i: int|
            0 <= i < r.unregister_fds@.len() ==> (#[trigger] r.unregister_fds@[i])
                == old(core).uring_fd_to_endpoint_uri.listed()[i].0,
{
}

/// A failure to connect is counted once, and the next attempt comes after the wait that the
/// failures before it call for; other endpoints are untouched.
pub proof fn failures_are_counted_one_by_one(
    core: &mut CoreState,
    uri: &str,
    now: Instant,
    other: Seq<char>,
)
    requires
        call_ensures(schedule_reconnect, (core, uri, now), ()),
        other != uri@,
    ensures
        final(core).reconnect_states@.dom().contains(uri@),
        !old(core).reconnect_states@.dom().contains(uri@)
            ==> final(core).reconnect_states@[uri@].current_attempts == 1,
        old(core).reconnect_states@.dom().contains(uri@) && old(core).reconnect_states@[uri@].current_attempts < u32::MAX
            ==> final(core).reconnect_states@[uri@].current_attempts == old(core).reconnect_states@[uri@].current_attempts + 1,
        final(core).reconnect_states@[uri@].next_attempt_at matches Some(t) && t.spec_nanos()
            == now.spec_nanos() + state::backoff(
            match old(core).options.reconnect_ivl {
                Some(d) => d.spec_nanos(),
                None => 100_000_000,
            },
            match old(core).options.reconnect_ivl_max {
                Some(d) => d.spec_nanos(),
                None => 60_000_000_000,
            },
            if old(core).reconnect_states@.dom().contains(uri@) {
                old(core).reconnect_states@[uri@].current_attempts as nat
            } else {
                0
            },
        ),
        final(core).reconnect_states@.dom().contains(other) == old(core).reconnect_states@.dom().contains(other),
        old(core).reconnect_states@.dom().contains(other)
            ==> final(core).reconnect_states@[other] == old(core).reconnect_states@[other],
        final(core).endpoints == old(core).endpoints,
        final(core).pipes_tx == old(core).pipes_tx,
{
    assert(final(core).reconnect_states@.remove(uri@).dom().contains(other)
        == final(core).reconnect_states@.dom().contains(other));
    assert(old(core).reconnect_states@.remove(uri@).dom().contains(other)
        == old(core).reconnect_states@.dom().contains(other));
    if old(core).reconnect_states@.dom().contains(other) {
        assert(final(core).reconnect_states@.remove(uri@)[other]
            == old(core).reconnect_states@.remove(uri@)[other]);
    }
}

/// A running socket schedules another attempt exactly for a child that is to be reconnected,
/// and its phase stays; a socket that waits for its children counts each kind on its own list,
/// and lingers from the moment the last has gone; in any other phase nothing is counted.
pub proof fn stopped_child_is_counted_by_phase(
    s: &mut ShutdownCoordinator,
    core: &mut CoreState,
    child: usize,
    kind: ActorType,
    uri: Option<&str>,
    error: Option<&ZmqError>,
    text: &str,
    now: Instant,
    r: StoppedChild,
)
    requires
        call_ensures(
            handle_actor_stopping_event,
            (s, core, child, kind, uri, error, text, now),
            r,
        ),
    ensures
        old(s).state is Running && r.should_reconnect && uri is Some
            ==> final(core).reconnect_states@.dom().contains(uri->0@) && (final(core).reconnect_states@[uri->0@].next_attempt_at matches Some(t) && t.spec_nanos()
            >= now.spec_nanos()),
        !(old(s).state is Running && r.should_reconnect && uri is Some)
            ==> final(core).reconnect_states == old(core).reconnect_states,
        old(s).state !is StoppingChildren ==> *final(s) == *old(s),
        old(s).state is StoppingChildren && kind is Listener ==> final(s).pending_child_actors@
            =~= old(s).pending_child_actors@.remove(child)
            && final(s).pending_connections_to_close@ == old(s).pending_connections_to_close@,
        old(s).state is StoppingChildren && kind is Session
            ==> final(s).pending_connections_to_close@ =~= old(s).pending_connections_to_close@.remove(child) && final(s).pending_child_actors@
            == old(s).pending_child_actors@,
        old(s).state is StoppingChildren && kind !is Listener && kind !is Session
            ==> final(s).state is StoppingChildren && final(s).pending_child_actors@
            == old(s).pending_child_actors@ && final(s).pending_connections_to_close@
            == old(s).pending_connections_to_close@,
        old(s).state is StoppingChildren ==> final(s).state is StoppingChildren
            || final(s).state is Lingering,
        old(s).state is StoppingChildren && final(s).state is Lingering
            ==> final(s).pending_child_actors@ == Map::<usize, String>::empty()
            && final(s).pending_connections_to_close@ == Map::<
            usize,
            (String, ConnectionRef),
        >::empty(),
        old(s).state is StoppingChildren && final(s).state is Lingering
            && old(s).linger_deadline is None ==> match old(core).options.linger {
            None => final(s).linger_deadline is None,
            Some(l) => final(s).linger_deadline matches Some(t) && t.spec_nanos()
                == now.spec_nanos() + l.spec_nanos(),
        },
        old(s).state is StoppingChildren && kind is Listener && old(s).pending_child_actors@.dom().contains(child) && final(s).pending_child_actors@ == Map::<
            usize,
            String,
        >::empty() && old(s).pending_connections_to_close@ == Map::<
            usize,
            (String, ConnectionRef),
        >::empty() ==> final(s).state is Lingering,
        old(s).state is StoppingChildren && kind is Session && old(s).pending_connections_to_close@.dom().contains(child)
            && final(s).pending_connections_to_close@ == Map::<
            usize,
            (String, ConnectionRef),
        >::empty() && old(s).pending_child_actors@ == Map::<usize, String>::empty()
            ==> final(s).state is Lingering,
{
}

/// A socket waits for its unsent messages: while a pipe answers that something waits in it, and
/// no deadline has come, lingering is not over. A socket without pipes has nothing to wait for.
pub proof fn unsent_messages_are_lingered_for(
    s: &ShutdownCoordinator,
    core: &CoreState,
    now: Instant,
    b: bool,
    all: bool,
)
    requires
        call_ensures(
            ShutdownCoordinator::is_linger_expired_or_queues_empty,
            (s, core, now),
            b,
        ),
        call_ensures(all_pipes_empty, (core,), all),
    ensures
        s.state !is Lingering ==> !b,
        s.state is Lingering && (s.linger_deadline matches Some(t) && t.spec_nanos()
            <= now.spec_nanos()) ==> b,
        s.state is Lingering && core.pipes_tx@ == Map::<usize, AsyncSender<Vec<Msg>>>::empty()
            ==> b,
        b && (s.linger_deadline is None || s.linger_deadline->0.spec_nanos() > now.spec_nanos())
            ==> exists|reports: Seq<bool>|
            #![trigger pipes_answered(core.pipes_tx.listed(), reports)]
            reports.len() == core.pipes_tx.listed().len() && pipes_answered(
                core.pipes_tx.listed(),
                reports,
            ) && forall|i: int| 0 <= i < reports.len() ==> #[trigger] reports[i],
        core.pipes_tx@ == Map::<usize, AsyncSender<Vec<Msg>>>::empty() ==> all,
        all ==> exists|reports: Seq<bool>|
            #![trigger pipes_answered(core.pipes_tx.listed(), reports)]
            reports.len() == core.pipes_tx.listed().len() && pipes_answered(
                core.pipes_tx.listed(),
                reports,
            ) && forall|i: int| 0 <= i < reports.len() ==> #[trigger] reports[i],
        !all ==> exists|reports: Seq<bool>, i: int|
            #![trigger pipes_answered(core.pipes_tx.listed(), reports), reports[i]]
            pipes_answered(core.pipes_tx.listed(), reports) && 0 <= i
                < core.pipes_tx.listed().len() && !reports[i],
{
}

/// The answers of the pipes are theirs, one for each.
pub proof fn each_pipe_answers_for_itself(
    pipes: Seq<(usize, AsyncSender<Vec<Msg>>)>,
    reports: Seq<bool>,
    i: int,
)
    requires
        pipes_answered(pipes, reports),
        0 <= i < pipes.len(),
    ensures
        reports.len() == pipes.len(),
        emptiness_answered(pipes[i].1, reports[i]),
{
}

/// A look at a lingering socket ends its lingering only where its pipes answered that they are
/// empty or its deadline has come, and changes a socket in no other phase.
pub proof fn look_ends_lingering_when_it_is_over(
    s: &mut ShutdownCoordinator,
    core: &CoreState,
    now: Instant,
    clean: bool,
)
    requires
        call_ensures(check_and_advance_linger, (s, core, now), clean),
    ensures
        old(s).state !is Lingering ==> !clean && *final(s) == *old(s),
        clean <==> old(s).state is Lingering && final(s).state is CleaningPipes,
        old(s).state is Lingering && !clean ==> final(s).state is Lingering,
        old(s).state is Lingering && core.pipes_tx@ == Map::<
            usize,
            AsyncSender<Vec<Msg>>,
        >::empty() ==> clean,
        old(s).state is Lingering && (old(s).linger_deadline matches Some(t) && t.spec_nanos()
            <= now.spec_nanos()) ==> clean,
        clean && (final(s).linger_deadline is None || final(s).linger_deadline->0.spec_nanos()
            > now.spec_nanos()) ==> exists|reports: Seq<bool>|
            #![trigger pipes_answered(core.pipes_tx.listed(), reports)]
            pipes_answered(core.pipes_tx.listed(), reports) && forall|i: int|
                0 <= i < reports.len() ==> #[trigger] reports[i],
        old(s).state is Lingering && core.options.linger is None ==> final(s).linger_deadline
            == old(s).linger_deadline,
{
}

/// The phase is told as it is, and the beginning of a shutdown lists what is to be waited for
/// on a running socket only.
pub proof fn beginning_lists_what_is_waited_for(
    s: &ShutdownCoordinator,
    phase: ShutdownPhase,
    running: bool,
    t: &mut ShutdownCoordinator,
    core: &CoreState,
    begun: bool,
    pending: &IdMap<String>,
    stop: Vec<usize>,
)
    requires
        call_ensures(ShutdownCoordinator::current_phase, (s,), phase),
        call_ensures(ShutdownCoordinator::is_running, (s,), running),
        call_ensures(ShutdownCoordinator::begin_shutdown_sequence, (t, core), begun),
        call_ensures(stop_child_listener_actors, (core, pending), stop),
    ensures
        phase == s.state,
        running <==> s.state is Running,
        begun <==> old(t).state is Running,
        !begun ==> *final(t) == *old(t),
        begun ==> final(t).pending_child_actors@ == listeners_of(core.endpoints.listed()) && final(t).pending_connections_to_close@ == connections_of(core.endpoints.listed()) && final(t).inproc_connections_to_cleanup@ == inproc_of(core.endpoints.listed()) && final(t).linger_deadline == old(t).linger_deadline,
        stop@ == listeners_to_stop(*core, pending.listed()),
{
}

/// Of the connections told to close, those within the process are waited for no longer, and the
/// phase is left as it is.
pub proof fn closed_inproc_connections_are_not_waited_for(
    s: &mut ShutdownCoordinator,
    closed: &Vec<(usize, String, ConnectionRef)>,
    linger: Option<Duration>,
    now: Instant,
    h: usize,
)
    requires
        call_ensures(close_active_connections, (s, closed, linger, now), ()),
        old(s).state !is Finished,
    ensures
        final(s).state == old(s).state,
        final(s).pending_child_actors == old(s).pending_child_actors,
        final(s).pending_connections_to_close@.dom().contains(h) <==> old(s).pending_connections_to_close@.dom().contains(h) && !(exists|i: int|
            0 <= i < closed@.len() && (#[trigger] closed@[i]).0 == h && text::has_prefix(
                closed@[i].1@,
                "inproc://"@,
            )),
        linger is None ==> final(s).linger_deadline == old(s).linger_deadline,
{
    inproc_connections_are_done_with_at_once(old(s).pending_connections_to_close@, closed@, h);
}

/// A child that stops takes its own pipes, reader and endpoint with it, and those of nobody
/// else; a child that is not known takes nothing.
pub proof fn stopped_child_takes_only_its_own(
    coordinator: &mut ShutdownCoordinator,
    core: &mut CoreState,
    child: usize,
    kind: ActorType,
    uri: Option<&str>,
    error: Option<&ZmqError>,
    words: &str,
    now: Instant,
    r: StoppedChild,
    pipe: usize,
)
    requires
        call_ensures(
            handle_actor_stopping_event,
            (coordinator, core, child, kind, uri, error, words, now),
            r,
        ),
    ensures
        match pipe_manager::endpoint_of_child(*old(core), child, pipe_manager::text_of(uri)) {
            None => {
                &&& !r.found && !r.should_reconnect
                &&& r.abort_task is None && r.abort_reader is None && r.event is None
                &&& r.detached_pipe is None && r.unregister_fd is None
                &&& final(core).endpoints == old(core).endpoints
                &&& final(core).pipes_tx == old(core).pipes_tx
                &&& final(core).pipe_reader_tasks == old(core).pipe_reader_tasks
                &&& final(core).pipe_read_id_to_endpoint_uri
                    == old(core).pipe_read_id_to_endpoint_uri
            },
            Some(key) => {
                let info = old(core).endpoints@[key];
                &&& r.found
                &&& r.abort_task == info.task
                &&& !final(core).endpoints@.dom().contains(key)
                &&& info.pipe_ids matches Some((w, d)) ==> {
                    &&& !final(core).pipes_tx@.dom().contains(w)
                    &&& !final(core).pipe_reader_tasks@.dom().contains(d)
                    &&& !final(core).pipe_read_id_to_endpoint_uri@.dom().contains(d)
                    &&& r.detached_pipe == Some(d)
                    &&& r.abort_reader is Some <==> old(core).pipe_reader_tasks@.dom().contains(d)
                    &&& r.abort_reader matches Some(t) ==> t == old(core).pipe_reader_tasks@[d]
                    &&& pipe != w ==> (final(core).pipes_tx@.dom().contains(pipe)
                        <==> old(core).pipes_tx@.dom().contains(pipe))
                    &&& pipe != d ==> (final(core).pipe_reader_tasks@.dom().contains(pipe)
                        <==> old(core).pipe_reader_tasks@.dom().contains(pipe))
                    &&& pipe != d ==> (final(core).pipe_read_id_to_endpoint_uri@.dom().contains(
                        pipe,
                    ) <==> old(core).pipe_read_id_to_endpoint_uri@.dom().contains(pipe))
                }
                &&& info.pipe_ids is None ==> {
                    &&& r.detached_pipe is None && r.abort_reader is None
                    &&& final(core).pipes_tx == old(core).pipes_tx
                    &&& final(core).pipe_reader_tasks == old(core).pipe_reader_tasks
                    &&& final(core).pipe_read_id_to_endpoint_uri
                        == old(core).pipe_read_id_to_endpoint_uri
                }
                &&& r.unregister_fd is Some <==> info.connection.is_uring
                &&& r.unregister_fd matches Some(fd) ==> fd == info.handle_id
                &&& r.event is Some <==> old(core).monitored
            },
        },
        final(core).options == old(core).options,
{
}

} // verus!
