use vstd::prelude::*;

use fibre::mpmc::AsyncSender;

use crate::error::ZmqError;
use crate::message::Msg;
use crate::socket::socket_core::pipe_manager::{cleanup_stopped_child_resources, StoppedChild};
use crate::socket::socket_core::shutdown;
use crate::socket::socket_core::shutdown::{
    check_and_advance_linger, initiate_core_shutdown, ShutdownOrders,
};
use crate::socket::socket_core::state::{
    CoreState, EndpointInfo, ReconnectState, ShutdownCoordinator, ShutdownPhase,
};
use crate::time::Instant;
use crate::uri_map;
use crate::uri_map::UriMap;

verus! {

/// What can go wrong in the loop of a socket's core.
#[derive(Debug)]
pub enum LoopTrouble {
    /// A system event could not be dealt with.
    EventFailed(ZmqError),
    /// System events were lost.
    EventBusLagged,
    EventBusClosed,
    /// A command could not be carried out.
    CommandFailed(ZmqError),
    CommandMailboxClosed,
}

/// The loop of a socket's core: it takes events, commands and the ticks of a clock until
/// the shutdown is finished.
#[derive(Debug)]
pub struct CommandLoop {
    /// The error that the core ends with, if any.
    pub final_error: Option<ZmqError>,
}

/// The error that a trouble leaves behind, given the phase in which it came: lost events
/// trouble only a running socket.
pub open spec fn leaves_error(
    trouble: LoopTrouble,
    running: bool,
    before: Option<ZmqError>,
    after: Option<ZmqError>,
) -> bool {
    match trouble {
        LoopTrouble::EventFailed(e) | LoopTrouble::CommandFailed(e) => after == Some(e),
        LoopTrouble::EventBusLagged => if running {
            after matches Some(ZmqError::Internal(m)) && m@ == "SocketCore: Event bus lagged"@
        } else {
            after == before
        },
        LoopTrouble::EventBusClosed => after matches Some(ZmqError::Internal(m)) && m@
            == "SocketCore: Event bus closed"@,
        LoopTrouble::CommandMailboxClosed => after matches Some(ZmqError::Internal(m)) && m@
            == "SocketCore: Command mailbox closed"@,
    }
}

/// What is to be done on a tick of the clock.
#[derive(Debug)]
pub struct MaintenanceWork {
    /// The URIs that are to be connected to again.
    pub respawn: Vec<String>,
    /// Whether lingering is over, so that `perform_final_pipe_cleanup` follows.
    pub clean: bool,
    /// The endpoints whose task has ended, with the handle that each had: hand them to
    /// `reap_endpoint`, one by one.
    pub dead: Vec<(String, usize)>,
}

/// The URIs whose attempt to reconnect is due, in the order listed.
pub open spec fn due_uris(listed: Seq<(String, ReconnectState)>, now: Instant) -> Seq<String>
    decreases listed.len(),
{
    if listed.len() == 0 {
        Seq::empty()
    } else {
        let rest = due_uris(listed.drop_last(), now);
        if attempt_due(listed.last().1, now) {
            rest.push(listed.last().0)
        } else {
            rest
        }
    }
}

pub open spec fn attempt_due(s: ReconnectState, now: Instant) -> bool {
    s.next_attempt_at matches Some(t) && now.spec_nanos() >= t.spec_nanos()
}

/// The record of a connection once a due attempt has been handed out: no other is set
/// until this one has failed, and the failures still count.
pub open spec fn handed_out(s: ReconnectState, now: Instant) -> ReconnectState {
    if attempt_due(s, now) {
        ReconnectState { current_attempts: s.current_attempts, next_attempt_at: None }
    } else {
        s
    }
}

/// Takes the attempts to reconnect that are due.
pub fn take_due_reconnects(core: &mut CoreState, now: Instant) -> (r: Vec<String>)
    ensures
        shutdown::same_but_reconnects(*final(core), *old(core)),
        r@ == due_uris(old(core).reconnect_states.listed(), now),
        final(core).reconnect_states@ == old(core).reconnect_states@.map_values(
            |s: ReconnectState| handed_out(s, now),
        ),
{
    let mut r: Vec<String> = Vec::new();
    let mut after: UriMap<ReconnectState> = UriMap::new();
    let ghost listed = core.reconnect_states.listed();
    let n: usize = core.reconnect_states.len();
    let mut i: usize = 0;
    assert(listed.take(0) =~= Seq::empty());
    while i < n
        invariant
            i <= n,
            n == listed.len(),
            listed == core.reconnect_states.listed(),
            uri_map::keys_distinct(listed),
            *core == *old(core),
            r@ == due_uris(listed.take(i as int), now),
            forall|j: int|
                0 <= j < i ==> after@.dom().contains(#[trigger] listed[j].0@)
                    && after@[listed[j].0@] == handed_out(listed[j].1, now),
            forall|k: Seq<char>| #[trigger]
                after@.dom().contains(k) ==> uri_map::has_key(listed.take(i as int), k),
        decreases n - i,
    {
        assert(listed.take(i + 1).drop_last() =~= listed.take(i as int));
        let (uri, record) = core.reconnect_states.entry(i);
        let mut record = *record;
        if record.is_due(now) {
            r.push(uri.clone());
            record.next_attempt_at = None;
        }
        let _ = after.insert(uri.clone(), record);
        proof {
            assert forall|k: Seq<char>| #[trigger] after@.dom().contains(k) implies uri_map::has_key(
                listed.take(i + 1),
                k,
            ) by {
                if k == uri@ {
                    assert(listed.take(i + 1)[i as int].0@ == k);
                } else {
                    let j = uri_map::position_of(listed.take(i as int), k);
                    assert(listed.take(i + 1)[j].0@ == k);
                }
            }
        }
        i += 1;
    }
    proof {
        assert(listed.take(i as int) =~= listed);
        core.reconnect_states.lemma_listed();
        let f = |s: ReconnectState| handed_out(s, now);
        assert forall|k: Seq<char>| after@.dom().contains(k) <==> core.reconnect_states@.dom().contains(
            k,
        ) by {
            if core.reconnect_states@.dom().contains(k) {
                let j = uri_map::position_of(listed, k);
                assert(after@.dom().contains(listed[j].0@));
            }
        }
        assert forall|k: Seq<char>| after@.dom().contains(k) implies after@[k] == f(
            core.reconnect_states@[k],
        ) by {
            let j = uri_map::position_of(listed, k);
            assert(listed[j].0@ == k);
        }
        assert(after@ =~= core.reconnect_states@.map_values(f));
    }
    core.reconnect_states = after;
    r
}

/// The task of the endpoint is among those that have ended.
pub open spec fn task_ended(info: EndpointInfo, finished: Seq<usize>) -> bool {
    info.task matches Some(t) && finished.contains(t)
}

/// The endpoints whose task has ended, in the order listed.
pub open spec fn dead_entries(listed: Seq<(String, EndpointInfo)>, finished: Seq<usize>) -> Seq<
    (String, usize),
>
    decreases listed.len(),
{
    if listed.len() == 0 {
        Seq::empty()
    } else {
        let rest = dead_entries(listed.drop_last(), finished);
        if task_ended(listed.last().1, finished) {
            rest.push((listed.last().0, listed.last().1.handle_id))
        } else {
            rest
        }
    }
}

fn contains(v: &Vec<usize>, x: usize) -> (b: bool)
    ensures
        b == v@.contains(x),
{
    let mut i: usize = 0;
    while i < v.len()
        invariant
            i <= v@.len(),
            forall|j: int| 0 <= j < i ==> v@[j] != x,
        decreases v@.len() - i,
    {
        if v[i] == x {
            return true;
        }
        i += 1;
    }
    false
}

/// The endpoints whose task has ended without a word.
pub fn dead_endpoints(core: &CoreState, finished: &Vec<usize>) -> (r: Vec<(String, usize)>)
    ensures
        r@ == dead_entries(core.endpoints.listed(), finished@),
{
    let mut r: Vec<(String, usize)> = Vec::new();
    let ghost listed = core.endpoints.listed();
    let mut i: usize = 0;
    assert(listed.take(0) =~= Seq::empty());
    while i < core.endpoints.len()
        invariant
            i <= listed.len(),
            listed == core.endpoints.listed(),
            r@ == dead_entries(listed.take(i as int), finished@),
        decreases listed.len() - i,
    {
        assert(listed.take(i + 1).drop_last() =~= listed.take(i as int));
        let (uri, info) = core.endpoints.entry(i);
        if let Some(t) = info.task {
            if contains(finished, t) {
                r.push((uri.clone(), info.handle_id));
            }
        }
        i += 1;
    }
    assert(listed.take(i as int) =~= listed);
    r
}

/// Takes an endpoint whose task has ended out of the tables, unless it has gone or been
/// replaced meanwhile. The end counts as an orderly one: it is not tried again.
pub fn reap_endpoint(core: &mut CoreState, uri: &str, expected_handle_id: usize) -> (r: Option<
    StoppedChild,
>)
    ensures
        if old(core).endpoints@.dom().contains(uri@) && old(core).endpoints@[uri@].handle_id
            == expected_handle_id {
            &&& r matches Some(c)
            &&& shutdown::child_taken_out(
                *old(core),
                *final(core),
                expected_handle_id,
                Some(uri@),
                None,
                Seq::empty(),
                c,
            )
            &&& final(core).reconnect_states == old(core).reconnect_states
            &&& final(core).endpoints@ == old(core).endpoints@.remove(uri@)
            &&& !c.should_reconnect
        } else {
            r is None && *final(core) == *old(core)
        },
{
    let same: bool = match core.endpoints.get(uri) {
        Some(info) => info.handle_id == expected_handle_id,
        None => false,
    };
    if !same {
        return None;
    }
    proof {
        reveal_strlit("");
    }
    assert(""@ =~= Seq::empty());
    Some(cleanup_stopped_child_resources(core, expected_handle_id, Some(uri), None, "", false))
}

/// What a core leaves behind when it ends.
#[derive(Debug)]
pub struct LoopEnd {
    /// The error that it ends with, if any.
    pub error: Option<ZmqError>,
    /// The in-process names that are no longer bound.
    pub unregister_inproc: Vec<String>,
}

impl CommandLoop {
    pub fn new() -> (l: CommandLoop)
        ensures
            l.final_error is None,
    {
        CommandLoop { final_error: None }
    }

    /// Whether the loop goes on: until the shutdown is finished.
    pub fn goes_on(coordinator: &ShutdownCoordinator) -> (b: bool)
        ensures
            b == (coordinator.state !is Finished),
    {
        coordinator.state != ShutdownPhase::Finished
    }

    /// Notes a trouble, and starts the shutdown of a running socket.
    pub fn on_trouble(
        &mut self,
        coordinator: &mut ShutdownCoordinator,
        core: &CoreState,
        trouble: LoopTrouble,
    ) -> (r: Option<ShutdownOrders>)
        ensures
            leaves_error(
                trouble,
                old(coordinator).state is Running,
                old(self).final_error,
                final(self).final_error,
            ),
            shutdown::shutdown_begun(*old(coordinator), *final(coordinator), *core, r),
    {
        match trouble {
            LoopTrouble::EventFailed(e) => {
                self.final_error = Some(e);
            },
            LoopTrouble::CommandFailed(e) => {
                self.final_error = Some(e);
            },
            LoopTrouble::EventBusLagged => {
                if coordinator.is_running() {
                    self.final_error = Some(
                        ZmqError::Internal("SocketCore: Event bus lagged".to_owned()),
                    );
                }
            },
            LoopTrouble::EventBusClosed => {
                self.final_error = Some(
                    ZmqError::Internal("SocketCore: Event bus closed".to_owned()),
                );
            },
            LoopTrouble::CommandMailboxClosed => {
                self.final_error = Some(
                    ZmqError::Internal("SocketCore: Command mailbox closed".to_owned()),
                );
            },
        }
        initiate_core_shutdown(coordinator, core)
    }

    /// A tick of the clock: hands out the attempts to reconnect that are due while the
    /// socket runs, looks after its lingering while it lingers, and finds the endpoints
    /// whose task, being among `finished`, has ended.
    pub fn on_maintenance(
        coordinator: &mut ShutdownCoordinator,
        core: &mut CoreState,
        finished: &Vec<usize>,
        now: Instant,
    ) -> (r: MaintenanceWork)
        requires
            old(coordinator).state is Lingering ==> old(coordinator).deadline_fits(
                old(core).options.linger,
                now,
            ),
        ensures
            shutdown::same_but_reconnects(*final(core), *old(core)),
            if old(coordinator).state is Running {
                &&& r.respawn@ == due_uris(old(core).reconnect_states.listed(), now)
                &&& final(core).reconnect_states@ == old(core).reconnect_states@.map_values(
                    |s: ReconnectState| handed_out(s, now),
                )
            } else {
                r.respawn@.len() == 0 && final(core).reconnect_states == old(core).reconnect_states
            },
            exists|pipes_empty: bool|
                {
                    &&& shutdown::emptiness_reported(old(core).pipes_tx.listed(), pipes_empty)
                    &&& old(core).pipes_tx@ == Map::<usize, AsyncSender<Vec<Msg>>>::empty()
                        ==> pipes_empty
                    &&& #[trigger] shutdown::linger_advanced(
                        *old(coordinator),
                        *final(coordinator),
                        old(core).options.linger,
                        pipes_empty,
                        now,
                        r.clean,
                    )
                },
            final(coordinator).state.rank() >= old(coordinator).state.rank(),
            r.dead@ == dead_entries(old(core).endpoints.listed(), finished@),
    {
        let respawn = if coordinator.is_running() {
            take_due_reconnects(core, now)
        } else {
            Vec::new()
        };
        let clean: bool = check_and_advance_linger(coordinator, core, now);
        let dead = dead_endpoints(core, finished);
        let r = MaintenanceWork { respawn, clean, dead };
        proof {
            let linger = core.options.linger;
            let pipes_empty = choose|pipes_empty: bool|
                {
                    &&& shutdown::emptiness_reported(core.pipes_tx.listed(), pipes_empty)
                    &&& core.pipes_tx@ == Map::<usize, AsyncSender<Vec<Msg>>>::empty()
                        ==> pipes_empty
                    &&& #[trigger] shutdown::linger_advanced(
                        *old(coordinator),
                        *coordinator,
                        linger,
                        pipes_empty,
                        now,
                        clean,
                    )
                };
            assert(shutdown::linger_advanced(
                *old(coordinator),
                *coordinator,
                old(core).options.linger,
                pipes_empty,
                now,
                r.clean,
            ));
        }
        r
    }

    /// Ends the core: notes the failure of the pattern to stop, unless there was a trouble
    /// before, and gives up the in-process names.
    pub fn finish(
        self,
        coordinator: &mut ShutdownCoordinator,
        core: &mut CoreState,
        pattern_stopped: Result<bool, ZmqError>,
    ) -> (r: LoopEnd)
        ensures
            r.error == match self.final_error {
                Some(e) => Some(e),
                None => match pattern_stopped {
                    Ok(_) => None,
                    Err(e) => Some(e),
                },
            },
            final(coordinator).state is Finished,
            final(coordinator).same_pending(*old(coordinator)),
            final(coordinator).linger_deadline == old(coordinator).linger_deadline,
            *final(core) == (CoreState {
                bound_inproc_names: final(core).bound_inproc_names,
                ..*old(core)
            }),
            final(core).bound_inproc_names@ == Map::<Seq<char>, ()>::empty(),
            r.unregister_inproc@ == old(core).bound_inproc_names.listed().map_values(
                |e: (String, ())| e.0,
            ),
    {
        let error = match self.final_error {
            Some(e) => Some(e),
            None => match pattern_stopped {
                Ok(_) => None,
                Err(e) => Some(e),
            },
        };
        coordinator.state = ShutdownPhase::Finished;
        let mut names: Vec<String> = Vec::new();
        let ghost listed = core.bound_inproc_names.listed();
        let mut i: usize = 0;
        while i < core.bound_inproc_names.len()
            invariant
                i <= listed.len(),
                *core == *old(core),
                listed == core.bound_inproc_names.listed(),
                names@ == listed.map_values(|e: (String, ())| e.0).take(i as int),
            decreases listed.len() - i,
        {
            let (name, _) = core.bound_inproc_names.entry(i);
            names.push(name.clone());
            i += 1;
        }
        assert(names@ =~= listed.map_values(|e: (String, ())| e.0));
        core.bound_inproc_names = UriMap::new();
        LoopEnd { error, unregister_inproc: names }
    }
}

// ---------------------------------------------------------------------------
// Laws
// ---------------------------------------------------------------------------
proof fn lemma_due(listed: Seq<(String, ReconnectState)>, now: Instant, i: int)
    requires
        0 <= i < listed.len(),
        attempt_due(listed[i].1, now),
    ensures
        due_uris(listed, now).contains(listed[i].0),
    decreases listed.len(),
{
    let rest = due_uris(listed.drop_last(), now);
    if i < listed.len() - 1 {
        lemma_due(listed.drop_last(), now, i);
        let k = choose|k: int| 0 <= k < rest.len() && rest[k] == listed[i].0;
        assert(due_uris(listed, now)[k] == listed[i].0);
    } else {
        assert(due_uris(listed, now)[rest.len() as int] == listed[i].0);
    }
}

proof fn lemma_due_only(listed: Seq<(String, ReconnectState)>, now: Instant, k: int)
    requires
        0 <= k < due_uris(listed, now).len(),
    ensures
        exists|i: int|
            0 <= i < listed.len() && (#[trigger] listed[i]).0 == due_uris(listed, now)[k]
                && attempt_due(listed[i].1, now),
    decreases listed.len(),
{
    let t = listed.drop_last();
    let rest = due_uris(t, now);
    if k < rest.len() {
        lemma_due_only(t, now, k);
        let i = choose|i: int|
            0 <= i < t.len() && (#[trigger] t[i]).0 == rest[k] && attempt_due(t[i].1, now);
        assert(listed[i] == t[i]);
    } else {
        assert(listed[listed.len() - 1].0 == due_uris(listed, now)[k]);
    }
}

/// Every connection whose time has come is tried again, and none whose time has not. An attempt
/// is handed out once, and the failures still count.
pub proof fn due_connections_are_tried_again(
    core: &mut CoreState,
    now: Instant,
    r: Vec<String>,
    i: int,
    k: int,
    uri: Seq<char>,
)
    requires
        call_ensures(take_due_reconnects, (core, now), r),
    ensures
        0 <= i < old(core).reconnect_states.listed().len() && old(core).reconnect_states.listed()[i].1.next_attempt_at is Some && old(core).reconnect_states.listed()[i].1.next_attempt_at->0.spec_nanos() <= now.spec_nanos()
            ==> r@.contains(old(core).reconnect_states.listed()[i].0),
        0 <= k < r@.len() ==> exists|i: int|
            0 <= i < old(core).reconnect_states.listed().len() && (#[trigger] old(core).reconnect_states.listed()[i]).0 == r@[k] && old(core).reconnect_states.listed()[i].1.next_attempt_at is Some && old(core).reconnect_states.listed()[i].1.next_attempt_at->0.spec_nanos() <= now.spec_nanos(),
        final(core).reconnect_states@.dom() == old(core).reconnect_states@.dom(),
        old(core).reconnect_states@.dom().contains(uri) ==> {
            let before = old(core).reconnect_states@[uri];
            let after = final(core).reconnect_states@[uri];
            &&& after.current_attempts == before.current_attempts
            &&& before.next_attempt_at is Some && before.next_attempt_at->0.spec_nanos()
                <= now.spec_nanos() ==> after.next_attempt_at is None
            &&& before.next_attempt_at is Some && before.next_attempt_at->0.spec_nanos()
                > now.spec_nanos() ==> after.next_attempt_at == before.next_attempt_at
        },
{
    let listed = old(core).reconnect_states.listed();
    if 0 <= i < listed.len() && attempt_due(listed[i].1, now) {
        lemma_due(listed, now, i);
    }
    if 0 <= k < r@.len() {
        lemma_due_only(listed, now, k);
        let j = choose|j: int|
            0 <= j < listed.len() && (#[trigger] listed[j]).0 == r@[k] && attempt_due(
                listed[j].1,
                now,
            );
        assert(listed[j].0 == r@[k]);
    }
    assert(final(core).reconnect_states@.dom() =~= old(core).reconnect_states@.dom());
}

proof fn lemma_dead(listed: Seq<(String, EndpointInfo)>, finished: Seq<usize>, i: int)
    requires
        0 <= i < listed.len(),
        task_ended(listed[i].1, finished),
    ensures
        dead_entries(listed, finished).contains((listed[i].0, listed[i].1.handle_id)),
    decreases listed.len(),
{
    let rest = dead_entries(listed.drop_last(), finished);
    let e = (listed[i].0, listed[i].1.handle_id);
    if i < listed.len() - 1 {
        lemma_dead(listed.drop_last(), finished, i);
        let k = choose|k: int| 0 <= k < rest.len() && rest[k] == e;
        assert(dead_entries(listed, finished)[k] == e);
    } else {
        assert(dead_entries(listed, finished)[rest.len() as int] == e);
    }
}

proof fn lemma_dead_only(listed: Seq<(String, EndpointInfo)>, finished: Seq<usize>, k: int)
    requires
        0 <= k < dead_entries(listed, finished).len(),
    ensures
        exists|i: int|
            0 <= i < listed.len() && (#[trigger] listed[i]).0 == dead_entries(
                listed,
                finished,
            )[k].0 && listed[i].1.handle_id == dead_entries(listed, finished)[k].1 && task_ended(
                listed[i].1,
                finished,
            ),
    decreases listed.len(),
{
    let t = listed.drop_last();
    let rest = dead_entries(t, finished);
    if k < rest.len() {
        lemma_dead_only(t, finished, k);
        let i = choose|i: int|
            0 <= i < t.len() && (#[trigger] t[i]).0 == rest[k].0 && t[i].1.handle_id == rest[k].1
                && task_ended(t[i].1, finished);
        assert(listed[i] == t[i]);
    } else {
        assert(listed[listed.len() - 1].0 == dead_entries(listed, finished)[k].0);
    }
}

/// Every endpoint whose task has ended is found, with its handle, and no other.
pub proof fn ended_tasks_are_found(
    core: &CoreState,
    finished: &Vec<usize>,
    r: Vec<(String, usize)>,
    i: int,
    k: int,
)
    requires
        call_ensures(dead_endpoints, (core, finished), r),
    ensures
        0 <= i < core.endpoints.listed().len() && core.endpoints.listed()[i].1.task is Some
            && finished@.contains(core.endpoints.listed()[i].1.task->0) ==> r@.contains(
            (core.endpoints.listed()[i].0, core.endpoints.listed()[i].1.handle_id),
        ),
        0 <= k < r@.len() ==> exists|i: int|
            0 <= i < core.endpoints.listed().len() && (#[trigger] core.endpoints.listed()[i]).0
                == r@[k].0 && core.endpoints.listed()[i].1.handle_id == r@[k].1
                && core.endpoints.listed()[i].1.task is Some && finished@.contains(
                core.endpoints.listed()[i].1.task->0,
            ),
{
    let listed = core.endpoints.listed();
    if 0 <= i < listed.len() && task_ended(listed[i].1, finished@) {
        lemma_dead(listed, finished@, i);
    }
    if 0 <= k < r@.len() {
        lemma_dead_only(listed, finished@, k);
        let j = choose|j: int|
            0 <= j < listed.len() && (#[trigger] listed[j]).0 == r@[k].0 && listed[j].1.handle_id
                == r@[k].1 && task_ended(listed[j].1, finished@);
        assert(listed[j].0 == r@[k].0);
    }
}

/// An endpoint whose task ended is forgotten and not tried again, unless another has taken its
/// place meanwhile.
pub proof fn replaced_endpoint_is_not_reaped(
    core: &mut CoreState,
    uri: &str,
    handle: usize,
    r: Option<StoppedChild>,
    other: Seq<char>,
)
    requires
        call_ensures(reap_endpoint, (core, uri, handle), r),
        other != uri@,
    ensures
        r is Some <==> old(core).endpoints@.dom().contains(uri@) && old(core).endpoints@[uri@].handle_id == handle,
        r is None ==> *final(core) == *old(core),
        r is Some ==> !final(core).endpoints@.dom().contains(uri@) && !r->0.should_reconnect,
        final(core).endpoints@.dom().contains(other) <==> old(core).endpoints@.dom().contains(
            other,
        ),
{
}

/// The loop goes on until the shutdown is finished, and starts without an error.
pub proof fn loop_goes_on_until_finished(c: &ShutdownCoordinator, b: bool, l: CommandLoop)
    requires
        call_ensures(CommandLoop::goes_on, (c,), b),
        call_ensures(CommandLoop::new, (), l),
    ensures
        b <==> c.state != ShutdownPhase::Finished,
        l.final_error is None,
{
}

/// Any trouble ends a running socket's work, and what it was is remembered; events that were
/// lost count only while the socket runs.
pub proof fn trouble_is_remembered(
    l: &mut CommandLoop,
    c: &mut ShutdownCoordinator,
    core: &CoreState,
    trouble: LoopTrouble,
    r: Option<ShutdownOrders>,
)
    requires
        call_ensures(CommandLoop::on_trouble, (l, c, core, trouble), r),
    ensures
        trouble matches LoopTrouble::EventFailed(e) ==> final(l).final_error == Some(e),
        trouble matches LoopTrouble::CommandFailed(e) ==> final(l).final_error == Some(e),
        trouble is EventBusClosed || trouble is CommandMailboxClosed ==> (
        final(l).final_error matches Some(e) && e is Internal),
        trouble is EventBusLagged && old(c).state is Running ==> (final(l).final_error matches Some(
            e,
        ) && e is Internal),
        trouble is EventBusLagged && !(old(c).state is Running) ==> final(l).final_error == old(l).final_error,
        r is Some <==> old(c).state is Running,
        old(c).state is Running ==> final(c).pending_child_actors@ == shutdown::listeners_of(
            core.endpoints.listed(),
        ) && final(c).pending_connections_to_close@ == shutdown::connections_of(
            core.endpoints.listed(),
        ),
        !(old(c).state is Running) ==> *final(c) == *old(c),
{
}

/// A tick tries lost connections again only while the socket runs, and does not end the work of
/// a running socket.
pub proof fn ticks_reconnect_only_while_running(
    c: &mut ShutdownCoordinator,
    core: &mut CoreState,
    finished: &Vec<usize>,
    now: Instant,
    r: MaintenanceWork,
    i: int,
)
    requires
        call_ensures(CommandLoop::on_maintenance, (c, core, finished, now), r),
    ensures
        !(old(c).state is Running) ==> r.respawn@.len() == 0 && final(core).reconnect_states == old(core).reconnect_states,
        old(c).state is Running && 0 <= i < old(core).reconnect_states.listed().len() && old(core).reconnect_states.listed()[i].1.next_attempt_at is Some && old(core).reconnect_states.listed()[i].1.next_attempt_at->0.spec_nanos() <= now.spec_nanos()
            ==> r.respawn@.contains(old(core).reconnect_states.listed()[i].0),
        !(old(c).state is Lingering) ==> !r.clean && *final(c) == *old(c),
        final(core).endpoints == old(core).endpoints,
{
    let listed = old(core).reconnect_states.listed();
    if old(c).state is Running && 0 <= i < listed.len() && attempt_due(listed[i].1, now) {
        lemma_due(listed, now, i);
    }
}

/// A core ends with the first error that it met, or with that of its pattern's stop, and leaves
/// no in-process name bound.
pub proof fn core_ends_with_its_first_error(
    l: CommandLoop,
    c: &mut ShutdownCoordinator,
    core: &mut CoreState,
    stopped: Result<bool, ZmqError>,
    r: LoopEnd,
    name: Seq<char>,
    i: int,
)
    requires
        call_ensures(CommandLoop::finish, (l, c, core, stopped), r),
    ensures
        l.final_error is Some ==> r.error == l.final_error,
        l.final_error is None && stopped is Err ==> r.error == Some(stopped->Err_0),
        l.final_error is None && stopped is Ok ==> r.error is None,
        final(c).state is Finished,
        !final(core).bound_inproc_names@.dom().contains(name),
        r.unregister_inproc@.len() == old(core).bound_inproc_names.listed().len(),
        0 <= i < r.unregister_inproc@.len() ==> r.unregister_inproc@[i] == old(core).bound_inproc_names.listed()[i].0,
{
}

} // verus!
