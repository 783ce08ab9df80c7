use vstd::prelude::*;

use std::sync::Arc;
use tokio::sync::{OwnedSemaphorePermit, Semaphore};

use crate::error::ZmqError;
use crate::id_map::IdMap;
use crate::time::Duration;

verus! {

/// A semaphore of the `tokio` crate.
#[verifier::external_type_specification]
#[verifier::external_body]
pub struct ExSemaphore(Semaphore);

/// A permit of a semaphore of the `tokio` crate, given back when it is dropped.
#[verifier::external_type_specification]
#[verifier::external_body]
pub struct ExOwnedSemaphorePermit(OwnedSemaphorePermit);

/// How many permits a semaphore was made with.
pub uninterp spec fn permits_made(semaphore: Semaphore) -> nat;

/// `tokio::sync::Semaphore::new`: a semaphore with so many permits. It panics above
/// `Semaphore::MAX_PERMITS`, which is an eighth of what a `usize` holds.
#[verifier::external_body]
pub(crate) fn new_semaphore(permits: usize) -> (s: Semaphore)
    requires
        permits <= usize::MAX / 8,
    ensures
        permits_made(s) == permits,
{
    Semaphore::new(permits)
}

/// `tokio::sync::OwnedSemaphorePermit::semaphore`: the semaphore that a permit was taken
/// from.
pub uninterp spec fn permit_source(permit: OwnedSemaphorePermit) -> Semaphore;

/// The semaphore was asked for a permit, without waiting, and gave none.
pub uninterp spec fn permit_refused(semaphore: Semaphore) -> bool;

/// `tokio::sync::Semaphore::try_acquire_owned`: the semaphore is asked for a permit, and gives
/// one of its own where one is free and it is not closed. Both rest with the other users of
/// the semaphore, so nothing is stated of when a permit comes.
#[verifier::external_body]
fn permit_now(semaphore: &Arc<Semaphore>) -> (r: Option<OwnedSemaphorePermit>)
    ensures
        r matches Some(p) ==> permit_source(p) == **semaphore,
        r is None ==> permit_refused(**semaphore),
{
    semaphore.clone().try_acquire_owned().ok()
}

/// The semaphore was closed: it gives out no permit any more, and those who waited for one
/// were woken.
pub uninterp spec fn close_called(semaphore: Semaphore) -> bool;

/// `tokio::sync::Semaphore::close`: the semaphore stays the same one, and is closed.
#[verifier::external_body]
fn close_semaphore(semaphore: &mut Arc<Semaphore>)
    ensures
        close_called(**final(semaphore)),
        **final(semaphore) == **old(semaphore),
{
    semaphore.close()
}

/// The right to write to a pipe, and whether the pipe is going.
#[derive(Debug)]
pub struct PipeState {
    semaphore: Arc<Semaphore>,
    is_closing: bool,
}

impl PipeState {
    pub closed spec fn spec_is_closing(self) -> bool {
        self.is_closing
    }

    /// The semaphore whose permits give the right to write to the pipe.
    pub closed spec fn guard(self) -> Semaphore {
        *self.semaphore
    }

    /// How many may write to the pipe at a time.
    pub open spec fn writers(self) -> nat {
        permits_made(self.guard())
    }

    pub fn is_closing(&self) -> (b: bool)
        ensures
            b == self.spec_is_closing(),
    {
        self.is_closing
    }
}

/// The pipe, where there is one of that name, was closed to its writers.
pub open spec fn writers_stopped(pipes: Map<usize, PipeState>, pipe_id: usize) -> bool {
    pipes.dom().contains(pipe_id) ==> close_called(pipes[pipe_id].guard())
}

/// The outcome of asking for a permit.
#[derive(Debug)]
pub enum PermitStep {
    Done(Result<OwnedSemaphorePermit, ZmqError>),
    /// Wait for a permit of the semaphore, no longer than the time given, and hand the
    /// outcome to `permit_waited`.
    Wait(Arc<Semaphore>, Option<Duration>),
}

/// How a wait for a permit ended.
#[derive(Debug)]
pub enum WaitedPermit {
    Permit(OwnedSemaphorePermit),
    /// The semaphore was closed meanwhile.
    Closed,
    TimedOut,
}

/// Sees to it that one message at a time is written to each pipe.
#[derive(Debug)]
pub struct WritePipeCoordinator {
    pipe_states: IdMap<PipeState>,
}

impl WritePipeCoordinator {
    /// The pipes that can be written to.
    pub closed spec fn pipes(self) -> Map<usize, PipeState> {
        self.pipe_states@
    }

    /// Every pipe that can be written to has one writer at a time and is not going.
    pub open spec fn wf(self) -> bool {
        forall|p: usize| #[trigger]
            self.pipes().dom().contains(p) ==> self.pipes()[p].writers() == 1
                && !self.pipes()[p].spec_is_closing()
    }

    pub fn new() -> (c: WritePipeCoordinator)
        ensures
            c.wf(),
            c.pipes() == Map::<usize, PipeState>::empty(),
    {
        WritePipeCoordinator { pipe_states: IdMap::new() }
    }

    /// Enters a pipe, unless it is entered.
    pub fn add_pipe(&mut self, pipe_id: usize)
        requires
            old(self).wf(),
        ensures
            final(self).wf(),
            old(self).pipes().dom().contains(pipe_id) ==> *final(self) == *old(self),
            final(self).pipes().dom() == old(self).pipes().dom().insert(pipe_id),
            final(self).pipes().remove(pipe_id) == old(self).pipes().remove(pipe_id),
    {
        if self.pipe_states.contains_key(pipe_id) {
            assert(self.pipes().dom() =~= self.pipes().dom().insert(pipe_id));
            return;
        }
        let state = PipeState { semaphore: Arc::new(new_semaphore(1)), is_closing: false };
        let _ = self.pipe_states.insert(pipe_id, state);
        assert(self.pipes().dom() =~= old(self).pipes().dom().insert(pipe_id));
        assert(self.pipes().remove(pipe_id) =~= old(self).pipes().remove(pipe_id));
    }

    /// Takes a pipe out: it is going, and those who wait to write to it are woken.
    pub fn remove_pipe(&mut self, pipe_id: usize) -> (r: Option<PipeState>)
        requires
            old(self).wf(),
        ensures
            final(self).wf(),
            final(self).pipes() == old(self).pipes().remove(pipe_id),
            r is Some == old(self).pipes().dom().contains(pipe_id),
            r matches Some(s) ==> s.spec_is_closing() && s.guard() == old(self).pipes()[pipe_id].guard(),
            writers_stopped(old(self).pipes(), pipe_id),
    {
        match self.pipe_states.remove(pipe_id) {
            Some(state) => {
                let mut state = state;
                state.is_closing = true;
                close_semaphore(&mut state.semaphore);
                assert(old(self).pipes().dom().contains(pipe_id));
                assert forall|p: usize| #[trigger] self.pipes().dom().contains(p) implies self.pipes()[p].writers()
                    == 1 && !self.pipes()[p].spec_is_closing() by {
                    assert(old(self).pipes().dom().contains(p));
                }
                Some(state)
            },
            None => None,
        }
    }

    /// Asks for the right to write to a pipe. A time of zero asks for a right that is free
    /// already; any other time, and none, may wait. What is handed out or waited for is a
    /// permit of the pipe's own semaphore; whether one is free rests with those who hold it.
    pub fn acquire_send_permit(&self, pipe_id: usize, timeout_opt: Option<Duration>) -> (r:
        PermitStep)
        requires
            self.wf(),
        ensures
            if !self.pipes().dom().contains(pipe_id) {
                r matches PermitStep::Done(Err(ZmqError::HostUnreachable(m))) && m@
                    == "Target pipe for send not available or recently detached"@
            } else if timeout_opt matches Some(d) && d.spec_nanos() == 0 {
                match r {
                    PermitStep::Done(Ok(p)) => permit_source(p) == self.pipes()[pipe_id].guard(),
                    _ => r == PermitStep::Done(Err(ZmqError::ResourceLimitReached))
                        && permit_refused(self.pipes()[pipe_id].guard()),
                }
            } else {
                r matches PermitStep::Wait(s, t) && *s == self.pipes()[pipe_id].guard() && t
                    == timeout_opt
            },
    {
        match self.pipe_states.get(pipe_id) {
            Some(state) => {
                if state.is_closing {
                    return PermitStep::Done(
                        Err(
                            ZmqError::HostUnreachable(
                                "Target pipe is closing or has been detached".to_owned(),
                            ),
                        ),
                    );
                }
                if let Some(d) = timeout_opt {
                    if d.is_zero() {
                        return PermitStep::Done(permit_tried(permit_now(&state.semaphore)));
                    }
                }
                PermitStep::Wait(state.semaphore.clone(), timeout_opt)
            },
            None => PermitStep::Done(
                Err(
                    ZmqError::HostUnreachable(
                        "Target pipe for send not available or recently detached".to_owned(),
                    ),
                ),
            ),
        }
    }
}

/// What asking for a right that is free already comes to.
pub fn permit_tried(permit: Option<OwnedSemaphorePermit>) -> (r: Result<
    OwnedSemaphorePermit,
    ZmqError,
>)
    ensures
        r == match permit {
            Some(p) => Ok::<OwnedSemaphorePermit, ZmqError>(p),
            None => Err(ZmqError::ResourceLimitReached),
        },
{
    match permit {
        Some(p) => Ok(p),
        None => Err(ZmqError::ResourceLimitReached),
    }
}

/// What a wait for a permit comes to.
pub fn permit_waited(outcome: WaitedPermit) -> (r: Result<OwnedSemaphorePermit, ZmqError>)
    ensures
        match outcome {
            WaitedPermit::Permit(p) => r == Ok::<OwnedSemaphorePermit, ZmqError>(p),
            WaitedPermit::Closed => r matches Err(ZmqError::HostUnreachable(m)) && m@
                == "Target pipe was detached during send operation"@,
            WaitedPermit::TimedOut => r == Err::<OwnedSemaphorePermit, ZmqError>(ZmqError::Timeout),
        },
{
    match outcome {
        WaitedPermit::Permit(p) => Ok(p),
        WaitedPermit::Closed => Err(
            ZmqError::HostUnreachable("Target pipe was detached during send operation".to_owned()),
        ),
        WaitedPermit::TimedOut => Err(ZmqError::Timeout),
    }
}

// ---------------------------------------------------------------------------
// Laws
// ---------------------------------------------------------------------------
/// Nobody writes to a pipe that is not entered, and what is handed out or waited for is the
/// right to write to the pipe asked for. Only a time of zero does not wait.
pub proof fn right_is_for_the_pipe_asked_for(
    c: &WritePipeCoordinator,
    pipe: usize,
    limit: Option<Duration>,
    r: PermitStep,
)
    requires
        call_ensures(WritePipeCoordinator::acquire_send_permit, (c, pipe, limit), r),
    ensures
        !c.pipes().dom().contains(pipe) ==> (r matches PermitStep::Done(Err(e))
            && e is HostUnreachable),
        c.pipes().dom().contains(pipe) && (limit is None || limit->0.spec_nanos() > 0) ==> (
        r matches PermitStep::Wait(s, t) && *s == c.pipes()[pipe].guard() && t == limit),
        c.pipes().dom().contains(pipe) && limit is Some && limit->0.spec_nanos() == 0 ==> !(
        r is Wait) && (r matches PermitStep::Done(Ok(p)) ==> permit_source(p)
            == c.pipes()[pipe].guard()) && (r matches PermitStep::Done(Err(e))
            ==> e is ResourceLimitReached),
{
}

/// A pipe that is entered has one writer at a time; one that is entered already keeps the
/// writers it has, and no other pipe is touched.
pub proof fn entered_pipe_has_one_writer(c: &mut WritePipeCoordinator, pipe: usize, other: usize)
    requires
        call_ensures(WritePipeCoordinator::add_pipe, (c, pipe), ()),
        other != pipe,
    ensures
        final(c).pipes().dom().contains(pipe),
        permits_made(final(c).pipes()[pipe].guard()) == 1,
        !final(c).pipes()[pipe].spec_is_closing(),
        old(c).pipes().dom().contains(pipe) ==> *final(c) == *old(c),
        final(c).pipes().dom().contains(other) <==> old(c).pipes().dom().contains(other),
        old(c).pipes().dom().contains(other) ==> final(c).pipes()[other] == old(c).pipes()[other],
{
    assert(final(c).pipes().dom().contains(pipe));
    assert(final(c).pipes().remove(pipe).dom().contains(other) == old(c).pipes().remove(
        pipe,
    ).dom().contains(other));
    if old(c).pipes().dom().contains(other) {
        assert(final(c).pipes().remove(pipe)[other] == old(c).pipes().remove(pipe)[other]);
    }
}

/// Those who wait to write to a pipe that goes are woken, and nobody can ask for it any more.
pub proof fn gone_pipe_wakes_its_writers(
    c: &mut WritePipeCoordinator,
    pipe: usize,
    other: usize,
    r: Option<PipeState>,
)
    requires
        call_ensures(WritePipeCoordinator::remove_pipe, (c, pipe), r),
        other != pipe,
    ensures
        !final(c).pipes().dom().contains(pipe),
        old(c).pipes().dom().contains(pipe) ==> close_called(old(c).pipes()[pipe].guard()) && (
        r matches Some(s) && s.spec_is_closing() && s.guard() == old(c).pipes()[pipe].guard()),
        !old(c).pipes().dom().contains(pipe) ==> r is None,
        final(c).pipes().dom().contains(other) <==> old(c).pipes().dom().contains(other),
        old(c).pipes().dom().contains(other) ==> final(c).pipes()[other] == old(c).pipes()[other],
{
}

/// A wait for the right to write ends in the right, in an unreachable peer where the pipe went,
/// or in a timeout; without waiting there is the right or none free.
pub proof fn wait_for_the_right_ends_as_it_went(
    outcome: WaitedPermit,
    r: Result<OwnedSemaphorePermit, ZmqError>,
    tried: Option<OwnedSemaphorePermit>,
    q: Result<OwnedSemaphorePermit, ZmqError>,
    c: WritePipeCoordinator,
    s: &PipeState,
    b: bool,
)
    requires
        call_ensures(permit_waited, (outcome,), r),
        call_ensures(permit_tried, (tried,), q),
        call_ensures(WritePipeCoordinator::new, (), c),
        call_ensures(PipeState::is_closing, (s,), b),
    ensures
        outcome matches WaitedPermit::Permit(p) ==> r == Ok::<OwnedSemaphorePermit, ZmqError>(p),
        outcome is Closed ==> (r matches Err(e) && e is HostUnreachable),
        outcome is TimedOut ==> (r matches Err(e) && e is Timeout),
        tried matches Some(p) ==> q == Ok::<OwnedSemaphorePermit, ZmqError>(p),
        tried is None ==> (q matches Err(e) && e is ResourceLimitReached),
        forall|p: usize| !c.pipes().dom().contains(p),
        b == s.spec_is_closing(),
{
}

} // verus!
