use vstd::prelude::*;
use vstd::string::*;

use crate::socket::dealer_socket::DealerSocket;
use crate::socket::dish_socket::DishSocket;
use crate::socket::options::SocketOptions;
use crate::socket::pub_socket::PubSocket;
use crate::socket::pull_socket::PullSocket;
use crate::socket::push_socket::PushSocket;
use crate::socket::radio_socket::RadioSocket;
use crate::socket::rep_socket::RepSocket;
use crate::socket::router_socket::RouterSocket;
use crate::socket::socket_core::state::{CoreState, ShutdownCoordinator, ShutdownPhase};
use crate::socket::types::SocketType;

verus! {

/// The name by which a peer learns of a socket's type.
pub open spec fn wire_name(t: SocketType) -> Seq<char> {
    match t {
        SocketType::Pub => "PUB"@,
        SocketType::Sub => "SUB"@,
        SocketType::Req => "REQ"@,
        SocketType::Rep => "REP"@,
        SocketType::Dealer => "DEALER"@,
        SocketType::Router => "ROUTER"@,
        SocketType::Push => "PUSH"@,
        SocketType::Pull => "PULL"@,
        SocketType::Radio => "RADIO"@,
        SocketType::Dish => "DISH"@,
    }
}

pub fn socket_type_name(t: SocketType) -> (s: String)
    ensures
        s@ == wire_name(t),
{
    match t {
        SocketType::Pub => "PUB".to_owned(),
        SocketType::Sub => "SUB".to_owned(),
        SocketType::Req => "REQ".to_owned(),
        SocketType::Rep => "REP".to_owned(),
        SocketType::Dealer => "DEALER".to_owned(),
        SocketType::Router => "ROUTER".to_owned(),
        SocketType::Push => "PUSH".to_owned(),
        SocketType::Pull => "PULL".to_owned(),
        SocketType::Radio => "RADIO".to_owned(),
        SocketType::Dish => "DISH".to_owned(),
    }
}

/// A pattern whose code the program brings, SUB or REQ.
#[derive(Debug, Clone, Copy, PartialEq, Eq, Structural)]
pub enum BroughtPattern {
    Sub,
    Req,
}

/// What a socket does by its messaging pattern.
#[derive(Debug)]
pub enum SocketLogic {
    Brought(BroughtPattern),
    Pub(PubSocket),
    Rep(RepSocket),
    Dealer(DealerSocket),
    Router(RouterSocket),
    Push(PushSocket),
    Pull(PullSocket),
    Radio(RadioSocket),
    Dish(DishSocket),
}

/// A socket: what its core knows, how far it has been shut down, and its pattern.
#[derive(Debug)]
pub struct SocketCore {
    pub core_state: CoreState,
    pub shutdown_coordinator: ShutdownCoordinator,
    pub socket_logic: SocketLogic,
}

impl SocketLogic {
    pub open spec fn wf(self) -> bool {
        match self {
            SocketLogic::Brought(_) => true,
            SocketLogic::Pub(s) => s.wf(),
            SocketLogic::Rep(s) => s.wf(),
            SocketLogic::Dealer(s) => s.wf(),
            SocketLogic::Router(s) => s.wf(),
            SocketLogic::Push(s) => s.wf(),
            SocketLogic::Pull(s) => s.wf(),
            SocketLogic::Radio(s) => s.wf(),
            SocketLogic::Dish(s) => s.wf(),
        }
    }

    /// The type of sockets with this pattern.
    pub open spec fn socket_type(self) -> SocketType {
        match self {
            SocketLogic::Brought(BroughtPattern::Sub) => SocketType::Sub,
            SocketLogic::Brought(BroughtPattern::Req) => SocketType::Req,
            SocketLogic::Pub(_) => SocketType::Pub,
            SocketLogic::Rep(_) => SocketType::Rep,
            SocketLogic::Dealer(_) => SocketType::Dealer,
            SocketLogic::Router(_) => SocketType::Router,
            SocketLogic::Push(_) => SocketType::Push,
            SocketLogic::Pull(_) => SocketType::Pull,
            SocketLogic::Radio(_) => SocketType::Radio,
            SocketLogic::Dish(_) => SocketType::Dish,
        }
    }

    /// Nobody has come yet, and nothing has arrived. A pattern that receives has room for
    /// `rcvhwm` messages, or for one where that is 0.
    pub open spec fn is_new(self, rcvhwm: usize) -> bool {
        match self {
            SocketLogic::Brought(_) => true,
            SocketLogic::Pub(s) => s.is_new(),
            SocketLogic::Rep(s) => s.is_new(rcvhwm),
            SocketLogic::Dealer(s) => s.is_new(rcvhwm),
            SocketLogic::Router(s) => s.is_new(rcvhwm),
            SocketLogic::Push(s) => s.is_new(),
            SocketLogic::Pull(s) => s.is_new(rcvhwm),
            SocketLogic::Radio(s) => s.is_new(),
            SocketLogic::Dish(s) => s.is_new(rcvhwm),
        }
    }

    /// The pattern of a new socket.
    pub fn new(core: &CoreState) -> (l: SocketLogic)
        ensures
            l.wf(),
            l.socket_type() == core.socket_type,
            l.is_new(core.options.rcvhwm),
    {
        match core.socket_type {
            SocketType::Pub => SocketLogic::Pub(PubSocket::new()),
            SocketType::Sub => SocketLogic::Brought(BroughtPattern::Sub),
            SocketType::Req => SocketLogic::Brought(BroughtPattern::Req),
            SocketType::Rep => SocketLogic::Rep(RepSocket::new(core)),
            SocketType::Dealer => SocketLogic::Dealer(DealerSocket::new(core)),
            SocketType::Router => SocketLogic::Router(RouterSocket::new(core)),
            SocketType::Push => SocketLogic::Push(PushSocket::new()),
            SocketType::Pull => SocketLogic::Pull(PullSocket::new(core)),
            SocketType::Radio => SocketLogic::Radio(RadioSocket::new()),
            SocketType::Dish => SocketLogic::Dish(DishSocket::new(core)),
        }
    }
}

impl SocketCore {
    /// A new socket of the given type. Its options hold the name of the type.
    pub fn create(handle: usize, socket_type: SocketType, initial_options: SocketOptions) -> (c:
        SocketCore)
        ensures
            c.core_state.handle == handle,
            c.core_state.socket_type == socket_type,
            c.core_state.options == (SocketOptions {
                socket_type_name: c.core_state.options.socket_type_name,
                ..initial_options
            }),
            c.core_state.options.socket_type_name@ == wire_name(socket_type),
            c.core_state.is_new(),
            c.shutdown_coordinator.is_new(),
            c.socket_logic.wf(),
            c.socket_logic.socket_type() == socket_type,
            c.socket_logic.is_new(initial_options.rcvhwm),
    {
        let mut options = initial_options;
        options.socket_type_name = socket_type_name(socket_type);
        let core_state = CoreState::new(handle, socket_type, options);
        let socket_logic = SocketLogic::new(&core_state);
        SocketCore { core_state, shutdown_coordinator: ShutdownCoordinator::default(), socket_logic }
    }

    /// Whether the socket has not begun to shut down.
    pub fn is_running(&self) -> (b: bool)
        ensures
            b == (self.shutdown_coordinator.state is Running),
    {
        self.shutdown_coordinator.state == ShutdownPhase::Running
    }
}

// ---------------------------------------------------------------------------
// Laws
// ---------------------------------------------------------------------------
/// A socket has the pattern of its type.
pub proof fn pattern_goes_with_the_type(core: &CoreState, l: SocketLogic)
    requires
        call_ensures(SocketLogic::new, (core,), l),
    ensures
        core.socket_type is Pub <==> l is Pub,
        core.socket_type is Rep <==> l is Rep,
        core.socket_type is Dealer <==> l is Dealer,
        core.socket_type is Router <==> l is Router,
        core.socket_type is Push <==> l is Push,
        core.socket_type is Pull <==> l is Pull,
        core.socket_type is Radio <==> l is Radio,
        core.socket_type is Dish <==> l is Dish,
        core.socket_type is Sub <==> l == SocketLogic::Brought(BroughtPattern::Sub),
        core.socket_type is Req <==> l == SocketLogic::Brought(BroughtPattern::Req),
        l matches SocketLogic::Pull(s) ==> (core.options.rcvhwm > 0 ==> s.incoming.capacity()
            == core.options.rcvhwm) && s.incoming.queued().len() == 0,
        l matches SocketLogic::Dealer(s) ==> (core.options.rcvhwm > 0 ==> s.incoming.capacity()
            == core.options.rcvhwm) && s.incoming.queued().len() == 0,
{
}

/// A peer learns of a socket's type by the name that the protocol has for it.
pub proof fn types_have_their_names(t: SocketType, s: String)
    requires
        call_ensures(socket_type_name, (t,), s),
    ensures
        t is Pub ==> s@ == "PUB"@,
        t is Sub ==> s@ == "SUB"@,
        t is Req ==> s@ == "REQ"@,
        t is Rep ==> s@ == "REP"@,
        t is Dealer ==> s@ == "DEALER"@,
        t is Router ==> s@ == "ROUTER"@,
        t is Push ==> s@ == "PUSH"@,
        t is Pull ==> s@ == "PULL"@,
        t is Radio ==> s@ == "RADIO"@,
        t is Dish ==> s@ == "DISH"@,
{
}

/// A new socket has the type, handle and options asked for, runs, and knows nobody.
pub proof fn created_socket_is_as_asked_for(
    handle: usize,
    t: SocketType,
    options: SocketOptions,
    c: SocketCore,
    running: bool,
    uri: Seq<char>,
)
    requires
        call_ensures(SocketCore::create, (handle, t, options), c),
        call_ensures(SocketCore::is_running, (&c,), running),
    ensures
        c.core_state.handle == handle,
        c.core_state.socket_type == t,
        running,
        c.core_state.options.sndhwm == options.sndhwm,
        c.core_state.options.rcvhwm == options.rcvhwm,
        c.core_state.options.sndtimeo == options.sndtimeo,
        c.core_state.options.rcvtimeo == options.rcvtimeo,
        c.core_state.options.linger == options.linger,
        c.core_state.options.reconnect_ivl == options.reconnect_ivl,
        c.core_state.options.socket_type_name@ == wire_name(t),
        !c.core_state.endpoints@.dom().contains(uri),
        t is Dealer <==> c.socket_logic is Dealer,
        t is Router <==> c.socket_logic is Router,
        t is Pull <==> c.socket_logic is Pull,
        t is Push <==> c.socket_logic is Push,
        t is Pub <==> c.socket_logic is Pub,
        t is Rep <==> c.socket_logic is Rep,
        t is Radio <==> c.socket_logic is Radio,
        t is Dish <==> c.socket_logic is Dish,
        t is Sub || t is Req <==> c.socket_logic is Brought,
{
}

} // verus!
