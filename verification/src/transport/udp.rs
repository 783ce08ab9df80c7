use vstd::prelude::*;
use vstd::string::*;

use crate::error::ZmqError;
use crate::message;
use crate::message::Msg;
use crate::socket::options::UdpOptions;
use crate::text::{chars_of, joined, same_text};
use crate::transport::address;
use crate::transport::address::{parse_ipv4, IpAddr, Ipv4Addr, Ipv6Addr, SocketAddr};
use crate::transport::udp_endpoint;
use crate::transport::udp_endpoint::{unspecified_address, UdpEndpoint, UdpMode};

verus! {

// ---------------------------------------------------------------------------
// Network interfaces
// ---------------------------------------------------------------------------
/// One address of a network interface, as the system lists it. Of an address that is not an
/// IPv4 one only its interface is known.
#[derive(Debug)]
pub struct InterfaceEntry {
    pub name: String,
    pub ipv4: Option<Ipv4Addr>,
}

/// The text can be the name of an interface: it holds no NUL.
pub open spec fn is_interface_name(iface: Seq<char>) -> bool {
    !iface.contains('\0')
}

fn interface_name_fits(iface: &str) -> (b: bool)
    ensures
        b == is_interface_name(iface@),
{
    let chars = chars_of(iface);
    let mut i: usize = 0;
    while i < chars.len()
        invariant
            i <= chars@.len(),
            chars@ == iface@,
            forall|j: int| 0 <= j < i ==> chars@[j] != '\0',
        decreases chars@.len() - i,
    {
        if chars[i] == '\0' {
            assert(iface@[i as int] == '\0');
            return false;
        }
        i += 1;
    }
    true
}

/// The entry gives an IPv4 address of the interface.
pub open spec fn gives_ipv4(entry: InterfaceEntry, iface: Seq<char>) -> bool {
    entry.name@ == iface && entry.ipv4 is Some
}

/// The first IPv4 address that the system lists for an interface.
pub open spec fn listed_ipv4(entries: Seq<InterfaceEntry>, iface: Seq<char>) -> Option<Ipv4Addr>
    decreases entries.len(),
{
    if entries.len() == 0 {
        None
    } else if gives_ipv4(entries[0], iface) {
        entries[0].ipv4
    } else {
        listed_ipv4(entries.skip(1), iface)
    }
}

proof fn lemma_listed_ipv4(entries: Seq<InterfaceEntry>, iface: Seq<char>, n: int)
    requires
        0 <= n <= entries.len(),
        forall|j: int| 0 <= j < n ==> !gives_ipv4(#[trigger] entries[j], iface),
    ensures
        listed_ipv4(entries, iface) == listed_ipv4(entries.skip(n), iface),
    decreases n,
{
    if n == 0 {
        assert(entries.skip(0) =~= entries);
    } else {
        assert(!gives_ipv4(entries[0], iface));
        assert forall|j: int| 0 <= j < n - 1 implies !gives_ipv4(
            #[trigger] entries.skip(1)[j],
            iface,
        ) by {
            assert(entries.skip(1)[j] == entries[j + 1]);
        }
        lemma_listed_ipv4(entries.skip(1), iface, n - 1);
        assert(entries.skip(1).skip(n - 1) =~= entries.skip(n));
    }
}

/// The IPv4 address of an interface: the text itself where it is an address, and otherwise the
/// first address that the system lists for the interface. `entries` is what the system lists,
/// or `None` where it could not.
pub fn resolve_iface_to_ipv4(iface: &str, entries: Option<&Vec<InterfaceEntry>>) -> (r: Result<
    Ipv4Addr,
    ZmqError,
>)
    ensures
        match address::ipv4_value(iface@) {
            Some(a) => r == Ok::<Ipv4Addr, ZmqError>(a),
            None => if !is_interface_name(iface@) {
                r matches Err(ZmqError::InvalidEndpoint(m)) && m@ == "Invalid interface name: "@
                    + iface@
            } else {
                match entries {
                    None => r matches Err(ZmqError::InvalidEndpoint(m)) && m@
                        == "getifaddrs failed"@,
                    Some(list) => match listed_ipv4(list@, iface@) {
                        Some(a) => r == Ok::<Ipv4Addr, ZmqError>(a),
                        None => r matches Err(ZmqError::InvalidEndpoint(m)) && m@ == "Interface '"@
                            + iface@ + "' not found or has no IPv4 address"@,
                    },
                }
            },
        },
{
    let chars = chars_of(iface);
    assert(chars@.subrange(0, chars@.len() as int) =~= iface@);
    if let Some(a) = parse_ipv4(&chars, 0, chars.len()) {
        return Ok(a);
    }
    if !interface_name_fits(iface) {
        return Err(ZmqError::InvalidEndpoint(joined("Invalid interface name: ", iface)));
    }
    let list = match entries {
        Some(list) => list,
        None => {
            return Err(ZmqError::InvalidEndpoint("getifaddrs failed".to_owned()));
        },
    };
    let mut i: usize = 0;
    while i < list.len()
        invariant
            i <= list@.len(),
            entries == Some(list),
            address::ipv4_value(iface@) is None,
            is_interface_name(iface@),
            forall|j: int| 0 <= j < i ==> !gives_ipv4(#[trigger] list@[j], iface@),
        decreases list@.len() - i,
    {
        if same_text(list[i].name.as_str(), iface) {
            if let Some(a) = list[i].ipv4 {
                proof {
                    lemma_listed_ipv4(list@, iface@, i as int);
                    assert(list@.skip(i as int)[0] == list@[i as int]);
                }
                return Ok(a);
            }
        }
        i += 1;
    }
    proof {
        lemma_listed_ipv4(list@, iface@, i as int);
    }
    let mut m = joined("Interface '", iface);
    m.append("' not found or has no IPv4 address");
    Err(ZmqError::InvalidEndpoint(m))
}

/// The index of an interface. `found` is what the system says, and 0 where it knows none of
/// the name.
pub fn resolve_iface_to_index(iface: &str, found: u32) -> (r: Result<u32, ZmqError>)
    ensures
        if !is_interface_name(iface@) {
            r matches Err(ZmqError::InvalidEndpoint(m)) && m@ == "Invalid interface name: "@
                + iface@
        } else if found == 0 {
            r matches Err(ZmqError::InvalidEndpoint(m)) && m@ == "Interface '"@ + iface@
                + "' not found"@
        } else {
            r == Ok::<u32, ZmqError>(found)
        },
{
    if !interface_name_fits(iface) {
        return Err(ZmqError::InvalidEndpoint(joined("Invalid interface name: ", iface)));
    }
    if found == 0 {
        let mut m = joined("Interface '", iface);
        m.append("' not found");
        return Err(ZmqError::InvalidEndpoint(m));
    }
    Ok(found)
}

// ---------------------------------------------------------------------------
// Sockets
// ---------------------------------------------------------------------------
/// What a socket is for.
#[derive(Debug, Clone, Copy, PartialEq, Eq, Structural)]
pub enum UdpUse {
    /// Receives at the endpoint.
    Receive,
    /// Receives at a port that the system picks.
    ConnectedReceive,
    /// Sends from the endpoint's port, on any local address.
    BoundSend,
    /// Sends to the endpoint.
    ConnectedSend,
    /// Sends to the endpoint only, by the descriptor alone.
    RawConnectedSend,
}

/// One step of setting a socket up.
#[derive(Debug, Clone, Copy, PartialEq, Eq, Structural)]
pub enum UdpOp {
    ReuseAddress,
    ReusePort,
    /// IPv4 datagrams are taken too.
    DualStack,
    Broadcast,
    MulticastIfV4(Ipv4Addr),
    MulticastLoopV4(bool),
    MulticastTtlV4(u32),
    MulticastIfV6(u32),
    MulticastLoopV6(bool),
    Bind(SocketAddr),
    JoinV4(Ipv4Addr, Ipv4Addr),
    JoinV6(Ipv6Addr, u32),
    Connect(SocketAddr),
    NonBlocking,
}

/// The steps that the mode of an endpoint asks for.
pub open spec fn mode_ops(
    mode: UdpMode,
    options: UdpOptions,
    iface_v4: Ipv4Addr,
    iface_index: u32,
) -> Seq<UdpOp> {
    match mode {
        UdpMode::Unicast => Seq::empty(),
        UdpMode::Broadcast => seq![UdpOp::Broadcast],
        UdpMode::Multicast { group: IpAddr::V4(_), .. } => seq![
            UdpOp::MulticastIfV4(iface_v4),
            UdpOp::MulticastLoopV4(options.multicast_loop),
            UdpOp::MulticastTtlV4(options.multicast_hops),
        ],
        UdpMode::Multicast { group: IpAddr::V6(_), .. } => seq![
            UdpOp::MulticastIfV6(iface_index),
            UdpOp::MulticastLoopV6(options.multicast_loop),
        ],
    }
}

/// The steps by which a group is joined.
pub open spec fn join_ops(mode: UdpMode, iface_v4: Ipv4Addr, iface_index: u32) -> Seq<UdpOp> {
    match mode {
        UdpMode::Multicast { group: IpAddr::V4(g), .. } => seq![UdpOp::JoinV4(g, iface_v4)],
        UdpMode::Multicast { group: IpAddr::V6(g), .. } => seq![UdpOp::JoinV6(g, iface_index)],
        _ => Seq::empty(),
    }
}

/// The address that leaves the choice of address and port to the system.
pub open spec fn any_address(is_ipv6: bool) -> SocketAddr {
    SocketAddr {
        ip: if is_ipv6 {
            IpAddr::V6(Ipv6Addr { g0: 0, g1: 0, g2: 0, g3: 0, g4: 0, g5: 0, g6: 0, g7: 0 })
        } else {
            IpAddr::V4(Ipv4Addr { a: 0, b: 0, c: 0, d: 0 })
        },
        port: 0,
    }
}

/// Every local address, with the port of the endpoint.
pub open spec fn port_address(endpoint: UdpEndpoint) -> SocketAddr {
    SocketAddr {
        ip: udp_endpoint::unspecified_like(endpoint.bind_addr.ip),
        port: endpoint.bind_addr.port,
    }
}

/// The steps of setting a socket up, in order.
pub open spec fn setup_ops(
    endpoint: UdpEndpoint,
    purpose: UdpUse,
    options: UdpOptions,
    iface_v4: Ipv4Addr,
    iface_index: u32,
) -> Seq<UdpOp> {
    let start = seq![UdpOp::ReuseAddress, UdpOp::ReusePort] + if endpoint.is_ipv6 {
        seq![UdpOp::DualStack]
    } else {
        Seq::empty()
    };
    let mode = mode_ops(endpoint.mode, options, iface_v4, iface_index);
    let join = join_ops(endpoint.mode, iface_v4, iface_index);
    match purpose {
        UdpUse::Receive => start + mode + seq![UdpOp::Bind(endpoint.bind_addr)] + join + seq![
            UdpOp::NonBlocking,
        ],
        UdpUse::ConnectedReceive => start + mode + seq![
            UdpOp::Bind(any_address(endpoint.is_ipv6)),
        ] + join + seq![UdpOp::NonBlocking],
        UdpUse::BoundSend => start + mode + seq![
            UdpOp::Bind(port_address(endpoint)),
            UdpOp::NonBlocking,
        ],
        UdpUse::ConnectedSend => start + mode + seq![
            UdpOp::Bind(any_address(endpoint.is_ipv6)),
            UdpOp::NonBlocking,
        ],
        UdpUse::RawConnectedSend => start + seq![
            UdpOp::Bind(any_address(endpoint.is_ipv6)),
            UdpOp::Connect(endpoint.send_addr),
            UdpOp::NonBlocking,
        ],
    }
}

fn push_mode_ops(
    ops: &mut Vec<UdpOp>,
    mode: &UdpMode,
    options: &UdpOptions,
    iface_v4: Ipv4Addr,
    iface_index: u32,
)
    ensures
        final(ops)@ == old(ops)@ + mode_ops(*mode, *options, iface_v4, iface_index),
{
    match mode {
        UdpMode::Unicast => {},
        UdpMode::Broadcast => {
            ops.push(UdpOp::Broadcast);
        },
        UdpMode::Multicast { group, .. } => match group {
            IpAddr::V4(_) => {
                ops.push(UdpOp::MulticastIfV4(iface_v4));
                ops.push(UdpOp::MulticastLoopV4(options.multicast_loop));
                ops.push(UdpOp::MulticastTtlV4(options.multicast_hops));
            },
            IpAddr::V6(_) => {
                ops.push(UdpOp::MulticastIfV6(iface_index));
                ops.push(UdpOp::MulticastLoopV6(options.multicast_loop));
            },
        },
    }
    assert(ops@ =~= old(ops)@ + mode_ops(*mode, *options, iface_v4, iface_index));
}

fn push_join_ops(ops: &mut Vec<UdpOp>, mode: &UdpMode, iface_v4: Ipv4Addr, iface_index: u32)
    ensures
        final(ops)@ == old(ops)@ + join_ops(*mode, iface_v4, iface_index),
{
    if let UdpMode::Multicast { group, .. } = mode {
        match group {
            IpAddr::V4(g) => {
                ops.push(UdpOp::JoinV4(*g, iface_v4));
            },
            IpAddr::V6(g) => {
                ops.push(UdpOp::JoinV6(*g, iface_index));
            },
        }
    }
    assert(ops@ =~= old(ops)@ + join_ops(*mode, iface_v4, iface_index));
}

/// The steps of setting a socket up, in order. A multicast endpoint needs the address or the
/// index of its interface, after the group's family.
pub fn socket_setup(
    endpoint: &UdpEndpoint,
    purpose: UdpUse,
    options: &UdpOptions,
    iface_v4: Ipv4Addr,
    iface_index: u32,
) -> (r: Vec<UdpOp>)
    ensures
        r@ == setup_ops(*endpoint, purpose, *options, iface_v4, iface_index),
{
    let mut ops: Vec<UdpOp> = Vec::new();
    ops.push(UdpOp::ReuseAddress);
    ops.push(UdpOp::ReusePort);
    if endpoint.is_ipv6 {
        ops.push(UdpOp::DualStack);
    }
    match purpose {
        UdpUse::Receive => {
            push_mode_ops(&mut ops, &endpoint.mode, options, iface_v4, iface_index);
            ops.push(UdpOp::Bind(endpoint.bind_addr));
            push_join_ops(&mut ops, &endpoint.mode, iface_v4, iface_index);
        },
        UdpUse::ConnectedReceive => {
            push_mode_ops(&mut ops, &endpoint.mode, options, iface_v4, iface_index);
            ops.push(UdpOp::Bind(unbound_address(endpoint.is_ipv6)));
            push_join_ops(&mut ops, &endpoint.mode, iface_v4, iface_index);
        },
        UdpUse::BoundSend => {
            push_mode_ops(&mut ops, &endpoint.mode, options, iface_v4, iface_index);
            let local = unspecified_address(endpoint.bind_addr.ip);
            ops.push(UdpOp::Bind(SocketAddr::new(local, endpoint.bind_addr.port)));
        },
        UdpUse::ConnectedSend => {
            push_mode_ops(&mut ops, &endpoint.mode, options, iface_v4, iface_index);
            ops.push(UdpOp::Bind(unbound_address(endpoint.is_ipv6)));
        },
        UdpUse::RawConnectedSend => {
            ops.push(UdpOp::Bind(unbound_address(endpoint.is_ipv6)));
            ops.push(UdpOp::Connect(endpoint.send_addr));
        },
    }
    ops.push(UdpOp::NonBlocking);
    assert(ops@ =~= setup_ops(*endpoint, purpose, *options, iface_v4, iface_index));
    ops
}

fn unbound_address(is_ipv6: bool) -> (a: SocketAddr)
    ensures
        a == any_address(is_ipv6),
{
    if is_ipv6 {
        SocketAddr::new(IpAddr::V6(Ipv6Addr::unspecified()), 0)
    } else {
        SocketAddr::new(IpAddr::V4(Ipv4Addr::unspecified()), 0)
    }
}

/// A socket is bound once, before it joins any group.
pub proof fn groups_are_joined_after_binding(
    endpoint: UdpEndpoint,
    purpose: UdpUse,
    options: UdpOptions,
    iface_v4: Ipv4Addr,
    iface_index: u32,
    i: int,
    j: int,
)
    requires
        ({
            let ops = setup_ops(endpoint, purpose, options, iface_v4, iface_index);
            &&& 0 <= i < ops.len()
            &&& 0 <= j < ops.len()
            &&& ops[i] is Bind
            &&& ops[j] is JoinV4 || ops[j] is JoinV6 || ops[j] is Bind
        }),
    ensures
        i <= j,
        setup_ops(endpoint, purpose, options, iface_v4, iface_index)[j] is Bind ==> i == j,
{
}

// ---------------------------------------------------------------------------
// Receiving
// ---------------------------------------------------------------------------
/// How a receiver ended.
#[derive(Debug)]
pub enum UdpReceiverEnd {
    InOrder,
    Failed(ZmqError),
    /// The socket was being shut down.
    SocketGone,
}

/// What a receiver is told.
#[derive(Debug, Clone, Copy, PartialEq, Eq, Structural)]
pub enum UdpReceiverCommand {
    Stop,
    MailboxClosed,
    Other,
}

/// The loop that hands datagrams to the socket's pattern; `end` says how it ended.
#[derive(Debug)]
pub struct UdpReceiver {
    pub end: Option<UdpReceiverEnd>,
}

impl UdpReceiver {
    pub fn new() -> (u: UdpReceiver)
        ensures
            u.end is None,
    {
        UdpReceiver { end: None }
    }

    /// A datagram has come: the frame that the pattern gets of it. An empty one is skipped.
    pub fn datagram(data: Vec<u8>) -> (r: Option<Msg>)
        ensures
            match r {
                Some(m) => data@.len() > 0 && m@ == message::Frame::of(data@),
                None => data@.len() == 0,
            },
    {
        if data.len() == 0 {
            None
        } else {
            Some(Msg::from_vec(data))
        }
    }

    /// The pattern took a datagram, or failed to. Only the end of the socket ends the loop:
    /// after any other error the datagram is dropped.
    pub fn delivered(&mut self, result: Result<(), ZmqError>)
        requires
            old(self).end is None,
        ensures
            result == Err::<(), ZmqError>(ZmqError::Shutdown) ==> final(self).end == Some(
                UdpReceiverEnd::SocketGone,
            ),
            result != Err::<(), ZmqError>(ZmqError::Shutdown) ==> final(self).end is None,
    {
        if let Err(ZmqError::Shutdown) = result {
            self.end = Some(UdpReceiverEnd::SocketGone);
        }
    }

    /// Nothing could be received.
    pub fn receive_failed(&mut self, e: ZmqError)
        requires
            old(self).end is None,
        ensures
            final(self).end == Some(UdpReceiverEnd::Failed(e)),
    {
        self.end = Some(UdpReceiverEnd::Failed(e));
    }

    pub fn commanded(&mut self, command: UdpReceiverCommand)
        requires
            old(self).end is None,
        ensures
            command is Other ==> final(self).end is None,
            !(command is Other) ==> final(self).end == Some(UdpReceiverEnd::InOrder),
    {
        match command {
            UdpReceiverCommand::Other => {},
            _ => {
                self.end = Some(UdpReceiverEnd::InOrder);
            },
        }
    }
}

// ---------------------------------------------------------------------------
// Laws
// ---------------------------------------------------------------------------
/// A receiving socket of a multicast endpoint joins the endpoint's group, once, on the
/// interface given, and no other group; a sending socket, and one without a group, joins none.
pub proof fn receivers_join_their_group_on_its_interface(
    endpoint: UdpEndpoint,
    purpose: UdpUse,
    options: UdpOptions,
    iface_v4: Ipv4Addr,
    iface_index: u32,
)
    ensures
        ({
            let ops = setup_ops(endpoint, purpose, options, iface_v4, iface_index);
            let receives = purpose is Receive || purpose is ConnectedReceive;
            match endpoint.mode {
                UdpMode::Multicast { group: IpAddr::V4(g), .. } => {
                    &&& receives ==> exists|i: int|
                        0 <= i < ops.len() && #[trigger] ops[i] == UdpOp::JoinV4(g, iface_v4)
                    &&& receives ==> forall|i: int|
                        0 <= i < ops.len() && ((#[trigger] ops[i]) is JoinV4 || ops[i] is JoinV6)
                            ==> ops[i] == UdpOp::JoinV4(g, iface_v4) && i == ops.len() - 2
                },
                UdpMode::Multicast { group: IpAddr::V6(g), .. } => {
                    &&& receives ==> exists|i: int|
                        0 <= i < ops.len() && #[trigger] ops[i] == UdpOp::JoinV6(g, iface_index)
                    &&& receives ==> forall|i: int|
                        0 <= i < ops.len() && ((#[trigger] ops[i]) is JoinV4 || ops[i] is JoinV6)
                            ==> ops[i] == UdpOp::JoinV6(g, iface_index) && i == ops.len() - 2
                },
                _ => forall|i: int|
                    0 <= i < ops.len() ==> (#[trigger] ops[i]) !is JoinV4 && ops[i] !is JoinV6,
            }
        }),
        ({
            let ops = setup_ops(endpoint, purpose, options, iface_v4, iface_index);
            purpose is BoundSend || purpose is ConnectedSend || purpose is RawConnectedSend
                ==> forall|i: int|
                0 <= i < ops.len() ==> (#[trigger] ops[i]) !is JoinV4 && ops[i] !is JoinV6
        }),
{
    let ops = setup_ops(endpoint, purpose, options, iface_v4, iface_index);
    if purpose is Receive || purpose is ConnectedReceive {
        match endpoint.mode {
            UdpMode::Multicast { group: IpAddr::V4(g), .. } => {
                assert(ops[ops.len() - 2] == UdpOp::JoinV4(g, iface_v4));
            },
            UdpMode::Multicast { group: IpAddr::V6(g), .. } => {
                assert(ops[ops.len() - 2] == UdpOp::JoinV6(g, iface_index));
            },
            _ => {},
        }
    }
}

/// Every socket is bound exactly once, after what its mode asks for: a receiver to the
/// endpoint's address, a sender that is bound to the endpoint's port on every local address,
/// and one that only connects to an address and port that the system picks.
pub proof fn each_socket_is_bound_by_its_use(
    endpoint: UdpEndpoint,
    purpose: UdpUse,
    options: UdpOptions,
    iface_v4: Ipv4Addr,
    iface_index: u32,
)
    ensures
        ({
            let ops = setup_ops(endpoint, purpose, options, iface_v4, iface_index);
            let s: int = if endpoint.is_ipv6 {
                3
            } else {
                2
            };
            let m: int = if purpose is RawConnectedSend {
                0
            } else {
                mode_ops(endpoint.mode, options, iface_v4, iface_index).len() as int
            };
            let receives = purpose is Receive || purpose is ConnectedReceive;
            &&& ops.len() == s + m + 2 + if (receives && endpoint.mode is Multicast) || purpose
                is RawConnectedSend {
                1int
            } else {
                0
            }
            &&& ops[s + m] matches UdpOp::Bind(a) && match purpose {
                UdpUse::Receive => a == endpoint.bind_addr,
                UdpUse::BoundSend => a.port == endpoint.bind_addr.port && is_every_address(a.ip)
                    && (a.ip is V6) == (endpoint.bind_addr.ip is V6),
                _ => a.port == 0 && is_every_address(a.ip) && (a.ip is V6) == endpoint.is_ipv6,
            }
            &&& purpose is RawConnectedSend ==> ops[s + 1] == UdpOp::Connect(endpoint.send_addr)
        }),
{
}

/// All digits of the address are zero.
pub open spec fn is_every_address(ip: IpAddr) -> bool {
    match ip {
        IpAddr::V4(v) => v.a == 0 && v.b == 0 && v.c == 0 && v.d == 0,
        IpAddr::V6(v) => v.g0 == 0 && v.g1 == 0 && v.g2 == 0 && v.g3 == 0 && v.g4 == 0 && v.g5 == 0
            && v.g6 == 0 && v.g7 == 0,
    }
}

/// Addresses and ports are shared before the socket is bound, IPv4 is taken on an IPv6 socket,
/// and the socket does not block once it is ready.
pub proof fn sockets_are_shared_and_do_not_block(
    endpoint: UdpEndpoint,
    purpose: UdpUse,
    options: UdpOptions,
    iface_v4: Ipv4Addr,
    iface_index: u32,
)
    ensures
        ({
            let ops = setup_ops(endpoint, purpose, options, iface_v4, iface_index);
            &&& ops.len() >= 4
            &&& ops[0] == UdpOp::ReuseAddress
            &&& ops[1] == UdpOp::ReusePort
            &&& ops[2] == UdpOp::DualStack <==> endpoint.is_ipv6
            &&& ops[ops.len() - 1] == UdpOp::NonBlocking
        }),
{
}

/// Broadcast is switched on exactly for a broadcast endpoint; a multicast endpoint sends on the
/// interface given, with the loop and the hops of the options, and any other sets none of that.
pub proof fn mode_decides_how_datagrams_go(
    mode: UdpMode,
    options: UdpOptions,
    iface_v4: Ipv4Addr,
    iface_index: u32,
)
    ensures
        ({
            let ops = mode_ops(mode, options, iface_v4, iface_index);
            match mode {
                UdpMode::Unicast => ops.len() == 0,
                UdpMode::Broadcast => ops.len() == 1 && ops[0] is Broadcast,
                UdpMode::Multicast { group, .. } => if group is V4 {
                    &&& ops.len() == 3
                    &&& ops[0] matches UdpOp::MulticastIfV4(a) && a == iface_v4
                    &&& ops[1] matches UdpOp::MulticastLoopV4(b) && b == options.multicast_loop
                    &&& ops[2] matches UdpOp::MulticastTtlV4(h) && h == options.multicast_hops
                } else {
                    &&& ops.len() == 2
                    &&& ops[0] matches UdpOp::MulticastIfV6(n) && n == iface_index
                    &&& ops[1] matches UdpOp::MulticastLoopV6(b) && b == options.multicast_loop
                },
            }
        }),
{
}

/// What the mode asks for is done before the socket is bound, for every use but one.
pub proof fn mode_is_set_before_binding(
    endpoint: UdpEndpoint,
    purpose: UdpUse,
    options: UdpOptions,
    iface_v4: Ipv4Addr,
    iface_index: u32,
    k: int,
)
    requires
        purpose !is RawConnectedSend,
        0 <= k < mode_ops(endpoint.mode, options, iface_v4, iface_index).len(),
    ensures
        setup_ops(endpoint, purpose, options, iface_v4, iface_index)[k + if endpoint.is_ipv6 {
            3int
        } else {
            2
        }] == mode_ops(endpoint.mode, options, iface_v4, iface_index)[k],
{
}

/// The steps that are carried out are those that the laws on them speak of.
pub proof fn setup_is_carried_out_as_stated(
    endpoint: &UdpEndpoint,
    purpose: UdpUse,
    options: &UdpOptions,
    iface_v4: Ipv4Addr,
    iface_index: u32,
    r: Vec<UdpOp>,
)
    requires
        call_ensures(socket_setup, (endpoint, purpose, options, iface_v4, iface_index), r),
        purpose is Receive,
    ensures
        endpoint.mode matches UdpMode::Multicast { group: IpAddr::V4(g), .. } ==> r@[r@.len() - 2]
            == UdpOp::JoinV4(g, iface_v4) && r@[r@.len() - 3] == UdpOp::Bind(endpoint.bind_addr),
        endpoint.mode matches UdpMode::Multicast { group: IpAddr::V6(g), .. } ==> r@[r@.len() - 2]
            == UdpOp::JoinV6(g, iface_index) && r@[r@.len() - 3] == UdpOp::Bind(endpoint.bind_addr),
        endpoint.mode !is Multicast ==> r@[r@.len() - 2] == UdpOp::Bind(endpoint.bind_addr),
{
}

/// An interface is known by its address where the text is one; otherwise its first listed IPv4
/// address counts, and without one, or for a name that cannot be one, there is an error.
pub proof fn interface_is_the_first_listed(
    iface: &str,
    entries: Option<&Vec<InterfaceEntry>>,
    r: Result<Ipv4Addr, ZmqError>,
    i: int,
)
    requires
        call_ensures(resolve_iface_to_ipv4, (iface, entries), r),
        address::ipv4_value(iface@) is None,
        entries matches Some(list) && 0 <= i < list@.len() && list@[i].name@ == iface@
            && list@[i].ipv4 is Some && forall|j: int|
            0 <= j < i ==> (#[trigger] list@[j]).name@ != iface@ || list@[j].ipv4 is None,
        !iface@.contains('\0'),
    ensures
        r == Ok::<Ipv4Addr, ZmqError>(entries->0@[i].ipv4->0),
{
    let list = entries->0@;
    lemma_listed_ipv4(list, iface@, i);
    assert(list.skip(i)[0] == list[i]);
}

/// An interface that is not listed with an address is an error.
pub proof fn unlisted_interface_is_an_error(
    iface: &str,
    entries: Option<&Vec<InterfaceEntry>>,
    r: Result<Ipv4Addr, ZmqError>,
)
    requires
        call_ensures(resolve_iface_to_ipv4, (iface, entries), r),
    ensures
        address::ipv4_value(iface@) matches Some(a) ==> r == Ok::<Ipv4Addr, ZmqError>(a),
        address::ipv4_value(iface@) is None && (iface@.contains('\0') || entries is None || (
        entries matches Some(list) && forall|j: int|
            0 <= j < list@.len() ==> (#[trigger] list@[j]).name@ != iface@ || list@[j].ipv4
                is None)) ==> (r matches Err(e) && e is InvalidEndpoint),
{
    if entries matches Some(list) && forall|j: int|
        0 <= j < list@.len() ==> (#[trigger] list@[j]).name@ != iface@ || list@[j].ipv4 is None {
        let list = entries->0@;
        lemma_listed_ipv4(list, iface@, list.len() as int);
    }
}

/// An index is what the system says, and 0 stands for none.
pub proof fn interface_index_is_the_systems(iface: &str, found: u32, r: Result<u32, ZmqError>)
    requires
        call_ensures(resolve_iface_to_index, (iface, found), r),
    ensures
        r is Ok <==> found != 0 && !iface@.contains('\0'),
        r matches Ok(n) ==> n == found,
        r matches Err(e) ==> e is InvalidEndpoint,
{
}

/// A receiver hands on every datagram that holds something, unchanged, and goes on whatever
/// becomes of it, until its socket is gone, it is told to stop or nothing can be received.
pub proof fn receiver_goes_on_until_told(
    data: Vec<u8>,
    frame: Option<Msg>,
    delivering: &mut UdpReceiver,
    result: Result<(), ZmqError>,
    told: &mut UdpReceiver,
    command: UdpReceiverCommand,
    failing: &mut UdpReceiver,
    e: ZmqError,
)
    requires
        call_ensures(UdpReceiver::datagram, (data,), frame),
        call_ensures(UdpReceiver::delivered, (delivering, result), ()),
        call_ensures(UdpReceiver::commanded, (told, command), ()),
        call_ensures(UdpReceiver::receive_failed, (failing, e), ()),
    ensures
        frame is None <==> data@.len() == 0,
        frame matches Some(m) ==> m@.data == data@ && !m@.more && !m@.command && m@.group is None,
        final(delivering).end is Some <==> (result matches Err(x) && x is Shutdown),
        final(delivering).end matches Some(x) ==> x is SocketGone,
        final(told).end is Some <==> command is Stop || command is MailboxClosed,
        final(told).end matches Some(x) ==> x is InOrder,
        final(failing).end == Some(UdpReceiverEnd::Failed(e)),
{
}

} // verus!
