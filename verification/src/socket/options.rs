use vstd::prelude::*;

use crate::error::ZmqError;
use crate::time::Duration;

verus! {

/// Whether a ROUTER reports messages that it cannot route.
pub const ROUTER_MANDATORY: i32 = 33;

/// Whether DEALER and ROUTER put empty delimiters in and take them out.
pub const AUTO_DELIMITER: i32 = 1180;

/// Joins a DISH to a group.
pub const JOIN: i32 = 1181;

/// Takes a DISH out of a group.
pub const LEAVE: i32 = 1182;

/// How UDP sockets are set up.
#[derive(Debug, Clone, Copy)]
pub struct UdpOptions {
    /// Whether multicast datagrams come back to their sender's host.
    pub multicast_loop: bool,
    /// Over how many routers multicast datagrams go.
    pub multicast_hops: u32,
}

/// How a socket uses io_uring.
#[derive(Debug, Clone, Copy)]
pub struct IoUringOptions {
    /// Whether io_uring serves the connections.
    pub session_enabled: bool,
}

/// How a socket is set up. A time of `None` stands for no limit.
#[derive(Debug)]
pub struct SocketOptions {
    /// The most messages that wait to be sent on one connection.
    pub sndhwm: usize,
    /// The most messages that wait to be received.
    pub rcvhwm: usize,
    pub sndtimeo: Option<Duration>,
    pub rcvtimeo: Option<Duration>,
    pub linger: Option<Duration>,
    /// The time before a first attempt to reconnect. A connection that was lost is only
    /// tried again where this is set and not zero.
    pub reconnect_ivl: Option<Duration>,
    /// The longest time between attempts to reconnect; zero sets no bound.
    pub reconnect_ivl_max: Option<Duration>,
    pub handshake_ivl: Option<Duration>,
    pub router_mandatory: bool,
    /// The most connections that a listener serves at once.
    pub max_connections: Option<usize>,
    pub socket_type_name: String,
    /// Whether TCP sends small segments without delay.
    pub tcp_nodelay: bool,
    /// How long a TCP connection is silent before the peer is probed.
    pub tcp_keepalive_idle: Option<Duration>,
    /// The time between two probes.
    pub tcp_keepalive_interval: Option<Duration>,
    /// How many probes go unanswered before the connection is given up.
    pub tcp_keepalive_count: Option<u32>,
    /// Whether TCP holds segments back until they are full, where io_uring serves them.
    pub tcp_cork: bool,
    /// How many connections may wait to be accepted.
    pub backlog: Option<i32>,
    pub io_uring: IoUringOptions,
    pub udp: UdpOptions,
}

/// Reads a boolean option: four bytes, which stand for true unless all are zero.
pub fn parse_bool_option(option: i32, value: &Vec<u8>) -> (r: Result<bool, ZmqError>)
    ensures
        match r {
            Ok(b) => value@.len() == 4 && b == (value@ != seq![0u8, 0, 0, 0]),
            Err(e) => value@.len() != 4 && e == ZmqError::InvalidOptionValue(option),
        },
{
    if value.len() != 4 {
        return Err(ZmqError::InvalidOptionValue(option));
    }
    let zero: bool = value[0] == 0 && value[1] == 0 && value[2] == 0 && value[3] == 0;
    assert(zero == (value@ =~= seq![0u8, 0, 0, 0]));
    Ok(!zero)
}

/// A boolean option is four bytes, true exactly where one of them is not zero.
pub proof fn four_bytes_make_a_switch(option: i32, value: &Vec<u8>, r: Result<bool, ZmqError>)
    requires
        call_ensures(parse_bool_option, (option, value), r),
    ensures
        r is Ok <==> value@.len() == 4,
        r matches Ok(b) ==> (b <==> exists|i: int| 0 <= i < 4 && #[trigger] value@[i] != 0),
        r matches Err(e) ==> e == ZmqError::InvalidOptionValue(option),
{
    let zeros = seq![0u8, 0, 0, 0];
    if value@.len() == 4 {
        if forall|i: int| 0 <= i < 4 ==> #[trigger] value@[i] == 0 {
            assert(value@ =~= zeros);
        } else {
            let i = choose|i: int| 0 <= i < 4 && #[trigger] value@[i] != 0;
            assert(zeros[i] == 0);
        }
    }
}

/// The options have the numbers that applications know them by.
pub proof fn options_keep_their_numbers()
    ensures
        ROUTER_MANDATORY == 33,
        AUTO_DELIMITER == 1180,
        JOIN == 1181,
        LEAVE == 1182,
{
}

} // verus!
