use vstd::prelude::*;
use vstd::string::*;

use crate::error::ZmqError;
use crate::text::{chars_of, joined};
use crate::transport::address;
use crate::transport::address::{
    find, parse_ipv4, parse_ipv6, parse_port, rfind, IpAddr, Ipv4Addr, Ipv6Addr, SocketAddr,
};

verus! {

/// How datagrams reach their receivers.
#[derive(Debug)]
pub enum UdpMode {
    Unicast,
    Broadcast,
    Multicast { iface: String, group: IpAddr },
}

/// Where a UDP socket is bound and where it sends.
#[derive(Debug)]
pub struct UdpEndpoint {
    /// The local address a receiving socket is bound to: the unspecified address
    /// with the port for multicast and broadcast, the given one for unicast.
    pub bind_addr: SocketAddr,
    /// Where outgoing datagrams go: the group for multicast, the given address
    /// otherwise.
    pub send_addr: SocketAddr,
    pub mode: UdpMode,
    pub is_ipv6: bool,
    pub original_uri: String,
}

/// What the address part of an endpoint spells.
#[derive(Debug)]
pub enum UdpParse {
    /// An endpoint, complete.
    Endpoint(UdpEndpoint),
    /// A host name, which is still to be looked up, and a port.
    Hostname { host: String, port: u16 },
}

/// The answer to a host name lookup.
#[derive(Debug)]
pub enum HostLookup {
    /// The first address found.
    Found(IpAddr),
    /// The lookup succeeded with no address.
    NoAddress,
    /// The lookup failed, with the reason given.
    Failed(String),
}

// ---------------------------------------------------------------------------
// The grammar
// ---------------------------------------------------------------------------
/// What an address part means.
pub enum UdpMeaning {
    /// Nothing: the message says why.
    Rejected(Seq<char>),
    Multicast { iface: Seq<char>, group: IpAddr, port: u16 },
    Address { ip: IpAddr, port: u16 },
    Hostname { host: Seq<char>, port: u16 },
}

/// A host part and a port part.
pub enum HostPort {
    Rejected(Seq<char>),
    /// `[host]:port`
    Bracketed { host: Seq<char>, port: u16 },
    /// `host:port`
    Plain { host: Seq<char>, port: u16 },
}

/// Splits `[host]:port` or `host:port`. In the bracketed form the host ends at the
/// first `]`, in the plain form at the last `:`. `unclosed` is the message for a
/// missing `]`.
pub open spec fn host_and_port(s: Seq<char>, unclosed: Seq<char>) -> HostPort {
    if s.len() > 0 && s[0] == '[' {
        let close = address::first_of(s, ']');
        if close >= s.len() {
            HostPort::Rejected(unclosed)
        } else if close + 1 >= s.len() || s[close + 1] != ':' {
            HostPort::Rejected("Missing port after IPv6 address: "@)
        } else if address::port_value(s.skip(close + 2)) is None {
            HostPort::Rejected("Invalid port in UDP endpoint: "@)
        } else {
            HostPort::Bracketed {
                host: s.subrange(1, close),
                port: address::port_value(s.skip(close + 2))->0,
            }
        }
    } else {
        let colon = address::last_of(s, ':');
        if colon < 0 {
            HostPort::Rejected("Missing port in UDP endpoint: "@)
        } else if address::port_value(s.skip(colon + 1)) is None {
            HostPort::Rejected("Invalid port in UDP endpoint: "@)
        } else {
            HostPort::Plain { host: s.take(colon), port: address::port_value(s.skip(colon + 1))->0 }
        }
    }
}

/// `interface;group:port` and `interface;[group]:port`, taken apart at the `;`.
pub open spec fn multicast_meaning(iface: Seq<char>, rest: Seq<char>) -> UdpMeaning {
    if iface.len() == 0 || rest.len() == 0 {
        UdpMeaning::Rejected("Invalid multicast format in UDP endpoint: "@)
    } else {
        match host_and_port(rest, "Missing closing bracket in IPv6 multicast address: "@) {
            HostPort::Rejected(m) => UdpMeaning::Rejected(m),
            HostPort::Bracketed { host, port } => match address::ipv6_value(host) {
                None => UdpMeaning::Rejected("Invalid IPv6 multicast address: "@),
                Some(ip) => if !ip.is_multicast() {
                    UdpMeaning::Rejected("IPv6 address is not in multicast range (ff00::/8): "@)
                } else if port == 0 {
                    UdpMeaning::Rejected("Port cannot be 0 in UDP endpoint: "@)
                } else {
                    UdpMeaning::Multicast { iface, group: IpAddr::V6(ip), port }
                },
            },
            HostPort::Plain { host, port } => match address::ipv4_value(host) {
                None => UdpMeaning::Rejected("Invalid IPv4 multicast address: "@),
                Some(ip) => if !ip.is_multicast() {
                    UdpMeaning::Rejected("IPv4 address is not in multicast range (224.0.0.0/4): "@)
                } else if port == 0 {
                    UdpMeaning::Rejected("Port cannot be 0 in UDP endpoint: "@)
                } else {
                    UdpMeaning::Multicast { iface, group: IpAddr::V4(ip), port }
                },
            },
        }
    }
}

/// `address:port`, `[address]:port` and `name:port`.
pub open spec fn unicast_meaning(s: Seq<char>) -> UdpMeaning {
    match host_and_port(s, "Missing closing bracket in IPv6 address: "@) {
        HostPort::Rejected(m) => UdpMeaning::Rejected(m),
        HostPort::Bracketed { host, port } => match address::ipv6_value(host) {
            None => UdpMeaning::Rejected("Invalid IPv6 address: "@),
            Some(ip) => if port == 0 {
                UdpMeaning::Rejected("Port cannot be 0 in UDP endpoint: "@)
            } else {
                UdpMeaning::Address { ip: IpAddr::V6(ip), port }
            },
        },
        HostPort::Plain { host, port } => match address::ipv4_value(host) {
            None => UdpMeaning::Hostname { host, port },
            Some(ip) => if port == 0 {
                UdpMeaning::Rejected("Port cannot be 0 in UDP endpoint: "@)
            } else {
                UdpMeaning::Address { ip: IpAddr::V4(ip), port }
            },
        },
    }
}

/// What the address part of a `udp://` endpoint means, the scheme taken away.
pub open spec fn udp_meaning(s: Seq<char>) -> UdpMeaning {
    let semicolon = address::first_of(s, ';');
    if s.len() == 0 {
        UdpMeaning::Rejected("UDP endpoint cannot be empty: "@)
    } else if semicolon < s.len() {
        multicast_meaning(s.take(semicolon), s.skip(semicolon + 1))
    } else {
        unicast_meaning(s)
    }
}

/// The unspecified address of the same family as `ip`.
pub open spec fn unspecified_like(ip: IpAddr) -> IpAddr {
    match ip {
        IpAddr::V4(_) => IpAddr::V4(Ipv4Addr { a: 0, b: 0, c: 0, d: 0 }),
        IpAddr::V6(_) => IpAddr::V6(
            Ipv6Addr { g0: 0, g1: 0, g2: 0, g3: 0, g4: 0, g5: 0, g6: 0, g7: 0 },
        ),
    }
}

/// The address reaches every host on the local network.
pub open spec fn is_broadcast_address(ip: IpAddr) -> bool {
    ip matches IpAddr::V4(v4) && v4.is_broadcast()
}

/// `ep` sends to the address given. It receives on that address, or, where it is the broadcast
/// address, on every local one.
pub open spec fn is_plain_endpoint(
    ep: UdpEndpoint,
    ip: IpAddr,
    port: u16,
    uri: Seq<char>,
) -> bool {
    &&& ep.send_addr == (SocketAddr { ip, port })
    &&& if is_broadcast_address(ip) {
        &&& ep.bind_addr == (SocketAddr { ip: unspecified_like(ip), port })
        &&& ep.mode is Broadcast
    } else {
        &&& ep.bind_addr == (SocketAddr { ip, port })
        &&& ep.mode is Unicast
    }
    &&& ep.is_ipv6 == (ip is V6)
    &&& ep.original_uri@ == uri
}

/// `ep` sends to the group and receives on every local address.
pub open spec fn is_multicast_endpoint(
    ep: UdpEndpoint,
    iface: Seq<char>,
    group: IpAddr,
    port: u16,
    uri: Seq<char>,
) -> bool {
    &&& ep.bind_addr == (SocketAddr { ip: unspecified_like(group), port })
    &&& ep.send_addr == (SocketAddr { ip: group, port })
    &&& ep.mode matches UdpMode::Multicast { iface: i, group: g } && i@ == iface && g == group
    &&& ep.is_ipv6 == (group is V6)
    &&& ep.original_uri@ == uri
}

// ---------------------------------------------------------------------------
// Parsing
// ---------------------------------------------------------------------------
/// A host and a port, as bounds in the text.
enum Split {
    Rejected(&'static str),
    Bracketed { from: usize, to: usize, port: u16 },
    Plain { from: usize, to: usize, port: u16 },
}

fn split_host_port(s: &Vec<char>, from: usize, unclosed: &'static str) -> (r: Split)
    requires
        from <= s@.len(),
    ensures
        match host_and_port(s@.skip(from as int), unclosed@) {
            HostPort::Rejected(m) => r matches Split::Rejected(n) && n@ == m,
            HostPort::Bracketed { host, port } => r matches Split::Bracketed {
                from: f,
                to: t,
                port: p,
            } && f <= t <= s@.len() && s@.subrange(f as int, t as int) == host && p == port,
            HostPort::Plain { host, port } => r matches Split::Plain { from: f, to: t, port: p }
                && f <= t <= s@.len() && s@.subrange(f as int, t as int) == host && p == port,
        },
{
    let ghost t = s@.skip(from as int);
    let n: usize = s.len();
    assert(s@.subrange(from as int, n as int) == t);
    if from < n && s[from] == '[' {
        assert(t[0] == s@[from as int]);
        let close: usize = find(s, from, n, ']');
        if close == n {
            return Split::Rejected(unclosed);
        }
        if n - close == 1 || s[close + 1] != ':' {
            return Split::Rejected("Missing port after IPv6 address: ");
        }
        assert(t.skip(close - from + 2) == s@.subrange(close + 2, n as int));
        match parse_port(s, close + 2, n) {
            Some(port) => {
                assert(t.subrange(1, close - from) == s@.subrange(from + 1, close as int));
                Split::Bracketed { from: from + 1, to: close, port }
            },
            None => Split::Rejected("Invalid port in UDP endpoint: "),
        }
    } else {
        proof {
            if from < n {
                assert(t[0] == s@[from as int]);
            }
        }
        match rfind(s, from, n, ':') {
            Some(colon) => {
                assert(t.skip(colon - from + 1) == s@.subrange(colon + 1, n as int));
                match parse_port(s, colon + 1, n) {
                    Some(port) => {
                        assert(t.take(colon - from) == s@.subrange(from as int, colon as int));
                        Split::Plain { from, to: colon, port }
                    },
                    None => Split::Rejected("Invalid port in UDP endpoint: "),
                }
            },
            None => Split::Rejected("Missing port in UDP endpoint: "),
        }
    }
}

fn rejected(message: &str, uri: &str) -> (e: ZmqError)
    ensures
        e matches ZmqError::InvalidEndpoint(m) && m@ == message@ + uri@,
{
    ZmqError::InvalidEndpoint(joined(message, uri))
}

/// The unspecified address of the same family as `ip`.
pub fn unspecified_address(ip: IpAddr) -> (r: IpAddr)
    ensures
        r == unspecified_like(ip),
{
    match ip {
        IpAddr::V4(_) => IpAddr::V4(Ipv4Addr::unspecified()),
        IpAddr::V6(_) => IpAddr::V6(Ipv6Addr::unspecified()),
    }
}

fn plain_endpoint(ip: IpAddr, port: u16, uri: &str) -> (ep: UdpEndpoint)
    ensures
        is_plain_endpoint(ep, ip, port, uri@),
{
    let broadcast: bool = match ip {
        IpAddr::V4(v4) => v4.is_broadcast(),
        IpAddr::V6(_) => false,
    };
    let local = if broadcast {
        unspecified_address(ip)
    } else {
        ip
    };
    UdpEndpoint {
        bind_addr: SocketAddr::new(local, port),
        send_addr: SocketAddr::new(ip, port),
        mode: if broadcast {
            UdpMode::Broadcast
        } else {
            UdpMode::Unicast
        },
        is_ipv6: ip.is_ipv6(),
        original_uri: uri.to_owned(),
    }
}

fn multicast_endpoint(iface: &str, group: IpAddr, port: u16, uri: &str) -> (ep: UdpEndpoint)
    ensures
        is_multicast_endpoint(ep, iface@, group, port, uri@),
{
    UdpEndpoint {
        bind_addr: SocketAddr::new(unspecified_address(group), port),
        send_addr: SocketAddr::new(group, port),
        mode: UdpMode::Multicast { iface: iface.to_owned(), group },
        is_ipv6: group.is_ipv6(),
        original_uri: uri.to_owned(),
    }
}

/// Parses the address part of a `udp://` endpoint, the scheme taken away:
///
/// - `addr:port`: unicast or broadcast,
/// - `[ipv6addr]:port`: IPv6 unicast,
/// - `iface;group:port`: IPv4 multicast,
/// - `iface;[ipv6group]:port`: IPv6 multicast,
/// - `name:port`: a host name, to be looked up and handed to `resolve_udp_hostname`.
pub fn parse_udp_endpoint(address_part: &str, original_uri: &str) -> (r: Result<
    UdpParse,
    ZmqError,
>)
    ensures
        match udp_meaning(address_part@) {
            UdpMeaning::Rejected(m) => r matches Err(ZmqError::InvalidEndpoint(e)) && e@ == m
                + original_uri@,
            UdpMeaning::Multicast { iface, group, port } => r matches Ok(UdpParse::Endpoint(ep))
                && is_multicast_endpoint(ep, iface, group, port, original_uri@),
            UdpMeaning::Address { ip, port } => r matches Ok(UdpParse::Endpoint(ep))
                && is_plain_endpoint(ep, ip, port, original_uri@),
            UdpMeaning::Hostname { host, port } => r matches Ok(
                UdpParse::Hostname { host: h, port: p },
            ) && h@ == host && p == port,
        },
{
    let s = chars_of(address_part);
    let n: usize = s.len();
    if n == 0 {
        return Err(rejected("UDP endpoint cannot be empty: ", original_uri));
    }
    assert(s@.subrange(0, n as int) == s@);
    let semicolon: usize = find(&s, 0, n, ';');
    if semicolon < n {
        if semicolon == 0 || semicolon + 1 == n {
            return Err(rejected("Invalid multicast format in UDP endpoint: ", original_uri));
        }
        let iface = address_part.substring_char(0, semicolon);
        assert(iface@ == s@.take(semicolon as int));
        let parts = split_host_port(
            &s,
            semicolon + 1,
            "Missing closing bracket in IPv6 multicast address: ",
        );
        match parts {
            Split::Rejected(m) => Err(rejected(m, original_uri)),
            Split::Bracketed { from, to, port } => match parse_ipv6(&s, from, to) {
                None => Err(rejected("Invalid IPv6 multicast address: ", original_uri)),
                Some(ip) => if !ip.is_multicast() {
                    Err(
                        rejected(
                            "IPv6 address is not in multicast range (ff00::/8): ",
                            original_uri,
                        ),
                    )
                } else if port == 0 {
                    Err(rejected("Port cannot be 0 in UDP endpoint: ", original_uri))
                } else {
                    Ok(
                        UdpParse::Endpoint(
                            multicast_endpoint(iface, IpAddr::V6(ip), port, original_uri),
                        ),
                    )
                },
            },
            Split::Plain { from, to, port } => match parse_ipv4(&s, from, to) {
                None => Err(rejected("Invalid IPv4 multicast address: ", original_uri)),
                Some(ip) => if !ip.is_multicast() {
                    Err(
                        rejected(
                            "IPv4 address is not in multicast range (224.0.0.0/4): ",
                            original_uri,
                        ),
                    )
                } else if port == 0 {
                    Err(rejected("Port cannot be 0 in UDP endpoint: ", original_uri))
                } else {
                    Ok(
                        UdpParse::Endpoint(
                            multicast_endpoint(iface, IpAddr::V4(ip), port, original_uri),
                        ),
                    )
                },
            },
        }
    } else {
        assert(s@.skip(0) == s@);
        match split_host_port(&s, 0, "Missing closing bracket in IPv6 address: ") {
            Split::Rejected(m) => Err(rejected(m, original_uri)),
            Split::Bracketed { from, to, port } => match parse_ipv6(&s, from, to) {
                None => Err(rejected("Invalid IPv6 address: ", original_uri)),
                Some(ip) => if port == 0 {
                    Err(rejected("Port cannot be 0 in UDP endpoint: ", original_uri))
                } else {
                    Ok(UdpParse::Endpoint(plain_endpoint(IpAddr::V6(ip), port, original_uri)))
                },
            },
            Split::Plain { from, to, port } => match parse_ipv4(&s, from, to) {
                None => Ok(
                    UdpParse::Hostname {
                        host: address_part.substring_char(from, to).to_owned(),
                        port,
                    },
                ),
                Some(ip) => if port == 0 {
                    Err(rejected("Port cannot be 0 in UDP endpoint: ", original_uri))
                } else {
                    Ok(UdpParse::Endpoint(plain_endpoint(IpAddr::V4(ip), port, original_uri)))
                },
            },
        }
    }
}

/// Completes an endpoint that names a host, given the answer to the lookup.
pub fn resolve_udp_hostname(
    host: &str,
    port: u16,
    lookup: HostLookup,
    original_uri: &str,
) -> (r: Result<UdpEndpoint, ZmqError>)
    ensures
        match lookup {
            HostLookup::Failed(reason) => r matches Err(ZmqError::DnsResolutionFailed(e)) && e@
                == "Failed to resolve hostname '"@ + host@ + "': "@ + reason@,
            HostLookup::NoAddress => r matches Err(ZmqError::DnsResolutionFailed(e)) && e@
                == "No addresses found for hostname '"@ + host@ + "'"@,
            HostLookup::Found(ip) => if port == 0 {
                r matches Err(ZmqError::InvalidEndpoint(e)) && e@
                    == "Port cannot be 0 in UDP endpoint: "@ + original_uri@
            } else {
                r matches Ok(ep) && is_plain_endpoint(ep, ip, port, original_uri@)
            },
        },
{
    match lookup {
        HostLookup::Failed(reason) => {
            let mut m = joined("Failed to resolve hostname '", host);
            m.append("': ");
            m.append(reason.as_str());
            Err(ZmqError::DnsResolutionFailed(m))
        },
        HostLookup::NoAddress => {
            let mut m = joined("No addresses found for hostname '", host);
            m.append("'");
            Err(ZmqError::DnsResolutionFailed(m))
        },
        HostLookup::Found(ip) => if port == 0 {
            Err(rejected("Port cannot be 0 in UDP endpoint: ", original_uri))
        } else {
            Ok(plain_endpoint(ip, port, original_uri))
        },
    }
}

// ---------------------------------------------------------------------------
// Laws
// ---------------------------------------------------------------------------
/// An accepted endpoint never has port 0, and it is a multicast endpoint exactly
/// where the text holds a `;`, with a group in the multicast range.
pub proof fn accepted_endpoints_are_sound(s: Seq<char>)
    ensures
        udp_meaning(s) matches UdpMeaning::Multicast { iface, group, port } ==> {
            &&& port != 0
            &&& iface.len() > 0
            &&& address::first_of(s, ';') < s.len()
            &&& match group {
                IpAddr::V4(ip) => ip.is_multicast(),
                IpAddr::V6(ip) => ip.is_multicast(),
            }
        },
        udp_meaning(s) matches UdpMeaning::Address { ip, port } ==> port != 0 && address::first_of(
            s,
            ';',
        ) >= s.len(),
        udp_meaning(s) is Hostname ==> address::first_of(s, ';') >= s.len(),
{
    address::lemma_first_of_bounds(s, ';');
}

/// An endpoint for multicast or for broadcast is bound to the unspecified address, with the
/// port that it sends to; one for unicast is bound to the address that it sends to.
pub proof fn only_unicast_binds_the_target(
    ep: UdpEndpoint,
    iface: Seq<char>,
    ip: IpAddr,
    port: u16,
    uri: Seq<char>,
)
    requires
        is_plain_endpoint(ep, ip, port, uri) || is_multicast_endpoint(ep, iface, ip, port, uri),
    ensures
        ep.mode !is Unicast ==> ep.bind_addr == (SocketAddr {
            ip: unspecified_like(ep.send_addr.ip),
            port: ep.send_addr.port,
        }),
        ep.mode is Unicast ==> ep.bind_addr == ep.send_addr && !is_broadcast_address(
            ep.bind_addr.ip,
        ),
{
}

/// A host, a colon and a port are taken apart at that colon.
proof fn lemma_plain_split(host: Seq<char>, port: u16, unclosed: Seq<char>)
    requires
        host.len() > 0 ==> host[0] != '[',
    ensures
        host_and_port(host + seq![':'] + crate::text::decimal_text(port as nat), unclosed) == (
        HostPort::Plain { host, port }),
{
    let digits = crate::text::decimal_text(port as nat);
    let s = host + seq![':'] + digits;
    let n = host.len() as int;
    crate::text::digits_stand_for_the_number(port as nat);
    address::written_port_is_read(port as nat);
    assert forall|j: int| n < j < s.len() implies s[j] != ':' by {
        assert(s[j] == digits[j - n - 1]);
        assert('0' <= digits[j - n - 1] <= '9');
    }
    assert(s[n] == ':');
    address::lemma_last_of(s, ':', n);
    assert(s.take(n) =~= host);
    assert(s.skip(n + 1) =~= digits);
}

/// A host in brackets, a colon and a port are taken apart at the first closing bracket.
proof fn lemma_bracket_split(host: Seq<char>, port: u16, unclosed: Seq<char>)
    requires
        forall|j: int| 0 <= j < host.len() ==> #[trigger] host[j] != ']',
    ensures
        host_and_port(
            seq!['['] + host + seq![']', ':'] + crate::text::decimal_text(port as nat),
            unclosed,
        ) == (HostPort::Bracketed { host, port }),
{
    let digits = crate::text::decimal_text(port as nat);
    let s = seq!['['] + host + seq![']', ':'] + digits;
    let n = 1 + host.len() as int;
    address::written_port_is_read(port as nat);
    assert forall|j: int| 0 <= j < n implies s[j] != ']' by {
        if j > 0 {
            assert(s[j] == host[j - 1]);
        }
    }
    assert(s[n] == ']' && s[n + 1] == ':');
    address::lemma_first_of(s, ']', n);
    assert(s.subrange(1, n) =~= host);
    assert(s.skip(n + 2) =~= digits);
}

/// `interface;group:port` is a multicast endpoint of that very group, interface and port, where
/// the group lies in the multicast range and the port is not 0; otherwise it is refused.
pub proof fn multicast_text_is_read(iface: Seq<char>, x: Ipv4Addr, port: u16)
    requires
        iface.len() > 0,
        forall|j: int| 0 <= j < iface.len() ==> #[trigger] iface[j] != ';',
    ensures
        ({
            let m = udp_meaning(
                iface + seq![';'] + (address::ipv4_text(x) + seq![':'] + crate::text::decimal_text(
                    port as nat,
                )),
            );
            &&& 224 <= x.a <= 239 && port > 0 ==> m == (UdpMeaning::Multicast {
                iface,
                group: IpAddr::V4(x),
                port,
            })
            &&& x.a < 224 || x.a > 239 || port == 0 ==> m is Rejected
        }),
{
    let rest = address::ipv4_text(x) + seq![':'] + crate::text::decimal_text(port as nat);
    let s = iface + seq![';'] + rest;
    let n = iface.len() as int;
    address::written_ipv4_address_is_digits_and_dots(x);
    address::ipv4_addresses_are_read_as_written(x, s);
    assert('0' <= address::ipv4_text(x)[0] <= '9' || address::ipv4_text(x)[0] == '.');
    lemma_plain_split(
        address::ipv4_text(x),
        port,
        "Missing closing bracket in IPv6 multicast address: "@,
    );
    assert(s[n] == ';');
    address::lemma_first_of(s, ';', n);
    assert(s.take(n) =~= iface);
    assert(s.skip(n + 1) =~= rest);
}

/// The same of an IPv6 group, in brackets, whose range begins with `ff`.
pub proof fn ipv6_multicast_text_is_read(
    iface: Seq<char>,
    group: Seq<char>,
    y: Ipv6Addr,
    port: u16,
)
    requires
        iface.len() > 0,
        forall|j: int| 0 <= j < iface.len() ==> #[trigger] iface[j] != ';',
        forall|j: int| 0 <= j < group.len() ==> #[trigger] group[j] != ']',
        address::ipv6_value(group) == Some(y),
    ensures
        ({
            let m = udp_meaning(
                iface + seq![';'] + (seq!['['] + group + seq![']', ':'] + crate::text::decimal_text(
                    port as nat,
                )),
            );
            &&& y.g0 >= 0xff00 && port > 0 ==> m == (UdpMeaning::Multicast {
                iface,
                group: IpAddr::V6(y),
                port,
            })
            &&& y.g0 < 0xff00 || port == 0 ==> m is Rejected
        }),
{
    let rest = seq!['['] + group + seq![']', ':'] + crate::text::decimal_text(port as nat);
    let s = iface + seq![';'] + rest;
    let n = iface.len() as int;
    lemma_bracket_split(group, port, "Missing closing bracket in IPv6 multicast address: "@);
    assert(s[n] == ';');
    address::lemma_first_of(s, ';', n);
    assert(s.take(n) =~= iface);
    assert(s.skip(n + 1) =~= rest);
}

/// `address:port` is that address and port, where the port is not 0.
pub proof fn address_text_is_read(x: Ipv4Addr, port: u16)
    ensures
        ({
            let m = udp_meaning(
                address::ipv4_text(x) + seq![':'] + crate::text::decimal_text(port as nat),
            );
            &&& port > 0 ==> m == (UdpMeaning::Address { ip: IpAddr::V4(x), port })
            &&& port == 0 ==> m is Rejected
        }),
{
    let a = address::ipv4_text(x);
    let digits = crate::text::decimal_text(port as nat);
    let s = a + seq![':'] + digits;
    address::written_ipv4_address_is_digits_and_dots(x);
    address::ipv4_addresses_are_read_as_written(x, s);
    crate::text::digits_stand_for_the_number(port as nat);
    assert('0' <= a[0] <= '9' || a[0] == '.');
    lemma_plain_split(a, port, "Missing closing bracket in IPv6 address: "@);
    assert forall|j: int| 0 <= j < s.len() implies s[j] != ';' by {
        if j < a.len() {
            assert(s[j] == a[j]);
        } else if j > a.len() {
            assert(s[j] == digits[j - a.len() - 1]);
        }
    }
    address::lemma_first_of(s, ';', s.len() as int);
}

/// `[address]:port` is that IPv6 address and port, where the port is not 0.
pub proof fn ipv6_address_text_is_read(host: Seq<char>, y: Ipv6Addr, port: u16)
    requires
        forall|j: int| 0 <= j < host.len() ==> #[trigger] host[j] != ']' && host[j] != ';',
        address::ipv6_value(host) == Some(y),
    ensures
        ({
            let m = udp_meaning(
                seq!['['] + host + seq![']', ':'] + crate::text::decimal_text(port as nat),
            );
            &&& port > 0 ==> m == (UdpMeaning::Address { ip: IpAddr::V6(y), port })
            &&& port == 0 ==> m is Rejected
        }),
{
    let digits = crate::text::decimal_text(port as nat);
    let s = seq!['['] + host + seq![']', ':'] + digits;
    crate::text::digits_stand_for_the_number(port as nat);
    lemma_bracket_split(host, port, "Missing closing bracket in IPv6 address: "@);
    assert forall|j: int| 0 <= j < s.len() implies s[j] != ';' by {
        if 0 < j <= host.len() {
            assert(s[j] == host[j - 1]);
        } else if j > host.len() + 2 {
            assert(s[j] == digits[j - host.len() - 3]);
        }
    }
    address::lemma_first_of(s, ';', s.len() as int);
}

/// `name:port`, where the name is no IPv4 address, is a name that is to be looked up.
pub proof fn name_text_is_read(host: Seq<char>, port: u16)
    requires
        host.len() > 0 ==> host[0] != '[',
        forall|j: int| 0 <= j < host.len() ==> #[trigger] host[j] != ';',
        address::ipv4_value(host) is None,
    ensures
        udp_meaning(host + seq![':'] + crate::text::decimal_text(port as nat)) == (UdpMeaning::Hostname {
            host,
            port,
        }),
{
    let digits = crate::text::decimal_text(port as nat);
    let s = host + seq![':'] + digits;
    crate::text::digits_stand_for_the_number(port as nat);
    lemma_plain_split(host, port, "Missing closing bracket in IPv6 address: "@);
    assert forall|j: int| 0 <= j < s.len() implies s[j] != ';' by {
        if j < host.len() {
            assert(s[j] == host[j]);
        } else if j > host.len() {
            assert(s[j] == digits[j - host.len() - 1]);
        }
    }
    address::lemma_first_of(s, ';', s.len() as int);
}

/// A text without a port is refused, and so is the empty one.
pub proof fn text_without_a_port_is_refused(s: Seq<char>)
    requires
        forall|j: int| 0 <= j < s.len() ==> #[trigger] s[j] != ':',
    ensures
        udp_meaning(s) is Rejected,
{
    address::lemma_first_of_bounds(s, ';');
    let i = address::first_of(s, ';');
    let rest = if s.len() > 0 && i < s.len() { s.skip(i + 1) } else { s };
    assert forall|j: int| 0 <= j < rest.len() implies #[trigger] rest[j] != ':' by {
        if s.len() > 0 && i < s.len() {
            assert(rest[j] == s[j + i + 1]);
        }
    }
    address::lemma_last_of(rest, ':', -1);
    address::lemma_first_of_bounds(rest, ']');
    let close = address::first_of(rest, ']');
    if close + 1 < rest.len() {
        assert(rest[close + 1] != ':');
    }
}

/// An endpoint is built as its text says: a group is sent to and received on every local
/// address, a broadcast likewise, and any other address is sent to and bound.
pub proof fn endpoint_is_as_its_text_says(
    part: &str,
    uri: &str,
    r: Result<UdpParse, ZmqError>,
    iface: Seq<char>,
    x: Ipv4Addr,
    port: u16,
)
    requires
        call_ensures(parse_udp_endpoint, (part, uri), r),
        port > 0,
        forall|j: int| 0 <= j < iface.len() ==> #[trigger] iface[j] != ';',
    ensures
        iface.len() > 0 && part@ == iface + seq![';'] + (address::ipv4_text(x) + seq![':']
            + crate::text::decimal_text(port as nat)) && 224 <= x.a <= 239 ==> (r matches Ok(
            UdpParse::Endpoint(ep),
        ) && ep.send_addr.ip == IpAddr::V4(x) && ep.send_addr.port == port && ep.bind_addr.port
            == port && ep.bind_addr.ip == IpAddr::V4(Ipv4Addr { a: 0, b: 0, c: 0, d: 0 }) && (
        ep.mode matches UdpMode::Multicast { iface: i, group } && i@ == iface && group
            == IpAddr::V4(x)) && !ep.is_ipv6 && ep.original_uri@ == uri@),
        iface.len() > 0 && part@ == iface + seq![';'] + (address::ipv4_text(x) + seq![':']
            + crate::text::decimal_text(port as nat)) && !(224 <= x.a <= 239) ==> (r matches Err(e)
            && e is InvalidEndpoint),
        part@ == address::ipv4_text(x) + seq![':'] + crate::text::decimal_text(port as nat) ==> (
        r matches Ok(UdpParse::Endpoint(ep)) && ep.send_addr.ip == IpAddr::V4(x)
            && ep.send_addr.port == port && ep.bind_addr.port == port && !ep.is_ipv6
            && ep.original_uri@ == uri@ && if x.a == 255 && x.b == 255 && x.c == 255 && x.d == 255 {
            ep.mode is Broadcast && ep.bind_addr.ip == IpAddr::V4(
                Ipv4Addr { a: 0, b: 0, c: 0, d: 0 },
            )
        } else {
            ep.mode is Unicast && ep.bind_addr.ip == IpAddr::V4(x)
        }),
{
    if iface.len() > 0 {
        multicast_text_is_read(iface, x, port);
    }
    address_text_is_read(x, port);
}

/// The same of IPv6.
pub proof fn ipv6_endpoint_is_as_its_text_says(
    part: &str,
    uri: &str,
    r: Result<UdpParse, ZmqError>,
    iface: Seq<char>,
    host: Seq<char>,
    y: Ipv6Addr,
    port: u16,
)
    requires
        call_ensures(parse_udp_endpoint, (part, uri), r),
        port > 0,
        forall|j: int| 0 <= j < iface.len() ==> #[trigger] iface[j] != ';',
        forall|j: int| 0 <= j < host.len() ==> #[trigger] host[j] != ']' && host[j] != ';',
        address::ipv6_value(host) == Some(y),
    ensures
        iface.len() > 0 && part@ == iface + seq![';'] + (seq!['['] + host + seq![']', ':']
            + crate::text::decimal_text(port as nat)) && y.g0 >= 0xff00 ==> (r matches Ok(
            UdpParse::Endpoint(ep),
        ) && ep.send_addr.ip == IpAddr::V6(y) && ep.send_addr.port == port && ep.bind_addr.port
            == port && (ep.bind_addr.ip matches IpAddr::V6(z) && z.g0 == 0 && z.g1 == 0 && z.g2 == 0
            && z.g3 == 0 && z.g4 == 0 && z.g5 == 0 && z.g6 == 0 && z.g7 == 0) && (
        ep.mode matches UdpMode::Multicast { iface: i, group } && i@ == iface && group
            == IpAddr::V6(y)) && ep.is_ipv6),
        part@ == seq!['['] + host + seq![']', ':'] + crate::text::decimal_text(port as nat) ==> (
        r matches Ok(UdpParse::Endpoint(ep)) && ep.send_addr.ip == IpAddr::V6(y)
            && ep.send_addr.port == port && ep.bind_addr == ep.send_addr && ep.mode is Unicast
            && ep.is_ipv6),
{
    if iface.len() > 0 {
        ipv6_multicast_text_is_read(iface, host, y, port);
    }
    ipv6_address_text_is_read(host, y, port);
}

/// A name is handed on to be looked up, and what is found is sent to and bound; a lookup that
/// finds nothing is an error.
pub proof fn names_are_looked_up(
    part: &str,
    uri: &str,
    r: Result<UdpParse, ZmqError>,
    host: Seq<char>,
    port: u16,
    name: &str,
    lookup: HostLookup,
    q: Result<UdpEndpoint, ZmqError>,
)
    requires
        call_ensures(parse_udp_endpoint, (part, uri), r),
        call_ensures(resolve_udp_hostname, (name, port, lookup, uri), q),
        host.len() > 0 ==> host[0] != '[',
        forall|j: int| 0 <= j < host.len() ==> #[trigger] host[j] != ';',
        address::ipv4_value(host) is None,
    ensures
        part@ == host + seq![':'] + crate::text::decimal_text(port as nat) ==> (r matches Ok(
            UdpParse::Hostname { host: h, port: p },
        ) && h@ == host && p == port),
        lookup is Failed || lookup is NoAddress ==> (q matches Err(e) && e is DnsResolutionFailed),
        lookup is Found && port == 0 ==> (q matches Err(e) && e is InvalidEndpoint),
        lookup matches HostLookup::Found(ip) ==> (port > 0 ==> (q matches Ok(ep)
            && ep.send_addr.ip == ip && ep.send_addr.port == port && ep.bind_addr.port == port
            && ep.is_ipv6 == (ip is V6) && (ep.mode is Unicast ==> ep.bind_addr.ip == ip) && (
        ip is V6 ==> ep.mode is Unicast))),
{
    name_text_is_read(host, port);
}

/// Nothing is read of a text without a port; the address that stands for all has the family of
/// the one that it stands for.
pub proof fn port_is_needed(part: &str, uri: &str, r: Result<UdpParse, ZmqError>, ip: IpAddr, zero: IpAddr)
    requires
        call_ensures(parse_udp_endpoint, (part, uri), r),
        call_ensures(unspecified_address, (ip,), zero),
        forall|j: int| 0 <= j < part@.len() ==> #[trigger] part@[j] != ':',
    ensures
        r matches Err(e) && e is InvalidEndpoint,
        ip is V4 ==> zero == IpAddr::V4(Ipv4Addr { a: 0, b: 0, c: 0, d: 0 }),
        ip is V6 ==> (zero matches IpAddr::V6(z) && z.g0 == 0 && z.g7 == 0),
{
    text_without_a_port_is_refused(part@);
}

} // verus!
