use rzmq::error::ZmqError;
use rzmq::transport::address::{IpAddr, Ipv4Addr, Ipv6Addr, SocketAddr};
use rzmq::transport::udp_endpoint::{
    parse_udp_endpoint, resolve_udp_hostname, HostLookup, UdpEndpoint, UdpMode, UdpParse,
};

fn parsed(address: &str, uri: &str) -> UdpEndpoint {
    match parse_udp_endpoint(address, uri) {
        Ok(UdpParse::Endpoint(ep)) => ep,
        other => panic!("expected an endpoint, got {:?}", other),
    }
}

#[test]
fn test_parse_unicast_ipv4() {
    let ep = parsed("127.0.0.1:5900", "udp://127.0.0.1:5900");
    assert!(matches!(ep.mode, UdpMode::Unicast));
    assert_eq!(ep.bind_addr.port(), 5900);
    assert_eq!(ep.send_addr.port(), 5900);
    assert!(!ep.is_ipv6);
}

#[test]
fn test_parse_unicast_ipv6() {
    let ep = parsed("[::1]:5900", "udp://[::1]:5900");
    assert!(matches!(ep.mode, UdpMode::Unicast));
    assert_eq!(ep.bind_addr.port(), 5900);
    assert_eq!(ep.send_addr.port(), 5900);
    assert!(ep.is_ipv6);
}

#[test]
fn test_parse_broadcast() {
    let ep = parsed("255.255.255.255:5900", "udp://255.255.255.255:5900");
    assert!(matches!(ep.mode, UdpMode::Broadcast));
    assert_eq!(ep.bind_addr.port(), 5900);
    assert!(!ep.is_ipv6);
}

#[test]
fn test_parse_ipv4_multicast() {
    let ep = parsed("lo;239.0.0.1:5900", "udp://lo;239.0.0.1:5900");
    match ep.mode {
        UdpMode::Multicast { ref iface, ref group } => {
            assert_eq!(iface, "lo");
            assert!(matches!(group, IpAddr::V4(ipv4) if ipv4.is_multicast()));
        }
        _ => panic!("Expected multicast mode"),
    }
    assert_eq!(ep.send_addr.port(), 5900);
    assert_eq!(ep.bind_addr.port(), 5900);
    assert!(!ep.is_ipv6);
}

#[test]
fn test_parse_ipv6_multicast() {
    let ep = parsed("lo;[ff02::1]:5900", "udp://lo;[ff02::1]:5900");
    match ep.mode {
        UdpMode::Multicast { ref iface, ref group } => {
            assert_eq!(iface, "lo");
            assert!(matches!(group, IpAddr::V6(ipv6) if ipv6.is_multicast()));
        }
        _ => panic!("Expected multicast mode"),
    }
    assert_eq!(ep.send_addr.port(), 5900);
    assert!(ep.is_ipv6);
}

#[test]
fn test_reject_empty_address() {
    let result = parse_udp_endpoint("", "udp://");
    assert!(result.is_err());
}

#[test]
fn test_reject_missing_port() {
    let result = parse_udp_endpoint("127.0.0.1", "udp://127.0.0.1");
    assert!(result.is_err());
}

#[test]
fn test_reject_zero_port() {
    let result = parse_udp_endpoint("127.0.0.1:0", "udp://127.0.0.1:0");
    assert!(result.is_err());
}

#[test]
fn test_reject_non_multicast_in_multicast_format() {
    // 192.168.1.1 is not in the multicast range
    let result = parse_udp_endpoint("lo;192.168.1.1:5900", "udp://lo;192.168.1.1:5900");
    assert!(result.is_err());
}

#[test]
fn unicast_keeps_the_address_exactly() {
    let ep = parsed("10.1.2.3:65535", "udp://10.1.2.3:65535");
    let expected = SocketAddr::new(IpAddr::V4(Ipv4Addr { a: 10, b: 1, c: 2, d: 3 }), 65535);
    assert_eq!(ep.bind_addr, expected);
    assert_eq!(ep.send_addr, expected);
    assert_eq!(ep.original_uri, "udp://10.1.2.3:65535");
}

#[test]
fn broadcast_binds_to_the_unspecified_address() {
    let ep = parsed("255.255.255.255:5900", "udp://255.255.255.255:5900");
    let all = IpAddr::V4(Ipv4Addr { a: 255, b: 255, c: 255, d: 255 });
    assert_eq!(ep.bind_addr, SocketAddr::new(IpAddr::V4(Ipv4Addr::unspecified()), 5900));
    assert_eq!(ep.send_addr, SocketAddr::new(all, 5900));
    assert!(matches!(ep.mode, UdpMode::Broadcast));
    let named = resolve_udp_hostname("everyone", 7, HostLookup::Found(all), "u").unwrap();
    assert_eq!(named.bind_addr, SocketAddr::new(IpAddr::V4(Ipv4Addr::unspecified()), 7));
    assert_eq!(named.send_addr, SocketAddr::new(all, 7));
}

#[test]
fn multicast_binds_to_the_unspecified_address() {
    let ep = parsed("eth0;239.0.0.1:7", "udp://eth0;239.0.0.1:7");
    assert_eq!(ep.bind_addr, SocketAddr::new(IpAddr::V4(Ipv4Addr::unspecified()), 7));
    assert_eq!(
        ep.send_addr,
        SocketAddr::new(IpAddr::V4(Ipv4Addr { a: 239, b: 0, c: 0, d: 1 }), 7)
    );
    let ep6 = parsed("eth0;[ff02::1]:7", "udp://eth0;[ff02::1]:7");
    assert_eq!(ep6.bind_addr, SocketAddr::new(IpAddr::V6(Ipv6Addr::unspecified()), 7));
}

#[test]
fn ipv6_groups_are_read_around_the_gap() {
    let ep = parsed("[2001:db8::ff00:42:8329]:1", "u");
    assert_eq!(
        ep.send_addr.ip,
        IpAddr::V6(Ipv6Addr {
            g0: 0x2001,
            g1: 0xdb8,
            g2: 0,
            g3: 0,
            g4: 0,
            g5: 0xff00,
            g6: 0x42,
            g7: 0x8329
        })
    );
}

#[test]
fn malformed_addresses_are_rejected() {
    for bad in [
        "1.2.3:1x",
        "127.0.0.1:65536",
        "[::1:5900",
        "lo;:5900",
        "lo;239.0.0.1",
        "[1:2:3]:4",
    ] {
        assert!(
            matches!(parse_udp_endpoint(bad, "udp://bad"), Err(ZmqError::InvalidEndpoint(_))),
            "{}",
            bad
        );
    }
}

#[test]
fn host_names_are_looked_up() {
    match parse_udp_endpoint("example.org:5900", "udp://example.org:5900") {
        Ok(UdpParse::Hostname { host, port }) => {
            assert_eq!(host, "example.org");
            assert_eq!(port, 5900);
        }
        other => panic!("expected a host name, got {:?}", other),
    }
    let ip = IpAddr::V4(Ipv4Addr { a: 93, b: 184, c: 216, d: 34 });
    let ep = resolve_udp_hostname("example.org", 5900, HostLookup::Found(ip), "u").unwrap();
    assert_eq!(ep.send_addr, SocketAddr::new(ip, 5900));
    assert!(matches!(ep.mode, UdpMode::Unicast));
    assert!(resolve_udp_hostname("example.org", 5900, HostLookup::NoAddress, "u").is_err());
    assert!(
        resolve_udp_hostname("example.org", 5900, HostLookup::Failed("no".to_string()), "u")
            .is_err()
    );
}
