use rzmq::error::{IoErrorKind, ZmqError};
use rzmq::message::Msg;
use rzmq::socket::connection_iface::{
    CloseReply, DummyConnection, InprocConnection, InprocSendStep, UringFdConnection,
};
use rzmq::socket::events::{monitor, monitor_default, tell_monitor, SocketEvent};
use rzmq::socket::options::{IoUringOptions, SocketOptions, UdpOptions};
use rzmq::socket::socket_core::event_processor::{ConnectionInteractionModel, SystemEvent};
use rzmq::socket::socket_core::state::{ConnectionRef, CoreState};
use rzmq::socket::types::SocketType;
use rzmq::time::Duration;
use rzmq::transport::address::{IpAddr, Ipv4Addr, SocketAddr};
use rzmq::transport::inproc::{
    begin_connect_inproc, bind_inproc, disconnect_inproc, inproc_replied, request_inproc,
    InprocBegin, InprocReply,
};
use rzmq::transport::ipc::{
    accepted_peer_name, connect_attempted, connect_timeout, publish_failed, ConnectOutcome,
};
use rzmq::transport::listener::{
    accept_failed, accepted, connection_established, limiter_closed, new_connection_limiter,
    registration_checked, AcceptLoopEnd, ConnectionSetup, ListenerEvent, ListenerKind,
    ListenerLoop, RegistrationReply,
};
use rzmq::transport::tcp::{
    is_fatal_accept_error, is_fatal_connect_error, keepalive_settings, listener_host,
    listener_setup, stream_setup, AddressStep, AddressTries, AttemptOutcome, ConnectLoop,
    ConnectStep, ConnecterEvent, TcpTransportConfig,
};
use rzmq::transport::udp::{
    resolve_iface_to_index, resolve_iface_to_ipv4, socket_setup, InterfaceEntry, UdpOp,
    UdpReceiver, UdpReceiverCommand, UdpReceiverEnd, UdpUse,
};
use rzmq::transport::udp_endpoint::{parse_udp_endpoint, UdpEndpoint, UdpParse};
use rzmq::uring::{
    upstream_event_variant_name, HandlerUpstreamEvent, StartedUring, UringBackend, UringCommand,
    UringConfig, UringStart,
};

fn options() -> SocketOptions {
    SocketOptions {
        sndhwm: 2,
        rcvhwm: 10,
        sndtimeo: Some(Duration::from_nanos(0)),
        rcvtimeo: Some(Duration::from_nanos(0)),
        linger: Some(Duration::from_secs(1)),
        reconnect_ivl: Some(Duration::from_millis(100)),
        reconnect_ivl_max: Some(Duration::from_secs(1)),
        handshake_ivl: None,
        router_mandatory: false,
        max_connections: None,
        socket_type_name: String::new(),
        tcp_nodelay: true,
        tcp_keepalive_idle: None,
        tcp_keepalive_interval: None,
        tcp_keepalive_count: None,
        tcp_cork: false,
        backlog: None,
        io_uring: IoUringOptions { session_enabled: false },
        udp: UdpOptions { multicast_loop: true, multicast_hops: 1 },
    }
}

fn addr(last: u8, port: u16) -> SocketAddr {
    SocketAddr::new(IpAddr::V4(Ipv4Addr { a: 10, b: 0, c: 0, d: last }), port)
}

fn words(e: ZmqError) -> String {
    match e {
        ZmqError::Internal(m)
        | ZmqError::InvalidEndpoint(m)
        | ZmqError::DnsResolutionFailed(m)
        | ZmqError::ConnectionRefused(m)
        | ZmqError::HostUnreachable(m) => m,
        other => panic!("{:?}", other),
    }
}

// ----- listeners ----------------------------------------------------------

#[test]
fn a_listener_admits_as_many_connections_as_it_may() {
    assert_eq!(new_connection_limiter(Some(3)).available_permits(), 3);
    assert_eq!(new_connection_limiter(Some(0)).available_permits(), 1);
}

#[test]
fn a_listener_stops_in_order_or_with_an_error() {
    let mut l = ListenerLoop::new(ListenerKind::Tcp, 4);
    l.on_event(ListenerEvent::OtherEvent);
    l.on_event(ListenerEvent::SocketClosing { socket_id: 5 });
    assert!(l.running);
    l.on_event(ListenerEvent::SocketClosing { socket_id: 4 });
    assert!(!l.running);
    assert!(l.finish(AcceptLoopEnd::Cancelled).is_none());
    let mut l = ListenerLoop::new(ListenerKind::Ipc, 4);
    l.on_event(ListenerEvent::EventBusLagged);
    assert!(words(l.finish(AcceptLoopEnd::InOrder).unwrap()).contains("event bus lagged"));
    let mut l = ListenerLoop::new(ListenerKind::Tcp, 4);
    l.on_event(ListenerEvent::Stop);
    assert!(words(l.finish(AcceptLoopEnd::Panicked("oops".to_string())).unwrap()).ends_with(": oops"));
    assert_eq!(words(limiter_closed(ListenerKind::Ipc)), "IPC Connection limiter closed");
}

#[test]
fn accepted_connections_are_announced() {
    let a = accepted(ListenerKind::Tcp, "tcp://0.0.0.0:1", "10.0.0.1:2");
    assert_eq!(a.connection_uri, "tcp://10.0.0.1:2");
    assert!(matches!(
        a.event,
        SocketEvent::Accepted { endpoint, peer_addr }
            if endpoint == "tcp://0.0.0.0:1" && peer_addr == "10.0.0.1:2"
    ));
    assert_eq!(accepted(ListenerKind::Ipc, "ipc:///x", "p").connection_uri, "ipc://p");
    assert_eq!(accepted_peer_name(17), "ipc-peer-fd-17");
    let session = ConnectionSetup::Session { sca_handle_id: 8 };
    match connection_established(1, "tcp://p".to_string(), "tcp://l".to_string(), session) {
        Some(SystemEvent::NewConnectionEstablished { parent_core_id, interaction_model, .. }) => {
            assert_eq!(parent_core_id, 1);
            assert!(matches!(
                interaction_model,
                ConnectionInteractionModel::ViaSca { sca_handle_id: 8 }
            ));
        }
        other => panic!("{:?}", other),
    }
    assert!(connection_established(1, String::new(), String::new(), ConnectionSetup::Failed).is_none());
}

#[test]
fn only_some_accept_errors_stop_a_listener() {
    let failed = |kind| {
        accept_failed(ListenerKind::Tcp, "tcp://l", kind, ZmqError::Timeout, "text").stop.is_some()
    };
    assert!(failed(IoErrorKind::InvalidInput));
    assert!(failed(IoErrorKind::BrokenPipe));
    assert!(!failed(IoErrorKind::ConnectionAborted));
    assert!(is_fatal_accept_error(IoErrorKind::InvalidInput));
    let f = accept_failed(ListenerKind::Ipc, "ipc://l", IoErrorKind::Other, ZmqError::Timeout, "t");
    assert_eq!(f.pause, Duration::from_millis(100));
}

#[test]
fn registrations_are_checked_against_their_descriptor() {
    assert!(registration_checked(5, RegistrationReply::Registered { fd: 5 }, "").is_ok());
    let e = registration_checked(5, RegistrationReply::Registered { fd: 6 }, "R(6)");
    assert_eq!(words(e.unwrap_err()), "UringWorker unexpected success: R(6)");
    let e = registration_checked(5, RegistrationReply::NoReply("gone".to_string()), "");
    assert_eq!(words(e.unwrap_err()), "Register FD with UringWorker reply error: gone");
    assert!(matches!(
        registration_checked(5, RegistrationReply::Refused(ZmqError::Timeout), ""),
        Err(ZmqError::Timeout)
    ));
}

// ----- TCP ----------------------------------------------------------------

#[test]
fn a_listener_binds_the_first_address() {
    assert_eq!(listener_host("tcp://host:1").unwrap(), "host:1");
    assert_eq!(words(listener_host("ipc://x").unwrap_err()), "ipc://x");
    let setup = listener_setup("h", Ok(vec![addr(1, 9), addr(2, 9)]), None).unwrap();
    assert_eq!(setup.bind_addr, addr(1, 9));
    assert!(!setup.is_ipv6 && !setup.dual_stack && setup.reuse_address);
    assert_eq!(setup.backlog, 128);
    assert_eq!(listener_setup("h", Ok(vec![addr(1, 9)]), Some(7)).unwrap().backlog, 7);
    assert_eq!(
        words(listener_setup("h", Ok(vec![]), None).unwrap_err()),
        "No IP addresses found for listener host 'h'"
    );
    assert_eq!(
        words(listener_setup("h", Err("no dns".to_string()), None).unwrap_err()),
        "Failed to resolve listener address 'h': no dns"
    );
}

#[test]
fn streams_are_set_up_by_the_options() {
    let mut o = options();
    o.tcp_nodelay = false;
    o.tcp_keepalive_interval = Some(Duration::from_secs(7));
    o.tcp_keepalive_count = Some(5);
    o.tcp_cork = true;
    let plain = stream_setup(&o, true);
    assert!(!plain.via_uring && !plain.cork && !plain.config.tcp_nodelay);
    let keepalive = keepalive_settings(&plain.config).unwrap();
    assert_eq!(keepalive.interval.unwrap().nanos(), 7_000_000_000);
    assert_eq!((keepalive.time.is_none(), keepalive.retries), (true, Some(5)));
    o.io_uring.session_enabled = true;
    let served = stream_setup(&o, true);
    assert!(served.via_uring && served.cork);
    let missing = stream_setup(&o, false);
    assert!(!missing.via_uring && !missing.cork);
}

#[test]
fn keepalive_is_set_where_any_part_of_it_is() {
    let mut config = TcpTransportConfig {
        tcp_nodelay: true,
        keepalive_time: None,
        keepalive_interval: None,
        keepalive_count: None,
    };
    assert!(keepalive_settings(&config).is_none());
    config.keepalive_count = Some(3);
    assert_eq!(keepalive_settings(&config).unwrap().retries, Some(3));
}

#[test]
fn addresses_are_tried_in_turn() {
    let mut tries = AddressTries::new("tcp://h:1", Ok(vec![addr(1, 1), addr(2, 1)])).unwrap();
    assert!(matches!(tries.next(), AddressStep::Connect(a) if a == addr(1, 1)));
    tries.failed(ZmqError::Timeout);
    assert!(matches!(tries.next(), AddressStep::Connect(a) if a == addr(2, 1)));
    tries.failed(ZmqError::ConnectionClosed);
    assert!(matches!(tries.next(), AddressStep::Done(ZmqError::ConnectionClosed)));
    let none = AddressTries::new("tcp://h:1", Ok(vec![])).unwrap();
    match none.next() {
        AddressStep::Done(e) => assert_eq!(
            words(e),
            "No IP addresses found or all attempts failed for h:1"
        ),
        other => panic!("{:?}", other),
    }
    let e = AddressTries::new("tcp://h:1", Err("x".to_string())).unwrap_err();
    assert_eq!(words(e), "Failed to resolve 'h:1': x");
}

#[test]
fn retries_wait_longer_each_time() {
    let mut l = ConnectLoop::new("tcp://h:1".to_string(), 1, 0, &options()).unwrap();
    assert!(matches!(l.next(), ConnectStep::Attempt));
    assert!(l.before_attempt(ConnecterEvent::Silence));
    let event = l.attempted(AttemptOutcome::Failed(ZmqError::Timeout), "timed out");
    assert!(matches!(
        event,
        Some(SocketEvent::ConnectDelayed { error_msg, .. }) if error_msg == "timed out"
    ));
    for millis in [100, 200, 400, 800, 1000, 1000] {
        match l.next() {
            ConnectStep::Wait { delay, event: Some(SocketEvent::ConnectRetried { interval, .. }) } => {
                assert_eq!(delay, Duration::from_millis(millis));
                assert_eq!(interval, delay);
            }
            other => panic!("{:?}", other),
        }
        l.waited(ConnecterEvent::Silence);
        assert!(l.before_attempt(ConnecterEvent::Other));
        assert!(l.attempted(AttemptOutcome::Failed(ZmqError::Timeout), "").is_none());
    }
    assert!(l.attempted(AttemptOutcome::Established, "").is_none());
    let end = l.finish("");
    assert!(end.error.is_none() && end.publish.is_none() && end.monitor.is_none());
}

#[test]
fn later_connecters_start_with_a_longer_wait() {
    let l = ConnectLoop::new("tcp://h:1".to_string(), 1, 2, &options()).unwrap();
    assert_eq!(l.current_delay, Duration::from_millis(400));
    let mut o = options();
    o.reconnect_ivl_max = None;
    let l = ConnectLoop::new("tcp://h:1".to_string(), 1, 2, &o).unwrap();
    assert_eq!(l.current_delay, Duration::from_millis(100));
    assert!(ConnectLoop::new("udp://h:1".to_string(), 1, 0, &o).is_err());
}

#[test]
fn fatal_errors_end_the_attempts() {
    let mut l = ConnectLoop::new("tcp://h:1".to_string(), 3, 0, &options()).unwrap();
    let _ = l.next();
    assert!(l.before_attempt(ConnecterEvent::Silence));
    let fatal = ZmqError::DnsResolutionFailed("d".to_string());
    assert!(is_fatal_connect_error(&fatal));
    assert!(l.attempted(AttemptOutcome::Failed(fatal), "d").is_none());
    assert!(!l.running);
    let end = l.finish("text");
    assert!(matches!(
        end.publish,
        Some(SystemEvent::ConnectionAttemptFailed { parent_core_id: 3, .. })
    ));
    assert!(matches!(
        end.monitor,
        Some(SocketEvent::ConnectFailed { error_msg, .. }) if error_msg == "text"
    ));
}

#[test]
fn a_closing_socket_ends_the_attempts() {
    let mut l = ConnectLoop::new("tcp://h:1".to_string(), 3, 0, &options()).unwrap();
    let _ = l.next();
    assert!(l.before_attempt(ConnecterEvent::SocketClosing { socket_id: 4 }));
    let _ = l.attempted(AttemptOutcome::Failed(ZmqError::Timeout), "");
    assert!(matches!(l.next(), ConnectStep::Wait { .. }));
    l.waited(ConnecterEvent::SocketClosing { socket_id: 3 });
    assert!(!l.running);
    let end = l.finish("");
    assert!(end.publish.is_none() && end.monitor.is_none());
    assert_eq!(words(end.error.unwrap()), "Connecter shutdown by event retry delay.");
    let mut l = ConnectLoop::new("tcp://h:1".to_string(), 3, 0, &options()).unwrap();
    let _ = l.next();
    assert!(!l.before_attempt(ConnecterEvent::SocketClosing { socket_id: 3 }));
    let end = l.finish("");
    assert!(end.publish.is_some());
    assert_eq!(words(end.error.unwrap()), "Shutdown by parent SocketClosing (pre-connect).");
    let mut o = options();
    o.reconnect_ivl = Some(Duration::from_nanos(0));
    o.reconnect_ivl_max = None;
    let mut l = ConnectLoop::new("tcp://h:1".to_string(), 3, 0, &o).unwrap();
    let _ = l.next();
    assert!(l.before_attempt(ConnecterEvent::Silence));
    assert!(l.attempted(AttemptOutcome::Failed(ZmqError::Timeout), "").is_none());
    assert!(!l.running);
}

// ----- IPC ----------------------------------------------------------------

#[test]
fn an_ipc_connect_is_reported() {
    assert_eq!(connect_timeout(None), Duration::from_secs(5));
    let end = connect_attempted(
        1,
        "ipc:///x",
        ConnectOutcome::Connected { fd: 9, sca_handle_id: 4 },
        "",
    );
    assert!(matches!(
        end.monitor,
        SocketEvent::Connected { peer_addr, .. } if peer_addr == "ipc://ipc-fd-9"
    ));
    assert!(end.error.is_none());
    let end = connect_attempted(1, "ipc:///x", ConnectOutcome::TimedOut, "late");
    assert!(matches!(end.error, Some(ZmqError::Timeout)));
    assert!(end.publish.is_some());
    let end = connect_attempted(1, "ipc:///x", ConnectOutcome::Aborted, "");
    assert!(end.publish.is_none());
    assert_eq!(words(publish_failed()), "IPC Failed to publish NewConnection");
}

// ----- in-process ---------------------------------------------------------

#[test]
fn names_are_bound_only_where_they_are_registered() {
    let mut c = CoreState::new(1, SocketType::Pull, options());
    assert!(bind_inproc(&mut c, "x".to_string(), Err(ZmqError::AddrInUse("x".to_string()))).is_err());
    assert_eq!(c.bound_inproc_names.len(), 0);
    assert!(bind_inproc(&mut c, "x".to_string(), Ok(())).is_ok());
    assert!(c.bound_inproc_names.contains_key("x"));
}

#[test]
fn a_refused_in_process_connect_leaves_no_trace() {
    let mut c = CoreState::new(1, SocketType::Push, options());
    c.monitored = true;
    match begin_connect_inproc(&c, "x", false, true) {
        InprocBegin::Refused { error, monitor, publish } => {
            assert_eq!(words(error), "Inproc endpoint 'x' not bound or not found");
            assert!(monitor.is_some() && publish.is_none());
        }
        other => panic!("{:?}", other),
    }
    assert!(matches!(begin_connect_inproc(&c, "x", true, true), InprocBegin::Ready));
    let link = ConnectionRef { id: 6, is_uring: false };
    let request = request_inproc(&mut c, "x".to_string(), 2, 3, 6, link);
    assert_eq!(request.binder_rx.capacity(), 10);
    assert!(c.endpoints.get("inproc://x").unwrap().is_outbound_connection);
    let end = inproc_replied(&mut c, request.attempt, InprocReply::NoReply);
    assert_eq!(
        words(end.result.unwrap_err()),
        "Binder for inproc endpoint 'x' failed to reply or disappeared"
    );
    assert!(!end.attach);
    assert_eq!(c.endpoints.len(), 0);
    assert_eq!(c.pipes_tx.len(), 0);
    assert_eq!(c.pipe_read_id_to_endpoint_uri.len(), 0);
}

#[test]
fn in_process_messages_reach_the_binder() {
    let mut c = CoreState::new(1, SocketType::Push, options());
    let link = ConnectionRef { id: 6, is_uring: false };
    let request = request_inproc(&mut c, "x".to_string(), 2, 3, 6, link);
    assert!(matches!(
        request.connection.send_multipart(vec![Msg::from_vec(vec![7])]),
        InprocSendStep::Done(Ok(()))
    ));
    assert_eq!(request.binder_rx.try_recv().unwrap()[0].data, vec![7]);
    let end = inproc_replied(&mut c, request.attempt, InprocReply::Accepted);
    assert!(end.result.is_ok() && end.attach);
    let closing = request.connection.close_connection();
    assert!(closing.monitor.is_none());
    assert!(matches!(
        closing.publish,
        SystemEvent::InprocPipePeerClosed { target_inproc_name, closed_by_connector_pipe_read_id: 3 }
            if target_inproc_name == "x"
    ));
    let gone = disconnect_inproc(&mut c, "inproc://x").unwrap().unwrap();
    assert_eq!(gone.detach, Some(3));
    assert!(disconnect_inproc(&mut c, "inproc://x").unwrap().is_none());
    assert!(disconnect_inproc(&mut c, "inproc://").is_err());
    assert!(disconnect_inproc(&mut c, "tcp://x").is_err());
}

#[test]
fn in_process_sends_wait_where_they_may() {
    let (tx, rx) = fibre::mpmc::bounded_async::<Vec<Msg>>(1);
    let limit = Some(Duration::from_secs(1));
    let link =
        InprocConnection::new(6, 2, 3, "inproc://x".to_string(), tx.clone(), true, limit);
    assert_eq!(link.get_connection_id(), 6);
    assert!(matches!(
        link.send_multipart(vec![]),
        InprocSendStep::Wait { timeout, .. } if timeout == limit
    ));
    let zero = Some(Duration::from_nanos(0));
    let link = InprocConnection::new(6, 2, 3, "y".to_string(), tx, true, zero);
    assert!(matches!(
        link.send_multipart(vec![Msg::from_vec(vec![9])]),
        InprocSendStep::Done(Ok(()))
    ));
    assert!(matches!(
        link.send_multipart(vec![]),
        InprocSendStep::Done(Err(ZmqError::ResourceLimitReached))
    ));
    assert_eq!(rx.try_recv().unwrap()[0].data, vec![9]);
    assert!(matches!(
        link.close_connection().monitor,
        Some(SocketEvent::Disconnected { endpoint }) if endpoint == "y"
    ));
    drop(rx);
    assert!(matches!(
        link.send_multipart(vec![]),
        InprocSendStep::Done(Err(ZmqError::ConnectionClosed))
    ));
}

#[test]
fn events_without_room_are_dropped() {
    let told = |endpoint: &str| SocketEvent::Listening { endpoint: endpoint.to_string() };
    let (tx, rx) = monitor(1);
    assert!(tell_monitor(&tx, told("a")).is_none());
    assert!(matches!(
        tell_monitor(&tx, told("b")),
        Some(SocketEvent::Listening { endpoint }) if endpoint == "b"
    ));
    assert!(matches!(
        rx.try_recv(),
        Ok(SocketEvent::Listening { endpoint }) if endpoint == "a"
    ));
    assert!(rx.try_recv().is_err());
    drop(rx);
    assert!(tell_monitor(&tx, told("c")).is_some());
}

// ----- UDP ----------------------------------------------------------------

fn udp(address: &str) -> UdpEndpoint {
    match parse_udp_endpoint(address, "udp://x") {
        Ok(UdpParse::Endpoint(ep)) => ep,
        other => panic!("{:?}", other),
    }
}

#[test]
fn a_multicast_receiver_joins_after_it_is_bound() {
    let any = Ipv4Addr::unspecified();
    let ep = udp("lo;239.1.2.3:5000");
    let o = UdpOptions { multicast_loop: true, multicast_hops: 4 };
    let ops = socket_setup(&ep, UdpUse::Receive, &o, any, 0);
    let bind = ops.iter().position(|op| matches!(op, UdpOp::Bind(_))).unwrap();
    let join = ops.iter().position(|op| matches!(op, UdpOp::JoinV4(..))).unwrap();
    assert!(bind < join);
    assert!(ops.contains(&UdpOp::MulticastTtlV4(4)));
    assert!(ops.contains(&UdpOp::MulticastLoopV4(true)));
    assert_eq!(ops[ops.len() - 1], UdpOp::NonBlocking);
    let ops = socket_setup(&ep, UdpUse::BoundSend, &o, any, 0);
    assert!(!ops.iter().any(|op| matches!(op, UdpOp::JoinV4(..))));
}

#[test]
fn broadcast_and_unicast_sockets_are_set_up() {
    let any = Ipv4Addr::unspecified();
    let o = UdpOptions { multicast_loop: true, multicast_hops: 1 };
    let ops = socket_setup(&udp("255.255.255.255:5000"), UdpUse::ConnectedSend, &o, any, 0);
    assert!(ops.contains(&UdpOp::Broadcast));
    let ep = udp("10.0.0.7:5000");
    let ops = socket_setup(&ep, UdpUse::RawConnectedSend, &o, any, 0);
    assert!(ops.contains(&UdpOp::Connect(ep.send_addr)));
    assert!(!ops.contains(&UdpOp::Broadcast));
    let ops = socket_setup(&udp("[::1]:5000"), UdpUse::Receive, &o, any, 0);
    assert!(ops.contains(&UdpOp::DualStack));
}

#[test]
fn each_use_binds_its_own_address() {
    let any = Ipv4Addr::unspecified();
    let o = UdpOptions { multicast_loop: true, multicast_hops: 1 };
    let bound = |address: &str, purpose: UdpUse| -> SocketAddr {
        let ops = socket_setup(&udp(address), purpose, &o, any, 0);
        ops.iter().find_map(|op| if let UdpOp::Bind(a) = op { Some(*a) } else { None }).unwrap()
    };
    let v4 = |port: u16| SocketAddr::new(IpAddr::V4(Ipv4Addr::unspecified()), port);
    let given = SocketAddr::new(IpAddr::V4(Ipv4Addr { a: 10, b: 0, c: 0, d: 7 }), 5000);
    assert_eq!(bound("10.0.0.7:5000", UdpUse::Receive), given);
    assert_eq!(bound("255.255.255.255:5000", UdpUse::Receive), v4(5000));
    assert_eq!(bound("10.0.0.7:5000", UdpUse::BoundSend), v4(5000));
    assert_eq!(bound("10.0.0.7:5000", UdpUse::ConnectedSend), v4(0));
    assert_eq!(bound("10.0.0.7:5000", UdpUse::ConnectedReceive), v4(0));
    let ops = socket_setup(&udp("lo;239.1.2.3:5000"), UdpUse::ConnectedReceive, &o, any, 0);
    assert!(ops.iter().any(|op| matches!(op, UdpOp::JoinV4(..))));
    assert!(!ops.contains(&UdpOp::Bind(v4(5000))));
}

#[test]
fn interfaces_are_found_by_address_or_name() {
    let ip = Ipv4Addr { a: 192, b: 168, c: 0, d: 5 };
    let list = vec![
        InterfaceEntry { name: "eth0".to_string(), ipv4: None },
        InterfaceEntry { name: "eth0".to_string(), ipv4: Some(ip) },
    ];
    assert_eq!(resolve_iface_to_ipv4("192.168.0.5", None).unwrap(), ip);
    assert_eq!(resolve_iface_to_ipv4("eth0", Some(&list)).unwrap(), ip);
    assert_eq!(
        words(resolve_iface_to_ipv4("eth1", Some(&list)).unwrap_err()),
        "Interface 'eth1' not found or has no IPv4 address"
    );
    assert_eq!(words(resolve_iface_to_ipv4("eth1", None).unwrap_err()), "getifaddrs failed");
    assert_eq!(
        words(resolve_iface_to_ipv4("a\0b", Some(&list)).unwrap_err()),
        "Invalid interface name: a\0b"
    );
    assert_eq!(resolve_iface_to_index("eth0", 3).unwrap(), 3);
    assert_eq!(
        words(resolve_iface_to_index("eth0", 0).unwrap_err()),
        "Interface 'eth0' not found"
    );
}

#[test]
fn empty_datagrams_are_dropped() {
    assert!(UdpReceiver::datagram(vec![]).is_none());
    assert_eq!(UdpReceiver::datagram(vec![1]).unwrap().data, vec![1]);
    let mut u = UdpReceiver::new();
    u.delivered(Err(ZmqError::Timeout));
    u.commanded(UdpReceiverCommand::Other);
    assert!(u.end.is_none());
    u.delivered(Err(ZmqError::Shutdown));
    assert!(matches!(u.end, Some(UdpReceiverEnd::SocketGone)));
    let mut u = UdpReceiver::new();
    u.commanded(UdpReceiverCommand::Stop);
    assert!(matches!(u.end, Some(UdpReceiverEnd::InOrder)));
    let mut u = UdpReceiver::new();
    u.receive_failed(ZmqError::Timeout);
    assert!(matches!(u.end, Some(UdpReceiverEnd::Failed(ZmqError::Timeout))));
}

// ----- io_uring -----------------------------------------------------------

#[test]
fn the_io_uring_backend_starts_once() {
    let mut b = UringBackend::new();
    assert_eq!(
        words(b.get_global_uring_worker_op_tx().unwrap_err()),
        "UringWorker OP_TX unavailable"
    );
    assert_eq!(b.shutdown_uring_backend(), (false, None));
    assert!(matches!(b.ensure_global_uring_systems_started(), UringStart::Spawn(_)));
    assert!(b.backend_spawned(Err(ZmqError::Timeout)).is_err());
    assert!(matches!(b.initialize_uring_backend(UringConfig::default()), UringStart::Spawn(_)));
    assert!(b.backend_spawned(Ok(StartedUring { op_tx: 1, worker: 2, processor: 3 })).is_ok());
    assert_eq!(b.get_global_uring_worker_op_tx().unwrap(), 1);
    assert!(matches!(
        b.initialize_uring_backend(UringConfig::default()),
        UringStart::Done(Ok(()))
    ));
    assert_eq!(b.shutdown_uring_backend(), (true, Some(2)));
    assert_eq!(b.worker_joined(Ok(())).unwrap(), Some(3));
    b.shutdown_finished();
    assert_eq!(b.shutdown_uring_backend(), (false, None));
    assert_eq!(
        words(b.worker_joined(Err("x".to_string())).unwrap_err()),
        "spawn_blocking for worker join failed: x"
    );
}

#[test]
fn upstream_events_go_to_the_mailbox_of_their_descriptor() {
    let mut b = UringBackend::new();
    b.register_uring_fd_socket_core_mailbox(5, 90);
    let data = HandlerUpstreamEvent::Data(Msg::from_vec(vec![1]));
    assert_eq!(upstream_event_variant_name(&data), "Data");
    assert!(matches!(
        b.route_upstream_event(5, data),
        Some((90, UringCommand::FdMessage { fd: 5, .. }))
    ));
    assert!(matches!(
        b.route_upstream_event(5, HandlerUpstreamEvent::HandshakeComplete { peer_identity: None }),
        Some((90, UringCommand::FdHandshakeComplete { fd: 5, .. }))
    ));
    assert!(b.route_upstream_event(6, HandlerUpstreamEvent::Error(ZmqError::Timeout)).is_none());
    b.unregister_uring_fd_socket_core_mailbox(5);
    assert!(b.route_upstream_event(5, HandlerUpstreamEvent::Error(ZmqError::Timeout)).is_none());
}

#[test]
fn descriptors_send_without_waiting() {
    let (link, rx) = UringFdConnection::open(5, 0);
    assert_eq!(link.mpsc_tx.capacity(), 1);
    assert_eq!(link.get_connection_id(), 5);
    assert!(link.send_multipart_sync(vec![Msg::from_vec(vec![4])]).is_ok());
    assert!(matches!(
        link.send_multipart_sync(vec![]),
        Err(ZmqError::ResourceLimitReached)
    ));
    assert_eq!(rx.try_recv().unwrap()[0].data, vec![4]);
    drop(rx);
    assert!(matches!(link.send_multipart_sync(vec![]), Err(ZmqError::ConnectionClosed)));
    assert!(UringFdConnection::close_connection(CloseReply::Closed).is_ok());
    assert!(matches!(
        UringFdConnection::close_connection(CloseReply::TimedOut),
        Err(ZmqError::Timeout)
    ));
    let e = UringFdConnection::close_connection(CloseReply::NotSent("x".to_string()));
    assert_eq!(words(e.unwrap_err()), "UringWorker op channel error for close: x");
}

#[test]
fn the_dummy_connection_sends_nothing() {
    assert!(DummyConnection.send_message(Msg::from_vec(vec![])).is_err());
    assert!(DummyConnection.send_multipart(vec![]).is_err());
    assert!(DummyConnection.close_connection().is_ok());
    assert_eq!(DummyConnection.get_connection_id(), 0);
}

// ----- monitoring ---------------------------------------------------------

#[test]
fn a_monitor_holds_as_many_events_as_asked_for() {
    let (tx, rx) = monitor(0);
    assert_eq!(rx.capacity(), 1);
    assert!(tx.try_send(SocketEvent::Closed { endpoint: "e".to_string() }).is_ok());
    assert!(matches!(rx.try_recv(), Ok(SocketEvent::Closed { endpoint }) if endpoint == "e"));
    assert_eq!(monitor(7).1.capacity(), 7);
    assert_eq!(monitor_default().1.capacity(), 100);
}
