use rzmq::error::{IoErrorKind, ZmqError};
use rzmq::message::Msg;
use rzmq::socket::events::SocketEvent;
use rzmq::socket::options::{IoUringOptions, SocketOptions, UdpOptions};
use rzmq::socket::socket_core::command_loop::{reap_endpoint, CommandLoop, LoopTrouble};
use rzmq::socket::socket_core::create::{BroughtPattern, SocketCore, SocketLogic};
use rzmq::socket::socket_core::event_processor::{
    process_system_event, sca_initialized, ConnectionInteractionModel, EventStep, SystemEvent,
};
use rzmq::socket::socket_core::pipe_manager::{
    cleanup_session_state_by_pipe, cleanup_session_state_by_uri, cleanup_stopped_child_resources,
    send_msg_with_timeout, send_waited, PipeReader, SendStep, WaitedSend,
};
use rzmq::socket::socket_core::shutdown::{
    all_pipes_empty, all_reported_empty, check_and_advance_linger, close_active_connections,
    handle_actor_stopping_event, initiate_core_shutdown, perform_final_pipe_cleanup,
    settle_shutdown, ActorType,
};
use rzmq::socket::socket_core::state::{
    ConnectionRef, CoreState, EndpointInfo, EndpointType, ReconnectState, ShutdownCoordinator,
    ShutdownPhase,
};
use rzmq::socket::types::SocketType;
use rzmq::time::{Duration, Instant};

fn options() -> SocketOptions {
    SocketOptions {
        sndhwm: 2,
        rcvhwm: 10,
        sndtimeo: Some(Duration::from_nanos(0)),
        rcvtimeo: Some(Duration::from_nanos(0)),
        linger: Some(Duration::from_secs(1)),
        reconnect_ivl: Some(Duration::from_millis(100)),
        reconnect_ivl_max: Some(Duration::from_secs(1)),
        handshake_ivl: None,
        router_mandatory: false,
        max_connections: None,
        socket_type_name: String::new(),
        tcp_nodelay: true,
        tcp_keepalive_idle: None,
        tcp_keepalive_interval: None,
        tcp_keepalive_count: None,
        tcp_cork: false,
        backlog: None,
        io_uring: IoUringOptions { session_enabled: false },
        udp: UdpOptions { multicast_loop: true, multicast_hops: 1 },
    }
}

fn endpoint(uri: &str, id: usize, pipes: Option<(usize, usize)>) -> EndpointInfo {
    EndpointInfo {
        task: None,
        endpoint_type: EndpointType::Session,
        endpoint_uri: uri.to_string(),
        pipe_ids: pipes,
        handle_id: id,
        target_endpoint_uri: None,
        is_outbound_connection: false,
        peer_socket_type: None,
        connection: ConnectionRef { id, is_uring: false },
    }
}

/// Enters a peer with write pipe `2 * id` and read pipe `2 * id + 1`.
fn enter(core: &mut CoreState, uri: &str, id: usize) {
    core.endpoints.insert(uri.to_string(), endpoint(uri, id, Some((2 * id, 2 * id + 1))));
    core.pipe_read_id_to_endpoint_uri.insert(2 * id + 1, uri.to_string());
}

fn push_core() -> CoreState {
    CoreState::new(1, SocketType::Push, options())
}

fn listener(uri: &str, id: usize, task: Option<usize>) -> EndpointInfo {
    let mut info = endpoint(uri, id, None);
    info.endpoint_type = EndpointType::Listener;
    info.task = task;
    info
}

fn io_error(kind: IoErrorKind) -> ZmqError {
    ZmqError::IoError { kind, message: "io".to_string() }
}

fn told(event: &Option<SocketEvent>) -> String {
    match event {
        Some(e) => format!("{:?}", e),
        None => String::new(),
    }
}

// ----- reconnecting -------------------------------------------------------

#[test]
fn waits_double_up_to_the_maximum() {
    let mut s = ReconnectState::default();
    let now = Instant::from_nanos(0);
    let base = Duration::from_millis(100);
    let max = Duration::from_millis(500);
    let waits: Vec<u128> =
        (0..5).map(|_| s.on_connection_failure(base, max, now).nanos() / 1_000_000).collect();
    assert_eq!(waits, vec![100, 200, 400, 500, 500]);
    assert_eq!(s.current_attempts, 5);
    assert!(!s.is_due(Instant::from_nanos(499_999_999)));
    assert!(s.is_due(Instant::from_nanos(500_000_000)));
    s.on_connection_success();
    assert_eq!(s.current_attempts, 0);
    assert!(!s.is_due(Instant::from_nanos(u64::MAX)));
}

#[test]
fn waits_stop_doubling_in_the_end() {
    let mut s = ReconnectState { current_attempts: 40, next_attempt_at: None };
    let none = Duration::from_nanos(0);
    let delay = s.on_connection_failure(Duration::from_nanos(1), none, Instant::from_nanos(0));
    assert_eq!(delay.nanos(), 1 << 31);
    let mut s = ReconnectState { current_attempts: u32::MAX, next_attempt_at: None };
    let _ = s.on_connection_failure(Duration::from_nanos(1), none, Instant::from_nanos(0));
    assert_eq!(s.current_attempts, u32::MAX);
}

// ----- taking endpoints out -----------------------------------------------

#[test]
fn a_stopped_session_leaves_the_tables() {
    let mut c = push_core();
    c.monitored = true;
    enter(&mut c, "tcp://a", 1);
    let _ = c.pipe_reader_tasks.insert(3, 77);
    let r = cleanup_stopped_child_resources(&mut c, 1, None, None, "", false);
    assert!(r.found);
    assert_eq!(r.abort_reader, Some(77));
    assert_eq!(r.detached_pipe, Some(3));
    assert!(told(&r.event).starts_with("Disconnected"));
    assert!(!r.should_reconnect);
    assert!(!c.endpoints.contains_key("tcp://a"));
    assert!(!c.pipe_read_id_to_endpoint_uri.contains_key(3));
    let again = cleanup_stopped_child_resources(&mut c, 1, None, None, "", false);
    assert!(!again.found);
}

#[test]
fn failed_handshakes_and_listeners_are_told_apart() {
    let mut c = push_core();
    c.monitored = true;
    enter(&mut c, "tcp://a", 1);
    let error = ZmqError::SecurityError("bad key".to_string());
    let r = cleanup_stopped_child_resources(&mut c, 1, Some("tcp://a"), Some(&error), "text", false);
    assert!(matches!(
        r.event,
        Some(SocketEvent::HandshakeFailed { endpoint, error_msg })
            if endpoint == "tcp://a" && error_msg == "text"
    ));
    c.endpoints.insert("tcp://l".to_string(), listener("tcp://l", 9, Some(5)));
    let r = cleanup_stopped_child_resources(&mut c, 9, Some("tcp://other"), None, "", false);
    assert_eq!(r.abort_task, Some(5));
    assert!(matches!(r.event, Some(SocketEvent::Closed { endpoint }) if endpoint == "tcp://l"));
}

#[test]
fn only_passing_errors_of_outgoing_connections_reconnect() {
    let cases = [
        (true, Some(io_error(IoErrorKind::ConnectionReset)), false, true),
        (false, Some(io_error(IoErrorKind::ConnectionReset)), false, false),
        (true, None, false, false),
        (true, Some(io_error(IoErrorKind::PermissionDenied)), false, false),
        (true, Some(ZmqError::DnsResolutionFailed(String::new())), false, false),
        (true, Some(io_error(IoErrorKind::ConnectionReset)), true, false),
    ];
    for (outbound, error, full, expected) in cases {
        let mut c = push_core();
        let mut info = endpoint("tcp://a", 1, None);
        info.is_outbound_connection = outbound;
        c.endpoints.insert("tcp://a".to_string(), info);
        let r = cleanup_stopped_child_resources(&mut c, 1, None, error.as_ref(), "", full);
        assert_eq!(r.should_reconnect, expected);
    }
}

#[test]
fn sessions_are_closed_by_uri_and_by_pipe() {
    let mut c = push_core();
    enter(&mut c, "tcp://a", 1);
    enter(&mut c, "tcp://b", 2);
    c.endpoints.insert("tcp://l".to_string(), listener("tcp://l", 9, None));
    assert!(cleanup_session_state_by_uri(&mut c, "tcp://l").is_none());
    assert!(c.endpoints.contains_key("tcp://l"));
    let closed = cleanup_session_state_by_uri(&mut c, "tcp://a").unwrap();
    assert_eq!(closed.info.handle_id, 1);
    assert_eq!(closed.detached_pipe, Some(3));
    assert!(closed.event.is_none());
    let _ = cleanup_session_state_by_pipe(&mut c, 5);
    assert!(!c.endpoints.contains_key("tcp://b"));
    let _ = c.pipe_reader_tasks.insert(70, 8);
    assert_eq!(cleanup_session_state_by_pipe(&mut c, 70).abort_reader, Some(8));
    assert_eq!(c.endpoints.len(), 1);
}

#[test]
fn a_pipe_is_taken_out_once() {
    let mut c = push_core();
    enter(&mut c, "tcp://a", 1);
    let _ = c.pipe_reader_tasks.insert(3, 77);
    let first = c.remove_pipe_state(2, 3);
    assert!(first.removed);
    assert_eq!(first.abort_reader, Some(77));
    let second = c.remove_pipe_state(2, 3);
    assert!(!second.removed);
    assert_eq!(second.abort_reader, None);
}

#[test]
fn io_uring_endpoints_give_up_their_descriptor() {
    let mut c = push_core();
    let mut info = endpoint("tcp://a", 12, Some((2, 3)));
    info.connection = ConnectionRef { id: 12, is_uring: true };
    c.endpoints.insert("tcp://a".to_string(), info);
    let _ = c.uring_fd_to_endpoint_uri.insert(12, "tcp://a".to_string());
    let closed = cleanup_session_state_by_uri(&mut c, "tcp://a").unwrap();
    assert_eq!(closed.unregister_fd, Some(12));
    assert_eq!(c.uring_fd_to_endpoint_uri.len(), 0);
}

// ----- pipes --------------------------------------------------------------

#[test]
fn a_zero_time_limit_sends_at_once_or_fails() {
    let (tx, rx) = fibre::mpmc::bounded_async::<Msg>(1);
    let zero = Some(Duration::from_nanos(0));
    assert!(matches!(
        send_msg_with_timeout(&tx, Msg::from_vec(vec![1]), zero),
        SendStep::Done(Ok(()))
    ));
    assert!(matches!(
        send_msg_with_timeout(&tx, Msg::from_vec(vec![2]), zero),
        SendStep::Done(Err(ZmqError::ResourceLimitReached))
    ));
    assert_eq!(rx.try_recv().unwrap().data, vec![1]);
    drop(rx);
    assert!(matches!(
        send_msg_with_timeout(&tx, Msg::from_vec(vec![2]), zero),
        SendStep::Done(Err(ZmqError::ConnectionClosed))
    ));
    assert!(matches!(
        send_msg_with_timeout(&tx, Msg::from_vec(vec![2]), None),
        SendStep::Wait(_, None)
    ));
    assert!(send_waited(WaitedSend::Sent).is_ok());
    assert!(matches!(send_waited(WaitedSend::Closed), Err(ZmqError::ConnectionClosed)));
    assert!(matches!(send_waited(WaitedSend::TimedOut), Err(ZmqError::Timeout)));
}

#[test]
fn a_pipe_reader_stops_at_the_first_failure() {
    let mut r = PipeReader::new();
    r.message_handled(Ok(()));
    assert!(r.running);
    r.message_handled(Err(ZmqError::Shutdown));
    assert!(!r.running);
    assert!(matches!(r.error, Some(ZmqError::Shutdown)));
    let mut r = PipeReader::new();
    r.close_handled(Ok(()));
    assert!(!r.running && r.error.is_none());
}

// ----- shutting down ------------------------------------------------------

#[test]
fn an_idle_socket_shuts_down_at_once() {
    let mut c = push_core();
    let mut s = ShutdownCoordinator::default();
    let orders = initiate_core_shutdown(&mut s, &c).unwrap();
    assert!(orders.stop_listeners.is_empty() && orders.close_connections.is_empty());
    assert!(settle_shutdown(&mut s, c.options.linger, true, Instant::from_nanos(0)));
    assert_eq!(s.current_phase(), ShutdownPhase::CleaningPipes);
    let _ = perform_final_pipe_cleanup(&mut s, &mut c);
    assert_eq!(s.current_phase(), ShutdownPhase::Finished);
    assert!(!CommandLoop::goes_on(&s));
    assert!(initiate_core_shutdown(&mut s, &c).is_none());
}

#[test]
fn a_shutdown_waits_for_listeners_and_connections() {
    let mut c = push_core();
    enter(&mut c, "tcp://a", 1);
    enter(&mut c, "inproc://b", 2);
    c.endpoints.insert("tcp://l".to_string(), listener("tcp://l", 9, Some(5)));
    c.endpoints.insert("tcp://m".to_string(), listener("tcp://m", 10, None));
    let mut s = ShutdownCoordinator::default();
    let orders = initiate_core_shutdown(&mut s, &c).unwrap();
    assert_eq!(orders.stop_listeners, vec![9]);
    assert_eq!(orders.close_connections.len(), 2);
    assert_eq!(s.inproc_connections_to_cleanup, vec![(4, 5, "inproc://b".to_string())]);
    let now = Instant::from_nanos(0);
    close_active_connections(&mut s, &orders.close_connections, c.options.linger, now);
    assert!(!s.pending_connections_to_close.contains_key(2));
    assert!(!settle_shutdown(&mut s, c.options.linger, true, now));
    assert_eq!(s.current_phase(), ShutdownPhase::StoppingChildren);
    let _ = handle_actor_stopping_event(
        &mut s, &mut c, 9, ActorType::Listener, Some("tcp://l"), None, "", now,
    );
    assert_eq!(s.current_phase(), ShutdownPhase::StoppingChildren);
    let _ = handle_actor_stopping_event(
        &mut s, &mut c, 1, ActorType::Session, Some("tcp://a"), None, "", now,
    );
    assert_eq!(s.current_phase(), ShutdownPhase::Lingering);
    assert_eq!(s.linger_deadline, Some(Instant::from_nanos(1_000_000_000)));
    let r = perform_final_pipe_cleanup(&mut s, &mut c);
    assert_eq!(r.detached_pipes, vec![5]);
    assert_eq!(r.close_connections.len(), 2);
}

#[test]
fn lingering_ends_when_pipes_are_empty_or_time_is_up() {
    let mut c = push_core();
    let (tx, rx) = fibre::mpmc::bounded_async::<Vec<Msg>>(4);
    assert!(tx.try_send(vec![]).is_ok());
    let _ = c.pipes_tx.insert(1, tx);
    let mut s = ShutdownCoordinator::default();
    s.state = ShutdownPhase::Lingering;
    assert!(!check_and_advance_linger(&mut s, &c, Instant::from_nanos(0)));
    assert!(!check_and_advance_linger(&mut s, &c, Instant::from_nanos(999_999_999)));
    assert!(check_and_advance_linger(&mut s, &c, Instant::from_nanos(1_000_000_000)));
    s.state = ShutdownPhase::Lingering;
    assert!(rx.try_recv().is_ok());
    assert!(check_and_advance_linger(&mut s, &c, Instant::from_nanos(0)));
    assert_eq!(s.current_phase(), ShutdownPhase::CleaningPipes);
}

#[test]
fn pipes_are_empty_when_each_of_them_is() {
    assert!(all_reported_empty(&vec![]));
    assert!(all_reported_empty(&vec![true, true]));
    assert!(!all_reported_empty(&vec![true, false]));
    assert!(!all_reported_empty(&vec![false, true]));
    let mut c = push_core();
    assert!(all_pipes_empty(&c));
    let (first, _first_rx) = fibre::mpmc::bounded_async::<Vec<Msg>>(1);
    let (second, second_rx) = fibre::mpmc::bounded_async::<Vec<Msg>>(1);
    assert!(second.try_send(vec![]).is_ok());
    let _ = c.pipes_tx.insert(1, first);
    let _ = c.pipes_tx.insert(2, second);
    assert!(!all_pipes_empty(&c));
    assert!(second_rx.try_recv().is_ok());
    assert!(all_pipes_empty(&c));
}

#[test]
fn a_lost_connection_is_tried_again_later() {
    let mut c = push_core();
    let mut s = ShutdownCoordinator::default();
    let error = io_error(IoErrorKind::ConnectionReset);
    for expected in [100_000_000u64, 200_000_000] {
        let mut info = endpoint("tcp://a", 1, None);
        info.is_outbound_connection = true;
        c.endpoints.insert("tcp://a".to_string(), info);
        let _ = handle_actor_stopping_event(
            &mut s,
            &mut c,
            1,
            ActorType::Session,
            Some("tcp://a"),
            Some(&error),
            "",
            Instant::from_nanos(0),
        );
        let record = c.reconnect_states.get("tcp://a").unwrap();
        assert_eq!(record.next_attempt_at, Some(Instant::from_nanos(expected)));
    }
    let work =
        CommandLoop::on_maintenance(&mut s, &mut c, &vec![], Instant::from_nanos(199_999_999));
    assert!(work.respawn.is_empty());
    let work =
        CommandLoop::on_maintenance(&mut s, &mut c, &vec![], Instant::from_nanos(200_000_000));
    assert_eq!(work.respawn, vec!["tcp://a"]);
    let work =
        CommandLoop::on_maintenance(&mut s, &mut c, &vec![], Instant::from_nanos(900_000_000));
    assert!(work.respawn.is_empty());
}

// ----- events -------------------------------------------------------------

#[test]
fn new_connections_are_entered_once_their_actor_has_its_pipes() {
    let mut c = push_core();
    let mut s = ShutdownCoordinator::default();
    let event = SystemEvent::NewConnectionEstablished {
        parent_core_id: 1,
        endpoint_uri: "tcp://peer".to_string(),
        target_endpoint_uri: "tcp://target".to_string(),
        connection: None,
        interaction_model: ConnectionInteractionModel::ViaSca { sca_handle_id: 50 },
    };
    let now = Instant::from_nanos(0);
    let (pending, rx) = match process_system_event(&mut s, &mut c, event, (20, 21), now) {
        EventStep::InitializeSca(p, rx) => (p, rx),
        other => panic!("{:?}", other),
    };
    assert!(pending.is_outbound);
    assert_eq!(rx.capacity(), 2);
    assert_eq!(c.endpoints.len(), 0);
    let attached = sca_initialized(&mut c, pending, true).unwrap();
    assert_eq!((attached.attached_write_id, attached.attached_read_id), (20, 21));
    assert_eq!(c.endpoints.get("tcp://peer").unwrap().handle_id, 50);
    assert_eq!(c.pipe_read_id_to_endpoint_uri.get(21), Some(&"tcp://peer".to_string()));
    assert!(c.pipes_tx.contains_key(20));
}

#[test]
fn an_actor_that_cannot_be_reached_is_not_entered() {
    let mut c = push_core();
    c.endpoints.insert("tcp://l".to_string(), listener("tcp://l", 9, None));
    let mut s = ShutdownCoordinator::default();
    let event = SystemEvent::NewConnectionEstablished {
        parent_core_id: 1,
        endpoint_uri: "tcp://peer".to_string(),
        target_endpoint_uri: "tcp://l".to_string(),
        connection: None,
        interaction_model: ConnectionInteractionModel::ViaSca { sca_handle_id: 50 },
    };
    match process_system_event(&mut s, &mut c, event, (20, 21), Instant::from_nanos(0)) {
        EventStep::InitializeSca(p, _) => {
            assert!(!p.is_outbound);
            match sca_initialized(&mut c, p, false) {
                Err(ZmqError::Internal(m)) => {
                    assert_eq!(m, "Failed to send ScaInitializePipes to SCA 50")
                }
                other => panic!("{:?}", other),
            }
        }
        other => panic!("{:?}", other),
    }
    assert_eq!(c.endpoints.len(), 1);
}

#[test]
fn descriptors_are_entered_with_their_connection() {
    let mut c = push_core();
    let mut s = ShutdownCoordinator::default();
    let established = |connection| SystemEvent::NewConnectionEstablished {
        parent_core_id: 1,
        endpoint_uri: "tcp://peer".to_string(),
        target_endpoint_uri: "tcp://target".to_string(),
        connection,
        interaction_model: ConnectionInteractionModel::ViaUringFd { fd: 12 },
    };
    let now = Instant::from_nanos(0);
    assert!(matches!(
        process_system_event(&mut s, &mut c, established(None), (20, 21), now),
        EventStep::Failed(ZmqError::Internal(_))
    ));
    let link = ConnectionRef { id: 12, is_uring: true };
    match process_system_event(&mut s, &mut c, established(Some(link)), (20, 21), now) {
        EventStep::Attached(a) => {
            assert_eq!((a.attached_read_id, a.attached_write_id), (20, 21));
            assert_eq!(a.register_fd, Some(12));
            assert!(a.replaced.is_none());
        }
        other => panic!("{:?}", other),
    }
    assert_eq!(c.uring_fd_to_endpoint_uri.get(12), Some(&"tcp://peer".to_string()));
    let _ = initiate_core_shutdown(&mut s, &c);
    s.state = ShutdownPhase::StoppingChildren;
    assert!(matches!(
        process_system_event(&mut s, &mut c, established(Some(link)), (22, 23), now),
        EventStep::CloseOrphan { close: Some(_), stop_sca: None }
    ));
}

#[test]
fn events_of_other_sockets_are_ignored() {
    let mut c = push_core();
    let mut s = ShutdownCoordinator::default();
    let now = Instant::from_nanos(0);
    for event in [
        SystemEvent::SocketClosing { socket_id: 2 },
        SystemEvent::ConnectionAttemptFailed {
            parent_core_id: 2,
            target_endpoint_uri: String::new(),
            error: ZmqError::Timeout,
        },
        SystemEvent::InprocPipePeerClosed {
            target_inproc_name: "x".to_string(),
            closed_by_connector_pipe_read_id: 1,
        },
    ] {
        assert!(matches!(
            process_system_event(&mut s, &mut c, event, (1, 2), now),
            EventStep::Nothing
        ));
    }
    assert!(s.is_running());
    assert!(matches!(
        process_system_event(&mut s, &mut c, SystemEvent::SocketClosing { socket_id: 1 }, (1, 2), now),
        EventStep::ShutDown(Some(_))
    ));
}

#[test]
fn in_process_peers_come_and_go() {
    let mut c = push_core();
    c.monitored = true;
    let _ = c.bound_inproc_names.insert("x".to_string(), ());
    let mut s = ShutdownCoordinator::default();
    let now = Instant::from_nanos(0);
    let (tx, _rx) = fibre::mpmc::bounded_async::<Vec<Msg>>(1);
    let event = SystemEvent::InprocBindingRequest {
        target_inproc_name: "x".to_string(),
        connector_uri: "inproc://x".to_string(),
        pipe_to_connector: tx,
        connector_pipe_write_id: 30,
        connector_pipe_read_id: 31,
    };
    match process_system_event(&mut s, &mut c, event, (40, 41), now) {
        EventStep::AcceptedInproc(a) => {
            assert_eq!((a.attached_write_id, a.attached_read_id), (31, 30));
            assert!(told(&a.event).contains("inproc-connector-inproc://x"));
        }
        other => panic!("{:?}", other),
    }
    assert_eq!(c.endpoints.get("inproc://x").unwrap().handle_id, 40);
    let event = SystemEvent::InprocPipePeerClosed {
        target_inproc_name: "x".to_string(),
        closed_by_connector_pipe_read_id: 31,
    };
    match process_system_event(&mut s, &mut c, event, (50, 51), now) {
        EventStep::ClosedInproc { pipe_read_id, closed } => {
            assert_eq!(pipe_read_id, 30);
            assert!(matches!(closed.event, Some(SocketEvent::Disconnected { .. })));
        }
        other => panic!("{:?}", other),
    }
    assert_eq!(c.endpoints.len(), 0);
}

#[test]
fn the_peer_type_is_remembered() {
    let mut c = push_core();
    enter(&mut c, "tcp://a", 1);
    let mut s = ShutdownCoordinator::default();
    let event = SystemEvent::PeerIdentityEstablished {
        parent_core_id: 1,
        connection_identifier: 3,
        peer_identity: Some(b"id".to_vec()),
        peer_socket_type: Some("ROUTER".to_string()),
    };
    match process_system_event(&mut s, &mut c, event, (1, 2), Instant::from_nanos(0)) {
        EventStep::UpdateIdentity { pipe_read_id, identity } => {
            assert_eq!(pipe_read_id, 3);
            assert_eq!(identity, Some(b"id".to_vec()));
        }
        other => panic!("{:?}", other),
    }
    assert_eq!(c.endpoints.get("tcp://a").unwrap().peer_socket_type, Some("ROUTER".to_string()));
}

// ----- the command loop ---------------------------------------------------

#[test]
fn trouble_ends_the_loop_with_its_error() {
    let c = push_core();
    for (trouble, words) in [
        (LoopTrouble::EventBusLagged, "SocketCore: Event bus lagged"),
        (LoopTrouble::EventBusClosed, "SocketCore: Event bus closed"),
        (LoopTrouble::CommandMailboxClosed, "SocketCore: Command mailbox closed"),
    ] {
        let mut s = ShutdownCoordinator::default();
        let mut l = CommandLoop::new();
        assert!(l.on_trouble(&mut s, &c, trouble).is_some());
        match l.final_error {
            Some(ZmqError::Internal(m)) => assert_eq!(m, words),
            other => panic!("{:?}", other),
        }
    }
    let mut s = ShutdownCoordinator::default();
    s.state = ShutdownPhase::Lingering;
    let mut l = CommandLoop::new();
    assert!(l.on_trouble(&mut s, &c, LoopTrouble::EventBusLagged).is_none());
    assert!(l.final_error.is_none());
}

#[test]
fn dead_tasks_are_reaped() {
    let mut c = push_core();
    let mut s = ShutdownCoordinator::default();
    c.endpoints.insert("tcp://l".to_string(), listener("tcp://l", 9, Some(5)));
    c.endpoints.insert("tcp://m".to_string(), listener("tcp://m", 10, Some(6)));
    let work = CommandLoop::on_maintenance(&mut s, &mut c, &vec![6], Instant::from_nanos(0));
    assert_eq!(work.dead, vec![("tcp://m".to_string(), 10)]);
    assert!(reap_endpoint(&mut c, "tcp://m", 11).is_none());
    assert!(reap_endpoint(&mut c, "tcp://m", 10).unwrap().found);
    assert!(c.endpoints.contains_key("tcp://l"));
    assert!(!c.endpoints.contains_key("tcp://m"));
}

#[test]
fn the_loop_gives_back_its_names_at_the_end() {
    let mut c = push_core();
    let _ = c.bound_inproc_names.insert("x".to_string(), ());
    let mut s = ShutdownCoordinator::default();
    let end = CommandLoop::new().finish(&mut s, &mut c, Err(ZmqError::Timeout));
    assert!(matches!(end.error, Some(ZmqError::Timeout)));
    assert_eq!(end.unregister_inproc, vec!["x"]);
    assert_eq!(c.bound_inproc_names.len(), 0);
    assert_eq!(s.current_phase(), ShutdownPhase::Finished);
}

#[test]
fn a_socket_is_created_with_its_pattern() {
    let made = SocketCore::create(7, SocketType::Router, options());
    assert_eq!(made.core_state.handle, 7);
    assert_eq!(made.core_state.options.socket_type_name, "ROUTER");
    assert!(made.is_running());
    assert!(matches!(made.socket_logic, SocketLogic::Router(_)));
    let made = SocketCore::create(7, SocketType::Dish, options());
    assert!(matches!(made.socket_logic, SocketLogic::Dish(_)));
    let made = SocketCore::create(7, SocketType::Sub, options());
    assert!(matches!(made.socket_logic, SocketLogic::Brought(BroughtPattern::Sub)));
    let made = SocketCore::create(7, SocketType::Req, options());
    assert_eq!(made.core_state.options.socket_type_name, "REQ");
    assert!(matches!(made.socket_logic, SocketLogic::Brought(BroughtPattern::Req)));
}
