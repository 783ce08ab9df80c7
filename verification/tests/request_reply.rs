use rzmq::error::ZmqError;
use rzmq::message::Msg;
use rzmq::socket::dealer_socket::{
    DealerAttempt, DealerMultipartStep, DealerSendTransaction, DealerSocket, DealerStep,
    OutgoingStep, MAX_DEALER_SEND_BUFFER_PARTS,
};
use rzmq::socket::options::{
    IoUringOptions, SocketOptions, UdpOptions, AUTO_DELIMITER, ROUTER_MANDATORY,
};
use rzmq::socket::patterns::incoming_orchestrator::{MultipartStep, RecvStep};
use rzmq::socket::patterns::item::PipeEvent;
use rzmq::socket::rep_socket::{split_request, RepSocket, RepState, ReplyStep};
use rzmq::socket::router_socket::{
    AfterIdentity, RouterMultipartStep, RouterSendStep, RouterSocket,
};
use rzmq::socket::socket_core::state::{ConnectionRef, CoreState, EndpointInfo, EndpointType};
use rzmq::socket::types::SocketType;
use rzmq::time::Duration;

fn options() -> SocketOptions {
    SocketOptions {
        sndhwm: 2,
        rcvhwm: 10,
        sndtimeo: Some(Duration::from_nanos(0)),
        rcvtimeo: Some(Duration::from_nanos(0)),
        linger: Some(Duration::from_secs(1)),
        reconnect_ivl: Some(Duration::from_millis(100)),
        reconnect_ivl_max: Some(Duration::from_secs(1)),
        handshake_ivl: None,
        router_mandatory: false,
        max_connections: None,
        socket_type_name: String::new(),
        tcp_nodelay: true,
        tcp_keepalive_idle: None,
        tcp_keepalive_interval: None,
        tcp_keepalive_count: None,
        tcp_cork: false,
        backlog: None,
        io_uring: IoUringOptions { session_enabled: false },
        udp: UdpOptions { multicast_loop: true, multicast_hops: 1 },
    }
}

fn endpoint(uri: &str, id: usize, pipes: Option<(usize, usize)>) -> EndpointInfo {
    EndpointInfo {
        task: None,
        endpoint_type: EndpointType::Session,
        endpoint_uri: uri.to_string(),
        pipe_ids: pipes,
        handle_id: id,
        target_endpoint_uri: None,
        is_outbound_connection: false,
        peer_socket_type: None,
        connection: ConnectionRef { id, is_uring: false },
    }
}

/// Enters a peer with write pipe `2 * id` and read pipe `2 * id + 1`.
fn enter(core: &mut CoreState, uri: &str, id: usize) {
    core.endpoints.insert(uri.to_string(), endpoint(uri, id, Some((2 * id, 2 * id + 1))));
    core.pipe_read_id_to_endpoint_uri.insert(2 * id + 1, uri.to_string());
}

fn frame(data: &[u8], more: bool) -> Msg {
    let mut m = Msg::from_vec(data.to_vec());
    m.set_more(more);
    m
}

fn shape(frames: &Vec<Msg>) -> Vec<(Vec<u8>, bool)> {
    frames.iter().map(|m| (m.data.clone(), m.is_more())).collect()
}

fn expect(list: &[(&[u8], bool)]) -> Vec<(Vec<u8>, bool)> {
    list.iter().map(|(d, m)| (d.to_vec(), *m)).collect()
}

fn feed(deliver: &mut dyn FnMut(PipeEvent), frames: &[(&[u8], bool)]) {
    for (data, more) in frames {
        deliver(PipeEvent::MessageReceived(frame(data, *more)));
    }
}

fn whole(step: MultipartStep) -> Vec<(Vec<u8>, bool)> {
    match step {
        MultipartStep::Done(Ok(v)) => shape(&v),
        other => panic!("expected a message, got {:?}", other),
    }
}

// ----- REP ----------------------------------------------------------------

fn rep_with_peer() -> (CoreState, RepSocket) {
    let mut core = CoreState::new(1, SocketType::Rep, options());
    enter(&mut core, "tcp://a", 1);
    let mut rep = RepSocket::new(&core);
    rep.pipe_attached(&core, 3);
    (core, rep)
}

#[test]
fn reply_goes_back_behind_the_routing_prefix() {
    let (core, mut rep) = rep_with_peer();
    let core_ref = &core;
    feed(
        &mut |e| rep.handle_pipe_event(core_ref, 3, e).unwrap(),
        &[(b"hop", true), (b"", true), (b"question", false)],
    );
    assert_eq!(whole(rep.recv_multipart(&core, true)), expect(&[(b"question", false)]));
    match rep.send_multipart(&core, true, vec![frame(b"x", false), frame(b"y", true)]) {
        ReplyStep::Send(c, v) => {
            assert_eq!(c.id, 1);
            assert_eq!(
                shape(&v),
                expect(&[(b"hop", true), (b"", true), (b"x", true), (b"y", false)])
            );
        }
        other => panic!("{:?}", other),
    }
    assert!(matches!(rep.state, RepState::ReadyToReceive));
}

#[test]
fn requests_and_replies_alternate() {
    let (core, mut rep) = rep_with_peer();
    match rep.send(&core, true, frame(b"early", false)) {
        ReplyStep::Done(Err(ZmqError::InvalidState(m))) => {
            assert_eq!(m, "REP socket must recv() a request before sending a reply")
        }
        other => panic!("{:?}", other),
    }
    let core_ref = &core;
    feed(&mut |e| rep.handle_pipe_event(core_ref, 3, e).unwrap(), &[(b"", true), (b"q", false)]);
    assert_eq!(whole(rep.recv_multipart(&core, true)), expect(&[(b"q", false)]));
    assert!(matches!(
        rep.recv_multipart(&core, true),
        MultipartStep::Done(Err(ZmqError::InvalidState(_)))
    ));
    assert!(matches!(rep.send(&core, true, frame(b"r", true)), ReplyStep::Send(..)));
    assert!(matches!(
        rep.send(&core, true, frame(b"r", false)),
        ReplyStep::Done(Err(ZmqError::InvalidState(_)))
    ));
    assert!(matches!(
        rep.recv(&core, true),
        RecvStep::Done(Err(ZmqError::ResourceLimitReached))
    ));
}

#[test]
fn reply_to_a_peer_that_is_gone_fails() {
    let (mut core, mut rep) = rep_with_peer();
    let core_ref = &core;
    feed(&mut |e| rep.handle_pipe_event(core_ref, 3, e).unwrap(), &[(b"", true), (b"q", false)]);
    let _ = rep.recv_multipart(&core, true);
    core.endpoints.remove("tcp://a");
    match rep.send(&core, true, frame(b"r", false)) {
        ReplyStep::Done(Err(ZmqError::HostUnreachable(m))) => {
            assert_eq!(m, "Peer disconnected before reply could be sent")
        }
        other => panic!("{:?}", other),
    }
}

#[test]
fn request_is_split_at_the_first_empty_frame() {
    let (prefix, payload) =
        split_request(vec![frame(b"a", true), frame(b"", true), frame(b"", true), frame(b"b", false)]);
    assert_eq!(shape(&prefix), expect(&[(b"a", true), (b"", true)]));
    assert_eq!(shape(&payload), expect(&[(b"", true), (b"b", false)]));
    let (prefix, payload) = split_request(vec![frame(b"a", false)]);
    assert!(prefix.is_empty());
    assert_eq!(shape(&payload), expect(&[(b"a", false)]));
}

// ----- ROUTER -------------------------------------------------------------

fn router_with_peer() -> (CoreState, RouterSocket) {
    let mut core = CoreState::new(1, SocketType::Router, options());
    enter(&mut core, "tcp://a", 1);
    let mut router = RouterSocket::new(&core);
    let id = b"alice".to_vec();
    router.pipe_attached(&core, 3, Some(&id));
    (core, router)
}

#[test]
fn router_shows_the_sender_and_strips_the_delimiter() {
    let (core, mut router) = router_with_peer();
    let core_ref = &core;
    feed(
        &mut |e| router.handle_pipe_event(core_ref, 3, e).unwrap(),
        &[(b"", true), (b"hello", true), (b"you", false)],
    );
    assert_eq!(
        whole(router.recv_multipart(&core, true)),
        expect(&[(b"alice", true), (b"hello", true), (b"you", false)])
    );
}

#[test]
fn router_hands_out_frame_by_frame() {
    let (core, mut router) = router_with_peer();
    let core_ref = &core;
    feed(&mut |e| router.handle_pipe_event(core_ref, 3, e).unwrap(), &[(b"", true), (b"x", false)]);
    for (data, more) in [(b"alice".to_vec(), true), (b"x".to_vec(), false)] {
        match router.recv(&core, true) {
            RecvStep::Done(Ok(m)) => {
                assert_eq!(m.data, data);
                assert_eq!(m.is_more(), more);
            }
            other => panic!("{:?}", other),
        }
    }
}

#[test]
fn router_receives_what_a_dealer_sends() {
    let (core, mut router) = router_with_peer();
    let (_, dealer) = dealer_with_peers(&[]);
    let sent = dealer.prepare_full_multipart_send_sequence(vec![frame(b"x", false), frame(b"y", false)]);
    for m in sent {
        router.handle_pipe_event(&core, 3, PipeEvent::MessageReceived(m)).unwrap();
    }
    assert_eq!(
        whole(router.recv_multipart(&core, true)),
        expect(&[(b"alice", true), (b"x", true), (b"y", false)])
    );
}

#[test]
fn router_keeps_the_message_of_a_router_whole() {
    let (mut core, mut router) = router_with_peer();
    let mut info = endpoint("tcp://a", 1, Some((2, 3)));
    info.peer_socket_type = Some("ROUTER".to_string());
    core.endpoints.insert("tcp://a".to_string(), info);
    let core_ref = &core;
    feed(&mut |e| router.handle_pipe_event(core_ref, 3, e).unwrap(), &[(b"", true), (b"x", false)]);
    assert_eq!(
        whole(router.recv_multipart(&core, true)),
        expect(&[(b"alice", true), (b"", true), (b"x", false)])
    );
}

#[test]
fn peers_without_identity_get_a_placeholder() {
    assert_eq!(RouterSocket::pipe_id_to_placeholder_identity(42), b"pipe:42".to_vec());
    let mut core = CoreState::new(1, SocketType::Router, options());
    enter(&mut core, "tcp://a", 1);
    let mut router = RouterSocket::new(&core);
    router.pipe_attached(&core, 3, None);
    let core_ref = &core;
    feed(&mut |e| router.handle_pipe_event(core_ref, 3, e).unwrap(), &[(b"x", false)]);
    assert_eq!(
        whole(router.recv_multipart(&core, true)),
        expect(&[(b"pipe:3", true), (b"x", false)])
    );
    router.update_peer_identity(&core, 3, Some(b"bob".to_vec()));
    feed(&mut |e| router.handle_pipe_event(core_ref, 3, e).unwrap(), &[(b"x", false)]);
    assert_eq!(
        whole(router.recv_multipart(&core, true)),
        expect(&[(b"bob", true), (b"x", false)])
    );
    assert_eq!(router.router_map_for_send.get_peer_uri_for_identity(&b"pipe:3".to_vec()), None);
    assert_eq!(
        router.router_map_for_send.get_peer_uri_for_identity(&b"bob".to_vec()),
        Some("tcp://a".to_string())
    );
}

#[test]
fn router_sends_identity_delimiter_and_payload_in_turn() {
    let (core, mut router) = router_with_peer();
    let (plan, permit) = match router.send(&core, true, frame(b"alice", true)) {
        RouterSendStep::SendIdentity { plan, permit } => (plan, permit),
        other => panic!("{:?}", other),
    };
    assert_eq!(plan.connection.id, 1);
    let (uri, delimiter, permit) = match router.identity_sent(
        &core,
        plan.target_endpoint_uri,
        plan.connection,
        permit,
        Ok(()),
    ) {
        AfterIdentity::SendDelimiter { target_endpoint_uri, delimiter, permit, .. } => {
            (target_endpoint_uri, delimiter, permit)
        }
        other => panic!("{:?}", other),
    };
    assert!(delimiter.data.is_empty() && delimiter.is_more());
    assert!(router.delimiter_sent(&core, uri, permit, Ok(())).is_ok());
    match router.send(&core, true, frame(b"one", true)) {
        RouterSendStep::SendPayload { connection, is_last, .. } => {
            assert_eq!(connection.id, 1);
            assert!(!is_last);
        }
        other => panic!("{:?}", other),
    }
    assert!(router.payload_sent(&core, false, Ok(())).is_ok());
    assert!(router.current_send_target.is_some());
    assert!(matches!(
        router.send(&core, true, frame(b"two", false)),
        RouterSendStep::SendPayload { is_last: true, .. }
    ));
    assert!(router.payload_sent(&core, true, Ok(())).is_ok());
    assert!(router.current_send_target.is_none());
}

#[test]
fn a_second_writer_finds_no_permit() {
    let (core, mut router) = router_with_peer();
    let held = router.send(&core, true, frame(b"alice", true));
    assert!(matches!(held, RouterSendStep::SendIdentity { .. }));
    assert!(matches!(
        router.send(&core, true, frame(b"alice", true)),
        RouterSendStep::Done(Err(ZmqError::ResourceLimitReached))
    ));
    drop(held);
    assert!(matches!(
        router.send(&core, true, frame(b"alice", true)),
        RouterSendStep::SendIdentity { .. }
    ));
}

#[test]
fn router_reports_only_when_mandatory() {
    let (mut core, mut router) = router_with_peer();
    assert!(matches!(
        router.send(&core, true, frame(b"nobody", true)),
        RouterSendStep::Done(Ok(()))
    ));
    assert!(router.set_pattern_option(&mut core, ROUTER_MANDATORY, &vec![1, 0, 0, 0]).is_ok());
    match router.send(&core, true, frame(&[1, 2], true)) {
        RouterSendStep::Done(Err(ZmqError::HostUnreachable(m))) => {
            assert_eq!(m, "Peer [1, 2] not found (ROUTER_MANDATORY)")
        }
        other => panic!("{:?}", other),
    }
    match RouterSocket::multipart_sent(&core, Err(ZmqError::ConnectionClosed)) {
        Err(ZmqError::HostUnreachable(m)) => {
            assert_eq!(m, "Peer disconnected during multipart send")
        }
        other => panic!("{:?}", other),
    }
    core.endpoints.remove("tcp://a");
    match router.send_multipart(&core, true, vec![frame(b"alice", true), frame(b"x", false)]) {
        RouterMultipartStep::Done(Err(ZmqError::HostUnreachable(m))) => {
            assert_eq!(m, "Peer connection for identity disappeared before send")
        }
        other => panic!("{:?}", other),
    }
    assert_eq!(router.router_map_for_send.get_peer_uri_for_identity(&b"alice".to_vec()), None);
}

#[test]
fn router_refuses_malformed_messages() {
    let (core, mut router) = router_with_peer();
    for step in [
        router.send(&core, true, frame(b"alice", false)),
        router.send(&core, true, frame(b"", true)),
    ] {
        assert!(matches!(step, RouterSendStep::Done(Err(ZmqError::InvalidMessage(_)))));
    }
    for frames in [vec![], vec![frame(b"", true), frame(b"x", false)]] {
        assert!(matches!(
            router.send_multipart(&core, true, frames),
            RouterMultipartStep::Done(Err(ZmqError::InvalidMessage(_)))
        ));
    }
    assert!(matches!(
        router.send(&core, false, frame(b"alice", true)),
        RouterSendStep::Done(Err(ZmqError::InvalidState(_)))
    ));
}

#[test]
fn router_sends_a_whole_message_under_a_permit() {
    let (core, mut router) = router_with_peer();
    match router.send_multipart(&core, true, vec![frame(b"alice", true), frame(b"x", true)]) {
        RouterMultipartStep::Send { frames, connection, .. } => {
            assert_eq!(connection.id, 1);
            let sent = expect(&[(b"alice", true), (b"", true), (b"x", false)]);
            assert_eq!(shape(&frames), sent);
        }
        other => panic!("{:?}", other),
    }
    router.pipe_send_coordinator.remove_pipe(3);
    match router.send_multipart(&core, true, vec![frame(b"alice", true)]) {
        RouterMultipartStep::Done(Err(ZmqError::Internal(m))) => {
            assert_eq!(m, "Send dropped due to permit error (non-mandatory)")
        }
        other => panic!("{:?}", other),
    }
}

#[test]
fn router_leaves_the_framing_of_a_whole_message_to_its_application() {
    let (mut core, mut router) = router_with_peer();
    core.options.sndtimeo = None;
    router.framing.set_manual();
    match router.send_multipart(&core, true, vec![frame(b"alice", true), frame(b"x", true)]) {
        RouterMultipartStep::WaitPermit { semaphore, plan, .. } => {
            let permit = semaphore.try_acquire_owned().unwrap();
            match router.multipart_permitted(&core, plan, Ok(permit)) {
                RouterMultipartStep::Send { frames, .. } => {
                    assert_eq!(shape(&frames), expect(&[(b"alice", true), (b"x", false)]))
                }
                other => panic!("{:?}", other),
            }
        }
        other => panic!("{:?}", other),
    }
}

#[test]
fn dealer_receives_what_a_router_sends_whole() {
    let (core, mut router) = router_with_peer();
    let sent = match router.send_multipart(
        &core,
        true,
        vec![frame(b"alice", true), frame(b"x", true), frame(b"y", false)],
    ) {
        RouterMultipartStep::Send { frames, .. } => shape(&frames),
        other => panic!("{:?}", other),
    };
    let (core, mut dealer) = dealer_with_peers(&["tcp://a"]);
    for (data, more) in sent {
        dealer.handle_pipe_event(3, PipeEvent::MessageReceived(frame(&data, more))).unwrap();
    }
    assert_eq!(
        whole(dealer.recv_multipart(&core, true)),
        expect(&[(b"x", true), (b"y", false)])
    );
}

#[test]
fn a_peer_that_goes_takes_its_fragmented_message_with_it() {
    let (core, mut router) = router_with_peer();
    if let RouterSendStep::SendIdentity { plan, permit } =
        router.send(&core, true, frame(b"alice", true))
    {
        router.set_pattern_option(
            &mut CoreState::new(2, SocketType::Router, options()),
            AUTO_DELIMITER,
            &vec![0, 0, 0, 0],
        )
        .unwrap();
        let _ =
            router.identity_sent(&core, plan.target_endpoint_uri, plan.connection, permit, Ok(()));
    }
    assert!(router.current_send_target.is_some());
    router.pipe_detached(&core, 3);
    assert!(router.current_send_target.is_none());
    assert_eq!(router.router_map_for_send.get_peer_uri_for_identity(&b"alice".to_vec()), None);
}

#[test]
fn router_options_are_read_back() {
    let (mut core, mut router) = router_with_peer();
    assert_eq!(router.get_pattern_option(&core, AUTO_DELIMITER).unwrap(), 1i32.to_ne_bytes());
    assert_eq!(router.get_pattern_option(&core, ROUTER_MANDATORY).unwrap(), 0i32.to_ne_bytes());
    assert!(matches!(
        router.set_pattern_option(&mut core, AUTO_DELIMITER, &vec![0]),
        Err(ZmqError::InvalidOptionValue(_))
    ));
    assert!(matches!(
        router.set_pattern_option(&mut core, 7, &vec![0]),
        Err(ZmqError::UnsupportedOption(7))
    ));
    router.set_pattern_option(&mut core, AUTO_DELIMITER, &vec![0, 0, 0, 0]).unwrap();
    assert_eq!(router.get_pattern_option(&core, AUTO_DELIMITER).unwrap(), 0i32.to_ne_bytes());
    router.set_pattern_option(&mut core, AUTO_DELIMITER, &vec![1, 0, 0, 0]).unwrap();
    assert_eq!(router.get_pattern_option(&core, AUTO_DELIMITER).unwrap(), 0i32.to_ne_bytes());
}

// ----- DEALER -------------------------------------------------------------

fn dealer_with_peers(uris: &[&str]) -> (CoreState, DealerSocket) {
    let mut core = CoreState::new(1, SocketType::Dealer, options());
    let mut dealer = DealerSocket::new(&core);
    for (i, uri) in uris.iter().enumerate() {
        enter(&mut core, uri, i + 1);
        dealer.pipe_attached(&core, 2 * (i + 1) + 1);
    }
    (core, dealer)
}

#[test]
fn dealer_puts_a_delimiter_in_front() {
    let (core, mut dealer) = dealer_with_peers(&["tcp://a"]);
    let step = dealer.send_multipart(&core, true, vec![frame(b"x", false), frame(b"y", false)]);
    match step {
        DealerMultipartStep::Step(DealerStep::Send { pending, .. }) => {
            assert_eq!(pending.uri, "tcp://a");
            assert_eq!(
                shape(&pending.attempt.frames),
                expect(&[(b"", true), (b"x", true), (b"y", false)])
            );
        }
        other => panic!("{:?}", other),
    }
    assert_eq!(
        shape(&dealer.prepare_full_multipart_send_sequence(vec![])),
        expect(&[(b"", true), (b"", false)])
    );
}

#[test]
fn dealer_receives_what_a_dealer_sends() {
    let (_, dealer) = dealer_with_peers(&[]);
    let sent = dealer.prepare_full_multipart_send_sequence(vec![frame(b"x", false), frame(b"y", false)]);
    let got = dealer.process_incoming_zmtp_message_for_dealer(sent);
    assert_eq!(shape(&got), expect(&[(b"x", true), (b"y", false)]));
}

#[test]
fn dealer_drops_its_identity_and_the_delimiter() {
    let (core, mut dealer) = dealer_with_peers(&["tcp://a"]);
    feed(
        &mut |e| dealer.handle_pipe_event(3, e).unwrap(),
        &[(b"me", true), (b"", true), (b"x", false)],
    );
    assert_eq!(whole(dealer.recv_multipart(&core, true)), expect(&[(b"x", false)]));
    feed(&mut |e| dealer.handle_pipe_event(3, e).unwrap(), &[(b"me", true), (b"x", false)]);
    assert_eq!(whole(dealer.recv_multipart(&core, true)), expect(&[(b"x", false)]));
}

#[test]
fn manual_framing_changes_nothing() {
    let (_, mut dealer) = dealer_with_peers(&[]);
    dealer.set_pattern_option(AUTO_DELIMITER, &vec![0, 0, 0, 0]).unwrap();
    let sent = dealer.prepare_full_multipart_send_sequence(vec![frame(b"", false), frame(b"y", false)]);
    assert_eq!(shape(&sent), expect(&[(b"", true), (b"y", false)]));
    let got = dealer.process_incoming_zmtp_message_for_dealer(sent);
    assert_eq!(shape(&got), expect(&[(b"", true), (b"y", false)]));
    assert_eq!(dealer.get_pattern_option(AUTO_DELIMITER).unwrap(), 0i32.to_ne_bytes());
    assert!(matches!(dealer.get_pattern_option(1), Err(ZmqError::UnsupportedOption(1))));
}

#[test]
fn dealer_buffers_frames_until_the_message_is_complete() {
    let (core, mut dealer) = dealer_with_peers(&["tcp://a"]);
    let (step, over) = dealer.send(&core, true, frame(b"x", true));
    assert!(matches!(step, DealerStep::Done(Ok(()))) && !over);
    assert!(matches!(
        dealer.send_multipart(&core, true, vec![frame(b"z", false)]),
        DealerMultipartStep::Step(DealerStep::Done(Err(ZmqError::ResourceLimitReached)))
    ));
    let (step, over) = dealer.send(&core, true, frame(b"y", false));
    assert!(over);
    match step {
        DealerStep::Send { pending, .. } => assert_eq!(
            shape(&pending.attempt.frames),
            expect(&[(b"", true), (b"x", true), (b"y", false)])
        ),
        other => panic!("{:?}", other),
    }
    assert!(matches!(dealer.current_send_transaction, DealerSendTransaction::Idle));
}

#[test]
fn dealer_gives_up_a_message_of_too_many_frames() {
    let (core, mut dealer) = dealer_with_peers(&[]);
    for _ in 0..MAX_DEALER_SEND_BUFFER_PARTS {
        let _ = dealer.send(&core, true, frame(b"", true));
    }
    let (step, over) = dealer.send(&core, true, frame(b"", true));
    assert!(matches!(step, DealerStep::Done(Err(ZmqError::ResourceLimitReached))));
    assert!(over);
    assert!(matches!(dealer.current_send_transaction, DealerSendTransaction::Idle));
}

#[test]
fn dealer_takes_its_peers_in_turn_and_drops_the_dead() {
    let (mut core, mut dealer) = dealer_with_peers(&["tcp://a", "tcp://b", "tcp://c"]);
    core.endpoints.remove("tcp://a");
    match dealer.send_multipart(&core, true, vec![frame(b"x", false)]) {
        DealerMultipartStep::Step(DealerStep::Send { pending, .. }) => {
            assert_eq!(pending.uri, "tcp://b");
            assert_eq!(pending.attempt.attempts, 2);
            match dealer.sent(&core, true, pending, Err(ZmqError::ConnectionClosed)) {
                DealerStep::Send { pending, .. } => {
                    assert_eq!(pending.uri, "tcp://c");
                    assert!(matches!(
                        dealer.sent(&core, true, pending, Ok(())),
                        DealerStep::Done(Ok(()))
                    ));
                }
                other => panic!("{:?}", other),
            }
        }
        other => panic!("{:?}", other),
    }
    assert_eq!(dealer.load_balancer.connection_count(), 1);
    assert!(dealer.take_notices().peers);
    assert!(!dealer.take_notices().peers);
}

#[test]
fn messages_without_a_peer_wait_up_to_the_limit() {
    let (core, mut dealer) = dealer_with_peers(&[]);
    for _ in 0..2 {
        assert!(matches!(
            dealer.send_multipart(&core, true, vec![frame(b"x", false)]),
            DealerMultipartStep::Step(DealerStep::Done(Ok(())))
        ));
    }
    assert!(matches!(
        dealer.send_multipart(&core, true, vec![frame(b"x", false)]),
        DealerMultipartStep::Step(DealerStep::Done(Err(ZmqError::ResourceLimitReached)))
    ));
    assert_eq!(dealer.pending_outgoing_queue.len(), 2);
    assert!(dealer.take_pending().is_none());
}

#[test]
fn waiting_messages_go_out_when_a_peer_comes() {
    let (mut core, mut dealer) = dealer_with_peers(&[]);
    let _ = dealer.send_multipart(&core, true, vec![frame(b"first", false)]);
    let _ = dealer.send_multipart(&core, true, vec![frame(b"second", false)]);
    enter(&mut core, "tcp://a", 1);
    dealer.pipe_attached(&core, 3);
    let attempt = dealer.take_pending().unwrap();
    assert_eq!(shape(&attempt.frames), expect(&[(b"", true), (b"first", false)]));
    let pending = match dealer.outgoing_next(&core, true, attempt) {
        OutgoingStep::Send { pending, .. } => pending,
        other => panic!("{:?}", other),
    };
    let again = match dealer.outgoing_sent(pending, Err(ZmqError::Timeout)) {
        OutgoingStep::Next(attempt) => attempt,
        other => panic!("{:?}", other),
    };
    assert!(matches!(dealer.outgoing_next(&core, true, again), OutgoingStep::Requeued));
    assert_eq!(dealer.pending_outgoing_queue.len(), 2);
    assert_eq!(dealer.pending_outgoing_queue[0][1].data, b"first".to_vec());
    let attempt = dealer.take_pending().unwrap();
    match dealer.outgoing_next(&core, true, attempt) {
        OutgoingStep::Send { pending, .. } => {
            assert!(matches!(dealer.outgoing_sent(pending, Ok(())), OutgoingStep::Sent))
        }
        other => panic!("{:?}", other),
    }
    assert_eq!(dealer.pending_outgoing_queue.len(), 1);
}

fn waiting_attempt(core: &CoreState, dealer: &mut DealerSocket) -> DealerAttempt {
    let _ = dealer.queue_message_or_error(core, true, vec![frame(b"x", false)]);
    dealer.take_pending().unwrap()
}

#[test]
fn a_waiting_message_is_tried_on_every_peer_at_once() {
    let (mut core, mut dealer) = dealer_with_peers(&["tcp://a", "tcp://b", "tcp://c"]);
    core.endpoints.remove("tcp://a");
    let attempt = waiting_attempt(&core, &mut dealer);
    let _ = dealer.take_notices();
    let (held_b, first) = match dealer.outgoing_next(&core, true, attempt) {
        OutgoingStep::Send { permit, pending } => (permit, pending),
        other => panic!("{:?}", other),
    };
    assert_eq!((first.uri.as_str(), first.attempt.attempts), ("tcp://b", 2));
    assert!(dealer.take_notices().peers);
    assert_eq!(dealer.load_balancer.connection_count(), 2);
    let attempt = waiting_attempt(&core, &mut dealer);
    let (held_c, second) = match dealer.outgoing_next(&core, true, attempt) {
        OutgoingStep::Send { permit, pending } => (permit, pending),
        other => panic!("{:?}", other),
    };
    assert_eq!((second.uri.as_str(), second.attempt.attempts), ("tcp://c", 1));
    let attempt = waiting_attempt(&core, &mut dealer);
    let _ = dealer.take_notices();
    assert!(matches!(dealer.outgoing_next(&core, true, attempt), OutgoingStep::Requeued));
    let told = dealer.take_notices();
    assert!(told.queue && !told.peers);
    assert_eq!(dealer.load_balancer.connection_count(), 2);
    drop(held_c);
    let attempt = dealer.take_pending().unwrap();
    match dealer.outgoing_next(&core, true, attempt) {
        OutgoingStep::Send { pending, .. } => {
            assert_eq!((pending.uri.as_str(), pending.attempt.attempts), ("tcp://c", 2))
        }
        other => panic!("{:?}", other),
    }
    drop(held_b);
}

#[test]
fn a_waiting_message_waits_for_the_first_live_peer() {
    let (mut core, mut dealer) = dealer_with_peers(&["tcp://a", "tcp://b", "tcp://c"]);
    core.endpoints.remove("tcp://a");
    core.options.sndtimeo = None;
    let attempt = waiting_attempt(&core, &mut dealer);
    match dealer.outgoing_next(&core, true, attempt) {
        OutgoingStep::WaitPermit { semaphore, timeout, pending } => {
            assert!(timeout.is_none());
            assert_eq!((pending.uri.as_str(), pending.attempt.attempts), ("tcp://b", 2));
            assert_eq!(semaphore.available_permits(), 1);
            dealer.pipe_detached(pending.pipe_read_id);
            assert!(semaphore.is_closed());
        }
        other => panic!("{:?}", other),
    }
    core.endpoints.remove("tcp://c");
    let attempt = waiting_attempt(&core, &mut dealer);
    assert!(matches!(dealer.outgoing_next(&core, true, attempt), OutgoingStep::Requeued));
    assert_eq!(dealer.load_balancer.connection_count(), 0);
}

#[test]
fn a_pipe_that_is_attached_again_keeps_its_writer() {
    let (core, mut dealer) = dealer_with_peers(&["tcp://a"]);
    let attempt = waiting_attempt(&core, &mut dealer);
    let held = match dealer.outgoing_next(&core, true, attempt) {
        OutgoingStep::Send { permit, .. } => permit,
        other => panic!("{:?}", other),
    };
    dealer.pipe_attached(&core, 3);
    let attempt = waiting_attempt(&core, &mut dealer);
    assert!(matches!(dealer.outgoing_next(&core, true, attempt), OutgoingStep::Requeued));
    drop(held);
    let attempt = dealer.take_pending().unwrap();
    assert!(matches!(dealer.outgoing_next(&core, true, attempt), OutgoingStep::Send { .. }));
}

#[test]
fn a_waiting_message_is_kept_twice_when_the_socket_closes() {
    let (core, mut dealer) = dealer_with_peers(&["tcp://a"]);
    let _ = dealer.queue_message_or_error(&core, true, vec![frame(b"x", false)]);
    let attempt = dealer.take_pending().unwrap();
    assert!(matches!(dealer.outgoing_next(&core, false, attempt), OutgoingStep::Requeued));
    assert_eq!(dealer.pending_outgoing_queue.len(), 2);
    assert_eq!(shape(&dealer.pending_outgoing_queue[0]), expect(&[(b"x", false)]));
    assert_eq!(shape(&dealer.pending_outgoing_queue[1]), expect(&[(b"x", false)]));
}

#[test]
fn dealer_fails_when_the_socket_closes() {
    let (core, mut dealer) = dealer_with_peers(&["tcp://a"]);
    assert!(matches!(
        dealer.send(&core, false, frame(b"x", false)).0,
        DealerStep::Done(Err(ZmqError::InvalidState(_)))
    ));
    match dealer.send_logical_message(&core, false, vec![]) {
        DealerStep::Done(Err(ZmqError::InvalidState(m))) => {
            assert_eq!(m, "Socket is closing or terminated")
        }
        other => panic!("{:?}", other),
    }
    match dealer.send_multipart_waited(&core, false, vec![]) {
        DealerMultipartStep::Step(DealerStep::Done(Err(ZmqError::InvalidState(m)))) => {
            assert_eq!(m, "Socket is closing while waiting for prior send tx")
        }
        other => panic!("{:?}", other),
    }
    dealer.stop();
    assert!(matches!(dealer.recv(&core, true), RecvStep::Done(Err(ZmqError::Internal(_)))));
}
