use rzmq::error::ZmqError;
use rzmq::message::Msg;
use rzmq::socket::dish_socket::DishSocket;
use rzmq::socket::options::{IoUringOptions, SocketOptions, UdpOptions, JOIN, LEAVE};
use rzmq::socket::patterns::distributor::{DistributionStep, Distributor};
use rzmq::socket::patterns::fair_queue::{FairQueue, PopStep, PushError, PushStep as QueuePush};
use rzmq::socket::patterns::incoming_orchestrator::{
    IncomingMessageOrchestrator, MultipartStep, RecvStep,
};
use rzmq::socket::patterns::item::{Origin, PipeEvent, QueueItem};
use rzmq::socket::patterns::load_balancer::LoadBalancer;
use rzmq::socket::patterns::pipe_coordinator::{
    permit_waited, PermitStep, WaitedPermit, WritePipeCoordinator,
};
use rzmq::socket::patterns::router::RouterMap;
use rzmq::socket::pub_socket::{stale_peer, PubSocket};
use rzmq::socket::pull_socket::PullSocket;
use rzmq::socket::push_socket::{PushSocket, PushStep};
use rzmq::socket::radio_socket::{RadioSocket, UDP_MAX_DATAGRAM};
use rzmq::socket::socket_core::state::{ConnectionRef, CoreState, EndpointInfo, EndpointType};
use rzmq::socket::types::SocketType;
use rzmq::time::Duration;

fn options() -> SocketOptions {
    SocketOptions {
        sndhwm: 2,
        rcvhwm: 10,
        sndtimeo: Some(Duration::from_nanos(0)),
        rcvtimeo: Some(Duration::from_nanos(0)),
        linger: Some(Duration::from_secs(1)),
        reconnect_ivl: Some(Duration::from_millis(100)),
        reconnect_ivl_max: Some(Duration::from_secs(1)),
        handshake_ivl: None,
        router_mandatory: false,
        max_connections: None,
        socket_type_name: String::new(),
        tcp_nodelay: true,
        tcp_keepalive_idle: None,
        tcp_keepalive_interval: None,
        tcp_keepalive_count: None,
        tcp_cork: false,
        backlog: None,
        io_uring: IoUringOptions { session_enabled: false },
        udp: UdpOptions { multicast_loop: true, multicast_hops: 1 },
    }
}

fn endpoint(uri: &str, id: usize, pipes: Option<(usize, usize)>) -> EndpointInfo {
    EndpointInfo {
        task: None,
        endpoint_type: EndpointType::Session,
        endpoint_uri: uri.to_string(),
        pipe_ids: pipes,
        handle_id: id,
        target_endpoint_uri: None,
        is_outbound_connection: false,
        peer_socket_type: None,
        connection: ConnectionRef { id, is_uring: false },
    }
}

/// Enters a peer with write pipe `2 * id` and read pipe `2 * id + 1`.
fn enter(core: &mut CoreState, uri: &str, id: usize) {
    core.endpoints.insert(uri.to_string(), endpoint(uri, id, Some((2 * id, 2 * id + 1))));
    core.pipe_read_id_to_endpoint_uri.insert(2 * id + 1, uri.to_string());
}

fn frame(data: &[u8], more: bool) -> Msg {
    let mut m = Msg::from_vec(data.to_vec());
    m.set_more(more);
    m
}

fn shape(frames: &Vec<Msg>) -> Vec<(Vec<u8>, bool)> {
    frames.iter().map(|m| (m.data.clone(), m.is_more())).collect()
}

fn expect(list: &[(&[u8], bool)]) -> Vec<(Vec<u8>, bool)> {
    list.iter().map(|(d, m)| (d.to_vec(), *m)).collect()
}

fn item(data: &[u8]) -> QueueItem {
    QueueItem { origin: Origin::Unknown, frames: vec![frame(data, false)] }
}

// ----- queues -------------------------------------------------------------

#[test]
fn queue_is_first_in_first_out_and_bounded() {
    let mut q = FairQueue::new(2);
    assert!(q.is_empty());
    assert_eq!(q.capacity(), 2);
    assert!(q.try_push_item(item(b"1")).is_ok());
    assert!(matches!(q.push_item(item(b"2")), QueuePush::Done(Ok(()))));
    assert!(matches!(q.try_push_item(item(b"3")), Err(PushError::Full(_))));
    assert!(matches!(q.push_item(item(b"3")), QueuePush::Wait(_)));
    assert_eq!(q.len(), 2);
    assert_eq!(q.try_pop_item().unwrap().unwrap().frames[0].data, b"1".to_vec());
    match q.pop_item() {
        PopStep::Done(Some(i)) => assert_eq!(i.frames[0].data, b"2".to_vec()),
        other => panic!("{:?}", other),
    }
    assert!(q.try_pop_item().unwrap().is_none());
    assert!(matches!(q.pop_item(), PopStep::Wait));
    assert_eq!(FairQueue::new(0).capacity(), 1);
}

#[test]
fn a_closed_queue_drains_and_then_ends() {
    let mut q = FairQueue::new(2);
    q.try_push_item(item(b"1")).unwrap();
    q.close();
    assert!(matches!(q.try_push_item(item(b"2")), Err(PushError::Closed(_))));
    assert!(matches!(q.push_item(item(b"2")), QueuePush::Done(Err(ZmqError::Internal(_)))));
    assert!(matches!(q.pop_item(), PopStep::Done(Some(_))));
    assert!(matches!(q.pop_item(), PopStep::Done(None)));
    assert!(matches!(q.try_pop_item(), Err(ZmqError::Internal(_))));
}

#[test]
fn frames_of_two_pipes_do_not_mix() {
    let mut o = IncomingMessageOrchestrator::new(5);
    assert!(o.accumulate_pipe_frame(1, frame(b"a1", true)).is_none());
    assert!(o.accumulate_pipe_frame(2, frame(b"b1", true)).is_none());
    let a = o.accumulate_pipe_frame(1, frame(b"a2", false)).unwrap();
    let b = o.accumulate_pipe_frame(2, frame(b"b2", false)).unwrap();
    assert_eq!(shape(&a), expect(&[(b"a1", true), (b"a2", false)]));
    assert_eq!(shape(&b), expect(&[(b"b1", true), (b"b2", false)]));
    let next = o.accumulate_pipe_frame(1, frame(b"a3", false)).unwrap();
    assert_eq!(shape(&next), expect(&[(b"a3", false)]));
}

#[test]
fn a_forgotten_pipe_starts_afresh() {
    let mut o = IncomingMessageOrchestrator::new(5);
    assert!(o.accumulate_pipe_frame(1, frame(b"old", true)).is_none());
    o.clear_pipe_state(1);
    let m = o.accumulate_pipe_frame(1, frame(b"new", false)).unwrap();
    assert_eq!(shape(&m), expect(&[(b"new", false)]));
}

#[test]
fn a_message_is_handed_out_frame_by_frame_in_order() {
    let mut o = IncomingMessageOrchestrator::new(5);
    o.queue_item(QueueItem {
        origin: Origin::Unknown,
        frames: vec![frame(b"1", true), frame(b"2", true), frame(b"3", false)],
    })
    .unwrap();
    for (data, more) in [(b"1", true), (b"2", true), (b"3", false)] {
        match o.recv_plain(None) {
            RecvStep::Done(Ok(m)) => {
                assert_eq!(m.data, data.to_vec());
                assert_eq!(m.is_more(), more);
            }
            other => panic!("{:?}", other),
        }
    }
    assert!(matches!(o.recv_plain(None), RecvStep::Wait(None)));
    assert!(matches!(
        o.recv_plain(Some(Duration::from_nanos(0))),
        RecvStep::Done(Err(ZmqError::ResourceLimitReached))
    ));
    let limit = Duration::from_millis(1);
    assert!(matches!(o.recv_plain(Some(limit)), RecvStep::Wait(Some(d)) if d == limit));
    assert!(matches!(IncomingMessageOrchestrator::wait_lapsed(), ZmqError::Timeout));
}

#[test]
fn a_full_queue_drops_and_a_whole_receive_starts_over() {
    let mut o = IncomingMessageOrchestrator::new(1);
    o.queue_item(QueueItem {
        origin: Origin::Unknown,
        frames: vec![frame(b"1", true), frame(b"2", false)],
    })
    .unwrap();
    assert!(o.queue_item(item(b"dropped")).is_ok());
    assert!(matches!(o.recv_plain(None), RecvStep::Done(Ok(_))));
    o.queue_item(item(b"next")).unwrap();
    match o.recv_plain_multipart(None) {
        MultipartStep::Done(Ok(v)) => assert_eq!(shape(&v), expect(&[(b"next", false)])),
        other => panic!("{:?}", other),
    }
    o.close();
    match o.queue_item(item(b"late")) {
        Err(ZmqError::Internal(m)) => assert_eq!(m, "Main incoming queue closed"),
        other => panic!("{:?}", other),
    }
}

// ----- balancing and permits ----------------------------------------------

#[test]
fn connections_are_chosen_in_turn() {
    let mut b = LoadBalancer::new();
    for uri in ["a", "b", "c", "a"] {
        b.add_connection(uri.to_string());
    }
    assert_eq!(b.connection_count(), 3);
    let chosen: Vec<String> = (0..4).map(|_| b.get_next_connection_uri().unwrap()).collect();
    assert_eq!(chosen, vec!["a", "b", "c", "a"]);
    b.remove_connection("b");
    assert_eq!(b.get_next_connection_uri().unwrap(), "c");
    assert_eq!(b.get_next_connection_uri().unwrap(), "a");
    b.remove_connection("a");
    b.remove_connection("c");
    assert!(!b.has_connections());
    assert!(b.get_next_connection_uri().is_none());
}

#[test]
fn one_writer_at_a_time() {
    let mut c = WritePipeCoordinator::new();
    let zero = Some(Duration::from_nanos(0));
    match c.acquire_send_permit(7, zero) {
        PermitStep::Done(Err(ZmqError::HostUnreachable(m))) => {
            assert_eq!(m, "Target pipe for send not available or recently detached")
        }
        other => panic!("{:?}", other),
    }
    c.add_pipe(7);
    let first = c.acquire_send_permit(7, zero);
    assert!(matches!(first, PermitStep::Done(Ok(_))));
    assert!(matches!(
        c.acquire_send_permit(7, zero),
        PermitStep::Done(Err(ZmqError::ResourceLimitReached))
    ));
    drop(first);
    assert!(matches!(c.acquire_send_permit(7, zero), PermitStep::Done(Ok(_))));
    match c.acquire_send_permit(7, None) {
        PermitStep::Wait(semaphore, None) => {
            assert_eq!(semaphore.available_permits(), 1);
            assert!(c.remove_pipe(7).unwrap().is_closing());
            assert!(semaphore.is_closed());
        }
        other => panic!("{:?}", other),
    }
    assert!(c.remove_pipe(7).is_none());
}

#[test]
fn a_wait_for_a_permit_can_fail() {
    match permit_waited(WaitedPermit::Closed) {
        Err(ZmqError::HostUnreachable(m)) => {
            assert_eq!(m, "Target pipe was detached during send operation")
        }
        other => panic!("{:?}", other),
    }
    assert!(matches!(permit_waited(WaitedPermit::TimedOut), Err(ZmqError::Timeout)));
}

#[test]
fn peers_are_found_by_identity() {
    let mut m = RouterMap::new();
    m.add_peer(b"x".to_vec(), 1, "u1".to_string());
    m.add_peer(b"y".to_vec(), 2, "u2".to_string());
    assert_eq!(m.get_peer_uri_for_identity(&b"y".to_vec()), Some("u2".to_string()));
    m.add_peer(b"y".to_vec(), 3, "u3".to_string());
    assert_eq!(m.get_peer_uri_for_identity(&b"y".to_vec()), Some("u3".to_string()));
    m.update_peer_identity(1, b"z".to_vec(), "u1".to_string(), None);
    assert_eq!(m.get_peer_uri_for_identity(&b"x".to_vec()), None);
    assert_eq!(m.get_peer_uri_for_identity(&b"z".to_vec()), Some("u1".to_string()));
    m.remove_peer_by_read_pipe(1);
    assert_eq!(m.get_peer_uri_for_identity(&b"z".to_vec()), None);
    m.remove_peer_by_identity(&b"y".to_vec());
    assert_eq!(m.get_peer_uri_for_identity(&b"y".to_vec()), None);
}

// ----- PUSH and PULL ------------------------------------------------------

fn push_with_workers(uris: &[&str]) -> (CoreState, PushSocket) {
    let mut core = CoreState::new(1, SocketType::Push, options());
    let mut push = PushSocket::new();
    for (i, uri) in uris.iter().enumerate() {
        enter(&mut core, uri, i + 1);
        push.pipe_attached(&core, 2 * (i + 1) + 1);
    }
    (core, push)
}

fn worker(step: PushStep<Msg>) -> String {
    match step {
        PushStep::Send { uri, .. } => uri,
        other => panic!("{:?}", other),
    }
}

#[test]
fn work_is_shared_out_round_robin() {
    let (core, mut push) = push_with_workers(&["a", "b"]);
    let chosen: Vec<String> =
        (0..3).map(|_| worker(push.send(&core, true, false, frame(b"x", false)))).collect();
    assert_eq!(chosen, vec!["a", "b", "a"]);
}

#[test]
fn workers_that_are_gone_are_skipped() {
    let (mut core, mut push) = push_with_workers(&["a", "b"]);
    core.endpoints.remove("a");
    assert_eq!(worker(push.send(&core, true, false, frame(b"x", false))), "b");
    assert_eq!(push.load_balancer.connection_count(), 1);
    match push.sent("b", Err(ZmqError::ConnectionClosed)) {
        Err(ZmqError::HostUnreachable(m)) => assert_eq!(m, "Peer connection closed during send"),
        other => panic!("{:?}", other),
    }
    assert!(matches!(
        push.send(&core, true, false, frame(b"x", false)),
        PushStep::Done(Err(ZmqError::ResourceLimitReached))
    ));
}

#[test]
fn push_waits_for_a_worker_where_it_may() {
    let (mut core, mut push) = push_with_workers(&[]);
    core.options.sndtimeo = None;
    assert!(matches!(
        push.send(&core, true, false, frame(b"x", false)),
        PushStep::Wait { timeout: None, .. }
    ));
    match push.send_waited(&core, true, frame(b"x", false)) {
        PushStep::Done(Err(ZmqError::InvalidState(m))) => assert_eq!(m, "Socket terminated"),
        other => panic!("{:?}", other),
    }
    assert!(matches!(push.recv(), Err(ZmqError::UnsupportedFeature(_))));
    assert!(matches!(
        push.send_multipart(&core, true, vec![]),
        PushStep::Done(Ok(()))
    ));
}

#[test]
fn slow_workers_stay() {
    let (core, mut push) = push_with_workers(&["a"]);
    assert!(matches!(push.sent("a", Err(ZmqError::Timeout)), Err(ZmqError::Timeout)));
    assert!(matches!(push.sent_multipart("a", Err(ZmqError::Shutdown)), Err(ZmqError::Shutdown)));
    assert_eq!(push.load_balancer.connection_count(), 1);
    match push.send_multipart(&core, true, vec![frame(b"x", false), frame(b"y", false)]) {
        PushStep::Send { payload, .. } => {
            assert_eq!(shape(&payload), expect(&[(b"x", true), (b"y", false)]))
        }
        other => panic!("{:?}", other),
    }
    push.pipe_detached(3);
    assert_eq!(push.load_balancer.connection_count(), 0);
}

#[test]
fn pull_collects_what_arrives() {
    let core = CoreState::new(1, SocketType::Pull, options());
    let mut pull = PullSocket::new(&core);
    pull.handle_pipe_event(3, PipeEvent::MessageReceived(frame(b"x", true))).unwrap();
    pull.handle_pipe_event(5, PipeEvent::MessageReceived(frame(b"z", false))).unwrap();
    pull.handle_pipe_event(3, PipeEvent::MessageReceived(frame(b"y", false))).unwrap();
    match pull.recv_multipart(&core, true) {
        MultipartStep::Done(Ok(v)) => assert_eq!(shape(&v), expect(&[(b"z", false)])),
        other => panic!("{:?}", other),
    }
    match pull.recv_multipart(&core, true) {
        MultipartStep::Done(Ok(v)) => {
            assert_eq!(shape(&v), expect(&[(b"x", true), (b"y", false)]))
        }
        other => panic!("{:?}", other),
    }
    assert!(matches!(
        pull.recv(&core, false),
        RecvStep::Done(Err(ZmqError::InvalidState(_)))
    ));
    assert!(pull.send(frame(b"x", false)).is_err());
}

// ----- PUB ----------------------------------------------------------------

#[test]
fn published_messages_go_to_every_subscriber() {
    let mut core = CoreState::new(1, SocketType::Pub, options());
    let mut publisher = PubSocket::new();
    for (i, uri) in ["a", "b", "c"].iter().enumerate() {
        enter(&mut core, uri, i + 1);
        publisher.pipe_attached(&core, 2 * (i + 1) + 1);
    }
    core.endpoints.remove("b");
    let mut d = publisher.send(true).unwrap();
    let mut reached = Vec::new();
    loop {
        match d.next_peer(&core, stale_peer()) {
            DistributionStep::Send(c) => {
                reached.push(c.id);
                d.peer_sent(if c.id == 3 { Err(ZmqError::ConnectionClosed) } else { Ok(()) });
            }
            DistributionStep::Done => break,
        }
    }
    assert_eq!(reached, vec![1, 3]);
    let outcome = d.finish();
    match &outcome {
        Err(failed) => {
            assert_eq!(failed.len(), 2);
            assert_eq!(failed[0].0, "b");
            assert_eq!(failed[1].0, "c");
        }
        Ok(()) => panic!("two peers are gone"),
    }
    assert!(publisher.sent(outcome).is_ok());
    let mut d = publisher.send(true).unwrap();
    assert!(matches!(d.next_peer(&core, stale_peer()), DistributionStep::Send(c) if c.id == 1));
    d.peer_sent(Err(ZmqError::ResourceLimitReached));
    assert!(matches!(d.next_peer(&core, stale_peer()), DistributionStep::Done));
    assert!(d.finish().is_ok());
    assert!(publisher.recv().is_err());
}

// ----- RADIO and DISH -----------------------------------------------------

#[test]
fn radio_frames_carry_their_group() {
    let m = RadioSocket::encode_radio_frame(&b"news".to_vec(), &b"hi".to_vec());
    assert_eq!(m.data, b"\x04newshi".to_vec());
    assert_eq!(
        DishSocket::decode_radio_frame(&m.data),
        Some((b"news".to_vec(), b"hi".to_vec()))
    );
    assert_eq!(DishSocket::decode_radio_frame(&vec![]), None);
    assert_eq!(DishSocket::decode_radio_frame(&vec![3, 1, 2]), None);
}

#[test]
fn radio_checks_group_and_size() {
    let radio = RadioSocket::new();
    assert!(radio.send(true, frame(b"x", false)).is_err());
    let mut m = frame(b"x", false);
    m.group = Some(vec![]);
    match radio.send(true, m) {
        Err(ZmqError::InvalidState(m)) => assert_eq!(m, "Group length must be 1-255 bytes"),
        other => panic!("{:?}", other),
    }
    let mut m = Msg::from_vec(vec![0; UDP_MAX_DATAGRAM]);
    m.group = Some(b"g".to_vec());
    assert!(matches!(
        radio.send(true, m),
        Err(ZmqError::MessageTooLarge(65507, 65505))
    ));
    let mut m = frame(b"x", false);
    m.group = Some(b"g".to_vec());
    let (wire, _) = radio.send(true, m).unwrap();
    assert_eq!(wire.data, b"\x01gx".to_vec());
    assert!(radio.send_multipart(vec![]).is_err());
    assert!(radio.recv().is_err());
}

#[test]
fn dish_takes_only_the_groups_it_joined() {
    let mut core = CoreState::new(1, SocketType::Dish, options());
    enter(&mut core, "udp://a", 1);
    let mut dish = DishSocket::new(&core);
    dish.pipe_attached(&core, 3);
    let command = dish.set_pattern_option(&core, JOIN, &b"news".to_vec()).unwrap();
    assert!(command.is_join);
    assert_eq!(command.group, b"news".to_vec());
    assert_eq!(command.connections, vec![ConnectionRef { id: 1, is_uring: false }]);
    for (group, payload) in [(b"news", b"one"), (b"noon", b"two")] {
        let m = RadioSocket::encode_radio_frame(&group.to_vec(), &payload.to_vec());
        dish.handle_pipe_event(3, PipeEvent::MessageReceived(m)).unwrap();
    }
    match dish.recv(&core, true) {
        RecvStep::Done(Ok(m)) => {
            assert_eq!(m.data, b"one".to_vec());
            assert_eq!(m.group, Some(b"news".to_vec()));
        }
        other => panic!("{:?}", other),
    }
    assert!(matches!(
        dish.recv(&core, true),
        RecvStep::Done(Err(ZmqError::ResourceLimitReached))
    ));
    let command = dish.set_pattern_option(&core, LEAVE, &b"news".to_vec()).unwrap();
    assert!(!command.is_join);
    assert!(dish.joined_groups.is_empty());
}

#[test]
fn group_names_are_checked() {
    let core = CoreState::new(1, SocketType::Dish, options());
    let mut dish = DishSocket::new(&core);
    for bad in [vec![], vec![1; 256], vec![1, 0, 2]] {
        assert!(matches!(
            dish.set_pattern_option(&core, JOIN, &bad),
            Err(ZmqError::InvalidArgument(_))
        ));
    }
    assert!(DishSocket::validate_group(&vec![1; 255]).is_ok());
    assert!(matches!(
        dish.set_pattern_option(&core, 5, &vec![1]),
        Err(ZmqError::UnsupportedOption(5))
    ));
    assert!(dish.send(frame(b"x", false)).is_err());
}

#[test]
fn removing_a_peer_undoes_adding_it() {
    let mut d = Distributor::new();
    d.add_peer_uri("a".to_string());
    d.add_peer_uri("b".to_string());
    d.add_peer_uri("a".to_string());
    assert_eq!(d.get_peer_uris(), vec!["a", "b"]);
    d.remove_peer_uri("b");
    assert_eq!(d.get_peer_uris(), vec!["a"]);
}

#[test]
fn patterns_without_options_refuse_them() {
    let push = PushSocket::new();
    assert!(matches!(push.set_pattern_option(4, &vec![]), Err(ZmqError::UnsupportedOption(4))));
    assert!(matches!(push.get_pattern_option(5), Err(ZmqError::UnsupportedOption(5))));
    assert!(push.handle_pipe_event(1, PipeEvent::ClosedByPeer).is_ok());
    assert!(push.recv_multipart().is_err());
    let publisher = PubSocket::new();
    assert!(matches!(publisher.get_pattern_option(6), Err(ZmqError::UnsupportedOption(6))));
}
