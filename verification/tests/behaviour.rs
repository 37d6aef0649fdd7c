use vtcp::{
    AckDelayTimer, AnyController, ConnectionManagementState, Context, DeliveryEvent, Duration,
    FlowControlState, FlowEvent, Instant, IpAddress, IpEndpoint, IpListenEndpoint, IpProtocol,
    IpRepr, Ipv4Address, Ipv4Repr, Ipv6Address, Ipv6Repr, RttEstimator, Socket, SocketBuffer,
    State, TcpControl, TcpRepr, TcpSeqNumber, Timer, Tuple,
};

const LOCAL: u16 = 80;
const REMOTE: u16 = 49500;

fn addr(last: u8) -> Ipv4Address {
    Ipv4Address::new(10, 0, 0, last)
}

fn ip(from: u8, to: u8) -> IpRepr {
    IpRepr::new(IpAddress::Ipv4(addr(from)), IpAddress::Ipv4(addr(to)), IpProtocol::Tcp, 20, 64)
}

fn cx() -> Context {
    Context { now: Instant::from_millis(0) }
}

fn segment(control: TcpControl, seq: i32, ack: Option<i32>, payload: &[u8]) -> TcpRepr<'_> {
    TcpRepr {
        src_port: REMOTE,
        dst_port: LOCAL,
        control,
        seq_number: TcpSeqNumber(seq),
        ack_number: ack.map(TcpSeqNumber),
        window_len: 1000,
        window_scale: None,
        max_seg_size: None,
        sack_permitted: false,
        sack_ranges: [None, None, None],
        timestamp: None,
        payload,
    }
}

fn tuple() -> Tuple {
    Tuple {
        local: IpEndpoint { addr: IpAddress::Ipv4(addr(1)), port: LOCAL },
        remote: IpEndpoint { addr: IpAddress::Ipv4(addr(2)), port: REMOTE },
    }
}

/// A connected socket that expects octet 500 next and has sent up to octet 100.
fn connected(state: State, rx_len: usize) -> Socket<'static> {
    let rx = SocketBuffer::new(vec![0; rx_len]);
    let tx = SocketBuffer::new(vec![0; 64]);
    let mut socket = Socket::new(rx, tx);
    socket.set_state(state);
    socket.set_sequence_numbers(500, 100);
    socket.state.conn_mgmt.tuple = Some(tuple());
    socket
}

fn feed(socket: &mut Socket, seq: i32, payload: &[u8]) {
    let repr = segment(TcpControl::Plain, seq, Some(100), payload);
    assert!(socket.process(&mut cx(), &ip(2, 1), &repr).is_none());
}

fn queue(socket: &mut Socket) -> Vec<u8> {
    let mut bytes = vec![0; socket.state.delivery.rx_buffer.len()];
    socket.state.delivery.rx_buffer.dequeue_slice(&mut bytes);
    bytes
}

#[test]
fn new_socket_has_defaults() {
    let socket = Socket::new(SocketBuffer::new(vec![0; 5]), SocketBuffer::new(vec![0; 7]));
    let conn = &socket.state.conn_mgmt;
    assert_eq!(conn.tcp_state, State::Established);
    assert_eq!(conn.listen_endpoint, IpListenEndpoint::default());
    assert_eq!((conn.tuple, conn.timeout, conn.keep_alive), (None, None, None));
    assert_eq!((conn.hop_limit, conn.rx_fin_received), (None, false));
    let delivery = &socket.state.delivery;
    assert_eq!((delivery.rx_buffer.window(), delivery.tx_buffer.window()), (5, 7));
    assert_eq!(delivery.remote_seq_no, TcpSeqNumber(0));
    assert_eq!(delivery.timer, Timer::new());
    assert_eq!(delivery.rtte, RttEstimator::default());
    assert_eq!(delivery.ack_delay, Some(Duration::from_millis(10)));
    assert_eq!(delivery.ack_delay_timer, AckDelayTimer::Idle);
    assert!(delivery.assembler.is_empty());
    assert_eq!(socket.state.flow_control, FlowControlState::default());
    let congestion = socket.state.congestion.unwrap();
    assert_eq!(congestion.congestion_controller, AnyController::new());
    assert_eq!((congestion.remote_mss, congestion.nagle), (536, true));
    let made = ConnectionManagementState::made_at(Instant::from_millis(3));
    assert_eq!(made.challenge_ack_timer, Instant::from_millis(3));
}

#[test]
fn default_connection_reads_the_clock() {
    let before = Instant::now();
    let conn = ConnectionManagementState::default();
    assert!(before <= conn.challenge_ack_timer);
}

#[test]
fn closed_socket_processes_nothing() {
    let mut socket = connected(State::Closed, 64);
    feed(&mut socket, 500, b"abc");
    assert_eq!(socket.state.delivery.rx_buffer.len(), 0);
    assert_eq!(socket.state.flow_control.remote_win_len, 0);
}

#[test]
fn listening_socket_takes_a_syn_only() {
    let mut socket = connected(State::Listen, 64);
    socket.state.conn_mgmt.tuple = None;
    socket.state.conn_mgmt.listen_endpoint = IpListenEndpoint { addr: None, port: LOCAL };
    assert!(socket.accepts(&mut cx(), &ip(2, 1), &segment(TcpControl::Syn, 1, None, b"")));
    assert!(!socket.accepts(&mut cx(), &ip(2, 1), &segment(TcpControl::Syn, 1, Some(2), b"")));
    assert!(!socket.accepts(&mut cx(), &ip(2, 1), &segment(TcpControl::Rst, 1, None, b"")));
    socket.state.conn_mgmt.listen_endpoint.addr = Some(IpAddress::Ipv4(addr(9)));
    assert!(!socket.accepts(&mut cx(), &ip(2, 1), &segment(TcpControl::Syn, 1, None, b"")));
    assert!(socket.accepts(&mut cx(), &ip(2, 9), &segment(TcpControl::Syn, 1, None, b"")));
    socket.state.conn_mgmt.listen_endpoint = IpListenEndpoint { addr: None, port: 0 };
    let to_port_0 = TcpRepr { dst_port: 0, ..segment(TcpControl::Syn, 1, None, b"") };
    assert!(!socket.accepts(&mut cx(), &ip(2, 1), &to_port_0));
}

#[test]
fn order_of_arrival_does_not_matter() {
    let stream = b"abcdefghijkl";
    let pieces = [(0, 3), (3, 6), (6, 10), (10, 12)];
    for order in [[0, 1, 2, 3], [3, 2, 1, 0], [2, 0, 3, 1], [1, 3, 0, 2]] {
        let mut socket = connected(State::Established, 16);
        for i in order {
            let (lo, hi) = pieces[i];
            feed(&mut socket, 500 + lo as i32, &stream[lo..hi]);
        }
        assert_eq!(queue(&mut socket), stream);
        assert_eq!(socket.state.delivery.remote_seq_no, TcpSeqNumber(512));
        assert!(socket.state.delivery.assembler.is_empty());
    }
}

#[test]
fn pieces_may_overlap() {
    let stream = b"abcdefghijkl";
    let mut socket = connected(State::Established, 16);
    for (lo, hi) in [(5, 9), (3, 7), (8, 12), (4, 10), (0, 5)] {
        feed(&mut socket, 500 + lo as i32, &stream[lo..hi]);
    }
    assert_eq!(queue(&mut socket), stream);
}

#[test]
fn stream_goes_on_after_reading() {
    let mut socket = connected(State::Established, 8);
    feed(&mut socket, 500, b"abcdef");
    feed(&mut socket, 507, b"h");
    assert_eq!(queue(&mut socket), b"abcdef");
    feed(&mut socket, 506, b"g");
    feed(&mut socket, 508, b"ijkl");
    assert_eq!(queue(&mut socket), b"ghijkl");
}

#[test]
fn stream_crosses_the_end_of_the_sequence_space() {
    let mut socket = connected(State::Established, 16);
    socket.state.delivery.remote_seq_no = TcpSeqNumber(i32::MAX - 1);
    feed(&mut socket, i32::MIN + 1, b"def");
    feed(&mut socket, i32::MAX - 1, b"abc");
    assert_eq!(queue(&mut socket), b"abcdef");
    assert_eq!(socket.state.delivery.remote_seq_no, TcpSeqNumber(i32::MIN + 4));
}

#[test]
fn fifth_separate_run_is_dropped() {
    let mut socket = connected(State::Established, 32);
    for i in 0..4 {
        feed(&mut socket, 502 + 4 * i, b"x");
    }
    feed(&mut socket, 520, b"y");
    feed(&mut socket, 500, b"aa");
    assert_eq!(queue(&mut socket), b"aax");
    feed(&mut socket, 503, b"bbb");
    feed(&mut socket, 507, b"bbb");
    feed(&mut socket, 511, b"bbb");
    assert_eq!(queue(&mut socket), b"bbbxbbbxbbbx");
    assert!(socket.state.delivery.assembler.is_empty());
}

#[test]
fn connection_management_is_left_alone() {
    let mut socket = connected(State::FinWait1, 64);
    let made = socket.state.conn_mgmt.challenge_ack_timer;
    feed(&mut socket, 500, b"abc");
    assert_eq!(socket.state.conn_mgmt.tcp_state, State::FinWait1);
    assert_eq!(socket.state.conn_mgmt.tuple, Some(tuple()));
    assert_eq!(socket.state.conn_mgmt.challenge_ack_timer, made);
    assert_eq!(socket.state.delivery.local_seq_no, TcpSeqNumber(100));
}

#[test]
fn window_is_taken_from_an_acceptable_acknowledgement() {
    let mut socket = connected(State::Established, 64);
    socket.state.delivery.tx_buffer.enqueue_slice(b"12345");
    socket.state.flow_control.remote_win_scale = Some(3);
    for (ack, window) in [(99, 0), (106, 0), (100, 8000), (105, 8000)] {
        socket.state.flow_control.remote_win_len = 0;
        let repr = segment(TcpControl::Plain, 500, Some(ack), b"");
        assert!(socket.process(&mut cx(), &ip(2, 1), &repr).is_none());
        assert_eq!(socket.state.flow_control.remote_win_len, window);
    }
    let closed_window = TcpRepr { window_len: 0, ..segment(TcpControl::Plain, 500, Some(100), b"") };
    assert!(socket.process(&mut cx(), &ip(2, 1), &closed_window).is_none());
    assert_eq!(socket.state.flow_control.remote_win_len, 0);
    // The window of a SYN is not scaled.
    let syn = segment(TcpControl::Syn, 500, Some(100), b"");
    assert!(socket.process(&mut cx(), &ip(2, 1), &syn).is_none());
    assert_eq!(socket.state.flow_control.remote_win_len, 1000);
}

#[test]
fn fin_in_flight_can_be_acknowledged() {
    for (state, window) in
        [(State::FinWait1, 1000), (State::LastAck, 1000), (State::Closing, 1000), (State::FinWait2, 0)]
    {
        let mut socket = connected(state, 64);
        let repr = segment(TcpControl::Plain, 500, Some(101), b"");
        assert!(socket.process(&mut cx(), &ip(2, 1), &repr).is_none());
        assert_eq!(socket.state.flow_control.remote_win_len, window);
    }
}

#[test]
fn data_is_taken_in_with_a_rejected_acknowledgement() {
    let mut socket = connected(State::Established, 64);
    let repr = segment(TcpControl::Plain, 500, Some(90), b"abc");
    assert!(socket.process(&mut cx(), &ip(2, 1), &repr).is_none());
    assert_eq!(socket.state.flow_control.remote_win_len, 0);
    assert_eq!(queue(&mut socket), b"abc");
    let repr = segment(TcpControl::Plain, 503, None, b"def");
    assert!(socket.process(&mut cx(), &ip(2, 1), &repr).is_none());
    assert_eq!(queue(&mut socket), b"def");
}

#[test]
fn handshake_verdicts() {
    // Acknowledgement, control flag, whether a reset answers it, and the window afterwards.
    let cases = [
        (State::SynSent, TcpControl::Rst, Some(101), false, 1000),
        (State::SynSent, TcpControl::Rst, Some(102), false, 0),
        (State::SynSent, TcpControl::Rst, None, false, 0),
        (State::SynSent, TcpControl::Syn, Some(101), false, 1000),
        (State::SynSent, TcpControl::Syn, Some(102), true, 0),
        (State::SynSent, TcpControl::Syn, None, false, 1000),
        (State::SynSent, TcpControl::Plain, Some(101), false, 0),
        (State::SynSent, TcpControl::Plain, Some(102), true, 0),
        (State::SynSent, TcpControl::Plain, None, false, 0),
        (State::SynSent, TcpControl::Fin, Some(101), false, 0),
        (State::SynSent, TcpControl::Psh, Some(102), false, 0),
        (State::SynReceived, TcpControl::Plain, Some(101), false, 1000),
        (State::SynReceived, TcpControl::Plain, Some(100), true, 0),
        (State::SynReceived, TcpControl::Rst, Some(100), false, 1000),
        (State::Established, TcpControl::Plain, None, false, 0),
        (State::Listen, TcpControl::Syn, None, false, 1000),
    ];
    for (state, control, ack, reset, window) in cases {
        let mut socket = connected(state, 64);
        let reply = socket.process_ack(&segment(control, 500, ack, b""), &ip(2, 1));
        assert_eq!(reply.is_some(), reset);
        assert_eq!(socket.state.flow_control.remote_win_len, window);
    }
}

#[test]
fn reset_reaches_the_peer_and_is_not_answered() {
    let mut socket = connected(State::SynReceived, 64);
    let bad = segment(TcpControl::Plain, 500, Some(7), b"abc");
    let (ip_reply, reply) = socket.process(&mut cx(), &ip(2, 1), &bad).unwrap();
    assert_eq!(socket.state.delivery.rx_buffer.len(), 0);
    assert_eq!(ip_reply, ip(1, 2));
    assert_eq!((reply.src_port, reply.dst_port), (LOCAL, REMOTE));
    assert_eq!((reply.control, reply.seq_number), (TcpControl::Rst, TcpSeqNumber(7)));
    assert_eq!((reply.ack_number, reply.window_len, reply.payload.len()), (None, 0, 0));

    let mut peer = connected(State::SynReceived, 64);
    let t = tuple();
    peer.state.conn_mgmt.tuple = Some(Tuple { local: t.remote, remote: t.local });
    assert!(peer.accepts(&mut cx(), &ip_reply, &reply));
    assert!(peer.process(&mut cx(), &ip_reply, &reply).is_none());
}

#[test]
fn reset_acknowledges_a_bare_syn() {
    let (_, reply) = Socket::rst_reply(&ip(2, 1), &segment(TcpControl::Syn, 500, None, b"abc"));
    assert_eq!(reply.seq_number, TcpSeqNumber(0));
    assert_eq!(reply.ack_number, Some(TcpSeqNumber(504)));
    let (_, reply) = Socket::rst_reply(&ip(2, 1), &segment(TcpControl::Plain, 500, None, b"abc"));
    assert_eq!(reply.ack_number, None);
}

#[test]
fn acknowledgement_packet_goes_back() {
    let socket = connected(State::Established, 64);
    let (ip_reply, reply) = socket.create_ack_packet(
        &ip(2, 1),
        &segment(TcpControl::Fin, 500, Some(100), b"abc"),
        TcpSeqNumber(100),
        TcpSeqNumber(504),
        58,
    );
    assert_eq!(ip_reply, ip(1, 2));
    assert_eq!((reply.src_port, reply.dst_port, reply.control), (LOCAL, REMOTE, TcpControl::Plain));
    assert_eq!((reply.seq_number, reply.ack_number), (TcpSeqNumber(100), Some(TcpSeqNumber(504))));
    assert_eq!((reply.window_len, reply.header_len()), (58, 20));
}

#[test]
fn addresses_are_swapped_in_both_versions() {
    let socket = connected(State::Established, 64);
    let v4 = IpRepr::Ipv4(Ipv4Repr {
        src_addr: addr(2),
        dst_addr: addr(1),
        next_header: IpProtocol::Icmp,
        payload_len: 3,
        hop_limit: 9,
    });
    let back = IpRepr::Ipv4(Ipv4Repr {
        src_addr: addr(1),
        dst_addr: addr(2),
        next_header: IpProtocol::Tcp,
        payload_len: 20,
        hop_limit: 64,
    });
    assert_eq!(socket.swap_ip_addresses(&v4, 20), back);
    assert_eq!(socket.swap_ip_addresses(&back, 20).src_addr(), v4.src_addr());
    let (a, b) = (Ipv6Address { bits: 1 }, Ipv6Address { bits: 2 });
    let v6 = IpRepr::new(IpAddress::Ipv6(a), IpAddress::Ipv6(b), IpProtocol::Tcp, 3, 9);
    let back = IpRepr::Ipv6(Ipv6Repr {
        src_addr: b,
        dst_addr: a,
        next_header: IpProtocol::Tcp,
        payload_len: 20,
        hop_limit: 64,
    });
    assert_eq!(socket.swap_ip_addresses(&v6, 20), back);
    assert_eq!(Socket::reply(&v6, &segment(TcpControl::Syn, 1, None, b"")).0, back);
}

#[test]
fn last_flow_event_decides() {
    let mut flow = FlowControlState { remote_win_len: 5, ..FlowControlState::default() };
    Socket::process_rx_flow_events(&mut flow, vec![]);
    assert_eq!(flow.remote_win_len, 5);
    let update = FlowEvent::RemoteWindowUpdate { new_window: 7, window_scale: 0 };
    Socket::process_rx_flow_events(&mut flow, vec![FlowEvent::RemoteWindowZero {}, update]);
    assert_eq!(flow.remote_win_len, 7);
    Socket::process_rx_flow_events(&mut flow, vec![FlowEvent::RemoteWindowZero {}]);
    assert_eq!(flow.remote_win_len, 0);
}

#[test]
fn delivery_events_are_taken_in_turn() {
    let mut socket = connected(State::Established, 16);
    let events = vec![
        DeliveryEvent::OutOfOrderData { seq: TcpSeqNumber(502), data: b"cd".to_vec() },
        DeliveryEvent::InOrderData { seq: TcpSeqNumber(500), data: b"ab".to_vec() },
        DeliveryEvent::InOrderData { seq: TcpSeqNumber(504), data: b"ef".to_vec() },
    ];
    Socket::process_rx_rod_events(&mut socket.state.delivery, events);
    assert_eq!(queue(&mut socket), b"abcdef");
    socket.process_data(&segment(TcpControl::Plain, 506, None, b"gh"));
    assert_eq!(queue(&mut socket), b"gh");
}

#[test]
fn fast_retransmit_replaces_any_timer() {
    let mut socket = connected(State::Established, 16);
    socket.state.delivery.timer.set_for_close(Instant::from_millis(0));
    socket.state.delivery.timer.set_for_fast_retransmit();
    assert_eq!(socket.state.delivery.timer, Timer::FastRetransmit);
}

#[test]
fn delivered_data_is_not_changed_by_later_segments() {
    let mut socket = connected(State::Established, 16);
    feed(&mut socket, 500, b"abc");
    feed(&mut socket, 505, b"xyz");
    feed(&mut socket, 503, b"de");
    assert_eq!(socket.state.delivery.rx_buffer.len(), 8);
    assert_eq!(socket.state.delivery.remote_seq_no, TcpSeqNumber(508));
    assert_eq!(queue(&mut socket), b"abcdexyz");
}
