use vtcp::{
    Context, Instant, IpAddress, IpEndpoint, IpProtocol, IpRepr, Ipv4Address, Ipv4Repr, Socket,
    SocketBuffer, State, TcpControl, TcpRepr, TcpSeqNumber, Tuple,
};

const LOCAL_PORT: u16 = 80;
const REMOTE_PORT: u16 = 49500;
const LOCAL_SEQ: TcpSeqNumber = TcpSeqNumber(10000);
const REMOTE_SEQ: TcpSeqNumber = TcpSeqNumber(50000);

// A template for packets that come in from the remote end.
const SEND_TEMPL: TcpRepr<'static> = TcpRepr {
    src_port: REMOTE_PORT,
    dst_port: LOCAL_PORT,
    control: TcpControl::Plain,
    seq_number: TcpSeqNumber(0),
    ack_number: Some(TcpSeqNumber(0)),
    window_len: 256,
    window_scale: None,
    max_seg_size: None,
    sack_permitted: false,
    sack_ranges: [None, None, None],
    timestamp: None,
    payload: &[],
};

fn local_addr() -> Ipv4Address {
    Ipv4Address::new(192, 168, 1, 1)
}

fn remote_addr() -> Ipv4Address {
    Ipv4Address::new(192, 168, 1, 2)
}

fn send_ip_templ() -> IpRepr {
    IpRepr::Ipv4(Ipv4Repr {
        src_addr: remote_addr(),
        dst_addr: local_addr(),
        next_header: IpProtocol::Tcp,
        payload_len: 20,
        hop_limit: 64,
    })
}

fn tuple() -> Tuple {
    Tuple {
        local: IpEndpoint { addr: IpAddress::Ipv4(local_addr()), port: LOCAL_PORT },
        remote: IpEndpoint { addr: IpAddress::Ipv4(remote_addr()), port: REMOTE_PORT },
    }
}

struct TestSocket {
    socket: Socket<'static>,
    cx: Context,
}

fn socket() -> TestSocket {
    socket_with_buffer_sizes(64, 64)
}

fn socket_with_buffer_sizes(tx_len: usize, rx_len: usize) -> TestSocket {
    let rx_buffer = SocketBuffer::new(vec![0; rx_len]);
    let tx_buffer = SocketBuffer::new(vec![0; tx_len]);
    let socket = Socket::new(rx_buffer, tx_buffer);
    TestSocket { socket, cx: Context { now: Instant::from_millis(0) } }
}

fn socket_syn_received_with_buffer_sizes(tx_len: usize, rx_len: usize) -> TestSocket {
    let mut s = socket_with_buffer_sizes(tx_len, rx_len);
    s.socket.state.conn_mgmt.tcp_state = State::SynReceived;
    s.socket.state.conn_mgmt.tuple = Some(tuple());
    s.socket.state.delivery.remote_seq_no = REMOTE_SEQ + 1;
    s.socket.state.delivery.local_seq_no = LOCAL_SEQ;
    s.socket.state.flow_control.remote_win_len = 256;
    s
}

fn socket_syn_received() -> TestSocket {
    socket_syn_received_with_buffer_sizes(64, 64)
}

fn socket_syn_sent_with_buffer_sizes(tx_len: usize, rx_len: usize) -> TestSocket {
    let mut s = socket_with_buffer_sizes(tx_len, rx_len);
    s.socket.state.conn_mgmt.tcp_state = State::SynSent;
    s.socket.state.conn_mgmt.tuple = Some(tuple());
    s.socket.state.delivery.local_seq_no = LOCAL_SEQ;
    s
}

fn socket_syn_sent() -> TestSocket {
    socket_syn_sent_with_buffer_sizes(64, 64)
}

fn socket_established_with_buffer_sizes(tx_len: usize, rx_len: usize) -> TestSocket {
    let mut s = socket_syn_received_with_buffer_sizes(tx_len, rx_len);
    s.socket.state.conn_mgmt.tcp_state = State::Established;
    s.socket.state.delivery.remote_seq_no = REMOTE_SEQ + 1;
    s.socket.state.delivery.local_seq_no = LOCAL_SEQ + 1;
    s.socket.state.delivery.remote_last_seq = LOCAL_SEQ + 1;
    s
}

fn socket_established() -> TestSocket {
    socket_established_with_buffer_sizes(64, 64)
}

fn received(s: &mut TestSocket) -> Vec<u8> {
    let mut bytes = vec![0; s.socket.state.delivery.rx_buffer.len()];
    s.socket.state.delivery.rx_buffer.dequeue_slice(&mut bytes);
    bytes
}

// CLOSED

#[test]
fn test_closed_reject() {
    let mut s = socket();
    s.socket.state.conn_mgmt.tcp_state = State::Closed;
    assert_eq!(s.socket.state.conn_mgmt.tcp_state, State::Closed);

    let tcp_repr = TcpRepr { control: TcpControl::Syn, ..SEND_TEMPL };
    assert!(!s.socket.accepts(&mut s.cx, &send_ip_templ(), &tcp_repr));
}

#[test]
fn test_closed_reject_after_listen() {
    let mut s = socket();
    s.socket.state.conn_mgmt.listen_endpoint.port = LOCAL_PORT;
    let tcp_repr = TcpRepr { control: TcpControl::Syn, ack_number: None, ..SEND_TEMPL };
    s.socket.set_state(State::Listen);
    assert!(s.socket.accepts(&mut s.cx, &send_ip_templ(), &tcp_repr));
    s.socket.set_state(State::Closed);
    assert!(!s.socket.accepts(&mut s.cx, &send_ip_templ(), &tcp_repr));
}

#[test]
fn test_closed_close() {
    let mut s = socket();
    s.socket.set_state(State::Closed);
    assert_eq!(s.socket.state.conn_mgmt.tcp_state, State::Closed);
    s.socket.set_state(State::Closed);
    assert_eq!(s.socket.state.conn_mgmt.tcp_state, State::Closed);
}

// ESTABLISHED: receiving data

#[test]
fn test_established_recv() {
    let mut s = socket_established();

    let tcp_repr = TcpRepr {
        seq_number: REMOTE_SEQ + 1,
        ack_number: Some(LOCAL_SEQ + 1),
        payload: &b"abcdef"[..],
        ..SEND_TEMPL
    };

    assert!(s.socket.accepts(&mut s.cx, &send_ip_templ(), &tcp_repr));
    let reply = s.socket.process(&mut s.cx, &send_ip_templ(), &tcp_repr);
    assert!(reply.is_none());

    assert_eq!(
        s.socket.state.delivery.remote_seq_no,
        REMOTE_SEQ + 1 + 6,
        "Remote sequence number should advance by payload length"
    );
    assert!(
        s.socket.state.delivery.assembler.is_empty(),
        "Assembler should be empty after in-order data"
    );
    assert_eq!(
        s.socket.state.delivery.rx_buffer.len(),
        6,
        "rx_buffer should contain 6 bytes"
    );
    assert_eq!(received(&mut s), b"abcdef");
}

#[test]
fn test_out_of_order() {
    let mut s = socket_established();

    // Bytes 3 to 5 come first.
    let tcp_repr_ooo = TcpRepr {
        seq_number: REMOTE_SEQ + 1 + 3,
        ack_number: Some(LOCAL_SEQ + 1),
        payload: &b"def"[..],
        ..SEND_TEMPL
    };

    assert!(s.socket.accepts(&mut s.cx, &send_ip_templ(), &tcp_repr_ooo));
    s.socket.process(&mut s.cx, &send_ip_templ(), &tcp_repr_ooo);

    assert!(
        !s.socket.state.delivery.assembler.is_empty(),
        "Assembler should have buffered out-of-order data"
    );
    assert_eq!(
        s.socket.state.delivery.remote_seq_no,
        REMOTE_SEQ + 1,
        "Remote sequence should not advance with gap"
    );
    assert_eq!(
        s.socket.state.delivery.rx_buffer.len(),
        0,
        "rx_buffer should be empty (data not contiguous)"
    );

    // Then the missing data, with what is there already.
    let tcp_repr_fill = TcpRepr {
        seq_number: REMOTE_SEQ + 1,
        ack_number: Some(LOCAL_SEQ + 1),
        payload: &b"abcdef"[..],
        ..SEND_TEMPL
    };

    assert!(s.socket.accepts(&mut s.cx, &send_ip_templ(), &tcp_repr_fill));
    s.socket.process(&mut s.cx, &send_ip_templ(), &tcp_repr_fill);

    assert!(
        s.socket.state.delivery.assembler.is_empty(),
        "Assembler should be empty after gap is filled"
    );
    assert_eq!(
        s.socket.state.delivery.remote_seq_no,
        REMOTE_SEQ + 1 + 6,
        "Remote sequence should advance by full 6 bytes"
    );
    assert_eq!(
        s.socket.state.delivery.rx_buffer.len(),
        6,
        "rx_buffer should contain all 6 bytes"
    );
    assert_eq!(received(&mut s), b"abcdef");
}

// Segments of another connection

#[test]
fn test_doesnt_accept_wrong_port() {
    let mut s = socket_established();

    let tcp_repr = TcpRepr {
        seq_number: REMOTE_SEQ + 1,
        ack_number: Some(LOCAL_SEQ + 1),
        dst_port: LOCAL_PORT + 1,
        ..SEND_TEMPL
    };
    assert!(
        !s.socket.accepts(&mut s.cx, &send_ip_templ(), &tcp_repr),
        "Should reject packet with wrong destination port"
    );

    let tcp_repr = TcpRepr {
        seq_number: REMOTE_SEQ + 1,
        ack_number: Some(LOCAL_SEQ + 1),
        src_port: REMOTE_PORT + 1,
        ..SEND_TEMPL
    };
    assert!(
        !s.socket.accepts(&mut s.cx, &send_ip_templ(), &tcp_repr),
        "Should reject packet with wrong source port"
    );
}

#[test]
fn test_doesnt_accept_wrong_ip() {
    let mut s = socket_established();
    let other_addr = Ipv4Address::new(192, 168, 1, 3);

    let tcp_repr = TcpRepr {
        seq_number: REMOTE_SEQ + 1,
        ack_number: Some(LOCAL_SEQ + 1),
        payload: &b"abcdef"[..],
        ..SEND_TEMPL
    };

    let ip_repr = IpRepr::Ipv4(Ipv4Repr {
        src_addr: remote_addr(),
        dst_addr: local_addr(),
        next_header: IpProtocol::Tcp,
        payload_len: tcp_repr.buffer_len(),
        hop_limit: 64,
    });
    assert!(
        s.socket.accepts(&mut s.cx, &ip_repr, &tcp_repr),
        "Should accept packet with correct IP"
    );

    let ip_repr_wrong_src = IpRepr::Ipv4(Ipv4Repr {
        src_addr: other_addr,
        dst_addr: local_addr(),
        next_header: IpProtocol::Tcp,
        payload_len: tcp_repr.buffer_len(),
        hop_limit: 64,
    });
    assert!(
        !s.socket.accepts(&mut s.cx, &ip_repr_wrong_src, &tcp_repr),
        "Should reject packet with wrong source IP"
    );

    let ip_repr_wrong_dst = IpRepr::Ipv4(Ipv4Repr {
        src_addr: remote_addr(),
        dst_addr: other_addr,
        next_header: IpProtocol::Tcp,
        payload_len: tcp_repr.buffer_len(),
        hop_limit: 64,
    });
    assert!(
        !s.socket.accepts(&mut s.cx, &ip_repr_wrong_dst, &tcp_repr),
        "Should reject packet with wrong destination IP"
    );
}

// SYN-RECEIVED: resets

#[test]
fn test_syn_received_ack_too_low() {
    let mut s = socket_syn_received();

    let tcp_repr = TcpRepr {
        seq_number: REMOTE_SEQ + 1,
        ack_number: Some(LOCAL_SEQ), // Should be LOCAL_SEQ + 1
        ..SEND_TEMPL
    };

    assert!(s.socket.accepts(&mut s.cx, &send_ip_templ(), &tcp_repr));
    let reply = s.socket.process(&mut s.cx, &send_ip_templ(), &tcp_repr);
    assert!(reply.is_some(), "Should send RST for ACK too low");

    if let Some((_ip_reply, tcp_reply)) = reply {
        assert_eq!(tcp_reply.control, TcpControl::Rst, "Should be RST packet");
        assert_eq!(tcp_reply.seq_number, LOCAL_SEQ, "RST seq should be ack_number from bad packet");
        assert_eq!(tcp_reply.ack_number, None, "RST should have no ack_number");
    }

    assert_eq!(s.socket.state.conn_mgmt.tcp_state, State::SynReceived);
}

#[test]
fn test_syn_received_ack_too_high() {
    let mut s = socket_syn_received();

    let tcp_repr = TcpRepr {
        seq_number: REMOTE_SEQ + 1,
        ack_number: Some(LOCAL_SEQ + 2), // Should be LOCAL_SEQ + 1
        ..SEND_TEMPL
    };

    assert!(s.socket.accepts(&mut s.cx, &send_ip_templ(), &tcp_repr));
    let reply = s.socket.process(&mut s.cx, &send_ip_templ(), &tcp_repr);
    assert!(reply.is_some(), "Should send RST for ACK too high");

    if let Some((_ip_reply, tcp_reply)) = reply {
        assert_eq!(tcp_reply.control, TcpControl::Rst, "Should be RST packet");
        assert_eq!(tcp_reply.seq_number, LOCAL_SEQ + 2, "RST seq should be ack_number from bad packet");
        assert_eq!(tcp_reply.ack_number, None, "RST should have no ack_number");
    }

    assert_eq!(s.socket.state.conn_mgmt.tcp_state, State::SynReceived);
}

// SYN-SENT: resets

#[test]
fn test_syn_sent_bad_ack() {
    let mut s = socket_syn_sent();

    let tcp_repr = TcpRepr {
        control: TcpControl::Plain,
        seq_number: REMOTE_SEQ,
        ack_number: Some(LOCAL_SEQ + 2), // Wrong, should be LOCAL_SEQ + 1
        ..SEND_TEMPL
    };

    assert!(s.socket.accepts(&mut s.cx, &send_ip_templ(), &tcp_repr));
    let reply = s.socket.process(&mut s.cx, &send_ip_templ(), &tcp_repr);
    assert!(reply.is_some(), "Should send RST for bad ACK in SYN-SENT");

    if let Some((_ip_reply, tcp_reply)) = reply {
        assert_eq!(tcp_reply.control, TcpControl::Rst, "Should be RST packet");
    }
}

// A small receive buffer

#[test]
fn test_buffer_wraparound_rx() {
    let mut s = socket_established_with_buffer_sizes(64, 10);

    let tcp_repr1 = TcpRepr {
        seq_number: REMOTE_SEQ + 1,
        ack_number: Some(LOCAL_SEQ + 1),
        payload: &b"abc"[..],
        ..SEND_TEMPL
    };

    assert!(s.socket.accepts(&mut s.cx, &send_ip_templ(), &tcp_repr1));
    s.socket.process(&mut s.cx, &send_ip_templ(), &tcp_repr1);

    assert_eq!(s.socket.state.delivery.rx_buffer.len(), 3);
    assert_eq!(s.socket.state.delivery.remote_seq_no, REMOTE_SEQ + 1 + 3);

    let tcp_repr2 = TcpRepr {
        seq_number: REMOTE_SEQ + 1 + 3,
        ack_number: Some(LOCAL_SEQ + 1),
        payload: &b"defghi"[..],
        ..SEND_TEMPL
    };

    assert!(s.socket.accepts(&mut s.cx, &send_ip_templ(), &tcp_repr2));
    s.socket.process(&mut s.cx, &send_ip_templ(), &tcp_repr2);

    assert_eq!(s.socket.state.delivery.remote_seq_no, REMOTE_SEQ + 1 + 9);
    assert_eq!(s.socket.state.delivery.rx_buffer.len(), 9);
    assert!(s.socket.state.delivery.assembler.is_empty());
}
