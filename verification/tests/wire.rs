use vtcp::{
    IpAddress, IpListenEndpoint, IpProtocol, IpRepr, Ipv4Address, Ipv6Address, TcpControl, TcpRepr,
    TcpSeqNumber, TcpTimestampRepr,
};

fn plain(payload: &[u8]) -> TcpRepr<'_> {
    TcpRepr {
        src_port: 1,
        dst_port: 2,
        control: TcpControl::Plain,
        seq_number: TcpSeqNumber(0),
        ack_number: None,
        window_len: 0,
        window_scale: None,
        max_seg_size: None,
        sack_permitted: false,
        sack_ranges: [None, None, None],
        timestamp: None,
        payload,
    }
}

#[test]
fn sequence_numbers_wrap_around() {
    let a = TcpSeqNumber(i32::MAX);
    assert_eq!(a + 1, TcpSeqNumber(i32::MIN));
    assert_eq!((a + 10) - a, 10);
    assert_eq!((a + 3) + 4, a + 7);
    assert!(a < a + 1 && a + 1 > a && a <= a && a >= a);
    assert!(TcpSeqNumber(-5) < TcpSeqNumber(5));
    assert_eq!(TcpSeqNumber(5) - TcpSeqNumber(-5), 10);
    assert_eq!(TcpSeqNumber::default(), TcpSeqNumber(0));
}

#[test]
fn sequence_numbers_half_the_space_apart_precede_each_other() {
    let a = TcpSeqNumber(0);
    let b = TcpSeqNumber(i32::MIN);
    assert!(a < b && b < a);
}

#[test]
fn control_flags_take_sequence_space() {
    assert_eq!(TcpControl::Plain.len(), 0);
    assert_eq!(TcpControl::Psh.len(), 0);
    assert_eq!(TcpControl::Rst.len(), 0);
    assert_eq!(TcpControl::Syn.len(), 1);
    assert_eq!(TcpControl::Fin.len(), 1);
    assert_eq!(TcpRepr { control: TcpControl::Fin, ..plain(b"abc") }.segment_len(), 4);
}

#[test]
fn header_length_counts_the_options() {
    assert_eq!(plain(b"").header_len(), 20);
    assert_eq!(plain(b"abcdef").buffer_len(), 26);
    assert_eq!(TcpRepr { max_seg_size: Some(1460), ..plain(b"") }.header_len(), 24);
    assert_eq!(TcpRepr { window_scale: Some(7), ..plain(b"") }.header_len(), 24);
    assert_eq!(TcpRepr { sack_permitted: true, ..plain(b"") }.header_len(), 24);
    let timestamp = Some(TcpTimestampRepr { tsval: 1, tsecr: 2 });
    assert_eq!(TcpRepr { timestamp, ..plain(b"") }.header_len(), 32);
    let sack_ranges = [Some((1, 2)), None, Some((5, 6))];
    assert_eq!(TcpRepr { sack_ranges, ..plain(b"") }.header_len(), 40);
    let sack_ranges = [Some((1, 2)), Some((3, 4)), Some((5, 6))];
    let full = TcpRepr {
        max_seg_size: Some(1460),
        window_scale: Some(7),
        sack_permitted: true,
        timestamp,
        sack_ranges,
        ..plain(b"")
    };
    assert_eq!(full.header_len(), 68);
}

#[test]
fn ip_headers_have_their_fields() {
    let (a, b) = (Ipv4Address::new(192, 168, 1, 1), Ipv4Address::new(10, 0, 0, 7));
    assert_eq!(a.bits, 0xc0a8_0101);
    let repr = IpRepr::new(IpAddress::Ipv4(a), IpAddress::Ipv4(b), IpProtocol::Tcp, 20, 64);
    assert_eq!((repr.src_addr(), repr.dst_addr()), (IpAddress::Ipv4(a), IpAddress::Ipv4(b)));
    let (a, b) = (Ipv6Address { bits: 1 }, Ipv6Address { bits: 2 });
    let repr = IpRepr::new(IpAddress::Ipv6(a), IpAddress::Ipv6(b), IpProtocol::Udp, 9, 3);
    match repr {
        IpRepr::Ipv6(repr) => {
            assert_eq!((repr.src_addr, repr.dst_addr), (a, b));
            assert_eq!((repr.next_header, repr.payload_len, repr.hop_limit), (IpProtocol::Udp, 9, 3));
        }
        IpRepr::Ipv4(_) => panic!("wrong version"),
    }
    assert_eq!(IpListenEndpoint::default(), IpListenEndpoint { addr: None, port: 0 });
}
