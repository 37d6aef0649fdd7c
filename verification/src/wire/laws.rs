use crate::wire::ip::{IpAddress, IpProtocol, IpRepr, Ipv4Address};
use crate::wire::seq::TcpSeqNumber;
use crate::wire::tcp::{TcpControl, TcpRepr};
use std::cmp::Ordering;
use std::ops::{Add, Sub};
use vstd::prelude::*;

verus! {

/// Going on by `n` adds `n` modulo 2^32.
pub proof fn going_on_adds(a: TcpSeqNumber, n: int)
    ensures
        (a.plus(n).0 - a.0 - n) % 0x1_0000_0000 == 0,
{
}

/// The distance between two sequence numbers is their difference modulo 2^32, less than half of
/// the sequence space in either direction.
pub proof fn distance_is_the_difference(a: TcpSeqNumber, b: TcpSeqNumber)
    ensures
        (a.ahead_of(b) - (a.0 - b.0)) % 0x1_0000_0000 == 0,
        -0x8000_0000 <= a.ahead_of(b) < 0x8000_0000,
{
}

/// Addition to a sequence number is modulo 2^32.
pub proof fn sum_is_modular(a: TcpSeqNumber, n: usize, r: TcpSeqNumber)
    requires
        call_ensures(TcpSeqNumber::add, (a, n), r),
    ensures
        (r.0 - a.0 - n) % 0x1_0000_0000 == 0,
{
}

/// Subtraction gives how far one sequence number lies ahead of another.
pub proof fn difference_undoes_sum(a: TcpSeqNumber, b: TcpSeqNumber, n: int, r: usize)
    requires
        call_ensures(TcpSeqNumber::sub, (a, b), r),
        0 <= n <= i32::MAX,
        (a.0 - b.0 - n) % 0x1_0000_0000 == 0,
    ensures
        r == n,
{
}

/// Of two sequence numbers that one is greater that lies ahead, by less than half of the sequence
/// space.
pub proof fn order_goes_round(a: TcpSeqNumber, b: TcpSeqNumber, n: int, r: Option<Ordering>)
    requires
        call_ensures(TcpSeqNumber::partial_cmp, (&a, &b), r),
        (a.0 - b.0 - n) % 0x1_0000_0000 == 0,
        -0x8000_0000 <= n < 0x8000_0000,
    ensures
        n > 0 <==> r == Some(Ordering::Greater),
        n == 0 <==> r == Some(Ordering::Equal),
        n < 0 <==> r == Some(Ordering::Less),
{
}

/// The four octets of an address can be read off it again.
pub proof fn address_keeps_its_octets(a: u8, b: u8, c: u8, d: u8, r: Ipv4Address)
    requires
        call_ensures(Ipv4Address::new, (a, b, c, d), r),
    ensures
        r.bits / 0x100_0000 == a,
        r.bits / 0x1_0000 % 0x100 == b,
        r.bits / 0x100 % 0x100 == c,
        r.bits % 0x100 == d,
{
}

/// A header has the addresses, protocol, length and hop limit that it was made with, and is of
/// the version of its addresses.
pub proof fn header_keeps_its_fields(
    src: IpAddress,
    dst: IpAddress,
    protocol: IpProtocol,
    len: usize,
    hops: u8,
    r: IpRepr,
)
    requires
        call_ensures(IpRepr::new, (src, dst, protocol, len, hops), r),
    ensures
        match r {
            IpRepr::Ipv4(repr) => {
                &&& src == IpAddress::Ipv4(repr.src_addr)
                &&& dst == IpAddress::Ipv4(repr.dst_addr)
                &&& repr.next_header == protocol
                &&& repr.payload_len == len
                &&& repr.hop_limit == hops
            },
            IpRepr::Ipv6(repr) => {
                &&& src == IpAddress::Ipv6(repr.src_addr)
                &&& dst == IpAddress::Ipv6(repr.dst_addr)
                &&& repr.next_header == protocol
                &&& repr.payload_len == len
                &&& repr.hop_limit == hops
            },
        },
{
}

/// A header tells its two addresses apart.
pub proof fn header_tells_its_addresses(ip: &IpRepr, src: IpAddress, dst: IpAddress)
    requires
        call_ensures(IpRepr::src_addr, (ip,), src),
        call_ensures(IpRepr::dst_addr, (ip,), dst),
    ensures
        match *ip {
            IpRepr::Ipv4(repr) => src == IpAddress::Ipv4(repr.src_addr) && dst == IpAddress::Ipv4(
                repr.dst_addr,
            ),
            IpRepr::Ipv6(repr) => src == IpAddress::Ipv6(repr.src_addr) && dst == IpAddress::Ipv6(
                repr.dst_addr,
            ),
        },
{
}

/// Of the control flags SYN and FIN take up one number of sequence space each, the others none.
pub proof fn control_takes_up_space(control: TcpControl, r: usize)
    requires
        call_ensures(TcpControl::len, (control,), r),
    ensures
        match control {
            TcpControl::Syn => r == 1,
            TcpControl::Fin => r == 1,
            TcpControl::Plain => r == 0,
            TcpControl::Psh => r == 0,
            TcpControl::Rst => r == 0,
        },
{
}

/// A segment takes up the sequence space of its payload and of its control flag.
pub proof fn segment_takes_up_space(repr: &TcpRepr, r: usize)
    requires
        call_ensures(TcpRepr::segment_len, (repr,), r),
    ensures
        repr.control is Syn || repr.control is Fin ==> r == repr.payload@.len() + 1,
        !(repr.control is Syn) && !(repr.control is Fin) ==> r == repr.payload@.len(),
{
}

/// How many of the three places for selective acknowledgement ranges are taken.
pub open spec fn ranges_taken(repr: TcpRepr) -> int {
    let first = if repr.sack_ranges@[0] is Some {
        1int
    } else {
        0
    };
    let second = if repr.sack_ranges@[1] is Some {
        1int
    } else {
        0
    };
    let third = if repr.sack_ranges@[2] is Some {
        1int
    } else {
        0
    };
    first + second + third
}

/// A header is a multiple of 4 octets, and has room for its 20 fixed octets and its options, with
/// less than 4 octets to spare.
pub proof fn header_has_room_for_options(repr: &TcpRepr, r: usize, options: int)
    requires
        call_ensures(TcpRepr::header_len, (repr,), r),
        ({
            let size = if repr.max_seg_size is Some {
                4int
            } else {
                0
            };
            let scale = if repr.window_scale is Some {
                3int
            } else {
                0
            };
            let permitted = if repr.sack_permitted {
                2int
            } else {
                0
            };
            let timestamp = if repr.timestamp is Some {
                10int
            } else {
                0
            };
            let ranges = if ranges_taken(*repr) > 0 {
                2 + 8 * ranges_taken(*repr)
            } else {
                0
            };
            options == size + scale + permitted + timestamp + ranges
        }),
    ensures
        r % 4 == 0,
        20 + options <= r < 20 + options + 4,
{
    assert(repr@.sack_ranges == repr.sack_ranges@);
    assert(repr@.sack_count() == ranges_taken(*repr));
}

/// An emitted segment is its header and its payload.
pub proof fn segment_is_header_and_payload(repr: &TcpRepr, header: usize, r: usize)
    requires
        call_ensures(TcpRepr::header_len, (repr,), header),
        call_ensures(TcpRepr::buffer_len, (repr,), r),
    ensures
        r == header + repr.payload@.len(),
{
}

} // verus!
