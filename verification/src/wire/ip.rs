use vstd::prelude::*;

verus! {

/// An IPv4 address, as the number that its four octets spell in network order.
#[derive(Debug, Clone, Copy, PartialEq, Eq, Structural)]
pub struct Ipv4Address {
    pub bits: u32,
}

impl Ipv4Address {
    /// The address `a.b.c.d`.
    pub fn new(a: u8, b: u8, c: u8, d: u8) -> (r: Ipv4Address)
        ensures
            r.bits == a * 0x100_0000 + b * 0x1_0000 + c * 0x100 + d,
    {
        Ipv4Address {
            bits: a as u32 * 0x100_0000 + b as u32 * 0x1_0000 + c as u32 * 0x100 + d as u32,
        }
    }
}

/// An IPv6 address, as the number that its sixteen octets spell in network order.
#[derive(Debug, Clone, Copy, PartialEq, Eq, Structural)]
pub struct Ipv6Address {
    pub bits: u128,
}

/// An internet address.
#[derive(Debug, Clone, Copy, PartialEq, Eq, Structural)]
pub enum IpAddress {
    Ipv4(Ipv4Address),
    Ipv6(Ipv6Address),
}

/// An internet address and a port.
#[derive(Debug, Clone, Copy, PartialEq, Eq, Structural)]
pub struct IpEndpoint {
    pub addr: IpAddress,
    pub port: u16,
}

/// A port to listen on, on one address or (`None`) on every address.
#[derive(Debug, Clone, Copy, PartialEq, Eq, Structural)]
pub struct IpListenEndpoint {
    pub addr: Option<IpAddress>,
    pub port: u16,
}

impl Default for IpListenEndpoint {
    fn default() -> (r: IpListenEndpoint)
        ensures
            r == (IpListenEndpoint { addr: None, port: 0 }),
    {
        IpListenEndpoint { addr: None, port: 0 }
    }
}

/// The protocol that an IP packet carries.
#[derive(Debug, Clone, Copy, PartialEq, Eq, Structural)]
pub enum IpProtocol {
    HopByHop,
    Icmp,
    Igmp,
    Tcp,
    Udp,
    Ipv6Route,
    Ipv6Frag,
    IpSecEsp,
    IpSecAh,
    Icmpv6,
    Ipv6NoNxt,
    Ipv6Opts,
    Unknown(u8),
}

/// The header of an IPv4 packet.
#[derive(Debug, Clone, Copy, PartialEq, Eq, Structural)]
pub struct Ipv4Repr {
    pub src_addr: Ipv4Address,
    pub dst_addr: Ipv4Address,
    pub next_header: IpProtocol,
    pub payload_len: usize,
    pub hop_limit: u8,
}

/// The header of an IPv6 packet.
#[derive(Debug, Clone, Copy, PartialEq, Eq, Structural)]
pub struct Ipv6Repr {
    pub src_addr: Ipv6Address,
    pub dst_addr: Ipv6Address,
    pub next_header: IpProtocol,
    pub payload_len: usize,
    pub hop_limit: u8,
}

/// The header of an IP packet.
#[derive(Debug, Clone, Copy, PartialEq, Eq, Structural)]
pub enum IpRepr {
    Ipv4(Ipv4Repr),
    Ipv6(Ipv6Repr),
}

impl IpRepr {
    pub open spec fn src(self) -> IpAddress {
        match self {
            IpRepr::Ipv4(repr) => IpAddress::Ipv4(repr.src_addr),
            IpRepr::Ipv6(repr) => IpAddress::Ipv6(repr.src_addr),
        }
    }

    pub open spec fn dst(self) -> IpAddress {
        match self {
            IpRepr::Ipv4(repr) => IpAddress::Ipv4(repr.dst_addr),
            IpRepr::Ipv6(repr) => IpAddress::Ipv6(repr.dst_addr),
        }
    }

    pub open spec fn protocol(self) -> IpProtocol {
        match self {
            IpRepr::Ipv4(repr) => repr.next_header,
            IpRepr::Ipv6(repr) => repr.next_header,
        }
    }

    pub open spec fn payload(self) -> usize {
        match self {
            IpRepr::Ipv4(repr) => repr.payload_len,
            IpRepr::Ipv6(repr) => repr.payload_len,
        }
    }

    pub open spec fn hops(self) -> u8 {
        match self {
            IpRepr::Ipv4(repr) => repr.hop_limit,
            IpRepr::Ipv6(repr) => repr.hop_limit,
        }
    }

    /// Whether this header has exactly these fields. Together they determine it.
    pub open spec fn has_fields(
        self,
        src: IpAddress,
        dst: IpAddress,
        protocol: IpProtocol,
        payload_len: usize,
        hop_limit: u8,
    ) -> bool {
        &&& self.src() == src
        &&& self.dst() == dst
        &&& self.protocol() == protocol
        &&& self.payload() == payload_len
        &&& self.hops() == hop_limit
    }

    /// Creates a header. The two addresses are of the same version.
    pub fn new(
        src_addr: IpAddress,
        dst_addr: IpAddress,
        next_header: IpProtocol,
        payload_len: usize,
        hop_limit: u8,
    ) -> (r: IpRepr)
        requires
            src_addr is Ipv4 <==> dst_addr is Ipv4,
        ensures
            r.has_fields(src_addr, dst_addr, next_header, payload_len, hop_limit),
    {
        match (src_addr, dst_addr) {
            (IpAddress::Ipv4(src_addr), IpAddress::Ipv4(dst_addr)) => IpRepr::Ipv4(
                Ipv4Repr { src_addr, dst_addr, next_header, payload_len, hop_limit },
            ),
            (IpAddress::Ipv6(src_addr), IpAddress::Ipv6(dst_addr)) => IpRepr::Ipv6(
                Ipv6Repr { src_addr, dst_addr, next_header, payload_len, hop_limit },
            ),
            _ => vstd::pervasive::unreached(),
        }
    }

    pub fn src_addr(&self) -> (r: IpAddress)
        ensures
            r == self.src(),
    {
        match self {
            IpRepr::Ipv4(repr) => IpAddress::Ipv4(repr.src_addr),
            IpRepr::Ipv6(repr) => IpAddress::Ipv6(repr.src_addr),
        }
    }

    pub fn dst_addr(&self) -> (r: IpAddress)
        ensures
            r == self.dst(),
    {
        match self {
            IpRepr::Ipv4(repr) => IpAddress::Ipv4(repr.dst_addr),
            IpRepr::Ipv6(repr) => IpAddress::Ipv6(repr.dst_addr),
        }
    }
}

} // verus!
