//! The receiving half of a TCP socket, split into components that each own a part of the state:
//! connection management, reliable and ordered delivery, flow control and congestion control.
//! A segment is turned into events, and a component changes its state by events only.
pub mod socket;
pub mod storage;
pub mod time;
pub mod wire;

pub use socket::congestion::AnyController;
pub use socket::events::{
    CongestionEvent, ConnectionEvent, ControlEvent, DeliveryEvent, FlowEvent,
};
pub use socket::rtt::RttEstimator;
pub use socket::state::{
    AckDelayTimer, CongestionState, ConnectionManagementState, FlowControlState,
    ReliableOrderedDeliveryState, State, TcpState, Tuple,
};
pub use socket::timer::{PollAt, Timer};
pub use socket::{Context, Socket};
pub use storage::assembler::{Assembler, TooManyHolesError};
pub use storage::managed::ManagedSlice;
pub use storage::ring_buffer::SocketBuffer;
pub use time::{Duration, Instant};
pub use wire::ip::{
    IpAddress, IpEndpoint, IpListenEndpoint, IpProtocol, IpRepr, Ipv4Address, Ipv4Repr,
    Ipv6Address, Ipv6Repr,
};
pub use wire::seq::TcpSeqNumber;
pub use wire::tcp::{TcpControl, TcpRepr, TcpTimestampRepr};
