use crate::socket::state::{State, Tuple};
use crate::time::Instant;
use crate::wire::seq::TcpSeqNumber;
use crate::wire::tcp::TcpControl;
use vstd::prelude::*;

verus! {

/// Events for the reliable and ordered delivery component.
#[derive(Debug)]
pub enum DeliveryEvent {
    /// Data that starts at the sequence number expected next.
    InOrderData { seq: TcpSeqNumber, data: Vec<u8> },
    /// Data that starts elsewhere.
    OutOfOrderData { seq: TcpSeqNumber, data: Vec<u8> },
    /// The remote end acknowledged data that was sent to it.
    DataAcknowledged { ack_number: TcpSeqNumber, acked_bytes: usize },
}

/// Events for the flow control component.
#[derive(Debug)]
pub enum FlowEvent {
    RemoteWindowUpdate { new_window: usize, window_scale: u8 },
    RemoteWindowZero {  },
}

/// Events for the congestion control component.
#[derive(Debug)]
pub enum CongestionEvent {
    NewAck { ack: TcpSeqNumber, now: Instant },
    DuplicateAck { ack: TcpSeqNumber, now: Instant },
    Timeout { now: Instant },
}

/// Events for the connection management component.
#[derive(Debug)]
pub enum ConnectionEvent {
    NewState { state: State },
    NewTuple { tuple: Tuple },
}

/// Events for the control logic, which may modify every component.
#[derive(Debug)]
pub enum ControlEvent {
    ControlPacket { control: TcpControl, seq: TcpSeqNumber, ack: Option<TcpSeqNumber> },
    TimerExpired,
}

} // verus!
