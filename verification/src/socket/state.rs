use crate::socket::congestion::AnyController;
use crate::socket::rtt::{RttEstimator, RTTE_INITIAL_RTO};
use crate::socket::timer::Timer;
use crate::storage::assembler::Assembler;
use crate::storage::ring_buffer::SocketBuffer;
use crate::time::{Duration, Instant};
use crate::wire::ip::{IpEndpoint, IpListenEndpoint};
use crate::wire::seq::TcpSeqNumber;
use vstd::prelude::*;

verus! {

/// How long an acknowledgement is delayed by default, in milliseconds.
pub const ACK_DELAY_DEFAULT: u64 = 10;

/// The maximum segment size that a remote end is taken to accept by default.
pub const DEFAULT_MSS: usize = 536;

/// The state of a TCP socket, according to RFC 793.
#[derive(Debug, Clone, Copy, PartialEq, Eq, Structural)]
pub enum State {
    Closed,
    Listen,
    SynSent,
    SynReceived,
    Established,
    FinWait1,
    FinWait2,
    CloseWait,
    Closing,
    LastAck,
    TimeWait,
}

/// The two ends of a connection.
#[derive(Debug, Clone, Copy, PartialEq, Eq, Structural)]
pub struct Tuple {
    pub local: IpEndpoint,
    pub remote: IpEndpoint,
}

/// Connection management: TCP state machine and connection info.
/// Only control logic can modify this.
#[derive(Debug)]
pub struct ConnectionManagementState {
    /// TCP state (CLOSED, LISTEN, ESTABLISHED, etc.)
    pub tcp_state: State,
    pub listen_endpoint: IpListenEndpoint,
    pub tuple: Option<Tuple>,
    pub timeout: Option<Duration>,
    pub keep_alive: Option<Duration>,
    pub hop_limit: Option<u8>,
    pub rx_fin_received: bool,
    /// Rate limiting timer
    pub challenge_ack_timer: Instant,
}

impl ConnectionManagementState {
    /// An established connection without an endpoint or any option, made at `now`.
    pub open spec fn fresh(now: Instant) -> ConnectionManagementState {
        ConnectionManagementState {
            tcp_state: State::Established,
            listen_endpoint: IpListenEndpoint { addr: None, port: 0 },
            tuple: None,
            timeout: None,
            keep_alive: None,
            hop_limit: None,
            rx_fin_received: false,
            challenge_ack_timer: now,
        }
    }

    /// The default state, made at `now`.
    pub fn made_at(now: Instant) -> (r: ConnectionManagementState)
        ensures
            r == ConnectionManagementState::fresh(now),
    {
        ConnectionManagementState {
            tcp_state: State::Established,
            listen_endpoint: IpListenEndpoint::default(),
            tuple: None,
            timeout: None,
            keep_alive: None,
            hop_limit: None,
            rx_fin_received: false,
            challenge_ack_timer: now,
        }
    }
}

impl Default for ConnectionManagementState {
    /// The default state, made now: the time is the only thing in it that varies.
    fn default() -> (r: ConnectionManagementState)
        ensures
            r == ConnectionManagementState::fresh(r.challenge_ack_timer),
    {
        ConnectionManagementState::made_at(Instant::now())
    }
}

/// The timer of a delayed acknowledgement.
#[derive(Debug, Clone, Copy, PartialEq, Eq, Structural)]
pub enum AckDelayTimer {
    Idle,
    Waiting(Instant),
    Immediate,
}

/// Reliable and ordered delivery: sequence numbers and ACK tracking.
/// The data path can modify this.
#[derive(Debug)]
pub struct ReliableOrderedDeliveryState<'a> {
    pub rx_buffer: SocketBuffer<'a>,
    pub tx_buffer: SocketBuffer<'a>,
    pub local_seq_no: TcpSeqNumber,
    pub remote_seq_no: TcpSeqNumber,
    pub remote_last_seq: TcpSeqNumber,
    pub remote_last_ack: Option<TcpSeqNumber>,
    pub local_rx_last_seq: Option<TcpSeqNumber>,
    pub local_rx_last_ack: Option<TcpSeqNumber>,
    pub local_rx_dup_acks: u8,
    pub assembler: Assembler,
    pub timer: Timer,
    pub rtte: RttEstimator,
    /// ACK delay duration
    pub ack_delay: Option<Duration>,
    /// Delayed ACK timer
    pub ack_delay_timer: AckDelayTimer,
}

impl<'a> ReliableOrderedDeliveryState<'a> {
    /// The parts are sound.
    pub open spec fn wf(self) -> bool {
        &&& self.rx_buffer.wf()
        &&& self.tx_buffer.wf()
        &&& self.assembler.wf()
        &&& self.rtte.wf()
    }

    /// The state before anything was sent or received.
    pub open spec fn is_fresh(self, rx_buffer: SocketBuffer<'a>, tx_buffer: SocketBuffer<'a>) -> bool {
        &&& self == ReliableOrderedDeliveryState {
            rx_buffer,
            tx_buffer,
            local_seq_no: TcpSeqNumber(0),
            remote_seq_no: TcpSeqNumber(0),
            remote_last_seq: TcpSeqNumber(0),
            remote_last_ack: None,
            local_rx_last_seq: None,
            local_rx_last_ack: None,
            local_rx_dup_acks: 0,
            assembler: self.assembler,
            timer: Timer::Idle { keep_alive_at: None },
            rtte: RttEstimator {
                have_measurement: false,
                srtt: 0,
                rttvar: 0,
                rto: RTTE_INITIAL_RTO,
                timestamp: None,
                max_seq_sent: None,
                rto_count: 0,
            },
            ack_delay: Some(Duration { micros: (ACK_DELAY_DEFAULT * 1000) as u64 }),
            ack_delay_timer: AckDelayTimer::Idle,
        }
        &&& self.assembler.wf()
        &&& self.assembler@ == Set::<int>::empty()
    }

    pub fn new(rx_buffer: SocketBuffer<'a>, tx_buffer: SocketBuffer<'a>) -> (r:
        ReliableOrderedDeliveryState<'a>)
        ensures
            r.is_fresh(rx_buffer, tx_buffer),
            rx_buffer.wf() && tx_buffer.wf() ==> r.wf(),
    {
        ReliableOrderedDeliveryState {
            rx_buffer,
            tx_buffer,
            local_seq_no: TcpSeqNumber::default(),
            remote_seq_no: TcpSeqNumber::default(),
            remote_last_seq: TcpSeqNumber::default(),
            remote_last_ack: None,
            local_rx_last_seq: None,
            local_rx_last_ack: None,
            local_rx_dup_acks: 0,
            assembler: Assembler::new(),
            timer: Timer::new(),
            rtte: RttEstimator::default(),
            ack_delay: Some(Duration::from_millis(ACK_DELAY_DEFAULT)),
            ack_delay_timer: AckDelayTimer::Idle,
        }
    }
}

/// Flow control: window management.
/// The data path can modify this.
#[derive(Debug, Clone, Copy, PartialEq, Eq, Structural)]
pub struct FlowControlState {
    /// Last window length sent
    pub remote_last_win: u16,
    /// Current remote window size
    pub remote_win_len: usize,
    /// Local window scaling factor
    pub remote_win_shift: u8,
    /// Remote window scaling
    pub remote_win_scale: Option<u8>,
}

impl FlowControlState {
    pub open spec fn fresh() -> FlowControlState {
        FlowControlState {
            remote_last_win: 0,
            remote_win_len: 0,
            remote_win_shift: 0,
            remote_win_scale: None,
        }
    }
}

impl Default for FlowControlState {
    fn default() -> (r: FlowControlState)
        ensures
            r == FlowControlState::fresh(),
    {
        FlowControlState {
            remote_last_win: 0,
            remote_win_len: 0,
            remote_win_shift: 0,
            remote_win_scale: None,
        }
    }
}

/// Congestion control.
#[derive(Debug, Clone, Copy, PartialEq, Eq, Structural)]
pub struct CongestionState {
    pub congestion_controller: AnyController,
    /// Remote max segment size
    pub remote_mss: usize,
    pub nagle: bool,
}

impl CongestionState {
    pub open spec fn fresh() -> CongestionState {
        CongestionState {
            congestion_controller: AnyController::NoControl,
            remote_mss: DEFAULT_MSS,
            nagle: true,
        }
    }
}

impl Default for CongestionState {
    fn default() -> (r: CongestionState)
        ensures
            r == CongestionState::fresh(),
    {
        CongestionState {
            congestion_controller: AnyController::new(),
            remote_mss: DEFAULT_MSS,
            nagle: true,
        }
    }
}

/// The complete TCP state with all components.
#[derive(Debug)]
pub struct TcpState<'a> {
    pub conn_mgmt: ConnectionManagementState,
    pub delivery: ReliableOrderedDeliveryState<'a>,
    pub flow_control: FlowControlState,
    pub congestion: Option<CongestionState>,
}

impl<'a> TcpState<'a> {
    /// The state of a socket that was just made on the two buffers.
    pub open spec fn is_fresh(self, rx_buffer: SocketBuffer<'a>, tx_buffer: SocketBuffer<'a>) -> bool {
        &&& self.conn_mgmt == ConnectionManagementState::fresh(self.conn_mgmt.challenge_ack_timer)
        &&& self.delivery.is_fresh(rx_buffer, tx_buffer)
        &&& self.flow_control == FlowControlState::fresh()
        &&& self.congestion == Some(CongestionState::fresh())
    }

    pub fn new(rx_buffer: SocketBuffer<'a>, tx_buffer: SocketBuffer<'a>) -> (r: TcpState<'a>)
        ensures
            r.is_fresh(rx_buffer, tx_buffer),
            rx_buffer.wf() && tx_buffer.wf() ==> r.delivery.wf(),
    {
        TcpState {
            conn_mgmt: ConnectionManagementState::default(),
            delivery: ReliableOrderedDeliveryState::new(rx_buffer, tx_buffer),
            flow_control: FlowControlState::default(),
            congestion: Some(CongestionState::default()),
        }
    }
}

} // verus!
