pub mod conduct;
pub mod congestion;
pub mod delivery;
pub mod events;
pub mod laws;
pub mod reception;
pub mod rtt;
pub mod state;
pub mod stream;
pub mod timer;

use crate::socket::delivery::DeliveryModel;
use crate::socket::events::{DeliveryEvent, FlowEvent};
use crate::socket::state::{
    ConnectionManagementState, FlowControlState, ReliableOrderedDeliveryState, State, TcpState,
};
use crate::storage::ring_buffer::SocketBuffer;
use crate::time::Instant;
use crate::wire::ip::{IpProtocol, IpRepr, Ipv4Repr, Ipv6Repr};
use crate::wire::seq::TcpSeqNumber;
use crate::wire::tcp::{TcpControl, TcpRepr, TcpSegment};
use vstd::prelude::*;

verus! {

/// What a socket can learn from the interface that it runs on.
#[derive(Debug, Clone, Copy, PartialEq, Eq, Structural)]
pub struct Context {
    /// The time of the poll that is under way.
    pub now: Instant,
}

/// What becomes of the acknowledgement in a segment.
pub enum AckVerdict {
    /// It is taken in, and with it the window that the segment announces.
    Accept,
    /// It is passed over in silence.
    Ignore,
    /// It is answered with a reset.
    Reset,
}

/// A TCP socket.
#[derive(Debug)]
pub struct Socket<'a> {
    /// Organized state components
    pub state: TcpState<'a>,
}

/// The remote window after `events`: the last one decides.
pub open spec fn last_window(window: usize, events: Seq<FlowEvent>) -> usize {
    if events.len() == 0 {
        window
    } else {
        match events.last() {
            FlowEvent::RemoteWindowUpdate { new_window, window_scale: _ } => new_window,
            FlowEvent::RemoteWindowZero {  } => 0,
        }
    }
}

/// The header that goes back to where `ip` came from, with a TCP segment of `payload_len` octets.
pub open spec fn ip_answer(ip: IpRepr, payload_len: usize) -> IpRepr {
    match ip {
        IpRepr::Ipv4(repr) => IpRepr::Ipv4(
            Ipv4Repr {
                src_addr: repr.dst_addr,
                dst_addr: repr.src_addr,
                next_header: IpProtocol::Tcp,
                payload_len,
                hop_limit: 64,
            },
        ),
        IpRepr::Ipv6(repr) => IpRepr::Ipv6(
            Ipv6Repr {
                src_addr: repr.dst_addr,
                dst_addr: repr.src_addr,
                next_header: IpProtocol::Tcp,
                payload_len,
                hop_limit: 64,
            },
        ),
    }
}

/// The segment that goes back to where `segment` came from and says nothing.
pub open spec fn blank_answer(segment: TcpSegment) -> TcpSegment {
    TcpSegment {
        src_port: segment.dst_port,
        dst_port: segment.src_port,
        control: TcpControl::Plain,
        seq_number: TcpSeqNumber(0),
        ack_number: None,
        window_len: 0,
        window_scale: None,
        max_seg_size: None,
        sack_permitted: false,
        sack_ranges: seq![None, None, None],
        timestamp: None,
        payload: Seq::empty(),
    }
}

/// The reset that answers `segment`: it takes its sequence number from the acknowledgement, and
/// acknowledges a SYN that came without one.
pub open spec fn reset_answer(segment: TcpSegment) -> TcpSegment {
    TcpSegment {
        control: TcpControl::Rst,
        seq_number: match segment.ack_number {
            Some(ack) => ack,
            None => TcpSeqNumber(0),
        },
        ack_number: if segment.control is Syn && segment.ack_number is None {
            Some(segment.seq_number.plus(segment.space()))
        } else {
            None
        },
        ..blank_answer(segment)
    }
}

impl<'a> Socket<'a> {
    /// `segment` in `ip` is addressed to this socket: it belongs to the connection if there is
    /// one, and else comes to the endpoint that is listened on.
    pub open spec fn addressed_by(self, ip: IpRepr, segment: TcpSegment) -> bool {
        match self.state.conn_mgmt.tuple {
            Some(tuple) => {
                &&& ip.dst() == tuple.local.addr
                &&& segment.dst_port == tuple.local.port
                &&& ip.src() == tuple.remote.addr
                &&& segment.src_port == tuple.remote.port
            },
            None => {
                let endpoint = self.state.conn_mgmt.listen_endpoint;
                &&& endpoint.addr matches Some(addr) ==> ip.dst() == addr
                &&& segment.dst_port == endpoint.port
                &&& segment.dst_port != 0
            },
        }
    }

    /// The socket takes `segment` in `ip`: it is not closed, is addressed, and when it listens
    /// the segment neither acknowledges nor resets.
    pub open spec fn takes(self, ip: IpRepr, segment: TcpSegment) -> bool {
        &&& !(self.state.conn_mgmt.tcp_state is Closed)
        &&& self.state.conn_mgmt.tcp_state is Listen ==> segment.ack_number is None
            && !(segment.control is Rst)
        &&& self.addressed_by(ip, segment)
    }

    /// The sequence space of the SYN or FIN that was sent and is not acknowledged.
    pub open spec fn control_in_flight(self) -> int {
        match self.state.conn_mgmt.tcp_state {
            State::SynSent | State::SynReceived => 1,
            State::FinWait1 | State::LastAck | State::Closing => 1,
            _ => 0,
        }
    }

    /// The sequence space that was sent and is not acknowledged.
    pub open spec fn in_flight(self) -> int {
        self.state.delivery.tx_buffer@.data.len() + self.control_in_flight()
    }

    /// What becomes of the acknowledgement in `segment`.
    pub open spec fn verdict(self, segment: TcpSegment) -> AckVerdict {
        let state = self.state.conn_mgmt.tcp_state;
        let syn_acked = self.state.delivery.local_seq_no.plus(1);
        if segment.control is Rst {
            // In SYN-SENT a reset must acknowledge the SYN.
            if state is SynSent && segment.ack_number != Some(syn_acked) {
                AckVerdict::Ignore
            } else {
                AckVerdict::Accept
            }
        } else if state is Listen {
            AckVerdict::Accept
        } else {
            match segment.ack_number {
                // Only a simultaneous open comes without an acknowledgement.
                None => if state is SynSent && segment.control is Syn {
                    AckVerdict::Accept
                } else {
                    AckVerdict::Ignore
                },
                Some(ack) => match state {
                    State::SynSent => match segment.control {
                        TcpControl::Syn => if ack == syn_acked {
                            AckVerdict::Accept
                        } else {
                            AckVerdict::Reset
                        },
                        TcpControl::Plain => if ack == syn_acked {
                            AckVerdict::Ignore
                        } else {
                            AckVerdict::Reset
                        },
                        _ => AckVerdict::Ignore,
                    },
                    State::SynReceived => if ack == syn_acked {
                        AckVerdict::Accept
                    } else {
                        AckVerdict::Reset
                    },
                    // What is acknowledged must be in flight.
                    _ => if 0 <= ack.ahead_of(self.state.delivery.local_seq_no)
                        <= self.in_flight() {
                        AckVerdict::Accept
                    } else {
                        AckVerdict::Ignore
                    },
                },
            }
        }
    }

    /// The scale that applies to the window that `segment` announces.
    pub open spec fn scale(self, segment: TcpSegment) -> u8 {
        if segment.control is Syn {
            0
        } else {
            match self.state.flow_control.remote_win_scale {
                Some(scale) => scale,
                None => 0,
            }
        }
    }

    /// The remote window that `segment` announces.
    pub open spec fn announced(self, segment: TcpSegment) -> usize {
        (segment.window_len as usize) << (self.scale(segment) as usize)
    }

    /// The acknowledgement of `segment` can be judged: a listening socket gets none, what is in
    /// flight is within the sequence space, and the window scale within the machine word.
    pub open spec fn admits_ack(self, segment: TcpSegment) -> bool {
        &&& !(segment.control is Rst) ==> match self.state.conn_mgmt.tcp_state {
            State::Listen => segment.ack_number is None,
            State::SynSent | State::SynReceived => true,
            _ => segment.ack_number is Some ==> self.in_flight() <= i32::MAX,
        }
        &&& self.verdict(segment) is Accept ==> self.scale(segment) < usize::BITS
    }

    /// The acknowledgement in `segment` is answered with a reset.
    pub open spec fn resets(self, segment: TcpSegment) -> bool {
        segment.ack_number is Some && self.verdict(segment) is Reset
    }

    /// Flow control after the acknowledgement in `segment` was judged.
    pub open spec fn flow_after(self, segment: TcpSegment) -> FlowControlState {
        if self.verdict(segment) is Accept {
            FlowControlState {
                remote_win_len: self.announced(segment),
                ..self.state.flow_control
            }
        } else {
            self.state.flow_control
        }
    }

    /// Flow control after `segment` in `ip` was processed: only an acknowledgement changes it.
    pub open spec fn flow_after_segment(self, ip: IpRepr, segment: TcpSegment) -> FlowControlState {
        if self.takes(ip, segment) && segment.ack_number is Some {
            self.flow_after(segment)
        } else {
            self.state.flow_control
        }
    }

    /// The data of `segment` in `ip` is taken in.
    pub open spec fn takes_data(self, ip: IpRepr, segment: TcpSegment) -> bool {
        self.takes(ip, segment) && !self.resets(segment) && segment.payload.len() > 0
    }

    /// The receiving side after `segment` in `ip` was processed.
    pub open spec fn delivery_after(self, ip: IpRepr, segment: TcpSegment) -> DeliveryModel {
        if self.takes_data(ip, segment) {
            self.state.delivery.model().segment(segment.seq_number, segment.payload)
        } else {
            self.state.delivery.model()
        }
    }

    /// `segment` in `ip` can be processed.
    pub open spec fn admits(self, ip: IpRepr, segment: TcpSegment) -> bool {
        &&& self.takes(ip, segment) && segment.ack_number is Some ==> self.admits_ack(segment)
        &&& self.takes_data(ip, segment) ==> self.state.delivery.model().admits_segment(
            segment.seq_number,
            segment.payload,
        )
    }

    pub fn new(rx_buffer: SocketBuffer<'a>, tx_buffer: SocketBuffer<'a>) -> (r: Socket<'a>)
        ensures
            r.state.is_fresh(rx_buffer, tx_buffer),
            rx_buffer.wf() && tx_buffer.wf() ==> r.state.delivery.wf(),
    {
        Socket { state: TcpState::new(rx_buffer, tx_buffer) }
    }

    /// Takes in what arrived from the remote end.
    pub fn process_rx_rod_events(
        rod_state: &mut ReliableOrderedDeliveryState,
        events: Vec<DeliveryEvent>,
    )
        requires
            old(rod_state).wf(),
            old(rod_state).model().admits_all(events@),
        ensures
            final(rod_state).wf(),
            final(rod_state).model() == old(rod_state).model().after_all(events@),
            final(rod_state).same_but_received(*old(rod_state)),
            (forall|j: int|
                0 <= j < events@.len() ==> old(rod_state).model().ignores(#[trigger] events@[j]))
                ==> *final(rod_state) == *old(rod_state),
    {
        let ghost start = rod_state.model();
        let mut i: usize = 0;
        assert(events@.skip(0) =~= events@);
        while i < events.len()
            invariant
                i <= events@.len(),
                rod_state.wf(),
                rod_state.model().admits_all(events@.skip(i as int)),
                rod_state.model().after_all(events@.skip(i as int)) == start.after_all(events@),
                rod_state.same_but_received(*old(rod_state)),
                start == old(rod_state).model(),
                (forall|j: int| 0 <= j < events@.len() ==> start.ignores(#[trigger] events@[j]))
                    ==> *rod_state == *old(rod_state),
            decreases events@.len() - i,
        {
            let ghost before = rod_state.model();
            assert(events@.skip(i as int)[0] == events@[i as int]);
            assert(events@.skip(i as int).drop_first() =~= events@.skip(i + 1));
            match &events[i] {
                DeliveryEvent::InOrderData { seq: _, data } => {
                    let contig_len: usize = match rod_state.assembler.add_then_remove_front(
                        0,
                        data.len(),
                    ) {
                        Ok(len) => len,
                        Err(_) => {
                            return;
                        },
                    };
                    rod_state.rx_buffer.write_unallocated(0, data.as_slice());
                    if contig_len > 0 {
                        rod_state.rx_buffer.enqueue_unallocated(contig_len);
                        rod_state.remote_seq_no = rod_state.remote_seq_no + contig_len;
                    }
                    assert(rod_state.model() =~= before.in_order(data@));
                },
                DeliveryEvent::OutOfOrderData { seq, data } => {
                    let offset: usize = *seq - rod_state.remote_seq_no;
                    if rod_state.assembler.add(offset, data.len()).is_ok() {
                        rod_state.rx_buffer.write_unallocated(offset, data.as_slice());
                    }
                    assert(rod_state.model() =~= before.out_of_order(*seq, data@));
                },
                DeliveryEvent::DataAcknowledged { .. } => {},
            }
            i = i + 1;
        }
        assert(events@.skip(i as int) =~= Seq::empty());
    }

    /// Takes in changes of the remote window.
    pub fn process_rx_flow_events(flow_state: &mut FlowControlState, events: Vec<FlowEvent>)
        ensures
            *final(flow_state) == (FlowControlState {
                remote_win_len: last_window(old(flow_state).remote_win_len, events@),
                ..*old(flow_state)
            }),
    {
        let mut i: usize = 0;
        while i < events.len()
            invariant
                i <= events@.len(),
                *flow_state == (FlowControlState {
                    remote_win_len: last_window(
                        old(flow_state).remote_win_len,
                        events@.take(i as int),
                    ),
                    ..*old(flow_state)
                }),
            decreases events@.len() - i,
        {
            match events[i] {
                FlowEvent::RemoteWindowUpdate { new_window, window_scale: _ } => {
                    flow_state.remote_win_len = new_window;
                },
                FlowEvent::RemoteWindowZero {  } => {
                    flow_state.remote_win_len = 0;
                },
            }
            assert(events@.take(i + 1).last() == events@[i as int]);
            i = i + 1;
        }
        assert(events@.take(i as int) =~= events@);
    }

    /// Whether the socket takes this segment.
    pub fn accepts(&self, _cx: &mut Context, ip_repr: &IpRepr, repr: &TcpRepr) -> (r: bool)
        ensures
            r == self.takes(*ip_repr, repr@),
            *final(_cx) == *old(_cx),
    {
        if self.state.conn_mgmt.tcp_state == State::Closed {
            return false;
        }
        if self.state.conn_mgmt.tcp_state == State::Listen && (repr.ack_number.is_some()
            || repr.control == TcpControl::Rst) {
            return false;
        }
        if let Some(tuple) = &self.state.conn_mgmt.tuple {
            ip_repr.dst_addr() == tuple.local.addr && repr.dst_port == tuple.local.port
                && ip_repr.src_addr() == tuple.remote.addr && repr.src_port == tuple.remote.port
        } else {
            let addr_ok: bool = match self.state.conn_mgmt.listen_endpoint.addr {
                Some(addr) => ip_repr.dst_addr() == addr,
                None => true,
            };
            addr_ok && repr.dst_port != 0 && repr.dst_port
                == self.state.conn_mgmt.listen_endpoint.port
        }
    }

    /// Judges the acknowledgement in a segment: rejects an unacceptable one, possibly with a
    /// reset, and takes the announced window from an acceptable one.
    #[verifier::rlimit(40)]
    #[verifier::spinoff_prover]
    pub fn process_ack(&mut self, repr: &TcpRepr, ip_repr: &IpRepr) -> (r: Option<
        (IpRepr, TcpRepr<'static>),
    >)
        requires
            old(self).state.delivery.wf(),
            old(self).admits_ack(repr@),
        ensures
            r is Some <==> old(self).resets(repr@),
            r matches Some(reply) ==> reply.0 == ip_answer(*ip_repr, 20) && reply.1@
                == reset_answer(repr@),
            final(self).state == (TcpState {
                flow_control: old(self).flow_after(repr@),
                ..old(self).state
            }),
    {
        let mut fc_events: Vec<FlowEvent> = Vec::new();

        // Consider how much the sequence number space differs from the transmit buffer space.
        let (sent_syn, sent_fin) = match self.state.conn_mgmt.tcp_state {
            // In SYN-SENT or SYN-RECEIVED, we've just sent a SYN.
            State::SynSent | State::SynReceived => (true, false),
            // In FIN-WAIT-1, LAST-ACK, or CLOSING, we've just sent a FIN.
            State::FinWait1 | State::LastAck | State::Closing => (false, true),
            // In all other states we've already got acknowledgements for
            // all of the control flags we sent.
            _ => (false, false),
        };
        let control_len: usize = if sent_syn || sent_fin {
            1
        } else {
            0
        };

        // Reject unacceptable acknowledgements.
        match (self.state.conn_mgmt.tcp_state, repr.control, repr.ack_number) {
            // An RST received in response to initial SYN is acceptable if it acknowledges
            // the initial SYN.
            (State::SynSent, TcpControl::Rst, None) => {
                return None;
            },
            (State::SynSent, TcpControl::Rst, Some(ack_number)) => {
                if ack_number != self.state.delivery.local_seq_no + 1 {
                    return None;
                }
            },
            // Any other RST need only have a valid sequence number.
            (_, TcpControl::Rst, _) => {},
            // The initial SYN cannot contain an acknowledgement: `accepts()` turns it away.
            (State::Listen, _, _) => {},
            // SYN|ACK in the SYN-SENT state must have the exact ACK number.
            (State::SynSent, TcpControl::Syn, Some(ack_number)) => {
                if ack_number != self.state.delivery.local_seq_no + 1 {
                    return Some(Self::rst_reply(ip_repr, repr));
                }
            },
            // TCP simultaneous open.
            (State::SynSent, TcpControl::Syn, None) => {},
            // ACKs in the SYN-SENT state are invalid.
            (State::SynSent, TcpControl::Plain, Some(ack_number)) => {
                // If the sequence number matches, ignore it instead of sending an RST.
                if ack_number == self.state.delivery.local_seq_no + 1 {
                    return None;
                }
                return Some(Self::rst_reply(ip_repr, repr));
            },
            // Anything else in the SYN-SENT state is invalid.
            (State::SynSent, _, _) => {
                return None;
            },
            // Every packet after the initial SYN must be an acknowledgement.
            (_, _, None) => {
                return None;
            },
            // ACK in the SYN-RECEIVED state must have the exact ACK number, or we RST it.
            (State::SynReceived, _, Some(ack_number)) => {
                if ack_number != self.state.delivery.local_seq_no + 1 {
                    return Some(Self::rst_reply(ip_repr, repr));
                }
            },
            // Every acknowledgement must be for transmitted but unacknowledged data.
            (_, _, Some(ack_number)) => {
                let unacknowledged: usize = self.state.delivery.tx_buffer.len() + control_len;

                // Acceptable ACK range (both inclusive)
                let ack_min: TcpSeqNumber = self.state.delivery.local_seq_no;
                let ack_max: TcpSeqNumber = self.state.delivery.local_seq_no + unacknowledged;

                if ack_number < ack_min {
                    return None;
                }
                if ack_number > ack_max {
                    return None;
                }
            },
        }

        let scale: u8 = match repr.control {
            TcpControl::Syn => 0,
            _ => match self.state.flow_control.remote_win_scale {
                Some(scale) => scale,
                None => 0,
            },
        };
        let new_remote_win_len: usize = (repr.window_len as usize) << (scale as usize);
        let old_remote_win_len: usize = self.state.flow_control.remote_win_len;

        // Generate flow control events based on window changes
        if new_remote_win_len != old_remote_win_len {
            if new_remote_win_len == 0 {
                fc_events.push(FlowEvent::RemoteWindowZero {  });
            } else {
                fc_events.push(
                    FlowEvent::RemoteWindowUpdate {
                        new_window: new_remote_win_len,
                        window_scale: scale,
                    },
                );
            }
        }
        Self::process_rx_flow_events(&mut self.state.flow_control, fc_events);
        None
    }

    /// Takes in the data of a segment.
    pub fn process_data(&mut self, repr: &TcpRepr)
        requires
            old(self).state.delivery.wf(),
            old(self).state.delivery.model().admits_segment(repr@.seq_number, repr@.payload),
        ensures
            final(self).state.delivery.wf(),
            final(self).state.delivery.model() == old(self).state.delivery.model().segment(
                repr@.seq_number,
                repr@.payload,
            ),
            final(self).state.delivery.same_but_received(old(self).state.delivery),
            old(self).state.delivery.model().passes_over(repr@.seq_number, repr@.payload)
                ==> *final(self) == *old(self),
            final(self).state == (TcpState {
                delivery: final(self).state.delivery,
                ..old(self).state
            }),
    {
        let mut rod_events: Vec<DeliveryEvent> = Vec::new();
        let data: Vec<u8> = vstd::slice::slice_to_vec(repr.payload);
        if repr.seq_number == self.state.delivery.remote_seq_no {
            rod_events.push(DeliveryEvent::InOrderData { seq: repr.seq_number, data });
        } else {
            rod_events.push(DeliveryEvent::OutOfOrderData { seq: repr.seq_number, data });
        }
        proof {
            reveal_with_fuel(DeliveryModel::after_all, 2);
            reveal_with_fuel(DeliveryModel::admits_all, 2);
        }
        Self::process_rx_rod_events(&mut self.state.delivery, rod_events);
    }

    /// Main packet processing with component-specific event handling.
    ///
    /// A segment that the socket does not take changes nothing. Of one that it takes the
    /// acknowledgement is judged first; unless that is answered with a reset, the data is
    /// taken in then. Connection management and congestion control are left alone.
    pub fn process(&mut self, cx: &mut Context, ip_repr: &IpRepr, repr: &TcpRepr) -> (r: Option<
        (IpRepr, TcpRepr<'static>),
    >)
        requires
            old(self).state.delivery.wf(),
            old(self).admits(*ip_repr, repr@),
        ensures
            final(self).state.delivery.wf(),
            *final(cx) == *old(cx),
            r is Some <==> old(self).takes(*ip_repr, repr@) && old(self).resets(repr@),
            r matches Some(reply) ==> reply.0 == ip_answer(*ip_repr, 20) && reply.1@
                == reset_answer(repr@),
            final(self).state.conn_mgmt == old(self).state.conn_mgmt,
            final(self).state.congestion == old(self).state.congestion,
            final(self).state.flow_control == old(self).flow_after_segment(*ip_repr, repr@),
            final(self).state.delivery.model() == old(self).delivery_after(*ip_repr, repr@),
            final(self).state.delivery.same_but_received(old(self).state.delivery),
            r is Some || !old(self).takes(*ip_repr, repr@) ==> *final(self) == *old(self),
            !old(self).takes_data(*ip_repr, repr@) ==> final(self).state.delivery == old(
                self,
            ).state.delivery,
            old(self).state.delivery.model().passes_over(repr@.seq_number, repr@.payload)
                ==> final(self).state.delivery == old(self).state.delivery,
    {
        if !self.accepts(cx, ip_repr, repr) {
            return None;
        }
        if repr.ack_number.is_some() {
            if let Some(reply) = self.process_ack(repr, ip_repr) {
                return Some(reply);
            }
        }
        if !repr.payload.is_empty() {
            self.process_data(repr);
        }
        None
    }

    /// An empty segment that goes back to where this one came from.
    pub fn reply(ip_repr: &IpRepr, repr: &TcpRepr) -> (r: (IpRepr, TcpRepr<'static>))
        ensures
            r.0 == ip_answer(*ip_repr, 20),
            r.1@ == blank_answer(repr@),
    {
        let reply_repr = TcpRepr {
            src_port: repr.dst_port,
            dst_port: repr.src_port,
            control: TcpControl::Plain,
            seq_number: TcpSeqNumber(0),
            ack_number: None,
            window_len: 0,
            window_scale: None,
            max_seg_size: None,
            sack_permitted: false,
            sack_ranges: [None, None, None],
            timestamp: None,
            payload: &[],
        };
        assert(reply_repr@ =~= blank_answer(repr@));
        let ip_reply_repr = IpRepr::new(
            ip_repr.dst_addr(),
            ip_repr.src_addr(),
            IpProtocol::Tcp,
            reply_repr.buffer_len(),
            64,
        );
        (ip_reply_repr, reply_repr)
    }

    /// The reset that answers a segment.
    pub fn rst_reply(ip_repr: &IpRepr, repr: &TcpRepr) -> (r: (IpRepr, TcpRepr<'static>))
        requires
            repr@.control is Syn && repr@.ack_number is None ==> repr@.space() <= i32::MAX,
        ensures
            r.0 == ip_answer(*ip_repr, 20),
            r.1@ == reset_answer(repr@),
    {
        let (ip_reply_repr, mut reply_repr) = Self::reply(ip_repr, repr);
        reply_repr.control = TcpControl::Rst;
        reply_repr.seq_number = match repr.ack_number {
            Some(ack_number) => ack_number,
            None => TcpSeqNumber::default(),
        };
        if repr.control == TcpControl::Syn && repr.ack_number.is_none() {
            reply_repr.ack_number = Some(repr.seq_number + repr.segment_len());
        }
        (ip_reply_repr, reply_repr)
    }

    /// An acknowledgement that goes back to where a segment came from.
    pub fn create_ack_packet(
        &self,
        ip_repr: &IpRepr,
        tcp_repr: &TcpRepr,
        seq: TcpSeqNumber,
        ack: TcpSeqNumber,
        window: u16,
    ) -> (r: (IpRepr, TcpRepr<'static>))
        ensures
            r.0 == ip_answer(*ip_repr, 20),
            r.1@ == (TcpSegment {
                seq_number: seq,
                ack_number: Some(ack),
                window_len: window,
                ..blank_answer(tcp_repr@)
            }),
    {
        let ack_repr = TcpRepr {
            src_port: tcp_repr.dst_port,
            dst_port: tcp_repr.src_port,
            control: TcpControl::Plain,
            seq_number: seq,
            ack_number: Some(ack),
            window_len: window,
            window_scale: None,
            max_seg_size: None,
            sack_permitted: false,
            sack_ranges: [None, None, None],
            timestamp: None,
            payload: &[],
        };
        let response_ip = self.swap_ip_addresses(ip_repr, ack_repr.buffer_len());
        (response_ip, ack_repr)
    }

    /// The header that goes back to where this one came from.
    pub fn swap_ip_addresses(&self, ip_repr: &IpRepr, payload_len: usize) -> (r: IpRepr)
        ensures
            r == ip_answer(*ip_repr, payload_len),
    {
        match ip_repr {
            IpRepr::Ipv4(ipv4_repr) => IpRepr::Ipv4(
                Ipv4Repr {
                    src_addr: ipv4_repr.dst_addr,
                    dst_addr: ipv4_repr.src_addr,
                    next_header: IpProtocol::Tcp,
                    payload_len,
                    hop_limit: 64,
                },
            ),
            IpRepr::Ipv6(ipv6_repr) => IpRepr::Ipv6(
                Ipv6Repr {
                    src_addr: ipv6_repr.dst_addr,
                    dst_addr: ipv6_repr.src_addr,
                    next_header: IpProtocol::Tcp,
                    payload_len,
                    hop_limit: 64,
                },
            ),
        }
    }

    pub fn set_sequence_numbers(&mut self, remote_seq_no: u32, local_seq_no: u32)
        requires
            remote_seq_no <= i32::MAX,
            local_seq_no <= i32::MAX,
        ensures
            final(self).state == (TcpState {
                delivery: ReliableOrderedDeliveryState {
                    remote_seq_no: TcpSeqNumber(remote_seq_no as i32),
                    local_seq_no: TcpSeqNumber(local_seq_no as i32),
                    ..old(self).state.delivery
                },
                ..old(self).state
            }),
    {
        self.state.delivery.remote_seq_no = TcpSeqNumber(remote_seq_no as i32);
        self.state.delivery.local_seq_no = TcpSeqNumber(local_seq_no as i32);
    }

    pub fn set_state(&mut self, state: State)
        ensures
            final(self).state == (TcpState {
                conn_mgmt: ConnectionManagementState {
                    tcp_state: state,
                    ..old(self).state.conn_mgmt
                },
                ..old(self).state
            }),
    {
        self.state.conn_mgmt.tcp_state = state;
    }
}

} // verus!
