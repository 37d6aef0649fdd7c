use crate::socket::events::FlowEvent;
use crate::socket::rtt::RttEstimator;
use crate::socket::state::{
    CongestionState, ConnectionManagementState, FlowControlState, State, Tuple,
};
use crate::socket::timer::Timer;
use crate::socket::{Context, Socket};
use crate::storage::ring_buffer::SocketBuffer;
use crate::time::Instant;
use crate::wire::ip::{IpAddress, IpListenEndpoint, IpRepr};
use crate::wire::seq::{distance_undoes_addition, TcpSeqNumber};
use crate::wire::tcp::TcpRepr;
use vstd::arithmetic::power2::pow2;
use vstd::prelude::*;

verus! {

// Laws on calls of a socket's functions: what goes in, and what comes out.

/// The address that a packet comes from.
pub open spec fn sender(ip: IpRepr) -> IpAddress {
    match ip {
        IpRepr::Ipv4(repr) => IpAddress::Ipv4(repr.src_addr),
        IpRepr::Ipv6(repr) => IpAddress::Ipv6(repr.src_addr),
    }
}

/// The address that a packet goes to.
pub open spec fn receiver(ip: IpRepr) -> IpAddress {
    match ip {
        IpRepr::Ipv4(repr) => IpAddress::Ipv4(repr.dst_addr),
        IpRepr::Ipv6(repr) => IpAddress::Ipv6(repr.dst_addr),
    }
}

/// A segment goes from the remote end of a connection to the local one.
pub open spec fn of_connection(tuple: Tuple, ip: IpRepr, repr: TcpRepr) -> bool {
    &&& sender(ip) == tuple.remote.addr
    &&& repr.src_port == tuple.remote.port
    &&& receiver(ip) == tuple.local.addr
    &&& repr.dst_port == tuple.local.port
}

/// A closed socket accepts nothing.
pub proof fn closed_socket_accepts_nothing(
    socket: &Socket,
    cx: &mut Context,
    ip: &IpRepr,
    repr: &TcpRepr,
    r: bool,
)
    requires
        call_ensures(Socket::accepts, (socket, cx, ip, repr), r),
        socket.state.conn_mgmt.tcp_state is Closed,
    ensures
        !r,
{
}

/// A connected socket accepts every segment whose addresses and ports are those of its
/// connection, whatever its control flag, its numbers and its payload, and no other.
pub proof fn connected_socket_accepts_its_connection(
    socket: &Socket,
    tuple: Tuple,
    cx: &mut Context,
    ip: &IpRepr,
    repr: &TcpRepr,
    r: bool,
)
    requires
        call_ensures(Socket::accepts, (socket, cx, ip, repr), r),
        socket.state.conn_mgmt.tuple == Some(tuple),
        !(socket.state.conn_mgmt.tcp_state is Closed),
        !(socket.state.conn_mgmt.tcp_state is Listen),
    ensures
        r <==> of_connection(tuple, *ip, *repr),
{
}

/// A listening socket that has a connection accepts the segments of it, unless they acknowledge
/// or reset.
pub proof fn listening_socket_accepts_its_connection(
    socket: &Socket,
    tuple: Tuple,
    cx: &mut Context,
    ip: &IpRepr,
    repr: &TcpRepr,
    r: bool,
)
    requires
        call_ensures(Socket::accepts, (socket, cx, ip, repr), r),
        socket.state.conn_mgmt.tuple == Some(tuple),
        socket.state.conn_mgmt.tcp_state is Listen,
    ensures
        r <==> of_connection(tuple, *ip, *repr) && repr.ack_number is None && !(
        repr.control is Rst),
{
}

/// A socket without a connection accepts every segment to its port, on its address if it has
/// one, from whomever it comes, and no other; port 0 stands for no port. If it listens, the
/// segment must neither acknowledge nor reset.
pub proof fn unconnected_socket_accepts_its_endpoint(
    socket: &Socket,
    cx: &mut Context,
    ip: &IpRepr,
    repr: &TcpRepr,
    r: bool,
)
    requires
        call_ensures(Socket::accepts, (socket, cx, ip, repr), r),
        socket.state.conn_mgmt.tuple is None,
        !(socket.state.conn_mgmt.tcp_state is Closed),
    ensures
        r <==> {
            &&& repr.dst_port != 0
            &&& repr.dst_port == socket.state.conn_mgmt.listen_endpoint.port
            &&& socket.state.conn_mgmt.listen_endpoint.addr is None
                || socket.state.conn_mgmt.listen_endpoint.addr == Some(receiver(*ip))
            &&& socket.state.conn_mgmt.tcp_state is Listen ==> repr.ack_number is None && !(
            repr.control is Rst)
        },
{
}

/// The scale of the window that `repr` announces: none for a SYN, else the one agreed upon.
pub open spec fn agreed_scale(flow: FlowControlState, repr: TcpRepr) -> nat {
    if repr.control is Syn || flow.remote_win_scale is None {
        0
    } else {
        flow.remote_win_scale->0 as nat
    }
}

/// The remote window is now the one that `repr` announces, times two to the power of the scale,
/// whatever it was before; bits beyond the machine word are lost. Nothing else of flow control
/// has changed.
pub open spec fn window_taken(
    before: FlowControlState,
    after: FlowControlState,
    repr: TcpRepr,
) -> bool {
    let scale = agreed_scale(before, repr);
    &&& scale < usize::BITS && repr.window_len * pow2(scale) <= usize::MAX ==> after.remote_win_len
        == repr.window_len * pow2(scale)
    &&& scale <= 14 ==> after.remote_win_len == repr.window_len * pow2(scale)
    &&& scale == 0 ==> after.remote_win_len == repr.window_len
    &&& after.remote_win_len == (repr.window_len as usize) << (scale as usize)
    &&& after.remote_last_win == before.remote_last_win
    &&& after.remote_win_shift == before.remote_win_shift
    &&& after.remote_win_scale == before.remote_win_scale
}

proof fn lemma_shifted_window(window: u16, scale: nat)
    ensures
        scale <= 14 ==> scale < usize::BITS && window * pow2(scale) <= usize::MAX,
        scale < usize::BITS && window * pow2(scale) <= usize::MAX ==> (window as usize) << (
        scale as usize) == window * pow2(scale),
        window * pow2(0) == window,
{
    vstd::arithmetic::power2::lemma2_to64();
    if scale <= 14 {
        vstd::arithmetic::power2::lemma_pow2_strictly_increases(scale, 15);
        assert(window * pow2(scale) <= 0xffff * 0x8000) by (nonlinear_arith)
            requires
                window <= 0xffff,
                pow2(scale) <= 0x8000,
        ;
    }
    if scale < usize::BITS && window * pow2(scale) <= usize::MAX {
        vstd::bits::lemma_usize_shl_is_mul(window as usize, scale as usize);
    }
}

/// The acknowledgement was accepted: nothing answers it, and its window was taken.
pub open spec fn ack_accepted(
    before: Socket,
    after: Socket,
    repr: TcpRepr,
    r: Option<(IpRepr, TcpRepr<'static>)>,
) -> bool {
    &&& r is None
    &&& window_taken(before.state.flow_control, after.state.flow_control, repr)
    &&& after.state.conn_mgmt == before.state.conn_mgmt
    &&& after.state.delivery == before.state.delivery
    &&& after.state.congestion == before.state.congestion
}

/// The acknowledgement was passed over: nothing answers it, and nothing changed.
pub open spec fn ack_ignored(
    before: Socket,
    after: Socket,
    r: Option<(IpRepr, TcpRepr<'static>)>,
) -> bool {
    r is None && after == before
}

/// The header leads back to the sender of `ip`, with a TCP segment of `len` octets.
pub open spec fn leads_back(ip: IpRepr, reply: IpRepr, len: usize) -> bool {
    match (ip, reply) {
        (IpRepr::Ipv4(ip), IpRepr::Ipv4(reply)) => {
            &&& reply.src_addr == ip.dst_addr
            &&& reply.dst_addr == ip.src_addr
            &&& reply.next_header is Tcp
            &&& reply.payload_len == len
            &&& reply.hop_limit == 64
        },
        (IpRepr::Ipv6(ip), IpRepr::Ipv6(reply)) => {
            &&& reply.src_addr == ip.dst_addr
            &&& reply.dst_addr == ip.src_addr
            &&& reply.next_header is Tcp
            &&& reply.payload_len == len
            &&& reply.hop_limit == 64
        },
        _ => false,
    }
}

/// The segment leads back to the sender of `repr`, with neither options nor payload.
pub open spec fn bare_reply(repr: TcpRepr, reply: TcpRepr) -> bool {
    &&& reply.src_port == repr.dst_port
    &&& reply.dst_port == repr.src_port
    &&& reply.window_scale is None
    &&& reply.max_seg_size is None
    &&& !reply.sack_permitted
    &&& reply.sack_ranges@[0] is None
    &&& reply.sack_ranges@[1] is None
    &&& reply.sack_ranges@[2] is None
    &&& reply.timestamp is None
    &&& reply.payload@.len() == 0
}

/// The acknowledgement was answered with a reset that carries the acknowledged number, and
/// nothing changed.
pub open spec fn ack_reset(
    before: Socket,
    after: Socket,
    ip: IpRepr,
    repr: TcpRepr,
    r: Option<(IpRepr, TcpRepr<'static>)>,
) -> bool {
    &&& after == before
    &&& r matches Some(reply) && {
        &&& leads_back(ip, reply.0, 20)
        &&& bare_reply(repr, reply.1)
        &&& reply.1.control is Rst
        &&& repr.ack_number == Some(reply.1.seq_number)
        &&& reply.1.ack_number is None
        &&& reply.1.window_len == 0
    }
}

/// A FIN was sent and is not acknowledged yet.
pub open spec fn fin_in_flight(state: State) -> bool {
    state is FinWait1 || state is LastAck || state is Closing
}

/// Past the handshake, an acknowledgement of anything in flight is accepted, in every state: of
/// `local_seq_no` and of each octet behind it up to the last one in the transmit buffer, and of
/// the FIN that follows them if one was sent.
pub proof fn acknowledgement_in_flight_is_accepted(
    socket: &mut Socket,
    repr: &TcpRepr,
    ip: &IpRepr,
    r: Option<(IpRepr, TcpRepr<'static>)>,
    n: int,
)
    requires
        call_ensures(Socket::process_ack, (socket, repr, ip), r),
        !(old(socket).state.conn_mgmt.tcp_state is Listen),
        !(old(socket).state.conn_mgmt.tcp_state is SynSent),
        !(old(socket).state.conn_mgmt.tcp_state is SynReceived),
        !(repr.control is Rst),
        repr.ack_number == Some(old(socket).state.delivery.local_seq_no.plus(n)),
        0 <= n <= i32::MAX,
        n <= old(socket).state.delivery.tx_buffer@.data.len() || fin_in_flight(
            old(socket).state.conn_mgmt.tcp_state,
        ) && n <= old(socket).state.delivery.tx_buffer@.data.len() + 1,
    ensures
        ack_accepted(*old(socket), *final(socket), *repr, r),
{
    distance_undoes_addition(old(socket).state.delivery.local_seq_no, n);
    lemma_shifted_window(repr.window_len, agreed_scale(old(socket).state.flow_control, *repr));
}

/// Past the handshake, an acknowledgement of anything that is not in flight is ignored: of what
/// was acknowledged before, and of what was not sent.
pub proof fn acknowledgement_out_of_flight_is_ignored(
    socket: &mut Socket,
    repr: &TcpRepr,
    ip: &IpRepr,
    r: Option<(IpRepr, TcpRepr<'static>)>,
    n: int,
)
    requires
        call_ensures(Socket::process_ack, (socket, repr, ip), r),
        !(old(socket).state.conn_mgmt.tcp_state is Listen),
        !(old(socket).state.conn_mgmt.tcp_state is SynSent),
        !(old(socket).state.conn_mgmt.tcp_state is SynReceived),
        !(repr.control is Rst),
        repr.ack_number == Some(old(socket).state.delivery.local_seq_no.plus(n)),
        i32::MIN <= n <= i32::MAX,
        n < 0 || n > old(socket).state.delivery.tx_buffer@.data.len() + 1 || n > old(
            socket,
        ).state.delivery.tx_buffer@.data.len() && !fin_in_flight(
            old(socket).state.conn_mgmt.tcp_state,
        ),
    ensures
        ack_ignored(*old(socket), *final(socket), r),
{
    let local = old(socket).state.delivery.local_seq_no;
    assert(local.plus(n).ahead_of(local) == n);
}

/// Past LISTEN, a segment without an acknowledgement is ignored, unless it resets or opens the
/// connection from both ends at once.
pub proof fn missing_acknowledgement_is_ignored(
    socket: &mut Socket,
    repr: &TcpRepr,
    ip: &IpRepr,
    r: Option<(IpRepr, TcpRepr<'static>)>,
)
    requires
        call_ensures(Socket::process_ack, (socket, repr, ip), r),
        !(old(socket).state.conn_mgmt.tcp_state is Listen),
        repr.ack_number is None,
        !(repr.control is Rst),
        !(old(socket).state.conn_mgmt.tcp_state is SynSent && repr.control is Syn),
    ensures
        ack_ignored(*old(socket), *final(socket), r),
{
}

/// A SYN without an acknowledgement in SYN-SENT opens the connection from both ends at once, and
/// is accepted.
pub proof fn simultaneous_open_is_accepted(
    socket: &mut Socket,
    repr: &TcpRepr,
    ip: &IpRepr,
    r: Option<(IpRepr, TcpRepr<'static>)>,
)
    requires
        call_ensures(Socket::process_ack, (socket, repr, ip), r),
        old(socket).state.conn_mgmt.tcp_state is SynSent,
        repr.control is Syn,
        repr.ack_number is None,
    ensures
        ack_accepted(*old(socket), *final(socket), *repr, r),
{
    lemma_shifted_window(repr.window_len, agreed_scale(old(socket).state.flow_control, *repr));
}

/// In SYN-RECEIVED exactly the acknowledgement of the SYN is accepted; every other one is
/// answered with a reset.
pub proof fn syn_received_wants_its_syn_acknowledged(
    socket: &mut Socket,
    repr: &TcpRepr,
    ip: &IpRepr,
    r: Option<(IpRepr, TcpRepr<'static>)>,
    ack: TcpSeqNumber,
)
    requires
        call_ensures(Socket::process_ack, (socket, repr, ip), r),
        old(socket).state.conn_mgmt.tcp_state is SynReceived,
        !(repr.control is Rst),
        repr.ack_number == Some(ack),
    ensures
        ack == old(socket).state.delivery.local_seq_no.plus(1) ==> ack_accepted(
            *old(socket),
            *final(socket),
            *repr,
            r,
        ),
        ack != old(socket).state.delivery.local_seq_no.plus(1) ==> ack_reset(
            *old(socket),
            *final(socket),
            *ip,
            *repr,
            r,
        ),
{
    lemma_shifted_window(repr.window_len, agreed_scale(old(socket).state.flow_control, *repr));
}

/// In SYN-SENT a SYN must acknowledge exactly the SYN that was sent: then it is accepted, else
/// answered with a reset. A segment without a control flag is answered with a reset too, unless
/// it acknowledges the SYN: then it is ignored, and so is every PSH and FIN.
pub proof fn syn_sent_wants_its_syn_acknowledged(
    socket: &mut Socket,
    repr: &TcpRepr,
    ip: &IpRepr,
    r: Option<(IpRepr, TcpRepr<'static>)>,
    ack: TcpSeqNumber,
)
    requires
        call_ensures(Socket::process_ack, (socket, repr, ip), r),
        old(socket).state.conn_mgmt.tcp_state is SynSent,
        !(repr.control is Rst),
        repr.ack_number == Some(ack),
    ensures
        repr.control is Syn && ack == old(socket).state.delivery.local_seq_no.plus(1)
            ==> ack_accepted(*old(socket), *final(socket), *repr, r),
        (repr.control is Syn || repr.control is Plain) && ack != old(
            socket,
        ).state.delivery.local_seq_no.plus(1) ==> ack_reset(
            *old(socket),
            *final(socket),
            *ip,
            *repr,
            r,
        ),
        repr.control is Plain && ack == old(socket).state.delivery.local_seq_no.plus(1)
            ==> ack_ignored(*old(socket), *final(socket), r),
        repr.control is Psh || repr.control is Fin ==> ack_ignored(
            *old(socket),
            *final(socket),
            r,
        ),
{
    lemma_shifted_window(repr.window_len, agreed_scale(old(socket).state.flow_control, *repr));
}

/// A reset is accepted whatever it acknowledges, except in SYN-SENT, where it must acknowledge
/// exactly the SYN and is ignored else.
pub proof fn reset_is_accepted(
    socket: &mut Socket,
    repr: &TcpRepr,
    ip: &IpRepr,
    r: Option<(IpRepr, TcpRepr<'static>)>,
)
    requires
        call_ensures(Socket::process_ack, (socket, repr, ip), r),
        repr.control is Rst,
    ensures
        !(old(socket).state.conn_mgmt.tcp_state is SynSent) || repr.ack_number == Some(
            old(socket).state.delivery.local_seq_no.plus(1),
        ) ==> ack_accepted(*old(socket), *final(socket), *repr, r),
        old(socket).state.conn_mgmt.tcp_state is SynSent && repr.ack_number != Some(
            old(socket).state.delivery.local_seq_no.plus(1),
        ) ==> ack_ignored(*old(socket), *final(socket), r),
{
    lemma_shifted_window(repr.window_len, agreed_scale(old(socket).state.flow_control, *repr));
}

/// What a listening socket gets to judge is accepted.
pub proof fn listening_socket_judges_nothing(
    socket: &mut Socket,
    repr: &TcpRepr,
    ip: &IpRepr,
    r: Option<(IpRepr, TcpRepr<'static>)>,
)
    requires
        call_ensures(Socket::process_ack, (socket, repr, ip), r),
        old(socket).state.conn_mgmt.tcp_state is Listen,
    ensures
        ack_accepted(*old(socket), *final(socket), *repr, r),
{
    lemma_shifted_window(repr.window_len, agreed_scale(old(socket).state.flow_control, *repr));
}

/// The remote window after an acknowledgement that was accepted does not depend on the one
/// before, be it larger or smaller: two sockets that differ in nothing else get the same.
pub proof fn window_does_not_depend_on_the_one_before(
    one: &mut Socket,
    other: &mut Socket,
    repr: &TcpRepr,
    ip: &IpRepr,
    r1: Option<(IpRepr, TcpRepr<'static>)>,
    r2: Option<(IpRepr, TcpRepr<'static>)>,
    n: int,
)
    requires
        call_ensures(Socket::process_ack, (one, repr, ip), r1),
        call_ensures(Socket::process_ack, (other, repr, ip), r2),
        old(one).state.conn_mgmt == old(other).state.conn_mgmt,
        old(one).state.delivery == old(other).state.delivery,
        old(one).state.flow_control.remote_win_scale == old(
            other,
        ).state.flow_control.remote_win_scale,
        agreed_scale(old(one).state.flow_control, *repr) <= 14,
        !(old(one).state.conn_mgmt.tcp_state is Listen),
        !(old(one).state.conn_mgmt.tcp_state is SynSent),
        !(old(one).state.conn_mgmt.tcp_state is SynReceived),
        !(repr.control is Rst),
        repr.ack_number == Some(old(one).state.delivery.local_seq_no.plus(n)),
        0 <= n <= i32::MAX,
        n <= old(one).state.delivery.tx_buffer@.data.len(),
    ensures
        final(one).state.flow_control.remote_win_len
            == final(other).state.flow_control.remote_win_len,
{
    distance_undoes_addition(old(one).state.delivery.local_seq_no, n);
}

/// Of changes of the remote window the last one decides; without one the window stays.
pub proof fn last_window_change_decides(flow: &mut FlowControlState, events: Vec<FlowEvent>)
    requires
        call_ensures(Socket::process_rx_flow_events, (flow, events), ()),
    ensures
        events@.len() == 0 ==> *final(flow) == *old(flow),
        events@.len() > 0 ==> match events@[events@.len() - 1] {
            FlowEvent::RemoteWindowUpdate { new_window, window_scale: _ } => {
                final(flow).remote_win_len == new_window
            },
            FlowEvent::RemoteWindowZero {  } => final(flow).remote_win_len == 0,
        },
        final(flow).remote_last_win == old(flow).remote_last_win,
        final(flow).remote_win_shift == old(flow).remote_win_shift,
        final(flow).remote_win_scale == old(flow).remote_win_scale,
{
}

/// A plain answer leads back to the sender and says nothing.
pub proof fn plain_answer_says_nothing(ip: &IpRepr, repr: &TcpRepr, r: (IpRepr, TcpRepr<'static>))
    requires
        call_ensures(Socket::reply, (ip, repr), r),
    ensures
        leads_back(*ip, r.0, 20),
        bare_reply(*repr, r.1),
        r.1.control is Plain,
        r.1.seq_number == TcpSeqNumber(0),
        r.1.ack_number is None,
        r.1.window_len == 0,
{
    assert(r.1@.sack_ranges == r.1.sack_ranges@);
    assert(r.1@.payload == r.1.payload@);
}

/// A reset leads back to the sender. If the segment acknowledges, the reset carries that number
/// and acknowledges nothing; else it carries 0, and acknowledges all of a SYN: its flag and its
/// payload.
pub proof fn reset_answers_the_sender(ip: &IpRepr, repr: &TcpRepr, r: (IpRepr, TcpRepr<'static>))
    requires
        call_ensures(Socket::rst_reply, (ip, repr), r),
    ensures
        leads_back(*ip, r.0, 20),
        bare_reply(*repr, r.1),
        r.1.control is Rst,
        r.1.window_len == 0,
        repr.ack_number matches Some(ack) ==> r.1.seq_number == ack && r.1.ack_number is None,
        repr.ack_number is None ==> r.1.seq_number == TcpSeqNumber(0),
        repr.ack_number is None && repr.control is Syn ==> r.1.ack_number == Some(
            repr.seq_number.plus(repr.payload@.len() as int + 1),
        ),
        repr.ack_number is None && !(repr.control is Syn) ==> r.1.ack_number is None,
{
    assert(r.1@.sack_ranges == r.1.sack_ranges@);
    assert(r.1@.payload == r.1.payload@);
}

/// An acknowledgement leads back to the sender and carries the numbers and the window that it
/// was asked to, whatever socket sends it.
pub proof fn acknowledgement_answers_the_sender(
    socket: &Socket,
    ip: &IpRepr,
    repr: &TcpRepr,
    seq: TcpSeqNumber,
    ack: TcpSeqNumber,
    window: u16,
    r: (IpRepr, TcpRepr<'static>),
)
    requires
        call_ensures(Socket::create_ack_packet, (socket, ip, repr, seq, ack, window), r),
    ensures
        leads_back(*ip, r.0, 20),
        bare_reply(*repr, r.1),
        r.1.control is Plain,
        r.1.seq_number == seq,
        r.1.ack_number == Some(ack),
        r.1.window_len == window,
{
    assert(r.1@.sack_ranges == r.1.sack_ranges@);
    assert(r.1@.payload == r.1.payload@);
}

/// A header with its addresses swapped leads back to the sender, with as many octets as asked.
pub proof fn swapped_header_leads_back(socket: &Socket, ip: &IpRepr, len: usize, r: IpRepr)
    requires
        call_ensures(Socket::swap_ip_addresses, (socket, ip, len), r),
    ensures
        leads_back(*ip, r, len),
{
}

/// Setting the sequence numbers sets these two, each to its own number, and nothing else.
pub proof fn sequence_numbers_are_set(socket: &mut Socket, remote: u32, local: u32)
    requires
        call_ensures(Socket::set_sequence_numbers, (socket, remote, local), ()),
        remote <= i32::MAX,
        local <= i32::MAX,
    ensures
        ({
            let before = old(socket).state.delivery;
            let after = final(socket).state.delivery;
            &&& after.remote_seq_no.0 == remote
            &&& after.local_seq_no.0 == local
            &&& after.rx_buffer == before.rx_buffer
            &&& after.tx_buffer == before.tx_buffer
            &&& after.remote_last_seq == before.remote_last_seq
            &&& after.remote_last_ack == before.remote_last_ack
            &&& after.local_rx_last_seq == before.local_rx_last_seq
            &&& after.local_rx_last_ack == before.local_rx_last_ack
            &&& after.local_rx_dup_acks == before.local_rx_dup_acks
            &&& after.assembler == before.assembler
            &&& after.timer == before.timer
            &&& after.rtte == before.rtte
            &&& after.ack_delay == before.ack_delay
            &&& after.ack_delay_timer == before.ack_delay_timer
        }),
        final(socket).state.conn_mgmt == old(socket).state.conn_mgmt,
        final(socket).state.flow_control == old(socket).state.flow_control,
        final(socket).state.congestion == old(socket).state.congestion,
{
}

/// Setting the state of the connection sets it, and nothing else.
pub proof fn connection_state_is_set(socket: &mut Socket, state: State)
    requires
        call_ensures(Socket::set_state, (socket, state), ()),
    ensures
        ({
            let before = old(socket).state.conn_mgmt;
            let after = final(socket).state.conn_mgmt;
            &&& after.tcp_state == state
            &&& after.listen_endpoint == before.listen_endpoint
            &&& after.tuple == before.tuple
            &&& after.timeout == before.timeout
            &&& after.keep_alive == before.keep_alive
            &&& after.hop_limit == before.hop_limit
            &&& after.rx_fin_received == before.rx_fin_received
            &&& after.challenge_ack_timer == before.challenge_ack_timer
        }),
        final(socket).state.delivery == old(socket).state.delivery,
        final(socket).state.flow_control == old(socket).state.flow_control,
        final(socket).state.congestion == old(socket).state.congestion,
{
}

/// A new socket is established and knows nothing: no endpoint, no option, no sequence number, no
/// window, nothing held and nothing measured. It works on the two buffers that it was made on,
/// with a maximum segment size of 536 octets, delayed acknowledgements of 10 ms, a
/// retransmission timeout of 1 s, and Nagle's algorithm on.
pub proof fn new_socket_knows_nothing<'a>(
    rx_buffer: SocketBuffer<'a>,
    tx_buffer: SocketBuffer<'a>,
    r: Socket<'a>,
)
    requires
        call_ensures(Socket::new, (rx_buffer, tx_buffer), r),
    ensures
        r.state.conn_mgmt.tcp_state is Established,
        r.state.conn_mgmt.listen_endpoint.addr is None,
        r.state.conn_mgmt.listen_endpoint.port == 0,
        r.state.conn_mgmt.tuple is None,
        r.state.conn_mgmt.timeout is None,
        r.state.conn_mgmt.keep_alive is None,
        r.state.conn_mgmt.hop_limit is None,
        !r.state.conn_mgmt.rx_fin_received,
        r.state.delivery.rx_buffer == rx_buffer,
        r.state.delivery.tx_buffer == tx_buffer,
        r.state.delivery.local_seq_no == TcpSeqNumber(0),
        r.state.delivery.remote_seq_no == TcpSeqNumber(0),
        r.state.delivery.remote_last_seq == TcpSeqNumber(0),
        r.state.delivery.remote_last_ack is None,
        r.state.delivery.local_rx_last_seq is None,
        r.state.delivery.local_rx_last_ack is None,
        r.state.delivery.local_rx_dup_acks == 0,
        forall|k: int| !r.state.delivery.assembler@.contains(k),
        r.state.delivery.timer == (Timer::Idle { keep_alive_at: None }),
        !r.state.delivery.rtte.have_measurement,
        r.state.delivery.rtte.srtt == 0,
        r.state.delivery.rtte.rttvar == 0,
        r.state.delivery.rtte.rto == 1000,
        r.state.delivery.rtte.timestamp is None,
        r.state.delivery.rtte.max_seq_sent is None,
        r.state.delivery.rtte.rto_count == 0,
        r.state.delivery.ack_delay matches Some(delay) && delay.micros == 10_000,
        r.state.delivery.ack_delay_timer is Idle,
        r.state.flow_control.remote_last_win == 0,
        r.state.flow_control.remote_win_len == 0,
        r.state.flow_control.remote_win_shift == 0,
        r.state.flow_control.remote_win_scale is None,
        r.state.congestion matches Some(congestion) && congestion.remote_mss == 536
            && congestion.nagle && congestion.congestion_controller is NoControl,
{
}

/// The connection state that is made at a time is established and has nothing in it but that
/// time, at which the next challenge may be answered.
pub proof fn connection_is_made_at_its_time(now: Instant, r: ConnectionManagementState)
    requires
        call_ensures(ConnectionManagementState::made_at, (now,), r),
    ensures
        r.tcp_state is Established,
        r.listen_endpoint.addr is None,
        r.listen_endpoint.port == 0,
        r.tuple is None,
        r.timeout is None,
        r.keep_alive is None,
        r.hop_limit is None,
        !r.rx_fin_received,
        r.challenge_ack_timer == now,
{
}

/// The components start out empty.
pub proof fn components_start_out_empty(
    endpoint: IpListenEndpoint,
    seq: TcpSeqNumber,
    flow: FlowControlState,
    congestion: CongestionState,
    rtte: RttEstimator,
)
    requires
        call_ensures(IpListenEndpoint::default, (), endpoint),
        call_ensures(TcpSeqNumber::default, (), seq),
        call_ensures(FlowControlState::default, (), flow),
        call_ensures(CongestionState::default, (), congestion),
        call_ensures(RttEstimator::default, (), rtte),
    ensures
        endpoint.addr is None,
        endpoint.port == 0,
        seq.0 == 0,
        flow.remote_last_win == 0,
        flow.remote_win_len == 0,
        flow.remote_win_shift == 0,
        flow.remote_win_scale is None,
        congestion.congestion_controller is NoControl,
        congestion.remote_mss == 536,
        congestion.nagle,
        !rtte.have_measurement,
        rtte.srtt == 0,
        rtte.rttvar == 0,
        rtte.rto == 1000,
        rtte.timestamp is None,
        rtte.max_seq_sent is None,
        rtte.rto_count == 0,
{
}

/// The acknowledgement of a segment can be judged in every state: a listening socket gets none,
/// what is in flight is within the sequence space, and the window scale is one that TCP allows.
pub proof fn acknowledgement_can_be_judged(socket: &mut Socket, repr: &TcpRepr, ip: &IpRepr)
    requires
        old(socket).state.delivery.wf(),
        old(socket).state.delivery.tx_buffer@.data.len() < i32::MAX,
        old(socket).state.flow_control.remote_win_scale matches Some(scale) ==> scale <= 14,
        old(socket).state.conn_mgmt.tcp_state is Listen ==> repr.ack_number is None,
    ensures
        call_requires(Socket::process_ack, (socket, repr, ip)),
{
}

} // verus!
