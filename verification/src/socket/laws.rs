use crate::socket::state::Tuple;
use crate::socket::stream::{delivery_is_faithful, Piece, Stream};
use crate::socket::{blank_answer, ip_answer, reset_answer, Socket};
use crate::wire::ip::IpRepr;
use crate::wire::tcp::TcpSegment;
use vstd::arithmetic::power2::pow2;
use vstd::prelude::*;

verus! {

/// A closed socket takes nothing.
pub proof fn closed_socket_takes_nothing(socket: Socket, ip: IpRepr, segment: TcpSegment)
    requires
        socket.state.conn_mgmt.tcp_state is Closed,
    ensures
        !socket.takes(ip, segment),
{
}

/// A listening socket takes neither an acknowledgement nor a reset.
pub proof fn listening_socket_takes_no_ack(socket: Socket, ip: IpRepr, segment: TcpSegment)
    requires
        socket.state.conn_mgmt.tcp_state is Listen,
        socket.takes(ip, segment),
    ensures
        segment.ack_number is None,
        !(segment.control is Rst),
{
}

/// A connected socket takes segments of its connection only: whatever it takes comes from the
/// remote end and goes to the local one.
pub proof fn connection_is_private(socket: Socket, tuple: Tuple, ip: IpRepr, segment: TcpSegment)
    requires
        socket.state.conn_mgmt.tuple == Some(tuple),
        socket.takes(ip, segment),
    ensures
        ip.src() == tuple.remote.addr,
        segment.src_port == tuple.remote.port,
        ip.dst() == tuple.local.addr,
        segment.dst_port == tuple.local.port,
{
}

/// The other end of a connection, in any state in which it is connected.
pub open spec fn is_peer(peer: Socket, tuple: Tuple) -> bool {
    &&& peer.state.conn_mgmt.tuple == Some(Tuple { local: tuple.remote, remote: tuple.local })
    &&& !(peer.state.conn_mgmt.tcp_state is Closed)
    &&& !(peer.state.conn_mgmt.tcp_state is Listen)
}

/// The answer to a segment of a connection, taken or not, is taken by the other end.
pub proof fn answer_reaches_the_peer(
    socket: Socket,
    tuple: Tuple,
    peer: Socket,
    ip: IpRepr,
    segment: TcpSegment,
    len: usize,
)
    requires
        socket.state.conn_mgmt.tuple == Some(tuple),
        socket.addressed_by(ip, segment),
        is_peer(peer, tuple),
    ensures
        peer.takes(ip_answer(ip, len), blank_answer(segment)),
        peer.takes(ip_answer(ip, len), reset_answer(segment)),
{
}

/// Answering an answer leads back to where the segment came from.
pub proof fn answers_go_back_and_forth(ip: IpRepr, segment: TcpSegment, len: usize)
    ensures
        ip_answer(ip_answer(ip, len), len).src() == ip.src(),
        ip_answer(ip_answer(ip, len), len).dst() == ip.dst(),
        blank_answer(blank_answer(segment)).src_port == segment.src_port,
        blank_answer(blank_answer(segment)).dst_port == segment.dst_port,
{
}

/// A reset is never answered with a reset, so two sockets do not reset each other for ever.
pub proof fn reset_is_not_answered(socket: Socket, segment: TcpSegment)
    ensures
        !socket.resets(reset_answer(segment)),
{
}

/// Before the connection is established, a reset answers every acknowledgement of something
/// other than the SYN (in SYN-SENT: of a segment without PSH, FIN or RST), and it carries the
/// number that was acknowledged wrongly and no acknowledgement of its own.
pub proof fn wrong_handshake_is_reset(socket: Socket, segment: TcpSegment)
    requires
        segment.ack_number is Some,
        segment.ack_number != Some(socket.state.delivery.local_seq_no.plus(1)),
        !(segment.control is Rst),
        ({
            ||| socket.state.conn_mgmt.tcp_state is SynReceived
            ||| socket.state.conn_mgmt.tcp_state is SynSent && !(segment.control is Psh) && !(
            segment.control is Fin)
        }),
    ensures
        socket.resets(segment),
        reset_answer(segment).control is Rst,
        Some(reset_answer(segment).seq_number) == segment.ack_number,
        reset_answer(segment).ack_number is None,
{
}

/// Once a connection is established no acknowledgement is answered with a reset.
pub proof fn established_socket_does_not_reset(socket: Socket, segment: TcpSegment)
    requires
        !(socket.state.conn_mgmt.tcp_state is SynSent),
        !(socket.state.conn_mgmt.tcp_state is SynReceived),
    ensures
        !socket.resets(segment),
{
}

/// With a window scale that TCP allows, or any other with which it fits into the machine word,
/// the remote window is the announced one times the power of two that the scale stands for; the
/// window of a SYN is not scaled.
pub proof fn window_is_scaled(socket: Socket, segment: TcpSegment)
    requires
        ({
            ||| socket.scale(segment) <= 14
            ||| socket.scale(segment) < usize::BITS && segment.window_len * pow2(
                socket.scale(segment) as nat,
            ) <= usize::MAX
        }),
    ensures
        socket.announced(segment) == segment.window_len * pow2(socket.scale(segment) as nat),
        segment.control is Syn ==> socket.announced(segment) == segment.window_len,
{
    let w = segment.window_len as usize;
    let k = socket.scale(segment) as usize;
    vstd::arithmetic::power2::lemma2_to64();
    if k <= 14 {
        vstd::arithmetic::power2::lemma_pow2_strictly_increases(k as nat, 15);
        assert(w * pow2(k as nat) <= 0xffff * 0x8000) by (nonlinear_arith)
            requires
                w <= 0xffff,
                pow2(k as nat) <= 0x8000,
        ;
    }
    vstd::bits::lemma_usize_shl_is_mul(w, k);
    assert(w * 1 == w);
}

/// In every state the acknowledgement of a segment that the socket takes can be judged, as long
/// as what is in flight is within the sequence space and the window scale within the machine
/// word.
pub proof fn taken_acknowledgement_is_admitted(socket: Socket, ip: IpRepr, segment: TcpSegment)
    requires
        socket.takes(ip, segment),
        socket.in_flight() <= i32::MAX,
        socket.scale(segment) < usize::BITS,
    ensures
        socket.admits_ack(segment),
{
}

/// In every state a segment that carries a piece of the stream within the window can be
/// processed, if its acknowledgement can be judged.
pub proof fn segment_in_window_is_admitted(
    socket: Socket,
    ip: IpRepr,
    segment: TcpSegment,
    stream: Stream,
    pos: int,
    piece: Piece,
)
    requires
        socket.takes(ip, segment) && segment.ack_number is Some ==> socket.admits_ack(segment),
        stream.received_to(pos, socket.state.delivery.model()),
        stream.in_window(pos, socket.state.delivery.model(), piece),
        segment.seq_number == stream.seq_at(piece.at),
        segment.payload == piece.data,
    ensures
        socket.admits(ip, segment),
{
    delivery_is_faithful(stream, pos, socket.state.delivery.model(), piece);
}

/// A socket delivers the stream of its peer. Whatever state it is in, and whether it takes the
/// segment or not: if the segment carries a piece of the stream within the window, then after
/// it the queue has grown by exactly the next octets of the stream, up to where the receiver
/// stands, and what is held is still the stream's.
pub proof fn socket_delivers_the_stream(
    socket: Socket,
    ip: IpRepr,
    segment: TcpSegment,
    stream: Stream,
    pos: int,
    piece: Piece,
)
    requires
        stream.received_to(pos, socket.state.delivery.model()),
        stream.in_window(pos, socket.state.delivery.model(), piece),
        segment.seq_number == stream.seq_at(piece.at),
        segment.payload == piece.data,
    ensures
        ({
            let m = socket.state.delivery.model();
            let m2 = socket.delivery_after(ip, segment);
            let pos2 = if socket.takes_data(ip, segment) {
                stream.pos_after(pos, m, piece)
            } else {
                pos
            };
            &&& stream.received_to(pos2, m2)
            &&& m2.rx.data == m.rx.data + stream.octets(pos, pos2)
            &&& socket.takes_data(ip, segment) && piece.at == pos ==> pos2 >= pos
                + piece.data.len()
        }),
{
    let m = socket.state.delivery.model();
    delivery_is_faithful(stream, pos, m, piece);
    assert(m.rx.data =~= m.rx.data + stream.octets(pos, pos));
}

} // verus!
