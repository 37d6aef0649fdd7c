use crate::socket::delivery::DeliveryModel;
use crate::socket::events::DeliveryEvent;
use crate::socket::state::ReliableOrderedDeliveryState;
use crate::socket::stream::{
    arrived, delivery_is_faithful, seq_at_is_faithful, Piece, Stream,
};
use crate::socket::{Context, Socket};
use crate::storage::assembler::{front_run_is_unique, is_front_run, run_count, span};
use crate::wire::ip::IpRepr;
use crate::wire::seq::{distance_undoes_addition, TcpSeqNumber};
use crate::wire::tcp::TcpRepr;
use vstd::prelude::*;

verus! {

// Laws on calls that take in data: what goes in, and what comes out.

/// Nothing of the delivery state has changed but what receiving data changes: the receive
/// buffer, the record of what arrived out of order, and the sequence number expected next.
pub open spec fn only_received(
    before: ReliableOrderedDeliveryState,
    after: ReliableOrderedDeliveryState,
) -> bool {
    &&& after.tx_buffer == before.tx_buffer
    &&& after.local_seq_no == before.local_seq_no
    &&& after.remote_last_seq == before.remote_last_seq
    &&& after.remote_last_ack == before.remote_last_ack
    &&& after.local_rx_last_seq == before.local_rx_last_seq
    &&& after.local_rx_last_ack == before.local_rx_last_ack
    &&& after.local_rx_dup_acks == before.local_rx_dup_acks
    &&& after.timer == before.timer
    &&& after.rtte == before.rtte
    &&& after.ack_delay == before.ack_delay
    &&& after.ack_delay_timer == before.ack_delay_timer
}

/// There is room to hold the octets `lo .. hi`: fewer than four separate runs are held, or one
/// that is held overlaps these octets or borders on them.
pub open spec fn has_room(held: Set<int>, lo: int, hi: int) -> bool {
    run_count(held) < 4 || exists|k: int| lo - 1 <= k <= hi && #[trigger] held.contains(k)
}

/// `data` is held, `offset` octets ahead of the one expected next: it is recorded, and stands in
/// the free space, as far as that reaches. Nothing was delivered.
pub open spec fn held_at(
    before: ReliableOrderedDeliveryState,
    after: ReliableOrderedDeliveryState,
    offset: int,
    data: Seq<u8>,
) -> bool {
    &&& after.remote_seq_no == before.remote_seq_no
    &&& forall|k: int| #[trigger]
        after.assembler@.contains(k) <==> before.assembler@.contains(k) || offset <= k < offset
            + data.len()
    &&& after.rx_buffer@.data == before.rx_buffer@.data
    &&& after.rx_buffer@.free.len() == before.rx_buffer@.free.len()
    &&& forall|i: int|
        0 <= i < before.rx_buffer@.free.len() ==> #[trigger] after.rx_buffer@.free[i] == if offset
            <= i < offset + data.len() {
            data[i - offset]
        } else {
            before.rx_buffer@.free[i]
        }
}

/// `count` octets were delivered: those of `data`, then what stood in the free space behind
/// them. They follow what was in the queue; the free space and what is held beyond them are as
/// before, counted from the octet that is expected next now.
pub open spec fn delivered(
    before: ReliableOrderedDeliveryState,
    after: ReliableOrderedDeliveryState,
    data: Seq<u8>,
    count: int,
) -> bool {
    &&& after.remote_seq_no == before.remote_seq_no.plus(count)
    &&& after.rx_buffer@.data.len() == before.rx_buffer@.data.len() + count
    &&& forall|i: int|
        0 <= i < before.rx_buffer@.data.len() ==> #[trigger] after.rx_buffer@.data[i]
            == before.rx_buffer@.data[i]
    &&& forall|i: int|
        0 <= i < count ==> #[trigger] after.rx_buffer@.data[before.rx_buffer@.data.len() + i]
            == if i < data.len() {
            data[i]
        } else {
            before.rx_buffer@.free[i]
        }
    &&& after.rx_buffer@.free.len() == before.rx_buffer@.free.len() - count
    &&& forall|i: int|
        0 <= i < after.rx_buffer@.free.len() ==> #[trigger] after.rx_buffer@.free[i]
            == before.rx_buffer@.free[i + count]
    &&& forall|k: int| #[trigger]
        after.assembler@.contains(k) <==> k >= 0 && before.assembler@.contains(k + count)
}

/// The octets that follow the first `len` without a gap and are held end at `count`.
pub open spec fn run_ends_at(held: Set<int>, len: int, count: int) -> bool {
    &&& len <= count
    &&& forall|k: int| len <= k < count ==> #[trigger] held.contains(k)
    &&& !held.contains(count)
}

proof fn lemma_held(m: DeliveryModel, seq: TcpSeqNumber, offset: int, data: Seq<u8>)
    requires
        seq == m.next.plus(offset),
        0 < offset <= i32::MAX,
    ensures
        m.place(seq) == offset,
        seq != m.next,
        has_room(m.held, offset, offset + data.len()) ==> !m.drops(seq, data),
        data.len() > 0 && run_count(m.held) == 4 && !has_room(
            m.held,
            offset,
            offset + data.len(),
        ) ==> m.drops(seq, data),
{
    distance_undoes_addition(m.next, offset);
}

proof fn lemma_delivers(m: DeliveryModel, data: Seq<u8>, count: int)
    requires
        run_ends_at(m.held, data.len() as int, count),
    ensures
        m.delivers(data) == count,
{
    let there = m.held_with_next(data.len() as int);
    assert forall|k: int| 0 <= k < count implies there.contains(k) by {
        if data.len() <= k {
            assert(m.held.contains(k));
        }
    }
    assert(is_front_run(there, count));
    front_run_is_unique(there, count);
}

/// Data of any length that arrives out of order is held wherever there is room for it.
pub proof fn out_of_order_data_is_held(socket: &mut Socket, repr: &TcpRepr, offset: int)
    requires
        call_ensures(Socket::process_data, (socket, repr), ()),
        repr.seq_number == old(socket).state.delivery.remote_seq_no.plus(offset),
        0 < offset <= i32::MAX,
        has_room(old(socket).state.delivery.assembler@, offset, offset + repr.payload@.len()),
    ensures
        held_at(
            old(socket).state.delivery,
            final(socket).state.delivery,
            offset,
            repr.payload@,
        ),
        only_received(old(socket).state.delivery, final(socket).state.delivery),
        final(socket).state.conn_mgmt == old(socket).state.conn_mgmt,
        final(socket).state.flow_control == old(socket).state.flow_control,
        final(socket).state.congestion == old(socket).state.congestion,
{
    lemma_held(old(socket).state.delivery.model(), repr.seq_number, offset, repr.payload@);
}

/// Data that arrives out of order is dropped, without a trace, where there is no room for it:
/// four runs are held, and it is separate from all of them.
pub proof fn fifth_run_is_dropped(socket: &mut Socket, repr: &TcpRepr, offset: int)
    requires
        call_ensures(Socket::process_data, (socket, repr), ()),
        repr.seq_number == old(socket).state.delivery.remote_seq_no.plus(offset),
        0 < offset <= i32::MAX,
        repr.payload@.len() > 0,
        run_count(old(socket).state.delivery.assembler@) == 4,
        !has_room(old(socket).state.delivery.assembler@, offset, offset + repr.payload@.len()),
    ensures
        *final(socket) == *old(socket),
{
    lemma_held(old(socket).state.delivery.model(), repr.seq_number, offset, repr.payload@);
}

/// Data that arrives in order is delivered whole, whatever is held, and with it all that is held
/// and follows without a gap.
pub proof fn in_order_data_is_delivered(socket: &mut Socket, repr: &TcpRepr, count: int)
    requires
        call_ensures(Socket::process_data, (socket, repr), ()),
        repr.seq_number == old(socket).state.delivery.remote_seq_no,
        run_ends_at(
            old(socket).state.delivery.assembler@,
            repr.payload@.len() as int,
            count,
        ),
        count <= old(socket).state.delivery.rx_buffer@.free.len(),
    ensures
        delivered(
            old(socket).state.delivery,
            final(socket).state.delivery,
            repr.payload@,
            count,
        ),
        only_received(old(socket).state.delivery, final(socket).state.delivery),
        final(socket).state.conn_mgmt == old(socket).state.conn_mgmt,
        final(socket).state.flow_control == old(socket).state.flow_control,
        final(socket).state.congestion == old(socket).state.congestion,
{
    lemma_delivers(old(socket).state.delivery.model(), repr.payload@, count);
}

/// The event of data that arrives out of order holds it wherever there is room, whatever its
/// length.
pub proof fn out_of_order_event_holds(
    rod: &mut ReliableOrderedDeliveryState,
    events: Vec<DeliveryEvent>,
    seq: TcpSeqNumber,
    data: Vec<u8>,
    offset: int,
)
    requires
        call_ensures(Socket::process_rx_rod_events, (rod, events), ()),
        events@ == seq![DeliveryEvent::OutOfOrderData { seq, data }],
        seq == old(rod).remote_seq_no.plus(offset),
        0 < offset <= i32::MAX,
        has_room(old(rod).assembler@, offset, offset + data@.len()),
    ensures
        held_at(*old(rod), *final(rod), offset, data@),
        only_received(*old(rod), *final(rod)),
{
    reveal_with_fuel(DeliveryModel::after_all, 2);
    lemma_held(old(rod).model(), seq, offset, data@);
}

/// The event of data that arrives out of order leaves no trace where there is no room.
pub proof fn out_of_order_event_is_dropped(
    rod: &mut ReliableOrderedDeliveryState,
    events: Vec<DeliveryEvent>,
    seq: TcpSeqNumber,
    data: Vec<u8>,
    offset: int,
)
    requires
        call_ensures(Socket::process_rx_rod_events, (rod, events), ()),
        events@ == seq![DeliveryEvent::OutOfOrderData { seq, data }],
        seq == old(rod).remote_seq_no.plus(offset),
        0 < offset <= i32::MAX,
        data@.len() > 0,
        run_count(old(rod).assembler@) == 4,
        !has_room(old(rod).assembler@, offset, offset + data@.len()),
    ensures
        *final(rod) == *old(rod),
{
    lemma_held(old(rod).model(), seq, offset, data@);
}

/// The event of data that arrives in order delivers it, whatever sequence number it names.
pub proof fn in_order_event_delivers(
    rod: &mut ReliableOrderedDeliveryState,
    events: Vec<DeliveryEvent>,
    seq: TcpSeqNumber,
    data: Vec<u8>,
    count: int,
)
    requires
        call_ensures(Socket::process_rx_rod_events, (rod, events), ()),
        events@ == seq![DeliveryEvent::InOrderData { seq, data }],
        run_ends_at(old(rod).assembler@, data@.len() as int, count),
        count <= old(rod).rx_buffer@.free.len(),
    ensures
        delivered(*old(rod), *final(rod), data@, count),
        only_received(*old(rod), *final(rod)),
{
    reveal_with_fuel(DeliveryModel::after_all, 2);
    lemma_delivers(old(rod).model(), data@, count);
}

proof fn lemma_after_concat(m: DeliveryModel, a: Seq<DeliveryEvent>, b: Seq<DeliveryEvent>)
    ensures
        m.after_all(a + b) == m.after_all(a).after_all(b),
    decreases a.len(),
{
    if a.len() == 0 {
        assert(a + b =~= b);
    } else {
        assert((a + b).drop_first() =~= a.drop_first() + b);
        lemma_after_concat(m.after(a[0]), a.drop_first(), b);
    }
}

/// Events take effect one after the other: to process two lists in a row is to process one list
/// of all of them. No event changes nothing.
pub proof fn events_take_effect_in_order(
    all: &mut ReliableOrderedDeliveryState,
    first: &mut ReliableOrderedDeliveryState,
    second: &mut ReliableOrderedDeliveryState,
    events: Vec<DeliveryEvent>,
    a: Vec<DeliveryEvent>,
    b: Vec<DeliveryEvent>,
)
    requires
        call_ensures(Socket::process_rx_rod_events, (all, events), ()),
        call_ensures(Socket::process_rx_rod_events, (first, a), ()),
        call_ensures(Socket::process_rx_rod_events, (second, b), ()),
        events@ == a@ + b@,
        *old(all) == *old(first),
        *old(second) == *final(first),
    ensures
        final(all).rx_buffer@ == final(second).rx_buffer@,
        final(all).assembler@ == final(second).assembler@,
        final(all).remote_seq_no == final(second).remote_seq_no,
        only_received(*old(all), *final(all)),
        events@.len() == 0 ==> *final(all) == *old(all),
{
    lemma_after_concat(old(all).model(), a@, b@);
    assert(final(all).model() == final(second).model());
}

/// A segment that the socket does not accept changes nothing and is not answered.
pub proof fn unaccepted_segment_changes_nothing(
    socket: &mut Socket,
    same: &Socket,
    cx: &mut Context,
    cx2: &mut Context,
    ip: &IpRepr,
    repr: &TcpRepr,
    r: Option<(IpRepr, TcpRepr<'static>)>,
)
    requires
        *same == *old(socket),
        call_ensures(Socket::accepts, (same, cx2, ip, repr), false),
        call_ensures(Socket::process, (socket, cx, ip, repr), r),
    ensures
        r is None,
        *final(socket) == *old(socket),
        *final(cx) == *old(cx),
{
}

/// No segment changes the connection or the congestion state, nor more of the delivery state
/// than receiving data does, nor the context.
pub proof fn processing_keeps_the_rest(
    socket: &mut Socket,
    cx: &mut Context,
    ip: &IpRepr,
    repr: &TcpRepr,
    r: Option<(IpRepr, TcpRepr<'static>)>,
)
    requires
        call_ensures(Socket::process, (socket, cx, ip, repr), r),
    ensures
        final(socket).state.conn_mgmt == old(socket).state.conn_mgmt,
        final(socket).state.congestion == old(socket).state.congestion,
        only_received(old(socket).state.delivery, final(socket).state.delivery),
        r is Some ==> *final(socket) == *old(socket),
        repr.payload@.len() == 0 ==> final(socket).state.delivery == old(socket).state.delivery,
        repr.ack_number is None ==> r is None && final(socket).state.flow_control == old(
            socket,
        ).state.flow_control,
        *final(cx) == *old(cx),
{
}

/// The acknowledgement of a segment that the socket accepts is judged as `process_ack` judges it:
/// the same answer, the same window.
pub proof fn accepted_acknowledgement_is_judged(
    socket: &mut Socket,
    same: &Socket,
    twin: &mut Socket,
    cx: &mut Context,
    cx2: &mut Context,
    ip: &IpRepr,
    repr: &TcpRepr,
    r: Option<(IpRepr, TcpRepr<'static>)>,
    r2: Option<(IpRepr, TcpRepr<'static>)>,
)
    requires
        *same == *old(socket),
        *old(twin) == *old(socket),
        repr.ack_number is Some,
        call_ensures(Socket::accepts, (same, cx2, ip, repr), true),
        call_ensures(Socket::process_ack, (twin, repr, ip), r2),
        call_ensures(Socket::process, (socket, cx, ip, repr), r),
    ensures
        final(socket).state.flow_control == final(twin).state.flow_control,
        r is Some <==> r2 is Some,
        r is Some ==> (r->0).0 == (r2->0).0 && (r->0).1@ == (r2->0).1@,
{
}

/// The data of a segment that the socket accepts is taken in as `process_data` takes it in,
/// unless a reset answers the segment, whatever becomes of its acknowledgement.
pub proof fn accepted_data_is_taken_in(
    socket: &mut Socket,
    same: &Socket,
    twin: &mut Socket,
    cx: &mut Context,
    cx2: &mut Context,
    ip: &IpRepr,
    repr: &TcpRepr,
    r: Option<(IpRepr, TcpRepr<'static>)>,
)
    requires
        *same == *old(socket),
        *old(twin) == *old(socket),
        repr.payload@.len() > 0,
        call_ensures(Socket::accepts, (same, cx2, ip, repr), true),
        call_ensures(Socket::process_data, (twin, repr), ()),
        call_ensures(Socket::process, (socket, cx, ip, repr), r),
    ensures
        r is None ==> {
            &&& final(socket).state.delivery.rx_buffer@ == final(twin).state.delivery.rx_buffer@
            &&& final(socket).state.delivery.assembler@ == final(twin).state.delivery.assembler@
            &&& final(socket).state.delivery.remote_seq_no
                == final(twin).state.delivery.remote_seq_no
        },
        r is Some ==> final(socket).state.delivery == old(socket).state.delivery,
{
    assert(r is None ==> final(socket).state.delivery.model()
        == final(twin).state.delivery.model());
}

/// A segment that the socket accepts and does not reset brings its piece of the stream: after it
/// exactly the positions of the piece have arrived besides those before, as far as there was
/// room, and all that has arrived without a gap is in the queue.
pub proof fn accepted_piece_arrives(
    socket: &mut Socket,
    same: &Socket,
    cx: &mut Context,
    cx2: &mut Context,
    ip: &IpRepr,
    repr: &TcpRepr,
    r: Option<(IpRepr, TcpRepr<'static>)>,
    stream: Stream,
    pos: int,
    piece: Piece,
)
    requires
        *same == *old(socket),
        call_ensures(Socket::accepts, (same, cx2, ip, repr), true),
        call_ensures(Socket::process, (socket, cx, ip, repr), r),
        r is None,
        stream.received_to(pos, old(socket).state.delivery.model()),
        stream.in_window(pos, old(socket).state.delivery.model(), piece),
        repr.seq_number == stream.seq_at(piece.at),
        repr.payload@ == piece.data,
        piece.at == pos || has_room(
            old(socket).state.delivery.assembler@,
            piece.at - pos,
            piece.at - pos + piece.data.len(),
        ),
    ensures
        ({
            let m = old(socket).state.delivery.model();
            let m2 = final(socket).state.delivery.model();
            let pos2 = pos + m2.rx.data.len() - m.rx.data.len();
            &&& stream.received_to(pos2, m2)
            &&& arrived(pos2, m2) == arrived(pos, m).union(
                span(piece.at, piece.at + piece.data.len()),
            )
            &&& m2.rx.data == m.rx.data + stream.octets(pos, pos2)
            &&& piece.at == pos ==> pos2 >= pos + piece.data.len()
            &&& piece.at > pos ==> pos2 == pos
        }),
{
    let m = old(socket).state.delivery.model();
    seq_at_is_faithful(stream, piece.at, pos);
    if piece.at > pos {
        lemma_held(m, repr.seq_number, piece.at - pos, piece.data);
    }
    delivery_is_faithful(stream, pos, m, piece);
    if piece.data.len() == 0 {
        assert(arrived(pos, m) =~= arrived(pos, m).union(span(piece.at, piece.at)));
        assert(m.rx.data =~= m.rx.data + stream.octets(pos, pos));
    }
}

/// What is held lies ahead of the octet expected next and within the free space, and that is
/// within the sequence space.
pub open spec fn held_in_window(delivery: ReliableOrderedDeliveryState) -> bool {
    &&& delivery.rx_buffer@.free.len() <= i32::MAX
    &&& forall|k: int| #[trigger]
        delivery.assembler@.contains(k) ==> 0 < k < delivery.rx_buffer@.free.len()
}

/// A segment with data in the window, or none, can always be processed: in every state, whatever
/// its flag, its addresses and its acknowledgement, as long as what is in flight is within the
/// sequence space and the window scale is one that TCP allows.
pub proof fn segment_in_window_can_be_processed(
    socket: &mut Socket,
    cx: &mut Context,
    ip: &IpRepr,
    repr: &TcpRepr,
    offset: int,
)
    requires
        old(socket).state.delivery.wf(),
        old(socket).state.delivery.tx_buffer@.data.len() < i32::MAX,
        old(socket).state.flow_control.remote_win_scale matches Some(scale) ==> scale <= 14,
        held_in_window(old(socket).state.delivery),
        repr.payload@.len() == 0 || {
            &&& repr.seq_number == old(socket).state.delivery.remote_seq_no.plus(offset)
            &&& 0 <= offset
            &&& offset + repr.payload@.len() <= old(socket).state.delivery.rx_buffer@.free.len()
        },
    ensures
        call_requires(Socket::process, (socket, cx, ip, repr)),
{
    let m = old(socket).state.delivery.model();
    if repr.payload@.len() > 0 {
        lemma_admitted(m, repr.seq_number, repr.payload@, offset);
    }
    assert(old(socket).admits(*ip, repr@));
}

proof fn lemma_admitted(m: DeliveryModel, seq: TcpSeqNumber, data: Seq<u8>, offset: int)
    requires
        m.rx.free.len() <= i32::MAX,
        forall|k: int| #[trigger] m.held.contains(k) ==> 0 < k < m.rx.free.len(),
        seq == m.next.plus(offset),
        0 <= offset,
        offset + data.len() <= m.rx.free.len(),
    ensures
        m.admits_segment(seq, data),
{
    distance_undoes_addition(m.next, offset);
    if offset == 0 {
        crate::socket::stream::front_run_exists(
            m.held_with_next(data.len() as int),
            m.rx.free.len() as int,
        );
    }
}

/// Data in the window can always be taken in.
pub proof fn data_in_window_can_be_taken(socket: &mut Socket, repr: &TcpRepr, offset: int)
    requires
        old(socket).state.delivery.wf(),
        held_in_window(old(socket).state.delivery),
        repr.seq_number == old(socket).state.delivery.remote_seq_no.plus(offset),
        0 <= offset,
        offset + repr.payload@.len() <= old(socket).state.delivery.rx_buffer@.free.len(),
    ensures
        call_requires(Socket::process_data, (socket, repr)),
{
    lemma_admitted(old(socket).state.delivery.model(), repr.seq_number, repr.payload@, offset);
}

} // verus!
