use crate::socket::delivery::DeliveryModel;
use crate::storage::assembler::{
    advanced, front_run, front_run_is_unique, is_front_run, run_count, span,
    ASSEMBLER_MAX_SEGMENT_COUNT,
};
use crate::wire::seq::TcpSeqNumber;
use vstd::prelude::*;

verus! {

/// A stream of octets as the remote end sends it: the octet at each position, and the sequence
/// number of position 0.
pub struct Stream {
    pub origin: TcpSeqNumber,
    pub octet: spec_fn(int) -> u8,
}

/// Octets of a stream, from position `at` on.
pub struct Piece {
    pub at: int,
    pub data: Seq<u8>,
}

impl Stream {
    /// The sequence number of position `at`.
    pub open spec fn seq_at(self, at: int) -> TcpSeqNumber {
        self.origin.plus(at)
    }

    /// The octets at positions `lo .. hi`.
    pub open spec fn octets(self, lo: int, hi: int) -> Seq<u8> {
        Seq::new((hi - lo) as nat, |i: int| (self.octet)(lo + i))
    }

    /// The receiver stands at position `pos` of this stream: that is the octet it expects next,
    /// what it has in its queue is the stream up to there, and what it holds is the stream from
    /// there on. Its window is within the sequence space.
    pub open spec fn received_to(self, pos: int, m: DeliveryModel) -> bool {
        &&& m.next == self.seq_at(pos)
        &&& m.rx.data == self.octets(pos - m.rx.data.len(), pos)
        &&& m.rx.free.len() <= i32::MAX
        &&& forall|k: int| #[trigger]
            m.held.contains(k) ==> 0 < k < m.rx.free.len() && m.rx.free[k] == (self.octet)(pos + k)
    }

    /// `piece` is of this stream, and lies in the window of a receiver that stands at `pos`.
    pub open spec fn in_window(self, pos: int, m: DeliveryModel, piece: Piece) -> bool {
        &&& pos <= piece.at
        &&& piece.at + piece.data.len() <= pos + m.rx.free.len()
        &&& piece.data == self.octets(piece.at, piece.at + piece.data.len())
    }

    /// The receiver after `piece` arrived.
    pub open spec fn after(self, m: DeliveryModel, piece: Piece) -> DeliveryModel {
        m.segment(self.seq_at(piece.at), piece.data)
    }

    /// Where the receiver stands after `piece` arrived.
    pub open spec fn pos_after(self, pos: int, m: DeliveryModel, piece: Piece) -> int {
        if piece.at == pos {
            pos + m.delivers(piece.data)
        } else {
            pos
        }
    }

    /// The receiver after all `pieces` arrived, in order of arrival.
    pub open spec fn after_all(self, m: DeliveryModel, pieces: Seq<Piece>) -> DeliveryModel
        decreases pieces.len(),
    {
        if pieces.len() == 0 {
            m
        } else {
            self.after_all(self.after(m, pieces[0]), pieces.drop_first())
        }
    }

    /// Where the receiver stands after all `pieces` arrived.
    pub open spec fn pos_after_all(self, pos: int, m: DeliveryModel, pieces: Seq<Piece>) -> int
        decreases pieces.len(),
    {
        if pieces.len() == 0 {
            pos
        } else {
            self.pos_after_all(
                self.pos_after(pos, m, pieces[0]),
                self.after(m, pieces[0]),
                pieces.drop_first(),
            )
        }
    }

    /// Every one of `pieces` is of this stream and in the window when it arrives.
    pub open spec fn all_in_window(self, pos: int, m: DeliveryModel, pieces: Seq<Piece>) -> bool
        decreases pieces.len(),
    {
        pieces.len() == 0 || self.in_window(pos, m, pieces[0]) && self.all_in_window(
            self.pos_after(pos, m, pieces[0]),
            self.after(m, pieces[0]),
            pieces.drop_first(),
        )
    }

    /// None of `pieces` is dropped for want of room to keep track of it.
    pub open spec fn none_dropped(self, pos: int, m: DeliveryModel, pieces: Seq<Piece>) -> bool
        decreases pieces.len(),
    {
        pieces.len() == 0 || (pieces[0].at == pos || !m.drops(
            self.seq_at(pieces[0].at),
            pieces[0].data,
        )) && self.none_dropped(
            self.pos_after(pos, m, pieces[0]),
            self.after(m, pieces[0]),
            pieces.drop_first(),
        )
    }
}

/// The positions that a receiver at `pos` has got: those before it, and those it holds.
pub open spec fn arrived(pos: int, m: DeliveryModel) -> Set<int> {
    Set::new(|p: int| p < pos || m.held.contains(p - pos))
}

/// The positions that `pieces` cover.
pub open spec fn covered(pieces: Seq<Piece>) -> Set<int>
    decreases pieces.len(),
{
    if pieces.len() == 0 {
        Set::empty()
    } else {
        span(pieces[0].at, pieces[0].at + pieces[0].data.len()).union(covered(pieces.drop_first()))
    }
}

/// A set that lacks some number from 0 on has a front run, and not a longer one.
pub proof fn front_run_exists(s: Set<int>, bound: int)
    requires
        0 <= bound,
        !s.contains(bound),
    ensures
        is_front_run(s, front_run(s)),
        0 <= front_run(s) <= bound,
{
    lemma_front_run_from(s, 0, bound);
}

proof fn lemma_front_run_from(s: Set<int>, from: int, bound: int)
    requires
        0 <= from <= bound,
        !s.contains(bound),
        forall|k: int| 0 <= k < from ==> s.contains(k),
    ensures
        is_front_run(s, front_run(s)),
        0 <= front_run(s) <= bound,
    decreases bound - from,
{
    if s.contains(from) {
        lemma_front_run_from(s, from + 1, bound);
    } else {
        front_run_is_unique(s, from);
    }
}

/// Sequence numbers tell positions apart by their distance, as long as that is less than half of
/// the sequence space.
pub proof fn seq_at_is_faithful(stream: Stream, a: int, b: int)
    requires
        -0x8000_0000 <= a - b < 0x8000_0000,
    ensures
        stream.seq_at(a).ahead_of(stream.seq_at(b)) == a - b,
        stream.seq_at(a) == stream.seq_at(b) <==> a == b,
        stream.seq_at(b).plus(a - b) == stream.seq_at(a),
{
}

/// A receiver that has got nothing stands at the start of any stream whose first sequence number
/// is the one it expects.
pub proof fn receiver_starts_at_the_origin(stream: Stream, m: DeliveryModel)
    requires
        m.next == stream.origin,
        m.held == Set::<int>::empty(),
        m.rx.data == Seq::<u8>::empty(),
        m.rx.free.len() <= i32::MAX,
    ensures
        stream.received_to(0, m),
{
    assert(m.rx.data =~= stream.octets(0, 0));
}

/// What arrives is delivered as it was sent. A piece of the stream that lies in the window can
/// be taken in, whatever else has arrived before it; afterwards the queue has grown by exactly
/// the octets of the stream that come next, up to where the receiver then stands, and what the
/// receiver holds is still the stream's. A piece that starts where the receiver stands is
/// delivered whole.
pub proof fn delivery_is_faithful(stream: Stream, pos: int, m: DeliveryModel, piece: Piece)
    requires
        stream.received_to(pos, m),
        stream.in_window(pos, m, piece),
    ensures
        m.admits_segment(stream.seq_at(piece.at), piece.data),
        ({
            let m2 = stream.after(m, piece);
            let pos2 = stream.pos_after(pos, m, piece);
            &&& stream.received_to(pos2, m2)
            &&& m2.rx.data == m.rx.data + stream.octets(pos, pos2)
            &&& pos <= pos2
            &&& piece.at == pos ==> piece.at + piece.data.len() <= pos2
            &&& piece.at == pos || !m.drops(stream.seq_at(piece.at), piece.data) ==> arrived(
                pos2,
                m2,
            ) == arrived(pos, m).union(span(piece.at, piece.at + piece.data.len()))
        }),
{
    let seq = stream.seq_at(piece.at);
    let data = piece.data;
    let len = data.len() as int;
    let free = m.rx.free;
    seq_at_is_faithful(stream, piece.at, pos);
    let m2 = stream.after(m, piece);
    let pos2 = stream.pos_after(pos, m, piece);
    if piece.at == pos {
        let there = m.held_with_next(len);
        front_run_exists(there, free.len() as int);
        let n = front_run(there);
        if n < len {
            assert(there.contains(n));
        }
        let written = m.rx.write(0, data);
        assert forall|k: int| there.contains(k) implies 0 <= k < free.len() && written.free[k] == (
        stream.octet)(pos + k) by {
            if k >= len {
                assert(m.held.contains(k));
            }
        }
        assert(m2.next == stream.seq_at(pos2));
        assert(m2.rx.data =~= m.rx.data + stream.octets(pos, pos2)) by {
            assert forall|i: int| 0 <= i < n implies written.free[i] == (stream.octet)(pos + i) by {
                assert(there.contains(i));
            }
        }
        assert(m2.rx.data =~= stream.octets(pos2 - m2.rx.data.len(), pos2));
        assert forall|k: int| #[trigger] m2.held.contains(k) implies 0 < k < m2.rx.free.len()
            && m2.rx.free[k] == (stream.octet)(pos2 + k) by {
            assert(there.contains(k + n));
        }
        assert(arrived(pos2, m2) =~= arrived(pos, m).union(span(pos, pos + len))) by {
            assert forall|p: int| arrived(pos2, m2).contains(p) == arrived(pos, m).union(
                span(pos, pos + len),
            ).contains(p) by {
                assert(there.contains(p - pos) == (m.held.contains(p - pos) || 0 <= p - pos < len));
                if pos <= p < pos2 {
                    assert(there.contains(p - pos));
                }
            }
        }
    } else if !m.drops(seq, data) {
        assert forall|k: int| #[trigger] m2.held.contains(k) implies 0 < k < m2.rx.free.len()
            && m2.rx.free[k] == (stream.octet)(pos + k) by {
            if !(piece.at - pos <= k < piece.at - pos + len) {
                assert(m.held.contains(k));
            }
        }
        assert(arrived(pos2, m2) =~= arrived(pos, m).union(span(piece.at, piece.at + len)));
        assert(m2.rx.data =~= m.rx.data + stream.octets(pos, pos2));
    } else {
        assert(m2.rx.data =~= m.rx.data + stream.octets(pos, pos2));
    }
}

/// The same for any number of pieces, in any order, with any overlap, dropped ones among them:
/// after them the queue is what it was, followed by the stream from where the receiver stood to
/// where it stands now.
pub proof fn delivery_stays_faithful(stream: Stream, pos: int, m: DeliveryModel, pieces: Seq<Piece>)
    requires
        stream.received_to(pos, m),
        stream.all_in_window(pos, m, pieces),
    ensures
        ({
            let m2 = stream.after_all(m, pieces);
            let pos2 = stream.pos_after_all(pos, m, pieces);
            &&& stream.received_to(pos2, m2)
            &&& m2.rx.data == m.rx.data + stream.octets(pos, pos2)
            &&& pos <= pos2
            &&& stream.none_dropped(pos, m, pieces) ==> arrived(pos2, m2) == arrived(pos, m).union(
                covered(pieces),
            )
        }),
    decreases pieces.len(),
{
    if pieces.len() == 0 {
        assert(m.rx.data =~= m.rx.data + stream.octets(pos, pos));
        assert(arrived(pos, m) =~= arrived(pos, m).union(covered(pieces)));
    } else {
        let m1 = stream.after(m, pieces[0]);
        let pos1 = stream.pos_after(pos, m, pieces[0]);
        let rest = pieces.drop_first();
        let pos2 = stream.pos_after_all(pos1, m1, rest);
        delivery_is_faithful(stream, pos, m, pieces[0]);
        delivery_stays_faithful(stream, pos1, m1, rest);
        assert(stream.octets(pos, pos1) + stream.octets(pos1, pos2) =~= stream.octets(pos, pos2));
        assert(m.rx.data + stream.octets(pos, pos1) + stream.octets(pos1, pos2) =~= m.rx.data
            + stream.octets(pos, pos2));
        if stream.none_dropped(pos, m, pieces) {
            let first = span(pieces[0].at, pieces[0].at + pieces[0].data.len());
            assert(arrived(pos, m).union(first).union(covered(rest)) =~= arrived(pos, m).union(
                covered(pieces),
            ));
        }
    }
}

/// The order of arrival does not matter. Two receivers that start alike, and get pieces that
/// cover the same positions without one being dropped, end alike: at the same position, with
/// the same queue, holding the same octets.
pub proof fn delivery_ignores_order(
    stream: Stream,
    pos: int,
    m: DeliveryModel,
    ones: Seq<Piece>,
    others: Seq<Piece>,
)
    requires
        stream.received_to(pos, m),
        stream.all_in_window(pos, m, ones),
        stream.all_in_window(pos, m, others),
        stream.none_dropped(pos, m, ones),
        stream.none_dropped(pos, m, others),
        covered(ones) == covered(others),
    ensures
        stream.pos_after_all(pos, m, ones) == stream.pos_after_all(pos, m, others),
        stream.after_all(m, ones).rx.data == stream.after_all(m, others).rx.data,
        stream.after_all(m, ones).held == stream.after_all(m, others).held,
        stream.after_all(m, ones).next == stream.after_all(m, others).next,
{
    let (m1, m2) = (stream.after_all(m, ones), stream.after_all(m, others));
    let (p1, p2) = (
        stream.pos_after_all(pos, m, ones),
        stream.pos_after_all(pos, m, others),
    );
    delivery_stays_faithful(stream, pos, m, ones);
    delivery_stays_faithful(stream, pos, m, others);
    let there = arrived(p1, m1);
    assert(there == arrived(p2, m2));
    assert(!m1.held.contains(0) && !m2.held.contains(0));
    assert(!there.contains(p1) && !there.contains(p2));
    assert(p1 == p2) by {
        if p1 < p2 {
            assert(arrived(p2, m2).contains(p1));
        }
        if p2 < p1 {
            assert(arrived(p1, m1).contains(p2));
        }
    }
    assert forall|k: int| m1.held.contains(k) == m2.held.contains(k) by {
        assert(there.contains(p1 + k) == (k < 0 || m1.held.contains(k)));
        assert(there.contains(p1 + k) == (k < 0 || m2.held.contains(k)));
        if m1.held.contains(k) || m2.held.contains(k) {
            assert(k > 0);
        }
    }
    assert(m1.held =~= m2.held);
}

/// Nothing that arrived stays back. Once pieces cover everything up to `end` and none was
/// dropped, everything up to `end` is delivered.
pub proof fn delivery_is_complete(
    stream: Stream,
    pos: int,
    m: DeliveryModel,
    pieces: Seq<Piece>,
    end: int,
)
    requires
        stream.received_to(pos, m),
        stream.all_in_window(pos, m, pieces),
        stream.none_dropped(pos, m, pieces),
        forall|p: int| pos <= p < end ==> covered(pieces).contains(p),
    ensures
        end <= stream.pos_after_all(pos, m, pieces),
{
    let m2 = stream.after_all(m, pieces);
    let pos2 = stream.pos_after_all(pos, m, pieces);
    delivery_stays_faithful(stream, pos, m, pieces);
    if pos2 < end {
        assert(arrived(pos, m).union(covered(pieces)).contains(pos2));
        assert(arrived(pos2, m2).contains(pos2));
        assert(m2.held.contains(0));
    }
}

/// Reading from the queue does not disturb delivery: the receiver stands where it stood.
pub proof fn reading_keeps_position(stream: Stream, pos: int, m: DeliveryModel, count: int)
    requires
        stream.received_to(pos, m),
        0 <= count <= m.rx.data.len(),
        m.rx.data.len() + m.rx.free.len() <= i32::MAX,
    ensures
        stream.received_to(pos, DeliveryModel { rx: m.rx.dequeue(count), ..m }),
{
    let m2 = DeliveryModel { rx: m.rx.dequeue(count), ..m };
    assert(m2.rx.data =~= stream.octets(pos - m2.rx.data.len(), pos));
    assert forall|k: int| #[trigger] m2.held.contains(k) implies 0 < k < m2.rx.free.len()
        && m2.rx.free[k] == (stream.octet)(pos + k) by {
        assert(m.held.contains(k));
    }
}

/// With nothing held, data that arrives in order is appended to the queue, the sequence number
/// expected next moves on by its length, and still nothing is held.
pub proof fn in_order_data_is_appended(m: DeliveryModel, data: Seq<u8>)
    requires
        m.held == Set::<int>::empty(),
        data.len() <= m.rx.free.len(),
    ensures
        m.delivers(data) == data.len(),
        m.in_order(data).rx.data == m.rx.data + data,
        m.in_order(data).rx.free == m.rx.free.skip(data.len() as int),
        m.in_order(data).held == Set::<int>::empty(),
        m.in_order(data).next == m.next.plus(data.len() as int),
{
    let there = m.held_with_next(data.len() as int);
    assert(is_front_run(there, data.len() as int));
    front_run_is_unique(there, data.len() as int);
    let m2 = m.in_order(data);
    assert(m2.rx.data =~= m.rx.data + data);
    assert(m2.rx.free =~= m.rx.free.skip(data.len() as int));
    assert(m2.held =~= Set::<int>::empty()) by {
        assert(advanced(there, data.len() as int) =~= Set::<int>::empty());
    }
}

/// What has been delivered is final: no later segment, whatever it carries, changes or takes
/// back an octet of the queue.
pub proof fn delivered_data_is_final(m: DeliveryModel, seq: TcpSeqNumber, data: Seq<u8>)
    ensures
        m.segment(seq, data).rx.data.len() >= m.rx.data.len(),
        m.segment(seq, data).rx.data.take(m.rx.data.len() as int) == m.rx.data,
{
    assert(m.segment(seq, data).rx.data.take(m.rx.data.len() as int) =~= m.rx.data);
}

/// The sequence number expected next keeps step with the queue: it moves on by as much as the
/// queue grows, whatever a segment carries.
pub proof fn sequence_follows_delivery(
    m: DeliveryModel,
    seq: TcpSeqNumber,
    data: Seq<u8>,
    gap: int,
)
    requires
        m.admits_segment(seq, data),
        data.len() <= gap,
        !m.held.contains(gap),
    ensures
        m.segment(seq, data).next == m.next.plus(
            m.segment(seq, data).rx.data.len() - m.rx.data.len(),
        ),
{
    if seq == m.next {
        front_run_exists(m.held_with_next(data.len() as int), gap);
    }
}

/// A piece in the window that arrives out of order is held, whatever its length, whenever fewer
/// runs are held than can be kept track of, or one that is held overlaps the piece or borders on
/// it: then exactly the positions of the piece have arrived besides those before, and nothing is
/// delivered.
pub proof fn piece_is_held_where_there_is_room(
    stream: Stream,
    pos: int,
    m: DeliveryModel,
    piece: Piece,
)
    requires
        stream.received_to(pos, m),
        stream.in_window(pos, m, piece),
        pos < piece.at,
        run_count(m.held) < ASSEMBLER_MAX_SEGMENT_COUNT || exists|k: int|
            piece.at - pos - 1 <= k <= piece.at - pos + piece.data.len()
                && #[trigger] m.held.contains(k),
    ensures
        stream.received_to(pos, stream.after(m, piece)),
        arrived(pos, stream.after(m, piece)) == arrived(pos, m).union(
            span(piece.at, piece.at + piece.data.len()),
        ),
        stream.after(m, piece).rx.data == m.rx.data,
        stream.after(m, piece).next == m.next,
{
    seq_at_is_faithful(stream, piece.at, pos);
    delivery_is_faithful(stream, pos, m, piece);
    assert(m.rx.data + stream.octets(pos, pos) =~= m.rx.data);
}

} // verus!
