use crate::socket::events::DeliveryEvent;
use crate::socket::state::ReliableOrderedDeliveryState;
use crate::storage::assembler::{
    advanced, front_run, run_count, span, touches, ASSEMBLER_MAX_SEGMENT_COUNT,
};
use crate::storage::ring_buffer::BufferModel;
use crate::wire::seq::TcpSeqNumber;
use vstd::prelude::*;

verus! {

/// The receiving side of a connection.
#[verifier::ext_equal]
pub struct DeliveryModel {
    /// The receive buffer.
    pub rx: BufferModel,
    /// The octets that have arrived out of order, counted from the one that is expected next.
    pub held: Set<int>,
    /// The sequence number of the octet that is expected next.
    pub next: TcpSeqNumber,
}

impl DeliveryModel {
    /// The octets that are there once the first `len` expected ones are.
    pub open spec fn held_with_next(self, len: int) -> Set<int> {
        self.held.union(span(0, len))
    }

    /// How many octets `data` delivers when it arrives in order: its own, and those held that
    /// follow without a gap.
    pub open spec fn delivers(self, data: Seq<u8>) -> int {
        front_run(self.held_with_next(data.len() as int))
    }

    /// After `data` arrived in order: it is in the receive buffer, with all that is held and
    /// follows without a gap.
    pub open spec fn in_order(self, data: Seq<u8>) -> DeliveryModel {
        let n = self.delivers(data);
        DeliveryModel {
            rx: self.rx.write(0, data).enqueue(n),
            held: advanced(self.held_with_next(data.len() as int), n),
            next: self.next.plus(n),
        }
    }

    /// The place of `seq`, counted from the octet that is expected next.
    pub open spec fn place(self, seq: TcpSeqNumber) -> int {
        seq.ahead_of(self.next)
    }

    /// `data` at `seq` is dropped: it would be one more separate run than can be kept track of.
    pub open spec fn drops(self, seq: TcpSeqNumber, data: Seq<u8>) -> bool {
        &&& data.len() > 0
        &&& run_count(self.held) == ASSEMBLER_MAX_SEGMENT_COUNT
        &&& !touches(self.held, self.place(seq), self.place(seq) + data.len())
    }

    /// After `data` arrived out of order at `seq`: it is held in its place, unless it is dropped.
    pub open spec fn out_of_order(self, seq: TcpSeqNumber, data: Seq<u8>) -> DeliveryModel {
        if self.drops(seq, data) {
            self
        } else {
            DeliveryModel {
                rx: self.rx.write(self.place(seq), data),
                held: self.held.union(span(self.place(seq), self.place(seq) + data.len())),
                next: self.next,
            }
        }
    }

    /// After a segment with `data` at `seq` arrived.
    pub open spec fn segment(self, seq: TcpSeqNumber, data: Seq<u8>) -> DeliveryModel {
        if seq == self.next {
            self.in_order(data)
        } else {
            self.out_of_order(seq, data)
        }
    }

    /// A segment with `data` at `seq` leaves no trace.
    pub open spec fn passes_over(self, seq: TcpSeqNumber, data: Seq<u8>) -> bool {
        seq != self.next && self.drops(seq, data)
    }

    /// There is room for what `data` delivers in order.
    pub open spec fn admits_in_order(self, data: Seq<u8>) -> bool {
        &&& self.delivers(data) <= self.rx.free.len()
        &&& self.delivers(data) <= i32::MAX
    }

    /// `seq` does not lie before what has been delivered already.
    pub open spec fn admits_out_of_order(self, seq: TcpSeqNumber, data: Seq<u8>) -> bool {
        &&& self.place(seq) >= 0
        &&& self.place(seq) + data.len() <= usize::MAX
    }

    /// A segment with `data` at `seq` can be taken in.
    pub open spec fn admits_segment(self, seq: TcpSeqNumber, data: Seq<u8>) -> bool {
        if seq == self.next {
            self.admits_in_order(data)
        } else {
            self.admits_out_of_order(seq, data)
        }
    }

    /// After `event`.
    pub open spec fn after(self, event: DeliveryEvent) -> DeliveryModel {
        match event {
            DeliveryEvent::InOrderData { seq: _, data } => self.in_order(data@),
            DeliveryEvent::OutOfOrderData { seq, data } => self.out_of_order(seq, data@),
            DeliveryEvent::DataAcknowledged { .. } => self,
        }
    }

    /// `event` can be taken in. This side of the connection takes in no acknowledgements.
    pub open spec fn admits(self, event: DeliveryEvent) -> bool {
        match event {
            DeliveryEvent::InOrderData { seq: _, data } => self.admits_in_order(data@),
            DeliveryEvent::OutOfOrderData { seq, data } => self.admits_out_of_order(seq, data@),
            DeliveryEvent::DataAcknowledged { .. } => false,
        }
    }

    /// `event` leaves no trace.
    pub open spec fn ignores(self, event: DeliveryEvent) -> bool {
        event matches DeliveryEvent::OutOfOrderData { seq, data } && self.drops(seq, data@)
    }

    /// After all `events`, in order.
    pub open spec fn after_all(self, events: Seq<DeliveryEvent>) -> DeliveryModel
        decreases events.len(),
    {
        if events.len() == 0 {
            self
        } else {
            self.after(events[0]).after_all(events.drop_first())
        }
    }

    /// All `events` can be taken in, in order.
    pub open spec fn admits_all(self, events: Seq<DeliveryEvent>) -> bool
        decreases events.len(),
    {
        events.len() == 0 || self.admits(events[0]) && self.after(events[0]).admits_all(
            events.drop_first(),
        )
    }
}

impl<'a> ReliableOrderedDeliveryState<'a> {
    pub open spec fn model(self) -> DeliveryModel {
        DeliveryModel {
            rx: self.rx_buffer@,
            held: self.assembler@,
            next: self.remote_seq_no,
        }
    }

    /// `self` and `other` differ in what receiving data changes, and in nothing else.
    pub open spec fn same_but_received(self, other: ReliableOrderedDeliveryState<'a>) -> bool {
        self == ReliableOrderedDeliveryState {
            rx_buffer: self.rx_buffer,
            assembler: self.assembler,
            remote_seq_no: self.remote_seq_no,
            ..other
        }
    }
}

} // verus!
