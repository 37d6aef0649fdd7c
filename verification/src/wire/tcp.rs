use crate::wire::seq::TcpSeqNumber;
use vstd::prelude::*;

verus! {

/// The control flag of a TCP segment. `Plain` is a segment without one.
#[derive(Debug, Clone, Copy, PartialEq, Eq, Structural)]
pub enum TcpControl {
    Plain,
    Psh,
    Syn,
    Fin,
    Rst,
}

impl TcpControl {
    /// How much sequence space the flag takes up.
    pub open spec fn space(self) -> int {
        if self is Syn || self is Fin {
            1
        } else {
            0
        }
    }

    /// The length of the control flag in terms of sequence space.
    pub fn len(self) -> (r: usize)
        ensures
            r == self.space(),
    {
        match self {
            TcpControl::Syn | TcpControl::Fin => 1,
            _ => 0,
        }
    }
}

/// The timestamp option of a TCP segment.
#[derive(Debug, Clone, Copy, PartialEq, Eq, Structural)]
pub struct TcpTimestampRepr {
    pub tsval: u32,
    pub tsecr: u32,
}

/// A TCP segment.
#[derive(Debug, Clone, Copy, PartialEq, Eq)]
pub struct TcpRepr<'a> {
    pub src_port: u16,
    pub dst_port: u16,
    pub control: TcpControl,
    pub seq_number: TcpSeqNumber,
    pub ack_number: Option<TcpSeqNumber>,
    pub window_len: u16,
    pub window_scale: Option<u8>,
    pub max_seg_size: Option<u16>,
    pub sack_permitted: bool,
    pub sack_ranges: [Option<(u32, u32)>; 3],
    pub timestamp: Option<TcpTimestampRepr>,
    pub payload: &'a [u8],
}

/// What a [`TcpRepr`] says, with its sequences as mathematical ones.
#[verifier::ext_equal]
pub struct TcpSegment {
    pub src_port: u16,
    pub dst_port: u16,
    pub control: TcpControl,
    pub seq_number: TcpSeqNumber,
    pub ack_number: Option<TcpSeqNumber>,
    pub window_len: u16,
    pub window_scale: Option<u8>,
    pub max_seg_size: Option<u16>,
    pub sack_permitted: bool,
    pub sack_ranges: Seq<Option<(u32, u32)>>,
    pub timestamp: Option<TcpTimestampRepr>,
    pub payload: Seq<u8>,
}

impl<'a> View for TcpRepr<'a> {
    type V = TcpSegment;

    open spec fn view(&self) -> TcpSegment {
        TcpSegment {
            src_port: self.src_port,
            dst_port: self.dst_port,
            control: self.control,
            seq_number: self.seq_number,
            ack_number: self.ack_number,
            window_len: self.window_len,
            window_scale: self.window_scale,
            max_seg_size: self.max_seg_size,
            sack_permitted: self.sack_permitted,
            sack_ranges: self.sack_ranges@,
            timestamp: self.timestamp,
            payload: self.payload@,
        }
    }
}

impl TcpSegment {
    /// The sequence space that the segment takes up.
    pub open spec fn space(self) -> int {
        self.payload.len() + self.control.space()
    }

    /// The number of selective acknowledgement ranges.
    pub open spec fn sack_count(self) -> int {
        (if self.sack_ranges[0] is Some { 1int } else { 0 })
            + (if self.sack_ranges[1] is Some { 1int } else { 0 })
            + (if self.sack_ranges[2] is Some { 1int } else { 0 })
    }

    /// The length of the options: 4 octets for the maximum segment size, 3 for the window
    /// scale, 2 for permitting selective acknowledgement, 10 for the timestamp, and 2 and 8
    /// for each range for selective acknowledgement.
    pub open spec fn options_len(self) -> int {
        (if self.max_seg_size is Some { 4int } else { 0 })
            + (if self.window_scale is Some { 3int } else { 0 })
            + (if self.sack_permitted { 2int } else { 0 })
            + (if self.timestamp is Some { 10int } else { 0 })
            + (if self.sack_count() > 0 { 2 + 8 * self.sack_count() } else { 0 })
    }

    /// The length of the header: 20 octets and the options, padded to a multiple of 4.
    pub open spec fn header_len(self) -> int {
        20 + (self.options_len() + 3) / 4 * 4
    }
}

impl<'a> TcpRepr<'a> {
    /// The length of the header, including all options.
    pub fn header_len(&self) -> (r: usize)
        ensures
            r == self@.header_len(),
            20 <= r <= 68,
    {
        let mut length: usize = 20;
        if self.max_seg_size.is_some() {
            length = length + 4;
        }
        if self.window_scale.is_some() {
            length = length + 3;
        }
        if self.sack_permitted {
            length = length + 2;
        }
        if self.timestamp.is_some() {
            length = length + 10;
        }
        assert(length <= 39);
        let mut sack_range_len: usize = 0;
        if self.sack_ranges[0].is_some() {
            sack_range_len = sack_range_len + 8;
        }
        if self.sack_ranges[1].is_some() {
            sack_range_len = sack_range_len + 8;
        }
        if self.sack_ranges[2].is_some() {
            sack_range_len = sack_range_len + 8;
        }
        assert(sack_range_len == 8 * self@.sack_count());
        if sack_range_len > 0 {
            length = length + sack_range_len + 2;
        }
        assert(length == 20 + self@.options_len());
        if length % 4 != 0 {
            length = length + (4 - length % 4);
        }
        length
    }

    /// The length of the segment once emitted: header and payload.
    pub fn buffer_len(&self) -> (r: usize)
        requires
            self@.header_len() + self@.payload.len() <= usize::MAX,
        ensures
            r == self@.header_len() + self@.payload.len(),
    {
        self.header_len() + self.payload.len()
    }

    /// The length of the segment in terms of sequence space.
    pub fn segment_len(&self) -> (r: usize)
        requires
            self@.space() <= usize::MAX,
        ensures
            r == self@.space(),
    {
        self.payload.len() + self.control.len()
    }
}

} // verus!
