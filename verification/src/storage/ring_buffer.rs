use crate::storage::managed::ManagedSlice;
use vstd::prelude::*;

verus! {

/// What a [`SocketBuffer`] holds: the octets that are enqueued, oldest first, and the octets
/// behind them that are still free, nearest first.
#[verifier::ext_equal]
pub struct BufferModel {
    pub data: Seq<u8>,
    pub free: Seq<u8>,
}

/// `under` with `over` laid on it from position `at` on. What falls outside is cut off.
pub open spec fn overlay(under: Seq<u8>, at: int, over: Seq<u8>) -> Seq<u8> {
    Seq::new(
        under.len(),
        |i: int|
            if at <= i < at + over.len() {
                over[i - at]
            } else {
                under[i]
            },
    )
}

impl BufferModel {
    /// `bytes` written behind the enqueued octets, `offset` positions after the first free one.
    pub open spec fn write(self, offset: int, bytes: Seq<u8>) -> BufferModel {
        BufferModel { data: self.data, free: overlay(self.free, offset, bytes) }
    }

    /// The first `count` free positions become enqueued octets, with what was written to them.
    pub open spec fn enqueue(self, count: int) -> BufferModel {
        BufferModel { data: self.data + self.free.take(count), free: self.free.skip(count) }
    }

    /// The oldest `count` octets leave; their positions become the last free ones.
    pub open spec fn dequeue(self, count: int) -> BufferModel {
        BufferModel { data: self.data.skip(count), free: self.free + self.data.take(count) }
    }
}

/// A ring buffer of octets.
///
/// Besides a queue it is a window of free space behind the queue, which can be written in any
/// order before it is enqueued.
#[derive(Debug)]
pub struct SocketBuffer<'a> {
    storage: ManagedSlice<'a>,
    read_at: usize,
    length: usize,
}

impl<'a> View for SocketBuffer<'a> {
    type V = BufferModel;

    closed spec fn view(&self) -> BufferModel {
        BufferModel {
            data: self.slots().take(self.length as int),
            free: self.slots().skip(self.length as int),
        }
    }
}

impl<'a> SocketBuffer<'a> {
    /// The read position lies in the storage, and no more is enqueued than there is storage.
    pub closed spec fn wf(&self) -> bool {
        &&& self.read_at < self.storage@.len() || self.read_at == 0
        &&& self.length <= self.storage@.len()
    }

    /// The place in the storage that is `i` positions after the read position.
    spec fn place(&self, i: int) -> int {
        if self.read_at + i < self.storage@.len() {
            self.read_at + i
        } else {
            self.read_at + i - self.storage@.len()
        }
    }

    /// The storage, from the read position once round.
    spec fn slots(&self) -> Seq<u8> {
        Seq::new(self.storage@.len(), |i: int| self.storage@[self.place(i)])
    }

    fn on(storage: ManagedSlice<'a>) -> (r: SocketBuffer<'a>)
        ensures
            r.wf(),
            r@.data == Seq::<u8>::empty(),
            r@.free == storage@,
    {
        let r = SocketBuffer { storage, read_at: 0, length: 0 };
        assert(r.slots() =~= r.storage@);
        assert(r@.data =~= Seq::<u8>::empty());
        assert(r@.free =~= r.storage@);
        r
    }

    /// Creates an empty ring buffer that owns its storage.
    pub fn new(storage: Vec<u8>) -> (r: SocketBuffer<'a>)
        ensures
            r.wf(),
            r@.data == Seq::<u8>::empty(),
            r@.free == storage@,
    {
        SocketBuffer::on(ManagedSlice::Owned(storage))
    }

    /// Creates an empty ring buffer on storage that is lent to it.
    pub fn borrowed(storage: &'a mut [u8]) -> (r: SocketBuffer<'a>)
        ensures
            r.wf(),
            r@.data == Seq::<u8>::empty(),
            r@.free == old(storage)@,
    {
        SocketBuffer::on(ManagedSlice::Borrowed(storage))
    }

    /// The number of octets that are enqueued.
    pub fn len(&self) -> (r: usize)
        requires
            self.wf(),
        ensures
            r == self@.data.len(),
    {
        self.length
    }

    /// The number of octets that can still be enqueued.
    pub fn window(&self) -> (r: usize)
        requires
            self.wf(),
        ensures
            r == self@.free.len(),
    {
        self.storage.len() - self.length
    }

    fn index_of(&self, i: usize) -> (r: usize)
        requires
            self.wf(),
            i < self.storage@.len(),
        ensures
            r == self.place(i as int),
            r < self.storage@.len(),
    {
        let until_end: usize = self.storage.len() - self.read_at;
        if i < until_end {
            self.read_at + i
        } else {
            i - until_end
        }
    }

    /// Writes as much of `bytes` as fits into the free space, `offset` positions after the
    /// first free one, and returns how much that is.
    pub fn write_unallocated(&mut self, offset: usize, bytes: &[u8]) -> (r: usize)
        requires
            old(self).wf(),
        ensures
            final(self).wf(),
            final(self)@ == old(self)@.write(offset as int, bytes@),
            r == if offset >= old(self)@.free.len() {
                0
            } else if bytes@.len() <= old(self)@.free.len() - offset {
                bytes@.len() as int
            } else {
                old(self)@.free.len() - offset
            },
    {
        let window: usize = self.window();
        if offset >= window {
            assert(self@.free =~= old(self)@.write(offset as int, bytes@).free);
            return 0;
        }
        let room: usize = window - offset;
        let size: usize = if bytes.len() <= room {
            bytes.len()
        } else {
            room
        };
        let ghost cap = self.storage@.len();
        proof {
            self.storage.lemma_len_fits();
        }
        let first: usize = self.length + offset;
        let ghost slots = self.slots();
        let mut i: usize = 0;
        while i < size
            invariant
                i <= size <= bytes@.len(),
                first + size <= cap <= usize::MAX,
                self.wf(),
                self.storage@.len() == cap,
                self.read_at == old(self).read_at,
                self.length == old(self).length,
                slots.len() == cap,
                forall|j: int|
                    0 <= j < cap ==> #[trigger] self.slots()[j] == if first <= j < first + i {
                        bytes@[j - first]
                    } else {
                        slots[j]
                    },
            decreases size - i,
        {
            let ghost before = self.slots();
            let at: usize = self.index_of(first + i);
            self.storage.set(at, bytes[i]);
            proof {
                assert forall|j: int| 0 <= j < cap implies #[trigger] self.slots()[j] == if first
                    <= j < first + i + 1 {
                    bytes@[j - first]
                } else {
                    slots[j]
                } by {
                    assert(before[j] == if first <= j < first + i {
                        bytes@[j - first]
                    } else {
                        slots[j]
                    });
                }
            }
            i = i + 1;
        }
        proof {
            assert(self@.data =~= old(self)@.data);
            assert(self@.free =~= old(self)@.write(offset as int, bytes@).free);
        }
        size
    }

    /// Enqueues the first `count` free octets, as they have been written.
    pub fn enqueue_unallocated(&mut self, count: usize)
        requires
            old(self).wf(),
            count <= old(self)@.free.len(),
        ensures
            final(self).wf(),
            final(self)@ == old(self)@.enqueue(count as int),
    {
        proof {
            self.storage.lemma_len_fits();
        }
        self.length = self.length + count;
        proof {
            assert(self.slots() =~= old(self).slots());
            assert(self@.data =~= old(self)@.enqueue(count as int).data);
            assert(self@.free =~= old(self)@.enqueue(count as int).free);
        }
    }

    /// Enqueues as much of `bytes` as there is room for, and returns how much that is.
    pub fn enqueue_slice(&mut self, bytes: &[u8]) -> (r: usize)
        requires
            old(self).wf(),
        ensures
            final(self).wf(),
            r == if bytes@.len() <= old(self)@.free.len() {
                bytes@.len() as int
            } else {
                old(self)@.free.len() as int
            },
            final(self)@.data == old(self)@.data + bytes@.take(r as int),
            final(self)@.free == old(self)@.free.skip(r as int),
    {
        let size: usize = self.write_unallocated(0, bytes);
        self.enqueue_unallocated(size);
        proof {
            assert(self@.data =~= old(self)@.data + bytes@.take(size as int));
            assert(self@.free =~= old(self)@.free.skip(size as int));
        }
        size
    }

    /// Moves as many of the oldest octets as there are and as fit into `bytes`, and returns how
    /// many these are.
    pub fn dequeue_slice(&mut self, bytes: &mut [u8]) -> (r: usize)
        requires
            old(self).wf(),
        ensures
            final(self).wf(),
            r == if old(bytes)@.len() <= old(self)@.data.len() {
                old(bytes)@.len() as int
            } else {
                old(self)@.data.len() as int
            },
            final(bytes)@ == overlay(old(bytes)@, 0, old(self)@.data.take(r as int)),
            final(self)@ == old(self)@.dequeue(r as int),
    {
        let size: usize = if bytes.len() <= self.length {
            bytes.len()
        } else {
            self.length
        };
        let ghost before = bytes@;
        let mut i: usize = 0;
        while i < size
            invariant
                i <= size <= self.length,
                size <= before.len(),
                self.wf(),
                *self == *old(self),
                bytes@ =~= overlay(before, 0, self@.data.take(i as int)),
            decreases size - i,
        {
            let at: usize = self.index_of(i);
            bytes[i] = self.storage.get(at);
            i = i + 1;
        }
        if size > 0 {
            let until_end: usize = self.storage.len() - self.read_at;
            self.read_at = if size < until_end {
                self.read_at + size
            } else {
                size - until_end
            };
        }
        self.length = self.length - size;
        proof {
            assert(self@.data =~= old(self)@.dequeue(size as int).data);
            assert(self@.free =~= old(self)@.dequeue(size as int).free);
        }
        size
    }
}

/// No operation changes how much fits into a buffer.
pub proof fn capacity_is_constant(m: BufferModel, offset: int, bytes: Seq<u8>, count: int)
    ensures
        ({
            let capacity = m.data.len() + m.free.len();
            let written = m.write(offset, bytes);
            &&& written.data.len() + written.free.len() == capacity
            &&& 0 <= count <= m.free.len() ==> {
                let enqueued = m.enqueue(count);
                enqueued.data.len() + enqueued.free.len() == capacity
            }
            &&& 0 <= count <= m.data.len() ==> {
                let dequeued = m.dequeue(count);
                dequeued.data.len() + dequeued.free.len() == capacity
            }
        }),
{
}

/// What is written and enqueued comes out behind what was there, as it was written.
pub proof fn queue_is_fifo(m: BufferModel, bytes: Seq<u8>)
    requires
        bytes.len() <= m.free.len(),
    ensures
        ({
            let enqueued = m.write(0, bytes).enqueue(bytes.len() as int);
            &&& enqueued.data == m.data + bytes
            &&& enqueued.dequeue(m.data.len() as int).data == bytes
        }),
{
    let enqueued = m.write(0, bytes).enqueue(bytes.len() as int);
    assert(enqueued.data =~= m.data + bytes);
    assert(enqueued.dequeue(m.data.len() as int).data =~= bytes);
}

} // verus!
