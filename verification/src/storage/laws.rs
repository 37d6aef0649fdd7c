use crate::storage::assembler::{
    front_run_is_unique, run_count, run_starts, span, Assembler, TooManyHolesError,
};
use crate::storage::managed::ManagedSlice;
use crate::storage::ring_buffer::SocketBuffer;
use vstd::prelude::*;

verus! {

/// Octets in up to three ranges, however these lie, are at most three runs.
pub proof fn three_ranges_are_few_runs(s: Set<int>, a: int, b: int, c: int, d: int, e: int, f: int)
    requires
        forall|k: int| #[trigger]
            s.contains(k) <==> a <= k < b || c <= k < d || e <= k < f,
    ensures
        run_count(s) <= 3,
{
    let starts = set![a, c, e];
    assert forall|k: int| run_starts(s).contains(k) implies starts.contains(k) by {
        assert(s.contains(k) && !s.contains(k - 1));
    }
    vstd::set_lib::lemma_len_subset(run_starts(s), starts);
    assert(starts =~= Set::<int>::empty().insert(a).insert(c).insert(e));
}

/// Octets in four ranges with a gap between each and the next are exactly four runs.
pub proof fn four_separate_ranges_are_four_runs(
    s: Set<int>,
    a: int,
    b: int,
    c: int,
    d: int,
    e: int,
    f: int,
    g: int,
    h: int,
)
    requires
        a < b < c < d < e < f < g < h,
        forall|k: int| #[trigger]
            s.contains(k) <==> a <= k < b || c <= k < d || e <= k < f || g <= k < h,
    ensures
        run_count(s) == 4,
{
    let starts = Set::<int>::empty().insert(a).insert(c).insert(e).insert(g);
    assert forall|k: int| run_starts(s).contains(k) == starts.contains(k) by {
        assert(run_starts(s).contains(k) == (s.contains(k) && !s.contains(k - 1)));
    }
    assert(run_starts(s) =~= starts);
}

/// Adding fails for a fifth run only, and then changes nothing; else exactly the octets of the
/// range join what is there, whatever the length of the range.
pub proof fn only_a_fifth_run_is_refused(
    assembler: &mut Assembler,
    offset: usize,
    size: usize,
    r: Result<(), TooManyHolesError>,
)
    requires
        call_ensures(Assembler::add, (assembler, offset, size), r),
    ensures
        r is Err <==> {
            &&& size > 0
            &&& run_count(old(assembler)@) == 4
            &&& forall|k: int|
                offset - 1 <= k <= offset + size ==> !#[trigger] old(assembler)@.contains(k)
        },
        r is Err ==> *final(assembler) == *old(assembler),
        r is Ok ==> forall|k: int| #[trigger]
            final(assembler)@.contains(k) <==> old(assembler)@.contains(k) || offset <= k < offset
                + size,
{
}

/// What is added first and what second makes no difference.
pub proof fn adding_commutes(
    one: &mut Assembler,
    one_then: &mut Assembler,
    other: &mut Assembler,
    other_then: &mut Assembler,
    a: usize,
    m: usize,
    b: usize,
    n: usize,
)
    requires
        old(one)@ == old(other)@,
        old(one_then)@ == final(one)@,
        old(other_then)@ == final(other)@,
        call_ensures(Assembler::add, (one, a, m), Ok(())),
        call_ensures(Assembler::add, (one_then, b, n), Ok(())),
        call_ensures(Assembler::add, (other, b, n), Ok(())),
        call_ensures(Assembler::add, (other_then, a, m), Ok(())),
    ensures
        final(one_then)@ == final(other_then)@,
{
    assert(final(one_then)@ =~= final(other_then)@);
}

/// What is taken from the front is all that is there without a gap, and what is left is the
/// rest, counted from where that ended.
pub proof fn front_is_taken_whole(assembler: &mut Assembler, r: usize)
    requires
        call_ensures(Assembler::remove_front, (assembler,), r),
    ensures
        forall|k: int| 0 <= k < r ==> #[trigger] old(assembler)@.contains(k),
        !old(assembler)@.contains(r as int),
        forall|k: int| #[trigger]
            final(assembler)@.contains(k) <==> k >= 0 && old(assembler)@.contains(k + r),
{
}

/// To add and take from the front in one step is to do so in two, except that at the front the
/// one step never fails.
pub proof fn one_step_is_two(
    both: &mut Assembler,
    first: &mut Assembler,
    second: &mut Assembler,
    offset: usize,
    size: usize,
    r: Result<usize, TooManyHolesError>,
    r1: Result<(), TooManyHolesError>,
    r2: usize,
)
    requires
        *old(first) == *old(both),
        *old(second) == *final(first),
        call_ensures(Assembler::add_then_remove_front, (both, offset, size), r),
        call_ensures(Assembler::add, (first, offset, size), r1),
        call_ensures(Assembler::remove_front, (second,), r2),
    ensures
        r1 is Ok ==> r == Ok::<usize, TooManyHolesError>(r2) && final(both)@ == final(second)@,
        r1 is Err && offset > 0 ==> r is Err && *final(both) == *old(both),
        offset == 0 ==> r is Ok,
{
    if r1 is Ok {
        front_run_is_unique(old(second)@, r2 as int);
    }
}

/// What is added at the front is taken from it, with all that follows without a gap.
pub proof fn front_is_never_held_back(
    assembler: &mut Assembler,
    size: usize,
    r: Result<usize, TooManyHolesError>,
)
    requires
        call_ensures(Assembler::add_then_remove_front, (assembler, 0, size), r),
    ensures
        r matches Ok(n) && {
            &&& size <= n
            &&& forall|k: int| size <= k < n ==> #[trigger] old(assembler)@.contains(k)
            &&& !old(assembler)@.contains(n as int)
            &&& forall|k: int| #[trigger]
                final(assembler)@.contains(k) <==> k >= 0 && old(assembler)@.contains(k + n)
        },
{
    let n = r->Ok_0 as int;
    let there = old(assembler)@.union(span(0, size as int));
    if n < size {
        assert(there.contains(n));
    }
    assert forall|k: int| size <= k < n implies #[trigger] old(assembler)@.contains(k) by {
        assert(there.contains(k));
    }
}

/// A new assembler is empty, and one is empty exactly when it holds no octet.
pub proof fn empty_assembler_holds_nothing(fresh: Assembler, assembler: &Assembler, r: bool)
    requires
        call_ensures(Assembler::new, (), fresh),
        call_ensures(Assembler::is_empty, (assembler,), r),
    ensures
        forall|k: int| !fresh@.contains(k),
        r <==> forall|k: int| !assembler@.contains(k),
{
    if forall|k: int| !assembler@.contains(k) {
        assert(assembler@ =~= Set::<int>::empty());
    }
}

/// A new buffer has an empty queue, and all of its storage is free.
pub proof fn new_buffer_is_free<'a>(storage: Vec<u8>, r: SocketBuffer<'a>)
    requires
        call_ensures(SocketBuffer::new, (storage,), r),
    ensures
        r@.data.len() == 0,
        r@.free.len() == storage@.len(),
        forall|i: int| 0 <= i < storage@.len() ==> #[trigger] r@.free[i] == storage@[i],
{
}

/// A new buffer on lent storage is just as free.
pub proof fn lent_buffer_is_free<'a>(storage: &'a mut [u8], r: SocketBuffer<'a>)
    requires
        call_ensures(SocketBuffer::borrowed, (storage,), r),
    ensures
        r@.data.len() == 0,
        r@.free.len() == old(storage)@.len(),
        forall|i: int| 0 <= i < old(storage)@.len() ==> #[trigger] r@.free[i] == old(storage)@[i],
{
}

/// A buffer says how much is enqueued and how much is free.
pub proof fn buffer_says_its_size(buffer: &SocketBuffer, len: usize, window: usize)
    requires
        call_ensures(SocketBuffer::len, (buffer,), len),
        call_ensures(SocketBuffer::window, (buffer,), window),
    ensures
        len == buffer@.data.len(),
        window == buffer@.free.len(),
{
}

/// Writing puts each octet in its place behind the queue, as far as there is free space, and
/// changes nothing else. It returns how many were put.
pub proof fn writing_hits_its_place(
    buffer: &mut SocketBuffer,
    offset: usize,
    bytes: &[u8],
    r: usize,
)
    requires
        call_ensures(SocketBuffer::write_unallocated, (buffer, offset, bytes), r),
    ensures
        final(buffer)@.data == old(buffer)@.data,
        final(buffer)@.free.len() == old(buffer)@.free.len(),
        forall|i: int|
            0 <= i < r ==> #[trigger] bytes@[i] == final(buffer)@.free[offset + i],
        forall|i: int|
            0 <= i < old(buffer)@.free.len() && !(offset <= i < offset + r)
                ==> #[trigger] final(buffer)@.free[i] == old(buffer)@.free[i],
        r <= bytes@.len(),
        r > 0 ==> offset + r <= old(buffer)@.free.len(),
        r < bytes@.len() ==> offset + r >= old(buffer)@.free.len(),
{
}

/// Enqueueing makes the first free octets the last ones of the queue, as they were written.
pub proof fn enqueueing_moves_the_border(buffer: &mut SocketBuffer, count: usize)
    requires
        call_ensures(SocketBuffer::enqueue_unallocated, (buffer, count), ()),
        count <= old(buffer)@.free.len(),
    ensures
        final(buffer)@.data.len() == old(buffer)@.data.len() + count,
        final(buffer)@.free.len() == old(buffer)@.free.len() - count,
        final(buffer)@.data + final(buffer)@.free == old(buffer)@.data + old(buffer)@.free,
{
    assert(final(buffer)@.data + final(buffer)@.free =~= old(buffer)@.data + old(buffer)@.free);
}

/// What is enqueued follows what is in the queue, octet for octet, as much as there is room for.
pub proof fn enqueued_octets_follow(buffer: &mut SocketBuffer, bytes: &[u8], r: usize)
    requires
        call_ensures(SocketBuffer::enqueue_slice, (buffer, bytes), r),
    ensures
        r <= bytes@.len(),
        r <= old(buffer)@.free.len(),
        r == bytes@.len() || r == old(buffer)@.free.len(),
        final(buffer)@.data.len() == old(buffer)@.data.len() + r,
        final(buffer)@.free.len() == old(buffer)@.free.len() - r,
        forall|i: int|
            0 <= i < old(buffer)@.data.len() ==> #[trigger] final(buffer)@.data[i] == old(
                buffer,
            )@.data[i],
        forall|i: int|
            0 <= i < r ==> #[trigger] bytes@[i] == final(buffer)@.data[old(buffer)@.data.len() + i],
        forall|i: int|
            0 <= i < final(buffer)@.free.len() ==> #[trigger] final(buffer)@.free[i] == old(
                buffer,
            )@.free[i + r],
{
}

/// What is dequeued are the oldest octets, in order, as many as there are and as fit. The rest
/// of the queue and of the free space stay, and what left is free again at the far end.
pub proof fn dequeued_octets_are_the_oldest(
    buffer: &mut SocketBuffer,
    bytes: &mut [u8],
    r: usize,
)
    requires
        call_ensures(SocketBuffer::dequeue_slice, (buffer, bytes), r),
    ensures
        r <= old(bytes)@.len(),
        r <= old(buffer)@.data.len(),
        r == old(bytes)@.len() || r == old(buffer)@.data.len(),
        final(bytes)@.len() == old(bytes)@.len(),
        forall|i: int| 0 <= i < r ==> #[trigger] final(bytes)@[i] == old(buffer)@.data[i],
        forall|i: int|
            r <= i < old(bytes)@.len() ==> #[trigger] final(bytes)@[i] == old(bytes)@[i],
        final(buffer)@.data.len() == old(buffer)@.data.len() - r,
        forall|i: int|
            0 <= i < final(buffer)@.data.len() ==> #[trigger] final(buffer)@.data[i] == old(
                buffer,
            )@.data[i + r],
        final(buffer)@.free.len() == old(buffer)@.free.len() + r,
        forall|i: int|
            0 <= i < old(buffer)@.free.len() ==> #[trigger] final(buffer)@.free[i] == old(
                buffer,
            )@.free[i],
        forall|i: int|
            0 <= i < r ==> #[trigger] old(buffer)@.data[i] == final(buffer)@.free[old(
                buffer,
            )@.free.len() + i],
{
}

/// What goes into an empty queue comes out of it, octet for octet.
pub proof fn what_goes_in_comes_out(
    filled: &mut SocketBuffer,
    drained: &mut SocketBuffer,
    put: &[u8],
    got: &mut [u8],
    r1: usize,
    r2: usize,
)
    requires
        call_ensures(SocketBuffer::enqueue_slice, (filled, put), r1),
        call_ensures(SocketBuffer::dequeue_slice, (drained, got), r2),
        old(filled)@.data.len() == 0,
        put@.len() <= old(filled)@.free.len(),
        old(got)@.len() == put@.len(),
        *old(drained) == *final(filled),
    ensures
        r1 == put@.len(),
        r2 == put@.len(),
        final(got)@ == put@,
        final(drained)@.data.len() == 0,
        final(drained)@.free.len() == old(filled)@.free.len(),
{
    assert(final(got)@ =~= put@);
}

/// Octets that are set are read back, and the others stay, whoever owns them.
pub proof fn octet_set_is_read_back(
    slice: &mut ManagedSlice,
    after: &ManagedSlice,
    i: usize,
    octet: u8,
    j: usize,
    r: u8,
    len: usize,
)
    requires
        call_ensures(ManagedSlice::set, (slice, i, octet), ()),
        call_ensures(ManagedSlice::get, (after, j), r),
        call_ensures(ManagedSlice::len, (after,), len),
        *after == *final(slice),
        i < old(slice)@.len(),
        j < old(slice)@.len(),
    ensures
        j == i ==> r == octet,
        j != i ==> r == old(slice)@[j as int],
        len == old(slice)@.len(),
{
}

/// Any range within the machine word can be added, and as much enqueued as is free.
pub proof fn storage_can_be_used(
    assembler: &mut Assembler,
    offset: usize,
    size: usize,
    buffer: &mut SocketBuffer,
    bytes: &[u8],
)
    requires
        old(assembler).wf(),
        old(buffer).wf(),
        offset + size <= usize::MAX,
    ensures
        call_requires(Assembler::add, (assembler, offset, size)),
        call_requires(Assembler::add_then_remove_front, (assembler, offset, size)),
        call_requires(Assembler::remove_front, (assembler,)),
        call_requires(SocketBuffer::write_unallocated, (buffer, offset, bytes)),
        size <= old(buffer)@.free.len() ==> call_requires(
            SocketBuffer::enqueue_unallocated,
            (buffer, size),
        ),
        call_requires(SocketBuffer::enqueue_slice, (buffer, bytes)),
{
}

} // verus!
