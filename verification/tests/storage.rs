use vtcp::{Assembler, SocketBuffer, TooManyHolesError};

fn contents(buffer: &mut SocketBuffer) -> Vec<u8> {
    let mut bytes = vec![0; buffer.len()];
    assert_eq!(buffer.dequeue_slice(&mut bytes), bytes.len());
    bytes
}

#[test]
fn assembler_starts_empty() {
    assert!(Assembler::new().is_empty());
}

#[test]
fn assembler_ignores_an_empty_range() {
    let mut a = Assembler::new();
    assert_eq!(a.add(7, 0), Ok(()));
    assert!(a.is_empty());
}

#[test]
fn assembler_joins_ranges_in_any_order() {
    let ranges = [(4, 3), (1, 3), (9, 2), (7, 2)];
    for order in [[0, 1, 2, 3], [3, 2, 1, 0], [2, 0, 3, 1], [1, 3, 0, 2]] {
        let mut a = Assembler::new();
        for i in order {
            assert_eq!(a.add(ranges[i].0, ranges[i].1), Ok(()));
        }
        assert_eq!(a.remove_front(), 0);
        assert_eq!(a.add_then_remove_front(0, 1), Ok(11));
        assert!(a.is_empty());
    }
}

#[test]
fn assembler_keeps_what_follows_a_gap() {
    let mut a = Assembler::new();
    assert_eq!(a.add(2, 2), Ok(()));
    assert_eq!(a.add(6, 2), Ok(()));
    assert_eq!(a.add_then_remove_front(0, 2), Ok(4));
    assert!(!a.is_empty());
    assert_eq!(a.add_then_remove_front(0, 1), Ok(1));
    assert_eq!(a.add_then_remove_front(0, 1), Ok(3));
    assert!(a.is_empty());
}

#[test]
fn assembler_swallows_overlapped_ranges() {
    let mut a = Assembler::new();
    assert_eq!(a.add(2, 1), Ok(()));
    assert_eq!(a.add(4, 1), Ok(()));
    assert_eq!(a.add(6, 4), Ok(()));
    assert_eq!(a.add(1, 6), Ok(()));
    assert_eq!(a.add_then_remove_front(0, 1), Ok(10));
}

#[test]
fn assembler_extends_into_the_next_hole() {
    let mut a = Assembler::new();
    assert_eq!(a.add(1, 2), Ok(()));
    assert_eq!(a.add(8, 2), Ok(()));
    assert_eq!(a.add(2, 4), Ok(()));
    assert_eq!(a.add_then_remove_front(0, 1), Ok(6));
    assert_eq!(a.add_then_remove_front(0, 2), Ok(4));
}

#[test]
fn assembler_refuses_a_fifth_run() {
    let mut a = Assembler::new();
    for i in 0..4 {
        assert_eq!(a.add(2 + 4 * i, 1), Ok(()));
    }
    assert_eq!(a.add(20, 1), Err(TooManyHolesError));
    assert_eq!(a.add(4, 1), Err(TooManyHolesError));
    assert_eq!(a.add(0, 1), Err(TooManyHolesError));
    assert_eq!(a.add_then_remove_front(4, 1), Err(TooManyHolesError));
    // A range that borders on a run is no run of its own.
    assert_eq!(a.add(15, 1), Ok(()));
    assert_eq!(a.add(13, 1), Ok(()));
    // And what is expected next is always taken.
    assert_eq!(a.add_then_remove_front(0, 1), Ok(1));
    assert_eq!(a.add_then_remove_front(0, 1), Ok(2));
}

#[test]
fn assembler_takes_a_front_run_only() {
    let mut a = Assembler::new();
    assert_eq!(a.remove_front(), 0);
    assert_eq!(a.add(0, 3), Ok(()));
    assert_eq!(a.remove_front(), 3);
    assert_eq!(a.remove_front(), 0);
}

#[test]
fn buffer_is_a_queue() {
    let mut buffer = SocketBuffer::new(vec![0; 8]);
    assert_eq!(buffer.enqueue_slice(b"abc"), 3);
    assert_eq!(buffer.enqueue_slice(b"de"), 2);
    assert_eq!((buffer.len(), buffer.window()), (5, 3));
    let mut bytes = [0; 4];
    assert_eq!(buffer.dequeue_slice(&mut bytes), 4);
    assert_eq!(&bytes, b"abcd");
    assert_eq!(contents(&mut buffer), b"e");
    assert_eq!((buffer.len(), buffer.window()), (0, 8));
}

#[test]
fn buffer_wraps_around() {
    let mut buffer = SocketBuffer::new(vec![0; 4]);
    assert_eq!(buffer.enqueue_slice(b"abc"), 3);
    let mut bytes = [0; 2];
    assert_eq!(buffer.dequeue_slice(&mut bytes), 2);
    assert_eq!(buffer.enqueue_slice(b"defgh"), 3);
    assert_eq!(buffer.window(), 0);
    assert_eq!(contents(&mut buffer), b"cdef");
}

#[test]
fn buffer_is_written_out_of_order() {
    let mut buffer = SocketBuffer::new(vec![0; 6]);
    assert_eq!(buffer.write_unallocated(3, b"def"), 3);
    assert_eq!(buffer.len(), 0);
    assert_eq!(buffer.write_unallocated(0, b"abc"), 3);
    buffer.enqueue_unallocated(6);
    assert_eq!(contents(&mut buffer), b"abcdef");
}

#[test]
fn buffer_cuts_off_what_does_not_fit() {
    let mut buffer = SocketBuffer::new(vec![0; 4]);
    assert_eq!(buffer.write_unallocated(2, b"wxyz"), 2);
    assert_eq!(buffer.write_unallocated(4, b"no"), 0);
    assert_eq!(buffer.write_unallocated(5, b"no"), 0);
    buffer.enqueue_unallocated(4);
    assert_eq!(contents(&mut buffer), [0, 0, b'w', b'x']);
    let mut bytes = [9; 3];
    assert_eq!(buffer.dequeue_slice(&mut bytes), 0);
    assert_eq!(bytes, [9; 3]);
}

#[test]
fn buffer_without_storage_holds_nothing() {
    let mut buffer = SocketBuffer::new(vec![]);
    assert_eq!(buffer.enqueue_slice(b"a"), 0);
    assert_eq!((buffer.len(), buffer.window()), (0, 0));
}

#[test]
fn buffer_works_on_lent_storage() {
    let mut storage = [0; 3];
    let mut buffer = SocketBuffer::borrowed(&mut storage);
    assert_eq!(buffer.enqueue_slice(b"abcd"), 3);
    assert_eq!(contents(&mut buffer), b"abc");
}
