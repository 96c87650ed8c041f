use ring_buf::{ByteArray, RingBuf};

#[test]
fn new_buffer_is_empty() {
    let rbuf = RingBuf::new([0u8; 8], 8);
    assert_eq!(rbuf.cap(), 8);
    assert_eq!(rbuf.len(), 0);
    assert_eq!(rbuf.rem(), 8);
    assert!(rbuf.is_empty());
    assert!(!rbuf.is_full());
}

#[test]
fn dequeue_on_empty_gives_nothing_and_changes_nothing() {
    let mut rbuf = RingBuf::new([0u8; 8], 8);
    assert_eq!(rbuf.dequeue(), None);
    assert_eq!(rbuf.len(), 0);
    assert!(rbuf.is_empty());
    assert!(rbuf.enqueue(9));
    assert_eq!(rbuf.dequeue(), Some(9));
    assert_eq!(rbuf.dequeue(), None);
    assert_eq!(rbuf.len(), 0);
}

#[test]
fn enqueue_on_full_is_refused_and_changes_nothing() {
    let mut rbuf = RingBuf::new([0u8; 3], 3);
    assert!(rbuf.enqueue(1));
    assert!(rbuf.enqueue(2));
    assert!(rbuf.enqueue(3));
    assert!(rbuf.is_full());
    assert!(!rbuf.is_empty());
    assert_eq!(rbuf.enqueue(4), false);
    assert_eq!(rbuf.len(), 3);
    assert_eq!(rbuf.rem(), 0);
    assert_eq!(rbuf.dequeue(), Some(1));
    assert_eq!(rbuf.dequeue(), Some(2));
    assert_eq!(rbuf.dequeue(), Some(3));
    assert_eq!(rbuf.dequeue(), None);
}

#[test]
fn single_slot_buffer_is_full_after_one_byte() {
    let mut rbuf = RingBuf::new([0u8; 1], 1);
    assert!(rbuf.enqueue(7));
    assert!(rbuf.is_full());
    assert_eq!(rbuf.enqueue(8), false);
    assert_eq!(rbuf.dequeue(), Some(7));
    assert!(rbuf.is_empty());
    assert!(rbuf.enqueue(8));
    assert_eq!(rbuf.dequeue(), Some(8));
}

#[test]
fn occupancy_stays_between_zero_and_capacity() {
    let mut rbuf = RingBuf::new([0u8; 5], 5);
    let mut expected: usize = 0;
    for step in 0..200u32 {
        let put: bool = step % 3 != 2 || step % 7 == 0;
        if put {
            if rbuf.enqueue(step as u8) {
                expected += 1;
            } else {
                assert_eq!(expected, 5);
            }
        } else if rbuf.dequeue().is_some() {
            expected -= 1;
        } else {
            assert_eq!(expected, 0);
        }
        assert_eq!(rbuf.len(), expected);
        assert!(rbuf.len() <= rbuf.cap());
        assert_eq!(rbuf.rem(), 5 - expected);
    }
}

#[test]
fn order_survives_many_laps_of_an_odd_capacity() {
    let mut rbuf = RingBuf::new([0u8; 3], 3);
    let mut next_in: u8 = 0;
    let mut next_out: u8 = 0;
    for _ in 0..100u32 {
        assert!(rbuf.enqueue(next_in));
        next_in = next_in.wrapping_add(1);
        assert!(rbuf.enqueue(next_in));
        next_in = next_in.wrapping_add(1);
        assert_eq!(rbuf.dequeue(), Some(next_out));
        next_out = next_out.wrapping_add(1);
        assert_eq!(rbuf.dequeue(), Some(next_out));
        next_out = next_out.wrapping_add(1);
    }
    assert!(rbuf.is_empty());
}

#[test]
fn phy_is_the_remainder_by_the_capacity() {
    let rbuf = RingBuf::new([0u8; 5], 5);
    assert_eq!(rbuf.phy(0), 0);
    assert_eq!(rbuf.phy(4), 4);
    assert_eq!(rbuf.phy(5), 0);
    assert_eq!(rbuf.phy(12), 2);
    assert_eq!(rbuf.phy(usize::MAX), usize::MAX % 5);
}

#[test]
fn cursors_move_one_step_at_a_time() {
    let mut rbuf = RingBuf::new([0u8; 4], 4);
    rbuf.incr_writer();
    assert_eq!(rbuf.len(), 1);
    rbuf.incr_writer();
    assert_eq!(rbuf.len(), 2);
    assert_eq!(rbuf.rem(), 2);
    rbuf.incr_reader();
    assert_eq!(rbuf.len(), 1);
    assert_eq!(rbuf.dequeue(), Some(0));
    assert!(rbuf.is_empty());
}

#[test]
fn round_trip_of_a_full_capacity() {
    let mut rbuf = RingBuf::new([0u8; 8], 8);
    let src: [u8; 8] = [8, 7, 6, 5, 4, 3, 2, 1];
    let mut out = [0u8; 10];
    assert_eq!(rbuf.write(&src), 8);
    assert!(rbuf.is_full());
    assert_eq!(rbuf.read(&mut out), 8);
    assert_eq!(&out[..8], &src);
    assert_eq!(&out[8..], &[0, 0]);
    assert!(rbuf.is_empty());
}

#[test]
fn short_write_keeps_the_leading_bytes() {
    let mut rbuf = RingBuf::new([0u8; 8], 8);
    assert_eq!(rbuf.write(&[1, 2, 3, 4, 5]), 5);
    assert_eq!(rbuf.rem(), 3);
    assert_eq!(rbuf.write(&[6, 7, 8, 9, 10, 11]), 3);
    assert!(rbuf.is_full());
    assert_eq!(rbuf.write(&[12]), 0);
    for expected in 1..=8u8 {
        assert_eq!(rbuf.dequeue(), Some(expected));
    }
    assert_eq!(rbuf.dequeue(), None);
}

#[test]
fn short_read_empties_the_buffer() {
    let mut rbuf = RingBuf::new([0u8; 8], 8);
    assert_eq!(rbuf.write(&[21, 22, 23]), 3);
    let mut out = [0xAAu8; 6];
    assert_eq!(rbuf.read(&mut out), 3);
    assert_eq!(out, [21, 22, 23, 0xAA, 0xAA, 0xAA]);
    assert!(rbuf.is_empty());
    assert_eq!(rbuf.read(&mut out), 0);
    assert_eq!(out, [21, 22, 23, 0xAA, 0xAA, 0xAA]);
}

#[test]
fn read_into_less_room_leaves_the_rest_queued() {
    let mut rbuf = RingBuf::new([0u8; 8], 8);
    assert_eq!(rbuf.write(&[1, 2, 3, 4, 5]), 5);
    let mut out = [0u8; 2];
    assert_eq!(rbuf.read(&mut out), 2);
    assert_eq!(out, [1, 2]);
    assert_eq!(rbuf.len(), 3);
    let mut none: [u8; 0] = [];
    assert_eq!(rbuf.read(&mut none), 0);
    assert_eq!(rbuf.write(&none), 0);
    assert_eq!(rbuf.len(), 3);
    assert_eq!(rbuf.dequeue(), Some(3));
}

#[test]
fn bulk_transfer_crosses_the_end_of_the_storage() {
    let mut rbuf = RingBuf::new([0u8; 5], 5);
    let mut out = [0u8; 5];
    assert_eq!(rbuf.write(&[1, 2, 3]), 3);
    assert_eq!(rbuf.read(&mut out[..2]), 2);
    assert_eq!(rbuf.write(&[4, 5, 6, 7, 8]), 4);
    assert_eq!(rbuf.read(&mut out), 5);
    assert_eq!(out, [3, 4, 5, 6, 7]);
    assert!(rbuf.is_empty());
}

#[test]
fn array_slots_are_read_and_written_by_index() {
    let mut arr = [0u8; 3];
    arr.set(2, 9);
    arr.set(0, 4);
    assert_eq!(arr, [4, 0, 9]);
    assert_eq!(arr.get(2), 9);
    assert_eq!(arr.get(1), 0);
    assert_eq!(arr, [4, 0, 9]);
}
