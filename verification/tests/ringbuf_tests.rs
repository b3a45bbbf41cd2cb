use ste_proxy::ringbuf::{RingByteBuffer, TEST_BUFFER_SIZE};

fn drain(b: &mut RingByteBuffer) -> Vec<u8> {
    let mut out = Vec::new();
    loop {
        let chunk = b.get_data().to_vec();
        if chunk.is_empty() {
            break;
        }
        out.extend_from_slice(&chunk);
        b.consume(chunk.len());
    }
    out
}

#[test]
fn new_buffer_is_empty() {
    let mut b = RingByteBuffer::new();
    assert!(b.is_empty());
    assert!(!b.is_full());
    assert_eq!(b.queue_size(), 0);
    assert!(b.get_data().is_empty());
    assert_eq!(b.get_free_slot().len(), TEST_BUFFER_SIZE);
}

#[test]
fn write_then_get_data() {
    let mut b = RingByteBuffer::new();
    assert_eq!(b.write(b"hello"), 5);
    assert_eq!(b.get_data(), b"hello");
    assert_eq!(b.queue_size(), 5);
    assert!(!b.is_empty());
    b.consume(2);
    assert_eq!(b.get_data(), b"llo");
    assert_eq!(b.queue_size(), 3);
}

#[test]
fn written_bytes_read_back_in_order() {
    let mut b = RingByteBuffer::new();
    b.write(b"abc");
    b.write(b"defg");
    assert_eq!(drain(&mut b), b"abcdefg".to_vec());
    assert!(b.is_empty());
}

#[test]
fn consume_all_empties() {
    let mut b = RingByteBuffer::new();
    b.write(&[1, 2, 3, 4]);
    let n = b.queue_size();
    b.consume(n);
    assert!(b.is_empty());
    assert_eq!(b.queue_size(), 0);
}

#[test]
fn wrapped_data_comes_in_two_pieces() {
    let mut b = RingByteBuffer::new();
    // move both cursors to 8190
    b.produce(8190);
    b.consume(8190);
    assert!(b.is_empty());
    assert_eq!(b.write(&[1, 2, 3, 4, 5]), 5);
    // two bytes at the end of the storage, three at its start
    assert_eq!(b.get_data(), &[1, 2]);
    // the distance the buffer reports is one less than the 5 bytes queued
    assert_eq!(b.queue_size(), 4);
    b.consume(2);
    assert_eq!(b.get_data(), &[3, 4, 5]);
    assert_eq!(b.queue_size(), 3);
    b.consume(3);
    assert!(b.is_empty());
}

#[test]
fn fills_up_to_one_less_than_storage() {
    let mut b = RingByteBuffer::new();
    b.produce(1);
    b.consume(1);
    let data = vec![7u8; TEST_BUFFER_SIZE - 1];
    assert_eq!(b.write(&data), TEST_BUFFER_SIZE - 1);
    assert!(b.is_full());
    assert_eq!(drain(&mut b), data);
}

#[test]
fn full_write_from_start_wraps_to_empty() {
    // with the read cursor at 0 the write cursor may run all the way round
    let mut b = RingByteBuffer::new();
    let data = vec![9u8; TEST_BUFFER_SIZE];
    assert_eq!(b.write(&data), TEST_BUFFER_SIZE);
    assert!(b.is_empty());
}

#[test]
fn free_slot_ends_before_read_cursor() {
    let mut b = RingByteBuffer::new();
    b.produce(100);
    b.consume(50);
    b.produce(TEST_BUFFER_SIZE - 100); // write cursor back at 0, read at 50
    assert_eq!(b.get_free_slot().len(), 49);
    assert_eq!(b.queue_size(), TEST_BUFFER_SIZE - 50 - 1);
}

#[test]
fn free_slot_then_produce_appends() {
    let mut b = RingByteBuffer::new();
    b.write(b"ab");
    {
        let slot = b.get_free_slot();
        assert_eq!(slot.len(), TEST_BUFFER_SIZE - 2);
        slot[0] = b'c';
        slot[1] = b'd';
    }
    b.produce(2);
    assert_eq!(b.get_data(), b"abcd");
}

#[test]
fn produce_and_consume_wrap_round() {
    let mut b = RingByteBuffer::new();
    b.produce(TEST_BUFFER_SIZE + 3);
    assert_eq!(b.queue_size(), 3);
    b.consume(TEST_BUFFER_SIZE + 3);
    assert!(b.is_empty());
}

#[test]
fn full_after_producing_8191() {
    let mut b = RingByteBuffer::new();
    b.produce(TEST_BUFFER_SIZE - 1);
    assert!(b.is_full());
    b.consume(1);
    assert!(!b.is_full());
    b.produce(1);
    assert!(b.is_full());
    assert_eq!(b.queue_size(), TEST_BUFFER_SIZE - 2); // wrapped: one less than held
}
