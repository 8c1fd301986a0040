//! Buffer basics: construction, allocation, and the primitive accessors.

use fbe::buffer::{ReadBuffer, WriteBuffer};

#[test]
fn test_write_buffer_basic() {
    let mut buffer = WriteBuffer::new();
    assert!(buffer.is_empty());
    assert_eq!(buffer.size(), 0);
    assert_eq!(buffer.offset(), 0);
    buffer.reserve(4);
    assert!(buffer.capacity() >= 4);
}

#[test]
fn test_write_buffer_allocate() {
    let mut buffer = WriteBuffer::new();
    let offset = buffer.allocate(100);
    assert_eq!(offset, 0);
    assert_eq!(buffer.size(), 100);
}

#[test]
fn test_write_buffer_remove() {
    let mut buffer = WriteBuffer::with_capacity(8);
    buffer.allocate(8);
    for i in 0..8 {
        buffer.write_u8(i, i as u8);
    }
    buffer.remove(2, 3);
    assert_eq!(buffer.size(), 5);
    assert_eq!(buffer.data(), &[0u8, 1, 5, 6, 7]);
}

#[test]
fn test_write_buffer_shift() {
    let mut buffer = WriteBuffer::with_capacity(8);
    buffer.allocate(8);
    buffer.shift(4);
    assert_eq!(buffer.offset(), 4);
    buffer.write_u8(0, 0xAB);
    buffer.unshift(4);
    assert_eq!(buffer.offset(), 0);
    let reader = ReadBuffer::from(buffer.data().to_vec());
    assert_eq!(reader.read_u8(4), 0xAB);
}
