//! Flag values on the wire: bitmasks travel as their integer value.

use fbe::buffer::{ReadBuffer, WriteBuffer};

const PERM_NONE: i32 = 0x00;
const PERM_READ: i32 = 0x01;
const PERM_WRITE: i32 = 0x02;
const PERM_EXECUTE: i32 = 0x04;
const PERM_DELETE: i32 = 0x08;
const PERM_ALL: i32 = PERM_READ | PERM_WRITE | PERM_EXECUTE | PERM_DELETE;

const FILE_HIDDEN: i32 = 0x01;
const FILE_ARCHIVE: i32 = 0x04;
const FILE_READONLY: i32 = 0x08;

#[test]
fn test_flags_single_bit() {
    let mut writer = WriteBuffer::new();
    writer.allocate(10);

    writer.write_i32(0, PERM_READ);
    writer.write_i32(4, PERM_WRITE);

    let mut reader = ReadBuffer::new();
    reader.attach_buffer(writer.data(), 0, 8);

    assert_eq!(PERM_READ, reader.read_i32(0));
    assert_eq!(PERM_WRITE, reader.read_i32(4));
}

#[test]
fn test_flags_combined() {
    let mut writer = WriteBuffer::new();
    writer.allocate(10);

    let flags = PERM_READ | PERM_WRITE;
    writer.write_i32(0, flags);

    let mut reader = ReadBuffer::new();
    reader.attach_buffer(writer.data(), 0, 4);

    let read_flags = reader.read_i32(0);

    assert_eq!(0x03, read_flags);
    assert!(read_flags & PERM_READ != 0);
    assert!(read_flags & PERM_WRITE != 0);
    assert!(read_flags & PERM_EXECUTE == 0);
}

#[test]
fn test_flags_all() {
    let mut writer = WriteBuffer::new();
    writer.allocate(10);

    writer.write_i32(0, PERM_ALL);

    let mut reader = ReadBuffer::new();
    reader.attach_buffer(writer.data(), 0, 4);

    let flags = reader.read_i32(0);

    assert!(flags & PERM_READ != 0);
    assert!(flags & PERM_WRITE != 0);
    assert!(flags & PERM_EXECUTE != 0);
    assert!(flags & PERM_DELETE != 0);
}

#[test]
fn test_flags_none() {
    let mut writer = WriteBuffer::new();
    writer.allocate(10);

    writer.write_i32(0, PERM_NONE);

    let mut reader = ReadBuffer::new();
    reader.attach_buffer(writer.data(), 0, 4);

    let flags = reader.read_i32(0);

    assert_eq!(0, flags);
    assert!(flags & PERM_READ == 0);
    assert!(flags & PERM_WRITE == 0);
}

#[test]
fn test_flags_in_struct() {
    let mut writer = WriteBuffer::new();
    writer.allocate(100);

    writer.write_i32(0, 42);
    writer.write_i32(4, PERM_READ | PERM_WRITE);
    writer.write_string(8, "file");

    let mut reader = ReadBuffer::new();
    reader.attach_buffer(writer.data(), 0, writer.size());

    let id = reader.read_i32(0);
    let perms = reader.read_i32(4);
    let name = reader.read_string(8);

    assert_eq!(42, id);
    assert!(perms & PERM_READ != 0);
    assert!(perms & PERM_WRITE != 0);
    assert_eq!("file", name);
}

#[test]
fn test_multiple_flags_types() {
    let mut writer = WriteBuffer::new();
    writer.allocate(20);

    writer.write_i32(0, PERM_READ | PERM_EXECUTE);
    writer.write_i32(4, FILE_HIDDEN | FILE_READONLY);

    let mut reader = ReadBuffer::new();
    reader.attach_buffer(writer.data(), 0, 8);

    let perms = reader.read_i32(0);
    let file_fl = reader.read_i32(4);

    assert!(perms & PERM_READ != 0);
    assert!(perms & PERM_EXECUTE != 0);
    assert!(perms & PERM_WRITE == 0);

    assert!(file_fl & FILE_HIDDEN != 0);
    assert!(file_fl & FILE_READONLY != 0);
    assert!(file_fl & FILE_ARCHIVE == 0);
}

#[test]
fn test_flags_operations() {
    let mut flags = PERM_NONE;

    flags |= PERM_READ;
    assert!(flags & PERM_READ != 0);

    flags |= PERM_WRITE;
    assert!(flags & PERM_WRITE != 0);

    flags &= !PERM_READ;
    assert!(flags & PERM_READ == 0);
    assert!(flags & PERM_WRITE != 0);

    let mut writer = WriteBuffer::new();
    writer.allocate(10);
    writer.write_i32(0, flags);

    let mut reader = ReadBuffer::new();
    reader.attach_buffer(writer.data(), 0, 4);

    let read_flags = reader.read_i32(0);

    assert_eq!(flags, read_flags);
}

#[test]
fn test_flags_array() {
    let mut writer = WriteBuffer::new();
    writer.allocate(100);

    let flags_array = vec![
        PERM_READ,
        PERM_READ | PERM_WRITE,
        PERM_ALL,
        PERM_NONE,
    ];

    writer.write_i32(0, flags_array.len() as i32);
    for (i, &flags) in flags_array.iter().enumerate() {
        writer.write_i32(4 + i * 4, flags);
    }

    let mut reader = ReadBuffer::new();
    reader.attach_buffer(writer.data(), 0, writer.size());

    let length = reader.read_i32(0) as usize;
    assert_eq!(4, length);

    for i in 0..length {
        let flags = reader.read_i32(4 + i * 4);
        assert_eq!(flags_array[i], flags);
    }
}

#[test]
fn test_flags_toggle() {
    let mut writer = WriteBuffer::new();
    writer.allocate(10);

    let mut flags = PERM_READ | PERM_WRITE;

    flags ^= PERM_WRITE;
    assert!(flags & PERM_READ != 0);
    assert!(flags & PERM_WRITE == 0);

    flags ^= PERM_WRITE;
    assert!(flags & PERM_WRITE != 0);

    writer.write_i32(0, flags);

    let mut reader = ReadBuffer::new();
    reader.attach_buffer(writer.data(), 0, 4);

    assert_eq!(flags, reader.read_i32(0));
}
