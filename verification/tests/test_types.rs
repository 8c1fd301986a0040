//! The complex scalar types on the wire: timestamp, UUID, bytes, decimal.

use fbe::buffer::{ReadBuffer, WriteBuffer};

#[test]
fn test_timestamp() {
    let mut writer = WriteBuffer::with_capacity(100);
    writer.allocate(8);

    let timestamp: u64 = 1729526400000000000;
    writer.write_timestamp(0, timestamp);

    let mut reader = ReadBuffer::new();
    reader.attach_buffer(writer.data(), 0, writer.size());

    let read_timestamp = reader.read_timestamp(0);
    assert_eq!(timestamp, read_timestamp);
}

#[test]
fn test_uuid() {
    let mut writer = WriteBuffer::with_capacity(100);
    writer.allocate(16);

    let uuid: [u8; 16] = [
        0x12, 0x3e, 0x45, 0x67, 0xe8, 0x9b, 0x12, 0xd3, 0xa4, 0x56, 0x42, 0x66, 0x55, 0x44, 0x00,
        0x00,
    ];
    writer.write_uuid(0, &uuid);

    let mut reader = ReadBuffer::new();
    reader.attach_buffer(writer.data(), 0, writer.size());

    let read_uuid = reader.read_uuid(0);
    assert_eq!(uuid, read_uuid);
}

#[test]
fn test_bytes() {
    let mut writer = WriteBuffer::with_capacity(100);
    let data = b"Binary data test \x00\xFF\xAB";
    writer.allocate(4 + data.len());

    writer.write_bytes(0, data);

    let mut reader = ReadBuffer::new();
    reader.attach_buffer(writer.data(), 0, writer.size());

    let read_bytes = reader.read_bytes(0);
    assert_eq!(data.to_vec(), read_bytes);
}

#[test]
fn test_decimal() {
    let mut writer = WriteBuffer::with_capacity(100);
    writer.allocate(16);

    let value: i128 = 123456123456;
    let scale: u8 = 6;
    let negative = false;

    writer.write_decimal(0, value, scale, negative);

    let mut reader = ReadBuffer::new();
    reader.attach_buffer(writer.data(), 0, writer.size());

    let (read_value, read_scale, read_negative) = reader.read_decimal(0);
    assert_eq!(value, read_value);
    assert_eq!(scale, read_scale);
    assert_eq!(negative, read_negative);
}

#[test]
fn test_decimal_negative() {
    let mut writer = WriteBuffer::with_capacity(100);
    writer.allocate(16);

    let value: i128 = 99999;
    let scale: u8 = 2;
    let negative = true;

    writer.write_decimal(0, value, scale, negative);

    let mut reader = ReadBuffer::new();
    reader.attach_buffer(writer.data(), 0, writer.size());

    let (read_value, read_scale, read_negative) = reader.read_decimal(0);
    assert_eq!(value, read_value);
    assert_eq!(scale, read_scale);
    assert_eq!(negative, read_negative);
}

#[test]
fn test_decimal_bit_exact_layout() {
    let mut writer = WriteBuffer::with_capacity(20);
    writer.allocate(16);

    writer.write_decimal(0, 12345, 2, false);

    let data = writer.data();
    assert_eq!(data[0], 0x39);
    assert_eq!(data[1], 0x30);
    for k in 2..14 {
        assert_eq!(data[k], 0x00);
    }
    assert_eq!(data[14], 2);
    assert_eq!(data[15] & 0x80, 0);

    let reader = ReadBuffer::from(data.to_vec());
    let (value, scale, negative) = reader.read_decimal(0);
    assert_eq!(value, 12345);
    assert_eq!(scale, 2);
    assert_eq!(negative, false);
}

#[test]
fn test_uuid_text_form() {
    let mut writer = WriteBuffer::with_capacity(20);
    writer.allocate(16);

    let uuid: [u8; 16] = [
        0x12, 0x3e, 0x45, 0x67, 0xe8, 0x9b, 0x12, 0xd3, 0xa4, 0x56, 0x42, 0x66, 0x55, 0x44, 0x00,
        0x00,
    ];
    writer.write_uuid(0, &uuid);

    let text = fbe::field_model::uuid_text(&uuid);
    assert_eq!(text, "123e4567-e89b-12d3-a456-426655440000");

    let parsed = fbe::field_model::uuid_from_text(&text);
    assert_eq!(parsed, uuid);
}

#[test]
fn test_string_invalid_utf8_is_lossy() {
    let mut writer = WriteBuffer::with_capacity(20);
    writer.allocate(8);

    writer.write_bytes(0, &[0xFF, 0xFE, 0x41]);

    let reader = ReadBuffer::from(writer.data().to_vec());
    let text = reader.read_string(0);
    assert_eq!(text.chars().count(), 3);
    assert!(text.ends_with('A'));
}
