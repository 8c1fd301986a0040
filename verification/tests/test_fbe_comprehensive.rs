//! Comprehensive wire-format compliance tests: every primitive width at its
//! bounds, the complex types, the collections, optionals, and the binary
//! layout itself.

use fbe::buffer::{ReadBuffer, WriteBuffer};

#[test]
fn test_primitive_bool() {
    let mut buffer = WriteBuffer::with_capacity(10);
    buffer.allocate(3);

    buffer.write_bool(0, true);
    buffer.write_bool(1, false);
    buffer.write_bool(2, true);

    let mut read_buf = ReadBuffer::new();
    read_buf.attach_buffer(buffer.data(), 0, buffer.size());

    assert_eq!(read_buf.read_bool(0), true);
    assert_eq!(read_buf.read_bool(1), false);
    assert_eq!(read_buf.read_bool(2), true);
}

#[test]
fn test_primitive_i8() {
    let mut buffer = WriteBuffer::with_capacity(10);
    buffer.allocate(3);

    buffer.write_i8(0, -128);
    buffer.write_i8(1, 0);
    buffer.write_i8(2, 127);

    let mut read_buf = ReadBuffer::new();
    read_buf.attach_buffer(buffer.data(), 0, buffer.size());

    assert_eq!(read_buf.read_i8(0), -128);
    assert_eq!(read_buf.read_i8(1), 0);
    assert_eq!(read_buf.read_i8(2), 127);
}

#[test]
fn test_primitive_u8() {
    let mut buffer = WriteBuffer::with_capacity(10);
    buffer.allocate(3);

    buffer.write_u8(0, 0);
    buffer.write_u8(1, 128);
    buffer.write_u8(2, 255);

    let mut read_buf = ReadBuffer::new();
    read_buf.attach_buffer(buffer.data(), 0, buffer.size());

    assert_eq!(read_buf.read_u8(0), 0);
    assert_eq!(read_buf.read_u8(1), 128);
    assert_eq!(read_buf.read_u8(2), 255);
}

#[test]
fn test_primitive_i16() {
    let mut buffer = WriteBuffer::with_capacity(20);
    buffer.allocate(6);

    buffer.write_i16(0, -32768);
    buffer.write_i16(2, 0);
    buffer.write_i16(4, 32767);

    let mut read_buf = ReadBuffer::new();
    read_buf.attach_buffer(buffer.data(), 0, buffer.size());

    assert_eq!(read_buf.read_i16(0), -32768);
    assert_eq!(read_buf.read_i16(2), 0);
    assert_eq!(read_buf.read_i16(4), 32767);
}

#[test]
fn test_primitive_u16() {
    let mut buffer = WriteBuffer::with_capacity(20);
    buffer.allocate(6);

    buffer.write_u16(0, 0);
    buffer.write_u16(2, 32768);
    buffer.write_u16(4, 65535);

    let mut read_buf = ReadBuffer::new();
    read_buf.attach_buffer(buffer.data(), 0, buffer.size());

    assert_eq!(read_buf.read_u16(0), 0);
    assert_eq!(read_buf.read_u16(2), 32768);
    assert_eq!(read_buf.read_u16(4), 65535);
}

#[test]
fn test_primitive_i32() {
    let mut buffer = WriteBuffer::with_capacity(20);
    buffer.allocate(12);

    buffer.write_i32(0, -2147483648);
    buffer.write_i32(4, 0);
    buffer.write_i32(8, 2147483647);

    let mut read_buf = ReadBuffer::new();
    read_buf.attach_buffer(buffer.data(), 0, buffer.size());

    assert_eq!(read_buf.read_i32(0), -2147483648);
    assert_eq!(read_buf.read_i32(4), 0);
    assert_eq!(read_buf.read_i32(8), 2147483647);
}

#[test]
fn test_primitive_u32() {
    let mut buffer = WriteBuffer::with_capacity(20);
    buffer.allocate(12);

    buffer.write_u32(0, 0);
    buffer.write_u32(4, 2147483648);
    buffer.write_u32(8, 4294967295);

    let mut read_buf = ReadBuffer::new();
    read_buf.attach_buffer(buffer.data(), 0, buffer.size());

    assert_eq!(read_buf.read_u32(0), 0);
    assert_eq!(read_buf.read_u32(4), 2147483648);
    assert_eq!(read_buf.read_u32(8), 4294967295);
}

#[test]
fn test_primitive_i64() {
    let mut buffer = WriteBuffer::with_capacity(30);
    buffer.allocate(24);

    buffer.write_i64(0, -9223372036854775808_i64);
    buffer.write_i64(8, 0);
    buffer.write_i64(16, 9223372036854775807);

    let mut read_buf = ReadBuffer::new();
    read_buf.attach_buffer(buffer.data(), 0, buffer.size());

    assert_eq!(read_buf.read_i64(0), -9223372036854775808_i64);
    assert_eq!(read_buf.read_i64(8), 0);
    assert_eq!(read_buf.read_i64(16), 9223372036854775807);
}

#[test]
fn test_primitive_u64() {
    let mut buffer = WriteBuffer::with_capacity(30);
    buffer.allocate(24);

    buffer.write_u64(0, 0);
    buffer.write_u64(8, 1234567890123);
    buffer.write_u64(16, 18446744073709551615);

    let mut read_buf = ReadBuffer::new();
    read_buf.attach_buffer(buffer.data(), 0, buffer.size());

    assert_eq!(read_buf.read_u64(0), 0);
    assert_eq!(read_buf.read_u64(8), 1234567890123);
    assert_eq!(read_buf.read_u64(16), 18446744073709551615);
}

#[test]
fn test_complex_string() {
    let mut buffer = WriteBuffer::with_capacity(200);
    buffer.allocate(150);

    let test_strings = vec![
        "",
        "A",
        "Hello",
        "Hello World",
        "UTF-8: Привет мир 你好世界",
    ];

    let mut offset = 0;
    for s in &test_strings {
        buffer.write_string(offset, s);
        offset += 4 + s.len();
    }

    let mut read_buf = ReadBuffer::new();
    read_buf.attach_buffer(buffer.data(), 0, buffer.size());

    let mut offset = 0;
    for expected in &test_strings {
        let actual = read_buf.read_string(offset);
        assert_eq!(&actual, expected);
        offset += 4 + expected.len();
    }
}

#[test]
fn test_complex_uuid() {
    let mut buffer = WriteBuffer::with_capacity(100);
    buffer.allocate(48);

    let uuid1 = [0u8; 16];
    let uuid2 = [
        0x12, 0x34, 0x56, 0x78, 0x9a, 0xbc, 0xde, 0xf0, 0x11, 0x22, 0x33, 0x44, 0x55, 0x66, 0x77,
        0x88,
    ];
    let uuid3 = [0xff; 16];

    buffer.write_uuid(0, &uuid1);
    buffer.write_uuid(16, &uuid2);
    buffer.write_uuid(32, &uuid3);

    let mut read_buf = ReadBuffer::new();
    read_buf.attach_buffer(buffer.data(), 0, buffer.size());

    assert_eq!(read_buf.read_uuid(0), uuid1);
    assert_eq!(read_buf.read_uuid(16), uuid2);
    assert_eq!(read_buf.read_uuid(32), uuid3);
}

#[test]
fn test_complex_timestamp() {
    let mut buffer = WriteBuffer::with_capacity(30);
    buffer.allocate(24);

    let ts1 = 0u64;
    let ts2 = 1609459200000000000u64;
    let ts3 = 1735689600000000000u64;

    buffer.write_timestamp(0, ts1);
    buffer.write_timestamp(8, ts2);
    buffer.write_timestamp(16, ts3);

    let mut read_buf = ReadBuffer::new();
    read_buf.attach_buffer(buffer.data(), 0, buffer.size());

    assert_eq!(read_buf.read_timestamp(0), ts1);
    assert_eq!(read_buf.read_timestamp(8), ts2);
    assert_eq!(read_buf.read_timestamp(16), ts3);
}

#[test]
fn test_complex_bytes() {
    let mut buffer = WriteBuffer::with_capacity(100);
    buffer.allocate(80);

    let bytes1 = vec![];
    let bytes2 = vec![0x01, 0x02, 0x03];
    let bytes3 = vec![0xff; 32];

    let mut offset = 0;
    buffer.write_bytes(offset, &bytes1);
    offset += 4 + bytes1.len();

    buffer.write_bytes(offset, &bytes2);
    offset += 4 + bytes2.len();

    buffer.write_bytes(offset, &bytes3);

    let mut read_buf = ReadBuffer::new();
    read_buf.attach_buffer(buffer.data(), 0, buffer.size());

    let mut offset = 0;
    assert_eq!(read_buf.read_bytes(offset), bytes1);
    offset += 4 + bytes1.len();

    assert_eq!(read_buf.read_bytes(offset), bytes2);
    offset += 4 + bytes2.len();

    assert_eq!(read_buf.read_bytes(offset), bytes3);
}

#[test]
fn test_complex_decimal() {
    let mut buffer = WriteBuffer::with_capacity(100);
    buffer.allocate(48);

    buffer.write_decimal(0, 12345, 2, false);
    buffer.write_decimal(16, 1, 3, true);
    buffer.write_decimal(32, 0, 0, false);

    let mut read_buf = ReadBuffer::new();
    read_buf.attach_buffer(buffer.data(), 0, buffer.size());

    let (val1, scale1, neg1) = read_buf.read_decimal(0);
    assert_eq!(val1, 12345);
    assert_eq!(scale1, 2);
    assert_eq!(neg1, false);

    let (val2, scale2, neg2) = read_buf.read_decimal(16);
    assert_eq!(val2, 1);
    assert_eq!(scale2, 3);
    assert_eq!(neg2, true);

    let (val3, scale3, neg3) = read_buf.read_decimal(32);
    assert_eq!(val3, 0);
    assert_eq!(scale3, 0);
    assert_eq!(neg3, false);
}

#[test]
fn test_collection_vector_i32() {
    let mut buffer = WriteBuffer::new();
    buffer.reserve(200);
    buffer.allocate(20);

    let vec1 = vec![];
    let vec2 = vec![42];
    let vec3 = vec![1, 2, 3, 4, 5];
    let vec4 = vec![-100, 0, 100, -1000, 1000];

    buffer.write_vector_i32(0, &vec1);
    buffer.write_vector_i32(4, &vec2);
    buffer.write_vector_i32(8, &vec3);
    buffer.write_vector_i32(12, &vec4);

    let mut read_buf = ReadBuffer::new();
    read_buf.attach_buffer(buffer.data(), 0, buffer.size());

    assert_eq!(read_buf.read_vector_i32(0), vec1);
    assert_eq!(read_buf.read_vector_i32(4), vec2);
    assert_eq!(read_buf.read_vector_i32(8), vec3);
    assert_eq!(read_buf.read_vector_i32(12), vec4);
}

#[test]
fn test_collection_array_i32() {
    let mut buffer = WriteBuffer::with_capacity(100);
    buffer.allocate(80);

    let arr1 = [1, 2, 3];
    let arr2 = [10, 20, 30, 40, 50];
    let arr3 = [-1, -2, -3, -4, -5, -6, -7, -8, -9, -10];

    buffer.write_array_i32(0, &arr1);
    buffer.write_array_i32(12, &arr2);
    buffer.write_array_i32(32, &arr3);

    let mut read_buf = ReadBuffer::new();
    read_buf.attach_buffer(buffer.data(), 0, buffer.size());

    assert_eq!(read_buf.read_array_i32(0, 3), arr1.to_vec());
    assert_eq!(read_buf.read_array_i32(12, 5), arr2.to_vec());
    assert_eq!(read_buf.read_array_i32(32, 10), arr3.to_vec());
}

#[test]
fn test_collection_map_i32() {
    let mut buffer = WriteBuffer::new();
    buffer.reserve(200);
    buffer.allocate(20);

    let map1 = vec![];
    let map2 = vec![(1, 100)];
    let map3 = vec![(1, 10), (2, 20), (3, 30)];
    let map4 = vec![(-1, -10), (0, 0), (1, 10), (100, 1000)];

    buffer.write_map_i32(0, &map1);
    buffer.write_map_i32(4, &map2);
    buffer.write_map_i32(8, &map3);
    buffer.write_map_i32(12, &map4);

    let mut read_buf = ReadBuffer::new();
    read_buf.attach_buffer(buffer.data(), 0, buffer.size());

    assert_eq!(read_buf.read_map_i32(0), map1);
    assert_eq!(read_buf.read_map_i32(4), map2);
    assert_eq!(read_buf.read_map_i32(8), map3);
    assert_eq!(read_buf.read_map_i32(12), map4);
}

#[test]
fn test_collection_set_i32() {
    let mut buffer = WriteBuffer::new();
    buffer.reserve(200);
    buffer.allocate(20);

    let set1 = vec![];
    let set2 = vec![42];
    let set3 = vec![1, 2, 3, 4, 5];

    buffer.write_set_i32(0, &set1);
    buffer.write_set_i32(4, &set2);
    buffer.write_set_i32(8, &set3);

    let mut read_buf = ReadBuffer::new();
    read_buf.attach_buffer(buffer.data(), 0, buffer.size());

    assert_eq!(read_buf.read_set_i32(0), set1);
    assert_eq!(read_buf.read_set_i32(4), set2);
    assert_eq!(read_buf.read_set_i32(8), set3);
}

#[test]
fn test_collection_vector_string() {
    let mut buffer = WriteBuffer::new();
    buffer.reserve(500);
    buffer.allocate(20);

    let vec1 = vec![];
    let vec2 = vec!["Hello".to_string()];
    let vec3 = vec!["One".to_string(), "Two".to_string(), "Three".to_string()];
    let vec4 = vec!["".to_string(), "A".to_string(), "Hello World".to_string()];

    buffer.write_vector_string(0, &vec1);
    buffer.write_vector_string(4, &vec2);
    buffer.write_vector_string(8, &vec3);
    buffer.write_vector_string(12, &vec4);

    let mut read_buf = ReadBuffer::new();
    read_buf.attach_buffer(buffer.data(), 0, buffer.size());

    assert_eq!(read_buf.read_vector_string(0), vec1);
    assert_eq!(read_buf.read_vector_string(4), vec2);
    assert_eq!(read_buf.read_vector_string(8), vec3);
    assert_eq!(read_buf.read_vector_string(12), vec4);
}

#[test]
fn test_optional_i32_some() {
    let mut buffer = WriteBuffer::new();
    buffer.reserve(100);
    buffer.allocate(10);

    buffer.write_optional_i32(0, Some(42));
    buffer.write_optional_i32(5, Some(-100));

    let mut read_buf = ReadBuffer::new();
    read_buf.attach_buffer(buffer.data(), 0, buffer.size());

    assert_eq!(read_buf.has_value(0), true);
    assert_eq!(read_buf.read_optional_i32(0), Some(42));

    assert_eq!(read_buf.has_value(5), true);
    assert_eq!(read_buf.read_optional_i32(5), Some(-100));
}

#[test]
fn test_optional_i32_none() {
    let mut buffer = WriteBuffer::new();
    buffer.reserve(100);
    buffer.allocate(10);

    buffer.write_optional_i32(0, None);

    let mut read_buf = ReadBuffer::new();
    read_buf.attach_buffer(buffer.data(), 0, buffer.size());

    assert_eq!(read_buf.has_value(0), false);
    assert_eq!(read_buf.read_optional_i32(0), None);
}

#[test]
fn test_optional_string_some() {
    let mut buffer = WriteBuffer::new();
    buffer.reserve(200);
    buffer.allocate(10);

    buffer.write_optional_string(0, Some("Hello Optional"));
    buffer.write_optional_string(5, Some(""));

    let mut read_buf = ReadBuffer::new();
    read_buf.attach_buffer(buffer.data(), 0, buffer.size());

    assert_eq!(read_buf.has_value(0), true);
    assert_eq!(read_buf.read_optional_string(0), Some("Hello Optional".to_string()));

    assert_eq!(read_buf.has_value(5), true);
    assert_eq!(read_buf.read_optional_string(5), Some("".to_string()));
}

#[test]
fn test_optional_string_none() {
    let mut buffer = WriteBuffer::new();
    buffer.reserve(100);
    buffer.allocate(10);

    buffer.write_optional_string(0, None);

    let mut read_buf = ReadBuffer::new();
    read_buf.attach_buffer(buffer.data(), 0, buffer.size());

    assert_eq!(read_buf.has_value(0), false);
    assert_eq!(read_buf.read_optional_string(0), None);
}

#[test]
fn test_binary_format_little_endian() {
    let mut buffer = WriteBuffer::with_capacity(20);
    buffer.allocate(4);

    buffer.write_i32(0, 12345);

    let data = buffer.data();
    assert_eq!(data[0], 0x39);
    assert_eq!(data[1], 0x30);
    assert_eq!(data[2], 0x00);
    assert_eq!(data[3], 0x00);
}

#[test]
fn test_binary_format_string() {
    let mut buffer = WriteBuffer::with_capacity(20);
    buffer.allocate(20);

    buffer.write_string(0, "AAPL");

    let data = buffer.data();
    assert_eq!(data[0], 0x04);
    assert_eq!(data[1], 0x00);
    assert_eq!(data[2], 0x00);
    assert_eq!(data[3], 0x00);
    assert_eq!(data[4], 0x41);
    assert_eq!(data[5], 0x41);
    assert_eq!(data[6], 0x50);
    assert_eq!(data[7], 0x4c);
}

#[test]
fn test_binary_format_optional_pointer() {
    let mut buffer = WriteBuffer::new();
    buffer.reserve(100);
    buffer.allocate(10);

    buffer.write_optional_i32(0, Some(42));

    let data = buffer.data();
    assert_eq!(data[0], 0x01);

    let ptr = u32::from_le_bytes([data[1], data[2], data[3], data[4]]);
    assert!(ptr > 0, "Pointer should be non-zero");
    assert!(ptr < 100, "Pointer should be reasonable relative offset");
}

#[test]
fn test_summary_all_types() {
    println!("Wire-format compliance summary:");
    println!("  primitives at their width bounds");
    println!("  string, UUID, timestamp, decimal, bytes");
    println!("  vector, array, map, set collections");
    println!("  optionals, present and absent");
    println!("  little-endian layout verified byte by byte");
}
