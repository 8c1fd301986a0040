//! Collection field models: vector, fixed array, map, set and string
//! collections read and written through typed views.

use std::collections::{HashMap, HashSet};
use fbe::buffer::{ReadBuffer, WriteBuffer};
use fbe::field_model::FieldModel;
use fbe::field_model_collections::{
    FieldModelArrayI32, FieldModelArrayI32Mut, FieldModelArrayString, FieldModelArrayStringMut,
    FieldModelMapI32, FieldModelMapI32Mut, FieldModelSetI32, FieldModelSetI32Mut,
    FieldModelVectorI32, FieldModelVectorI32Mut, FieldModelVectorString,
    FieldModelVectorStringMut,
};

#[test]
fn test_field_model_vector_i32() {
    let mut buffer = WriteBuffer::new();
    buffer.allocate(4 + 4 + 12);

    let field = FieldModelVectorI32Mut::new(0);
    field.set(&mut buffer, &[10, 20, 30]);

    let reader = ReadBuffer::from(buffer.data().to_vec());
    let field2 = FieldModelVectorI32::new(reader.data(), 0);
    let values = field2.get();

    assert_eq!(values, vec![10, 20, 30]);
    assert_eq!(field2.size(), 4);
    assert_eq!(field2.extra(), 16);
}

#[test]
fn test_field_model_array_i32() {
    let mut buffer = WriteBuffer::new();
    buffer.allocate(12);

    let field = FieldModelArrayI32Mut::new(0, 3);
    field.set(&mut buffer, &[100, 200, 300]);

    let reader = ReadBuffer::from(buffer.data().to_vec());
    let field2 = FieldModelArrayI32::new(reader.data(), 0, 3);
    let values = field2.get();

    assert_eq!(values, vec![100, 200, 300]);
    assert_eq!(field2.size(), 12);
}

#[test]
fn test_field_model_map_i32() {
    let mut buffer = WriteBuffer::new();
    buffer.allocate(4 + 4 + 16);

    let mut map = HashMap::new();
    map.insert(1, 100);
    map.insert(2, 200);

    let field = FieldModelMapI32Mut::new(0);
    field.set(&mut buffer, &map);

    let reader = ReadBuffer::from(buffer.data().to_vec());
    let field2 = FieldModelMapI32::new(reader.data(), 0);
    let result = field2.get();

    assert_eq!(result.len(), 2);
    assert_eq!(result.get(&1), Some(&100));
    assert_eq!(result.get(&2), Some(&200));
}

#[test]
fn test_field_model_set_i32() {
    let mut buffer = WriteBuffer::new();
    buffer.allocate(4 + 4 + 12);

    let mut set = HashSet::new();
    set.insert(7);
    set.insert(8);
    set.insert(9);

    let field = FieldModelSetI32Mut::new(0);
    field.set(&mut buffer, &set);

    let reader = ReadBuffer::from(buffer.data().to_vec());
    let field2 = FieldModelSetI32::new(reader.data(), 0);
    let result = field2.get();

    assert_eq!(result.len(), 3);
    assert!(result.contains(&7));
    assert!(result.contains(&8));
    assert!(result.contains(&9));
}

#[test]
fn test_field_model_vector_string() {
    let mut buffer = WriteBuffer::new();
    buffer.allocate(4 + 100);

    let values = vec![
        "Hello".to_string(),
        "Panilux".to_string(),
        "FBE".to_string(),
    ];
    let field = FieldModelVectorStringMut::new(0);
    field.set(&mut buffer, &values);

    let reader = ReadBuffer::from(buffer.data().to_vec());
    let field2 = FieldModelVectorString::new(reader.data(), 0);
    let result = field2.get();

    assert_eq!(result, values);
    assert_eq!(field2.size(), 4);
    assert!(field2.extra() > 0);
}

#[test]
fn test_field_model_array_string() {
    let mut buffer = WriteBuffer::new();
    buffer.allocate(100);

    let values = vec!["Rust".to_string(), "PHP".to_string()];
    let field = FieldModelArrayStringMut::new(0, 2);
    field.set(&mut buffer, &values);

    let reader = ReadBuffer::from(buffer.data().to_vec());
    let field2 = FieldModelArrayString::new(reader.data(), 0, 2);
    let result = field2.get();

    assert_eq!(result, values);
    assert!(field2.size() > 0);
}

#[test]
fn test_map_serialization_deterministic() {
    let mut first: HashMap<i32, i32> = HashMap::new();
    let mut second: HashMap<i32, i32> = HashMap::new();
    for k in 0..50 {
        first.insert(k * 7 % 101, k);
    }
    for k in (0..50).rev() {
        second.insert(k * 7 % 101, k);
    }

    let mut buffer1 = WriteBuffer::new();
    buffer1.allocate(4);
    FieldModelMapI32Mut::new(0).set(&mut buffer1, &first);

    let mut buffer2 = WriteBuffer::new();
    buffer2.allocate(4);
    FieldModelMapI32Mut::new(0).set(&mut buffer2, &second);

    assert_eq!(buffer1.data(), buffer2.data());
}

#[test]
fn test_set_serialization_deterministic() {
    let mut first: HashSet<i32> = HashSet::new();
    let mut second: HashSet<i32> = HashSet::new();
    for k in 0..50 {
        first.insert(k * 13 % 97);
    }
    for k in (0..50).rev() {
        second.insert(k * 13 % 97);
    }

    let mut buffer1 = WriteBuffer::new();
    buffer1.allocate(4);
    FieldModelSetI32Mut::new(0).set(&mut buffer1, &first);

    let mut buffer2 = WriteBuffer::new();
    buffer2.allocate(4);
    FieldModelSetI32Mut::new(0).set(&mut buffer2, &second);

    assert_eq!(buffer1.data(), buffer2.data());
}

#[test]
fn test_vector_i32() {
    let mut writer = WriteBuffer::new();
    writer.allocate(4);

    let values = vec![10, 20, 30, 40, 50];
    writer.write_vector_i32(0, &values);

    let mut reader = ReadBuffer::new();
    reader.attach_buffer(writer.data(), 0, writer.size());

    let read_values = reader.read_vector_i32(0);

    assert_eq!(values, read_values);
}

#[test]
fn test_vector_empty() {
    let mut writer = WriteBuffer::new();
    writer.allocate(4);

    let values: Vec<i32> = vec![];
    writer.write_vector_i32(0, &values);

    let mut reader = ReadBuffer::new();
    reader.attach_buffer(writer.data(), 0, writer.size());

    let read_values = reader.read_vector_i32(0);

    assert_eq!(values, read_values);
    assert!(read_values.is_empty());
}

#[test]
fn test_vector_large() {
    let mut writer = WriteBuffer::new();
    writer.allocate(4);

    let values: Vec<i32> = (0..1000).collect();
    writer.write_vector_i32(0, &values);

    let mut reader = ReadBuffer::new();
    reader.attach_buffer(writer.data(), 0, writer.size());

    let read_values = reader.read_vector_i32(0);

    assert_eq!(values, read_values);
}

#[test]
fn test_map_i32() {
    let mut writer = WriteBuffer::new();
    writer.allocate(4);

    let entries = vec![(1, 100), (2, 200), (3, 300)];
    writer.write_map_i32(0, &entries);

    let mut reader = ReadBuffer::new();
    reader.attach_buffer(writer.data(), 0, writer.size());

    let read_entries = reader.read_map_i32(0);

    assert_eq!(entries, read_entries);
}

#[test]
fn test_map_empty() {
    let mut writer = WriteBuffer::new();
    writer.allocate(4);

    let entries: Vec<(i32, i32)> = vec![];
    writer.write_map_i32(0, &entries);

    let mut reader = ReadBuffer::new();
    reader.attach_buffer(writer.data(), 0, writer.size());

    let read_entries = reader.read_map_i32(0);

    assert_eq!(entries, read_entries);
    assert!(read_entries.is_empty());
}

#[test]
fn test_array_i32() {
    let mut writer = WriteBuffer::new();
    writer.allocate(12);

    let values = [10, 20, 30];
    writer.write_array_i32(0, &values);

    let mut reader = ReadBuffer::new();
    reader.attach_buffer(writer.data(), 0, writer.size());

    let read_values = reader.read_array_i32(0, 3);

    assert_eq!(values.to_vec(), read_values);
}

#[test]
fn test_array_large() {
    let mut writer = WriteBuffer::new();
    writer.allocate(400);

    let values: Vec<i32> = (0..100).collect();
    writer.write_array_i32(0, &values);

    let mut reader = ReadBuffer::new();
    reader.attach_buffer(writer.data(), 0, writer.size());

    let read_values = reader.read_array_i32(0, 100);

    assert_eq!(values, read_values);
}
