//! The two struct framings: headered versus inline, and the field and final
//! model views over buffers.

use fbe::buffer::{ReadBuffer, WriteBuffer};
use fbe::field_model::{
    FieldModel, FieldModelBool, FieldModelBoolMut, FieldModelI32, FieldModelI32Mut,
    FieldModelString, FieldModelStringMut, FieldModelUuid, FieldModelUuidMut,
};
use fbe::final_model::{FinalModel, FinalModelBool, FinalModelI32, FinalModelString, FinalModelU64};
use fbe::model_final::Product;

#[test]
fn test_model_with_header() {
    let product = Product::new(123, "Laptop".to_string(), 999.99f64.to_bits(), 5);

    let mut buffer = WriteBuffer::new();
    let model_size = product.serialize_model(&mut buffer);

    let mut read_buf = ReadBuffer::new();
    read_buf.attach_buffer(buffer.data(), 0, buffer.data().len());
    let header = read_buf.read_u32(0);
    assert_eq!(header, model_size as u32);

    let mut read_buffer = ReadBuffer::new();
    read_buffer.attach_buffer(buffer.data(), 0, buffer.data().len());
    let (product2, read_size) = Product::deserialize_model(&read_buffer);

    assert_eq!(product2.id, 123);
    assert_eq!(product2.name, "Laptop");
    assert_eq!(f64::from_bits(product2.price_bits), 999.99);
    assert_eq!(product2.quantity, 5);
    assert_eq!(read_size, model_size);
}

#[test]
fn test_final_model_without_header() {
    let product = Product::new(123, "Laptop".to_string(), 999.99f64.to_bits(), 5);

    let mut buffer = WriteBuffer::new();
    let final_size = product.serialize_final(&mut buffer);

    let mut read_buffer = ReadBuffer::new();
    read_buffer.attach_buffer(buffer.data(), 0, buffer.data().len());
    let (product2, read_size) = Product::deserialize_final(&read_buffer);

    assert_eq!(product2.id, 123);
    assert_eq!(product2.name, "Laptop");
    assert_eq!(f64::from_bits(product2.price_bits), 999.99);
    assert_eq!(product2.quantity, 5);
    assert_eq!(read_size, final_size);
}

#[test]
fn test_size_comparison() {
    let product = Product::new(123, "Laptop".to_string(), 999.99f64.to_bits(), 5);

    let mut model_buffer = WriteBuffer::new();
    let model_size = product.serialize_model(&mut model_buffer);

    let mut final_buffer = WriteBuffer::new();
    let final_size = product.serialize_final(&mut final_buffer);

    assert_eq!(model_size, final_size + 4);
}

#[test]
fn test_data_comparison() {
    let product = Product::new(123, "Laptop".to_string(), 999.99f64.to_bits(), 5);

    let mut model_buffer = WriteBuffer::new();
    product.serialize_model(&mut model_buffer);

    let mut final_buffer = WriteBuffer::new();
    product.serialize_final(&mut final_buffer);

    let model_data_without_header = &model_buffer.data()[4..];
    let final_data = final_buffer.data();

    assert_eq!(model_data_without_header, final_data);
}

#[test]
fn test_cross_run_stability() {
    let first = Product::new(9, "Widget".to_string(), 19.25f64.to_bits(), 3);
    let second = Product::new(9, "Widget".to_string(), 19.25f64.to_bits(), 3);

    let mut buffer1 = WriteBuffer::new();
    first.serialize_model(&mut buffer1);
    let mut buffer2 = WriteBuffer::new();
    second.serialize_model(&mut buffer2);

    assert_eq!(buffer1.data(), buffer2.data());
}

#[test]
fn test_field_model_bool() {
    let mut buffer = WriteBuffer::new();
    buffer.allocate(1);

    let field = FieldModelBoolMut::new(0);
    field.set(&mut buffer, true);

    let reader = ReadBuffer::from(buffer.data().to_vec());
    let field2 = FieldModelBool::new(reader.data(), 0);
    assert_eq!(field2.get(), true);
    assert_eq!(field2.size(), 1);
}

#[test]
fn test_field_model_i32() {
    let mut buffer = WriteBuffer::new();
    buffer.allocate(4);

    let field = FieldModelI32Mut::new(0);
    field.set(&mut buffer, 42);

    let reader = ReadBuffer::from(buffer.data().to_vec());
    let field2 = FieldModelI32::new(reader.data(), 0);
    assert_eq!(field2.get(), 42);
    assert_eq!(field2.size(), 4);
}

#[test]
fn test_field_model_string() {
    let mut buffer = WriteBuffer::new();
    buffer.allocate(4 + 7);

    let field = FieldModelStringMut::new(0);
    field.set(&mut buffer, "Panilux");

    let reader = ReadBuffer::from(buffer.data().to_vec());
    let field2 = FieldModelString::new(reader.data(), 0);
    assert_eq!(field2.get(), "Panilux");
    assert_eq!(field2.size(), 4);
    assert_eq!(field2.extra(), 7);
}

#[test]
fn test_field_model_offset() {
    let mut buffer = WriteBuffer::new();
    buffer.allocate(8);

    let field1 = FieldModelI32Mut::new(0);
    field1.set(&mut buffer, 100);

    let field2 = FieldModelI32Mut::new(4);
    field2.set(&mut buffer, 200);

    let reader = ReadBuffer::from(buffer.data().to_vec());
    let f1 = FieldModelI32::new(reader.data(), 0);
    let f2 = FieldModelI32::new(reader.data(), 4);

    assert_eq!(f1.get(), 100);
    assert_eq!(f2.get(), 200);
}

#[test]
fn test_field_model_uuid() {
    let mut buffer = WriteBuffer::new();
    buffer.allocate(16);

    let field = FieldModelUuidMut::new(0);
    field.set(&mut buffer, "123e4567-e89b-12d3-a456-426655440000");

    let reader = ReadBuffer::from(buffer.data().to_vec());
    let field2 = FieldModelUuid::new(reader.data(), 0);
    assert_eq!(field2.get(), "123e4567-e89b-12d3-a456-426655440000");
    assert_eq!(field2.size(), 16);
}

#[test]
fn test_final_model_primitives() {
    let mut writer = WriteBuffer::new();
    writer.allocate(13);
    writer.write_bool(0, true);
    writer.write_i32(1, 42);
    writer.write_u64(5, 3.14159f64.to_bits());

    let reader_data = writer.data().to_vec();

    let bool_field = FinalModelBool::new(&reader_data, 0);
    assert_eq!(bool_field.get(), true);
    assert_eq!(bool_field.size(), 1);

    let int_field = FinalModelI32::new(&reader_data, 1);
    assert_eq!(int_field.get(), 42);
    assert_eq!(int_field.size(), 4);

    let double_field = FinalModelU64::new(&reader_data, 5);
    assert!((f64::from_bits(double_field.get()) - 3.14159).abs() < 0.0001);
    assert_eq!(double_field.size(), 8);
}

#[test]
fn test_final_model_string() {
    let mut writer = WriteBuffer::new();
    writer.allocate(9);
    writer.write_string(0, "Hello");

    let reader_data = writer.data().to_vec();

    let string_field = FinalModelString::new(&reader_data, 0);
    assert_eq!(string_field.get(), "Hello");
    assert_eq!(string_field.size(), 4 + 5);
}

#[test]
fn test_optional_final_layout() {
    let mut buffer = WriteBuffer::new();
    buffer.allocate(10);

    let some_len = buffer.write_optional_i32_final(0, Some(42));
    assert_eq!(some_len, 5);
    let none_len = buffer.write_optional_i32_final(5, None);
    assert_eq!(none_len, 1);

    let reader = ReadBuffer::from(buffer.data().to_vec());
    assert_eq!(reader.read_optional_i32_final(0), Some(42));
    assert_eq!(reader.read_optional_i32_final(5), None);
}

#[test]
fn test_optional_none_costs_one_byte() {
    let mut buffer = WriteBuffer::new();
    buffer.reserve(100);
    buffer.allocate(10);
    let size_before = buffer.size();

    buffer.write_optional_i32(0, None);

    assert_eq!(buffer.size(), size_before);
    assert_eq!(buffer.data()[0], 0);
}

#[test]
fn test_optional_some_field_layout_cost() {
    let mut buffer = WriteBuffer::new();
    buffer.reserve(100);
    buffer.allocate(10);
    let size_before = buffer.size();

    buffer.write_optional_i32(0, Some(42));

    assert_eq!(buffer.size(), size_before + 4);
}
