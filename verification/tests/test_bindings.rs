//! The sample generated bindings: enum discriminants on the wire, decoded
//! through the explicit match with its defined fallback.

use fbe::bindings::{OrderSide, OrderType, Side, User};
use fbe::buffer::{ReadBuffer, WriteBuffer};

#[test]
fn test_side_discriminants() {
    assert_eq!(Side::Buy.to_i8(), 0);
    assert_eq!(Side::Sell.to_i8(), 1);
    assert_eq!(Side::from_i8(0), Side::Buy);
    assert_eq!(Side::from_i8(1), Side::Sell);
    assert_eq!(Side::default(), Side::Buy);
}

#[test]
fn test_side_unknown_discriminant_falls_back() {
    assert_eq!(Side::from_i8(7), Side::Buy);
    assert_eq!(Side::from_i8(-1), Side::Buy);
}

#[test]
fn test_order_enums() {
    assert_eq!(OrderSide::from_i8(OrderSide::Sell.to_i8()), OrderSide::Sell);
    assert_eq!(OrderType::from_i8(OrderType::Market.to_i8()), OrderType::Market);
    assert_eq!(OrderType::from_i8(OrderType::Limit.to_i8()), OrderType::Limit);
    assert_eq!(OrderType::from_i8(OrderType::Stop.to_i8()), OrderType::Stop);
    assert_eq!(OrderType::from_i8(9), OrderType::Market);
}

#[test]
fn test_user_round_trip() {
    let user = User::new(42, "Panilux".to_string(), Side::Sell);
    let mut buffer = WriteBuffer::new();
    let size = user.serialize(&mut buffer);
    assert_eq!(size, 4 + 4 + 7 + 1);

    let mut reader = ReadBuffer::new();
    reader.attach_buffer(buffer.data(), 0, buffer.size());
    let back = User::deserialize(&reader);

    assert_eq!(back.id, 42);
    assert_eq!(back.name, "Panilux");
    assert_eq!(back.side, Side::Sell);
    assert_eq!(back, user);
}
