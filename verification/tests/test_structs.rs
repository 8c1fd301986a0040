//! The demo records: keys, inheritance, defaults, and the nested struct.
//! Prices and other floating-point fields travel as IEEE-754 bit patterns.

use std::collections::{HashMap, HashSet};
use fbe::address::Address;
use fbe::buffer::{ReadBuffer, WriteBuffer};
use fbe::defaults::{Config, OptionalFields, Settings};
use fbe::inheritance::{Employee, Manager, Person};
use fbe::keys::{Balance, LogEntry, Order, UserSession};
use fbe::user_with_address::UserWithAddress;

#[test]
fn test_order_single_key() {
    let order1 = Order::new(123, "AAPL".to_string(), 150.50f64.to_bits());
    let order2 = Order::new(123, "GOOGL".to_string(), 200.00f64.to_bits());
    let order3 = Order::new(456, "AAPL".to_string(), 150.50f64.to_bits());

    assert_eq!(order1, order2);
    assert_ne!(order1, order3);

    assert_eq!(order1.key(), 123);
    assert_eq!(order3.key(), 456);
}

#[test]
fn test_balance_string_key() {
    let balance1 = Balance::new("USD".to_string(), 1000.00f64.to_bits());
    let balance2 = Balance::new("USD".to_string(), 2000.00f64.to_bits());
    let balance3 = Balance::new("EUR".to_string(), 1000.00f64.to_bits());

    assert_eq!(balance1, balance2);
    assert_ne!(balance1, balance3);

    assert_eq!(balance1.key(), "USD");
    assert_eq!(balance3.key(), "EUR");
}

#[test]
fn test_user_session_composite_key() {
    let session1 = UserSession::new(
        100,
        "abc123".to_string(),
        1234567890,
        "192.168.1.1".to_string(),
    );
    let session2 = UserSession::new(
        100,
        "abc123".to_string(),
        9876543210,
        "10.0.0.1".to_string(),
    );
    let session3 = UserSession::new(
        100,
        "xyz789".to_string(),
        1234567890,
        "192.168.1.1".to_string(),
    );
    let session4 = UserSession::new(
        200,
        "abc123".to_string(),
        1234567890,
        "192.168.1.1".to_string(),
    );

    assert_eq!(session1, session2);
    assert_ne!(session1, session3);
    assert_ne!(session1, session4);

    assert_eq!(session1.key(), (100, "abc123"));
}

#[test]
fn test_log_entry_no_keys() {
    let log1 = LogEntry::new(1234567890, "Test message".to_string(), "INFO".to_string());
    let log2 = LogEntry::new(1234567890, "Test message".to_string(), "INFO".to_string());
    let log3 = LogEntry::new(9876543210, "Other message".to_string(), "ERROR".to_string());

    assert_eq!(log1, log2);
    assert_ne!(log1, log3);
}

#[test]
fn test_hash_map_usage() {
    let mut order_map: HashMap<i32, Order> = HashMap::new();

    let o1 = Order::new(1, "AAPL".to_string(), 100.00f64.to_bits());
    let o2 = Order::new(2, "GOOGL".to_string(), 200.00f64.to_bits());

    order_map.insert(o1.key(), o1.clone());
    order_map.insert(o2.key(), o2.clone());

    assert!(order_map.contains_key(&1));
    assert_eq!(order_map.get(&1).unwrap().symbol, "AAPL");
}

#[test]
fn test_hash_set_usage() {
    let mut balance_set: HashSet<Balance> = HashSet::new();

    let b1 = Balance::new("USD".to_string(), 1000.00f64.to_bits());
    let b2 = Balance::new("USD".to_string(), 2000.00f64.to_bits());
    let b3 = Balance::new("EUR".to_string(), 1000.00f64.to_bits());

    balance_set.insert(b1.clone());
    balance_set.insert(b2.clone());
    balance_set.insert(b3.clone());

    assert_eq!(balance_set.len(), 2);
    assert!(balance_set.contains(&b1));
    assert!(balance_set.contains(&b3));
}

#[test]
fn test_keys_round_trip() {
    let order = Order::new(7, "MSFT".to_string(), 311.25f64.to_bits());
    let mut buffer = WriteBuffer::with_capacity(100);
    let size = order.serialize(&mut buffer);
    assert_eq!(size, 4 + 4 + 4 + 8);

    let mut read_buffer = ReadBuffer::new();
    read_buffer.attach_buffer(buffer.data(), 0, buffer.data().len());
    let back = Order::deserialize(&read_buffer);
    assert_eq!(back.id, 7);
    assert_eq!(back.symbol, "MSFT");
    assert_eq!(f64::from_bits(back.price_bits), 311.25);
}

#[test]
fn test_person_serialization() {
    let person = Person::new("Alice".to_string(), 30);
    let mut buffer = WriteBuffer::new();
    buffer.reserve(100);
    let size = person.serialize(&mut buffer);
    assert_eq!(size, 13);

    let mut read_buffer = ReadBuffer::new();
    read_buffer.attach_buffer(buffer.data(), 0, buffer.data().len());
    let person2 = Person::deserialize(&read_buffer);
    assert_eq!(person, person2);
}

#[test]
fn test_employee_serialization() {
    let employee = Employee::new(
        "Bob".to_string(),
        35,
        "Panilux".to_string(),
        75000.50f64.to_bits(),
    );
    let mut buffer = WriteBuffer::new();
    buffer.reserve(100);
    let size = employee.serialize(&mut buffer);
    assert_eq!(size, 30);

    let mut read_buffer = ReadBuffer::new();
    read_buffer.attach_buffer(buffer.data(), 0, buffer.data().len());
    let employee2 = Employee::deserialize(&read_buffer);
    assert_eq!(employee, employee2);
    assert_eq!(f64::from_bits(employee2.salary_bits), 75000.50);
}

#[test]
fn test_manager_serialization() {
    let manager = Manager::new(
        "Charlie".to_string(),
        40,
        "Panilux".to_string(),
        95000.75f64.to_bits(),
        10,
    );
    let mut buffer = WriteBuffer::new();
    buffer.reserve(100);
    let size = manager.serialize(&mut buffer);
    assert_eq!(size, 38);

    let mut read_buffer = ReadBuffer::new();
    read_buffer.attach_buffer(buffer.data(), 0, buffer.data().len());
    let manager2 = Manager::deserialize(&read_buffer);
    assert_eq!(manager, manager2);
}

#[test]
fn test_config_numeric_defaults() {
    let config = Config::new();
    assert_eq!(config.timeout, 30);
    assert_eq!(config.retries, 3);
    assert!((f64::from_bits(config.threshold_bits) - 0.95).abs() < 0.001);
    assert!((f32::from_bits(config.ratio_bits) - 1.5).abs() < 0.001);
}

#[test]
fn test_settings_string_bool_defaults() {
    let settings = Settings::new();
    assert_eq!(settings.enabled, true);
    assert_eq!(settings.debug, false);
    assert_eq!(settings.name, "DefaultName");
    assert_eq!(settings.path, "/var/log");
}

#[test]
fn test_order_mixed_defaults() {
    let order = fbe::defaults::Order::new();
    assert_eq!(order.id, 0);
    assert_eq!(order.symbol, "");
    assert_eq!(f64::from_bits(order.price_bits), 0.0);
    assert_eq!(f64::from_bits(order.volume_bits), 0.0);
    assert_eq!(f64::from_bits(order.tp_bits), 10.0);
    assert_eq!(f64::from_bits(order.sl_bits), -10.0);
}

#[test]
fn test_optional_fields_defaults() {
    let opt = OptionalFields::new();
    assert_eq!(opt.count, None);
    assert_eq!(opt.text, Some("Default".to_string()));
    assert_eq!(opt.flag, Some(true));
    assert_eq!(opt.value_bits, None);
}

#[test]
fn test_serialization_with_defaults() {
    let config = Config::new();
    let mut buffer = WriteBuffer::new();
    buffer.reserve(100);
    let size = config.serialize(&mut buffer);
    assert_eq!(size, 20);

    let mut read_buffer = ReadBuffer::new();
    read_buffer.attach_buffer(buffer.data(), 0, buffer.data().len());
    let config2 = Config::deserialize(&read_buffer);

    assert_eq!(config, config2);
}

#[test]
fn test_modify_defaults() {
    let mut order = fbe::defaults::Order::new();
    assert_eq!(f64::from_bits(order.tp_bits), 10.0);
    assert_eq!(f64::from_bits(order.sl_bits), -10.0);

    order.tp_bits = 20.0f64.to_bits();
    order.sl_bits = (-20.0f64).to_bits();

    assert_eq!(f64::from_bits(order.tp_bits), 20.0);
    assert_eq!(f64::from_bits(order.sl_bits), -20.0);
}

#[test]
fn test_nested_struct_read() {
    let mut buffer = WriteBuffer::new();
    buffer.allocate(200);

    let address = Address::new("Istanbul".to_string(), "Turkey".to_string());
    let user = UserWithAddress::new(42, "Panilux".to_string(), address);
    user.serialize(&mut buffer, 0);

    let read_buffer = ReadBuffer::from(buffer.data()[..buffer.size()].to_vec());
    let read_user = UserWithAddress::deserialize(&read_buffer, 0);

    assert_eq!(read_user.id, 42);
    assert_eq!(read_user.name, "Panilux");
    assert_eq!(read_user.address.city, "Istanbul");
    assert_eq!(read_user.address.country, "Turkey");
}
