//! The base sender: serializes values and hands the bytes to a transport
//! that implementers supply.

use vstd::prelude::*;
use crate::buffer::WriteBuffer;

verus! {

/// Trait for types that can be serialized into a write buffer.
pub trait Serialize {
    /// Serialize into the buffer and return the serialized size.
    fn serialize(&self, buffer: &mut WriteBuffer) -> usize;
}

/// Base sender: implementers supply the send handler; the default methods
/// serialize and forward.
pub trait Sender: Sized {
    /// Get logging flag
    fn is_logging(&self) -> bool;

    /// Enable or disable logging
    fn set_logging(&mut self, enable: bool);

    /// Send message handler (must be implemented)
    fn on_send(&mut self, data: &[u8]) -> usize;

    /// Send log message handler (can be overridden)
    fn on_send_log(&self, message: &str) {
    }

    /// Send serialized data: log the byte count when logging is on, then
    /// hand the bytes to the send handler.
    fn send_serialized(&mut self, data: &[u8]) -> usize {
        let size = data.len();
        if self.is_logging() {
            let digits = crate::compiler::usize_to_decimal(size);
            let digits_text = crate::field_model::chars_to_text(&digits);
            let mut message = String::new();
            message.append("Sending ");
            message.append(digits_text.as_str());
            message.append(" bytes");
            self.on_send_log(message.as_str());
        }
        self.on_send(data)
    }

    /// Serialize a value into a fresh buffer and send its bytes.
    fn send<T: Serialize>(&mut self, value: &T) -> usize {
        let mut buffer = WriteBuffer::new();
        value.serialize(&mut buffer);
        if buffer.size() <= buffer.capacity() && buffer.offset() <= buffer.size() {
            self.send_serialized(buffer.data())
        } else {
            let empty: Vec<u8> = Vec::new();
            self.send_serialized(empty.as_slice())
        }
    }
}

} // verus!
