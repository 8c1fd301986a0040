//! The base receiver: hands incoming bytes to a handler that implementers
//! supply.

use vstd::prelude::*;
use crate::buffer::ReadBuffer;

verus! {

/// Trait for types that can be deserialized from a read buffer.
pub trait Deserialize: Sized {
    /// Deserialize a value from the buffer.
    fn deserialize(buffer: &ReadBuffer) -> Self;
}

/// Base receiver: implementers supply the receive handler; the default
/// method logs and forwards.
pub trait Receiver: Sized {
    /// Get logging flag
    fn is_logging(&self) -> bool;

    /// Enable or disable logging
    fn set_logging(&mut self, enable: bool);

    /// Receive message handler (must be implemented)
    fn on_receive(&mut self, data: &[u8]) -> bool;

    /// Receive log message handler (can be overridden)
    fn on_receive_log(&self, message: &str) {
    }

    /// Receive and process data: log the byte count when logging is on,
    /// then hand the bytes to the receive handler.
    fn receive(&mut self, data: &[u8]) -> bool {
        let size = data.len();
        if self.is_logging() {
            let digits = crate::compiler::usize_to_decimal(size);
            let digits_text = crate::field_model::chars_to_text(&digits);
            let mut message = String::new();
            message.append("Received ");
            message.append(digits_text.as_str());
            message.append(" bytes");
            self.on_receive_log(message.as_str());
        }
        self.on_receive(data)
    }
}

} // verus!
