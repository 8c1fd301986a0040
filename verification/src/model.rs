//! Base trait for struct models: the framed, streamable serialization entry
//! points that generated bindings implement.

use vstd::prelude::*;
use crate::buffer::{ReadBuffer, WriteBuffer};

verus! {

/// Base trait for struct models.
pub trait Model {
    /// The value type this model serializes
    type ValueType;

    /// Get the wire type identifier
    fn fbe_type(&self) -> usize;

    /// Get the model's base offset
    fn fbe_offset(&self) -> usize;

    /// Verify the model against its buffer
    fn verify(&self) -> bool;

    /// Get the model's encoded size
    fn fbe_size(&self) -> usize;

    /// Serialize a value and return the serialized size
    fn serialize(&mut self, value: &Self::ValueType) -> usize;

    /// Deserialize a value and return it with the size consumed
    fn deserialize(&self) -> (Self::ValueType, usize);

    /// Move to the next position, for streaming
    fn next(&mut self, size: usize);

    /// Get the write buffer
    fn buffer_mut(&mut self) -> &mut WriteBuffer;

    /// Get the read buffer
    fn buffer(&self) -> &ReadBuffer;
}

} // verus!
