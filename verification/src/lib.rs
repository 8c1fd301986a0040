//! Fast binary encoding runtime: a growable byte buffer with little-endian
//! typed accessors, pointer-based (field) and inline (final) model layers,
//! and a small schema compiler front end.

pub mod address;
pub mod bindings;
pub mod buffer;
pub mod compiler;
pub mod defaults;
pub mod field_model;
pub mod field_model_collections;
pub mod final_model;
pub mod inheritance;
pub mod keys;
pub mod laws;
pub mod model;
pub mod model_final;
pub mod receiver;
pub mod sender;
pub mod user_with_address;
pub mod wire;
