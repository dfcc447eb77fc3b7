//! Byte-level coding utilities: a bounds-checked forward-only cursor over a
//! byte slice, and the encoder that flattens a resolved program into bytes.

pub mod encoder;
pub mod reader;
