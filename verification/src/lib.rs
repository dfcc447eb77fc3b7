//! An assembler core for an 8-bit CPU: a recursive-descent parser for the
//! assembly grammar, a two-pass label-resolution algorithm, a canonical
//! model of the instruction set with its fixed-width binary encoding, an
//! encoder that flattens a resolved program into bytes, and a
//! bounds-checked byte cursor for walking buffers. A small machine model
//! (memory and registers) receives the encoded program.
//!
//! Every data structure carries a mathematical view, and the public
//! functions' contracts pin down what each pass computes: label addresses
//! are origin plus the lengths of the preceding statements, duplicate
//! definitions are rejected, references resolve through the completed
//! table alone, and the encoder emits exactly the concatenation of the
//! resolved units' bytes.

use vstd::prelude::*;

pub mod assembler;
pub mod coding;
pub mod instruction;
pub mod machine;

verus! {

} // verus!
