//! A disassembler for a small fixed instruction set encoded as a flat byte
//! stream.
//!
//! The `hex` module turns whitespace-separated two-character hex tokens into
//! bytes; the `decoder` module runs the decoding state machine that renders
//! each instruction as an offset-annotated text line.

pub mod decoder;
pub mod hex;
