//! Bytecode chunks for a small dynamically typed scripting language.
//!
//! A compiled function body is a [`chunk::Chunk`]: an ordered sequence of
//! [`opcode::Opcode`]s together with a constant pool of [`value::Value`]s.
//! The crate provides the chunk container itself, a stable binary
//! serialisation of chunks, and a textual disassembler.
//!
//! The serialised form is little-endian throughout: one byte holding the
//! number of constants, then each constant as a tag byte and its payload
//! (booleans one byte, numbers their eight bit-pattern bytes, strings a
//! length and their UTF-8 bytes), then the instructions, each a tag byte
//! and its fixed-size operand, to the end of the input.  Parsing is the
//! exact inverse — [`serial::lemma_serialise_parse_round_trip`] proves
//! that reading back a serialised chunk yields the chunk that was
//! written — and fails cleanly on unknown tags, truncated input, and
//! string bytes that are not UTF-8.

pub mod chunk;
pub mod disasm;
pub mod opcode;
pub mod serial;
pub mod value;
