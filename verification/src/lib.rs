//! Binary header of a quantum-bytecode container file.
//!
//! A container file begins with a fixed 64-byte header that locates and sizes
//! the constant pool and the instruction stream that follow it. This crate
//! holds the header record, its little-endian codec, and the FNV-1a checksum
//! that guards the header against corruption.

pub mod checksum;
pub mod header;
