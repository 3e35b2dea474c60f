//! Parsing and encoding of 32-bit Portable Executable (PE) image files.

pub mod memory;
pub mod wire;
pub mod array_string;
pub mod image;
