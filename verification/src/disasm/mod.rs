//! Multi-architecture disassembly with capstone.

pub mod common;
pub mod decoders;
pub mod convert;
