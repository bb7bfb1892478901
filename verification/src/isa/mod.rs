//! Target ISA definitions.

pub mod arm32;
pub mod x86;
