//! Register tables, value-label indexing and type-table generation for a
//! RISC-V code generator backend.

pub mod source_loc;
pub mod value_label;
pub mod text;
pub mod regs;
pub mod types;
pub mod gen_types;
pub mod tls;
pub mod meta;
pub mod unwind;
pub mod cdsl;
pub mod isa;
