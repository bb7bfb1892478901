//! Unwind information for RISC-V.

use vstd::prelude::*;

verus! {

/// The generator of unwind information for RISC-V functions.
#[derive(Clone, Copy, Debug, PartialEq, Eq, Structural)]
pub struct RiscvUnwindInfo;

} // verus!
