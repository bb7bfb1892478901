//! Expansion for `tls_value` instructions.

use crate::types::{Int, LaneType, ValueType};
use vstd::prelude::*;

verus! {

/// A global value, named by its number.
#[derive(Clone, Copy, Debug, PartialEq, Eq, Structural)]
pub struct GlobalValue(pub u32);

/// The opcodes of instructions with one global-value operand.
#[derive(Clone, Copy, Debug, PartialEq, Eq, Structural)]
pub enum Opcode {
    /// Load the address of a thread-local global value.
    TlsValue,
    /// Get the address of a thread-local value, ELF general dynamic model.
    X86ElfTlsGetAddr,
    /// Get the address of a thread-local value, Mach-O model.
    X86MachoTlsGetAddr,
    /// Any other opcode taking one global value.
    Other,
}

/// The data of an instruction, as far as the expansion reads and writes it.
#[derive(Clone, Copy, Debug, PartialEq, Eq, Structural)]
pub enum InstructionData {
    /// An instruction with one global-value operand.
    UnaryGlobalValue { opcode: Opcode, global_value: GlobalValue },
    /// An instruction of any other format.
    Other,
}

/// How thread-local storage is accessed.
#[derive(Clone, Copy, Debug, PartialEq, Eq, Structural)]
pub enum TlsModel {
    /// No model was chosen.
    Unset,
    /// ELF general dynamic.
    ElfGd,
    /// Mach-O.
    Macho,
    /// COFF.
    Coff,
}

/// The 64-bit integer type.
pub open spec fn i64_type() -> ValueType {
    ValueType::Lane(LaneType::Int(Int::I64))
}

/// Whether an instruction is a `tls_value` instruction.
pub open spec fn is_tls_value(data: InstructionData) -> bool {
    data matches InstructionData::UnaryGlobalValue { opcode: Opcode::TlsValue, .. }
}

/// The instruction after expansion: a `tls_value` instruction becomes the
/// call of its global value that the TLS model asks for (Mach-O for the
/// Mach-O model, ELF general dynamic otherwise); any other instruction is
/// kept.
pub open spec fn expanded(data: InstructionData, tls_model: TlsModel) -> InstructionData {
    match data {
        InstructionData::UnaryGlobalValue { opcode: Opcode::TlsValue, global_value } => {
            InstructionData::UnaryGlobalValue {
                opcode: if tls_model is Macho {
                    Opcode::X86MachoTlsGetAddr
                } else {
                    Opcode::X86ElfTlsGetAddr
                },
                global_value,
            }
        },
        _ => data,
    }
}

/// Expand a `tls_value` instruction.
///
/// The target's architecture, named as in a target triple, must be
/// `x86_64`. When `data` is a `tls_value` instruction it must produce a
/// 64-bit integer, and the TLS model must be ELF general dynamic or Mach-O;
/// the instruction is replaced by the matching call and the result is
/// `true`. Any other instruction is left as it is and the result is
/// `false`.
pub fn expand_tls_value(
    arch: &str,
    data: &mut InstructionData,
    ctrl_typevar: ValueType,
    tls_model: TlsModel,
) -> (changed: bool)
    requires
        arch@ == "x86_64"@,
        is_tls_value(*old(data)) ==> ctrl_typevar == i64_type(),
        is_tls_value(*old(data)) ==> (tls_model is ElfGd || tls_model is Macho),
    ensures
        changed == is_tls_value(*old(data)),
        *final(data) == expanded(*old(data), tls_model),
{
    if let InstructionData::UnaryGlobalValue { opcode: Opcode::TlsValue, global_value } = *data {
        let opcode = match tls_model {
            TlsModel::Macho => Opcode::X86MachoTlsGetAddr,
            _ => Opcode::X86ElfTlsGetAddr,
        };
        *data = InstructionData::UnaryGlobalValue { opcode, global_value };
        true
    } else {
        false
    }
}

/// An expanded instruction is no longer a `tls_value` instruction, so
/// expanding it again changes nothing; expanding any instruction that is not
/// a `tls_value` instruction keeps it.
pub proof fn lemma_expansion_idempotent(data: InstructionData, tls_model: TlsModel, again: TlsModel)
    ensures
        !is_tls_value(expanded(data, tls_model)),
        expanded(expanded(data, tls_model), again) == expanded(data, tls_model),
        !is_tls_value(data) ==> expanded(data, tls_model) == data,
{
}

/// Expanding a `tls_value` instruction keeps its global value and calls the
/// routine of the TLS model: the Mach-O one for Mach-O, the ELF general
/// dynamic one for ELF general dynamic.
pub proof fn lemma_expansion_follows_model(data: InstructionData, tls_model: TlsModel)
    requires
        is_tls_value(data),
    ensures
        expanded(data, tls_model) matches InstructionData::UnaryGlobalValue { opcode, global_value }
            && global_value == data->global_value && (tls_model is Macho ==> opcode
            == Opcode::X86MachoTlsGetAddr) && (tls_model is ElfGd ==> opcode
            == Opcode::X86ElfTlsGetAddr),
{
}

} // verus!
