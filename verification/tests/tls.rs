use cranelift::tls::{expand_tls_value, GlobalValue, InstructionData, Opcode, TlsModel};
use cranelift::types::{Int, LaneType, ValueType};

fn i64_type() -> ValueType {
    ValueType::Lane(LaneType::Int(Int::I64))
}

fn tls(gv: u32) -> InstructionData {
    InstructionData::UnaryGlobalValue { opcode: Opcode::TlsValue, global_value: GlobalValue(gv) }
}

#[test]
fn tls_value_expansions() {
    let mut inst = tls(3);
    assert!(expand_tls_value("x86_64", &mut inst, i64_type(), TlsModel::ElfGd));
    assert_eq!(
        inst,
        InstructionData::UnaryGlobalValue {
            opcode: Opcode::X86ElfTlsGetAddr,
            global_value: GlobalValue(3)
        }
    );
    let mut inst = tls(4);
    assert!(expand_tls_value("x86_64", &mut inst, i64_type(), TlsModel::Macho));
    assert_eq!(
        inst,
        InstructionData::UnaryGlobalValue {
            opcode: Opcode::X86MachoTlsGetAddr,
            global_value: GlobalValue(4)
        }
    );
}

#[test]
fn second_expansion_changes_nothing() {
    let mut inst = tls(7);
    assert!(expand_tls_value("x86_64", &mut inst, i64_type(), TlsModel::ElfGd));
    let once = inst;
    assert!(!expand_tls_value("x86_64", &mut inst, i64_type(), TlsModel::ElfGd));
    assert_eq!(inst, once);
}

#[test]
fn other_instructions_are_not_expanded() {
    let mut inst =
        InstructionData::UnaryGlobalValue { opcode: Opcode::Other, global_value: GlobalValue(1) };
    assert!(!expand_tls_value("x86_64", &mut inst, i64_type(), TlsModel::Unset));
    assert_eq!(
        inst,
        InstructionData::UnaryGlobalValue { opcode: Opcode::Other, global_value: GlobalValue(1) }
    );
    let mut other = InstructionData::Other;
    assert!(!expand_tls_value("x86_64", &mut other, i64_type(), TlsModel::Coff));
    assert_eq!(other, InstructionData::Other);
}
