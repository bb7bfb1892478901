use cranelift::gen_types::{emit_type, generate, Formatter};
use cranelift::meta;
use cranelift::types::{all_lane_types, Bool, Float, Int, LaneType, ValueType};

#[test]
fn lane_widths() {
    assert_eq!(Bool::B1.bits(), 1);
    assert_eq!(Bool::B128.bits(), 128);
    assert_eq!(Int::I16.bits(), 16);
    assert_eq!(Float::F64.bits(), 64);
}

#[test]
fn type_numbers() {
    assert_eq!(LaneType::Bool(Bool::B1).number(), 0x70);
    assert_eq!(LaneType::Int(Int::I8).number(), 0x76);
    assert_eq!(LaneType::Int(Int::I64).number(), 0x79);
    assert_eq!(LaneType::Float(Float::F64).number(), 0x7c);
    assert_eq!(ValueType::Vector(LaneType::Int(Int::I32), 4).number(), 0x98);
    assert_eq!(ValueType::Vector(LaneType::Int(Int::I8), 16).number(), 0xb6);
    assert_eq!(ValueType::Vector(LaneType::Float(Float::F64), 64).number(), 0xdc);
    assert_eq!(all_lane_types().len(), 13);
}

#[test]
fn emit_one_type() {
    let mut fmt = Formatter::new();
    emit_type(&ValueType::Vector(LaneType::Int(Int::I32), 4), &mut fmt);
    assert_eq!(
        fmt.text,
        "/// A SIMD vector with 4 lanes containing a `i32` each.\npub const I32X4: Type = Type(0x98);\n\n"
    );
    let mut fmt = Formatter::new();
    emit_type(&ValueType::Lane(LaneType::Float(Float::F32)), &mut fmt);
    assert_eq!(
        fmt.text,
        "/// A 32-bit floating point type represented in the IEEE 754-2008\n\
         /// *binary32* interchange format. This corresponds to the :c:type:`float`\n\
         /// type in most C implementations.\n\
         pub const F32: Type = Type(0x7b);\n\n"
    );
}

#[test]
fn types_file() {
    let file = generate("types.rs", "/out");
    assert_eq!(file.filename, "types.rs");
    assert_eq!(file.directory, "/out");
    assert!(file
        .contents
        .starts_with("/// A boolean type with 1 bits.\npub const B1: Type = Type(0x70);\n\n"));
    assert_eq!(file.contents.matches("pub const ").count(), 91);
    assert!(file.contents.contains("pub const I64: Type = Type(0x79);\n"));
    assert!(file.contents.contains("pub const B128X64: Type = Type(0xd5);\n"));
    assert!(file.contents.ends_with("pub const F64X64: Type = Type(0xdc);\n\n"));
}

#[test]
fn generate_writes_types_file() {
    let files = meta::generate_type_sources("/gen");
    assert_eq!(files.len(), 1);
    assert_eq!(files[0].filename, "types.rs");
    assert_eq!(files[0].directory, "/gen");
    assert_eq!(files[0].contents, generate("types.rs", "/gen").contents);
}
