//! This module predefines all the Cranelift scalar types, and the value
//! types built from them: their names, numbers and documentation.

use crate::text::{decimal, push_decimal, push_str, string_push};
use vstd::prelude::*;

verus! {

/// Boolean lane types.
#[derive(Debug, Clone, Copy, Eq, PartialEq, Structural, Hash)]
pub enum Bool {
    /// 1-bit bool.
    B1,
    /// 8-bit bool.
    B8,
    /// 16-bit bool.
    B16,
    /// 32-bit bool.
    B32,
    /// 64-bit bool.
    B64,
    /// 128-bit bool.
    B128,
}

/// Integer lane types.
#[derive(Debug, Clone, Copy, Eq, PartialEq, Structural, Hash)]
pub enum Int {
    /// 8-bit int.
    I8,
    /// 16-bit int.
    I16,
    /// 32-bit int.
    I32,
    /// 64-bit int.
    I64,
    /// 128-bit int.
    I128,
}

/// Floating-point lane types.
#[derive(Debug, Clone, Copy, Eq, PartialEq, Structural, Hash)]
pub enum Float {
    F32,
    F64,
}

/// The width of a boolean type in bits.
pub open spec fn bool_bits(b: Bool) -> u64 {
    match b {
        Bool::B1 => 1,
        Bool::B8 => 8,
        Bool::B16 => 16,
        Bool::B32 => 32,
        Bool::B64 => 64,
        Bool::B128 => 128,
    }
}

/// The width of an integer type in bits.
pub open spec fn int_bits(i: Int) -> u64 {
    match i {
        Int::I8 => 8,
        Int::I16 => 16,
        Int::I32 => 32,
        Int::I64 => 64,
        Int::I128 => 128,
    }
}

/// The width of a floating-point type in bits.
pub open spec fn float_bits(f: Float) -> u64 {
    match f {
        Float::F32 => 32,
        Float::F64 => 64,
    }
}

impl Bool {
    /// The width in bits.
    pub fn bits(self) -> (r: u64)
        ensures
            r == bool_bits(self),
    {
        match self {
            Bool::B1 => 1,
            Bool::B8 => 8,
            Bool::B16 => 16,
            Bool::B32 => 32,
            Bool::B64 => 64,
            Bool::B128 => 128,
        }
    }
}

impl Int {
    /// The width in bits.
    pub fn bits(self) -> (r: u64)
        ensures
            r == int_bits(self),
    {
        match self {
            Int::I8 => 8,
            Int::I16 => 16,
            Int::I32 => 32,
            Int::I64 => 64,
            Int::I128 => 128,
        }
    }
}

impl Float {
    /// The width in bits.
    pub fn bits(self) -> (r: u64)
        ensures
            r == float_bits(self),
    {
        match self {
            Float::F32 => 32,
            Float::F64 => 64,
        }
    }
}

/// The type of one lane of a value: a boolean, integer or floating-point type.
#[derive(Debug, Clone, Copy, Eq, PartialEq, Structural, Hash)]
pub enum LaneType {
    Bool(Bool),
    Int(Int),
    Float(Float),
}

/// A value type: a single lane, or a SIMD vector of `lanes` lanes.
#[derive(Debug, Clone, Copy, Eq, PartialEq, Structural, Hash)]
pub enum ValueType {
    Lane(LaneType),
    Vector(LaneType, u64),
}

/// The number of lane types.
pub const NUM_LANE_TYPES: usize = 13;

/// The first number of the lane types.
pub const LANE_BASE: u64 = 0x70;

/// The position of a lane type in the order booleans, integers, floats,
/// each by increasing width.
pub open spec fn lane_position(t: LaneType) -> u64 {
    match t {
        LaneType::Bool(b) => match b {
            Bool::B1 => 0,
            Bool::B8 => 1,
            Bool::B16 => 2,
            Bool::B32 => 3,
            Bool::B64 => 4,
            Bool::B128 => 5,
        },
        LaneType::Int(i) => match i {
            Int::I8 => 6,
            Int::I16 => 7,
            Int::I32 => 8,
            Int::I64 => 9,
            Int::I128 => 10,
        },
        LaneType::Float(f) => match f {
            Float::F32 => 11,
            Float::F64 => 12,
        },
    }
}

/// The lane type at a position of the order above.
pub open spec fn lane_type_at(p: int) -> LaneType {
    if p == 0 {
        LaneType::Bool(Bool::B1)
    } else if p == 1 {
        LaneType::Bool(Bool::B8)
    } else if p == 2 {
        LaneType::Bool(Bool::B16)
    } else if p == 3 {
        LaneType::Bool(Bool::B32)
    } else if p == 4 {
        LaneType::Bool(Bool::B64)
    } else if p == 5 {
        LaneType::Bool(Bool::B128)
    } else if p == 6 {
        LaneType::Int(Int::I8)
    } else if p == 7 {
        LaneType::Int(Int::I16)
    } else if p == 8 {
        LaneType::Int(Int::I32)
    } else if p == 9 {
        LaneType::Int(Int::I64)
    } else if p == 10 {
        LaneType::Int(Int::I128)
    } else if p == 11 {
        LaneType::Float(Float::F32)
    } else {
        LaneType::Float(Float::F64)
    }
}

/// The width of a lane type in bits.
pub open spec fn lane_bits(t: LaneType) -> u64 {
    match t {
        LaneType::Bool(b) => bool_bits(b),
        LaneType::Int(i) => int_bits(i),
        LaneType::Float(f) => float_bits(f),
    }
}

/// The base-2 logarithm of a power of two.
pub open spec fn log2(n: nat) -> nat
    decreases n,
{
    if n <= 1 {
        0
    } else {
        1 + log2(n / 2)
    }
}

/// The number of a value type: lane types are numbered from 0x70 in the
/// order above; a vector adds sixteen times the base-2 logarithm of its
/// lane count to the number of its lane type.
pub open spec fn type_number(ty: ValueType) -> nat {
    match ty {
        ValueType::Lane(t) => (LANE_BASE + lane_position(t)) as nat,
        ValueType::Vector(t, lanes) => (LANE_BASE + lane_position(t)) as nat + 16 * log2(lanes as nat),
    }
}

/// The name of a lane type: `b`, `i` or `f` and its width.
pub open spec fn lane_name(t: LaneType) -> Seq<char> {
    (match t {
        LaneType::Bool(_) => seq!['b'],
        LaneType::Int(_) => seq!['i'],
        LaneType::Float(_) => seq!['f'],
    }) + decimal(lane_bits(t) as nat)
}

/// The name of a value type: its lane type's, then `x` and the lane count
/// for a vector.
pub open spec fn value_type_name(ty: ValueType) -> Seq<char> {
    match ty {
        ValueType::Lane(t) => lane_name(t),
        ValueType::Vector(t, lanes) => lane_name(t) + seq!['x'] + decimal(lanes as nat),
    }
}

/// The documentation of a lane type, line by line.
pub open spec fn lane_doc(t: LaneType) -> Seq<Seq<char>> {
    match t {
        LaneType::Bool(_) => seq![
            "A boolean type with "@ + decimal(lane_bits(t) as nat) + " bits."@,
        ],
        LaneType::Int(_) => seq![
            "An integer type with "@ + decimal(lane_bits(t) as nat) + " bits."@,
        ],
        LaneType::Float(Float::F32) => seq![
            "A 32-bit floating point type represented in the IEEE 754-2008"@,
            "*binary32* interchange format. This corresponds to the :c:type:`float`"@,
            "type in most C implementations."@,
        ],
        LaneType::Float(Float::F64) => seq![
            "A 64-bit floating point type represented in the IEEE 754-2008"@,
            "*binary64* interchange format. This corresponds to the :c:type:`double`"@,
            "type in most C implementations."@,
        ],
    }
}

/// The documentation of a value type, line by line.
pub open spec fn type_doc(ty: ValueType) -> Seq<Seq<char>> {
    match ty {
        ValueType::Lane(t) => lane_doc(t),
        ValueType::Vector(t, lanes) => seq![
            "A SIMD vector with "@ + decimal(lanes as nat) + " lanes containing a `"@ + lane_name(t)
                + "` each."@,
        ],
    }
}


/// Whether two lane types are of the same kind (both boolean, both integer
/// or both floating point).
pub open spec fn same_kind(a: LaneType, b: LaneType) -> bool {
    match (a, b) {
        (LaneType::Bool(_), LaneType::Bool(_)) => true,
        (LaneType::Int(_), LaneType::Int(_)) => true,
        (LaneType::Float(_), LaneType::Float(_)) => true,
        _ => false,
    }
}

/// The rank of a lane type's kind: booleans, then integers, then floats.
pub open spec fn kind_rank(t: LaneType) -> int {
    match t {
        LaneType::Bool(_) => 0,
        LaneType::Int(_) => 1,
        LaneType::Float(_) => 2,
    }
}

/// Lane types are numbered from 0x70 to 0x7c, each with its own number:
/// booleans before integers before floats, and within a kind by increasing
/// width. The integer of `w` bits has number 0x76 plus the logarithm of
/// `w / 8`.
pub proof fn lemma_lane_numbers(a: LaneType, b: LaneType)
    ensures
        0x70 <= type_number(ValueType::Lane(a)) <= 0x7c,
        type_number(ValueType::Lane(a)) == type_number(ValueType::Lane(b)) ==> a == b,
        kind_rank(a) < kind_rank(b) ==> type_number(ValueType::Lane(a)) < type_number(
            ValueType::Lane(b),
        ),
        same_kind(a, b) && lane_bits(a) < lane_bits(b) ==> type_number(ValueType::Lane(a))
            < type_number(ValueType::Lane(b)),
        a matches LaneType::Int(i) ==> type_number(ValueType::Lane(a)) == 0x76 + log2(
            (int_bits(i) / 8) as nat,
        ),
{
    assert(log2(1) == 0 && log2(2) == 1 && log2(4) == 2 && log2(8) == 3 && log2(16) == 4) by {
        reveal_with_fuel(log2, 6);
    }
}

/// All lane types, booleans first, then integers, then floats, each by
/// increasing width.
pub fn all_lane_types() -> (v: Vec<LaneType>)
    ensures
        v@.len() == NUM_LANE_TYPES,
        forall|p: int| 0 <= p < NUM_LANE_TYPES ==> #[trigger] v@[p] == lane_type_at(p),
        forall|p: int, q: int|
            0 <= p < q < NUM_LANE_TYPES ==> kind_rank(#[trigger] v@[p]) < kind_rank(#[trigger] v@[q])
                || (same_kind(v@[p], v@[q]) && lane_bits(v@[p]) < lane_bits(v@[q])),
{
    let v = vec![
        LaneType::Bool(Bool::B1),
        LaneType::Bool(Bool::B8),
        LaneType::Bool(Bool::B16),
        LaneType::Bool(Bool::B32),
        LaneType::Bool(Bool::B64),
        LaneType::Bool(Bool::B128),
        LaneType::Int(Int::I8),
        LaneType::Int(Int::I16),
        LaneType::Int(Int::I32),
        LaneType::Int(Int::I64),
        LaneType::Int(Int::I128),
        LaneType::Float(Float::F32),
        LaneType::Float(Float::F64),
    ];
    v
}

impl LaneType {
    /// The width in bits.
    pub fn lane_bits(self) -> (r: u64)
        ensures
            r == lane_bits(self),
    {
        match self {
            LaneType::Bool(b) => b.bits(),
            LaneType::Int(i) => i.bits(),
            LaneType::Float(f) => f.bits(),
        }
    }

    /// The number of this lane type.
    pub fn number(self) -> (r: u64)
        ensures
            r == type_number(ValueType::Lane(self)),
    {
        let p: u64 = match self {
            LaneType::Bool(b) => match b {
                Bool::B1 => 0,
                Bool::B8 => 1,
                Bool::B16 => 2,
                Bool::B32 => 3,
                Bool::B64 => 4,
                Bool::B128 => 5,
            },
            LaneType::Int(i) => match i {
                Int::I8 => 6,
                Int::I16 => 7,
                Int::I32 => 8,
                Int::I64 => 9,
                Int::I128 => 10,
            },
            LaneType::Float(f) => match f {
                Float::F32 => 11,
                Float::F64 => 12,
            },
        };
        LANE_BASE + p
    }

    /// Appends the name of this lane type to `s`.
    pub fn push_name(self, s: &mut String)
        ensures
            final(s)@ == old(s)@ + lane_name(self),
    {
        let c = match self {
            LaneType::Bool(_) => 'b',
            LaneType::Int(_) => 'i',
            LaneType::Float(_) => 'f',
        };
        string_push(s, c);
        push_decimal(s, self.lane_bits());
        assert(final(s)@ =~= old(s)@ + lane_name(self));
    }
}

/// The base-2 logarithm of a lane count.
fn log2_exec(n: u64) -> (r: u64)
    ensures
        r == log2(n as nat),
        r < 64,
    decreases n,
{
    proof {
        lemma_log2_bound(n as nat);
    }
    if n <= 1 {
        0
    } else {
        let r = 1 + log2_exec(n / 2);
        r
    }
}

impl ValueType {
    /// The number of this type.
    pub fn number(self) -> (r: u64)
        ensures
            r == type_number(self),
    {
        match self {
            ValueType::Lane(t) => t.number(),
            ValueType::Vector(t, lanes) => {
                let l = log2_exec(lanes);
                proof {
                    lemma_log2_bound(lanes as nat);
                }
                t.number() + 16 * l
            },
        }
    }

    /// Appends the name of this type to `s`.
    pub fn push_name(self, s: &mut String)
        ensures
            final(s)@ == old(s)@ + value_type_name(self),
    {
        match self {
            ValueType::Lane(t) => t.push_name(s),
            ValueType::Vector(t, lanes) => {
                t.push_name(s);
                string_push(s, 'x');
                push_decimal(s, lanes);
                assert(final(s)@ =~= old(s)@ + value_type_name(self));
            },
        }
    }

    /// The documentation of this type, line by line.
    pub fn doc(self) -> (lines: Vec<String>)
        ensures
            lines@.map_values(|l: String| l@) == type_doc(self),
    {
        let mut line = String::new();
        match self {
            ValueType::Lane(LaneType::Bool(b)) => {
                push_str(&mut line, "A boolean type with ");
                push_decimal(&mut line, b.bits());
                push_str(&mut line, " bits.");
                let v = vec![line];
                assert(v@.map_values(|l: String| l@) =~= type_doc(self));
                v
            },
            ValueType::Lane(LaneType::Int(i)) => {
                push_str(&mut line, "An integer type with ");
                push_decimal(&mut line, i.bits());
                push_str(&mut line, " bits.");
                let v = vec![line];
                assert(v@.map_values(|l: String| l@) =~= type_doc(self));
                v
            },
            ValueType::Lane(LaneType::Float(f)) => {
                let mut l2 = String::new();
                let mut l3 = String::new();
                match f {
                    Float::F32 => {
                        push_str(&mut line, "A 32-bit floating point type represented in the IEEE 754-2008");
                        push_str(&mut l2, "*binary32* interchange format. This corresponds to the :c:type:`float`");
                    },
                    Float::F64 => {
                        push_str(&mut line, "A 64-bit floating point type represented in the IEEE 754-2008");
                        push_str(&mut l2, "*binary64* interchange format. This corresponds to the :c:type:`double`");
                    },
                }
                push_str(&mut l3, "type in most C implementations.");
                let v = vec![line, l2, l3];
                assert(v@.map_values(|l: String| l@) =~= type_doc(self));
                v
            },
            ValueType::Vector(t, lanes) => {
                push_str(&mut line, "A SIMD vector with ");
                push_decimal(&mut line, lanes);
                push_str(&mut line, " lanes containing a `");
                t.push_name(&mut line);
                push_str(&mut line, "` each.");
                let v = vec![line];
                assert(v@.map_values(|l: String| l@) =~= type_doc(self));
                v
            },
        }
    }
}

/// The logarithm of a count up to 64 is at most 6.
proof fn lemma_log2_bound(n: nat)
    requires
        n <= 0xffff_ffff_ffff_ffff,
    ensures
        log2(n) < 64,
{
    vstd::arithmetic::power2::lemma2_to64_rest();
    lemma_log2_below_pow2(n, 64);
}

/// A number below 2^k, for k at least 1, has a logarithm below k.
proof fn lemma_log2_below_pow2(n: nat, k: nat)
    requires
        k >= 1,
        n < vstd::arithmetic::power2::pow2(k),
    ensures
        log2(n) < k,
    decreases k,
{
    if n > 1 {
        vstd::arithmetic::power2::lemma_pow2_unfold(k);
        if k == 1 {
            assert(vstd::arithmetic::power2::pow2(0) == 1) by {
                vstd::arithmetic::power2::lemma2_to64();
            }
        } else {
            lemma_log2_below_pow2(n / 2, (k - 1) as nat);
        }
    }
}

} // verus!
