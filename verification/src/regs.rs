//! RISC-V registers: the registers the backend names, the register universe
//! handed to the register allocator, and register printing.
//!
//! ```text
//! x0     zero
//! x1     ra    (return addr)        caller saved
//! x2     sp                         caller
//! x3     gp    (global ptr)
//! x4     tp    (thread ptr)
//! x5     t0    (tmp / alt link reg) caller <-
//! x6-7   t1-2  (temporaries)        caller <-
//! x8     s0/fp (saved / frame ptr)  callee
//! x9     s1    (saved)              callee
//! x10-11 a0-1  (func args / rets)   caller <-
//! x12-17 a2-7  (func args)          caller <-
//! x18-27 s2-11 (saved)              callee
//! x28-31 t3-6  (temporaries)        caller <-
//! ```

use crate::text::{
    decimal, digit_value, digits_value, lemma_digits_denote, push_decimal, push_str, string_push,
};
use regalloc::PrettyPrint;
use vstd::prelude::*;
use vstd::string::StrSliceExecFns;

verus! {

/// The register classes of the register allocator.
#[derive(Clone, Copy, Debug, PartialEq, Eq, Structural)]
pub enum RegClass {
    I32,
    F32,
    I64,
    F64,
    V128,
}

/// The number of register classes.
pub const NUM_REG_CLASSES: usize = 5;

/// The number of a register class.
pub open spec fn class_number(c: RegClass) -> u32 {
    match c {
        RegClass::I32 => 0,
        RegClass::F32 => 1,
        RegClass::I64 => 2,
        RegClass::F64 => 3,
        RegClass::V128 => 4,
    }
}

/// The one-letter name the register allocator prints for a class.
pub open spec fn class_short_name(c: RegClass) -> char {
    match c {
        RegClass::I32 => 'I',
        RegClass::F32 => 'F',
        RegClass::I64 => 'J',
        RegClass::F64 => 'D',
        RegClass::V128 => 'V',
    }
}

impl RegClass {
    /// The number of this class.
    pub fn rc_to_u32(self) -> (r: u32)
        ensures
            r == class_number(self),
    {
        match self {
            RegClass::I32 => 0,
            RegClass::F32 => 1,
            RegClass::I64 => 2,
            RegClass::F64 => 3,
            RegClass::V128 => 4,
        }
    }

    /// The number of this class, as an index.
    pub fn rc_to_usize(self) -> (r: usize)
        ensures
            r == class_number(self),
    {
        match self {
            RegClass::I32 => 0,
            RegClass::F32 => 1,
            RegClass::I64 => 2,
            RegClass::F64 => 3,
            RegClass::V128 => 4,
        }
    }
}

/// A real (machine) register: its class, its hardware encoding, and its
/// index in the register universe.
#[derive(Clone, Copy, Debug, PartialEq, Eq, Structural)]
pub struct RealReg {
    pub class: RegClass,
    pub enc: u8,
    pub index: u8,
}

/// A register: a real register, or a virtual register numbered below 2^28.
#[derive(Clone, Copy, Debug, PartialEq, Eq, Structural)]
pub enum Reg {
    Real(RealReg),
    Virtual { class: RegClass, index: u32 },
}

/// The largest number of virtual registers.
pub const MAX_VIRTUAL_REGS: u32 = 0x1000_0000;

/// The class of a register.
pub open spec fn reg_class(r: Reg) -> RegClass {
    match r {
        Reg::Real(rr) => rr.class,
        Reg::Virtual { class, .. } => class,
    }
}

/// The index of a register: its universe index if real, its number if virtual.
pub open spec fn reg_index(r: Reg) -> nat {
    match r {
        Reg::Real(rr) => rr.index as nat,
        Reg::Virtual { index, .. } => index as nat,
    }
}

impl Reg {
    /// A real register of class `class` with hardware encoding `enc` and
    /// universe index `index`.
    pub fn new_real(class: RegClass, enc: u8, index: u8) -> (r: Reg)
        ensures
            r == Reg::Real(RealReg { class, enc, index }),
    {
        Reg::Real(RealReg { class, enc, index })
    }

    /// Whether this is a real register.
    pub fn is_real(self) -> (r: bool)
        ensures
            r == (self is Real),
    {
        match self {
            Reg::Real(_) => true,
            Reg::Virtual { .. } => false,
        }
    }

    /// The class of this register.
    pub fn get_class(self) -> (r: RegClass)
        ensures
            r == reg_class(self),
    {
        match self {
            Reg::Real(rr) => rr.class,
            Reg::Virtual { class, .. } => class,
        }
    }

    /// The index of this register.
    pub fn get_index(self) -> (r: usize)
        ensures
            r == reg_index(self),
    {
        match self {
            Reg::Real(rr) => rr.index as usize,
            Reg::Virtual { index, .. } => index as usize,
        }
    }

    /// The real register this is.
    pub fn to_real_reg(self) -> (r: RealReg)
        requires
            self is Real,
        ensures
            self == Reg::Real(r),
    {
        match self {
            Reg::Real(rr) => rr,
            Reg::Virtual { .. } => {
                assert(false);
                RealReg { class: RegClass::I64, enc: 0, index: 0 }
            },
        }
    }
}

/// A register that an instruction may write.
#[derive(Clone, Copy, Debug, PartialEq, Eq, Structural)]
pub struct Writable<R> {
    pub reg: R,
}

impl<R: Copy> Writable<R> {
    /// Marks a register as writable.
    pub fn from_reg(reg: R) -> (w: Writable<R>)
        ensures
            w.reg == reg,
    {
        Writable { reg }
    }

    /// The register.
    pub fn to_reg(&self) -> (r: R)
        ensures
            r == self.reg,
    {
        self.reg
    }
}

/// The integer register with hardware encoding `enc` at universe index `index`.
pub open spec fn i64_reg(enc: u8, index: u8) -> RealReg {
    RealReg { class: RegClass::I64, enc, index }
}

/// Temporary register `t{num}` (1 to 4): x6, x7, x28, x29.
pub open spec fn spec_treg(num: u8) -> RealReg {
    if num == 1 {
        i64_reg(6, 0)
    } else if num == 2 {
        i64_reg(7, 1)
    } else if num == 3 {
        i64_reg(28, 2)
    } else {
        i64_reg(29, 3)
    }
}

/// Argument register `a{num}` (0 to 7): x10 to x17.
pub open spec fn spec_areg(num: u8) -> RealReg {
    i64_reg((10 + num) as u8, (4 + num) as u8)
}

/// Saved register `s{num}` (1 to 11): x9, then x18 to x27.
pub open spec fn spec_sreg(num: u8) -> RealReg {
    if num == 1 {
        i64_reg(9, 12)
    } else {
        i64_reg((16 + num) as u8, (11 + num) as u8)
    }
}

/// The zero register x0.
pub open spec fn spec_zero_reg() -> RealReg {
    i64_reg(0, 23)
}

/// The return-address register x1.
pub open spec fn spec_ra_reg() -> RealReg {
    i64_reg(1, 24)
}

/// The stack pointer x2.
pub open spec fn spec_sp_reg() -> RealReg {
    i64_reg(2, 25)
}

/// The alternate link register x5.
pub open spec fn spec_alt_lr_reg() -> RealReg {
    i64_reg(5, 26)
}

/// The frame pointer x8.
pub open spec fn spec_fp_reg() -> RealReg {
    i64_reg(8, 27)
}

/// The spill temporary x31.
pub open spec fn spec_spilltmp_reg() -> RealReg {
    i64_reg(31, 28)
}

/// The second temporary x5.
pub open spec fn spec_tmp2_reg() -> RealReg {
    i64_reg(5, 29)
}

//=============================================================================
// Registers, the Universe thereof, and printing

/// Temporary register `t{num}`, for `num` from 1 to 4.
pub fn treg(num: u8) -> (r: Reg)
    requires
        1 <= num <= 4,
    ensures
        r == Reg::Real(spec_treg(num)),
{
    match num {
        1 => Reg::new_real(RegClass::I64, 6, 0),
        2 => Reg::new_real(RegClass::I64, 7, 1),
        3 => Reg::new_real(RegClass::I64, 28, 2),
        _ => Reg::new_real(RegClass::I64, 29, 3),
    }
}

/// Temporary register `t{num}` as a written register.
pub fn mutable_treg(num: u8) -> (w: Writable<Reg>)
    requires
        1 <= num <= 4,
    ensures
        w.reg == Reg::Real(spec_treg(num)),
{
    Writable::from_reg(treg(num))
}

/// Argument register `a{num}`, for `num` below 8.
pub fn areg(num: u8) -> (r: Reg)
    requires
        num < 8,
    ensures
        r == Reg::Real(spec_areg(num)),
{
    Reg::new_real(RegClass::I64, 10 + num, 4 + num)
}

/// Argument register `a{num}` as a written register.
pub fn mutable_areg(num: u8) -> (w: Writable<Reg>)
    requires
        num < 8,
    ensures
        w.reg == Reg::Real(spec_areg(num)),
{
    Writable::from_reg(areg(num))
}

/// Saved register `s{num}`, for `num` from 1 to 11.
pub fn sreg(num: u8) -> (r: Reg)
    requires
        1 <= num <= 11,
    ensures
        r == Reg::Real(spec_sreg(num)),
{
    if num == 1 {
        Reg::new_real(RegClass::I64, 9, 12)
    } else {
        Reg::new_real(RegClass::I64, 18 - 2 + num, 13 - 2 + num)
    }
}

/// Saved register `s{num}` as a written register.
pub fn mutable_sreg(num: u8) -> (w: Writable<Reg>)
    requires
        1 <= num <= 11,
    ensures
        w.reg == Reg::Real(spec_sreg(num)),
{
    Writable::from_reg(sreg(num))
}

/// Get a reference to the zero-register.
pub fn zero_reg() -> (r: Reg)
    ensures
        r == Reg::Real(spec_zero_reg()),
{
    Reg::new_real(RegClass::I64, 0, 23)
}

/// Get a writable reference to the zero-register (this discards a result).
pub fn writable_zero_reg() -> (w: Writable<Reg>)
    ensures
        w.reg == Reg::Real(spec_zero_reg()),
{
    Writable::from_reg(zero_reg())
}

/// Get a reference to the return address register.
pub fn ra_reg() -> (r: Reg)
    ensures
        r == Reg::Real(spec_ra_reg()),
{
    Reg::new_real(RegClass::I64, 1, 24)
}

/// Get a writable reference to the return address register.
pub fn writable_ra_reg() -> (w: Writable<Reg>)
    ensures
        w.reg == Reg::Real(spec_ra_reg()),
{
    Writable::from_reg(ra_reg())
}

/// Get a reference to the stack-pointer register.
pub fn sp_reg() -> (r: Reg)
    ensures
        r == Reg::Real(spec_sp_reg()),
{
    Reg::new_real(RegClass::I64, 2, 25)
}

/// Get a writable reference to the stack-pointer register.
pub fn writable_sp_reg() -> (w: Writable<Reg>)
    ensures
        w.reg == Reg::Real(spec_sp_reg()),
{
    Writable::from_reg(sp_reg())
}

/// Get a reference to the alternate link register.
pub fn alt_lr_reg() -> (r: Reg)
    ensures
        r == Reg::Real(spec_alt_lr_reg()),
{
    Reg::new_real(RegClass::I64, 5, 26)
}

/// Get a writable reference to the alternate link register.
pub fn writable_alt_lr_reg() -> (w: Writable<Reg>)
    ensures
        w.reg == Reg::Real(spec_alt_lr_reg()),
{
    Writable::from_reg(alt_lr_reg())
}

/// Get a reference to the frame-pointer register
pub fn fp_reg() -> (r: Reg)
    ensures
        r == Reg::Real(spec_fp_reg()),
{
    Reg::new_real(RegClass::I64, 8, 27)
}

/// Get a mutable reference to the frame-pointer register
pub fn mutable_fp_reg() -> (w: Writable<Reg>)
    ensures
        w.reg == Reg::Real(spec_fp_reg()),
{
    Writable::from_reg(fp_reg())
}

/// Get a reference to the first temporary, sometimes "spill temporary", register. This register is
/// used to compute the address of a spill slot when a direct offset addressing mode from FP is not
/// sufficient (+/- 2^11 words). We exclude this register from regalloc and reserve it for this
/// purpose for simplicity; otherwise we need a multi-stage analysis where we first determine how
/// many spill slots we have, then perhaps remove the reg from the pool and recompute regalloc.
///
/// We use t6 for this because it's a scratch register. We're free to use it as long as we don't
/// expect it to live through call instructions.
pub fn spilltmp_reg() -> (r: Reg)
    ensures
        r == Reg::Real(spec_spilltmp_reg()),
{
    Reg::new_real(RegClass::I64, 31, 28)
}

/// Get a writable reference to the spilltmp reg.
pub fn writable_spilltmp_reg() -> (w: Writable<Reg>)
    ensures
        w.reg == Reg::Real(spec_spilltmp_reg()),
{
    Writable::from_reg(spilltmp_reg())
}

/// Get a reference to the second temp register. We need this in some edge cases
/// where we need both the spilltmp and another temporary.
///
/// We use x5.
pub fn tmp2_reg() -> (r: Reg)
    ensures
        r == Reg::Real(spec_tmp2_reg()),
{
    Reg::new_real(RegClass::I64, 5, 29)
}

/// Get a writable reference to the tmp2 reg.
pub fn writable_tmp2_reg() -> (w: Writable<Reg>)
    ensures
        w.reg == Reg::Real(spec_tmp2_reg()),
{
    Writable::from_reg(tmp2_reg())
}

/// The shared settings that the register universe depends on.
#[derive(Clone, Copy, Debug)]
pub struct Flags {
    /// Whether a register is pinned for the whole function.
    pub enable_pinned_reg: bool,
}

/// A contiguous range of allocable registers of one class, by universe index.
#[derive(Clone, Copy, Debug, PartialEq, Eq, Structural)]
pub struct RegClassInfo {
    /// The first index of the range.
    pub first: usize,
    /// The last index of the range (inclusive).
    pub last: usize,
    /// A register the allocator may keep for its own use as a temporary.
    pub suggested_scratch: Option<usize>,
}

/// The real registers known to the register allocator, with their names.
/// Register `i` of `regs` has universe index `i`; the first `allocable` of
/// them are available for allocation.
#[derive(Clone, Debug)]
pub struct RealRegUniverse {
    /// The registers and their names, by universe index.
    pub regs: Vec<(RealReg, String)>,
    /// How many registers, from the start, the allocator may use.
    pub allocable: usize,
    /// For each register class, its range of allocable registers.
    pub allocable_by_class: [Option<RegClassInfo>; 5],
}

/// The number of registers in the universe.
pub const NUM_UNIVERSE_REGS: usize = 30;

/// The number of allocable registers: the temporaries, argument and saved
/// registers.
pub const NUM_ALLOCABLE_REGS: usize = 23;

/// The register at universe index `i`, as the register accessors number
/// them: t1-t4, a0-a7, s1-s11, then zero, ra, sp, the alternate link
/// register, fp, the spill temporary and tmp2.
pub open spec fn universe_reg(i: nat) -> RealReg {
    if i < 4 {
        spec_treg((i + 1) as u8)
    } else if i < 12 {
        spec_areg((i - 4) as u8)
    } else if i < 23 {
        spec_sreg((i - 11) as u8)
    } else if i == 23 {
        spec_zero_reg()
    } else if i == 24 {
        spec_ra_reg()
    } else if i == 25 {
        spec_sp_reg()
    } else if i == 26 {
        spec_alt_lr_reg()
    } else if i == 27 {
        spec_fp_reg()
    } else if i == 28 {
        spec_spilltmp_reg()
    } else {
        spec_tmp2_reg()
    }
}

/// The name `x{enc}` of a register by its encoding.
pub open spec fn x_name(enc: u8) -> Seq<char> {
    seq!['x'] + decimal(enc as nat)
}

/// The name of the register at universe index `i`: the frame pointer is
/// `fp`, the return-address (link) register `lr`, the zero register `xzr`,
/// the stack pointer `sp`, and every other register `x{enc}`.
pub open spec fn universe_name(i: nat) -> Seq<char> {
    if i == 23 {
        seq!['x', 'z', 'r']
    } else if i == 24 {
        seq!['l', 'r']
    } else if i == 25 {
        seq!['s', 'p']
    } else if i == 27 {
        seq!['f', 'p']
    } else {
        x_name(universe_reg(i).enc)
    }
}

/// The first `n` registers and names of the universe are as above.
pub open spec fn universe_regs_are(regs: Seq<(RealReg, String)>, n: nat) -> bool {
    &&& regs.len() == n
    &&& forall|i: int|
        0 <= i < n ==> #[trigger] regs[i].0 == universe_reg(i as nat) && regs[i].1@ == universe_name(
            i as nat,
        )
}

/// The class ranges of the universe: the allocable registers are all of
/// class I64, and x19 (s3, index 14) is the suggested scratch register.
pub open spec fn universe_class_info() -> Seq<Option<RegClassInfo>> {
    seq![
        None,
        None,
        Some(RegClassInfo { first: 0, last: 22, suggested_scratch: Some(14) }),
        None,
        None,
    ]
}

/// Each register of the universe sits at its own index and is of class I64.
proof fn lemma_universe_reg_index()
    ensures
        forall|i: nat| i < NUM_UNIVERSE_REGS ==> (#[trigger] universe_reg(i)).index == i,
        forall|i: nat| i < NUM_UNIVERSE_REGS ==> (#[trigger] universe_reg(i)).class == RegClass::I64,
{
    assert forall|i: nat| i < NUM_UNIVERSE_REGS implies (#[trigger] universe_reg(i)).index == i
        && universe_reg(i).class == RegClass::I64 by {
    }
}

/// Every register this module names sits in the universe at its own index.
/// The temporaries, argument and saved registers are allocable; the zero,
/// return-address, stack, alternate link and frame pointers, the spill
/// temporary and tmp2 are kept from the allocator.
pub proof fn lemma_named_registers_in_universe()
    ensures
        forall|num: u8|
            1 <= num <= 4 ==> universe_reg((#[trigger] spec_treg(num)).index as nat) == spec_treg(num)
                && spec_treg(num).index < NUM_ALLOCABLE_REGS,
        forall|num: u8|
            num < 8 ==> universe_reg((#[trigger] spec_areg(num)).index as nat) == spec_areg(num)
                && spec_areg(num).index < NUM_ALLOCABLE_REGS,
        forall|num: u8|
            1 <= num <= 11 ==> universe_reg((#[trigger] spec_sreg(num)).index as nat) == spec_sreg(
                num,
            ) && spec_sreg(num).index < NUM_ALLOCABLE_REGS,
        universe_reg(spec_zero_reg().index as nat) == spec_zero_reg(),
        universe_reg(spec_ra_reg().index as nat) == spec_ra_reg(),
        universe_reg(spec_sp_reg().index as nat) == spec_sp_reg(),
        universe_reg(spec_alt_lr_reg().index as nat) == spec_alt_lr_reg(),
        universe_reg(spec_fp_reg().index as nat) == spec_fp_reg(),
        universe_reg(spec_spilltmp_reg().index as nat) == spec_spilltmp_reg(),
        universe_reg(spec_tmp2_reg().index as nat) == spec_tmp2_reg(),
        NUM_ALLOCABLE_REGS <= spec_zero_reg().index,
        NUM_ALLOCABLE_REGS <= spec_ra_reg().index,
        NUM_ALLOCABLE_REGS <= spec_sp_reg().index,
        NUM_ALLOCABLE_REGS <= spec_alt_lr_reg().index,
        NUM_ALLOCABLE_REGS <= spec_fp_reg().index,
        NUM_ALLOCABLE_REGS <= spec_spilltmp_reg().index,
        NUM_ALLOCABLE_REGS <= spec_tmp2_reg().index,
{
}


/// The registers follow the RISC-V register file: the argument registers
/// a0-a7 are x10-x17 in order, the saved registers s2-s11 are x18-x27 in
/// order, every encoding is one of the 32 registers, and no two registers of
/// the universe share an encoding except the alternate link register and
/// tmp2, which are both x5.
pub proof fn lemma_register_encodings()
    ensures
        spec_areg(0).enc == 10,
        forall|n: u8| n < 7 ==> (#[trigger] spec_areg((n + 1) as u8)).enc == spec_areg(n).enc + 1,
        spec_sreg(2).enc == 18,
        forall|n: u8|
            2 <= n < 11 ==> (#[trigger] spec_sreg((n + 1) as u8)).enc == spec_sreg(n).enc + 1,
        forall|i: nat| i < NUM_UNIVERSE_REGS ==> (#[trigger] universe_reg(i)).enc < 32,
        forall|i: nat, j: nat|
            i < j < NUM_UNIVERSE_REGS && !(i == 26 && j == 29) ==> (#[trigger] universe_reg(i)).enc
                != (#[trigger] universe_reg(j)).enc,
        universe_reg(26).enc == universe_reg(29).enc,
{
    assert forall|i: nat| i < NUM_UNIVERSE_REGS implies (#[trigger] universe_reg(i)).enc < 32 by {
    }
    assert forall|i: nat, j: nat|
        i < j < NUM_UNIVERSE_REGS && !(i == 26 && j == 29) implies (#[trigger] universe_reg(i)).enc
        != (#[trigger] universe_reg(j)).enc by {
    }
}


/// The registers carry their RISC-V encodings, as the register table above
/// lists them: zero is x0, ra x1, sp x2, the alternate link register t0 is
/// x5, t1-t2 are x6-x7, fp (s0) is x8, s1 is x9, a0-a7 are x10-x17, s2-s11
/// are x18-x27, t3-t4 are x28-x29 and the spill temporary t6 is x31; tmp2
/// is x5.
pub proof fn lemma_abi_encodings()
    ensures
        spec_zero_reg().enc == 0,
        spec_ra_reg().enc == 1,
        spec_sp_reg().enc == 2,
        spec_alt_lr_reg().enc == 5,
        spec_fp_reg().enc == 8,
        spec_spilltmp_reg().enc == 31,
        spec_tmp2_reg().enc == 5,
        spec_treg(1).enc == 6 && spec_treg(2).enc == 7,
        spec_treg(3).enc == 28 && spec_treg(4).enc == 29,
        spec_sreg(1).enc == 9,
        forall|n: u8| 2 <= n <= 11 ==> (#[trigger] spec_sreg(n)).enc == 16 + n,
        forall|n: u8| n < 8 ==> (#[trigger] spec_areg(n)).enc == 10 + n,
{
}

/// Every register of the universe is named `x` followed by its encoding in
/// decimal, except the zero register (`xzr`), the return-address register
/// (`lr`), the stack pointer (`sp`) and the frame pointer (`fp`).
pub proof fn lemma_universe_names()
    ensures
        forall|i: nat|
            #![trigger universe_name(i)]
            i < NUM_UNIVERSE_REGS ==> {
                let r = universe_reg(i);
                let nm = universe_name(i);
                if r == spec_zero_reg() {
                    nm == "xzr"@
                } else if r == spec_ra_reg() {
                    nm == "lr"@
                } else if r == spec_sp_reg() {
                    nm == "sp"@
                } else if r == spec_fp_reg() {
                    nm == "fp"@
                } else {
                    &&& nm.len() >= 2
                    &&& nm[0] == 'x'
                    &&& digits_value(nm.skip(1), 10) == r.enc
                    &&& forall|j: int| 1 <= j < nm.len() ==> 0 <= #[trigger] digit_value(nm[j]) < 10
                }
            },
{
    reveal_strlit("xzr");
    reveal_strlit("lr");
    reveal_strlit("sp");
    reveal_strlit("fp");
    assert forall|i: nat| #![trigger universe_name(i)] i < NUM_UNIVERSE_REGS implies {
        let r = universe_reg(i);
        let nm = universe_name(i);
        if r == spec_zero_reg() {
            nm == "xzr"@
        } else if r == spec_ra_reg() {
            nm == "lr"@
        } else if r == spec_sp_reg() {
            nm == "sp"@
        } else if r == spec_fp_reg() {
            nm == "fp"@
        } else {
            &&& nm.len() >= 2
            &&& nm[0] == 'x'
            &&& digits_value(nm.skip(1), 10) == r.enc
            &&& forall|j: int| 1 <= j < nm.len() ==> 0 <= #[trigger] digit_value(nm[j]) < 10
        }
    } by {
        let r = universe_reg(i);
        let nm = universe_name(i);
        if i != 23 && i != 24 && i != 25 && i != 27 {
            lemma_digits_denote(r.enc as nat, 10);
            let d = decimal(r.enc as nat);
            assert(nm == seq!['x'] + d);
            assert(nm.skip(1) =~= d);
            assert forall|j: int| 1 <= j < nm.len() implies 0 <= #[trigger] digit_value(nm[j])
                < 10 by {
                assert(nm[j] == d[j - 1]);
            }
        }
    }
}

/// The name `x{enc}` as a string.
fn make_x_name(enc: u8) -> (s: String)
    ensures
        s@ == x_name(enc),
{
    let mut s = String::new();
    string_push(&mut s, 'x');
    push_decimal(&mut s, enc as u64);
    s
}

/// A name written out from its characters.
fn make_name(t: &str) -> (s: String)
    ensures
        s@ == t@,
{
    let mut s = String::new();
    push_str(&mut s, t);
    assert(s@ =~= t@);
    s
}

/// Create the register universe for RISC-V.
///
/// Each register sits at the position of its own index, as the register
/// accessors number them. The allocable registers come first: the
/// temporaries t1-t4, the argument registers a0-a7 and the saved registers
/// s1-s11, named `x{enc}`. The registers with fixed roles follow: xzr, lr,
/// sp, the alternate link register x5, fp, the spill temporary x31 and tmp2
/// (x5). `flags` must not pin a register.
pub fn create_reg_universe(flags: &Flags) -> (u: RealRegUniverse)
    requires
        !flags.enable_pinned_reg,
    ensures
        universe_regs_are(u.regs@, NUM_UNIVERSE_REGS as nat),
        forall|i: int| 0 <= i < u.regs@.len() ==> (#[trigger] u.regs@[i]).0.index == i,
        u.allocable == NUM_ALLOCABLE_REGS,
        u.allocable_by_class@ == universe_class_info(),
        forall|k: int|
            0 <= k < u.allocable ==> (#[trigger] u.regs@[k]).0.enc != spec_spilltmp_reg().enc,
        u.allocable <= u.regs@.len(),
        u.allocable_by_class@.len() == NUM_REG_CLASSES,
        forall|c: int|
            0 <= c < NUM_REG_CLASSES ==> match #[trigger] u.allocable_by_class@[c] {
                Some(info) => {
                    &&& info.first <= info.last < u.allocable
                    &&& forall|i: int|
                        info.first <= i <= info.last ==> class_number(u.regs@[i].0.class) == c
                    &&& info.suggested_scratch matches Some(k) ==> info.first <= k <= info.last
                },
                None => true,
            },
{
    let mut regs: Vec<(RealReg, String)> = Vec::new();
    for num in 1u8..5u8
        invariant
            universe_regs_are(regs@, (num - 1) as nat),
    {
        let reg = treg(num).to_real_reg();
        regs.push((reg, make_x_name(reg.enc)));
    }
    for num in 0u8..8u8
        invariant
            universe_regs_are(regs@, (num + 4) as nat),
    {
        let reg = areg(num).to_real_reg();
        regs.push((reg, make_x_name(reg.enc)));
    }
    for num in 1u8..12u8
        invariant
            universe_regs_are(regs@, (num + 11) as nat),
    {
        let reg = sreg(num).to_real_reg();
        regs.push((reg, make_x_name(reg.enc)));
    }
    let allocable = regs.len();
    let info = RegClassInfo {
        first: 0,
        last: allocable - 1,
        suggested_scratch: Some(sreg(3).get_index()),
    };
    proof {
        reveal_strlit("xzr");
        reveal_strlit("lr");
        reveal_strlit("sp");
        reveal_strlit("fp");
    }
    regs.push((zero_reg().to_real_reg(), make_name("xzr")));
    regs.push((ra_reg().to_real_reg(), make_name("lr")));
    regs.push((sp_reg().to_real_reg(), make_name("sp")));
    let alt_lr = alt_lr_reg().to_real_reg();
    regs.push((alt_lr, make_x_name(alt_lr.enc)));
    regs.push((fp_reg().to_real_reg(), make_name("fp")));
    let spilltmp = spilltmp_reg().to_real_reg();
    regs.push((spilltmp, make_x_name(spilltmp.enc)));
    let tmp2 = tmp2_reg().to_real_reg();
    regs.push((tmp2, make_x_name(tmp2.enc)));
    assert(regs@[23].1@ == universe_name(23));
    assert(regs@[24].1@ == universe_name(24));
    assert(regs@[25].1@ == universe_name(25));
    assert(regs@[27].1@ == universe_name(27));
    assert(regs@[26].0 == universe_reg(26));
    assert(regs@[29].1@ == universe_name(29));
    assert(universe_regs_are(regs@, 30));
    let allocable_by_class = [None, None, Some(info), None, None];
    assert(allocable_by_class@ =~= universe_class_info());
    let u = RealRegUniverse { regs, allocable, allocable_by_class };
    proof {
        lemma_universe_reg_index();
        assert forall|i: int| 0 <= i < u.regs@.len() implies (#[trigger] u.regs@[i]).0.index
            == i by {
            assert(u.regs@[i].0 == universe_reg(i as nat));
        }
        assert forall|k: int| 0 <= k < u.allocable implies (#[trigger] u.regs@[k]).0.enc
            != spec_spilltmp_reg().enc by {
            assert(u.regs@[k].0 == universe_reg(k as nat));
        }
        assert forall|i: int| 0 <= i <= 22 implies class_number(u.regs@[i].0.class) == 2 by {
            assert(u.regs@[i].0 == universe_reg(i as nat));
        }
    }
    u
}

/// The text the register allocator prints for a register shown without a
/// register universe: `%`, then `r` for a real or `v` for a virtual
/// register, its index in decimal, and the one-letter name of its class.
pub open spec fn generic_reg_text(r: Reg) -> Seq<char> {
    seq!['%'] + (if r is Real {
        seq!['r']
    } else {
        seq!['v']
    }) + decimal(reg_index(r)) + seq![class_short_name(reg_class(r))]
}

/// `regalloc`'s `PrettyPrint::show_rru` for a register, given no register
/// universe. The contract states the text that `regalloc`'s `Debug` impl of
/// `Reg` writes behind the `%` that `show_rru` puts in front of it.
#[verifier::external_body]
fn regalloc_show_rru(r: Reg, class: u32) -> (s: String)
    requires
        class == class_number(reg_class(r)),
        r matches Reg::Virtual { index, .. } ==> index < MAX_VIRTUAL_REGS,
    ensures
        s@ == generic_reg_text(r),
{
    let rc = regalloc::RegClass::rc_from_u32(class);
    let reg = match r {
        Reg::Real(rr) => regalloc::Reg::new_real(rc, rr.enc, rr.index),
        Reg::Virtual { index, .. } => regalloc::Reg::new_virtual(rc, index),
    };
    reg.show_rru(None)
}

/// The names of the registers of a universe, by universe index.
pub open spec fn universe_names(u: RealRegUniverse) -> Seq<Seq<char>> {
    u.regs@.map_values(|p: (RealReg, String)| p.1@)
}

/// The name of a register: its name in the universe when it is real and a
/// universe is given, else the generic text.
pub open spec fn spec_show_rru(r: Reg, names: Option<Seq<Seq<char>>>) -> Seq<char> {
    match r {
        Reg::Real(rr) => match names {
            Some(ns) => ns[rr.index as int],
            None => generic_reg_text(r),
        },
        Reg::Virtual { .. } => generic_reg_text(r),
    }
}

/// The names of an optional universe.
pub open spec fn option_universe_names(mb_rru: Option<&RealRegUniverse>) -> Option<Seq<Seq<char>>> {
    match mb_rru {
        Some(u) => Some(universe_names(*u)),
        None => None,
    }
}

/// The register is printable: a virtual register has a number below 2^28,
/// and a real register shown with a universe has an entry in it.
pub open spec fn printable(r: Reg, mb_rru: Option<&RealRegUniverse>) -> bool {
    match r {
        Reg::Real(rr) => match mb_rru {
            Some(u) => (rr.index as int) < u.regs@.len(),
            None => true,
        },
        Reg::Virtual { index, .. } => index < MAX_VIRTUAL_REGS,
    }
}

/// Shows a register, by its name in `mb_rru` when it is real and a universe
/// is given.
pub fn show_rru(r: Reg, mb_rru: Option<&RealRegUniverse>) -> (s: String)
    requires
        printable(r, mb_rru),
    ensures
        s@ == spec_show_rru(r, option_universe_names(mb_rru)),
{
    match r {
        Reg::Real(rr) => match mb_rru {
            Some(u) => u.regs[rr.index as usize].1.clone(),
            None => regalloc_show_rru(r, rr.class.rc_to_u32()),
        },
        Reg::Virtual { class, .. } => regalloc_show_rru(r, class.rc_to_u32()),
    }
}

/// The size of an operand.
#[derive(Clone, Copy, Debug, PartialEq, Eq, Structural)]
pub enum OperandSize {
    Size32,
    Size64,
}

impl OperandSize {
    /// Whether this is the 32-bit size.
    pub fn is32(self) -> (r: bool)
        ensures
            r == (self is Size32),
    {
        match self {
            OperandSize::Size32 => true,
            OperandSize::Size64 => false,
        }
    }
}

/// The name of an integer register at a size: a real 64-bit integer register
/// named `x...` used at 32 bits is named `w...`; a virtual one gets a `w`
/// suffix; any other name is kept.
pub open spec fn sized_ireg_name(s: Seq<char>, r: Reg, size: OperandSize) -> Seq<char> {
    if reg_class(r) != RegClass::I64 || !(size is Size32) {
        s
    } else if r is Real {
        if s.len() > 0 && s[0] == 'x' {
            seq!['w'] + s.skip(1)
        } else {
            s
        }
    } else {
        s.push('w')
    }
}


/// At 32 bits, a real 64-bit integer register whose name starts with `x`
/// is named with `w` in its place and the rest kept, whatever the length of
/// the name; a virtual one gets a `w` appended; any other register, or any
/// other size, keeps its name.
pub proof fn lemma_sized_ireg_name(s: Seq<char>, r: Reg, size: OperandSize)
    ensures
        (reg_class(r) != RegClass::I64 || size is Size64) ==> sized_ireg_name(s, r, size) == s,
        (r is Real && reg_class(r) == RegClass::I64 && size is Size32 && s.len() > 0 && s[0] == 'x')
            ==> sized_ireg_name(s, r, size).len() == s.len() && sized_ireg_name(s, r, size)[0]
            == 'w' && sized_ireg_name(s, r, size).skip(1) == s.skip(1),
        (r is Real && !(s.len() > 0 && s[0] == 'x')) ==> sized_ireg_name(s, r, size) == s,
        (r is Virtual && reg_class(r) == RegClass::I64 && size is Size32) ==> sized_ireg_name(
            s,
            r,
            size,
        ).len() == s.len() + 1 && sized_ireg_name(s, r, size).take(s.len() as int) == s
            && sized_ireg_name(s, r, size).last() == 'w',
{
    if r is Real && reg_class(r) == RegClass::I64 && size is Size32 && s.len() > 0 && s[0] == 'x' {
        assert((seq!['w'] + s.skip(1)).skip(1) =~= s.skip(1));
    }
    if r is Virtual && reg_class(r) == RegClass::I64 && size is Size32 {
        assert(s.push('w').take(s.len() as int) =~= s);
    }
}

/// If `ireg` denotes an I64-classed reg, make a best-effort attempt to show
/// its name at the 32-bit size.
pub fn show_ireg_sized(reg: Reg, mb_rru: Option<&RealRegUniverse>, size: OperandSize) -> (s: String)
    requires
        printable(reg, mb_rru),
    ensures
        s@ == sized_ireg_name(spec_show_rru(reg, option_universe_names(mb_rru)), reg, size),
        ({
            let shown = spec_show_rru(reg, option_universe_names(mb_rru));
            &&& (reg_class(reg) != RegClass::I64 || size is Size64) ==> s@ == shown
            &&& (reg is Real && reg_class(reg) == RegClass::I64 && size is Size32 && shown.len() > 0
                && shown[0] == 'x') ==> s@.len() == shown.len() && s@[0] == 'w' && s@.skip(1)
                == shown.skip(1)
            &&& (reg is Real && !(shown.len() > 0 && shown[0] == 'x')) ==> s@ == shown
            &&& (reg is Virtual && reg_class(reg) == RegClass::I64 && size is Size32) ==> s@.len()
                == shown.len() + 1 && s@.take(shown.len() as int) == shown && s@.last() == 'w'
        }),
{
    proof {
        lemma_sized_ireg_name(spec_show_rru(reg, option_universe_names(mb_rru)), reg, size);
    }
    let mut s = show_rru(reg, mb_rru);
    if reg.get_class() != RegClass::I64 || !size.is32() {
        // We can't do any better.
        return s;
    }
    if reg.is_real() {
        // Change (eg) "x42" into "w42" as appropriate
        let len = s.as_str().unicode_len();
        if len > 0 && s.as_str().get_char(0) == 'x' {
            let mut w = String::new();
            string_push(&mut w, 'w');
            push_str(&mut w, s.as_str().substring_char(1, len));
            assert(w@ =~= seq!['w'] + s@.skip(1));
            s = w;
        }
    } else {
        // Add a "w" suffix to RegClass::I64 vregs used in a 32-bit role
        string_push(&mut s, 'w');
    }
    s
}

} // verus!
