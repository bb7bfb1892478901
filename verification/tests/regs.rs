use cranelift::regs::{
    alt_lr_reg, areg, create_reg_universe, fp_reg, mutable_areg, mutable_fp_reg, mutable_sreg,
    mutable_treg, ra_reg, show_ireg_sized, show_rru, sp_reg, spilltmp_reg, sreg, tmp2_reg, treg,
    writable_alt_lr_reg, writable_ra_reg, writable_sp_reg, writable_spilltmp_reg,
    writable_tmp2_reg, writable_zero_reg, zero_reg, Flags, OperandSize, RealReg, Reg, RegClass,
    RegClassInfo, Writable,
};

fn x(enc: u8, index: u8) -> Reg {
    Reg::Real(RealReg { class: RegClass::I64, enc, index })
}

#[test]
fn temporaries() {
    assert_eq!(treg(1), x(6, 0));
    assert_eq!(treg(2), x(7, 1));
    assert_eq!(treg(3), x(28, 2));
    assert_eq!(treg(4), x(29, 3));
    assert_eq!(mutable_treg(3).to_reg(), x(28, 2));
}

#[test]
fn arguments() {
    assert_eq!(areg(0), x(10, 4));
    assert_eq!(areg(7), x(17, 11));
    assert_eq!(mutable_areg(2), Writable::from_reg(x(12, 6)));
}

#[test]
fn saved() {
    assert_eq!(sreg(1), x(9, 12));
    assert_eq!(sreg(2), x(18, 13));
    assert_eq!(sreg(11), x(27, 22));
    assert_eq!(mutable_sreg(3).to_reg(), x(19, 14));
}

#[test]
fn fixed_registers() {
    assert_eq!(zero_reg(), x(0, 23));
    assert_eq!(ra_reg(), x(1, 24));
    assert_eq!(sp_reg(), x(2, 25));
    assert_eq!(alt_lr_reg(), x(5, 26));
    assert_eq!(fp_reg(), x(8, 27));
    assert_eq!(spilltmp_reg(), x(31, 28));
    assert_eq!(tmp2_reg(), x(5, 29));
    assert_eq!(writable_zero_reg().to_reg(), zero_reg());
    assert_eq!(writable_ra_reg().to_reg(), ra_reg());
    assert_eq!(writable_sp_reg().to_reg(), sp_reg());
    assert_eq!(writable_alt_lr_reg().to_reg(), alt_lr_reg());
    assert_eq!(mutable_fp_reg().to_reg(), fp_reg());
    assert_eq!(writable_spilltmp_reg().to_reg(), spilltmp_reg());
    assert_eq!(writable_tmp2_reg().to_reg(), tmp2_reg());
}

#[test]
fn universe_lists_registers_by_index() {
    let u = create_reg_universe(&Flags { enable_pinned_reg: false });
    assert_eq!(u.regs.len(), 30);
    assert_eq!(u.allocable, 23);
    for (i, (reg, _)) in u.regs.iter().enumerate() {
        assert_eq!(i, reg.index as usize);
        assert_eq!(reg.class, RegClass::I64);
    }
    assert_eq!(u.regs[0].1, "x6");
    assert_eq!(u.regs[4].1, "x10");
    assert_eq!(u.regs[12].1, "x9");
    assert_eq!(u.regs[22].1, "x27");
    let names: Vec<&str> = u.regs[23..].iter().map(|r| r.1.as_str()).collect();
    assert_eq!(names, ["xzr", "lr", "sp", "x5", "fp", "x31", "x5"]);
    assert_eq!(Reg::Real(u.regs[28].0), spilltmp_reg());
    assert_eq!(Reg::Real(u.regs[29].0), tmp2_reg());
    assert_eq!(
        u.allocable_by_class[RegClass::I64.rc_to_usize()],
        Some(RegClassInfo { first: 0, last: 22, suggested_scratch: Some(14) })
    );
    assert_eq!(u.regs[14].0.enc, 19);
    assert_eq!(u.allocable_by_class[RegClass::F32.rc_to_usize()], None);
    assert!(u.regs[..23].iter().all(|(r, _)| r.enc != 31));
}

#[test]
fn show_with_universe() {
    let u = create_reg_universe(&Flags { enable_pinned_reg: false });
    assert_eq!(show_rru(areg(0), Some(&u)), "x10");
    assert_eq!(show_ireg_sized(areg(0), Some(&u), OperandSize::Size32), "w10");
    assert_eq!(show_ireg_sized(areg(0), Some(&u), OperandSize::Size64), "x10");
    assert_eq!(show_ireg_sized(zero_reg(), Some(&u), OperandSize::Size32), "wzr");
    assert_eq!(show_ireg_sized(sp_reg(), Some(&u), OperandSize::Size32), "sp");
    assert_eq!(show_ireg_sized(fp_reg(), Some(&u), OperandSize::Size32), "fp");
    assert_eq!(show_rru(ra_reg(), Some(&u)), "lr");
}

#[test]
fn show_without_universe() {
    assert_eq!(show_rru(treg(1), None), "%r0J");
    assert_eq!(show_rru(sreg(11), None), "%r22J");
    assert_eq!(show_ireg_sized(treg(1), None, OperandSize::Size32), "%r0J");
    let v = Reg::Virtual { class: RegClass::I64, index: 5 };
    assert_eq!(show_rru(v, None), "%v5J");
    assert_eq!(show_ireg_sized(v, None, OperandSize::Size32), "%v5Jw");
    assert_eq!(show_ireg_sized(v, None, OperandSize::Size64), "%v5J");
    let f = Reg::Virtual { class: RegClass::F32, index: 12 };
    assert_eq!(show_ireg_sized(f, None, OperandSize::Size32), "%v12F");
    let d = Reg::Real(RealReg { class: RegClass::F64, enc: 1, index: 3 });
    assert_eq!(show_rru(d, None), "%r3D");
    let q = Reg::Virtual { class: RegClass::V128, index: 0 };
    assert_eq!(show_rru(q, None), "%v0V");
    let i = Reg::Virtual { class: RegClass::I32, index: 7 };
    assert_eq!(show_rru(i, None), "%v7I");
}

#[test]
fn register_accessors() {
    let r = areg(3);
    assert!(r.is_real());
    assert_eq!(r.get_class(), RegClass::I64);
    assert_eq!(r.get_index(), 7);
    assert_eq!(r.to_real_reg().enc, 13);
    let v = Reg::Virtual { class: RegClass::F64, index: 99 };
    assert!(!v.is_real());
    assert_eq!(v.get_index(), 99);
    assert_eq!(RegClass::V128.rc_to_u32(), 4);
}
