use gamebuino_emulator::instruction::Instruction;
use gamebuino_emulator::register::CondRegister;
use gamebuino_emulator::Gamebuino;

fn system_with(registers: &[(u8, u32)]) -> Gamebuino {
    let mut system = Gamebuino::new();
    for (register, value) in registers {
        system.set_register(*register, *value);
    }
    system
}

fn nzvc(system: &Gamebuino) -> (bool, bool, bool, bool) {
    let CondRegister { n, z, v, c } = system.flags();
    (n, z, v, c)
}

/// Sets the flags by a comparison that yields them.
fn set_flags(system: &mut Gamebuino, n: bool, z: bool, v: bool, c: bool) {
    let saved = (system.get_register(0), system.get_register(1));
    let (a, b) = match (n, z, v, c) {
        (false, false, false, false) => (1u32, 2u32),
        (false, false, false, true) => (0xffff_ffff, 2),
        (false, true, false, true) => (0xffff_ffff, 1),
        (true, false, false, false) => (0x8000_0000, 1),
        (false, false, true, true) => (0x8000_0000, 0x8000_0001),
        (true, false, true, false) => (0x7fff_ffff, 1),
        (false, true, true, true) => (0x8000_0000, 0x8000_0000),
        (true, false, false, true) => (0xffff_ffff, 0xffff_ffff),
        _ => panic!("no operands for these flags"),
    };
    system.set_register(0, a);
    system.set_register(1, b);
    system.execute_instruction(Instruction::Cmn { rs: 1, rd: 0 });
    system.set_register(0, saved.0);
    system.set_register(1, saved.1);
    assert_eq!(nzvc(system), (n, z, v, c));
}

#[test]
fn shift_left_by_immediate() {
    let mut system = system_with(&[(1, 0x8000_0001)]);
    system.execute_instruction(Instruction::LslImm { rs: 1, rd: 0, offset: 4 });
    assert_eq!(system.get_register(0), 0x10);
    assert_eq!(system.get_register(1), 0x8000_0001);
    // bit 4 of the source is clear
    assert_eq!(nzvc(&system), (false, false, false, false));
    system.execute_instruction(Instruction::LslImm { rs: 1, rd: 0, offset: 31 });
    assert_eq!(system.get_register(0), 0x8000_0000);
    // bit 31 of the source is set
    assert_eq!(nzvc(&system), (true, false, false, true));
    system.set_register(1, 0x8000_0000);
    system.execute_instruction(Instruction::LslImm { rs: 1, rd: 0, offset: 1 });
    assert_eq!(system.get_register(0), 0);
    assert_eq!(nzvc(&system), (false, true, false, false));
}

#[test]
fn shift_left_law_on_many_values() {
    for v in [0u8, 1, 2, 0x55, 0x80, 0xaa, 0xff] {
        for k in 0..32u8 {
            let mut system = Gamebuino::new();
            system.execute_instruction(Instruction::MovImm { rd: 0, offset: 0 });
            system.execute_instruction(Instruction::MovImm { rd: 1, offset: v });
            system.execute_instruction(Instruction::LslImm { rs: 1, rd: 0, offset: k });
            let expected = (v as u32) << k;
            assert_eq!(system.get_register(0), expected);
            let flags = system.flags();
            assert_eq!(flags.z, expected == 0);
            assert_eq!(flags.n, expected & 0x8000_0000 != 0);
            assert_eq!(flags.c, (v as u32) & (1 << k) != 0);
        }
    }
}

#[test]
fn shift_right_by_immediate() {
    let mut system = system_with(&[(1, 0x8000_0010)]);
    system.execute_instruction(Instruction::LsrImm { rs: 1, rd: 0, offset: 4 });
    assert_eq!(system.get_register(0), 0x0800_0001);
    // C is bit 32 - 4 = 28 of the source, which is clear
    assert_eq!(nzvc(&system), (false, false, false, false));
    system.execute_instruction(Instruction::LsrImm { rs: 1, rd: 0, offset: 1 });
    assert_eq!(system.get_register(0), 0x4000_0008);
    // C is bit 31 of the source
    assert_eq!(nzvc(&system), (false, false, false, true));
    system.execute_instruction(Instruction::LsrImm { rs: 1, rd: 0, offset: 28 });
    assert_eq!(system.get_register(0), 8);
    // C is bit 4 of the source
    assert_eq!(nzvc(&system), (false, false, false, true));
}

#[test]
fn arithmetic_shift_right_by_immediate() {
    let mut system = system_with(&[(1, 0x8000_0010)]);
    system.execute_instruction(Instruction::AsrImm { rs: 1, rd: 0, offset: 4 });
    assert_eq!(system.get_register(0), 0xf800_0001);
    // C is bit 3 of the source, which is clear
    assert_eq!(nzvc(&system), (true, false, false, false));
    system.execute_instruction(Instruction::AsrImm { rs: 1, rd: 0, offset: 5 });
    assert_eq!(system.get_register(0), 0xfc00_0000);
    // C is bit 4 of the source
    assert_eq!(nzvc(&system), (true, false, false, true));
    system.set_register(1, 0x4000_0000);
    system.execute_instruction(Instruction::AsrImm { rs: 1, rd: 0, offset: 30 });
    assert_eq!(system.get_register(0), 1);
    assert_eq!(nzvc(&system), (false, false, false, false));
}

#[test]
fn shifts_by_zero_follow_the_host() {
    let mut system = system_with(&[(1, 0x8000_0001)]);
    system.execute_instruction(Instruction::LslImm { rs: 1, rd: 0, offset: 0 });
    assert_eq!(system.get_register(0), 0x8000_0001);
    // C is bit 0 of the source
    assert_eq!(nzvc(&system), (true, false, false, true));
    system.execute_instruction(Instruction::LsrImm { rs: 1, rd: 0, offset: 0 });
    assert_eq!(system.get_register(0), 0x8000_0001);
    // C is bit 32 modulo 32 = 0 of the source
    assert_eq!(nzvc(&system), (true, false, false, true));
    system.set_register(1, 0x0000_0001);
    system.execute_instruction(Instruction::AsrImm { rs: 1, rd: 0, offset: 0 });
    assert_eq!(system.get_register(0), 1);
    // C is bit -1 modulo 32 = 31 of the source
    assert_eq!(nzvc(&system), (false, false, false, false));
}

#[test]
fn shifts_by_register_use_the_low_byte_modulo_32() {
    let mut system = system_with(&[(0, 0x0000_00f1), (1, 0xffff_ff04)]);
    system.execute_instruction(Instruction::LslReg { rs: 1, rd: 0 });
    assert_eq!(system.get_register(0), 0x0000_0f10);
    // C is bit 4 of the source
    assert_eq!(nzvc(&system), (false, false, false, true));
    system.set_register(1, 36);
    system.execute_instruction(Instruction::LsrReg { rs: 1, rd: 0 });
    assert_eq!(system.get_register(0), 0x0000_00f1);
    // C is bit 28 of the source, which is clear
    assert_eq!(nzvc(&system), (false, false, false, false));
    system.set_register(0, 0x8000_0000);
    system.set_register(1, 0x0000_0108);
    system.execute_instruction(Instruction::AsrReg { rs: 1, rd: 0 });
    assert_eq!(system.get_register(0), 0xff80_0000);
    // C is bit 7 of the source, which is clear
    assert_eq!(nzvc(&system), (true, false, false, false));
}

#[test]
fn add_sets_all_four_flags() {
    let mut system = system_with(&[(0, 0x8000_0000), (1, 0x8000_0000)]);
    system.execute_instruction(Instruction::AddReg { rs: 0, rd: 2, rn: 1 });
    assert_eq!(system.get_register(2), 0);
    assert_eq!(nzvc(&system), (false, true, true, true));
    system.set_register(0, 0x7fff_ffff);
    system.execute_instruction(Instruction::AddImm { rs: 0, rd: 2, offset: 1 });
    assert_eq!(system.get_register(2), 0x8000_0000);
    assert_eq!(nzvc(&system), (true, false, true, false));
    system.set_register(0, 0xffff_ffff);
    system.execute_instruction(Instruction::AddImm { rs: 0, rd: 2, offset: 2 });
    assert_eq!(system.get_register(2), 1);
    assert_eq!(nzvc(&system), (false, false, false, true));
    system.set_register(0, 5);
    system.execute_instruction(Instruction::AddImm { rs: 0, rd: 2, offset: 7 });
    assert_eq!(system.get_register(2), 12);
    assert_eq!(nzvc(&system), (false, false, false, false));
}

#[test]
fn subtract_is_add_of_the_complement_plus_one() {
    let mut system = system_with(&[(0, 5), (1, 3)]);
    system.execute_instruction(Instruction::SubReg { rs: 0, rd: 2, rn: 1 });
    assert_eq!(system.get_register(2), 2);
    // no borrow: carry set
    assert_eq!(nzvc(&system), (false, false, false, true));
    system.execute_instruction(Instruction::SubReg { rs: 1, rd: 2, rn: 0 });
    assert_eq!(system.get_register(2), 0xffff_fffe);
    assert_eq!(nzvc(&system), (true, false, false, false));
    system.execute_instruction(Instruction::SubImm { rs: 0, rd: 2, offset: 5 });
    assert_eq!(system.get_register(2), 0);
    assert_eq!(nzvc(&system), (false, true, false, true));
    system.set_register(0, 0x8000_0000);
    system.execute_instruction(Instruction::SubImm { rs: 0, rd: 2, offset: 1 });
    assert_eq!(system.get_register(2), 0x7fff_ffff);
    assert_eq!(nzvc(&system), (false, false, true, true));
}

#[test]
fn add_and_subtract_with_carry() {
    let mut system = system_with(&[(0, 0xffff_ffff), (1, 0)]);
    set_flags(&mut system, false, false, false, true);
    system.execute_instruction(Instruction::Adc { rs: 1, rd: 0 });
    assert_eq!(system.get_register(0), 0);
    assert_eq!(nzvc(&system), (false, true, false, true));
    system.set_register(0, 10);
    system.set_register(1, 3);
    set_flags(&mut system, false, false, false, false);
    system.execute_instruction(Instruction::Adc { rs: 1, rd: 0 });
    assert_eq!(system.get_register(0), 13);
    // subtract with carry clear borrows one more
    set_flags(&mut system, false, false, false, false);
    system.execute_instruction(Instruction::Sbc { rs: 1, rd: 0 });
    assert_eq!(system.get_register(0), 9);
    assert_eq!(nzvc(&system), (false, false, false, true));
    set_flags(&mut system, false, false, false, true);
    system.execute_instruction(Instruction::Sbc { rs: 1, rd: 0 });
    assert_eq!(system.get_register(0), 6);
}

#[test]
fn negate_and_multiply() {
    let mut system = system_with(&[(1, 5)]);
    system.execute_instruction(Instruction::Neg { rs: 1, rd: 0 });
    assert_eq!(system.get_register(0), 0xffff_fffb);
    assert_eq!(nzvc(&system), (true, false, false, false));
    system.set_register(1, 0);
    system.execute_instruction(Instruction::Neg { rs: 1, rd: 0 });
    assert_eq!(system.get_register(0), 0);
    assert_eq!(nzvc(&system), (false, true, false, true));
    system.set_register(0, 7);
    system.set_register(1, 6);
    system.execute_instruction(Instruction::Mul { rs: 1, rd: 0 });
    assert_eq!(system.get_register(0), 42);
    assert_eq!(nzvc(&system), (false, false, false, false));
    system.set_register(0, 0x0001_0000);
    system.set_register(1, 0x0001_8000);
    system.execute_instruction(Instruction::Mul { rs: 1, rd: 0 });
    assert_eq!(system.get_register(0), 0x8000_0000);
    // the full product does not fit in 32 bits
    assert_eq!(nzvc(&system), (true, false, false, true));
}

#[test]
fn compare_sets_flags_and_writes_nothing() {
    let mut system = system_with(&[(0, 5), (1, 5)]);
    system.execute_instruction(Instruction::CmpReg { rs: 1, rd: 0 });
    assert_eq!(nzvc(&system), (false, true, false, true));
    system.execute_instruction(Instruction::CmpImm { rd: 0, offset: 6 });
    assert_eq!(nzvc(&system), (true, false, false, false));
    system.set_register(1, 0xffff_fffb);
    system.execute_instruction(Instruction::Cmn { rs: 1, rd: 0 });
    assert_eq!(nzvc(&system), (false, true, false, true));
    system.set_register(1, 0b1010);
    system.execute_instruction(Instruction::Tst { rs: 1, rd: 0 });
    // 5 & 10 == 0; C and V stay as they were
    assert_eq!(nzvc(&system), (false, true, false, true));
    assert_eq!(system.get_register(0), 5);
    assert_eq!(system.get_register(1), 0b1010);
}

#[test]
fn logical_operations_set_n_and_z_only() {
    let mut system = system_with(&[(0, 0xf0f0_f0f0), (1, 0xff00_ff00)]);
    set_flags(&mut system, false, false, true, true);
    system.execute_instruction(Instruction::And { rs: 1, rd: 0 });
    assert_eq!(system.get_register(0), 0xf000_f000);
    assert_eq!(nzvc(&system), (true, false, true, true));
    system.set_register(0, 0xf0f0_f0f0);
    system.execute_instruction(Instruction::Oor { rs: 1, rd: 0 });
    assert_eq!(system.get_register(0), 0xfff0_fff0);
    system.set_register(0, 0xf0f0_f0f0);
    system.execute_instruction(Instruction::Eor { rs: 1, rd: 0 });
    assert_eq!(system.get_register(0), 0x0ff0_0ff0);
    assert_eq!(nzvc(&system), (false, false, true, true));
    system.set_register(0, 0xf0f0_f0f0);
    system.execute_instruction(Instruction::Bic { rs: 1, rd: 0 });
    assert_eq!(system.get_register(0), 0x00f0_00f0);
    system.execute_instruction(Instruction::Mvn { rs: 1, rd: 0 });
    assert_eq!(system.get_register(0), 0x00ff_00ff);
    system.set_register(1, 0xffff_ffff);
    system.execute_instruction(Instruction::Mvn { rs: 1, rd: 0 });
    assert_eq!(system.get_register(0), 0);
    assert_eq!(nzvc(&system), (false, true, true, true));
}

#[test]
fn moves() {
    let mut system = system_with(&[(9, 0x1234_5678)]);
    set_flags(&mut system, false, false, true, true);
    system.execute_instruction(Instruction::MovImm { rd: 3, offset: 0 });
    assert_eq!(system.get_register(3), 0);
    assert_eq!(nzvc(&system), (false, true, true, true));
    system.execute_instruction(Instruction::MovImm { rd: 3, offset: 0xff });
    assert_eq!(system.get_register(3), 0xff);
    assert_eq!(nzvc(&system), (false, false, true, true));
    // a register move leaves the flags alone
    system.execute_instruction(Instruction::MovReg { rs: 9, rd: 2 });
    assert_eq!(system.get_register(2), 0x1234_5678);
    assert_eq!(nzvc(&system), (false, false, true, true));
    assert_eq!(system.get_tick_count(), 0);
}

#[test]
fn move_to_pc_advances_it() {
    let mut system = system_with(&[(9, 0x0000_0200)]);
    system.execute_instruction(Instruction::MovReg { rs: 9, rd: 15 });
    assert_eq!(system.get_register(15), 0x0000_0202);
    assert_eq!(system.get_tick_count(), 1);
    assert_eq!(system.systick_trigger(), 19999);
}

#[test]
fn add_to_sp_and_from_pc() {
    let mut system = system_with(&[(13, 0x2000_1000), (15, 0x0000_0106)]);
    system.execute_instruction(Instruction::AddSp { rd: 13, offset: 0xffff_fff8 });
    assert_eq!(system.get_register(13), 0x2000_0ff8);
    system.execute_instruction(Instruction::AddSp { rd: 2, offset: 16 });
    assert_eq!(system.get_register(2), 0x2000_1008);
    // the PC is taken word-aligned
    system.execute_instruction(Instruction::AddPc { rd: 3, offset: 8 });
    assert_eq!(system.get_register(3), 0x0000_010c);
    assert_eq!(nzvc(&system), (false, false, false, false));
}

#[test]
fn extend_and_reverse() {
    let mut system = system_with(&[(1, 0x1234_8681)]);
    system.execute_instruction(Instruction::Sxth { rd: 0, rm: 1 });
    assert_eq!(system.get_register(0), 0xffff_8681);
    system.execute_instruction(Instruction::Sxtb { rd: 0, rm: 1 });
    assert_eq!(system.get_register(0), 0xffff_ff81);
    system.execute_instruction(Instruction::Uxth { rd: 0, rm: 1 });
    assert_eq!(system.get_register(0), 0x0000_8681);
    system.execute_instruction(Instruction::Uxtb { rd: 0, rm: 1 });
    assert_eq!(system.get_register(0), 0x0000_0081);
    system.set_register(1, 0x1234_7f7f);
    system.execute_instruction(Instruction::Sxth { rd: 0, rm: 1 });
    assert_eq!(system.get_register(0), 0x0000_7f7f);
    system.execute_instruction(Instruction::Sxtb { rd: 0, rm: 1 });
    assert_eq!(system.get_register(0), 0x0000_007f);
    system.set_register(1, 0x1234_5678);
    system.execute_instruction(Instruction::Rev { rd: 0, rm: 1 });
    assert_eq!(system.get_register(0), 0x7856_3412);
    system.execute_instruction(Instruction::Rev16 { rd: 0, rm: 1 });
    assert_eq!(system.get_register(0), 0x3412_7856);
}

#[test]
fn reversing_twice_restores_the_word() {
    for value in [0u32, 1, 0x1234_5678, 0x8000_0001, 0xffff_ffff, 0x00ff_00ff, 0xdead_beef] {
        let mut system = system_with(&[(4, value)]);
        system.execute_instruction(Instruction::Rev { rd: 4, rm: 4 });
        system.execute_instruction(Instruction::Rev { rd: 4, rm: 4 });
        assert_eq!(system.get_register(4), value);
        system.execute_instruction(Instruction::Rev16 { rd: 4, rm: 4 });
        system.execute_instruction(Instruction::Rev16 { rd: 4, rm: 4 });
        assert_eq!(system.get_register(4), value);
    }
}

#[test]
fn loads_of_every_width() {
    let mut system = system_with(&[(1, 0x2000_0100), (2, 4), (15, 0x2000_0206)]);
    system.write_word(0x2000_0100, 0x8182_8384);
    system.write_word(0x2000_0104, 0x7172_f374);
    system.write_word(0x2000_0214, 0xcafe_f00d);
    system.execute_instruction(Instruction::LdrReg { rb: 1, ro: 2, rd: 0 });
    assert_eq!(system.get_register(0), 0x7172_f374);
    system.execute_instruction(Instruction::LdrImm { rb: 1, offset: 0, rd: 0 });
    assert_eq!(system.get_register(0), 0x8182_8384);
    system.execute_instruction(Instruction::LdrbReg { rb: 1, ro: 2, rd: 0 });
    assert_eq!(system.get_register(0), 0x74);
    system.execute_instruction(Instruction::LdrbImm { rb: 1, offset: 3, rd: 0 });
    assert_eq!(system.get_register(0), 0x81);
    system.execute_instruction(Instruction::LdrhReg { rb: 1, ro: 2, rd: 0 });
    assert_eq!(system.get_register(0), 0xf374);
    system.execute_instruction(Instruction::LdrhImm { rb: 1, offset: 2, rd: 0 });
    assert_eq!(system.get_register(0), 0x8182);
    system.execute_instruction(Instruction::Ldsb { rb: 1, ro: 2, rd: 0 });
    assert_eq!(system.get_register(0), 0x0000_0074);
    system.execute_instruction(Instruction::Ldsh { rb: 1, ro: 2, rd: 0 });
    assert_eq!(system.get_register(0), 0xffff_f374);
    system.set_register(2, 0);
    system.execute_instruction(Instruction::Ldsb { rb: 1, ro: 2, rd: 0 });
    assert_eq!(system.get_register(0), 0xffff_ff84);
    system.set_register(2, 6);
    system.execute_instruction(Instruction::Ldsh { rb: 1, ro: 2, rd: 0 });
    assert_eq!(system.get_register(0), 0x0000_7172);
    // PC-relative: (0x20000206 & !3) + 0x10
    system.execute_instruction(Instruction::LdrPc { rd: 0, immediate_value: 0x10 });
    assert_eq!(system.get_register(0), 0xcafe_f00d);
}

#[test]
fn stores_of_every_width() {
    let mut system = system_with(&[(0, 0x1122_3344), (1, 0x2000_0100), (2, 8)]);
    system.execute_instruction(Instruction::StrReg { rb: 1, ro: 2, rd: 0 });
    assert_eq!(system.fetch_word(0x2000_0108), 0x1122_3344);
    system.execute_instruction(Instruction::StrImm { rb: 1, offset: 0x10, rd: 0 });
    assert_eq!(system.fetch_word(0x2000_0110), 0x1122_3344);
    system.execute_instruction(Instruction::StrbReg { rb: 1, ro: 2, rd: 0 });
    assert_eq!(system.fetch_word(0x2000_0108), 0x1122_3344);
    system.execute_instruction(Instruction::StrbImm { rb: 1, offset: 0x20, rd: 0 });
    assert_eq!(system.fetch_word(0x2000_0120), 0xffff_ff44);
    system.execute_instruction(Instruction::StrhImm { rb: 1, offset: 0x30, rd: 0 });
    assert_eq!(system.fetch_word(0x2000_0130), 0xffff_3344);
    system.set_register(2, 0x40);
    system.execute_instruction(Instruction::StrhReg { rb: 1, ro: 2, rd: 0 });
    assert_eq!(system.fetch_word(0x2000_0140), 0xffff_3344);
}

#[test]
fn address_arithmetic_wraps() {
    let mut system = system_with(&[(1, 0xffff_fffc), (2, 0x2000_0104)]);
    system.write_word(0x2000_0100, 0x0bad_cafe);
    system.execute_instruction(Instruction::LdrReg { rb: 1, ro: 2, rd: 0 });
    assert_eq!(system.get_register(0), 0x0bad_cafe);
}

#[test]
fn load_and_store_multiple() {
    let mut system = system_with(&[(0, 0x2000_0100), (1, 11), (2, 22), (5, 55)]);
    system.execute_instruction(Instruction::Stmia { rb: 0, rlist: 0b0010_0110 });
    assert_eq!(system.fetch_word(0x2000_0100), 11);
    assert_eq!(system.fetch_word(0x2000_0104), 22);
    assert_eq!(system.fetch_word(0x2000_0108), 55);
    assert_eq!(system.fetch_word(0x2000_010c), 0xffff_ffff);
    assert_eq!(system.get_register(0), 0x2000_010c);
    system.set_register(0, 0x2000_0100);
    system.execute_instruction(Instruction::Ldmia { rb: 0, rlist: 0b1100_1000 });
    assert_eq!(system.get_register(3), 11);
    assert_eq!(system.get_register(6), 22);
    assert_eq!(system.get_register(7), 55);
    assert_eq!(system.get_register(0), 0x2000_010c);
    // an empty list moves nothing
    system.execute_instruction(Instruction::Ldmia { rb: 0, rlist: 0 });
    assert_eq!(system.get_register(0), 0x2000_010c);
}

#[test]
fn load_multiple_writes_the_base_back_over_a_loaded_base() {
    let mut system = system_with(&[(1, 0x2000_0100)]);
    system.write_word(0x2000_0100, 0x1111_1111);
    system.write_word(0x2000_0104, 0x2222_2222);
    system.execute_instruction(Instruction::Ldmia { rb: 1, rlist: 0b0000_0110 });
    assert_eq!(system.get_register(2), 0x2222_2222);
    assert_eq!(system.get_register(1), 0x2000_0108);
}

#[test]
fn push_stores_downwards_with_the_lowest_register_lowest() {
    let mut system = system_with(&[(13, 0x2000_1000), (0, 10), (3, 13), (7, 17), (14, 0x0000_0123)]);
    system.execute_instruction(Instruction::Push { rlist: 0b1000_1001, lr: true });
    assert_eq!(system.get_register(13), 0x2000_0ff0);
    assert_eq!(system.fetch_word(0x2000_0ffc), 0x0000_0123);
    assert_eq!(system.fetch_word(0x2000_0ff8), 17);
    assert_eq!(system.fetch_word(0x2000_0ff4), 13);
    assert_eq!(system.fetch_word(0x2000_0ff0), 10);
    assert_eq!(system.get_tick_count(), 0);
}

#[test]
fn pop_loads_upwards() {
    let mut system = system_with(&[(13, 0x2000_0ff0)]);
    system.write_word(0x2000_0ff0, 10);
    system.write_word(0x2000_0ff4, 13);
    system.write_word(0x2000_0ff8, 17);
    system.execute_instruction(Instruction::Pop { rlist: 0b1000_1001, pc: false });
    assert_eq!(system.get_register(0), 10);
    assert_eq!(system.get_register(3), 13);
    assert_eq!(system.get_register(7), 17);
    assert_eq!(system.get_register(13), 0x2000_0ffc);
    assert_eq!(system.get_tick_count(), 0);
}

#[test]
fn pop_of_the_pc_returns() {
    let mut system = system_with(&[(13, 0x2000_0ff8)]);
    system.write_word(0x2000_0ff8, 44);
    system.write_word(0x2000_0ffc, 0x0000_0123);
    system.execute_instruction(Instruction::Pop { rlist: 0b0001_0000, pc: true });
    assert_eq!(system.get_register(4), 44);
    // Thumb bit dropped, then advanced
    assert_eq!(system.get_register(15), 0x0000_0124);
    assert_eq!(system.get_register(13), 0x2000_1000);
    assert_eq!(system.get_tick_count(), 1);
}

#[test]
fn push_then_pop_restores_registers_and_flags() {
    for rlist in [0u8, 0x01, 0x80, 0x5a, 0xa5, 0xff] {
        let mut system = Gamebuino::new();
        for register in 0..13u8 {
            system.set_register(register, 0x1000_0000 + register as u32);
        }
        system.set_register(13, 0x2000_0800);
        system.set_register(14, 0x0000_0321);
        system.set_register(15, 0x0000_0456);
        set_flags(&mut system, true, false, true, false);
        system.execute_instruction(Instruction::Push { rlist, lr: false });
        assert_eq!(system.get_register(13), 0x2000_0800 - 4 * rlist.count_ones());
        system.execute_instruction(Instruction::Pop { rlist, pc: false });
        for register in 0..13u8 {
            assert_eq!(system.get_register(register as usize), 0x1000_0000 + register as u32);
        }
        assert_eq!(system.get_register(13), 0x2000_0800);
        assert_eq!(system.get_register(14), 0x0000_0321);
        assert_eq!(system.get_register(15), 0x0000_0456);
        assert_eq!(nzvc(&system), (true, false, true, false));
    }
}

#[test]
fn push_into_flash_is_lost() {
    // with the stack in flash the pop does not bring the registers back
    let mut system = system_with(&[(13, 0x0000_1000), (0, 10)]);
    system.execute_instruction(Instruction::Push { rlist: 1, lr: false });
    system.execute_instruction(Instruction::Pop { rlist: 1, pc: false });
    assert_eq!(system.get_register(0), 0xffff_ffff);
    assert_eq!(system.get_register(13), 0x0000_1000);
}

#[test]
fn conditional_branches_follow_the_flags() {
    let taken = |instruction: Instruction, flags: (bool, bool, bool, bool)| -> bool {
        let mut system = system_with(&[(15, 0x0000_0104)]);
        set_flags(&mut system, flags.0, flags.1, flags.2, flags.3);
        system.execute_instruction(instruction);
        let pc = system.get_register(15);
        assert!(pc == 0x0000_0104 || pc == 0x0000_0104 + 0x20 + 2);
        assert_eq!(system.get_tick_count(), if pc == 0x0000_0104 { 0 } else { 1 });
        pc != 0x0000_0104
    };
    let offset = 0x20;
    let none = (false, false, false, false);
    let c = (false, false, false, true);
    let zc = (false, true, false, true);
    let n = (true, false, false, false);
    let vc = (false, false, true, true);
    let nv = (true, false, true, false);
    let zvc = (false, true, true, true);
    assert!(taken(Instruction::Beq { offset }, zc) && !taken(Instruction::Beq { offset }, c));
    assert!(taken(Instruction::Bne { offset }, c) && !taken(Instruction::Bne { offset }, zc));
    assert!(taken(Instruction::Bcs { offset }, c) && !taken(Instruction::Bcs { offset }, n));
    assert!(taken(Instruction::Bcc { offset }, n) && !taken(Instruction::Bcc { offset }, c));
    assert!(taken(Instruction::Bmi { offset }, n) && !taken(Instruction::Bmi { offset }, c));
    assert!(taken(Instruction::Bpl { offset }, c) && !taken(Instruction::Bpl { offset }, n));
    assert!(taken(Instruction::Bvs { offset }, vc) && !taken(Instruction::Bvs { offset }, c));
    assert!(taken(Instruction::Bcv { offset }, c) && !taken(Instruction::Bcv { offset }, vc));
    assert!(taken(Instruction::Bhi { offset }, c) && !taken(Instruction::Bhi { offset }, zc));
    assert!(!taken(Instruction::Bhi { offset }, none));
    assert!(taken(Instruction::Bls { offset }, zc) && taken(Instruction::Bls { offset }, none));
    assert!(!taken(Instruction::Bls { offset }, c));
    assert!(taken(Instruction::Bge { offset }, none) && taken(Instruction::Bge { offset }, nv));
    assert!(!taken(Instruction::Bge { offset }, n) && !taken(Instruction::Bge { offset }, vc));
    assert!(taken(Instruction::Blt { offset }, n) && taken(Instruction::Blt { offset }, vc));
    assert!(!taken(Instruction::Blt { offset }, none) && !taken(Instruction::Blt { offset }, nv));
    assert!(taken(Instruction::Bgt { offset }, none) && taken(Instruction::Bgt { offset }, nv));
    assert!(!taken(Instruction::Bgt { offset }, zc) && !taken(Instruction::Bgt { offset }, n));
    assert!(taken(Instruction::Ble { offset }, zc) && taken(Instruction::Ble { offset }, n));
    assert!(taken(Instruction::Ble { offset }, zvc) && !taken(Instruction::Ble { offset }, none));
}

#[test]
fn unconditional_branch_goes_back_and_forth() {
    let mut system = system_with(&[(15, 0x0000_0104)]);
    system.execute_instruction(Instruction::B { offset: 0xffff_fffc });
    // back to the branch itself: its address is 0x100, and the PC runs two ahead
    assert_eq!(system.get_register(15), 0x0000_0102);
    system.set_register(15, 0x0000_0104);
    system.execute_instruction(Instruction::B { offset: 0x7fe });
    assert_eq!(system.get_register(15), 0x0000_0904);
    assert_eq!(system.get_tick_count(), 2);
}

#[test]
fn branch_exchange_drops_the_thumb_bit() {
    let mut system = system_with(&[(14, 0x0000_0301), (3, 0x0000_0501), (15, 0x0000_0104)]);
    system.execute_instruction(Instruction::Bx { rs: 14 });
    assert_eq!(system.get_register(15), 0x0000_0302);
    assert_eq!(system.get_register(14), 0x0000_0301);
    system.set_register(15, 0x0000_0104);
    system.execute_instruction(Instruction::Blx { rm: 3 });
    assert_eq!(system.get_register(15), 0x0000_0502);
    // the return address is the instruction behind the BLX, Thumb bit set
    assert_eq!(system.get_register(14), 0x0000_0103);
    assert_eq!(system.get_tick_count(), 2);
}

#[test]
fn long_branch_links_and_jumps() {
    // BL at 0x100 to 0x100 + 4 + 0x1234
    let mut system = system_with(&[(15, 0x0000_0104)]);
    system.execute_instruction(Instruction::Bl { offset1: 0x1000, offset2: 0x234, first: true });
    assert_eq!(system.get_register(14), 0x0000_1104);
    assert_eq!(system.get_register(15), 0x0000_0104);
    assert_eq!(system.get_tick_count(), 0);
    // the fetch of the second half advances the PC
    system.set_register(15, 0x0000_0106);
    system.execute_instruction(Instruction::Bl { offset1: 0x1000, offset2: 0x234, first: false });
    assert_eq!(system.get_register(14), 0x0000_0105);
    assert_eq!(system.get_register(15), 0x0000_1338 + 2);
    assert_eq!(system.get_tick_count(), 1);
}

#[test]
fn long_branch_backwards() {
    // BL at 0x2000 to 0x2000 + 4 - 0x1000 + 0x10
    let mut system = system_with(&[(15, 0x0000_2004)]);
    system.execute_instruction(Instruction::Bl { offset1: 0xffff_f000, offset2: 0x10, first: true });
    system.set_register(15, 0x0000_2006);
    system.execute_instruction(Instruction::Bl { offset1: 0xffff_f000, offset2: 0x10, first: false });
    assert_eq!(system.get_register(14), 0x0000_2005);
    assert_eq!(system.get_register(15), 0x0000_1014 + 2);
}

#[test]
fn barrier_costs_a_tick_and_unsupported_instructions_nothing() {
    let mut system = system_with(&[(15, 0x0000_0104)]);
    system.execute_instruction(Instruction::NotImplemented);
    assert_eq!(system.get_register(15), 0x0000_0104);
    assert_eq!(system.get_tick_count(), 0);
    system.execute_instruction(Instruction::Dmb);
    assert_eq!(system.get_register(15), 0x0000_0106);
    assert_eq!(system.get_tick_count(), 1);
    assert_eq!(system.systick_trigger(), 19999);
}

#[test]
fn store_to_the_serial_port_reaches_the_display() {
    let mut system = system_with(&[(0, 0x4200_2028), (1, 0x2c), (2, 0x4100_4498), (3, 1 << 23)]);
    system.execute_instruction(Instruction::StrbImm { rb: 0, offset: 0, rd: 1 });
    system.execute_instruction(Instruction::StrImm { rb: 2, offset: 0, rd: 3 });
    system.set_register(1, 0x07);
    system.execute_instruction(Instruction::StrbImm { rb: 0, offset: 0, rd: 1 });
    system.set_register(1, 0xe0);
    system.execute_instruction(Instruction::StrImm { rb: 0, offset: 0, rd: 1 });
    assert_eq!(system.screen_data()[0], 0xff00_fc00);
}

#[test]
fn halfword_loads_from_the_adc_draw_noise() {
    let mut system = system_with(&[(1, 0x4200_4000), (2, 0x1a)]);
    system.execute_instruction(Instruction::LdrhImm { rb: 1, offset: 0x1a, rd: 0 });
    assert_eq!(system.get_register(0), 0x3c6e);
    system.execute_instruction(Instruction::LdrhReg { rb: 1, ro: 2, rd: 0 });
    assert_eq!(system.get_register(0), 0x4750);
    // the third sample, 0xd1cc, is negative as a halfword
    system.execute_instruction(Instruction::Ldsh { rb: 1, ro: 2, rd: 0 });
    assert_eq!(system.get_register(0), 0xffff_d1cc);
    // other loads do not draw
    system.execute_instruction(Instruction::LdrImm { rb: 1, offset: 0x18, rd: 3 });
    system.execute_instruction(Instruction::LdrbImm { rb: 1, offset: 0x1a, rd: 3 });
    system.execute_instruction(Instruction::LdrhImm { rb: 1, offset: 0x1a, rd: 0 });
    assert_eq!(system.get_register(0), 0xaaf9);
}
