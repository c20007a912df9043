//! The Thumb instruction set understood by the emulator, and its decoder.
//!
//! `decode` is the decode table, written over the numeric fields of a
//! halfword; `parse_instruction` is the decoder that the emulator runs,
//! written with masks and shifts and proved equal to the table.

use vstd::prelude::*;

verus! {

/// One decoded instruction. Register operands are register numbers, branch
/// and address offsets are already scaled and sign-extended to 32 bits.
#[derive(Clone, Copy, Debug, PartialEq, Eq, Structural)]
#[allow(inconsistent_fields)]
pub enum Instruction {
    LslImm { rs: u8, rd: u8, offset: u8 },
    LslReg { rs: u8, rd: u8 },
    LsrImm { rs: u8, rd: u8, offset: u8 },
    LsrReg { rs: u8, rd: u8 },
    AsrImm { rs: u8, rd: u8, offset: u8 },
    AsrReg { rs: u8, rd: u8 },
    AddReg { rs: u8, rd: u8, rn: u8 },
    AddImm { rs: u8, rd: u8, offset: u8 },
    AddSp { rd: u8, offset: u32 },
    AddPc { rd: u8, offset: u32 },
    Adc { rs: u8, rd: u8 },
    SubReg { rs: u8, rd: u8, rn: u8 },
    SubImm { rs: u8, rd: u8, offset: u8 },
    Sbc { rs: u8, rd: u8 },
    Neg { rs: u8, rd: u8 },
    Mul { rs: u8, rd: u8 },
    MovImm { rd: u8, offset: u8 },
    MovReg { rs: u8, rd: u8 },
    Mvn { rs: u8, rd: u8 },
    CmpImm { rd: u8, offset: u8 },
    CmpReg { rs: u8, rd: u8 },
    Cmn { rs: u8, rd: u8 },
    Tst { rs: u8, rd: u8 },
    And { rs: u8, rd: u8 },
    Bic { rs: u8, rd: u8 },
    Eor { rs: u8, rd: u8 },
    Oor { rs: u8, rd: u8 },
    Bx { rs: u8 },
    Blx { rm: u8 },
    LdrPc { rd: u8, immediate_value: u32 },
    LdrReg { rb: u8, ro: u8, rd: u8 },
    LdrbReg { rb: u8, ro: u8, rd: u8 },
    LdrImm { rb: u8, offset: u32, rd: u8 },
    LdrbImm { rb: u8, offset: u32, rd: u8 },
    Ldsb { rb: u8, ro: u8, rd: u8 },
    LdrhReg { rb: u8, ro: u8, rd: u8 },
    LdrhImm { rb: u8, offset: u32, rd: u8 },
    Ldsh { rb: u8, ro: u8, rd: u8 },
    Ldmia { rb: u8, rlist: u8 },
    StrReg { rb: u8, ro: u8, rd: u8 },
    StrbReg { rb: u8, ro: u8, rd: u8 },
    StrImm { rb: u8, offset: u32, rd: u8 },
    StrbImm { rb: u8, offset: u32, rd: u8 },
    StrhReg { rb: u8, ro: u8, rd: u8 },
    StrhImm { rb: u8, offset: u32, rd: u8 },
    Stmia { rb: u8, rlist: u8 },
    Sxth { rd: u8, rm: u8 },
    Sxtb { rd: u8, rm: u8 },
    Uxth { rd: u8, rm: u8 },
    Uxtb { rd: u8, rm: u8 },
    Rev { rd: u8, rm: u8 },
    Rev16 { rd: u8, rm: u8 },
    Push { rlist: u8, lr: bool },
    Pop { rlist: u8, pc: bool },
    Beq { offset: u32 },
    Bne { offset: u32 },
    Bcs { offset: u32 },
    Bcc { offset: u32 },
    Bmi { offset: u32 },
    Bpl { offset: u32 },
    Bvs { offset: u32 },
    Bcv { offset: u32 },
    Bhi { offset: u32 },
    Bls { offset: u32 },
    Bge { offset: u32 },
    Blt { offset: u32 },
    Bgt { offset: u32 },
    Ble { offset: u32 },
    B { offset: u32 },
    Bl { offset1: u32, offset2: u32, first: bool },
    Dmb,
    NotImplemented,
}

/// Number of the stack pointer in the register file.
pub const SP_INDEX: u8 = 13;

/// Number of the link register in the register file.
pub const LR_INDEX: u8 = 14;

/// Number of the program counter in the register file.
pub const PC_INDEX: u8 = 15;

impl Instruction {
    /// Every register operand names one of the sixteen registers.
    pub open spec fn wf(self) -> bool {
        match self {
            Instruction::LslImm { rs, rd, .. }
            | Instruction::LslReg { rs, rd, .. }
            | Instruction::LsrImm { rs, rd, .. }
            | Instruction::LsrReg { rs, rd, .. }
            | Instruction::AsrImm { rs, rd, .. }
            | Instruction::AsrReg { rs, rd, .. }
            | Instruction::AddImm { rs, rd, .. }
            | Instruction::Adc { rs, rd, .. }
            | Instruction::SubImm { rs, rd, .. }
            | Instruction::Sbc { rs, rd, .. }
            | Instruction::Neg { rs, rd, .. }
            | Instruction::Mul { rs, rd, .. }
            | Instruction::MovReg { rs, rd, .. }
            | Instruction::Mvn { rs, rd, .. }
            | Instruction::CmpReg { rs, rd, .. }
            | Instruction::Cmn { rs, rd, .. }
            | Instruction::Tst { rs, rd, .. }
            | Instruction::And { rs, rd, .. }
            | Instruction::Bic { rs, rd, .. }
            | Instruction::Eor { rs, rd, .. }
            | Instruction::Oor { rs, rd, .. } => rs < 16 && rd < 16,
            Instruction::AddReg { rs, rd, rn, .. }
            | Instruction::SubReg { rs, rd, rn, .. } => rs < 16 && rd < 16 && rn < 16,
            Instruction::AddSp { rd, .. }
            | Instruction::AddPc { rd, .. }
            | Instruction::MovImm { rd, .. }
            | Instruction::CmpImm { rd, .. }
            | Instruction::LdrPc { rd, .. } => rd < 16,
            Instruction::Bx { rs, .. } => rs < 16,
            Instruction::Blx { rm, .. } => rm < 16,
            Instruction::LdrReg { rb, ro, rd, .. }
            | Instruction::LdrbReg { rb, ro, rd, .. }
            | Instruction::Ldsb { rb, ro, rd, .. }
            | Instruction::LdrhReg { rb, ro, rd, .. }
            | Instruction::Ldsh { rb, ro, rd, .. }
            | Instruction::StrReg { rb, ro, rd, .. }
            | Instruction::StrbReg { rb, ro, rd, .. }
            | Instruction::StrhReg { rb, ro, rd, .. } => rb < 16 && ro < 16 && rd < 16,
            Instruction::LdrImm { rb, rd, .. }
            | Instruction::LdrbImm { rb, rd, .. }
            | Instruction::LdrhImm { rb, rd, .. }
            | Instruction::StrImm { rb, rd, .. }
            | Instruction::StrbImm { rb, rd, .. }
            | Instruction::StrhImm { rb, rd, .. } => rb < 16 && rd < 16,
            Instruction::Ldmia { rb, .. }
            | Instruction::Stmia { rb, .. } => rb < 16,
            Instruction::Sxth { rd, rm, .. }
            | Instruction::Sxtb { rd, rm, .. }
            | Instruction::Uxth { rd, rm, .. }
            | Instruction::Uxtb { rd, rm, .. }
            | Instruction::Rev { rd, rm, .. }
            | Instruction::Rev16 { rd, rm, .. } => rd < 16 && rm < 16,
            _ => true,
        }
    }

    /// Whether the instruction is a shift, an addition, a subtraction or a
    /// comparison.
    pub open spec fn is_arithmetic(self) -> bool {
        match self {
            Instruction::LslImm { .. }
            | Instruction::LslReg { .. }
            | Instruction::LsrImm { .. }
            | Instruction::LsrReg { .. }
            | Instruction::AsrImm { .. }
            | Instruction::AsrReg { .. }
            | Instruction::AddReg { .. }
            | Instruction::AddImm { .. }
            | Instruction::AddSp { .. }
            | Instruction::AddPc { .. }
            | Instruction::Adc { .. }
            | Instruction::SubReg { .. }
            | Instruction::SubImm { .. }
            | Instruction::Sbc { .. }
            | Instruction::Neg { .. }
            | Instruction::Mul { .. }
            | Instruction::CmpImm { .. }
            | Instruction::CmpReg { .. }
            | Instruction::Cmn { .. } => true,
            _ => false,
        }
    }

    /// Whether the instruction is a move, a logical operation, an extension
    /// or a byte reversal.
    pub open spec fn is_logical(self) -> bool {
        match self {
            Instruction::MovImm { .. }
            | Instruction::MovReg { .. }
            | Instruction::Mvn { .. }
            | Instruction::Tst { .. }
            | Instruction::And { .. }
            | Instruction::Bic { .. }
            | Instruction::Eor { .. }
            | Instruction::Oor { .. }
            | Instruction::Sxth { .. }
            | Instruction::Sxtb { .. }
            | Instruction::Uxth { .. }
            | Instruction::Uxtb { .. }
            | Instruction::Rev { .. }
            | Instruction::Rev16 { .. } => true,
            _ => false,
        }
    }

    /// Whether the instruction is a load, a load multiple or a pop.
    pub open spec fn is_load(self) -> bool {
        match self {
            Instruction::LdrPc { .. }
            | Instruction::LdrReg { .. }
            | Instruction::LdrbReg { .. }
            | Instruction::LdrImm { .. }
            | Instruction::LdrbImm { .. }
            | Instruction::Ldsb { .. }
            | Instruction::LdrhReg { .. }
            | Instruction::LdrhImm { .. }
            | Instruction::Ldsh { .. }
            | Instruction::Ldmia { .. }
            | Instruction::Pop { .. } => true,
            _ => false,
        }
    }

    /// Whether the instruction is a store, a store multiple or a push.
    pub open spec fn is_store(self) -> bool {
        match self {
            Instruction::StrReg { .. }
            | Instruction::StrbReg { .. }
            | Instruction::StrImm { .. }
            | Instruction::StrbImm { .. }
            | Instruction::StrhReg { .. }
            | Instruction::StrhImm { .. }
            | Instruction::Stmia { .. }
            | Instruction::Push { .. } => true,
            _ => false,
        }
    }

    /// Whether the instruction is a branch, the memory barrier or not
    /// implemented.
    pub open spec fn is_branch(self) -> bool {
        !self.is_arithmetic() && !self.is_logical() && !self.is_load() && !self.is_store()
    }

    /// The same check, for code that builds instruction records by hand.
    pub fn is_well_formed(&self) -> (ok: bool)
        ensures
            ok == self.wf(),
    {
        match *self {
            Instruction::LslImm { rs, rd, .. }
            | Instruction::LslReg { rs, rd, .. }
            | Instruction::LsrImm { rs, rd, .. }
            | Instruction::LsrReg { rs, rd, .. }
            | Instruction::AsrImm { rs, rd, .. }
            | Instruction::AsrReg { rs, rd, .. }
            | Instruction::AddImm { rs, rd, .. }
            | Instruction::Adc { rs, rd, .. }
            | Instruction::SubImm { rs, rd, .. }
            | Instruction::Sbc { rs, rd, .. }
            | Instruction::Neg { rs, rd, .. }
            | Instruction::Mul { rs, rd, .. }
            | Instruction::MovReg { rs, rd, .. }
            | Instruction::Mvn { rs, rd, .. }
            | Instruction::CmpReg { rs, rd, .. }
            | Instruction::Cmn { rs, rd, .. }
            | Instruction::Tst { rs, rd, .. }
            | Instruction::And { rs, rd, .. }
            | Instruction::Bic { rs, rd, .. }
            | Instruction::Eor { rs, rd, .. }
            | Instruction::Oor { rs, rd, .. } => rs < 16 && rd < 16,
            Instruction::AddReg { rs, rd, rn, .. }
            | Instruction::SubReg { rs, rd, rn, .. } => rs < 16 && rd < 16 && rn < 16,
            Instruction::AddSp { rd, .. }
            | Instruction::AddPc { rd, .. }
            | Instruction::MovImm { rd, .. }
            | Instruction::CmpImm { rd, .. }
            | Instruction::LdrPc { rd, .. } => rd < 16,
            Instruction::Bx { rs, .. } => rs < 16,
            Instruction::Blx { rm, .. } => rm < 16,
            Instruction::LdrReg { rb, ro, rd, .. }
            | Instruction::LdrbReg { rb, ro, rd, .. }
            | Instruction::Ldsb { rb, ro, rd, .. }
            | Instruction::LdrhReg { rb, ro, rd, .. }
            | Instruction::Ldsh { rb, ro, rd, .. }
            | Instruction::StrReg { rb, ro, rd, .. }
            | Instruction::StrbReg { rb, ro, rd, .. }
            | Instruction::StrhReg { rb, ro, rd, .. } => rb < 16 && ro < 16 && rd < 16,
            Instruction::LdrImm { rb, rd, .. }
            | Instruction::LdrbImm { rb, rd, .. }
            | Instruction::LdrhImm { rb, rd, .. }
            | Instruction::StrImm { rb, rd, .. }
            | Instruction::StrbImm { rb, rd, .. }
            | Instruction::StrhImm { rb, rd, .. } => rb < 16 && rd < 16,
            Instruction::Ldmia { rb, .. }
            | Instruction::Stmia { rb, .. } => rb < 16,
            Instruction::Sxth { rd, rm, .. }
            | Instruction::Sxtb { rd, rm, .. }
            | Instruction::Uxth { rd, rm, .. }
            | Instruction::Uxtb { rd, rm, .. }
            | Instruction::Rev { rd, rm, .. }
            | Instruction::Rev16 { rd, rm, .. } => rd < 16 && rm < 16,
            _ => true,
        }
    }
}

/// Bits 2..0 of a halfword: a low register number.
pub open spec fn reg_at_0(h: u16) -> u8 {
    (h % 8) as u8
}

/// Bits 5..3 of a halfword: a low register number.
pub open spec fn reg_at_3(h: u16) -> u8 {
    ((h / 8) % 8) as u8
}

/// Bits 8..6 of a halfword: a low register number or a 3-bit immediate.
pub open spec fn reg_at_6(h: u16) -> u8 {
    ((h / 64) % 8) as u8
}

/// Bits 10..8 of a halfword: a low register number.
pub open spec fn reg_at_8(h: u16) -> u8 {
    ((h / 256) % 8) as u8
}

/// Bits 10..6 of a halfword: a 5-bit immediate.
pub open spec fn imm5(h: u16) -> u16 {
    (h / 64) % 32
}

/// Bits 6..0 of a halfword.
pub open spec fn imm7(h: u16) -> u16 {
    h % 128
}

/// Bits 7..0 of a halfword.
pub open spec fn imm8(h: u16) -> u16 {
    h % 256
}

/// Bits 10..0 of a halfword.
pub open spec fn imm11(h: u16) -> u16 {
    h % 2048
}

/// One bit of a halfword, by its weight (a power of two).
pub open spec fn flag(h: u16, weight: u16) -> bool {
    (h / weight) % 2 == 1
}

/// The value of an unsigned field of the given modulus read as a two's
/// complement number.
pub open spec fn sign_extend(value: int, modulus: int) -> int {
    if 2 * value >= modulus {
        value - modulus
    } else {
        value
    }
}

/// A (possibly negative) integer as a 32-bit word.
pub open spec fn to_word(value: int) -> u32 {
    (value % 0x1_0000_0000) as u32
}

/// Move shifted register, and three-operand add and subtract
/// (`000x xxxx xxxx xxxx`).
pub open spec fn decode_shift_add(h: u16) -> Instruction {
    let rs = reg_at_3(h);
    let rd = reg_at_0(h);
    let op = (h / 0x800) % 4;
    let sub_op = (h / 0x200) % 4;
    if op == 0 {
        Instruction::LslImm { rs, rd, offset: imm5(h) as u8 }
    } else if op == 1 {
        Instruction::LsrImm { rs, rd, offset: imm5(h) as u8 }
    } else if op == 2 {
        Instruction::AsrImm { rs, rd, offset: imm5(h) as u8 }
    } else if sub_op == 0 {
        Instruction::AddReg { rs, rd, rn: reg_at_6(h) }
    } else if sub_op == 1 {
        Instruction::SubReg { rs, rd, rn: reg_at_6(h) }
    } else if sub_op == 2 {
        Instruction::AddImm { rs, rd, offset: reg_at_6(h) }
    } else {
        Instruction::SubImm { rs, rd, offset: reg_at_6(h) }
    }
}

/// Move, compare, add and subtract an 8-bit immediate
/// (`001x xxxx xxxx xxxx`).
pub open spec fn decode_immediate(h: u16) -> Instruction {
    let rd = reg_at_8(h);
    let offset = imm8(h) as u8;
    let op = (h / 0x800) % 4;
    if op == 0 {
        Instruction::MovImm { rd, offset }
    } else if op == 1 {
        Instruction::CmpImm { rd, offset }
    } else if op == 2 {
        Instruction::AddImm { rs: rd, rd, offset }
    } else {
        Instruction::SubImm { rs: rd, rd, offset }
    }
}

/// Register-to-register ALU operations (`0100 00xx xxxx xxxx`). Rotate
/// right (operation 7) is not implemented.
pub open spec fn decode_alu(h: u16) -> Instruction {
    let rs = reg_at_3(h);
    let rd = reg_at_0(h);
    let op = (h / 64) % 16;
    if op == 0 {
        Instruction::And { rs, rd }
    } else if op == 1 {
        Instruction::Eor { rs, rd }
    } else if op == 2 {
        Instruction::LslReg { rs, rd }
    } else if op == 3 {
        Instruction::LsrReg { rs, rd }
    } else if op == 4 {
        Instruction::AsrReg { rs, rd }
    } else if op == 5 {
        Instruction::Adc { rs, rd }
    } else if op == 6 {
        Instruction::Sbc { rs, rd }
    } else if op == 8 {
        Instruction::Tst { rs, rd }
    } else if op == 9 {
        Instruction::Neg { rs, rd }
    } else if op == 10 {
        Instruction::CmpReg { rs, rd }
    } else if op == 11 {
        Instruction::Cmn { rs, rd }
    } else if op == 12 {
        Instruction::Oor { rs, rd }
    } else if op == 13 {
        Instruction::Mul { rs, rd }
    } else if op == 14 {
        Instruction::Bic { rs, rd }
    } else if op == 15 {
        Instruction::Mvn { rs, rd }
    } else {
        Instruction::NotImplemented
    }
}

/// High-register operations and branch exchange (`0100 01xx xxxx xxxx`).
/// Bit 7 widens the destination and bit 6 the source to registers 8 to 15.
/// Add and compare exist only where at least one operand is a high
/// register.
pub open spec fn decode_high_register(h: u16) -> Instruction {
    let h1 = flag(h, 128);
    let h2 = flag(h, 64);
    let rd = (reg_at_0(h) + if h1 { 8int } else { 0int }) as u8;
    let rs = (reg_at_3(h) + if h2 { 8int } else { 0int }) as u8;
    let op = (h / 256) % 4;
    if op == 0 {
        if h1 || h2 {
            Instruction::AddReg { rs, rd, rn: rd }
        } else {
            Instruction::NotImplemented
        }
    } else if op == 1 {
        if h1 || h2 {
            Instruction::CmpReg { rs, rd }
        } else {
            Instruction::NotImplemented
        }
    } else if op == 2 {
        Instruction::MovReg { rs, rd }
    } else if h1 {
        Instruction::Blx { rm: rs }
    } else {
        Instruction::Bx { rs }
    }
}

/// Load and store with a register offset (`0101 xx0x xxxx xxxx`).
pub open spec fn decode_register_offset(h: u16) -> Instruction {
    let ro = reg_at_6(h);
    let rb = reg_at_3(h);
    let rd = reg_at_0(h);
    let op = (h / 0x400) % 4;
    if op == 0 {
        Instruction::StrReg { rb, ro, rd }
    } else if op == 1 {
        Instruction::StrbReg { rb, ro, rd }
    } else if op == 2 {
        Instruction::LdrReg { rb, ro, rd }
    } else {
        Instruction::LdrbReg { rb, ro, rd }
    }
}

/// Halfword and sign-extending load and store with a register offset
/// (`0101 xx1x xxxx xxxx`).
pub open spec fn decode_signed_halfword(h: u16) -> Instruction {
    let ro = reg_at_6(h);
    let rb = reg_at_3(h);
    let rd = reg_at_0(h);
    let op = (h / 0x400) % 4;
    if op == 0 {
        Instruction::StrhReg { rb, ro, rd }
    } else if op == 1 {
        Instruction::Ldsb { rb, ro, rd }
    } else if op == 2 {
        Instruction::LdrhReg { rb, ro, rd }
    } else {
        Instruction::Ldsh { rb, ro, rd }
    }
}

/// Word and byte load and store with a 5-bit offset
/// (`011x xxxx xxxx xxxx`); word offsets count words.
pub open spec fn decode_immediate_offset(h: u16) -> Instruction {
    let rb = reg_at_3(h);
    let rd = reg_at_0(h);
    let op = (h / 0x800) % 4;
    if op == 0 {
        Instruction::StrImm { rb, offset: (imm5(h) * 4) as u32, rd }
    } else if op == 1 {
        Instruction::LdrImm { rb, offset: (imm5(h) * 4) as u32, rd }
    } else if op == 2 {
        Instruction::StrbImm { rb, offset: imm5(h) as u32, rd }
    } else {
        Instruction::LdrbImm { rb, offset: imm5(h) as u32, rd }
    }
}

/// Miscellaneous 16-bit instructions (`1011 xxxx xxxx xxxx`): adjust the
/// stack pointer, extend, byte-reverse, push and pop.
pub open spec fn decode_miscellaneous(h: u16) -> Instruction {
    let rm = reg_at_3(h);
    let rd = reg_at_0(h);
    let op = (h / 64) % 4;
    if h / 0x100 == 0xb0 {
        let magnitude = imm7(h) * 4;
        Instruction::AddSp {
            rd: SP_INDEX,
            offset: to_word(if flag(h, 128) { -magnitude } else { magnitude as int }),
        }
    } else if h / 0x100 == 0xb2 {
        if op == 0 {
            Instruction::Sxth { rd, rm }
        } else if op == 1 {
            Instruction::Sxtb { rd, rm }
        } else if op == 2 {
            Instruction::Uxth { rd, rm }
        } else {
            Instruction::Uxtb { rd, rm }
        }
    } else if h / 0x100 == 0xba {
        if op == 0 {
            Instruction::Rev { rd, rm }
        } else if op == 1 {
            Instruction::Rev16 { rd, rm }
        } else {
            Instruction::NotImplemented
        }
    } else if (h / 0x200) % 4 == 2 {
        if flag(h, 0x800) {
            Instruction::Pop { rlist: imm8(h) as u8, pc: flag(h, 0x100) }
        } else {
            Instruction::Push { rlist: imm8(h) as u8, lr: flag(h, 0x100) }
        }
    } else {
        Instruction::NotImplemented
    }
}

/// Conditional branch (`1101 cccc xxxx xxxx`): the 8-bit offset counts
/// halfwords and is signed. Conditions 14 and 15 are not branches.
pub open spec fn decode_conditional_branch(h: u16) -> Instruction {
    let offset = to_word(sign_extend(imm8(h) as int, 256) * 2);
    let condition = (h / 256) % 16;
    if condition == 0 {
        Instruction::Beq { offset }
    } else if condition == 1 {
        Instruction::Bne { offset }
    } else if condition == 2 {
        Instruction::Bcs { offset }
    } else if condition == 3 {
        Instruction::Bcc { offset }
    } else if condition == 4 {
        Instruction::Bmi { offset }
    } else if condition == 5 {
        Instruction::Bpl { offset }
    } else if condition == 6 {
        Instruction::Bvs { offset }
    } else if condition == 7 {
        Instruction::Bcv { offset }
    } else if condition == 8 {
        Instruction::Bhi { offset }
    } else if condition == 9 {
        Instruction::Bls { offset }
    } else if condition == 10 {
        Instruction::Bge { offset }
    } else if condition == 11 {
        Instruction::Blt { offset }
    } else if condition == 12 {
        Instruction::Bgt { offset }
    } else if condition == 13 {
        Instruction::Ble { offset }
    } else {
        Instruction::NotImplemented
    }
}

/// Whether `h` followed by `next` is the two-halfword long branch with
/// link (`1111 0xxx xxxx xxxx`, `1111 1xxx xxxx xxxx`).
pub open spec fn is_long_branch(h: u16, next: u16) -> bool {
    h / 0x800 == 0x1e && next / 0x800 == 0x1f
}

/// The record for the first half of the long branch `h`, `next`: the high
/// part of the offset is signed and counts units of 4096 bytes, the low
/// part counts halfwords.
pub open spec fn long_branch(h: u16, next: u16, first: bool) -> Instruction {
    Instruction::Bl {
        offset1: to_word(sign_extend(imm11(h) as int, 2048) * 4096),
        offset2: (imm11(next) * 2) as u32,
        first,
    }
}

/// The decode table: the instruction that the halfword `h` encodes, given
/// the halfword `next` that follows it in memory. Every encoding that the
/// table does not list is `NotImplemented`.
#[verifier::opaque]
pub open spec fn decode(h: u16, next: u16) -> Instruction {
    if h / 0x2000 == 0 {
        decode_shift_add(h)
    } else if h / 0x2000 == 1 {
        decode_immediate(h)
    } else if h / 0x400 == 0x10 {
        decode_alu(h)
    } else if h / 0x400 == 0x11 {
        decode_high_register(h)
    } else if h / 0x800 == 9 {
        Instruction::LdrPc { rd: reg_at_8(h), immediate_value: (imm8(h) * 4) as u32 }
    } else if h / 0x1000 == 5 {
        if flag(h, 0x200) {
            decode_signed_halfword(h)
        } else {
            decode_register_offset(h)
        }
    } else if h / 0x2000 == 3 {
        decode_immediate_offset(h)
    } else if h / 0x1000 == 8 {
        if flag(h, 0x800) {
            Instruction::LdrhImm { rb: reg_at_3(h), offset: (imm5(h) * 2) as u32, rd: reg_at_0(h) }
        } else {
            Instruction::StrhImm { rb: reg_at_3(h), offset: (imm5(h) * 2) as u32, rd: reg_at_0(h) }
        }
    } else if h / 0x1000 == 9 {
        if flag(h, 0x800) {
            Instruction::LdrImm { rb: SP_INDEX, offset: (imm8(h) * 4) as u32, rd: reg_at_8(h) }
        } else {
            Instruction::StrImm { rb: SP_INDEX, offset: (imm8(h) * 4) as u32, rd: reg_at_8(h) }
        }
    } else if h / 0x1000 == 10 {
        if flag(h, 0x800) {
            Instruction::AddSp { rd: reg_at_8(h), offset: (imm8(h) * 4) as u32 }
        } else {
            Instruction::AddPc { rd: reg_at_8(h), offset: (imm8(h) * 4) as u32 }
        }
    } else if h / 0x1000 == 11 {
        decode_miscellaneous(h)
    } else if h / 0x1000 == 12 {
        if flag(h, 0x800) {
            Instruction::Ldmia { rb: reg_at_8(h), rlist: imm8(h) as u8 }
        } else {
            Instruction::Stmia { rb: reg_at_8(h), rlist: imm8(h) as u8 }
        }
    } else if h / 0x1000 == 13 {
        decode_conditional_branch(h)
    } else if h / 0x800 == 0x1c {
        Instruction::B { offset: to_word(sign_extend(imm11(h) as int, 2048) * 2) }
    } else if is_long_branch(h, next) {
        long_branch(h, next, true)
    } else if h == 0xf3bf {
        Instruction::Dmb
    } else {
        Instruction::NotImplemented
    }
}

/// What the decode table says of long branches: only the pair of
/// halfwords of a long branch decodes to a `Bl` record, and it decodes to
/// the record of the branch's first half.
pub proof fn lemma_decode_long_branch(h: u16, next: u16)
    ensures
        decode(h, next) is Bl <==> is_long_branch(h, next),
        is_long_branch(h, next) ==> decode(h, next) == long_branch(h, next, true),
{
    reveal(decode);
}

/// What the decoder's masks select, as numbers.
proof fn lemma_encoding_classes(h: u16)
    by (bit_vector)
    ensures
        (h & 0xe000 == 0x0000) == (h / 0x2000 == 0),
        (h & 0xe000 == 0x2000) == (h / 0x2000 == 1),
        (h & 0xfc00 == 0x4000) == (h / 0x400 == 0x10),
        (h & 0xfc00 == 0x4400) == (h / 0x400 == 0x11),
        (h & 0xf800 == 0x4800) == (h / 0x800 == 9),
        (h & 0xf000 == 0x5000) == (h / 0x1000 == 5),
        (h & 0xe000 == 0x6000) == (h / 0x2000 == 3),
        (h & 0xf000 == 0x8000) == (h / 0x1000 == 8),
        (h & 0xf000 == 0x9000) == (h / 0x1000 == 9),
        (h & 0xf000 == 0xa000) == (h / 0x1000 == 10),
        (h & 0xf000 == 0xb000) == (h / 0x1000 == 11),
        (h & 0xff00 == 0xb000) == (h / 0x100 == 0xb0),
        (h & 0xff00 == 0xb200) == (h / 0x100 == 0xb2),
        (h & 0xff00 == 0xba00) == (h / 0x100 == 0xba),
        (h & 0x0600 == 0x0400) == ((h / 0x200) % 4 == 2),
        (h & 0xf000 == 0xc000) == (h / 0x1000 == 12),
        (h & 0xf000 == 0xd000) == (h / 0x1000 == 13),
        (h & 0xf800 == 0xe000) == (h / 0x800 == 0x1c),
        (h & 0xf800 == 0xf000) == (h / 0x800 == 0x1e),
        (h & 0xf800 == 0xf800) == (h / 0x800 == 0x1f),
{
}

/// What the decoder's field extractions compute, as numbers.
proof fn lemma_encoding_fields(h: u16)
    by (bit_vector)
    ensures
        (h & 0x0007) == h % 8,
        (h & 0x0038) >> 3 == (h / 8) % 8,
        (h & 0x01c0) >> 6 == (h / 64) % 8,
        (h & 0x0700) >> 8 == (h / 256) % 8,
        (h & 0x0078) >> 3 == (h / 8) % 16,
        (h & 0x07c0) >> 6 == (h / 64) % 32,
        (h & 0x00c0) >> 6 == (h / 64) % 4,
        (h & 0x03c0) >> 6 == (h / 64) % 16,
        (h & 0x0f00) >> 8 == (h / 256) % 16,
        (h & 0x0600) >> 9 == (h / 0x200) % 4,
        (h & 0x0c00) >> 10 == (h / 0x400) % 4,
        (h & 0x1800) >> 11 == (h / 0x800) % 4,
        (h & 0x00ff) == h % 256,
        (h & 0x007f) == h % 128,
        (h & 0x07ff) == h % 2048,
        (h & 0x00ff) << 2 == (h % 256) * 4,
        (h & 0x007f) << 2 == (h % 128) * 4,
        (h & 0x07ff) << 1 == (h % 2048) * 2,
        (h & 0x0800 != 0) == ((h / 0x800) % 2 == 1),
        (h & 0x0100 != 0) == ((h / 0x100) % 2 == 1),
        (h & 0x0080 != 0) == ((h / 128) % 2 == 1),
        (h & 0x0200 == 0) == ((h / 0x200) % 2 != 1),
        (h / 64) % 16 == ((h / 256) % 4) * 4 + ((h / 128) % 2) * 2 + (h / 64) % 2,
        (h / 8) % 16 == ((h / 64) % 2) * 8 + (h / 8) % 8,
{
}

/// Scaling of the 5-bit offset field, held in a word.
proof fn lemma_scaled_offsets(field: u32)
    by (bit_vector)
    requires
        field < 32,
    ensures
        field << 2 == field * 4,
        field << 1 == field * 2,
{
}

/// Sign extension by filling the high bits, then scaling by a shift, is
/// multiplication of the signed value, modulo 2^32.
proof fn lemma_branch_offsets(low8: u32, low11: u32)
    by (bit_vector)
    requires
        low8 < 256,
        low11 < 2048,
    ensures
        (low8 & 0x80 != 0) == (low8 >= 128),
        (low11 & 0x400 != 0) == (low11 >= 1024),
        (low8 | !0xffu32) << 1 == 0xffff_fe00 + 2 * low8,
        low8 << 1 == 2 * low8,
        (low11 | !0x7ffu32) << 1 == 0xffff_f000 + 2 * low11,
        low11 << 1 == 2 * low11,
        low11 >= 1024 ==> (low11 | !0x7ffu32) << 12 == 0xff80_0000 + 4096 * low11,
        low11 < 1024 ==> low11 << 12 == 4096 * low11,
{
}

fn parse_shift_add(instruction: u16) -> (decoded: Instruction)
    ensures
        decoded == decode_shift_add(instruction),
        decoded.wf(),
{
    proof {
        lemma_encoding_fields(instruction);
    }
    let rs = ((instruction & 0x0038) >> 3) as u8;
    let rd = (instruction & 0x0007) as u8;
    let opcode = (instruction & 0x1800) >> 11;
    if opcode != 3 {
        let offset = ((instruction & 0x07c0) >> 6) as u8;
        match opcode {
            0 => Instruction::LslImm { rs, rd, offset },
            1 => Instruction::LsrImm { rs, rd, offset },
            _ => Instruction::AsrImm { rs, rd, offset },
        }
    } else {
        let opcode = (instruction & 0x0600) >> 9;
        let rn_offset = ((instruction & 0x01c0) >> 6) as u8;
        match opcode {
            0 => Instruction::AddReg { rs, rd, rn: rn_offset },
            1 => Instruction::SubReg { rs, rd, rn: rn_offset },
            2 => Instruction::AddImm { rs, rd, offset: rn_offset },
            _ => Instruction::SubImm { rs, rd, offset: rn_offset },
        }
    }
}

fn parse_immediate(instruction: u16) -> (decoded: Instruction)
    ensures
        decoded == decode_immediate(instruction),
        decoded.wf(),
{
    proof {
        lemma_encoding_fields(instruction);
    }
    let opcode = (instruction & 0x1800) >> 11;
    let rd = ((instruction & 0x0700) >> 8) as u8;
    let offset = (instruction & 0x00ff) as u8;
    match opcode {
        0 => Instruction::MovImm { rd, offset },
        1 => Instruction::CmpImm { rd, offset },
        2 => Instruction::AddImm { rs: rd, rd, offset },
        _ => Instruction::SubImm { rs: rd, rd, offset },
    }
}

fn parse_alu(instruction: u16) -> (decoded: Instruction)
    ensures
        decoded == decode_alu(instruction),
        decoded.wf(),
{
    proof {
        lemma_encoding_fields(instruction);
    }
    let opcode = (instruction & 0x03c0) >> 6;
    let rs = ((instruction & 0x0038) >> 3) as u8;
    let rd = (instruction & 0x0007) as u8;
    match opcode {
        0 => Instruction::And { rd, rs },
        1 => Instruction::Eor { rd, rs },
        2 => Instruction::LslReg { rd, rs },
        3 => Instruction::LsrReg { rd, rs },
        4 => Instruction::AsrReg { rd, rs },
        5 => Instruction::Adc { rd, rs },
        6 => Instruction::Sbc { rd, rs },
        8 => Instruction::Tst { rd, rs },
        9 => Instruction::Neg { rd, rs },
        10 => Instruction::CmpReg { rd, rs },
        11 => Instruction::Cmn { rd, rs },
        12 => Instruction::Oor { rd, rs },
        13 => Instruction::Mul { rd, rs },
        14 => Instruction::Bic { rd, rs },
        15 => Instruction::Mvn { rd, rs },
        _ => Instruction::NotImplemented,
    }
}

#[verifier::rlimit(40)]
fn parse_high_register(instruction: u16) -> (decoded: Instruction)
    ensures
        decoded == decode_high_register(instruction),
        decoded.wf(),
{
    proof {
        lemma_encoding_fields(instruction);
    }
    let op_h1_h2 = (instruction & 0x03c0) >> 6;
    let rs_hs = ((instruction & 0x0038) >> 3) as u8;
    let rd_hd = (instruction & 0x0007) as u8;
    let rm = ((instruction & 0x0078) >> 3) as u8;
    match op_h1_h2 {
        1 => Instruction::AddReg { rd: rd_hd, rs: rs_hs + 8, rn: rd_hd },
        2 => Instruction::AddReg { rd: rd_hd + 8, rs: rs_hs, rn: rd_hd + 8 },
        3 => Instruction::AddReg { rd: rd_hd + 8, rs: rs_hs + 8, rn: rd_hd + 8 },
        5 => Instruction::CmpReg { rs: rs_hs + 8, rd: rd_hd },
        6 => Instruction::CmpReg { rs: rs_hs, rd: rd_hd + 8 },
        7 => Instruction::CmpReg { rs: rs_hs + 8, rd: rd_hd + 8 },
        8 => Instruction::MovReg { rs: rs_hs, rd: rd_hd },
        9 => Instruction::MovReg { rs: rs_hs + 8, rd: rd_hd },
        10 => Instruction::MovReg { rs: rs_hs, rd: rd_hd + 8 },
        11 => Instruction::MovReg { rs: rs_hs + 8, rd: rd_hd + 8 },
        12 => Instruction::Bx { rs: rs_hs },
        13 => Instruction::Bx { rs: rs_hs + 8 },
        14 | 15 => Instruction::Blx { rm },
        _ => Instruction::NotImplemented,
    }
}

fn parse_register_offset(instruction: u16) -> (decoded: Instruction)
    ensures
        decoded == (if flag(instruction, 0x200) {
            decode_signed_halfword(instruction)
        } else {
            decode_register_offset(instruction)
        }),
        decoded.wf(),
{
    proof {
        lemma_encoding_fields(instruction);
    }
    let op = (instruction & 0x0c00) >> 10;
    let ro = ((instruction & 0x01c0) >> 6) as u8;
    let rb = ((instruction & 0x0038) >> 3) as u8;
    let rd = (instruction & 0x0007) as u8;
    if instruction & 0x0200 == 0 {
        match op {
            0 => Instruction::StrReg { rb, ro, rd },
            1 => Instruction::StrbReg { rb, ro, rd },
            2 => Instruction::LdrReg { rb, ro, rd },
            _ => Instruction::LdrbReg { rb, ro, rd },
        }
    } else {
        match op {
            0 => Instruction::StrhReg { rb, ro, rd },
            1 => Instruction::Ldsb { rb, ro, rd },
            2 => Instruction::LdrhReg { rb, ro, rd },
            _ => Instruction::Ldsh { rb, ro, rd },
        }
    }
}

fn parse_immediate_offset(instruction: u16) -> (decoded: Instruction)
    ensures
        decoded == decode_immediate_offset(instruction),
        decoded.wf(),
{
    let op = (instruction & 0x1800) >> 11;
    let offset = ((instruction & 0x07c0) >> 6) as u32;
    let rb = ((instruction & 0x0038) >> 3) as u8;
    let rd = (instruction & 0x0007) as u8;
    proof {
        lemma_encoding_fields(instruction);
        lemma_scaled_offsets(offset);
    }
    match op {
        0 => Instruction::StrImm { rb, offset: offset << 2, rd },
        1 => Instruction::LdrImm { rb, offset: offset << 2, rd },
        2 => Instruction::StrbImm { rb, offset, rd },
        _ => Instruction::LdrbImm { rb, offset, rd },
    }
}

fn parse_halfword_offset(instruction: u16) -> (decoded: Instruction)
    ensures
        decoded == (if flag(instruction, 0x800) {
            Instruction::LdrhImm {
                rb: reg_at_3(instruction),
                offset: (imm5(instruction) * 2) as u32,
                rd: reg_at_0(instruction),
            }
        } else {
            Instruction::StrhImm {
                rb: reg_at_3(instruction),
                offset: (imm5(instruction) * 2) as u32,
                rd: reg_at_0(instruction),
            }
        }),
        decoded.wf(),
{
    let l = (instruction & 0x0800) != 0;
    let offset = ((instruction & 0x07c0) >> 6) as u32;
    let rb = ((instruction & 0x0038) >> 3) as u8;
    let rd = (instruction & 0x0007) as u8;
    proof {
        lemma_encoding_fields(instruction);
        lemma_scaled_offsets(offset);
    }
    if l {
        Instruction::LdrhImm { rb, offset: offset << 1, rd }
    } else {
        Instruction::StrhImm { rb, offset: offset << 1, rd }
    }
}

/// The register in bits 10..8, the 8-bit field scaled to words, and bit 11:
/// the operands of the encodings `1001`, `1010` and `01001`.
fn parse_word8(instruction: u16) -> (fields: (u8, u32, bool))
    ensures
        fields.0 == reg_at_8(instruction),
        fields.1 == imm8(instruction) * 4,
        fields.2 == flag(instruction, 0x800),
{
    proof {
        lemma_encoding_fields(instruction);
    }
    let rd = ((instruction & 0x0700) >> 8) as u8;
    let offset = ((instruction & 0x00ff) << 2) as u32;
    (rd, offset, (instruction & 0x0800) != 0)
}

/// The register in bits 10..8, the register list, and bit 11: the operands
/// of load and store multiple.
fn parse_multiple(instruction: u16) -> (fields: (u8, u8, bool))
    ensures
        fields.0 == reg_at_8(instruction),
        fields.1 == imm8(instruction),
        fields.2 == flag(instruction, 0x800),
{
    proof {
        lemma_encoding_fields(instruction);
    }
    let rb = ((instruction & 0x0700) >> 8) as u8;
    let rlist = (instruction & 0x00ff) as u8;
    (rb, rlist, (instruction & 0x0800) != 0)
}

#[verifier::rlimit(40)]
fn parse_miscellaneous(instruction: u16) -> (decoded: Instruction)
    ensures
        decoded == decode_miscellaneous(instruction),
        decoded.wf(),
{
    proof {
        lemma_encoding_classes(instruction);
        lemma_encoding_fields(instruction);
    }
    let opcode = (instruction & 0x00c0) >> 6;
    let rm = ((instruction & 0x0038) >> 3) as u8;
    let rd = (instruction & 0x0007) as u8;
    if instruction & 0xff00 == 0xb000 {
        let negative = (instruction & 0x0080) != 0;
        let magnitude = ((instruction & 0x007f) << 2) as u32;
        let offset = if negative {
            0u32.wrapping_sub(magnitude)
        } else {
            magnitude
        };
        Instruction::AddSp { offset, rd: SP_INDEX }
    } else if instruction & 0xff00 == 0xb200 {
        match opcode {
            0 => Instruction::Sxth { rd, rm },
            1 => Instruction::Sxtb { rd, rm },
            2 => Instruction::Uxth { rd, rm },
            _ => Instruction::Uxtb { rd, rm },
        }
    } else if instruction & 0xff00 == 0xba00 {
        match opcode {
            0 => Instruction::Rev { rd, rm },
            1 => Instruction::Rev16 { rd, rm },
            _ => Instruction::NotImplemented,
        }
    } else if instruction & 0x0600 == 0x0400 {
        let l = (instruction & 0x0800) != 0;
        let r = (instruction & 0x0100) != 0;
        let rlist = (instruction & 0x00ff) as u8;
        if !l {
            Instruction::Push { rlist, lr: r }
        } else {
            Instruction::Pop { rlist, pc: r }
        }
    } else {
        Instruction::NotImplemented
    }
}

/// An 8-bit halfword count, sign-extended and scaled to bytes.
#[verifier::rlimit(40)]
fn branch_offset8(instruction: u16) -> (offset: u32)
    ensures
        offset == to_word(sign_extend(imm8(instruction) as int, 256) * 2),
{
    let field = (instruction & 0x00ff) as u32;
    proof {
        lemma_encoding_fields(instruction);
        lemma_branch_offsets(field, 0);
        if field >= 128 {
            assert(sign_extend(field as int, 256) * 2 == 2 * field - 512);
            assert((2 * field - 512) % 0x1_0000_0000 == 0xffff_fe00 + 2 * field);
        } else {
            assert(sign_extend(field as int, 256) * 2 == 2 * field);
            assert((2 * field) % 0x1_0000_0000 == 2 * field);
        }
    }
    let extended = if field & 0x80 != 0 {
        field | !0xffu32
    } else {
        field
    };
    extended << 1
}

/// An 11-bit field, sign-extended and scaled: to bytes where it counts
/// halfwords, or by 4096 where it is the high part of a long branch.
#[verifier::rlimit(40)]
fn branch_offset11(instruction: u16, long: bool) -> (offset: u32)
    ensures
        long ==> offset == to_word(sign_extend(imm11(instruction) as int, 2048) * 4096),
        !long ==> offset == to_word(sign_extend(imm11(instruction) as int, 2048) * 2),
{
    let field = (instruction & 0x07ff) as u32;
    proof {
        lemma_encoding_fields(instruction);
        lemma_branch_offsets(0, field);
        if field >= 1024 {
            assert(sign_extend(field as int, 2048) * 4096 == 4096 * field - 0x80_0000);
            assert((4096 * field - 0x80_0000) % 0x1_0000_0000 == 0xff80_0000 + 4096 * field);
            assert(sign_extend(field as int, 2048) * 2 == 2 * field - 4096);
            assert((2 * field - 4096) % 0x1_0000_0000 == 0xffff_f000 + 2 * field);
        } else {
            assert(sign_extend(field as int, 2048) * 4096 == 4096 * field);
            assert((4096 * field) % 0x1_0000_0000 == 4096 * field);
            assert(sign_extend(field as int, 2048) * 2 == 2 * field);
            assert((2 * field) % 0x1_0000_0000 == 2 * field);
        }
    }
    let extended = if field & 0x400 != 0 {
        field | !0x7ffu32
    } else {
        field
    };
    if long {
        extended << 12
    } else {
        extended << 1
    }
}

fn parse_conditional_branch(instruction: u16) -> (decoded: Instruction)
    ensures
        decoded == decode_conditional_branch(instruction),
        decoded.wf(),
{
    proof {
        lemma_encoding_fields(instruction);
    }
    let condition = (instruction & 0x0f00) >> 8;
    let offset = branch_offset8(instruction);
    match condition {
        0 => Instruction::Beq { offset },
        1 => Instruction::Bne { offset },
        2 => Instruction::Bcs { offset },
        3 => Instruction::Bcc { offset },
        4 => Instruction::Bmi { offset },
        5 => Instruction::Bpl { offset },
        6 => Instruction::Bvs { offset },
        7 => Instruction::Bcv { offset },
        8 => Instruction::Bhi { offset },
        9 => Instruction::Bls { offset },
        10 => Instruction::Bge { offset },
        11 => Instruction::Blt { offset },
        12 => Instruction::Bgt { offset },
        13 => Instruction::Ble { offset },
        _ => Instruction::NotImplemented,
    }
}

fn parse_long_branch(instruction: u16, following_instruction: u16) -> (decoded: Instruction)
    ensures
        decoded == long_branch(instruction, following_instruction, true),
{
    proof {
        lemma_encoding_fields(following_instruction);
    }
    let offset1 = branch_offset11(instruction, true);
    let offset2 = ((following_instruction & 0x07ff) << 1) as u32;
    Instruction::Bl { offset1, offset2, first: true }
}

/// Decodes the halfword `instruction`; `following_instruction` is the
/// halfword after it, which tells a long branch with link from anything
/// else. The result is the entry of the decode table, and names only
/// registers that exist.
#[verifier::rlimit(40)]
pub fn parse_instruction(instruction: u16, following_instruction: u16) -> (decoded: Instruction)
    ensures
        decoded == decode(instruction, following_instruction),
        decoded.wf(),
{
    proof {
        reveal(decode);
        lemma_encoding_classes(instruction);
        lemma_encoding_classes(following_instruction);
    }
    if instruction & 0xe000 == 0x0000 {
        parse_shift_add(instruction)
    } else if instruction & 0xe000 == 0x2000 {
        parse_immediate(instruction)
    } else if instruction & 0xfc00 == 0x4000 {
        parse_alu(instruction)
    } else if instruction & 0xfc00 == 0x4400 {
        parse_high_register(instruction)
    } else if instruction & 0xf800 == 0x4800 {
        let (rd, immediate_value, _) = parse_word8(instruction);
        Instruction::LdrPc { rd, immediate_value }
    } else if instruction & 0xf000 == 0x5000 {
        parse_register_offset(instruction)
    } else if instruction & 0xe000 == 0x6000 {
        parse_immediate_offset(instruction)
    } else if instruction & 0xf000 == 0x8000 {
        parse_halfword_offset(instruction)
    } else if instruction & 0xf000 == 0x9000 {
        let (rd, offset, l) = parse_word8(instruction);
        if l {
            Instruction::LdrImm { rb: SP_INDEX, offset, rd }
        } else {
            Instruction::StrImm { rb: SP_INDEX, offset, rd }
        }
    } else if instruction & 0xf000 == 0xa000 {
        let (rd, offset, sp) = parse_word8(instruction);
        if sp {
            Instruction::AddSp { offset, rd }
        } else {
            Instruction::AddPc { offset, rd }
        }
    } else if instruction & 0xf000 == 0xb000 {
        parse_miscellaneous(instruction)
    } else if instruction & 0xf000 == 0xc000 {
        let (rb, rlist, l) = parse_multiple(instruction);
        if l {
            Instruction::Ldmia { rb, rlist }
        } else {
            Instruction::Stmia { rb, rlist }
        }
    } else if instruction & 0xf000 == 0xd000 {
        parse_conditional_branch(instruction)
    } else if instruction & 0xf800 == 0xe000 {
        Instruction::B { offset: branch_offset11(instruction, false) }
    } else if instruction & 0xf800 == 0xf000 && following_instruction & 0xf800 == 0xf800 {
        parse_long_branch(instruction, following_instruction)
    } else if instruction == 0xf3bf {
        Instruction::Dmb
    } else {
        Instruction::NotImplemented
    }
}

} // verus!
