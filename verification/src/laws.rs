//! Laws of the emulated system that hold of every state: what the
//! contracts of the emulator's operations imply when operations are
//! combined.

use vstd::prelude::*;
use crate::bits::{lemma_bytes_of_word, negative, word_of_bytes};
use crate::input_output::Display;
use crate::instruction::{
    decode,
    imm11,
    is_long_branch,
    long_branch,
    sign_extend,
    to_word,
    Instruction,
    LR_INDEX,
    PC_INDEX,
    SP_INDEX,
};
use crate::machine::{
    in_list,
    reverse_bytes,
    reverse_bytes16,
    sram_index,
    Machine,
    ADC_INTFLAG_ADDR,
    FLASH_SIZE,
    PCLKSR_ADDR,
    PERIPHERAL_START_ADDR,
    RESET_LR,
    SRAM_START_ADDR,
};
use crate::register::CondRegister;

verus! {

/// After a program has been loaded, the stack pointer is the first word
/// of the image and the next fetch is at the address that the second word
/// gives, with its Thumb bit dropped. The link register holds `RESET_LR`.
/// The reset is one PC advance: one tick has passed and SysTick is one
/// step nearer than it was.
#[verifier::rlimit(40)]
pub proof fn lemma_reset_state(m: Machine, contents: Seq<u8>, offset: u32)
    requires
        m.wf(),
        contents.len() >= 8,
        offset + contents.len() <= FLASH_SIZE,
    ensures
        m.load_program(contents, offset).wf(),
        m.load_program(contents, offset).reg(SP_INDEX) == word_of_bytes(
            contents[0],
            contents[1],
            contents[2],
            contents[3],
        ),
        m.load_program(contents, offset).fetch_address() == word_of_bytes(
            contents[4],
            contents[5],
            contents[6],
            contents[7],
        ) & !1u32,
        m.load_program(contents, offset).reg(LR_INDEX) == RESET_LR,
        m.load_program(contents, offset).tick_count == m.tick_count.wrapping_add(1),
        m.load_program(contents, offset).systick_trigger == m.systick_trigger.wrapping_sub(1),
        m.load_program(contents, offset).program_offset == offset,
{
}

/// A fresh emulator that has loaded a program has used one step of its
/// SysTick countdown of 20000.
pub proof fn lemma_reset_countdown(contents: Seq<u8>, offset: u32)
    requires
        contents.len() >= 8,
        offset + contents.len() <= FLASH_SIZE,
    ensures
        Machine::initial().load_program(contents, offset).systick_trigger == 19999,
        Machine::initial().load_program(contents, offset).tick_count == 1,
{
}

/// Moving zero to `rd`, moving the immediate `v` to `rs` and shifting `rs`
/// left by `k` into `rd` leaves `v << k` in `rd`. Z tells whether that is
/// zero, N whether its bit 31 is set, and C whether bit `k` of `v` is set.
#[verifier::rlimit(40)]
pub proof fn lemma_shift_left_immediate(m: Machine, rd: u8, rs: u8, v: u8, k: u8)
    requires
        m.wf(),
        rd < 16,
        rs < 16,
        k < 32,
    ensures
        ({
            let after = m.execute(Instruction::MovImm { rd, offset: 0 }).execute(
                Instruction::MovImm { rd: rs, offset: v },
            ).execute(Instruction::LslImm { rs, rd, offset: k });
            &&& after.reg(rd) == (v as u32) << k
            &&& after.flags.z == ((v as u32) << k == 0)
            &&& after.flags.n == negative((v as u32) << k)
            &&& after.flags.c == ((v as u32) & (1u32 << k) != 0)
        }),
{
    reveal(Machine::execute);
}

/// Reversing the bytes of a word twice gives the word back, and so does
/// swapping the bytes of its halfwords twice.
pub proof fn lemma_reverse_twice(v: u32)
    by (bit_vector)
    ensures
        reverse_bytes(reverse_bytes(v)) == v,
        reverse_bytes16(reverse_bytes16(v)) == v,
{
}

/// REV applied twice to a register restores it, and so does REV16.
#[verifier::rlimit(40)]
pub proof fn lemma_rev_instructions(m: Machine, rd: u8)
    requires
        m.wf(),
        rd < 16,
    ensures
        m.execute(Instruction::Rev { rd, rm: rd }).execute(Instruction::Rev { rd, rm: rd }) == m,
        m.execute(Instruction::Rev16 { rd, rm: rd }).execute(Instruction::Rev16 { rd, rm: rd }) == m,
{
    reveal(Machine::execute);
    lemma_reverse_twice(m.reg(rd));
    let once = m.execute(Instruction::Rev { rd, rm: rd });
    assert(once.execute(Instruction::Rev { rd, rm: rd }).registers =~= m.registers);
    let once16 = m.execute(Instruction::Rev16 { rd, rm: rd });
    assert(once16.execute(Instruction::Rev16 { rd, rm: rd }).registers =~= m.registers);
}

/// Whatever the state of the system, the clock status word reads as
/// ready and the ADC's flag byte as result ready.
pub proof fn lemma_fixed_reads(m: Machine)
    ensures
        m.read_word(PCLKSR_ADDR) == 0xd2,
        m.read_word(0x4000_080c) == 0xd2,
        m.read_byte(ADC_INTFLAG_ADDR) == 1,
        m.read_byte(0x4200_4018) == 1,
{
}

/// Flash is read-only: a store of any width to an address below the SRAM
/// window changes nothing.
pub proof fn lemma_flash_read_only(m: Machine, addr: u32, value: u32)
    requires
        addr < SRAM_START_ADDR,
    ensures
        m.write_word(addr, value) == m,
        m.write_half(addr, value) == m,
        m.write_byte(addr, value) == m,
{
}

/// The two halfwords of a long branch with link decode to exactly two
/// records, the first and the second half of the branch.
#[verifier::rlimit(40)]
pub proof fn lemma_long_branch_records(m: Machine, k: int)
    requires
        k >= 0,
        is_long_branch(m.image_halfword(k), m.image_halfword(k + 1)),
    ensures
        m.decoded_record(k) == long_branch(m.image_halfword(k), m.image_halfword(k + 1), true),
        m.decoded_record(k + 1) == long_branch(m.image_halfword(k), m.image_halfword(k + 1), false),
        m.decoded(k + 2).len() == k + 2,
        m.decoded(k + 2)[k] == m.decoded_record(k),
        m.decoded(k + 2)[k + 1] == m.decoded_record(k + 1),
{
    reveal(decode);
}

/// What the two halves of a long branch with link do, each by itself.
proof fn lemma_execute_long_branch(m: Machine, offset1: u32, offset2: u32)
    ensures
        m.execute(Instruction::Bl { offset1, offset2, first: true }) == m.set_reg(
            LR_INDEX,
            m.reg(PC_INDEX).wrapping_add(offset1),
        ),
        m.execute(Instruction::Bl { offset1, offset2, first: false }) == m.set_reg(
            PC_INDEX,
            m.reg(LR_INDEX).wrapping_add(offset2),
        ).set_reg(LR_INDEX, m.reg(PC_INDEX).wrapping_sub(2) | 1).advance_pc(),
{
    reveal(Machine::execute);
}

/// Executing the two records of a long branch with link that is fetched
/// from address `a` leaves the address of the instruction behind the
/// branch, with the Thumb bit set, in the link register, and continues at
/// the branch target: `a + 4` plus the signed offset that the two
/// halfwords hold.
#[verifier::rlimit(40)]
pub proof fn lemma_long_branch_executes(m: Machine, h: u16, next: u16)
    requires
        m.wf(),
    ensures
        ({
            let a = m.fetch_address();
            let after = m.advance_pc().execute(long_branch(h, next, true)).advance_pc().execute(
                long_branch(h, next, false),
            );
            &&& after.reg(LR_INDEX) == a.wrapping_add(4) | 1
            &&& after.fetch_address() == to_word(
                a + 4 + sign_extend(imm11(h) as int, 2048) * 4096 + imm11(next) * 2,
            )
            &&& after.tick_count == m.tick_count.wrapping_add(3)
        }),
{
    let a = m.fetch_address();
    let high = sign_extend(imm11(h) as int, 2048) * 4096;
    let offset1 = to_word(high);
    let offset2 = (imm11(next) * 2) as u32;
    let m1 = m.advance_pc();
    lemma_execute_long_branch(m1, offset1, offset2);
    let m2 = m1.execute(long_branch(h, next, true));
    let m3 = m2.advance_pc();
    lemma_execute_long_branch(m3, offset1, offset2);
    let after = m3.execute(long_branch(h, next, false));
    let pc1 = m1.reg(PC_INDEX);
    assert(pc1 == a.wrapping_add(4));
    assert(m2.reg(LR_INDEX) == pc1.wrapping_add(offset1));
    assert(m3.reg(PC_INDEX) == pc1.wrapping_add(2));
    assert(m3.reg(LR_INDEX) == pc1.wrapping_add(offset1));
    assert(after.reg(LR_INDEX) == pc1.wrapping_add(2).wrapping_sub(2) | 1);
    assert(pc1.wrapping_add(2).wrapping_sub(2) == pc1);
    assert(after.reg(PC_INDEX) == pc1.wrapping_add(offset1).wrapping_add(offset2).wrapping_add(2));
    assert(-0x40_0000 <= high < 0x40_0000);
    assert(pc1.wrapping_add(offset1) as int == (a + 4 + high) % 0x1_0000_0000);
    assert(pc1.wrapping_add(offset1).wrapping_add(offset2) as int == (a + 4 + high + offset2)
        % 0x1_0000_0000);
}

/// What is stored to SRAM is what is read back from the same address,
/// at each width.
#[verifier::rlimit(40)]
pub proof fn lemma_sram_round_trip(m: Machine, addr: u32, value: u32)
    requires
        m.wf(),
        SRAM_START_ADDR <= addr < PERIPHERAL_START_ADDR,
    ensures
        m.write_word(addr, value).read_word(addr) == value,
        m.write_half(addr, value).read_half(addr) == value % 0x1_0000,
        m.write_byte(addr, value).read_byte(addr) == value % 0x100,
{
    lemma_bytes_of_word(value);
}

/// Bytes of two words that do not overlap fall on different positions
/// of SRAM.
proof fn lemma_distinct_positions(addr: int, other: int, i: int, j: int)
    requires
        4 <= (other - addr) % 0x8000 <= 0x8000 - 4,
        0 <= i < 4,
        0 <= j < 4,
    ensures
        sram_index(addr + i) != sram_index(other + j),
{
    let x = addr + i - SRAM_START_ADDR;
    let y = other + j - SRAM_START_ADDR;
    let d = (other - addr) % 0x8000;
    assert(y - x == (other - addr) + j - i);
    if x % 0x8000 == y % 0x8000 {
        assert((y - x) % 0x8000 == 0);
        assert(((other - addr) + (j - i)) % 0x8000 == (d + (j - i)) % 0x8000);
        assert(1 <= d + (j - i) < 0x8000);
    }
}

/// A byte that lies above a word, less than 32 KiB from its start, falls
/// on another position of SRAM than any byte of the word.
proof fn lemma_distinct_byte(addr: int, a: int)
    requires
        addr + 4 <= a < addr + 0x8000,
    ensures
        sram_index(a) != sram_index(addr),
        sram_index(a) != sram_index(addr + 1),
        sram_index(a) != sram_index(addr + 2),
        sram_index(a) != sram_index(addr + 3),
{
    let x = addr - SRAM_START_ADDR;
    let y = a - SRAM_START_ADDR;
    assert(4 <= y - x < 0x8000);
    if y % 0x8000 == x % 0x8000 {
        assert((y - x) % 0x8000 == 0);
    }
    if y % 0x8000 == (x + 1) % 0x8000 {
        assert((y - (x + 1)) % 0x8000 == 0);
    }
    if y % 0x8000 == (x + 2) % 0x8000 {
        assert((y - (x + 2)) % 0x8000 == 0);
    }
    if y % 0x8000 == (x + 3) % 0x8000 {
        assert((y - (x + 3)) % 0x8000 == 0);
    }
}

/// A word store to SRAM changes nothing but SRAM, and leaves every word
/// of SRAM that does not overlap the stored one as it was.
#[verifier::rlimit(40)]
pub proof fn lemma_write_word_frame(m: Machine, addr: u32, value: u32, other: u32)
    requires
        m.wf(),
        SRAM_START_ADDR <= addr < PERIPHERAL_START_ADDR,
        SRAM_START_ADDR <= other < PERIPHERAL_START_ADDR,
        4 <= (other - addr) % 0x8000 <= 0x8000 - 4,
    ensures
        m.write_word(addr, value) == (Machine { sram: m.write_word(addr, value).sram, ..m }),
        m.write_word(addr, value).wf(),
        m.write_word(addr, value).read_word(other) == m.read_word(other),
{
    lemma_distinct_positions(addr as int, other as int, 0, 0);
    lemma_distinct_positions(addr as int, other as int, 0, 1);
    lemma_distinct_positions(addr as int, other as int, 0, 2);
    lemma_distinct_positions(addr as int, other as int, 0, 3);
    lemma_distinct_positions(addr as int, other as int, 1, 0);
    lemma_distinct_positions(addr as int, other as int, 1, 1);
    lemma_distinct_positions(addr as int, other as int, 1, 2);
    lemma_distinct_positions(addr as int, other as int, 1, 3);
    lemma_distinct_positions(addr as int, other as int, 2, 0);
    lemma_distinct_positions(addr as int, other as int, 2, 1);
    lemma_distinct_positions(addr as int, other as int, 2, 2);
    lemma_distinct_positions(addr as int, other as int, 2, 3);
    lemma_distinct_positions(addr as int, other as int, 3, 0);
    lemma_distinct_positions(addr as int, other as int, 3, 1);
    lemma_distinct_positions(addr as int, other as int, 3, 2);
    lemma_distinct_positions(addr as int, other as int, 3, 3);
    let written = m.write_word(addr, value);
    assert(written.sram_byte(other as int) == m.sram_byte(other as int));
    assert(written.sram_byte(other + 1) == m.sram_byte(other + 1));
    assert(written.sram_byte(other + 2) == m.sram_byte(other + 2));
    assert(written.sram_byte(other + 3) == m.sram_byte(other + 3));
}

/// What a push onto a stack in SRAM does: the stack pointer goes down by
/// four, the word on top of the stack is the word pushed, and nothing but
/// SRAM and the stack pointer changes.
pub proof fn lemma_push(m: Machine, value: u32)
    requires
        m.wf(),
        SRAM_START_ADDR + 4 <= m.reg(SP_INDEX) <= PERIPHERAL_START_ADDR,
    ensures
        m.push(value).wf(),
        m.push(value) == (Machine {
            sram: m.push(value).sram,
            registers: m.registers.update(SP_INDEX as int, (m.reg(SP_INDEX) - 4) as u32),
            ..m
        }),
        m.push(value).reg(SP_INDEX) == m.reg(SP_INDEX) - 4,
        m.push(value).read_word((m.reg(SP_INDEX) - 4) as u32) == value,
{
    reveal(Machine::push);
    let sp = (m.reg(SP_INDEX) - 4) as u32;
    let lowered = m.set_reg(SP_INDEX, sp);
    lemma_sram_round_trip(lowered, sp, value);
}

/// A push onto a stack in SRAM leaves the words of the 32 KiB above the
/// word pushed as they were.
pub proof fn lemma_push_keeps(m: Machine, value: u32, other: u32)
    requires
        m.wf(),
        SRAM_START_ADDR + 4 <= m.reg(SP_INDEX) <= PERIPHERAL_START_ADDR,
        m.reg(SP_INDEX) <= other < PERIPHERAL_START_ADDR,
        other - m.reg(SP_INDEX) <= 0x8000 - 8,
    ensures
        m.push(value).read_word(other) == m.read_word(other),
{
    reveal(Machine::push);
    let sp = (m.reg(SP_INDEX) - 4) as u32;
    let lowered = m.set_reg(SP_INDEX, sp);
    lemma_write_word_frame(lowered, sp, value, other);
}

/// A push onto a stack in SRAM leaves the bytes of the 32 KiB above the
/// word pushed as they were.
proof fn lemma_push_bytes(m: Machine, value: u32)
    requires
        m.wf(),
        SRAM_START_ADDR + 4 <= m.reg(SP_INDEX) <= PERIPHERAL_START_ADDR,
    ensures
        forall|a: int|
            m.reg(SP_INDEX) <= a < m.reg(SP_INDEX) + 0x8000 - 4 ==> #[trigger] m.push(
                value,
            ).sram_byte(a) == m.sram_byte(a),
{
    reveal(Machine::push);
    let sp = (m.reg(SP_INDEX) - 4) as u32;
    assert forall|a: int| m.reg(SP_INDEX) <= a < m.reg(SP_INDEX) + 0x8000 - 4 implies #[trigger] m.push(
        value,
    ).sram_byte(a) == m.sram_byte(a) by {
        lemma_distinct_byte(sp as int, a);
    }
}

/// The flags survive the trip through the word of an exception frame.
pub proof fn lemma_flags_word(flags: CondRegister)
    ensures
        CondRegister::of_word(flags.word()) == flags,
        flags.word() < 16,
{
}

/// Whether `s` is `base` after `words` have been pushed onto its stack,
/// which lies in SRAM: nothing but SRAM and the stack pointer differs, the
/// stack pointer is down by four for each word, and the words lie below
/// where it was, the first pushed highest.
pub open spec fn stack_holds(base: Machine, s: Machine, words: Seq<u32>) -> bool {
    &&& s.wf()
    &&& s == (Machine {
        sram: s.sram,
        registers: base.registers.update(
            SP_INDEX as int,
            (base.reg(SP_INDEX) - 4 * words.len()) as u32,
        ),
        ..base
    })
    &&& forall|j: int|
        0 <= j < words.len() ==> s.read_word((base.reg(SP_INDEX) - 4 * (j + 1)) as u32)
            == #[trigger] words[j]
}

/// One more push keeps the words pushed before it and puts the new word
/// below them.
pub proof fn lemma_push_onto(base: Machine, s: Machine, words: Seq<u32>, value: u32)
    requires
        base.wf(),
        stack_holds(base, s, words),
        words.len() < 0x1000,
        SRAM_START_ADDR + 4 * (words.len() + 1) <= base.reg(SP_INDEX) <= PERIPHERAL_START_ADDR,
    ensures
        stack_holds(base, s.push(value), words.push(value)),
{
    let p = base.reg(SP_INDEX);
    let t = s.push(value);
    let pushed = words.push(value);
    lemma_push(s, value);
    assert(t.registers =~= base.registers.update(SP_INDEX as int, (p - 4 * pushed.len()) as u32));
    assert forall|j: int| 0 <= j < pushed.len() implies t.read_word((p - 4 * (j + 1)) as u32)
        == #[trigger] pushed[j] by {
        if j < words.len() {
            lemma_push_keeps(s, value, (p - 4 * (j + 1)) as u32);
            assert(s.read_word((p - 4 * (j + 1)) as u32) == words[j]);
        }
    }
}

/// An exception frame on a stack in SRAM holds, from the stack pointer
/// up, R0, R1, R2, R3, R12, LR, R15 and the flags word of the interrupted
/// code. The handler starts at the vector with `EXC_RETURN` in LR.
#[verifier::rlimit(50)]
pub proof fn lemma_exception_frame(m: Machine, vector: u32)
    requires
        m.wf(),
        SRAM_START_ADDR + 32 <= m.reg(SP_INDEX) <= PERIPHERAL_START_ADDR,
    ensures
        ({
            let entered = m.enter_exception(vector);
            let sp = (m.reg(SP_INDEX) - 32) as u32;
            &&& entered.wf()
            &&& entered.reg(SP_INDEX) == sp
            &&& entered.read_word(sp) == m.reg(0)
            &&& entered.read_word((sp + 4) as u32) == m.reg(1)
            &&& entered.read_word((sp + 8) as u32) == m.reg(2)
            &&& entered.read_word((sp + 12) as u32) == m.reg(3)
            &&& entered.read_word((sp + 16) as u32) == m.reg(12)
            &&& entered.read_word((sp + 20) as u32) == m.reg(LR_INDEX)
            &&& entered.read_word((sp + 24) as u32) == m.reg(PC_INDEX)
            &&& entered.read_word((sp + 28) as u32) == m.flags.word()
            &&& entered.reg(LR_INDEX) == crate::machine::EXC_RETURN
            &&& entered.fetch_address() == vector
            &&& entered.flags == m.flags
            &&& entered.tick_count == m.tick_count.wrapping_add(1)
        }),
{
    let w0 = Seq::<u32>::empty();
    assert(m.registers.update(SP_INDEX as int, m.reg(SP_INDEX)) =~= m.registers);
    let s0 = m;
    lemma_push_onto(m, s0, w0, m.flags.word());
    let s1 = s0.push(m.flags.word());
    let w1 = w0.push(m.flags.word());
    lemma_push_onto(m, s1, w1, m.reg(PC_INDEX));
    let s2 = s1.push(m.reg(PC_INDEX));
    let w2 = w1.push(m.reg(PC_INDEX));
    lemma_push_onto(m, s2, w2, m.reg(LR_INDEX));
    let s3 = s2.push(m.reg(LR_INDEX));
    let w3 = w2.push(m.reg(LR_INDEX));
    lemma_push_onto(m, s3, w3, m.reg(12));
    let s4 = s3.push(m.reg(12));
    let w4 = w3.push(m.reg(12));
    lemma_push_onto(m, s4, w4, m.reg(3));
    let s5 = s4.push(m.reg(3));
    let w5 = w4.push(m.reg(3));
    lemma_push_onto(m, s5, w5, m.reg(2));
    let s6 = s5.push(m.reg(2));
    let w6 = w5.push(m.reg(2));
    lemma_push_onto(m, s6, w6, m.reg(1));
    let s7 = s6.push(m.reg(1));
    let w7 = w6.push(m.reg(1));
    lemma_push_onto(m, s7, w7, m.reg(0));
    let s8 = s7.push(m.reg(0));
    let w8 = w7.push(m.reg(0));
    assert(w8[0] == m.flags.word() && w8[1] == m.reg(PC_INDEX) && w8[2] == m.reg(LR_INDEX));
    assert(w8[3] == m.reg(12) && w8[4] == m.reg(3) && w8[5] == m.reg(2));
    assert(w8[6] == m.reg(1) && w8[7] == m.reg(0));
}

/// An exception return undoes an exception entry. Let the system enter a
/// handler with its stack in SRAM, and let `handled` be any state in
/// which the handler returns with the stack pointer and SRAM as they
/// were on entry. Then unwinding the frame restores R0 to R3, R12, LR,
/// R15, the stack pointer and the flags of the interrupted code.
#[verifier::rlimit(40)]
pub proof fn lemma_exception_round_trip(m: Machine, vector: u32, handled: Machine)
    requires
        m.wf(),
        SRAM_START_ADDR + 32 <= m.reg(SP_INDEX) <= PERIPHERAL_START_ADDR,
        handled.wf(),
        handled.sram == m.enter_exception(vector).sram,
        handled.reg(SP_INDEX) == m.enter_exception(vector).reg(SP_INDEX),
    ensures
        handled.unwind_frame().reg(0) == m.reg(0),
        handled.unwind_frame().reg(1) == m.reg(1),
        handled.unwind_frame().reg(2) == m.reg(2),
        handled.unwind_frame().reg(3) == m.reg(3),
        handled.unwind_frame().reg(12) == m.reg(12),
        handled.unwind_frame().reg(LR_INDEX) == m.reg(LR_INDEX),
        handled.unwind_frame().reg(PC_INDEX) == m.reg(PC_INDEX),
        handled.unwind_frame().reg(SP_INDEX) == m.reg(SP_INDEX),
        handled.unwind_frame().flags == m.flags,
{
    reveal(Machine::pop);
    lemma_exception_frame(m, vector);
    lemma_flags_word(m.flags);
    let entered = m.enter_exception(vector);
    let sp = (m.reg(SP_INDEX) - 32) as u32;
    assert(handled.read_word(sp) == entered.read_word(sp));
    assert(handled.read_word((sp + 4) as u32) == entered.read_word((sp + 4) as u32));
    assert(handled.read_word((sp + 8) as u32) == entered.read_word((sp + 8) as u32));
    assert(handled.read_word((sp + 12) as u32) == entered.read_word((sp + 12) as u32));
    assert(handled.read_word((sp + 16) as u32) == entered.read_word((sp + 16) as u32));
    assert(handled.read_word((sp + 20) as u32) == entered.read_word((sp + 20) as u32));
    assert(handled.read_word((sp + 24) as u32) == entered.read_word((sp + 24) as u32));
    assert(handled.read_word((sp + 28) as u32) == entered.read_word((sp + 28) as u32));
    let p1 = handled.pop(0);
    let p2 = p1.pop(1);
    let p3 = p2.pop(2);
    let p4 = p3.pop(3);
    let p5 = p4.pop(12);
    let p6 = p5.pop(LR_INDEX);
    let p7 = p6.pop(PC_INDEX);
    assert(p1.reg(SP_INDEX) == sp + 4 && p1.sram == handled.sram);
    assert(p2.reg(SP_INDEX) == sp + 8 && p2.sram == handled.sram);
    assert(p3.reg(SP_INDEX) == sp + 12 && p3.sram == handled.sram);
    assert(p4.reg(SP_INDEX) == sp + 16 && p4.sram == handled.sram);
    assert(p5.reg(SP_INDEX) == sp + 20 && p5.sram == handled.sram);
    assert(p6.reg(SP_INDEX) == sp + 24 && p6.sram == handled.sram);
    assert(p7.reg(SP_INDEX) == sp + 28 && p7.sram == handled.sram);
}

/// Whether `t` is `s` but for what lies on the stack below the stack
/// pointer of `s`, `depth` bytes deep.
pub open spec fn same_above_stack(s: Machine, t: Machine, depth: int) -> bool {
    &&& t == (Machine { sram: t.sram, ..s })
    &&& t.sram.len() == s.sram.len()
    &&& forall|a: int|
        s.reg(SP_INDEX) <= a < s.reg(SP_INDEX) + 0x8000 - depth ==> #[trigger] t.sram_byte(a)
            == s.sram_byte(a)
}

/// Popping a register list after the registers below `n` of the list have
/// been pushed takes those registers back off the stack and goes on with
/// the registers from `n` on, in a system that differs only below the
/// stack pointer.
#[verifier::rlimit(40)]
proof fn lemma_push_pop_lists(s: Machine, rlist: u8, n: u8) -> (t: Machine)
    requires
        s.wf(),
        n <= 8,
        SRAM_START_ADDR + 4 * n <= s.reg(SP_INDEX) <= PERIPHERAL_START_ADDR,
    ensures
        s.push_list(rlist, n).pop_list(rlist, 0) == t.pop_list(rlist, n),
        same_above_stack(s, t, 4 * n),
    decreases n,
{
    reveal(Machine::pop);
    if n == 0 {
        s
    } else {
        let i = (n - 1) as u8;
        let sp = s.reg(SP_INDEX);
        if in_list(rlist, i) {
            let value = s.reg(i);
            let s1 = s.push(value);
            lemma_push(s, value);
            lemma_push_bytes(s, value);
            let t1 = lemma_push_pop_lists(s1, rlist, i);
            assert(s.push_list(rlist, n) == s1.push_list(rlist, i));
            assert(t1.read_word((sp - 4) as u32) == s1.read_word((sp - 4) as u32)) by {
                assert(t1.sram_byte(sp - 4) == s1.sram_byte(sp - 4));
                assert(t1.sram_byte(sp - 3) == s1.sram_byte(sp - 3));
                assert(t1.sram_byte(sp - 2) == s1.sram_byte(sp - 2));
                assert(t1.sram_byte(sp - 1) == s1.sram_byte(sp - 1));
            }
            let t = t1.pop(i);
            assert(t.registers =~= s.registers);
            assert(t1.pop_list(rlist, i) == t.pop_list(rlist, n));
            assert forall|a: int| sp <= a < sp + 0x8000 - 4 * n implies #[trigger] t.sram_byte(a)
                == s.sram_byte(a) by {
                assert(t1.sram_byte(a) == s1.sram_byte(a));
                assert(s1.sram_byte(a) == s.sram_byte(a));
            }
            t
        } else {
            let t = lemma_push_pop_lists(s, rlist, i);
            assert(s.push_list(rlist, n) == s.push_list(rlist, i));
            assert(t.pop_list(rlist, i) == t.pop_list(rlist, n));
            t
        }
    }
}

/// A push of a register list followed at once by a pop of the same list
/// restores every register, the stack pointer among them, and leaves the
/// flags alone, where the stack lies in SRAM. Only SRAM below the stack
/// pointer may differ.
pub proof fn lemma_push_pop(m: Machine, rlist: u8)
    requires
        m.wf(),
        SRAM_START_ADDR + 32 <= m.reg(SP_INDEX) <= PERIPHERAL_START_ADDR,
    ensures
        same_above_stack(
            m,
            m.execute(Instruction::Push { rlist, lr: false }).execute(
                Instruction::Pop { rlist, pc: false },
            ),
            32,
        ),
        m.execute(Instruction::Push { rlist, lr: false }).execute(
            Instruction::Pop { rlist, pc: false },
        ).registers == m.registers,
        m.execute(Instruction::Push { rlist, lr: false }).execute(
            Instruction::Pop { rlist, pc: false },
        ).flags == m.flags,
{
    reveal(Machine::execute);
    let t = lemma_push_pop_lists(m, rlist, 8);
    assert(t.pop_list(rlist, 8) == t);
}

/// The pen stays inside a window whose start is not behind its end: once
/// it is inside, every pixel written leaves it inside. It moves right by
/// one, or from the last column to the first column of the next row, or
/// of the same row where that is the last. The framebuffer keeps its size
/// whatever is written.
pub proof fn lemma_pen_stays_in_window(d: Display, pixel: u32)
    requires
        d.pixels.len() == 20480,
        d.x_start <= d.x <= d.x_end,
        d.y <= d.y_end,
    ensures
        d.x_start <= d.put_pixel(pixel).x <= d.x_end,
        d.put_pixel(pixel).y <= d.y_end,
        d.x < d.x_end ==> d.put_pixel(pixel).x == d.x + 1 && d.put_pixel(pixel).y == d.y,
        d.x == d.x_end ==> d.put_pixel(pixel).x == d.x_start && d.put_pixel(pixel).y == (if d.y
            < d.y_end {
            d.y + 1
        } else {
            d.y_end as int
        }),
        d.put_pixel(pixel).pixels.len() == d.pixels.len(),
        d.put_pixel(pixel).x_start == d.x_start && d.put_pixel(pixel).x_end == d.x_end,
        d.put_pixel(pixel).y_start == d.y_start && d.put_pixel(pixel).y_end == d.y_end,
{
}

/// An image decodes to one record for each of its halfwords, and a
/// loaded program has one record for each halfword of its image.
pub proof fn lemma_decoded_count(m: Machine, contents: Seq<u8>, offset: u32, halfwords: int)
    requires
        halfwords >= 0,
    ensures
        m.decoded(halfwords).len() == halfwords,
        m.load_program(contents, offset).instructions.len() == contents.len() / 2,
{
}

/// A jump through a register continues at a halfword boundary, whatever
/// the register holds.
pub proof fn lemma_jump_is_aligned(m: Machine, target: u32)
    requires
        m.wf(),
    ensures
        m.jump(target).fetch_address() % 2 == 0,
        m.jump(target).fetch_address() == target & !1u32,
{
    assert((target & !1u32) % 2 == 0) by (bit_vector);
}

/// An exception return takes everything from the frame that the stack
/// pointer points at, whoever wrote it: R0, R1, R2, R3, R12, LR and R15
/// from its first seven words, the flags from the low four bits of its
/// eighth, and leaves the stack pointer behind the frame. Nothing else
/// changes.
#[verifier::rlimit(40)]
pub proof fn lemma_unwind_restores(m: Machine)
    requires
        m.wf(),
    ensures
        ({
            let sp = m.reg(SP_INDEX);
            let after = m.unwind_frame();
            &&& after.reg(0) == m.read_word(sp)
            &&& after.reg(1) == m.read_word(sp.wrapping_add(4))
            &&& after.reg(2) == m.read_word(sp.wrapping_add(8))
            &&& after.reg(3) == m.read_word(sp.wrapping_add(12))
            &&& after.reg(12) == m.read_word(sp.wrapping_add(16))
            &&& after.reg(LR_INDEX) == m.read_word(sp.wrapping_add(20))
            &&& after.reg(PC_INDEX) == m.read_word(sp.wrapping_add(24))
            &&& after.flags == CondRegister::of_word(m.read_word(sp.wrapping_add(28)))
            &&& after.reg(SP_INDEX) == sp.wrapping_add(32)
            &&& forall|r: u8|
                4 <= r < 12 ==> #[trigger] after.reg(r) == m.reg(r)
            &&& after == (Machine { registers: after.registers, flags: after.flags, ..m })
        }),
{
    reveal(Machine::pop);
    let sp = m.reg(SP_INDEX);
    let p1 = m.pop(0);
    let p2 = p1.pop(1);
    let p3 = p2.pop(2);
    let p4 = p3.pop(3);
    let p5 = p4.pop(12);
    let p6 = p5.pop(LR_INDEX);
    let p7 = p6.pop(PC_INDEX);
    assert(p1.reg(SP_INDEX) == sp.wrapping_add(4));
    assert(p2.reg(SP_INDEX) == sp.wrapping_add(8));
    assert(p3.reg(SP_INDEX) == sp.wrapping_add(12));
    assert(p4.reg(SP_INDEX) == sp.wrapping_add(16));
    assert(p5.reg(SP_INDEX) == sp.wrapping_add(20));
    assert(p6.reg(SP_INDEX) == sp.wrapping_add(24));
    assert(p7.reg(SP_INDEX) == sp.wrapping_add(28));
    assert(p1 == (Machine { registers: p1.registers, ..m }));
    assert(p2 == (Machine { registers: p2.registers, ..m }));
    assert(p3 == (Machine { registers: p3.registers, ..m }));
    assert(p4 == (Machine { registers: p4.registers, ..m }));
    assert(p5 == (Machine { registers: p5.registers, ..m }));
    assert(p6 == (Machine { registers: p6.registers, ..m }));
    assert(p7 == (Machine { registers: p7.registers, ..m }));
}

/// Every PC advance is one tick and brings SysTick one step nearer.
pub proof fn lemma_advance_counts(m: Machine)
    ensures
        m.advance_pc().counts_since(m, 1),
{
}

/// The SysTick exception is taken at the entry of a step exactly when
/// the countdown has run out and no exception of the DMA controller is
/// pending. Taking it starts the countdown again at 20000, of which the
/// entry itself uses one step.
pub proof fn lemma_systick_entry(m: Machine)
    ensures
        m.systick_due() <==> !m.dmac_interrupt && m.systick_trigger <= 0,
        !m.systick_due() && !m.dmac_interrupt ==> m.take_pending_exception() == m,
        m.systick_due() ==> m.take_pending_exception() == m.rearmed().enter_exception(
            m.systick_vector,
        ),
        m.systick_due() ==> m.rearmed().systick_trigger == 20000
            && m.take_pending_exception().systick_trigger == 19999,
{
    reveal(Machine::push);
    let r = Machine { systick_trigger: 20000, ..m };
    let s1 = r.push(r.flags.word());
    let s2 = s1.push(r.reg(PC_INDEX));
    let s3 = s2.push(r.reg(LR_INDEX));
    let s4 = s3.push(r.reg(12));
    let s5 = s4.push(r.reg(3));
    let s6 = s5.push(r.reg(2));
    let s7 = s6.push(r.reg(1));
    let s8 = s7.push(r.reg(0));
    assert(s1.systick_trigger == 20000);
    assert(s2.systick_trigger == 20000);
    assert(s3.systick_trigger == 20000);
    assert(s4.systick_trigger == 20000);
    assert(s5.systick_trigger == 20000);
    assert(s6.systick_trigger == 20000);
    assert(s7.systick_trigger == 20000);
    assert(s8.systick_trigger == 20000);
}

} // verus!
