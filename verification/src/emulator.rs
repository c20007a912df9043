//! The emulator: the system held in arrays and registers, and the
//! operations on it, each proved to do to the system what `Machine` says.

use vstd::prelude::*;
use crate::bits::{lemma_join_bytes, lemma_sign_bit, lemma_split_word};
use crate::input_output::{Buttons, St7735};
use crate::instruction::{
    is_long_branch,
    lemma_decode_long_branch,
    parse_instruction,
    Instruction,
    LR_INDEX,
    PC_INDEX,
    SP_INDEX,
};
use crate::machine::{
    add_with_carry,
    sram_index,
    Machine,
    ADC_INTFLAG_ADDR,
    ADC_RESRDY,
    ADC_RESULT_ADDR,
    DMAC_VECTOR_OFFSET,
    EXC_RETURN,
    EXC_RETURN_ADDR,
    FLASH_SIZE,
    NOISE_INCREMENT,
    NOISE_MULTIPLIER,
    PCLKSR_ADDR,
    PCLKSR_READY,
    PERIPHERAL_END_ADDR,
    PERIPHERAL_START_ADDR,
    RESET_LR,
    SRAM_SIZE,
    SRAM_START_ADDR,
    SYSTICK_COUNTDOWN,
    SYSTICK_VECTOR_OFFSET,
};
use crate::register::{CondRegister, DmacRegisters, Peripheral, PortRegisters, SercomRegisters};

verus! {

/// A decoded program: instruction records of which each names only
/// registers that exist.
pub struct Program {
    records: Vec<Instruction>,
}

impl View for Program {
    type V = Seq<Instruction>;

    closed spec fn view(&self) -> Seq<Instruction> {
        self.records@
    }
}

impl Program {
    #[verifier::type_invariant]
    spec fn well_formed(self) -> bool {
        forall|i: int| 0 <= i < self.records@.len() ==> (#[trigger] self.records@[i]).wf()
    }

    /// The program without any record.
    pub fn new() -> (program: Program)
        ensures
            program@ == Seq::<Instruction>::empty(),
    {
        Program { records: Vec::new() }
    }

    /// The program that holds the records given.
    pub fn from_records(records: Vec<Instruction>) -> (program: Program)
        requires
            forall|i: int| 0 <= i < records@.len() ==> (#[trigger] records@[i]).wf(),
        ensures
            program@ == records@,
    {
        Program { records }
    }

    /// The number of records.
    pub fn len(&self) -> (len: usize)
        ensures
            len == self@.len(),
    {
        self.records.len()
    }

    /// The record at `index`, or `NotImplemented` where the program has
    /// none there.
    pub fn fetch(&self, index: usize) -> (instruction: Instruction)
        ensures
            instruction.wf(),
            instruction == (if index < self@.len() {
                self@[index as int]
            } else {
                Instruction::NotImplemented
            }),
    {
        proof {
            use_type_invariant(self);
        }
        if index < self.records.len() {
            self.records[index]
        } else {
            Instruction::NotImplemented
        }
    }
}

/// The emulated console.
pub struct Gamebuino {
    instructions: Program,
    cond_reg: CondRegister,
    registers: [u32; 16],
    flash: [u8; 0x40000],
    sram: [u8; 0x8000],
    tick_count: u64,
    program_offset: u32,
    systick_vector: u32,
    systick_trigger: i32,
    dmac_vector: u32,
    dmac_interrupt: bool,
    dmac_registers: DmacRegisters,
    porta_registers: PortRegisters,
    portb_registers: PortRegisters,
    sercom4: SercomRegisters,
    sercom5: SercomRegisters,
    screen: St7735,
    buttons: Buttons,
    adc_noise: u32,
}

impl View for Gamebuino {
    type V = Machine;

    closed spec fn view(&self) -> Machine {
        Machine {
            instructions: self.instructions@,
            flags: self.cond_reg,
            registers: self.registers@,
            flash: self.flash@,
            sram: self.sram@,
            tick_count: self.tick_count,
            program_offset: self.program_offset,
            systick_vector: self.systick_vector,
            systick_trigger: self.systick_trigger,
            dmac_vector: self.dmac_vector,
            dmac_interrupt: self.dmac_interrupt,
            dmac: self.dmac_registers,
            porta: self.porta_registers,
            portb: self.portb_registers,
            sercom4: self.sercom4,
            sercom5: self.sercom5,
            screen: self.screen@,
            buttons: self.buttons,
            adc_noise: self.adc_noise,
        }
    }
}

/// PC advances add up.
proof fn lemma_counts_add(base: Machine, middle: Machine, end: Machine, i: int, j: int)
    requires
        0 <= i <= 3,
        0 <= j <= 3,
        middle.counts_since(base, i),
        end.counts_since(middle, j),
    ensures
        end.counts_since(base, i + j),
{
}

/// Ticks add up as long as the tick count does not come round to where it
/// started.
proof fn lemma_ticks_advance(first: u64, before: u64, d: u64)
    requires
        d <= 3,
        before.wrapping_sub(first) <= u64::MAX - 3,
    ensures
        before.wrapping_add(d).wrapping_sub(first) == before.wrapping_sub(first) + d,
{
}

impl Gamebuino {
    /// The sizes of the memories are part of the emulator's type.
    pub proof fn lemma_view_wf(&self)
        ensures
            self@.wf(),
    {
        self.screen.lemma_pixels_len();
    }

    /// The emulator as it starts out: memories erased, registers and flags
    /// clear, no program, a full SysTick countdown.
    pub fn new() -> (gamebuino: Gamebuino)
        ensures
            gamebuino@ == Machine::initial(),
    {
        let gamebuino = Gamebuino {
            instructions: Program::new(),
            cond_reg: CondRegister { n: false, z: false, v: false, c: false },
            registers: [0u32; 16],
            flash: [0xffu8; 0x40000],
            sram: [0xffu8; 0x8000],
            tick_count: 0,
            program_offset: 0,
            systick_vector: 0,
            systick_trigger: SYSTICK_COUNTDOWN,
            dmac_vector: 0,
            dmac_interrupt: false,
            dmac_registers: DmacRegisters::new(),
            porta_registers: PortRegisters::new(),
            portb_registers: PortRegisters::new(),
            sercom4: SercomRegisters::new(),
            sercom5: SercomRegisters::new(),
            screen: St7735::new(),
            buttons: Buttons::new(),
            adc_noise: 0,
        };
        proof {
            assert(gamebuino@.registers =~= Machine::initial().registers);
            assert(gamebuino@.flash =~= Machine::initial().flash);
            assert(gamebuino@.sram =~= Machine::initial().sram);
        }
        gamebuino
    }

    /// The value of register `i`.
    pub fn get_register(&self, i: usize) -> (value: u32)
        requires
            i < 16,
        ensures
            value == self@.registers[i as int],
    {
        self.registers[i]
    }

    /// The tick count, of which the host sees the low 32 bits.
    pub fn get_tick_count(&self) -> (ticks: u32)
        ensures
            ticks == self@.tick_count % 0x1_0000_0000,
    {
        (self.tick_count % 0x1_0000_0000) as u32
    }

    /// The number of records of the decoded program: one for each
    /// halfword of the image that was loaded.
    pub fn instruction_count(&self) -> (count: usize)
        ensures
            count == self@.instructions.len(),
    {
        self.instructions.len()
    }

    /// The condition flags.
    pub fn flags(&self) -> (flags: CondRegister)
        ensures
            flags == self@.flags,
    {
        self.cond_reg
    }

    /// Number of PC advances left until the next SysTick exception is due.
    pub fn systick_trigger(&self) -> (left: i32)
        ensures
            left == self@.systick_trigger,
    {
        self.systick_trigger
    }

    /// Whether the DMA controller's exception is pending.
    pub fn dmac_pending(&self) -> (pending: bool)
        ensures
            pending == self@.dmac_interrupt,
    {
        self.dmac_interrupt
    }

    /// Seeds the generator of the noise that the ADC's result register
    /// reads. The same seed gives the same samples.
    pub fn seed_adc(&mut self, seed: u32)
        ensures
            final(self)@ == (Machine { adc_noise: seed, ..old(self)@ }),
    {
        self.adc_noise = seed;
    }

    /// The framebuffer: 20480 pixels in row-major order, each with red in
    /// its low byte, then green, blue and alpha.
    pub fn screen_data(&self) -> (pixels: &[u32; 20480])
        ensures
            pixels@ == self@.screen.pixels,
    {
        self.screen.image_pointer()
    }

    // ----------------------------------------------------------------
    // Loading
    // ----------------------------------------------------------------
    /// Copies `contents` into flash at `offset`, which becomes the
    /// program offset.
    #[verifier::rlimit(40)]
    fn copy_image(&mut self, contents: &[u8], offset: u32)
        requires
            offset + contents@.len() <= FLASH_SIZE,
        ensures
            final(self)@ == old(self)@.with_image(contents@, offset),
    {
        proof {
            self.lemma_view_wf();
        }
        self.program_offset = offset;
        let mut i: usize = 0;
        while i < contents.len()
            invariant
                i <= contents@.len(),
                offset + contents@.len() <= FLASH_SIZE,
                self@.flash.len() == FLASH_SIZE,
                self@ == (Machine { program_offset: offset, flash: self@.flash, ..old(self)@ }),
                forall|j: int|
                    0 <= j < FLASH_SIZE ==> #[trigger] self@.flash[j] == (if offset <= j < offset + i {
                        contents@[j - offset]
                    } else {
                        old(self)@.flash[j]
                    }),
            decreases contents@.len() - i,
        {
            self.flash[i + offset as usize] = contents[i];
            i += 1;
        }
        assert(self@.flash =~= old(self)@.with_image(contents@, offset).flash);
    }

    /// Decodes the first `halfwords` halfwords of the image at the
    /// program offset.
    #[verifier::rlimit(40)]
    fn decode_image(&self, halfwords: usize) -> (decoded: Vec<Instruction>)
        requires
            self@.program_offset + 2 * halfwords <= FLASH_SIZE,
        ensures
            decoded@ == self@.decoded(halfwords as int),
            forall|j: int| 0 <= j < decoded@.len() ==> (#[trigger] decoded@[j]).wf(),
    {
        let ghost loaded = self@;
        let offset = self.program_offset;
        let mut decoded: Vec<Instruction> = Vec::new();
        let mut k: usize = 0;
        while k < halfwords
            invariant
                self@ == loaded,
                loaded.program_offset == offset,
                offset + 2 * halfwords <= FLASH_SIZE,
                k <= halfwords,
                decoded@.len() == k,
                forall|j: int| 0 <= j < k ==> (#[trigger] decoded@[j]).wf(),
                forall|j: int| 0 <= j < k ==> #[trigger] decoded@[j] == loaded.decoded_record(j),
                0 < k < halfwords ==> !is_long_branch(
                    loaded.image_halfword(k - 1),
                    loaded.image_halfword(k as int),
                ),
            decreases halfwords - k,
        {
            let instruction = self.memory_half_word(offset + (k as u32) * 2);
            let following_instruction = self.memory_half_word(offset + (k as u32 + 1) * 2);
            let parsed = parse_instruction(instruction, following_instruction);
            proof {
                lemma_decode_long_branch(instruction, following_instruction);
                assert(instruction == loaded.image_halfword(k as int));
                assert(following_instruction == loaded.image_halfword(k + 1));
            }
            decoded.push(parsed);
            k += 1;
            if let Instruction::Bl { offset1, offset2, first: _ } = parsed {
                if k < halfwords {
                    decoded.push(Instruction::Bl { offset1, offset2, first: false });
                    k += 1;
                }
            }
        }
        assert(decoded@ =~= loaded.decoded(halfwords as int));
        decoded
    }

    /// Copies the program image `contents` into flash at `offset`, decodes
    /// it and resets the processor.
    pub fn load_program(&mut self, contents: &[u8], offset: u32)
        requires
            offset + contents@.len() <= FLASH_SIZE,
        ensures
            final(self)@ == old(self)@.load_program(contents@, offset),
            final(self)@.instructions.len() == contents@.len() / 2,
    {
        self.copy_image(contents, offset);
        let decoded = self.decode_image(contents.len() / 2);
        self.instructions = Program::from_records(decoded);
        self.reset();
    }

    /// Resets the processor from the vector table at the program offset.
    fn reset(&mut self)
        ensures
            final(self)@ == old(self)@.reset(),
    {
        let sp = self.fetch_word(self.program_offset);
        self.set_register(SP_INDEX, sp);
        self.set_register(LR_INDEX, RESET_LR);
        let pc = self.fetch_word(self.program_offset.wrapping_add(4)) & !1u32;
        self.set_register(PC_INDEX, pc);
        self.increment_pc();
        self.systick_vector = self.fetch_word(self.program_offset.wrapping_add(SYSTICK_VECTOR_OFFSET))
            & !1u32;
        self.dmac_vector = self.fetch_word(self.program_offset.wrapping_add(DMAC_VECTOR_OFFSET))
            & !1u32;
    }

    // ----------------------------------------------------------------
    // Stepping
    // ----------------------------------------------------------------
    /// Pushes the exception frame and enters the handler at `vector`.
    #[verifier::rlimit(40)]
    fn enter_exception(&mut self, vector: u32)
        ensures
            final(self)@ == old(self)@.enter_exception(vector),
            final(self)@.counts_since(old(self)@, 1),
    {
        let flags = self.cond_reg.to_word();
        let pc = self.read_register(PC_INDEX);
        let lr = self.read_register(LR_INDEX);
        let r12 = self.read_register(12);
        let r3 = self.read_register(3);
        let r2 = self.read_register(2);
        let r1 = self.read_register(1);
        let r0 = self.read_register(0);
        self.push_stack(flags);
        self.push_stack(pc);
        self.push_stack(lr);
        self.push_stack(r12);
        self.push_stack(r3);
        self.push_stack(r2);
        self.push_stack(r1);
        self.push_stack(r0);
        self.set_register(PC_INDEX, vector);
        self.set_register(LR_INDEX, EXC_RETURN);
        self.increment_pc();
    }

    /// Returns from an exception: pops the frame that the entry pushed.
    #[verifier::rlimit(40)]
    fn unwind_frame(&mut self)
        ensures
            final(self)@ == old(self)@.unwind_frame(),
            final(self)@.counts_since(old(self)@, 0),
    {
        self.pop_stack(0);
        self.pop_stack(1);
        self.pop_stack(2);
        self.pop_stack(3);
        self.pop_stack(12);
        self.pop_stack(LR_INDEX);
        self.pop_stack(PC_INDEX);
        let cnvz = self.fetch_word(self.read_register(SP_INDEX));
        let mut flags = self.cond_reg;
        flags.from_word(cnvz);
        self.cond_reg = flags;
        let sp = self.read_register(SP_INDEX).wrapping_add(4);
        self.set_register(SP_INDEX, sp);
    }

    /// Advances the system by one instruction: takes a pending exception,
    /// makes the exception returns that are due, then fetches and executes
    /// one instruction. Between one and three ticks pass.
    #[verifier::rlimit(40)]
    pub fn step(&mut self)
        ensures
            final(self)@ == old(self)@.step(),
            exists|d: u64|
                1 <= d <= 3 && final(self)@.tick_count == old(self)@.tick_count.wrapping_add(d),
    {
        proof {
            reveal(Machine::step);
        }
        if self.dmac_interrupt {
            self.dmac_interrupt = false;
            self.enter_exception(self.dmac_vector);
        } else if self.systick_trigger <= 0 {
            self.systick_trigger = SYSTICK_COUNTDOWN;
            self.enter_exception(self.systick_vector);
        }
        let ghost entered = self@;
        let mut addr = self.read_register(PC_INDEX).wrapping_sub(2);
        proof {
            self.lemma_view_wf();
        }
        while addr == EXC_RETURN_ADDR
            invariant
                self@.wf(),
                addr == self@.fetch_address(),
                self@.unwind() == entered.unwind(),
                self@.counts_since(entered, 0),
            decreases self@.unwind_bound(),
        {
            proof {
                self@.lemma_unwind_frame();
            }
            self.unwind_frame();
            addr = self.read_register(PC_INDEX).wrapping_sub(2);
        }
        let index = addr.wrapping_sub(self.program_offset) / 2;
        let instruction = self.instructions.fetch(index as usize);
        let ghost fetched = self@;
        self.increment_pc();
        let ghost advanced = self@;
        self.execute_instruction(instruction);
        proof {
            let base = old(self)@.rearmed();
            let d: int = if entered.counts_since(base, 0) {
                0
            } else {
                1
            };
            let e: int = if final(self)@.counts_since(advanced, 0) {
                0
            } else {
                1
            };
            assert(entered.counts_since(base, d));
            assert(advanced.counts_since(fetched, 1));
            lemma_counts_add(base, entered, fetched, d, 0);
            lemma_counts_add(base, fetched, advanced, d, 1);
            lemma_counts_add(base, advanced, final(self)@, d + 1, e);
        }
    }

    /// Sets the button byte, then steps until `steps` ticks have passed.
    /// The run ends with the first step after which that many ticks have
    /// passed.
    #[verifier::rlimit(40)]
    pub fn run(&mut self, steps: usize, button_data: u8)
        requires
            steps <= u64::MAX - 3,
        ensures
            old(self)@.with_buttons(button_data).runs_to(steps as u64, final(self)@),
    {
        self.buttons.button_data = button_data;
        let ghost start = self@;
        let ghost mut n: nat = 0;
        let first_tick = self.tick_count;
        while self.tick_count.wrapping_sub(first_tick) < steps as u64
            invariant
                steps <= u64::MAX - 3,
                first_tick == start.tick_count,
                self@ == start.steps(n),
                forall|k: nat| k < n ==> (#[trigger] start.steps(k)).ticks_since(first_tick) < steps,
            decreases
                    if self@.ticks_since(first_tick) < steps {
                        steps - self@.ticks_since(first_tick)
                    } else {
                        0
                    },
        {
            let ghost before = self@;
            self.step();
            proof {
                n = n + 1;
                let d: u64 = if self@.counts_since(before.rearmed(), 1) {
                    1
                } else if self@.counts_since(before.rearmed(), 2) {
                    2
                } else {
                    3
                };
                lemma_ticks_advance(first_tick, before.tick_count, d);
            }
        }
        assert(start.run_ends_after(steps as u64, n));
        assert(self@ == start.steps(n));
    }

    // ----------------------------------------------------------------
    // Registers, flags and stack
    // ----------------------------------------------------------------
    /// Advances R15 by one instruction, counting the tick.
    fn increment_pc(&mut self)
        ensures
            final(self)@ == old(self)@.advance_pc(),
    {
        self.tick_count = self.tick_count.wrapping_add(1);
        self.systick_trigger = self.systick_trigger.wrapping_sub(1);
        self.registers[PC_INDEX as usize] = self.registers[PC_INDEX as usize].wrapping_add(2);
    }

    /// Pushes a word onto the stack.
    fn push_stack(&mut self, value: u32)
        ensures
            final(self)@ == old(self)@.push(value),
            final(self)@.counts_since(old(self)@, 0),
    {
        proof {
            reveal(Machine::push);
        }
        let sp = self.read_register(SP_INDEX).wrapping_sub(4);
        self.set_register(SP_INDEX, sp);
        self.write_word(sp, value);
    }

    /// Pops a word off the stack into a register.
    fn pop_stack(&mut self, register: u8)
        requires
            register < 16,
        ensures
            final(self)@ == old(self)@.pop(register),
            final(self)@.counts_since(old(self)@, 0),
    {
        proof {
            reveal(Machine::pop);
        }
        let value = self.fetch_word(self.read_register(SP_INDEX));
        self.set_register(register, value);
        let sp = self.read_register(SP_INDEX).wrapping_add(4);
        self.set_register(SP_INDEX, sp);
    }

    /// The value of a register.
    pub fn read_register(&self, register: u8) -> (value: u32)
        requires
            register < 16,
        ensures
            value == self@.reg(register),
    {
        self.registers[register as usize]
    }

    /// Sets a register.
    pub fn set_register(&mut self, register: u8, value: u32)
        requires
            register < 16,
        ensures
            final(self)@ == old(self)@.set_reg(register, value),
    {
        self.registers[register as usize] = value;
    }

    /// Sets N and Z from a result.
    fn set_nz(&mut self, value: u32)
        ensures
            final(self)@ == old(self)@.with_nz(value),
    {
        proof {
            lemma_sign_bit(value);
        }
        self.cond_reg.n = (value & 0x8000_0000) != 0;
        self.cond_reg.z = value == 0;
    }

    /// Adds `n1`, `n2` and the carry, and sets all four flags from the
    /// sum.
    fn add_and_set_condition(&mut self, n1: u32, n2: u32, carry: bool) -> (result: u32)
        ensures
            result == add_with_carry(n1, n2, carry).0,
            final(self)@ == old(self)@.compare(n1, n2, carry),
    {
        let partial = n1.wrapping_add(n2);
        let overflow1 = partial < n1;
        let result = partial.wrapping_add(if carry { 1 } else { 0 });
        let overflow2 = result < partial;
        proof {
            lemma_sign_bit(n1);
            lemma_sign_bit(n2);
            lemma_sign_bit(result);
        }
        self.cond_reg.c = overflow1 || overflow2;
        self.cond_reg.z = result == 0;
        self.cond_reg.n = (result & 0x8000_0000) != 0;
        self.cond_reg.v = ((n1 & 0x8000_0000) == (n2 & 0x8000_0000)) && ((n1 & 0x8000_0000) != (
        result & 0x8000_0000));
        result
    }

    /// Makes the DMA controller's exception pending.
    pub fn dmac_interrupt(&mut self)
        ensures
            final(self)@ == (Machine { dmac_interrupt: true, ..old(self)@ }),
    {
        self.dmac_interrupt = true;
    }

    // ----------------------------------------------------------------
    // Bus
    // ----------------------------------------------------------------
    /// Byte `k` behind `address`, which lies below the SRAM window.
    fn flash_at(&self, address: u32, k: u32) -> (byte: u8)
        requires
            address < SRAM_START_ADDR,
            k < 4,
        ensures
            byte == self@.flash_byte(address + k),
    {
        if address as usize + k as usize >= FLASH_SIZE {
            0
        } else {
            self.flash[address as usize + k as usize]
        }
    }

    /// The position in SRAM of byte `k` behind `address`, which lies in
    /// the SRAM window.
    fn sram_position(address: u32, k: u32) -> (index: usize)
        requires
            SRAM_START_ADDR <= address < PERIPHERAL_START_ADDR,
            k < 4,
        ensures
            index == sram_index(address + k),
            index < SRAM_SIZE,
    {
        ((address - SRAM_START_ADDR) as usize + k as usize) % SRAM_SIZE
    }

    /// Reads a word from the bus.
    pub fn fetch_word(&self, address: u32) -> (value: u32)
        ensures
            value == self@.read_word(address),
    {
        if address < SRAM_START_ADDR {
            let b0 = self.flash_at(address, 0);
            let b1 = self.flash_at(address, 1);
            let b2 = self.flash_at(address, 2);
            let b3 = self.flash_at(address, 3);
            proof {
                lemma_join_bytes(b0, b1, b2, b3);
            }
            (b0 as u32) | (b1 as u32) << 8 | (b2 as u32) << 16 | (b3 as u32) << 24
        } else if address < PERIPHERAL_START_ADDR {
            let b0 = self.sram[Self::sram_position(address, 0)];
            let b1 = self.sram[Self::sram_position(address, 1)];
            let b2 = self.sram[Self::sram_position(address, 2)];
            let b3 = self.sram[Self::sram_position(address, 3)];
            proof {
                lemma_join_bytes(b0, b1, b2, b3);
            }
            (b0 as u32) | (b1 as u32) << 8 | (b2 as u32) << 16 | (b3 as u32) << 24
        } else if address < PERIPHERAL_END_ADDR {
            if address == PCLKSR_ADDR {
                PCLKSR_READY
            } else if address >= DmacRegisters::DMAC_START_ADDR && address
                <= DmacRegisters::DMAC_END_ADDR {
                self.dmac_registers.handle_read_word(address - DmacRegisters::DMAC_START_ADDR)
            } else if address >= PortRegisters::PORTA_START_ADDR && address
                <= PortRegisters::PORTA_END_ADDR {
                self.porta_registers.handle_read_word(address - PortRegisters::PORTA_START_ADDR)
            } else if address >= PortRegisters::PORTB_START_ADDR && address
                <= PortRegisters::PORTB_END_ADDR {
                self.portb_registers.handle_read_word(address - PortRegisters::PORTB_START_ADDR)
            } else if address >= SercomRegisters::SERCOM4_START_ADDR && address
                <= SercomRegisters::SERCOM4_END_ADDR {
                self.sercom4.handle_read_word(address - SercomRegisters::SERCOM4_START_ADDR)
            } else if address >= SercomRegisters::SERCOM5_START_ADDR && address
                <= SercomRegisters::SERCOM5_END_ADDR {
                self.sercom5.handle_read_word(address - SercomRegisters::SERCOM5_START_ADDR)
            } else {
                0
            }
        } else {
            0
        }
    }

    /// Reads a halfword from the bus. A read of the ADC's result register
    /// draws a fresh sample of noise.
    pub fn fetch_half_word(&mut self, address: u32) -> (value: u16)
        ensures
            value == old(self)@.read_half(address),
            final(self)@ == old(self)@.after_read_half(address),
    {
        if address == ADC_RESULT_ADDR {
            self.adc_noise = self.adc_noise.wrapping_mul(NOISE_MULTIPLIER).wrapping_add(
                NOISE_INCREMENT,
            );
            (self.adc_noise / 0x1_0000) as u16
        } else {
            self.memory_half_word(address)
        }
    }

    /// Reads a halfword from memory: every address but the ADC's result
    /// register.
    fn memory_half_word(&self, address: u32) -> (value: u16)
        requires
            address != ADC_RESULT_ADDR,
        ensures
            value == self@.read_half(address),
    {
        if address < SRAM_START_ADDR {
            let b0 = self.flash_at(address, 0);
            let b1 = self.flash_at(address, 1);
            proof {
                lemma_join_bytes(b0, b1, 0, 0);
            }
            (b0 as u16) | (b1 as u16) << 8
        } else if address < PERIPHERAL_START_ADDR {
            let b0 = self.sram[Self::sram_position(address, 0)];
            let b1 = self.sram[Self::sram_position(address, 1)];
            proof {
                lemma_join_bytes(b0, b1, 0, 0);
            }
            (b0 as u16) | (b1 as u16) << 8
        } else {
            0
        }
    }

    /// Reads a byte from the bus.
    pub fn fetch_byte(&self, address: u32) -> (value: u8)
        ensures
            value == self@.read_byte(address),
    {
        if address < SRAM_START_ADDR {
            self.flash_at(address, 0)
        } else if address < PERIPHERAL_START_ADDR {
            self.sram[Self::sram_position(address, 0)]
        } else if address < PERIPHERAL_END_ADDR {
            if address == ADC_INTFLAG_ADDR {
                ADC_RESRDY
            } else if address >= DmacRegisters::DMAC_START_ADDR && address
                <= DmacRegisters::DMAC_END_ADDR {
                self.dmac_registers.handle_read_byte(address - DmacRegisters::DMAC_START_ADDR)
            } else if address >= SercomRegisters::SERCOM4_START_ADDR && address
                <= SercomRegisters::SERCOM4_END_ADDR {
                self.sercom4.handle_read_byte(address - SercomRegisters::SERCOM4_START_ADDR)
            } else if address >= SercomRegisters::SERCOM5_START_ADDR && address
                <= SercomRegisters::SERCOM5_END_ADDR {
                self.sercom5.handle_read_byte(address - SercomRegisters::SERCOM5_START_ADDR)
            } else {
                0
            }
        } else {
            0
        }
    }

    /// Stores byte `k` behind `address`, which lies in the SRAM window.
    fn set_sram(&mut self, address: u32, k: u32, value: u8)
        requires
            SRAM_START_ADDR <= address < PERIPHERAL_START_ADDR,
            k < 4,
        ensures
            final(self)@ == old(self)@.with_sram_byte(address + k, value),
    {
        self.sram[Self::sram_position(address, k)] = value;
    }

    /// Hands the byte that serial port 4 has sent to the display and to
    /// the button shifter.
    fn deliver_sercom4(&mut self)
        ensures
            final(self)@ == old(self)@.deliver_sercom4(),
    {
        if let Some(value) = self.sercom4.sent {
            let porta = self.porta_registers;
            let portb = self.portb_registers;
            self.screen.byte_received(value, &porta, &portb);
            let mut sercom4 = self.sercom4;
            self.buttons.byte_received(value, &portb, &mut sercom4);
            self.sercom4 = sercom4;
        }
        self.sercom4.sent = None;
    }

    /// Writes a word to the bus.
    #[verifier::rlimit(40)]
    pub fn write_word(&mut self, address: u32, value: u32)
        ensures
            final(self)@ == old(self)@.write_word(address, value),
            final(self)@.counts_since(old(self)@, 0),
    {
        if address < SRAM_START_ADDR {
        } else if address < PERIPHERAL_START_ADDR {
            proof {
                lemma_split_word(value);
            }
            self.set_sram(address, 0, (value & 0xff) as u8);
            self.set_sram(address, 1, ((value >> 8) & 0xff) as u8);
            self.set_sram(address, 2, ((value >> 16) & 0xff) as u8);
            self.set_sram(address, 3, ((value >> 24) & 0xff) as u8);
        } else if address < PERIPHERAL_END_ADDR {
            if address >= DmacRegisters::DMAC_START_ADDR && address <= DmacRegisters::DMAC_END_ADDR {
                let mut copied = self.dmac_registers;
                copied.handle_write_word(address - DmacRegisters::DMAC_START_ADDR, value, self);
                self.dmac_registers = copied;
            } else if address >= PortRegisters::PORTA_START_ADDR && address
                <= PortRegisters::PORTA_END_ADDR {
                let mut copied = self.porta_registers;
                copied.handle_write_word(address - PortRegisters::PORTA_START_ADDR, value, self);
                self.porta_registers = copied;
            } else if address >= PortRegisters::PORTB_START_ADDR && address
                <= PortRegisters::PORTB_END_ADDR {
                let mut copied = self.portb_registers;
                copied.handle_write_word(address - PortRegisters::PORTB_START_ADDR, value, self);
                self.portb_registers = copied;
            } else if address >= SercomRegisters::SERCOM4_START_ADDR && address
                <= SercomRegisters::SERCOM4_END_ADDR {
                let mut copied = self.sercom4;
                copied.handle_write_word(address - SercomRegisters::SERCOM4_START_ADDR, value, self);
                self.sercom4 = copied;
                self.deliver_sercom4();
            } else if address >= SercomRegisters::SERCOM5_START_ADDR && address
                <= SercomRegisters::SERCOM5_END_ADDR {
                let mut copied = self.sercom5;
                copied.handle_write_word(address - SercomRegisters::SERCOM5_START_ADDR, value, self);
                self.sercom5 = copied;
                self.sercom5.sent = None;
            }
        }
    }

    /// Writes the low halfword of `value` to the bus.
    pub fn write_half_word(&mut self, address: u32, value: u32)
        ensures
            final(self)@ == old(self)@.write_half(address, value),
            final(self)@.counts_since(old(self)@, 0),
    {
        if address >= SRAM_START_ADDR && address < PERIPHERAL_START_ADDR {
            proof {
                lemma_split_word(value);
            }
            self.set_sram(address, 0, (value & 0xff) as u8);
            self.set_sram(address, 1, ((value >> 8) & 0xff) as u8);
        }
    }

    /// Stores a byte on behalf of the DMA controller: like `write_byte`,
    /// but a store into the controller's own window is dropped.
    #[verifier::rlimit(40)]
    pub fn dma_store_byte(&mut self, address: u32, value: u8)
        ensures
            final(self)@ == old(self)@.dma_store_byte(address, value),
            final(self)@.counts_since(old(self)@, 0),
    {
        if address < SRAM_START_ADDR {
        } else if address < PERIPHERAL_START_ADDR {
            self.set_sram(address, 0, value);
        } else if address < PERIPHERAL_END_ADDR {
            if address >= SercomRegisters::SERCOM4_START_ADDR && address
                <= SercomRegisters::SERCOM4_END_ADDR {
                let mut copied = self.sercom4;
                copied.handle_write_byte(address - SercomRegisters::SERCOM4_START_ADDR, value, self);
                self.sercom4 = copied;
                self.deliver_sercom4();
            } else if address >= SercomRegisters::SERCOM5_START_ADDR && address
                <= SercomRegisters::SERCOM5_END_ADDR {
                let mut copied = self.sercom5;
                copied.handle_write_byte(address - SercomRegisters::SERCOM5_START_ADDR, value, self);
                self.sercom5 = copied;
                self.sercom5.sent = None;
            }
        }
    }

    /// Writes the low byte of `value` to the bus.
    #[verifier::rlimit(40)]
    pub fn write_byte(&mut self, address: u32, value: u32)
        ensures
            final(self)@ == old(self)@.write_byte(address, value),
            final(self)@.counts_since(old(self)@, 0),
    {
        proof {
            lemma_split_word(value);
        }
        let byte = (value & 0xff) as u8;
        if address >= DmacRegisters::DMAC_START_ADDR && address <= DmacRegisters::DMAC_END_ADDR {
            let mut copied = self.dmac_registers;
            copied.handle_write_byte(address - DmacRegisters::DMAC_START_ADDR, byte, self);
            self.dmac_registers = copied;
        } else {
            self.dma_store_byte(address, byte);
        }
    }

    // ----------------------------------------------------------------
    // Interpreter
    // ----------------------------------------------------------------
    fn add_into(&mut self, rd: u8, a: u32, b: u32, carry: bool)
        requires
            rd < 16,
        ensures
            final(self)@ == old(self)@.add_into(rd, a, b, carry),
    {
        let result = self.add_and_set_condition(a, b, carry);
        self.set_register(rd, result);
    }

    fn logical(&mut self, rd: u8, result: u32)
        requires
            rd < 16,
        ensures
            final(self)@ == old(self)@.logical(rd, result),
    {
        self.set_register(rd, result);
        self.set_nz(result);
    }

    fn shift_left(&mut self, rd: u8, source: u32, amount: u32)
        requires
            rd < 16,
        ensures
            final(self)@ == old(self)@.shift_left(rd, source, amount),
    {
        let result = source.wrapping_shl(amount);
        self.set_register(rd, result);
        self.cond_reg.c = source & 1u32.wrapping_shl(amount) != 0;
        self.set_nz(result);
    }

    fn shift_right(&mut self, rd: u8, source: u32, amount: u32)
        requires
            rd < 16,
        ensures
            final(self)@ == old(self)@.shift_right(rd, source, amount),
    {
        let result = source.wrapping_shr(amount);
        self.set_register(rd, result);
        self.cond_reg.c = source & 1u32.wrapping_shl(32u32.wrapping_sub(amount)) != 0;
        self.set_nz(result);
    }

    fn shift_right_signed(&mut self, rd: u8, source: u32, amount: u32)
        requires
            rd < 16,
        ensures
            final(self)@ == old(self)@.shift_right_signed(rd, source, amount),
    {
        let result = (source as i32).wrapping_shr(amount) as u32;
        self.set_register(rd, result);
        self.cond_reg.c = source & 1u32.wrapping_shl(amount.wrapping_sub(1)) != 0;
        self.set_nz(result);
    }

    fn shift_amount(&self, rs: u8) -> (amount: u32)
        requires
            rs < 16,
        ensures
            amount == self@.shift_amount(rs),
    {
        self.read_register(rs) % 0x100
    }

    fn branch(&mut self, offset: u32)
        ensures
            final(self)@ == old(self)@.branch(offset),
    {
        let target = self.read_register(PC_INDEX).wrapping_add(offset);
        self.set_register(PC_INDEX, target);
        self.increment_pc();
    }

    fn branch_if(&mut self, taken: bool, offset: u32)
        ensures
            final(self)@ == old(self)@.branch_if(taken, offset),
    {
        if taken {
            self.branch(offset);
        }
    }

    fn jump(&mut self, target: u32)
        ensures
            final(self)@ == old(self)@.jump(target),
    {
        self.set_register(PC_INDEX, target & !1u32);
        self.increment_pc();
    }

    fn load_multiple(&mut self, rb: u8, rlist: u8)
        requires
            rb < 16,
        ensures
            final(self)@ == old(self)@.load_multiple(rlist, 0, old(self)@.reg(rb)).0.set_reg(
                rb,
                old(self)@.load_multiple(rlist, 0, old(self)@.reg(rb)).1,
            ),
            final(self)@.counts_since(old(self)@, 0),
    {
        let mut addr = self.read_register(rb);
        let ghost start = addr;
        let mut i: u8 = 0;
        while i < 8
            invariant
                i <= 8,
                self@.load_multiple(rlist, i, addr) == old(self)@.load_multiple(rlist, 0, start),
                self@.counts_since(old(self)@, 0),
            decreases 8 - i,
        {
            if rlist & (1u8 << i) != 0 {
                let value = self.fetch_word(addr);
                self.set_register(i, value);
                addr = addr.wrapping_add(4);
            }
            i += 1;
        }
        self.set_register(rb, addr);
    }

    fn store_multiple(&mut self, rb: u8, rlist: u8)
        requires
            rb < 16,
        ensures
            final(self)@ == old(self)@.store_multiple(rlist, 0, old(self)@.reg(rb)).0.set_reg(
                rb,
                old(self)@.store_multiple(rlist, 0, old(self)@.reg(rb)).1,
            ),
            final(self)@.counts_since(old(self)@, 0),
    {
        let mut addr = self.read_register(rb);
        let ghost start = addr;
        let mut i: u8 = 0;
        while i < 8
            invariant
                i <= 8,
                self@.store_multiple(rlist, i, addr) == old(self)@.store_multiple(rlist, 0, start),
                self@.counts_since(old(self)@, 0),
            decreases 8 - i,
        {
            if rlist & (1u8 << i) != 0 {
                let value = self.read_register(i);
                self.write_word(addr, value);
                addr = addr.wrapping_add(4);
            }
            i += 1;
        }
        self.set_register(rb, addr);
    }

    fn push_list(&mut self, rlist: u8)
        ensures
            final(self)@ == old(self)@.push_list(rlist, 8),
            final(self)@.counts_since(old(self)@, 0),
    {
        let mut n: u8 = 8;
        while n > 0
            invariant
                n <= 8,
                self@.push_list(rlist, n) == old(self)@.push_list(rlist, 8),
                self@.counts_since(old(self)@, 0),
            decreases n,
        {
            let i = n - 1;
            if rlist & (1u8 << i) != 0 {
                let value = self.read_register(i);
                self.push_stack(value);
            }
            n -= 1;
        }
    }

    fn pop_list(&mut self, rlist: u8)
        ensures
            final(self)@ == old(self)@.pop_list(rlist, 0),
            final(self)@.counts_since(old(self)@, 0),
    {
        let mut i: u8 = 0;
        while i < 8
            invariant
                i <= 8,
                self@.pop_list(rlist, i) == old(self)@.pop_list(rlist, 0),
                self@.counts_since(old(self)@, 0),
            decreases 8 - i,
        {
            if rlist & (1u8 << i) != 0 {
                self.pop_stack(i);
            }
            i += 1;
        }
    }

    /// Executes one instruction. R15 has already advanced past it. At
    /// most one more tick passes.
    pub fn execute_instruction(&mut self, instruction: Instruction)
        requires
            instruction.wf(),
        ensures
            final(self)@ == old(self)@.execute(instruction),
            final(self)@.counts_since(old(self)@, 0) || final(self)@.counts_since(old(self)@, 1),
    {
        match instruction {
            Instruction::LslImm { .. }
            | Instruction::LslReg { .. }
            | Instruction::LsrImm { .. }
            | Instruction::LsrReg { .. }
            | Instruction::AsrImm { .. }
            | Instruction::AsrReg { .. }
            | Instruction::AddReg { .. }
            | Instruction::AddImm { .. }
            | Instruction::AddSp { .. }
            | Instruction::AddPc { .. }
            | Instruction::Adc { .. }
            | Instruction::SubReg { .. }
            | Instruction::SubImm { .. }
            | Instruction::Sbc { .. }
            | Instruction::Neg { .. }
            | Instruction::Mul { .. }
            | Instruction::CmpImm { .. }
            | Instruction::CmpReg { .. }
            | Instruction::Cmn { .. } => self.execute_arithmetic(instruction),
            Instruction::MovImm { .. }
            | Instruction::MovReg { .. }
            | Instruction::Mvn { .. }
            | Instruction::Tst { .. }
            | Instruction::And { .. }
            | Instruction::Bic { .. }
            | Instruction::Eor { .. }
            | Instruction::Oor { .. }
            | Instruction::Sxth { .. }
            | Instruction::Sxtb { .. }
            | Instruction::Uxth { .. }
            | Instruction::Uxtb { .. }
            | Instruction::Rev { .. }
            | Instruction::Rev16 { .. } => self.execute_logical(instruction),
            Instruction::LdrPc { .. }
            | Instruction::LdrReg { .. }
            | Instruction::LdrbReg { .. }
            | Instruction::LdrImm { .. }
            | Instruction::LdrbImm { .. }
            | Instruction::Ldsb { .. }
            | Instruction::LdrhReg { .. }
            | Instruction::LdrhImm { .. }
            | Instruction::Ldsh { .. }
            | Instruction::Ldmia { .. }
            | Instruction::Pop { .. } => self.execute_load(instruction),
            Instruction::StrReg { .. }
            | Instruction::StrbReg { .. }
            | Instruction::StrImm { .. }
            | Instruction::StrbImm { .. }
            | Instruction::StrhReg { .. }
            | Instruction::StrhImm { .. }
            | Instruction::Stmia { .. }
            | Instruction::Push { .. } => self.execute_store(instruction),
            _ => self.execute_branch(instruction),
        }
    }

    /// Executes an instruction of one kind: shifts, additions, subtractions and comparisons.
    #[verifier::rlimit(40)]
    fn execute_arithmetic(&mut self, instruction: Instruction)
        requires
            instruction.wf(),
            instruction.is_arithmetic(),
        ensures
            final(self)@ == old(self)@.execute(instruction),
            final(self)@.counts_since(old(self)@, 0) || final(self)@.counts_since(old(self)@, 1),
    {
        proof {
            reveal(Machine::execute);
        }
        match instruction {
            Instruction::LslImm { rs, rd, offset } => {
                let source = self.read_register(rs);
                self.shift_left(rd, source, offset as u32);
            },
            Instruction::LslReg { rs, rd } => {
                let amount = self.shift_amount(rs);
                let source = self.read_register(rd);
                self.shift_left(rd, source, amount);
            },
            Instruction::LsrImm { rs, rd, offset } => {
                let source = self.read_register(rs);
                self.shift_right(rd, source, offset as u32);
            },
            Instruction::LsrReg { rs, rd } => {
                let amount = self.shift_amount(rs);
                let source = self.read_register(rd);
                self.shift_right(rd, source, amount);
            },
            Instruction::AsrImm { rs, rd, offset } => {
                let source = self.read_register(rs);
                self.shift_right_signed(rd, source, offset as u32);
            },
            Instruction::AsrReg { rs, rd } => {
                let amount = self.shift_amount(rs);
                let source = self.read_register(rd);
                self.shift_right_signed(rd, source, amount);
            },
            Instruction::AddReg { rs, rd, rn } => {
                let a = self.read_register(rs);
                let b = self.read_register(rn);
                self.add_into(rd, a, b, false);
            },
            Instruction::AddImm { rs, rd, offset } => {
                let a = self.read_register(rs);
                self.add_into(rd, a, offset as u32, false);
            },
            Instruction::AddSp { rd, offset } => {
                let value = self.read_register(SP_INDEX).wrapping_add(offset);
                self.set_register(rd, value);
            },
            Instruction::AddPc { rd, offset } => {
                let value = (self.read_register(PC_INDEX) & !0b11u32).wrapping_add(offset);
                self.set_register(rd, value);
            },
            Instruction::Adc { rs, rd } => {
                let a = self.read_register(rs);
                let b = self.read_register(rd);
                let carry = self.cond_reg.c;
                self.add_into(rd, a, b, carry);
            },
            Instruction::SubReg { rs, rd, rn } => {
                let a = self.read_register(rs);
                let b = self.read_register(rn);
                self.add_into(rd, a, !b, true);
            },
            Instruction::SubImm { rs, rd, offset } => {
                let a = self.read_register(rs);
                self.add_into(rd, a, !(offset as u32), true);
            },
            Instruction::Sbc { rs, rd } => {
                let a = self.read_register(rd);
                let b = self.read_register(rs);
                let carry = self.cond_reg.c;
                self.add_into(rd, a, !b, carry);
            },
            Instruction::Neg { rs, rd } => {
                let b = self.read_register(rs);
                self.add_into(rd, 0, !b, true);
            },
            Instruction::Mul { rs, rd } => {
                let a = self.read_register(rd);
                let b = self.read_register(rs);
                let result = a.wrapping_mul(b);
                let overflow = a.checked_mul(b).is_none();
                self.logical(rd, result);
                self.cond_reg.c = overflow;
            },
            Instruction::CmpImm { rd, offset } => {
                let a = self.read_register(rd);
                self.add_and_set_condition(a, !(offset as u32), true);
            },
            Instruction::CmpReg { rs, rd } => {
                let a = self.read_register(rd);
                let b = self.read_register(rs);
                self.add_and_set_condition(a, !b, true);
            },
            Instruction::Cmn { rs, rd } => {
                let a = self.read_register(rd);
                let b = self.read_register(rs);
                self.add_and_set_condition(a, b, false);
            },
            _ => {},
        }
    }

    /// Executes an instruction of one kind: moves, logical operations, extensions and byte reversals.
    #[verifier::rlimit(40)]
    fn execute_logical(&mut self, instruction: Instruction)
        requires
            instruction.wf(),
            instruction.is_logical(),
        ensures
            final(self)@ == old(self)@.execute(instruction),
            final(self)@.counts_since(old(self)@, 0) || final(self)@.counts_since(old(self)@, 1),
    {
        proof {
            reveal(Machine::execute);
        }
        match instruction {
            Instruction::MovImm { rd, offset } => {
                self.logical(rd, offset as u32);
            },
            Instruction::MovReg { rs, rd } => {
                let value = self.read_register(rs);
                self.set_register(rd, value);
                if rd == PC_INDEX {
                    self.increment_pc();
                }
            },
            Instruction::Mvn { rs, rd } => {
                let result = !self.read_register(rs);
                self.logical(rd, result);
            },
            Instruction::Tst { rs, rd } => {
                let result = self.read_register(rd) & self.read_register(rs);
                self.set_nz(result);
            },
            Instruction::And { rs, rd } => {
                let result = self.read_register(rd) & self.read_register(rs);
                self.logical(rd, result);
            },
            Instruction::Bic { rs, rd } => {
                let result = self.read_register(rd) & !self.read_register(rs);
                self.logical(rd, result);
            },
            Instruction::Eor { rs, rd } => {
                let result = self.read_register(rd) ^ self.read_register(rs);
                self.logical(rd, result);
            },
            Instruction::Oor { rs, rd } => {
                let result = self.read_register(rd) | self.read_register(rs);
                self.logical(rd, result);
            },
            Instruction::Sxth { rd, rm } => {
                let result = Self::sign_extend_half(self.read_register(rm));
                self.set_register(rd, result);
            },
            Instruction::Sxtb { rd, rm } => {
                let result = Self::sign_extend_byte(self.read_register(rm));
                self.set_register(rd, result);
            },
            Instruction::Uxth { rd, rm } => {
                let result = self.read_register(rm) & 0xffff;
                self.set_register(rd, result);
            },
            Instruction::Uxtb { rd, rm } => {
                let result = self.read_register(rm) & 0xff;
                self.set_register(rd, result);
            },
            Instruction::Rev { rd, rm } => {
                let rm_val = self.read_register(rm);
                let result = ((0xff00_0000 & rm_val) >> 24) | ((0x00ff_0000 & rm_val) >> 8) | ((
                0x0000_ff00 & rm_val) << 8) | ((0x0000_00ff & rm_val) << 24);
                self.set_register(rd, result);
            },
            Instruction::Rev16 { rd, rm } => {
                let rm_val = self.read_register(rm);
                let result = ((0xff00_ff00 & rm_val) >> 8) | ((0x00ff_00ff & rm_val) << 8);
                self.set_register(rd, result);
            },
            _ => {},
        }
    }

    /// Executes an instruction of one kind: loads, load multiple and pop.
    #[verifier::rlimit(40)]
    fn execute_load(&mut self, instruction: Instruction)
        requires
            instruction.wf(),
            instruction.is_load(),
        ensures
            final(self)@ == old(self)@.execute(instruction),
            final(self)@.counts_since(old(self)@, 0) || final(self)@.counts_since(old(self)@, 1),
    {
        proof {
            reveal(Machine::execute);
        }
        match instruction {
            Instruction::LdrPc { rd, immediate_value } => {
                let addr = (self.read_register(PC_INDEX) & !0b11u32).wrapping_add(immediate_value);
                let result = self.fetch_word(addr);
                self.set_register(rd, result);
            },
            Instruction::LdrReg { rb, ro, rd } => {
                let addr = self.read_register(rb).wrapping_add(self.read_register(ro));
                let result = self.fetch_word(addr);
                self.set_register(rd, result);
            },
            Instruction::LdrbReg { rb, ro, rd } => {
                let addr = self.read_register(rb).wrapping_add(self.read_register(ro));
                let result = self.fetch_byte(addr);
                self.set_register(rd, result as u32);
            },
            Instruction::LdrImm { rb, offset, rd } => {
                let addr = self.read_register(rb).wrapping_add(offset);
                let result = self.fetch_word(addr);
                self.set_register(rd, result);
            },
            Instruction::LdrbImm { rb, offset, rd } => {
                let addr = self.read_register(rb).wrapping_add(offset);
                let result = self.fetch_byte(addr);
                self.set_register(rd, result as u32);
            },
            Instruction::Ldsb { rb, ro, rd } => {
                let addr = self.read_register(rb).wrapping_add(self.read_register(ro));
                let result = Self::sign_extend_byte(self.fetch_byte(addr) as u32);
                self.set_register(rd, result);
            },
            Instruction::LdrhReg { rb, ro, rd } => {
                let addr = self.read_register(rb).wrapping_add(self.read_register(ro));
                let result = self.fetch_half_word(addr);
                self.set_register(rd, result as u32);
            },
            Instruction::LdrhImm { rb, offset, rd } => {
                let addr = self.read_register(rb).wrapping_add(offset);
                let result = self.fetch_half_word(addr);
                self.set_register(rd, result as u32);
            },
            Instruction::Ldsh { rb, ro, rd } => {
                let addr = self.read_register(rb).wrapping_add(self.read_register(ro));
                let result = Self::sign_extend_half(self.fetch_half_word(addr) as u32);
                self.set_register(rd, result);
            },
            Instruction::Ldmia { rb, rlist } => {
                self.load_multiple(rb, rlist);
            },
            Instruction::Pop { rlist, pc } => {
                self.pop_list(rlist);
                if pc {
                    self.pop_stack(PC_INDEX);
                    let target = self.read_register(PC_INDEX);
                    self.jump(target);
                }
            },
            _ => {},
        }
    }

    /// Executes an instruction of one kind: stores, store multiple and push.
    #[verifier::rlimit(40)]
    fn execute_store(&mut self, instruction: Instruction)
        requires
            instruction.wf(),
            instruction.is_store(),
        ensures
            final(self)@ == old(self)@.execute(instruction),
            final(self)@.counts_since(old(self)@, 0) || final(self)@.counts_since(old(self)@, 1),
    {
        proof {
            reveal(Machine::execute);
        }
        match instruction {
            Instruction::StrReg { rb, ro, rd } => {
                let addr = self.read_register(rb).wrapping_add(self.read_register(ro));
                let value = self.read_register(rd);
                self.write_word(addr, value);
            },
            Instruction::StrbReg { rb, ro, rd } => {
                let addr = self.read_register(rb).wrapping_add(self.read_register(ro));
                let value = self.read_register(rd);
                self.write_byte(addr, value);
            },
            Instruction::StrImm { rb, offset, rd } => {
                let addr = self.read_register(rb).wrapping_add(offset);
                let value = self.read_register(rd);
                self.write_word(addr, value);
            },
            Instruction::StrbImm { rb, offset, rd } => {
                let addr = self.read_register(rb).wrapping_add(offset);
                let value = self.read_register(rd);
                self.write_byte(addr, value);
            },
            Instruction::StrhReg { rb, ro, rd } => {
                let addr = self.read_register(rb).wrapping_add(self.read_register(ro));
                let value = self.read_register(rd);
                self.write_half_word(addr, value);
            },
            Instruction::StrhImm { rb, offset, rd } => {
                let addr = self.read_register(rb).wrapping_add(offset);
                let value = self.read_register(rd);
                self.write_half_word(addr, value);
            },
            Instruction::Stmia { rb, rlist } => {
                self.store_multiple(rb, rlist);
            },
            Instruction::Push { rlist, lr } => {
                if lr {
                    let value = self.read_register(LR_INDEX);
                    self.push_stack(value);
                }
                self.push_list(rlist);
            },
            _ => {},
        }
    }

    /// Executes an instruction of one kind: branches, the memory barrier and what is not implemented.
    #[verifier::rlimit(40)]
    fn execute_branch(&mut self, instruction: Instruction)
        requires
            instruction.wf(),
            instruction.is_branch(),
        ensures
            final(self)@ == old(self)@.execute(instruction),
            final(self)@.counts_since(old(self)@, 0) || final(self)@.counts_since(old(self)@, 1),
    {
        proof {
            reveal(Machine::execute);
        }
        match instruction {
            Instruction::Bx { rs } => {
                let target = self.read_register(rs);
                self.jump(target);
            },
            Instruction::Blx { rm } => {
                let link = self.read_register(PC_INDEX).wrapping_sub(2) | 1;
                self.set_register(LR_INDEX, link);
                let target = self.read_register(rm);
                self.jump(target);
            },
            Instruction::Beq { offset } => {
                self.branch_if(self.cond_reg.z, offset);
            },
            Instruction::Bne { offset } => {
                self.branch_if(!self.cond_reg.z, offset);
            },
            Instruction::Bcs { offset } => {
                self.branch_if(self.cond_reg.c, offset);
            },
            Instruction::Bcc { offset } => {
                self.branch_if(!self.cond_reg.c, offset);
            },
            Instruction::Bmi { offset } => {
                self.branch_if(self.cond_reg.n, offset);
            },
            Instruction::Bpl { offset } => {
                self.branch_if(!self.cond_reg.n, offset);
            },
            Instruction::Bvs { offset } => {
                self.branch_if(self.cond_reg.v, offset);
            },
            Instruction::Bcv { offset } => {
                self.branch_if(!self.cond_reg.v, offset);
            },
            Instruction::Bhi { offset } => {
                self.branch_if(self.cond_reg.c && !self.cond_reg.z, offset);
            },
            Instruction::Bls { offset } => {
                self.branch_if(!self.cond_reg.c || self.cond_reg.z, offset);
            },
            Instruction::Bge { offset } => {
                self.branch_if(self.cond_reg.n == self.cond_reg.v, offset);
            },
            Instruction::Blt { offset } => {
                self.branch_if(self.cond_reg.n != self.cond_reg.v, offset);
            },
            Instruction::Bgt { offset } => {
                self.branch_if(!self.cond_reg.z && (self.cond_reg.n == self.cond_reg.v), offset);
            },
            Instruction::Ble { offset } => {
                self.branch_if(self.cond_reg.z || (self.cond_reg.n != self.cond_reg.v), offset);
            },
            Instruction::B { offset } => {
                self.branch(offset);
            },
            Instruction::Bl { offset1, offset2, first } => {
                if first {
                    let link = self.read_register(PC_INDEX).wrapping_add(offset1);
                    self.set_register(LR_INDEX, link);
                } else {
                    let next_instruction = self.read_register(PC_INDEX).wrapping_sub(2);
                    let target = self.read_register(LR_INDEX).wrapping_add(offset2);
                    self.set_register(PC_INDEX, target);
                    self.set_register(LR_INDEX, next_instruction | 1);
                    self.increment_pc();
                }
            },
            Instruction::Dmb => {
                self.increment_pc();
            },
            Instruction::NotImplemented => {},
            _ => {},
        }
    }

    fn sign_extend_half(value: u32) -> (extended: u32)
        ensures
            extended == crate::machine::sign_extend_half(value),
    {
        let low = value & 0xffff;
        if low & 0x8000 != 0 {
            !0xffffu32 | low
        } else {
            low
        }
    }

    fn sign_extend_byte(value: u32) -> (extended: u32)
        ensures
            extended == crate::machine::sign_extend_byte(value),
    {
        let low = value & 0xff;
        if low & 0x80 != 0 {
            !0xffu32 | low
        } else {
            low
        }
    }
}

} // verus!
