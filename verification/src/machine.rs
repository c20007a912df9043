//! The emulated system as a mathematical value, and what each operation of
//! the emulator does to it: the bus, the interpreter, the exception engine
//! and the program loader.

use vstd::prelude::*;
use crate::bits::{byte_of, half_of_bytes, negative, word_of_bytes};
use crate::input_output::{Buttons, Display};
use crate::instruction::{decode, is_long_branch, long_branch, Instruction, LR_INDEX, PC_INDEX, SP_INDEX};
use crate::register::{CondRegister, DmacRegisters, PortRegisters, SercomRegisters};

verus! {

/// Number of bytes of flash, which starts at address 0.
pub const FLASH_SIZE: usize = 0x40000;

/// Number of bytes of SRAM.
pub const SRAM_SIZE: usize = 0x8000;

/// First address of the SRAM window, in which SRAM repeats.
pub const SRAM_START_ADDR: u32 = 0x2000_0000;

/// First address of the peripheral window.
pub const PERIPHERAL_START_ADDR: u32 = 0x4000_0000;

/// First address above the peripheral window.
pub const PERIPHERAL_END_ADDR: u32 = 0x6000_0000;

/// Number of PC advances between two SysTick exceptions.
pub const SYSTICK_COUNTDOWN: i32 = 20000;

/// Offset of the SysTick vector in the vector table.
pub const SYSTICK_VECTOR_OFFSET: u32 = 0x3c;

/// Offset of the DMA controller's vector in the vector table.
pub const DMAC_VECTOR_OFFSET: u32 = 0x58;

/// What the link register holds inside an exception handler: return to
/// thread mode on the main stack.
pub const EXC_RETURN: u32 = 0xffff_fff9;

/// The fetch address that stands for a return from an exception.
pub const EXC_RETURN_ADDR: u32 = 0xffff_fff8;

/// The link register after reset.
pub const RESET_LR: u32 = 0xffff_ffff;

/// Address of the clock status word, which always reads as ready.
pub const PCLKSR_ADDR: u32 = 0x4000_080c;

/// The clock status word: every oscillator and lock bit that the firmware
/// waits for.
pub const PCLKSR_READY: u32 = 0b1101_0010;

/// Address of the ADC's interrupt flag byte, which always reads as result
/// ready.
pub const ADC_INTFLAG_ADDR: u32 = 0x4200_4018;

/// The ADC's result-ready flag.
pub const ADC_RESRDY: u8 = 1;

/// Address of the ADC's result halfword, which reads as noise.
pub const ADC_RESULT_ADDR: u32 = 0x4200_401a;

/// Multiplier of the noise generator.
pub const NOISE_MULTIPLIER: u32 = 1664525;

/// Increment of the noise generator.
pub const NOISE_INCREMENT: u32 = 1013904223;

/// The whole emulated system.
pub struct Machine {
    /// The decoded program: one record for each halfword of the image.
    pub instructions: Seq<Instruction>,
    pub flags: CondRegister,
    /// R0 to R15. R15 is held two bytes ahead of the next fetch.
    pub registers: Seq<u32>,
    pub flash: Seq<u8>,
    pub sram: Seq<u8>,
    /// Number of PC advances so far, modulo 2^64.
    pub tick_count: u64,
    /// Flash address of the loaded image.
    pub program_offset: u32,
    pub systick_vector: u32,
    /// PC advances left until the next SysTick exception is due.
    pub systick_trigger: i32,
    pub dmac_vector: u32,
    /// Whether the DMA controller's exception is pending.
    pub dmac_interrupt: bool,
    pub dmac: DmacRegisters,
    pub porta: PortRegisters,
    pub portb: PortRegisters,
    pub sercom4: SercomRegisters,
    pub sercom5: SercomRegisters,
    pub screen: Display,
    pub buttons: Buttons,
    /// State of the generator of the noise that the ADC's result
    /// register reads.
    pub adc_noise: u32,
}

/// The state of the noise generator after one draw: a linear congruential
/// step modulo 2^32.
pub open spec fn next_noise(state: u32) -> u32 {
    state.wrapping_mul(NOISE_MULTIPLIER).wrapping_add(NOISE_INCREMENT)
}

/// The 16-bit sample that a state of the noise generator yields: its high
/// half, which has the longer period.
pub open spec fn noise_sample(state: u32) -> u16 {
    (state / 0x1_0000) as u16
}

/// Whether bit `index % 32` of `value` is set.
pub open spec fn bit_set(value: u32, index: u32) -> bool {
    value & 1u32.wrapping_shl(index) != 0
}

/// Whether register `i` is in a register list.
pub open spec fn in_list(rlist: u8, i: u8) -> bool {
    rlist & (1u8 << i) != 0
}

/// The sum `a + b + carry` as a 32-bit result with its flags: C is the
/// carry out, V the signed overflow.
pub open spec fn add_with_carry(a: u32, b: u32, carry: bool) -> (u32, CondRegister) {
    let total = a + b + if carry { 1int } else { 0int };
    let result = (total % 0x1_0000_0000) as u32;
    (
        result,
        CondRegister {
            n: negative(result),
            z: result == 0,
            v: negative(a) == negative(b) && negative(a) != negative(result),
            c: total > u32::MAX,
        },
    )
}

/// The low halfword of a word, sign-extended.
pub open spec fn sign_extend_half(value: u32) -> u32 {
    let low = value & 0xffff;
    if low & 0x8000 != 0 {
        !0xffffu32 | low
    } else {
        low
    }
}

/// The low byte of a word, sign-extended.
pub open spec fn sign_extend_byte(value: u32) -> u32 {
    let low = value & 0xff;
    if low & 0x80 != 0 {
        !0xffu32 | low
    } else {
        low
    }
}

/// A word with the order of its four bytes reversed.
pub open spec fn reverse_bytes(value: u32) -> u32 {
    ((0xff00_0000 & value) >> 24) | ((0x00ff_0000 & value) >> 8) | ((0x0000_ff00 & value) << 8) | ((
    0x0000_00ff & value) << 24)
}

/// A word with the two bytes of each of its halfwords swapped.
pub open spec fn reverse_bytes16(value: u32) -> u32 {
    ((0xff00_ff00 & value) >> 8) | ((0x00ff_00ff & value) << 8)
}

/// The position in SRAM that an address of the SRAM window falls on.
pub open spec fn sram_index(addr: int) -> int {
    (addr - SRAM_START_ADDR) % (SRAM_SIZE as int)
}

impl Machine {
    /// The memories, the register file and the framebuffer have their
    /// sizes.
    pub open spec fn wf(self) -> bool {
        &&& self.registers.len() == 16
        &&& self.flash.len() == FLASH_SIZE
        &&& self.sram.len() == SRAM_SIZE
        &&& self.screen.pixels.len() == 20480
    }

    // ----------------------------------------------------------------
    // Bus: reads
    // ----------------------------------------------------------------
    /// The byte of flash at an address below the SRAM window: flash where
    /// there is flash, 0 above it.
    pub open spec fn flash_byte(self, addr: int) -> u8 {
        if 0 <= addr < FLASH_SIZE {
            self.flash[addr]
        } else {
            0
        }
    }

    /// The byte of SRAM that an address falls on.
    pub open spec fn sram_byte(self, addr: int) -> u8 {
        self.sram[sram_index(addr)]
    }

    /// What a byte read from the bus returns. In the peripheral window the
    /// ADC flag, the DMA controller and the two serial ports answer; every
    /// other address there, and everything above the window, reads 0.
    pub open spec fn read_byte(self, addr: u32) -> u8 {
        if addr < SRAM_START_ADDR {
            self.flash_byte(addr as int)
        } else if addr < PERIPHERAL_START_ADDR {
            self.sram_byte(addr as int)
        } else if addr >= PERIPHERAL_END_ADDR {
            0
        } else if addr == ADC_INTFLAG_ADDR {
            ADC_RESRDY
        } else if DmacRegisters::DMAC_START_ADDR <= addr <= DmacRegisters::DMAC_END_ADDR {
            DmacRegisters::read((addr - DmacRegisters::DMAC_START_ADDR) as u32)
        } else if SercomRegisters::SERCOM4_START_ADDR <= addr <= SercomRegisters::SERCOM4_END_ADDR {
            self.sercom4.read((addr - SercomRegisters::SERCOM4_START_ADDR) as u32)
        } else if SercomRegisters::SERCOM5_START_ADDR <= addr <= SercomRegisters::SERCOM5_END_ADDR {
            self.sercom5.read((addr - SercomRegisters::SERCOM5_START_ADDR) as u32)
        } else {
            0
        }
    }

    /// What a halfword read from the bus returns: two bytes of memory,
    /// least significant first. Of the peripherals only the ADC's result
    /// register answers, with a fresh sample of noise.
    pub open spec fn read_half(self, addr: u32) -> u16 {
        if addr < SRAM_START_ADDR {
            half_of_bytes(self.flash_byte(addr as int), self.flash_byte(addr + 1))
        } else if addr < PERIPHERAL_START_ADDR {
            half_of_bytes(self.sram_byte(addr as int), self.sram_byte(addr + 1))
        } else if addr == ADC_RESULT_ADDR {
            noise_sample(next_noise(self.adc_noise))
        } else {
            0
        }
    }

    /// The system after a halfword read from the bus: a read of the ADC's
    /// result register draws from the noise generator, every other read
    /// leaves the system as it is.
    pub open spec fn after_read_half(self, addr: u32) -> Machine {
        if addr == ADC_RESULT_ADDR {
            Machine { adc_noise: next_noise(self.adc_noise), ..self }
        } else {
            self
        }
    }

    /// The system after a halfword has been loaded into register `rd`;
    /// `signed` tells whether it is sign-extended.
    pub open spec fn load_half(self, rd: u8, addr: u32, signed: bool) -> Machine {
        let value = self.read_half(addr) as u32;
        self.after_read_half(addr).set_reg(
            rd,
            if signed {
                sign_extend_half(value)
            } else {
                value
            },
        )
    }

    /// What a word read from the bus returns: four bytes of memory, least
    /// significant first. In the peripheral window the clock status word,
    /// the DMA controller, the two GPIO ports and the two serial ports
    /// answer.
    pub open spec fn read_word(self, addr: u32) -> u32 {
        if addr < SRAM_START_ADDR {
            word_of_bytes(
                self.flash_byte(addr as int),
                self.flash_byte(addr + 1),
                self.flash_byte(addr + 2),
                self.flash_byte(addr + 3),
            )
        } else if addr < PERIPHERAL_START_ADDR {
            word_of_bytes(
                self.sram_byte(addr as int),
                self.sram_byte(addr + 1),
                self.sram_byte(addr + 2),
                self.sram_byte(addr + 3),
            )
        } else if addr >= PERIPHERAL_END_ADDR {
            0
        } else if addr == PCLKSR_ADDR {
            PCLKSR_READY
        } else if DmacRegisters::DMAC_START_ADDR <= addr <= DmacRegisters::DMAC_END_ADDR {
            DmacRegisters::read((addr - DmacRegisters::DMAC_START_ADDR) as u32) as u32
        } else if PortRegisters::PORTA_START_ADDR <= addr <= PortRegisters::PORTA_END_ADDR {
            self.porta.read_word((addr - PortRegisters::PORTA_START_ADDR) as u32)
        } else if PortRegisters::PORTB_START_ADDR <= addr <= PortRegisters::PORTB_END_ADDR {
            self.portb.read_word((addr - PortRegisters::PORTB_START_ADDR) as u32)
        } else if SercomRegisters::SERCOM4_START_ADDR <= addr <= SercomRegisters::SERCOM4_END_ADDR {
            self.sercom4.read((addr - SercomRegisters::SERCOM4_START_ADDR) as u32) as u32
        } else if SercomRegisters::SERCOM5_START_ADDR <= addr <= SercomRegisters::SERCOM5_END_ADDR {
            self.sercom5.read((addr - SercomRegisters::SERCOM5_START_ADDR) as u32) as u32
        } else {
            0
        }
    }

    // ----------------------------------------------------------------
    // Bus: writes
    // ----------------------------------------------------------------
    /// The system with one byte of SRAM replaced.
    pub open spec fn with_sram_byte(self, addr: int, value: u8) -> Machine {
        Machine { sram: self.sram.update(sram_index(addr), value), ..self }
    }

    /// The system after the byte that serial port 4 has sent, if any, has
    /// been delivered: first to the display, then to the button shifter,
    /// which may set the port's received byte. The sent byte is then gone.
    pub open spec fn deliver_sercom4(self) -> Machine {
        match self.sercom4.sent {
            Some(value) => Machine {
                screen: self.screen.receive(value, self.porta.out_value, self.portb.out_value),
                sercom4: SercomRegisters {
                    sent: None,
                    ..self.buttons.answer(self.portb.out_value, self.sercom4)
                },
                ..self
            },
            None => self,
        }
    }

    /// The system after a write of a byte to serial port 4.
    pub open spec fn write_sercom4(self, offset: u32, value: u8) -> Machine {
        Machine { sercom4: self.sercom4.after_write(offset, value), ..self }.deliver_sercom4()
    }

    /// The system after a write of a byte to serial port 5, on which
    /// nothing listens.
    pub open spec fn write_sercom5(self, offset: u32, value: u8) -> Machine {
        Machine {
            sercom5: SercomRegisters { sent: None, ..self.sercom5.after_write(offset, value) },
            ..self
        }
    }

    /// The system after a byte store that comes from the DMA controller.
    /// It reaches SRAM and the serial ports. Flash is read-only. A store
    /// into the controller's own window is dropped: the controller is busy
    /// with the transfer that makes the store.
    pub open spec fn dma_store_byte(self, addr: u32, value: u8) -> Machine {
        if addr < SRAM_START_ADDR {
            self
        } else if addr < PERIPHERAL_START_ADDR {
            self.with_sram_byte(addr as int, value)
        } else if addr >= PERIPHERAL_END_ADDR {
            self
        } else if SercomRegisters::SERCOM4_START_ADDR <= addr <= SercomRegisters::SERCOM4_END_ADDR {
            self.write_sercom4((addr - SercomRegisters::SERCOM4_START_ADDR) as u32, value)
        } else if SercomRegisters::SERCOM5_START_ADDR <= addr <= SercomRegisters::SERCOM5_END_ADDR {
            self.write_sercom5((addr - SercomRegisters::SERCOM5_START_ADDR) as u32, value)
        } else {
            self
        }
    }

    /// The system after bytes `i` and up of a DMA block have been copied.
    /// `srcaddr` points behind the end of the block of `btcnt` bytes; every
    /// byte goes to the one address `dstaddr`.
    pub open spec fn dma_copy(self, srcaddr: u32, dstaddr: u32, btcnt: u32, i: u32) -> Machine
        decreases btcnt - i,
    {
        if i >= btcnt {
            self
        } else {
            self.dma_store_byte(
                dstaddr,
                self.read_byte(srcaddr.wrapping_add(i).wrapping_sub(btcnt)),
            ).dma_copy(srcaddr, dstaddr, btcnt, (i + 1) as u32)
        }
    }

    /// The DMA controller's registers and the rest of the system after one
    /// transfer. The descriptor holds, from byte 2 on, the byte count
    /// (halfword), the source end address, the destination address and the
    /// address of the next descriptor (words). The next descriptor becomes
    /// the active one and the controller's interrupt becomes pending. The
    /// byte count is read from the bus like any halfword.
    pub open spec fn dma_transfer(self, registers: DmacRegisters) -> (DmacRegisters, Machine) {
        let descriptor = registers.active_descriptor();
        let btcnt = self.read_half(descriptor.wrapping_add(0x02)) as u32;
        let counted = self.after_read_half(descriptor.wrapping_add(0x02));
        let srcaddr = counted.read_word(descriptor.wrapping_add(0x04));
        let dstaddr = counted.read_word(descriptor.wrapping_add(0x08));
        let descaddr = counted.read_word(descriptor.wrapping_add(0x0c));
        (
            DmacRegisters { descriptor: descaddr, ..registers },
            Machine { dmac_interrupt: true, ..counted.dma_copy(srcaddr, dstaddr, btcnt, 0) },
        )
    }

    /// The DMA controller's registers and the rest of the system after a
    /// byte write to the controller: CHID selects the channel, `ENABLE`
    /// written to CHCTRLA runs a transfer, anything else is ignored.
    pub open spec fn dmac_write_byte(self, registers: DmacRegisters, offset: u32, value: u8) -> (
        DmacRegisters,
        Machine,
    ) {
        if offset == DmacRegisters::CHID_OFFSET {
            (DmacRegisters { selected_channel_id: value, ..registers }, self)
        } else if offset == DmacRegisters::CHCTRLA_OFFSET && value == DmacRegisters::ENABLE {
            self.dma_transfer(registers)
        } else {
            (registers, self)
        }
    }

    /// The system after a byte store: the low byte of `value` goes to
    /// SRAM, to the DMA controller or to a serial port. Flash is
    /// read-only, every other address ignores the store.
    pub open spec fn write_byte(self, addr: u32, value: u32) -> Machine {
        if PERIPHERAL_START_ADDR <= addr < PERIPHERAL_END_ADDR && DmacRegisters::DMAC_START_ADDR
            <= addr <= DmacRegisters::DMAC_END_ADDR {
            let (registers, system) = self.dmac_write_byte(
                self.dmac,
                (addr - DmacRegisters::DMAC_START_ADDR) as u32,
                byte_of(value, 0),
            );
            Machine { dmac: registers, ..system }
        } else {
            self.dma_store_byte(addr, byte_of(value, 0))
        }
    }

    /// The system after a halfword store: the low two bytes of `value` go
    /// to SRAM, least significant first. No peripheral takes halfwords.
    pub open spec fn write_half(self, addr: u32, value: u32) -> Machine {
        if SRAM_START_ADDR <= addr < PERIPHERAL_START_ADDR {
            self.with_sram_byte(addr as int, byte_of(value, 0)).with_sram_byte(
                addr + 1,
                byte_of(value, 1),
            )
        } else {
            self
        }
    }

    /// The system after a word store: four bytes to SRAM, least
    /// significant first, or the word to the DMA controller or a GPIO
    /// port, or its low byte to a serial port.
    pub open spec fn write_word(self, addr: u32, value: u32) -> Machine {
        if addr < SRAM_START_ADDR {
            self
        } else if addr < PERIPHERAL_START_ADDR {
            self.with_sram_byte(addr as int, byte_of(value, 0)).with_sram_byte(
                addr + 1,
                byte_of(value, 1),
            ).with_sram_byte(addr + 2, byte_of(value, 2)).with_sram_byte(addr + 3, byte_of(value, 3))
        } else if addr >= PERIPHERAL_END_ADDR {
            self
        } else if DmacRegisters::DMAC_START_ADDR <= addr <= DmacRegisters::DMAC_END_ADDR {
            Machine {
                dmac: self.dmac.after_write_word(
                    (addr - DmacRegisters::DMAC_START_ADDR) as u32,
                    value,
                ),
                ..self
            }
        } else if PortRegisters::PORTA_START_ADDR <= addr <= PortRegisters::PORTA_END_ADDR {
            Machine {
                porta: self.porta.after_write_word(
                    (addr - PortRegisters::PORTA_START_ADDR) as u32,
                    value,
                ),
                ..self
            }
        } else if PortRegisters::PORTB_START_ADDR <= addr <= PortRegisters::PORTB_END_ADDR {
            Machine {
                portb: self.portb.after_write_word(
                    (addr - PortRegisters::PORTB_START_ADDR) as u32,
                    value,
                ),
                ..self
            }
        } else if SercomRegisters::SERCOM4_START_ADDR <= addr <= SercomRegisters::SERCOM4_END_ADDR {
            self.write_sercom4(
                (addr - SercomRegisters::SERCOM4_START_ADDR) as u32,
                byte_of(value, 0),
            )
        } else if SercomRegisters::SERCOM5_START_ADDR <= addr <= SercomRegisters::SERCOM5_END_ADDR {
            self.write_sercom5(
                (addr - SercomRegisters::SERCOM5_START_ADDR) as u32,
                byte_of(value, 0),
            )
        } else {
            self
        }
    }

    // ----------------------------------------------------------------
    // Registers, flags and stack
    // ----------------------------------------------------------------
    /// The value of register `r`.
    pub open spec fn reg(self, r: u8) -> u32 {
        self.registers[r as int]
    }

    /// The system with register `r` set.
    pub open spec fn set_reg(self, r: u8, value: u32) -> Machine {
        Machine { registers: self.registers.update(r as int, value), ..self }
    }

    /// The address of the next instruction to fetch: R15 runs two bytes
    /// ahead of it.
    pub open spec fn fetch_address(self) -> u32 {
        self.reg(PC_INDEX).wrapping_sub(2)
    }

    /// The system after one PC advance: R15 moves on by two bytes, one
    /// tick passes, and SysTick comes one step nearer.
    pub open spec fn advance_pc(self) -> Machine {
        Machine {
            tick_count: self.tick_count.wrapping_add(1),
            systick_trigger: self.systick_trigger.wrapping_sub(1),
            registers: self.registers.update(PC_INDEX as int, self.reg(PC_INDEX).wrapping_add(2)),
            ..self
        }
    }

    /// Whether the tick count and the SysTick countdown stand where
    /// `advances` PC advances take them from where they stood in `before`.
    pub open spec fn counts_since(self, before: Machine, advances: int) -> bool {
        &&& self.tick_count == before.tick_count.wrapping_add(advances as u64)
        &&& self.systick_trigger == before.systick_trigger.wrapping_sub(advances as i32)
    }

    /// Whether a step from this system begins by taking the SysTick
    /// exception.
    pub open spec fn systick_due(self) -> bool {
        !self.dmac_interrupt && self.systick_trigger <= 0
    }

    /// The system with the SysTick countdown started again where the
    /// SysTick exception is due.
    pub open spec fn rearmed(self) -> Machine {
        if self.systick_due() {
            Machine { systick_trigger: SYSTICK_COUNTDOWN, ..self }
        } else {
            self
        }
    }

    /// The system with N and Z set from a result.
    pub open spec fn with_nz(self, value: u32) -> Machine {
        Machine { flags: CondRegister { n: negative(value), z: value == 0, ..self.flags }, ..self }
    }

    /// The system with C set.
    pub open spec fn with_c(self, c: bool) -> Machine {
        Machine { flags: CondRegister { c, ..self.flags }, ..self }
    }

    /// The system after a word has been pushed: the stack pointer goes
    /// down by four bytes, then the word is stored where it points.
    #[verifier::opaque]
    pub open spec fn push(self, value: u32) -> Machine {
        let sp = self.reg(SP_INDEX).wrapping_sub(4);
        self.set_reg(SP_INDEX, sp).write_word(sp, value)
    }

    /// The system after a word has been popped into register `r`: the
    /// word is read where the stack pointer points, then the stack
    /// pointer goes up by four bytes.
    #[verifier::opaque]
    pub open spec fn pop(self, r: u8) -> Machine {
        let loaded = self.set_reg(r, self.read_word(self.reg(SP_INDEX)));
        loaded.set_reg(SP_INDEX, loaded.reg(SP_INDEX).wrapping_add(4))
    }

    // ----------------------------------------------------------------
    // Interpreter
    // ----------------------------------------------------------------
    /// Register `rd` and all four flags set from the sum `a + b + carry`.
    pub open spec fn add_into(self, rd: u8, a: u32, b: u32, carry: bool) -> Machine {
        Machine { flags: add_with_carry(a, b, carry).1, ..self }.set_reg(
            rd,
            add_with_carry(a, b, carry).0,
        )
    }

    /// All four flags set from the sum `a + b + carry`.
    pub open spec fn compare(self, a: u32, b: u32, carry: bool) -> Machine {
        Machine { flags: add_with_carry(a, b, carry).1, ..self }
    }

    /// Register `rd` set to the result of a logical operation, with N and
    /// Z.
    pub open spec fn logical(self, rd: u8, result: u32) -> Machine {
        self.set_reg(rd, result).with_nz(result)
    }

    /// Register `rd` set to `source` shifted left. The shift distance
    /// counts modulo 32, and C becomes the bit of `source` at that
    /// position.
    pub open spec fn shift_left(self, rd: u8, source: u32, amount: u32) -> Machine {
        let result = source.wrapping_shl(amount);
        self.set_reg(rd, result).with_c(bit_set(source, amount)).with_nz(result)
    }

    /// Register `rd` set to `source` shifted right, zeros coming in.
    /// The shift distance counts modulo 32, and C becomes the bit of
    /// `source` at position 32 less the distance, modulo 32.
    pub open spec fn shift_right(self, rd: u8, source: u32, amount: u32) -> Machine {
        let result = source.wrapping_shr(amount);
        self.set_reg(rd, result).with_c(bit_set(source, 32u32.wrapping_sub(amount))).with_nz(
            result,
        )
    }

    /// Register `rd` set to `source` shifted right, copies of the sign
    /// coming in. The shift distance counts modulo 32, and C becomes the
    /// bit of `source` at the position one less than the distance,
    /// modulo 32.
    pub open spec fn shift_right_signed(self, rd: u8, source: u32, amount: u32) -> Machine {
        let result = (source as i32).wrapping_shr(amount) as u32;
        self.set_reg(rd, result).with_c(bit_set(source, amount.wrapping_sub(1))).with_nz(result)
    }

    /// The distance of a shift by register: the low byte of the register.
    pub open spec fn shift_amount(self, rs: u8) -> u32 {
        self.reg(rs) % 0x100
    }

    /// The system after a taken branch: the offset is added to R15, which
    /// then advances.
    pub open spec fn branch(self, offset: u32) -> Machine {
        self.set_reg(PC_INDEX, self.reg(PC_INDEX).wrapping_add(offset)).advance_pc()
    }

    /// The system after a conditional branch.
    pub open spec fn branch_if(self, taken: bool, offset: u32) -> Machine {
        if taken {
            self.branch(offset)
        } else {
            self
        }
    }

    /// The system after a jump to an address held in a register: bit 0,
    /// the Thumb bit, is dropped, and R15 advances.
    pub open spec fn jump(self, target: u32) -> Machine {
        self.set_reg(PC_INDEX, target & !1u32).advance_pc()
    }

    /// The system and the running address after registers `i` to 7 of a
    /// list have been loaded from consecutive words.
    pub open spec fn load_multiple(self, rlist: u8, i: u8, addr: u32) -> (Machine, u32)
        decreases 8 - i,
    {
        if i >= 8 {
            (self, addr)
        } else if in_list(rlist, i) {
            self.set_reg(i, self.read_word(addr)).load_multiple(
                rlist,
                (i + 1) as u8,
                addr.wrapping_add(4),
            )
        } else {
            self.load_multiple(rlist, (i + 1) as u8, addr)
        }
    }

    /// The system and the running address after registers `i` to 7 of a
    /// list have been stored to consecutive words.
    pub open spec fn store_multiple(self, rlist: u8, i: u8, addr: u32) -> (Machine, u32)
        decreases 8 - i,
    {
        if i >= 8 {
            (self, addr)
        } else if in_list(rlist, i) {
            self.write_word(addr, self.reg(i)).store_multiple(
                rlist,
                (i + 1) as u8,
                addr.wrapping_add(4),
            )
        } else {
            self.store_multiple(rlist, (i + 1) as u8, addr)
        }
    }

    /// The system after the registers below `n` of a list have been
    /// pushed, highest first.
    pub open spec fn push_list(self, rlist: u8, n: u8) -> Machine
        decreases n,
    {
        if n == 0 || n > 8 {
            self
        } else if in_list(rlist, (n - 1) as u8) {
            self.push(self.reg((n - 1) as u8)).push_list(rlist, (n - 1) as u8)
        } else {
            self.push_list(rlist, (n - 1) as u8)
        }
    }

    /// The system after registers `i` to 7 of a list have been popped,
    /// lowest first.
    pub open spec fn pop_list(self, rlist: u8, i: u8) -> Machine
        decreases 8 - i,
    {
        if i >= 8 {
            self
        } else if in_list(rlist, i) {
            self.pop(i).pop_list(rlist, (i + 1) as u8)
        } else {
            self.pop_list(rlist, (i + 1) as u8)
        }
    }

    /// The system after the instruction has been executed. R15 has
    /// advanced past the instruction before, so that it reads as the
    /// instruction's address plus 4; an instruction that writes R15
    /// advances it once more. `NotImplemented` does nothing.
    #[verifier::opaque]
    pub open spec fn execute(self, instruction: Instruction) -> Machine {
        match instruction {
            Instruction::LslImm { rs, rd, offset } => self.shift_left(rd, self.reg(rs), offset as u32),
            Instruction::LslReg { rs, rd } => self.shift_left(rd, self.reg(rd), self.shift_amount(rs)),
            Instruction::LsrImm { rs, rd, offset } => self.shift_right(
                rd,
                self.reg(rs),
                offset as u32,
            ),
            Instruction::LsrReg { rs, rd } => self.shift_right(rd, self.reg(rd), self.shift_amount(rs)),
            Instruction::AsrImm { rs, rd, offset } => self.shift_right_signed(
                rd,
                self.reg(rs),
                offset as u32,
            ),
            Instruction::AsrReg { rs, rd } => self.shift_right_signed(
                rd,
                self.reg(rd),
                self.shift_amount(rs),
            ),
            Instruction::AddReg { rs, rd, rn } => self.add_into(rd, self.reg(rs), self.reg(rn), false),
            Instruction::AddImm { rs, rd, offset } => self.add_into(
                rd,
                self.reg(rs),
                offset as u32,
                false,
            ),
            Instruction::AddSp { rd, offset } => self.set_reg(
                rd,
                self.reg(SP_INDEX).wrapping_add(offset),
            ),
            Instruction::AddPc { rd, offset } => self.set_reg(
                rd,
                (self.reg(PC_INDEX) & !0b11u32).wrapping_add(offset),
            ),
            Instruction::Adc { rs, rd } => self.add_into(
                rd,
                self.reg(rs),
                self.reg(rd),
                self.flags.c,
            ),
            Instruction::SubReg { rs, rd, rn } => self.add_into(rd, self.reg(rs), !self.reg(rn), true),
            Instruction::SubImm { rs, rd, offset } => self.add_into(
                rd,
                self.reg(rs),
                !(offset as u32),
                true,
            ),
            Instruction::Sbc { rs, rd } => self.add_into(
                rd,
                self.reg(rd),
                !self.reg(rs),
                self.flags.c,
            ),
            Instruction::Neg { rs, rd } => self.add_into(rd, 0, !self.reg(rs), true),
            Instruction::Mul { rs, rd } => self.logical(
                rd,
                self.reg(rd).wrapping_mul(self.reg(rs)),
            ).with_c(self.reg(rd) * self.reg(rs) > u32::MAX),
            Instruction::MovImm { rd, offset } => self.logical(rd, offset as u32),
            Instruction::MovReg { rs, rd } => {
                let moved = self.set_reg(rd, self.reg(rs));
                if rd == PC_INDEX {
                    moved.advance_pc()
                } else {
                    moved
                }
            },
            Instruction::Mvn { rs, rd } => self.logical(rd, !self.reg(rs)),
            Instruction::CmpImm { rd, offset } => self.compare(self.reg(rd), !(offset as u32), true),
            Instruction::CmpReg { rs, rd } => self.compare(self.reg(rd), !self.reg(rs), true),
            Instruction::Cmn { rs, rd } => self.compare(self.reg(rd), self.reg(rs), false),
            Instruction::Tst { rs, rd } => self.with_nz(self.reg(rd) & self.reg(rs)),
            Instruction::And { rs, rd } => self.logical(rd, self.reg(rd) & self.reg(rs)),
            Instruction::Bic { rs, rd } => self.logical(rd, self.reg(rd) & !self.reg(rs)),
            Instruction::Eor { rs, rd } => self.logical(rd, self.reg(rd) ^ self.reg(rs)),
            Instruction::Oor { rs, rd } => self.logical(rd, self.reg(rd) | self.reg(rs)),
            Instruction::Bx { rs } => self.jump(self.reg(rs)),
            Instruction::Blx { rm } => {
                let linked = self.set_reg(LR_INDEX, self.reg(PC_INDEX).wrapping_sub(2) | 1);
                linked.jump(linked.reg(rm))
            },
            Instruction::LdrPc { rd, immediate_value } => self.set_reg(
                rd,
                self.read_word((self.reg(PC_INDEX) & !0b11u32).wrapping_add(immediate_value)),
            ),
            Instruction::LdrReg { rb, ro, rd } => self.set_reg(
                rd,
                self.read_word(self.reg(rb).wrapping_add(self.reg(ro))),
            ),
            Instruction::LdrbReg { rb, ro, rd } => self.set_reg(
                rd,
                self.read_byte(self.reg(rb).wrapping_add(self.reg(ro))) as u32,
            ),
            Instruction::LdrImm { rb, offset, rd } => self.set_reg(
                rd,
                self.read_word(self.reg(rb).wrapping_add(offset)),
            ),
            Instruction::LdrbImm { rb, offset, rd } => self.set_reg(
                rd,
                self.read_byte(self.reg(rb).wrapping_add(offset)) as u32,
            ),
            Instruction::Ldsb { rb, ro, rd } => self.set_reg(
                rd,
                sign_extend_byte(self.read_byte(self.reg(rb).wrapping_add(self.reg(ro))) as u32),
            ),
            Instruction::LdrhReg { rb, ro, rd } => self.load_half(
                rd,
                self.reg(rb).wrapping_add(self.reg(ro)),
                false,
            ),
            Instruction::LdrhImm { rb, offset, rd } => self.load_half(
                rd,
                self.reg(rb).wrapping_add(offset),
                false,
            ),
            Instruction::Ldsh { rb, ro, rd } => self.load_half(
                rd,
                self.reg(rb).wrapping_add(self.reg(ro)),
                true,
            ),
            Instruction::Ldmia { rb, rlist } => {
                let (loaded, addr) = self.load_multiple(rlist, 0, self.reg(rb));
                loaded.set_reg(rb, addr)
            },
            Instruction::StrReg { rb, ro, rd } => self.write_word(
                self.reg(rb).wrapping_add(self.reg(ro)),
                self.reg(rd),
            ),
            Instruction::StrbReg { rb, ro, rd } => self.write_byte(
                self.reg(rb).wrapping_add(self.reg(ro)),
                self.reg(rd),
            ),
            Instruction::StrImm { rb, offset, rd } => self.write_word(
                self.reg(rb).wrapping_add(offset),
                self.reg(rd),
            ),
            Instruction::StrbImm { rb, offset, rd } => self.write_byte(
                self.reg(rb).wrapping_add(offset),
                self.reg(rd),
            ),
            Instruction::StrhReg { rb, ro, rd } => self.write_half(
                self.reg(rb).wrapping_add(self.reg(ro)),
                self.reg(rd),
            ),
            Instruction::StrhImm { rb, offset, rd } => self.write_half(
                self.reg(rb).wrapping_add(offset),
                self.reg(rd),
            ),
            Instruction::Stmia { rb, rlist } => {
                let (stored, addr) = self.store_multiple(rlist, 0, self.reg(rb));
                stored.set_reg(rb, addr)
            },
            Instruction::Sxth { rd, rm } => self.set_reg(rd, sign_extend_half(self.reg(rm))),
            Instruction::Sxtb { rd, rm } => self.set_reg(rd, sign_extend_byte(self.reg(rm))),
            Instruction::Uxth { rd, rm } => self.set_reg(rd, self.reg(rm) & 0xffff),
            Instruction::Uxtb { rd, rm } => self.set_reg(rd, self.reg(rm) & 0xff),
            Instruction::Rev { rd, rm } => self.set_reg(rd, reverse_bytes(self.reg(rm))),
            Instruction::Rev16 { rd, rm } => self.set_reg(rd, reverse_bytes16(self.reg(rm))),
            Instruction::Push { rlist, lr } => {
                let linked = if lr {
                    self.push(self.reg(LR_INDEX))
                } else {
                    self
                };
                linked.push_list(rlist, 8)
            },
            Instruction::Pop { rlist, pc } => {
                let popped = self.pop_list(rlist, 0);
                if pc {
                    popped.pop(PC_INDEX).jump(popped.pop(PC_INDEX).reg(PC_INDEX))
                } else {
                    popped
                }
            },
            Instruction::Beq { offset } => self.branch_if(self.flags.z, offset),
            Instruction::Bne { offset } => self.branch_if(!self.flags.z, offset),
            Instruction::Bcs { offset } => self.branch_if(self.flags.c, offset),
            Instruction::Bcc { offset } => self.branch_if(!self.flags.c, offset),
            Instruction::Bmi { offset } => self.branch_if(self.flags.n, offset),
            Instruction::Bpl { offset } => self.branch_if(!self.flags.n, offset),
            Instruction::Bvs { offset } => self.branch_if(self.flags.v, offset),
            Instruction::Bcv { offset } => self.branch_if(!self.flags.v, offset),
            Instruction::Bhi { offset } => self.branch_if(self.flags.c && !self.flags.z, offset),
            Instruction::Bls { offset } => self.branch_if(!self.flags.c || self.flags.z, offset),
            Instruction::Bge { offset } => self.branch_if(self.flags.n == self.flags.v, offset),
            Instruction::Blt { offset } => self.branch_if(self.flags.n != self.flags.v, offset),
            Instruction::Bgt { offset } => self.branch_if(
                !self.flags.z && self.flags.n == self.flags.v,
                offset,
            ),
            Instruction::Ble { offset } => self.branch_if(
                self.flags.z || self.flags.n != self.flags.v,
                offset,
            ),
            Instruction::B { offset } => self.branch(offset),
            Instruction::Bl { offset1, offset2, first } => {
                if first {
                    self.set_reg(LR_INDEX, self.reg(PC_INDEX).wrapping_add(offset1))
                } else {
                    let next_instruction = self.reg(PC_INDEX).wrapping_sub(2);
                    self.set_reg(PC_INDEX, self.reg(LR_INDEX).wrapping_add(offset2)).set_reg(
                        LR_INDEX,
                        next_instruction | 1,
                    ).advance_pc()
                }
            },
            Instruction::Dmb => self.advance_pc(),
            Instruction::NotImplemented => self,
        }
    }

    // ----------------------------------------------------------------
    // Exception engine and stepping
    // ----------------------------------------------------------------
    /// The system after entry into the exception handler at `vector`: the
    /// flags word, R15, LR, R12, R3, R2, R1 and R0 are pushed in this
    /// order, R15 goes to the vector and advances, and LR holds
    /// `EXC_RETURN`.
    pub open spec fn enter_exception(self, vector: u32) -> Machine {
        self.push(self.flags.word()).push(self.reg(PC_INDEX)).push(self.reg(LR_INDEX)).push(
            self.reg(12),
        ).push(self.reg(3)).push(self.reg(2)).push(self.reg(1)).push(self.reg(0)).set_reg(
            PC_INDEX,
            vector,
        ).set_reg(LR_INDEX, EXC_RETURN).advance_pc()
    }

    /// The system after the pending exception, if any, has been taken:
    /// the DMA controller's first, else SysTick if its countdown has run
    /// out, which starts the countdown again.
    pub open spec fn take_pending_exception(self) -> Machine {
        if self.dmac_interrupt {
            Machine { dmac_interrupt: false, ..self }.enter_exception(self.dmac_vector)
        } else if self.systick_trigger <= 0 {
            Machine { systick_trigger: SYSTICK_COUNTDOWN, ..self }.enter_exception(
                self.systick_vector,
            )
        } else {
            self
        }
    }

    /// The system after one exception frame has been unwound: R0, R1, R2,
    /// R3, R12, LR and R15 are popped in this order, then the flags.
    pub open spec fn unwind_frame(self) -> Machine {
        let popped = self.pop(0).pop(1).pop(2).pop(3).pop(12).pop(LR_INDEX).pop(PC_INDEX);
        Machine {
            flags: CondRegister::of_word(popped.read_word(popped.reg(SP_INDEX))),
            ..popped
        }.set_reg(SP_INDEX, popped.reg(SP_INDEX).wrapping_add(4))
    }

    /// A bound on the number of frames that `unwind` still has to unwind:
    /// R15 is popped from the seventh word of a frame, and a word from
    /// above the peripheral window reads 0, which ends the unwinding.
    pub open spec fn unwind_bound(self) -> int {
        let slot = self.reg(SP_INDEX).wrapping_add(24);
        if self.fetch_address() != EXC_RETURN_ADDR {
            0
        } else if slot >= PERIPHERAL_END_ADDR {
            1
        } else {
            PERIPHERAL_END_ADDR - slot + 1
        }
    }

    /// The system after every exception return that is due has been made:
    /// while the next fetch would be at `EXC_RETURN_ADDR`, a frame is
    /// unwound.
    pub open spec fn unwind(self) -> Machine
        decreases self.unwind_bound(),
        when self.wf()
        via Self::unwind_decreases
    {
        if self.fetch_address() == EXC_RETURN_ADDR {
            self.unwind_frame().unwind()
        } else {
            self
        }
    }

    #[via_fn]
    proof fn unwind_decreases(self) {
        if self.fetch_address() == EXC_RETURN_ADDR {
            self.lemma_unwind_frame();
        }
    }

    /// What unwinding one frame does to the registers that decide whether
    /// another frame follows.
    #[verifier::rlimit(40)]
    pub proof fn lemma_unwind_frame(self)
        requires
            self.wf(),
        ensures
            self.unwind_frame().wf(),
            self.unwind_frame().reg(SP_INDEX) == self.reg(SP_INDEX).wrapping_add(32),
            self.unwind_frame().reg(PC_INDEX) == self.read_word(self.reg(SP_INDEX).wrapping_add(24)),
            self.fetch_address() == EXC_RETURN_ADDR ==> self.unwind_frame().unwind_bound()
                < self.unwind_bound(),
    {
        reveal(Machine::pop);
        let p1 = self.pop(0);
        let p2 = p1.pop(1);
        let p3 = p2.pop(2);
        let p4 = p3.pop(3);
        let p5 = p4.pop(12);
        let p6 = p5.pop(LR_INDEX);
        let p7 = p6.pop(PC_INDEX);
        assert(p1.reg(SP_INDEX) == self.reg(SP_INDEX).wrapping_add(4));
        assert(p2.reg(SP_INDEX) == self.reg(SP_INDEX).wrapping_add(8));
        assert(p3.reg(SP_INDEX) == self.reg(SP_INDEX).wrapping_add(12));
        assert(p4.reg(SP_INDEX) == self.reg(SP_INDEX).wrapping_add(16));
        assert(p5.reg(SP_INDEX) == self.reg(SP_INDEX).wrapping_add(20));
        assert(p6.reg(SP_INDEX) == self.reg(SP_INDEX).wrapping_add(24));
        assert(p7.reg(SP_INDEX) == self.reg(SP_INDEX).wrapping_add(28));
        assert(p6.read_word(p6.reg(SP_INDEX)) == self.read_word(p6.reg(SP_INDEX)));
    }

    /// The record of the decoded program for a fetch address:
    /// `NotImplemented` where the address is outside the decoded image.
    pub open spec fn fetch(self, addr: u32) -> Instruction {
        let index = addr.wrapping_sub(self.program_offset) / 2;
        if index < self.instructions.len() {
            self.instructions[index as int]
        } else {
            Instruction::NotImplemented
        }
    }

    /// The system after the next instruction has been fetched and
    /// executed: R15 advances past it first.
    pub open spec fn fetch_execute(self) -> Machine {
        self.advance_pc().execute(self.fetch(self.fetch_address()))
    }

    /// The system after one step: a pending exception is taken, exception
    /// returns that are due are made, and one instruction is executed.
    #[verifier::opaque]
    pub open spec fn step(self) -> Machine {
        self.take_pending_exception().unwind().fetch_execute()
    }

    /// The system after `n` steps.
    pub open spec fn steps(self, n: nat) -> Machine
        decreases n,
    {
        if n == 0 {
            self
        } else {
            self.steps((n - 1) as nat).step()
        }
    }

    /// Number of ticks that have passed since the tick count stood at
    /// `start`.
    pub open spec fn ticks_since(self, start: u64) -> u64 {
        self.tick_count.wrapping_sub(start)
    }

    /// Whether a run of `ticks` ticks that starts from this system ends
    /// after exactly `n` steps: not before `ticks` ticks have passed, and
    /// with no step more.
    pub open spec fn run_ends_after(self, ticks: u64, n: nat) -> bool {
        &&& self.steps(n).ticks_since(self.tick_count) >= ticks
        &&& forall|k: nat| k < n ==> (#[trigger] self.steps(k)).ticks_since(self.tick_count) < ticks
    }

    /// Whether a run of `ticks` ticks that starts from this system ends
    /// in the system `end`.
    pub open spec fn runs_to(self, ticks: u64, end: Machine) -> bool {
        exists|n: nat| self.run_ends_after(ticks, n) && end == #[trigger] self.steps(n)
    }

    /// The system with the button byte set.
    pub open spec fn with_buttons(self, button_data: u8) -> Machine {
        Machine { buttons: Buttons { button_data }, ..self }
    }

    // ----------------------------------------------------------------
    // Loading
    // ----------------------------------------------------------------
    /// Halfword `k` of the program image, as the bus reads it.
    pub open spec fn image_halfword(self, k: int) -> u16 {
        self.read_half((self.program_offset + 2 * k) as u32)
    }

    /// Record `k` of the decoded program. The halfword behind the first
    /// half of a long branch gets the record of the branch's second half;
    /// every other halfword is decoded with the halfword after it, be
    /// that one part of the image or not.
    pub open spec fn decoded_record(self, k: int) -> Instruction {
        if k > 0 && is_long_branch(self.image_halfword(k - 1), self.image_halfword(k)) {
            long_branch(self.image_halfword(k - 1), self.image_halfword(k), false)
        } else {
            decode(self.image_halfword(k), self.image_halfword(k + 1))
        }
    }

    /// The decoded program of an image of `halfwords` halfwords: one
    /// record for each halfword.
    pub open spec fn decoded(self, halfwords: int) -> Seq<Instruction> {
        Seq::new(halfwords as nat, |k: int| self.decoded_record(k))
    }

    /// The system with `contents` copied into flash at `offset`.
    pub open spec fn with_image(self, contents: Seq<u8>, offset: u32) -> Machine {
        Machine {
            program_offset: offset,
            flash: Seq::new(
                self.flash.len(),
                |i: int|
                    if offset <= i < offset + contents.len() {
                        contents[i - offset]
                    } else {
                        self.flash[i]
                    },
            ),
            ..self
        }
    }

    /// The system after reset: the stack pointer comes from the first word
    /// of the vector table, R15 from the second, with the Thumb bit
    /// dropped, and advances; LR holds `RESET_LR`; the SysTick and DMA
    /// controller vectors are taken from the table, Thumb bit dropped.
    pub open spec fn reset(self) -> Machine {
        let started = self.set_reg(SP_INDEX, self.read_word(self.program_offset)).set_reg(
            LR_INDEX,
            RESET_LR,
        ).set_reg(PC_INDEX, self.read_word(self.program_offset.wrapping_add(4)) & !1u32).advance_pc();
        Machine {
            systick_vector: self.read_word(self.program_offset.wrapping_add(SYSTICK_VECTOR_OFFSET))
                & !1u32,
            dmac_vector: self.read_word(self.program_offset.wrapping_add(DMAC_VECTOR_OFFSET)) & !1u32,
            ..started
        }
    }

    /// The system after a program has been loaded: the image is in flash,
    /// decoded, and the processor is reset.
    pub open spec fn load_program(self, contents: Seq<u8>, offset: u32) -> Machine {
        let loaded = self.with_image(contents, offset);
        Machine { instructions: loaded.decoded(contents.len() as int / 2), ..loaded }.reset()
    }

    /// The system as the emulator starts out: memories erased to 0xff,
    /// registers and flags clear, no program, a full SysTick countdown,
    /// every peripheral in its reset state.
    pub open spec fn initial() -> Machine {
        Machine {
            instructions: Seq::empty(),
            flags: CondRegister { n: false, z: false, v: false, c: false },
            registers: Seq::new(16, |i: int| 0u32),
            flash: Seq::new(FLASH_SIZE as nat, |i: int| 0xffu8),
            sram: Seq::new(SRAM_SIZE as nat, |i: int| 0xffu8),
            tick_count: 0,
            program_offset: 0,
            systick_vector: 0,
            systick_trigger: SYSTICK_COUNTDOWN,
            dmac_vector: 0,
            dmac_interrupt: false,
            dmac: DmacRegisters {
                base_address: 0,
                wrb_address: 0,
                descriptor: 0,
                selected_channel_id: 0,
            },
            porta: PortRegisters { out_value: 0, in_value: 0, dir_value: 0 },
            portb: PortRegisters { out_value: 0, in_value: 0, dir_value: 0 },
            sercom4: SercomRegisters { data: SercomRegisters::IDLE_DATA, sent: None },
            sercom5: SercomRegisters { data: SercomRegisters::IDLE_DATA, sent: None },
            screen: Display::initial(),
            buttons: Buttons { button_data: Buttons::RELEASED },
            adc_noise: 0,
        }
    }
}

} // verus!
