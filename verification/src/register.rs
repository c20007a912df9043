//! The condition flags and the register blocks of the on-chip peripherals:
//! DMA controller, GPIO ports and serial ports.

use vstd::prelude::*;
use crate::bits::lemma_split_word;
use crate::emulator::Gamebuino;

verus! {

/// The condition flags N, Z, V and C.
#[derive(Clone, Copy, Debug, PartialEq, Eq, Structural)]
pub struct CondRegister {
    pub n: bool,
    pub z: bool,
    pub v: bool,
    pub c: bool,
}

proof fn lemma_flag_bits(c: u32, n: u32, v: u32, z: u32, val: u32)
    by (bit_vector)
    requires
        c == 0 || c == 1,
        n == 0 || n == 2,
        v == 0 || v == 4,
        z == 0 || z == 8,
    ensures
        c | n | v | z == c + n + v + z,
        (val & 1 != 0) == (val % 2 == 1),
        (val & 2 != 0) == ((val / 2) % 2 == 1),
        (val & 4 != 0) == ((val / 4) % 2 == 1),
        (val & 8 != 0) == ((val / 8) % 2 == 1),
{
}

impl CondRegister {
    /// The flags as the word that an exception frame holds: C has weight
    /// 1, N weight 2, V weight 4 and Z weight 8.
    pub open spec fn word(self) -> u32 {
        ((if self.c { 1int } else { 0 }) + (if self.n { 2int } else { 0 }) + (if self.v { 4int } else { 0 })
            + (if self.z { 8int } else { 0 })) as u32
    }

    /// The flags that the low four bits of a word stand for.
    pub open spec fn of_word(val: u32) -> CondRegister {
        CondRegister {
            c: val % 2 == 1,
            n: (val / 2) % 2 == 1,
            v: (val / 4) % 2 == 1,
            z: (val / 8) % 2 == 1,
        }
    }

    /// The flags as a word, for an exception frame.
    pub fn to_word(&self) -> (word: u32)
        ensures
            word == self.word(),
    {
        let c: u32 = if self.c { 1 } else { 0 };
        let n: u32 = if self.n { 2 } else { 0 };
        let v: u32 = if self.v { 4 } else { 0 };
        let z: u32 = if self.z { 8 } else { 0 };
        proof {
            lemma_flag_bits(c, n, v, z, 0);
        }
        c | n | v | z
    }

    /// Takes the flags from the low four bits of a word.
    pub fn from_word(&mut self, val: u32)
        ensures
            *final(self) == CondRegister::of_word(val),
    {
        proof {
            lemma_flag_bits(0, 0, 0, 0, val);
        }
        self.c = val & 1 != 0;
        self.n = val & 2 != 0;
        self.v = val & 4 != 0;
        self.z = val & 8 != 0;
    }
}

/// A block of memory-mapped registers. Offsets count bytes from the start
/// of the block's window. A write may act on the rest of the system, which
/// is handed in; while it does, the block itself is held apart from the
/// system and put back when the write is done.
pub trait Peripheral {
    fn handle_write_word(&mut self, offset: u32, value: u32, gamebuino: &mut Gamebuino);

    fn handle_write_byte(&mut self, offset: u32, value: u8, gamebuino: &mut Gamebuino);

    fn handle_read_word(&self, offset: u32) -> u32;

    fn handle_read_byte(&self, offset: u32) -> u8;
}

/// The DMA controller: descriptor table base, write-back base, the
/// descriptor that the next transfer uses (0: take it from the table) and
/// the selected channel.
#[derive(Clone, Copy, Debug, PartialEq, Eq, Structural)]
pub struct DmacRegisters {
    pub base_address: u32,
    pub wrb_address: u32,
    pub descriptor: u32,
    pub selected_channel_id: u8,
}

impl DmacRegisters {
    pub const BASEADDR_OFFSET: u32 = 0x34;

    pub const WRBADDR_OFFSET: u32 = 0x38;

    pub const CHID_OFFSET: u32 = 0x3f;

    pub const CHCTRLA_OFFSET: u32 = 0x40;

    pub const CHINTFLAG_OFFSET: u32 = 0x4e;

    pub const DMAC_START_ADDR: u32 = 0x41004800;

    pub const DMAC_END_ADDR: u32 = DmacRegisters::DMAC_START_ADDR + DmacRegisters::CHINTFLAG_OFFSET;

    /// The value that starts a transfer when written to CHCTRLA.
    pub const ENABLE: u8 = 0b10;

    /// The transfer-complete flag, which CHINTFLAG always shows.
    pub const TCMPL: u8 = 0b010;

    /// The controller after reset.
    pub fn new() -> (registers: DmacRegisters)
        ensures
            registers == (DmacRegisters {
                base_address: 0,
                wrb_address: 0,
                descriptor: 0,
                selected_channel_id: 0,
            }),
    {
        DmacRegisters { base_address: 0, wrb_address: 0, descriptor: 0, selected_channel_id: 0 }
    }

    /// The registers after a word write: BASEADDR and WRBADDR take the
    /// value, no other offset is writable by word.
    pub open spec fn after_write_word(self, offset: u32, value: u32) -> DmacRegisters {
        if offset == DmacRegisters::BASEADDR_OFFSET {
            DmacRegisters { base_address: value, ..self }
        } else if offset == DmacRegisters::WRBADDR_OFFSET {
            DmacRegisters { wrb_address: value, ..self }
        } else {
            self
        }
    }

    /// The descriptor that a transfer triggered now would read.
    pub open spec fn active_descriptor(self) -> u32 {
        if self.descriptor == 0 {
            self.base_address.wrapping_add((self.selected_channel_id * 0x10) as u32)
        } else {
            self.descriptor
        }
    }

    /// What a read of either width returns: CHINTFLAG shows TCMPL, every
    /// other offset reads 0.
    pub open spec fn read(offset: u32) -> u8 {
        if offset == DmacRegisters::CHINTFLAG_OFFSET {
            DmacRegisters::TCMPL
        } else {
            0
        }
    }
}

impl Peripheral for DmacRegisters {
    fn handle_write_word(&mut self, offset: u32, value: u32, gamebuino: &mut Gamebuino)
        ensures
            *final(self) == old(self).after_write_word(offset, value),
            *final(gamebuino) == *old(gamebuino),
    {
        if offset == DmacRegisters::BASEADDR_OFFSET {
            self.base_address = value;
        } else if offset == DmacRegisters::WRBADDR_OFFSET {
            self.wrb_address = value;
        }
    }

    /// A byte write selects the channel (CHID) or, with `ENABLE` written
    /// to CHCTRLA, runs one transfer on the system handed in and
    /// raises the controller's interrupt.
    #[verifier::rlimit(40)]
    fn handle_write_byte(&mut self, offset: u32, value: u8, gamebuino: &mut Gamebuino)
        ensures
            final(gamebuino)@ == old(gamebuino)@.dmac_write_byte(*old(self), offset, value).1,
            *final(self) == old(gamebuino)@.dmac_write_byte(*old(self), offset, value).0,
            final(gamebuino)@.counts_since(old(gamebuino)@, 0),
    {
        if offset == DmacRegisters::CHID_OFFSET {
            self.selected_channel_id = value;
        } else if offset == DmacRegisters::CHCTRLA_OFFSET {
            if value == DmacRegisters::ENABLE {
                if self.descriptor == 0 {
                    self.descriptor = self.base_address.wrapping_add(
                        self.selected_channel_id as u32 * 0x10,
                    );
                }
                let btcnt = gamebuino.fetch_half_word(self.descriptor.wrapping_add(0x02)) as u32;
                let srcaddr = gamebuino.fetch_word(self.descriptor.wrapping_add(0x04));
                let dstaddr = gamebuino.fetch_word(self.descriptor.wrapping_add(0x08));
                let descaddr = gamebuino.fetch_word(self.descriptor.wrapping_add(0x0c));
                let ghost counted = gamebuino@;
                let mut i: u32 = 0;
                while i < btcnt
                    invariant
                        i <= btcnt,
                        gamebuino@.dma_copy(srcaddr, dstaddr, btcnt, i) == counted.dma_copy(
                            srcaddr,
                            dstaddr,
                            btcnt,
                            0,
                        ),
                        gamebuino@.counts_since(old(gamebuino)@, 0),
                    decreases btcnt - i,
                {
                    let byte = gamebuino.fetch_byte(srcaddr.wrapping_add(i).wrapping_sub(btcnt));
                    gamebuino.dma_store_byte(dstaddr, byte);
                    i += 1;
                }
                self.descriptor = descaddr;
                gamebuino.dmac_interrupt();
            }
        }
    }

    fn handle_read_word(&self, offset: u32) -> (value: u32)
        ensures
            value == DmacRegisters::read(offset),
    {
        if offset == DmacRegisters::CHINTFLAG_OFFSET {
            DmacRegisters::TCMPL as u32
        } else {
            0
        }
    }

    fn handle_read_byte(&self, offset: u32) -> (value: u8)
        ensures
            value == DmacRegisters::read(offset),
    {
        if offset == DmacRegisters::CHINTFLAG_OFFSET {
            DmacRegisters::TCMPL
        } else {
            0
        }
    }
}

/// One GPIO port: output latch, input and direction words.
#[derive(Clone, Copy, Debug, PartialEq, Eq, Structural)]
pub struct PortRegisters {
    pub out_value: u32,
    pub in_value: u32,
    pub dir_value: u32,
}

impl PortRegisters {
    pub const DIR_OFFSET: u32 = 0x00;

    pub const DIRCLR_OFFSET: u32 = 0x04;

    pub const DIRSET_OFFSET: u32 = 0x08;

    pub const DIRTGL_OFFSET: u32 = 0x0c;

    pub const OUT_OFFSET: u32 = 0x10;

    pub const OUTCLR_OFFSET: u32 = 0x14;

    pub const OUTSET_OFFSET: u32 = 0x18;

    pub const OUTTGL_OFFSET: u32 = 0x1c;

    pub const IN_OFFSET: u32 = 0x20;

    pub const PORTA_START_ADDR: u32 = 0x41004400;

    pub const PORTA_END_ADDR: u32 = PortRegisters::PORTA_START_ADDR + PortRegisters::IN_OFFSET;

    pub const PORTB_START_ADDR: u32 = 0x41004480;

    pub const PORTB_END_ADDR: u32 = PortRegisters::PORTB_START_ADDR + PortRegisters::IN_OFFSET;

    /// The port after reset.
    pub fn new() -> (registers: PortRegisters)
        ensures
            registers == (PortRegisters { out_value: 0, in_value: 0, dir_value: 0 }),
    {
        PortRegisters { out_value: 0, in_value: 0, dir_value: 0 }
    }

    /// The port after a word write. OUT takes the value; OUTCLR clears,
    /// OUTSET sets and OUTTGL toggles the bits given. DIRCLR clears and
    /// DIRSET sets direction bits; DIR and DIRTGL both toggle them. IN and
    /// every other offset are not writable.
    pub open spec fn after_write_word(self, offset: u32, value: u32) -> PortRegisters {
        if offset == PortRegisters::OUT_OFFSET {
            PortRegisters { out_value: value, ..self }
        } else if offset == PortRegisters::OUTCLR_OFFSET {
            PortRegisters { out_value: self.out_value & !value, ..self }
        } else if offset == PortRegisters::OUTSET_OFFSET {
            PortRegisters { out_value: self.out_value | value, ..self }
        } else if offset == PortRegisters::OUTTGL_OFFSET {
            PortRegisters { out_value: self.out_value ^ value, ..self }
        } else if offset == PortRegisters::DIR_OFFSET || offset == PortRegisters::DIRTGL_OFFSET {
            PortRegisters { dir_value: self.dir_value ^ value, ..self }
        } else if offset == PortRegisters::DIRCLR_OFFSET {
            PortRegisters { dir_value: self.dir_value & !value, ..self }
        } else if offset == PortRegisters::DIRSET_OFFSET {
            PortRegisters { dir_value: self.dir_value | value, ..self }
        } else {
            self
        }
    }

    /// What a word read returns: the output latch at the four OUT
    /// offsets, the direction word at the four DIR offsets, the input word
    /// at IN, and 0 elsewhere.
    pub open spec fn read_word(self, offset: u32) -> u32 {
        if offset == PortRegisters::OUT_OFFSET || offset == PortRegisters::OUTCLR_OFFSET || offset
            == PortRegisters::OUTSET_OFFSET || offset == PortRegisters::OUTTGL_OFFSET {
            self.out_value
        } else if offset == PortRegisters::IN_OFFSET {
            self.in_value
        } else if offset == PortRegisters::DIR_OFFSET || offset == PortRegisters::DIRCLR_OFFSET
            || offset == PortRegisters::DIRSET_OFFSET || offset == PortRegisters::DIRTGL_OFFSET {
            self.dir_value
        } else {
            0
        }
    }
}

impl Peripheral for PortRegisters {
    fn handle_write_word(&mut self, offset: u32, value: u32, gamebuino: &mut Gamebuino)
        ensures
            *final(self) == old(self).after_write_word(offset, value),
            *final(gamebuino) == *old(gamebuino),
    {
        if offset == PortRegisters::OUT_OFFSET {
            self.out_value = value;
        } else if offset == PortRegisters::OUTCLR_OFFSET {
            self.out_value = self.out_value & !value;
        } else if offset == PortRegisters::OUTSET_OFFSET {
            self.out_value = self.out_value | value;
        } else if offset == PortRegisters::OUTTGL_OFFSET {
            self.out_value = self.out_value ^ value;
        } else if offset == PortRegisters::DIR_OFFSET {
            self.dir_value = self.dir_value ^ value;
        } else if offset == PortRegisters::DIRCLR_OFFSET {
            self.dir_value = self.dir_value & !value;
        } else if offset == PortRegisters::DIRSET_OFFSET {
            self.dir_value = self.dir_value | value;
        } else if offset == PortRegisters::DIRTGL_OFFSET {
            self.dir_value = self.dir_value ^ value;
        }
    }

    /// A port has no byte-writable register.
    fn handle_write_byte(&mut self, offset: u32, value: u8, gamebuino: &mut Gamebuino)
        ensures
            *final(self) == *old(self),
            *final(gamebuino) == *old(gamebuino),
    {
    }

    fn handle_read_word(&self, offset: u32) -> (value: u32)
        ensures
            value == self.read_word(offset),
    {
        if offset == PortRegisters::OUT_OFFSET || offset == PortRegisters::OUTCLR_OFFSET || offset
            == PortRegisters::OUTSET_OFFSET || offset == PortRegisters::OUTTGL_OFFSET {
            self.out_value
        } else if offset == PortRegisters::IN_OFFSET {
            self.in_value
        } else if offset == PortRegisters::DIR_OFFSET || offset == PortRegisters::DIRCLR_OFFSET
            || offset == PortRegisters::DIRSET_OFFSET || offset == PortRegisters::DIRTGL_OFFSET {
            self.dir_value
        } else {
            0
        }
    }

    /// A port has no byte-readable register.
    fn handle_read_byte(&self, offset: u32) -> (value: u8)
        ensures
            value == 0,
    {
        0
    }
}

/// One serial port: the byte that a read of DATA returns, and the byte
/// that the last write to DATA sent, until it has been delivered.
#[derive(Clone, Copy, Debug, PartialEq, Eq, Structural)]
pub struct SercomRegisters {
    pub data: u8,
    pub sent: Option<u8>,
}

impl SercomRegisters {
    pub const INTFLAG_OFFSET: u32 = 0x18;

    pub const DATA_OFFSET: u32 = 0x28;

    pub const SERCOM4_START_ADDR: u32 = 0x4200_2000;

    pub const SERCOM4_END_ADDR: u32 = SercomRegisters::SERCOM4_START_ADDR
        + SercomRegisters::DATA_OFFSET;

    pub const SERCOM5_START_ADDR: u32 = 0x4200_2400;

    pub const SERCOM5_END_ADDR: u32 = SercomRegisters::SERCOM5_START_ADDR
        + SercomRegisters::DATA_OFFSET;

    /// What DATA reads when nothing has been received.
    pub const IDLE_DATA: u8 = 0x80;

    /// RXC, TXC and DRE, which INTFLAG always shows.
    pub const READY: u8 = 0b0000_0111;

    /// The port after reset: idle, nothing sent.
    pub fn new() -> (registers: SercomRegisters)
        ensures
            registers == (SercomRegisters { data: SercomRegisters::IDLE_DATA, sent: None }),
    {
        SercomRegisters { data: SercomRegisters::IDLE_DATA, sent: None }
    }

    /// The port after a write of `value`: a write to DATA sends the byte
    /// and sets the received byte back to idle; no other offset is
    /// writable.
    pub open spec fn after_write(self, offset: u32, value: u8) -> SercomRegisters {
        if offset == SercomRegisters::DATA_OFFSET {
            SercomRegisters { data: SercomRegisters::IDLE_DATA, sent: Some(value) }
        } else {
            self
        }
    }

    /// What a read of either width returns: INTFLAG shows `READY`, DATA
    /// the received byte, every other offset 0.
    pub open spec fn read(self, offset: u32) -> u8 {
        if offset == SercomRegisters::INTFLAG_OFFSET {
            SercomRegisters::READY
        } else if offset == SercomRegisters::DATA_OFFSET {
            self.data
        } else {
            0
        }
    }
}

impl Peripheral for SercomRegisters {
    /// A word write sends the low byte of the word.
    fn handle_write_word(&mut self, offset: u32, value: u32, gamebuino: &mut Gamebuino)
        ensures
            *final(self) == old(self).after_write(offset, (value % 0x100) as u8),
            *final(gamebuino) == *old(gamebuino),
    {
        proof {
            lemma_split_word(value);
        }
        if offset == SercomRegisters::DATA_OFFSET {
            self.data = SercomRegisters::IDLE_DATA;
            self.sent = Some((value & 0xff) as u8);
        }
    }

    fn handle_write_byte(&mut self, offset: u32, value: u8, gamebuino: &mut Gamebuino)
        ensures
            *final(self) == old(self).after_write(offset, value),
            *final(gamebuino) == *old(gamebuino),
    {
        if offset == SercomRegisters::DATA_OFFSET {
            self.data = SercomRegisters::IDLE_DATA;
            self.sent = Some(value);
        }
    }

    fn handle_read_word(&self, offset: u32) -> (value: u32)
        ensures
            value == self.read(offset),
    {
        if offset == SercomRegisters::INTFLAG_OFFSET {
            SercomRegisters::READY as u32
        } else if offset == SercomRegisters::DATA_OFFSET {
            self.data as u32
        } else {
            0
        }
    }

    fn handle_read_byte(&self, offset: u32) -> (value: u8)
        ensures
            value == self.read(offset),
    {
        if offset == SercomRegisters::INTFLAG_OFFSET {
            SercomRegisters::READY
        } else if offset == SercomRegisters::DATA_OFFSET {
            self.data
        } else {
            0
        }
    }
}

/// The timer/counter block TC5, of which only the address is known to the
/// emulator.
pub struct TcRegisters {}

impl TcRegisters {
    pub const TC5_ADDRESS: u32 = 0x42003400;

    pub const TC5_CC_ADDRESS: u32 = TcRegisters::TC5_ADDRESS + 0x18;
}

} // verus!
