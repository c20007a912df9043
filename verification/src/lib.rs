//! An emulator of a handheld console built around an ARMv6-M
//! microcontroller: Thumb decoder, CPU interpreter, memory-mapped bus,
//! exception engine, DMA controller, GPIO ports, serial ports, LCD
//! controller and button shifter.

pub mod bits;
pub mod emulator;
pub mod input_output;
pub mod instruction;
pub mod laws;
pub mod machine;
pub mod register;

pub use emulator::Gamebuino;
