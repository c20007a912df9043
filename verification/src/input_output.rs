//! What hangs on the serial port: the ST7735 display controller and the
//! button shifter.

use vstd::prelude::*;
use crate::register::{PortRegisters, SercomRegisters};

verus! {

/// The ST7735 display controller with its 160 by 128 framebuffer.
pub struct St7735 {
    x_start: u8,
    x_end: u8,
    y_start: u8,
    y_end: u8,
    x: u8,
    y: u8,
    arg_index: u8,
    last_command: u8,
    tmp_data: u8,
    image_data: [u32; 20480],
}

/// The display controller as a value: the column window `x_start..=x_end`,
/// the row window `y_start..=y_end`, the pen, the number of argument bytes
/// seen since the last command, that command, the pending high byte of a
/// pixel, and the framebuffer in row-major order.
pub struct Display {
    pub x_start: u8,
    pub x_end: u8,
    pub y_start: u8,
    pub y_end: u8,
    pub x: u8,
    pub y: u8,
    pub arg_index: u8,
    pub last_command: u8,
    pub tmp_data: u8,
    pub pixels: Seq<u32>,
}

impl View for St7735 {
    type V = Display;

    closed spec fn view(&self) -> Display {
        Display {
            x_start: self.x_start,
            x_end: self.x_end,
            y_start: self.y_start,
            y_end: self.y_end,
            x: self.x,
            y: self.y,
            arg_index: self.arg_index,
            last_command: self.last_command,
            tmp_data: self.tmp_data,
            pixels: self.image_data@,
        }
    }
}

/// The framebuffer pixel for an RGB565 pixel: red, green and blue widened
/// to eight bits by zero padding on the right, alpha 255, packed with red
/// in the low byte.
pub open spec fn expand_pixel(pixel: u32) -> u32 {
    let r = (0xf800 & pixel) >> 8;
    let g = (0x07e0 & pixel) >> 3;
    let b = (0x001f & pixel) << 3;
    (255u32 << 24) | (b << 16) | (g << 8) | r
}

/// The RGB565 pixel that two bytes from the wire form, high byte first.
pub open spec fn join_pixel(high: u8, low: u8) -> u32 {
    ((high as u32) << 8) | low as u32
}

impl Display {
    /// The state after reset: everything zero, the screen black and
    /// transparent.
    pub open spec fn initial() -> Display {
        Display {
            x_start: 0,
            x_end: 0,
            y_start: 0,
            y_end: 0,
            x: 0,
            y: 0,
            arg_index: 0,
            last_command: 0,
            tmp_data: 0,
            pixels: Seq::new(St7735::PIXELS as nat, |i: int| 0u32),
        }
    }

    /// The framebuffer index under the pen.
    pub open spec fn pen_index(self) -> int {
        self.y * St7735::WIDTH + self.x
    }

    /// The display after the pen has moved on by one pixel: right by one,
    /// or from the column `x_end` (or beyond it) back to `x_start` on the
    /// next row. From the row `y_end` (or beyond it) the pen goes to no
    /// further row: it stays on `y_end`.
    pub open spec fn advance_pen(self) -> Display {
        if self.x >= self.x_end {
            Display {
                x: self.x_start,
                y: if self.y >= self.y_end {
                    self.y_end
                } else {
                    (self.y + 1) as u8
                },
                ..self
            }
        } else {
            Display { x: (self.x + 1) as u8, ..self }
        }
    }

    /// The display after a pixel has been written at the pen. A pen
    /// outside the framebuffer writes nothing and still moves on.
    pub open spec fn put_pixel(self, pixel: u32) -> Display {
        let written = if self.pen_index() < St7735::PIXELS {
            Display { pixels: self.pixels.update(self.pen_index(), expand_pixel(pixel)), ..self }
        } else {
            self
        };
        written.advance_pen()
    }

    /// The display after an argument byte of the last command. RAMWR takes
    /// bytes in pairs, high byte first, and writes a pixel on each second
    /// byte. CASET and RASET take the window's start (which is also where
    /// the pen goes) from their second byte and its end from their fourth.
    /// Every argument byte is counted.
    pub open spec fn receive_argument(self, value: u8) -> Display {
        let acted = if self.last_command == St7735::RAMWR {
            if self.arg_index % 2 == 0 {
                Display { tmp_data: value, ..self }
            } else {
                self.put_pixel(join_pixel(self.tmp_data, value))
            }
        } else if self.last_command == St7735::CASET {
            if self.arg_index == 1 {
                Display { x_start: value, x: value, ..self }
            } else if self.arg_index == 3 {
                Display { x_end: value, ..self }
            } else {
                self
            }
        } else if self.last_command == St7735::RASET {
            if self.arg_index == 1 {
                Display { y_start: value, y: value, ..self }
            } else if self.arg_index == 3 {
                Display { y_end: value, ..self }
            } else {
                self
            }
        } else {
            self
        };
        Display { arg_index: self.arg_index.wrapping_add(1), ..acted }
    }

    /// The display after a byte has arrived on the serial port, given the
    /// output latches of the two GPIO ports. With the chip select line
    /// high the byte is ignored. With the data/command line low the byte
    /// is a command; with it high, an argument of the last command.
    pub open spec fn receive(self, value: u8, porta_out: u32, portb_out: u32) -> Display {
        if porta_out & St7735::CHIP_SELECT != 0 {
            self
        } else if portb_out & St7735::DATA_COMMAND != 0 {
            self.receive_argument(value)
        } else {
            Display { last_command: value, arg_index: 0, ..self }
        }
    }
}

impl St7735 {
    /// Column address set.
    pub const CASET: u8 = 0x2a;

    /// Row address set.
    pub const RASET: u8 = 0x2b;

    /// Memory write.
    pub const RAMWR: u8 = 0x2c;

    /// Screen width in pixels.
    pub const WIDTH: usize = 160;

    /// Screen height in pixels.
    pub const HEIGHT: usize = 128;

    /// Number of pixels of the framebuffer.
    pub const PIXELS: usize = 20480;

    /// The chip select line of the display on port A: high is deselected.
    pub const CHIP_SELECT: u32 = 1 << 22;

    /// The data/command line of the display on port B: high is data.
    pub const DATA_COMMAND: u32 = 1 << 23;

    /// The display after reset.
    pub fn new() -> (display: St7735)
        ensures
            display@ == Display::initial(),
    {
        let display = St7735 {
            x_start: 0,
            x_end: 0,
            y_start: 0,
            y_end: 0,
            x: 0,
            y: 0,
            arg_index: 0,
            last_command: 0,
            tmp_data: 0,
            image_data: [0u32; 20480],
        };
        assert(display@.pixels =~= Display::initial().pixels);
        display
    }

    /// The framebuffer: 20480 pixels in row-major order.
    pub fn image_pointer(&self) -> (pixels: &[u32; 20480])
        ensures
            pixels@ == self@.pixels,
    {
        &self.image_data
    }

    /// The framebuffer always has its 20480 pixels.
    pub proof fn lemma_pixels_len(&self)
        ensures
            self@.pixels.len() == St7735::PIXELS,
    {
    }

    /// Takes one byte from the serial port, with the two GPIO ports as
    /// they stand.
    pub fn byte_received(&mut self, value: u8, porta: &PortRegisters, portb: &PortRegisters)
        ensures
            final(self)@ == old(self)@.receive(value, porta.out_value, portb.out_value),
    {
        if porta.out_value & St7735::CHIP_SELECT != 0 {
            return ;
        }
        if portb.out_value & St7735::DATA_COMMAND != 0 {
            if self.last_command == St7735::RAMWR {
                if self.arg_index % 2 == 0 {
                    self.tmp_data = value;
                } else {
                    let pixel_data = ((self.tmp_data as u32) << 8) | value as u32;
                    let r = (0xf800 & pixel_data) >> 8;
                    let g = (0x07e0 & pixel_data) >> 3;
                    let b = (0x001f & pixel_data) << 3;
                    let color = (255u32 << 24) | (b << 16) | (g << 8) | r;
                    let base_index = self.y as usize * St7735::WIDTH + self.x as usize;
                    if base_index < St7735::PIXELS {
                        self.image_data[base_index] = color;
                    }
                    if self.x >= self.x_end {
                        self.x = self.x_start;
                        if self.y >= self.y_end {
                            self.y = self.y_end;
                        } else {
                            self.y = self.y + 1;
                        }
                    } else {
                        self.x = self.x + 1;
                    }
                }
            } else if self.last_command == St7735::CASET {
                if self.arg_index == 1 {
                    self.x_start = value;
                    self.x = value;
                } else if self.arg_index == 3 {
                    self.x_end = value;
                }
            } else if self.last_command == St7735::RASET {
                if self.arg_index == 1 {
                    self.y_start = value;
                    self.y = value;
                } else if self.arg_index == 3 {
                    self.y_end = value;
                }
            }
            self.arg_index = self.arg_index.wrapping_add(1);
        } else {
            self.last_command = value;
            self.arg_index = 0;
        }
    }
}

/// The button shifter: the byte that stands for the buttons held down.
#[derive(Clone, Copy, Debug, PartialEq, Eq, Structural)]
pub struct Buttons {
    pub button_data: u8,
}

impl Buttons {
    /// The chip select line of the button shifter on port B: low is
    /// selected.
    pub const CHIP_SELECT: u32 = 1 << 3;

    /// The byte after reset: no button held down.
    pub const RELEASED: u8 = 0xff;

    /// The shifter with no button held down.
    pub fn new() -> (buttons: Buttons)
        ensures
            buttons == (Buttons { button_data: Buttons::RELEASED }),
    {
        Buttons { button_data: Buttons::RELEASED }
    }

    /// The serial port after the shifter has seen a byte go out: while
    /// selected, the shifter answers with the button byte, which becomes
    /// the port's received byte.
    pub open spec fn answer(self, portb_out: u32, sercom4: SercomRegisters) -> SercomRegisters {
        if portb_out & Buttons::CHIP_SELECT != 0 {
            sercom4
        } else {
            SercomRegisters { data: self.button_data, ..sercom4 }
        }
    }

    /// Sees one byte go out on the serial port, with port B as it stands.
    pub fn byte_received(&mut self, _value: u8, portb: &PortRegisters, sercom4: &mut SercomRegisters)
        ensures
            *final(self) == *old(self),
            *final(sercom4) == old(self).answer(portb.out_value, *old(sercom4)),
    {
        if portb.out_value & Buttons::CHIP_SELECT != 0 {
            return ;
        }
        sercom4.data = self.button_data;
    }
}

} // verus!
