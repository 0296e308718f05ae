//! The printer's formatting state.

use vstd::prelude::*;
use crate::grammar::le16;

verus! {

/// Horizontal placement of a line, an image or a code.
#[derive(Debug, Clone, Copy, PartialEq, Eq, Structural)]
pub enum Alignment {
    Left,
    Center,
    Right,
}

/// Table by which the bytes of a line become characters.
#[derive(Debug, Clone, Copy, PartialEq, Eq, Structural)]
pub enum TextEncoding {
    Cp437,
    Windows1250,
    Windows1251,
    Windows1252,
    ShiftJis,
}

/// Line spacing in dots that the printer starts with and `ESC 2` restores.
pub const DEFAULT_LINE_SPACING: u8 = 30;

/// Print density that the printer starts with.
pub const DEFAULT_DENSITY: u8 = 4;

/// Darkest print density.
pub const MAX_DENSITY: u8 = 8;

/// Formatting attributes in force for what is printed next.
#[derive(Debug, Clone, Copy, PartialEq, Eq, Structural)]
pub struct PrinterState {
    pub bold: bool,
    pub underline: bool,
    pub double_width: bool,
    pub double_height: bool,
    pub inverted: bool,
    pub alignment: Alignment,
    /// 0 to 8, darker with higher values.
    pub print_density: u8,
    /// Decode table that `code_page` selects.
    pub encoding: TextEncoding,
    pub code_page: u8,
    /// Dots; used by the next positioned element, then cleared.
    pub horizontal_offset: u16,
    /// Dots.
    pub left_margin: u16,
    /// Dots; 0 stands for the full width of the print head.
    pub print_area_width: u16,
    /// Dots between lines.
    pub line_spacing: u8,
    /// Extra dots between glyphs.
    pub character_spacing: u8,
    pub double_strike: bool,
    /// 0 is font A, 1 font B, 2 font C.
    pub font: u8,
}

/// The decode table that a code page number selects.
pub open spec fn encoding_of_code_page(page: u8) -> TextEncoding {
    if page == 0 {
        TextEncoding::Cp437
    } else if page == 17 {
        TextEncoding::Windows1251
    } else if page == 18 {
        TextEncoding::Windows1250
    } else if page == 20 || page == 21 || page == 255 {
        TextEncoding::ShiftJis
    } else {
        TextEncoding::Windows1252
    }
}

/// Looks up the decode table for a code page number.
pub fn encoding_for_code_page(page: u8) -> (encoding: TextEncoding)
    ensures
        encoding == encoding_of_code_page(page),
{
    match page {
        0 => TextEncoding::Cp437,
        17 => TextEncoding::Windows1251,
        18 => TextEncoding::Windows1250,
        20 | 21 | 255 => TextEncoding::ShiftJis,
        _ => TextEncoding::Windows1252,
    }
}

impl PrinterState {
    /// The state of a printer that was just switched on or initialised.
    pub open spec fn initial() -> PrinterState {
        PrinterState {
            bold: false,
            underline: false,
            double_width: false,
            double_height: false,
            inverted: false,
            alignment: Alignment::Left,
            print_density: 4,
            encoding: TextEncoding::Cp437,
            code_page: 0,
            horizontal_offset: 0,
            left_margin: 0,
            print_area_width: 0,
            line_spacing: 30,
            character_spacing: 0,
            double_strike: false,
            font: 0,
        }
    }
}

/// The alignment that the parameter of `ESC a` selects.
pub open spec fn alignment_of(n: u8) -> Alignment {
    if n == 1 {
        Alignment::Center
    } else if n == 2 {
        Alignment::Right
    } else {
        Alignment::Left
    }
}

/// The smaller of a density parameter and the darkest density.
pub open spec fn capped_density(n: u8) -> u8 {
    if n > 8 {
        8
    } else {
        n
    }
}

/// A 16-bit number, low byte first, read as a signed one.
pub open spec fn signed_le16(lo: u8, hi: u8) -> int {
    if hi >= 128 {
        le16(lo, hi) - 65536
    } else {
        le16(lo, hi) as int
    }
}

/// The horizontal offset after a relative move, held to 0..=65535.
pub open spec fn moved_offset(offset: u16, lo: u8, hi: u8) -> u16 {
    let target = offset + signed_le16(lo, hi);
    if target < 0 {
        0
    } else if target > 65535 {
        65535
    } else {
        target as u16
    }
}

/// Width multiplier that the parameter of `GS !` selects.
pub open spec fn width_multiplier(n: u8) -> int {
    (n & 0x07u8) + 1
}

/// Height multiplier that the parameter of `GS !` selects.
pub open spec fn height_multiplier(n: u8) -> int {
    ((n >> 4u8) & 0x07u8) + 1
}

impl PrinterState {
    /// The formatting after the ESC command `c` with the one parameter `n`.
    /// A command that is no formatting switch leaves it as it is.
    pub open spec fn after_esc(self, c: u8, n: u8) -> PrinterState {
        if c == 0x45 /* E */ {
            PrinterState { bold: n == 1, ..self }
        } else if c == 0x2D /* - */ {
            PrinterState { underline: n == 1 || n == 2, ..self }
        } else if c == 0x61 /* a */ {
            PrinterState { alignment: alignment_of(n), ..self }
        } else if c == 0x21 /* ! */ {
            PrinterState {
                bold: n & 0x08u8 != 0u8,
                double_height: n & 0x10u8 != 0u8,
                double_width: n & 0x20u8 != 0u8,
                underline: n & 0x80u8 != 0u8,
                ..self
            }
        } else if c == 0x7E /* ~ */ {
            PrinterState { print_density: capped_density(n), ..self }
        } else if c == 0x20 /* SP */ {
            PrinterState { character_spacing: n, ..self }
        } else if c == 0x74 /* t */ {
            PrinterState { code_page: n, encoding: encoding_of_code_page(n), ..self }
        } else if c == 0x4D /* M */ {
            PrinterState { font: n, ..self }
        } else if c == 0x33 /* 3 */ {
            PrinterState { line_spacing: n, ..self }
        } else if c == 0x47 /* G */ {
            PrinterState { double_strike: n != 0, ..self }
        } else {
            self
        }
    }

    /// The formatting after `ESC $` (an absolute offset) or `ESC \` (a
    /// signed distance from the offset in force) with a 16-bit parameter.
    pub open spec fn after_esc_position(self, c: u8, lo: u8, hi: u8) -> PrinterState {
        if c == 0x24 /* $ */ {
            PrinterState { horizontal_offset: le16(lo, hi) as u16, ..self }
        } else if c == 0x5C /* \ */ {
            PrinterState { horizontal_offset: moved_offset(self.horizontal_offset, lo, hi), ..self }
        } else {
            self
        }
    }

    /// The formatting after the GS command `c` with the one parameter `n`.
    pub open spec fn after_gs(self, c: u8, n: u8) -> PrinterState {
        if c == 0x21 /* ! */ {
            PrinterState {
                double_width: width_multiplier(n) > 1,
                double_height: height_multiplier(n) > 1,
                ..self
            }
        } else if c == 0x42 /* B */ {
            PrinterState { inverted: n == 1, ..self }
        } else {
            self
        }
    }

    /// The formatting after `GS L` (left margin) or `GS W` (print area
    /// width) with a 16-bit parameter.
    pub open spec fn after_gs_extent(self, c: u8, lo: u8, hi: u8) -> PrinterState {
        if c == 0x4C /* L */ {
            PrinterState { left_margin: le16(lo, hi) as u16, ..self }
        } else if c == 0x57 /* W */ {
            PrinterState { print_area_width: le16(lo, hi) as u16, ..self }
        } else {
            self
        }
    }

    /// Applies the ESC command `cmd` with the one parameter `n`.
    pub fn esc_setting(&mut self, cmd: u8, n: u8)
        ensures
            *final(self) == old(self).after_esc(cmd, n),
    {
        match cmd {
            // E: bold
            0x45 => {
                self.bold = n == 1;
            },
            // -: underline, one or two dots thick
            0x2D => {
                self.underline = n == 1 || n == 2;
            },
            // a: alignment
            0x61 => {
                self.alignment = match n {
                    1 => Alignment::Center,
                    2 => Alignment::Right,
                    _ => Alignment::Left,
                };
            },
            // !: print mode bits
            0x21 => {
                self.bold = (n & 0x08u8) != 0u8;
                self.double_height = (n & 0x10u8) != 0u8;
                self.double_width = (n & 0x20u8) != 0u8;
                self.underline = (n & 0x80u8) != 0u8;
            },
            // ~: print density
            0x7E => {
                self.print_density = if n > MAX_DENSITY {
                    MAX_DENSITY
                } else {
                    n
                };
            },
            // SP: right-side character spacing
            0x20 => {
                self.character_spacing = n;
            },
            // t: character code table
            0x74 => {
                self.code_page = n;
                self.encoding = encoding_for_code_page(n);
            },
            // M: font
            0x4D => {
                self.font = n;
            },
            // 3: line spacing
            0x33 => {
                self.line_spacing = n;
            },
            // G: double-strike
            0x47 => {
                self.double_strike = n != 0;
            },
            _ => {},
        }
    }

    /// Applies `ESC $` or `ESC \` with a 16-bit parameter.
    pub fn esc_position(&mut self, cmd: u8, lo: u8, hi: u8)
        ensures
            *final(self) == old(self).after_esc_position(cmd, lo, hi),
    {
        if cmd == 0x24 {
            self.horizontal_offset = lo as u16 + (hi as u16) * 256;
        } else if cmd == 0x5C {
            let raw: i32 = lo as i32 + (hi as i32) * 256;
            let relative: i32 = if hi >= 128 {
                raw - 65536
            } else {
                raw
            };
            let target: i32 = self.horizontal_offset as i32 + relative;
            self.horizontal_offset = if target < 0 {
                0
            } else if target > 65535 {
                65535
            } else {
                target as u16
            };
        }
    }

    /// Applies the GS command `cmd` with the one parameter `n`.
    pub fn gs_setting(&mut self, cmd: u8, n: u8)
        ensures
            *final(self) == old(self).after_gs(cmd, n),
    {
        if cmd == 0x21 {
            assert(n & 0x07u8 <= 7 && (n >> 4u8) & 0x07u8 <= 7) by (bit_vector);
            let width_mul: u8 = (n & 0x07u8) + 1;
            let height_mul: u8 = ((n >> 4u8) & 0x07u8) + 1;
            self.double_width = width_mul > 1;
            self.double_height = height_mul > 1;
        } else if cmd == 0x42 {
            self.inverted = n == 1;
        }
    }

    /// Applies `GS L` or `GS W` with a 16-bit parameter.
    pub fn gs_extent(&mut self, cmd: u8, lo: u8, hi: u8)
        ensures
            *final(self) == old(self).after_gs_extent(cmd, lo, hi),
    {
        let dots: u16 = lo as u16 + (hi as u16) * 256;
        if cmd == 0x4C {
            self.left_margin = dots;
        } else if cmd == 0x57 {
            self.print_area_width = dots;
        }
    }
}

impl Default for PrinterState {
    fn default() -> (state: PrinterState)
        ensures
            state == PrinterState::initial(),
    {
        PrinterState {
            bold: false,
            underline: false,
            double_width: false,
            double_height: false,
            inverted: false,
            alignment: Alignment::Left,
            print_density: DEFAULT_DENSITY,
            encoding: TextEncoding::Cp437,
            code_page: 0,
            horizontal_offset: 0,
            left_margin: 0,
            print_area_width: 0,
            line_spacing: DEFAULT_LINE_SPACING,
            character_spacing: 0,
            double_strike: false,
            font: 0,
        }
    }
}

} // verus!
