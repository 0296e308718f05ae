//! Paper widths the printer can be fitted with.

use vstd::prelude::*;

verus! {

/// Width of the paper roll.
#[derive(Debug, Clone, Copy, PartialEq, Eq, Structural)]
pub enum PaperSize {
    Size58mm,
    Size80mm,
}

/// Dots that one character cell of the standard font takes across.
pub const DOTS_PER_CHAR: usize = 12;

impl PaperSize {
    /// Characters of the standard font that fit on one line.
    pub open spec fn columns(self) -> nat {
        match self {
            PaperSize::Size58mm => 32,
            PaperSize::Size80mm => 48,
        }
    }

    /// Characters of the standard font that fit on one line.
    pub fn chars_per_line(&self) -> (n: usize)
        ensures
            n == self.columns(),
    {
        match self {
            PaperSize::Size58mm => 32,
            PaperSize::Size80mm => 48,
        }
    }

    /// Width of the print head in dots: 384 for 58 mm paper, 576 for 80 mm.
    pub fn width_dots(&self) -> (n: usize)
        ensures
            n == self.columns() * 12,
    {
        self.chars_per_line() * DOTS_PER_CHAR
    }

    /// Name of the paper size as shown to the user.
    pub fn label(&self) -> (s: &'static str)
        ensures
            s@ == (match *self {
                PaperSize::Size58mm => "58mm"@,
                PaperSize::Size80mm => "80mm"@,
            }),
    {
        match self {
            PaperSize::Size58mm => "58mm",
            PaperSize::Size80mm => "80mm",
        }
    }
}

} // verus!
