//! What the interpreter hands to a renderer.

use vstd::prelude::*;
use crate::state::Alignment;
use crate::state::PrinterState;

verus! {

/// How the paper is cut.
#[derive(Debug, Clone, Copy, PartialEq, Eq, Structural)]
pub enum CutKind {
    Full,
    Partial,
    FeedAndFull,
    FeedAndPartial,
    Unknown,
}

/// The cut that a mode byte of `GS V` asks for.
pub open spec fn cut_of_mode(mode: u8) -> CutKind {
    if mode == 0 || mode == 48 {
        CutKind::Full
    } else if mode == 1 || mode == 49 {
        CutKind::Partial
    } else if mode == 65 {
        CutKind::FeedAndFull
    } else if mode == 66 {
        CutKind::FeedAndPartial
    } else {
        CutKind::Unknown
    }
}

impl CutKind {
    /// Decodes the mode byte of `GS V`.
    pub fn from_mode(mode: u8) -> (kind: CutKind)
        ensures
            kind == cut_of_mode(mode),
    {
        match mode {
            0 | 48 => CutKind::Full,
            1 | 49 => CutKind::Partial,
            65 => CutKind::FeedAndFull,
            66 => CutKind::FeedAndPartial,
            _ => CutKind::Unknown,
        }
    }

    /// Caption of the cut on a rendered receipt.
    pub fn label(&self) -> (s: &'static str)
        ensures
            s@ == (match *self {
                CutKind::Full => "FULL CUT"@,
                CutKind::Partial => "PARTIAL CUT"@,
                CutKind::FeedAndFull => "FEED & FULL CUT"@,
                CutKind::FeedAndPartial => "FEED & PARTIAL CUT"@,
                CutKind::Unknown => "UNKNOWN CUT"@,
            }),
    {
        match self {
            CutKind::Full => "FULL CUT",
            CutKind::Partial => "PARTIAL CUT",
            CutKind::FeedAndFull => "FEED & FULL CUT",
            CutKind::FeedAndPartial => "FEED & PARTIAL CUT",
            CutKind::Unknown => "UNKNOWN CUT",
        }
    }
}

/// One item of a receipt, in the order in which it was printed.
#[derive(Debug, Clone, PartialEq, Eq)]
#[allow(inconsistent_fields)]
pub enum ReceiptElement {
    /// A line of text with the formatting in force when it was flushed.
    Text {
        content: String,
        bold: bool,
        underline: bool,
        double_width: bool,
        double_height: bool,
        inverted: bool,
        alignment: Alignment,
        density: u8,
        offset: u16,
        left_margin: u16,
        character_spacing: u8,
        double_strike: bool,
        font: u8,
        print_area_width: u16,
    },
    /// A monochrome bitmap, row by row, most significant bit leftmost.
    RasterImage {
        width: usize,
        height: usize,
        data: Vec<u8>,
        offset: u16,
        density: u8,
        alignment: Alignment,
        bytes_per_line: usize,
        print_area_width: u16,
    },
    /// A QR code with a module size of 1 to 16.
    QrCode {
        data: String,
        size: usize,
        alignment: Alignment,
        offset: u16,
        print_area_width: u16,
    },
    PaperCut { cut_type: CutKind },
    CashDrawer { pin: u8, on_time: u8, off_time: u8 },
    /// A blank line.
    Separator,
    FormFeed,
}

/// A receipt element as a mathematical value.
#[allow(inconsistent_fields)]
pub enum ElementModel {
    Text {
        content: Seq<char>,
        bold: bool,
        underline: bool,
        double_width: bool,
        double_height: bool,
        inverted: bool,
        alignment: Alignment,
        density: u8,
        offset: u16,
        left_margin: u16,
        character_spacing: u8,
        double_strike: bool,
        font: u8,
        print_area_width: u16,
    },
    RasterImage {
        width: nat,
        height: nat,
        data: Seq<u8>,
        offset: u16,
        density: u8,
        alignment: Alignment,
        bytes_per_line: nat,
        print_area_width: u16,
    },
    QrCode {
        data: Seq<char>,
        size: nat,
        alignment: Alignment,
        offset: u16,
        print_area_width: u16,
    },
    PaperCut { cut_type: CutKind },
    CashDrawer { pin: u8, on_time: u8, off_time: u8 },
    Separator,
    FormFeed,
}

impl View for ReceiptElement {
    type V = ElementModel;

    open spec fn view(&self) -> ElementModel {
        match *self {
            ReceiptElement::Text {
                content,
                bold,
                underline,
                double_width,
                double_height,
                inverted,
                alignment,
                density,
                offset,
                left_margin,
                character_spacing,
                double_strike,
                font,
                print_area_width,
            } => ElementModel::Text {
                content: content@,
                bold,
                underline,
                double_width,
                double_height,
                inverted,
                alignment,
                density,
                offset,
                left_margin,
                character_spacing,
                double_strike,
                font,
                print_area_width,
            },
            ReceiptElement::RasterImage {
                width,
                height,
                data,
                offset,
                density,
                alignment,
                bytes_per_line,
                print_area_width,
            } => ElementModel::RasterImage {
                width: width as nat,
                height: height as nat,
                data: data@,
                offset,
                density,
                alignment,
                bytes_per_line: bytes_per_line as nat,
                print_area_width,
            },
            ReceiptElement::QrCode { data, size, alignment, offset, print_area_width } => {
                ElementModel::QrCode {
                    data: data@,
                    size: size as nat,
                    alignment,
                    offset,
                    print_area_width,
                }
            },
            ReceiptElement::PaperCut { cut_type } => ElementModel::PaperCut { cut_type },
            ReceiptElement::CashDrawer { pin, on_time, off_time } => ElementModel::CashDrawer {
                pin,
                on_time,
                off_time,
            },
            ReceiptElement::Separator => ElementModel::Separator,
            ReceiptElement::FormFeed => ElementModel::FormFeed,
        }
    }
}

/// The elements of a queue as mathematical values.
pub open spec fn elements_view(elements: Seq<ReceiptElement>) -> Seq<ElementModel> {
    elements.map_values(|e: ReceiptElement| e@)
}

/// The text element that a decoded line becomes under the given formatting.
pub open spec fn text_element(printer: PrinterState, content: Seq<char>) -> ElementModel {
    ElementModel::Text {
        content,
        bold: printer.bold,
        underline: printer.underline,
        double_width: printer.double_width,
        double_height: printer.double_height,
        inverted: printer.inverted,
        alignment: printer.alignment,
        density: printer.print_density,
        offset: printer.horizontal_offset,
        left_margin: printer.left_margin,
        character_spacing: printer.character_spacing,
        double_strike: printer.double_strike,
        font: printer.font,
        print_area_width: printer.print_area_width,
    }
}

/// The raster element for a bitmap under the given formatting.
pub open spec fn raster_element(
    printer: PrinterState,
    width: nat,
    height: nat,
    data: Seq<u8>,
    bytes_per_line: nat,
) -> ElementModel {
    ElementModel::RasterImage {
        width,
        height,
        data,
        offset: printer.horizontal_offset,
        density: printer.print_density,
        alignment: printer.alignment,
        bytes_per_line,
        print_area_width: printer.print_area_width,
    }
}

/// Module size of a printed QR code: the stored size, held to 1..=16.
pub open spec fn qr_module_size(stored: u8) -> nat {
    if stored < 1 {
        1
    } else if stored > 16 {
        16
    } else {
        stored as nat
    }
}

/// The QR element for a payload under the given formatting.
pub open spec fn qr_element(printer: PrinterState, data: Seq<char>, stored_size: u8) -> ElementModel {
    ElementModel::QrCode {
        data,
        size: qr_module_size(stored_size),
        alignment: printer.alignment,
        offset: printer.horizontal_offset,
        print_area_width: printer.print_area_width,
    }
}

impl ElementModel {
    /// Whether the element is placed by the one-shot horizontal offset.
    pub open spec fn is_positioned(self) -> bool {
        self is Text || self is RasterImage || self is QrCode
    }

    /// The horizontal offset that a positioned element was emitted with.
    pub open spec fn placed_at(self) -> u16 {
        match self {
            ElementModel::Text { offset, .. } => offset,
            ElementModel::RasterImage { offset, .. } => offset,
            ElementModel::QrCode { offset, .. } => offset,
            _ => 0,
        }
    }
}

impl PrinterState {
    /// Builds the text element for a decoded line under this formatting.
    pub fn text_element(&self, content: String) -> (element: ReceiptElement)
        ensures
            element@ == text_element(*self, content@),
    {
        ReceiptElement::Text {
            content,
            bold: self.bold,
            underline: self.underline,
            double_width: self.double_width,
            double_height: self.double_height,
            inverted: self.inverted,
            alignment: self.alignment,
            density: self.print_density,
            offset: self.horizontal_offset,
            left_margin: self.left_margin,
            character_spacing: self.character_spacing,
            double_strike: self.double_strike,
            font: self.font,
            print_area_width: self.print_area_width,
        }
    }

    /// Builds the raster element for a row-major bitmap under this formatting.
    pub fn raster_element(
        &self,
        width: usize,
        height: usize,
        data: Vec<u8>,
        bytes_per_line: usize,
    ) -> (element: ReceiptElement)
        ensures
            element@ == raster_element(
                *self,
                width as nat,
                height as nat,
                data@,
                bytes_per_line as nat,
            ),
    {
        ReceiptElement::RasterImage {
            width,
            height,
            data,
            offset: self.horizontal_offset,
            density: self.print_density,
            alignment: self.alignment,
            bytes_per_line,
            print_area_width: self.print_area_width,
        }
    }

    /// Builds the QR element for a decoded payload under this formatting.
    pub fn qr_element(&self, data: String, stored_size: u8) -> (element: ReceiptElement)
        ensures
            element@ == qr_element(*self, data@, stored_size),
    {
        let size: usize = if stored_size < 1 {
            1
        } else if stored_size > 16 {
            16
        } else {
            stored_size as usize
        };
        ReceiptElement::QrCode {
            data,
            size,
            alignment: self.alignment,
            offset: self.horizontal_offset,
            print_area_width: self.print_area_width,
        }
    }
}

} // verus!
