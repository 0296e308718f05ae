//! What each command does: the interpreter as a function on mathematical
//! values.

use vstd::prelude::*;
use crate::element::cut_of_mode;
use crate::element::qr_element;
use crate::element::raster_element;
use crate::element::text_element;
use crate::element::ElementModel;
use crate::grammar::{
    column_bytes, column_height, command_len, esc_takes_one, is_introducer, is_printable, le16, le32,
    lemma_command_len_bounds, long_form_accepted, row_bytes, BS, CR, DC2, DLE, ESC, FF, FS, GS,
    HT, LF, MAX_COLUMN_BYTES, MAX_COLUMN_WIDTH, MAX_RASTER_BYTES, MAX_RASTER_SIDE,
};
use crate::raster::column_raster;
use crate::state::capped_density;
use crate::state::PrinterState;
use crate::text::line_text;
use crate::text::utf8_lossy_text;

verus! {

/// The interpreter's state as a mathematical value.
pub struct ParserModel {
    /// Formatting in force.
    pub printer: PrinterState,
    /// Bytes of the line that is being gathered.
    pub current_line: Seq<u8>,
    /// Bytes that have arrived but belong to a command still incomplete.
    pub pending: Seq<u8>,
    /// Elements emitted and not yet taken.
    pub elements: Seq<ElementModel>,
    /// Reverse-channel bytes queued and not yet taken.
    pub responses: Seq<u8>,
    /// Set while a command that an introducer opened is incomplete.
    pub in_command_sequence: bool,
    /// Set from an image until the next line terminator.
    pub last_was_binary: bool,
    /// Payload stored for the next QR code.
    pub qr_data: Seq<u8>,
    pub qr_size: u8,
    pub qr_error_correction: u8,
}

/// Answer to a real-time status request: online, paper present.
pub open spec fn realtime_status() -> Seq<u8> {
    seq![0x12u8]
}

/// Answer to `GS r`: online, paper present.
pub open spec fn transmit_status() -> Seq<u8> {
    seq![0x08u8]
}

/// Block sent when automatic status back is switched on: online, no error.
pub open spec fn automatic_status() -> Seq<u8> {
    seq![0x10u8, 0x00u8, 0x00u8, 0x00u8]
}

/// Answer to the request for the maker's name: `_CITIZEN` and NUL.
pub open spec fn maker_identity() -> Seq<u8> {
    seq![0x5Fu8, 0x43u8, 0x49u8, 0x54u8, 0x49u8, 0x5Au8, 0x45u8, 0x4Eu8, 0x00u8]
}

/// Answer to the request for the model's name: `_CT-S310` and NUL.
pub open spec fn model_identity() -> Seq<u8> {
    seq![0x5Fu8, 0x43u8, 0x54u8, 0x2Du8, 0x53u8, 0x33u8, 0x31u8, 0x30u8, 0x00u8]
}

/// What the GS command `c` with the parameter `n` is answered with: `a`
/// with the status block when it switches automatic status back on, `I`
/// with the maker's or the model's name, `r` with the status byte.
pub open spec fn query_response(c: u8, n: u8) -> Seq<u8> {
    if c == 0x61 /* a */ && n != 0 {
        automatic_status()
    } else if c == 0x49 /* I */ && n == 0x42 {
        maker_identity()
    } else if c == 0x49 /* I */ && n == 0x43 {
        model_identity()
    } else if c == 0x72 /* r */ {
        transmit_status()
    } else {
        Seq::empty()
    }
}

/// Whether a column-format image of this mode and width is printed.
pub open spec fn column_image_accepted(m: u8, width: nat) -> bool {
    1 <= width <= MAX_COLUMN_WIDTH && column_bytes(m, width) <= MAX_COLUMN_BYTES
}

/// Whether a row-format image of this many bytes a row and rows is printed.
pub open spec fn row_image_accepted(width_bytes: nat, height: nat) -> bool {
    &&& 1 <= width_bytes
    &&& 1 <= height
    &&& width_bytes * 8 <= MAX_RASTER_SIDE
    &&& height <= MAX_RASTER_SIDE
    &&& width_bytes * height <= MAX_RASTER_BYTES
}

impl ParserModel {
    /// The same state with other bytes pending.
    pub open spec fn with_pending(self, pending: Seq<u8>) -> ParserModel {
        ParserModel { pending, ..self }
    }

    /// The same state under other formatting.
    pub open spec fn with_printer(self, printer: PrinterState) -> ParserModel {
        ParserModel { printer, ..self }
    }

    /// The state with one more element at the end of the queue.
    pub open spec fn emit(self, element: ElementModel) -> ParserModel {
        ParserModel { elements: self.elements.push(element), ..self }
    }

    /// The state with more bytes at the end of the response queue.
    pub open spec fn respond(self, bytes: Seq<u8>) -> ParserModel {
        ParserModel { responses: self.responses + bytes, ..self }
    }

    /// The state with `n` blank lines fed.
    pub open spec fn feed(self, n: nat) -> ParserModel {
        ParserModel {
            elements: self.elements + Seq::new(n, |i: int| ElementModel::Separator),
            ..self
        }
    }

    /// The state once an introducer has been read.
    pub open spec fn entered(self) -> ParserModel {
        ParserModel { in_command_sequence: true, ..self }
    }

    /// The state once the command that an introducer opened is done.
    pub open spec fn left(self) -> ParserModel {
        ParserModel { in_command_sequence: false, ..self }
    }

    /// Flushes the line: a line that holds bytes becomes a text element
    /// under the formatting in force, the line is emptied and the one-shot
    /// offset is cleared. An empty line leaves everything as it is.
    pub open spec fn flush(self) -> ParserModel {
        if self.current_line.len() == 0 {
            self
        } else {
            ParserModel {
                elements: self.elements.push(
                    text_element(
                        self.printer,
                        line_text(self.printer.encoding, self.current_line),
                    ),
                ),
                current_line: Seq::empty(),
                printer: PrinterState { horizontal_offset: 0, ..self.printer },
                ..self
            }
        }
    }

    /// Prints an image: flushes the line, emits the image at the offset
    /// then in force, clears the offset and marks the stream as binary.
    pub open spec fn print_image(
        self,
        width: nat,
        height: nat,
        data: Seq<u8>,
        bytes_per_line: nat,
    ) -> ParserModel {
        let flushed = self.flush();
        ParserModel {
            elements: flushed.elements.push(
                raster_element(flushed.printer, width, height, data, bytes_per_line),
            ),
            printer: PrinterState { horizontal_offset: 0, ..flushed.printer },
            last_was_binary: true,
            ..flushed
        }
    }

    /// Prints the stored QR payload, if there is one: flushes the line,
    /// emits the code at the offset then in force, clears the offset and
    /// forgets the payload.
    pub open spec fn print_qr(self) -> ParserModel {
        if self.qr_data.len() == 0 {
            self
        } else {
            let flushed = self.flush();
            ParserModel {
                elements: flushed.elements.push(
                    qr_element(flushed.printer, utf8_lossy_text(self.qr_data), self.qr_size),
                ),
                printer: PrinterState { horizontal_offset: 0, ..flushed.printer },
                qr_data: Seq::empty(),
                ..flushed
            }
        }
    }

    /// LF: ends the line. A line that holds bytes is flushed; an empty one
    /// becomes a blank line unless nothing has been emitted yet.
    pub open spec fn line_feed(self) -> ParserModel {
        let cleared = ParserModel { in_command_sequence: false, last_was_binary: false, ..self };
        if self.current_line.len() > 0 {
            cleared.flush()
        } else if self.elements.len() > 0 {
            cleared.emit(ElementModel::Separator)
        } else {
            cleared
        }
    }

    /// CR: ends the line without ever feeding a blank one.
    pub open spec fn carriage_return(self) -> ParserModel {
        ParserModel { in_command_sequence: false, last_was_binary: false, ..self }.flush()
    }

    /// FF: drops the line and emits a form feed, unless one was emitted
    /// last.
    pub open spec fn form_feed(self) -> ParserModel {
        let dropped = ParserModel { current_line: Seq::empty(), ..self };
        if self.elements.len() > 0 && self.elements.last() is FormFeed {
            dropped
        } else {
            dropped.emit(ElementModel::FormFeed)
        }
    }

    /// HT: four spaces on the line, outside a command sequence.
    pub open spec fn tab(self) -> ParserModel {
        if self.in_command_sequence {
            self
        } else {
            ParserModel {
                current_line: self.current_line + seq![0x20u8, 0x20u8, 0x20u8, 0x20u8],
                ..self
            }
        }
    }

    /// BS: the last byte of the line is taken back.
    pub open spec fn backspace(self) -> ParserModel {
        if self.current_line.len() > 0 {
            ParserModel { current_line: self.current_line.drop_last(), ..self }
        } else {
            self
        }
    }

    /// A text byte: joins the line unless a command sequence is open or an
    /// image was the last thing printed on this line.
    pub open spec fn type_byte(self, b: u8) -> ParserModel {
        if !self.in_command_sequence && !self.last_was_binary {
            ParserModel { current_line: self.current_line.push(b), ..self }
        } else {
            self
        }
    }
}

/// What a complete DC2 command does: `DC2 # d` sets the density to
/// `d / 32`, at most 8; DC2 alone clears bold.
#[verifier::opaque]
pub open spec fn apply_dc2(m: ParserModel, cmd: Seq<u8>) -> ParserModel {
    if cmd.len() >= 3 {
        m.with_printer(PrinterState { print_density: capped_density(cmd[2] / 32), ..m.printer })
    } else {
        m.with_printer(PrinterState { bold: false, ..m.printer })
    }
}

/// What a complete DLE command does: the two real-time status requests
/// are answered.
#[verifier::opaque]
pub open spec fn apply_dle(m: ParserModel, cmd: Seq<u8>) -> ParserModel {
    if cmd[1] == 0x04 || cmd[1] == 0x05 {
        m.respond(realtime_status())
    } else {
        m
    }
}

/// What a complete `ESC *` command does.
#[verifier::opaque]
pub open spec fn apply_column_image(m: ParserModel, cmd: Seq<u8>) -> ParserModel {
    let width = le16(cmd[3], cmd[4]);
    let height = column_height(cmd[2]);
    if column_image_accepted(cmd[2], width) {
        m.print_image(
            width,
            height,
            column_raster(cmd.subrange(5, cmd.len() as int), width, height),
            row_bytes(width),
        )
    } else {
        m
    }
}

/// What a complete ESC command does.
#[verifier::opaque]
pub open spec fn apply_esc(m: ParserModel, cmd: Seq<u8>) -> ParserModel {
    let c = cmd[1];
    if c == 0x40 /* @ */ {
        m.with_printer(PrinterState::initial())
    } else if c == 0x32 /* 2 */ {
        m.with_printer(PrinterState { line_spacing: 30, ..m.printer })
    } else if c == 0x64 /* d */ || c == 0x4A /* J */ {
        m.feed(cmd[2] as nat)
    } else if c == 0x2A /* * */ {
        apply_column_image(m, cmd)
    } else if c == 0x70 /* p */ {
        m.emit(ElementModel::CashDrawer { pin: cmd[2], on_time: cmd[3], off_time: cmd[4] })
    } else if c == 0x24 /* $ */ || c == 0x5C /* \ */ {
        m.with_printer(m.printer.after_esc_position(c, cmd[2], cmd[3]))
    } else if esc_takes_one(c) {
        m.with_printer(m.printer.after_esc(c, cmd[2]))
    } else {
        m
    }
}

/// What a complete `GS v 0` command does.
#[verifier::opaque]
pub open spec fn apply_row_image(m: ParserModel, cmd: Seq<u8>) -> ParserModel {
    let width_bytes = le16(cmd[4], cmd[5]);
    let height = le16(cmd[6], cmd[7]);
    if row_image_accepted(width_bytes, height) {
        m.print_image(width_bytes * 8, height, cmd.subrange(8, cmd.len() as int), width_bytes)
    } else {
        m
    }
}

/// What a complete `GS 8 L` command does.
#[verifier::opaque]
pub open spec fn apply_long_form_image(m: ParserModel, cmd: Seq<u8>) -> ParserModel {
    let block = le32(cmd[3], cmd[4], cmd[5], cmd[6]);
    if (cmd[7] == 48 || cmd[7] == 112) && cmd.len() >= 17 {
        let width = le16(cmd[13], cmd[14]);
        let height = le16(cmd[15], cmd[16]);
        if long_form_accepted(block, width, height) && width >= 1 {
            m.print_image(width, height, cmd.subrange(17, cmd.len() as int), row_bytes(width))
        } else {
            m
        }
    } else {
        m
    }
}

/// What a complete `GS ( k` command does.
#[verifier::opaque]
pub open spec fn apply_qr(m: ParserModel, cmd: Seq<u8>) -> ParserModel {
    let function = cmd[6];
    if cmd[5] != 49 {
        m
    } else if function == 67 {
        ParserModel { qr_size: cmd[7], ..m }
    } else if function == 69 {
        ParserModel { qr_error_correction: cmd[7], ..m }
    } else if function == 80 {
        ParserModel {
            qr_data: if cmd.len() >= 8 {
                cmd.subrange(8, cmd.len() as int)
            } else {
                Seq::empty()
            },
            ..m
        }
    } else if function == 81 {
        m.print_qr()
    } else {
        m
    }
}

/// What a complete GS command does.
#[verifier::opaque]
pub open spec fn apply_gs(m: ParserModel, cmd: Seq<u8>) -> ParserModel {
    let c = cmd[1];
    if c == 0x38 /* 8 */ {
        if cmd[2] == 0x4C /* L */ {
            apply_long_form_image(m, cmd)
        } else {
            m
        }
    } else if c == 0x56 /* V */ {
        m.emit(ElementModel::PaperCut { cut_type: cut_of_mode(cmd[2]) })
    } else if c == 0x76 /* v */ {
        apply_row_image(m, cmd)
    } else if c == 0x21 /* ! */ || c == 0x42 /* B */ {
        m.with_printer(m.printer.after_gs(c, cmd[2]))
    } else if c == 0x4C /* L */ || c == 0x57 /* W */ {
        m.with_printer(m.printer.after_gs_extent(c, cmd[2], cmd[3]))
    } else if c == 0x28 /* ( */ {
        if cmd[2] == 0x6B /* k */ {
            apply_qr(m, cmd)
        } else {
            m
        }
    } else if c == 0x61 /* a */ || c == 0x49 /* I */ || c == 0x72 /* r */ {
        m.respond(query_response(c, cmd[2]))
    } else {
        m
    }
}

/// What one complete command does to the state.
#[verifier::opaque]
pub open spec fn apply_command(m: ParserModel, cmd: Seq<u8>) -> ParserModel {
    let b = cmd[0];
    if b == ESC {
        apply_esc(m.entered(), cmd).left()
    } else if b == GS {
        apply_gs(m.entered(), cmd).left()
    } else if b == FS {
        m.left()
    } else if b == DLE {
        apply_dle(m.entered(), cmd).left()
    } else if b == DC2 {
        apply_dc2(m, cmd)
    } else if b == LF {
        m.line_feed()
    } else if b == CR {
        m.carriage_return()
    } else if b == FF {
        m.form_feed()
    } else if b == HT {
        m.tab()
    } else if b == BS {
        m.backspace()
    } else if is_printable(b) {
        m.type_byte(b)
    } else {
        m
    }
}

/// The state while the command that begins with `first` is incomplete.
pub open spec fn waiting(m: ParserModel, first: u8) -> ParserModel {
    if is_introducer(first) {
        m.entered()
    } else {
        m
    }
}

/// Interprets `rest` command by command. The result holds in `pending`
/// the bytes from the first incomplete command on.
pub open spec fn run(m: ParserModel, rest: Seq<u8>) -> ParserModel
    decreases rest.len(),
    via run_decreases
{
    if rest.len() == 0 {
        ParserModel { pending: rest, ..m }
    } else {
        match command_len(rest) {
            None => ParserModel { pending: rest, ..waiting(m, rest[0]) },
            Some(n) => run(apply_command(m, rest.take(n as int)), rest.skip(n as int)),
        }
    }
}

#[via_fn]
proof fn run_decreases(m: ParserModel, rest: Seq<u8>) {
    if rest.len() > 0 {
        lemma_command_len_bounds(rest);
    }
}

/// The state after a chunk has arrived: the chunk joins the pending bytes,
/// and all of them are interpreted as far as they go.
pub open spec fn process_chunk(m: ParserModel, chunk: Seq<u8>) -> ParserModel {
    run(m.with_pending(Seq::empty()), m.pending + chunk)
}

/// A command leaves the pending bytes alone and makes the line at most
/// four bytes longer.
pub proof fn lemma_command_frame(m: ParserModel, cmd: Seq<u8>)
    ensures
        apply_command(m, cmd).pending == m.pending,
        apply_command(m, cmd).current_line.len() <= m.current_line.len() + 4,
{
    reveal(apply_command);
    reveal(apply_esc);
    reveal(apply_gs);
    reveal(apply_dle);
    reveal(apply_dc2);
    reveal(apply_column_image);
    reveal(apply_row_image);
    reveal(apply_long_form_image);
    reveal(apply_qr);
}

} // verus!
