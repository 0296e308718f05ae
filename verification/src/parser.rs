//! The interpreter: ESC/POS bytes in, receipt elements and status bytes out.

use vstd::prelude::*;
use vstd::slice::slice_subrange;
use vstd::slice::slice_to_vec;
use crate::element::{
    cut_of_mode, elements_view, CutKind, ElementModel, ReceiptElement,
};
use crate::grammar::{
    command_len, dc2_len, dle_len, esc_len, esc_takes_one, fs_len, gs_8l_len, gs_is_skipped,
    gs_len, lemma_command_len_bounds, lemma_through_nul_bounds, qr_len, row_bytes, through_nul,
    BS, CR, DC2, DLE, ESC, FF, FS, GS, HT, LF, MAX_COLUMN_BYTES, MAX_COLUMN_WIDTH,
    MAX_LONG_FORM_BLOCK,
    MAX_RASTER_BYTES, MAX_RASTER_SIDE, NUL,
};
use crate::model::{
    apply_column_image, apply_command, apply_dc2, apply_dle, apply_esc, apply_gs,
    apply_long_form_image, apply_qr, apply_row_image, lemma_command_frame, process_chunk,
    query_response, realtime_status, run, waiting, ParserModel,
};
use crate::raster::{
    bytes_per_row, column_dot, column_raster, lemma_row_index, lemma_scatter_begins,
    lemma_scatter_ends, lemma_scatter_next_column, lemma_scatter_step, scattered,
};
use crate::state::PrinterState;
use crate::state::DEFAULT_LINE_SPACING;
use crate::state::MAX_DENSITY;
use crate::text::decodable_len;
use crate::text::decode_line;
use crate::text::decode_utf8_lossy;

verus! {

/// Module size of a QR code before any `GS ( k` set one.
pub const DEFAULT_QR_SIZE: u8 = 3;

/// An ESC/POS interpreter for one connection.
pub struct EscPosRenderer {
    /// Formatting in force.
    pub state: PrinterState,
    /// Raw bytes of the line being gathered; decoded when the line is flushed.
    pub current_line: Vec<u8>,
    /// Whether the host asked for diagnostic tracing.
    pub debug: bool,
    /// Bytes of a command that has not arrived in full.
    pub buffer: Vec<u8>,
    /// Elements emitted since they were last taken.
    pub elements: Vec<ReceiptElement>,
    /// Set while a command that an introducer opened is incomplete.
    pub in_command_sequence: bool,
    /// Payload stored for the next QR code.
    pub qr_data: Vec<u8>,
    pub qr_size: u8,
    pub qr_error_correction: u8,
    /// Reverse-channel bytes queued since they were last taken.
    pub response_queue: Vec<u8>,
    /// Set from an image until the next line terminator.
    pub last_was_binary: bool,
}

impl View for EscPosRenderer {
    type V = ParserModel;

    open spec fn view(&self) -> ParserModel {
        ParserModel {
            printer: self.state,
            current_line: self.current_line@,
            pending: self.buffer@,
            elements: elements_view(self.elements@),
            responses: self.response_queue@,
            in_command_sequence: self.in_command_sequence,
            last_was_binary: self.last_was_binary,
            qr_data: self.qr_data@,
            qr_size: self.qr_size,
            qr_error_correction: self.qr_error_correction,
        }
    }
}

/// What the interpreter hands to its host after a chunk: the bytes to send
/// back on the connection, and the elements to render.
pub struct ChunkOutput {
    pub responses: Vec<u8>,
    pub elements: Vec<ReceiptElement>,
}

/// The state of an interpreter that has seen no byte.
pub open spec fn fresh_model() -> ParserModel {
    ParserModel {
        printer: PrinterState::initial(),
        current_line: Seq::empty(),
        pending: Seq::empty(),
        elements: Seq::empty(),
        responses: Seq::empty(),
        in_command_sequence: false,
        last_was_binary: false,
        qr_data: Seq::empty(),
        qr_size: DEFAULT_QR_SIZE,
        qr_error_correction: 0,
    }
}

/// Adding an element to a queue adds its value to the queue's value.
pub proof fn lemma_elements_view_push(elements: Seq<ReceiptElement>, element: ReceiptElement)
    ensures
        elements_view(elements.push(element)) == elements_view(elements).push(element@),
{
    assert(elements_view(elements.push(element)) =~= elements_view(elements).push(element@));
}

/// Finds the end of a NUL-terminated command that began at `start`,
/// searching from `from`.
fn skip_through_nul(data: &[u8], start: usize, from: usize) -> (end: Option<usize>)
    requires
        start <= from <= data@.len(),
    ensures
        match through_nul(data@.skip(start as int), (from - start) as nat) {
            None => end is None,
            Some(n) => end == Some((start + n) as usize),
        },
{
    let ghost rest = data@.skip(start as int);
    let mut j: usize = from;
    while j < data.len() && data[j] != NUL
        invariant
            from <= j <= data@.len(),
            start <= from,
            rest == data@.skip(start as int),
            through_nul(rest, (from - start) as nat) == through_nul(
                rest,
                (j - start) as nat,
            ),
        decreases data@.len() - j,
    {
        assert(rest[j - start] == data@[j as int]);
        j = j + 1;
    }
    if j < data.len() {
        assert(rest[j - start] == data@[j as int]);
        Some(j + 1)
    } else {
        None
    }
}

/// The ESC commands that are skipped whole: the paper sensor settings,
/// the legacy bit images, the tab positions, the page-mode print area, the
/// extended commands and the user-defined characters. `i` is the index of
/// the byte after ESC. Returns the index after the command, or `None` while
/// the command is incomplete.
fn skip_esc_command(data: &[u8], i: usize) -> (next: Option<usize>)
    requires
        1 <= i < data@.len(),
        data@[i - 1] == ESC,
        !esc_takes_one(data@[i as int]),
        data@[i as int] != 0x40 && data@[i as int] != 0x32 && data@[i as int] != 0x69 && data@[i as int]
            != 0x3C,
        data@[i as int] != 0x2A && data@[i as int] != 0x70 && data@[i as int] != 0x24 && data@[i as int]
            != 0x5C,
    ensures
        match esc_len(data@.skip(i - 1)) {
            None => next is None,
            Some(n) => 2 <= n <= data@.len() - (i - 1) && next == Some((i - 1 + n) as usize),
        },
{
    proof {
        reveal(esc_len);
    }
    let cmd: u8 = data[i];
    let params: usize = data.len() - i - 1;
    match cmd {
        // c: paper sensor settings
        0x63 => {
            if params < 2 {
                return None;
            }
            Some(i + 3)
        },
        // K, L: legacy bit image, one byte a column
        0x4B | 0x4C => {
            if params < 2 {
                return None;
            }
            let width: usize = data[i + 1] as usize + (data[i + 2] as usize) * 256;
            if params - 2 < width {
                return None;
            }
            Some(i + 3 + width)
        },
        // Y, Z: legacy bit image, two bytes a column
        0x59 | 0x5A => {
            if params < 2 {
                return None;
            }
            let width: usize = data[i + 1] as usize + (data[i + 2] as usize) * 256;
            if params - 2 < 2 * width {
                return None;
            }
            Some(i + 3 + 2 * width)
        },
        // D: tab positions, NUL-terminated
        0x44 => {
            proof {
                lemma_through_nul_bounds(data@.skip(i - 1), 2);
            }
            skip_through_nul(data, i - 1, i + 1)
        },
        // W: page-mode print area
        0x57 => {
            if params < 8 {
                return None;
            }
            Some(i + 9)
        },
        // (: extended command with a declared length
        0x28 => {
            if params < 3 {
                return None;
            }
            let len: usize = data[i + 2] as usize + (data[i + 3] as usize) * 256;
            if params - 3 < len {
                return None;
            }
            Some(i + 4 + len)
        },
        // &: user-defined characters
        _ => {
            if params < 3 {
                return None;
            }
            let y: usize = data[i + 1] as usize;
            let c1: usize = data[i + 2] as usize;
            let c2: usize = data[i + 3] as usize;
            let num_chars: usize = if c2 >= c1 {
                c2 - c1 + 1
            } else {
                0
            };
            let bytes_per_char: usize = y * 2;
            assert(num_chars * bytes_per_char <= 130560) by (nonlinear_arith)
                requires
                    num_chars <= 256,
                    bytes_per_char <= 510,
            ;
            let skip: usize = num_chars * bytes_per_char;
            if params - 3 < skip {
                return None;
            }
            Some(i + 4 + skip)
        },
    }
}

/// The GS commands that are skipped whole. `i` is the index of the byte
/// after GS. Returns the index after the command, or `None` while the
/// command is incomplete.
fn skip_gs_command(data: &[u8], i: usize) -> (next: Option<usize>)
    requires
        1 <= i < data@.len(),
        data@[i - 1] == GS,
        gs_is_skipped(data@.skip(i - 1)),
    ensures
        match gs_len(data@.skip(i - 1)) {
            None => next is None,
            Some(n) => 2 <= n <= data@.len() - (i - 1) && next == Some((i - 1 + n) as usize),
        },
{
    proof {
        reveal(gs_len);
    }
    let cmd: u8 = data[i];
    let params: usize = data.len() - i - 1;
    match cmd {
        // 8: extended command with a 32-bit length
        0x38 => {
            if params < 5 {
                return None;
            }
            let len: usize = data[i + 2] as usize + (data[i + 3] as usize) * 256 + (data[i
                + 4] as usize) * 65536 + (data[i + 5] as usize) * 16777216;
            if params - 5 < len {
                return None;
            }
            Some(i + 6 + len)
        },
        // (: extended command with a 16-bit length
        0x28 => {
            if params < 3 {
                return None;
            }
            let len: usize = data[i + 2] as usize + (data[i + 3] as usize) * 256;
            if params - 3 < len {
                return None;
            }
            Some(i + 4 + len)
        },
        // $: vertical position
        0x24 => {
            if params < 2 {
                return None;
            }
            Some(i + 3)
        },
        // k: barcode, NUL-terminated for the types below 6, else with a length
        _ => {
            if params < 1 {
                return None;
            }
            if data[i + 1] < 6 {
                proof {
                    lemma_through_nul_bounds(data@.skip(i - 1), 3);
                }
                skip_through_nul(data, i - 1, i + 2)
            } else {
                if params < 2 {
                    return None;
                }
                let len: usize = data[i + 2] as usize;
                if params - 2 < len {
                    return None;
                }
                Some(i + 3 + len)
            }
        },
    }
}

/// FS commands: none has an effect, all are skipped. `i` is the index of
/// the byte after FS. Returns the index after the command, or `None` while
/// the command is incomplete.
fn skip_fs_command(data: &[u8], i: usize) -> (next: Option<usize>)
    requires
        1 <= i <= data@.len(),
        data@[i - 1] == FS,
    ensures
        match fs_len(data@.skip(i - 1)) {
            None => next is None,
            Some(n) => 2 <= n <= data@.len() - (i - 1) && next == Some((i - 1 + n) as usize),
        },
{
    proof {
        reveal(fs_len);
    }
    if i >= data.len() {
        return None;
    }
    let cmd: u8 = data[i];
    let params: usize = data.len() - i - 1;
    match cmd {
        // .: one parameter, unless a command begins right after
        0x2E => {
            if params < 1 {
                return None;
            }
            let following: u8 = data[i + 1];
            if following == ESC || following == GS || following == FS || following == DLE {
                Some(i + 1)
            } else {
                Some(i + 2)
            }
        },
        // p: print a stored image
        0x70 => {
            if params < 2 {
                return None;
            }
            Some(i + 3)
        },
        // q: define a stored image
        0x71 => {
            if params < 1 {
                return None;
            }
            if data[i + 1] == 0 {
                return Some(i + 2);
            }
            if params < 5 {
                return None;
            }
            let width: usize = data[i + 2] as usize + (data[i + 3] as usize) * 256;
            let height: usize = data[i + 4] as usize + (data[i + 5] as usize) * 256;
            let per_row: usize = bytes_per_row(width);
            assert(per_row * height <= 536862720) by (nonlinear_arith)
                requires
                    per_row <= 8192,
                    height <= 65535,
            ;
            let data_size: usize = per_row * height;
            if params - 5 < data_size {
                return None;
            }
            Some(i + 6 + data_size)
        },
        // (: extended command with a declared length
        0x28 => {
            if params < 3 {
                return None;
            }
            let len: usize = data[i + 2] as usize + (data[i + 3] as usize) * 256;
            if params - 3 < len {
                return None;
            }
            Some(i + 4 + len)
        },
        // C, g, !, &, S, -: one parameter
        0x43 | 0x67 | 0x21 | 0x26 | 0x53 | 0x2D => {
            if params < 1 {
                return None;
            }
            Some(i + 2)
        },
        // anything else: up to two bytes that cannot begin a command
        _ => {
            if params < 1 {
                return None;
            }
            let first: u8 = data[i + 1];
            if first >= 0x1B && first <= 0x7E {
                Some(i + 1)
            } else if first <= 0x7F {
                Some(i + 2)
            } else {
                if params < 2 {
                    return None;
                }
                let second: u8 = data[i + 2];
                if second < 0x1B || second > 0x7E {
                    Some(i + 3)
                } else {
                    Some(i + 2)
                }
            }
        },
    }
}

impl EscPosRenderer {
    /// Whether the line can take whatever `incoming` more bytes may add to
    /// it and still be decoded: a byte adds at most four.
    pub open spec fn has_room(&self, incoming: nat) -> bool {
        decodable_len(self.current_line@.len() + 4 * (self.buffer@.len() + incoming))
    }

    /// Tells whether a chunk of `incoming` bytes can be taken in.
    pub fn can_take(&self, incoming: usize) -> (ok: bool)
        ensures
            ok == self.has_room(incoming as nat),
    {
        let longest: usize = (usize::MAX - 6) / 6;
        let line: usize = self.current_line.len();
        if line > longest {
            return false;
        }
        let most_pending: usize = (longest - line) / 4;
        let pending: usize = self.buffer.len();
        if pending > most_pending {
            return false;
        }
        incoming <= most_pending - pending
    }

    /// An interpreter in the state of a printer just switched on.
    pub fn new(debug: bool) -> (renderer: EscPosRenderer)
        ensures
            renderer@ == fresh_model(),
            renderer.debug == debug,
    {
        let renderer = EscPosRenderer {
            state: PrinterState::default(),
            current_line: Vec::new(),
            debug,
            buffer: Vec::new(),
            elements: Vec::new(),
            in_command_sequence: false,
            qr_data: Vec::new(),
            qr_size: DEFAULT_QR_SIZE,
            qr_error_correction: 0,
            response_queue: Vec::new(),
            last_was_binary: false,
        };
        assert(renderer@.elements =~= Seq::empty());
        renderer
    }

    /// Hands over the elements emitted so far and empties the queue.
    pub fn take_elements(&mut self) -> (taken: Vec<ReceiptElement>)
        ensures
            elements_view(taken@) == old(self)@.elements,
            final(self)@ == (ParserModel { elements: Seq::empty(), ..old(self)@ }),
            final(self).debug == old(self).debug,
    {
        let mut taken: Vec<ReceiptElement> = Vec::new();
        std::mem::swap(&mut self.elements, &mut taken);
        assert(self@.elements =~= Seq::empty());
        taken
    }

    /// Hands over the response bytes queued so far and empties the queue.
    pub fn take_responses(&mut self) -> (taken: Vec<u8>)
        ensures
            taken@ == old(self)@.responses,
            final(self)@ == (ParserModel { responses: Seq::empty(), ..old(self)@ }),
            final(self).debug == old(self).debug,
    {
        let mut taken: Vec<u8> = Vec::new();
        std::mem::swap(&mut self.response_queue, &mut taken);
        taken
    }

    /// Appends an element to the queue.
    fn emit(&mut self, element: ReceiptElement)
        ensures
            final(self)@ == old(self)@.emit(element@),
            final(self).debug == old(self).debug,
    {
        proof {
            lemma_elements_view_push(self.elements@, element);
        }
        self.elements.push(element);
    }

    /// Flushes the line: a line that holds bytes is decoded under the code
    /// page in force and becomes a text element; the line is emptied and the
    /// one-shot offset cleared.
    pub fn flush_line(&mut self)
        requires
            decodable_len(old(self).current_line@.len()),
        ensures
            final(self)@ == old(self)@.flush(),
            final(self).debug == old(self).debug,
    {
        if self.current_line.len() == 0 {
            return ;
        }
        let decoded = decode_line(self.state.encoding, self.current_line.as_slice());
        let element = self.state.text_element(decoded);
        self.emit(element);
        self.current_line.clear();
        self.state.horizontal_offset = 0;
    }

    /// Converts a column-format image of `height / 8` bytes a column into a
    /// row-major bitmap, most significant bit leftmost: column by column,
    /// byte by byte, each dot is or-ed into the byte of its row. Columns
    /// that the data does not reach stay white.
    pub fn column_to_raster(&self, column_data: &[u8], width: usize, height: usize) -> (raster: Vec<
        u8,
    >)
        requires
            width * height <= usize::MAX,
        ensures
            raster@ == column_raster(column_data@, width as nat, height as nat),
    {
        let bytes_per_column: usize = height / 8;
        let bytes_per_row: usize = bytes_per_row(width);
        assert(bytes_per_row * height <= width * height) by (nonlinear_arith)
            requires
                bytes_per_row <= width,
        ;
        let total: usize = bytes_per_row * height;
        let mut raster_data: Vec<u8> = vec![0u8; total];
        proof {
            lemma_scatter_begins(raster_data@, column_data@, width as nat, height as nat);
        }
        let mut col: usize = 0;
        while col < width
            invariant
                col <= width,
                width * height <= usize::MAX,
                bytes_per_column == height / 8,
                bytes_per_row == row_bytes(width as nat),
                total == bytes_per_row * height,
                scattered(raster_data@, column_data@, width as nat, height as nat, col as int, 0),
            decreases width - col,
        {
            assert(col * bytes_per_column + bytes_per_column <= width * height) by (nonlinear_arith)
                requires
                    col < width,
                    bytes_per_column <= height,
            ;
            let column_offset: usize = col * bytes_per_column;
            let mut byte_in_col: usize = 0;
            while byte_in_col < bytes_per_column && column_offset + byte_in_col < column_data.len()
                invariant
                    col < width,
                    column_offset + bytes_per_column <= usize::MAX,
                    byte_in_col <= bytes_per_column,
                    bytes_per_column == height / 8,
                    bytes_per_row == row_bytes(width as nat),
                    total == bytes_per_row * height,
                    column_offset == col * bytes_per_column,
                    scattered(
                        raster_data@,
                        column_data@,
                        width as nat,
                        height as nat,
                        col as int,
                        byte_in_col * 8,
                    ),
                decreases bytes_per_column - byte_in_col,
            {
                let col_byte: u8 = column_data[column_offset + byte_in_col];
                let mut bit: usize = 0;
                while bit < 8
                    invariant
                        col < width,
                        bit <= 8,
                        byte_in_col < bytes_per_column,
                        bytes_per_column == height / 8,
                        bytes_per_row == row_bytes(width as nat),
                        total == bytes_per_row * height,
                        column_offset == col * bytes_per_column,
                        column_offset + byte_in_col < column_data@.len(),
                        col_byte == column_data@[column_offset + byte_in_col],
                        scattered(
                            raster_data@,
                            column_data@,
                            width as nat,
                            height as nat,
                            col as int,
                            byte_in_col * 8 + bit,
                        ),
                    decreases 8 - bit,
                {
                    let y: usize = byte_in_col * 8 + bit;
                    let pixel: u8 = (col_byte >> ((7 - bit) as u8)) & 1u8;
                    proof {
                        lemma_row_index(bytes_per_row as int, y as int, (col / 8) as int, height as int, 0);
                    }
                    let row_byte_idx: usize = y * bytes_per_row + col / 8;
                    let row_bit_idx: u8 = (7 - col % 8) as u8;
                    let ghost before = raster_data@;
                    let merged: u8 = raster_data[row_byte_idx] | (pixel << row_bit_idx);
                    raster_data.set(row_byte_idx, merged);
                    proof {
                        assert(pixel == column_dot(
                            column_data@,
                            width as nat,
                            height as nat,
                            col as int,
                            y as int,
                        ));
                        lemma_scatter_step(
                            before,
                            raster_data@,
                            column_data@,
                            width as nat,
                            height as nat,
                            col as int,
                            y as int,
                        );
                    }
                    bit = bit + 1;
                }
                byte_in_col = byte_in_col + 1;
            }
            proof {
                assert forall|y: int| byte_in_col * 8 <= y implies column_dot(
                    column_data@,
                    width as nat,
                    height as nat,
                    col as int,
                    y,
                ) == 0 by {
                    if y < bytes_per_column * 8 {
                        assert(col * bytes_per_column + y / 8 >= column_data@.len());
                    }
                }
                lemma_scatter_next_column(
                    raster_data@,
                    column_data@,
                    width as nat,
                    height as nat,
                    col as int,
                    byte_in_col * 8,
                );
            }
            col = col + 1;
        }
        proof {
            lemma_scatter_ends(raster_data@, column_data@, width as nat, height as nat);
        }
        raster_data
    }

    /// Feeds `lines` blank lines.
    fn feed(&mut self, lines: u8)
        ensures
            final(self)@ == old(self)@.feed(lines as nat),
            final(self).debug == old(self).debug,
    {
        let mut fed: u8 = 0;
        while fed < lines
            invariant
                fed <= lines,
                self@ == old(self)@.feed(fed as nat),
                self.debug == old(self).debug,
            decreases lines - fed,
        {
            self.emit(ReceiptElement::Separator);
            fed = fed + 1;
            assert(self@.elements =~= old(self)@.feed(fed as nat).elements);
        }
        assert(old(self)@.feed(0).elements =~= old(self)@.elements);
    }

    /// ESC commands. `i` is the index of the byte after ESC. Returns the
    /// index after the command, or `None`, with nothing changed, while the
    /// command is incomplete.
    #[verifier::rlimit(30)]
    fn handle_esc_command(&mut self, data: &[u8], i: usize) -> (next: Option<usize>)
        requires
            1 <= i <= data@.len(),
            data@[i - 1] == ESC,
            decodable_len(old(self).current_line@.len()),
        ensures
            match esc_len(data@.skip(i - 1)) {
                None => next is None && *final(self) == *old(self),
                Some(n) => {
                    &&& next == Some((i - 1 + n) as usize)
                    &&& final(self)@ == apply_esc(old(self)@, data@.subrange(i - 1, i - 1 + n))
                    &&& final(self).debug == old(self).debug
                },
            },
    {
        proof {
            reveal(esc_len);
            reveal(apply_esc);
        }
        if i >= data.len() {
            return None;
        }
        let cmd: u8 = data[i];
        let params: usize = data.len() - i - 1;
        match cmd {
            // @: initialize
            0x40 => {
                self.state = PrinterState::default();
                Some(i + 1)
            },
            // 2: default line spacing
            0x32 => {
                self.state.line_spacing = DEFAULT_LINE_SPACING;
                Some(i + 1)
            },
            // i, <: partial cut, return home
            0x69 | 0x3C => Some(i + 1),
            // *: column-format image
            0x2A => self.handle_raster_graphics(data, i + 1),
            // p: cash drawer pulse
            0x70 => {
                if params < 3 {
                    return None;
                }
                self.emit(
                    ReceiptElement::CashDrawer {
                        pin: data[i + 1],
                        on_time: data[i + 2],
                        off_time: data[i + 3],
                    },
                );
                Some(i + 4)
            },
            // $, \: horizontal position
            0x24 | 0x5C => {
                if params < 2 {
                    return None;
                }
                self.state.esc_position(cmd, data[i + 1], data[i + 2]);
                Some(i + 3)
            },
            // c, K, L, Y, Z, D, W, (, &: nothing this printer acts on
            0x63 | 0x4B | 0x4C | 0x59 | 0x5A | 0x44 | 0x57 | 0x28 | 0x26 => skip_esc_command(data, i),
            // d, J feed; everything else is a setting of one parameter byte
            _ => {
                if params < 1 {
                    return None;
                }
                if cmd == 0x64 || cmd == 0x4A {
                    self.feed(data[i + 1]);
                } else {
                    self.state.esc_setting(cmd, data[i + 1]);
                }
                Some(i + 2)
            },
        }
    }

    /// Prints an image: flushes the line, emits the image at the offset
    /// then in force, clears the offset and marks the stream as binary.
    fn print_image(&mut self, width: usize, height: usize, data: Vec<u8>, bytes_per_line: usize)
        requires
            decodable_len(old(self).current_line@.len()),
        ensures
            final(self)@ == old(self)@.print_image(
                width as nat,
                height as nat,
                data@,
                bytes_per_line as nat,
            ),
            final(self).debug == old(self).debug,
    {
        self.flush_line();
        let element = self.state.raster_element(width, height, data, bytes_per_line);
        self.emit(element);
        self.state.horizontal_offset = 0;
        self.last_was_binary = true;
    }

    /// `ESC *`: a column-format image. `i` is the index of the mode byte.
    /// The image is awaited in full; one that is too wide or has no width
    /// is skipped, any other is printed.
    fn handle_raster_graphics(&mut self, data: &[u8], i: usize) -> (next: Option<usize>)
        requires
            2 <= i <= data@.len(),
            data@[i - 2] == ESC,
            data@[i - 1] == 0x2A,
            decodable_len(old(self).current_line@.len()),
        ensures
            match esc_len(data@.skip(i - 2)) {
                None => next is None && *final(self) == *old(self),
                Some(n) => {
                    &&& next == Some((i - 2 + n) as usize)
                    &&& final(self)@ == apply_column_image(
                        old(self)@,
                        data@.subrange(i - 2, i - 2 + n),
                    )
                    &&& final(self).debug == old(self).debug
                },
            },
    {
        proof {
            reveal(esc_len);
            reveal(apply_column_image);
        }
        if data.len() - i < 3 {
            return None;
        }
        let m: u8 = data[i];
        let width: usize = data[i + 1] as usize + (data[i + 2] as usize) * 256;
        let height: usize = if m == 32 || m == 33 {
            24
        } else {
            8
        };
        let per_column: usize = height / 8;
        assert(width * per_column <= 196605) by (nonlinear_arith)
            requires
                width <= 65535,
                per_column <= 3,
        ;
        let total: usize = width * per_column;
        let pos: usize = i + 3;
        if data.len() - pos < total {
            return None;
        }
        let ghost cmd = data@.subrange(i - 2, pos + total);
        if width == 0 || width > MAX_COLUMN_WIDTH || total > MAX_COLUMN_BYTES {
            return Some(pos + total);
        }
        assert(width * height <= 240000) by (nonlinear_arith)
            requires
                width <= 10000,
                height <= 24,
        ;
        let columns = slice_subrange(data, pos, pos + total);
        assert(columns@ =~= cmd.subrange(5, cmd.len() as int));
        let raster = self.column_to_raster(columns, width, height);
        self.print_image(width, height, raster, bytes_per_row(width));
        Some(pos + total)
    }

    /// `GS v 0`: a row-format image. `i` is the index of the byte after
    /// `v`. The image is awaited in full; one without extent or beyond the
    /// size limits is skipped, any other is printed as it stands.
    fn handle_raster_graphics_gs(&mut self, data: &[u8], i: usize) -> (next: Option<usize>)
        requires
            2 <= i <= data@.len(),
            data@[i - 2] == GS,
            data@[i - 1] == 0x76,
            decodable_len(old(self).current_line@.len()),
        ensures
            match gs_len(data@.skip(i - 2)) {
                None => next is None && *final(self) == *old(self),
                Some(n) => {
                    &&& next == Some((i - 2 + n) as usize)
                    &&& final(self)@ == apply_row_image(
                        old(self)@,
                        data@.subrange(i - 2, i - 2 + n),
                    )
                    &&& final(self).debug == old(self).debug
                },
            },
    {
        proof {
            reveal(gs_len);
            reveal(apply_row_image);
        }
        if data.len() - i < 6 {
            return None;
        }
        let width_in_bytes: usize = data[i + 2] as usize + (data[i + 3] as usize) * 256;
        let height: usize = data[i + 4] as usize + (data[i + 5] as usize) * 256;
        assert(width_in_bytes * height <= 4294836225) by (nonlinear_arith)
            requires
                width_in_bytes <= 65535,
                height <= 65535,
        ;
        let total: usize = width_in_bytes * height;
        let pos: usize = i + 6;
        if data.len() - pos < total {
            return None;
        }
        let ghost cmd = data@.subrange(i - 2, pos + total);
        if width_in_bytes == 0 || height == 0 {
            return Some(pos + total);
        }
        if width_in_bytes * 8 > MAX_RASTER_SIDE || height > MAX_RASTER_SIDE || total
            > MAX_RASTER_BYTES {
            return Some(pos + total);
        }
        let bitmap = slice_to_vec(slice_subrange(data, pos, pos + total));
        assert(bitmap@ =~= cmd.subrange(8, cmd.len() as int));
        self.print_image(width_in_bytes * 8, height, bitmap, width_in_bytes);
        Some(pos + total)
    }

    /// `GS 8 L`: a long-form image. `i` is the index of `L`. In the two
    /// raster modes an image within the limits is awaited and printed;
    /// anything else is skipped to the end of its declared block.
    #[verifier::rlimit(30)]
    fn handle_gs_8l(&mut self, data: &[u8], i: usize) -> (next: Option<usize>)
        requires
            2 <= i < data@.len(),
            data@[i - 2] == GS,
            data@[i - 1] == 0x38,
            data@[i as int] == 0x4C,
            decodable_len(old(self).current_line@.len()),
        ensures
            match gs_8l_len(data@.skip(i - 2)) {
                None => next is None && *final(self) == *old(self),
                Some(n) => {
                    &&& 3 <= n <= data@.len() - (i - 2)
                    &&& next == Some((i - 2 + n) as usize)
                    &&& final(self)@ == apply_long_form_image(
                        old(self)@,
                        data@.subrange(i - 2, i - 2 + n),
                    )
                    &&& final(self).debug == old(self).debug
                },
            },
    {
        proof {
            reveal(gs_8l_len);
            reveal(apply_long_form_image);
        }
        let start: usize = i - 2;
        if data.len() - start < 13 {
            return None;
        }
        let data_len: usize = data[i + 1] as usize + (data[i + 2] as usize) * 256 + (data[i
            + 3] as usize) * 65536 + (data[i + 4] as usize) * 16777216;
        let m: u8 = data[i + 5];
        let skip: usize = if data_len >= 6 {
            data_len - 6
        } else {
            0
        };
        let after_header: usize = start + 13;
        if m == 48 || m == 112 {
            if data.len() - start < 17 {
                return None;
            }
            let width: usize = data[i + 11] as usize + (data[i + 12] as usize) * 256;
            let height: usize = data[i + 13] as usize + (data[i + 14] as usize) * 256;
            let per_row: usize = bytes_per_row(width);
            assert(per_row * height <= 536862720) by (nonlinear_arith)
                requires
                    per_row <= 8192,
                    height <= 65535,
            ;
            let image_bytes: usize = per_row * height;
            if data_len > MAX_LONG_FORM_BLOCK || image_bytes > MAX_RASTER_BYTES {
                if data.len() - after_header < skip {
                    return None;
                }
                return Some(after_header + skip);
            }
            let pos: usize = start + 17;
            if data.len() - pos < image_bytes {
                return None;
            }
            if width == 0 {
                return Some(pos + image_bytes);
            }
            let ghost cmd = data@.subrange(start as int, pos + image_bytes);
            let bitmap = slice_to_vec(slice_subrange(data, pos, pos + image_bytes));
            assert(bitmap@ =~= cmd.subrange(17, cmd.len() as int));
            self.print_image(width, height, bitmap, per_row);
            Some(pos + image_bytes)
        } else {
            if data.len() - after_header < skip {
                return None;
            }
            Some(after_header + skip)
        }
    }

    /// Prints the stored QR payload, if there is one: flushes the line,
    /// emits the code with the payload read as UTF-8, clears the one-shot
    /// offset and forgets the payload.
    fn print_qr(&mut self)
        requires
            decodable_len(old(self).current_line@.len()),
        ensures
            final(self)@ == old(self)@.print_qr(),
            final(self).debug == old(self).debug,
    {
        if self.qr_data.len() == 0 {
            return ;
        }
        self.flush_line();
        let qr_string = decode_utf8_lossy(self.qr_data.as_slice());
        let element = self.state.qr_element(qr_string, self.qr_size);
        self.emit(element);
        self.state.horizontal_offset = 0;
        self.qr_data.clear();
    }

    /// `GS ( k`: the QR code family. `i` is the index of `k`. Function 67
    /// stores the module size, 69 the error correction level, 80 the
    /// payload, 81 prints; other functions and other families have no
    /// effect. Functions 65, 67 and 69 take one byte; all else runs to the
    /// end of its declared block.
    fn handle_qr_code(&mut self, data: &[u8], i: usize) -> (next: Option<usize>)
        requires
            2 <= i < data@.len(),
            data@[i - 2] == GS,
            data@[i - 1] == 0x28,
            data@[i as int] == 0x6B,
            decodable_len(old(self).current_line@.len()),
        ensures
            match qr_len(data@.skip(i - 2)) {
                None => next is None && *final(self) == *old(self),
                Some(n) => {
                    &&& 3 <= n <= data@.len() - (i - 2)
                    &&& next == Some((i - 2 + n) as usize)
                    &&& final(self)@ == apply_qr(
                        old(self)@,
                        data@.subrange(i - 2, i - 2 + n),
                    )
                    &&& final(self).debug == old(self).debug
                },
            },
    {
        proof {
            reveal(qr_len);
            reveal(apply_qr);
        }
        let start: usize = i - 2;
        if data.len() - start < 7 {
            return None;
        }
        let param_len: usize = data[i + 1] as usize + (data[i + 2] as usize) * 256;
        let cn: u8 = data[i + 3];
        let fn_code: u8 = data[i + 4];
        let after_header: usize = start + 7;
        let skip: usize = if param_len >= 2 {
            param_len - 2
        } else {
            0
        };
        if cn != 49 {
            if data.len() - after_header < skip {
                return None;
            }
            return Some(after_header + skip);
        }
        if fn_code == 65 || fn_code == 67 || fn_code == 69 {
            if data.len() - after_header < 1 {
                return None;
            }
            if fn_code == 67 {
                self.qr_size = data[after_header];
            } else if fn_code == 69 {
                self.qr_error_correction = data[after_header];
            }
            Some(after_header + 1)
        } else if fn_code == 80 {
            if param_len < 3 {
                self.qr_data = Vec::new();
                return Some(after_header);
            }
            if data.len() - start < 5 + param_len {
                return None;
            }
            let end: usize = start + 5 + param_len;
            let ghost cmd = data@.subrange(start as int, end as int);
            self.qr_data = slice_to_vec(slice_subrange(data, start + 8, end));
            assert(self.qr_data@ =~= cmd.subrange(8, cmd.len() as int));
            Some(end)
        } else {
            if data.len() - after_header < skip {
                return None;
            }
            if fn_code == 81 {
                self.print_qr();
            }
            Some(after_header + skip)
        }
    }

    /// Queues the answer to the GS command `cmd` with the parameter `n`.
    fn answer_query(&mut self, cmd: u8, n: u8)
        ensures
            final(self)@ == old(self)@.respond(query_response(cmd, n)),
            final(self).debug == old(self).debug,
    {
        if cmd == 0x61 && n != 0 {
            self.response_queue.push(0x10);
            self.response_queue.push(0x00);
            self.response_queue.push(0x00);
            self.response_queue.push(0x00);
        } else if cmd == 0x49 && n == 0x42 {
            // _CITIZEN
            self.response_queue.push(0x5F);
            self.response_queue.push(0x43);
            self.response_queue.push(0x49);
            self.response_queue.push(0x54);
            self.response_queue.push(0x49);
            self.response_queue.push(0x5A);
            self.response_queue.push(0x45);
            self.response_queue.push(0x4E);
            self.response_queue.push(0x00);
        } else if cmd == 0x49 && n == 0x43 {
            // _CT-S310
            self.response_queue.push(0x5F);
            self.response_queue.push(0x43);
            self.response_queue.push(0x54);
            self.response_queue.push(0x2D);
            self.response_queue.push(0x53);
            self.response_queue.push(0x33);
            self.response_queue.push(0x31);
            self.response_queue.push(0x30);
            self.response_queue.push(0x00);
        } else if cmd == 0x72 {
            self.response_queue.push(0x08);
        }
        assert(self.response_queue@ =~= old(self).response_queue@ + query_response(
            cmd,
            n,
        ));
    }

    /// GS commands. `i` is the index of the byte after GS. Returns the
    /// index after the command, or `None`, with nothing changed, while the
    /// command is incomplete.
    #[verifier::rlimit(30)]
    fn handle_gs_command(&mut self, data: &[u8], i: usize) -> (next: Option<usize>)
        requires
            1 <= i <= data@.len(),
            data@[i - 1] == GS,
            decodable_len(old(self).current_line@.len()),
        ensures
            match gs_len(data@.skip(i - 1)) {
                None => next is None && *final(self) == *old(self),
                Some(n) => {
                    &&& next == Some((i - 1 + n) as usize)
                    &&& final(self)@ == apply_gs(old(self)@, data@.subrange(i - 1, i - 1 + n))
                    &&& final(self).debug == old(self).debug
                },
            },
    {
        proof {
            reveal(gs_len);
            reveal(apply_gs);
        }
        if i >= data.len() {
            return None;
        }
        let cmd: u8 = data[i];
        let params: usize = data.len() - i - 1;
        match cmd {
            // 8: extended command; L is the long-form image
            0x38 => {
                if params < 1 {
                    return None;
                }
                if data[i + 1] == 0x4C {
                    self.handle_gs_8l(data, i + 1)
                } else {
                    skip_gs_command(data, i)
                }
            },
            // V: paper cut
            0x56 => {
                if params < 1 {
                    return None;
                }
                Some(self.handle_paper_cut(data, i + 1))
            },
            // v: row-format image
            0x76 => self.handle_raster_graphics_gs(data, i + 1),
            // (: extended command; k is the QR code family
            0x28 => {
                if params < 1 {
                    return None;
                }
                if data[i + 1] == 0x6B {
                    self.handle_qr_code(data, i + 1)
                } else {
                    skip_gs_command(data, i)
                }
            },
            // $, k: vertical position, barcode
            0x24 | 0x6B => skip_gs_command(data, i),
            // L, W: left margin, print area width
            0x4C | 0x57 => {
                if params < 2 {
                    return None;
                }
                self.state.gs_extent(cmd, data[i + 1], data[i + 2]);
                Some(i + 3)
            },
            // a, I, r: automatic status back, printer identity, status
            0x61 | 0x49 | 0x72 => {
                if params < 1 {
                    return None;
                }
                self.answer_query(cmd, data[i + 1]);
                Some(i + 2)
            },
            // !, B: character size, inverted; the rest has no effect
            _ => {
                if params < 1 {
                    return None;
                }
                self.state.gs_setting(cmd, data[i + 1]);
                Some(i + 2)
            },
        }
    }

    /// DLE commands. `i` is the index of the byte after DLE. Returns the
    /// index after the command, or `None`, with nothing changed, while the
    /// command is incomplete.
    fn handle_dle_command(&mut self, data: &[u8], i: usize) -> (next: Option<usize>)
        requires
            1 <= i <= data@.len(),
            data@[i - 1] == DLE,
        ensures
            match dle_len(data@.skip(i - 1)) {
                None => next is None && *final(self) == *old(self),
                Some(n) => {
                    &&& next == Some((i - 1 + n) as usize)
                    &&& final(self)@ == apply_dle(old(self)@, data@.subrange(i - 1, i - 1 + n))
                    &&& final(self).debug == old(self).debug
                },
            },
    {
        proof {
            reveal(dle_len);
            reveal(apply_dle);
        }
        if i >= data.len() {
            return None;
        }
        let subcmd: u8 = data[i];
        let params: usize = data.len() - i - 1;
        match subcmd {
            // EOT, ENQ: real-time status
            0x04 | 0x05 => {
                if params < 1 {
                    return None;
                }
                self.response_queue.push(0x12);
                assert(self.response_queue@ =~= old(self).response_queue@
                    + realtime_status());
                Some(i + 2)
            },
            // DC4: real-time request
            0x14 => {
                if params < 2 {
                    return None;
                }
                Some(i + 3)
            },
            _ => Some(i + 1),
        }
    }

    /// DC2, at index `i`: `DC2 # d` sets the print density, DC2 before
    /// anything else cancels bold. Returns the index after the command, or
    /// `None`, with nothing changed, while the next byte is outstanding.
    fn handle_dc2(&mut self, data: &[u8], i: usize) -> (next: Option<usize>)
        requires
            i < data@.len(),
            data@[i as int] == DC2,
        ensures
            match dc2_len(data@.skip(i as int)) {
                None => next is None && *final(self) == *old(self),
                Some(n) => {
                    &&& next == Some((i + n) as usize)
                    &&& final(self)@ == apply_dc2(old(self)@, data@.subrange(i as int, i + n))
                    &&& final(self).debug == old(self).debug
                },
            },
    {
        proof {
            reveal(dc2_len);
            reveal(apply_dc2);
        }
        if data.len() - i < 2 {
            return None;
        }
        if data[i + 1] == 0x23 {
            if data.len() - i < 3 {
                return None;
            }
            let level: u8 = data[i + 2] / 32;
            self.state.print_density = if level > MAX_DENSITY {
                MAX_DENSITY
            } else {
                level
            };
            Some(i + 3)
        } else {
            self.state.bold = false;
            Some(i + 1)
        }
    }

    /// `GS V`: emits the cut that the mode byte at `i` asks for.
    fn handle_paper_cut(&mut self, data: &[u8], i: usize) -> (next: usize)
        requires
            i < data@.len(),
        ensures
            next == i + 1,
            final(self)@ == old(self)@.emit(
                ElementModel::PaperCut {
                    cut_type: cut_of_mode(data@[i as int]),
                },
            ),
            final(self).debug == old(self).debug,
    {
        let cut_type = CutKind::from_mode(data[i]);
        self.emit(ReceiptElement::PaperCut { cut_type });
        i + 1
    }

    /// Interprets the command that begins at index `i`. Returns the index
    /// after it, or `None` while the command is incomplete; the only trace
    /// an incomplete command leaves is an open command sequence.
    fn process_command(&mut self, data: &[u8], i: usize) -> (next: Option<usize>)
        requires
            i < data@.len(),
            decodable_len(old(self).current_line@.len()),
        ensures
            match command_len(data@.skip(i as int)) {
                None => next is None && final(self)@ == waiting(
                    old(self)@,
                    data@[i as int],
                ),
                Some(n) => next == Some((i + n) as usize) && final(self)@ == apply_command(
                    old(self)@,
                    data@.subrange(i as int, i + n),
                ),
            },
            final(self).debug == old(self).debug,
    {
        proof {
            reveal(command_len);
            reveal(apply_command);
            lemma_command_len_bounds(data@.skip(i as int));
        }
        let byte: u8 = data[i];
        if byte == ESC {
            self.in_command_sequence = true;
            let next = self.handle_esc_command(data, i + 1);
            if next.is_some() {
                self.in_command_sequence = false;
            }
            next
        } else if byte == GS {
            self.in_command_sequence = true;
            let next = self.handle_gs_command(data, i + 1);
            if next.is_some() {
                self.in_command_sequence = false;
            }
            next
        } else if byte == FS {
            self.in_command_sequence = true;
            let next = skip_fs_command(data, i + 1);
            if next.is_some() {
                self.in_command_sequence = false;
            }
            next
        } else if byte == DLE {
            self.in_command_sequence = true;
            let next = self.handle_dle_command(data, i + 1);
            if next.is_some() {
                self.in_command_sequence = false;
            }
            next
        } else if byte == DC2 {
            self.handle_dc2(data, i)
        } else if byte == LF {
            self.in_command_sequence = false;
            self.last_was_binary = false;
            if self.current_line.len() > 0 {
                self.flush_line();
            } else if self.elements.len() > 0 {
                self.emit(ReceiptElement::Separator);
            }
            Some(i + 1)
        } else if byte == CR {
            self.in_command_sequence = false;
            self.last_was_binary = false;
            self.flush_line();
            Some(i + 1)
        } else if byte == FF {
            self.current_line.clear();
            let emitted: usize = self.elements.len();
            let repeated: bool = emitted > 0 && matches!(
                self.elements[emitted - 1],
                ReceiptElement::FormFeed
            );
            if !repeated {
                self.emit(ReceiptElement::FormFeed);
            }
            Some(i + 1)
        } else if byte == HT {
            if !self.in_command_sequence {
                self.current_line.push(0x20);
                self.current_line.push(0x20);
                self.current_line.push(0x20);
                self.current_line.push(0x20);
                assert(self.current_line@ =~= old(self).current_line@ + seq![
                    0x20u8,
                    0x20u8,
                    0x20u8,
                    0x20u8,
                ]);
            }
            Some(i + 1)
        } else if byte == BS {
            if self.current_line.len() > 0 {
                self.current_line.pop();
            }
            Some(i + 1)
        } else if byte >= 0x20 && byte != 0x7F {
            if !self.in_command_sequence && !self.last_was_binary {
                self.current_line.push(byte);
            }
            Some(i + 1)
        } else {
            Some(i + 1)
        }
    }

    /// Takes in a chunk of the stream: the chunk joins the bytes still
    /// pending, all of them are interpreted as far as complete commands go,
    /// and what is left of them stays pending for the next chunk.
    pub fn process_data(&mut self, new_data: &[u8])
        requires
            old(self).has_room(new_data@.len()),
        ensures
            final(self)@ == process_chunk(old(self)@, new_data@),
            final(self).debug == old(self).debug,
            final(self).current_line@.len() + 4 * final(self).buffer@.len() <= old(
                self,
            ).current_line@.len() + 4 * (old(self).buffer@.len() + new_data@.len()),
    {
        let mut data: Vec<u8> = Vec::new();
        std::mem::swap(&mut self.buffer, &mut data);
        data.extend_from_slice(new_data);
        assert(data@ =~= old(self).buffer@ + new_data@);
        let mut i: usize = 0;
        let mut stuck: bool = false;
        assert(data@.skip(0) =~= data@);
        assert(self@ == old(self)@.with_pending(Seq::empty()));
        while i < data.len() && !stuck
            invariant
                i <= data@.len(),
                data@ == old(self).buffer@ + new_data@,
                self.buffer@ == Seq::<u8>::empty(),
                self.debug == old(self).debug,
                self.current_line@.len() + 4 * (data@.len() - i) <= old(self).current_line@.len() + 4
                    * data@.len(),
                decodable_len(old(self).current_line@.len() + 4 * data@.len()),
                !stuck ==> process_chunk(old(self)@, new_data@) == run(self@, data@.skip(i as int)),
                stuck ==> process_chunk(old(self)@, new_data@) == self@.with_pending(
                    data@.skip(i as int),
                ),
            decreases data@.len() - i + (if stuck { 0int } else { 1int }),
        {
            let ghost before = self@;
            let ghost rest = data@.skip(i as int);
            match self.process_command(data.as_slice(), i) {
                None => {
                    stuck = true;
                },
                Some(next) => {
                    proof {
                        let n = command_len(rest).unwrap();
                        lemma_command_len_bounds(rest);
                        lemma_command_frame(before, rest.take(n as int));
                        assert(rest.take(n as int) =~= data@.subrange(i as int, i + n));
                        assert(rest.skip(n as int) =~= data@.skip(next as int));
                    }
                    i = next;
                },
            }
        }
        self.buffer = data.split_off(i);
    }

    /// Serves one chunk the way a host does: takes the chunk in, then hands
    /// over the responses it caused, to be sent before the next chunk is
    /// read, and the elements it emitted. Both queues are left empty.
    pub fn serve_chunk(&mut self, chunk: &[u8]) -> (output: ChunkOutput)
        requires
            old(self).has_room(chunk@.len()),
        ensures
            output.responses@ == process_chunk(old(self)@, chunk@).responses,
            elements_view(output.elements@) == process_chunk(old(self)@, chunk@).elements,
            final(self)@ == (ParserModel {
                responses: Seq::empty(),
                elements: Seq::empty(),
                ..process_chunk(old(self)@, chunk@)
            }),
            final(self).debug == old(self).debug,
    {
        self.process_data(chunk);
        let responses = self.take_responses();
        let elements = self.take_elements();
        ChunkOutput { responses, elements }
    }
}

} // verus!
