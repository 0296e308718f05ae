//! What holds of the interpreter on every stream.

use vstd::prelude::*;
use crate::element::text_element;
use crate::element::ElementModel;
use crate::grammar::{
    column_bytes, column_height, command_len, esc_len, fs_len, gs_8l_len, gs_len, is_printable,
    le16, le32, lemma_command_len_bounds, lemma_command_len_stable, long_form_accepted, qr_len,
    row_bytes, CR, DLE, ESC, FS, GS, LF,
};
use crate::model::{
    apply_column_image, apply_command, apply_dc2, apply_dle, apply_esc, apply_gs,
    apply_long_form_image, apply_qr, apply_row_image, lemma_command_frame, process_chunk,
    query_response, realtime_status, run, waiting, ParserModel,
};
use crate::parser::fresh_model;
use crate::raster::column_raster;
use crate::state::PrinterState;
use crate::text::line_text;

verus! {

/// A command does the same whether or not the parser was already waiting
/// for it.
pub proof fn lemma_command_after_waiting(m: ParserModel, cmd: Seq<u8>)
    requires
        cmd.len() > 0,
    ensures
        apply_command(waiting(m, cmd[0]), cmd) == apply_command(m, cmd),
{
    reveal(apply_command);
    assert(m.entered().entered() == m.entered());
}

/// A run gives the same result whether or not the parser was already
/// waiting for the command it starts with.
pub proof fn lemma_run_after_waiting(m: ParserModel, rest: Seq<u8>)
    requires
        rest.len() > 0,
    ensures
        run(waiting(m, rest[0]), rest) == run(m, rest),
{
    match command_len(rest) {
        None => {
            assert(waiting(waiting(m, rest[0]), rest[0]) == waiting(m, rest[0]));
        },
        Some(n) => {
            lemma_command_len_bounds(rest);
            lemma_command_after_waiting(m, rest.take(n as int));
        },
    }
}

/// Interpreting `a`, then resuming on what it left pending followed by
/// `b`, is interpreting `a` followed by `b`.
pub proof fn lemma_run_resumes(m: ParserModel, a: Seq<u8>, b: Seq<u8>)
    requires
        m.pending.len() == 0,
    ensures
        run(run(m, a).with_pending(Seq::empty()), run(m, a).pending + b) == run(m, a + b),
    decreases a.len(),
{
    assert(m.pending =~= Seq::empty());
    if a.len() == 0 {
        assert(a =~= Seq::empty());
        assert(a + b =~= b);
    } else {
        match command_len(a) {
            None => {
                assert((a + b)[0] == a[0]);
                lemma_run_after_waiting(m, a + b);
            },
            Some(n) => {
                lemma_command_len_bounds(a);
                lemma_command_len_stable(a, b);
                let next = apply_command(m, a.take(n as int));
                lemma_command_frame(m, a.take(n as int));
                assert((a + b).skip(n as int) =~= a.skip(n as int) + b);
                lemma_run_resumes(next, a.skip(n as int), b);
            },
        }
    }
}

/// Chunk independence: a stream that arrives in two chunks leaves the
/// parser in the state in which the same stream leaves it when it arrives
/// as one chunk, with the same elements and the same response bytes queued.
pub proof fn lemma_chunk_independence(m: ParserModel, a: Seq<u8>, b: Seq<u8>)
    ensures
        process_chunk(process_chunk(m, a), b) == process_chunk(m, a + b),
{
    lemma_run_resumes(m.with_pending(Seq::empty()), m.pending + a, b);
    assert((m.pending + a) + b =~= m.pending + (a + b));
}

/// The chunks of a stream put end to end.
pub open spec fn joined(chunks: Seq<Seq<u8>>) -> Seq<u8>
    decreases chunks.len(),
{
    if chunks.len() == 0 {
        Seq::empty()
    } else {
        joined(chunks.drop_last()) + chunks.last()
    }
}

/// The state after the chunks have arrived one after the other.
pub open spec fn process_chunks(m: ParserModel, chunks: Seq<Seq<u8>>) -> ParserModel
    decreases chunks.len(),
{
    if chunks.len() == 0 {
        m
    } else {
        process_chunk(process_chunks(m, chunks.drop_last()), chunks.last())
    }
}

/// Chunk independence for any partition: however a stream is cut into one
/// or more chunks, feeding the chunks in turn gives the state that feeding
/// the whole stream at once gives.
pub proof fn lemma_partition_independence(m: ParserModel, chunks: Seq<Seq<u8>>)
    requires
        chunks.len() >= 1,
    ensures
        process_chunks(m, chunks) == process_chunk(m, joined(chunks)),
    decreases chunks.len(),
{
    let earlier = chunks.drop_last();
    if earlier.len() == 0 {
        assert(joined(earlier) + chunks.last() =~= chunks.last());
    } else {
        lemma_partition_independence(m, earlier);
        lemma_chunk_independence(m, joined(earlier), chunks.last());
    }
}

/// The bytes that one complete command is answered with on the reverse
/// channel: the status byte for the real-time requests `DLE EOT` and
/// `DLE ENQ`, the answers to `GS a`, `GS I` and `GS r`, nothing for any
/// other command.
pub open spec fn command_response(cmd: Seq<u8>) -> Seq<u8> {
    if cmd[0] == DLE && (cmd[1] == 0x04 || cmd[1] == 0x05) {
        realtime_status()
    } else if cmd[0] == GS && (cmd[1] == 0x61 || cmd[1] == 0x49 || cmd[1] == 0x72) {
        query_response(cmd[1], cmd[2])
    } else {
        Seq::empty()
    }
}

/// The answers to the complete commands of a stream, in the order of the
/// commands.
pub open spec fn stream_responses(rest: Seq<u8>) -> Seq<u8>
    decreases rest.len(),
    via stream_responses_decreases
{
    if rest.len() == 0 {
        Seq::empty()
    } else {
        match command_len(rest) {
            None => Seq::empty(),
            Some(n) => command_response(rest.take(n as int)) + stream_responses(
                rest.skip(n as int),
            ),
        }
    }
}

#[via_fn]
proof fn stream_responses_decreases(rest: Seq<u8>) {
    if rest.len() > 0 {
        lemma_command_len_bounds(rest);
    }
}

/// A command queues its answer behind what is queued, and nothing else.
pub proof fn lemma_command_response(m: ParserModel, cmd: Seq<u8>)
    ensures
        apply_command(m, cmd).responses == m.responses + command_response(cmd),
{
    reveal(apply_command);
    let entered = m.entered();
    assert(apply_esc(entered, cmd).responses == m.responses) by {
        reveal(apply_esc);
        reveal(apply_column_image);
    }
    assert(apply_gs(entered, cmd).responses == m.responses + (if cmd[1] == 0x61 || cmd[1] == 0x49
        || cmd[1] == 0x72 {
        query_response(cmd[1], cmd[2])
    } else {
        Seq::empty()
    })) by {
        reveal(apply_gs);
        reveal(apply_row_image);
        reveal(apply_long_form_image);
        reveal(apply_qr);
        assert(m.responses + Seq::<u8>::empty() =~= m.responses);
    }
    assert(apply_dle(entered, cmd).responses == m.responses + (if cmd[1] == 0x04 || cmd[1] == 0x05 {
        realtime_status()
    } else {
        Seq::empty()
    })) by {
        reveal(apply_dle);
        assert(m.responses + Seq::<u8>::empty() =~= m.responses);
    }
    assert(apply_dc2(m, cmd).responses == m.responses) by {
        reveal(apply_dc2);
    }
    assert(m.responses + Seq::<u8>::empty() =~= m.responses);
}

/// Response ordering over a run: what is queued after a run is what was
/// queued before it, followed by the answers to the commands of the
/// stream, in the order of the commands.
pub proof fn lemma_run_responses(m: ParserModel, rest: Seq<u8>)
    ensures
        run(m, rest).responses == m.responses + stream_responses(rest),
    decreases rest.len(),
{
    if rest.len() == 0 {
        assert(m.responses + Seq::<u8>::empty() =~= m.responses);
    } else {
        match command_len(rest) {
            None => {
                assert(m.responses + Seq::<u8>::empty() =~= m.responses);
            },
            Some(n) => {
                lemma_command_len_bounds(rest);
                let cmd = rest.take(n as int);
                lemma_command_response(m, cmd);
                lemma_run_responses(apply_command(m, cmd), rest.skip(n as int));
                assert((m.responses + command_response(cmd)) + stream_responses(rest.skip(n as int))
                    =~= m.responses + (command_response(cmd) + stream_responses(
                    rest.skip(n as int),
                )));
            },
        }
    }
}

/// Response ordering: after a chunk, the response queue holds what it held
/// before, followed by the answers to the query commands among the pending
/// bytes and the chunk, in the order in which the commands stand there.
pub proof fn lemma_response_ordering(m: ParserModel, chunk: Seq<u8>)
    ensures
        process_chunk(m, chunk).responses == m.responses + stream_responses(m.pending + chunk),
{
    lemma_run_responses(m.with_pending(Seq::empty()), m.pending + chunk);
}

/// The bytes of a stream that stay pending: those from its first
/// incomplete command on.
pub open spec fn stream_tail(rest: Seq<u8>) -> Seq<u8>
    decreases rest.len(),
    via stream_tail_decreases
{
    if rest.len() == 0 {
        rest
    } else {
        match command_len(rest) {
            None => rest,
            Some(n) => stream_tail(rest.skip(n as int)),
        }
    }
}

#[via_fn]
proof fn stream_tail_decreases(rest: Seq<u8>) {
    if rest.len() > 0 {
        lemma_command_len_bounds(rest);
    }
}

/// What stays pending after a run depends on the stream alone.
pub proof fn lemma_run_pending(m: ParserModel, rest: Seq<u8>)
    ensures
        run(m, rest).pending == stream_tail(rest),
    decreases rest.len(),
{
    if rest.len() > 0 {
        match command_len(rest) {
            None => {},
            Some(n) => {
                lemma_command_len_bounds(rest);
                lemma_run_pending(apply_command(m, rest.take(n as int)), rest.skip(n as int));
            },
        }
    }
}

/// Response ordering across chunks: the answers to a first chunk, followed
/// by the answers to what it left pending and a second chunk, are the
/// answers to the two chunks as one stream. A host that sends the responses
/// back after every chunk sends the same bytes, in the same order, however
/// the stream was cut.
pub proof fn lemma_responses_across_chunks(a: Seq<u8>, b: Seq<u8>)
    ensures
        stream_responses(a) + stream_responses(stream_tail(a) + b) == stream_responses(a + b),
{
    let m = fresh_model();
    assert(m.pending =~= Seq::empty());
    assert(m.with_pending(Seq::empty()) == m);
    let first = run(m, a);
    lemma_run_resumes(m, a, b);
    lemma_run_pending(m, a);
    lemma_run_responses(m, a);
    lemma_run_responses(m, a + b);
    lemma_run_responses(first.with_pending(Seq::empty()), first.pending + b);
    assert(m.responses =~= Seq::empty());
    assert(stream_responses(a) + stream_responses(stream_tail(a) + b) =~= (m.responses
        + stream_responses(a)) + stream_responses(stream_tail(a) + b));
    assert(stream_responses(a + b) =~= m.responses + stream_responses(a + b));
}

/// The text element that flushing the line of `m` would emit.
pub open spec fn flushed_text(m: ParserModel) -> ElementModel {
    text_element(m.printer, line_text(m.printer.encoding, m.current_line))
}

/// Whether the command sets the horizontal offset: `ESC $` or `ESC \`.
pub open spec fn sets_offset(cmd: Seq<u8>) -> bool {
    cmd[0] == ESC && (cmd[1] == 0x24 || cmd[1] == 0x5C)
}

/// What a command may do to the line, the elements and the offset, whatever
/// the command is.
pub open spec fn keeps_text_apart(m: ParserModel, after: ParserModel) -> bool {
    let old_len = m.elements.len() as int;
    &&& after.elements.len() >= old_len
    &&& after.elements.subrange(0, old_len) == m.elements
    &&& forall|k: int|
        old_len <= k < after.elements.len() && #[trigger] after.elements[k] is Text
            ==> m.current_line.len() > 0 && after.elements[k] == flushed_text(m)
}

/// What a command may do to the one-shot offset: if the last element it
/// emits is placed by the offset, the offset is 0 afterwards; the first
/// element it emits, if placed by the offset, is placed at the offset that
/// was in force; and any later one follows a flushed line and is placed at 0.
pub open spec fn offset_is_one_shot(m: ParserModel, after: ParserModel) -> bool {
    let old_len = m.elements.len() as int;
    &&& after.elements.len() > old_len && after.elements.last().is_positioned()
        ==> after.printer.horizontal_offset == 0
    &&& forall|k: int|
        old_len <= k < after.elements.len() && (#[trigger] after.elements[k]).is_positioned()
            ==> if k == old_len {
            after.elements[k].placed_at() == m.printer.horizontal_offset
        } else {
            after.elements[k - 1] is Text && after.elements[k].placed_at() == 0
        }
}

/// Printing an image or a code keeps the text apart and uses up the offset.
proof fn lemma_prints(m: ParserModel, width: nat, height: nat, data: Seq<u8>, bytes_per_line: nat)
    ensures
        keeps_text_apart(m, m.print_image(width, height, data, bytes_per_line)),
        offset_is_one_shot(m, m.print_image(width, height, data, bytes_per_line)),
        m.print_image(width, height, data, bytes_per_line).current_line.len() == 0,
        m.print_image(width, height, data, bytes_per_line).printer.horizontal_offset == 0,
        keeps_text_apart(m, m.print_qr()),
        offset_is_one_shot(m, m.print_qr()),
        m.print_qr().current_line == m.current_line || m.print_qr().current_line.len() == 0,
        m.print_qr().printer.horizontal_offset == m.printer.horizontal_offset
            || m.print_qr().printer.horizontal_offset == 0,
{
    let image = m.print_image(width, height, data, bytes_per_line);
    assert(image.elements.subrange(0, m.elements.len() as int) =~= m.elements);
    let code = m.print_qr();
    assert(code.elements.subrange(0, m.elements.len() as int) =~= m.elements);
}

/// An ESC command keeps the text apart and treats the offset as one-shot.
proof fn lemma_esc_effect(m: ParserModel, cmd: Seq<u8>)
    ensures
        keeps_text_apart(m, apply_esc(m, cmd)),
        offset_is_one_shot(m, apply_esc(m, cmd)),
        apply_esc(m, cmd).current_line == m.current_line || apply_esc(m, cmd).current_line.len()
            == 0,
        apply_esc(m, cmd).printer.horizontal_offset == m.printer.horizontal_offset || apply_esc(
            m,
            cmd,
        ).printer.horizontal_offset == 0 || cmd[1] == 0x24 || cmd[1] == 0x5C,
{
    reveal(apply_esc);
    reveal(apply_column_image);
    let after = apply_esc(m, cmd);
    let width = le16(cmd[3], cmd[4]);
    let height = column_height(cmd[2]);
    lemma_prints(
        m,
        width,
        height,
        column_raster(cmd.subrange(5, cmd.len() as int), width, height),
        row_bytes(width),
    );
    assert(after.elements.subrange(0, m.elements.len() as int) =~= m.elements);
}

/// A GS command keeps the text apart and treats the offset as one-shot.
proof fn lemma_gs_effect(m: ParserModel, cmd: Seq<u8>)
    ensures
        keeps_text_apart(m, apply_gs(m, cmd)),
        offset_is_one_shot(m, apply_gs(m, cmd)),
        apply_gs(m, cmd).current_line == m.current_line || apply_gs(m, cmd).current_line.len() == 0,
        apply_gs(m, cmd).printer.horizontal_offset == m.printer.horizontal_offset || apply_gs(
            m,
            cmd,
        ).printer.horizontal_offset == 0,
{
    reveal(apply_gs);
    reveal(apply_row_image);
    reveal(apply_long_form_image);
    reveal(apply_qr);
    let after = apply_gs(m, cmd);
    lemma_prints(
        m,
        le16(cmd[4], cmd[5]) * 8,
        le16(cmd[6], cmd[7]),
        cmd.subrange(8, cmd.len() as int),
        le16(cmd[4], cmd[5]),
    );
    lemma_prints(
        m,
        le16(cmd[13], cmd[14]),
        le16(cmd[15], cmd[16]),
        cmd.subrange(17, cmd.len() as int),
        row_bytes(le16(cmd[13], cmd[14])),
    );
    assert(after.elements.subrange(0, m.elements.len() as int) =~= m.elements);
}

/// No leak: whatever the command, the elements already emitted stay as
/// they are, and a text element is emitted only for a line that holds
/// bytes, and holds that line as it stood before the command, decoded; no
/// byte of the command is in it. A
/// command of two bytes or more, parameters and payload included, adds no
/// byte to the line either: it leaves the line as it is or empties it.
pub proof fn lemma_no_leak(m: ParserModel, cmd: Seq<u8>)
    requires
        cmd.len() >= 1,
    ensures
        keeps_text_apart(m, apply_command(m, cmd)),
        cmd.len() >= 2 && command_len(cmd) == Some(cmd.len()) ==> apply_command(m, cmd).current_line
            == m.current_line || apply_command(m, cmd).current_line.len() == 0,
{
    reveal(apply_command);
    reveal(command_len);
    let after = apply_command(m, cmd);
    lemma_esc_effect(m.entered(), cmd);
    lemma_gs_effect(m.entered(), cmd);
    assert(apply_dle(m.entered(), cmd).elements == m.elements && apply_dle(
        m.entered(),
        cmd,
    ).current_line == m.current_line) by {
        reveal(apply_dle);
    }
    assert(apply_dc2(m, cmd).elements == m.elements && apply_dc2(m, cmd).current_line
        == m.current_line) by {
        reveal(apply_dc2);
    }
    assert(flushed_text(m.entered()) == flushed_text(m));
    assert(after.elements.subrange(0, m.elements.len() as int) =~= m.elements);
}

/// The commands that carry a payload span their header and the payload
/// that the header declares, no byte less: the three image formats when the
/// image is printed, the stored QR payload, the barcode with a length, and
/// the extended commands. With [`lemma_no_leak`], no byte of such a payload
/// reaches the line or a text element.
pub proof fn lemma_payload_spans(rest: Seq<u8>)
    requires
        rest.len() >= 2,
        command_len(rest) is Some,
    ensures
        ({
            let n = command_len(rest).unwrap();
            let family = rest[0];
            let c = rest[1];
            &&& family == ESC && c == 0x2A ==> n == 5 + column_bytes(
                rest[2],
                le16(rest[3], rest[4]),
            )
            &&& family == ESC && c == 0x28 ==> n == 5 + le16(rest[3], rest[4])
            &&& family == ESC && (c == 0x4B || c == 0x4C) ==> n == 4 + le16(rest[2], rest[3])
            &&& family == ESC && (c == 0x59 || c == 0x5A) ==> n == 4 + 2 * le16(rest[2], rest[3])
            &&& family == GS && c == 0x76 ==> n == 8 + le16(rest[4], rest[5]) * le16(
                rest[6],
                rest[7],
            )
            &&& family == GS && c == 0x38 && rest[2] == 0x4C && (rest[7] == 48 || rest[7] == 112)
                && long_form_accepted(
                le32(rest[3], rest[4], rest[5], rest[6]),
                le16(rest[13], rest[14]),
                le16(rest[15], rest[16]),
            ) ==> n == 17 + row_bytes(le16(rest[13], rest[14])) * le16(rest[15], rest[16])
            &&& family == GS && c == 0x38 && rest[2] != 0x4C ==> n == 7 + le32(
                rest[3],
                rest[4],
                rest[5],
                rest[6],
            )
            &&& family == GS && c == 0x28 && rest[2] != 0x6B ==> n == 5 + le16(rest[3], rest[4])
            &&& family == GS && c == 0x28 && rest[2] == 0x6B && rest[5] == 49 && rest[6] == 80
                && le16(rest[3], rest[4]) >= 3 ==> n == 5 + le16(rest[3], rest[4])
            &&& family == GS && c == 0x6B && rest[2] >= 6 ==> n == 4 + rest[3]
            &&& family == FS && c == 0x28 ==> n == 5 + le16(rest[3], rest[4])
            &&& family == FS && c == 0x71 && rest[2] != 0 ==> n == 7 + row_bytes(
                le16(rest[3], rest[4]),
            ) * le16(rest[5], rest[6])
        }),
{
    reveal(command_len);
    reveal(esc_len);
    reveal(gs_len);
    reveal(gs_8l_len);
    reveal(qr_len);
    reveal(fs_len);
}

/// After an image, text bytes stay off the line until the line ends: a
/// payload whose length was miscounted cannot spill into the text.
pub proof fn lemma_text_waits_after_image(m: ParserModel, b: u8)
    requires
        m.last_was_binary,
        is_printable(b),
    ensures
        apply_command(m, seq![b]) == m,
{
    reveal(apply_command);
}

/// One-shot offset: a command that ends by emitting a text, an image or a
/// QR code leaves the horizontal offset at 0; the first element that a
/// command emits, if it is one of those, is placed at the offset that was
/// in force, and an image or a code that follows the line flushed before it
/// is placed at 0; and no command but `ESC $` and `ESC \` changes the
/// offset to anything but 0.
pub proof fn lemma_one_shot_offset(m: ParserModel, cmd: Seq<u8>)
    requires
        cmd.len() >= 1,
    ensures
        offset_is_one_shot(m, apply_command(m, cmd)),
        apply_command(m, cmd).printer.horizontal_offset == m.printer.horizontal_offset
            || apply_command(m, cmd).printer.horizontal_offset == 0 || sets_offset(cmd),
{
    reveal(apply_command);
    lemma_esc_effect(m.entered(), cmd);
    lemma_gs_effect(m.entered(), cmd);
    assert(apply_dle(m.entered(), cmd).elements == m.elements && apply_dle(
        m.entered(),
        cmd,
    ).printer == m.printer) by {
        reveal(apply_dle);
    }
    assert(apply_dc2(m, cmd).elements == m.elements && apply_dc2(m, cmd).printer.horizontal_offset
        == m.printer.horizontal_offset) by {
        reveal(apply_dc2);
    }
}

/// Whether no complete command of the stream sets the horizontal offset.
pub open spec fn offset_free(rest: Seq<u8>) -> bool
    decreases rest.len(),
    via offset_free_decreases
{
    if rest.len() == 0 {
        true
    } else {
        match command_len(rest) {
            None => true,
            Some(n) => !sets_offset(rest.take(n as int)) && offset_free(rest.skip(n as int)),
        }
    }
}

#[via_fn]
proof fn offset_free_decreases(rest: Seq<u8>) {
    if rest.len() > 0 {
        lemma_command_len_bounds(rest);
    }
}

/// A run only appends to the element queue.
pub proof fn lemma_run_appends(m: ParserModel, rest: Seq<u8>)
    ensures
        run(m, rest).elements.len() >= m.elements.len(),
        run(m, rest).elements.subrange(0, m.elements.len() as int) == m.elements,
    decreases rest.len(),
{
    if rest.len() == 0 {
        assert(m.elements.subrange(0, m.elements.len() as int) =~= m.elements);
    } else {
        match command_len(rest) {
            None => {
                assert(m.elements.subrange(0, m.elements.len() as int) =~= m.elements);
            },
            Some(n) => {
                lemma_command_len_bounds(rest);
                let cmd = rest.take(n as int);
                let next = apply_command(m, cmd);
                let end = run(next, rest.skip(n as int));
                lemma_no_leak(m, cmd);
                lemma_run_appends(next, rest.skip(n as int));
                assert(end.elements.subrange(0, m.elements.len() as int) =~= end.elements.subrange(
                    0,
                    next.elements.len() as int,
                ).subrange(0, m.elements.len() as int));
            },
        }
    }
}

/// One-shot offset over a stream: once the offset is 0, as it is after
/// every text, image and QR code, it stays 0 and every such element is
/// placed at 0, for as long as the stream holds no `ESC $` and no `ESC \`.
pub proof fn lemma_spent_offset_stays_spent(m: ParserModel, rest: Seq<u8>)
    requires
        m.printer.horizontal_offset == 0,
        offset_free(rest),
    ensures
        run(m, rest).printer.horizontal_offset == 0,
        forall|k: int|
            m.elements.len() <= k < run(m, rest).elements.len() && (#[trigger] run(
                m,
                rest,
            ).elements[k]).is_positioned() ==> run(m, rest).elements[k].placed_at() == 0,
    decreases rest.len(),
{
    if rest.len() > 0 {
        match command_len(rest) {
            None => {},
            Some(n) => {
                lemma_command_len_bounds(rest);
                let cmd = rest.take(n as int);
                let next = apply_command(m, cmd);
                let end = run(next, rest.skip(n as int));
                lemma_one_shot_offset(m, cmd);
                lemma_no_leak(m, cmd);
                lemma_spent_offset_stays_spent(next, rest.skip(n as int));
                lemma_run_appends(next, rest.skip(n as int));
                assert forall|k: int|
                    m.elements.len() <= k < end.elements.len() && (#[trigger] end.elements[k]).is_positioned() implies end.elements[k].placed_at()
                    == 0 by {
                    if k < next.elements.len() {
                        assert(end.elements.subrange(0, next.elements.len() as int)[k]
                            == end.elements[k]);
                        assert(next.elements[k].is_positioned());
                    }
                }
            },
        }
    }
}

/// What `ESC @` leaves of a state: the formatting of a printer just
/// switched on, and no command sequence open.
pub open spec fn initialized(m: ParserModel) -> ParserModel {
    ParserModel { printer: PrinterState::initial(), in_command_sequence: false, ..m }
}

/// Init idempotence: `ESC @` resets the formatting to that of a freshly
/// made parser and touches nothing else, so a second `ESC @` changes
/// nothing.
pub proof fn lemma_init_idempotent(m: ParserModel)
    ensures
        apply_command(m, seq![ESC, 0x40u8]) == initialized(m),
        apply_command(apply_command(m, seq![ESC, 0x40u8]), seq![ESC, 0x40u8]) == apply_command(
            m,
            seq![ESC, 0x40u8],
        ),
        initialized(m).printer == fresh_model().printer,
{
    reveal(apply_command);
    reveal(apply_esc);
}

/// Init idempotence on the stream: with nothing pending, a chunk of two
/// `ESC @` leaves the parser where a chunk of one leaves it, and so does
/// one `ESC @` after another.
pub proof fn lemma_init_twice(m: ParserModel)
    requires
        m.pending.len() == 0,
    ensures
        process_chunk(m, seq![ESC, 0x40u8]) == initialized(m),
        process_chunk(m, seq![ESC, 0x40u8, ESC, 0x40u8]) == initialized(m),
        process_chunk(process_chunk(m, seq![ESC, 0x40u8]), seq![ESC, 0x40u8]) == initialized(m),
{
    let init = seq![ESC, 0x40u8];
    let twice = seq![ESC, 0x40u8, ESC, 0x40u8];
    let start = m.with_pending(Seq::empty());
    assert(m.pending =~= Seq::empty());
    assert(start == m);
    assert(m.pending + init =~= init);
    assert(m.pending + twice =~= twice);
    lemma_init_idempotent(m);
    lemma_init_idempotent(initialized(m));
    assert(command_len(init) == Some(2nat) && command_len(twice) == Some(2nat)) by {
        reveal(command_len);
        reveal(esc_len);
    }
    assert(init.take(2) =~= init);
    assert(init.skip(2) =~= Seq::<u8>::empty());
    assert(twice.take(2) =~= init);
    assert(twice.skip(2) =~= init);
    reveal_with_fuel(run, 3);
    assert(run(m, init) == initialized(m));
    assert(run(initialized(m), init) == initialized(m));
    assert(run(m, twice) == initialized(m));
    assert(init + init =~= twice);
    lemma_chunk_independence(m, init, init);
}

/// A lone ESC waits: with nothing pending, a chunk that is a single ESC
/// byte emits nothing and changes no formatting; the byte stays pending and
/// the command sequence stays open.
pub proof fn lemma_lone_escape_waits(m: ParserModel)
    requires
        m.pending.len() == 0,
    ensures
        process_chunk(m, seq![ESC]) == m.entered().with_pending(seq![ESC]),
{
    let lone = seq![ESC];
    assert(m.pending + lone =~= lone);
    assert(command_len(lone) is None) by {
        reveal(command_len);
        reveal(esc_len);
    }
}

/// An image without width emits nothing: `ESC *` with a width of 0,
/// `GS v 0` with 0 bytes a row and `GS 8 L` with a width of 0 leave the
/// element queue as it is.
pub proof fn lemma_zero_width_image(m: ParserModel, cmd: Seq<u8>)
    requires
        cmd.len() >= 2,
        ({
            ||| cmd[0] == ESC && cmd[1] == 0x2A && le16(cmd[3], cmd[4]) == 0
            ||| cmd[0] == GS && cmd[1] == 0x76 && le16(cmd[4], cmd[5]) == 0
            ||| cmd[0] == GS && cmd[1] == 0x38 && cmd[2] == 0x4C && le16(cmd[13], cmd[14]) == 0
        }),
    ensures
        apply_command(m, cmd).elements == m.elements,
{
    reveal(apply_command);
    reveal(apply_esc);
    reveal(apply_gs);
    reveal(apply_column_image);
    reveal(apply_row_image);
    reveal(apply_long_form_image);
}

/// Whether no form feed in the queue directly follows another.
pub open spec fn form_feeds_apart(elements: Seq<ElementModel>) -> bool {
    forall|k: int|
        0 < k < elements.len() && #[trigger] elements[k] is FormFeed ==> !(elements[k - 1]
            is FormFeed)
}

/// Form feeds collapse: no command puts a form feed right behind another.
pub proof fn lemma_form_feeds_collapse(m: ParserModel, cmd: Seq<u8>)
    requires
        cmd.len() >= 1,
        form_feeds_apart(m.elements),
    ensures
        form_feeds_apart(apply_command(m, cmd).elements),
{
    reveal(apply_command);
    let after = apply_command(m, cmd);
    assert(apply_esc(m.entered(), cmd).elements.len() >= m.elements.len() && forall|k: int|
        m.elements.len() <= k < apply_esc(m.entered(), cmd).elements.len() ==> !(#[trigger] apply_esc(
            m.entered(),
            cmd,
        ).elements[k] is FormFeed)) by {
        reveal(apply_esc);
        reveal(apply_column_image);
    }
    assert(apply_gs(m.entered(), cmd).elements.len() >= m.elements.len() && forall|k: int|
        m.elements.len() <= k < apply_gs(m.entered(), cmd).elements.len() ==> !(#[trigger] apply_gs(
            m.entered(),
            cmd,
        ).elements[k] is FormFeed)) by {
        reveal(apply_gs);
        reveal(apply_row_image);
        reveal(apply_long_form_image);
        reveal(apply_qr);
    }
    assert(apply_dle(m.entered(), cmd).elements == m.elements) by {
        reveal(apply_dle);
    }
    assert(apply_dc2(m, cmd).elements == m.elements) by {
        reveal(apply_dc2);
    }
    lemma_no_leak(m, cmd);
    assert forall|k: int| 0 < k < after.elements.len() && #[trigger] after.elements[k]
        is FormFeed implies !(after.elements[k - 1] is FormFeed) by {
        if k < m.elements.len() {
            assert(after.elements.subrange(0, m.elements.len() as int)[k] == after.elements[k]);
            assert(after.elements.subrange(0, m.elements.len() as int)[k - 1] == after.elements[k
                - 1]);
            assert(m.elements[k] is FormFeed);
        } else if k == m.elements.len() {
            assert(after.elements.subrange(0, m.elements.len() as int)[k - 1] == after.elements[k
                - 1]);
        }
    }
}

/// No leading blank line: a line terminator that finds the line empty and
/// nothing emitted emits nothing.
pub proof fn lemma_no_leading_blank_line(m: ParserModel, terminator: u8)
    requires
        terminator == LF || terminator == CR,
        m.current_line.len() == 0,
        m.elements.len() == 0,
    ensures
        apply_command(m, seq![terminator]).elements == m.elements,
{
    reveal(apply_command);
}

} // verus!
