//! Where one command of the byte stream ends.
//!
//! The length of a command depends on its own bytes alone. A command is
//! complete once every byte that its length depends on, and every byte that
//! it spans, has arrived; until then the stream waits.

use vstd::prelude::*;

verus! {

pub const NUL: u8 = 0x00;

pub const BS: u8 = 0x08;

pub const HT: u8 = 0x09;

pub const LF: u8 = 0x0A;

pub const FF: u8 = 0x0C;

pub const CR: u8 = 0x0D;

pub const DLE: u8 = 0x10;

pub const DC2: u8 = 0x12;

pub const ESC: u8 = 0x1B;

pub const FS: u8 = 0x1C;

pub const GS: u8 = 0x1D;

/// Widest column-format image, in dots, that is printed.
pub const MAX_COLUMN_WIDTH: usize = 10000;

/// Most data bytes of a column-format image that is printed.
pub const MAX_COLUMN_BYTES: usize = 1_000_000;

/// Largest side, in dots, of a row-format image that is printed.
pub const MAX_RASTER_SIDE: usize = 10000;

/// Most bitmap bytes of a row-format image that is printed.
pub const MAX_RASTER_BYTES: usize = 5_000_000;

/// Longest declared block of a long-form image that is printed.
pub const MAX_LONG_FORM_BLOCK: usize = 100_000;

/// A 16-bit number, low byte first.
pub open spec fn le16(lo: u8, hi: u8) -> nat {
    lo as nat + 256 * (hi as nat)
}

/// A 32-bit number, low byte first.
pub open spec fn le32(b0: u8, b1: u8, b2: u8, b3: u8) -> nat {
    b0 as nat + 256 * (b1 as nat) + 65536 * (b2 as nat) + 16777216 * (b3 as nat)
}

/// Bytes that hold a row of `width` dots.
pub open spec fn row_bytes(width: nat) -> nat {
    (width + 7) / 8
}

/// `a - b`, or 0 where `b` is the larger.
pub open spec fn minus(a: nat, b: nat) -> nat {
    if a >= b {
        (a - b) as nat
    } else {
        0
    }
}

/// Whether the byte opens a multi-byte command.
pub open spec fn is_introducer(b: u8) -> bool {
    b == ESC || b == GS || b == FS || b == DLE
}

/// Whether the byte is text: 0x20 and above, but for DEL.
pub open spec fn is_printable(b: u8) -> bool {
    b >= 0x20 && b != 0x7F
}

/// A command of `n` bytes, once all of them have arrived.
pub open spec fn whole(rest: Seq<u8>, n: nat) -> Option<nat> {
    if n <= rest.len() {
        Some(n)
    } else {
        None
    }
}

/// A command that runs up to and including the first NUL at or after `from`.
pub open spec fn through_nul(rest: Seq<u8>, from: nat) -> Option<nat>
    decreases rest.len() - from,
{
    if from >= rest.len() {
        None
    } else if rest[from as int] == NUL {
        Some(from + 1)
    } else {
        through_nul(rest, from + 1)
    }
}

/// Dot rows of a column-format image in mode `m`.
pub open spec fn column_height(m: u8) -> nat {
    if m == 32 || m == 33 {
        24
    } else {
        8
    }
}

/// Data bytes of a column-format image in mode `m`, `width` columns wide.
pub open spec fn column_bytes(m: u8, width: nat) -> nat {
    width * (column_height(m) / 8)
}

/// Data bytes of `ESC &` for characters `c1..=c2`, each `y` bytes high.
pub open spec fn glyph_bytes(y: u8, c1: u8, c2: u8) -> nat {
    if c2 >= c1 {
        ((c2 - c1 + 1) * (y * 2)) as nat
    } else {
        0
    }
}

/// Whether an ESC command is one parameter byte long: every command but
/// those with none, with several, or with a payload.
pub open spec fn esc_takes_one(c: u8) -> bool {
    &&& c != 0x40 /* @ */ && c != 0x32 /* 2 */ && c != 0x69 /* i */ && c != 0x3C /* < */
    &&& c != 0x2A /* * */ && c != 0x70 /* p */
    &&& c != 0x24 /* $ */ && c != 0x5C /* \ */ && c != 0x63 /* c */
    &&& c != 0x4B /* K */ && c != 0x4C /* L */ && c != 0x59 /* Y */ && c != 0x5A /* Z */
    &&& c != 0x44 /* D */ && c != 0x57 /* W */ && c != 0x28 /* ( */ && c != 0x26 /* & */
}

/// Length of the command that `rest`, which starts with ESC, begins with.
#[verifier::opaque]
pub open spec fn esc_len(rest: Seq<u8>) -> Option<nat> {
    if rest.len() < 2 {
        None
    } else {
        let c = rest[1];
        if c == 0x40 /* @ */ || c == 0x32 /* 2 */ || c == 0x69 /* i */ || c == 0x3C /* < */ {
            Some(2)
        } else if c == 0x2A /* * */ {
            if rest.len() < 5 {
                None
            } else {
                whole(rest, 5 + column_bytes(rest[2], le16(rest[3], rest[4])))
            }
        } else if c == 0x70 /* p */ {
            whole(rest, 5)
        } else if c == 0x24 /* $ */ || c == 0x5C /* \ */ || c == 0x63 /* c */ {
            whole(rest, 4)
        } else if c == 0x4B /* K */ || c == 0x4C /* L */ {
            if rest.len() < 4 {
                None
            } else {
                whole(rest, 4 + le16(rest[2], rest[3]))
            }
        } else if c == 0x59 /* Y */ || c == 0x5A /* Z */ {
            if rest.len() < 4 {
                None
            } else {
                whole(rest, 4 + 2 * le16(rest[2], rest[3]))
            }
        } else if c == 0x44 /* D */ {
            through_nul(rest, 2)
        } else if c == 0x57 /* W */ {
            whole(rest, 10)
        } else if c == 0x28 /* ( */ {
            if rest.len() < 5 {
                None
            } else {
                whole(rest, 5 + le16(rest[3], rest[4]))
            }
        } else if c == 0x26 /* & */ {
            if rest.len() < 5 {
                None
            } else {
                whole(rest, 5 + glyph_bytes(rest[2], rest[3], rest[4]))
            }
        } else {
            whole(rest, 3)
        }
    }
}

/// Whether a long-form image with this declared block and these dimensions
/// is printed rather than skipped.
pub open spec fn long_form_accepted(block: nat, width: nat, height: nat) -> bool {
    block <= MAX_LONG_FORM_BLOCK && row_bytes(width) * height <= MAX_RASTER_BYTES
}

/// Length of the command that `rest`, which starts with `GS 8 L`, begins
/// with.
#[verifier::opaque]
pub open spec fn gs_8l_len(rest: Seq<u8>) -> Option<nat> {
    if rest.len() < 13 {
        None
    } else {
        let block = le32(rest[3], rest[4], rest[5], rest[6]);
        let m = rest[7];
        if m == 48 || m == 112 {
            if rest.len() < 17 {
                None
            } else {
                let width = le16(rest[13], rest[14]);
                let height = le16(rest[15], rest[16]);
                if long_form_accepted(block, width, height) {
                    whole(rest, 17 + row_bytes(width) * height)
                } else {
                    whole(rest, 13 + minus(block, 6))
                }
            }
        } else {
            whole(rest, 13 + minus(block, 6))
        }
    }
}

/// Length of the command that `rest`, which starts with `GS ( k`, begins
/// with.
#[verifier::opaque]
pub open spec fn qr_len(rest: Seq<u8>) -> Option<nat> {
    if rest.len() < 7 {
        None
    } else {
        let block = le16(rest[3], rest[4]);
        let cn = rest[5];
        let function = rest[6];
        if cn != 49 {
            whole(rest, 7 + minus(block, 2))
        } else if function == 65 || function == 67 || function == 69 {
            whole(rest, 8)
        } else if function == 80 {
            if block >= 3 {
                whole(rest, 5 + block)
            } else {
                Some(7)
            }
        } else {
            whole(rest, 7 + minus(block, 2))
        }
    }
}

/// Whether a GS command is skipped whole: the extended commands other
/// than images and QR codes, the vertical position and the barcodes.
pub open spec fn gs_is_skipped(rest: Seq<u8>) -> bool {
    ||| rest[1] == 0x38 /* 8 */ && rest.len() >= 3 && rest[2] != 0x4C /* L */
    ||| rest[1] == 0x28 /* ( */ && rest.len() >= 3 && rest[2] != 0x6B /* k */
    ||| rest[1] == 0x24 /* $ */
    ||| rest[1] == 0x6B /* k */
}

/// Length of the command that `rest`, which starts with GS, begins with.
#[verifier::opaque]
pub open spec fn gs_len(rest: Seq<u8>) -> Option<nat> {
    if rest.len() < 2 {
        None
    } else {
        let c = rest[1];
        if c == 0x38 /* 8 */ {
            if rest.len() < 3 {
                None
            } else if rest[2] == 0x4C /* L */ {
                gs_8l_len(rest)
            } else if rest.len() < 7 {
                None
            } else {
                whole(rest, 7 + le32(rest[3], rest[4], rest[5], rest[6]))
            }
        } else if c == 0x76 /* v */ {
            if rest.len() < 8 {
                None
            } else {
                whole(rest, 8 + le16(rest[4], rest[5]) * le16(rest[6], rest[7]))
            }
        } else if c == 0x4C /* L */ || c == 0x57 /* W */ || c == 0x24 /* $ */ {
            whole(rest, 4)
        } else if c == 0x6B /* k */ {
            if rest.len() < 3 {
                None
            } else if rest[2] < 6 {
                through_nul(rest, 3)
            } else if rest.len() < 4 {
                None
            } else {
                whole(rest, 4 + rest[3] as nat)
            }
        } else if c == 0x28 /* ( */ {
            if rest.len() < 3 {
                None
            } else if rest[2] == 0x6B /* k */ {
                qr_len(rest)
            } else if rest.len() < 5 {
                None
            } else {
                whole(rest, 5 + le16(rest[3], rest[4]))
            }
        } else {
            whole(rest, 3)
        }
    }
}

/// Whether a byte that follows an unlisted FS command is taken for its
/// parameter: one that cannot itself begin a command or be text.
pub open spec fn is_fs_parameter(b: u8) -> bool {
    b < 0x1B || b > 0x7E
}

/// Length of the command that `rest`, which starts with FS, begins with.
#[verifier::opaque]
pub open spec fn fs_len(rest: Seq<u8>) -> Option<nat> {
    if rest.len() < 2 {
        None
    } else {
        let c = rest[1];
        if c == 0x2E /* . */ {
            if rest.len() < 3 {
                None
            } else if is_introducer(rest[2]) {
                Some(2)
            } else {
                Some(3)
            }
        } else if c == 0x70 /* p */ {
            whole(rest, 4)
        } else if c == 0x71 /* q */ {
            if rest.len() < 3 {
                None
            } else if rest[2] == 0 {
                Some(3)
            } else if rest.len() < 7 {
                None
            } else {
                whole(rest, 7 + row_bytes(le16(rest[3], rest[4])) * le16(rest[5], rest[6]))
            }
        } else if c == 0x28 /* ( */ {
            if rest.len() < 5 {
                None
            } else {
                whole(rest, 5 + le16(rest[3], rest[4]))
            }
        } else if c == 0x43 /* C */ || c == 0x67 /* g */ || c == 0x21 /* ! */ || c == 0x26 /* & */ || c == 0x53 /* S */ || c == 0x2D /* - */ {
            whole(rest, 3)
        } else if rest.len() < 3 {
            None
        } else if !is_fs_parameter(rest[2]) {
            Some(2)
        } else if rest[2] <= 0x7F {
            Some(3)
        } else if rest.len() < 4 {
            None
        } else if is_fs_parameter(rest[3]) {
            Some(4)
        } else {
            Some(3)
        }
    }
}

/// Length of the command that `rest`, which starts with DLE, begins with.
#[verifier::opaque]
pub open spec fn dle_len(rest: Seq<u8>) -> Option<nat> {
    if rest.len() < 2 {
        None
    } else if rest[1] == 0x04 || rest[1] == 0x05 {
        whole(rest, 3)
    } else if rest[1] == 0x14 {
        whole(rest, 4)
    } else {
        Some(2)
    }
}

/// Length of the command that `rest`, which starts with DC2, begins with.
#[verifier::opaque]
pub open spec fn dc2_len(rest: Seq<u8>) -> Option<nat> {
    if rest.len() < 2 {
        None
    } else if rest[1] == 0x23 /* # */ {
        whole(rest, 3)
    } else {
        Some(1)
    }
}

/// Length of the command at the head of a non-empty `rest`, or `None`
/// while the command is incomplete.
#[verifier::opaque]
pub open spec fn command_len(rest: Seq<u8>) -> Option<nat> {
    let b = rest[0];
    if b == ESC {
        esc_len(rest)
    } else if b == GS {
        gs_len(rest)
    } else if b == FS {
        fs_len(rest)
    } else if b == DLE {
        dle_len(rest)
    } else if b == DC2 {
        dc2_len(rest)
    } else {
        Some(1)
    }
}

/// A search for NUL that succeeds ends inside the bytes it was given.
pub proof fn lemma_through_nul_bounds(rest: Seq<u8>, from: nat)
    ensures
        through_nul(rest, from) matches Some(n) ==> from < n <= rest.len(),
    decreases rest.len() - from,
{
    if from < rest.len() && rest[from as int] != NUL {
        lemma_through_nul_bounds(rest, from + 1);
    }
}

/// A search for NUL that succeeds gives the same end when more bytes follow.
pub proof fn lemma_through_nul_stable(rest: Seq<u8>, more: Seq<u8>, from: nat)
    ensures
        through_nul(rest, from) is Some ==> through_nul(rest + more, from) == through_nul(
            rest,
            from,
        ),
    decreases rest.len() - from,
{
    if from < rest.len() {
        assert((rest + more)[from as int] == rest[from as int]);
        if rest[from as int] != NUL {
            lemma_through_nul_stable(rest, more, from + 1);
        }
    }
}

/// A complete command has at least one byte and lies within the bytes that
/// have arrived.
pub proof fn lemma_command_len_bounds(rest: Seq<u8>)
    requires
        rest.len() > 0,
    ensures
        command_len(rest) matches Some(n) ==> 1 <= n <= rest.len(),
{
    reveal(command_len);
    reveal(esc_len);
    reveal(gs_len);
    reveal(gs_8l_len);
    reveal(qr_len);
    reveal(fs_len);
    reveal(dle_len);
    reveal(dc2_len);
    lemma_through_nul_bounds(rest, 2);
    lemma_through_nul_bounds(rest, 3);
}

/// A command that is complete stays the same command, of the same length,
/// whatever bytes arrive after it.
pub proof fn lemma_command_len_stable(rest: Seq<u8>, more: Seq<u8>)
    requires
        rest.len() > 0,
        command_len(rest) is Some,
    ensures
        command_len(rest + more) == command_len(rest),
        (rest + more).take(command_len(rest).unwrap() as int) == rest.take(
            command_len(rest).unwrap() as int,
        ),
{
    reveal(command_len);
    reveal(esc_len);
    reveal(gs_len);
    reveal(gs_8l_len);
    reveal(qr_len);
    reveal(fs_len);
    reveal(dle_len);
    reveal(dc2_len);
    let all = rest + more;
    assert forall|i: int| 0 <= i < rest.len() implies #[trigger] all[i] == rest[i] by {}
    lemma_through_nul_stable(rest, more, 2);
    lemma_through_nul_stable(rest, more, 3);
    lemma_command_len_bounds(rest);
    let n = command_len(rest).unwrap() as int;
    assert(all.take(n) =~= rest.take(n));
}

} // verus!
